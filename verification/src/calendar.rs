//! Day arithmetic through the `time` crate: weekdays, weeks and offsets in days.
use crate::dates::{is_leap_year, valid_calendar_date, Date, Month, MAX_YEAR, MIN_YEAR};
use crate::model::day_structure::{holiday_day_structure, DayStructure};
use crate::model::location::Location;
use vstd::prelude::*;

verus! {

/// The days of year `y` before month `m` (from 1 to 12).
pub open spec fn days_before_month(y: int, m: int) -> int {
    let l: int = if is_leap_year(y) { 1 } else { 0 };
    if m <= 1 {
        0
    } else if m == 2 {
        31
    } else if m == 3 {
        59 + l
    } else if m == 4 {
        90 + l
    } else if m == 5 {
        120 + l
    } else if m == 6 {
        151 + l
    } else if m == 7 {
        181 + l
    } else if m == 8 {
        212 + l
    } else if m == 9 {
        243 + l
    } else if m == 10 {
        273 + l
    } else if m == 11 {
        304 + l
    } else {
        334 + l
    }
}

/// The days before year `y` as `time` counts them, from a year shifted to be positive.
pub open spec fn days_before_year(y: int) -> int {
    let a = y + 999_999;
    let c = a / 100;
    1461 * a / 4 - c + c / 4
}

/// The Julian day number that `time` gives a date (`Date::to_julian_day`): the count
/// of days from 24 November 4714 BC of the proleptic Gregorian calendar, computed
/// from the days before the year and the day of the year.
#[verifier::opaque]
pub open spec fn julian_day(year: int, month: int, day: int) -> int {
    days_before_year(year) + days_before_month(year, month) + day - 363_521_075
}

/// A year has 365 days, 366 in a leap year.
proof fn lemma_year_length(y: int)
    requires
        y >= -999_999,
    ensures
        days_before_year(y + 1) == days_before_year(y) + 365 + (if is_leap_year(y) { 1int } else { 0 }),
{
    let a = y + 999_999;
    let c = a / 100;
    let c1 = (a + 1) / 100;
    assert(1461 * (a + 1) / 4 == 365 * (a + 1) + (a + 1) / 4) by (nonlinear_arith)
        requires a >= 0;
    assert(1461 * a / 4 == 365 * a + a / 4) by (nonlinear_arith)
        requires a >= 0;
    assert((a + 1) / 4 - a / 4 == (if (a + 1) % 4 == 0 { 1int } else { 0 }));
    assert(c1 - c == (if (a + 1) % 100 == 0 { 1int } else { 0 }));
    assert((a + 1) % 4 == y % 4);
    assert((a + 1) % 100 == y % 100);
    if (a + 1) % 100 == 0 {
        assert(c1 == (y + 1_000_000) / 100);
        assert(c1 % 4 == 0 <==> y % 400 == 0);
        assert(c1 / 4 - c / 4 == (if c1 % 4 == 0 { 1int } else { 0 }));
    } else {
        assert(c1 == c);
    }
}

/// Later years start later.
proof fn lemma_years_ordered(y1: int, y2: int)
    requires
        -999_999 <= y1 < y2,
    ensures
        days_before_year(y2) >= days_before_year(y1 + 1),
    decreases y2 - y1,
{
    if y2 > y1 + 1 {
        lemma_years_ordered(y1, y2 - 1);
        lemma_year_length(y2 - 1);
    }
}

/// The Julian days of real dates follow the calendar: one date comes before another
/// exactly when its Julian day is smaller, and two dates share a Julian day only when
/// they are the same date.
pub proof fn lemma_jd_order(a: Date, b: Date)
    requires
        a.wf(),
        b.wf(),
    ensures
        a.is_before(b) <==> jd(a) < jd(b),
        a == b <==> jd(a) == jd(b),
{
    if a.is_before(b) {
        lemma_jd_before(a, b);
    }
    if b.is_before(a) {
        lemma_jd_before(b, a);
    }
    if !a.is_before(b) && !b.is_before(a) {
        crate::dates::lemma_date_ext(a, b);
    }
}

proof fn lemma_jd_before(a: Date, b: Date)
    requires
        a.wf(),
        b.wf(),
        a.is_before(b),
    ensures
        jd(a) < jd(b),
{
    lemma_julian_before(a.y(), a.m(), a.d(), b.y(), b.m(), b.d());
}

/// Real dates given by their parts: the earlier one has the smaller Julian day.
proof fn lemma_julian_before(y1: int, m1: int, d1: int, y2: int, m2: int, d2: int)
    requires
        valid_calendar_date(y1, m1, d1),
        valid_calendar_date(y2, m2, d2),
        y1 < y2 || (y1 == y2 && m1 < m2) || (y1 == y2 && m1 == m2 && d1 < d2),
    ensures
        julian_day(y1, m1, d1) < julian_day(y2, m2, d2),
{
    reveal(julian_day);
    if y1 < y2 {
        lemma_years_ordered(y1, y2);
        lemma_year_length(y1);
    }
}

/// The month before month `m` of year `y`, with its year.
pub open spec fn preceding_month(y: int, m: int) -> (int, int) {
    if m == 1 { (y - 1, 12) } else { (y, m - 1) }
}

/// The day before the first of a month is the last day of the month before.
proof fn lemma_day_before_first(x: Date, first: Date)
    requires
        x.wf(),
        first.wf(),
        first.d() == 1,
        jd(x) == jd(first) - 1,
    ensures
        x.y() == preceding_month(first.y(), first.m()).0,
        x.m() == preceding_month(first.y(), first.m()).1,
        x.d() == crate::dates::days_in_month(x.y(), x.m()),
{
    let (py, pm) = preceding_month(first.y(), first.m());
    let pd = crate::dates::days_in_month(py, pm);
    if first.y() == MIN_YEAR && first.m() == 1 {
        // No real date comes before the first day that `time` holds.
        if !(x.y() == first.y() && x.m() == first.m() && x.d() == first.d()) {
            lemma_julian_before(first.y(), first.m(), first.d(), x.y(), x.m(), x.d());
        }
    } else {
        assert(valid_calendar_date(py, pm, pd));
        assert(julian_day(py, pm, pd) == julian_day(first.y(), first.m(), first.d()) - 1) by {
            reveal(julian_day);
            if first.m() == 1 {
                lemma_year_length(py);
            }
        }
        if x.y() < py || (x.y() == py && x.m() < pm) || (x.y() == py && x.m() == pm && x.d() < pd) {
            lemma_julian_before(x.y(), x.m(), x.d(), py, pm, pd);
        } else if py < x.y() || (py == x.y() && pm < x.m()) || (py == x.y() && pm == x.m() && pd < x.d()) {
            lemma_julian_before(py, pm, pd, x.y(), x.m(), x.d());
        }
    }
}

/// The date whose Julian day is one less than that of the first of a month is the
/// last day of the month before.
pub proof fn lemma_month_boundary(last: Date, first: Date)
    requires
        last.wf(),
        first.wf(),
        first.d() == 1,
        jd(last) == jd(first) - 1,
    ensures
        (last.y(), last.m()) == preceding_month(first.y(), first.m()),
        last.d() == crate::dates::days_in_month(last.y(), last.m()),
{
    lemma_day_before_first(last, first);
}

/// The Julian day of a date.
pub open spec fn jd(d: Date) -> int {
    julian_day(d.y(), d.m(), d.d())
}

/// The Julian days of the first and the last date that `time` holds.
pub open spec fn jd_min() -> int {
    julian_day(MIN_YEAR as int, 1, 1)
}

pub open spec fn jd_max() -> int {
    julian_day(MAX_YEAR as int, 12, 31)
}

/// `time::Date::to_julian_day`: the Julian day of the date, which lies between
/// those of the first and the last date that `time` holds.
#[verifier::external_body]
fn time_to_julian_day(year: i32, month: u8, day: u8) -> (r: i32)
    requires
        valid_calendar_date(year as int, month as int, day as int),
    ensures
        r == julian_day(year as int, month as int, day as int),
        jd_min() <= r <= jd_max(),
{
    time::Date::from_calendar_date(year, time::Month::try_from(month).unwrap(), day).unwrap().to_julian_day()
}

/// `time::Date::weekday`, numbered from Monday (0) to Sunday (6): `time` takes it
/// from the Julian day modulo 7, day 0 being a Monday.
#[verifier::external_body]
fn time_weekday(year: i32, month: u8, day: u8) -> (r: u8)
    requires
        valid_calendar_date(year as int, month as int, day as int),
    ensures
        r == julian_day(year as int, month as int, day as int) % 7,
{
    time::Date::from_calendar_date(year, time::Month::try_from(month).unwrap(), day).unwrap().weekday().number_days_from_monday()
}

/// `time::Date::prev_occurrence(Weekday::Monday)`: the last Monday strictly before
/// the date. It overflows only before the first date that `time` holds, which is a
/// Monday.
#[verifier::external_body]
fn time_prev_monday(year: i32, month: u8, day: u8) -> (r: (i32, u8, u8))
    requires
        valid_calendar_date(year as int, month as int, day as int),
        !(year == MIN_YEAR && month == 1 && day == 1),
    ensures
        valid_calendar_date(r.0 as int, r.1 as int, r.2 as int),
        julian_day(r.0 as int, r.1 as int, r.2 as int) == julian_day(year as int, month as int, day as int)
            - (if julian_day(year as int, month as int, day as int) % 7 == 0 { 7 } else { julian_day(year as int, month as int, day as int) % 7 }),
{
    let d = time::Date::from_calendar_date(year, time::Month::try_from(month).unwrap(), day).unwrap().prev_occurrence(time::Weekday::Monday);
    (d.year(), d.month() as u8, d.day())
}

/// `time::Date::next_occurrence(Weekday::Sunday)`: the first Sunday strictly after
/// the date. It overflows only from 26 December of the last year on, the last
/// date that `time` holds being a Friday.
#[verifier::external_body]
fn time_next_sunday(year: i32, month: u8, day: u8) -> (r: (i32, u8, u8))
    requires
        valid_calendar_date(year as int, month as int, day as int),
        !(year == MAX_YEAR && month == 12 && day >= 26),
    ensures
        valid_calendar_date(r.0 as int, r.1 as int, r.2 as int),
        julian_day(r.0 as int, r.1 as int, r.2 as int) == julian_day(year as int, month as int, day as int)
            + (6 - julian_day(year as int, month as int, day as int) % 7 + (if julian_day(year as int, month as int, day as int) % 7 == 6 { 7int } else { 0 })),
{
    let d = time::Date::from_calendar_date(year, time::Month::try_from(month).unwrap(), day).unwrap().next_occurrence(time::Weekday::Sunday);
    (d.year(), d.month() as u8, d.day())
}

/// `time::Date::saturating_add(Duration::days(n))` for `n` from 0 to 7: the date `n`
/// days later, or the last date that `time` holds when that is earlier.
/// `Duration::days` panics once `n` days in seconds overflow an `i64`; the bound on
/// `n` keeps far from that.
#[verifier::external_body]
fn time_saturating_add_days(year: i32, month: u8, day: u8, n: i64) -> (r: (i32, u8, u8))
    requires
        valid_calendar_date(year as int, month as int, day as int),
        0 <= n <= 7,
    ensures
        valid_calendar_date(r.0 as int, r.1 as int, r.2 as int),
        julian_day(r.0 as int, r.1 as int, r.2 as int) == if julian_day(year as int, month as int, day as int) + n
            <= jd_max() {
            julian_day(year as int, month as int, day as int) + n
        } else {
            jd_max()
        },
{
    let d = time::Date::from_calendar_date(year, time::Month::try_from(month).unwrap(), day).unwrap().saturating_add(time::Duration::days(n));
    (d.year(), d.month() as u8, d.day())
}

/// `time::Date::previous_day`: the day before, which exists for every date but
/// the first that `time` holds.
#[verifier::external_body]
fn time_previous_day(year: i32, month: u8, day: u8) -> (r: Option<(i32, u8, u8)>)
    requires
        valid_calendar_date(year as int, month as int, day as int),
    ensures
        r is None <==> (year == MIN_YEAR && month == 1 && day == 1),
        r matches Some(p) ==> valid_calendar_date(p.0 as int, p.1 as int, p.2 as int)
            && julian_day(p.0 as int, p.1 as int, p.2 as int) == julian_day(year as int, month as int, day as int) - 1,
{
    time::Date::from_calendar_date(year, time::Month::try_from(month).unwrap(), day).unwrap().previous_day().map(|d| (d.year(), d.month() as u8, d.day()))
}

/// `time::Date::next_day`: the day after, which exists for every date but the
/// last that `time` holds.
#[verifier::external_body]
fn time_next_day(year: i32, month: u8, day: u8) -> (r: Option<(i32, u8, u8)>)
    requires
        valid_calendar_date(year as int, month as int, day as int),
    ensures
        r is None <==> (year == MAX_YEAR && month == 12 && day == 31),
        r matches Some(p) ==> valid_calendar_date(p.0 as int, p.1 as int, p.2 as int)
            && julian_day(p.0 as int, p.1 as int, p.2 as int) == julian_day(year as int, month as int, day as int) + 1,
{
    time::Date::from_calendar_date(year, time::Month::try_from(month).unwrap(), day).unwrap().next_day().map(|d| (d.year(), d.month() as u8, d.day()))
}

/// `Date + Duration::days(n)` for `n` from 0 to 14, which panics past the last date
/// that `time` holds (31 December of the last year); the caller stays within it.
#[verifier::external_body]
fn time_add_days(year: i32, month: u8, day: u8, n: i64) -> (r: (i32, u8, u8))
    requires
        valid_calendar_date(year as int, month as int, day as int),
        0 <= n <= 14,
        !(year == MAX_YEAR && month == 12 && day + n > 31),
    ensures
        valid_calendar_date(r.0 as int, r.1 as int, r.2 as int),
        julian_day(r.0 as int, r.1 as int, r.2 as int) == julian_day(year as int, month as int, day as int) + n,
{
    let d = time::Date::from_calendar_date(year, time::Month::try_from(month).unwrap(), day).unwrap() + time::Duration::days(n);
    (d.year(), d.month() as u8, d.day())
}

/// The day before a date, if `time` holds one.
pub fn previous_day(d: &Date) -> (r: Option<Date>)
    ensures
        r is None <==> (d.y() == MIN_YEAR && d.m() == 1 && d.d() == 1),
        r matches Some(p) ==> jd(p) == jd(*d) - 1,
{
    d.lemma_wf();
    match time_previous_day(d.year(), d.month().number(), d.day()) {
        Some((y, m, dd)) => Some(Date::from_valid_parts(y, m, dd)),
        None => None,
    }
}

/// The day after a date, if `time` holds one.
pub fn next_day(d: &Date) -> (r: Option<Date>)
    ensures
        r is None <==> (d.y() == MAX_YEAR && d.m() == 12 && d.d() == 31),
        r matches Some(p) ==> jd(p) == jd(*d) + 1,
{
    d.lemma_wf();
    match time_next_day(d.year(), d.month().number(), d.day()) {
        Some((y, m, dd)) => Some(Date::from_valid_parts(y, m, dd)),
        None => None,
    }
}

/// How many days ahead members may book.
pub const DAYS_AHEAD_ALLOWED: i64 = 14;

/// The requested day is shown when it lies from today to `DAYS_AHEAD_ALLOWED` days
/// ahead, and today otherwise.
pub open spec fn clamped_day(requested: Date, today: Date) -> Date {
    if jd(today) <= jd(requested) <= jd(today) + DAYS_AHEAD_ALLOWED { requested } else { today }
}

/// The day the home page shows: the requested one when it lies from today to
/// `DAYS_AHEAD_ALLOWED` days ahead, otherwise today.
pub fn clamp_selected_date(requested: Date, today: Date) -> (r: Date)
    requires
        !(today.y() == MAX_YEAR && today.m() == 12 && today.d() > 31 - DAYS_AHEAD_ALLOWED),
    ensures
        r == clamped_day(requested, today),
{
    today.lemma_wf();
    requested.lemma_wf();
    let (y, m, d) = time_add_days(today.year(), today.month().number(), today.day(), DAYS_AHEAD_ALLOWED);
    let limit = Date::from_valid_parts(y, m, d);
    limit.lemma_wf();
    assert(jd(limit) == jd(today) + DAYS_AHEAD_ALLOWED);
    proof {
        lemma_jd_order(requested, today);
        lemma_jd_order(requested, limit);
    }
    if !requested.before(&today) && requested.on_or_before(&limit) {
        requested
    } else {
        today
    }
}

fn to_julian(d: &Date) -> (r: i32)
    ensures
        r == jd(*d),
        jd_min() <= r <= jd_max(),
{
    d.lemma_wf();
    time_to_julian_day(d.year(), d.month().number(), d.day())
}

/// The weekday of a date, Monday being 0 and Sunday 6.
pub fn weekday(d: &Date) -> (r: u8)
    ensures
        r == jd(*d) % 7,
        r < 7,
{
    d.lemma_wf();
    time_weekday(d.year(), d.month().number(), d.day())
}

/// Saturday or Sunday.
pub open spec fn is_weekend_day(d: Date) -> bool {
    jd(d) % 7 == 5 || jd(d) % 7 == 6
}

/// Whether the date falls on a Saturday or a Sunday.
pub fn is_weekend(d: &Date) -> (r: bool)
    ensures
        r == is_weekend_day(*d),
{
    let w = weekday(d);
    w == 5 || w == 6
}

fn add_days(d: &Date, n: i64) -> (r: Date)
    requires
        0 <= n <= 7,
    ensures
        jd(r) == if jd(*d) + n <= jd_max() { jd(*d) + n } else { jd_max() },
{
    d.lemma_wf();
    let (y, m, dd) = time_saturating_add_days(d.year(), d.month().number(), d.day(), n);
    Date::from_valid_parts(y, m, dd)
}

/// The weeks from `first` on, each given by the Julian days of its seven days, up
/// to the first week that starts on or after `to`.
pub open spec fn weeks_ok(rows: Seq<[Date; 7]>, first: int, to: int) -> bool {
    &&& (rows.len() == 0 || first + 7 * (rows.len() - 1) < to)
    &&& first + 7 * rows.len() >= to
    &&& forall|i: int, j: int| 0 <= i < rows.len() && 0 <= j < 7 ==> #[trigger] jd(rows[i]@[j]) == first + 7 * i + j
}

/// The first day shown: the last Monday strictly before `start`.
pub open spec fn weeks_first(start: Date) -> int {
    jd(start) - (if jd(start) % 7 == 0 { 7 } else { jd(start) % 7 })
}

/// The end of the range shown: the first Sunday strictly after `end`.
pub open spec fn weeks_to(end: Date) -> int {
    jd(end) + (6 - jd(end) % 7 + (if jd(end) % 7 == 6 { 7int } else { 0 }))
}

/// The weeks, Monday to Sunday, that cover the days from `start` to `end`: they
/// begin with the last Monday before `start` and go on while a week starts before
/// the first Sunday after `end`.
pub fn get_weeks_in_range(start: Date, end: Date) -> (r: Vec<[Date; 7]>)
    requires
        start.is_on_or_before(end),
        !(start.y() == MIN_YEAR && start.m() == 1 && start.d() == 1),
        !(end.y() == MAX_YEAR && end.m() == 12 && end.d() >= 26),
    ensures
        weeks_ok(r@, weeks_first(start), weeks_to(end)),
{
    start.lemma_wf();
    end.lemma_wf();
    let (fy, fm, fd) = time_prev_monday(start.year(), start.month().number(), start.day());
    let (ty, tm, td) = time_next_sunday(end.year(), end.month().number(), end.day());
    let mut from = Date::from_valid_parts(fy, fm, fd);
    let to = Date::from_valid_parts(ty, tm, td);
    let to_jd = to_julian(&to);
    let ghost first = weeks_first(start);
    assert(jd(from) == first);
    assert(to_jd == weeks_to(end));
    let mut rows: Vec<[Date; 7]> = Vec::new();
    let mut from_jd = to_julian(&from);
    while from_jd < to_jd
        invariant
            from_jd == jd(from),
            to_jd == weeks_to(end),
            jd_min() <= to_jd <= jd_max(),
            to_jd % 7 == 6,
            from_jd == first + 7 * rows@.len() || (from_jd == jd_max() && from_jd >= to_jd && first + 7 * rows@.len() >= to_jd),
            from_jd < to_jd ==> from_jd % 7 == 0,
            rows@.len() > 0 ==> from_jd <= to_jd + 6,
            first % 7 == 0,
            rows@.len() == 0 || first + 7 * (rows@.len() - 1) < to_jd,
            forall|i: int, j: int| 0 <= i < rows@.len() && 0 <= j < 7 ==> #[trigger] jd(rows@[i]@[j]) == first + 7 * i + j,
        decreases to_jd + 7 - from_jd,
    {
        assert(from_jd == first + 7 * rows@.len());
        assert(from_jd % 7 == 0);
        assert((to_jd - from_jd) % 7 == 6);
        assert(from_jd + 6 <= to_jd);
        let ghost old_len = rows@.len();
        let week: [Date; 7] = [
            from,
            add_days(&from, 1),
            add_days(&from, 2),
            add_days(&from, 3),
            add_days(&from, 4),
            add_days(&from, 5),
            add_days(&from, 6),
        ];
        rows.push(week);
        assert forall|i: int, j: int| 0 <= i < rows@.len() && 0 <= j < 7 implies #[trigger] jd(rows@[i]@[j]) == first + 7 * i + j by {
            if i == old_len {
                assert(rows@[i] == week);
            }
        }
        let ghost prev_jd = from_jd;
        from = add_days(&from, 7);
        from_jd = to_julian(&from);
        assert(from_jd > prev_jd);
    }
    rows
}

/// Whether a day is booked by the rules of free days: the store holds a special
/// layout for it, or it falls on a weekend.
pub fn is_free_day(has_special_layout: bool, date: &Date) -> (r: bool)
    ensures
        r == (has_special_layout || is_weekend_day(*date)),
{
    has_special_layout || is_weekend(date)
}

/// The special layout of a day, given the alternative day that the store holds for
/// it, if any: that one, otherwise the holiday layout on weekends, otherwise none.
pub fn alternative_day_for(found: Option<DayStructure>, date: &Date) -> (r: Option<DayStructure>)
    ensures
        found is Some ==> r == found,
        found is None && is_weekend_day(*date) ==> (r matches Some(s) && s.slots_start_hour == 10 && s.slot_duration == 3
            && s.slots_per_day == 4 && s.consumes_reservation && s.description is None && s.slot_capacity is None
            && s.slots_start_minute is None),
        found is None && !is_weekend_day(*date) ==> r is None,
{
    match found {
        Some(s) => Some(s),
        None => if is_weekend(date) {
            Some(holiday_day_structure())
        } else {
            None
        },
    }
}

/// The layout of a day: its special layout if it has one, otherwise the location's
/// regular day.
pub fn day_structure_or_default(special: Option<DayStructure>, location: &Location) -> (r: DayStructure)
    ensures
        special is Some ==> r == special->0,
        special is None ==> r.slots_start_hour == location.slots_start_hour && r.slot_duration == location.slot_duration
            && r.slots_per_day == location.slots_per_day && r.consumes_reservation && r.description is None
            && r.slot_capacity is None && r.slots_start_minute is None,
{
    match special {
        Some(s) => s,
        None => location.day_structure(),
    }
}

} // verus!
