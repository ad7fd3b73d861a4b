//! Calendar dates and months of the proleptic Gregorian calendar, with the
//! range of years that the `time` crate holds.
use vstd::prelude::*;

verus! {

/// The first year that a date can have.
pub const MIN_YEAR: i32 = -9999;

/// The last year that a date can have.
pub const MAX_YEAR: i32 = 9999;

/// A month of the year.
#[derive(Clone, Copy, PartialEq, Eq, Structural, Debug)]
pub enum Month {
    January,
    February,
    March,
    April,
    May,
    June,
    July,
    August,
    September,
    October,
    November,
    December,
}

/// The number of a month, January being 1.
pub open spec fn month_number(m: Month) -> int {
    match m {
        Month::January => 1,
        Month::February => 2,
        Month::March => 3,
        Month::April => 4,
        Month::May => 5,
        Month::June => 6,
        Month::July => 7,
        Month::August => 8,
        Month::September => 9,
        Month::October => 10,
        Month::November => 11,
        Month::December => 12,
    }
}

/// The month with a given number, January being 1.
pub open spec fn month_of_number(n: int) -> Month
    recommends
        1 <= n <= 12,
{
    if n <= 1 {
        Month::January
    } else if n == 2 {
        Month::February
    } else if n == 3 {
        Month::March
    } else if n == 4 {
        Month::April
    } else if n == 5 {
        Month::May
    } else if n == 6 {
        Month::June
    } else if n == 7 {
        Month::July
    } else if n == 8 {
        Month::August
    } else if n == 9 {
        Month::September
    } else if n == 10 {
        Month::October
    } else if n == 11 {
        Month::November
    } else {
        Month::December
    }
}

pub proof fn lemma_month_number_roundtrip(m: Month)
    ensures
        1 <= month_number(m) <= 12,
        month_of_number(month_number(m)) == m,
{
}

/// The Romanian name of a month.
pub open spec fn month_name(m: Month) -> Seq<char> {
    match m {
        Month::January => "Ianuarie"@,
        Month::February => "Februarie"@,
        Month::March => "Martie"@,
        Month::April => "Aprilie"@,
        Month::May => "Mai"@,
        Month::June => "Iunie"@,
        Month::July => "Iulie"@,
        Month::August => "August"@,
        Month::September => "Septembrie"@,
        Month::October => "Octombrie"@,
        Month::November => "Noiembrie"@,
        Month::December => "Decembrie"@,
    }
}

impl Month {
    /// The number of the month, January being 1.
    pub fn number(self) -> (r: u8)
        ensures
            r == month_number(self),
            1 <= r <= 12,
    {
        match self {
            Month::January => 1,
            Month::February => 2,
            Month::March => 3,
            Month::April => 4,
            Month::May => 5,
            Month::June => 6,
            Month::July => 7,
            Month::August => 8,
            Month::September => 9,
            Month::October => 10,
            Month::November => 11,
            Month::December => 12,
        }
    }

    /// The month with the given number, if it is in `1..=12`.
    pub fn from_number(n: u8) -> (r: Option<Month>)
        ensures
            r is Some <==> 1 <= n <= 12,
            r matches Some(m) ==> month_number(m) == n && m == month_of_number(n as int),
    {
        if n == 1 {
            Some(Month::January)
        } else if n == 2 {
            Some(Month::February)
        } else if n == 3 {
            Some(Month::March)
        } else if n == 4 {
            Some(Month::April)
        } else if n == 5 {
            Some(Month::May)
        } else if n == 6 {
            Some(Month::June)
        } else if n == 7 {
            Some(Month::July)
        } else if n == 8 {
            Some(Month::August)
        } else if n == 9 {
            Some(Month::September)
        } else if n == 10 {
            Some(Month::October)
        } else if n == 11 {
            Some(Month::November)
        } else if n == 12 {
            Some(Month::December)
        } else {
            None
        }
    }

    /// The Romanian name of the month.
    pub fn name(self) -> (r: &'static str)
        ensures
            r@ == month_name(self),
    {
        match self {
            Month::January => "Ianuarie",
            Month::February => "Februarie",
            Month::March => "Martie",
            Month::April => "Aprilie",
            Month::May => "Mai",
            Month::June => "Iunie",
            Month::July => "Iulie",
            Month::August => "August",
            Month::September => "Septembrie",
            Month::October => "Octombrie",
            Month::November => "Noiembrie",
            Month::December => "Decembrie",
        }
    }
}

/// The Romanian name of a month.
pub fn month_as_str(m: &Month) -> (r: &'static str)
    ensures
        r@ == month_name(*m),
{
    m.name()
}

pub open spec fn is_leap_year(y: int) -> bool {
    y % 4 == 0 && (y % 100 != 0 || y % 400 == 0)
}

/// The number of days in month `m` (1 to 12) of year `y`.
pub open spec fn days_in_month(y: int, m: int) -> int {
    if m == 2 {
        if is_leap_year(y) {
            29
        } else {
            28
        }
    } else if m == 4 || m == 6 || m == 9 || m == 11 {
        30
    } else {
        31
    }
}

/// Year, month and day name a date that exists and that the `time` crate can hold.
pub open spec fn valid_calendar_date(year: int, month: int, day: int) -> bool {
    &&& MIN_YEAR <= year <= MAX_YEAR
    &&& 1 <= month <= 12
    &&& 1 <= day <= days_in_month(year, month)
}

/// `time::Date::from_calendar_date`, asked whether the date exists: it accepts a year
/// in `MIN_YEAR..=MAX_YEAR` and a day from 1 to the length of the month, which the
/// contract states; `time::Month::try_from` turns the month number into its month.
#[verifier::external_body]
fn time_calendar_date_exists(year: i32, month: u8, day: u8) -> (r: bool)
    requires
        1 <= month <= 12,
    ensures
        r == valid_calendar_date(year as int, month as int, day as int),
{
    match time::Month::try_from(month) {
        Ok(m) => time::Date::from_calendar_date(year, m, day).is_ok(),
        Err(_) => false,
    }
}

/// A point in time with an offset from UTC, as the `time` crate holds it; the
/// library only carries such values along.
#[verifier::external_type_specification]
#[verifier::external_body]
pub struct ExOffsetDateTime(time::OffsetDateTime);

/// `Clone` of `time::OffsetDateTime`, a `Copy` type: the clone is the same value.
pub assume_specification[ <time::OffsetDateTime as Clone>::clone ](t: &time::OffsetDateTime) -> (r:
    time::OffsetDateTime)
    ensures
        r == *t,
;

/// `time::OffsetDateTime::UNIX_EPOCH`: 1970-01-01 00:00 UTC. Nothing is stated of it.
#[verifier::external_body]
pub(crate) fn unix_epoch() -> time::OffsetDateTime {
    time::OffsetDateTime::UNIX_EPOCH
}

/// `time::OffsetDateTime::now_local`: the current date and hour where the machine
/// is, or `None` when `time` cannot tell the local offset from UTC. The result
/// depends on the clock: only that it is a real date and hour is stated.
#[verifier::external_body]
fn now_local_parts() -> (r: Option<(i32, u8, u8, u8)>)
    ensures
        r matches Some(p) ==> valid_calendar_date(p.0 as int, p.1 as int, p.2 as int) && p.3 < 24,
{
    time::OffsetDateTime::now_local().ok().map(|t| (t.year(), t.month() as u8, t.day(), t.hour()))
}

/// `time::OffsetDateTime::now_utc`: the current date and hour in UTC. The result
/// depends on the clock: only that it is a real date and hour is stated.
#[verifier::external_body]
fn now_utc_parts() -> (r: (i32, u8, u8, u8))
    ensures
        valid_calendar_date(r.0 as int, r.1 as int, r.2 as int) && r.3 < 24,
{
    let t = time::OffsetDateTime::now_utc();
    (t.year(), t.month() as u8, t.day(), t.hour())
}

/// What `time::Date::parse` makes of a text with the format `[year]-[month]-[day]`:
/// the year, month and day, or nothing when the text is not such a date.
pub uninterp spec fn iso_date_parse(s: Seq<char>) -> Option<(int, int, int)>;

/// `time::Date::parse` with the format description `[year]-[month]-[day]` (built by
/// `time::format_description::parse`): the date that the text writes, which is a real
/// date, or `None`. The result depends on the text alone.
#[verifier::external_body]
fn time_parse_iso_date(s: &str) -> (r: Option<(i32, u8, u8)>)
    ensures
        match r {
            Some(p) => iso_date_parse(s@) == Some((p.0 as int, p.1 as int, p.2 as int)) && valid_calendar_date(p.0 as int, p.1 as int, p.2 as int),
            None => iso_date_parse(s@) is None,
        },
{
    let format = time::format_description::parse("[year]-[month]-[day]").unwrap();
    time::Date::parse(s, &format).ok().map(|d| (d.year(), d.month() as u8, d.day()))
}

/// The date that an ISO text (`YYYY-MM-DD`) writes, if it writes one.
pub fn parse_iso_date(s: &str) -> (r: Option<Date>)
    ensures
        match iso_date_parse(s@) {
            Some(p) => r matches Some(d) && d.y() == p.0 && d.m() == p.1 && d.d() == p.2,
            None => r is None,
        },
{
    match time_parse_iso_date(s) {
        Some((y, m, d)) => Some(Date::from_valid_parts(y, m, d)),
        None => None,
    }
}

/// What `time::Date::parse` makes of a text with the format `[day].[month].[year]`:
/// the year, month and day, or nothing when the text is not such a date.
pub uninterp spec fn readable_date_parse(s: Seq<char>) -> Option<(int, int, int)>;

/// `time::Date::parse` with the format description `[day].[month].[year]` (built by
/// `time::format_description::parse`): the date that the text writes, which is a real
/// date, or `None`. The result depends on the text alone.
#[verifier::external_body]
fn time_parse_readable_date(s: &str) -> (r: Option<(i32, u8, u8)>)
    ensures
        match r {
            Some(p) => readable_date_parse(s@) == Some((p.0 as int, p.1 as int, p.2 as int)) && valid_calendar_date(p.0 as int, p.1 as int, p.2 as int),
            None => readable_date_parse(s@) is None,
        },
{
    let format = time::format_description::parse("[day].[month].[year]").unwrap();
    time::Date::parse(s, &format).ok().map(|d| (d.year(), d.month() as u8, d.day()))
}

/// The date that a text such as `11.07.2024` writes, if it writes one.
pub fn parse_readable_date(s: &str) -> (r: Option<Date>)
    ensures
        match readable_date_parse(s@) {
            Some(p) => r matches Some(d) && d.y() == p.0 && d.m() == p.1 && d.d() == p.2,
            None => r is None,
        },
{
    match time_parse_readable_date(s) {
        Some((y, m, d)) => Some(Date::from_valid_parts(y, m, d)),
        None => None,
    }
}

/// A date with the hour of the day.
#[derive(Clone, Copy, PartialEq, Eq, Structural, Debug)]
pub struct DateHour {
    pub date: Date,
    pub hour: u8,
}

/// The date and hour are those of the clock's reading: its year, month, day and hour.
pub open spec fn reading_matches(t: DateHour, p: (i32, u8, u8, u8)) -> bool {
    t.date.y() == p.0 && t.date.m() == p.1 && t.date.d() == p.2 && t.hour == p.3
}

/// The date and hour of a reading of the clock, kept as they are.
pub fn date_hour_of(p: (i32, u8, u8, u8)) -> (r: DateHour)
    requires
        valid_calendar_date(p.0 as int, p.1 as int, p.2 as int),
        p.3 < 24,
    ensures
        reading_matches(r, p),
{
    let (y, m, d, h) = p;
    DateHour { date: Date::from_valid_parts(y, m, d), hour: h }
}

/// A reading of the clock fixes the date and hour: two values that both match it are
/// the same, so the conversion loses or alters nothing, the hour included.
pub proof fn lemma_reading_determined(a: DateHour, b: DateHour, p: (i32, u8, u8, u8))
    requires
        reading_matches(a, p),
        reading_matches(b, p),
    ensures
        a == b,
{
    lemma_date_ext(a.date, b.date);
}

/// The current local date and hour, or the UTC ones where the local offset is unknown.
pub fn local_time() -> (r: DateHour)
    ensures
        r.hour < 24,
{
    match now_local_parts() {
        Some(p) => date_hour_of(p),
        None => date_hour_of(now_utc_parts()),
    }
}

/// Today's local date.
pub fn local_date() -> (r: Date) {
    local_time().date
}

/// A calendar date.
#[derive(Clone, Copy, PartialEq, Eq, Structural, Debug)]
pub struct Date {
    pub(crate) year: i32,
    pub(crate) month: Month,
    pub(crate) day: u8,
}

impl Date {
    #[verifier::type_invariant]
    pub(crate) closed spec fn inv(self) -> bool {
        valid_calendar_date(self.year as int, month_number(self.month), self.day as int)
    }

    pub closed spec fn y(self) -> int {
        self.year as int
    }

    pub open spec fn m(self) -> int {
        month_number(self.mon())
    }

    pub closed spec fn d(self) -> int {
        self.day as int
    }

    pub closed spec fn mon(self) -> Month {
        self.month
    }

    /// The date names a real day.
    pub open spec fn wf(self) -> bool {
        valid_calendar_date(self.y(), self.m(), self.d())
    }

    /// `self` comes strictly before `other`.
    pub open spec fn is_before(self, other: Date) -> bool {
        ||| self.y() < other.y()
        ||| self.y() == other.y() && self.m() < other.m()
        ||| self.y() == other.y() && self.m() == other.m() && self.d() < other.d()
    }

    /// `self` comes before `other` or is the same day.
    pub open spec fn is_on_or_before(self, other: Date) -> bool {
        self.is_before(other) || self == other
    }

    /// Every date names a real day.
    pub fn lemma_wf(&self)
        ensures
            self.wf(),
    {
        proof {
            use_type_invariant(self);
        }
    }

    /// The date with the given parts, which name a real day.
    pub(crate) fn from_valid_parts(year: i32, month: u8, day: u8) -> (r: Date)
        requires
            valid_calendar_date(year as int, month as int, day as int),
        ensures
            r.y() == year,
            r.m() == month,
            r.d() == day,
    {
        let m = Month::from_number(month).unwrap();
        Date { year, month: m, day }
    }

    /// The earliest date, the first of January of `MIN_YEAR`.
    pub fn min() -> (r: Date)
        ensures
            r.y() == MIN_YEAR,
            r.mon() == Month::January,
            r.d() == 1,
    {
        Date { year: MIN_YEAR, month: Month::January, day: 1 }
    }

    /// The date of the given year, month and day, if it exists.
    pub fn from_calendar_date(year: i32, month: Month, day: u8) -> (r: Option<Date>)
        ensures
            r is Some <==> valid_calendar_date(year as int, month_number(month), day as int),
            r matches Some(d) ==> d.y() == year && d.mon() == month && d.d() == day,
    {
        if time_calendar_date_exists(year, month.number(), day) {
            Some(Date { year, month, day })
        } else {
            None
        }
    }

    pub fn year(&self) -> (r: i32)
        ensures
            r == self.y(),
            MIN_YEAR <= r <= MAX_YEAR,
    {
        proof {
            use_type_invariant(self);
        }
        self.year
    }

    pub fn month(&self) -> (r: Month)
        ensures
            r == self.mon(),
    {
        self.month
    }

    pub fn day(&self) -> (r: u8)
        ensures
            r == self.d(),
            1 <= r <= 31,
    {
        proof {
            use_type_invariant(self);
        }
        self.day
    }

    /// `self < other`.
    pub fn before(&self, other: &Date) -> (r: bool)
        ensures
            r == self.is_before(*other),
    {
        let a = self.month.number();
        let b = other.month.number();
        self.year < other.year || (self.year == other.year && (a < b || (a == b && self.day
            < other.day)))
    }

    /// `self <= other`.
    pub fn on_or_before(&self, other: &Date) -> (r: bool)
        ensures
            r == self.is_on_or_before(*other),
    {
        self.before(other) || *self == *other
    }

    /// The first day of the month of this date.
    pub closed spec fn first_of_month_spec(self) -> Date {
        Date { year: self.year, month: self.month, day: 1 }
    }

    /// The first day of the month of a date has its year and month, and day 1.
    pub proof fn lemma_first_of_month(self)
        ensures
            self.first_of_month_spec().y() == self.y(),
            self.first_of_month_spec().mon() == self.mon(),
            self.first_of_month_spec().d() == 1,
    {
    }

    /// The first day of the month of this date.
    pub fn first_of_month(&self) -> (r: Date)
        ensures
            r == self.first_of_month_spec(),
            r.y() == self.y(),
            r.mon() == self.mon(),
            r.d() == 1,
    {
        proof {
            use_type_invariant(self);
        }
        Date { year: self.year, month: self.month, day: 1 }
    }
}

/// Dates with the same year, month and day are the same date.
pub proof fn lemma_date_ext(a: Date, b: Date)
    requires
        a.y() == b.y(),
        a.m() == b.m(),
        a.d() == b.d(),
    ensures
        a == b,
{
    lemma_month_number_roundtrip(a.mon());
    lemma_month_number_roundtrip(b.mon());
}

/// No date comes before itself.
pub proof fn lemma_before_irreflexive(a: Date)
    ensures
        !a.is_before(a),
{
}

/// The order of dates is transitive.
pub proof fn lemma_before_trans(a: Date, b: Date, c: Date)
    requires
        a.is_before(b),
        b.is_before(c),
    ensures
        a.is_before(c),
{
}

/// A month of a given year.
#[derive(Clone, Copy, PartialEq, Eq, Structural, Debug)]
pub struct YearMonth {
    pub year: i32,
    pub month: Month,
}

/// The index of a month counted from year 0, so that consecutive months have
/// consecutive indices.
pub open spec fn month_index(year: int, month: int) -> int {
    year * 12 + month - 1
}

impl YearMonth {
    pub fn new(year: i32, month: Month) -> (r: YearMonth)
        ensures
            r.year == year,
            r.month == month,
    {
        YearMonth { year, month }
    }

    pub open spec fn index(self) -> int {
        month_index(self.year as int, month_number(self.month))
    }

    /// The index of a month lies within the twelve of its year.
    pub proof fn lemma_index_bounds(self)
        ensures
            self.year * 12 <= self.index() <= self.year * 12 + 11,
    {
        lemma_month_number_roundtrip(self.month);
    }

    /// `self` comes strictly before `other`.
    pub open spec fn is_before(self, other: YearMonth) -> bool {
        self.index() < other.index()
    }

    /// The month that holds a date.
    pub fn from_date(date: Date) -> (r: YearMonth)
        ensures
            r.year == date.y(),
            r.month == date.mon(),
            r.first_day() == date.first_of_month_spec(),
            MIN_YEAR <= r.year <= MAX_YEAR,
    {
        YearMonth { year: date.year(), month: date.month() }
    }

    /// The first day of the month.
    pub closed spec fn first_day(self) -> Date {
        Date { year: self.year, month: self.month, day: 1 }
    }

    pub proof fn lemma_first_day(self)
        ensures
            self.first_day().y() == self.year,
            self.first_day().mon() == self.month,
            self.first_day().d() == 1,
    {
    }

    /// The first day of the month.
    pub fn to_date(&self) -> (r: Date)
        requires
            MIN_YEAR <= self.year <= MAX_YEAR,
        ensures
            r == self.first_day(),
            r.y() == self.year,
            r.mon() == self.month,
            r.d() == 1,
    {
        Date { year: self.year, month: self.month, day: 1 }
    }

    /// `self < other`.
    pub fn before(&self, other: &YearMonth) -> (r: bool)
        ensures
            r == self.is_before(*other),
    {
        let a = self.month.number();
        let b = other.month.number();
        self.year < other.year || (self.year == other.year && a < b)
    }

    /// The month before this one.
    pub fn prev(&self) -> (r: YearMonth)
        requires
            self.year > i32::MIN,
        ensures
            r.index() == self.index() - 1,
    {
        let n = self.month.number();
        if n == 1 {
            YearMonth { year: self.year - 1, month: Month::December }
        } else {
            let m = Month::from_number(n - 1);
            YearMonth { year: self.year, month: m.unwrap() }
        }
    }

    /// The month after this one.
    pub fn next(&self) -> (r: YearMonth)
        requires
            self.year < i32::MAX,
        ensures
            r.index() == self.index() + 1,
    {
        let n = self.month.number();
        if n == 12 {
            YearMonth { year: self.year + 1, month: Month::January }
        } else {
            let m = Month::from_number(n + 1);
            YearMonth { year: self.year, month: m.unwrap() }
        }
    }
}

/// Months are determined by their index.
pub proof fn lemma_index_injective(a: YearMonth, b: YearMonth)
    requires
        a.index() == b.index(),
    ensures
        a == b,
{
    lemma_month_number_roundtrip(a.month);
    lemma_month_number_roundtrip(b.month);
}

/// The month that a date lies in comes before another's exactly when the first day
/// of that month comes before the other's first day.
pub proof fn lemma_first_days_ordered(a: YearMonth, b: YearMonth)
    ensures
        a.is_before(b) <==> (a.year < b.year || (a.year == b.year && month_number(a.month)
            < month_number(b.month))),
{
    lemma_month_number_roundtrip(a.month);
    lemma_month_number_roundtrip(b.month);
}

/// The twelve months of a year, January first.
pub open spec fn months_of_year(year: i32) -> Seq<YearMonth> {
    Seq::new(12, |i: int| YearMonth { year, month: month_of_number(i + 1) })
}

/// The twelve months of a year, January first.
pub fn year_months(year: i32) -> (r: Vec<YearMonth>)
    ensures
        r@ == months_of_year(year),
{
    let mut r: Vec<YearMonth> = Vec::new();
    let mut n: u8 = 1;
    while n <= 12
        invariant
            1 <= n <= 13,
            r@ == months_of_year(year).take(n - 1),
        decreases 13 - n,
    {
        let m = Month::from_number(n).unwrap();
        r.push(YearMonth { year, month: m });
        n = n + 1;
        assert(r@ =~= months_of_year(year).take(n - 1));
    }
    assert(r@ =~= months_of_year(year));
    r
}

/// The months from `start` to `end`, both included, in order.
pub open spec fn months_between(start: YearMonth, end: YearMonth) -> Seq<int> {
    Seq::new(
        if end.index() < start.index() {
            0nat
        } else {
            (end.index() - start.index() + 1) as nat
        },
        |i: int| start.index() + i,
    )
}

/// The months from `start` to `end`, both included, in order; none when `end`
/// comes before `start`.
pub fn year_month_range(start: YearMonth, end: YearMonth) -> (r: Vec<YearMonth>)
    requires
        end.year < i32::MAX,
    ensures
        r@.map_values(|ym: YearMonth| ym.index()) == months_between(start, end),
        r@.len() == months_between(start, end).len(),
        forall|i: int| 0 <= i < r@.len() ==> #[trigger] r@[i].index() == start.index() + i,
{
    let mut r: Vec<YearMonth> = Vec::new();
    if end.before(&start) {
        assert(r@.map_values(|ym: YearMonth| ym.index()) =~= months_between(start, end));
        return r;
    }
    let mut cur = start;
    while !end.before(&cur)
        invariant
            end.year < i32::MAX,
            start.index() <= cur.index() <= end.index() + 1,
            r@.len() == cur.index() - start.index(),
            forall|i: int| 0 <= i < r@.len() ==> #[trigger] r@[i].index() == start.index() + i,
        decreases end.index() + 1 - cur.index(),
    {
        r.push(cur);
        assert(cur.year <= end.year);
        cur = cur.next();
    }
    assert(r@.map_values(|ym: YearMonth| ym.index()) =~= months_between(start, end));
    r
}

} // verus!
