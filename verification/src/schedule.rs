//! Administration of special days, restrictions and cancellations.
use crate::calendar::{lemma_month_boundary, preceding_month, previous_day};
use crate::dates::{days_in_month, month_number, valid_calendar_date, Date, Month, MAX_YEAR, MIN_YEAR};
use crate::model::day_structure::DayStructure;
use crate::model::restriction::Restriction;
use crate::model::hour_structure::contains_hour;
use crate::text::{trim, trimmed};
use vstd::prelude::*;

verus! {

broadcast use vstd::seq_lib::group_seq_properties;

/// The kinds of special days.
#[derive(Clone, Copy, PartialEq, Eq, Structural, Debug)]
pub enum AlternativeDayType {
    Holiday,
    Tournament,
}

impl AlternativeDayType {
    /// The name under which the store keeps the kind.
    pub fn as_str(&self) -> (r: &'static str)
        ensures
            *self == AlternativeDayType::Holiday ==> r@ == "holiday"@,
            *self == AlternativeDayType::Tournament ==> r@ == "turneu"@,
    {
        match self {
            AlternativeDayType::Holiday => "holiday",
            AlternativeDayType::Tournament => "turneu",
        }
    }
}

/// A description is stored trimmed, and not at all when nothing is left.
pub fn clean_description(description: Option<String>) -> (r: Option<String>)
    ensures
        match description {
            Some(d) => if trimmed(d@).len() == 0 { r is None } else { r matches Some(x) && x@ == trimmed(d@) },
            None => r is None,
        },
{
    match description {
        Some(d) => {
            let t = trim(d.as_str());
            if t.unicode_len() == 0 {
                None
            } else {
                Some(String::from_str(t))
            }
        },
        None => None,
    }
}

/// A start minute is stored only when it lies strictly between 0 and 60.
pub fn clean_start_minute(minute: u8) -> (r: Option<u8>)
    ensures
        r == if 0 < minute < 60 { Some(minute) } else { None::<u8> },
{
    if minute > 0 && minute < 60 {
        Some(minute)
    } else {
        None
    }
}

/// Special days in the past cannot be changed.
pub fn is_in_past(date: &Date, today: &Date) -> (r: bool)
    ensures
        r == date.is_before(*today),
{
    date.before(today)
}

/// The requested hours of a restriction at which a slot starts, in order.
pub fn valid_restriction_hours(day: &DayStructure, hours: &Vec<u8>) -> (r: Vec<u8>)
    requires
        day.fits(),
    ensures
        r@ == hours@.filter(|h: u8| day.hours().contains(h)),
{
    let slots = day.iter();
    let ghost p = |h: u8| day.hours().contains(h);
    let mut r: Vec<u8> = Vec::new();
    let mut i: usize = 0;
    while i < hours.len()
        invariant
            slots@ == day.hours(),
            p == (|h: u8| day.hours().contains(h)),
            i <= hours@.len(),
            r@ == hours@.take(i as int).filter(p),
        decreases hours@.len() - i,
    {
        let h = hours[i];
        proof {
            assert(hours@.take(i + 1) =~= hours@.take(i as int).push(h));
            hours@.take(i as int).lemma_filter_push(h, p);
        }
        if contains_hour(&slots, h) {
            r.push(h);
        }
        i = i + 1;
    }
    assert(hours@.take(hours@.len() as int) =~= hours@);
    r
}

/// No restriction closes the whole day, so restrictions may still be added.
pub fn can_add_restriction(restrictions: &[Restriction]) -> (r: bool)
    ensures
        r == !exists|i: int| 0 <= i < restrictions@.len() && (#[trigger] restrictions@[i]).hour is None,
{
    let mut i: usize = 0;
    while i < restrictions.len()
        invariant
            i <= restrictions@.len(),
            forall|j: int| 0 <= j < i ==> (#[trigger] restrictions@[j]).hour is Some,
        decreases restrictions@.len() - i,
    {
        if restrictions[i].hour.is_none() {
            return false;
        }
        i = i + 1;
    }
    true
}

/// No restriction closes the slot that starts at `hour`.
pub fn is_restriction_hour_available(restrictions: &[Restriction], hour: i64) -> (r: bool)
    ensures
        r == !exists|i: int| 0 <= i < restrictions@.len() && (#[trigger] restrictions@[i]).hour == Some(hour),
{
    let mut i: usize = 0;
    while i < restrictions.len()
        invariant
            i <= restrictions@.len(),
            forall|j: int| 0 <= j < i ==> (#[trigger] restrictions@[j]).hour != Some(hour),
        decreases restrictions@.len() - i,
    {
        let matches_hour = match restrictions[i].hour {
            Some(h) => h == hour,
            None => false,
        };
        if matches_hour {
            return false;
        }
        i = i + 1;
    }
    true
}

/// The dates that the calendar page of a month needs.
pub struct CalendarBounds {
    pub first_day: Date,
    pub last_day: Date,
    pub prev_month: (i32, u8),
    pub next_month: (i32, u8),
}

/// The month shown: the one with the requested number, or the current one when the
/// number is not that of a month.
pub open spec fn shown_month(month_u8: u8, today: Date) -> Month {
    if 1 <= month_u8 <= 12 { crate::dates::month_of_number(month_u8 as int) } else { today.mon() }
}

/// The month after `m`, with the year it falls in.
pub open spec fn following_month(year: int, m: int) -> (int, int) {
    if m == 12 { (year + 1, 1) } else { (year, m + 1) }
}

/// The calendar of month `month_u8` of `year`: `None` when the year has no such month
/// in the range of `time`; otherwise its first day, its last day, the year and month
/// of the month before and those of the month after.
pub fn calendar_bounds(year: i32, month_u8: u8, today: &Date) -> (r: Option<CalendarBounds>)
    requires
        !(year == MAX_YEAR && month_number(shown_month(month_u8, *today)) == 12),
        !(year == MIN_YEAR && month_number(shown_month(month_u8, *today)) == 1),
    ensures
        r is None <==> !(MIN_YEAR <= year <= MAX_YEAR),
        r matches Some(b) ==> {
            let m = month_number(shown_month(month_u8, *today));
            &&& b.first_day.y() == year && b.first_day.mon() == shown_month(month_u8, *today) && b.first_day.d() == 1
            &&& b.next_month.0 == following_month(year as int, m).0
            &&& b.next_month.1 == following_month(year as int, m).1
            &&& b.last_day.y() == year && b.last_day.m() == m && b.last_day.d() == days_in_month(year as int, m)
            &&& b.prev_month.0 == preceding_month(year as int, m).0
            &&& b.prev_month.1 == preceding_month(year as int, m).1
        },
{
    let month = match Month::from_number(month_u8) {
        Some(m) => m,
        None => today.month(),
    };
    let first = match Date::from_calendar_date(year, month, 1) {
        Some(d) => d,
        None => return None,
    };
    let n = month.number();
    let next_first = if n == 12 {
        Date::from_calendar_date(year + 1, Month::January, 1).unwrap()
    } else {
        Date::from_calendar_date(year, Month::from_number(n + 1).unwrap(), 1).unwrap()
    };
    let last = previous_day(&next_first).unwrap();
    let before = previous_day(&first).unwrap();
    next_first.lemma_wf();
    before.lemma_wf();
    last.lemma_wf();
    first.lemma_wf();
    proof {
        crate::dates::lemma_month_number_roundtrip(month);
        crate::dates::lemma_month_number_roundtrip(next_first.mon());
        lemma_month_boundary(last, next_first);
        lemma_month_boundary(before, first);
        crate::dates::lemma_month_number_roundtrip(before.mon());
    }
    Some(CalendarBounds {
        first_day: first,
        last_day: last,
        prev_month: (before.year(), before.month().number()),
        next_month: (next_first.year(), next_first.month().number()),
    })
}

/// Who may cancel a booking: a member their own booking in their own name, and
/// administrators any booking. The result is the member whose booking is cancelled.
pub fn cancellation_target(user_id: i64, admin: bool, requested_user: Option<i64>, for_someone_else: bool) -> (r: Option<i64>)
    ensures
        ({
            let target = match requested_user { Some(u) => u, None => user_id };
            if (target != user_id || for_someone_else) && !admin { r is None } else { r == Some(target) }
        }),
{
    let target = match requested_user {
        Some(u) => u,
        None => user_id,
    };
    if (target != user_id || for_someone_else) && !admin {
        None
    } else {
        Some(target)
    }
}

/// After a cancellation the first waiting booking moves up when fewer confirmed
/// bookings than the capacity remain.
pub fn should_promote_waiting(active_count: i64, capacity: i64) -> (r: bool)
    ensures
        r == (active_count < capacity),
{
    active_count < capacity
}

/// What happens on a day of the calendar page: a holiday, a tournament, a restriction.
#[derive(Clone, Copy, PartialEq, Eq, Structural, Debug)]
pub struct DayEvents {
    pub has_holiday: bool,
    pub has_tournament: bool,
    pub has_restriction: bool,
}

/// The markers of a day: whether it is among the holidays, the tournament days and
/// the days with a restriction.
pub open spec fn events_of(day: Date, holidays: Seq<Date>, tournaments: Seq<Date>, restrictions: Seq<Date>) -> DayEvents {
    DayEvents {
        has_holiday: holidays.contains(day),
        has_tournament: tournaments.contains(day),
        has_restriction: restrictions.contains(day),
    }
}

fn contains_date(dates: &[Date], day: Date) -> (r: bool)
    ensures
        r == dates@.contains(day),
{
    let mut i: usize = 0;
    while i < dates.len()
        invariant
            i <= dates@.len(),
            forall|j: int| 0 <= j < i ==> dates@[j] != day,
        decreases dates@.len() - i,
    {
        if dates[i] == day {
            assert(dates@[i as int] == day);
            return true;
        }
        i = i + 1;
    }
    false
}

/// The markers of each of `days`, in order, given the dates of the holidays, of the
/// tournaments and of the restrictions of the month.
pub fn day_markers(days: &[Date], holidays: &[Date], tournaments: &[Date], restrictions: &[Date]) -> (r: Vec<DayEvents>)
    ensures
        r@.len() == days@.len(),
        forall|i: int| 0 <= i < days@.len() ==> #[trigger] r@[i] == events_of(days@[i], holidays@, tournaments@, restrictions@),
{
    let mut r: Vec<DayEvents> = Vec::new();
    let mut i: usize = 0;
    while i < days.len()
        invariant
            i <= days@.len(),
            r@.len() == i,
            forall|j: int| 0 <= j < i ==> #[trigger] r@[j] == events_of(days@[j], holidays@, tournaments@, restrictions@),
        decreases days@.len() - i,
    {
        let day = days[i];
        let e = DayEvents {
            has_holiday: contains_date(holidays, day),
            has_tournament: contains_date(tournaments, day),
            has_restriction: contains_date(restrictions, day),
        };
        r.push(e);
        i = i + 1;
    }
    r
}

} // verus!
