//! The layout of a day's slots, with what makes a day special.
use crate::dates::Date;
use crate::model::hour_structure::{contains_hour, slot_hours, slot_start_hours, slots_fit};
use crate::model::location::Location;
use vstd::prelude::*;

verus! {

/// How the slots of a particular day are laid out.
#[derive(Clone, PartialEq)]
pub struct DayStructure {
    pub slots_start_hour: i64,
    pub slots_start_minute: Option<i64>,
    pub slot_duration: i64,
    pub slots_per_day: i64,
    pub description: Option<String>,
    pub slot_capacity: Option<i64>,
    pub consumes_reservation: bool,
}

impl DayStructure {
    pub fn new(slots_start_hour: i64, slot_duration: i64, slots_per_day: i64, consumes_reservation: bool) -> (r: DayStructure)
        ensures
            r.slots_start_hour == slots_start_hour,
            r.slots_start_minute is None,
            r.slot_duration == slot_duration,
            r.slots_per_day == slots_per_day,
            r.description is None,
            r.slot_capacity is None,
            r.consumes_reservation == consumes_reservation,
    {
        DayStructure {
            slots_start_hour,
            slots_start_minute: None,
            slot_duration,
            slots_per_day,
            description: None,
            slot_capacity: None,
            consumes_reservation,
        }
    }

    pub open spec fn hours(&self) -> Seq<u8> {
        slot_hours(self.slots_start_hour, self.slot_duration, self.slots_per_day)
    }

    pub open spec fn fits(&self) -> bool {
        slots_fit(self.slots_start_hour, self.slot_duration, self.slots_per_day)
    }

    /// The start hours of the slots, first to last.
    pub fn iter(&self) -> (r: Vec<u8>)
        requires
            self.fits(),
        ensures
            r@ == self.hours(),
    {
        slot_start_hours(self.slots_start_hour, self.slot_duration, self.slots_per_day)
    }

    /// Some slot starts at `hour`.
    pub fn is_hour_valid(&self, hour: u8) -> (r: bool)
        requires
            self.fits(),
        ensures
            r == self.hours().contains(hour),
    {
        let hours = self.iter();
        contains_hour(&hours, hour)
    }
}

/// The layout of weekend days and holidays: four slots of three hours from 10:00,
/// each of which uses up one of the member's reservations.
pub fn holiday_day_structure() -> (r: DayStructure)
    ensures
        r.slots_start_hour == 10,
        r.slots_start_minute is None,
        r.slot_duration == 3,
        r.slots_per_day == 4,
        r.description is None,
        r.slot_capacity is None,
        r.consumes_reservation,
{
    DayStructure::new(10, 3, 4, true)
}

} // verus!
