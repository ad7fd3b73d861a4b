//! The place where the club's slots are booked.
use crate::model::day_structure::DayStructure;
use crate::model::hour_structure::{holiday_hour_structure, HourStructure};
use vstd::prelude::*;

verus! {

/// A bookable location and its regular schedule.
pub struct Location {
    pub id: i64,
    pub name: String,
    pub slot_capacity: i64,
    pub slots_start_hour: i64,
    pub slot_duration: i64,
    pub slots_per_day: i64,
}

impl Location {
    /// The location's regular day, whose slots use up reservations.
    pub fn day_structure(&self) -> (r: DayStructure)
        ensures
            r.slots_start_hour == self.slots_start_hour,
            r.slot_duration == self.slot_duration,
            r.slots_per_day == self.slots_per_day,
            r.slots_start_minute is None,
            r.description is None,
            r.slot_capacity is None,
            r.consumes_reservation,
    {
        DayStructure::new(self.slots_start_hour, self.slot_duration, self.slots_per_day, true)
    }

    /// The slot layout of the location's regular days.
    pub fn get_hour_structure(&self) -> (r: HourStructure)
        ensures
            r.slots_start_hour == self.slots_start_hour,
            r.slot_duration == self.slot_duration,
            r.slots_per_day == self.slots_per_day,
            r.description is None,
    {
        HourStructure::new(self.slots_start_hour, self.slot_duration, self.slots_per_day)
    }

    /// The slot layout of free days (weekends and holidays).
    pub fn get_alt_hour_structure(&self) -> (r: HourStructure)
        ensures
            r.slots_start_hour == 10,
            r.slot_duration == 3,
            r.slots_per_day == 4,
            r.description is None,
    {
        holiday_hour_structure()
    }
}

} // verus!
