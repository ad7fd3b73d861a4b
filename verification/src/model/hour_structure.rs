use vstd::prelude::*;

verus! {

/// How the bookable slots of a day are laid out: `slots_per_day` slots of
/// `slot_duration` hours, the first one starting at `slots_start_hour`.
#[derive(Clone, PartialEq)]
pub struct HourStructure {
    pub slots_start_hour: i64,
    pub slot_duration: i64,
    pub slots_per_day: i64,
    pub description: Option<String>,
}

/// The start hour of slot `step`, narrowed to a `u8`.
pub open spec fn slot_hour(start: i64, duration: i64, step: int) -> u8 {
    (start + duration * step) as u8
}

/// The start hours of all slots, in order.
pub open spec fn slot_hours(start: i64, duration: i64, count: i64) -> Seq<u8> {
    Seq::new(if count < 0 { 0nat } else { count as nat }, |i: int| slot_hour(start, duration, i))
}

/// No start hour computation overflows an `i64`.
pub open spec fn slots_fit(start: i64, duration: i64, count: i64) -> bool {
    forall|i: int|
        0 <= i < count ==> i64::MIN <= #[trigger] (duration * i) <= i64::MAX && i64::MIN <= start
            + duration * i <= i64::MAX
}

impl HourStructure {
    pub fn new(slots_start_hour: i64, slot_duration: i64, slots_per_day: i64) -> (r: HourStructure)
        ensures
            r.slots_start_hour == slots_start_hour,
            r.slot_duration == slot_duration,
            r.slots_per_day == slots_per_day,
            r.description is None,
    {
        HourStructure { slots_start_hour, slot_duration, slots_per_day, description: None }
    }

    pub open spec fn hours(&self) -> Seq<u8> {
        slot_hours(self.slots_start_hour, self.slot_duration, self.slots_per_day)
    }

    pub open spec fn fits(&self) -> bool {
        slots_fit(self.slots_start_hour, self.slot_duration, self.slots_per_day)
    }

    /// The start hours of the slots, first to last.
    pub fn iter(&self) -> (r: Vec<u8>)
        requires
            self.fits(),
        ensures
            r@ == self.hours(),
    {
        slot_start_hours(self.slots_start_hour, self.slot_duration, self.slots_per_day)
    }

    /// Some slot starts at `hour`.
    pub fn is_hour_valid(&self, hour: u8) -> (r: bool)
        requires
            self.fits(),
        ensures
            r == self.hours().contains(hour),
    {
        let hours = self.iter();
        contains_hour(&hours, hour)
    }
}

/// The start hours of `count` slots of `duration` hours from `start`.
pub fn slot_start_hours(start: i64, duration: i64, count: i64) -> (r: Vec<u8>)
    requires
        slots_fit(start, duration, count),
    ensures
        r@ == slot_hours(start, duration, count),
{
    let mut r: Vec<u8> = Vec::new();
    let mut step: i64 = 0;
    while step < count
        invariant
            0 <= step,
            count >= 0 ==> step <= count,
            count < 0 ==> step == 0,
            slots_fit(start, duration, count),
            r@ == slot_hours(start, duration, step),
        decreases count - step,
    {
        assert(i64::MIN <= duration * step <= i64::MAX);
        let h: i64 = start + duration * step;
        r.push(#[verifier::truncate] (h as u8));
        step = step + 1;
        assert(r@ =~= slot_hours(start, duration, step));
    }
    assert(r@ =~= slot_hours(start, duration, count));
    r
}

/// `hours` holds `hour`.
pub fn contains_hour(hours: &Vec<u8>, hour: u8) -> (r: bool)
    ensures
        r == hours@.contains(hour),
{
    let mut i: usize = 0;
    while i < hours.len()
        invariant
            i <= hours@.len(),
            forall|j: int| 0 <= j < i ==> hours@[j] != hour,
        decreases hours@.len() - i,
    {
        if hours[i] == hour {
            assert(hours@[i as int] == hour);
            return true;
        }
        i = i + 1;
    }
    false
}

/// The layout of the days on which the club runs its alternative schedule.
pub fn holiday_hour_structure() -> (r: HourStructure)
    ensures
        r.slots_start_hour == 10,
        r.slot_duration == 3,
        r.slots_per_day == 4,
        r.description is None,
{
    HourStructure::new(10, 3, 4)
}

} // verus!
