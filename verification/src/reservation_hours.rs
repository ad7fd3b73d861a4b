//! The bookings of a day, slot by slot, as the home page shows them.
use crate::model::day_structure::DayStructure;
use crate::model::restriction::Restriction;
use crate::seqs::{first_match, is_first_match, lemma_first_match_is, lemma_first_match_none};
use vstd::prelude::*;

verus! {

broadcast use vstd::seq_lib::group_seq_properties;

/// A booking of the day as the store returns it, in the order of the store.
pub struct ReservationRecord {
    pub name: String,
    pub user_id: i64,
    pub hour: i64,
    pub has_key: bool,
    pub as_guest: bool,
    pub in_waiting: bool,
    pub created_for: Option<String>,
    pub cancelled: bool,
    pub role_color: Option<String>,
}

/// How a booking is marked: guests in blue, people booked by a member for someone
/// without an account in pink, members in the colour of their role.
pub enum ReservationColor {
    Blue,
    Pink,
    Role(Option<String>),
}

/// A booking as shown.
pub struct Reservation {
    pub name: String,
    pub has_key: bool,
    pub has_account: bool,
    pub color: ReservationColor,
    pub waiting: bool,
    pub user_id: i64,
    pub created_for: Option<String>,
}

/// The bookings of a slot: confirmed, waiting for a place, and cancelled.
pub struct Reservations {
    pub active: Vec<Reservation>,
    pub waiting: Vec<Reservation>,
    pub cancelled: Vec<Reservation>,
}

/// A slot and its bookings, or the message of the restriction that closes it.
pub struct ReservationsSlot {
    pub start_hour: u8,
    pub minute: Option<u8>,
    pub end_hour: u8,
    pub reservations: Result<Reservations, String>,
}

/// The slots of a day.
pub struct ReservationHours {
    pub description: Option<String>,
    pub hours: Vec<ReservationsSlot>,
    pub capacity: Option<u8>,
}

pub open spec fn opt_text(o: Option<String>) -> Option<Seq<char>> {
    match o {
        Some(s) => Some(s@),
        None => None,
    }
}

/// The booking shown for a record.
pub open spec fn shows(res: Reservation, rec: ReservationRecord) -> bool {
    &&& res.name@ == (match rec.created_for {
        Some(c) => c@,
        None => rec.name@,
    })
    &&& res.has_key == (rec.has_key && rec.created_for is None)
    &&& res.has_account == rec.created_for is None
    &&& (if rec.as_guest {
        res.color is Blue
    } else if rec.created_for is None {
        res.color matches ReservationColor::Role(c) && opt_text(c) == opt_text(rec.role_color)
    } else {
        res.color is Pink
    })
    &&& res.waiting == rec.in_waiting
    &&& res.user_id == rec.user_id
    &&& opt_text(res.created_for) == opt_text(rec.created_for)
}

/// The bookings shown, one for each record, in order.
pub open spec fn shows_all(out: Seq<Reservation>, recs: Seq<ReservationRecord>) -> bool {
    &&& out.len() == recs.len()
    &&& forall|i: int| 0 <= i < out.len() ==> shows(#[trigger] out[i], recs[i])
}

/// The record belongs to the slot starting at `hour` (its hour narrowed to a byte),
/// and is active (neither cancelled nor waiting), waiting, or cancelled.
pub open spec fn in_slot_active(hour: u8) -> spec_fn(ReservationRecord) -> bool {
    |r: ReservationRecord| r.hour as u8 == hour && !r.cancelled && !r.in_waiting
}

pub open spec fn in_slot_waiting(hour: u8) -> spec_fn(ReservationRecord) -> bool {
    |r: ReservationRecord| r.hour as u8 == hour && !r.cancelled && r.in_waiting
}

pub open spec fn in_slot_cancelled(hour: u8) -> spec_fn(ReservationRecord) -> bool {
    |r: ReservationRecord| r.hour as u8 == hour && r.cancelled
}

/// The restriction closes the slot starting at `hour`.
pub open spec fn restricts_hour(hour: u8) -> spec_fn(Restriction) -> bool {
    |r: Restriction| r.hour == Some(hour as i64)
}

/// The first restriction closes the whole day.
pub open spec fn day_closed(restrictions: Seq<Restriction>) -> bool {
    restrictions.len() > 0 && restrictions[0].hour is None
}

/// The slot shown at `hour`, given the day's layout, its restrictions (ordered by
/// hour, a restriction of the whole day first) and its bookings.
pub open spec fn slot_shows(
    slot: ReservationsSlot,
    hour: u8,
    day: DayStructure,
    restrictions: Seq<Restriction>,
    records: Seq<ReservationRecord>,
) -> bool {
    &&& slot.start_hour == hour
    &&& slot.end_hour == hour + (day.slot_duration as u8)
    &&& if day_closed(restrictions) {
        &&& slot.minute is None
        &&& slot.reservations matches Err(m) && m@ == restrictions[0].message@
    } else if let Some(j) = first_match(restrictions, restricts_hour(hour)) {
        &&& slot.minute is None
        &&& slot.reservations matches Err(m) && m@ == restrictions[j].message@
    } else {
        &&& slot.minute == (match day.slots_start_minute {
            Some(m) => Some(m as u8),
            None => None::<u8>,
        })
        &&& slot.reservations matches Ok(res) && {
            &&& shows_all(res.active@, records.filter(in_slot_active(hour)))
            &&& shows_all(res.waiting@, records.filter(in_slot_waiting(hour)))
            &&& shows_all(res.cancelled@, records.filter(in_slot_cancelled(hour)))
        }
    }
}

/// Every slot's end hour fits in a byte.
pub open spec fn end_hours_fit(day: DayStructure) -> bool {
    forall|i: int| 0 <= i < day.hours().len() ==> #[trigger] day.hours()[i] + (day.slot_duration as u8) <= 255
}

fn clone_opt(o: &Option<String>) -> (r: Option<String>)
    ensures
        opt_text(r) == opt_text(*o),
{
    match o {
        Some(s) => Some(s.clone()),
        None => None,
    }
}

fn show_record(rec: &ReservationRecord) -> (r: Reservation)
    ensures
        shows(r, *rec),
{
    let name = match &rec.created_for {
        Some(c) => c.clone(),
        None => rec.name.clone(),
    };
    let color = if rec.as_guest {
        ReservationColor::Blue
    } else if rec.created_for.is_none() {
        ReservationColor::Role(clone_opt(&rec.role_color))
    } else {
        ReservationColor::Pink
    };
    Reservation {
        name,
        has_key: rec.has_key && rec.created_for.is_none(),
        has_account: rec.created_for.is_none(),
        color,
        waiting: rec.in_waiting,
        user_id: rec.user_id,
        created_for: clone_opt(&rec.created_for),
    }
}

/// The bookings of the slot starting at `hour`.
fn slot_reservations(records: &[ReservationRecord], hour: u8) -> (r: Reservations)
    ensures
        shows_all(r.active@, records@.filter(in_slot_active(hour))),
        shows_all(r.waiting@, records@.filter(in_slot_waiting(hour))),
        shows_all(r.cancelled@, records@.filter(in_slot_cancelled(hour))),
{
    let mut active: Vec<Reservation> = Vec::new();
    let mut waiting: Vec<Reservation> = Vec::new();
    let mut cancelled: Vec<Reservation> = Vec::new();
    let mut i: usize = 0;
    while i < records.len()
        invariant
            i <= records@.len(),
            shows_all(active@, records@.take(i as int).filter(in_slot_active(hour))),
            shows_all(waiting@, records@.take(i as int).filter(in_slot_waiting(hour))),
            shows_all(cancelled@, records@.take(i as int).filter(in_slot_cancelled(hour))),
        decreases records@.len() - i,
    {
        let rec = &records[i];
        proof {
            assert(records@.take(i + 1) =~= records@.take(i as int).push(*rec));
            records@.take(i as int).lemma_filter_push(*rec, in_slot_active(hour));
            records@.take(i as int).lemma_filter_push(*rec, in_slot_waiting(hour));
            records@.take(i as int).lemma_filter_push(*rec, in_slot_cancelled(hour));
        }
        let h = #[verifier::truncate] (rec.hour as u8);
        if h == hour {
            let shown = show_record(rec);
            if rec.cancelled {
                cancelled.push(shown);
            } else if rec.in_waiting {
                waiting.push(shown);
            } else {
                active.push(shown);
            }
        }
        i = i + 1;
    }
    assert(records@.take(records@.len() as int) =~= records@);
    Reservations { active, waiting, cancelled }
}

/// The first restriction that closes the slot starting at `hour`.
fn find_hour_restriction(restrictions: &[Restriction], hour: u8) -> (r: Option<usize>)
    ensures
        match r {
            Some(j) => first_match(restrictions@, restricts_hour(hour)) == Some(j as int),
            None => first_match(restrictions@, restricts_hour(hour)) is None,
        },
{
    let mut j: usize = 0;
    while j < restrictions.len()
        invariant
            j <= restrictions@.len(),
            forall|k: int| 0 <= k < j ==> !(restricts_hour(hour))(#[trigger] restrictions@[k]),
        decreases restrictions@.len() - j,
    {
        let matches_hour = match restrictions[j].hour {
            Some(h) => h == hour as i64,
            None => false,
        };
        if matches_hour {
            proof {
                lemma_first_match_is(restrictions@, restricts_hour(hour), j as int);
            }
            return Some(j);
        }
        j = j + 1;
    }
    proof {
        lemma_first_match_none(restrictions@, restricts_hour(hour));
    }
    None
}

/// The slots of a day as shown: one per start hour of the day's layout, closed with
/// the message of a restriction of the whole day or of the slot, or else with its
/// bookings split into confirmed, waiting and cancelled in the order of the store;
/// `capacity` is the day's own capacity, which only a special day has.
pub fn build_reservation_hours(
    day: &DayStructure,
    restrictions: &[Restriction],
    records: &[ReservationRecord],
    capacity: Option<u8>,
) -> (r: ReservationHours)
    requires
        day.fits(),
        end_hours_fit(*day),
    ensures
        opt_text(r.description) == opt_text(day.description),
        r.hours@.len() == day.hours().len(),
        forall|i: int| 0 <= i < r.hours@.len() ==> slot_shows(#[trigger] r.hours@[i], day.hours()[i], *day, restrictions@, records@),
        r.capacity == (if day_closed(restrictions@) { None } else { capacity }),
{
    let hours = day.iter();
    let duration = #[verifier::truncate] (day.slot_duration as u8);
    let whole_day = restrictions.len() > 0 && restrictions[0].hour.is_none();
    let mut out: Vec<ReservationsSlot> = Vec::new();
    let mut i: usize = 0;
    while i < hours.len()
        invariant
            hours@ == day.hours(),
            end_hours_fit(*day),
            duration == day.slot_duration as u8,
            whole_day == day_closed(restrictions@),
            i <= hours@.len(),
            out@.len() == i,
            forall|k: int| 0 <= k < i ==> slot_shows(#[trigger] out@[k], day.hours()[k], *day, restrictions@, records@),
        decreases hours@.len() - i,
    {
        let hour = hours[i];
        assert(day.hours()[i as int] + (day.slot_duration as u8) <= 255);
        let end_hour = hour + duration;
        let slot = if whole_day {
            ReservationsSlot { start_hour: hour, minute: None, end_hour, reservations: Err(restrictions[0].message.clone()) }
        } else {
            match find_hour_restriction(restrictions, hour) {
                Some(j) => ReservationsSlot { start_hour: hour, minute: None, end_hour, reservations: Err(restrictions[j].message.clone()) },
                None => {
                    let minute = match day.slots_start_minute {
                        Some(m) => Some(#[verifier::truncate] (m as u8)),
                        None => None,
                    };
                    ReservationsSlot { start_hour: hour, minute, end_hour, reservations: Ok(slot_reservations(records, hour)) }
                },
            }
        };
        out.push(slot);
        i = i + 1;
    }
    ReservationHours {
        description: clone_opt(&day.description),
        hours: out,
        capacity: if whole_day { None } else { capacity },
    }
}

} // verus!
