//! Whether a member may book a slot, and how.
use crate::dates::{Date, DateHour};
use crate::model::hour_structure::{slot_hours, slots_fit, HourStructure};
use crate::model::location::Location;
use crate::model::role::UserRole;
use crate::text::{decimal, push_decimal};
use vstd::prelude::*;

verus! {

/// How a booking was made.
#[derive(Debug, PartialEq)]
pub enum ReservationSuccess {
    /// In the member's own name.
    Reservation,
    /// As a guest, which a member may be displaced from.
    Guest,
}

/// Why a booking was refused.
#[derive(Debug, PartialEq)]
pub enum ReservationError {
    AlreadyExists,
    Restriction(String),
    SlotFull,
    DatabaseError(String),
    NoMoreReservation,
    Other(String),
}

pub open spec fn past_message() -> Seq<char> {
    "Nu poți face o rezervare în trecut"@
}

pub open spec fn invalid_hour_message() -> Seq<char> {
    "Ora pentru rezervare nu este validă"@
}

pub open spec fn too_late_message() -> Seq<char> {
    "Rezervările se fac cu cel putin o oră înainte"@
}

/// The message shown for a refusal.
pub open spec fn reservation_error_message(e: ReservationError) -> Seq<char> {
    match e {
        ReservationError::AlreadyExists => "Ai făcut deja o astfel de rezervare."@,
        ReservationError::Restriction(m) => m@,
        ReservationError::SlotFull => "S-a atins numărul maxim de rezervări pentru intervalul orar."@,
        ReservationError::DatabaseError(m) => "Database error: "@ + m@,
        ReservationError::NoMoreReservation => "Ți-ai epuizat rezervările pe săptămâna aceasta"@,
        ReservationError::Other(m) => m@,
    }
}

impl ReservationError {
    /// The message shown for the refusal.
    pub fn message(&self) -> (r: String)
        ensures
            r@ == reservation_error_message(*self),
    {
        match self {
            ReservationError::AlreadyExists => String::from_str("Ai făcut deja o astfel de rezervare."),
            ReservationError::Restriction(m) => m.clone(),
            ReservationError::SlotFull => String::from_str(
                "S-a atins numărul maxim de rezervări pentru intervalul orar.",
            ),
            ReservationError::DatabaseError(m) => {
                let mut s = String::from_str("Database error: ");
                s.append(m.as_str());
                s
            },
            ReservationError::NoMoreReservation => String::from_str(
                "Ți-ai epuizat rezervările pe săptămâna aceasta",
            ),
            ReservationError::Other(m) => m.clone(),
        }
    }
}

/// The start hours of the slots on the selected kind of day.
pub open spec fn bookable_hours(location: Location, is_free_day: bool) -> Seq<u8> {
    if is_free_day {
        slot_hours(10, 3, 4)
    } else {
        slot_hours(location.slots_start_hour, location.slot_duration, location.slots_per_day)
    }
}

/// The slot starts before the current hour has passed, or on an earlier day.
pub open spec fn is_past(now: DateHour, date: Date, hour: u8) -> bool {
    date.is_before(now.date) || (date == now.date && hour <= now.hour)
}

/// What is wrong with the requested day and hour, as the message shown: a slot in
/// the past, an hour at which no slot starts, or, on regular days, a slot that
/// starts within the coming hour.
pub open spec fn parameters_problem(location: Location, now: DateHour, is_free_day: bool, date: Date, hour: u8) -> Option<Seq<char>> {
    if is_past(now, date, hour) {
        Some(past_message())
    } else if !bookable_hours(location, is_free_day).contains(hour) {
        Some(invalid_hour_message())
    } else if !is_free_day && hour >= 1 && now.hour == hour - 1 {
        Some(too_late_message())
    } else {
        None
    }
}

/// The regular hours can be computed without overflow, and the check of the hour
/// before a slot is not asked of a slot at midnight (where it would underflow).
pub open spec fn parameters_checkable(location: Location, now: DateHour, is_free_day: bool, date: Date, hour: u8) -> bool {
    &&& !is_free_day ==> slots_fit(location.slots_start_hour, location.slot_duration, location.slots_per_day)
    &&& !(!is_free_day && hour == 0 && !is_past(now, date, hour) && bookable_hours(location, is_free_day).contains(hour))
}

/// Checks the requested day and hour against the current time and the day's slots.
pub fn check_parameters_validity(location: &Location, now: DateHour, is_free_day: bool, selected_date: Date, selected_hour: u8) -> (r: Result<(), ReservationError>)
    requires
        parameters_checkable(*location, now, is_free_day, selected_date, selected_hour),
    ensures
        match parameters_problem(*location, now, is_free_day, selected_date, selected_hour) {
            None => r is Ok,
            Some(msg) => r matches Err(ReservationError::Other(m)) && m@ == msg,
        },
{
    let now_date = now.date;
    let now_hour = now.hour;
    if selected_date.before(&now_date) || (selected_date == now_date && selected_hour <= now_hour) {
        return Err(ReservationError::Other(String::from_str("Nu poți face o rezervare în trecut")));
    }
    let hour_structure: HourStructure = if is_free_day {
        location.get_alt_hour_structure()
    } else {
        location.get_hour_structure()
    };
    proof {
        if is_free_day {
            assert(slots_fit(10, 3, 4));
        }
    }
    if !hour_structure.is_hour_valid(selected_hour) {
        return Err(ReservationError::Other(String::from_str("Ora pentru rezervare nu este validă")));
    }
    if !is_free_day && now_hour == selected_hour - 1 {
        return Err(ReservationError::Other(String::from_str("Rezervările se fac cu cel putin o oră înainte")));
    }
    Ok(())
}

/// What the store said about the slot and the member, read after the requested day
/// and hour passed `check_parameters_validity`.
pub struct SlotFacts {
    /// The member already booked this slot in their own name.
    pub reservation_exists: bool,
    /// The member already booked this slot as a guest.
    pub guest_exists: bool,
    /// The message of a restriction on the slot or on the whole day.
    pub restriction: Option<String>,
    /// Bookings in members' own names plus special guests in the slot.
    pub fixed_count: i64,
    /// Guest bookings in the slot.
    pub guest_count: i64,
    /// The member's own-name bookings on weekdays of that week.
    pub user_week_count: i64,
    /// The member's guest bookings on weekdays of that week.
    pub user_week_guest_count: i64,
}

/// What to write to the store for an accepted booking.
#[derive(Debug, PartialEq, Eq, Structural, Clone, Copy)]
pub enum ReservationAction {
    /// Book the member as a guest.
    InsertGuest,
    /// Book the member in their own name, and when the slot is full drop the guest
    /// who booked last.
    InsertReservation { evict_guest: bool },
}

/// The decision on a booking, given the location's capacity, the member's role and
/// what the store said: a booking the member already has, in either form, is refused;
/// a restricted slot is refused with the restriction's message; a slot that members
/// fill is refused, and so is a full one for roles with no own-name bookings; a member
/// with no own-name bookings left that week (free days aside) is booked as a guest
/// while guest bookings remain and refused otherwise; everyone else is booked in
/// their own name, displacing the last guest when the slot is full.
pub open spec fn decision_is(
    r: Result<ReservationAction, ReservationError>,
    capacity: i64,
    role: UserRole,
    is_free_day: bool,
    f: SlotFacts,
) -> bool {
    let total = f.fixed_count + f.guest_count;
    if f.reservation_exists || f.guest_exists {
        r == Err::<ReservationAction, ReservationError>(ReservationError::AlreadyExists)
    } else if f.restriction is Some {
        r matches Err(ReservationError::Restriction(m)) && m@ == f.restriction->0@
    } else if f.fixed_count >= capacity {
        r == Err::<ReservationAction, ReservationError>(ReservationError::SlotFull)
    } else if role.reservations == 0 && total >= capacity {
        r == Err::<ReservationAction, ReservationError>(ReservationError::SlotFull)
    } else if f.user_week_count >= role.reservations && !is_free_day {
        if f.user_week_guest_count >= role.guest_reservations {
            r == Err::<ReservationAction, ReservationError>(ReservationError::NoMoreReservation)
        } else {
            r == Ok::<ReservationAction, ReservationError>(ReservationAction::InsertGuest)
        }
    } else {
        r == Ok::<ReservationAction, ReservationError>(
            ReservationAction::InsertReservation { evict_guest: total >= capacity },
        )
    }
}

/// Decides on a booking whose day and hour are valid (see `decision_is`).
pub fn decide_reservation(location: &Location, role: &UserRole, is_free_day: bool, facts: &SlotFacts) -> (r: Result<ReservationAction, ReservationError>)
    requires
        i64::MIN <= facts.fixed_count + facts.guest_count <= i64::MAX,
    ensures
        decision_is(r, location.slot_capacity, *role, is_free_day, *facts),
{
    if facts.reservation_exists || facts.guest_exists {
        return Err(ReservationError::AlreadyExists);
    }
    if let Some(message) = &facts.restriction {
        return Err(ReservationError::Restriction(message.clone()));
    }
    if facts.fixed_count >= location.slot_capacity {
        return Err(ReservationError::SlotFull);
    }
    let total_count = facts.fixed_count + facts.guest_count;
    if role.reservations == 0 && total_count >= location.slot_capacity {
        return Err(ReservationError::SlotFull);
    }
    if facts.user_week_count >= role.reservations && !is_free_day {
        if facts.user_week_guest_count >= role.guest_reservations && !is_free_day {
            return Err(ReservationError::NoMoreReservation);
        }
        return Ok(ReservationAction::InsertGuest);
    }
    Ok(ReservationAction::InsertReservation { evict_guest: total_count >= location.slot_capacity })
}

/// The booking that an accepted action makes.
pub fn action_success(action: ReservationAction) -> (r: ReservationSuccess)
    ensures
        (r == ReservationSuccess::Guest) <==> (action == ReservationAction::InsertGuest),
{
    match action {
        ReservationAction::InsertGuest => ReservationSuccess::Guest,
        ReservationAction::InsertReservation { .. } => ReservationSuccess::Reservation,
    }
}

/// A slot that members fill takes no further booking of any kind.
pub proof fn lemma_full_slot_refused(
    r: Result<ReservationAction, ReservationError>,
    capacity: i64,
    role: UserRole,
    is_free_day: bool,
    f: SlotFacts,
)
    requires
        decision_is(r, capacity, role, is_free_day, f),
        f.fixed_count >= capacity,
    ensures
        r is Err,
{
}

/// On regular days a member books in their own name at most as often a week as the
/// role allows: once the week's own-name bookings reach that number, any further
/// booking is as a guest or refused.
pub proof fn lemma_weekly_limit_kept(
    r: Result<ReservationAction, ReservationError>,
    capacity: i64,
    role: UserRole,
    f: SlotFacts,
)
    requires
        decision_is(r, capacity, role, false, f),
        f.user_week_count >= role.reservations,
    ensures
        !(r matches Ok(ReservationAction::InsertReservation { .. })),
{
}

/// A guest is displaced only to make room for a booking in a member's own name, and
/// only from a slot whose bookings reached the capacity.
pub proof fn lemma_guest_displaced_only_when_full(
    r: Result<ReservationAction, ReservationError>,
    capacity: i64,
    role: UserRole,
    is_free_day: bool,
    f: SlotFacts,
)
    requires
        decision_is(r, capacity, role, is_free_day, f),
        r == Ok::<ReservationAction, ReservationError>(ReservationAction::InsertReservation { evict_guest: true }),
    ensures
        f.fixed_count + f.guest_count >= capacity,
        f.fixed_count < capacity,
{
}

/// The message confirming a booking of the slot at `hour` on the day written `date`.
pub open spec fn confirmation_text(success: ReservationSuccess, date: Seq<char>, hour: nat) -> Seq<char> {
    let when = date + "</b> de la ora <b>"@ + decimal(hour) + ":00</b>"@;
    match success {
        ReservationSuccess::Reservation => "Ai rezervare pe data de <b>"@ + when,
        ReservationSuccess::Guest => "Ai fost înscris ca invitat pe data de <b>"@ + when,
    }
}

/// The message confirming a booking of the slot at `hour` on the day written `date`.
pub fn confirmation_message(success: &ReservationSuccess, date: &str, hour: u8) -> (r: String)
    ensures
        r@ == confirmation_text(*success, date@, hour as nat),
{
    proof {
        reveal_strlit("Ai rezervare pe data de <b>");
        reveal_strlit("Ai fost înscris ca invitat pe data de <b>");
        reveal_strlit("</b> de la ora <b>");
        reveal_strlit(":00</b>");
    }
    let mut s = match success {
        ReservationSuccess::Reservation => String::from_str("Ai rezervare pe data de <b>"),
        ReservationSuccess::Guest => String::from_str("Ai fost înscris ca invitat pe data de <b>"),
    };
    let ghost head = s@;
    s.append(date);
    s.append("</b> de la ora <b>");
    push_decimal(&mut s, hour as u64);
    s.append(":00</b>");
    assert(s@ =~= head + (date@ + "</b> de la ora <b>"@ + decimal(hour as nat) + ":00</b>"@));
    s
}

/// The hour at which a slot that starts at `hour` and lasts `slot_duration` hours ends.
pub fn slot_end_hour(hour: u8, slot_duration: i64) -> (r: u8)
    requires
        0 <= slot_duration,
        hour + slot_duration <= 255,
    ensures
        r == hour + slot_duration,
{
    hour + slot_duration as u8
}

} // verus!
