//! The decisions of the live connection that keeps a member's home page up to date.
//! The connection itself runs outside the library: it waits, hands each event to
//! `socket_step`, and performs the action that comes back.
use crate::calendar::{clamp_selected_date, clamped_day, DAYS_AHEAD_ALLOWED};
use crate::dates::{Date, MAX_YEAR};
use crate::text::str_equal;
use vstd::prelude::*;

verus! {

/// What the connection waited for.
pub enum SocketEvent {
    /// The bookings changed somewhere.
    ReservationsChanged,
    /// The source of booking changes went away.
    WatcherClosed,
    /// The member asked for the day with the given date.
    DateRequested(Date),
    /// The member closed the connection, or sent what is not a request for a day.
    Closed,
}

/// What the connection does next.
pub enum SocketAction {
    /// Send the hours of the selected day.
    SendHours,
    /// Send the whole home page for the selected day.
    SendContent,
    /// End the connection.
    Stop,
}


/// One step of the connection: from the day shown and the event, the day shown next
/// and the action. A change of bookings re-sends the hours of the same day; a request
/// for a day selects it when it lies from today to `DAYS_AHEAD_ALLOWED` days ahead,
/// and today otherwise, and sends the whole page; anything else ends the connection.
pub fn socket_step(selected: Date, today: Date, event: SocketEvent) -> (r: (Date, SocketAction))
    requires
        !(today.y() == MAX_YEAR && today.m() == 12 && today.d() > 31 - DAYS_AHEAD_ALLOWED),
    ensures
        match event {
            SocketEvent::ReservationsChanged => r.0 == selected && r.1 is SendHours,
            SocketEvent::DateRequested(d) => r.0 == clamped_day(d, today) && r.1 is SendContent,
            SocketEvent::WatcherClosed => r.0 == selected && r.1 is Stop,
            SocketEvent::Closed => r.0 == selected && r.1 is Stop,
        },
{
    match event {
        SocketEvent::ReservationsChanged => (selected, SocketAction::SendHours),
        SocketEvent::DateRequested(d) => (clamp_selected_date(d, today), SocketAction::SendContent),
        SocketEvent::WatcherClosed => (selected, SocketAction::Stop),
        SocketEvent::Closed => (selected, SocketAction::Stop),
    }
}

/// Administrators are told of the members whose birthday is today.
pub fn greets_birthdays(role: &str) -> (r: bool)
    ensures
        r == (role@ == "Admin"@),
{
    str_equal(role, "Admin")
}

/// The text of the birthday notice.
pub open spec fn birthday_text(name: Seq<char>, gift_date: Option<Seq<char>>) -> Seq<char> {
    "Este ziua lui "@ + name + match gift_date {
        Some(d) => ", a primit cadou pe "@ + d,
        None => " și nu a primit cadou!!"@,
    }
}

/// The notice that today is the birthday of `name`, who received a gift on the day
/// written `gift_date`, if any.
pub fn birthday_message(name: &str, gift_date: Option<&str>) -> (r: String)
    ensures
        r@ == birthday_text(name@, match gift_date { Some(d) => Some(d@), None => None::<Seq<char>> }),
{
    proof {
        reveal_strlit("Este ziua lui ");
        reveal_strlit(", a primit cadou pe ");
        reveal_strlit(" și nu a primit cadou!!");
    }
    let mut r = String::from_str("Este ziua lui ");
    r.append(name);
    match gift_date {
        Some(d) => {
            r.append(", a primit cadou pe ");
            r.append(d);
            assert(r@ == "Este ziua lui "@ + name@ + (", a primit cadou pe "@ + d@));
        },
        None => {
            r.append(" și nu a primit cadou!!");
        },
    }
    r
}

} // verus!
