//! The query of the older profile page, which lists a member's bookings.
use vstd::prelude::*;

verus! {

/// Whether the cancelled bookings are listed, or the others.
pub struct ReservationsQuery {
    cancelled: bool,
}

impl ReservationsQuery {
    pub fn new(cancelled: bool) -> (r: Self)
        ensures
            r.cancelled() == cancelled,
    {
        ReservationsQuery { cancelled }
    }

    pub closed spec fn cancelled(&self) -> bool {
        self.cancelled
    }

    /// The bookings listed are those whose cancelled flag is the one asked for.
    pub fn lists(&self, booking_cancelled: bool) -> (r: bool)
        ensures
            r == (booking_cancelled == self.cancelled()),
    {
        booking_cancelled == self.cancelled
    }
}

} // verus!
