//! Restrictions that close a slot or a whole day to bookings.
use crate::dates::Date;
use vstd::prelude::*;

verus! {

/// A day, or one slot of it when `hour` is set, that cannot be booked, and the
/// message shown instead.
pub struct Restriction {
    pub date: Date,
    pub hour: Option<i64>,
    pub message: String,
    pub created_at: time::OffsetDateTime,
}

} // verus!
