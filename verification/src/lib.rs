//! Booking, scheduling and membership-fee rules of a sports club.
use vstd::prelude::*;

pub mod auth;
pub mod calendar;
pub mod dates;
pub mod live;
pub mod members;
pub mod model;
pub mod pages;
pub mod payment;
pub mod reservation;
pub mod reservation_hours;
pub mod roles;
pub mod schedule;
pub mod seqs;
pub mod situations;
pub mod text;

verus! {

} // verus!
