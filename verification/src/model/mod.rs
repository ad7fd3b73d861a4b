pub mod day_structure;
pub mod global_vars;
pub mod hour_structure;
pub mod location;
pub mod payment;
pub mod payment_context;
pub mod role;
pub mod user;
pub mod restriction;
pub mod user_reservation;
