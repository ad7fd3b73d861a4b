//! Member roles and the reservations they allow.
use vstd::prelude::*;

verus! {

/// A role: how many reservations a week its members may make, in their own name
/// and as guests.
pub struct UserRole {
    pub id: i64,
    pub name: String,
    pub reservations: i64,
    pub guest_reservations: i64,
    pub color: Option<String>,
    pub admin_panel_access: bool,
}

} // verus!
