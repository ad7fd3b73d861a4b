//! Settings that apply to the whole club.
use vstd::prelude::*;

verus! {

/// Club-wide settings.
pub struct GlobalVars {
    pub in_maintenance: bool,
    pub check_payments: bool,
    pub entrance_code: String,
    pub homepage_message: String,
}

} // verus!
