pub mod status;
pub mod debtors;
pub mod allocations;
pub mod breaks;
pub mod paid_months;
