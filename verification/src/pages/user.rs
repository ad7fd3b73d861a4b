//! The forms and queries of a member's own pages.
use crate::auth::{argon2_accepts, check_password_change, phc_string_parses, PasswordChangeError};
use vstd::prelude::*;

verus! {

/// A member's request to change their password.
pub struct ChangePasswordForm {
    old: String,
    new: String,
    new_duplicate: String,
}

impl ChangePasswordForm {
    pub fn new(old: String, new: String, new_duplicate: String) -> (r: Self)
        ensures
            r.old_view() == old@,
            r.new_view() == new@,
            r.new_duplicate_view() == new_duplicate@,
    {
        ChangePasswordForm { old, new, new_duplicate }
    }

    /// The current password given.
    pub closed spec fn old_view(&self) -> Seq<char> {
        self.old@
    }

    /// The new password given.
    pub closed spec fn new_view(&self) -> Seq<char> {
        self.new@
    }

    /// The new password, given a second time.
    pub closed spec fn new_duplicate_view(&self) -> Seq<char> {
        self.new_duplicate@
    }

    /// The new password, once the change is accepted.
    pub fn new_password(&self) -> (r: &str)
        ensures
            r@ == self.new_view(),
    {
        self.new.as_str()
    }

    /// The change is refused when the two new passwords differ, and then when the
    /// current password does not match the stored hash.
    pub fn check(&self, password_hash: &str) -> (r: Result<(), PasswordChangeError>)
        ensures
            self.new_view() != self.new_duplicate_view() ==> r == Err::<(), PasswordChangeError>(PasswordChangeError::Mismatch),
            self.new_view() == self.new_duplicate_view() && !(phc_string_parses(password_hash@) && argon2_accepts(self.old_view(), password_hash@))
                ==> r == Err::<(), PasswordChangeError>(PasswordChangeError::WrongCurrentPassword),
            self.new_view() == self.new_duplicate_view() && phc_string_parses(password_hash@) && argon2_accepts(self.old_view(), password_hash@) ==> r is Ok,
    {
        check_password_change(self.old.as_str(), self.new.as_str(), self.new_duplicate.as_str(), password_hash)
    }
}

/// Whether a member's profile lists their cancelled bookings, or the others.
pub struct ReservationsQuery {
    show_cancelled: bool,
}

impl ReservationsQuery {
    pub fn new(show_cancelled: bool) -> (r: Self)
        ensures
            r.show_cancelled() == show_cancelled,
    {
        ReservationsQuery { show_cancelled }
    }

    pub closed spec fn show_cancelled(&self) -> bool {
        self.show_cancelled
    }

    /// The bookings listed are those whose cancelled flag is the one asked for.
    pub fn lists(&self, booking_cancelled: bool) -> (r: bool)
        ensures
            r == (booking_cancelled == self.show_cancelled()),
    {
        booking_cancelled == self.show_cancelled
    }
}

} // verus!
