//! Passwords, log-in checks and permissions.
use crate::model::user::User;
use argon2::{PasswordHasher, PasswordVerifier};
use rand::{RngCore, SeedableRng};
use vstd::string::StringSliceAdditionalSpecFns;
use vstd::prelude::*;

verus! {

/// An error of the `password-hash` crate.
#[verifier::external_type_specification]
#[verifier::external_body]
pub struct ExPasswordHashError(argon2::password_hash::Error);

/// `PasswordHash::new` accepts the text as a PHC string.
pub uninterp spec fn phc_string_parses(hash: Seq<char>) -> bool;

/// Argon2 with default parameters, given the parameters and salt of the PHC string
/// `hash`, computes the output that `hash` holds for `password`.
pub uninterp spec fn argon2_accepts(password: Seq<char>, hash: Seq<char>) -> bool;

/// The PHC string of Argon2 with default parameters for `password` and `salt`.
pub uninterp spec fn argon2_phc_string(password: Seq<char>, salt: Seq<u8>) -> Seq<char>;

/// `validate_credentials` answers `Ok(b)` exactly when the hash parses, `b` saying
/// whether it is the hash of the password.
pub open spec fn credentials_answer(r: Result<bool, argon2::password_hash::Error>, password: Seq<char>, hash: Seq<char>) -> bool {
    &&& (r is Ok <==> phc_string_parses(hash))
    &&& (r matches Ok(b) ==> b == argon2_accepts(password, hash))
}

/// `PasswordHash::new` on the expected hash, then `Argon2::default().verify_password`:
/// `Err` when the hash is not a PHC string, otherwise whether the password hashes
/// to it. Both depend on the two texts alone.
#[verifier::external_body]
pub fn validate_credentials(password: &str, expected_password_hash: &str) -> (r: Result<bool, argon2::password_hash::Error>)
    ensures
        credentials_answer(r, password@, expected_password_hash@),
{
    let expected = argon2::PasswordHash::new(expected_password_hash)?;
    Ok(argon2::Argon2::default().verify_password(password.as_bytes(), &expected).is_ok())
}

/// `Hc128Rng::from_os_rng` then `fill_bytes`: sixteen bytes drawn from the operating
/// system's randomness (the length that `Salt::RECOMMENDED_LENGTH` gives). Nothing
/// is stated of them.
#[verifier::external_body]
fn random_salt_bytes() -> (r: [u8; 16]) {
    let mut rng = rand_hc::Hc128Rng::from_os_rng();
    let mut bytes = [0u8; 16];
    rng.fill_bytes(&mut bytes);
    bytes
}

/// `SaltString::encode_b64` of the salt, `Argon2::default().hash_password` and the PHC
/// string of the result: the hash of `password` with that salt. As the crate's
/// `verify_password` recomputes the hash with the parameters and salt that the
/// string holds, the string parses and verification of the same password succeeds.
/// `hash_password` fails only for a password longer than `u32::MAX` bytes, which the
/// precondition leaves out.
#[verifier::external_body]
fn argon2_hash(password: &str, salt: &[u8; 16]) -> (r: String)
    requires
        password.spec_bytes().len() <= 0xFFFF_FFFF,
    ensures
        r@ == argon2_phc_string(password@, salt@),
        phc_string_parses(r@),
        argon2_accepts(password@, r@),
{
    let salt = argon2::password_hash::SaltString::encode_b64(salt).unwrap();
    argon2::Argon2::default().hash_password(password.as_bytes(), &salt).expect("Failed to hash password").to_string()
}

/// A fresh Argon2 hash of the password, with a random salt; checking the same
/// password against it succeeds. Argon2 refuses passwords longer than `u32::MAX` bytes.
pub fn generate_hash_from_password(password: &str) -> (r: String)
    requires
        password.spec_bytes().len() <= 0xFFFF_FFFF,
    ensures
        exists|salt: Seq<u8>| r@ == argon2_phc_string(password@, salt),
        phc_string_parses(r@),
        argon2_accepts(password@, r@),
        forall|answer: Result<bool, argon2::password_hash::Error>|
            credentials_answer(answer, password@, r@) ==> answer matches Ok(true),
{
    let salt = random_salt_bytes();
    argon2_hash(password, &salt)
}

/// A password is accepted by its own hash: whenever a hash parses and Argon2 accepts
/// the password for it, as holds of every hash that `generate_hash_from_password`
/// makes, `validate_credentials` answers `Ok(true)`; a text that does not parse as a
/// hash is answered with an error.
pub proof fn lemma_own_hash_accepted(
    password: Seq<char>,
    hash: Seq<char>,
    answer: Result<bool, argon2::password_hash::Error>,
)
    requires
        credentials_answer(answer, password, hash),
    ensures
        phc_string_parses(hash) && argon2_accepts(password, hash) ==> answer matches Ok(true),
        !phc_string_parses(hash) ==> answer is Err,
{
}

/// `EmailAddress::is_valid` accepts the text as an e-mail address.
pub uninterp spec fn email_address_valid(s: Seq<char>) -> bool;

/// `email_address::EmailAddress::is_valid`, which depends on the text alone.
#[verifier::external_body]
fn is_valid_email(s: &str) -> (r: bool)
    ensures
        r == email_address_valid(s@),
{
    email_address::EmailAddress::is_valid(s)
}

/// Why a log-in is refused before the password is checked.
#[derive(Debug, PartialEq, Eq, Structural, Clone, Copy)]
pub enum LoginInputError {
    InvalidEmail,
    PasswordTooShort,
}

impl LoginInputError {
    /// The message shown.
    pub fn message(&self) -> (r: &'static str)
        ensures
            *self == LoginInputError::InvalidEmail ==> r@ == "Adresa de email este invalidă"@,
            *self == LoginInputError::PasswordTooShort ==> r@ == "Parola este prea scurtă"@,
    {
        match self {
            LoginInputError::InvalidEmail => "Adresa de email este invalidă",
            LoginInputError::PasswordTooShort => "Parola este prea scurtă",
        }
    }
}

/// A log-in is refused when the e-mail address is not valid, and otherwise when the
/// password has fewer than eight bytes.
pub fn check_login_input(email: &str, password: &str) -> (r: Result<(), LoginInputError>)
    ensures
        !email_address_valid(email@) ==> r == Err::<(), LoginInputError>(LoginInputError::InvalidEmail),
        email_address_valid(email@) && (password.spec_bytes().len() as usize) < 8 ==> r == Err::<(), LoginInputError>(LoginInputError::PasswordTooShort),
        email_address_valid(email@) && (password.spec_bytes().len() as usize) >= 8 ==> r is Ok,
{
    if !is_valid_email(email) {
        return Err(LoginInputError::InvalidEmail);
    }
    if password.len() < 8 {
        return Err(LoginInputError::PasswordTooShort);
    }
    Ok(())
}

/// The permission that gives access to the administration pages.
pub open spec fn admin_permission() -> Seq<char> {
    "admin_panel"@
}

/// The permission tied to the administration pages: its name, or the empty text for
/// a member without access.
pub open spec fn panel_permission(user: User) -> Seq<char> {
    if user.admin_panel_access { admin_permission() } else { Seq::<char>::empty() }
}

/// The set of permissions of a member: the name of the role and the permission tied
/// to the administration pages, each once.
pub fn get_all_permissions(user: &User) -> (r: Vec<String>)
    ensures
        r@.len() >= 1,
        r@[0]@ == user.role@,
        panel_permission(*user) == user.role@ ==> r@.len() == 1,
        panel_permission(*user) != user.role@ ==> r@.len() == 2 && r@[1]@ == panel_permission(*user),
{
    let mut r: Vec<String> = Vec::new();
    r.push(user.role.clone());
    let panel = if user.admin_panel_access {
        proof { reveal_strlit("admin_panel"); }
        String::from_str("admin_panel")
    } else {
        String::new()
    };
    if !crate::text::str_equal(panel.as_str(), user.role.as_str()) {
        r.push(panel);
    }
    r
}

/// Why a member's own password change is refused.
#[derive(Debug, PartialEq, Eq, Structural, Clone, Copy)]
pub enum PasswordChangeError {
    Mismatch,
    WrongCurrentPassword,
}

/// A member changes their password: the two new passwords must be the same, then
/// the current one must match the stored hash (a hash that does not parse counts as
/// a mismatch).
pub fn check_password_change(
    old: &str,
    new: &str,
    new_duplicate: &str,
    password_hash: &str,
) -> (r: Result<(), PasswordChangeError>)
    ensures
        new@ != new_duplicate@ ==> r == Err::<(), PasswordChangeError>(PasswordChangeError::Mismatch),
        new@ == new_duplicate@ && !(phc_string_parses(password_hash@) && argon2_accepts(old@, password_hash@))
            ==> r == Err::<(), PasswordChangeError>(PasswordChangeError::WrongCurrentPassword),
        new@ == new_duplicate@ && phc_string_parses(password_hash@) && argon2_accepts(old@, password_hash@) ==> r is Ok,
{
    if !crate::text::str_equal(new, new_duplicate) {
        return Err(PasswordChangeError::Mismatch);
    }
    let valid = match validate_credentials(old, password_hash) {
        Ok(b) => b,
        Err(_) => false,
    };
    if !valid {
        return Err(PasswordChangeError::WrongCurrentPassword);
    }
    Ok(())
}

} // verus!
