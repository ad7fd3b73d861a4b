//! The login form and the messages it shows.
use crate::auth::LoginInputError;
use vstd::prelude::*;

verus! {

/// The login form, with the error shown above it, if any.
pub struct LoginTemplate {
    error: Option<String>,
}

/// The message shown when the server fails while logging in.
pub open spec fn server_failure_message() -> Seq<char> {
    "Serverul are probleme, dacă eroare persistă te rog contactează un membru fondator"@
}

/// The message shown when no member has the email and password given.
pub open spec fn bad_credentials_message() -> Seq<char> {
    "Email sau parolă invalidă"@
}

impl LoginTemplate {
    /// The form showing `message` as its error.
    pub fn new(message: String) -> (r: Self)
        ensures
            r.error() == Some(message@),
    {
        LoginTemplate { error: Some(message) }
    }

    /// The error the form shows, if any.
    pub closed spec fn error(&self) -> Option<Seq<char>> {
        match &self.error {
            Some(e) => Some(e@),
            None => None,
        }
    }

    /// The error the form shows, if any.
    pub fn error_message(&self) -> (r: Option<&str>)
        ensures
            self.error() == match r { Some(s) => Some(s@), None => None::<Seq<char>> },
    {
        match &self.error {
            Some(e) => Some(e.as_str()),
            None => None,
        }
    }

    /// The form shown when the server fails while logging in.
    pub fn server_failure() -> (r: Self)
        ensures
            r.error() == Some(server_failure_message()),
    {
        let message = "Serverul are probleme, dacă eroare persistă te rog contactează un membru fondator";
        proof {
            reveal_strlit("Serverul are probleme, dacă eroare persistă te rog contactează un membru fondator");
        }
        Self::new(String::from_str(message))
    }

    /// The form shown when no member has the email and password given.
    pub fn bad_credentials() -> (r: Self)
        ensures
            r.error() == Some(bad_credentials_message()),
    {
        let message = "Email sau parolă invalidă";
        proof {
            reveal_strlit("Email sau parolă invalidă");
        }
        Self::new(String::from_str(message))
    }

    /// The form shown when the input is refused before any lookup.
    pub fn input_refused(e: LoginInputError) -> (r: Self)
        ensures
            e == LoginInputError::InvalidEmail ==> r.error() == Some("Adresa de email este invalidă"@),
            e == LoginInputError::PasswordTooShort ==> r.error() == Some("Parola este prea scurtă"@),
    {
        Self::new(String::from_str(e.message()))
    }
}

} // verus!
