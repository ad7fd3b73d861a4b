//! Members of the club.
use crate::dates::{Date, Month, MIN_YEAR};
use vstd::prelude::*;

verus! {

/// A member, as seen when logged in.
#[derive(Debug, Clone)]
pub struct User {
    pub id: i64,
    pub email: String,
    pub name: String,
    pub nickname: Option<String>,
    pub password_hash: String,
    pub role: String,
    pub role_id: i64,
    pub is_active: bool,
    pub admin_panel_access: bool,
    pub member_since: Date,
}

/// The name shown for a member: the nickname when there is one.
pub open spec fn shown_name(nickname: Option<String>, name: String) -> Seq<char> {
    match nickname {
        Some(n) => n@,
        None => name@,
    }
}

impl Default for User {
    fn default() -> (r: User)
        ensures
            r.id == 0,
            r.email@ == Seq::<char>::empty(),
            r.name@ == Seq::<char>::empty(),
            r.nickname is None,
            r.password_hash@ == Seq::<char>::empty(),
            r.role@ == Seq::<char>::empty(),
            r.role_id == 0,
            !r.is_active,
            !r.admin_panel_access,
            r.member_since.y() == MIN_YEAR && r.member_since.mon() == Month::January
                && r.member_since.d() == 1,
    {
        User {
            id: 0,
            email: String::new(),
            name: String::new(),
            nickname: None,
            password_hash: String::new(),
            role: String::new(),
            role_id: 0,
            is_active: false,
            admin_panel_access: false,
            member_since: Date::min(),
        }
    }
}

impl User {
    /// The name shown for the member.
    pub fn display_name(&self) -> (r: &str)
        ensures
            r@ == shown_name(self.nickname, self.name),
    {
        match &self.nickname {
            Some(n) => n.as_str(),
            None => self.name.as_str(),
        }
    }

    /// Who the member is to the session layer: the e-mail address.
    pub fn id(&self) -> (r: String)
        ensures
            r@ == self.email@,
    {
        self.email.clone()
    }
}

/// Everything the administrators see of a member.
#[derive(Debug, Clone)]
pub struct UserDetails {
    pub id: i64,
    pub email: String,
    pub name: String,
    pub nickname: Option<String>,
    pub role: String,
    pub is_active: bool,
    pub has_key: bool,
    pub admin_panel_access: bool,
    pub member_since: Date,
    pub birthday: Date,
    pub received_gift: Option<Date>,
    pub monthly_fee: Option<i64>,
}

impl Default for UserDetails {
    fn default() -> (r: UserDetails)
        ensures
            r.id == 0,
            r.email@ == Seq::<char>::empty(),
            r.name@ == Seq::<char>::empty(),
            r.nickname is None,
            r.role@ == Seq::<char>::empty(),
            !r.is_active,
            !r.has_key,
            !r.admin_panel_access,
            r.member_since.y() == MIN_YEAR && r.member_since.mon() == Month::January
                && r.member_since.d() == 1,
            r.birthday == r.member_since,
            r.received_gift is None,
            r.monthly_fee is None,
    {
        let min = Date::min();
        UserDetails {
            id: 0,
            email: String::new(),
            name: String::new(),
            nickname: None,
            role: String::new(),
            is_active: false,
            has_key: false,
            admin_panel_access: false,
            member_since: min,
            birthday: min,
            received_gift: None,
            monthly_fee: None,
        }
    }
}

impl UserDetails {
    /// The name shown for the member.
    pub fn display_name(&self) -> (r: &str)
        ensures
            r@ == shown_name(self.nickname, self.name),
    {
        match &self.nickname {
            Some(n) => n.as_str(),
            None => self.name.as_str(),
        }
    }
}

/// What a member types to log in.
#[derive(Clone)]
pub struct UserCredentials {
    pub email: String,
    pub password: String,
}

} // verus!
