//! Administration of members: ordering the list and checking edits.
use crate::dates::{iso_date_parse, parse_iso_date, Date};
use crate::text::{str_equal, trim, trimmed};
use vstd::prelude::*;

verus! {

/// The orders in which the member list can be shown.
#[derive(Clone, Copy, PartialEq, Eq, Structural, Debug)]
pub enum MembersSortOrder {
    Alphabetical,
    Birthday,
    Gift,
    ClosestBirthday,
}

impl MembersSortOrder {
    /// The number by which the list query picks the order.
    pub fn to_sql_index(self) -> (r: u8)
        ensures
            r == match self {
                MembersSortOrder::Alphabetical => 0u8,
                MembersSortOrder::Birthday => 1u8,
                MembersSortOrder::Gift => 2u8,
                MembersSortOrder::ClosestBirthday => 3u8,
            },
    {
        match self {
            MembersSortOrder::Alphabetical => 0,
            MembersSortOrder::Birthday => 1,
            MembersSortOrder::Gift => 2,
            MembersSortOrder::ClosestBirthday => 3,
        }
    }
}

/// The new password that an administrator sets for a member.
pub struct ChangePasswordForm {
    pub password: String,
}

/// A member's details as the edit form submits them.
pub struct UpdatedUser {
    pub email: String,
    pub name: String,
    pub nickname: Option<String>,
    pub role: String,
    pub is_active: Option<String>,
    pub has_key: Option<String>,
    pub birthday: String,
    pub member_since: String,
    pub received_gift: Option<String>,
}

/// The date a form field holds: none when it is empty or still the placeholder
/// `yyyy-mm-dd`, otherwise the ISO date it writes, if any.
pub open spec fn form_date(s: Seq<char>) -> Option<(int, int, int)> {
    if s.len() == 0 || s == "yyyy-mm-dd"@ {
        None
    } else {
        iso_date_parse(s)
    }
}

pub open spec fn is_date(d: Date, p: (int, int, int)) -> bool {
    d.y() == p.0 && d.m() == p.1 && d.d() == p.2
}

/// The date a form field holds.
pub fn parse_date(s: &str) -> (r: Option<Date>)
    ensures
        match form_date(s@) {
            Some(p) => r matches Some(d) && is_date(d, p),
            None => r is None,
        },
{
    proof {
        reveal_strlit("yyyy-mm-dd");
    }
    if s.unicode_len() == 0 || str_equal(s, "yyyy-mm-dd") {
        return None;
    }
    parse_iso_date(s)
}

/// Why an edit of a member is refused.
#[derive(Debug, PartialEq, Eq, Structural, Clone, Copy)]
pub enum MemberUpdateError {
    InvalidBirthday,
    InvalidMemberSince,
    EmailTaken,
    BirthdayInFuture,
    BirthdayTooOld,
    MemberSinceInFuture,
    GiftBeforeMembership,
    UnknownRole,
}

pub open spec fn member_update_message(e: MemberUpdateError) -> Seq<char> {
    match e {
        MemberUpdateError::InvalidBirthday => "Data nașterii este invalidă"@,
        MemberUpdateError::InvalidMemberSince => "Data înscrierii este invalidă"@,
        MemberUpdateError::EmailTaken => "Adresa de email este deja folosită de alt utilizator"@,
        MemberUpdateError::BirthdayInFuture => "Data nașterii nu poate fi în viitor"@,
        MemberUpdateError::BirthdayTooOld => "Data nașterii este prea veche"@,
        MemberUpdateError::MemberSinceInFuture => "Data înscrierii nu poate fi în viitor"@,
        MemberUpdateError::GiftBeforeMembership => "Data primirii cadoului nu poate fi înainte de înscriere"@,
        MemberUpdateError::UnknownRole => "Rolul selectat nu există"@,
    }
}

impl MemberUpdateError {
    /// The message shown.
    pub fn message(&self) -> (r: &'static str)
        ensures
            r@ == member_update_message(*self),
    {
        match self {
            MemberUpdateError::InvalidBirthday => "Data nașterii este invalidă",
            MemberUpdateError::InvalidMemberSince => "Data înscrierii este invalidă",
            MemberUpdateError::EmailTaken => "Adresa de email este deja folosită de alt utilizator",
            MemberUpdateError::BirthdayInFuture => "Data nașterii nu poate fi în viitor",
            MemberUpdateError::BirthdayTooOld => "Data nașterii este prea veche",
            MemberUpdateError::MemberSinceInFuture => "Data înscrierii nu poate fi în viitor",
            MemberUpdateError::GiftBeforeMembership => "Data primirii cadoului nu poate fi înainte de înscriere",
            MemberUpdateError::UnknownRole => "Rolul selectat nu există",
        }
    }
}

/// The dates of an accepted edit.
pub struct MemberDates {
    pub birthday: Date,
    pub member_since: Date,
    pub received_gift: Option<Date>,
}

/// The first check of an edit that fails, in order: the birthday and the joining
/// date must parse, the e-mail address must not belong to another member, the
/// birthday must not be after `today` nor before 1900, the joining date must not be
/// after `today`, and a gift date must not be before the joining date (a gift date
/// that does not parse counts as none).
pub open spec fn member_update_problem(
    birthday: Seq<char>,
    member_since: Seq<char>,
    received_gift: Option<Seq<char>>,
    email_taken: bool,
    today: Date,
) -> Option<MemberUpdateError> {
    match form_date(birthday) {
        None => Some(MemberUpdateError::InvalidBirthday),
        Some(b) => match form_date(member_since) {
            None => Some(MemberUpdateError::InvalidMemberSince),
            Some(m) => {
                let gift = match received_gift { Some(g) => form_date(g), None => None };
                let today_p = (today.y(), today.m(), today.d());
                if email_taken {
                    Some(MemberUpdateError::EmailTaken)
                } else if triple_before(today_p, b) {
                    Some(MemberUpdateError::BirthdayInFuture)
                } else if b.0 < 1900 {
                    Some(MemberUpdateError::BirthdayTooOld)
                } else if triple_before(today_p, m) {
                    Some(MemberUpdateError::MemberSinceInFuture)
                } else if gift matches Some(g) && triple_before(g, m) {
                    Some(MemberUpdateError::GiftBeforeMembership)
                } else {
                    None
                }
            },
        },
    }
}

/// Dates given by year, month and day, compared in calendar order.
pub open spec fn triple_before(a: (int, int, int), b: (int, int, int)) -> bool {
    a.0 < b.0 || (a.0 == b.0 && a.1 < b.1) || (a.0 == b.0 && a.1 == b.1 && a.2 < b.2)
}

/// The optional text of a form field, by its view.
pub open spec fn opt_view(t: Option<&str>) -> Option<Seq<char>> {
    match t {
        Some(g) => Some(g@),
        None => None,
    }
}

/// The dates are those that the fields write (a gift field that writes no date
/// gives none).
pub open spec fn dates_match(d: MemberDates, birthday: Seq<char>, member_since: Seq<char>, received_gift: Option<Seq<char>>) -> bool {
    &&& is_date(d.birthday, form_date(birthday)->0)
    &&& is_date(d.member_since, form_date(member_since)->0)
    &&& match (match received_gift { Some(g) => form_date(g), None => None }) {
        Some(g) => d.received_gift matches Some(x) && is_date(x, g),
        None => d.received_gift is None,
    }
}

/// Checks the dates of an edit of a member, with `email_taken` telling whether the
/// e-mail address belongs to another member, and returns them when they are accepted.
pub fn validate_member_update(
    birthday: &str,
    member_since: &str,
    received_gift: Option<&str>,
    email_taken: bool,
    today: Date,
) -> (r: Result<MemberDates, MemberUpdateError>)
    ensures
        match member_update_problem(birthday@, member_since@, opt_view(received_gift), email_taken, today) {
            Some(e) => r matches Err(x) && x == e,
            None => r matches Ok(d) && dates_match(d, birthday@, member_since@, opt_view(received_gift)),
        },
{
    let b = match parse_date(birthday) {
        Some(d) => d,
        None => return Err(MemberUpdateError::InvalidBirthday),
    };
    let m = match parse_date(member_since) {
        Some(d) => d,
        None => return Err(MemberUpdateError::InvalidMemberSince),
    };
    let gift = match received_gift {
        Some(g) => parse_date(g),
        None => None,
    };
    if email_taken {
        return Err(MemberUpdateError::EmailTaken);
    }
    if today.before(&b) {
        return Err(MemberUpdateError::BirthdayInFuture);
    }
    if b.year() < 1900 {
        return Err(MemberUpdateError::BirthdayTooOld);
    }
    if today.before(&m) {
        return Err(MemberUpdateError::MemberSinceInFuture);
    }
    if let Some(g) = gift {
        if g.before(&m) {
            return Err(MemberUpdateError::GiftBeforeMembership);
        }
    }
    Ok(MemberDates { birthday: b, member_since: m, received_gift: gift })
}

/// A nickname is kept only when it holds more than white space.
pub fn clean_nickname(nickname: Option<String>) -> (r: Option<String>)
    ensures
        match nickname {
            Some(n) => if trimmed(n@).len() == 0 { r is None } else { r matches Some(x) && x@ == n@ },
            None => r is None,
        },
{
    match nickname {
        Some(n) => {
            let t = trim(n.as_str());
            if t.unicode_len() == 0 {
                None
            } else {
                Some(n)
            }
        },
        None => None,
    }
}


/// A member's edit as it is stored.
pub struct MemberUpdate {
    pub email: String,
    pub name: String,
    pub nickname: Option<String>,
    pub role_id: i64,
    pub is_active: bool,
    pub has_key: bool,
    pub dates: MemberDates,
}

/// The first problem with an edit of a member: those of its dates and e-mail address
/// (see `member_update_problem`), then a role that no role of the club has, which
/// `role_id` gives as the id of the role named, if there is one.
pub open spec fn member_edit_problem(form: UpdatedUser, email_taken: bool, role_id: Option<i64>, today: Date) -> Option<MemberUpdateError> {
    match member_update_problem(form.birthday@, form.member_since@, opt_text(form.received_gift), email_taken, today) {
        Some(e) => Some(e),
        None => if role_id is None { Some(MemberUpdateError::UnknownRole) } else { None },
    }
}

/// An optional text by its view.
pub open spec fn opt_text(t: Option<String>) -> Option<Seq<char>> {
    match t {
        Some(g) => Some(g@),
        None => None,
    }
}

/// Checks an edit of a member, with `email_taken` telling whether the e-mail address
/// belongs to another member and `role_id` the id of the role the form names, if that
/// role exists. An accepted edit stores the address as given, the name trimmed, the
/// nickname only when it holds more than white space, the role's id, the two
/// check boxes as ticked or not, and the dates that the fields write; a refused one
/// changes nothing and gives the first problem.
pub fn validate_member_edit(form: UpdatedUser, email_taken: bool, role_id: Option<i64>, today: Date) -> (r: Result<MemberUpdate, MemberUpdateError>)
    ensures
        match member_edit_problem(form, email_taken, role_id, today) {
            Some(e) => r matches Err(x) && x == e,
            None => r matches Ok(u) && {
                &&& u.email@ == form.email@
                &&& u.name@ == trimmed(form.name@)
                &&& match form.nickname {
                    Some(n) => if trimmed(n@).len() == 0 { u.nickname is None } else { u.nickname matches Some(x) && x@ == n@ },
                    None => u.nickname is None,
                }
                &&& u.role_id == role_id->0
                &&& u.is_active == form.is_active is Some
                &&& u.has_key == form.has_key is Some
                &&& dates_match(u.dates, form.birthday@, form.member_since@, opt_text(form.received_gift))
            },
        },
{
    let gift: Option<&str> = match &form.received_gift {
        Some(g) => Some(g.as_str()),
        None => None,
    };
    assert(opt_view(gift) == opt_text(form.received_gift));
    let dates = match validate_member_update(form.birthday.as_str(), form.member_since.as_str(), gift, email_taken, today) {
        Ok(d) => d,
        Err(e) => return Err(e),
    };
    let role_id = match role_id {
        Some(id) => id,
        None => return Err(MemberUpdateError::UnknownRole),
    };
    let name = String::from_str(trim(form.name.as_str()));
    let is_active = form.is_active.is_some();
    let has_key = form.has_key.is_some();
    Ok(MemberUpdate {
        email: form.email,
        name,
        nickname: clean_nickname(form.nickname),
        role_id,
        is_active,
        has_key,
        dates,
    })
}

/// The pattern that finds the members whose fields contain the text.
pub open spec fn like_pattern(text: Seq<char>) -> Seq<char> {
    seq!['%'] + text + seq!['%']
}

/// The pattern that finds the members whose fields contain `text`.
pub fn contains_pattern(text: &str) -> (r: String)
    ensures
        r@ == like_pattern(text@),
{
    proof {
        reveal_strlit("%");
    }
    let mut s = String::from_str("%");
    s.append(text);
    s.append("%");
    s
}

/// The pattern of a name search: none when nothing is left of the name once trimmed,
/// otherwise the trimmed name between wildcards.
pub fn name_search_pattern(name: &str) -> (r: Option<String>)
    ensures
        trimmed(name@).len() == 0 ==> r is None,
        trimmed(name@).len() > 0 ==> (r matches Some(p) && p@ == like_pattern(trimmed(name@))),
{
    let t = trim(name);
    if t.unicode_len() == 0 {
        None
    } else {
        Some(contains_pattern(t))
    }
}

/// One suggested name, which fills the search field when chosen.
pub open spec fn suggestion_html(name: Seq<char>) -> Seq<char> {
    "<div class=\"px-4 py-2 hover:bg-primary hover:text-primary-content cursor-pointer border-b border-base-300 last:border-0\" \n                        onclick=\"const input = this.closest('.relative').querySelector('input'); input.value = '"@ + name + "'; this.closest('.search-results-container').innerHTML = '';\">"@ + name + "</div>"@
}

/// The suggestions, one after the other.
pub open spec fn suggestions_html(names: Seq<Seq<char>>) -> Seq<char>
    decreases names.len(),
{
    if names.len() == 0 {
        Seq::empty()
    } else {
        suggestions_html(names.drop_last()) + suggestion_html(names.last())
    }
}

/// The list of suggested names under the search field: nothing when there are none.
pub open spec fn suggestion_list_html(names: Seq<Seq<char>>) -> Seq<char> {
    if names.len() == 0 {
        Seq::empty()
    } else {
        "<div class=\"absolute z-[60] bg-base-100 shadow-2xl rounded-xl border border-base-300 w-full mt-1 overflow-hidden\">"@ + suggestions_html(names) + "</div>"@
    }
}

/// The list of suggested names under the search field: nothing when there are none.
pub fn name_suggestions(names: &Vec<String>) -> (r: String)
    ensures
        r@ == suggestion_list_html(names@.map_values(|n: String| n@)),
{
    let ghost views = names@.map_values(|n: String| n@);
    if names.len() == 0 {
        return String::new();
    }
    proof {
        reveal_strlit("<div class=\"absolute z-[60] bg-base-100 shadow-2xl rounded-xl border border-base-300 w-full mt-1 overflow-hidden\">");
    }
    let mut s = String::from_str("<div class=\"absolute z-[60] bg-base-100 shadow-2xl rounded-xl border border-base-300 w-full mt-1 overflow-hidden\">");
    let ghost head = s@;
    let mut i: usize = 0;
    while i < names.len()
        invariant
            i <= names@.len(),
            views == names@.map_values(|n: String| n@),
            s@ == head + suggestions_html(views.take(i as int)),
        decreases names@.len() - i,
    {
        proof {
            reveal_strlit("<div class=\"px-4 py-2 hover:bg-primary hover:text-primary-content cursor-pointer border-b border-base-300 last:border-0\" \n                        onclick=\"const input = this.closest('.relative').querySelector('input'); input.value = '");
            reveal_strlit("'; this.closest('.search-results-container').innerHTML = '';\">");
            reveal_strlit("</div>");
        }
        let ghost before = s@;
        let n = names[i].as_str();
        s.append("<div class=\"px-4 py-2 hover:bg-primary hover:text-primary-content cursor-pointer border-b border-base-300 last:border-0\" \n                        onclick=\"const input = this.closest('.relative').querySelector('input'); input.value = '");
        s.append(n);
        s.append("'; this.closest('.search-results-container').innerHTML = '';\">");
        s.append(n);
        s.append("</div>");
        proof {
            let t = views.take(i + 1);
            assert(t.drop_last() =~= views.take(i as int));
            assert(t.last() == n@);
            assert(s@ =~= before + suggestion_html(n@));
        }
        i = i + 1;
    }
    proof {
        reveal_strlit("</div>");
    }
    s.append("</div>");
    assert(views.take(views.len() as int) =~= views);
    s
}

} // verus!
