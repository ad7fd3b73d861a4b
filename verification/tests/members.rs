use club_reservations::members::validate_member_edit;
use club_reservations::dates::{Date, Month, YearMonth};
use club_reservations::members::{
    clean_nickname, contains_pattern, name_search_pattern, name_suggestions, parse_date, validate_member_update,
    MemberUpdateError, MembersSortOrder,
};
use club_reservations::model::payment::PaymentBreak;
use club_reservations::model::payment_context::PaymentContext;
use club_reservations::model::user::User;
use club_reservations::payment::breaks::{is_before_membership, parse_month_input, validate_new_break, BreakError, NewBreak};
use club_reservations::roles::role_deletion_refusal;

fn date(year: i32, month: u8, day: u8) -> Date {
    Date::from_calendar_date(year, Month::from_number(month).unwrap(), day).unwrap()
}

#[test]
fn sort_orders_have_their_query_index() {
    assert_eq!(MembersSortOrder::Alphabetical.to_sql_index(), 0);
    assert_eq!(MembersSortOrder::Birthday.to_sql_index(), 1);
    assert_eq!(MembersSortOrder::Gift.to_sql_index(), 2);
    assert_eq!(MembersSortOrder::ClosestBirthday.to_sql_index(), 3);
}

#[test]
fn form_dates() {
    assert_eq!(parse_date("2024-02-29"), Some(date(2024, 2, 29)));
    assert_eq!(parse_date("2023-02-29"), None);
    assert_eq!(parse_date(""), None);
    assert_eq!(parse_date("yyyy-mm-dd"), None);
    assert_eq!(parse_date("29.02.2024"), None);
}

#[test]
fn member_update_accepted() {
    let today = date(2024, 6, 1);
    let r = validate_member_update("1990-05-04", "2020-01-15", Some("2021-03-01"), false, today).unwrap();
    assert_eq!(r.birthday, date(1990, 5, 4));
    assert_eq!(r.member_since, date(2020, 1, 15));
    assert_eq!(r.received_gift, Some(date(2021, 3, 1)));
    // A gift date that does not parse counts as none.
    let r = validate_member_update("1990-05-04", "2020-01-15", Some(""), false, today).unwrap();
    assert_eq!(r.received_gift, None);
}

#[test]
fn member_update_refusals_in_order() {
    let today = date(2024, 6, 1);
    let err = |b: &str, m: &str, g: Option<&str>, taken: bool| validate_member_update(b, m, g, taken, today).err();
    assert_eq!(err("x", "nope", None, true), Some(MemberUpdateError::InvalidBirthday));
    assert_eq!(err("1990-01-01", "nope", None, true), Some(MemberUpdateError::InvalidMemberSince));
    assert_eq!(err("1990-01-01", "2020-01-01", None, true), Some(MemberUpdateError::EmailTaken));
    assert_eq!(err("2024-06-02", "2020-01-01", None, false), Some(MemberUpdateError::BirthdayInFuture));
    assert_eq!(err("1899-12-31", "2020-01-01", None, false), Some(MemberUpdateError::BirthdayTooOld));
    assert_eq!(err("1990-01-01", "2024-07-01", None, false), Some(MemberUpdateError::MemberSinceInFuture));
    assert_eq!(err("1990-01-01", "2020-01-02", Some("2020-01-01"), false), Some(MemberUpdateError::GiftBeforeMembership));
    assert_eq!(MemberUpdateError::EmailTaken.message(), "Adresa de email este deja folosită de alt utilizator");
    assert_eq!(MemberUpdateError::BirthdayTooOld.message(), "Data nașterii este prea veche");
}

#[test]
fn nicknames() {
    assert_eq!(clean_nickname(None), None);
    assert_eq!(clean_nickname(Some("   ".to_string())), None);
    assert_eq!(clean_nickname(Some(" Ana ".to_string())), Some(" Ana ".to_string()));
}

#[test]
fn search_patterns() {
    assert_eq!(contains_pattern("ion"), "%ion%");
    assert_eq!(name_search_pattern("  Ion "), Some("%Ion%".to_string()));
    assert_eq!(name_search_pattern(" \t "), None);
}

#[test]
fn suggestions() {
    assert_eq!(name_suggestions(&vec![]), "");
    let html = name_suggestions(&vec!["Ana".to_string(), "Ion".to_string()]);
    assert!(html.starts_with(r#"<div class="absolute z-[60] bg-base-100 shadow-2xl rounded-xl border border-base-300 w-full mt-1 overflow-hidden">"#));
    assert!(html.ends_with("</div>"));
    assert!(html.contains("input.value = 'Ana';"));
    assert!(html.contains(">Ion</div>"));
    assert!(html.find("Ana").unwrap() < html.find("Ion").unwrap());
    assert_eq!(html.matches("<div").count(), 3);
}

#[test]
fn roles_in_use_are_kept() {
    assert_eq!(role_deletion_refusal(0), None);
    assert_eq!(
        role_deletion_refusal(3),
        Some("3 utilizatori au acest rol, rolul nu poate fi șters".to_string())
    );
}

fn member(since: Date) -> User {
    User { member_since: since, ..Default::default() }
}

fn form(start: &str, end: Option<&str>) -> NewBreak {
    NewBreak { start_month: start.to_string(), end_month: end.map(|s| s.to_string()), reason: None }
}

#[test]
fn break_months() {
    assert_eq!(parse_month_input("2024-03"), Some(date(2024, 3, 1)));
    assert_eq!(parse_month_input("2024-13"), None);
    assert_eq!(parse_month_input("march"), None);
    assert!(is_before_membership(date(2020, 2, 28), &member(date(2020, 3, 15))));
    assert!(!is_before_membership(date(2020, 3, 1), &member(date(2020, 3, 15))));
}

#[test]
fn new_breaks() {
    let m = member(date(2020, 3, 15));
    let empty = PaymentContext::new(vec![], vec![]);
    assert_eq!(validate_new_break(&form("2021-04", None), &m, &empty), Ok((date(2021, 4, 1), date(2021, 4, 1))));
    assert_eq!(
        validate_new_break(&form("2021-04", Some("2021-06")), &m, &empty),
        Ok((date(2021, 4, 1), date(2021, 6, 1)))
    );
    assert_eq!(validate_new_break(&form("bad", Some("bad")), &m, &empty), Err(BreakError::InvalidStart));
    assert_eq!(validate_new_break(&form("2021-04", Some("bad")), &m, &empty), Err(BreakError::InvalidEnd));
    assert_eq!(validate_new_break(&form("2021-04", Some("2021-03")), &m, &empty), Err(BreakError::EndBeforeStart));
    assert_eq!(validate_new_break(&form("2020-02", None), &m, &empty), Err(BreakError::BeforeMembership));
    let with_break = PaymentContext::new(vec![], vec![PaymentBreak::make_break(date(2021, 5, 1), date(2021, 5, 1))]);
    assert_eq!(
        validate_new_break(&form("2021-04", Some("2021-06")), &m, &with_break),
        Err(BreakError::OverlapsBreak)
    );
    let with_payment = PaymentContext::new(vec![YearMonth::new(2021, Month::June)], vec![]);
    assert_eq!(
        validate_new_break(&form("2021-04", Some("2021-06")), &m, &with_payment),
        Err(BreakError::OverlapsPayment)
    );
    assert_eq!(BreakError::OverlapsPayment.message(), "Perioada se suprapune cu o lună deja plătită");
    assert_eq!(BreakError::InvalidStart.message(), "Început de lună invalid");
}

fn edit(role: &str, name: &str, nickname: Option<&str>, gift: Option<&str>) -> club_reservations::members::UpdatedUser {
    club_reservations::members::UpdatedUser {
        email: "ana@club.ro".to_string(),
        name: name.to_string(),
        nickname: nickname.map(|s| s.to_string()),
        role: role.to_string(),
        is_active: Some("on".to_string()),
        has_key: None,
        birthday: "1990-05-04".to_string(),
        member_since: "2020-01-15".to_string(),
        received_gift: gift.map(|s| s.to_string()),
    }
}

#[test]
fn member_edit_with_role() {
    let today = date(2024, 6, 1);
    let u = validate_member_edit(edit("Membru", "  Ana Pop ", Some("  "), Some("2021-03-01")), false, Some(100), today).ok().unwrap();
    assert_eq!(u.email, "ana@club.ro");
    assert_eq!(u.name, "Ana Pop");
    assert_eq!(u.nickname, None);
    assert_eq!(u.role_id, 100);
    assert!(u.is_active);
    assert!(!u.has_key);
    assert_eq!(u.dates.birthday, date(1990, 5, 4));
    assert_eq!(u.dates.received_gift, Some(date(2021, 3, 1)));
    // An unknown role is refused, after the checks of the dates and the address.
    assert_eq!(
        validate_member_edit(edit("Nimic", "Ana", None, None), false, None, today).err(),
        Some(MemberUpdateError::UnknownRole)
    );
    assert_eq!(
        validate_member_edit(edit("Nimic", "Ana", None, None), true, None, today).err(),
        Some(MemberUpdateError::EmailTaken)
    );
    assert_eq!(MemberUpdateError::UnknownRole.message(), "Rolul selectat nu există");
}
