use club_reservations::dates::{Date, Month};
use club_reservations::model::payment_context::PaymentContext;
use club_reservations::model::user::User;
use club_reservations::model::payment::PaymentBreak;
use club_reservations::dates::YearMonth;
use club_reservations::payment::debtors::{
    check_user_has_paid, compute_debtors_from, is_exempt_role_id, BreakRow, PaidMonth,
};

fn date(year: i32, month: u8, day: u8) -> Date {
    Date::from_calendar_date(year, Month::from_number(month).unwrap(), day).unwrap()
}

fn user(id: i64, name: &str, role_id: i64, member_since: Date) -> User {
    User {
        id,
        email: format!("{name}@test.com"),
        name: name.to_string(),
        role_id,
        is_active: true,
        member_since,
        ..Default::default()
    }
}

fn paid(user_id: i64, months: &[u8]) -> Vec<PaidMonth> {
    months.iter().map(|&month| PaidMonth { user_id, month }).collect()
}

fn today() -> Date {
    date(2026, 1, 1)
}

#[test]
fn returns_empty_when_all_users_paid() {
    let users = vec![user(1, "Paid User", 100, date(2020, 1, 1))];
    let p = paid(1, &[1, 2, 3, 4, 5, 6, 7, 8, 9, 10, 11, 12]);
    let debtors = compute_debtors_from(users, &p, &[], 2020, today());
    assert!(debtors.is_empty());
}

#[test]
fn returns_users_with_unpaid_months_sorted_by_count() {
    let users = vec![
        user(2, "B User", 100, date(2020, 1, 1)),
        user(1, "A User", 100, date(2020, 1, 1)),
    ];
    let mut p = paid(1, &[1, 2, 3, 4, 5, 6]);
    p.extend(paid(2, &[1, 2, 3, 4, 5, 6, 7, 8, 9]));
    let debtors = compute_debtors_from(users, &p, &[], 2020, today());
    assert_eq!(debtors.len(), 2);

    // Sorted by unpaid count (descending)
    assert_eq!(debtors[0].member.name, "A User");
    assert_eq!(debtors[0].unpaid_months.len(), 6);
    assert_eq!(debtors[1].member.name, "B User");
    assert_eq!(debtors[1].unpaid_months.len(), 3);
}

#[test]
fn skips_roles_in_user_rolls_to_skip() {
    let users = vec![
        user(1, "Regular", 100, date(2020, 1, 1)),
        user(2, "SkippedUser", 5, date(2020, 1, 1)),
    ];
    let debtors = compute_debtors_from(users, &[], &[], 2020, today());
    assert_eq!(debtors.len(), 1);
    assert_eq!(debtors[0].member.name, "Regular");
}

#[test]
fn respects_member_since_date() {
    let users = vec![user(1, "Late Joiner", 100, date(2020, 7, 1))];
    let debtors = compute_debtors_from(users, &[], &[], 2020, today());
    assert_eq!(debtors.len(), 1);
    assert_eq!(debtors[0].unpaid_months.len(), 6);
    assert!(debtors[0].unpaid_months.contains(&"Iulie"));
    assert!(debtors[0].unpaid_months.contains(&"Decembrie"));
    assert!(!debtors[0].unpaid_months.contains(&"Ianuarie"));
}

#[test]
fn respects_payment_breaks() {
    let users = vec![user(1, "Break User", 100, date(2020, 1, 1))];
    let breaks = vec![BreakRow { user_id: 1, start_date: date(2020, 3, 1), end_date: date(2020, 5, 1) }];
    let p = paid(1, &[1, 2]);
    let debtors = compute_debtors_from(users, &p, &breaks, 2020, today());
    assert_eq!(debtors.len(), 1);
    assert_eq!(debtors[0].unpaid_months.len(), 7);
    assert!(debtors[0].unpaid_months.contains(&"Iunie"));
    assert!(!debtors[0].unpaid_months.contains(&"Martie"));
}

#[test]
fn handles_user_with_no_payments() {
    let users = vec![user(1, "No Payments", 100, date(2020, 1, 1))];
    let debtors = compute_debtors_from(users, &[], &[], 2020, today());
    assert_eq!(debtors.len(), 1);
    assert_eq!(debtors[0].unpaid_months.len(), 12);
}

#[test]
fn user_joined_in_selected_year() {
    let users = vec![user(1, "Oct Joiner", 100, date(2020, 10, 15))];
    let debtors = compute_debtors_from(users, &[], &[], 2020, today());
    assert_eq!(debtors.len(), 1);
    assert_eq!(debtors[0].unpaid_months.len(), 3);
    assert!(debtors[0].unpaid_months.contains(&"Octombrie"));
    assert!(debtors[0].unpaid_months.contains(&"Noiembrie"));
    assert!(debtors[0].unpaid_months.contains(&"Decembrie"));
}

#[test]
fn break_spanning_multiple_months() {
    let users = vec![user(1, "Long Break", 100, date(2020, 1, 1))];
    let breaks = vec![BreakRow { user_id: 1, start_date: date(2020, 1, 1), end_date: date(2020, 6, 1) }];
    let debtors = compute_debtors_from(users, &[], &breaks, 2020, today());
    assert_eq!(debtors.len(), 1);
    assert_eq!(debtors[0].unpaid_months.len(), 6);
    assert!(debtors[0].unpaid_months.contains(&"Iulie"));
    assert!(!debtors[0].unpaid_months.contains(&"Ianuarie"));
}

#[test]
fn months_after_the_current_one_are_not_owed() {
    let users = vec![user(1, "Current", 100, date(2020, 1, 1))];
    let debtors = compute_debtors_from(users, &[], &[], 2021, date(2021, 4, 10));
    assert_eq!(debtors.len(), 1);
    assert_eq!(debtors[0].unpaid_months, vec!["Ianuarie", "Februarie", "Martie", "Aprilie"]);
}

#[test]
fn equal_counts_keep_the_order_of_members() {
    let users = vec![
        user(1, "First", 100, date(2020, 1, 1)),
        user(2, "Second", 100, date(2020, 1, 1)),
        user(3, "Most", 100, date(2020, 1, 1)),
    ];
    let mut p = paid(1, &[1, 2, 3, 4, 5, 6, 7, 8, 9, 10]);
    p.extend(paid(2, &[1, 2, 3, 4, 5, 6, 7, 8, 9, 10]));
    let debtors = compute_debtors_from(users, &p, &[], 2020, today());
    let names: Vec<&str> = debtors.iter().map(|d| d.member.name.as_str()).collect();
    assert_eq!(names, vec!["Most", "First", "Second"]);
    for w in debtors.windows(2) {
        assert!(w[0].unpaid_months.len() >= w[1].unpaid_months.len());
    }
}

#[test]
fn exempt_roles() {
    for r in [1, 2, 5, 7] {
        assert!(is_exempt_role_id(r));
    }
    for r in [0, 3, 4, 6, 8, 100] {
        assert!(!is_exempt_role_id(r));
    }
}

#[test]
fn member_has_paid_when_one_of_the_last_three_months_is_covered() {
    let member = user(1, "M", 100, date(2020, 1, 1));
    let ctx = PaymentContext::new(vec![YearMonth::new(2021, Month::February)], vec![]);
    assert!(check_user_has_paid(&member, true, &ctx, date(2021, 4, 10)));
    assert!(!check_user_has_paid(&member, true, &ctx, date(2021, 5, 10)));
    // While payments are not checked everyone may book.
    assert!(check_user_has_paid(&member, false, &ctx, date(2021, 5, 10)));
    // Across the start of a year.
    let ctx = PaymentContext::new(vec![YearMonth::new(2020, Month::November)], vec![]);
    assert!(check_user_has_paid(&member, true, &ctx, date(2021, 1, 3)));
    // A break also counts.
    let ctx = PaymentContext::new(vec![], vec![PaymentBreak::make_break(date(2021, 3, 1), date(2021, 3, 31))]);
    assert!(check_user_has_paid(&member, true, &ctx, date(2021, 5, 1)));
    // Administrators always may.
    let mut admin = user(2, "A", 100, date(2020, 1, 1));
    admin.admin_panel_access = true;
    assert!(check_user_has_paid(&admin, true, &PaymentContext::new(vec![], vec![]), date(2021, 5, 1)));
}
