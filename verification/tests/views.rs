use club_reservations::auth::{
    check_login_input, check_password_change, generate_hash_from_password, get_all_permissions, validate_credentials,
    LoginInputError, PasswordChangeError,
};
use club_reservations::dates::{Date, DateHour, Month, YearMonth};
use club_reservations::live::{birthday_message, greets_birthdays, socket_step, SocketAction, SocketEvent};
use club_reservations::model::day_structure::DayStructure;
use club_reservations::model::payment::{PaymentBreak, PaymentWithAllocations};
use club_reservations::model::restriction::Restriction;
use club_reservations::model::user::User;
use club_reservations::model::user_reservation::{group_by_month, CountRow, ReservationsCount, UserReservation};
use club_reservations::pages::bubbles::{ErrorBubbleTemplate, NotificationBubbleResponse};
use club_reservations::pages::login::LoginTemplate;
use club_reservations::pages::user::ChangePasswordForm;
use club_reservations::payment::paid_months::{month_key_text, month_keys, paid_months};
use club_reservations::reservation_hours::{build_reservation_hours, ReservationColor, ReservationRecord};
use club_reservations::situations::{situation_row, situations_csv};
use club_reservations::text::{int_to_string, str_equal, trim};

fn date(year: i32, month: u8, day: u8) -> Date {
    Date::from_calendar_date(year, Month::from_number(month).unwrap(), day).unwrap()
}

#[test]
fn text_helpers() {
    assert_eq!(int_to_string(-42), "-42");
    assert_eq!(int_to_string(0), "0");
    assert_eq!(int_to_string(i64::MIN), "-9223372036854775808");
    assert_eq!(trim("  a b \n"), "a b");
    assert_eq!(trim(" \t "), "");
    assert!(str_equal("ăș", "ăș"));
    assert!(!str_equal("a", "ab"));
}

#[test]
fn passwords_round_trip() {
    let hash = generate_hash_from_password("parola-buna");
    assert_eq!(validate_credentials("parola-buna", &hash).unwrap(), true);
    assert_eq!(validate_credentials("alta-parola", &hash).unwrap(), false);
    assert!(validate_credentials("parola-buna", "not a hash").is_err());
    // Each hash has its own salt.
    assert_ne!(generate_hash_from_password("parola-buna"), hash);
}

#[test]
fn password_changes() {
    let hash = generate_hash_from_password("veche123");
    assert_eq!(check_password_change("veche123", "noua1234", "noua1235", &hash), Err(PasswordChangeError::Mismatch));
    assert_eq!(
        check_password_change("gresita", "noua1234", "noua1234", &hash),
        Err(PasswordChangeError::WrongCurrentPassword)
    );
    assert_eq!(
        check_password_change("veche123", "noua1234", "noua1234", "???"),
        Err(PasswordChangeError::WrongCurrentPassword)
    );
    assert_eq!(check_password_change("veche123", "noua1234", "noua1234", &hash), Ok(()));
    let form = ChangePasswordForm::new("veche123".to_string(), "noua1234".to_string(), "noua1234".to_string());
    assert_eq!(form.check(&hash), Ok(()));
    assert_eq!(form.new_password(), "noua1234");
}

#[test]
fn login_input() {
    assert_eq!(check_login_input("not-an-email", "12345678"), Err(LoginInputError::InvalidEmail));
    assert_eq!(check_login_input("ana@club.ro", "1234567"), Err(LoginInputError::PasswordTooShort));
    assert_eq!(check_login_input("ana@club.ro", "12345678"), Ok(()));
    assert_eq!(LoginInputError::InvalidEmail.message(), "Adresa de email este invalidă");
    let t = LoginTemplate::input_refused(LoginInputError::PasswordTooShort);
    assert_eq!(t.error_message(), Some("Parola este prea scurtă"));
    assert_eq!(LoginTemplate::bad_credentials().error_message(), Some("Email sau parolă invalidă"));
    assert_eq!(
        LoginTemplate::server_failure().error_message(),
        Some("Serverul are probleme, dacă eroare persistă te rog contactează un membru fondator")
    );
    assert_eq!(LoginTemplate::new("x".to_string()).error_message(), Some("x"));
}

#[test]
fn permissions() {
    let mut user = User { role: "Membru".to_string(), ..Default::default() };
    assert_eq!(get_all_permissions(&user), vec!["Membru".to_string(), String::new()]);
    user.admin_panel_access = true;
    assert_eq!(get_all_permissions(&user), vec!["Membru".to_string(), "admin_panel".to_string()]);
    // A set of permissions holds each once.
    assert_eq!(get_all_permissions(&User::default()), vec![String::new()]);
    let odd = User { role: "admin_panel".to_string(), admin_panel_access: true, ..Default::default() };
    assert_eq!(get_all_permissions(&odd), vec!["admin_panel".to_string()]);
    assert_eq!(user.display_name(), "");
    user.nickname = Some("Nick".to_string());
    user.name = "Nume".to_string();
    assert_eq!(user.display_name(), "Nick");
}

#[test]
fn bubbles() {
    assert_eq!(ErrorBubbleTemplate::new("eroare").message, "eroare");
    assert_eq!(NotificationBubbleResponse::new("salut").message, "salut");
}

#[test]
fn live_connection_steps() {
    let today = date(2024, 7, 11);
    let shown = date(2024, 7, 12);
    let (d, a) = socket_step(shown, today, SocketEvent::ReservationsChanged);
    assert_eq!(d, shown);
    assert!(matches!(a, SocketAction::SendHours));
    let (d, a) = socket_step(shown, today, SocketEvent::DateRequested(date(2024, 7, 20)));
    assert_eq!(d, date(2024, 7, 20));
    assert!(matches!(a, SocketAction::SendContent));
    let (d, _) = socket_step(shown, today, SocketEvent::DateRequested(date(2024, 8, 20)));
    assert_eq!(d, today);
    let (_, a) = socket_step(shown, today, SocketEvent::Closed);
    assert!(matches!(a, SocketAction::Stop));
    let (_, a) = socket_step(shown, today, SocketEvent::WatcherClosed);
    assert!(matches!(a, SocketAction::Stop));
}

#[test]
fn birthdays() {
    assert!(greets_birthdays("Admin"));
    assert!(!greets_birthdays("admin"));
    assert_eq!(birthday_message("Ana", None), "Este ziua lui Ana și nu a primit cadou!!");
    assert_eq!(birthday_message("Ion", Some("3 mai 2024")), "Este ziua lui Ion, a primit cadou pe 3 mai 2024");
}

#[test]
fn situations_table() {
    let row = situation_row(7, "Ana", &date(2024, 7, 11), 18, false, true, None, "11.07.2024 10:00");
    assert_eq!(row, "7, \"Ana\", 2024-07-11, 18, false, true, \"\", \"11.07.2024 10:00\"");
    let row2 = situation_row(-1, "Ion", &date(2024, 1, 2), 9, true, false, Some("Dan"), "x");
    assert_eq!(row2, "-1, \"Ion\", 2024-01-02, 9, true, false, \"Dan\", \"x\"");
    let old = situation_row(1, "A", &date(-5, 3, 7), 10, false, false, None, "");
    assert_eq!(old, "1, \"A\", -0005-03-07, 10, false, false, \"\", \"\"");
    let csv = situations_csv(&vec![row.clone(), row2.clone()]);
    assert_eq!(
        csv,
        format!("User ID, Nume, Data, Ora, Ca invitat, Anulat, Creat pentru, Creat pe\n{row}\n{row2}")
    );
    assert_eq!(situations_csv(&vec![]), "User ID, Nume, Data, Ora, Ca invitat, Anulat, Creat pentru, Creat pe");
}

fn payment(months: Vec<YearMonth>) -> PaymentWithAllocations {
    PaymentWithAllocations {
        id: 1,
        amount: 5000,
        payment_date: date(2024, 1, 1),
        notes: None,
        allocations: months,
        created_at: time::OffsetDateTime::UNIX_EPOCH,
        created_by: 1,
        created_by_name: "Admin".to_string(),
    }
}

#[test]
fn paid_month_keys() {
    let payments = vec![
        payment(vec![YearMonth::new(2024, Month::January), YearMonth::new(2024, Month::February)]),
        payment(vec![YearMonth::new(2024, Month::February)]),
    ];
    let breaks = vec![PaymentBreak::make_break(date(2024, 2, 15), date(2024, 4, 1))];
    let months = paid_months(&payments, &breaks);
    assert_eq!(months.len(), 4);
    for m in [Month::January, Month::February, Month::March, Month::April] {
        assert!(months.contains(&YearMonth::new(2024, m)));
    }
    let keys = month_keys(&months);
    assert!(keys.contains(&"1-2024".to_string()));
    assert!(keys.contains(&"4-2024".to_string()));
    assert_eq!(month_key_text(YearMonth::new(987, Month::December)), "12-0987");
    assert_eq!(month_key_text(YearMonth::new(-5, Month::May)), "5--005");
    assert_eq!(month_key_text(YearMonth::new(12345, Month::May)), "5-12345");
}

fn record(name: &str, hour: i64, as_guest: bool, in_waiting: bool, cancelled: bool, created_for: Option<&str>) -> ReservationRecord {
    ReservationRecord {
        name: name.to_string(),
        user_id: 1,
        hour,
        has_key: true,
        as_guest,
        in_waiting,
        created_for: created_for.map(|s| s.to_string()),
        cancelled,
        role_color: Some("red".to_string()),
    }
}

#[test]
fn hours_of_a_day() {
    let day = DayStructure::new(18, 2, 2, true);
    let records = vec![
        record("Ana", 18, false, false, false, None),
        record("Ion", 18, true, false, false, None),
        record("Dan", 18, false, true, false, None),
        record("Eva", 20, false, false, true, None),
        record("Ana", 20, false, false, false, Some("Prieten")),
    ];
    let hours = build_reservation_hours(&day, &[], &records, Some(8));
    assert_eq!(hours.hours.len(), 2);
    let first = &hours.hours[0];
    assert_eq!((first.start_hour, first.end_hour), (18, 20));
    let res = first.reservations.as_ref().ok().unwrap();
    assert_eq!(res.active.len(), 2);
    assert!(matches!(res.active[0].color, ReservationColor::Role(Some(ref c)) if c == "red"));
    assert!(matches!(res.active[1].color, ReservationColor::Blue));
    assert_eq!(res.waiting[0].name, "Dan");
    let second = hours.hours[1].reservations.as_ref().ok().unwrap();
    assert_eq!(second.cancelled[0].name, "Eva");
    assert_eq!(second.active[0].name, "Prieten");
    assert!(!second.active[0].has_account);
    assert!(!second.active[0].has_key);
    assert!(matches!(second.active[0].color, ReservationColor::Pink));

    let closed = Restriction { date: date(2024, 7, 11), hour: Some(20), message: "Antrenament".to_string(), created_at: time::OffsetDateTime::UNIX_EPOCH };
    let hours = build_reservation_hours(&day, &[closed], &records, None);
    assert!(hours.hours[0].reservations.is_ok());
    assert_eq!(hours.hours[1].reservations.as_ref().err().unwrap(), "Antrenament");
}

fn booking(day: Date, hour: i64, cancelled: bool) -> UserReservation {
    UserReservation { date: day, hour, as_guest: false, cancelled, in_waiting: false, created_at: time::OffsetDateTime::UNIX_EPOCH }
}

#[test]
fn bookings_grouped_by_month() {
    let input = vec![
        booking(date(2024, 1, 5), 18, false),
        booking(date(2024, 3, 1), 18, false),
        booking(date(2024, 1, 9), 20, false),
        booking(date(2023, 12, 30), 18, false),
    ];
    let groups = group_by_month(&input);
    let keys: Vec<(i32, Month, usize)> = groups.iter().map(|g| (g.year, g.month, g.reservations.len())).collect();
    assert_eq!(keys, vec![(2024, Month::March, 1), (2024, Month::January, 2), (2023, Month::December, 1)]);
    assert_eq!(groups[1].reservations[1].date, date(2024, 1, 9));
}

#[test]
fn cancellable_bookings() {
    let now = DateHour { date: date(2024, 7, 11), hour: 18 };
    assert!(booking(date(2024, 7, 11), 18, false).is_cancellable_at(now));
    assert!(!booking(date(2024, 7, 11), 17, false).is_cancellable_at(now));
    assert!(booking(date(2024, 7, 12), 8, false).is_cancellable_at(now));
    assert!(!booking(date(2024, 7, 12), 8, true).is_cancellable_at(now));
}

#[test]
fn weekly_counts() {
    let c = ReservationsCount::from_rows(&[CountRow { as_guest: false, count: 2 }, CountRow { as_guest: true, count: 1 }]);
    assert_eq!(c, ReservationsCount { member: 2, guest: 1 });
    assert_eq!(ReservationsCount::from_rows(&[]), ReservationsCount { member: 0, guest: 0 });
}

#[test]
fn defaults_and_names() {
    let u = User::default();
    assert_eq!(u.id, 0);
    assert!(!u.is_active && !u.admin_panel_access);
    assert_eq!(u.member_since, club_reservations::dates::Date::min());
    let d = club_reservations::model::user::UserDetails::default();
    assert_eq!(d.birthday, d.member_since);
    assert_eq!(d.monthly_fee, None);
    assert_eq!(d.display_name(), "");
    let named = User { email: "ana@club.ro".to_string(), name: "Ana".to_string(), ..Default::default() };
    assert_eq!(named.id(), "ana@club.ro");
    assert_eq!(named.display_name(), "Ana");
}

#[test]
fn reservations_queries() {
    let q = club_reservations::pages::user::ReservationsQuery::new(true);
    assert!(q.lists(true));
    assert!(!q.lists(false));
    let q = club_reservations::pages::profile::ReservationsQuery::new(false);
    assert!(q.lists(false));
    assert!(!q.lists(true));
}
