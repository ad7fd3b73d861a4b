use club_reservations::dates::{Date, Month, YearMonth};
use club_reservations::model::payment::{PaymentBreak, PaymentWithAllocations};

fn date(year: i32, month: u8, day: u8) -> Date {
    Date::from_calendar_date(year, Month::from_number(month).unwrap(), day).unwrap()
}

#[test]
fn length_in_months() {
    let cases = [
        (date(2024, 1, 1), date(2024, 1, 31), 1),   // same month
        (date(2024, 1, 15), date(2024, 2, 10), 2),  // two consecutive months
        (date(2024, 1, 1), date(2024, 12, 31), 12), // full year
        (date(2023, 11, 1), date(2024, 2, 28), 4),  // across years
        (date(2022, 6, 1), date(2024, 6, 30), 25),  // multiple years
    ];
    for (start, end, expected) in cases {
        let pb = PaymentBreak::make_break(start, end);
        assert_eq!(pb.length_in_months(), expected, "from {start:?} to {end:?}");
    }
}

fn make_payment(amount: i64) -> PaymentWithAllocations {
    PaymentWithAllocations {
        id: 1,
        amount,
        payment_date: date(2024, 1, 1),
        notes: None,
        allocations: vec![],
        created_at: time::OffsetDateTime::UNIX_EPOCH,
        created_by: 1,
        created_by_name: "Admin".to_string(),
    }
}

#[test]
fn display_amount() {
    assert_eq!(make_payment(10000).display_amount(), "100");
    assert_eq!(make_payment(5000).display_amount(), "50");
    assert_eq!(make_payment(100).display_amount(), "1");
    assert_eq!(make_payment(1050).display_amount(), "10.50");
    assert_eq!(make_payment(9999).display_amount(), "99.99");
    assert_eq!(make_payment(1).display_amount(), "0.01");
}

#[test]
fn display_amount_of_negative_and_zero_amounts() {
    assert_eq!(make_payment(0).display_amount(), "0");
    assert_eq!(make_payment(-1050).display_amount(), "-10.50");
    assert_eq!(make_payment(-5).display_amount(), "-0.05");
    assert_eq!(make_payment(i64::MIN).display_amount(), "-92233720368547758.08");
}

#[test]
fn break_length_matches_listed_months() {
    let pb = PaymentBreak::make_break(date(2023, 11, 1), date(2024, 2, 28));
    let months = club_reservations::dates::year_month_range(
        YearMonth::from_date(pb.start_date),
        YearMonth::from_date(pb.end_date),
    );
    assert_eq!(months.len() as i32, pb.length_in_months());
}

#[test]
fn make_break_is_recorded_by_the_administrator() {
    let pb = PaymentBreak::make_break(date(2020, 1, 1), date(2020, 2, 1));
    assert_eq!(pb.id, 1);
    assert_eq!(pb.user_id, 1);
    assert_eq!(pb.created_by, 1);
    assert_eq!(pb.created_by_name, "Admin");
    assert!(pb.reason.is_none());
    assert_eq!(pb.created_at, time::OffsetDateTime::UNIX_EPOCH);
}
