use club_reservations::dates::{Date, Month, YearMonth};
use club_reservations::model::payment::PaymentBreak;
use club_reservations::model::payment_context::PaymentContext;

fn date(year: i32, month: u8, day: u8) -> Date {
    Date::from_calendar_date(year, Month::from_number(month).unwrap(), day).unwrap()
}

#[test]
fn is_month_paid_returns_true_when_allocation_exists() {
    let ctx = PaymentContext::new(vec![YearMonth::new(2020, Month::March)], vec![]);

    assert!(ctx.is_month_paid(YearMonth::new(2020, Month::March)));
    assert!(!ctx.is_month_paid(YearMonth::new(2020, Month::April)));
}

#[test]
fn is_month_in_break_returns_true_when_within_break_range() {
    let ctx = PaymentContext::new(
        vec![],
        vec![PaymentBreak::make_break(date(2020, 3, 1), date(2020, 5, 1))],
    );

    assert!(ctx.is_month_in_break(YearMonth::new(2020, Month::March)));
    assert!(ctx.is_month_in_break(YearMonth::new(2020, Month::April)));
    assert!(ctx.is_month_in_break(YearMonth::new(2020, Month::May)));
    assert!(!ctx.is_month_in_break(YearMonth::new(2020, Month::February)));
    assert!(!ctx.is_month_in_break(YearMonth::new(2020, Month::June)));
}

#[test]
fn overlaps_existing_break_detects_overlap() {
    let ctx = PaymentContext::new(
        vec![],
        vec![PaymentBreak::make_break(date(2020, 3, 1), date(2020, 5, 1))],
    );

    // Fully overlapping
    assert!(ctx.overlaps_existing_break(date(2020, 3, 1), date(2020, 5, 1)));
    // Partial overlap at start
    assert!(ctx.overlaps_existing_break(date(2020, 2, 1), date(2020, 3, 1)));
    // Partial overlap at end
    assert!(ctx.overlaps_existing_break(date(2020, 5, 1), date(2020, 6, 1)));
    // Contained within
    assert!(ctx.overlaps_existing_break(date(2020, 4, 1), date(2020, 4, 1)));
    // No overlap before
    assert!(!ctx.overlaps_existing_break(date(2020, 1, 1), date(2020, 2, 1)));
    // No overlap after
    assert!(!ctx.overlaps_existing_break(date(2020, 6, 1), date(2020, 7, 1)));
}

#[test]
fn overlaps_existing_payment_detects_overlap() {
    let ctx = PaymentContext::new(
        vec![YearMonth::new(2020, Month::March), YearMonth::new(2020, Month::April)],
        vec![],
    );

    // Range includes March
    assert!(ctx.overlaps_existing_payment(date(2020, 2, 1), date(2020, 3, 1)));
    // Range includes April
    assert!(ctx.overlaps_existing_payment(date(2020, 4, 1), date(2020, 5, 1)));
    // Range includes both
    assert!(ctx.overlaps_existing_payment(date(2020, 3, 1), date(2020, 4, 1)));
    // No overlap
    assert!(!ctx.overlaps_existing_payment(date(2020, 1, 1), date(2020, 2, 1)));
    assert!(!ctx.overlaps_existing_payment(date(2020, 5, 1), date(2020, 6, 1)));
}

#[test]
fn is_month_in_break_year_boundary_and_leap_year() {
    let ctx = PaymentContext::new(
        vec![],
        vec![PaymentBreak::make_break(date(2023, 12, 1), date(2024, 2, 1))],
    );

    // In break: Dec 2023, Jan 2024, Feb 2024 (leap year)
    assert!(ctx.is_month_in_break(YearMonth::new(2023, Month::December)));
    assert!(ctx.is_month_in_break(YearMonth::new(2024, Month::January)));
    assert!(ctx.is_month_in_break(YearMonth::new(2024, Month::February)));
    // Not in break
    assert!(!ctx.is_month_in_break(YearMonth::new(2023, Month::November)));
    assert!(!ctx.is_month_in_break(YearMonth::new(2024, Month::March)));
}

#[test]
fn overlaps_existing_break_year_boundary_and_leap_year() {
    let ctx = PaymentContext::new(
        vec![],
        vec![PaymentBreak::make_break(date(2023, 12, 1), date(2024, 2, 1))],
    );

    // Overlaps: crossing year boundary
    assert!(ctx.overlaps_existing_break(date(2023, 11, 15), date(2024, 1, 15)));
    // Overlaps: includes Feb 29 2024 (leap day)
    assert!(ctx.overlaps_existing_break(date(2024, 2, 1), date(2024, 2, 29)));
    // No overlap: before
    assert!(!ctx.overlaps_existing_break(date(2023, 10, 1), date(2023, 11, 30)));
    // No overlap: after
    assert!(!ctx.overlaps_existing_break(date(2024, 3, 1), date(2024, 4, 30)));
}

#[test]
fn overlaps_existing_payment_year_boundary_and_leap_year() {
    let ctx = PaymentContext::new(
        vec![
            YearMonth::new(2023, Month::December),
            YearMonth::new(2024, Month::January),
            YearMonth::new(2024, Month::February),
        ],
        vec![],
    );

    // Overlaps: crossing year boundary
    assert!(ctx.overlaps_existing_payment(date(2023, 12, 15), date(2024, 1, 15)));
    // Overlaps: includes Feb 29 2024 (leap day)
    assert!(ctx.overlaps_existing_payment(date(2024, 2, 1), date(2024, 2, 29)));
    // No overlap: before
    assert!(!ctx.overlaps_existing_payment(date(2023, 10, 1), date(2023, 11, 30)));
    // No overlap: after
    assert!(!ctx.overlaps_existing_payment(date(2024, 3, 1), date(2024, 4, 30)));
}

#[test]
fn paid_month_overlaps_any_period_holding_its_first_day() {
    let ctx = PaymentContext::new(vec![YearMonth::new(2021, Month::July)], vec![]);
    assert!(ctx.is_month_paid(YearMonth::new(2021, Month::July)));
    assert!(ctx.overlaps_existing_payment(date(2021, 7, 1), date(2021, 7, 1)));
    assert!(ctx.overlaps_existing_payment(date(2021, 6, 30), date(2021, 7, 1)));
    assert!(!ctx.overlaps_existing_payment(date(2021, 7, 2), date(2021, 7, 31)));
}

#[test]
fn month_in_break_makes_break_overlap() {
    let ctx = PaymentContext::new(
        vec![],
        vec![PaymentBreak::make_break(date(2022, 1, 10), date(2022, 3, 5))],
    );
    // The first of January is before the break starts.
    assert!(!ctx.is_month_in_break(YearMonth::new(2022, Month::January)));
    assert!(ctx.is_month_in_break(YearMonth::new(2022, Month::February)));
    assert!(ctx.overlaps_existing_break(date(2022, 2, 1), date(2022, 2, 1)));
}
