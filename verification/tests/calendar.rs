use club_reservations::schedule::{day_markers, DayEvents};
use club_reservations::dates::parse_readable_date;
use club_reservations::calendar::{
    alternative_day_for, clamp_selected_date, day_structure_or_default, get_weeks_in_range, is_weekend,
    next_day, previous_day, weekday,
};
use club_reservations::dates::{parse_iso_date, year_month_range, year_months, Date, Month, YearMonth};
use club_reservations::model::day_structure::{holiday_day_structure, DayStructure};
use club_reservations::model::hour_structure::HourStructure;
use club_reservations::model::location::Location;
use club_reservations::schedule::{
    calendar_bounds, can_add_restriction, cancellation_target, clean_description, clean_start_minute,
    is_in_past, is_restriction_hour_available, should_promote_waiting, valid_restriction_hours,
    AlternativeDayType,
};
use club_reservations::model::restriction::Restriction;

fn date(year: i32, month: u8, day: u8) -> Date {
    Date::from_calendar_date(year, Month::from_number(month).unwrap(), day).unwrap()
}

fn location() -> Location {
    Location {
        id: 1,
        name: "Sala".to_string(),
        slot_capacity: 8,
        slots_start_hour: 18,
        slot_duration: 2,
        slots_per_day: 2,
    }
}

#[test]
fn calendar_dates() {
    assert!(Date::from_calendar_date(2024, Month::February, 29).is_some());
    assert!(Date::from_calendar_date(2023, Month::February, 29).is_none());
    assert!(Date::from_calendar_date(2023, Month::April, 31).is_none());
    assert!(Date::from_calendar_date(10000, Month::January, 1).is_none());
    assert!(Date::from_calendar_date(-9999, Month::January, 1).is_some());
    assert_eq!(parse_iso_date("2024-07-11"), Some(date(2024, 7, 11)));
    assert_eq!(parse_iso_date("2024-7-11"), None);
    assert_eq!(parse_iso_date("11.07.2024"), None);
}

#[test]
fn neighbouring_days() {
    assert_eq!(previous_day(&date(2024, 3, 1)), Some(date(2024, 2, 29)));
    assert_eq!(next_day(&date(2023, 12, 31)), Some(date(2024, 1, 1)));
    assert_eq!(previous_day(&Date::min()), None);
    assert_eq!(next_day(&date(9999, 12, 31)), None);
}

#[test]
fn weekdays() {
    // 2024-07-08 is a Monday.
    assert_eq!(weekday(&date(2024, 7, 8)), 0);
    assert_eq!(weekday(&date(2024, 7, 11)), 3);
    assert_eq!(weekday(&date(2024, 7, 14)), 6);
    assert!(is_weekend(&date(2024, 7, 13)));
    assert!(is_weekend(&date(2024, 7, 14)));
    assert!(!is_weekend(&date(2024, 7, 12)));
}

#[test]
fn weeks_in_range() {
    let weeks = get_weeks_in_range(date(2024, 7, 11), date(2024, 7, 25));
    assert_eq!(weeks.len(), 3);
    assert_eq!(weeks[0][0], date(2024, 7, 8));
    assert_eq!(weeks[0][6], date(2024, 7, 14));
    assert_eq!(weeks[2][6], date(2024, 7, 28));
    // A range that starts on a Monday shows the week before as well.
    let weeks = get_weeks_in_range(date(2024, 7, 8), date(2024, 7, 8));
    assert_eq!(weeks[0][0], date(2024, 7, 1));
    assert_eq!(weeks.len(), 2);
    // Across the end of a year.
    let weeks = get_weeks_in_range(date(2024, 12, 30), date(2025, 1, 2));
    assert_eq!(weeks[0][0], date(2024, 12, 23));
    assert_eq!(weeks.last().unwrap()[6], date(2025, 1, 5));
}

#[test]
fn selected_day_is_clamped_to_the_booking_window() {
    let today = date(2024, 7, 11);
    assert_eq!(clamp_selected_date(date(2024, 7, 20), today), date(2024, 7, 20));
    assert_eq!(clamp_selected_date(date(2024, 7, 25), today), date(2024, 7, 25));
    assert_eq!(clamp_selected_date(date(2024, 7, 26), today), today);
    assert_eq!(clamp_selected_date(date(2024, 7, 10), today), today);
}

#[test]
fn months() {
    assert_eq!(Month::from_number(0), None);
    assert_eq!(Month::from_number(13), None);
    assert_eq!(Month::from_number(7), Some(Month::July));
    assert_eq!(Month::July.number(), 7);
    assert_eq!(Month::July.name(), "Iulie");
    assert_eq!(Month::February.name(), "Februarie");
    let ms = year_months(2021);
    assert_eq!(ms.len(), 12);
    assert_eq!(ms[0], YearMonth::new(2021, Month::January));
    assert_eq!(ms[11], YearMonth::new(2021, Month::December));
    let range = year_month_range(YearMonth::new(2023, Month::November), YearMonth::new(2024, Month::February));
    assert_eq!(range, vec![
        YearMonth::new(2023, Month::November),
        YearMonth::new(2023, Month::December),
        YearMonth::new(2024, Month::January),
        YearMonth::new(2024, Month::February),
    ]);
    assert!(year_month_range(YearMonth::new(2024, Month::March), YearMonth::new(2024, Month::February)).is_empty());
    let ym = YearMonth::new(2024, Month::January);
    assert_eq!(ym.prev(), YearMonth::new(2023, Month::December));
    assert_eq!(ym.prev().next(), ym);
    assert_eq!(date(2024, 5, 17).first_of_month(), date(2024, 5, 1));
}

#[test]
fn hour_structures() {
    let h = HourStructure::new(18, 2, 2);
    assert_eq!(h.iter(), vec![18, 20]);
    assert!(h.is_hour_valid(20));
    assert!(!h.is_hour_valid(19));
    let d = DayStructure::new(10, 3, 4, true);
    assert_eq!(d.iter(), vec![10, 13, 16, 19]);
    assert!(d.is_hour_valid(16));
    assert!(!d.is_hour_valid(22));
    let holiday = holiday_day_structure();
    assert!(holiday == DayStructure::new(10, 3, 4, true));
    let loc = location();
    assert_eq!(loc.get_hour_structure().iter(), vec![18, 20]);
    assert_eq!(loc.get_alt_hour_structure().iter(), vec![10, 13, 16, 19]);
    assert!(loc.day_structure() == DayStructure::new(18, 2, 2, true));
}

#[test]
fn special_days() {
    let custom = DayStructure::new(9, 1, 3, false);
    assert!(alternative_day_for(Some(custom.clone()), &date(2024, 7, 11)) == Some(custom.clone()));
    assert!(alternative_day_for(None, &date(2024, 7, 13)) == Some(holiday_day_structure()));
    assert!(alternative_day_for(None, &date(2024, 7, 11)).is_none());
    assert!(day_structure_or_default(None, &location()) == location().day_structure());
    assert!(day_structure_or_default(Some(custom.clone()), &location()) == custom);
    assert_eq!(AlternativeDayType::Holiday.as_str(), "holiday");
    assert_eq!(AlternativeDayType::Tournament.as_str(), "turneu");
    assert_eq!(clean_description(Some("  Cupa  ".to_string())), Some("Cupa".to_string()));
    assert_eq!(clean_description(Some("   ".to_string())), None);
    assert_eq!(clean_description(None), None);
    assert_eq!(clean_start_minute(0), None);
    assert_eq!(clean_start_minute(30), Some(30));
    assert_eq!(clean_start_minute(60), None);
    assert!(is_in_past(&date(2024, 7, 10), &date(2024, 7, 11)));
    assert!(!is_in_past(&date(2024, 7, 11), &date(2024, 7, 11)));
}

fn restriction(hour: Option<i64>) -> Restriction {
    Restriction {
        date: date(2024, 7, 11),
        hour,
        message: "închis".to_string(),
        created_at: time::OffsetDateTime::UNIX_EPOCH,
    }
}

#[test]
fn restrictions_of_a_day() {
    let day = DayStructure::new(18, 2, 2, true);
    assert_eq!(valid_restriction_hours(&day, &vec![17, 18, 19, 20, 22]), vec![18, 20]);
    assert!(can_add_restriction(&[restriction(Some(18))]));
    assert!(!can_add_restriction(&[restriction(Some(18)), restriction(None)]));
    assert!(can_add_restriction(&[]));
    assert!(!is_restriction_hour_available(&[restriction(Some(18))], 18));
    assert!(is_restriction_hour_available(&[restriction(Some(18)), restriction(None)], 20));
}

#[test]
fn calendar_page_bounds() {
    let today = date(2024, 7, 11);
    let b = calendar_bounds(2024, 2, &today).unwrap();
    assert_eq!(b.first_day, date(2024, 2, 1));
    assert_eq!(b.last_day, date(2024, 2, 29));
    assert_eq!(b.prev_month, (2024, 1));
    assert_eq!(b.next_month, (2024, 3));
    let b = calendar_bounds(2024, 12, &today).unwrap();
    assert_eq!(b.last_day, date(2024, 12, 31));
    assert_eq!(b.next_month, (2025, 1));
    let b = calendar_bounds(2025, 1, &today).unwrap();
    assert_eq!(b.prev_month, (2024, 12));
    // A number that names no month shows the current month.
    let b = calendar_bounds(2023, 0, &today).unwrap();
    assert_eq!(b.first_day, date(2023, 7, 1));
    assert_eq!(b.last_day, date(2023, 7, 31));
    assert!(calendar_bounds(10000, 3, &today).is_none());
}

#[test]
fn cancellations() {
    assert_eq!(cancellation_target(5, false, None, false), Some(5));
    assert_eq!(cancellation_target(5, false, Some(5), false), Some(5));
    assert_eq!(cancellation_target(5, false, Some(6), false), None);
    assert_eq!(cancellation_target(5, false, None, true), None);
    assert_eq!(cancellation_target(5, true, Some(6), true), Some(6));
    assert!(should_promote_waiting(7, 8));
    assert!(!should_promote_waiting(8, 8));
}

#[test]
fn calendar_day_markers() {
    let days = vec![date(2024, 7, 1), date(2024, 7, 2), date(2024, 7, 3)];
    let m = day_markers(&days, &[date(2024, 7, 1)], &[date(2024, 7, 1), date(2024, 7, 3)], &[date(2024, 7, 2)]);
    assert_eq!(m[0], DayEvents { has_holiday: true, has_tournament: true, has_restriction: false });
    assert_eq!(m[1], DayEvents { has_holiday: false, has_tournament: false, has_restriction: true });
    assert_eq!(m[2], DayEvents { has_holiday: false, has_tournament: true, has_restriction: false });
}

#[test]
fn readable_dates() {
    assert_eq!(parse_readable_date("11.07.2024"), Some(date(2024, 7, 11)));
    assert_eq!(parse_readable_date("31.02.2024"), None);
    assert_eq!(parse_readable_date("2024-07-11"), None);
}

#[test]
fn free_days_and_month_edges() {
    assert!(club_reservations::calendar::is_free_day(true, &date(2024, 7, 11)));
    assert!(club_reservations::calendar::is_free_day(false, &date(2024, 7, 13)));
    assert!(!club_reservations::calendar::is_free_day(false, &date(2024, 7, 11)));
    let today = date(2024, 7, 11);
    // Three days into the next month are still within the booking window.
    assert_eq!(clamp_selected_date(date(2024, 8, 3), date(2024, 7, 30)), date(2024, 8, 3));
    assert_eq!(clamp_selected_date(date(2024, 7, 11), today), today);
    let b = calendar_bounds(2024, 3, &today).unwrap();
    assert_eq!(b.prev_month, (2024, 2));
    assert_eq!(b.last_day, date(2024, 3, 31));
}
