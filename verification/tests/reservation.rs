use club_reservations::calendar::is_weekend;
use club_reservations::dates::{Date, DateHour, Month};
use club_reservations::model::location::Location;
use club_reservations::model::role::UserRole;
use club_reservations::reservation::{
    action_success, check_parameters_validity, confirmation_message, decide_reservation, slot_end_hour,
    ReservationAction, ReservationError, ReservationSuccess, SlotFacts,
};

fn date(year: i32, month: u8, day: u8) -> Date {
    Date::from_calendar_date(year, Month::from_number(month).unwrap(), day).unwrap()
}

/// The bookings of one test location, kept the way the store keeps them.
struct Club {
    location: Location,
    role: UserRole,
    /// (user, date, hour)
    reservations: Vec<(i64, Date, u8)>,
    /// (creator, date, hour), in the order they were made
    guests: Vec<(i64, Date, u8)>,
    /// (date, hour or the whole day, message)
    restrictions: Vec<(Date, Option<u8>, String)>,
}

impl Club {
    fn new(max_reservations: i64, max_guest_reservations: i64) -> Club {
        Club {
            location: Location {
                id: 1,
                name: "test_location".to_string(),
                slot_capacity: 1,
                slots_start_hour: 18,
                slot_duration: 2,
                slots_per_day: 2,
            },
            role: UserRole {
                id: 100,
                name: "Test Role".to_string(),
                reservations: max_reservations,
                guest_reservations: max_guest_reservations,
                color: None,
                admin_panel_access: false,
            },
            reservations: vec![],
            guests: vec![],
            restrictions: vec![],
        }
    }

    fn weekday_count(list: &[(i64, Date, u8)], user: i64) -> i64 {
        // All the dates of these tests lie in one week.
        list.iter().filter(|(u, d, _)| *u == user && !is_weekend(d)).count() as i64
    }

    fn create_reservation(
        &mut self,
        now: DateHour,
        user: i64,
        day: Date,
        hour: u8,
    ) -> Result<ReservationSuccess, ReservationError> {
        let is_free_day = is_weekend(&day);
        check_parameters_validity(&self.location, now, is_free_day, day, hour)?;
        let facts = SlotFacts {
            reservation_exists: self.reservations.iter().any(|r| *r == (user, day, hour)),
            guest_exists: self.guests.iter().any(|g| *g == (user, day, hour)),
            restriction: self
                .restrictions
                .iter()
                .find(|(d, h, _)| *d == day && (h.is_none() || *h == Some(hour)))
                .map(|(_, _, m)| m.clone()),
            fixed_count: self.reservations.iter().filter(|(_, d, h)| *d == day && *h == hour).count() as i64,
            guest_count: self.guests.iter().filter(|(_, d, h)| *d == day && *h == hour).count() as i64,
            user_week_count: Self::weekday_count(&self.reservations, user),
            user_week_guest_count: Self::weekday_count(&self.guests, user),
        };
        let action = decide_reservation(&self.location, &self.role, is_free_day, &facts)?;
        match action {
            ReservationAction::InsertGuest => self.guests.push((user, day, hour)),
            ReservationAction::InsertReservation { evict_guest } => {
                self.reservations.push((user, day, hour));
                if evict_guest {
                    let last = self.guests.iter().rposition(|(_, d, h)| *d == day && *h == hour).unwrap();
                    self.guests.remove(last);
                }
            }
        }
        Ok(action_success(action))
    }
}

fn at(day: Date, hour: u8) -> DateHour {
    DateHour { date: day, hour }
}

#[test]
fn no_guest() {
    let mut club = Club::new(2, 0);
    let now = at(date(2024, 7, 11), 10);
    let first_date = date(2024, 7, 11);
    let second_date = date(2024, 7, 12);

    assert_eq!(club.create_reservation(now, 1000, first_date, 18), Ok(ReservationSuccess::Reservation));
    assert_eq!(club.create_reservation(now, 1000, first_date, 18), Err(ReservationError::AlreadyExists));
    assert_eq!(club.create_reservation(now, 2000, first_date, 18), Err(ReservationError::SlotFull));
    assert_eq!(club.create_reservation(now, 1000, first_date, 20), Ok(ReservationSuccess::Reservation));
    assert_eq!(club.create_reservation(now, 1000, second_date, 18), Err(ReservationError::NoMoreReservation));
    assert_eq!(club.create_reservation(now, 1000, second_date, 20), Err(ReservationError::NoMoreReservation));
}

#[test]
fn with_guest() {
    let mut club = Club::new(1, 2);
    let now = at(date(2024, 7, 11), 10);
    let first_date = date(2024, 7, 11);
    let second_date = date(2024, 7, 12);

    assert_eq!(club.create_reservation(now, 1000, first_date, 18), Ok(ReservationSuccess::Reservation));
    assert_eq!(club.create_reservation(now, 1000, first_date, 18), Err(ReservationError::AlreadyExists));
    // As guest
    assert_eq!(club.create_reservation(now, 1000, first_date, 20), Ok(ReservationSuccess::Guest));
    assert_eq!(club.create_reservation(now, 1000, second_date, 18), Ok(ReservationSuccess::Guest));
    assert_eq!(club.create_reservation(now, 1000, second_date, 20), Err(ReservationError::NoMoreReservation));
}

#[test]
fn only_guest() {
    let mut club = Club::new(0, 2);
    let now = at(date(2024, 7, 11), 10);
    let first_date = date(2024, 7, 11);
    let second_date = date(2024, 7, 12);

    assert_eq!(club.create_reservation(now, 1000, first_date, 18), Ok(ReservationSuccess::Guest));
    assert_eq!(club.create_reservation(now, 2000, first_date, 18), Err(ReservationError::SlotFull));
    assert_eq!(club.create_reservation(now, 1000, first_date, 18), Err(ReservationError::AlreadyExists));
    assert_eq!(club.create_reservation(now, 1000, first_date, 20), Ok(ReservationSuccess::Guest));
    assert_eq!(club.create_reservation(now, 1000, second_date, 18), Err(ReservationError::NoMoreReservation));
}

#[test]
fn too_late() {
    let mut club = Club::new(1, 0);
    let day = date(2024, 7, 11);

    assert_eq!(club.create_reservation(at(day, 16), 1000, day, 18), Ok(ReservationSuccess::Reservation));
    assert_eq!(
        club.create_reservation(at(day, 17), 1000, day, 18),
        Err(ReservationError::Other("Rezervările se fac cu cel putin o oră înainte".to_string()))
    );
}

#[test]
fn replace_guest() {
    let mut club = Club::new(1, 1);
    let now = at(date(2024, 7, 11), 10);
    let day = date(2024, 7, 11);

    assert_eq!(club.create_reservation(now, 1000, day, 18), Ok(ReservationSuccess::Reservation));
    assert_eq!(club.create_reservation(now, 1000, day, 20), Ok(ReservationSuccess::Guest));
    // It should replace the guest
    assert_eq!(club.create_reservation(now, 2000, day, 20), Ok(ReservationSuccess::Reservation));
    assert!(club.guests.is_empty());
}

#[test]
fn free_days() {
    let mut club = Club::new(1, 1);
    let now = at(date(2024, 7, 11), 10);
    let day = date(2024, 7, 11);
    let weekend = date(2024, 7, 13);

    assert_eq!(club.create_reservation(now, 1000, day, 18), Ok(ReservationSuccess::Reservation));
    assert_eq!(club.create_reservation(now, 1000, day, 20), Ok(ReservationSuccess::Guest));
    assert_eq!(club.create_reservation(now, 1000, weekend, 10), Ok(ReservationSuccess::Reservation));
    assert_eq!(club.create_reservation(now, 1000, weekend, 13), Ok(ReservationSuccess::Reservation));
}

#[test]
fn restrictions() {
    let mut club = Club::new(1, 1);
    club.restrictions.push((date(2024, 7, 11), None, "res1".to_string()));
    club.restrictions.push((date(2024, 7, 12), Some(18), "res2".to_string()));
    let now = at(date(2024, 7, 11), 10);
    let date_1 = date(2024, 7, 11);
    let date_2 = date(2024, 7, 12);

    assert_eq!(club.create_reservation(now, 1000, date_1, 18), Err(ReservationError::Restriction("res1".to_string())));
    assert_eq!(club.create_reservation(now, 1000, date_1, 20), Err(ReservationError::Restriction("res1".to_string())));
    assert_eq!(club.create_reservation(now, 1000, date_2, 18), Err(ReservationError::Restriction("res2".to_string())));
    assert_eq!(club.create_reservation(now, 1000, date_2, 20), Ok(ReservationSuccess::Reservation));
}

#[test]
fn refused_parameters() {
    let club = Club::new(1, 1);
    let today = date(2024, 7, 11);
    assert_eq!(
        check_parameters_validity(&club.location, at(today, 18), false, today, 18),
        Err(ReservationError::Other("Nu poți face o rezervare în trecut".to_string()))
    );
    assert_eq!(
        check_parameters_validity(&club.location, at(today, 10), false, date(2024, 7, 10), 20),
        Err(ReservationError::Other("Nu poți face o rezervare în trecut".to_string()))
    );
    assert_eq!(
        check_parameters_validity(&club.location, at(today, 10), false, today, 19),
        Err(ReservationError::Other("Ora pentru rezervare nu este validă".to_string()))
    );
    // On free days the slots start at 10, 13, 16 and 19.
    assert_eq!(check_parameters_validity(&club.location, at(today, 10), true, date(2024, 7, 13), 19), Ok(()));
    assert_eq!(
        check_parameters_validity(&club.location, at(today, 10), true, date(2024, 7, 13), 18),
        Err(ReservationError::Other("Ora pentru rezervare nu este validă".to_string()))
    );
}

#[test]
fn full_slot_is_refused_whatever_the_member() {
    let mut club = Club::new(5, 5);
    let now = at(date(2024, 7, 11), 10);
    let day = date(2024, 7, 11);
    assert_eq!(club.create_reservation(now, 1, day, 18), Ok(ReservationSuccess::Reservation));
    for user in 2..6 {
        assert_eq!(club.create_reservation(now, user, day, 18), Err(ReservationError::SlotFull));
    }
}

#[test]
fn error_messages() {
    assert_eq!(ReservationError::AlreadyExists.message(), "Ai făcut deja o astfel de rezervare.");
    assert_eq!(ReservationError::Restriction("Închis".to_string()).message(), "Închis");
    assert_eq!(
        ReservationError::SlotFull.message(),
        "S-a atins numărul maxim de rezervări pentru intervalul orar."
    );
    assert_eq!(ReservationError::DatabaseError("locked".to_string()).message(), "Database error: locked");
    assert_eq!(
        ReservationError::NoMoreReservation.message(),
        "Ți-ai epuizat rezervările pe săptămâna aceasta"
    );
    assert_eq!(ReservationError::Other("x".to_string()).message(), "x");
}

#[test]
fn confirmation_messages() {
    assert_eq!(
        confirmation_message(&ReservationSuccess::Reservation, "11.07.2024", 18),
        "Ai rezervare pe data de <b>11.07.2024</b> de la ora <b>18:00</b>"
    );
    assert_eq!(
        confirmation_message(&ReservationSuccess::Guest, "11.07.2024", 9),
        "Ai fost înscris ca invitat pe data de <b>11.07.2024</b> de la ora <b>9:00</b>"
    );
    assert_eq!(slot_end_hour(18, 2), 20);
}
