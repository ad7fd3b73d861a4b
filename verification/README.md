# club_reservations

The booking, scheduling and membership-fee rules of a sports club, written in Verus
with their contracts proved.

- `src/` is the verified library: dates and the calendar (with `time` behind trusted
  wrappers), slot layouts, the booking decision, the hours of a day, member fees
  (monthly status, debtors, payments and breaks), member and schedule
  administration, log-in and password checks (with `argon2`, `rand_hc` and
  `email_address` behind trusted wrappers), and the live page's state machine.
- `tests/` runs the library on concrete values.
- `app/` is the web server around the library: HTTP handlers, the database, the
  session cookie and the live connection.
