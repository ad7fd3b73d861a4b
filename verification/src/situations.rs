//! The export of all bookings as a table of comma-separated values.
use crate::dates::{valid_calendar_date, Date};
use crate::text::{decimal, int_text, push_decimal, push_int, zero_padded};
use vstd::prelude::*;

verus! {

/// What `Display` of a `time::Date` writes: a minus sign for years before year 0,
/// the year's digits padded with zeros to four, then the month and the day, each
/// padded to two digits, joined by hyphens.
pub open spec fn date_display(year: int, month: int, day: int) -> Seq<char> {
    let sign = if year < 0 { seq!['-'] } else { Seq::<char>::empty() };
    let abs: nat = if year < 0 { (-year) as nat } else { year as nat };
    sign + zero_padded(decimal(abs), 4) + seq!['-'] + zero_padded(decimal(month as nat), 2) + seq!['-']
        + zero_padded(decimal(day as nat), 2)
}

/// `time::Date`'s `Display`, on the date with these parts: `time` writes the sign,
/// the year's absolute value with at least four digits, and the month and day with
/// two digits each (`Date::fmt_into_buffer`), then pads to no width.
#[verifier::external_body]
fn time_date_text(year: i32, month: u8, day: u8) -> (r: String)
    requires
        valid_calendar_date(year as int, month as int, day as int),
    ensures
        r@ == date_display(year as int, month as int, day as int),
{
    time::Date::from_calendar_date(year, time::Month::try_from(month).unwrap(), day).unwrap().to_string()
}

/// A boolean as `Display` writes it.
pub open spec fn bool_text(b: bool) -> Seq<char> {
    if b { "true"@ } else { "false"@ }
}

/// The first line of the table.
pub open spec fn situations_header() -> Seq<char> {
    "User ID, Nume, Data, Ora, Ca invitat, Anulat, Creat pentru, Creat pe"@
}

/// One booking as a line of the table: the member's id, name, the day, the hour,
/// whether it is as a guest, whether it was cancelled, for whom it was made (nothing
/// when for the member) and when it was made, as written by `created_at`.
pub open spec fn situation_line(
    user_id: int,
    name: Seq<char>,
    date: Date,
    hour: nat,
    as_guest: bool,
    cancelled: bool,
    created_for: Seq<char>,
    created_at: Seq<char>,
) -> Seq<char> {
    int_text(user_id) + ", \""@ + name + "\", "@ + date_display(date.y(), date.m(), date.d())
        + ", "@ + decimal(hour) + ", "@ + bool_text(as_guest) + ", "@ + bool_text(cancelled)
        + ", \""@ + created_for + "\", \""@ + created_at + "\""@
}

fn push_bool(s: &mut String, b: bool)
    ensures
        final(s)@ == old(s)@ + bool_text(b),
{
    proof {
        reveal_strlit("true");
        reveal_strlit("false");
    }
    if b {
        s.append("true");
    } else {
        s.append("false");
    }
}

/// One booking as a line of the table.
pub fn situation_row(
    user_id: i64,
    name: &str,
    date: &Date,
    hour: u8,
    as_guest: bool,
    cancelled: bool,
    created_for: Option<&str>,
    created_at: &str,
) -> (r: String)
    ensures
        r@ == situation_line(user_id as int, name@, *date, hour as nat, as_guest, cancelled,
            match created_for { Some(c) => c@, None => Seq::<char>::empty() }, created_at@),
{
    proof {
        reveal_strlit(", \"");
        reveal_strlit("\", ");
        reveal_strlit(", ");
        reveal_strlit("\", \"");
        reveal_strlit("\"");
    }
    date.lemma_wf();
    let mut s = String::new();
    push_int(&mut s, user_id);
    s.append(", \"");
    s.append(name);
    s.append("\", ");
    let day = time_date_text(date.year(), date.month().number(), date.day());
    s.append(day.as_str());
    s.append(", ");
    push_decimal(&mut s, hour as u64);
    s.append(", ");
    push_bool(&mut s, as_guest);
    s.append(", ");
    push_bool(&mut s, cancelled);
    s.append(", \"");
    match created_for {
        Some(c) => s.append(c),
        None => {},
    }
    s.append("\", \"");
    s.append(created_at);
    s.append("\"");
    let ghost cf = match created_for { Some(c) => c@, None => Seq::<char>::empty() };
    assert(s@ =~= situation_line(user_id as int, name@, *date, hour as nat, as_guest, cancelled, cf, created_at@));
    s
}

/// The lines joined by line breaks.
pub open spec fn joined_lines(lines: Seq<Seq<char>>) -> Seq<char>
    decreases lines.len(),
{
    if lines.len() == 0 {
        Seq::empty()
    } else if lines.len() == 1 {
        lines[0]
    } else {
        joined_lines(lines.drop_last()) + seq!['\n'] + lines.last()
    }
}

/// The whole table: the header line, then one line per booking, joined by line breaks.
pub fn situations_csv(rows: &Vec<String>) -> (r: String)
    ensures
        r@ == joined_lines(seq![situations_header()] + rows@.map_values(|s: String| s@)),
{
    proof {
        reveal_strlit("User ID, Nume, Data, Ora, Ca invitat, Anulat, Creat pentru, Creat pe");
        reveal_strlit("\n");
    }
    let ghost lines = seq![situations_header()] + rows@.map_values(|s: String| s@);
    let mut s = String::from_str("User ID, Nume, Data, Ora, Ca invitat, Anulat, Creat pentru, Creat pe");
    proof {
        assert(lines.take(1) =~= seq![situations_header()]);
    }
    let mut i: usize = 0;
    while i < rows.len()
        invariant
            i <= rows@.len(),
            lines == seq![situations_header()] + rows@.map_values(|s: String| s@),
            s@ == joined_lines(lines.take(i + 1)),
        decreases rows@.len() - i,
    {
        let ghost before = s@;
        proof {
            reveal_strlit("\n");
        }
        s.append("\n");
        s.append(rows[i].as_str());
        proof {
            let t = lines.take(i + 2);
            assert(t.drop_last() =~= lines.take(i + 1));
            assert(t.last() == rows@[i as int]@);
            assert(t.len() == i + 2);
            assert(joined_lines(t) == joined_lines(t.drop_last()) + seq!['\n'] + t.last());
            assert("\n"@ =~= seq!['\n']);
            assert(s@ =~= before + seq!['\n'] + rows@[i as int]@);
            assert(s@ =~= joined_lines(t));
        }
        i = i + 1;
    }
    assert(lines.take(rows@.len() as int + 1) =~= lines);
    s
}

} // verus!
