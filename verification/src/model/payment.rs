//! Membership fee payments and breaks from paying.
use crate::dates::{months_between, month_index, unix_epoch, Date, YearMonth};
use crate::text::{decimal, push_decimal};
use vstd::prelude::*;

verus! {

/// A period, from the month of `start_date` to that of `end_date`, in which a
/// member owes no fee.
#[derive(Debug, Clone)]
pub struct PaymentBreak {
    pub id: i64,
    pub user_id: i64,
    pub start_date: Date,
    pub end_date: Date,
    pub reason: Option<String>,
    pub created_at: time::OffsetDateTime,
    pub created_by: i64,
    pub created_by_name: String,
}

impl PaymentBreak {
    /// A break from `start_date` to `end_date`, recorded by the administrator with id 1.
    pub fn make_break(start_date: Date, end_date: Date) -> (r: PaymentBreak)
        ensures
            r.id == 1,
            r.user_id == 1,
            r.start_date == start_date,
            r.end_date == end_date,
            r.reason is None,
            r.created_by == 1,
            r.created_by_name@ == "Admin"@,
    {
        PaymentBreak {
            id: 1,
            user_id: 1,
            start_date,
            end_date,
            reason: None,
            created_at: unix_epoch(),
            created_by: 1,
            created_by_name: String::from_str("Admin"),
        }
    }

    /// The number of calendar months that the break touches, both ends included.
    pub fn length_in_months(&self) -> (r: i32)
        ensures
            r == (self.end_date.y() - self.start_date.y()) * 12 + (self.end_date.m()
                - self.start_date.m()) + 1,
    {
        let ey = self.end_date.year();
        let sy = self.start_date.year();
        let em = self.end_date.month().number() as i32;
        let sm = self.start_date.month().number() as i32;
        (ey - sy) * 12 + (em - sm) + 1
    }
}

/// A payment and the months it pays for.
#[derive(Debug, Clone)]
pub struct PaymentWithAllocations {
    pub id: i64,
    pub amount: i64,
    pub payment_date: Date,
    pub notes: Option<String>,
    pub allocations: Vec<YearMonth>,
    pub created_at: time::OffsetDateTime,
    pub created_by: i64,
    pub created_by_name: String,
}

/// The two digits of a number of cents below 100.
pub open spec fn two_digits(c: nat) -> Seq<char> {
    if c < 10 {
        seq!['0'] + decimal(c)
    } else {
        decimal(c)
    }
}

/// An amount of cents as shown to people: whole units when there are no cents,
/// otherwise units, a point and two digits of cents, with a minus sign before
/// negative amounts.
pub open spec fn amount_text(amount: int) -> Seq<char> {
    let neg = amount < 0;
    let abs: nat = if neg { (-amount) as nat } else { amount as nat };
    let sign = if neg { seq!['-'] } else { Seq::<char>::empty() };
    if abs % 100 == 0 {
        sign + decimal(abs / 100)
    } else {
        sign + decimal(abs / 100) + seq!['.'] + two_digits(abs % 100)
    }
}

impl PaymentWithAllocations {
    /// The amount, which is held in cents, as shown to people.
    pub fn display_amount(&self) -> (r: String)
        ensures
            r@ == amount_text(self.amount as int),
    {
        let neg = self.amount < 0;
        let wide: i128 = self.amount as i128;
        let abs: u64 = if neg { (0i128 - wide) as u64 } else { wide as u64 };
        let mut s = String::new();
        if neg {
            proof { reveal_strlit("-"); }
            s.append("-");
        }
        push_decimal(&mut s, abs / 100);
        let cents = abs % 100;
        if cents != 0 {
            proof { reveal_strlit("."); reveal_strlit("0"); }
            s.append(".");
            if cents < 10 {
                s.append("0");
            }
            push_decimal(&mut s, cents);
        }
        proof {
            let sign = if neg { seq!['-'] } else { Seq::<char>::empty() };
            if cents == 0 {
                assert(s@ =~= sign + decimal((abs / 100) as nat));
            } else if cents < 10 {
                assert(s@ =~= sign + decimal((abs / 100) as nat) + seq!['.'] + two_digits(cents as nat));
            } else {
                assert(s@ =~= sign + decimal((abs / 100) as nat) + seq!['.'] + two_digits(cents as nat));
            }
        }
        s
    }
}

/// When a break does not end before it starts, `length_in_months` counts exactly the
/// months that `year_month_range` lists from the month of its start to that of its end.
pub proof fn lemma_break_length_counts_months(b: PaymentBreak, start: YearMonth, end: YearMonth)
    requires
        start.year == b.start_date.y() && start.month == b.start_date.mon(),
        end.year == b.end_date.y() && end.month == b.end_date.mon(),
        !end.is_before(start),
    ensures
        months_between(start, end).len() == (b.end_date.y() - b.start_date.y()) * 12
            + (b.end_date.m() - b.start_date.m()) + 1,
{
    assert(start.index() == month_index(b.start_date.y(), b.start_date.m()));
    assert(end.index() == month_index(b.end_date.y(), b.end_date.m()));
}

} // verus!
