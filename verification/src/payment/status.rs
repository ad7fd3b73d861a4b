//! The state of a member's fee for each month of a year.
use crate::dates::{local_date, month_name, month_number, months_of_year, year_months, Date, Month, YearMonth, MAX_YEAR, MIN_YEAR};
use crate::model::payment::{PaymentBreak, PaymentWithAllocations};
use crate::model::payment_context::break_contains;
use crate::model::user::User;
use crate::seqs::{first_match, is_first_match, lemma_first_match_is, lemma_first_match_none};
use vstd::prelude::*;

verus! {

/// The state of a month's fee.
#[derive(Debug, Clone, PartialEq)]
pub enum MonthStatus {
    /// Paid; the notes of the payment.
    Paid(String),
    /// In a break; the reason given for it.
    Break(String),
    Unpaid,
    NotJoined,
    Future,
}

/// A month's name and the state of its fee.
#[derive(Debug, Clone)]
pub struct MonthStatusView {
    pub month_name: &'static str,
    pub status: MonthStatus,
}

/// What the fee grid of a member shows.
pub struct StatusGridTemplate {
    pub user: User,
    pub member: User,
    pub current_year: i32,
    pub selected_year: i32,
    pub months_status_view: Vec<MonthStatusView>,
}

/// The payment pays for the month.
pub open spec fn pays_for(ym: YearMonth) -> spec_fn(PaymentWithAllocations) -> bool {
    |p: PaymentWithAllocations| p.allocations@.contains(ym)
}

/// The break holds the first day of the month.
pub open spec fn holds_month(ym: YearMonth) -> spec_fn(PaymentBreak) -> bool {
    |b: PaymentBreak| break_contains(b, ym.first_day())
}

/// Text that may be missing, or nothing.
pub open spec fn text_or_empty(t: Option<String>) -> Seq<char> {
    match t {
        Some(s) => s@,
        None => Seq::empty(),
    }
}

/// The state shown for month `ym`, with the member's joining date, the payments,
/// the breaks and today's date: months before the one the member joined in are
/// `NotJoined`; a month that a payment covers is `Paid` with the notes of the first
/// such payment; otherwise a month whose first day lies in a break is `Break` with
/// the reason of the first such break; otherwise months after the current one are
/// `Future` and the others `Unpaid`.
pub open spec fn status_is(
    st: MonthStatus,
    ym: YearMonth,
    member_since: Date,
    payments: Seq<PaymentWithAllocations>,
    breaks: Seq<PaymentBreak>,
    today: Date,
) -> bool {
    let start = ym.first_day();
    if start.is_before(member_since.first_of_month_spec()) {
        st is NotJoined
    } else if let Some(i) = first_match(payments, pays_for(ym)) {
        st matches MonthStatus::Paid(n) && n@ == text_or_empty(payments[i].notes)
    } else if let Some(i) = first_match(breaks, holds_month(ym)) {
        st matches MonthStatus::Break(r) && r@ == text_or_empty(breaks[i].reason)
    } else if today.first_of_month_spec().is_before(start) {
        st is Future
    } else {
        st is Unpaid
    }
}

/// The state of every month of `year`, January first, as of `today`.
pub open spec fn year_status_is(
    r: Seq<MonthStatusView>,
    year: i32,
    member_since: Date,
    payments: Seq<PaymentWithAllocations>,
    breaks: Seq<PaymentBreak>,
    today: Date,
) -> bool {
    &&& r.len() == 12
    &&& forall|i: int|
        0 <= i < 12 ==> {
            let ym = #[trigger] months_of_year(year)[i];
            &&& r[i].month_name@ == month_name(ym.month)
            &&& status_is(r[i].status, ym, member_since, payments, breaks, today)
        }
}

fn clone_or_empty(t: &Option<String>) -> (r: String)
    ensures
        r@ == text_or_empty(*t),
{
    match t {
        Some(s) => s.clone(),
        None => String::new(),
    }
}

/// The month is among `months`.
pub fn contains_month(months: &Vec<YearMonth>, ym: YearMonth) -> (r: bool)
    ensures
        r == months@.contains(ym),
{
    let mut k: usize = 0;
    while k < months.len()
        invariant
            k <= months@.len(),
            forall|j: int| 0 <= j < k ==> months@[j] != ym,
        decreases months@.len() - k,
    {
        if months[k] == ym {
            assert(months@[k as int] == ym);
            return true;
        }
        k = k + 1;
    }
    false
}

/// The first payment that covers the month.
fn find_payment(payments: &[PaymentWithAllocations], ym: YearMonth) -> (r: Option<usize>)
    ensures
        match r {
            Some(i) => first_match(payments@, pays_for(ym)) == Some(i as int),
            None => first_match(payments@, pays_for(ym)) is None,
        },
{
    let mut i: usize = 0;
    while i < payments.len()
        invariant
            i <= payments@.len(),
            forall|j: int| 0 <= j < i ==> !(pays_for(ym))(#[trigger] payments@[j]),
        decreases payments@.len() - i,
    {
        if contains_month(&payments[i].allocations, ym) {
            proof {
                lemma_first_match_is(payments@, pays_for(ym), i as int);
            }
            return Some(i);
        }
        i = i + 1;
    }
    proof {
        lemma_first_match_none(payments@, pays_for(ym));
    }
    None
}

/// The first break that holds the first day of the month.
fn find_break(breaks: &[PaymentBreak], ym: YearMonth, start: Date) -> (r: Option<usize>)
    requires
        start == ym.first_day(),
    ensures
        match r {
            Some(i) => first_match(breaks@, holds_month(ym)) == Some(i as int),
            None => first_match(breaks@, holds_month(ym)) is None,
        },
{
    let mut i: usize = 0;
    while i < breaks.len()
        invariant
            i <= breaks@.len(),
            start == ym.first_day(),
            forall|j: int| 0 <= j < i ==> !(holds_month(ym))(#[trigger] breaks@[j]),
        decreases breaks@.len() - i,
    {
        let b = &breaks[i];
        if b.start_date.on_or_before(&start) && start.on_or_before(&b.end_date) {
            proof {
                lemma_first_match_is(breaks@, holds_month(ym), i as int);
            }
            return Some(i);
        }
        i = i + 1;
    }
    proof {
        lemma_first_match_none(breaks@, holds_month(ym));
    }
    None
}

/// The state of every month of `year` for a member who joined on `member_since`, as
/// of `today`.
pub fn calculate_year_status_at(
    year: i32,
    member_since: Date,
    payments: &[PaymentWithAllocations],
    breaks: &[PaymentBreak],
    today: Date,
) -> (r: Vec<MonthStatusView>)
    requires
        MIN_YEAR <= year <= MAX_YEAR,
    ensures
        year_status_is(r@, year, member_since, payments@, breaks@, today),
{
    let months = year_months(year);
    let joined = YearMonth::from_date(member_since).to_date();
    let current_month_start = today.first_of_month();
    let mut r: Vec<MonthStatusView> = Vec::new();
    let mut i: usize = 0;
    while i < 12
        invariant
            MIN_YEAR <= year <= MAX_YEAR,
            i <= 12,
            months@ == months_of_year(year),
            joined == member_since.first_of_month_spec(),
            current_month_start == today.first_of_month_spec(),
            r@.len() == i,
            forall|j: int|
                0 <= j < i ==> {
                    let ym = #[trigger] months_of_year(year)[j];
                    &&& r@[j].month_name@ == month_name(ym.month)
                    &&& status_is(r@[j].status, ym, member_since, payments@, breaks@, today)
                },
        decreases 12 - i,
    {
        let ym = months[i];
        let month_start = ym.to_date();
        let month_name = ym.month.name();
        let status = if month_start.before(&joined) {
            MonthStatus::NotJoined
        } else {
            match find_payment(payments, ym) {
                Some(p) => MonthStatus::Paid(clone_or_empty(&payments[p].notes)),
                None => match find_break(breaks, ym, month_start) {
                    Some(b) => MonthStatus::Break(clone_or_empty(&breaks[b].reason)),
                    None => if current_month_start.before(&month_start) {
                        MonthStatus::Future
                    } else {
                        MonthStatus::Unpaid
                    },
                },
            }
        };
        r.push(MonthStatusView { month_name, status });
        i = i + 1;
    }
    r
}

/// The state of every month of `year` for the member, as of today.
pub fn calculate_year_status(
    year: i32,
    member: &User,
    payments: &[PaymentWithAllocations],
    breaks: &[PaymentBreak],
) -> (r: Vec<MonthStatusView>)
    requires
        MIN_YEAR <= year <= MAX_YEAR,
    ensures
        exists|today: Date| year_status_is(r@, year, member.member_since, payments@, breaks@, today),
{
    let today = local_date();
    calculate_year_status_at(year, member.member_since, payments, breaks, today)
}

/// The month `ym` starts after the current month of `today`.
pub open spec fn after_current_month(ym: YearMonth, today: Date) -> bool {
    ym.year > today.y() || (ym.year == today.y() && month_number(ym.month) > today.m())
}

/// In the grid of a year, a month is `Future` only when it starts after the current
/// month, and `Unpaid` only when it does not: the current month and every month
/// before it that the member owes are shown unpaid, never as future.
pub proof fn lemma_future_only_after_current_month(
    r: Seq<MonthStatusView>,
    year: i32,
    member_since: Date,
    payments: Seq<PaymentWithAllocations>,
    breaks: Seq<PaymentBreak>,
    today: Date,
)
    requires
        year_status_is(r, year, member_since, payments, breaks, today),
    ensures
        forall|i: int| 0 <= i < 12 ==> ((#[trigger] r[i]).status is Future ==> after_current_month(months_of_year(year)[i], today)),
        forall|i: int| 0 <= i < 12 ==> ((#[trigger] r[i]).status is Unpaid ==> !after_current_month(months_of_year(year)[i], today)),
{
    assert forall|i: int| 0 <= i < 12 implies
        ((#[trigger] r[i]).status is Future ==> after_current_month(months_of_year(year)[i], today))
        && (r[i].status is Unpaid ==> !after_current_month(months_of_year(year)[i], today)) by {
        let ym = months_of_year(year)[i];
        ym.lemma_first_day();
        today.lemma_first_of_month();
        assert(status_is(r[i].status, ym, member_since, payments, breaks, today));
    }
}

} // verus!
