//! What is known of a member's fees: the months paid for and the breaks.
use crate::dates::{Date, YearMonth, MAX_YEAR, MIN_YEAR};
use crate::model::payment::PaymentBreak;
use vstd::prelude::*;

verus! {

/// `date` lies in the break, both ends included.
pub open spec fn break_contains(b: PaymentBreak, date: Date) -> bool {
    b.start_date.is_on_or_before(date) && date.is_on_or_before(b.end_date)
}

/// The period from `start` to `end` shares a day with the break.
pub open spec fn break_overlaps(b: PaymentBreak, start: Date, end: Date) -> bool {
    start.is_on_or_before(b.end_date) && b.start_date.is_on_or_before(end)
}

/// The month's year is one that a date can have.
pub open spec fn month_in_range(m: YearMonth) -> bool {
    MIN_YEAR <= m.year <= MAX_YEAR
}

/// The months paid for and the breaks of one member.
pub struct PaymentContext {
    allocations: Vec<YearMonth>,
    breaks: Vec<PaymentBreak>,
}

impl PaymentContext {
    /// The months paid for.
    pub closed spec fn paid(&self) -> Seq<YearMonth> {
        self.allocations@
    }

    /// The breaks.
    pub closed spec fn breaks(&self) -> Seq<PaymentBreak> {
        self.breaks@
    }

    /// The first day of the month lies in one of the breaks.
    pub open spec fn month_in_break(&self, month: YearMonth) -> bool {
        exists|i: int| 0 <= i < self.breaks().len() && break_contains(#[trigger] self.breaks()[i], month.first_day())
    }

    /// Some break shares a day with the period from `start` to `end`.
    pub open spec fn break_overlap(&self, start: Date, end: Date) -> bool {
        exists|i: int| 0 <= i < self.breaks().len() && break_overlaps(#[trigger] self.breaks()[i], start, end)
    }

    /// The first day of some month paid for lies in the period from `start` to `end`.
    pub open spec fn payment_overlap(&self, start: Date, end: Date) -> bool {
        exists|i: int|
            0 <= i < self.paid().len() && start.is_on_or_before(#[trigger] self.paid()[i].first_day())
                && self.paid()[i].first_day().is_on_or_before(end)
    }

    pub fn new(allocations: Vec<YearMonth>, breaks: Vec<PaymentBreak>) -> (r: PaymentContext)
        ensures
            r.paid() == allocations@,
            r.breaks() == breaks@,
    {
        PaymentContext { allocations, breaks }
    }

    /// The month is among those paid for.
    pub fn is_month_paid(&self, month: YearMonth) -> (r: bool)
        ensures
            r == self.paid().contains(month),
    {
        let mut i: usize = 0;
        while i < self.allocations.len()
            invariant
                i <= self.allocations@.len(),
                forall|j: int| 0 <= j < i ==> self.allocations@[j] != month,
            decreases self.allocations@.len() - i,
        {
            if self.allocations[i] == month {
                assert(self.allocations@[i as int] == month);
                return true;
            }
            i = i + 1;
        }
        false
    }

    /// The first day of the month lies in one of the breaks.
    pub fn is_month_in_break(&self, month: YearMonth) -> (r: bool)
        requires
            month_in_range(month),
        ensures
            r == self.month_in_break(month),
    {
        let month_date = month.to_date();
        let mut i: usize = 0;
        while i < self.breaks.len()
            invariant
                i <= self.breaks@.len(),
                month_date == month.first_day(),
                forall|j: int| 0 <= j < i ==> !break_contains(#[trigger] self.breaks@[j], month_date),
            decreases self.breaks@.len() - i,
        {
            let b = &self.breaks[i];
            if b.start_date.on_or_before(&month_date) && month_date.on_or_before(&b.end_date) {
                assert(break_contains(self.breaks()[i as int], month.first_day()));
                return true;
            }
            i = i + 1;
        }
        false
    }

    /// Some break shares a day with the period from `start` to `end`.
    pub fn overlaps_existing_break(&self, start: Date, end: Date) -> (r: bool)
        ensures
            r == self.break_overlap(start, end),
    {
        let mut i: usize = 0;
        while i < self.breaks.len()
            invariant
                i <= self.breaks@.len(),
                forall|j: int| 0 <= j < i ==> !break_overlaps(#[trigger] self.breaks@[j], start, end),
            decreases self.breaks@.len() - i,
        {
            let b = &self.breaks[i];
            if start.on_or_before(&b.end_date) && b.start_date.on_or_before(&end) {
                assert(break_overlaps(self.breaks()[i as int], start, end));
                return true;
            }
            i = i + 1;
        }
        false
    }

    /// The first day of some month paid for lies in the period from `start` to `end`.
    pub fn overlaps_existing_payment(&self, start: Date, end: Date) -> (r: bool)
        requires
            forall|i: int| 0 <= i < self.paid().len() ==> month_in_range(#[trigger] self.paid()[i]),
        ensures
            r == self.payment_overlap(start, end),
    {
        assert forall|j: int| 0 <= j < self.allocations@.len() implies month_in_range(#[trigger] self.allocations@[j]) by {
            assert(self.paid()[j] == self.allocations@[j]);
        }
        let mut i: usize = 0;
        while i < self.allocations.len()
            invariant
                i <= self.allocations@.len(),
                forall|j: int| 0 <= j < self.allocations@.len() ==> month_in_range(#[trigger] self.allocations@[j]),
                forall|j: int|
                    0 <= j < i ==> !(start.is_on_or_before(#[trigger] self.allocations@[j].first_day())
                        && self.allocations@[j].first_day().is_on_or_before(end)),
            decreases self.allocations@.len() - i,
        {
            let d = self.allocations[i].to_date();
            if start.on_or_before(&d) && d.on_or_before(&end) {
                return true;
            }
            i = i + 1;
        }
        false
    }
}

/// A month that is paid for overlaps every period that holds its first day, so no
/// such period can be taken as a break.
pub proof fn lemma_paid_month_overlaps(ctx: PaymentContext, month: YearMonth, start: Date, end: Date)
    requires
        ctx.paid().contains(month),
        start.is_on_or_before(month.first_day()),
        month.first_day().is_on_or_before(end),
    ensures
        ctx.payment_overlap(start, end),
{
    let i = choose|i: int| 0 <= i < ctx.paid().len() && ctx.paid()[i] == month;
    assert(start.is_on_or_before(ctx.paid()[i].first_day()));
}

/// A month that lies in a break makes that break overlap every period that holds the
/// month's first day.
pub proof fn lemma_break_month_overlaps(ctx: PaymentContext, month: YearMonth, start: Date, end: Date)
    requires
        ctx.month_in_break(month),
        start.is_on_or_before(month.first_day()),
        month.first_day().is_on_or_before(end),
    ensures
        ctx.break_overlap(start, end),
{
    let i = choose|i: int| 0 <= i < ctx.breaks().len() && break_contains(#[trigger] ctx.breaks()[i], month.first_day());
    assert(break_overlaps(ctx.breaks()[i], start, end));
}

} // verus!
