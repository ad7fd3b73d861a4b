//! Recording a break from paying fees.
use crate::dates::{iso_date_parse, parse_iso_date, Date};
use crate::model::payment_context::{break_overlaps, month_in_range, PaymentContext};
use crate::model::user::User;
use vstd::prelude::*;

verus! {

/// A break as the administration form submits it: months as `YYYY-MM`.
pub struct NewBreak {
    pub start_month: String,
    pub end_month: Option<String>,
    pub reason: Option<String>,
}

/// The date lies before the month in which the member joined.
pub open spec fn before_membership(date: Date, member: User) -> bool {
    date.is_before(member.member_since.first_of_month_spec())
}

/// Whether the date lies before the month in which the member joined.
pub fn is_before_membership(date: Date, member: &User) -> (r: bool)
    ensures
        r == before_membership(date, *member),
{
    let join = member.member_since.first_of_month();
    date.before(&join)
}

/// Why a break cannot be recorded.
#[derive(Debug, PartialEq, Eq, Structural, Clone, Copy)]
pub enum BreakError {
    InvalidStart,
    InvalidEnd,
    EndBeforeStart,
    BeforeMembership,
    OverlapsBreak,
    OverlapsPayment,
}

pub open spec fn break_error_message(e: BreakError) -> Seq<char> {
    match e {
        BreakError::InvalidStart => "Început de lună invalid"@,
        BreakError::InvalidEnd => "Sfârșit de lună invalid"@,
        BreakError::EndBeforeStart => "Data selectată este invalidă"@,
        BreakError::BeforeMembership => "Nu poți adăuga o pauză înainte de înscriere"@,
        BreakError::OverlapsBreak => "Perioada se suprapune cu o pauză existentă"@,
        BreakError::OverlapsPayment => "Perioada se suprapune cu o lună deja plătită"@,
    }
}

impl BreakError {
    /// The message shown.
    pub fn message(&self) -> (r: &'static str)
        ensures
            r@ == break_error_message(*self),
    {
        match self {
            BreakError::InvalidStart => "Început de lună invalid",
            BreakError::InvalidEnd => "Sfârșit de lună invalid",
            BreakError::EndBeforeStart => "Data selectată este invalidă",
            BreakError::BeforeMembership => "Nu poți adăuga o pauză înainte de înscriere",
            BreakError::OverlapsBreak => "Perioada se suprapune cu o pauză existentă",
            BreakError::OverlapsPayment => "Perioada se suprapune cu o lună deja plătită",
        }
    }
}

/// The first day of a month written `YYYY-MM`: the date that `YYYY-MM-01` writes.
pub open spec fn month_input(s: Seq<char>) -> Option<(int, int, int)> {
    iso_date_parse(s + "-01"@)
}

/// The first day of the month that `input` (`YYYY-MM`) writes.
pub fn parse_month_input(input: &str) -> (r: Option<Date>)
    ensures
        match month_input(input@) {
            Some(p) => r matches Some(d) && d.y() == p.0 && d.m() == p.1 && d.d() == p.2,
            None => r is None,
        },
{
    let mut s = String::from_str(input);
    s.append("-01");
    parse_iso_date(s.as_str())
}

pub open spec fn is_date(d: Date, p: (int, int, int)) -> bool {
    d.y() == p.0 && d.m() == p.1 && d.d() == p.2
}

/// The checks on a new break, in order: the start month must parse, then the end
/// month (the start month when none is given), the end must not come before the
/// start, the start must not come before the member joined, and the period must
/// share no day with a break and hold the first day of no month paid for. On
/// success, the first days of the start and end months.
pub fn validate_new_break(form: &NewBreak, member: &User, ctx: &PaymentContext) -> (r: Result<(Date, Date), BreakError>)
    requires
        forall|i: int| 0 <= i < ctx.paid().len() ==> month_in_range(#[trigger] ctx.paid()[i]),
    ensures
        match month_input(form.start_month@) {
            None => r == Err::<(Date, Date), BreakError>(BreakError::InvalidStart),
            Some(sp) => {
                let end_text = match form.end_month { Some(e) => e@, None => form.start_month@ };
                match month_input(end_text) {
                    None => r == Err::<(Date, Date), BreakError>(BreakError::InvalidEnd),
                    Some(ep) => match r {
                        Ok((start, end)) => is_date(start, sp) && is_date(end, ep) && !end.is_before(start)
                            && !before_membership(start, *member)
                            && !(exists|i: int| 0 <= i < ctx.breaks().len() && break_overlaps(#[trigger] ctx.breaks()[i], start, end))
                            && !(exists|i: int| 0 <= i < ctx.paid().len() && start.is_on_or_before(#[trigger] ctx.paid()[i].first_day())
                                && ctx.paid()[i].first_day().is_on_or_before(end)),
                        Err(e) => e != BreakError::InvalidStart && e != BreakError::InvalidEnd && exists|start: Date, end: Date|
                            is_date(start, sp) && is_date(end, ep) && #[trigger] break_rejection(e, start, end, *member, *ctx),
                    },
                }
            },
        },
{
    let start = match parse_month_input(form.start_month.as_str()) {
        Some(d) => d,
        None => return Err(BreakError::InvalidStart),
    };
    let end_text: &str = match &form.end_month {
        Some(e) => e.as_str(),
        None => form.start_month.as_str(),
    };
    let end = match parse_month_input(end_text) {
        Some(d) => d,
        None => return Err(BreakError::InvalidEnd),
    };
    if end.before(&start) {
        assert(break_rejection(BreakError::EndBeforeStart, start, end, *member, *ctx));
        return Err(BreakError::EndBeforeStart);
    }
    if is_before_membership(start, member) {
        assert(break_rejection(BreakError::BeforeMembership, start, end, *member, *ctx));
        return Err(BreakError::BeforeMembership);
    }
    if ctx.overlaps_existing_break(start, end) {
        assert(break_rejection(BreakError::OverlapsBreak, start, end, *member, *ctx));
        return Err(BreakError::OverlapsBreak);
    }
    if ctx.overlaps_existing_payment(start, end) {
        assert(break_rejection(BreakError::OverlapsPayment, start, end, *member, *ctx));
        return Err(BreakError::OverlapsPayment);
    }
    Ok((start, end))
}

/// The break from `start` to `end` is refused with `e`, the earlier checks having
/// passed.
pub open spec fn break_rejection(e: BreakError, start: Date, end: Date, member: User, ctx: PaymentContext) -> bool {
    let overlaps_break = exists|i: int| 0 <= i < ctx.breaks().len() && break_overlaps(#[trigger] ctx.breaks()[i], start, end);
    let overlaps_paid = exists|i: int| 0 <= i < ctx.paid().len() && start.is_on_or_before(#[trigger] ctx.paid()[i].first_day())
        && ctx.paid()[i].first_day().is_on_or_before(end);
    match e {
        BreakError::EndBeforeStart => end.is_before(start),
        BreakError::BeforeMembership => !end.is_before(start) && before_membership(start, member),
        BreakError::OverlapsBreak => !end.is_before(start) && !before_membership(start, member) && overlaps_break,
        BreakError::OverlapsPayment => !end.is_before(start) && !before_membership(start, member) && !overlaps_break && overlaps_paid,
        _ => false,
    }
}

} // verus!
