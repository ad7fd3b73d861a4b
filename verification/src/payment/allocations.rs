//! The months that a new payment is to pay for.
use crate::dates::{month_number, month_of_number, Date, Month, YearMonth, MAX_YEAR, MIN_YEAR};
use crate::model::payment_context::{break_contains, month_in_range, PaymentContext};
use crate::seqs::{first_match, is_first_match, lemma_first_match_is, lemma_first_match_none};
use crate::text::{chars_of, int_text, parse_i32, parse_i32_chars, parse_u8, parse_u8_chars, push_int, trim_bounds, trimmed};
use vstd::prelude::*;

verus! {

/// Why a payment cannot be recorded.
#[derive(Debug, PartialEq)]
pub enum PaymentValidationError {
    InvalidAmount,
    NoValidMonths,
    MonthAlreadyPaid(YearMonth),
    MonthInBreak(YearMonth),
}

/// The message shown for an error.
pub open spec fn error_message(e: PaymentValidationError) -> Seq<char> {
    match e {
        PaymentValidationError::InvalidAmount => "Suma trebuie să fie pozitivă"@,
        PaymentValidationError::NoValidMonths => "O plată trebuie să acopere cel puțin o lună validă"@,
        PaymentValidationError::MonthAlreadyPaid(m) => "Luna "@ + int_text(month_number(m.month))
            + "-"@ + int_text(m.year as int) + " este deja plătită"@,
        PaymentValidationError::MonthInBreak(m) => "Luna "@ + int_text(month_number(m.month))
            + "-"@ + int_text(m.year as int) + " este marcată ca pauză"@,
    }
}

impl PaymentValidationError {
    /// The message shown for the error.
    pub fn message(&self) -> (r: String)
        ensures
            r@ == error_message(*self),
    {
        match self {
            PaymentValidationError::InvalidAmount => String::from_str("Suma trebuie să fie pozitivă"),
            PaymentValidationError::NoValidMonths => String::from_str(
                "O plată trebuie să acopere cel puțin o lună validă",
            ),
            PaymentValidationError::MonthAlreadyPaid(m) => {
                let mut s = String::from_str("Luna ");
                push_int(&mut s, m.month.number() as i64);
                s.append("-");
                push_int(&mut s, m.year as i64);
                s.append(" este deja plătită");
                s
            },
            PaymentValidationError::MonthInBreak(m) => {
                let mut s = String::from_str("Luna ");
                push_int(&mut s, m.month.number() as i64);
                s.append("-");
                push_int(&mut s, m.year as i64);
                s.append(" este marcată ca pauză");
                s
            },
        }
    }
}

/// `str::split`: the pieces of `s` between occurrences of `c`.
pub open spec fn split_on(s: Seq<char>, c: char) -> Seq<Seq<char>>
    decreases s.len(),
{
    if s.len() == 0 {
        seq![Seq::empty()]
    } else {
        let prev = split_on(s.drop_last(), c);
        if s.last() == c {
            prev.push(Seq::empty())
        } else {
            prev.update(prev.len() - 1, prev.last().push(s.last()))
        }
    }
}

proof fn lemma_split_on_len(s: Seq<char>, c: char)
    ensures
        split_on(s, c).len() >= 1,
    decreases s.len(),
{
    if s.len() > 0 {
        lemma_split_on_len(s.drop_last(), c);
    }
}

/// The month that one piece `M-YYYY` of the list names, if it is valid: the piece,
/// trimmed, is a month number from 1 to 12 and a year from `first_year` to
/// `last_year`, split at the first `-`, and the month is not before `joined`.
pub open spec fn parse_allocation(seg: Seq<char>, first_year: int, last_year: int, joined: YearMonth) -> Option<YearMonth> {
    let t = trimmed(seg);
    match first_match(t, |ch: char| ch == '-') {
        None => None,
        Some(k) => match parse_u8(t.take(k)) {
            None => None,
            Some(m) => if 1 <= m <= 12 {
                match parse_i32(t.skip(k + 1)) {
                    None => None,
                    Some(y) => {
                        let ym = YearMonth { year: y, month: month_of_number(m as int) };
                        if first_year <= y <= last_year && !ym.is_before(joined) {
                            Some(ym)
                        } else {
                            None
                        }
                    },
                }
            } else {
                None
            },
        },
    }
}

/// The valid months of a comma-separated list, in order, for a member who joined
/// on `member_since`, in `current_year`.
pub open spec fn allocations_of(s: Seq<char>, member_since: Date, current_year: int) -> Seq<YearMonth> {
    let joined = YearMonth { year: member_since.y() as i32, month: member_since.mon() };
    split_on(s, ',').filter_map(|seg: Seq<char>| parse_allocation(seg, member_since.y(), current_year + 1, joined))
}

fn parse_piece(cs: &Vec<char>, start: usize, end: usize, first_year: i32, last_year: i32, joined: YearMonth) -> (r: Option<YearMonth>)
    requires
        start <= end <= cs@.len(),
    ensures
        r == parse_allocation(cs@.subrange(start as int, end as int), first_year as int, last_year as int, joined),
{
    let ghost seg = cs@.subrange(start as int, end as int);
    let mut piece: Vec<char> = Vec::new();
    let mut i = start;
    while i < end
        invariant
            start <= i <= end <= cs@.len(),
            piece@ == cs@.subrange(start as int, i as int),
        decreases end - i,
    {
        piece.push(cs[i]);
        i = i + 1;
        assert(piece@ =~= cs@.subrange(start as int, i as int));
    }
    let (a, b) = trim_bounds(&piece);
    let ghost t = trimmed(seg);
    assert(piece@.subrange(a as int, b as int) == t);
    let mut k = a;
    while k < b && piece[k] != '-'
        invariant
            a <= k <= b <= piece@.len(),
            forall|j: int| a <= j < k ==> piece@[j] != '-',
        decreases b - k,
    {
        k = k + 1;
    }
    let ghost is_dash = |ch: char| ch == '-';
    if k == b {
        proof {
            assert forall|j: int| 0 <= j < t.len() implies !is_dash(#[trigger] t[j]) by {
                assert(t[j] == piece@[a + j]);
            }
            lemma_first_match_none(t, is_dash);
        }
        return None;
    }
    proof {
        assert forall|j: int| 0 <= j < k - a implies !is_dash(#[trigger] t[j]) by {
            assert(t[j] == piece@[a + j]);
        }
        assert(t[k - a] == piece@[k as int]);
        lemma_first_match_is(t, is_dash, k - a);
        assert(t.take(k - a) =~= piece@.subrange(a as int, k as int));
        assert(t.skip(k - a + 1) =~= piece@.subrange(k + 1, b as int));
    }
    let m = match parse_u8_chars(&piece, a, k) {
        None => return None,
        Some(m) => m,
    };
    let month = match Month::from_number(m) {
        None => return None,
        Some(month) => month,
    };
    let y = match parse_i32_chars(&piece, k + 1, b) {
        None => return None,
        Some(y) => y,
    };
    let ym = YearMonth::new(y, month);
    if first_year <= y && y <= last_year && !ym.before(&joined) {
        Some(ym)
    } else {
        None
    }
}

/// The months that the list `months_str` ("M-YYYY" pieces separated by commas)
/// names, in order, for a member who joined on `member_since`; pieces that are not
/// valid, whose year is before the year of joining or after the next one, or that
/// name a month before joining are left out. With none left it is an error.
pub fn parse_month_allocations(months_str: &str, member_since: Date, current_year: i32) -> (r: Result<Vec<YearMonth>, PaymentValidationError>)
    requires
        current_year < i32::MAX,
    ensures
        match r {
            Ok(v) => v@ == allocations_of(months_str@, member_since, current_year as int) && v@.len() > 0,
            Err(e) => e == PaymentValidationError::NoValidMonths && allocations_of(months_str@, member_since, current_year as int).len() == 0,
        },
{
    let first_year = member_since.year();
    let last_year = current_year + 1;
    let joined = YearMonth::from_date(member_since);
    let cs = chars_of(months_str);
    let ghost s = months_str@;
    let ghost f = |seg: Seq<char>| parse_allocation(seg, member_since.y(), current_year + 1, YearMonth { year: member_since.y() as i32, month: member_since.mon() });
    let mut out: Vec<YearMonth> = Vec::new();
    let mut seg_start: usize = 0;
    let mut i: usize = 0;
    let ghost mut done: Seq<Seq<char>> = Seq::empty();
    assert(joined == YearMonth { year: member_since.y() as i32, month: member_since.mon() });
    assert(s.take(0) =~= Seq::<char>::empty());
    assert(done.push(cs@.subrange(0, 0)) =~= seq![Seq::<char>::empty()]);
    while i < cs.len()
        invariant
            cs@ == s,
            seg_start <= i <= cs@.len(),
            first_year == member_since.y(),
            last_year == current_year + 1,
            joined == (YearMonth { year: member_since.y() as i32, month: member_since.mon() }),
            f == (|seg: Seq<char>| parse_allocation(seg, member_since.y(), current_year + 1, YearMonth { year: member_since.y() as i32, month: member_since.mon() })),
            split_on(s.take(i as int), ',') == done.push(cs@.subrange(seg_start as int, i as int)),
            out@ == done.filter_map(f),
        decreases cs@.len() - i,
    {
        let ghost cur = cs@.subrange(seg_start as int, i as int);
        proof {
            assert(s.take(i + 1).drop_last() =~= s.take(i as int));
            assert(s.take(i + 1).last() == cs@[i as int]);
            let prev = split_on(s.take(i as int), ',');
            assert(prev == done.push(cur));
            if cs@[i as int] == ',' {
                assert(split_on(s.take(i + 1), ',') == prev.push(Seq::empty()));
            } else {
                assert(split_on(s.take(i + 1), ',') == prev.update(prev.len() - 1, prev.last().push(cs@[i as int])));
                assert(prev.last() == cur);
                assert(cur.push(cs@[i as int]) =~= cs@.subrange(seg_start as int, i + 1));
                assert(prev.update(prev.len() - 1, prev.last().push(cs@[i as int])) =~= done.push(cs@.subrange(seg_start as int, i + 1)));
            }
        }
        if cs[i] == ',' {
            let p = parse_piece(&cs, seg_start, i, first_year, last_year, joined);
            let ghost seg = cs@.subrange(seg_start as int, i as int);
            proof {
                assert(done.push(seg).drop_last() =~= done);
            }
            match p {
                Some(ym) => {
                    out.push(ym);
                    assert(out@ =~= done.push(seg).filter_map(f));
                },
                None => {
                    assert(out@ =~= done.push(seg).filter_map(f));
                },
            }
            proof {
                done = done.push(seg);
            }
            seg_start = i + 1;
            i = i + 1;
            assert(cs@.subrange(seg_start as int, i as int) =~= Seq::<char>::empty());
        } else {
            i = i + 1;
        }
    }
    let p = parse_piece(&cs, seg_start, i, first_year, last_year, joined);
    let ghost seg = cs@.subrange(seg_start as int, i as int);
    proof {
        assert(s.take(i as int) =~= s);
        assert(done.push(seg).drop_last() =~= done);
    }
    match p {
        Some(ym) => {
            out.push(ym);
            assert(out@ =~= done.push(seg).filter_map(f));
        },
        None => {
            assert(out@ =~= done.push(seg).filter_map(f));
        },
    }
    if out.len() == 0 {
        return Err(PaymentValidationError::NoValidMonths);
    }
    Ok(out)
}

/// The first problem with paying for `requested` given what is already paid and the
/// breaks: months are checked in order, and for each one being paid for already is
/// reported before lying in a break.
pub open spec fn allocation_problem(requested: Seq<YearMonth>, ctx: PaymentContext) -> Option<PaymentValidationError>
    decreases requested.len(),
{
    if requested.len() == 0 {
        None
    } else {
        let m = requested[0];
        if ctx.paid().contains(m) {
            Some(PaymentValidationError::MonthAlreadyPaid(m))
        } else if exists|i: int| 0 <= i < ctx.breaks().len() && break_contains(#[trigger] ctx.breaks()[i], m.first_day()) {
            Some(PaymentValidationError::MonthInBreak(m))
        } else {
            allocation_problem(requested.drop_first(), ctx)
        }
    }
}

/// Checks that no requested month is paid for already or lies in a break, and
/// reports the first one that does.
pub fn validate_allocations(requested: &[YearMonth], ctx: &PaymentContext) -> (r: Result<(), PaymentValidationError>)
    requires
        forall|i: int| 0 <= i < requested@.len() ==> month_in_range(#[trigger] requested@[i]),
    ensures
        match allocation_problem(requested@, *ctx) {
            None => r is Ok,
            Some(e) => r == Err::<(), PaymentValidationError>(e),
        },
{
    let mut i: usize = 0;
    assert(requested@.skip(0) =~= requested@);
    while i < requested.len()
        invariant
            i <= requested@.len(),
            forall|j: int| 0 <= j < requested@.len() ==> month_in_range(#[trigger] requested@[j]),
            allocation_problem(requested@, *ctx) == allocation_problem(requested@.skip(i as int), *ctx),
        decreases requested@.len() - i,
    {
        let month = requested[i];
        proof {
            assert(requested@.skip(i as int)[0] == month);
            assert(requested@.skip(i as int).drop_first() =~= requested@.skip(i + 1));
        }
        if ctx.is_month_paid(month) {
            return Err(PaymentValidationError::MonthAlreadyPaid(month));
        }
        if ctx.is_month_in_break(month) {
            return Err(PaymentValidationError::MonthInBreak(month));
        }
        i = i + 1;
    }
    Ok(())
}

/// A payment is only ever recorded for months from the one the member joined in to
/// the end of the year after the current one.
pub proof fn lemma_allocations_within_membership(s: Seq<char>, member_since: Date, current_year: int, ym: YearMonth)
    requires
        allocations_of(s, member_since, current_year).contains(ym),
    ensures
        member_since.y() <= ym.year <= current_year + 1,
        !ym.is_before(YearMonth { year: member_since.y() as i32, month: member_since.mon() }),
{
    let joined = YearMonth { year: member_since.y() as i32, month: member_since.mon() };
    let f = |seg: Seq<char>| parse_allocation(seg, member_since.y(), current_year + 1, joined);
    split_on(s, ',').lemma_filter_map_contains(f, ym);
    let seg = choose|t: Seq<char>| #[trigger] split_on(s, ',').contains(t) && f(t) == Some(ym);
    assert(parse_allocation(seg, member_since.y(), current_year + 1, joined) == Some(ym));
}

/// A payment is accepted exactly when none of its months is paid for already and
/// none lies in a break: no month is ever paid twice, nor paid while in a break.
pub proof fn lemma_accepted_months_are_free(requested: Seq<YearMonth>, ctx: PaymentContext)
    ensures
        allocation_problem(requested, ctx) is None <==> forall|i: int| 0 <= i < requested.len()
            ==> !ctx.paid().contains(#[trigger] requested[i]) && !ctx.month_in_break(requested[i]),
    decreases requested.len(),
{
    if requested.len() > 0 {
        let rest = requested.drop_first();
        lemma_accepted_months_are_free(rest, ctx);
        if allocation_problem(requested, ctx) is None {
            assert forall|i: int| 0 <= i < requested.len()
                implies !ctx.paid().contains(#[trigger] requested[i]) && !ctx.month_in_break(requested[i]) by {
                if i > 0 {
                    assert(requested[i] == rest[i - 1]);
                }
            }
        } else {
            if forall|i: int| 0 <= i < requested.len()
                ==> !ctx.paid().contains(#[trigger] requested[i]) && !ctx.month_in_break(requested[i]) {
                assert(!ctx.paid().contains(requested[0]) && !ctx.month_in_break(requested[0]));
                assert forall|i: int| 0 <= i < rest.len()
                    implies !ctx.paid().contains(#[trigger] rest[i]) && !ctx.month_in_break(rest[i]) by {
                    assert(rest[i] == requested[i + 1]);
                }
            }
        }
    }
}

} // verus!
