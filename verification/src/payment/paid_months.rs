//! The months of a member that are paid for or fall in a break, as the member page
//! marks them.
use crate::dates::{lemma_index_injective, month_index, month_number, year_month_range, YearMonth};
use crate::model::payment::{PaymentBreak, PaymentWithAllocations};
use crate::payment::status::contains_month;
use crate::text::{decimal, push_decimal, push_padded, zero_padded};
use vstd::prelude::*;

verus! {

broadcast use vstd::seq_lib::group_seq_properties;

/// Some payment among the first `n` pays for the month.
pub open spec fn allocated_in(payments: Seq<PaymentWithAllocations>, n: int, ym: YearMonth) -> bool {
    exists|i: int, j: int|
        0 <= i < n && 0 <= j < payments[i].allocations@.len() && #[trigger] payments[i].allocations@[j] == ym
}

/// The month lies from the month of the start to that of the end of the break.
pub open spec fn break_covers(b: PaymentBreak, ym: YearMonth) -> bool {
    month_index(b.start_date.y(), b.start_date.m()) <= ym.index() <= month_index(b.end_date.y(), b.end_date.m())
}

/// Some break among the first `n` covers the month.
pub open spec fn in_break_in(breaks: Seq<PaymentBreak>, n: int, ym: YearMonth) -> bool {
    exists|k: int| 0 <= k < n && #[trigger] break_covers(breaks[k], ym)
}

/// The month is paid for by some payment or falls in some break.
pub open spec fn marked(payments: Seq<PaymentWithAllocations>, breaks: Seq<PaymentBreak>, ym: YearMonth) -> bool {
    allocated_in(payments, payments.len() as int, ym) || in_break_in(breaks, breaks.len() as int, ym)
}

/// Adds the month unless it is there already.
fn add_month(months: &mut Vec<YearMonth>, ym: YearMonth)
    requires
        old(months)@.no_duplicates(),
    ensures
        final(months)@.no_duplicates(),
        forall|x: YearMonth| final(months)@.contains(x) <==> (old(months)@.contains(x) || x == ym),
{
    if !contains_month(months, ym) {
        months.push(ym);
    }
}

/// Each month that a payment pays for or a break covers, once.
pub fn paid_months(payments: &[PaymentWithAllocations], breaks: &[PaymentBreak]) -> (r: Vec<YearMonth>)
    ensures
        r@.no_duplicates(),
        forall|ym: YearMonth| r@.contains(ym) <==> marked(payments@, breaks@, ym),
{
    let mut months: Vec<YearMonth> = Vec::new();
    let mut i: usize = 0;
    while i < payments.len()
        invariant
            i <= payments@.len(),
            months@.no_duplicates(),
            forall|ym: YearMonth| months@.contains(ym) <==> allocated_in(payments@, i as int, ym),
        decreases payments@.len() - i,
    {
        let allocations = &payments[i].allocations;
        let mut j: usize = 0;
        while j < allocations.len()
            invariant
                i < payments@.len(),
                allocations@ == payments@[i as int].allocations@,
                j <= allocations@.len(),
                months@.no_duplicates(),
                forall|ym: YearMonth| months@.contains(ym) <==> (allocated_in(payments@, i as int, ym)
                    || exists|t: int| 0 <= t < j && #[trigger] allocations@[t] == ym),
            decreases allocations@.len() - j,
        {
            let ym = allocations[j];
            add_month(&mut months, ym);
            proof {
                assert forall|x: YearMonth| months@.contains(x) <==> (allocated_in(payments@, i as int, x)
                    || exists|t: int| 0 <= t < j + 1 && #[trigger] allocations@[t] == x) by {
                    if x == ym {
                        assert(allocations@[j as int] == x);
                    }
                }
            }
            j = j + 1;
        }
        proof {
            assert forall|x: YearMonth| months@.contains(x) <==> allocated_in(payments@, i + 1, x) by {
                if allocated_in(payments@, i + 1, x) {
                    let (a, b) = choose|a: int, b: int|
                        0 <= a < i + 1 && 0 <= b < payments@[a].allocations@.len() && #[trigger] payments@[a].allocations@[b] == x;
                    if a == i {
                        assert(allocations@[b] == x);
                    } else {
                        assert(allocated_in(payments@, i as int, x));
                    }
                }
                if exists|t: int| 0 <= t < allocations@.len() && #[trigger] allocations@[t] == x {
                    let t = choose|t: int| 0 <= t < allocations@.len() && #[trigger] allocations@[t] == x;
                    assert(payments@[i as int].allocations@[t] == x);
                }
                if allocated_in(payments@, i as int, x) {
                    let (a, b) = choose|a: int, b: int|
                        0 <= a < i && 0 <= b < payments@[a].allocations@.len() && #[trigger] payments@[a].allocations@[b] == x;
                    assert(payments@[a].allocations@[b] == x);
                }
            }
        }
        i = i + 1;
    }
    let mut k: usize = 0;
    while k < breaks.len()
        invariant
            i == payments@.len(),
            k <= breaks@.len(),
            months@.no_duplicates(),
            forall|ym: YearMonth| months@.contains(ym) <==> (allocated_in(payments@, i as int, ym)
                || in_break_in(breaks@, k as int, ym)),
        decreases breaks@.len() - k,
    {
        let b = &breaks[k];
        let start = YearMonth::from_date(b.start_date);
        let end = YearMonth::from_date(b.end_date);
        let range = year_month_range(start, end);
        let mut t: usize = 0;
        while t < range.len()
            invariant
                k < breaks@.len(),
                *b == breaks@[k as int],
                start.index() == month_index(b.start_date.y(), b.start_date.m()),
                end.index() == month_index(b.end_date.y(), b.end_date.m()),
                range@.len() == (if end.index() < start.index() { 0 } else { end.index() - start.index() + 1 }),
                forall|q: int| 0 <= q < range@.len() ==> #[trigger] range@[q].index() == start.index() + q,
                t <= range@.len(),
                months@.no_duplicates(),
                forall|ym: YearMonth| months@.contains(ym) <==> (allocated_in(payments@, i as int, ym)
                    || in_break_in(breaks@, k as int, ym)
                    || (start.index() <= ym.index() < start.index() + t)),
            decreases range@.len() - t,
        {
            let ym = range[t];
            add_month(&mut months, ym);
            proof {
                assert forall|x: YearMonth| months@.contains(x) <==> (allocated_in(payments@, i as int, x)
                    || in_break_in(breaks@, k as int, x)
                    || (start.index() <= x.index() < start.index() + t + 1)) by {
                    if x.index() == start.index() + t {
                        lemma_index_injective(x, ym);
                    }
                }
            }
            t = t + 1;
        }
        proof {
            assert forall|x: YearMonth| months@.contains(x) <==> (allocated_in(payments@, i as int, x)
                || in_break_in(breaks@, k + 1, x)) by {
                if break_covers(breaks@[k as int], x) {
                    assert(start.index() <= x.index() < start.index() + t);
                }
                if in_break_in(breaks@, k + 1, x) {
                    let q = choose|q: int| 0 <= q < k + 1 && #[trigger] break_covers(breaks@[q], x);
                    if q < k {
                        assert(in_break_in(breaks@, k as int, x));
                    }
                }
                if in_break_in(breaks@, k as int, x) {
                    let q = choose|q: int| 0 <= q < k && #[trigger] break_covers(breaks@[q], x);
                    assert(break_covers(breaks@[q], x));
                }
                if start.index() <= x.index() < start.index() + t {
                    assert(break_covers(breaks@[k as int], x));
                }
            }
        }
        k = k + 1;
    }
    months
}

/// A year written with at least four digits, as `{:04}` writes it.
pub open spec fn year_text(y: int) -> Seq<char> {
    if y < 0 {
        seq!['-'] + zero_padded(decimal((-y) as nat), 3)
    } else {
        zero_padded(decimal(y as nat), 4)
    }
}

/// The key of a month on the member page: its number, a hyphen and the year.
pub open spec fn month_key(ym: YearMonth) -> Seq<char> {
    decimal(month_number(ym.month) as nat) + seq!['-'] + year_text(ym.year as int)
}

/// The key of a month on the member page.
pub fn month_key_text(ym: YearMonth) -> (r: String)
    ensures
        r@ == month_key(ym),
{
    let mut s = String::new();
    push_decimal(&mut s, ym.month.number() as u64);
    proof { reveal_strlit("-"); }
    s.append("-");
    let ghost head = s@;
    if ym.year < 0 {
        s.append("-");
        let wide: i64 = ym.year as i64;
        push_padded(&mut s, (0i64 - wide) as u64, 3);
        assert(s@ =~= head + year_text(ym.year as int));
    } else {
        push_padded(&mut s, ym.year as u64, 4);
        assert(s@ =~= head + year_text(ym.year as int));
    }
    assert(s@ =~= month_key(ym));
    s
}

/// The keys of the months, in order.
pub fn month_keys(months: &Vec<YearMonth>) -> (r: Vec<String>)
    ensures
        r@.len() == months@.len(),
        forall|q: int| 0 <= q < r@.len() ==> (#[trigger] r@[q])@ == month_key(months@[q]),
{
    let mut r: Vec<String> = Vec::new();
    let mut q: usize = 0;
    while q < months.len()
        invariant
            q <= months@.len(),
            r@.len() == q,
            forall|p: int| 0 <= p < q ==> (#[trigger] r@[p])@ == month_key(months@[p]),
        decreases months@.len() - q,
    {
        r.push(month_key_text(months[q]));
        q = q + 1;
    }
    r
}

} // verus!
