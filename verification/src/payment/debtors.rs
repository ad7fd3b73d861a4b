//! Members who owe fees for months of a year.
use crate::dates::{month_name, months_of_year, year_months, Date, Month, YearMonth, MAX_YEAR, MIN_YEAR};
use crate::model::payment_context::{break_contains, PaymentContext};
use crate::model::user::User;
use crate::seqs::{lemma_filter_all, lemma_filter_filter};
use vstd::prelude::*;

verus! {

broadcast use vstd::seq_lib::group_seq_properties;

/// A member who owes fees, and the names of the months owed, in calendar order.
pub struct DebtorItem {
    pub member: User,
    pub unpaid_months: Vec<&'static str>,
}

/// A month of the selected year that a member paid for.
#[derive(Clone, Copy, PartialEq, Eq, Structural, Debug)]
pub struct PaidMonth {
    pub user_id: i64,
    pub month: u8,
}

/// A member's break that touches the selected year.
#[derive(Clone, Copy, PartialEq, Eq, Structural, Debug)]
pub struct BreakRow {
    pub user_id: i64,
    pub start_date: Date,
    pub end_date: Date,
}

/// Roles whose members never owe fees.
pub open spec fn is_exempt_role(role_id: i64) -> bool {
    role_id == 1 || role_id == 2 || role_id == 5 || role_id == 7
}

/// Members of these roles never owe fees.
pub fn is_exempt_role_id(role_id: i64) -> (r: bool)
    ensures
        r == is_exempt_role(role_id),
{
    role_id == 1 || role_id == 2 || role_id == 5 || role_id == 7
}

/// One of the member's breaks holds the date.
pub open spec fn in_member_break(member_id: i64, breaks: Seq<BreakRow>, date: Date) -> bool {
    exists|i: int|
        0 <= i < breaks.len() && (#[trigger] breaks[i]).user_id == member_id
            && breaks[i].start_date.is_on_or_before(date) && date.is_on_or_before(breaks[i].end_date)
}

/// The member owes the fee of month `ym`: it is not after the current month, not
/// before the month the member joined in, not paid for, and its first day lies in
/// none of the member's breaks.
pub open spec fn owes(
    member: User,
    paid: Seq<PaidMonth>,
    breaks: Seq<BreakRow>,
    today: Date,
) -> spec_fn(YearMonth) -> bool {
    |ym: YearMonth|
        {
            let d = ym.first_day();
            &&& !today.first_of_month_spec().is_before(d)
            &&& !d.is_before(member.member_since.first_of_month_spec())
            &&& !paid.contains(PaidMonth { user_id: member.id, month: month_number_u8(ym.month) })
            &&& !in_member_break(member.id, breaks, d)
        }
}

pub open spec fn month_number_u8(m: Month) -> u8 {
    crate::dates::month_number(m) as u8
}

/// The names of the months of `year` that the member owes, in calendar order.
pub open spec fn unpaid_names(
    member: User,
    year: i32,
    paid: Seq<PaidMonth>,
    breaks: Seq<BreakRow>,
    today: Date,
) -> Seq<Seq<char>> {
    months_of_year(year).filter(owes(member, paid, breaks, today)).map_values(
        |ym: YearMonth| month_name(ym.month),
    )
}

/// What a debtor item says: the member and the names of the months owed.
pub open spec fn item_view(d: DebtorItem) -> (User, Seq<Seq<char>>) {
    (d.member, d.unpaid_months@.map_values(|s: &'static str| s@))
}

/// Debtors ordered from most months owed to fewest, those owing the same number
/// keeping their order (months owed are at most `k`).
pub open spec fn by_count_desc(items: Seq<(User, Seq<Seq<char>>)>, k: nat) -> Seq<(User, Seq<Seq<char>>)>
    decreases k,
{
    if k == 0 {
        Seq::empty()
    } else {
        items.filter(|d: (User, Seq<Seq<char>>)| d.1.len() == k) + by_count_desc(items, (k - 1) as nat)
    }
}

/// The debtors among `users`, in the order of `users`: members of roles that owe
/// fees who owe at least one month of `year`.
pub open spec fn debtors_in_order(
    users: Seq<User>,
    year: i32,
    paid: Seq<PaidMonth>,
    breaks: Seq<BreakRow>,
    today: Date,
) -> Seq<(User, Seq<Seq<char>>)> {
    users.filter(
        |u: User| !is_exempt_role(u.role_id) && unpaid_names(u, year, paid, breaks, today).len() > 0,
    ).map_values(|u: User| (u, unpaid_names(u, year, paid, breaks, today)))
}

fn paid_contains(paid: &[PaidMonth], pm: PaidMonth) -> (r: bool)
    ensures
        r == paid@.contains(pm),
{
    let mut i: usize = 0;
    while i < paid.len()
        invariant
            i <= paid@.len(),
            forall|j: int| 0 <= j < i ==> paid@[j] != pm,
        decreases paid@.len() - i,
    {
        if paid[i] == pm {
            assert(paid@[i as int] == pm);
            return true;
        }
        i = i + 1;
    }
    false
}

fn member_break_holds(breaks: &[BreakRow], member_id: i64, date: Date) -> (r: bool)
    ensures
        r == in_member_break(member_id, breaks@, date),
{
    let mut i: usize = 0;
    while i < breaks.len()
        invariant
            i <= breaks@.len(),
            forall|j: int|
                0 <= j < i ==> !((#[trigger] breaks@[j]).user_id == member_id
                    && breaks@[j].start_date.is_on_or_before(date) && date.is_on_or_before(
                    breaks@[j].end_date,
                )),
        decreases breaks@.len() - i,
    {
        let b = &breaks[i];
        if b.user_id == member_id && b.start_date.on_or_before(&date) && date.on_or_before(&b.end_date) {
            assert(breaks@[i as int] == *b);
            return true;
        }
        i = i + 1;
    }
    false
}

/// The names of the months of `year` that the member owes, in calendar order.
pub fn unpaid_months_of(
    member: &User,
    year: i32,
    paid: &[PaidMonth],
    breaks: &[BreakRow],
    today: Date,
) -> (r: Vec<&'static str>)
    requires
        MIN_YEAR <= year <= MAX_YEAR,
    ensures
        r@.map_values(|s: &'static str| s@) == unpaid_names(*member, year, paid@, breaks@, today),
{
    let months = year_months(year);
    let current_month_start = today.first_of_month();
    let join_month_start = member.member_since.first_of_month();
    let ghost pred = owes(*member, paid@, breaks@, today);
    let mut r: Vec<&'static str> = Vec::new();
    let mut i: usize = 0;
    while i < 12
        invariant
            MIN_YEAR <= year <= MAX_YEAR,
            i <= 12,
            months@ == months_of_year(year),
            current_month_start == today.first_of_month_spec(),
            join_month_start == member.member_since.first_of_month_spec(),
            pred == owes(*member, paid@, breaks@, today),
            r@.map_values(|s: &'static str| s@) == months_of_year(year).take(i as int).filter(
                pred,
            ).map_values(|ym: YearMonth| month_name(ym.month)),
        decreases 12 - i,
    {
        let ym = months[i];
        let date = ym.to_date();
        let n = ym.month.number();
        let owed = !current_month_start.before(&date) && !date.before(&join_month_start)
            && !paid_contains(paid, PaidMonth { user_id: member.id, month: n })
            && !member_break_holds(breaks, member.id, date);
        proof {
            assert(months_of_year(year).take(i + 1) =~= months_of_year(year).take(i as int).push(ym));
            months_of_year(year).take(i as int).lemma_filter_push(ym, pred);
            assert(owed == pred(ym));
        }
        let ghost old_r = r@;
        let ghost f = |ym: YearMonth| month_name(ym.month);
        let ghost g = |s: &'static str| s@;
        let ghost old_f = months_of_year(year).take(i as int).filter(pred);
        if owed {
            let name = ym.month.name();
            r.push(name);
            assert(r@ == old_r.push(name));
            assert(r@.map_values(g) =~= old_r.map_values(g).push(name@));
            assert(old_f.push(ym).map_values(f) =~= old_f.map_values(f).push(f(ym)));
        }
        i = i + 1;
        assert(r@.map_values(|s: &'static str| s@) =~= months_of_year(year).take(i as int).filter(
            pred,
        ).map_values(|ym: YearMonth| month_name(ym.month)));
    }
    assert(months_of_year(year).take(12) =~= months_of_year(year));
    r
}

/// The month's fee is paid for or the first day of the month lies in a break.
pub open spec fn month_covered(ctx: PaymentContext, ym: YearMonth) -> bool {
    ctx.paid().contains(ym) || exists|i: int|
        0 <= i < ctx.breaks().len() && break_contains(#[trigger] ctx.breaks()[i], ym.first_day())
}

/// A member is in good standing: administrators and members of exempt roles always
/// are, everyone is while payments are not checked, and otherwise the fee of the
/// current month or of one of the two before it is paid or covered by a break.
pub open spec fn has_paid(user: User, check_payments: bool, ctx: PaymentContext, today: Date) -> bool {
    let cur = YearMonth { year: today.y() as i32, month: today.mon() };
    ||| user.admin_panel_access
    ||| is_exempt_role(user.role_id)
    ||| !check_payments
    ||| exists|ym: YearMonth|
        cur.index() - 2 <= ym.index() <= cur.index() && #[trigger] month_covered(ctx, ym)
}

/// Whether the member is in good standing on `today` (see `has_paid`), with
/// `check_payments` the club's setting and `ctx` the member's payments and breaks.
pub fn check_user_has_paid(user: &User, check_payments: bool, ctx: &PaymentContext, today: Date) -> (r: bool)
    requires
        !(today.y() == MIN_YEAR && today.m() <= 2),
    ensures
        r == has_paid(*user, check_payments, *ctx, today),
{
    if user.admin_panel_access || is_exempt_role_id(user.role_id) {
        return true;
    }
    if !check_payments {
        return true;
    }
    let current = YearMonth::from_date(today);
    let ghost cur = YearMonth { year: today.y() as i32, month: today.mon() };
    assert(current == cur);
    let start = current.prev().prev();
    proof {
        start.lemma_index_bounds();
        current.lemma_index_bounds();
        crate::dates::lemma_month_number_roundtrip(today.mon());
    }
    let months = crate::dates::year_month_range(start, current);
    let mut i: usize = 0;
    while i < months.len()
        invariant
            MIN_YEAR <= current.year <= MAX_YEAR,
            current == cur,
            cur == (YearMonth { year: today.y() as i32, month: today.mon() }),
            start.index() == current.index() - 2,
            start.year >= MIN_YEAR,
            months@.len() == 3,
            forall|j: int| 0 <= j < months@.len() ==> #[trigger] months@[j].index() == start.index() + j,
            i <= months@.len(),
            forall|j: int| 0 <= j < i ==> !month_covered(*ctx, #[trigger] months@[j]),
        decreases months@.len() - i,
    {
        let ym = months[i];
        proof {
            assert(months@[i as int].index() == start.index() + i);
            ym.lemma_index_bounds();
        }
        if ctx.is_month_paid(ym) || ctx.is_month_in_break(ym) {
            assert(month_covered(*ctx, ym));
            assert(cur.index() - 2 <= ym.index() <= cur.index());
            return true;
        }
        i = i + 1;
    }
    proof {
        assert forall|ym: YearMonth| cur.index() - 2 <= ym.index() <= cur.index() implies !#[trigger] month_covered(*ctx, ym) by {
            let j = ym.index() - start.index();
            assert(months@[j].index() == start.index() + j);
            crate::dates::lemma_index_injective(months@[j], ym);
        }
    }
    false
}

/// The debtors among `users`, with `paid` the months of `year` that were paid for,
/// `breaks` the breaks that touch the year and `today` the current date: members of
/// roles that owe fees who owe at least one month, each with the names of the
/// months owed, ordered from most months owed to fewest, those owing as many
/// keeping the order of `users`.
pub fn compute_debtors_from(
    users: Vec<User>,
    paid: &[PaidMonth],
    breaks: &[BreakRow],
    year: i32,
    today: Date,
) -> (r: Vec<DebtorItem>)
    requires
        MIN_YEAR <= year <= MAX_YEAR,
    ensures
        r@.map_values(|d: DebtorItem| item_view(d)) == by_count_desc(
            debtors_in_order(users@, year, paid@, breaks@, today),
            12,
        ),
{
    let ghost all = users@;
    let ghost cand = |u: User|
        !is_exempt_role(u.role_id) && unpaid_names(u, year, paid@, breaks@, today).len() > 0;
    let ghost mk = |u: User| (u, unpaid_names(u, year, paid@, breaks@, today));
    let ghost iv = |d: DebtorItem| item_view(d);
    let mut rest = users;
    let mut items: Vec<DebtorItem> = Vec::new();
    let ghost mut i: int = 0;
    while rest.len() > 0
        invariant
            MIN_YEAR <= year <= MAX_YEAR,
            0 <= i <= all.len(),
            rest@ == all.skip(i),
            cand == (|u: User|
                !is_exempt_role(u.role_id) && unpaid_names(u, year, paid@, breaks@, today).len()
                    > 0),
            mk == (|u: User| (u, unpaid_names(u, year, paid@, breaks@, today))),
            iv == (|d: DebtorItem| item_view(d)),
            items@.map_values(iv) == all.take(i).filter(cand).map_values(mk),
            forall|j: int| 0 <= j < items@.len() ==> 1 <= (#[trigger] items@[j]).unpaid_months@.len() <= 12,
        decreases rest@.len(),
    {
        let ghost old_items = items@;
        let ghost old_f = all.take(i).filter(cand);
        let u = rest.remove(0);
        proof {
            assert(u == all[i]);
            assert(all.take(i + 1) =~= all.take(i).push(u));
            all.take(i).lemma_filter_push(u, cand);
        }
        let mut keep = false;
        if !is_exempt_role_id(u.role_id) {
            let names = unpaid_months_of(&u, year, paid, breaks, today);
            proof {
                let ms = months_of_year(year);
                ms.lemma_filter_len(owes(u, paid@, breaks@, today));
                assert(names@.len() == unpaid_names(u, year, paid@, breaks@, today).len());
            }
            if names.len() > 0 {
                let ghost un = names@;
                items.push(DebtorItem { member: u, unpaid_months: names });
                proof {
                    assert(items@ == old_items.push(DebtorItem { member: u, unpaid_months: names }));
                    assert(items@.map_values(iv) =~= old_items.map_values(iv).push(iv(items@[items@.len() - 1])));
                    assert(old_f.push(u).map_values(mk) =~= old_f.map_values(mk).push(mk(u)));
                }
                keep = true;
            }
        }
        proof {
            if !keep {
                assert(!cand(u));
            }
            i = i + 1;
            assert(rest@ =~= all.skip(i));
        }
    }
    proof {
        assert(all.take(i) =~= all);
    }
    let ghost items0 = items@.map_values(iv);
    let mut out: Vec<DebtorItem> = Vec::new();
    let mut k: usize = 12;
    proof {
        lemma_filter_all(items0, |d: (User, Seq<Seq<char>>)| d.1.len() <= 12);
    }
    while k > 0
        invariant
            k <= 12,
            iv == (|d: DebtorItem| item_view(d)),
            items@.map_values(iv) == items0.filter(|d: (User, Seq<Seq<char>>)| d.1.len() <= k),
            out@.map_values(iv) + by_count_desc(items0, k as nat) == by_count_desc(items0, 12),
            forall|j: int| 0 <= j < items@.len() ==> 1 <= (#[trigger] items@[j]).unpaid_months@.len() <= 12,
        decreases k,
    {
        let ghost le_k = |d: (User, Seq<Seq<char>>)| d.1.len() <= k;
        let ghost eq_k = |d: (User, Seq<Seq<char>>)| d.1.len() == k;
        let ghost ne_k = |d: (User, Seq<Seq<char>>)| d.1.len() != k;
        let ghost le_k1 = |d: (User, Seq<Seq<char>>)| d.1.len() <= k - 1;
        let ghost items_k = items@.map_values(iv);
        let ghost out_start = out@.map_values(iv);
        let mut pending = items;
        let mut next: Vec<DebtorItem> = Vec::new();
        let ghost mut j: int = 0;
        while pending.len() > 0
            invariant
                0 <= j <= items_k.len(),
                iv == (|d: DebtorItem| item_view(d)),
                pending@.map_values(iv) == items_k.skip(j),
                out@.map_values(iv) == out_start + items_k.take(j).filter(eq_k),
                next@.map_values(iv) == items_k.take(j).filter(ne_k),
                eq_k == (|d: (User, Seq<Seq<char>>)| d.1.len() == k),
                ne_k == (|d: (User, Seq<Seq<char>>)| d.1.len() != k),
                forall|t: int| 0 <= t < pending@.len() ==> 1 <= (#[trigger] pending@[t]).unpaid_months@.len() <= 12,
                forall|t: int| 0 <= t < next@.len() ==> 1 <= (#[trigger] next@[t]).unpaid_months@.len() <= 12,
            decreases pending@.len(),
        {
            let ghost old_out = out@;
            let ghost old_next = next@;
            let ghost old_pending = pending@;
            proof {
                assert(old_pending.map_values(iv).len() == old_pending.len());
                assert(j < items_k.len());
            }
            let ghost x = items_k[j];
            let d = pending.remove(0);
            proof {
                assert(old_pending.map_values(iv)[0] == items_k.skip(j)[0]);
                assert(d == old_pending[0]);
                assert forall|t: int| 0 <= t < pending@.len() implies #[trigger] pending@.map_values(iv)[t]
                    == items_k.skip(j + 1)[t] by {
                    assert(pending@[t] == old_pending[t + 1]);
                    assert(old_pending.map_values(iv)[t + 1] == items_k.skip(j)[t + 1]);
                }
                assert(pending@ =~= old_pending.subrange(1, old_pending.len() as int));
                assert(pending@.map_values(iv) =~= items_k.skip(j + 1));
                assert(iv(d) == x);
                assert(items_k.take(j + 1) =~= items_k.take(j).push(x));
                items_k.take(j).lemma_filter_push(x, eq_k);
                items_k.take(j).lemma_filter_push(x, ne_k);
            }
            if d.unpaid_months.len() == k {
                out.push(d);
                proof {
                    assert(out@.map_values(iv) =~= old_out.map_values(iv).push(x));
                }
            } else {
                next.push(d);
                proof {
                    assert(next@.map_values(iv) =~= old_next.map_values(iv).push(x));
                }
            }
            proof {
                j = j + 1;
            }
        }
        proof {
            assert(items_k.take(j) =~= items_k);
            lemma_filter_filter(items0, le_k, eq_k, eq_k);
            lemma_filter_filter(items0, le_k, ne_k, le_k1);
            assert(by_count_desc(items0, k as nat) == items0.filter(eq_k) + by_count_desc(items0, (k - 1) as nat));
            assert(out@.map_values(iv) + by_count_desc(items0, (k - 1) as nat) =~= out_start + by_count_desc(items0, k as nat));
        }
        items = next;
        k = k - 1;
    }
    proof {
        assert(out@.map_values(iv) =~= out@.map_values(iv) + by_count_desc(items0, 0));
    }
    out
}

/// Each debtor in `by_count_desc(items, k)` owes from one to `k` months.
proof fn lemma_by_count_desc_bounds(items: Seq<(User, Seq<Seq<char>>)>, k: nat)
    ensures
        forall|i: int| 0 <= i < by_count_desc(items, k).len()
            ==> 1 <= (#[trigger] by_count_desc(items, k)[i]).1.len() <= k,
    decreases k,
{
    if k > 0 {
        let p = |d: (User, Seq<Seq<char>>)| d.1.len() == k;
        let head = items.filter(p);
        let tail = by_count_desc(items, (k - 1) as nat);
        lemma_by_count_desc_bounds(items, (k - 1) as nat);
        assert forall|i: int| 0 <= i < by_count_desc(items, k).len()
            implies 1 <= (#[trigger] by_count_desc(items, k)[i]).1.len() <= k by {
            if i < head.len() {
                items.lemma_filter_pred(p, i);
            } else {
                assert(by_count_desc(items, k)[i] == tail[i - head.len()]);
            }
        }
    }
}

/// The list of debtors goes from the most months owed to the fewest: no debtor owes
/// more months than one listed before.
pub proof fn lemma_debtors_by_months_owed(
    users: Seq<User>,
    year: i32,
    paid: Seq<PaidMonth>,
    breaks: Seq<BreakRow>,
    today: Date,
)
    ensures
        forall|i: int, j: int|
            0 <= i < j < by_count_desc(debtors_in_order(users, year, paid, breaks, today), 12).len()
                ==> (#[trigger] by_count_desc(debtors_in_order(users, year, paid, breaks, today), 12)[i]).1.len()
                    >= (#[trigger] by_count_desc(debtors_in_order(users, year, paid, breaks, today), 12)[j]).1.len(),
{
    lemma_by_count_desc_sorted(debtors_in_order(users, year, paid, breaks, today), 12);
}

/// `by_count_desc` lists more months owed before fewer.
proof fn lemma_by_count_desc_sorted(items: Seq<(User, Seq<Seq<char>>)>, k: nat)
    ensures
        forall|i: int, j: int| 0 <= i < j < by_count_desc(items, k).len()
            ==> (#[trigger] by_count_desc(items, k)[i]).1.len() >= (#[trigger] by_count_desc(items, k)[j]).1.len(),
    decreases k,
{
    if k > 0 {
        let p = |d: (User, Seq<Seq<char>>)| d.1.len() == k;
        let head = items.filter(p);
        let tail = by_count_desc(items, (k - 1) as nat);
        let all = by_count_desc(items, k);
        assert(all == head + tail);
        lemma_by_count_desc_sorted(items, (k - 1) as nat);
        lemma_by_count_desc_bounds(items, (k - 1) as nat);
        assert forall|i: int, j: int| 0 <= i < j < all.len()
            implies (#[trigger] all[i]).1.len() >= (#[trigger] all[j]).1.len() by {
            if j < head.len() {
                items.lemma_filter_pred(p, i);
                items.lemma_filter_pred(p, j);
            } else if i < head.len() {
                items.lemma_filter_pred(p, i);
                assert(all[j] == tail[j - head.len()]);
                assert(1 <= tail[j - head.len()].1.len() <= k - 1);
            } else {
                assert(all[i] == tail[i - head.len()]);
                assert(all[j] == tail[j - head.len()]);
            }
        }
    }
}

} // verus!
