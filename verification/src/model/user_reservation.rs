//! A member's own bookings, and counts of bookings.
use crate::dates::{local_time, lemma_index_injective, Date, DateHour, Month, YearMonth};
use crate::seqs::{lemma_filter_all, lemma_filter_filter};
use vstd::prelude::*;

verus! {

broadcast use vstd::seq_lib::group_seq_properties;

/// One of a member's bookings.
#[derive(Clone, Copy)]
pub struct UserReservation {
    pub date: Date,
    pub hour: i64,
    pub as_guest: bool,
    pub cancelled: bool,
    pub in_waiting: bool,
    pub created_at: time::OffsetDateTime,
}

/// The booking can still be cancelled at `now`: it is not cancelled and its slot
/// starts on a later day, or today at or after the current hour (its hour narrowed
/// to a byte).
pub open spec fn cancellable_at(r: UserReservation, now: DateHour) -> bool {
    !r.cancelled && (now.date.is_before(r.date) || (r.date == now.date && r.hour as u8 >= now.hour))
}

impl UserReservation {
    /// Whether the booking can still be cancelled at `now`.
    pub fn is_cancellable_at(&self, now: DateHour) -> (r: bool)
        ensures
            r == cancellable_at(*self, now),
    {
        let now_date = now.date;
        !self.cancelled && (now_date.before(&self.date) || (self.date == now_date
            && #[verifier::truncate] (self.hour as u8) >= now.hour))
    }

    /// Whether the booking can still be cancelled now.
    pub fn is_cancellable(&self) -> (r: bool)
        ensures
            exists|now: DateHour| r == cancellable_at(*self, now),
    {
        let now = local_time();
        self.is_cancellable_at(now)
    }
}

/// Only bookings that are not cancelled and whose slot has not started can be
/// cancelled: a booking on a day before `now`'s is never cancellable, one on a later
/// day is, unless cancelled already, and on `now`'s own day the slot's hour decides.
pub proof fn lemma_cancellable_only_ahead(r: UserReservation, now: DateHour)
    requires
        r.date.wf(),
        now.date.wf(),
    ensures
        r.cancelled ==> !cancellable_at(r, now),
        r.date.is_before(now.date) ==> !cancellable_at(r, now),
        now.date.is_before(r.date) ==> (cancellable_at(r, now) <==> !r.cancelled),
        r.date == now.date ==> (cancellable_at(r, now) <==> !r.cancelled && r.hour as u8 >= now.hour),
{
    crate::dates::lemma_before_irreflexive(r.date);
    if r.date.is_before(now.date) && now.date.is_before(r.date) {
        crate::dates::lemma_before_trans(r.date, now.date, r.date);
    }
}

/// The month of a booking.
pub open spec fn month_of(r: UserReservation) -> YearMonth {
    YearMonth { year: r.date.y() as i32, month: r.date.mon() }
}

/// The booking falls in month `m`.
pub open spec fn in_month(m: YearMonth) -> spec_fn(UserReservation) -> bool {
    |r: UserReservation| month_of(r) == m
}

/// The booking falls in a month before the one with index `bound`.
pub open spec fn before_index(bound: int) -> spec_fn(UserReservation) -> bool {
    |r: UserReservation| month_of(r).index() < bound
}

/// A member's bookings of one month.
pub struct GroupedUserReservations {
    pub year: i32,
    pub month: Month,
    pub reservations: Vec<UserReservation>,
}

pub open spec fn group_key(g: GroupedUserReservations) -> YearMonth {
    YearMonth { year: g.year, month: g.month }
}

/// `groups` holds the bookings month by month: latest month first, one group per
/// month that has bookings, each with that month's bookings in their order.
pub open spec fn grouped_by_month(groups: Seq<GroupedUserReservations>, input: Seq<UserReservation>) -> bool {
    &&& forall|i: int, j: int| 0 <= i < j < groups.len() ==> group_key(#[trigger] groups[j]).is_before(group_key(#[trigger] groups[i]))
    &&& forall|i: int| 0 <= i < groups.len() ==> (#[trigger] groups[i]).reservations@ == input.filter(in_month(group_key(groups[i])))
        && groups[i].reservations@.len() > 0
    &&& forall|k: int| 0 <= k < input.len() ==> exists|i: int| 0 <= i < groups.len() && group_key(#[trigger] groups[i]) == month_of(#[trigger] input[k])
}

fn month_of_reservation(r: &UserReservation) -> (m: YearMonth)
    ensures
        m == month_of(*r),
{
    YearMonth::from_date(r.date)
}

/// The booking is below the bound, or there is no bound yet.
pub open spec fn below(bound: Option<int>) -> spec_fn(UserReservation) -> bool {
    |r: UserReservation| match bound {
        None => true,
        Some(b) => month_of(r).index() < b,
    }
}

/// The bookings of `remaining` in month `m`, and the others, in order.
fn split_month(remaining: &Vec<UserReservation>, m: YearMonth) -> (r: (Vec<UserReservation>, Vec<UserReservation>))
    ensures
        r.0@ == remaining@.filter(in_month(m)),
        r.1@ == remaining@.filter(|x: UserReservation| month_of(x) != m),
        r.0@.len() + r.1@.len() == remaining@.len(),
{
    let ghost not_m = |x: UserReservation| month_of(x) != m;
    let mut group: Vec<UserReservation> = Vec::new();
    let mut rest: Vec<UserReservation> = Vec::new();
    let mut i: usize = 0;
    while i < remaining.len()
        invariant
            i <= remaining@.len(),
            not_m == (|x: UserReservation| month_of(x) != m),
            group@ == remaining@.take(i as int).filter(in_month(m)),
            rest@ == remaining@.take(i as int).filter(not_m),
            group@.len() + rest@.len() == i,
        decreases remaining@.len() - i,
    {
        let x = remaining[i];
        proof {
            assert(remaining@.take(i + 1) =~= remaining@.take(i as int).push(x));
            remaining@.take(i as int).lemma_filter_push(x, in_month(m));
            remaining@.take(i as int).lemma_filter_push(x, not_m);
        }
        let mx = month_of_reservation(&x);
        if mx == m {
            group.push(x);
        } else {
            rest.push(x);
        }
        i = i + 1;
    }
    assert(remaining@.take(remaining@.len() as int) =~= remaining@);
    (group, rest)
}

/// The position of a booking of the latest month among `v`.
fn latest_month(v: &Vec<UserReservation>) -> (r: usize)
    requires
        v@.len() > 0,
    ensures
        r < v@.len(),
        forall|j: int| 0 <= j < v@.len() ==> month_of(#[trigger] v@[j]).index() <= month_of(v@[r as int]).index(),
{
    let mut best: usize = 0;
    let mut best_m = month_of_reservation(&v[0]);
    let mut i: usize = 1;
    while i < v.len()
        invariant
            1 <= i <= v@.len(),
            best < v@.len(),
            best_m == month_of(v@[best as int]),
            forall|j: int| 0 <= j < i ==> month_of(#[trigger] v@[j]).index() <= best_m.index(),
        decreases v@.len() - i,
    {
        let m = month_of_reservation(&v[i]);
        if best_m.before(&m) {
            best = i;
            best_m = m;
        }
        i = i + 1;
    }
    best
}

/// A member's bookings grouped by month, latest month first.
pub fn group_by_month(input: &Vec<UserReservation>) -> (r: Vec<GroupedUserReservations>)
    ensures
        grouped_by_month(r@, input@),
{
    let mut remaining: Vec<UserReservation> = input.clone();
    let mut out: Vec<GroupedUserReservations> = Vec::new();
    let ghost mut bound: Option<int> = None;
    proof {
        assert(remaining@ =~= input@);
        lemma_filter_all(input@, below(bound));
    }
    while remaining.len() > 0
        invariant
            remaining@ == input@.filter(below(bound)),
            bound is None <==> out@.len() == 0,
            out@.len() > 0 ==> bound == Some(group_key(out@[out@.len() - 1]).index()),
            forall|i: int, j: int| 0 <= i < j < out@.len() ==> group_key(#[trigger] out@[j]).is_before(group_key(#[trigger] out@[i])),
            forall|i: int| 0 <= i < out@.len() ==> (#[trigger] out@[i]).reservations@ == input@.filter(in_month(group_key(out@[i])))
                && out@[i].reservations@.len() > 0,
            forall|k: int| 0 <= k < input@.len() && !(below(bound))(#[trigger] input@[k]) ==> exists|i: int|
                0 <= i < out@.len() && group_key(#[trigger] out@[i]) == month_of(input@[k]),
        decreases remaining@.len(),
    {
        let best = latest_month(&remaining);
        let m = month_of_reservation(&remaining[best]);
        let ghost not_m = |x: UserReservation| month_of(x) != m;
        let ghost new_bound = Some(m.index());
        let (group, rest) = split_month(&remaining, m);
        proof {
            let inp = input@;
            let rem = remaining@;
            assert(rem == inp.filter(below(bound)));
            inp.lemma_filter_pred(below(bound), best as int);
            assert(m == month_of(rem[best as int]));
            // the month is below the old bound
            assert(bound matches Some(b) ==> m.index() < b);
            // the group holds every booking of the month
            assert forall|i: int| 0 <= i < inp.len() implies #[trigger] (in_month(m))(inp[i]) == ((below(bound))(inp[i]) && (in_month(m))(inp[i])) by {
            }
            lemma_filter_filter(inp, below(bound), in_month(m), in_month(m));
            // the rest holds the bookings of earlier months
            assert forall|i: int| 0 <= i < inp.len() implies #[trigger] (below(new_bound))(inp[i]) == ((below(bound))(inp[i]) && not_m(inp[i])) by {
                let x = inp[i];
                if (below(bound))(x) {
                    inp.lemma_filter_contains(below(bound), i);
                    let t = choose|t: int| 0 <= t < rem.len() && rem[t] == x;
                    assert(month_of(rem[t]).index() <= m.index());
                    if month_of(x).index() == m.index() {
                        lemma_index_injective(month_of(x), m);
                    }
                }
                if month_of(x) == m {
                    assert(month_of(x).index() == m.index());
                }
            }
            lemma_filter_filter(inp, below(bound), not_m, below(new_bound));
            // the group is not empty
            rem.lemma_filter_contains(in_month(m), best as int);
            assert(group@.len() > 0);
        }
        let ghost old_out = out@;
        let ghost old_bound = bound;
        out.push(GroupedUserReservations { year: m.year, month: m.month, reservations: group });
        proof {
            let inp = input@;
            let rem = remaining@;
            bound = new_bound;
            assert(group_key(out@[out@.len() - 1]) == m);
            assert forall|i: int, j: int| 0 <= i < j < out@.len() implies group_key(#[trigger] out@[j]).is_before(group_key(#[trigger] out@[i])) by {
                if j == out@.len() - 1 && i < j {
                    if i < old_out.len() - 1 {
                        assert(group_key(old_out[old_out.len() - 1]).is_before(group_key(old_out[i])));
                    }
                    assert(out@[i] == old_out[i]);
                } else {
                    assert(out@[i] == old_out[i]);
                    assert(out@[j] == old_out[j]);
                }
            }
            assert forall|i: int| 0 <= i < out@.len() implies (#[trigger] out@[i]).reservations@ == inp.filter(in_month(group_key(out@[i])))
                && out@[i].reservations@.len() > 0 by {
                if i < old_out.len() {
                    assert(out@[i] == old_out[i]);
                }
            }
            assert forall|k: int| 0 <= k < inp.len() && !(below(bound))(#[trigger] inp[k]) implies exists|i: int|
                0 <= i < out@.len() && group_key(#[trigger] out@[i]) == month_of(inp[k]) by {
                let x = inp[k];
                if !(below(old_bound))(x) {
                    let i = choose|i: int| 0 <= i < old_out.len() && group_key(#[trigger] old_out[i]) == month_of(inp[k]);
                    assert(out@[i] == old_out[i]);
                } else {
                    inp.lemma_filter_contains(below(old_bound), k);
                    let t = choose|t: int| 0 <= t < rem.len() && rem[t] == x;
                    assert(month_of(rem[t]).index() <= m.index());
                    lemma_index_injective(month_of(x), m);
                    assert(group_key(out@[out@.len() - 1]) == month_of(inp[k]));
                }
            }
        }
        remaining = rest;
    }
    proof {
        let inp = input@;
        assert forall|k: int| 0 <= k < inp.len() implies exists|i: int| 0 <= i < out@.len() && group_key(#[trigger] out@[i]) == month_of(#[trigger] inp[k]) by {
            if (below(bound))(inp[k]) {
                inp.lemma_filter_contains(below(bound), k);
            }
        }
    }
    out
}

/// Bookings counted in own names and as guests.
#[derive(Debug, Default, Clone, Copy, PartialEq, Eq, Structural)]
pub struct ReservationsCount {
    pub member: i64,
    pub guest: i64,
}

/// A count of bookings for one kind, as the store groups them.
#[derive(Clone, Copy)]
pub struct CountRow {
    pub as_guest: bool,
    pub count: i64,
}

/// The count of the last row of a kind, or zero when there is none.
pub open spec fn last_count(rows: Seq<CountRow>, as_guest: bool) -> i64
    decreases rows.len(),
{
    if rows.len() == 0 {
        0
    } else if rows.last().as_guest == as_guest {
        rows.last().count
    } else {
        last_count(rows.drop_last(), as_guest)
    }
}

impl ReservationsCount {
    /// The counts that the store's rows give: each kind takes the count of its
    /// (last) row, and zero without one.
    pub fn from_rows(rows: &[CountRow]) -> (r: ReservationsCount)
        ensures
            r.member == last_count(rows@, false),
            r.guest == last_count(rows@, true),
    {
        let mut result = ReservationsCount { member: 0, guest: 0 };
        let mut i: usize = 0;
        while i < rows.len()
            invariant
                i <= rows@.len(),
                result.member == last_count(rows@.take(i as int), false),
                result.guest == last_count(rows@.take(i as int), true),
            decreases rows@.len() - i,
        {
            let row = rows[i];
            assert(rows@.take(i + 1).drop_last() =~= rows@.take(i as int));
            if row.as_guest {
                result.guest = row.count;
            } else {
                result.member = row.count;
            }
            i = i + 1;
        }
        assert(rows@.take(rows@.len() as int) =~= rows@);
        result
    }
}

} // verus!
