//! Pairing closed deals of the two accounts for the "paired history" view: a
//! deal of the first account is paired with the unused deal of the second
//! account with the same symbol and volume whose time is nearest (at most ten
//! minutes apart), and the pairs are listed most recent first.
use vstd::prelude::*;

use crate::bridge::str_or_empty;
use crate::json::{array_items, array_items_of, field_i64, field_str, i64_of, json_field, spec_json_field};
use crate::text::str_eq;

verus! {

/// The most seconds between the two deals of a pair.
pub const MAX_PAIR_TIME_DIFF: i64 = 600;

/// A closed deal, as far as pairing reads it.
#[derive(Debug)]
pub struct ClosedDeal {
    /// The deal time in seconds.
    pub time: i64,
    pub symbol: String,
}

/// What pairing reads of one deal of a `history_deals` reply: its `time`
/// (0 when it is not an `i64`) and its `symbol` (empty when not a string).
pub open spec fn spec_closed_deal(item: Seq<char>) -> (i64, Seq<char>) {
    (
        match i64_of(spec_json_field(item, "time"@)) {
            Some(t) => t,
            None => 0,
        },
        str_or_empty(item, "symbol"@),
    )
}

/// The deals of a `history_deals` reply (its `deals` array; none when there
/// is no such array), as pairing reads them, in order.
pub fn closed_deals(reply: &str) -> (r: Vec<ClosedDeal>)
    ensures
        r@.len() == array_items(reply@, "deals"@).len(),
        forall|k: int|
            0 <= k < r@.len() ==> ((#[trigger] r@[k]).time, r@[k].symbol@) == spec_closed_deal(
                array_items(reply@, "deals"@)[k],
            ),
{
    let items = array_items_of(reply, "deals");
    let ghost all = crate::lexorder::views(items@);
    let mut r: Vec<ClosedDeal> = Vec::new();
    let mut i: usize = 0;
    while i < items.len()
        invariant
            i <= items.len(),
            all == crate::lexorder::views(items@),
            r@.len() == i,
            forall|k: int| 0 <= k < i ==> ((#[trigger] r@[k]).time, r@[k].symbol@) == spec_closed_deal(all[k]),
        decreases items.len() - i,
    {
        let item = items[i].as_str();
        let time = match field_i64(&json_field(item, "time")) {
            Some(t) => t,
            None => 0,
        };
        let symbol = match field_str(&json_field(item, "symbol")) {
            Some(s) => s,
            None => String::new(),
        };
        r.push(ClosedDeal { time, symbol });
        i += 1;
    }
    r
}

/// The distance between two times.
pub open spec fn time_diff(a: i64, b: i64) -> int {
    if a >= b {
        a - b
    } else {
        b - a
    }
}

/// What pairing reads of the deals: times and symbols of both accounts, and
/// whether the volumes of deal `i` (first account) and deal `j` (second
/// account) are equal within the tolerance (`volume_close[i][j]`).
pub struct DealsView {
    pub t0: Seq<i64>,
    pub s0: Seq<Seq<char>>,
    pub t1: Seq<i64>,
    pub s1: Seq<Seq<char>>,
    pub volume_close: Seq<Seq<bool>>,
}

impl DealsView {
    /// Deal `j` of the second account can be paired with deal `i` of the first,
    /// given which second-account deals are used already.
    pub open spec fn is_candidate(self, used: Seq<bool>, i: int, j: int) -> bool {
        &&& 0 <= j < self.t1.len()
        &&& !used[j]
        &&& self.s0[i] == self.s1[j]
        &&& self.volume_close[i][j]
        &&& time_diff(self.t0[i], self.t1[j]) <= MAX_PAIR_TIME_DIFF
    }

    /// Deal `j` is the candidate nearest in time to deal `i`; among equally
    /// near ones, the first.
    pub open spec fn is_best(self, used: Seq<bool>, i: int, j: int) -> bool {
        &&& self.is_candidate(used, i, j)
        &&& forall|k: int|
            #[trigger] self.is_candidate(used, i, k) ==> time_diff(self.t0[i], self.t1[j])
                < time_diff(self.t0[i], self.t1[k]) || (time_diff(self.t0[i], self.t1[j])
                == time_diff(self.t0[i], self.t1[k]) && j <= k)
    }

    /// The pairs `(i, j)` made for the first `n` deals of the first account,
    /// taken in order, and which second-account deals they used.
    pub open spec fn greedy(self, n: nat) -> (Seq<(int, int)>, Seq<bool>)
        decreases n,
    {
        if n == 0 {
            (Seq::empty(), Seq::new(self.t1.len(), |j: int| false))
        } else {
            let prev = self.greedy((n - 1) as nat);
            let i = n - 1;
            if exists|j: int| self.is_best(prev.1, i, j) {
                let j = choose|j: int| self.is_best(prev.1, i, j);
                (prev.0.push((i, j)), prev.1.update(j, true))
            } else {
                prev
            }
        }
    }

    /// The time by which a pair is ordered: the later of its two deals.
    pub open spec fn recency(self, m: (int, int)) -> int {
        if self.t0[m.0] >= self.t1[m.1] {
            self.t0[m.0] as int
        } else {
            self.t1[m.1] as int
        }
    }

    proof fn lemma_best_unique(self, used: Seq<bool>, i: int, j1: int, j2: int)
        requires
            self.is_best(used, i, j1),
            self.is_best(used, i, j2),
        ensures
            j1 == j2,
    {
        assert(self.is_candidate(used, i, j2));
        assert(self.is_candidate(used, i, j1));
    }

    /// Every pair made joins deals with the same symbol, close volumes and at
    /// most ten minutes apart, and no deal of the second account is paired twice.
    pub proof fn lemma_greedy_pairs_valid(self, n: nat)
        requires
            n <= self.t0.len(),
        ensures
            forall|k: int|
                0 <= k < self.greedy(n).0.len() ==> {
                    let (i, j) = #[trigger] self.greedy(n).0[k];
                    &&& self.s0[i] == self.s1[j]
                    &&& self.volume_close[i][j]
                    &&& time_diff(self.t0[i], self.t1[j]) <= MAX_PAIR_TIME_DIFF
                },
            forall|k: int, l: int|
                0 <= k < l < self.greedy(n).0.len() ==> (#[trigger] self.greedy(n).0[k]).1 != (
                #[trigger] self.greedy(n).0[l]).1,
            forall|j: int|
                0 <= j < self.t1.len() ==> (#[trigger] self.greedy(n).1[j] <==> exists|k: int|
                    0 <= k < self.greedy(n).0.len() && self.greedy(n).0[k].1 == j),
        decreases n,
    {
        if n > 0 {
            self.lemma_greedy_pairs_valid((n - 1) as nat);
            self.lemma_greedy_shape((n - 1) as nat);
            let prev = self.greedy((n - 1) as nat);
            let i = n - 1;
            if exists|j: int| self.is_best(prev.1, i, j) {
                let j = choose|j: int| self.is_best(prev.1, i, j);
                let cur = self.greedy(n);
                assert(cur.0 == prev.0.push((i, j)));
                assert(!prev.1[j]);
                assert forall|k: int, l: int| 0 <= k < l < cur.0.len() implies (#[trigger] cur.0[k]).1
                    != (#[trigger] cur.0[l]).1 by {
                    if l == prev.0.len() {
                        assert(cur.0[k] == prev.0[k]);
                        if prev.0[k].1 == j {
                            assert(prev.1[j]);
                        }
                    } else {
                        assert(cur.0[k] == prev.0[k] && cur.0[l] == prev.0[l]);
                    }
                }
                assert forall|jj: int| 0 <= jj < self.t1.len() implies (#[trigger] cur.1[jj] <==> exists|k: int|
                    0 <= k < cur.0.len() && cur.0[k].1 == jj) by {
                    if jj == j {
                        assert(cur.0[prev.0.len() as int].1 == jj);
                    } else {
                        if prev.1[jj] {
                            let k = choose|k: int| 0 <= k < prev.0.len() && prev.0[k].1 == jj;
                            assert(cur.0[k] == prev.0[k]);
                        }
                        if exists|k: int| 0 <= k < cur.0.len() && cur.0[k].1 == jj {
                            let k = choose|k: int| 0 <= k < cur.0.len() && cur.0[k].1 == jj;
                            assert(k < prev.0.len());
                            assert(prev.0[k] == cur.0[k]);
                        }
                    }
                }
                assert forall|k: int| 0 <= k < cur.0.len() implies {
                    let (a, b) = #[trigger] cur.0[k];
                    &&& self.s0[a] == self.s1[b]
                    &&& self.volume_close[a][b]
                    &&& time_diff(self.t0[a], self.t1[b]) <= MAX_PAIR_TIME_DIFF
                } by {
                    if k < prev.0.len() {
                        assert(cur.0[k] == prev.0[k]);
                    }
                }
            }
        }
    }

    proof fn lemma_greedy_shape(self, n: nat)
        ensures
            self.greedy(n).1.len() == self.t1.len(),
            forall|k: int|
                0 <= k < self.greedy(n).0.len() ==> 0 <= (#[trigger] self.greedy(n).0[k]).0 < n
                    && 0 <= self.greedy(n).0[k].1 < self.t1.len(),
            forall|k: int, l: int|
                0 <= k < l < self.greedy(n).0.len() ==> (#[trigger] self.greedy(n).0[k]).0
                    < (#[trigger] self.greedy(n).0[l]).0,
        decreases n,
    {
        if n > 0 {
            self.lemma_greedy_shape((n - 1) as nat);
        }
    }
}

/// The view of a list of deals' times.
pub open spec fn times(d: Seq<ClosedDeal>) -> Seq<i64> {
    d.map_values(|x: ClosedDeal| x.time)
}

/// The view of a list of deals' symbols.
pub open spec fn deal_symbols(d: Seq<ClosedDeal>) -> Seq<Seq<char>> {
    d.map_values(|x: ClosedDeal| x.symbol@)
}

/// The view of the volume tolerance matrix.
pub open spec fn matrix_view(m: Seq<Vec<bool>>) -> Seq<Seq<bool>> {
    m.map_values(|row: Vec<bool>| row@)
}

/// The pairing view of two deal lists and their volume matrix.
pub open spec fn deals_view(d0: Seq<ClosedDeal>, d1: Seq<ClosedDeal>, close: Seq<Vec<bool>>) -> DealsView {
    DealsView {
        t0: times(d0),
        s0: deal_symbols(d0),
        t1: times(d1),
        s1: deal_symbols(d1),
        volume_close: matrix_view(close),
    }
}

/// `r` lists the pairs `m` most recent first; pairs equally recent keep their
/// order in `m`.
pub open spec fn sorted_most_recent_first(dv: DealsView, m: Seq<(int, int)>, r: Seq<(int, int)>) -> bool {
    &&& r.len() == m.len()
    &&& forall|x: (int, int)| r.contains(x) <==> m.contains(x)
    &&& forall|k: int, l: int|
        0 <= k < l < r.len() ==> dv.recency(#[trigger] r[k]) > dv.recency(#[trigger] r[l]) || (
        dv.recency(r[k]) == dv.recency(r[l]) && r[k].0 < r[l].0)
}

/// The view of the pairing result.
pub open spec fn index_pairs(v: Seq<(usize, usize)>) -> Seq<(int, int)> {
    v.map_values(|p: (usize, usize)| (p.0 as int, p.1 as int))
}

/// The best unused partner of deal `i`, if it has one.
fn best_partner(
    d0: &Vec<ClosedDeal>,
    d1: &Vec<ClosedDeal>,
    close: &Vec<Vec<bool>>,
    used: &Vec<bool>,
    i: usize,
) -> (r: Option<usize>)
    requires
        i < d0.len(),
        close.len() == d0.len(),
        forall|a: int| 0 <= a < close.len() ==> (#[trigger] close@[a])@.len() == d1.len(),
        used.len() == d1.len(),
    ensures
        ({
            let dv = deals_view(d0@, d1@, close@);
            match r {
                Some(j) => dv.is_best(used@, i as int, j as int),
                None => !exists|j: int| dv.is_candidate(used@, i as int, j),
            }
        }),
{
    let ghost dv = deals_view(d0@, d1@, close@);
    let t0 = d0[i].time;
    let mut best: Option<usize> = None;
    let mut best_diff: i128 = (MAX_PAIR_TIME_DIFF as i128) + 1;
    let mut j: usize = 0;
    while j < d1.len()
        invariant
            j <= d1.len(),
            i < d0.len(),
            dv == deals_view(d0@, d1@, close@),
            t0 == dv.t0[i as int],
            close.len() == d0.len(),
            forall|a: int| 0 <= a < close.len() ==> (#[trigger] close@[a])@.len() == d1.len(),
            used.len() == d1.len(),
            match best {
                Some(b) => b < j && best_diff == time_diff(t0, dv.t1[b as int]) && dv.is_candidate(
                    used@,
                    i as int,
                    b as int,
                ) && forall|k: int|
                    0 <= k < j && #[trigger] dv.is_candidate(used@, i as int, k) ==> best_diff
                        < time_diff(t0, dv.t1[k]) || (best_diff == time_diff(t0, dv.t1[k]) && b
                        <= k),
                None => best_diff == MAX_PAIR_TIME_DIFF + 1 && forall|k: int|
                    0 <= k < j ==> !#[trigger] dv.is_candidate(used@, i as int, k),
            },
        decreases d1.len() - j,
    {
        assert(dv.t1[j as int] == d1@[j as int].time);
        assert(dv.s0[i as int] == d0@[i as int].symbol@);
        assert(dv.s1[j as int] == d1@[j as int].symbol@);
        assert(dv.volume_close[i as int] == close@[i as int]@);
        if !used[j] && str_eq(d0[i].symbol.as_str(), d1[j].symbol.as_str()) && close[i][j] {
            let t1 = d1[j].time;
            let diff: i128 = if t0 >= t1 {
                (t0 as i128) - (t1 as i128)
            } else {
                (t1 as i128) - (t0 as i128)
            };
            if diff <= MAX_PAIR_TIME_DIFF as i128 && diff < best_diff {
                best_diff = diff;
                best = Some(j);
            }
        }
        j += 1;
    }
    match best {
        Some(b) => {
            assert forall|k: int| #[trigger] dv.is_candidate(used@, i as int, k) implies time_diff(
                dv.t0[i as int],
                dv.t1[b as int],
            ) < time_diff(dv.t0[i as int], dv.t1[k]) || (time_diff(dv.t0[i as int], dv.t1[b as int])
                == time_diff(dv.t0[i as int], dv.t1[k]) && b <= k) by {}
        },
        None => {},
    }
    best
}

/// Pairs the deals of the two accounts: each deal of the first account, in
/// order, takes the nearest-in-time unused deal of the second account with the
/// same symbol and a close volume, at most ten minutes away. The pairs
/// `(first-account deal, second-account deal)` are listed most recent first.
pub fn pair_closed_deals(d0: &Vec<ClosedDeal>, d1: &Vec<ClosedDeal>, volume_close: &Vec<Vec<bool>>) -> (r: Vec<(usize, usize)>)
    requires
        volume_close.len() == d0.len(),
        forall|a: int| 0 <= a < volume_close.len() ==> (#[trigger] volume_close@[a])@.len() == d1.len(),
    ensures
        ({
            let dv = deals_view(d0@, d1@, volume_close@);
            sorted_most_recent_first(dv, dv.greedy(d0@.len()).0, index_pairs(r@))
        }),
{
    let ghost dv = deals_view(d0@, d1@, volume_close@);
    let mut used: Vec<bool> = Vec::new();
    let mut k: usize = 0;
    while k < d1.len()
        invariant
            k <= d1.len(),
            used@ =~= Seq::new(k as nat, |j: int| false),
        decreases d1.len() - k,
    {
        used.push(false);
        k += 1;
    }
    assert(used@ =~= dv.greedy(0).1);
    let mut matched: Vec<(usize, usize)> = Vec::new();
    let mut i: usize = 0;
    while i < d0.len()
        invariant
            i <= d0.len(),
            dv == deals_view(d0@, d1@, volume_close@),
            volume_close.len() == d0.len(),
            forall|a: int| 0 <= a < volume_close.len() ==> (#[trigger] volume_close@[a])@.len() == d1.len(),
            used.len() == d1.len(),
            (index_pairs(matched@), used@) == dv.greedy(i as nat),
        decreases d0.len() - i,
    {
        let ghost prev = dv.greedy(i as nat);
        proof {
            dv.lemma_greedy_shape(i as nat);
        }
        match best_partner(d0, d1, volume_close, &used, i) {
            Some(j) => {
                proof {
                    let c = choose|c: int| dv.is_best(prev.1, i as int, c);
                    dv.lemma_best_unique(prev.1, i as int, c, j as int);
                }
                matched.push((i, j));
                used.set(j, true);
                assert(index_pairs(matched@) =~= prev.0.push((i as int, j as int)));
            },
            None => {
                assert(!exists|c: int| dv.is_best(prev.1, i as int, c));
            },
        }
        i += 1;
    }
    let ghost m = index_pairs(matched@);
    proof {
        dv.lemma_greedy_shape(d0@.len());
        let g = dv.greedy(d0@.len()).0;
        assert(m == g);
        assert forall|k: int| 0 <= k < matched@.len() implies (#[trigger] matched@[k]).0 < d0.len()
            && matched@[k].1 < d1.len() by {
            assert(m[k] == (matched@[k].0 as int, matched@[k].1 as int));
            assert(g[k] == m[k]);
        }
        assert forall|k: int, l: int| 0 <= k < l < matched@.len() implies (
        #[trigger] matched@[k]).0 < (#[trigger] matched@[l]).0 by {
            assert(m[k] == (matched@[k].0 as int, matched@[k].1 as int));
            assert(m[l] == (matched@[l].0 as int, matched@[l].1 as int));
            assert(g[k] == m[k] && g[l] == m[l]);
        }
    }
    sort_by_recency(d0, d1, &mut matched, Ghost(dv));
    matched
}

/// The time by which a pair is ordered.
fn pair_recency(d0: &Vec<ClosedDeal>, d1: &Vec<ClosedDeal>, p: (usize, usize), Ghost(dv): Ghost<DealsView>) -> (r: i64)
    requires
        p.0 < d0.len(),
        p.1 < d1.len(),
        dv.t0 == times(d0@),
        dv.t1 == times(d1@),
    ensures
        r == dv.recency((p.0 as int, p.1 as int)),
{
    let a = d0[p.0].time;
    let b = d1[p.1].time;
    if a >= b {
        a
    } else {
        b
    }
}

/// Sorts the pairs most recent first; pairs equally recent keep their order.
fn sort_by_recency(d0: &Vec<ClosedDeal>, d1: &Vec<ClosedDeal>, v: &mut Vec<(usize, usize)>, Ghost(dv): Ghost<DealsView>)
    requires
        dv.t0 == times(d0@),
        dv.t1 == times(d1@),
        forall|k: int|
            0 <= k < old(v)@.len() ==> (#[trigger] old(v)@[k]).0 < d0.len() && old(v)@[k].1 < d1.len(),
        forall|k: int, l: int| 0 <= k < l < old(v)@.len() ==> (#[trigger] old(v)@[k]).0 < (#[trigger] old(v)@[l]).0,
    ensures
        sorted_most_recent_first(dv, index_pairs(old(v)@), index_pairs(final(v)@)),
{
    let ghost orig = index_pairs(v@);
    let n = v.len();
    let mut out: Vec<(usize, usize)> = Vec::new();
    let mut i: usize = 0;
    while i < n
        invariant
            i <= n,
            n == v.len(),
            orig == index_pairs(v@),
            dv.t0 == times(d0@),
            dv.t1 == times(d1@),
            forall|k: int| 0 <= k < v@.len() ==> (#[trigger] v@[k]).0 < d0.len() && v@[k].1 < d1.len(),
            forall|k: int, l: int| 0 <= k < l < v@.len() ==> (#[trigger] v@[k]).0 < (#[trigger] v@[l]).0,
            forall|k: int| 0 <= k < out@.len() ==> (#[trigger] out@[k]).0 < d0.len() && out@[k].1 < d1.len(),
            sorted_most_recent_first(dv, orig.take(i as int), index_pairs(out@)),
        decreases n - i,
    {
        let x = v[i];
        let kx = pair_recency(d0, d1, x, Ghost(dv));
        // insert after every pair at least as recent
        let mut k: usize = 0;
        while k < out.len() && pair_recency(d0, d1, out[k], Ghost(dv)) >= kx
            invariant
                k <= out.len(),
                dv.t0 == times(d0@),
                dv.t1 == times(d1@),
                forall|q: int| 0 <= q < out@.len() ==> (#[trigger] out@[q]).0 < d0.len() && out@[q].1 < d1.len(),
                x.0 < d0.len() && x.1 < d1.len(),
                kx == dv.recency((x.0 as int, x.1 as int)),
                forall|q: int| 0 <= q < k ==> dv.recency(#[trigger] index_pairs(out@)[q]) >= kx,
            decreases out.len() - k,
        {
            k += 1;
        }
        let ghost before = index_pairs(out@);
        let ghost xv = (x.0 as int, x.1 as int);
        out.insert(k, x);
        let ghost after = index_pairs(out@);
        assert(after =~= before.insert(k as int, xv));
        assert(orig.take(i + 1) =~= orig.take(i as int).push(xv));
        proof {
            // every pair already placed came earlier in `v`, so has a smaller first index
            assert forall|q: int| 0 <= q < before.len() implies (#[trigger] before[q]).0 < xv.0 by {
                assert(orig.take(i as int).contains(before[q]));
                let p = choose|p: int| 0 <= p < i && #[trigger] orig.take(i as int)[p] == before[q];
                assert(orig[p] == before[q]);
                assert(v@[p].0 < v@[i as int].0);
            }
            assert forall|a: int, b: int| 0 <= a < b < after.len() implies dv.recency(
                #[trigger] after[a],
            ) > dv.recency(#[trigger] after[b]) || (dv.recency(after[a]) == dv.recency(after[b])
                && after[a].0 < after[b].0) by {
                if b < k {
                    assert(after[a] == before[a] && after[b] == before[b]);
                } else if b == k {
                    assert(after[a] == before[a]);
                    assert(dv.recency(before[a]) >= kx);
                } else if a == k {
                    assert(after[b] == before[b - 1]);
                    if k < before.len() {
                        assert(!(dv.recency(before[k as int]) >= kx));
                        if b - 1 > k {
                            assert(dv.recency(before[k as int]) >= dv.recency(before[b - 1]));
                        }
                    }
                } else if a < k {
                    assert(after[a] == before[a] && after[b] == before[b - 1]);
                } else {
                    assert(after[a] == before[a - 1] && after[b] == before[b - 1]);
                }
            }
            assert forall|y: (int, int)| after.contains(y) <==> orig.take(i + 1).contains(y) by {
                if after.contains(y) {
                    let q = choose|q: int| 0 <= q < after.len() && after[q] == y;
                    if q < k {
                        assert(before.contains(y));
                    } else if q > k {
                        assert(before[q - 1] == y);
                        assert(before.contains(y));
                    }
                    if y != xv {
                        assert(orig.take(i as int).contains(y));
                        let p = choose|p: int| 0 <= p < i && #[trigger] orig.take(i as int)[p] == y;
                        assert(orig.take(i + 1)[p] == y);
                    } else {
                        assert(orig.take(i + 1)[i as int] == y);
                    }
                }
                if orig.take(i + 1).contains(y) {
                    let p = choose|p: int| 0 <= p < i + 1 && #[trigger] orig.take(i + 1)[p] == y;
                    if p < i {
                        assert(orig.take(i as int)[p] == y);
                        assert(before.contains(y));
                        let q = choose|q: int| 0 <= q < before.len() && before[q] == y;
                        if q < k {
                            assert(after[q] == y);
                        } else {
                            assert(after[q + 1] == y);
                        }
                    } else {
                        assert(after[k as int] == y);
                    }
                }
            }
        }
        i += 1;
    }
    assert(orig.take(n as int) =~= orig);
    *v = out;
}

} // verus!
