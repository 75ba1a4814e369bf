//! Tracked position pairs ("place on both" hedges): the list the panel keeps,
//! the periodic hedge sync that closes the leg left open when its partner
//! closed, and the list operations of the hedge endpoints.
use vstd::prelude::*;

use crate::orders::{OrderSide, Placement};
use crate::text::owned;

verus! {

/// Two positions opened together on two accounts; when one closes, the other
/// is closed too. The panel SL/TP distances in pips are kept as the bit
/// patterns of the `f64` values (`f64::to_bits`); the library only stores them.
#[derive(Debug)]
pub struct PositionPair {
    pub ticket_0: u64,
    pub account_0: String,
    pub ticket_1: u64,
    pub account_1: String,
    pub symbol: String,
    pub created_at: String,
    pub type_0: Option<String>,
    pub type_1: Option<String>,
    pub sl_pips_0_bits: Option<u64>,
    pub tp_pips_0_bits: Option<u64>,
    pub sl_pips_1_bits: Option<u64>,
    pub tp_pips_1_bits: Option<u64>,
}

fn clone_opt_string(s: &Option<String>) -> (r: Option<String>)
    ensures
        r == *s,
{
    match s {
        Some(x) => Some(x.clone()),
        None => None,
    }
}

impl PositionPair {
    /// A copy of the pair.
    pub fn duplicate(&self) -> (r: PositionPair)
        ensures
            r == *self,
    {
        PositionPair {
            ticket_0: self.ticket_0,
            account_0: self.account_0.clone(),
            ticket_1: self.ticket_1,
            account_1: self.account_1.clone(),
            symbol: self.symbol.clone(),
            created_at: self.created_at.clone(),
            type_0: clone_opt_string(&self.type_0),
            type_1: clone_opt_string(&self.type_1),
            sl_pips_0_bits: self.sl_pips_0_bits,
            tp_pips_0_bits: self.tp_pips_0_bits,
            sl_pips_1_bits: self.sl_pips_1_bits,
            tp_pips_1_bits: self.tp_pips_1_bits,
        }
    }

    /// Whether one leg of this pair is `ticket` on `account`.
    pub open spec fn has_leg(self, ticket: u64, account: Seq<char>) -> bool {
        (self.ticket_0 == ticket && self.account_0@ == account) || (self.ticket_1 == ticket
            && self.account_1@ == account)
    }
}

/// Whether `x` is in `v`.
pub fn contains_u64(v: &Vec<u64>, x: u64) -> (r: bool)
    ensures
        r == v@.contains(x),
{
    let mut i: usize = 0;
    while i < v.len()
        invariant
            i <= v.len(),
            forall|j: int| 0 <= j < i ==> v@[j] != x,
        decreases v.len() - i,
    {
        if v[i] == x {
            return true;
        }
        i += 1;
    }
    false
}

// ---------------------------------------------------------------------------
// Hedge sync
// ---------------------------------------------------------------------------

/// Whether the first leg of a pair is still open (its ticket is among the
/// open tickets of the first account).
pub open spec fn leg0_open(p: PositionPair, open0: Seq<u64>) -> bool {
    open0.contains(p.ticket_0)
}

/// Whether the second leg of a pair is still open.
pub open spec fn leg1_open(p: PositionPair, open1: Seq<u64>) -> bool {
    open1.contains(p.ticket_1)
}

/// The pairs whose two legs are both still open, in order: the pairs kept.
pub open spec fn pairs_kept(pairs: Seq<PositionPair>, open0: Seq<u64>, open1: Seq<u64>) -> Seq<
    PositionPair,
>
    decreases pairs.len(),
{
    if pairs.len() == 0 {
        Seq::empty()
    } else {
        let rest = pairs_kept(pairs.drop_last(), open0, open1);
        let p = pairs.last();
        if leg0_open(p, open0) && leg1_open(p, open1) {
            rest.push(p)
        } else {
            rest
        }
    }
}

/// The leg to close for each pair with exactly one leg still open, as
/// `(ticket, account)`, in pair order.
pub open spec fn orphan_legs(pairs: Seq<PositionPair>, open0: Seq<u64>, open1: Seq<u64>) -> Seq<
    (u64, Seq<char>),
>
    decreases pairs.len(),
{
    if pairs.len() == 0 {
        Seq::empty()
    } else {
        let rest = orphan_legs(pairs.drop_last(), open0, open1);
        let p = pairs.last();
        if !leg0_open(p, open0) && leg1_open(p, open1) {
            rest.push((p.ticket_1, p.account_1@))
        } else if leg0_open(p, open0) && !leg1_open(p, open1) {
            rest.push((p.ticket_0, p.account_0@))
        } else {
            rest
        }
    }
}

/// The view of a list of `(ticket, account)` legs.
pub open spec fn legs_view(v: Seq<(u64, String)>) -> Seq<(u64, Seq<char>)> {
    v.map_values(|e: (u64, String)| (e.0, e.1@))
}

/// One hedge sync pass over the tracked pairs.
#[derive(Debug)]
pub struct HedgeSyncPlan {
    /// The pairs that stay tracked.
    pub remaining: Vec<PositionPair>,
    /// The legs left open by a closed partner, to be closed (unless protected).
    pub to_close: Vec<(u64, String)>,
}

/// A hedge sync pass given the open tickets of the two accounts: a pair with
/// both legs open stays; a pair with one leg open is dropped and that leg is
/// to be closed; a pair with no leg open is dropped.
pub fn hedge_sync_plan(pairs: &Vec<PositionPair>, open0: &Vec<u64>, open1: &Vec<u64>) -> (r:
    HedgeSyncPlan)
    ensures
        r.remaining@ == pairs_kept(pairs@, open0@, open1@),
        legs_view(r.to_close@) == orphan_legs(pairs@, open0@, open1@),
{
    let mut remaining: Vec<PositionPair> = Vec::new();
    let mut to_close: Vec<(u64, String)> = Vec::new();
    let mut i: usize = 0;
    while i < pairs.len()
        invariant
            i <= pairs.len(),
            remaining@ == pairs_kept(pairs@.take(i as int), open0@, open1@),
            legs_view(to_close@) == orphan_legs(pairs@.take(i as int), open0@, open1@),
        decreases pairs.len() - i,
    {
        let p = &pairs[i];
        assert(pairs@.take(i + 1).drop_last() =~= pairs@.take(i as int));
        assert(pairs@.take(i + 1).last() == pairs@[i as int]);
        let in0 = contains_u64(open0, p.ticket_0);
        let in1 = contains_u64(open1, p.ticket_1);
        let ghost before = to_close@;
        if in0 && in1 {
            remaining.push(p.duplicate());
        } else if !in0 && in1 {
            to_close.push((p.ticket_1, p.account_1.clone()));
            assert(legs_view(to_close@) =~= legs_view(before).push((p.ticket_1, p.account_1@)));
        } else if in0 && !in1 {
            to_close.push((p.ticket_0, p.account_0.clone()));
            assert(legs_view(to_close@) =~= legs_view(before).push((p.ticket_0, p.account_0@)));
        }
        i += 1;
    }
    assert(pairs@.take(pairs.len() as int) =~= pairs@);
    HedgeSyncPlan { remaining, to_close }
}

/// Every pair kept by a sync pass has both legs open, and every leg the pass
/// closes is the open leg of a pair whose other leg is closed.
pub proof fn lemma_hedge_sync_sound(pairs: Seq<PositionPair>, open0: Seq<u64>, open1: Seq<u64>)
    ensures
        forall|i: int|
            0 <= i < pairs_kept(pairs, open0, open1).len() ==> leg0_open(
                #[trigger] pairs_kept(pairs, open0, open1)[i],
                open0,
            ) && leg1_open(pairs_kept(pairs, open0, open1)[i], open1),
        forall|i: int|
            0 <= i < orphan_legs(pairs, open0, open1).len() ==> exists|j: int|
                0 <= j < pairs.len() && ((!leg0_open(pairs[j], open0) && leg1_open(
                    pairs[j],
                    open1,
                ) && #[trigger] orphan_legs(pairs, open0, open1)[i] == (
                    pairs[j].ticket_1,
                    pairs[j].account_1@,
                )) || (leg0_open(pairs[j], open0) && !leg1_open(pairs[j], open1) && orphan_legs(
                    pairs,
                    open0,
                    open1,
                )[i] == (pairs[j].ticket_0, pairs[j].account_0@))),
    decreases pairs.len(),
{
    if pairs.len() > 0 {
        let init = pairs.drop_last();
        lemma_hedge_sync_sound(init, open0, open1);
        let kept = pairs_kept(pairs, open0, open1);
        let legs = orphan_legs(pairs, open0, open1);
        assert forall|i: int| 0 <= i < legs.len() implies exists|j: int|
            0 <= j < pairs.len() && ((!leg0_open(pairs[j], open0) && leg1_open(pairs[j], open1)
                && #[trigger] legs[i] == (pairs[j].ticket_1, pairs[j].account_1@)) || (leg0_open(
                pairs[j],
                open0,
            ) && !leg1_open(pairs[j], open1) && legs[i] == (
                pairs[j].ticket_0,
                pairs[j].account_0@,
            ))) by {
            let init_legs = orphan_legs(init, open0, open1);
            if i < init_legs.len() {
                assert(legs[i] == init_legs[i]);
                let j = choose|j: int|
                    0 <= j < init.len() && ((!leg0_open(init[j], open0) && leg1_open(
                        init[j],
                        open1,
                    ) && #[trigger] init_legs[i] == (init[j].ticket_1, init[j].account_1@)) || (
                    leg0_open(init[j], open0) && !leg1_open(init[j], open1) && init_legs[i] == (
                        init[j].ticket_0,
                        init[j].account_0@,
                    )));
                assert(pairs[j] == init[j]);
            } else {
                assert(pairs[pairs.len() - 1] == pairs.last());
            }
        }
        assert forall|i: int| 0 <= i < kept.len() implies leg0_open(#[trigger] kept[i], open0)
            && leg1_open(kept[i], open1) by {
            let init_kept = pairs_kept(init, open0, open1);
            if i < init_kept.len() {
                assert(kept[i] == init_kept[i]);
            }
        }
    }
}

/// No pair is left unhedged: a pass keeps every pair whose two legs are open,
/// and lists for closing the open leg of every pair whose other leg closed.
pub proof fn lemma_hedge_sync_complete(pairs: Seq<PositionPair>, open0: Seq<u64>, open1: Seq<u64>)
    ensures
        forall|j: int|
            0 <= j < pairs.len() && leg0_open(#[trigger] pairs[j], open0) && leg1_open(pairs[j], open1)
                ==> pairs_kept(pairs, open0, open1).contains(pairs[j]),
        forall|j: int|
            0 <= j < pairs.len() && !leg0_open(#[trigger] pairs[j], open0) && leg1_open(pairs[j], open1)
                ==> orphan_legs(pairs, open0, open1).contains((pairs[j].ticket_1, pairs[j].account_1@)),
        forall|j: int|
            0 <= j < pairs.len() && leg0_open(#[trigger] pairs[j], open0) && !leg1_open(pairs[j], open1)
                ==> orphan_legs(pairs, open0, open1).contains((pairs[j].ticket_0, pairs[j].account_0@)),
    decreases pairs.len(),
{
    if pairs.len() > 0 {
        let init = pairs.drop_last();
        lemma_hedge_sync_complete(init, open0, open1);
        let kept = pairs_kept(pairs, open0, open1);
        let legs = orphan_legs(pairs, open0, open1);
        let init_kept = pairs_kept(init, open0, open1);
        let init_legs = orphan_legs(init, open0, open1);
        let n = pairs.len() - 1;
        assert forall|j: int|
            0 <= j < pairs.len() && leg0_open(#[trigger] pairs[j], open0) && leg1_open(pairs[j], open1)
                implies kept.contains(pairs[j]) by {
            if j < n {
                assert(init[j] == pairs[j]);
                assert(init_kept.contains(init[j]));
                let k = choose|k: int| 0 <= k < init_kept.len() && init_kept[k] == init[j];
                assert(kept[k] == init_kept[k]);
            } else {
                assert(kept[init_kept.len() as int] == pairs.last());
            }
        }
        assert forall|j: int|
            0 <= j < pairs.len() && !leg0_open(#[trigger] pairs[j], open0) && leg1_open(pairs[j], open1)
                implies legs.contains((pairs[j].ticket_1, pairs[j].account_1@)) by {
            if j < n {
                assert(init[j] == pairs[j]);
                assert(init_legs.contains((init[j].ticket_1, init[j].account_1@)));
                let k = choose|k: int| 0 <= k < init_legs.len() && init_legs[k] == (init[j].ticket_1, init[j].account_1@);
                assert(legs[k] == init_legs[k]);
            } else {
                assert(legs[init_legs.len() as int] == (pairs.last().ticket_1, pairs.last().account_1@));
            }
        }
        assert forall|j: int|
            0 <= j < pairs.len() && leg0_open(#[trigger] pairs[j], open0) && !leg1_open(pairs[j], open1)
                implies legs.contains((pairs[j].ticket_0, pairs[j].account_0@)) by {
            if j < n {
                assert(init[j] == pairs[j]);
                assert(init_legs.contains((init[j].ticket_0, init[j].account_0@)));
                let k = choose|k: int| 0 <= k < init_legs.len() && init_legs[k] == (init[j].ticket_0, init[j].account_0@);
                assert(legs[k] == init_legs[k]);
            } else {
                assert(legs[init_legs.len() as int] == (pairs.last().ticket_0, pairs.last().account_0@));
            }
        }
    }
}

// ---------------------------------------------------------------------------
// Pair list operations
// ---------------------------------------------------------------------------

/// Removes the first pair that has leg `ticket` on `account`; says whether one
/// was removed.
pub fn remove_pair_with_leg(pairs: &mut Vec<PositionPair>, ticket: u64, account: &str) -> (r: bool)
    ensures
        r == exists|i: int|
            0 <= i < old(pairs)@.len() && (#[trigger] old(pairs)@[i]).has_leg(ticket, account@),
        r ==> exists|i: int|
            0 <= i < old(pairs)@.len() && old(pairs)@[i].has_leg(ticket, account@) && (forall|
                k: int,
            | 0 <= k < i ==> !(#[trigger] old(pairs)@[k]).has_leg(ticket, account@))
                && final(pairs)@ == old(pairs)@.remove(i),
        !r ==> final(pairs)@ == old(pairs)@,
{
    let account_s = owned(account);
    let mut i: usize = 0;
    while i < pairs.len()
        invariant
            i <= pairs.len(),
            pairs@ == old(pairs)@,
            account_s@ == account@,
            forall|k: int| 0 <= k < i ==> !(#[trigger] pairs@[k]).has_leg(ticket, account@),
        decreases pairs.len() - i,
    {
        let hit = (pairs[i].ticket_0 == ticket && pairs[i].account_0 == account_s) || (
        pairs[i].ticket_1 == ticket && pairs[i].account_1 == account_s);
        if hit {
            let ghost before = pairs@;
            pairs.remove(i);
            assert(before[i as int].has_leg(ticket, account@));
            return true;
        }
        i += 1;
    }
    false
}

/// Takes the pair at `index` out of the list; `None` (list unchanged) when
/// the index is past the end.
pub fn take_pair_at(pairs: &mut Vec<PositionPair>, index: usize) -> (r: Option<PositionPair>)
    ensures
        index < old(pairs)@.len() ==> r == Some(old(pairs)@[index as int]) && final(pairs)@
            == old(pairs)@.remove(index as int),
        index >= old(pairs)@.len() ==> r is None && final(pairs)@ == old(pairs)@,
{
    if index >= pairs.len() {
        None
    } else {
        Some(pairs.remove(index))
    }
}

/// Sets the panel SL/TP (pip bit patterns) of one leg of the pair at `index`:
/// leg 0 sets the first leg, any other value the second. Returns false (list
/// unchanged) when the index is past the end.
pub fn set_panel_pips(
    pairs: &mut Vec<PositionPair>,
    index: usize,
    leg: u8,
    sl_bits: u64,
    tp_bits: u64,
) -> (r: bool)
    ensures
        r == (index < old(pairs)@.len()),
        !r ==> final(pairs)@ == old(pairs)@,
        r ==> final(pairs)@.len() == old(pairs)@.len(),
        r ==> forall|k: int|
            0 <= k < old(pairs)@.len() && k != index ==> #[trigger] final(pairs)@[k] == old(
                pairs,
            )@[k],
        r ==> {
            let p = old(pairs)@[index as int];
            let q = final(pairs)@[index as int];
            if leg == 0 {
                q == PositionPair {
                    sl_pips_0_bits: Some(sl_bits),
                    tp_pips_0_bits: Some(tp_bits),
                    ..p
                }
            } else {
                q == PositionPair {
                    sl_pips_1_bits: Some(sl_bits),
                    tp_pips_1_bits: Some(tp_bits),
                    ..p
                }
            }
        },
{
    if index >= pairs.len() {
        return false;
    }
    let mut p = pairs.remove(index);
    if leg == 0 {
        p.sl_pips_0_bits = Some(sl_bits);
        p.tp_pips_0_bits = Some(tp_bits);
    } else {
        p.sl_pips_1_bits = Some(sl_bits);
        p.tp_pips_1_bits = Some(tp_bits);
    }
    pairs.insert(index, p);
    true
}

/// Takes every pair out of the list, leaving it empty.
pub fn take_all_pairs(pairs: &mut Vec<PositionPair>) -> (r: Vec<PositionPair>)
    ensures
        r@ == old(pairs)@,
        final(pairs)@.len() == 0,
{
    let mut taken: Vec<PositionPair> = Vec::new();
    std::mem::swap(pairs, &mut taken);
    taken
}

/// `p` is the pair of a "place on both" order whose legs are `ticket_0` on
/// `account_0` (side `side_0`) and `ticket_1` on `account_1` (side `side_1`),
/// with the given symbol, creation time and panel SL/TP pips of each leg.
pub open spec fn is_pair_of_legs(
    p: PositionPair,
    ticket_0: u64,
    account_0: Seq<char>,
    side_0: OrderSide,
    ticket_1: u64,
    account_1: Seq<char>,
    side_1: OrderSide,
    symbol: Seq<char>,
    created_at: Seq<char>,
    pips_0_bits: (u64, u64),
    pips_1_bits: (u64, u64),
) -> bool {
    &&& p.ticket_0 == ticket_0
    &&& p.account_0@ == account_0
    &&& p.ticket_1 == ticket_1
    &&& p.account_1@ == account_1
    &&& p.symbol@ == symbol
    &&& p.created_at@ == created_at
    &&& p.type_0 matches Some(t) && t@ == side_0.spec_name()
    &&& p.type_1 matches Some(t) && t@ == side_1.spec_name()
    &&& p.sl_pips_0_bits == Some(pips_0_bits.0)
    &&& p.tp_pips_0_bits == Some(pips_0_bits.1)
    &&& p.sl_pips_1_bits == Some(pips_1_bits.0)
    &&& p.tp_pips_1_bits == Some(pips_1_bits.1)
}

/// The pair recorded after a "place on both" order opened both legs.
pub fn pair_from_legs(
    ticket_0: u64,
    account_0: &str,
    side_0: OrderSide,
    ticket_1: u64,
    account_1: &str,
    side_1: OrderSide,
    symbol: &str,
    created_at: &str,
    pips_0_bits: (u64, u64),
    pips_1_bits: (u64, u64),
) -> (r: PositionPair)
    ensures
        is_pair_of_legs(
            r,
            ticket_0,
            account_0@,
            side_0,
            ticket_1,
            account_1@,
            side_1,
            symbol@,
            created_at@,
            pips_0_bits,
            pips_1_bits,
        ),
{
    PositionPair {
        ticket_0,
        account_0: owned(account_0),
        ticket_1,
        account_1: owned(account_1),
        symbol: owned(symbol),
        created_at: owned(created_at),
        type_0: Some(side_0.name()),
        type_1: Some(side_1.name()),
        sl_pips_0_bits: Some(pips_0_bits.0),
        tp_pips_0_bits: Some(pips_0_bits.1),
        sl_pips_1_bits: Some(pips_1_bits.0),
        tp_pips_1_bits: Some(pips_1_bits.1),
    }
}

/// Records the outcome of a "place on both" order in the tracked pairs: when
/// every leg opened and both tickets are known, the pair of the two legs is
/// appended; otherwise the list is unchanged. Says whether a pair was recorded.
pub fn record_placed_pair(
    pairs: &mut Vec<PositionPair>,
    placement: &Placement,
    ticket_0: Option<u64>,
    account_0: &str,
    side_0: OrderSide,
    ticket_1: Option<u64>,
    account_1: &str,
    side_1: OrderSide,
    symbol: &str,
    created_at: &str,
    pips_0_bits: (u64, u64),
    pips_1_bits: (u64, u64),
) -> (r: bool)
    ensures
        r == (*placement is Complete && ticket_0 is Some && ticket_1 is Some),
        !r ==> final(pairs)@ == old(pairs)@,
        r ==> final(pairs)@.len() == old(pairs)@.len() + 1 && final(pairs)@.take(old(pairs)@.len() as int)
            == old(pairs)@ && is_pair_of_legs(
            final(pairs)@.last(),
            ticket_0->0,
            account_0@,
            side_0,
            ticket_1->0,
            account_1@,
            side_1,
            symbol@,
            created_at@,
            pips_0_bits,
            pips_1_bits,
        ),
{
    let complete = match placement {
        Placement::Complete => true,
        _ => false,
    };
    if !complete {
        return false;
    }
    match (ticket_0, ticket_1) {
        (Some(t0), Some(t1)) => {
            let pair = pair_from_legs(
                t0,
                account_0,
                side_0,
                t1,
                account_1,
                side_1,
                symbol,
                created_at,
                pips_0_bits,
                pips_1_bits,
            );
            pairs.push(pair);
            assert(pairs@.take(old(pairs)@.len() as int) =~= old(pairs)@);
            true
        },
        _ => false,
    }
}

/// How many pairs had both legs closed, from each pair's `(leg 0 closed, leg 1 closed)`.
pub open spec fn count_both_closed(results: Seq<(bool, bool)>) -> nat
    decreases results.len(),
{
    if results.len() == 0 {
        0
    } else {
        count_both_closed(results.drop_last()) + if results.last().0 && results.last().1 {
            1nat
        } else {
            0nat
        }
    }
}

/// The number of pairs whose two legs both closed.
pub fn pairs_fully_closed(results: &Vec<(bool, bool)>) -> (r: usize)
    ensures
        r == count_both_closed(results@),
{
    let mut n: usize = 0;
    let mut i: usize = 0;
    while i < results.len()
        invariant
            i <= results.len(),
            n == count_both_closed(results@.take(i as int)),
            n <= i,
        decreases results.len() - i,
    {
        assert(results@.take(i + 1).drop_last() =~= results@.take(i as int));
        if results[i].0 && results[i].1 {
            n += 1;
        }
        i += 1;
    }
    assert(results@.take(results.len() as int) =~= results@);
    n
}

} // verus!
