//! One hedge sync cycle: from the open tickets of the two accounts (when both
//! could be read), the pairs that stay tracked, the registry entries that
//! stay, and the legs that may be closed once their comment is read. A cycle
//! in which either account's positions are unknown changes nothing and closes
//! nothing.
use vstd::prelude::*;

use crate::pairs::{hedge_sync_plan, leg0_open, leg1_open, legs_view, orphan_legs, pairs_kept, lemma_hedge_sync_complete, lemma_hedge_sync_sound, PositionPair};
use crate::tickets::{comment_read, is_registered, marks_fixedlot, prune_registry, pruned, registered, spec_comment_action, LegAction};

verus! {

/// The view of an optional ticket list.
pub open spec fn opt_tickets(o: Option<Vec<u64>>) -> Option<Seq<u64>> {
    match o {
        Some(v) => Some(v@),
        None => None,
    }
}

/// The legs that are not registered, in order.
pub open spec fn unregistered_legs(legs: Seq<(u64, Seq<char>)>, registry: Seq<(u64, Seq<char>)>) -> Seq<
    (u64, Seq<char>),
>
    decreases legs.len(),
{
    if legs.len() == 0 {
        Seq::empty()
    } else {
        let rest = unregistered_legs(legs.drop_last(), registry);
        if is_registered(registry, legs.last().0, legs.last().1) {
            rest
        } else {
            rest.push(legs.last())
        }
    }
}

/// The legs a cycle may close (once their comment is read): the open leg of
/// each pair whose other leg closed, unless registered at the start of the
/// cycle; none when either account's open tickets are unknown.
pub open spec fn cycle_legs(
    pairs: Seq<PositionPair>,
    registry: Seq<(u64, Seq<char>)>,
    open0: Option<Seq<u64>>,
    open1: Option<Seq<u64>>,
) -> Seq<(u64, Seq<char>)> {
    match (open0, open1) {
        (Some(a), Some(b)) => unregistered_legs(orphan_legs(pairs, a, b), registry),
        _ => Seq::empty(),
    }
}

/// What a hedge sync cycle leaves to do.
#[derive(Debug)]
pub struct SyncCycle {
    /// The legs to close unless their comment marks them (see `leg_action`).
    pub to_check: Vec<(u64, String)>,
    /// Whether the registry lost entries (and must be saved).
    pub registry_changed: bool,
}

/// One hedge sync cycle over the tracked pairs and the single-account
/// registry, given the open tickets of accounts `id0` and `id1` (`None` when
/// they could not be read). With both known, pairs with both legs open stay,
/// registry entries whose ticket closed are dropped, and the open legs of
/// half-closed pairs that are not registered are to be checked; otherwise
/// nothing changes and nothing is to be checked.
pub fn hedge_sync_cycle(
    pairs: &mut Vec<PositionPair>,
    registry: &mut Vec<(u64, String)>,
    id0: &str,
    id1: &str,
    open0: &Option<Vec<u64>>,
    open1: &Option<Vec<u64>>,
) -> (r: SyncCycle)
    ensures
        legs_view(r.to_check@) == cycle_legs(
            old(pairs)@,
            legs_view(old(registry)@),
            opt_tickets(*open0),
            opt_tickets(*open1),
        ),
        match (*open0, *open1) {
            (Some(a), Some(b)) => {
                &&& forall|j: int|
                    0 <= j < old(pairs)@.len() && !a@.contains((#[trigger] old(pairs)@[j]).ticket_0)
                        && b@.contains(old(pairs)@[j].ticket_1) && !legs_view(old(registry)@).contains(
                        (old(pairs)@[j].ticket_1, old(pairs)@[j].account_1@),
                    ) ==> legs_view(r.to_check@).contains((old(pairs)@[j].ticket_1, old(pairs)@[j].account_1@))
                &&& forall|j: int|
                    0 <= j < old(pairs)@.len() && a@.contains((#[trigger] old(pairs)@[j]).ticket_0)
                        && !b@.contains(old(pairs)@[j].ticket_1) && !legs_view(old(registry)@).contains(
                        (old(pairs)@[j].ticket_0, old(pairs)@[j].account_0@),
                    ) ==> legs_view(r.to_check@).contains((old(pairs)@[j].ticket_0, old(pairs)@[j].account_0@))
                &&& final(pairs)@ == pairs_kept(old(pairs)@, a@, b@)
                &&& legs_view(final(registry)@) == pruned(legs_view(old(registry)@), id0@, id1@, a@, b@)
                &&& r.registry_changed == (final(registry)@.len() != old(registry)@.len())
            },
            _ => {
                &&& final(pairs)@ == old(pairs)@
                &&& final(registry)@ == old(registry)@
                &&& !r.registry_changed
            },
        },
{
    let (a, b) = match (open0, open1) {
        (Some(a), Some(b)) => (a, b),
        _ => {
            return SyncCycle { to_check: Vec::new(), registry_changed: false };
        },
    };
    proof {
        lemma_cycle_legs_complete(pairs@, legs_view(registry@), a@, b@);
    }
    let plan = hedge_sync_plan(pairs, a, b);
    let ghost legs = legs_view(plan.to_close@);
    let ghost reg = legs_view(registry@);
    *pairs = plan.remaining;
    let mut to_check: Vec<(u64, String)> = Vec::new();
    let mut i: usize = 0;
    while i < plan.to_close.len()
        invariant
            i <= plan.to_close.len(),
            legs == legs_view(plan.to_close@),
            reg == legs_view(registry@),
            legs_view(to_check@) == unregistered_legs(legs.take(i as int), reg),
        decreases plan.to_close.len() - i,
    {
        assert(legs.take(i + 1).drop_last() =~= legs.take(i as int));
        assert(legs.take(i + 1).last() == legs[i as int]);
        let t = plan.to_close[i].0;
        if !registered(registry, t, plan.to_close[i].1.as_str()) {
            let ghost before = to_check@;
            to_check.push((t, plan.to_close[i].1.clone()));
            assert(legs_view(to_check@) =~= legs_view(before).push(legs[i as int]));
        }
        i += 1;
    }
    assert(legs.take(plan.to_close.len() as int) =~= legs);
    let changed = prune_registry(registry, id0, id1, a, b);
    SyncCycle { to_check, registry_changed: changed }
}

proof fn lemma_unregistered_legs(legs: Seq<(u64, Seq<char>)>, registry: Seq<(u64, Seq<char>)>, x: (u64, Seq<char>))
    requires
        unregistered_legs(legs, registry).contains(x),
    ensures
        legs.contains(x),
        !is_registered(registry, x.0, x.1),
    decreases legs.len(),
{
    let init = legs.drop_last();
    let rest = unregistered_legs(init, registry);
    if rest.contains(x) {
        lemma_unregistered_legs(init, registry, x);
        let j = choose|j: int| 0 <= j < init.len() && init[j] == x;
        assert(legs[j] == x);
    } else {
        let all = unregistered_legs(legs, registry);
        let k = choose|k: int| 0 <= k < all.len() && all[k] == x;
        if !is_registered(registry, legs.last().0, legs.last().1) && k < rest.len() {
            assert(rest[k] == x);
        }
        assert(legs[legs.len() - 1] == x);
    }
}

proof fn lemma_unregistered_legs_keep(legs: Seq<(u64, Seq<char>)>, registry: Seq<(u64, Seq<char>)>, x: (u64, Seq<char>))
    requires
        legs.contains(x),
        !is_registered(registry, x.0, x.1),
    ensures
        unregistered_legs(legs, registry).contains(x),
    decreases legs.len(),
{
    let init = legs.drop_last();
    let rest = unregistered_legs(init, registry);
    let all = unregistered_legs(legs, registry);
    let j = choose|j: int| 0 <= j < legs.len() && legs[j] == x;
    if j < legs.len() - 1 {
        assert(init[j] == x);
        lemma_unregistered_legs_keep(init, registry, x);
        let k = choose|k: int| 0 <= k < rest.len() && rest[k] == x;
        assert(all[k] == x);
    } else {
        assert(legs.last() == x);
        assert(all[rest.len() as int] == x);
    }
}

/// Every leg a cycle must consider is listed: with both accounts' open tickets
/// known, the open leg of each tracked pair whose other leg is closed is among
/// the legs to check, unless it is registered as a single-account position.
pub proof fn lemma_cycle_legs_complete(
    pairs: Seq<PositionPair>,
    registry: Seq<(u64, Seq<char>)>,
    open0: Seq<u64>,
    open1: Seq<u64>,
)
    ensures
        forall|j: int|
            0 <= j < pairs.len() && !open0.contains((#[trigger] pairs[j]).ticket_0) && open1.contains(
                pairs[j].ticket_1,
            ) && !registry.contains((pairs[j].ticket_1, pairs[j].account_1@)) ==> cycle_legs(
                pairs,
                registry,
                Some(open0),
                Some(open1),
            ).contains((pairs[j].ticket_1, pairs[j].account_1@)),
        forall|j: int|
            0 <= j < pairs.len() && open0.contains((#[trigger] pairs[j]).ticket_0) && !open1.contains(
                pairs[j].ticket_1,
            ) && !registry.contains((pairs[j].ticket_0, pairs[j].account_0@)) ==> cycle_legs(
                pairs,
                registry,
                Some(open0),
                Some(open1),
            ).contains((pairs[j].ticket_0, pairs[j].account_0@)),
{
    lemma_hedge_sync_complete(pairs, open0, open1);
    let legs = orphan_legs(pairs, open0, open1);
    assert forall|j: int|
        0 <= j < pairs.len() && !open0.contains((#[trigger] pairs[j]).ticket_0) && open1.contains(
            pairs[j].ticket_1,
        ) && !registry.contains((pairs[j].ticket_1, pairs[j].account_1@)) implies cycle_legs(
            pairs,
            registry,
            Some(open0),
            Some(open1),
        ).contains((pairs[j].ticket_1, pairs[j].account_1@)) by {
        assert(!leg0_open(pairs[j], open0) && leg1_open(pairs[j], open1));
        lemma_unregistered_legs_keep(legs, registry, (pairs[j].ticket_1, pairs[j].account_1@));
    }
    assert forall|j: int|
        0 <= j < pairs.len() && open0.contains((#[trigger] pairs[j]).ticket_0) && !open1.contains(
            pairs[j].ticket_1,
        ) && !registry.contains((pairs[j].ticket_0, pairs[j].account_0@)) implies cycle_legs(
            pairs,
            registry,
            Some(open0),
            Some(open1),
        ).contains((pairs[j].ticket_0, pairs[j].account_0@)) by {
        assert(leg0_open(pairs[j], open0) && !leg1_open(pairs[j], open1));
        lemma_unregistered_legs_keep(legs, registry, (pairs[j].ticket_0, pairs[j].account_0@));
    }
}

/// A hedge sync cycle closes a leg only when the open tickets of both accounts
/// were read, the leg was not registered as a single-account position at the
/// start of the cycle, its comment (empty when it could not be read) does not
/// mark it, and it is the open leg of a tracked pair whose other leg is known
/// to be closed.
pub proof fn lemma_sync_cycle_closes_only_unprotected(
    pairs: Seq<PositionPair>,
    registry: Seq<(u64, Seq<char>)>,
    open0: Option<Seq<u64>>,
    open1: Option<Seq<u64>>,
    ticket: u64,
    account: Seq<char>,
    comment: Option<Seq<char>>,
)
    requires
        cycle_legs(pairs, registry, open0, open1).contains((ticket, account)),
        spec_comment_action(comment) == LegAction::Close,
    ensures
        open0 is Some && open1 is Some,
        !is_registered(registry, ticket, account),
        !marks_fixedlot(comment_read(comment)),
        exists|j: int|
            0 <= j < pairs.len() && ((!leg0_open(pairs[j], open0->0) && leg1_open(pairs[j], open1->0)
                && ticket == pairs[j].ticket_1 && account == pairs[j].account_1@) || (leg0_open(
                pairs[j],
                open0->0,
            ) && !leg1_open(pairs[j], open1->0) && ticket == pairs[j].ticket_0 && account
                == pairs[j].account_0@)),
{
    let a = open0->0;
    let b = open1->0;
    let legs = orphan_legs(pairs, a, b);
    lemma_unregistered_legs(legs, registry, (ticket, account));
    lemma_hedge_sync_sound(pairs, a, b);
    let i = choose|i: int| 0 <= i < legs.len() && legs[i] == (ticket, account);
    assert(legs[i] == (ticket, account));
}

} // verus!
