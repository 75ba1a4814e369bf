//! Placing hedged orders on the two accounts: which side each account takes,
//! the volume split of the Exness copy hedge, and what is done when only some
//! legs opened (the opened ones are closed again: both or none).
use vstd::prelude::*;

use crate::text::{lowercase, owned, spec_lowercase, str_eq};

verus! {

/// Buy or sell.
#[derive(Clone, Copy, Debug, PartialEq, Eq, Structural)]
pub enum OrderSide {
    Buy,
    Sell,
}

impl OrderSide {
    /// The side as the bridge spells it.
    pub open spec fn spec_name(self) -> Seq<char> {
        match self {
            OrderSide::Buy => "buy"@,
            OrderSide::Sell => "sell"@,
        }
    }

    /// The side in capitals, as result labels show it.
    pub open spec fn spec_label(self) -> Seq<char> {
        match self {
            OrderSide::Buy => "BUY"@,
            OrderSide::Sell => "SELL"@,
        }
    }

    /// `buy` or `sell`.
    pub fn name(self) -> (r: String)
        ensures
            r@ == self.spec_name(),
    {
        match self {
            OrderSide::Buy => owned("buy"),
            OrderSide::Sell => owned("sell"),
        }
    }

    /// `BUY` or `SELL`.
    pub fn label(self) -> (r: String)
        ensures
            r@ == self.spec_label(),
    {
        match self {
            OrderSide::Buy => owned("BUY"),
            OrderSide::Sell => owned("SELL"),
        }
    }

    /// The other side.
    pub fn opposite(self) -> (r: OrderSide)
        ensures
            r != self,
    {
        match self {
            OrderSide::Buy => OrderSide::Sell,
            OrderSide::Sell => OrderSide::Buy,
        }
    }
}

/// A fair coin (`rand::random::<bool>()`); nothing is promised of the outcome.
#[verifier::external_body]
fn coin_flip() -> (r: bool) {
    rand::random::<bool>()
}

/// Whether the first account buys in a "place on both" order: as requested,
/// or at random (50/50) when the request leaves it open.
pub fn choose_first_account_buy(requested: Option<bool>) -> (r: bool)
    ensures
        requested matches Some(b) ==> r == b,
{
    match requested {
        Some(b) => b,
        None => coin_flip(),
    }
}

/// The sides of the two legs of a "place on both" order: the first account
/// buys and the second sells, or the reverse.
pub fn both_sides(first_account_buy: bool) -> (r: (OrderSide, OrderSide))
    ensures
        r == (if first_account_buy {
            (OrderSide::Buy, OrderSide::Sell)
        } else {
            (OrderSide::Sell, OrderSide::Buy)
        }),
{
    if first_account_buy {
        (OrderSide::Buy, OrderSide::Sell)
    } else {
        (OrderSide::Sell, OrderSide::Buy)
    }
}

/// The sides of a copy-hedge order, `(exness, broker_b)`: Exness takes the
/// requested side when it reads `buy` in any case, else it sells; Broker B
/// takes the opposite side.
pub fn master_slave_sides(order_type: &str) -> (r: (OrderSide, OrderSide))
    ensures
        r == (if spec_lowercase(order_type@) == "buy"@ {
            (OrderSide::Buy, OrderSide::Sell)
        } else {
            (OrderSide::Sell, OrderSide::Buy)
        }),
{
    let lower = lowercase(order_type);
    if str_eq(lower.as_str(), "buy") {
        (OrderSide::Buy, OrderSide::Sell)
    } else {
        (OrderSide::Sell, OrderSide::Buy)
    }
}

/// The volume step of the copy hedge in hundredths of a lot: the Exness copy
/// count N, at least 1.
pub open spec fn copy_step(copy_count: u32) -> nat {
    if copy_count < 1 {
        1
    } else {
        copy_count as nat
    }
}

/// Broker B's volume in hundredths of a lot: the requested volume rounded to
/// the nearest multiple of the step (halves round up), and at least one step.
pub open spec fn spec_broker_cents(volume_cents: u32, copy_count: u32) -> nat {
    let step = copy_step(copy_count);
    let rounded = ((volume_cents + step / 2) / step as int) * step;
    if rounded < step {
        step
    } else {
        rounded as nat
    }
}

/// Volumes of the two legs of a copy hedge, in hundredths of a lot.
#[derive(Clone, Copy, Debug, PartialEq, Eq, Structural)]
pub struct HedgeVolumes {
    /// Broker B's volume (the full volume V).
    pub broker_cents: u32,
    /// Exness's volume (V / N).
    pub exness_cents: u32,
}

/// The volumes of a copy hedge for a requested volume of `volume_cents`
/// hundredths of a lot and Exness copy count `copy_count`: Broker B opens the
/// normalized volume V, Exness opens V / N.
pub fn hedge_volume_cents(volume_cents: u32, copy_count: u32) -> (r: HedgeVolumes)
    requires
        volume_cents + copy_step(copy_count) / 2 <= u32::MAX,
    ensures
        r.broker_cents == spec_broker_cents(volume_cents, copy_count),
        r.exness_cents == (r.broker_cents as nat) / copy_step(copy_count),
        r.broker_cents == r.exness_cents * copy_step(copy_count),
        r.exness_cents >= 1,
        r.broker_cents >= copy_step(copy_count),
{
    let step: u32 = if copy_count < 1 {
        1
    } else {
        copy_count
    };
    let sum: u32 = volume_cents + step / 2;
    let q: u32 = sum / step;
    proof {
        vstd::arithmetic::div_mod::lemma_fundamental_div_mod(sum as int, step as int);
        vstd::arithmetic::div_mod::lemma_mod_pos_bound(sum as int, step as int);
        vstd::arithmetic::mul::lemma_mul_is_commutative(q as int, step as int);
    }
    let rounded: u32 = q * step;
    let broker: u32 = if rounded < step {
        step
    } else {
        rounded
    };
    let exness: u32 = broker / step;
    proof {
        if rounded < step {
            vstd::arithmetic::div_mod::lemma_div_by_self(step as int);
        } else {
            vstd::arithmetic::div_mod::lemma_div_multiples_vanish(q as int, step as int);
            assert(q >= 1) by {
                if q == 0 {
                    assert(q * step == 0) by (nonlinear_arith)
                        requires
                            q == 0,
                    ;
                }
            }
        }
    }
    HedgeVolumes { broker_cents: broker, exness_cents: exness }
}

/// What follows the placement of all legs of an order.
#[derive(Debug)]
pub enum Placement {
    /// Every leg opened.
    Complete,
    /// No leg opened.
    Failed,
    /// Some legs opened and some did not: the listed `(leg, ticket)` positions,
    /// every opened leg whose ticket is known, are closed again.
    Rollback(Vec<(usize, u64)>),
}

/// The `(leg, ticket)` pairs of the legs that opened with a known ticket, in leg order.
pub open spec fn opened_tickets(ok: Seq<bool>, tickets: Seq<Option<u64>>) -> Seq<(usize, u64)>
    decreases ok.len(),
{
    if ok.len() == 0 || tickets.len() != ok.len() {
        Seq::empty()
    } else {
        let rest = opened_tickets(ok.drop_last(), tickets.drop_last());
        let i = (ok.len() - 1) as usize;
        if ok.last() && tickets.last() is Some {
            rest.push((i, tickets.last()->0))
        } else {
            rest
        }
    }
}

/// Whether every leg opened.
pub open spec fn all_opened(ok: Seq<bool>) -> bool {
    forall|i: int| 0 <= i < ok.len() ==> #[trigger] ok[i]
}

/// Whether some leg opened.
pub open spec fn any_opened(ok: Seq<bool>) -> bool {
    exists|i: int| 0 <= i < ok.len() && #[trigger] ok[i]
}

/// What to do once every leg has answered: `Complete` when all opened,
/// `Failed` when none did, otherwise close every opened leg again.
pub fn placement_outcome(ok: &Vec<bool>, tickets: &Vec<Option<u64>>) -> (r: Placement)
    requires
        ok.len() == tickets.len(),
    ensures
        any_opened(ok@) && !all_opened(ok@) <==> r is Rollback,
        r is Complete <==> any_opened(ok@) && all_opened(ok@),
        r is Failed <==> !any_opened(ok@),
        r matches Placement::Rollback(v) ==> v@ == opened_tickets(ok@, tickets@),
{
    let mut any = false;
    let mut all = true;
    let mut close: Vec<(usize, u64)> = Vec::new();
    let mut i: usize = 0;
    while i < ok.len()
        invariant
            i <= ok.len(),
            ok.len() == tickets.len(),
            any == any_opened(ok@.take(i as int)),
            all == all_opened(ok@.take(i as int)),
            close@ == opened_tickets(ok@.take(i as int), tickets@.take(i as int)),
        decreases ok.len() - i,
    {
        assert(ok@.take(i + 1).drop_last() =~= ok@.take(i as int));
        assert(tickets@.take(i + 1).drop_last() =~= tickets@.take(i as int));
        assert(ok@.take(i + 1)[i as int] == ok@[i as int]);
        if ok[i] {
            any = true;
            match tickets[i] {
                Some(t) => close.push((i, t)),
                None => {},
            }
        } else {
            all = false;
        }
        assert(any == any_opened(ok@.take(i + 1))) by {
            if any_opened(ok@.take(i as int)) {
                let j = choose|j: int| 0 <= j < i && #[trigger] ok@.take(i as int)[j];
                assert(ok@.take(i + 1)[j]);
            }
            if any_opened(ok@.take(i + 1)) {
                let j = choose|j: int| 0 <= j < i + 1 && #[trigger] ok@.take(i + 1)[j];
                if j < i {
                    assert(ok@.take(i as int)[j]);
                }
            }
        }
        assert(all == all_opened(ok@.take(i + 1))) by {
            if !ok@[i as int] {
                assert(!ok@.take(i + 1)[i as int]);
            }
            if all_opened(ok@.take(i + 1)) {
                assert forall|j: int| 0 <= j < i implies #[trigger] ok@.take(i as int)[j] by {
                    assert(ok@.take(i + 1)[j]);
                }
            }
            if all_opened(ok@.take(i as int)) && ok@[i as int] {
                assert forall|j: int| 0 <= j < i + 1 implies #[trigger] ok@.take(i + 1)[j] by {
                    if j < i {
                        assert(ok@.take(i as int)[j]);
                    }
                }
            }
        }
        i += 1;
    }
    assert(ok@.take(ok.len() as int) =~= ok@);
    assert(tickets@.take(ok.len() as int) =~= tickets@);
    if any && !all {
        Placement::Rollback(close)
    } else if any {
        Placement::Complete
    } else {
        Placement::Failed
    }
}

/// Both or none: when some legs opened and some did not, every leg that
/// opened with a known ticket is among the positions closed again, and only
/// such legs are.
pub proof fn lemma_rollback_closes_every_opened_leg(ok: Seq<bool>, tickets: Seq<Option<u64>>)
    requires
        ok.len() == tickets.len(),
        ok.len() <= usize::MAX,
    ensures
        forall|i: int|
            0 <= i < ok.len() && ok[i] && tickets[i] is Some ==> #[trigger] opened_tickets(
                ok,
                tickets,
            ).contains((i as usize, tickets[i]->0)),
        forall|k: int|
            0 <= k < opened_tickets(ok, tickets).len() ==> {
                let (i, t) = #[trigger] opened_tickets(ok, tickets)[k];
                i < ok.len() && ok[i as int] && tickets[i as int] == Some(t)
            },
    decreases ok.len(),
{
    if ok.len() > 0 {
        let ok0 = ok.drop_last();
        let t0 = tickets.drop_last();
        lemma_rollback_closes_every_opened_leg(ok0, t0);
        let rest = opened_tickets(ok0, t0);
        let all = opened_tickets(ok, tickets);
        let n = ok.len() - 1;
        assert forall|i: int|
            0 <= i < ok.len() && ok[i] && tickets[i] is Some implies #[trigger] all.contains(
            (i as usize, tickets[i]->0),
        ) by {
            if i < n {
                assert(ok0[i] == ok[i] && t0[i] == tickets[i]);
                assert(rest.contains((i as usize, tickets[i]->0)));
                let k = choose|k: int| 0 <= k < rest.len() && rest[k] == (i as usize, tickets[i]->0);
                assert(all[k] == rest[k]);
            } else {
                assert(all[rest.len() as int] == (i as usize, tickets[i]->0));
            }
        }
        assert forall|k: int| 0 <= k < all.len() implies {
            let (i, t) = #[trigger] all[k];
            i < ok.len() && ok[i as int] && tickets[i as int] == Some(t)
        } by {
            if k < rest.len() {
                assert(all[k] == rest[k]);
                let (i, t) = rest[k];
                assert(ok0[i as int] == ok[i as int] && t0[i as int] == tickets[i as int]);
            } else {
                assert(ok.last() && tickets.last() is Some);
                assert(all[k] == ((ok.len() - 1) as usize, tickets.last()->0));
                assert(ok[n] == ok.last() && tickets[n] == tickets.last());
            }
        }
    }
}

} // verus!
