//! Positions opened on a single account (FixedLot) are registered so that the
//! hedge logic never closes them, even when an old pair names the same ticket
//! or the broker dropped the position comment. The registry is pruned of
//! tickets that are no longer open and persisted with at most 2000 entries.
use vstd::prelude::*;

use crate::pairs::{contains_u64, legs_view};
use crate::text::{chars_of, contains_chars, lowercase, seq_contains, spec_lowercase, str_eq};

verus! {

/// The most registry entries that are written to disk (the newest ones).
pub const SINGLE_ACCOUNT_TICKETS_MAX: usize = 2000;

/// Whether `(ticket, account)` is registered as a single-account position.
pub open spec fn is_registered(list: Seq<(u64, Seq<char>)>, ticket: u64, account: Seq<char>) -> bool {
    list.contains((ticket, account))
}

/// Whether `(ticket, account)` is registered.
pub fn registered(list: &Vec<(u64, String)>, ticket: u64, account: &str) -> (r: bool)
    ensures
        r == is_registered(legs_view(list@), ticket, account@),
{
    let mut i: usize = 0;
    while i < list.len()
        invariant
            i <= list.len(),
            forall|j: int| 0 <= j < i ==> legs_view(list@)[j] != (ticket, account@),
        decreases list.len() - i,
    {
        if list[i].0 == ticket && str_eq(list[i].1.as_str(), account) {
            assert(legs_view(list@)[i as int] == (ticket, account@));
            return true;
        }
        i += 1;
    }
    false
}

/// Registers a position opened on a single account.
pub fn register_ticket(list: &mut Vec<(u64, String)>, ticket: u64, account: &str)
    ensures
        legs_view(final(list)@) == legs_view(old(list)@).push((ticket, account@)),
{
    list.push((ticket, crate::text::owned(account)));
    assert(legs_view(list@) =~= legs_view(old(list)@).push((ticket, account@)));
}

/// Whether a registry entry survives pruning: an entry of one of the two
/// accounts stays while its ticket is open there; entries of other accounts stay.
pub open spec fn entry_still_open(
    e: (u64, Seq<char>),
    id0: Seq<char>,
    id1: Seq<char>,
    open0: Seq<u64>,
    open1: Seq<u64>,
) -> bool {
    if e.1 == id0 {
        open0.contains(e.0)
    } else if e.1 == id1 {
        open1.contains(e.0)
    } else {
        true
    }
}

/// The registry entries that survive pruning, in order.
pub open spec fn pruned(
    list: Seq<(u64, Seq<char>)>,
    id0: Seq<char>,
    id1: Seq<char>,
    open0: Seq<u64>,
    open1: Seq<u64>,
) -> Seq<(u64, Seq<char>)>
    decreases list.len(),
{
    if list.len() == 0 {
        Seq::empty()
    } else {
        let rest = pruned(list.drop_last(), id0, id1, open0, open1);
        if entry_still_open(list.last(), id0, id1, open0, open1) {
            rest.push(list.last())
        } else {
            rest
        }
    }
}

/// Drops the entries whose ticket is no longer open on its account (accounts
/// `id0` and `id1`, whose open tickets are `open0` and `open1`); says whether
/// anything was dropped.
pub fn prune_registry(
    list: &mut Vec<(u64, String)>,
    id0: &str,
    id1: &str,
    open0: &Vec<u64>,
    open1: &Vec<u64>,
) -> (changed: bool)
    ensures
        legs_view(final(list)@) == pruned(legs_view(old(list)@), id0@, id1@, open0@, open1@),
        changed == (final(list)@.len() != old(list)@.len()),
{
    let ghost orig = legs_view(list@);
    let mut kept: Vec<(u64, String)> = Vec::new();
    let mut i: usize = 0;
    while i < list.len()
        invariant
            i <= list.len(),
            orig == legs_view(list@),
            legs_view(kept@) == pruned(orig.take(i as int), id0@, id1@, open0@, open1@),
            kept@.len() <= i,
        decreases list.len() - i,
    {
        assert(orig.take(i + 1).drop_last() =~= orig.take(i as int));
        assert(orig.take(i + 1).last() == orig[i as int]);
        let t = list[i].0;
        let a = list[i].1.as_str();
        let keep = if str_eq(a, id0) {
            contains_u64(open0, t)
        } else if str_eq(a, id1) {
            contains_u64(open1, t)
        } else {
            true
        };
        if keep {
            let ghost before = kept@;
            kept.push((t, list[i].1.clone()));
            assert(legs_view(kept@) =~= legs_view(before).push(orig[i as int]));
        }
        i += 1;
    }
    assert(orig.take(list.len() as int) =~= orig);
    let changed = kept.len() != list.len();
    *list = kept;
    changed
}

/// The entries written to disk: the newest `SINGLE_ACCOUNT_TICKETS_MAX`.
pub fn entries_to_persist(list: &Vec<(u64, String)>) -> (r: Vec<(u64, String)>)
    ensures
        list@.len() <= SINGLE_ACCOUNT_TICKETS_MAX ==> r@ == list@,
        list@.len() > SINGLE_ACCOUNT_TICKETS_MAX ==> r@ == list@.skip(
            list@.len() - SINGLE_ACCOUNT_TICKETS_MAX,
        ),
        r@.len() <= SINGLE_ACCOUNT_TICKETS_MAX,
{
    let tail: usize = if list.len() > SINGLE_ACCOUNT_TICKETS_MAX {
        list.len() - SINGLE_ACCOUNT_TICKETS_MAX
    } else {
        0
    };
    let mut r: Vec<(u64, String)> = Vec::new();
    let mut i: usize = tail;
    while i < list.len()
        invariant
            tail <= i <= list.len(),
            tail == (if list@.len() > SINGLE_ACCOUNT_TICKETS_MAX {
                list@.len() - SINGLE_ACCOUNT_TICKETS_MAX
            } else {
                0
            }),
            r@ == list@.subrange(tail as int, i as int),
        decreases list.len() - i,
    {
        r.push((list[i].0, list[i].1.clone()));
        assert(r@ =~= list@.subrange(tail as int, i + 1));
        i += 1;
    }
    assert(list@.subrange(tail as int, list.len() as int) =~= list@.skip(tail as int));
    assert(list@.skip(0) =~= list@);
    r
}

/// After pruning, every entry of the two accounts names a ticket still open
/// there, and every entry that was open is still registered.
pub proof fn lemma_pruned_entries(
    list: Seq<(u64, Seq<char>)>,
    id0: Seq<char>,
    id1: Seq<char>,
    open0: Seq<u64>,
    open1: Seq<u64>,
)
    ensures
        forall|k: int|
            0 <= k < pruned(list, id0, id1, open0, open1).len() ==> entry_still_open(
                #[trigger] pruned(list, id0, id1, open0, open1)[k],
                id0,
                id1,
                open0,
                open1,
            ) && list.contains(pruned(list, id0, id1, open0, open1)[k]),
        forall|e: (u64, Seq<char>)|
            list.contains(e) && entry_still_open(e, id0, id1, open0, open1) ==> #[trigger] pruned(
                list,
                id0,
                id1,
                open0,
                open1,
            ).contains(e),
    decreases list.len(),
{
    if list.len() > 0 {
        let init = list.drop_last();
        lemma_pruned_entries(init, id0, id1, open0, open1);
        let rest = pruned(init, id0, id1, open0, open1);
        let all = pruned(list, id0, id1, open0, open1);
        assert forall|k: int| 0 <= k < all.len() implies entry_still_open(
            #[trigger] all[k],
            id0,
            id1,
            open0,
            open1,
        ) && list.contains(all[k]) by {
            if k < rest.len() {
                assert(all[k] == rest[k]);
                let j = choose|j: int| 0 <= j < init.len() && init[j] == rest[k];
                assert(list[j] == init[j]);
            } else {
                assert(list[list.len() - 1] == list.last());
            }
        }
        assert forall|e: (u64, Seq<char>)|
            list.contains(e) && entry_still_open(e, id0, id1, open0, open1) implies #[trigger] all.contains(e) by {
            let j = choose|j: int| 0 <= j < list.len() && list[j] == e;
            if j < list.len() - 1 {
                assert(init[j] == e);
                assert(rest.contains(e));
                let k = choose|k: int| 0 <= k < rest.len() && rest[k] == e;
                assert(all[k] == e);
            } else {
                assert(all[rest.len() as int] == e);
            }
        }
    }
}

// ---------------------------------------------------------------------------
// Whether the hedge logic may close a leg
// ---------------------------------------------------------------------------

/// The comment mark of single-account (FixedLot) positions.
pub open spec fn fixedlot_mark() -> Seq<char> {
    "fixedlot"@
}

/// Whether a position comment marks a single-account position: it contains
/// `fixedlot` in any case.
pub open spec fn marks_fixedlot(comment: Seq<char>) -> bool {
    seq_contains(spec_lowercase(comment), fixedlot_mark())
}

/// Whether a position comment marks a single-account position.
pub fn comment_marks_fixedlot(comment: &str) -> (r: bool)
    ensures
        r == marks_fixedlot(comment@),
{
    let lower = lowercase(comment);
    let hay = chars_of(lower.as_str());
    let needle = chars_of("fixedlot");
    contains_chars(&hay, &needle)
}

/// Why the hedge logic leaves a leg open.
#[derive(Clone, Copy, Debug, PartialEq, Eq, Structural)]
pub enum SkipReason {
    /// The position is registered as a single-account position.
    Registered,
    /// The position's comment marks it as a single-account position.
    FixedlotComment,
}

/// The first check on a leg the hedge logic would close.
#[derive(Clone, Copy, Debug, PartialEq, Eq, Structural)]
pub enum RegistryCheck {
    /// Leave the leg open.
    Skip,
    /// Not registered: read the position's comment next.
    CheckComment,
}

/// The registry check on a leg: a registered leg is never closed.
pub fn check_registry(list: &Vec<(u64, String)>, ticket: u64, account: &str) -> (r: RegistryCheck)
    ensures
        r == (if is_registered(legs_view(list@), ticket, account@) {
            RegistryCheck::Skip
        } else {
            RegistryCheck::CheckComment
        }),
{
    if registered(list, ticket, account) {
        RegistryCheck::Skip
    } else {
        RegistryCheck::CheckComment
    }
}

/// The decision on a leg once its comment is known.
#[derive(Clone, Copy, Debug, PartialEq, Eq, Structural)]
pub enum LegAction {
    /// Leave the leg open.
    Skip(SkipReason),
    /// Close the leg.
    Close,
}

/// The decision on an unregistered leg from its comment.
pub fn check_comment(comment: &str) -> (r: LegAction)
    ensures
        r == (if marks_fixedlot(comment@) {
            LegAction::Skip(SkipReason::FixedlotComment)
        } else {
            LegAction::Close
        }),
{
    if comment_marks_fixedlot(comment) {
        LegAction::Skip(SkipReason::FixedlotComment)
    } else {
        LegAction::Close
    }
}

/// The comment as the hedge logic reads it: a comment that could not be read
/// counts as empty.
pub open spec fn comment_read(comment: Option<Seq<char>>) -> Seq<char> {
    match comment {
        Some(c) => c,
        None => Seq::empty(),
    }
}

/// The decision on an unregistered leg from what reading its comment gave: a
/// leg whose comment marks it is left open; any other leg, one whose comment
/// could not be read included, is closed.
pub open spec fn spec_comment_action(comment: Option<Seq<char>>) -> LegAction {
    if marks_fixedlot(comment_read(comment)) {
        LegAction::Skip(SkipReason::FixedlotComment)
    } else {
        LegAction::Close
    }
}

/// The decision on an unregistered leg from what reading its comment gave.
pub fn leg_action(comment: &Option<String>) -> (r: LegAction)
    ensures
        r == spec_comment_action(match comment {
            Some(c) => Some(c@),
            None => None,
        }),
{
    match comment {
        Some(c) => check_comment(c.as_str()),
        None => {
            proof {
                reveal_strlit("");
            }
            assert(""@ =~= Seq::<char>::empty());
            check_comment("")
        },
    }
}

/// The whole decision on a leg: registered legs and legs whose comment marks
/// them as single-account are left open, all others are closed.
pub open spec fn spec_leg_action(
    list: Seq<(u64, Seq<char>)>,
    ticket: u64,
    account: Seq<char>,
    comment: Seq<char>,
) -> LegAction {
    if is_registered(list, ticket, account) {
        LegAction::Skip(SkipReason::Registered)
    } else if marks_fixedlot(comment) {
        LegAction::Skip(SkipReason::FixedlotComment)
    } else {
        LegAction::Close
    }
}

/// The hedge logic never closes a single-account position: a registered leg,
/// or one whose comment contains `fixedlot`, is never closed, whatever its comment.
pub proof fn lemma_protected_leg_never_closed(
    list: Seq<(u64, Seq<char>)>,
    ticket: u64,
    account: Seq<char>,
    comment: Seq<char>,
)
    requires
        is_registered(list, ticket, account) || marks_fixedlot(comment),
    ensures
        spec_leg_action(list, ticket, account, comment) != LegAction::Close,
{
}

/// A position registered when it was opened on a single account is never
/// closed by the hedge logic while it is open: registering it, then pruning
/// the registry against the open tickets, leaves it registered, and the leg
/// decision on it is not to close, whatever its comment.
pub proof fn lemma_registered_open_leg_protected(
    list: Seq<(u64, Seq<char>)>,
    ticket: u64,
    account: Seq<char>,
    id0: Seq<char>,
    id1: Seq<char>,
    open0: Seq<u64>,
    open1: Seq<u64>,
    comment: Seq<char>,
)
    requires
        entry_still_open((ticket, account), id0, id1, open0, open1),
    ensures
        is_registered(pruned(list.push((ticket, account)), id0, id1, open0, open1), ticket, account),
        spec_leg_action(pruned(list.push((ticket, account)), id0, id1, open0, open1), ticket, account, comment)
            != LegAction::Close,
{
    let l = list.push((ticket, account));
    lemma_pruned_entries(l, id0, id1, open0, open1);
    assert(l[list.len() as int] == (ticket, account));
    assert(l.contains((ticket, account)));
}

} // verus!
