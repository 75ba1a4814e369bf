//! The "close orphan" request a hedge watcher sends when it sees one leg of a
//! pair closed: the pair is dropped and the other leg closed, unless that leg
//! is a single-account position.
use vstd::prelude::*;

use crate::accounts::{get_terminal_path_static, is_known_account};
use crate::pairs::{remove_pair_with_leg, PositionPair};
use crate::tickets::{comment_read, is_registered, marks_fixedlot, registered, comment_marks_fixedlot};
use crate::pairs::legs_view;

verus! {

/// Whether some pair has leg `ticket` on `account`.
pub open spec fn has_pair_with_leg(pairs: Seq<PositionPair>, ticket: u64, account: Seq<char>) -> bool {
    exists|i: int| 0 <= i < pairs.len() && (#[trigger] pairs[i]).has_leg(ticket, account)
}

/// `after` is `before` without its first pair that has leg `ticket` on `account`
/// (or `before` itself when there is none).
pub open spec fn first_leg_pair_removed(
    before: Seq<PositionPair>,
    after: Seq<PositionPair>,
    ticket: u64,
    account: Seq<char>,
) -> bool {
    if has_pair_with_leg(before, ticket, account) {
        exists|i: int|
            0 <= i < before.len() && before[i].has_leg(ticket, account) && (forall|k: int|
                0 <= k < i ==> !(#[trigger] before[k]).has_leg(ticket, account)) && after
                == before.remove(i)
    } else {
        after == before
    }
}

/// The first step of an orphan request.
#[derive(Clone, Copy, Debug, PartialEq, Eq, Structural)]
pub enum OrphanStart {
    /// The account is not one of the fixed accounts (nothing changes).
    UnknownAccount,
    /// The ticket is a registered single-account position: it is not closed;
    /// its pair, if any, was dropped.
    Skipped { pair_removed: bool },
    /// Read the position's comment, then call `orphan_request_finish`.
    CheckComment,
}

/// The first step of an orphan request for `ticket` on `account`.
pub fn orphan_request_start(
    pairs: &mut Vec<PositionPair>,
    registry: &Vec<(u64, String)>,
    ticket: u64,
    account: &str,
) -> (r: OrphanStart)
    ensures
        !is_known_account(account@) ==> r == OrphanStart::UnknownAccount && final(pairs)@ == old(
            pairs,
        )@,
        is_known_account(account@) && is_registered(legs_view(registry@), ticket, account@) ==> r
            == (OrphanStart::Skipped {
            pair_removed: has_pair_with_leg(old(pairs)@, ticket, account@),
        }) && first_leg_pair_removed(old(pairs)@, final(pairs)@, ticket, account@),
        is_known_account(account@) && !is_registered(legs_view(registry@), ticket, account@)
            ==> r == OrphanStart::CheckComment && final(pairs)@ == old(pairs)@,
{
    if get_terminal_path_static(account).is_none() {
        return OrphanStart::UnknownAccount;
    }
    if registered(registry, ticket, account) {
        let removed = remove_pair_with_leg(pairs, ticket, account);
        return OrphanStart::Skipped { pair_removed: removed };
    }
    OrphanStart::CheckComment
}

/// The last step of an orphan request.
#[derive(Clone, Copy, Debug, PartialEq, Eq, Structural)]
pub enum OrphanFinish {
    /// The comment marks a single-account position: it is not closed; its
    /// pair, if any, was dropped.
    Skipped { pair_removed: bool },
    /// No tracked pair has this leg (nothing changes, nothing is closed).
    NotFound,
    /// The pair was dropped: close the position.
    Close,
}

/// The last step of an orphan request, given what reading the position's
/// comment gave (`None` when it could not be read, which counts as an empty
/// comment).
pub fn orphan_request_finish(
    pairs: &mut Vec<PositionPair>,
    ticket: u64,
    account: &str,
    comment: &Option<String>,
) -> (r: OrphanFinish)
    ensures
        ({
            let c = comment_read(match comment {
                Some(x) => Some(x@),
                None => None,
            });
            &&& first_leg_pair_removed(old(pairs)@, final(pairs)@, ticket, account@)
            &&& marks_fixedlot(c) ==> r == (OrphanFinish::Skipped {
                pair_removed: has_pair_with_leg(old(pairs)@, ticket, account@),
            })
            &&& !marks_fixedlot(c) && has_pair_with_leg(old(pairs)@, ticket, account@) ==> r
                == OrphanFinish::Close
            &&& !marks_fixedlot(c) && !has_pair_with_leg(old(pairs)@, ticket, account@) ==> r
                == OrphanFinish::NotFound
        }),
{
    let fixedlot = match comment {
        Some(c) => comment_marks_fixedlot(c.as_str()),
        None => {
            proof {
                reveal_strlit("");
            }
            assert(""@ =~= Seq::<char>::empty());
            comment_marks_fixedlot("")
        },
    };
    let removed = remove_pair_with_leg(pairs, ticket, account);
    if fixedlot {
        OrphanFinish::Skipped { pair_removed: removed }
    } else if removed {
        OrphanFinish::Close
    } else {
        OrphanFinish::NotFound
    }
}

/// An orphan request never closes a single-account position: it reaches the
/// comment step only for unregistered tickets, and closes only when the comment
/// (empty when it could not be read) does not mark the position and a tracked
/// pair had that leg.
pub proof fn lemma_orphan_request_protects(
    registry: Seq<(u64, Seq<char>)>,
    pairs: Seq<PositionPair>,
    ticket: u64,
    account: Seq<char>,
    comment: Option<Seq<char>>,
    start: OrphanStart,
    finish: OrphanFinish,
)
    requires
        start == (if !is_known_account(account) {
            OrphanStart::UnknownAccount
        } else if is_registered(registry, ticket, account) {
            OrphanStart::Skipped { pair_removed: has_pair_with_leg(pairs, ticket, account) }
        } else {
            OrphanStart::CheckComment
        }),
        start == OrphanStart::CheckComment ==> finish == (if marks_fixedlot(comment_read(comment)) {
            OrphanFinish::Skipped { pair_removed: has_pair_with_leg(pairs, ticket, account) }
        } else if has_pair_with_leg(pairs, ticket, account) {
            OrphanFinish::Close
        } else {
            OrphanFinish::NotFound
        }),
    ensures
        start == OrphanStart::CheckComment && finish == OrphanFinish::Close ==> !is_registered(
            registry,
            ticket,
            account,
        ) && !marks_fixedlot(comment_read(comment)) && is_known_account(account) && has_pair_with_leg(
            pairs,
            ticket,
            account,
        ),
{
}

} // verus!
