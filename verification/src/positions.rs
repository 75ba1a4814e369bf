//! Reading the bridge's `positions` reply: the open tickets of an account and
//! the comment of one position (the hedge logic reads both). A reply without
//! a `positions` array tells nothing about the account, and is read as such.
use vstd::prelude::*;

use crate::bridge::str_or_empty;
use crate::json::{field_str, field_u64, json_array_items, json_field, spec_json_array_items, spec_json_field, u64_of};

verus! {

/// The listed positions of a `positions` reply, each as JSON text; `None`
/// when the reply has no `positions` array (the query failed).
pub open spec fn listed_positions(reply: Seq<char>) -> Option<Seq<Seq<char>>> {
    spec_json_array_items(reply, "positions"@)
}

/// The ticket of a listed position, when its `ticket` is an unsigned integer.
pub open spec fn item_ticket(item: Seq<char>) -> Option<u64> {
    u64_of(spec_json_field(item, "ticket"@))
}

/// The tickets of the listed positions that have one, in order.
pub open spec fn item_tickets(items: Seq<Seq<char>>) -> Seq<u64>
    decreases items.len(),
{
    if items.len() == 0 {
        Seq::empty()
    } else {
        let rest = item_tickets(items.drop_last());
        match item_ticket(items.last()) {
            Some(t) => rest.push(t),
            None => rest,
        }
    }
}

/// The comment of the first listed position with this ticket (empty when it
/// has no string comment, or when no position has this ticket).
pub open spec fn item_comment(items: Seq<Seq<char>>, ticket: u64) -> Seq<char>
    decreases items.len(),
{
    if items.len() == 0 {
        Seq::empty()
    } else if item_ticket(items[0]) == Some(ticket) {
        str_or_empty(items[0], "comment"@)
    } else {
        item_comment(items.drop_first(), ticket)
    }
}

/// The open tickets a `positions` reply lists; `None` when the reply has no
/// `positions` array.
pub fn position_tickets(reply: &str) -> (r: Option<Vec<u64>>)
    ensures
        match listed_positions(reply@) {
            Some(items) => r matches Some(v) && v@ == item_tickets(items),
            None => r is None,
        },
{
    let items = match json_array_items(reply, "positions") {
        Some(v) => v,
        None => return None,
    };
    let ghost all = crate::lexorder::views(items@);
    let mut r: Vec<u64> = Vec::new();
    let mut i: usize = 0;
    while i < items.len()
        invariant
            i <= items.len(),
            all == crate::lexorder::views(items@),
            r@ == item_tickets(all.take(i as int)),
        decreases items.len() - i,
    {
        assert(all.take(i + 1).drop_last() =~= all.take(i as int));
        assert(all.take(i + 1).last() == items@[i as int]@);
        match field_u64(&json_field(items[i].as_str(), "ticket")) {
            Some(t) => r.push(t),
            None => {},
        }
        i += 1;
    }
    assert(all.take(items.len() as int) =~= all);
    Some(r)
}

/// The comment of the position with this ticket in a `positions` reply
/// (empty when the reply does not list it); `None` when the reply has no
/// `positions` array.
pub fn position_comment(reply: &str, ticket: u64) -> (r: Option<String>)
    ensures
        match listed_positions(reply@) {
            Some(items) => r matches Some(c) && c@ == item_comment(items, ticket),
            None => r is None,
        },
{
    let items = match json_array_items(reply, "positions") {
        Some(v) => v,
        None => return None,
    };
    let ghost all = crate::lexorder::views(items@);
    let mut i: usize = 0;
    assert(all.skip(0) =~= all);
    while i < items.len()
        invariant
            i <= items.len(),
            all == crate::lexorder::views(items@),
            listed_positions(reply@) == Some(all),
            item_comment(all, ticket) == item_comment(all.skip(i as int), ticket),
        decreases items.len() - i,
    {
        let ghost rest = all.skip(i as int);
        assert(rest[0] == items@[i as int]@);
        assert(rest.drop_first() =~= all.skip(i + 1));
        let tf = json_field(items[i].as_str(), "ticket");
        if field_u64(&tf) == Some(ticket) {
            assert(item_ticket(rest[0]) == Some(ticket));
            let cf = json_field(items[i].as_str(), "comment");
            let c = match field_str(&cf) {
                Some(c) => c,
                None => String::new(),
            };
            return Some(c);
        }
        i += 1;
    }
    assert(all.skip(items.len() as int) =~= Seq::<Seq<char>>::empty());
    Some(String::new())
}

} // verus!
