//! Reading what the Python MT5 bridge (and the services the panel calls)
//! answer: bridge error messages, the result of opening one leg, the ticket of
//! a single-account order, and the `ok` flags of JSON replies.
use vstd::prelude::*;

use crate::json::{
    bool_or_false, field_bool, field_str, field_u64, json_field, opt_field_view, spec_json_field,
    str_of, u64_of, JsonFieldView,
};
use crate::orders::OrderSide;
use crate::text::{
    chars_from, chars_of, str_concat, owned, starts_with_chars, string_of,
};

verus! {

/// The prefix the panel puts before a failed bridge run's output.
pub open spec fn bridge_error_prefix() -> Seq<char> {
    "Bridge error: "@
}

/// A string field of a JSON text, if it holds a string.
pub open spec fn json_str(text: Seq<char>, key: Seq<char>) -> Option<Seq<char>> {
    str_of(spec_json_field(text, key))
}

/// The message and optional hint of a bridge error text. A text of the form
/// `Bridge error: {json}` gives the JSON's `message` (or else its `error`, or
/// else nothing), followed by ` — hint` when the JSON has a non-empty `hint`;
/// any other text is its own message.
pub open spec fn spec_parse_bridge_error(e: Seq<char>) -> (Seq<char>, Option<Seq<char>>) {
    let p = bridge_error_prefix();
    if !(e.len() >= p.len() && e.take(p.len() as int) == p) {
        (e, None)
    } else {
        let j = e.skip(p.len() as int);
        if spec_json_field(j, "message"@) is None {
            (e, None)
        } else {
            let msg = match json_str(j, "message"@) {
                Some(m) => m,
                None => match json_str(j, "error"@) {
                    Some(x) => x,
                    None => Seq::empty(),
                },
            };
            let hint = match json_str(j, "hint"@) {
                Some(h) => if h.len() > 0 {
                    Some(h)
                } else {
                    None
                },
                None => None,
            };
            match hint {
                Some(h) => (msg + " — "@ + h, Some(h)),
                None => (msg, None),
            }
        }
    }
}

/// The view of an optional string.
pub open spec fn opt_view(s: Option<String>) -> Option<Seq<char>> {
    match s {
        Some(x) => Some(x@),
        None => None,
    }
}

/// A clean message and an optional hint from a bridge error text.
pub fn parse_bridge_error(e: &str) -> (r: (String, Option<String>))
    ensures
        (r.0@, opt_view(r.1)) == spec_parse_bridge_error(e@),
{
    let chars = chars_of(e);
    let prefix = chars_of("Bridge error: ");
    if !starts_with_chars(&chars, &prefix) {
        return (owned(e), None);
    }
    let rest = string_of(&chars_from(&chars, prefix.len()));
    let message_field = json_field(rest.as_str(), "message");
    if message_field.is_none() {
        return (owned(e), None);
    }
    let msg = match field_str(&message_field) {
        Some(m) => m,
        None => match field_str(&json_field(rest.as_str(), "error")) {
            Some(x) => x,
            None => String::new(),
        },
    };
    let hint = match field_str(&json_field(rest.as_str(), "hint")) {
        Some(h) => if h.as_str().is_empty() {
            None
        } else {
            Some(h)
        },
        None => None,
    };
    match hint {
        Some(h) => {
            let head = str_concat(msg.as_str(), " — ");
            (str_concat(head.as_str(), h.as_str()), Some(h))
        },
        None => (msg, None),
    }
}

/// How one leg of a multi-account order went.
#[derive(Debug)]
pub struct LegResult {
    pub account_id: String,
    /// The account label followed by the side in capitals, e.g. `MT5 (Default) (BUY)`.
    pub label: String,
    pub ok: bool,
    pub message: String,
    pub order_ticket: Option<u64>,
}

/// The label of a leg: the account label and the side in brackets.
pub open spec fn leg_label(label: Seq<char>, side: OrderSide) -> Seq<char> {
    label + " ("@ + side.spec_label() + ")"@
}

/// The `ok`, message and ticket a bridge reply gives for one leg: a reply that
/// is not JSON counts as a failure with message `invalid_message`; a JSON reply
/// gives its `ok` flag (false when absent), its `message` (or else `error`, or
/// else empty) and its `order_ticket`; a failed bridge run gives the cleaned
/// error message.
pub open spec fn spec_leg_outcome(outcome: Result<Seq<char>, Seq<char>>, invalid_message: Seq<char>) -> (
    bool,
    Seq<char>,
    Option<u64>,
) {
    match outcome {
        Ok(s) => if spec_json_field(s, "ok"@) is None {
            (false, invalid_message, None)
        } else {
            (
                bool_or_false(spec_json_field(s, "ok"@)),
                match json_str(s, "message"@) {
                    Some(m) => m,
                    None => match json_str(s, "error"@) {
                        Some(x) => x,
                        None => Seq::empty(),
                    },
                },
                u64_of(spec_json_field(s, "order_ticket"@)),
            )
        },
        Err(e) => (false, spec_parse_bridge_error(e).0, None),
    }
}

/// The view of a bridge outcome.
pub open spec fn outcome_view(o: Result<String, String>) -> Result<Seq<char>, Seq<char>> {
    match o {
        Ok(s) => Ok(s@),
        Err(e) => Err(e@),
    }
}

/// The result of one leg from what the bridge gave for it.
pub fn parse_leg_result(
    outcome: &Result<String, String>,
    account_id: &str,
    label: &str,
    side: OrderSide,
    invalid_message: &str,
) -> (r: LegResult)
    ensures
        r.account_id@ == account_id@,
        r.label@ == leg_label(label@, side),
        (r.ok, r.message@, r.order_ticket) == spec_leg_outcome(
            outcome_view(*outcome),
            invalid_message@,
        ),
{
    let head = str_concat(label, " (");
    let with_side = str_concat(head.as_str(), side.label().as_str());
    let full_label = str_concat(with_side.as_str(), ")");
    match outcome {
        Ok(s) => {
            let ok_field = json_field(s.as_str(), "ok");
            if ok_field.is_none() {
                return LegResult {
                    account_id: owned(account_id),
                    label: full_label,
                    ok: false,
                    message: owned(invalid_message),
                    order_ticket: None,
                };
            }
            let message = match field_str(&json_field(s.as_str(), "message")) {
                Some(m) => m,
                None => match field_str(&json_field(s.as_str(), "error")) {
                    Some(x) => x,
                    None => String::new(),
                },
            };
            LegResult {
                account_id: owned(account_id),
                label: full_label,
                ok: field_bool(&ok_field),
                message,
                order_ticket: field_u64(&json_field(s.as_str(), "order_ticket")),
            }
        },
        Err(e) => {
            let (message, _) = parse_bridge_error(e.as_str());
            LegResult {
                account_id: owned(account_id),
                label: full_label,
                ok: false,
                message,
                order_ticket: None,
            }
        },
    }
}

/// The ticket a single-account order reply reports: its `order_ticket`, or its
/// `position` when there is no `order_ticket` key, as a `u64`.
pub open spec fn spec_created_ticket(reply: Seq<char>) -> Option<u64> {
    match spec_json_field(reply, "order_ticket"@) {
        None => None,
        Some(JsonFieldView::Missing) => u64_of(spec_json_field(reply, "position"@)),
        f => u64_of(f),
    }
}

/// The ticket of the position a single-account order opened, if the reply names one.
pub fn created_ticket(reply: &str) -> (r: Option<u64>)
    ensures
        r == spec_created_ticket(reply@),
{
    let f = json_field(reply, "order_ticket");
    match f {
        None => None,
        Some(crate::json::JsonField::Missing) => field_u64(&json_field(reply, "position")),
        _ => field_u64(&f),
    }
}

/// The ticket to register after an order: only an order placed on a named
/// single account (FixedLot) registers the ticket its reply reports.
pub fn ticket_to_register(single_account: bool, reply: &str) -> (r: Option<u64>)
    ensures
        r == (if single_account {
            spec_created_ticket(reply@)
        } else {
            None
        }),
{
    if single_account {
        created_ticket(reply)
    } else {
        None
    }
}

/// Whether a JSON reply says `"ok": true` (anything else, or a reply that is
/// not JSON, counts as not ok).
pub fn reply_ok(reply: &str) -> (r: bool)
    ensures
        r == bool_or_false(spec_json_field(reply@, "ok"@)),
{
    field_bool(&json_field(reply, "ok"))
}

/// What the order endpoints answered the worker.
#[derive(Debug)]
pub struct OrderReply {
    pub ok: bool,
    pub one_sided_rollback: bool,
    pub message: String,
    pub error: String,
}

/// The string field `key` of a reply, empty when it holds none.
pub open spec fn str_or_empty(reply: Seq<char>, key: Seq<char>) -> Seq<char> {
    match json_str(reply, key) {
        Some(s) => s,
        None => Seq::empty(),
    }
}

/// The `ok`, `one_sided_rollback`, `message` and `error` fields of a reply
/// (false or empty when absent or when the reply is not JSON).
pub fn parse_order_reply(reply: &str) -> (r: OrderReply)
    ensures
        r.ok == bool_or_false(spec_json_field(reply@, "ok"@)),
        r.one_sided_rollback == bool_or_false(spec_json_field(reply@, "one_sided_rollback"@)),
        r.message@ == str_or_empty(reply@, "message"@),
        r.error@ == str_or_empty(reply@, "error"@),
{
    let message = match field_str(&json_field(reply, "message")) {
        Some(m) => m,
        None => String::new(),
    };
    let error = match field_str(&json_field(reply, "error")) {
        Some(e) => e,
        None => String::new(),
    };
    OrderReply {
        ok: field_bool(&json_field(reply, "ok")),
        one_sided_rollback: field_bool(&json_field(reply, "one_sided_rollback")),
        message,
        error,
    }
}

/// Whether an order request placed its order: the HTTP status was a success,
/// and the reply says `"ok": true` without a one-sided rollback.
pub fn placement_succeeded(status_ok: bool, reply: &str) -> (r: bool)
    ensures
        r == (status_ok && bool_or_false(spec_json_field(reply@, "ok"@)) && !bool_or_false(
            spec_json_field(reply@, "one_sided_rollback"@),
        )),
{
    let parsed = parse_order_reply(reply);
    status_ok && parsed.ok && !parsed.one_sided_rollback
}

} // verus!
