//! The two fixed trading accounts of the panel (Broker B, id `default`, and
//! Exness, id `exness`): their MT5 terminal paths, the hedge watchers' close
//! URLs, display labels and account-id resolution.
use vstd::prelude::*;

use crate::text::{str_concat, owned, str_eq};

verus! {

/// Terminal path of the `default` account.
pub open spec fn default_terminal_path() -> Seq<char> {
    r"C:\Program Files\MetaTrader 5\terminal64.exe"@
}

/// Terminal path of the `exness` account.
pub open spec fn exness_terminal_path() -> Seq<char> {
    r"C:\Program Files\MetaTrader 5 EXNESS\terminal64.exe"@
}

/// The MT5 terminal path of an account, for the two fixed accounts only.
pub open spec fn spec_terminal_path(account_id: Seq<char>) -> Option<Seq<char>> {
    if account_id == "default"@ {
        Some(default_terminal_path())
    } else if account_id == "exness"@ {
        Some(exness_terminal_path())
    } else {
        None
    }
}

/// Whether `account_id` names one of the fixed accounts.
pub open spec fn is_known_account(account_id: Seq<char>) -> bool {
    spec_terminal_path(account_id) is Some
}

/// The close endpoint of the hedge watcher of an account; empty for other ids.
pub open spec fn spec_watcher_close_url(account_id: Seq<char>) -> Seq<char> {
    if account_id == "default"@ {
        "http://127.0.0.1:3100/close"@
    } else if account_id == "exness"@ {
        "http://127.0.0.1:3101/close"@
    } else {
        Seq::empty()
    }
}

/// The display label of an account; `Unknown` for other ids.
pub open spec fn spec_account_label(account_id: Seq<char>) -> Seq<char> {
    if account_id == "default"@ {
        "MT5 (Default)"@
    } else if account_id == "exness"@ {
        "MT5 - EXNESS"@
    } else {
        "Unknown"@
    }
}

/// The message of a refused account id.
pub open spec fn unknown_account_message(account_id: Seq<char>) -> Seq<char> {
    "Unknown account_id: "@ + account_id + ". Use one of: default, exness"@
}

/// The MT5 terminal path of a fixed account, `None` for any other id.
pub fn get_terminal_path_static(account_id: &str) -> (r: Option<&'static str>)
    ensures
        match r {
            Some(p) => spec_terminal_path(account_id@) == Some(p@),
            None => spec_terminal_path(account_id@) is None,
        },
{
    if str_eq(account_id, "default") {
        Some(r"C:\Program Files\MetaTrader 5\terminal64.exe")
    } else if str_eq(account_id, "exness") {
        Some(r"C:\Program Files\MetaTrader 5 EXNESS\terminal64.exe")
    } else {
        None
    }
}

/// The terminal path of an account as an owned string.
pub fn get_path_for_account(account_id: &str) -> (r: Option<String>)
    ensures
        match r {
            Some(p) => spec_terminal_path(account_id@) == Some(p@),
            None => spec_terminal_path(account_id@) is None,
        },
{
    match get_terminal_path_static(account_id) {
        Some(p) => Some(owned(p)),
        None => None,
    }
}

/// The close URL of the hedge watcher that serves an account (empty if none).
pub fn get_watcher_close_url(account_id: &str) -> (r: String)
    ensures
        r@ == spec_watcher_close_url(account_id@),
{
    if str_eq(account_id, "default") {
        owned("http://127.0.0.1:3100/close")
    } else if str_eq(account_id, "exness") {
        owned("http://127.0.0.1:3101/close")
    } else {
        String::new()
    }
}

/// The display label of an account (`Unknown` for ids that are not fixed accounts).
pub fn account_label(account_id: &str) -> (r: String)
    ensures
        r@ == spec_account_label(account_id@),
{
    if str_eq(account_id, "default") {
        owned("MT5 (Default)")
    } else if str_eq(account_id, "exness") {
        owned("MT5 - EXNESS")
    } else {
        owned("Unknown")
    }
}

/// The fixed accounts as `(id, label)`, in panel order.
pub fn fixed_accounts() -> (r: Vec<(String, String)>)
    ensures
        r@.len() == 2,
        r@[0].0@ == "default"@,
        r@[0].1@ == "MT5 (Default)"@,
        r@[1].0@ == "exness"@,
        r@[1].1@ == "MT5 - EXNESS"@,
{
    let mut v: Vec<(String, String)> = Vec::new();
    v.push((owned("default"), owned("MT5 (Default)")));
    v.push((owned("exness"), owned("MT5 - EXNESS")));
    v
}

/// The account a request names (`default` when it names none), or the refusal
/// message when that is not a fixed account.
pub fn resolve_account_id(account_id: Option<String>) -> (r: Result<String, String>)
    ensures
        ({
            let id = match account_id {
                Some(a) => a@,
                None => "default"@,
            };
            match r {
                Ok(x) => is_known_account(id) && x@ == id,
                Err(e) => !is_known_account(id) && e@ == unknown_account_message(id),
            }
        }),
{
    let id = match account_id {
        Some(a) => a,
        None => owned("default"),
    };
    if get_terminal_path_static(id.as_str()).is_some() {
        Ok(id)
    } else {
        let head = str_concat("Unknown account_id: ", id.as_str());
        Err(str_concat(head.as_str(), ". Use one of: default, exness"))
    }
}

} // verus!
