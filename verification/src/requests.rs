//! Request parameters and summaries of the panel's API: the symbol list of
//! the tick stream, the scope and summary of "close all positions", and the
//! summary of "close all pairs".
use vstd::prelude::*;

use crate::accounts::{get_path_for_account, is_known_account, resolve_account_id, spec_terminal_path, unknown_account_message};
use crate::lexorder::{is_sorted_dedup_of, sort_dedup, views};
use crate::text::{
    chars_of, str_concat, owned, spec_decimal, spec_trim, string_of, trim, u64_to_decimal,
};

verus! {

// ---------------------------------------------------------------------------
// Tick stream symbols
// ---------------------------------------------------------------------------

/// The most symbols one tick stream serves.
pub const SYMBOL_TICKS_MAX_SYMBOLS: usize = 120;

/// The pieces of `s` between commas (`str::split(',')`): one more than there
/// are commas.
pub open spec fn split_commas(s: Seq<char>) -> Seq<Seq<char>>
    decreases s.len(),
{
    if s.len() == 0 {
        seq![Seq::empty()]
    } else {
        let init = split_commas(s.drop_last());
        if s.last() == ',' {
            init.push(Seq::empty())
        } else {
            init.update(init.len() - 1, init.last().push(s.last()))
        }
    }
}

proof fn lemma_split_nonempty(s: Seq<char>)
    ensures
        split_commas(s).len() >= 1,
    decreases s.len(),
{
    if s.len() > 0 {
        lemma_split_nonempty(s.drop_last());
    }
}

/// The trimmed pieces that are not empty, in order.
pub open spec fn nonempty_trimmed(pieces: Seq<Seq<char>>) -> Seq<Seq<char>>
    decreases pieces.len(),
{
    if pieces.len() == 0 {
        Seq::empty()
    } else {
        let rest = nonempty_trimmed(pieces.drop_last());
        let t = spec_trim(pieces.last());
        if t.len() > 0 {
            rest.push(t)
        } else {
            rest
        }
    }
}

/// The symbols a tick stream request names: the comma-separated names,
/// trimmed, without empty ones, the first 120 of them.
pub open spec fn requested_symbols(raw: Seq<char>) -> Seq<Seq<char>> {
    let all = nonempty_trimmed(split_commas(raw));
    if all.len() > SYMBOL_TICKS_MAX_SYMBOLS {
        all.take(SYMBOL_TICKS_MAX_SYMBOLS as int)
    } else {
        all
    }
}

/// The pieces of a text between commas.
fn split_on_commas(s: &Vec<char>) -> (r: Vec<Vec<char>>)
    ensures
        r@.len() == split_commas(s@).len(),
        forall|i: int| 0 <= i < r@.len() ==> (#[trigger] r@[i])@ == split_commas(s@)[i],
{
    let mut pieces: Vec<Vec<char>> = Vec::new();
    let mut cur: Vec<char> = Vec::new();
    let mut i: usize = 0;
    while i < s.len()
        invariant
            i <= s.len(),
            pieces@.len() + 1 == split_commas(s@.take(i as int)).len(),
            forall|k: int| 0 <= k < pieces@.len() ==> (#[trigger] pieces@[k])@ == split_commas(
                s@.take(i as int),
            )[k],
            cur@ == split_commas(s@.take(i as int)).last(),
        decreases s.len() - i,
    {
        let c = s[i];
        let ghost prev = split_commas(s@.take(i as int));
        assert(s@.take(i + 1).drop_last() =~= s@.take(i as int));
        assert(s@.take(i + 1).last() == c);
        if c == ',' {
            let ghost old_pieces = pieces@;
            let mut done: Vec<char> = Vec::new();
            std::mem::swap(&mut done, &mut cur);
            pieces.push(done);
            assert forall|k: int| 0 <= k < pieces@.len() implies (#[trigger] pieces@[k])@
                == split_commas(s@.take(i + 1))[k] by {
                if k < old_pieces.len() {
                    assert(pieces@[k] == old_pieces[k]);
                }
            }
        } else {
            cur.push(c);
        }
        i += 1;
    }
    assert(s@.take(s.len() as int) =~= s@);
    pieces.push(cur);
    pieces
}

/// The symbols a tick stream request names, sorted without duplicates.
pub fn parse_symbol_list(raw: Option<String>) -> (r: Vec<String>)
    ensures
        is_sorted_dedup_of(
            views(r@),
            requested_symbols(
                match raw {
                    Some(s) => s@,
                    None => Seq::empty(),
                },
            ),
        ),
        r@.len() <= SYMBOL_TICKS_MAX_SYMBOLS,
{
    let text = match raw {
        Some(s) => s,
        None => String::new(),
    };
    let chars = chars_of(text.as_str());
    let pieces = split_on_commas(&chars);
    let ghost all = nonempty_trimmed(split_commas(chars@));
    let mut picked: Vec<String> = Vec::new();
    let mut i: usize = 0;
    while i < pieces.len() && picked.len() < SYMBOL_TICKS_MAX_SYMBOLS
        invariant
            i <= pieces@.len(),
            pieces@.len() == split_commas(chars@).len(),
            forall|k: int| 0 <= k < pieces@.len() ==> (#[trigger] pieces@[k])@ == split_commas(
                chars@,
            )[k],
            views(picked@) == nonempty_trimmed(split_commas(chars@).take(i as int)),
            picked@.len() <= SYMBOL_TICKS_MAX_SYMBOLS,
        decreases pieces@.len() - i,
    {
        let piece = string_of(&pieces[i]);
        let t = trim(piece.as_str());
        let ghost prior = picked@;
        assert(split_commas(chars@).take(i + 1).drop_last() =~= split_commas(chars@).take(
            i as int,
        ));
        assert(split_commas(chars@).take(i + 1).last() == pieces@[i as int]@);
        if !t.as_str().is_empty() {
            picked.push(t);
            assert(views(picked@) =~= views(prior).push(spec_trim(pieces@[i as int]@)));
        }
        i += 1;
    }
    proof {
        lemma_nonempty_trimmed_prefix(split_commas(chars@), i as int);
        if i < pieces@.len() {
            // the first 120 are found before the end
            assert(picked@.len() == SYMBOL_TICKS_MAX_SYMBOLS);
            assert(views(picked@) == all.take(SYMBOL_TICKS_MAX_SYMBOLS as int));
            if all.len() == SYMBOL_TICKS_MAX_SYMBOLS {
                assert(all.take(SYMBOL_TICKS_MAX_SYMBOLS as int) =~= all);
            }
        } else {
            assert(split_commas(chars@).take(i as int) =~= split_commas(chars@));
        }
        assert(views(picked@) == requested_symbols(chars@));
    }
    sort_dedup(&picked)
}

/// Filtering a prefix gives a prefix of the filtered list, and once that
/// prefix already holds the limit, it is exactly the first `limit` entries.
proof fn lemma_nonempty_trimmed_prefix(pieces: Seq<Seq<char>>, i: int)
    requires
        0 <= i <= pieces.len(),
    ensures
        nonempty_trimmed(pieces.take(i)).len() <= nonempty_trimmed(pieces).len(),
        nonempty_trimmed(pieces.take(i)) == nonempty_trimmed(pieces).take(
            nonempty_trimmed(pieces.take(i)).len() as int,
        ),
    decreases pieces.len() - i,
{
    if i == pieces.len() {
        assert(pieces.take(i) =~= pieces);
        assert(nonempty_trimmed(pieces).take(nonempty_trimmed(pieces).len() as int)
            =~= nonempty_trimmed(pieces));
    } else {
        lemma_nonempty_trimmed_prefix(pieces, i + 1);
        assert(pieces.take(i + 1).drop_last() =~= pieces.take(i));
        let a = nonempty_trimmed(pieces.take(i));
        let b = nonempty_trimmed(pieces.take(i + 1));
        let full = nonempty_trimmed(pieces);
        assert(b == full.take(b.len() as int));
        if b.len() == a.len() {
            assert(a == b);
        } else {
            assert(b == a.push(spec_trim(pieces[i])));
            assert(a =~= b.take(a.len() as int));
            assert(full.take(a.len() as int) =~= b.take(a.len() as int));
        }
    }
}

// ---------------------------------------------------------------------------
// Close all positions
// ---------------------------------------------------------------------------

/// Which positions a "close all" request closes.
#[derive(Debug)]
pub enum CloseAllScope {
    /// Both fixed accounts (no account given).
    Both,
    /// One account.
    Single(String),
    /// The account given is not a fixed account (the refusal message).
    Invalid(String),
}

/// The scope of a "close all" request: an account parameter that is not
/// blank once trimmed names one account; otherwise both accounts.
pub fn close_all_scope(account_id: &Option<String>) -> (r: CloseAllScope)
    ensures
        match account_id {
            Some(a) if spec_trim(a@).len() > 0 => {
                let id = spec_trim(a@);
                if is_known_account(id) {
                    r matches CloseAllScope::Single(x) && x@ == id
                } else {
                    r matches CloseAllScope::Invalid(m) && m@ == unknown_account_message(id)
                }
            },
            _ => r is Both,
        },
{
    match account_id {
        Some(a) => {
            let t = trim(a.as_str());
            if t.as_str().is_empty() {
                CloseAllScope::Both
            } else {
                match resolve_account_id(Some(t)) {
                    Ok(id) => CloseAllScope::Single(id),
                    Err(e) => CloseAllScope::Invalid(e),
                }
            }
        },
        None => CloseAllScope::Both,
    }
}

/// The words naming a scope in messages.
pub open spec fn scope_words(single: Option<Seq<char>>) -> Seq<char> {
    match single {
        Some(id) => "account "@ + id,
        None => "both accounts"@,
    }
}

/// The outcome of a "close all" request.
#[derive(Debug)]
pub struct CloseAllSummary {
    /// True when nothing failed.
    pub ok: bool,
    pub failed_count: usize,
    pub message: String,
}

/// The summary of a "close all" request that tried `total` closes, of which
/// `closed` succeeded.
pub fn close_all_summary(closed: usize, total: usize, single: &Option<String>) -> (r: CloseAllSummary)
    requires
        closed <= total,
    ensures
        r.failed_count == total - closed,
        r.ok == (closed == total),
        ({
            let scope = scope_words(match single { Some(s) => Some(s@), None => None });
            if closed == total {
                r.message@ == "Closed "@ + spec_decimal(closed as nat) + " position(s) on "@ + scope
            } else {
                r.message@ == "Closed "@ + spec_decimal(closed as nat) + " of "@ + spec_decimal(total as nat)
                    + " position(s) on "@ + scope + "; "@ + spec_decimal((total - closed) as nat) + " failed"@
            }
        }),
{
    let failed = total - closed;
    let scope = match single {
        Some(id) => str_concat("account ", id.as_str()),
        None => owned("both accounts"),
    };
    let closed_s = u64_to_decimal(closed as u64);
    let m = str_concat("Closed ", closed_s.as_str());
    let message = if failed == 0 {
        let m = str_concat(m.as_str(), " position(s) on ");
        str_concat(m.as_str(), scope.as_str())
    } else {
        let m = str_concat(m.as_str(), " of ");
        let total_s = u64_to_decimal(total as u64);
        let m = str_concat(m.as_str(), total_s.as_str());
        let m = str_concat(m.as_str(), " position(s) on ");
        let m = str_concat(m.as_str(), scope.as_str());
        let m = str_concat(m.as_str(), "; ");
        let failed_s = u64_to_decimal(failed as u64);
        let m = str_concat(m.as_str(), failed_s.as_str());
        str_concat(m.as_str(), " failed")
    };
    CloseAllSummary { ok: failed == 0, failed_count: failed, message }
}

/// The message of a "close all pairs" request that closed both legs of
/// `closed` of `total` pairs.
pub fn close_all_pairs_message(closed: usize, total: usize) -> (r: String)
    ensures
        r@ == "Closed "@ + spec_decimal(closed as nat) + " of "@ + spec_decimal(total as nat)
            + " pair(s) on both accounts"@,
{
    let a = str_concat("Closed ", u64_to_decimal(closed as u64).as_str());
    let b = str_concat(a.as_str(), " of ");
    let c = str_concat(b.as_str(), u64_to_decimal(total as u64).as_str());
    str_concat(c.as_str(), " pair(s) on both accounts")
}

/// The account and terminal of a tick stream: the account a request names
/// (`default` when it names none) and its terminal path, or `None` when that
/// is not a fixed account.
pub fn tick_stream_terminal(account_id: Option<String>) -> (r: Option<(String, String)>)
    ensures
        ({
            let id = match account_id {
                Some(a) => a@,
                None => "default"@,
            };
            match r {
                Some((x, p)) => is_known_account(id) && x@ == id && spec_terminal_path(id) == Some(p@),
                None => !is_known_account(id),
            }
        }),
{
    match resolve_account_id(account_id) {
        Ok(id) => match get_path_for_account(id.as_str()) {
            Some(p) => Some((id, p)),
            None => None,
        },
        Err(_) => None,
    }
}

} // verus!
