//! The background worker that places hedged orders at random intervals: its
//! configuration and run state, its schedule, the choice of symbol, and what
//! a run records. Decimal settings (minutes, volumes, pips) are held as the
//! bit patterns of their `f64` values; the library only stores them.
use vstd::prelude::*;

use crate::clock::{rfc3339_seconds, spec_rfc3339_seconds, spec_utc_rfc3339, utc_now_rfc3339, utc_rfc3339};
use crate::draw::{random_between, random_index};
use crate::lexorder::views;
use crate::text::{owned, str_eq};

verus! {

/// The most failed runs the worker remembers (the newest ones).
pub const MAX_FAILED_RECORDS: usize = 100;

/// How often the first account bought and sold in worker orders.
#[derive(Clone, Copy, Debug, PartialEq, Eq, Structural)]
pub struct WorkerBalance {
    pub account1_buy: u32,
    pub account1_sell: u32,
}

/// Stop loss and take profit distances in pips (`f64` bit patterns).
#[derive(Clone, Copy, Debug, PartialEq, Eq, Structural)]
pub struct SlTpPipsBits {
    pub sl_pips_bits: u64,
    pub tp_pips_bits: u64,
}

/// A worker run that did not place its order.
#[derive(Debug)]
pub struct WorkerFailedRecord {
    pub time: String,
    pub symbol: String,
    /// The volume (`f64` bit pattern).
    pub volume_bits: u64,
    pub message: Option<String>,
}

/// The worker's configuration and run state.
#[derive(Debug)]
pub struct WorkerConfig {
    pub enabled: bool,
    pub fixed_interval: bool,
    pub interval_minutes_bits: u64,
    pub min_minutes_bits: u64,
    pub max_minutes_bits: u64,
    pub symbols: Vec<String>,
    pub min_volume_bits: u64,
    pub max_volume_bits: u64,
    /// `both` or `master_slave_hedge`.
    pub place_mode: String,
    pub next_run_at: Option<String>,
    pub last_symbol: Option<String>,
    pub run_count: u64,
    pub last_run_at: Option<String>,
    /// Newest first.
    pub failed_positions: Vec<WorkerFailedRecord>,
    pub worker_balance: WorkerBalance,
    pub use_sl_tp: bool,
    pub sl_tp_pips: Vec<(String, SlTpPipsBits)>,
    /// 0 means no limit.
    pub max_open_positions: u32,
}

/// `f64` bit pattern of the default fixed interval, 15 minutes.
pub const DEFAULT_INTERVAL_MINUTES_BITS: u64 = 0x402e_0000_0000_0000;

/// `f64` bit pattern of the default shortest random interval, 1 minute.
pub const DEFAULT_MIN_MINUTES_BITS: u64 = 0x3ff0_0000_0000_0000;

/// `f64` bit pattern of the default longest random interval, 5 minutes.
pub const DEFAULT_MAX_MINUTES_BITS: u64 = 0x4014_0000_0000_0000;

/// `f64` bit pattern of the default smallest volume, 0.0001 lots.
pub const DEFAULT_MIN_VOLUME_BITS: u64 = 0x3f1a_36e2_eb1c_432d;

/// `f64` bit pattern of the default largest volume, 0.01 lots.
pub const DEFAULT_MAX_VOLUME_BITS: u64 = 0x3f84_7ae1_47ae_147b;

impl Default for WorkerConfig {
    /// A disabled worker with no symbols that places on both accounts every
    /// 1 to 5 minutes (15 when the interval is fixed), 0.0001 to 0.01 lots,
    /// with panel SL/TP on, no position limit, and no run recorded.
    fn default() -> (r: WorkerConfig)
        ensures
            !r.enabled,
            !r.fixed_interval,
            r.interval_minutes_bits == DEFAULT_INTERVAL_MINUTES_BITS,
            r.min_minutes_bits == DEFAULT_MIN_MINUTES_BITS,
            r.max_minutes_bits == DEFAULT_MAX_MINUTES_BITS,
            r.symbols@.len() == 0,
            r.min_volume_bits == DEFAULT_MIN_VOLUME_BITS,
            r.max_volume_bits == DEFAULT_MAX_VOLUME_BITS,
            r.place_mode@ == "both"@,
            r.next_run_at is None,
            r.last_symbol is None,
            r.run_count == 0,
            r.last_run_at is None,
            r.failed_positions@.len() == 0,
            r.worker_balance == (WorkerBalance { account1_buy: 0, account1_sell: 0 }),
            r.use_sl_tp,
            r.sl_tp_pips@.len() == 0,
            r.max_open_positions == 0,
    {
        WorkerConfig {
            enabled: false,
            fixed_interval: false,
            interval_minutes_bits: DEFAULT_INTERVAL_MINUTES_BITS,
            min_minutes_bits: DEFAULT_MIN_MINUTES_BITS,
            max_minutes_bits: DEFAULT_MAX_MINUTES_BITS,
            symbols: Vec::new(),
            min_volume_bits: DEFAULT_MIN_VOLUME_BITS,
            max_volume_bits: DEFAULT_MAX_VOLUME_BITS,
            place_mode: owned("both"),
            next_run_at: None,
            last_symbol: None,
            run_count: 0,
            last_run_at: None,
            failed_positions: Vec::new(),
            worker_balance: WorkerBalance { account1_buy: 0, account1_sell: 0 },
            use_sl_tp: true,
            sl_tp_pips: Vec::new(),
            max_open_positions: 0,
        }
    }
}

/// The worker runs only when enabled and given at least one symbol.
pub open spec fn worker_active(c: &WorkerConfig) -> bool {
    c.enabled && c.symbols@.len() > 0
}

/// Whether the worker is enabled and has symbols.
pub fn worker_is_active(c: &WorkerConfig) -> (r: bool)
    ensures
        r == worker_active(c),
{
    c.enabled && c.symbols.len() > 0
}

// ---------------------------------------------------------------------------
// Schedule
// ---------------------------------------------------------------------------

/// The delays before the next run, in whole seconds, as computed from the
/// configured minutes: the fixed interval, and the bounds of a random delay.
#[derive(Clone, Copy, Debug, PartialEq, Eq, Structural)]
pub struct DelayBounds {
    pub fixed_secs: i64,
    pub min_secs: i64,
    pub max_secs: i64,
}

/// The delays a schedule may use: the fixed interval when it is fixed;
/// otherwise the minimum when the maximum does not exceed it, else any value
/// from the minimum to the maximum.
pub open spec fn delay_allowed(fixed_interval: bool, b: DelayBounds, d: i64) -> bool {
    if fixed_interval {
        d == b.fixed_secs
    } else if b.max_secs <= b.min_secs {
        d == b.min_secs
    } else {
        b.min_secs <= d <= b.max_secs
    }
}

/// The delay before the next run.
pub fn pick_delay(fixed_interval: bool, b: DelayBounds) -> (r: i64)
    ensures
        delay_allowed(fixed_interval, b, r),
{
    if fixed_interval {
        b.fixed_secs
    } else if b.max_secs <= b.min_secs {
        b.min_secs
    } else {
        random_between(b.min_secs, b.max_secs)
    }
}

/// Adding any allowed delay to `now` stays within `i64`.
pub open spec fn delays_fit(now_secs: i64, b: DelayBounds) -> bool {
    &&& i64::MIN <= now_secs + b.fixed_secs <= i64::MAX
    &&& i64::MIN <= now_secs + b.min_secs <= i64::MAX
    &&& i64::MIN <= now_secs + b.max_secs <= i64::MAX
}

/// `next` is a possible next-run timestamp: `None` for an inactive worker;
/// otherwise the RFC 3339 form of `now` plus an allowed delay (when chrono can
/// write that instant).
pub open spec fn next_run_allowed(active: bool, fixed_interval: bool, now_secs: i64, b: DelayBounds, next: Option<Seq<char>>) -> bool {
    if !active {
        next is None
    } else {
        exists|d: i64|
            #[trigger] delay_allowed(fixed_interval, b, d) && (spec_utc_rfc3339(
                (now_secs + d) as i64,
            ) matches Some(x) ==> next == Some(x)) && next is Some
    }
}

/// The view of an optional string.
pub open spec fn opt_str(s: Option<String>) -> Option<Seq<char>> {
    match s {
        Some(x) => Some(x@),
        None => None,
    }
}

/// The next run time of the worker, from `now_secs` seconds since the epoch.
pub fn worker_compute_next_run_at(now_secs: i64, c: &WorkerConfig, b: DelayBounds) -> (r: Option<String>)
    requires
        delays_fit(now_secs, b),
    ensures
        next_run_allowed(worker_active(c), c.fixed_interval, now_secs, b, opt_str(r)),
{
    if !worker_is_active(c) {
        return None;
    }
    let d = pick_delay(c.fixed_interval, b);
    let next = now_secs + d;
    let s = match utc_rfc3339(next) {
        Some(s) => s,
        None => utc_now_rfc3339(),
    };
    assert(delay_allowed(c.fixed_interval, b, d));
    Some(s)
}

/// Whether the worker is due: active, with a stored next run time that reads
/// as RFC 3339 and is not after `now_secs`.
pub open spec fn worker_due_at(c: &WorkerConfig, now_secs: i64) -> bool {
    worker_active(c) && match c.next_run_at {
        Some(s) => match spec_rfc3339_seconds(s@) {
            Some(t) => t <= now_secs,
            None => false,
        },
        None => false,
    }
}

/// Whether the scheduler should start a run now.
pub fn worker_due(c: &WorkerConfig, now_secs: i64) -> (r: bool)
    ensures
        r == worker_due_at(c, now_secs),
{
    if !worker_is_active(c) {
        return false;
    }
    match &c.next_run_at {
        Some(s) => match rfc3339_seconds(s.as_str()) {
            Some(t) => t <= now_secs,
            None => false,
        },
        None => false,
    }
}

/// Gives an active worker without a next run time one; says whether the
/// configuration changed.
pub fn ensure_scheduled(c: &mut WorkerConfig, now_secs: i64, b: DelayBounds) -> (changed: bool)
    requires
        delays_fit(now_secs, b),
    ensures
        changed == (worker_active(old(c)) && old(c).next_run_at is None),
        !changed ==> *final(c) == *old(c),
        changed ==> *final(c) == (WorkerConfig { next_run_at: final(c).next_run_at, ..*old(c) })
            && next_run_allowed(true, old(c).fixed_interval, now_secs, b, opt_str(final(c).next_run_at)),
{
    if worker_is_active(c) && c.next_run_at.is_none() {
        let next = worker_compute_next_run_at(now_secs, c, b);
        c.next_run_at = next;
        true
    } else {
        false
    }
}

// ---------------------------------------------------------------------------
// Configuration changes
// ---------------------------------------------------------------------------

/// A change to the worker configuration; absent fields stay as they are.
/// Decimal settings arrive already clamped to their ranges.
#[derive(Debug)]
pub struct WorkerConfigPatch {
    pub enabled: Option<bool>,
    pub fixed_interval: Option<bool>,
    pub interval_minutes_bits: Option<u64>,
    pub min_minutes_bits: Option<u64>,
    pub max_minutes_bits: Option<u64>,
    pub symbols: Option<Vec<String>>,
    pub min_volume_bits: Option<u64>,
    pub max_volume_bits: Option<u64>,
    pub place_mode: Option<String>,
    pub use_sl_tp: Option<bool>,
    pub sl_tp_pips: Option<Vec<(String, SlTpPipsBits)>>,
    pub reset_run_count: Option<bool>,
    pub clear_failed_positions: Option<bool>,
    pub reset_balance: Option<bool>,
    pub max_open_positions: Option<u32>,
}

/// The place mode a requested mode stands for: `master_slave_hedge` as
/// given, anything else is `both`.
pub open spec fn spec_place_mode(requested: Seq<char>) -> Seq<char> {
    if requested == "master_slave_hedge"@ {
        "master_slave_hedge"@
    } else {
        "both"@
    }
}

/// The place mode a requested mode stands for.
pub fn normalize_place_mode(requested: &str) -> (r: String)
    ensures
        r@ == spec_place_mode(requested@),
{
    if str_eq(requested, "master_slave_hedge") {
        owned("master_slave_hedge")
    } else {
        owned("both")
    }
}

/// The value of a field after a patch: the patch's value when it has one.
pub open spec fn patched<T>(current: T, p: Option<T>) -> T {
    match p {
        Some(v) => v,
        None => current,
    }
}

/// The configuration a patch gives, before the next run time is recomputed.
pub open spec fn spec_patched_config(c: WorkerConfig, p: WorkerConfigPatch) -> (WorkerConfig, Seq<char>) {
    (
        WorkerConfig {
            enabled: patched(c.enabled, p.enabled),
            fixed_interval: patched(c.fixed_interval, p.fixed_interval),
            interval_minutes_bits: patched(c.interval_minutes_bits, p.interval_minutes_bits),
            min_minutes_bits: patched(c.min_minutes_bits, p.min_minutes_bits),
            max_minutes_bits: patched(c.max_minutes_bits, p.max_minutes_bits),
            symbols: patched(c.symbols, p.symbols),
            min_volume_bits: patched(c.min_volume_bits, p.min_volume_bits),
            max_volume_bits: patched(c.max_volume_bits, p.max_volume_bits),
            use_sl_tp: patched(c.use_sl_tp, p.use_sl_tp),
            sl_tp_pips: patched(c.sl_tp_pips, p.sl_tp_pips),
            max_open_positions: patched(c.max_open_positions, p.max_open_positions),
            run_count: if p.reset_run_count == Some(true) {
                0
            } else {
                c.run_count
            },
            worker_balance: if p.reset_balance == Some(true) {
                WorkerBalance { account1_buy: 0, account1_sell: 0 }
            } else {
                c.worker_balance
            },
            ..c
        },
        match p.place_mode {
            Some(m) => spec_place_mode(m@),
            None => c.place_mode@,
        },
    )
}

/// The patched value of a field.
fn or_keep<T>(current: T, p: Option<T>) -> (r: T)
    ensures
        r == patched(current, p),
{
    match p {
        Some(v) => v,
        None => current,
    }
}

/// Applies a configuration change, then recomputes the next run time (none
/// for an inactive worker).
pub fn apply_worker_patch(c: WorkerConfig, p: WorkerConfigPatch, now_secs: i64, b: DelayBounds) -> (r: WorkerConfig)
    requires
        delays_fit(now_secs, b),
    ensures
        ({
            let (e, mode) = spec_patched_config(c, p);
            &&& r.enabled == e.enabled
            &&& r.fixed_interval == e.fixed_interval
            &&& r.interval_minutes_bits == e.interval_minutes_bits
            &&& r.min_minutes_bits == e.min_minutes_bits
            &&& r.max_minutes_bits == e.max_minutes_bits
            &&& r.symbols == e.symbols
            &&& r.min_volume_bits == e.min_volume_bits
            &&& r.max_volume_bits == e.max_volume_bits
            &&& r.use_sl_tp == e.use_sl_tp
            &&& r.sl_tp_pips == e.sl_tp_pips
            &&& r.max_open_positions == e.max_open_positions
            &&& r.run_count == e.run_count
            &&& r.worker_balance == e.worker_balance
            &&& r.place_mode@ == mode
            &&& r.last_symbol == c.last_symbol
            &&& r.last_run_at == c.last_run_at
            &&& (p.clear_failed_positions == Some(true) ==> r.failed_positions@.len() == 0)
            &&& (p.clear_failed_positions != Some(true) ==> r.failed_positions == c.failed_positions)
            &&& next_run_allowed(worker_active(&r), r.fixed_interval, now_secs, b, opt_str(r.next_run_at))
        }),
{
    let WorkerConfig {
        enabled,
        fixed_interval,
        interval_minutes_bits,
        min_minutes_bits,
        max_minutes_bits,
        symbols,
        min_volume_bits,
        max_volume_bits,
        place_mode,
        next_run_at: _,
        last_symbol,
        run_count,
        last_run_at,
        failed_positions,
        worker_balance,
        use_sl_tp,
        sl_tp_pips,
        max_open_positions,
    } = c;
    let reset_run_count = p.reset_run_count == Some(true);
    let clear_failed = p.clear_failed_positions == Some(true);
    let reset_balance = p.reset_balance == Some(true);
    let place_mode = match p.place_mode {
        Some(m) => normalize_place_mode(m.as_str()),
        None => place_mode,
    };
    let mut r = WorkerConfig {
        enabled: or_keep(enabled, p.enabled),
        fixed_interval: or_keep(fixed_interval, p.fixed_interval),
        interval_minutes_bits: or_keep(interval_minutes_bits, p.interval_minutes_bits),
        min_minutes_bits: or_keep(min_minutes_bits, p.min_minutes_bits),
        max_minutes_bits: or_keep(max_minutes_bits, p.max_minutes_bits),
        symbols: or_keep(symbols, p.symbols),
        min_volume_bits: or_keep(min_volume_bits, p.min_volume_bits),
        max_volume_bits: or_keep(max_volume_bits, p.max_volume_bits),
        place_mode,
        next_run_at: None,
        last_symbol,
        run_count: if reset_run_count {
            0
        } else {
            run_count
        },
        last_run_at,
        failed_positions: if clear_failed {
            Vec::new()
        } else {
            failed_positions
        },
        worker_balance: if reset_balance {
            WorkerBalance { account1_buy: 0, account1_sell: 0 }
        } else {
            worker_balance
        },
        use_sl_tp: or_keep(use_sl_tp, p.use_sl_tp),
        sl_tp_pips: or_keep(sl_tp_pips, p.sl_tp_pips),
        max_open_positions: or_keep(max_open_positions, p.max_open_positions),
    };
    let next = worker_compute_next_run_at(now_secs, &r, b);
    r.next_run_at = next;
    r
}

// ---------------------------------------------------------------------------
// A run
// ---------------------------------------------------------------------------

/// Whether a run is skipped because the open positions reach the limit
/// (a limit of 0 means none).
pub fn at_position_limit(max_open_positions: u32, current_count: u32) -> (r: bool)
    ensures
        r == (max_open_positions > 0 && current_count >= max_open_positions),
{
    max_open_positions > 0 && current_count >= max_open_positions
}

/// Whether the worker places copy-hedge orders (else "place on both").
pub fn uses_master_slave(c: &WorkerConfig) -> (r: bool)
    ensures
        r == (c.place_mode@ == "master_slave_hedge"@),
{
    str_eq(c.place_mode.as_str(), "master_slave_hedge")
}

/// The symbols other than `last`, in order.
pub open spec fn symbols_except(symbols: Seq<Seq<char>>, last: Option<Seq<char>>) -> Seq<Seq<char>>
    decreases symbols.len(),
{
    if symbols.len() == 0 {
        Seq::empty()
    } else {
        let rest = symbols_except(symbols.drop_last(), last);
        if last == Some(symbols.last()) {
            rest
        } else {
            rest.push(symbols.last())
        }
    }
}

proof fn lemma_except_excludes(symbols: Seq<Seq<char>>, last: Option<Seq<char>>)
    ensures
        forall|x: Seq<char>| #[trigger] symbols_except(symbols, last).contains(x) <==> (symbols.contains(x) && last != Some(x)),
    decreases symbols.len(),
{
    if symbols.len() > 0 {
        let init = symbols.drop_last();
        lemma_except_excludes(init, last);
        let rest = symbols_except(init, last);
        let all = symbols_except(symbols, last);
        assert forall|x: Seq<char>| #[trigger] all.contains(x) <==> (symbols.contains(x) && last != Some(x)) by {
            if all.contains(x) {
                let k = choose|k: int| 0 <= k < all.len() && all[k] == x;
                if k < rest.len() {
                    assert(rest[k] == x);
                    assert(rest.contains(x));
                    let j = choose|j: int| 0 <= j < init.len() && init[j] == x;
                    assert(symbols[j] == x);
                } else {
                    assert(symbols[symbols.len() - 1] == x);
                }
            }
            if symbols.contains(x) && last != Some(x) {
                let j = choose|j: int| 0 <= j < symbols.len() && symbols[j] == x;
                if j < symbols.len() - 1 {
                    assert(init[j] == x);
                    assert(rest.contains(x));
                    let k = choose|k: int| 0 <= k < rest.len() && rest[k] == x;
                    assert(all[k] == x);
                } else {
                    assert(all[rest.len() as int] == x);
                }
            }
        }
    }
}

/// A run never repeats the last symbol when another symbol is configured, and
/// always picks a configured symbol.
pub proof fn lemma_pool_avoids_last(symbols: Seq<Seq<char>>, last: Option<Seq<char>>, pick: Seq<char>)
    requires
        symbol_pool(symbols, last).contains(pick),
    ensures
        symbols.contains(pick),
        (exists|i: int| 0 <= i < symbols.len() && last != Some(#[trigger] symbols[i])) ==> last != Some(pick),
{
    lemma_except_excludes(symbols, last);
    if exists|i: int| 0 <= i < symbols.len() && last != Some(#[trigger] symbols[i]) {
        let i = choose|i: int| 0 <= i < symbols.len() && last != Some(#[trigger] symbols[i]);
        assert(symbols.contains(symbols[i]));
        assert(symbols_except(symbols, last).contains(symbols[i]));
    }
}

/// The symbols a run may pick: those other than the last symbol run, or all
/// symbols when there is no other.
pub open spec fn symbol_pool(symbols: Seq<Seq<char>>, last: Option<Seq<char>>) -> Seq<Seq<char>> {
    let others = symbols_except(symbols, last);
    if others.len() == 0 {
        symbols
    } else {
        others
    }
}

/// Picks the symbol of a run at random from the pool and records it as the
/// last symbol. The pick differs from the previous one whenever another
/// symbol is configured.
pub fn choose_worker_symbol(c: &mut WorkerConfig) -> (r: String)
    requires
        old(c).symbols@.len() > 0,
    ensures
        symbol_pool(views(old(c).symbols@), opt_str(old(c).last_symbol)).contains(r@),
        final(c).last_symbol matches Some(s) && s@ == r@,
        *final(c) == (WorkerConfig { last_symbol: final(c).last_symbol, ..*old(c) }),
{
    let ghost all = views(c.symbols@);
    let ghost last = opt_str(c.last_symbol);
    let mut others: Vec<String> = Vec::new();
    let mut i: usize = 0;
    while i < c.symbols.len()
        invariant
            i <= c.symbols.len(),
            all == views(c.symbols@),
            last == opt_str(c.last_symbol),
            views(others@) == symbols_except(all.take(i as int), last),
        decreases c.symbols.len() - i,
    {
        let s = &c.symbols[i];
        let keep = match &c.last_symbol {
            Some(l) => !str_eq(l.as_str(), s.as_str()),
            None => true,
        };
        let ghost before = views(others@);
        assert(all.take(i + 1).drop_last() =~= all.take(i as int));
        assert(all.take(i + 1).last() == s@);
        if keep {
            others.push(s.clone());
            assert(views(others@) =~= before.push(s@));
        }
        i += 1;
    }
    assert(all.take(c.symbols.len() as int) =~= all);
    let pick = if others.len() == 0 {
        let k = random_index(c.symbols.len());
        assert(all.contains(all[k as int]));
        c.symbols[k].clone()
    } else {
        let k = random_index(others.len());
        assert(views(others@).contains(views(others@)[k as int]));
        others[k].clone()
    };
    c.last_symbol = Some(pick.clone());
    pick
}

/// The message recorded for a failed run: the reply's error, else its message,
/// else `Order failed`.
pub open spec fn spec_failure_message(error: Seq<char>, message: Seq<char>) -> Seq<char> {
    if error.len() > 0 {
        error
    } else if message.len() > 0 {
        message
    } else {
        "Order failed"@
    }
}

/// The message recorded for a failed run.
pub fn failure_message(error: &str, message: &str) -> (r: String)
    ensures
        r@ == spec_failure_message(error@, message@),
{
    if !error.is_empty() {
        owned(error)
    } else if !message.is_empty() {
        owned(message)
    } else {
        owned("Order failed")
    }
}

/// Records a run: its time; on success one more run (and, for "place on
/// both", one more buy or sell of the first account); on failure a record at
/// the front of the failed list, which keeps at most `MAX_FAILED_RECORDS`.
pub fn record_worker_run(
    c: &mut WorkerConfig,
    now_iso: String,
    placement_ok: bool,
    update_balance: bool,
    first_account_buy: Option<bool>,
    symbol: String,
    volume_bits: u64,
    error: &str,
    message: &str,
)
    requires
        placement_ok ==> old(c).run_count < u64::MAX,
        placement_ok && update_balance && first_account_buy == Some(true) ==> old(c).worker_balance.account1_buy < u32::MAX,
        placement_ok && update_balance && first_account_buy == Some(false) ==> old(c).worker_balance.account1_sell < u32::MAX,
    ensures
        final(c).last_run_at matches Some(t) && t@ == now_iso@,
        placement_ok ==> final(c).run_count == old(c).run_count + 1 && final(c).failed_positions
            == old(c).failed_positions && final(c).worker_balance == (if update_balance
            && first_account_buy == Some(true) {
            WorkerBalance { account1_buy: (old(c).worker_balance.account1_buy + 1) as u32, ..old(c).worker_balance }
        } else if update_balance && first_account_buy == Some(false) {
            WorkerBalance { account1_sell: (old(c).worker_balance.account1_sell + 1) as u32, ..old(c).worker_balance }
        } else {
            old(c).worker_balance
        }),
        !placement_ok ==> (final(c).run_count == old(c).run_count && final(c).worker_balance
            == old(c).worker_balance && final(c).failed_positions@.len() == (if old(c).failed_positions@.len() + 1 > MAX_FAILED_RECORDS {
                MAX_FAILED_RECORDS as int
            } else {
                old(c).failed_positions@.len() + 1 as int
            }) && final(c).failed_positions@[0].time@ == now_iso@ && final(c).failed_positions@[0].symbol@ == symbol@
            && final(c).failed_positions@[0].volume_bits == volume_bits
            && (final(c).failed_positions@[0].message matches Some(m) && m@ == spec_failure_message(error@, message@))
            && forall|k: int| 1 <= k < final(c).failed_positions@.len() ==> #[trigger] final(c).failed_positions@[k] == old(c).failed_positions@[k - 1]),
        old(c).failed_positions@.len() <= MAX_FAILED_RECORDS ==> final(c).failed_positions@.len() <= MAX_FAILED_RECORDS,
        *final(c) == (WorkerConfig {
            last_run_at: final(c).last_run_at,
            run_count: final(c).run_count,
            worker_balance: final(c).worker_balance,
            failed_positions: final(c).failed_positions,
            ..*old(c)
        }),
{
    let time = now_iso.clone();
    c.last_run_at = Some(now_iso);
    if placement_ok {
        c.run_count = c.run_count + 1;
        if update_balance {
            if first_account_buy == Some(true) {
                c.worker_balance.account1_buy = c.worker_balance.account1_buy + 1;
            } else if first_account_buy == Some(false) {
                c.worker_balance.account1_sell = c.worker_balance.account1_sell + 1;
            }
        }
    } else {
        let record = WorkerFailedRecord {
            time,
            symbol,
            volume_bits,
            message: Some(failure_message(error, message)),
        };
        let mut list: Vec<WorkerFailedRecord> = Vec::new();
        std::mem::swap(&mut list, &mut c.failed_positions);
        let ghost prior = list@;
        list.insert(0, record);
        let ghost full = list@;
        assert(full.len() == prior.len() + 1);
        assert(forall|k: int| 1 <= k < full.len() ==> #[trigger] full[k] == prior[k - 1]);
        while list.len() > MAX_FAILED_RECORDS
            invariant
                list@.len() >= 1,
                list@.len() <= full.len(),
                list@ == full.take(list@.len() as int),
                list@.len() >= MAX_FAILED_RECORDS || list@.len() == full.len(),
            decreases list@.len(),
        {
            list.pop();
            assert(list@ =~= full.take(list@.len() as int));
        }
        c.failed_positions = list;
    }
}

} // verus!
