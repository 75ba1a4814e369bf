//! Persisted settings: the FixedLot page settings (shared by all browsers)
//! and the Exness copy count N of the copy hedge.
use vstd::prelude::*;

use crate::text::{lowercase, owned, spec_lowercase, str_eq};

verus! {

// ---------------------------------------------------------------------------
// FixedLot settings
// ---------------------------------------------------------------------------

/// The FixedLot page settings. Decimal settings are held as the bit patterns
/// of their `f64` values; the library only stores them.
#[derive(Debug)]
pub struct FixedLotSettings {
    pub account_id: String,
    pub min_volume_bits: u64,
    pub max_volume_bits: u64,
    pub min_interval_minutes_bits: u64,
    pub max_interval_minutes_bits: u64,
    pub selected_symbols: Vec<String>,
    pub interval_enabled: bool,
    pub last_direction: Option<String>,
    pub max_open_positions: u32,
    pub max_spread_filter_enabled: bool,
    pub max_spread_pips_bits: u64,
    pub telegram_alert_enabled: bool,
    pub telegram_alert_below_pips_bits: u64,
    pub telegram_alert_cooldown_seconds: u64,
}

/// The most open positions the setting may ask for.
pub const MAX_OPEN_POSITIONS_LIMIT: u32 = 100_000;

/// The shortest alert cooldown, in seconds.
pub const MIN_ALERT_COOLDOWN_SECS: u64 = 10;

/// The longest alert cooldown, in seconds (a day).
pub const MAX_ALERT_COOLDOWN_SECS: u64 = 86_400;

/// `f64` bit pattern of the default smallest volume, 0.01 lots.
pub const DEFAULT_FIXEDLOT_MIN_VOLUME_BITS: u64 = 0x3f84_7ae1_47ae_147b;

/// `f64` bit pattern of the default largest volume, 0.1 lots.
pub const DEFAULT_FIXEDLOT_MAX_VOLUME_BITS: u64 = 0x3fb9_9999_9999_999a;

/// `f64` bit pattern of the default shortest interval, 10 minutes.
pub const DEFAULT_FIXEDLOT_MIN_INTERVAL_BITS: u64 = 0x4024_0000_0000_0000;

/// `f64` bit pattern of the default longest interval, 15 minutes.
pub const DEFAULT_FIXEDLOT_MAX_INTERVAL_BITS: u64 = 0x402e_0000_0000_0000;

/// `f64` bit pattern of the default spread filter, 2 pips.
pub const DEFAULT_MAX_SPREAD_PIPS_BITS: u64 = 0x4000_0000_0000_0000;

/// `f64` bit pattern of the default alert threshold, 0.2 pips.
pub const DEFAULT_ALERT_BELOW_PIPS_BITS: u64 = 0x3fc9_9999_9999_999a;

impl Default for FixedLotSettings {
    /// The `default` account, 0.01 to 0.1 lots every 10 to 15 minutes (timer
    /// off), no symbols, no direction, no position limit, spread filter off at
    /// 2 pips, alerts off below 0.2 pips with a 300 s cooldown.
    fn default() -> (r: FixedLotSettings)
        ensures
            r.account_id@ == "default"@,
            r.min_volume_bits == DEFAULT_FIXEDLOT_MIN_VOLUME_BITS,
            r.max_volume_bits == DEFAULT_FIXEDLOT_MAX_VOLUME_BITS,
            r.min_interval_minutes_bits == DEFAULT_FIXEDLOT_MIN_INTERVAL_BITS,
            r.max_interval_minutes_bits == DEFAULT_FIXEDLOT_MAX_INTERVAL_BITS,
            r.selected_symbols@.len() == 0,
            !r.interval_enabled,
            r.last_direction is None,
            r.max_open_positions == 0,
            !r.max_spread_filter_enabled,
            r.max_spread_pips_bits == DEFAULT_MAX_SPREAD_PIPS_BITS,
            !r.telegram_alert_enabled,
            r.telegram_alert_below_pips_bits == DEFAULT_ALERT_BELOW_PIPS_BITS,
            r.telegram_alert_cooldown_seconds == 300,
            settings_normal(&r),
    {
        FixedLotSettings {
            account_id: owned("default"),
            min_volume_bits: DEFAULT_FIXEDLOT_MIN_VOLUME_BITS,
            max_volume_bits: DEFAULT_FIXEDLOT_MAX_VOLUME_BITS,
            min_interval_minutes_bits: DEFAULT_FIXEDLOT_MIN_INTERVAL_BITS,
            max_interval_minutes_bits: DEFAULT_FIXEDLOT_MAX_INTERVAL_BITS,
            selected_symbols: Vec::new(),
            interval_enabled: false,
            last_direction: None,
            max_open_positions: 0,
            max_spread_filter_enabled: false,
            max_spread_pips_bits: DEFAULT_MAX_SPREAD_PIPS_BITS,
            telegram_alert_enabled: false,
            telegram_alert_below_pips_bits: DEFAULT_ALERT_BELOW_PIPS_BITS,
            telegram_alert_cooldown_seconds: 300,
        }
    }
}

/// The account a setting names: `default` or `exness`, anything else becomes `default`.
pub open spec fn spec_settings_account(a: Seq<char>) -> Seq<char> {
    if a == "default"@ || a == "exness"@ {
        a
    } else {
        "default"@
    }
}

/// The last direction kept: `buy` or `sell` in lower case, when the stored
/// one reads so in any case (`buy` and `sell` themselves are kept as they
/// are); otherwise none.
pub open spec fn spec_direction(d: Option<Seq<char>>) -> Option<Seq<char>> {
    match d {
        Some(x) => if x == "buy"@ || x == "sell"@ {
            Some(x)
        } else {
            let l = spec_lowercase(x);
            if l == "buy"@ || l == "sell"@ {
                Some(l)
            } else {
                None
            }
        },
        None => None,
    }
}

/// The alert cooldown kept: between 10 seconds and a day.
pub open spec fn spec_cooldown(s: u64) -> u64 {
    if s < MIN_ALERT_COOLDOWN_SECS {
        MIN_ALERT_COOLDOWN_SECS
    } else if s > MAX_ALERT_COOLDOWN_SECS {
        MAX_ALERT_COOLDOWN_SECS
    } else {
        s
    }
}

/// The view of an optional string.
pub open spec fn opt_chars(s: Option<String>) -> Option<Seq<char>> {
    match s {
        Some(x) => Some(x@),
        None => None,
    }
}

/// Settings as stored: the account is a fixed account, the direction is
/// `buy`, `sell` or none, the position limit at most 100000, and the alert
/// cooldown between 10 seconds and a day. (Decimal settings are brought into
/// their ranges by the caller.)
pub open spec fn settings_normal(s: &FixedLotSettings) -> bool {
    &&& (s.account_id@ == "default"@ || s.account_id@ == "exness"@)
    &&& (s.last_direction matches Some(d) ==> (d@ == "buy"@ || d@ == "sell"@))
    &&& s.max_open_positions <= MAX_OPEN_POSITIONS_LIMIT
    &&& MIN_ALERT_COOLDOWN_SECS <= s.telegram_alert_cooldown_seconds <= MAX_ALERT_COOLDOWN_SECS
}

/// `r` is `s` brought into the allowed ranges: the account, the direction,
/// the position limit and the alert cooldown are normalized; every other
/// setting is kept.
pub open spec fn normalizes_to(s: &FixedLotSettings, r: &FixedLotSettings) -> bool {
    &&& r.account_id@ == spec_settings_account(s.account_id@)
    &&& opt_chars(r.last_direction) == spec_direction(opt_chars(s.last_direction))
    &&& r.max_open_positions == (if s.max_open_positions > MAX_OPEN_POSITIONS_LIMIT {
        MAX_OPEN_POSITIONS_LIMIT
    } else {
        s.max_open_positions
    })
    &&& r.telegram_alert_cooldown_seconds == spec_cooldown(s.telegram_alert_cooldown_seconds)
    &&& r.min_volume_bits == s.min_volume_bits
    &&& r.max_volume_bits == s.max_volume_bits
    &&& r.min_interval_minutes_bits == s.min_interval_minutes_bits
    &&& r.max_interval_minutes_bits == s.max_interval_minutes_bits
    &&& r.selected_symbols == s.selected_symbols
    &&& r.interval_enabled == s.interval_enabled
    &&& r.max_spread_filter_enabled == s.max_spread_filter_enabled
    &&& r.max_spread_pips_bits == s.max_spread_pips_bits
    &&& r.telegram_alert_enabled == s.telegram_alert_enabled
    &&& r.telegram_alert_below_pips_bits == s.telegram_alert_below_pips_bits
}

/// `a` and `b` hold the same settings.
pub open spec fn same_settings(a: &FixedLotSettings, b: &FixedLotSettings) -> bool {
    &&& a.account_id@ == b.account_id@
    &&& opt_chars(a.last_direction) == opt_chars(b.last_direction)
    &&& a.max_open_positions == b.max_open_positions
    &&& a.telegram_alert_cooldown_seconds == b.telegram_alert_cooldown_seconds
    &&& a.min_volume_bits == b.min_volume_bits
    &&& a.max_volume_bits == b.max_volume_bits
    &&& a.min_interval_minutes_bits == b.min_interval_minutes_bits
    &&& a.max_interval_minutes_bits == b.max_interval_minutes_bits
    &&& a.selected_symbols == b.selected_symbols
    &&& a.interval_enabled == b.interval_enabled
    &&& a.max_spread_filter_enabled == b.max_spread_filter_enabled
    &&& a.max_spread_pips_bits == b.max_spread_pips_bits
    &&& a.telegram_alert_enabled == b.telegram_alert_enabled
    &&& a.telegram_alert_below_pips_bits == b.telegram_alert_below_pips_bits
}

/// Brings incoming settings into their allowed ranges.
pub fn normalize_fixedlot_settings(s: FixedLotSettings) -> (r: FixedLotSettings)
    ensures
        normalizes_to(&s, &r),
{
    let mut s = s;
    if s.max_open_positions > MAX_OPEN_POSITIONS_LIMIT {
        s.max_open_positions = MAX_OPEN_POSITIONS_LIMIT;
    }
    if s.telegram_alert_cooldown_seconds < MIN_ALERT_COOLDOWN_SECS {
        s.telegram_alert_cooldown_seconds = MIN_ALERT_COOLDOWN_SECS;
    } else if s.telegram_alert_cooldown_seconds > MAX_ALERT_COOLDOWN_SECS {
        s.telegram_alert_cooldown_seconds = MAX_ALERT_COOLDOWN_SECS;
    }
    if !str_eq(s.account_id.as_str(), "default") && !str_eq(s.account_id.as_str(), "exness") {
        s.account_id = owned("default");
    }
    let direction = match &s.last_direction {
        Some(d) => if str_eq(d.as_str(), "buy") || str_eq(d.as_str(), "sell") {
            Some(d.clone())
        } else {
            let l = lowercase(d.as_str());
            if str_eq(l.as_str(), "buy") || str_eq(l.as_str(), "sell") {
                Some(l)
            } else {
                None
            }
        },
        None => None,
    };
    s.last_direction = direction;
    s
}

/// The stored direction is kept when it is `buy` or `sell`, replaced by its
/// lower case when that reads `buy` or `sell`, and dropped otherwise.
pub proof fn lemma_direction_normalized(s: FixedLotSettings, r: FixedLotSettings)
    requires
        normalizes_to(&s, &r),
    ensures
        match s.last_direction {
            Some(d) => {
                &&& (d@ == "buy"@ || d@ == "sell"@) ==> opt_chars(r.last_direction) == Some(d@)
                &&& (d@ != "buy"@ && d@ != "sell"@ && spec_lowercase(d@) == "buy"@) ==> opt_chars(
                    r.last_direction,
                ) == Some("buy"@)
                &&& (d@ != "buy"@ && d@ != "sell"@ && spec_lowercase(d@) == "sell"@) ==> opt_chars(
                    r.last_direction,
                ) == Some("sell"@)
                &&& (d@ != "buy"@ && d@ != "sell"@ && spec_lowercase(d@) != "buy"@ && spec_lowercase(d@)
                    != "sell"@) ==> r.last_direction is None
            },
            None => r.last_direction is None,
        },
{
}

/// Normalized settings are normal.
pub proof fn lemma_normalized_settings_normal(s: FixedLotSettings, r: FixedLotSettings)
    requires
        normalizes_to(&s, &r),
    ensures
        settings_normal(&r),
{
}

/// Normalizing settings that are already normal keeps them as they are; so
/// normalizing twice gives what normalizing once gives, and the default
/// settings normalize to themselves.
pub proof fn lemma_normalize_idempotent(s: FixedLotSettings, r: FixedLotSettings, r2: FixedLotSettings)
    requires
        normalizes_to(&s, &r),
        normalizes_to(&r, &r2),
    ensures
        same_settings(&r2, &r),
        settings_normal(&s) ==> same_settings(&r, &s),
{
}

// ---------------------------------------------------------------------------
// Exness copy count
// ---------------------------------------------------------------------------

/// The copy count in effect: the stored one, at least 1.
pub open spec fn effective_copy_count(n: u32) -> u32 {
    if n < 1 {
        1
    } else {
        n
    }
}

/// The copy count a fresh configuration holds.
pub fn default_exness_copy_count() -> (r: u32)
    ensures
        r == 1,
{
    1
}

/// The copy count in effect.
pub fn copy_count_in_effect(n: u32) -> (r: u32)
    ensures
        r == effective_copy_count(n),
{
    if n < 1 {
        1
    } else {
        n
    }
}

/// What a copy count update leads to.
#[derive(Clone, Copy, Debug, PartialEq, Eq, Structural)]
pub enum CopyCountUpdate {
    /// No count was given: the count in effect is reported.
    Unchanged(u32),
    /// A count of 0 was given: refused.
    Rejected,
    /// The count is set to this value (and saved).
    Apply(u32),
}

/// Decides a copy count update.
pub fn copy_count_update(current: u32, requested: Option<u32>) -> (r: CopyCountUpdate)
    ensures
        r == (match requested {
            None => CopyCountUpdate::Unchanged(effective_copy_count(current)),
            Some(n) => if n < 1 {
                CopyCountUpdate::Rejected
            } else {
                CopyCountUpdate::Apply(n)
            },
        }),
{
    match requested {
        None => CopyCountUpdate::Unchanged(copy_count_in_effect(current)),
        Some(n) => if n < 1 {
            CopyCountUpdate::Rejected
        } else {
            CopyCountUpdate::Apply(n)
        },
    }
}

} // verus!
