//! Telegram alerts of the FixedLot page: the subscriber list learned from the
//! bot's updates, the chats a message goes to, and the spread alert with its
//! per account-and-symbol cooldown.
use vstd::prelude::*;

use crate::accounts::{account_label, resolve_account_id, spec_account_label, is_known_account, unknown_account_message};
use crate::json::{array_items, array_items_of, field_i64, i64_of, json_field, json_field_text, spec_json_field, spec_json_field_text};
use crate::lexorder::{is_sorted_dedup_of, sort_dedup, views};
use crate::text::{str_concat, i64_to_decimal, owned, spec_signed_decimal, spec_trim, spec_uppercase, trim, uppercase, u64_to_decimal, spec_decimal};

verus! {

// ---------------------------------------------------------------------------
// Subscribers
// ---------------------------------------------------------------------------

/// What the panel reads of one bot update: its id and the chat it came from
/// (a message's chat, else a channel post's chat), when present.
#[derive(Clone, Copy, Debug, PartialEq, Eq, Structural)]
pub struct TelegramUpdate {
    pub update_id: Option<i64>,
    pub chat_id: Option<i64>,
}

/// The highest update id seen: `last` and every update id above it.
pub open spec fn max_update_id(last: i64, updates: Seq<TelegramUpdate>) -> i64
    decreases updates.len(),
{
    if updates.len() == 0 {
        last
    } else {
        let m = max_update_id(last, updates.drop_last());
        match updates.last().update_id {
            Some(id) => if id > m {
                id
            } else {
                m
            },
            None => m,
        }
    }
}

/// The last update id never goes back: it is at least the one before the batch
/// and at least every id in the batch.
pub proof fn lemma_update_id_monotone(last: i64, updates: Seq<TelegramUpdate>)
    ensures
        max_update_id(last, updates) >= last,
        forall|k: int| 0 <= k < updates.len() && (#[trigger] updates[k]).update_id is Some ==> max_update_id(last, updates) >= updates[k].update_id->0,
    decreases updates.len(),
{
    if updates.len() > 0 {
        lemma_update_id_monotone(last, updates.drop_last());
        assert forall|k: int| 0 <= k < updates.len() && (#[trigger] updates[k]).update_id is Some implies max_update_id(last, updates) >= updates[k].update_id->0 by {
            if k < updates.len() - 1 {
                assert(updates.drop_last()[k] == updates[k]);
            }
        }
    }
}

/// The `i64` at `outer.middle.inner` of a JSON text, if there is one.
pub open spec fn nested_i64(item: Seq<char>, outer: Seq<char>, middle: Seq<char>, inner: Seq<char>) -> Option<i64> {
    match spec_json_field_text(item, outer) {
        Some(o) => match spec_json_field_text(o, middle) {
            Some(m) => i64_of(spec_json_field(m, inner)),
            None => None,
        },
        None => None,
    }
}

/// What the panel reads of one element of a `getUpdates` result: its
/// `update_id`, and the chat id of its `message`, else of its `channel_post`.
pub open spec fn spec_update(item: Seq<char>) -> TelegramUpdate {
    TelegramUpdate {
        update_id: i64_of(spec_json_field(item, "update_id"@)),
        chat_id: match nested_i64(item, "message"@, "chat"@, "id"@) {
            Some(c) => Some(c),
            None => nested_i64(item, "channel_post"@, "chat"@, "id"@),
        },
    }
}

fn read_nested_i64(item: &str, outer: &str, middle: &str, inner: &str) -> (r: Option<i64>)
    ensures
        r == nested_i64(item@, outer@, middle@, inner@),
{
    match json_field_text(item, outer) {
        Some(o) => match json_field_text(o.as_str(), middle) {
            Some(m) => field_i64(&json_field(m.as_str(), inner)),
            None => None,
        },
        None => None,
    }
}

/// The updates of a `getUpdates` reply (its `result` array), in order.
pub fn read_updates(reply: &str) -> (r: Vec<TelegramUpdate>)
    ensures
        r@ == array_items(reply@, "result"@).map_values(|x: Seq<char>| spec_update(x)),
{
    let items = array_items_of(reply, "result");
    let ghost all = views(items@);
    let mut r: Vec<TelegramUpdate> = Vec::new();
    let mut i: usize = 0;
    while i < items.len()
        invariant
            i <= items.len(),
            all == views(items@),
            r@ == all.take(i as int).map_values(|x: Seq<char>| spec_update(x)),
        decreases items.len() - i,
    {
        let item = items[i].as_str();
        let chat = match read_nested_i64(item, "message", "chat", "id") {
            Some(c) => Some(c),
            None => read_nested_i64(item, "channel_post", "chat", "id"),
        };
        let u = TelegramUpdate { update_id: field_i64(&json_field(item, "update_id")), chat_id: chat };
        assert(u == spec_update(all[i as int]));
        r.push(u);
        assert(r@ =~= all.take(i + 1).map_values(|x: Seq<char>| spec_update(x)));
        i += 1;
    }
    assert(all.take(items.len() as int) =~= all);
    r
}

/// The chat ids the updates carry, as decimal strings, in order.
pub open spec fn update_chats(updates: Seq<TelegramUpdate>) -> Seq<Seq<char>>
    decreases updates.len(),
{
    if updates.len() == 0 {
        Seq::empty()
    } else {
        let rest = update_chats(updates.drop_last());
        match updates.last().chat_id {
            Some(c) => rest.push(spec_signed_decimal(c as int)),
            None => rest,
        }
    }
}

/// The result of reading a batch of bot updates.
#[derive(Clone, Copy, Debug, PartialEq, Eq, Structural)]
pub struct UpdatesMerge {
    /// The last update id seen so far.
    pub last_update_id: i64,
    /// Whether the subscriber file must be written again.
    pub changed: bool,
}

/// Adds the chats of a batch of updates to the subscribers, leaves the list
/// sorted without duplicates, and advances the last update id. The file is
/// rewritten when a new chat subscribed or the last update id moved.
pub fn merge_updates(subscribers: &mut Vec<String>, last_update_id: i64, updates: &Vec<TelegramUpdate>) -> (r: UpdatesMerge)
    ensures
        is_sorted_dedup_of(views(final(subscribers)@), views(old(subscribers)@) + update_chats(updates@)),
        r.last_update_id == max_update_id(last_update_id, updates@),
        r.changed == ((exists|k: int| 0 <= k < update_chats(updates@).len() && !views(old(subscribers)@).contains(#[trigger] update_chats(updates@)[k]))
            || max_update_id(last_update_id, updates@) > last_update_id),
{
    let ghost start = views(subscribers@);
    let mut last = last_update_id;
    let mut added = false;
    let mut all: Vec<String> = Vec::new();
    let mut k: usize = 0;
    while k < subscribers.len()
        invariant
            k <= subscribers.len(),
            start == views(subscribers@),
            views(all@) == start.take(k as int),
        decreases subscribers.len() - k,
    {
        let x = subscribers[k].clone();
        assert(x@ == start[k as int]);
        let ghost before_all = all@;
        all.push(x);
        assert(views(all@) =~= views(before_all).push(start[k as int]));
        assert(start.take(k + 1) =~= start.take(k as int).push(start[k as int]));
        assert(views(all@) =~= start.take(k + 1));
        k += 1;
    }
    assert(start.take(subscribers.len() as int) =~= start);
    let mut i: usize = 0;
    while i < updates.len()
        invariant
            i <= updates.len(),
            start == views(subscribers@),
            views(all@) == start + update_chats(updates@.take(i as int)),
            last == max_update_id(last_update_id, updates@.take(i as int)),
            added == exists|j: int| 0 <= j < update_chats(updates@.take(i as int)).len() && !start.contains(#[trigger] update_chats(updates@.take(i as int))[j]),
        decreases updates.len() - i,
    {
        let u = updates[i];
        let ghost prev_chats = update_chats(updates@.take(i as int));
        assert(updates@.take(i + 1).drop_last() =~= updates@.take(i as int));
        assert(updates@.take(i + 1).last() == u);
        match u.update_id {
            Some(id) => if id > last {
                last = id;
            },
            None => {},
        }
        match u.chat_id {
            Some(c) => {
                let s = i64_to_decimal(c);
                let fresh = !contains_string(subscribers, &s);
                let ghost sv = s@;
                let ghost before_all = all@;
                all.push(s);
                assert(views(all@) =~= views(before_all).push(sv));
                assert(views(all@) =~= start + prev_chats.push(sv));
                let ghost new_chats = update_chats(updates@.take(i + 1));
                assert(new_chats == prev_chats.push(sv));
                assert((exists|j: int| 0 <= j < new_chats.len() && !start.contains(#[trigger] new_chats[j])) == (added || fresh)) by {
                    if added {
                        let j = choose|j: int| 0 <= j < prev_chats.len() && !start.contains(#[trigger] prev_chats[j]);
                        assert(new_chats[j] == prev_chats[j]);
                    }
                    if fresh {
                        assert(new_chats[prev_chats.len() as int] == sv);
                    }
                    if exists|j: int| 0 <= j < new_chats.len() && !start.contains(#[trigger] new_chats[j]) {
                        let j = choose|j: int| 0 <= j < new_chats.len() && !start.contains(#[trigger] new_chats[j]);
                        if j < prev_chats.len() {
                            assert(prev_chats[j] == new_chats[j]);
                        }
                    }
                }
                if fresh {
                    added = true;
                }
            },
            None => {
                assert(update_chats(updates@.take(i + 1)) == prev_chats);
            },
        }
        i += 1;
    }
    assert(updates@.take(updates.len() as int) =~= updates@);
    let sorted = sort_dedup(&all);
    *subscribers = sorted;
    UpdatesMerge { last_update_id: last, changed: added || last > last_update_id }
}

/// Whether `x` is in `v`.
pub fn contains_string(v: &Vec<String>, x: &String) -> (r: bool)
    ensures
        r == views(v@).contains(x@),
{
    let mut i: usize = 0;
    while i < v.len()
        invariant
            i <= v.len(),
            forall|j: int| 0 <= j < i ==> views(v@)[j] != x@,
        decreases v.len() - i,
    {
        if v[i] == *x {
            assert(views(v@)[i as int] == x@);
            return true;
        }
        i += 1;
    }
    false
}

/// The refusal when no chat can receive a message.
pub open spec fn no_subscribers_message() -> Seq<char> {
    "No Telegram subscribers found. Each user must start the bot at least once."@
}

/// The chats a message goes to: the subscribers, or the configured default chat
/// when there are none; sorted without duplicates.
pub fn telegram_targets(subscribers: &Vec<String>, default_chat: &Option<String>) -> (r: Result<Vec<String>, String>)
    ensures
        ({
            let base = if subscribers@.len() == 0 {
                match default_chat {
                    Some(c) => seq![c@],
                    None => Seq::empty(),
                }
            } else {
                views(subscribers@)
            };
            match r {
                Ok(t) => base.len() > 0 && is_sorted_dedup_of(views(t@), base),
                Err(e) => base.len() == 0 && e@ == no_subscribers_message(),
            }
        }),
{
    let mut base: Vec<String> = Vec::new();
    if subscribers.len() == 0 {
        match default_chat {
            Some(c) => {
                base.push(c.clone());
                assert(views(base@) =~= seq![c@]);
            },
            None => {
                assert(views(base@) =~= Seq::<Seq<char>>::empty());
            },
        }
    } else {
        let mut k: usize = 0;
        while k < subscribers.len()
            invariant
                k <= subscribers.len(),
                views(base@) == views(subscribers@).take(k as int),
            decreases subscribers.len() - k,
        {
            let x = subscribers[k].clone();
            assert(x@ == views(subscribers@)[k as int]);
            let ghost before_base = base@;
            base.push(x);
            assert(views(base@) =~= views(before_base).push(views(subscribers@)[k as int]));
            assert(views(subscribers@).take(k + 1) =~= views(subscribers@).take(k as int).push(
                views(subscribers@)[k as int],
            ));
            assert(views(base@) =~= views(subscribers@).take(k + 1));
            k += 1;
        }
        assert(views(subscribers@).take(subscribers.len() as int) =~= views(subscribers@));
    }
    let t = sort_dedup(&base);
    if t.len() == 0 {
        if base.len() > 0 {
            assert(views(base@).contains(views(base@)[0]));
        }
        Err(owned("No Telegram subscribers found. Each user must start the bot at least once."))
    } else {
        assert(views(t@).contains(views(t@)[0]));
        Ok(t)
    }
}

// ---------------------------------------------------------------------------
// Alert cooldown
// ---------------------------------------------------------------------------

/// When an alert was last sent, per `account:SYMBOL` key.
#[derive(Debug)]
pub struct AlertLog {
    entries: Vec<(String, i64)>,
}

impl AlertLog {
    /// No key appears twice.
    pub closed spec fn wf(&self) -> bool {
        forall|i: int, j: int|
            0 <= i < j < self.entries@.len() ==> (#[trigger] self.entries@[i]).0@ != (#[trigger] self.entries@[j]).0@
    }

    /// The send time recorded for each key.
    pub closed spec fn view(&self) -> Map<Seq<char>, i64> {
        Map::new(
            |k: Seq<char>| exists|i: int| 0 <= i < self.entries@.len() && (#[trigger] self.entries@[i]).0@ == k,
            |k: Seq<char>| self.entries@[choose|i: int| 0 <= i < self.entries@.len() && (#[trigger] self.entries@[i]).0@ == k].1,
        )
    }

    /// An empty log.
    pub fn new() -> (r: AlertLog)
        ensures
            r.wf(),
            r.view() == Map::<Seq<char>, i64>::empty(),
    {
        let r = AlertLog { entries: Vec::new() };
        assert(r.view() =~= Map::<Seq<char>, i64>::empty());
        r
    }

    /// When an alert for `key` was last sent.
    pub fn last_sent(&self, key: &String) -> (r: Option<i64>)
        requires
            self.wf(),
        ensures
            r == (if self.view().contains_key(key@) {
                Some(self.view()[key@])
            } else {
                None
            }),
    {
        let mut i: usize = 0;
        while i < self.entries.len()
            invariant
                i <= self.entries.len(),
                self.wf(),
                forall|j: int| 0 <= j < i ==> (#[trigger] self.entries@[j]).0@ != key@,
            decreases self.entries.len() - i,
        {
            if self.entries[i].0 == *key {
                proof {
                    assert(self.view().contains_key(key@));
                    let c = choose|j: int| 0 <= j < self.entries@.len() && (#[trigger] self.entries@[j]).0@ == key@;
                    if c < i {
                        assert(self.entries@[c].0@ != self.entries@[i as int].0@);
                    } else if c > i {
                        assert(self.entries@[i as int].0@ != self.entries@[c].0@);
                    }
                }
                return Some(self.entries[i].1);
            }
            i += 1;
        }
        assert(!self.view().contains_key(key@));
        None
    }

    /// Where `key` is recorded, if it is.
    fn position_of(&self, key: &String) -> (r: Option<usize>)
        ensures
            match r {
                Some(i) => i < self.entries@.len() && self.entries@[i as int].0@ == key@,
                None => forall|j: int| 0 <= j < self.entries@.len() ==> (#[trigger] self.entries@[j]).0@ != key@,
            },
    {
        let mut i: usize = 0;
        while i < self.entries.len()
            invariant
                i <= self.entries.len(),
                forall|j: int| 0 <= j < i ==> (#[trigger] self.entries@[j]).0@ != key@,
            decreases self.entries.len() - i,
        {
            if self.entries[i].0 == *key {
                return Some(i);
            }
            i += 1;
        }
        None
    }

    /// Records that an alert for `key` was sent at `time`.
    pub fn record(&mut self, key: String, time: i64)
        requires
            old(self).wf(),
        ensures
            final(self).wf(),
            final(self).view() == old(self).view().insert(key@, time),
    {
        let ghost before = self.view();
        let ghost old_entries = self.entries@;
        let ghost kv = key@;
        match self.position_of(&key) {
            Some(i) => {
                self.entries.set(i, (key, time));
                assert forall|a: int, b: int| 0 <= a < b < self.entries@.len() implies (#[trigger] self.entries@[a]).0@ != (#[trigger] self.entries@[b]).0@ by {
                    assert(old_entries[a].0@ != old_entries[b].0@);
                }
                assert forall|k: Seq<char>| #[trigger] self.view().contains_key(k) <==> before.insert(kv, time).contains_key(k) by {
                    if before.contains_key(k) {
                        let c = choose|j: int| 0 <= j < old_entries.len() && (#[trigger] old_entries[j]).0@ == k;
                        assert(self.entries@[c].0@ == k);
                    }
                    if k == kv {
                        assert(self.entries@[i as int].0@ == k);
                    }
                    if self.view().contains_key(k) {
                        let c = choose|j: int| 0 <= j < self.entries@.len() && (#[trigger] self.entries@[j]).0@ == k;
                        assert(old_entries[c].0@ == k);
                    }
                }
                assert forall|k: Seq<char>| #[trigger] self.view().contains_key(k) implies self.view()[k] == before.insert(kv, time)[k] by {
                    let c = choose|j: int| 0 <= j < self.entries@.len() && (#[trigger] self.entries@[j]).0@ == k;
                    if k != kv {
                        assert(old_entries[c].0@ == k);
                        let c0 = choose|j: int| 0 <= j < old_entries.len() && (#[trigger] old_entries[j]).0@ == k;
                        if c0 != c {
                            if c0 < c {
                                assert(old_entries[c0].0@ != old_entries[c].0@);
                            } else {
                                assert(old_entries[c].0@ != old_entries[c0].0@);
                            }
                        }
                    } else {
                        if c != i {
                            if c < i {
                                assert(self.entries@[c].0@ != self.entries@[i as int].0@);
                            } else {
                                assert(self.entries@[i as int].0@ != self.entries@[c].0@);
                            }
                        }
                    }
                }
                assert(self.view() =~= before.insert(kv, time));
            },
            None => {
                self.entries.push((key, time));
                let ghost n = old_entries.len() as int;
                assert forall|a: int, b: int| 0 <= a < b < self.entries@.len() implies (#[trigger] self.entries@[a]).0@ != (#[trigger] self.entries@[b]).0@ by {
                    if b < n {
                        assert(old_entries[a].0@ != old_entries[b].0@);
                    } else {
                        assert(old_entries[a].0@ != kv);
                    }
                }
                assert forall|k: Seq<char>| #[trigger] self.view().contains_key(k) <==> before.insert(kv, time).contains_key(k) by {
                    if before.contains_key(k) {
                        let c = choose|j: int| 0 <= j < old_entries.len() && (#[trigger] old_entries[j]).0@ == k;
                        assert(self.entries@[c].0@ == k);
                    }
                    if k == kv {
                        assert(self.entries@[n].0@ == k);
                    }
                    if self.view().contains_key(k) && k != kv {
                        let c = choose|j: int| 0 <= j < self.entries@.len() && (#[trigger] self.entries@[j]).0@ == k;
                        assert(old_entries[c].0@ == k);
                    }
                }
                assert forall|k: Seq<char>| #[trigger] self.view().contains_key(k) implies self.view()[k] == before.insert(kv, time)[k] by {
                    let c = choose|j: int| 0 <= j < self.entries@.len() && (#[trigger] self.entries@[j]).0@ == k;
                    if k != kv {
                        assert(c < n);
                        assert(old_entries[c].0@ == k);
                        let c0 = choose|j: int| 0 <= j < old_entries.len() && (#[trigger] old_entries[j]).0@ == k;
                        if c0 != c {
                            if c0 < c {
                                assert(old_entries[c0].0@ != old_entries[c].0@);
                            } else {
                                assert(old_entries[c].0@ != old_entries[c0].0@);
                            }
                        }
                    } else {
                        if c != n {
                            assert(old_entries[c].0@ != kv);
                        }
                    }
                }
                assert(self.view() =~= before.insert(kv, time));
            },
        }
    }
}

/// The cooldown between two alerts for one key, in seconds: the setting, at
/// least 10 (`max(10) as i64`).
pub open spec fn cooldown_secs(setting: u64) -> i64 {
    (if setting < 10 {
        10
    } else {
        setting
    }) as i64
}

/// Whether an alert sent at `last` still blocks one at `now`.
pub open spec fn in_cooldown(last: Option<i64>, now: i64, setting: u64) -> bool {
    match last {
        Some(t) => now - t < cooldown_secs(setting),
        None => false,
    }
}

/// Once an alert for a key went out at `sent`, a request for the same key
/// at `now` within the cooldown is held back, and one after it is not.
pub proof fn lemma_cooldown_after_send(sent: i64, now: i64, setting: u64)
    ensures
        now - sent < cooldown_secs(setting) ==> in_cooldown(Some(sent), now, setting),
        now - sent >= cooldown_secs(setting) ==> !in_cooldown(Some(sent), now, setting),
        !in_cooldown(None, now, setting),
{
}

/// The cooldown in effect is the configured one whenever that is at least
/// 10 seconds, and 10 seconds otherwise: an alert sent at `sent` holds back a
/// request at `now` exactly when fewer than that many seconds have passed.
/// (A setting above `i64::MAX` wraps when read as seconds; stored settings are
/// at most a day.)
pub proof fn lemma_cooldown_is_setting(sent: i64, now: i64, setting: u64)
    requires
        setting <= i64::MAX,
    ensures
        setting >= 10 ==> (in_cooldown(Some(sent), now, setting) <==> now - sent < setting),
        setting < 10 ==> (in_cooldown(Some(sent), now, setting) <==> now - sent < 10),
{
}

/// The key of an alert: `account:SYMBOL`.
pub open spec fn alert_key(account: Seq<char>, symbol: Seq<char>) -> Seq<char> {
    account + ":"@ + symbol
}

/// What a spread alert request leads to.
#[derive(Debug)]
pub enum SpreadAlert {
    /// Alerts are switched off in the settings.
    Disabled,
    /// The account is not one of the fixed accounts (the refusal message).
    BadAccount(String),
    /// The symbol is empty once trimmed.
    MissingSymbol,
    /// The spread is not a finite non-negative number.
    BadSpread,
    /// The spread is not below the threshold.
    NotBelow,
    /// No bot token is configured.
    NoToken,
    /// An alert for this account and symbol went out within the cooldown.
    Cooldown,
    /// Send the alert (its send time is recorded).
    Send { account_label: String, symbol: String },
}

/// The facts about a spread alert request that the library does not compute
/// itself: whether the spread is a finite non-negative number and whether it
/// is below the threshold (decimal comparisons), and whether a bot token is set.
#[derive(Clone, Copy, Debug, PartialEq, Eq, Structural)]
pub struct SpreadFacts {
    pub spread_valid: bool,
    pub spread_below: bool,
    pub has_token: bool,
}

/// Decides a spread alert: the checks in order (alerts enabled, account known,
/// symbol given, spread valid, spread below the threshold, token set, no
/// alert for the same account and symbol within the cooldown); when all pass,
/// the send time is recorded and the alert goes out.
pub fn spread_alert_decision(
    log: &mut AlertLog,
    alerts_enabled: bool,
    account_id: &str,
    symbol: &str,
    facts: SpreadFacts,
    cooldown_setting: u64,
    now: i64,
) -> (r: SpreadAlert)
    requires
        old(log).wf(),
    ensures
        final(log).wf(),
        ({
            let sym = spec_uppercase(spec_trim(symbol@));
            let key = alert_key(account_id@, sym);
            let last = if old(log).view().contains_key(key) { Some(old(log).view()[key]) } else { None };
            if !alerts_enabled {
                r is Disabled && final(log).view() == old(log).view()
            } else if !is_known_account(account_id@) {
                (r matches SpreadAlert::BadAccount(m) && m@ == unknown_account_message(account_id@)) && final(log).view() == old(log).view()
            } else if sym.len() == 0 {
                r is MissingSymbol && final(log).view() == old(log).view()
            } else if !facts.spread_valid {
                r is BadSpread && final(log).view() == old(log).view()
            } else if !facts.spread_below {
                r is NotBelow && final(log).view() == old(log).view()
            } else if !facts.has_token {
                r is NoToken && final(log).view() == old(log).view()
            } else if in_cooldown(last, now, cooldown_setting) {
                r is Cooldown && final(log).view() == old(log).view()
            } else {
                (r matches SpreadAlert::Send { account_label: l, symbol: s } && l@ == spec_account_label(account_id@) && s@ == sym)
                    && final(log).view() == old(log).view().insert(key, now)
            }
        }),
{
    if !alerts_enabled {
        return SpreadAlert::Disabled;
    }
    let account = match resolve_account_id(Some(owned(account_id))) {
        Ok(a) => a,
        Err(e) => {
            return SpreadAlert::BadAccount(e);
        },
    };
    let trimmed = trim(symbol);
    let sym = uppercase(trimmed.as_str());
    if sym.as_str().is_empty() {
        return SpreadAlert::MissingSymbol;
    }
    if !facts.spread_valid {
        return SpreadAlert::BadSpread;
    }
    if !facts.spread_below {
        return SpreadAlert::NotBelow;
    }
    if !facts.has_token {
        return SpreadAlert::NoToken;
    }
    let cooldown: i64 = (if cooldown_setting < 10 {
        10
    } else {
        cooldown_setting
    }) as i64;
    let head = str_concat(account.as_str(), ":");
    let key = str_concat(head.as_str(), sym.as_str());
    match log.last_sent(&key) {
        Some(t) => {
            if (now as i128) - (t as i128) < (cooldown as i128) {
                return SpreadAlert::Cooldown;
            }
        },
        None => {},
    }
    log.record(key, now);
    SpreadAlert::Send { account_label: account_label(account.as_str()), symbol: sym }
}

/// Where a test alert goes.
#[derive(Debug)]
pub enum TestAlert {
    /// No bot token is configured.
    NoToken,
    /// The account is not one of the fixed accounts (the refusal message).
    BadAccount(String),
    /// Send a test message naming this account label and symbol.
    Send { account_label: String, symbol: String },
}

/// Decides a test alert: a token is needed, the account (default `default`)
/// must be a fixed account, and the symbol defaults to `EURUSD`.
pub fn test_alert_decision(has_token: bool, account_id: Option<String>, symbol: Option<String>) -> (r: TestAlert)
    ensures
        ({
            let id = match account_id { Some(a) => a@, None => "default"@ };
            if !has_token {
                r is NoToken
            } else if !is_known_account(id) {
                r matches TestAlert::BadAccount(m) && m@ == unknown_account_message(id)
            } else {
                r matches TestAlert::Send { account_label: l, symbol: s } && l@ == spec_account_label(id)
                    && s@ == (match symbol { Some(x) => x@, None => "EURUSD"@ })
            }
        }),
{
    if !has_token {
        return TestAlert::NoToken;
    }
    let account = match resolve_account_id(account_id) {
        Ok(a) => a,
        Err(e) => {
            return TestAlert::BadAccount(e);
        },
    };
    let symbol = match symbol {
        Some(s) => s,
        None => owned("EURUSD"),
    };
    TestAlert::Send { account_label: account_label(account.as_str()), symbol }
}

} // verus!
