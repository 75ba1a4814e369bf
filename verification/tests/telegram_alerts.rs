use mt5_panel::telegram::{
    merge_updates, read_updates, spread_alert_decision, telegram_targets, test_alert_decision, AlertLog, SpreadAlert, SpreadFacts,
    TelegramUpdate, TestAlert,
};

fn strings(v: &[&str]) -> Vec<String> {
    v.iter().map(|s| s.to_string()).collect()
}

const ALL_OK: SpreadFacts = SpreadFacts { spread_valid: true, spread_below: true, has_token: true };

#[test]
fn subscribers_from_updates() {
    let mut subs = strings(&["200", "100"]);
    let updates = vec![
        TelegramUpdate { update_id: Some(7), chat_id: Some(300) },
        TelegramUpdate { update_id: Some(5), chat_id: Some(100) },
        TelegramUpdate { update_id: None, chat_id: Some(-42) },
        TelegramUpdate { update_id: Some(9), chat_id: None },
    ];
    let r = merge_updates(&mut subs, 6, &updates);
    assert_eq!(subs, strings(&["-42", "100", "200", "300"]));
    assert_eq!(r.last_update_id, 9);
    assert!(r.changed);
}

#[test]
fn nothing_new_changes_nothing() {
    let mut subs = strings(&["100"]);
    let updates = vec![TelegramUpdate { update_id: Some(3), chat_id: Some(100) }];
    let r = merge_updates(&mut subs, 10, &updates);
    assert_eq!(subs, strings(&["100"]));
    assert_eq!(r.last_update_id, 10);
    assert!(!r.changed);
    let mut subs = strings(&["b", "a", "a"]);
    let r = merge_updates(&mut subs, 0, &Vec::new());
    assert_eq!(subs, strings(&["a", "b"]));
    assert!(!r.changed);
}

#[test]
fn message_targets() {
    assert_eq!(telegram_targets(&strings(&["2", "1", "2"]), &Some("9".to_string())), Ok(strings(&["1", "2"])));
    assert_eq!(telegram_targets(&Vec::new(), &Some("9".to_string())), Ok(strings(&["9"])));
    assert_eq!(
        telegram_targets(&Vec::new(), &None),
        Err("No Telegram subscribers found. Each user must start the bot at least once.".to_string())
    );
}

#[test]
fn spread_alert_checks_in_order() {
    let mut log = AlertLog::new();
    assert!(matches!(spread_alert_decision(&mut log, false, "x", "", ALL_OK, 300, 0), SpreadAlert::Disabled));
    match spread_alert_decision(&mut log, true, "x", "eurusd", ALL_OK, 300, 0) {
        SpreadAlert::BadAccount(m) => assert_eq!(m, "Unknown account_id: x. Use one of: default, exness"),
        other => panic!("unexpected {:?}", other),
    }
    assert!(matches!(spread_alert_decision(&mut log, true, "default", "  ", ALL_OK, 300, 0), SpreadAlert::MissingSymbol));
    let f = SpreadFacts { spread_valid: false, ..ALL_OK };
    assert!(matches!(spread_alert_decision(&mut log, true, "default", "eurusd", f, 300, 0), SpreadAlert::BadSpread));
    let f = SpreadFacts { spread_below: false, ..ALL_OK };
    assert!(matches!(spread_alert_decision(&mut log, true, "default", "eurusd", f, 300, 0), SpreadAlert::NotBelow));
    let f = SpreadFacts { has_token: false, ..ALL_OK };
    assert!(matches!(spread_alert_decision(&mut log, true, "default", "eurusd", f, 300, 0), SpreadAlert::NoToken));
}

#[test]
fn spread_alert_cooldown() {
    let mut log = AlertLog::new();
    match spread_alert_decision(&mut log, true, "exness", " eurusd ", ALL_OK, 300, 1000) {
        SpreadAlert::Send { account_label, symbol } => {
            assert_eq!(account_label, "MT5 - EXNESS");
            assert_eq!(symbol, "EURUSD");
        }
        other => panic!("unexpected {:?}", other),
    }
    assert!(matches!(spread_alert_decision(&mut log, true, "exness", "EURUSD", ALL_OK, 300, 1299), SpreadAlert::Cooldown));
    // another symbol or account is not held back
    assert!(matches!(spread_alert_decision(&mut log, true, "exness", "GBPUSD", ALL_OK, 300, 1299), SpreadAlert::Send { .. }));
    assert!(matches!(spread_alert_decision(&mut log, true, "default", "EURUSD", ALL_OK, 300, 1299), SpreadAlert::Send { .. }));
    assert!(matches!(spread_alert_decision(&mut log, true, "exness", "EURUSD", ALL_OK, 300, 1300), SpreadAlert::Send { .. }));
    // cooldown setting below 10 s counts as 10 s
    assert!(matches!(spread_alert_decision(&mut log, true, "exness", "EURUSD", ALL_OK, 0, 1309), SpreadAlert::Cooldown));
    assert!(matches!(spread_alert_decision(&mut log, true, "exness", "EURUSD", ALL_OK, 0, 1310), SpreadAlert::Send { .. }));
}

#[test]
fn test_alerts() {
    assert!(matches!(test_alert_decision(false, None, None), TestAlert::NoToken));
    match test_alert_decision(true, None, None) {
        TestAlert::Send { account_label, symbol } => {
            assert_eq!(account_label, "MT5 (Default)");
            assert_eq!(symbol, "EURUSD");
        }
        other => panic!("unexpected {:?}", other),
    }
    match test_alert_decision(true, Some("exness".to_string()), Some("GBPUSD".to_string())) {
        TestAlert::Send { account_label, symbol } => {
            assert_eq!(account_label, "MT5 - EXNESS");
            assert_eq!(symbol, "GBPUSD");
        }
        other => panic!("unexpected {:?}", other),
    }
    assert!(matches!(test_alert_decision(true, Some("nope".to_string()), None), TestAlert::BadAccount(_)));
}

#[test]
fn bot_updates_read() {
    let reply = r#"{"ok":true,"result":[
        {"update_id":10,"message":{"chat":{"id":-100123},"text":"hi"}},
        {"update_id":11,"channel_post":{"chat":{"id":555}}},
        {"update_id":12,"message":{"chat":{"id":7}},"channel_post":{"chat":{"id":8}}},
        {"update_id":13,"message":{"text":"no chat"}},
        {"message":{"chat":{"id":"str"}}}
    ]}"#;
    assert_eq!(
        read_updates(reply),
        vec![
            TelegramUpdate { update_id: Some(10), chat_id: Some(-100123) },
            TelegramUpdate { update_id: Some(11), chat_id: Some(555) },
            TelegramUpdate { update_id: Some(12), chat_id: Some(7) },
            TelegramUpdate { update_id: Some(13), chat_id: None },
            TelegramUpdate { update_id: None, chat_id: None },
        ]
    );
    assert!(read_updates(r#"{"ok":false}"#).is_empty());
    assert!(read_updates("oops").is_empty());
    // Merging them: subscribers sorted without duplicates, last id advanced.
    let mut subs = strings(&["7"]);
    let merge = merge_updates(&mut subs, 9, &read_updates(reply));
    assert_eq!(subs, strings(&["-100123", "555", "7"]));
    assert_eq!(merge.last_update_id, 13);
    assert!(merge.changed);
}
