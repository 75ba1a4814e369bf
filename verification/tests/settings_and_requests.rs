use mt5_panel::requests::tick_stream_terminal;
use mt5_panel::requests::{close_all_pairs_message, close_all_scope, close_all_summary, parse_symbol_list, CloseAllScope};
use mt5_panel::settings::{copy_count_in_effect, copy_count_update, normalize_fixedlot_settings, CopyCountUpdate, FixedLotSettings};

fn settings() -> FixedLotSettings {
    FixedLotSettings {
        account_id: "default".to_string(),
        min_volume_bits: 0.01f64.to_bits(),
        max_volume_bits: 0.1f64.to_bits(),
        min_interval_minutes_bits: 10f64.to_bits(),
        max_interval_minutes_bits: 15f64.to_bits(),
        selected_symbols: Vec::new(),
        interval_enabled: false,
        last_direction: None,
        max_open_positions: 0,
        max_spread_filter_enabled: false,
        max_spread_pips_bits: 2f64.to_bits(),
        telegram_alert_enabled: false,
        telegram_alert_below_pips_bits: 0.2f64.to_bits(),
        telegram_alert_cooldown_seconds: 300,
    }
}

#[test]
fn fixedlot_normalization() {
    let mut s = settings();
    s.account_id = "icmarkets".to_string();
    s.last_direction = Some("SELL".to_string());
    s.max_open_positions = 250_000;
    s.telegram_alert_cooldown_seconds = 3;
    let r = normalize_fixedlot_settings(s);
    assert_eq!(r.account_id, "default");
    assert_eq!(r.last_direction, Some("sell".to_string()));
    assert_eq!(r.max_open_positions, 100_000);
    assert_eq!(r.telegram_alert_cooldown_seconds, 10);
    assert_eq!(r.max_spread_pips_bits, 2f64.to_bits());

    let mut s = settings();
    s.account_id = "exness".to_string();
    s.last_direction = Some("hold".to_string());
    s.telegram_alert_cooldown_seconds = 100_000;
    let r = normalize_fixedlot_settings(s);
    assert_eq!(r.account_id, "exness");
    assert_eq!(r.last_direction, None);
    assert_eq!(r.telegram_alert_cooldown_seconds, 86_400);
}

#[test]
fn copy_count() {
    assert_eq!(copy_count_in_effect(0), 1);
    assert_eq!(copy_count_in_effect(4), 4);
    assert_eq!(copy_count_update(0, None), CopyCountUpdate::Unchanged(1));
    assert_eq!(copy_count_update(3, None), CopyCountUpdate::Unchanged(3));
    assert_eq!(copy_count_update(3, Some(0)), CopyCountUpdate::Rejected);
    assert_eq!(copy_count_update(3, Some(10)), CopyCountUpdate::Apply(10));
}

#[test]
fn tick_stream_symbols() {
    assert_eq!(parse_symbol_list(Some(" eurusd, GBPUSD ,,EURUSD,GBPUSD".to_string())), vec!["EURUSD", "GBPUSD", "eurusd"]);
    assert!(parse_symbol_list(None).is_empty());
    assert!(parse_symbol_list(Some(" , ,".to_string())).is_empty());
    let many: Vec<String> = (0..130).map(|i| format!("S{:03}", i)).collect();
    let r = parse_symbol_list(Some(many.join(",")));
    assert_eq!(r.len(), 120);
    assert_eq!(r[0], "S000");
    assert_eq!(r[119], "S119");
}

#[test]
fn close_all_scopes() {
    assert!(matches!(close_all_scope(&None), CloseAllScope::Both));
    assert!(matches!(close_all_scope(&Some("   ".to_string())), CloseAllScope::Both));
    match close_all_scope(&Some(" exness ".to_string())) {
        CloseAllScope::Single(id) => assert_eq!(id, "exness"),
        other => panic!("unexpected {:?}", other),
    }
    match close_all_scope(&Some("x".to_string())) {
        CloseAllScope::Invalid(m) => assert_eq!(m, "Unknown account_id: x. Use one of: default, exness"),
        other => panic!("unexpected {:?}", other),
    }
}

#[test]
fn close_all_summaries() {
    let s = close_all_summary(3, 3, &None);
    assert!(s.ok);
    assert_eq!(s.failed_count, 0);
    assert_eq!(s.message, "Closed 3 position(s) on both accounts");
    let s = close_all_summary(2, 5, &Some("exness".to_string()));
    assert!(!s.ok);
    assert_eq!(s.failed_count, 3);
    assert_eq!(s.message, "Closed 2 of 5 position(s) on account exness; 3 failed");
    assert_eq!(close_all_pairs_message(1, 4), "Closed 1 of 4 pair(s) on both accounts");
}

#[test]
fn fixedlot_defaults() {
    let s = mt5_panel::settings::FixedLotSettings::default();
    assert_eq!(s.account_id, "default");
    assert_eq!(f64::from_bits(s.min_volume_bits), 0.01);
    assert_eq!(f64::from_bits(s.max_volume_bits), 0.1);
    assert_eq!(f64::from_bits(s.min_interval_minutes_bits), 10.0);
    assert_eq!(f64::from_bits(s.max_interval_minutes_bits), 15.0);
    assert_eq!(f64::from_bits(s.max_spread_pips_bits), 2.0);
    assert_eq!(f64::from_bits(s.telegram_alert_below_pips_bits), 0.2);
    assert_eq!(s.telegram_alert_cooldown_seconds, 300);
    assert!(!s.interval_enabled && !s.max_spread_filter_enabled && !s.telegram_alert_enabled);
    assert!(s.last_direction.is_none() && s.selected_symbols.is_empty());
    assert_eq!(s.max_open_positions, 0);
}

#[test]
fn tick_stream_account() {
    assert_eq!(
        tick_stream_terminal(None),
        Some(("default".to_string(), r"C:\Program Files\MetaTrader 5\terminal64.exe".to_string()))
    );
    assert_eq!(
        tick_stream_terminal(Some("exness".to_string())),
        Some(("exness".to_string(), r"C:\Program Files\MetaTrader 5 EXNESS\terminal64.exe".to_string()))
    );
    assert_eq!(tick_stream_terminal(Some("icm".to_string())), None);
}

#[test]
fn normalizing_twice_is_normalizing_once() {
    let mut s = FixedLotSettings::default();
    s.account_id = "other".to_string();
    s.last_direction = Some("SeLl".to_string());
    s.max_open_positions = 500_000;
    s.telegram_alert_cooldown_seconds = 3;
    let once = normalize_fixedlot_settings(s);
    assert_eq!(once.account_id, "default");
    assert_eq!(once.last_direction.as_deref(), Some("sell"));
    assert_eq!(once.max_open_positions, 100_000);
    assert_eq!(once.telegram_alert_cooldown_seconds, 10);
    let twice = normalize_fixedlot_settings(clone_settings(&once));
    assert_eq!(twice.account_id, once.account_id);
    assert_eq!(twice.last_direction, once.last_direction);
    assert_eq!(twice.max_open_positions, once.max_open_positions);
    assert_eq!(twice.telegram_alert_cooldown_seconds, once.telegram_alert_cooldown_seconds);
    let d = normalize_fixedlot_settings(FixedLotSettings::default());
    assert_eq!(d.account_id, "default");
    assert_eq!(d.last_direction, None);
    assert_eq!(d.telegram_alert_cooldown_seconds, 300);
}

fn clone_settings(s: &mt5_panel::settings::FixedLotSettings) -> mt5_panel::settings::FixedLotSettings {
    mt5_panel::settings::FixedLotSettings {
        account_id: s.account_id.clone(),
        min_volume_bits: s.min_volume_bits,
        max_volume_bits: s.max_volume_bits,
        min_interval_minutes_bits: s.min_interval_minutes_bits,
        max_interval_minutes_bits: s.max_interval_minutes_bits,
        selected_symbols: s.selected_symbols.clone(),
        interval_enabled: s.interval_enabled,
        last_direction: s.last_direction.clone(),
        max_open_positions: s.max_open_positions,
        max_spread_filter_enabled: s.max_spread_filter_enabled,
        max_spread_pips_bits: s.max_spread_pips_bits,
        telegram_alert_enabled: s.telegram_alert_enabled,
        telegram_alert_below_pips_bits: s.telegram_alert_below_pips_bits,
        telegram_alert_cooldown_seconds: s.telegram_alert_cooldown_seconds,
    }
}
