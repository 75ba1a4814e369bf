use mt5_panel::worker::{
    apply_worker_patch, at_position_limit, choose_worker_symbol, ensure_scheduled, failure_message,
    normalize_place_mode, pick_delay, record_worker_run, uses_master_slave, worker_compute_next_run_at, worker_due,
    worker_is_active, DelayBounds, WorkerBalance, WorkerConfig, WorkerConfigPatch, WorkerFailedRecord,
    MAX_FAILED_RECORDS,
};

fn config(enabled: bool, symbols: &[&str]) -> WorkerConfig {
    WorkerConfig {
        enabled,
        fixed_interval: true,
        interval_minutes_bits: 15f64.to_bits(),
        min_minutes_bits: 1f64.to_bits(),
        max_minutes_bits: 5f64.to_bits(),
        symbols: symbols.iter().map(|s| s.to_string()).collect(),
        min_volume_bits: 0.0001f64.to_bits(),
        max_volume_bits: 0.01f64.to_bits(),
        place_mode: "both".to_string(),
        next_run_at: None,
        last_symbol: None,
        run_count: 0,
        last_run_at: None,
        failed_positions: Vec::new(),
        worker_balance: WorkerBalance { account1_buy: 0, account1_sell: 0 },
        use_sl_tp: true,
        sl_tp_pips: Vec::new(),
        max_open_positions: 0,
    }
}

fn empty_patch() -> WorkerConfigPatch {
    WorkerConfigPatch {
        enabled: None,
        fixed_interval: None,
        interval_minutes_bits: None,
        min_minutes_bits: None,
        max_minutes_bits: None,
        symbols: None,
        min_volume_bits: None,
        max_volume_bits: None,
        place_mode: None,
        use_sl_tp: None,
        sl_tp_pips: None,
        reset_run_count: None,
        clear_failed_positions: None,
        reset_balance: None,
        max_open_positions: None,
    }
}

const BOUNDS: DelayBounds = DelayBounds { fixed_secs: 900, min_secs: 60, max_secs: 300 };

#[test]
fn delays() {
    assert_eq!(pick_delay(true, BOUNDS), 900);
    assert_eq!(pick_delay(false, DelayBounds { fixed_secs: 900, min_secs: 60, max_secs: 60 }), 60);
    assert_eq!(pick_delay(false, DelayBounds { fixed_secs: 900, min_secs: 60, max_secs: 30 }), 60);
    for _ in 0..200 {
        let d = pick_delay(false, BOUNDS);
        assert!((60..=300).contains(&d));
    }
}

#[test]
fn next_run_time() {
    let c = config(true, &["EURUSD"]);
    assert_eq!(worker_compute_next_run_at(0, &c, BOUNDS), Some("1970-01-01T00:15:00+00:00".to_string()));
    assert_eq!(worker_compute_next_run_at(0, &config(false, &["EURUSD"]), BOUNDS), None);
    assert_eq!(worker_compute_next_run_at(0, &config(true, &[]), BOUNDS), None);
    assert!(worker_is_active(&c));
}

#[test]
fn due_runs() {
    let mut c = config(true, &["EURUSD"]);
    assert!(!worker_due(&c, 1_000_000));
    c.next_run_at = Some("2024-01-01T00:00:00+00:00".to_string());
    assert!(worker_due(&c, 1_704_067_200));
    assert!(!worker_due(&c, 1_704_067_199));
    c.next_run_at = Some("not a time".to_string());
    assert!(!worker_due(&c, i64::MAX));
    let mut d = config(false, &["EURUSD"]);
    d.next_run_at = Some("2024-01-01T00:00:00+00:00".to_string());
    assert!(!worker_due(&d, i64::MAX));
}

#[test]
fn scheduling_when_missing() {
    let mut c = config(true, &["EURUSD"]);
    assert!(ensure_scheduled(&mut c, 0, BOUNDS));
    assert_eq!(c.next_run_at, Some("1970-01-01T00:15:00+00:00".to_string()));
    assert!(!ensure_scheduled(&mut c, 100, BOUNDS));
    assert_eq!(c.next_run_at, Some("1970-01-01T00:15:00+00:00".to_string()));
}

#[test]
fn config_patches() {
    let mut c = config(true, &["EURUSD"]);
    c.run_count = 5;
    c.worker_balance = WorkerBalance { account1_buy: 3, account1_sell: 4 };
    let mut p = empty_patch();
    p.place_mode = Some("master_slave_hedge".to_string());
    p.reset_run_count = Some(true);
    p.reset_balance = Some(false);
    p.max_open_positions = Some(6);
    let c = apply_worker_patch(c, p, 0, BOUNDS);
    assert_eq!(c.place_mode, "master_slave_hedge");
    assert!(uses_master_slave(&c));
    assert_eq!(c.run_count, 0);
    assert_eq!(c.worker_balance, WorkerBalance { account1_buy: 3, account1_sell: 4 });
    assert_eq!(c.max_open_positions, 6);
    assert_eq!(c.next_run_at, Some("1970-01-01T00:15:00+00:00".to_string()));
    let mut p = empty_patch();
    p.enabled = Some(false);
    p.place_mode = Some("other".to_string());
    let c = apply_worker_patch(c, p, 0, BOUNDS);
    assert_eq!(c.place_mode, "both");
    assert_eq!(c.next_run_at, None);
    assert_eq!(normalize_place_mode("master_slave_hedge"), "master_slave_hedge");
    assert_eq!(normalize_place_mode("MASTER_SLAVE_HEDGE"), "both");
}

#[test]
fn symbol_choice_avoids_repeats() {
    let mut c = config(true, &["EURUSD", "GBPUSD"]);
    let first = choose_worker_symbol(&mut c);
    for _ in 0..50 {
        let next = choose_worker_symbol(&mut c);
        assert_ne!(next, c.symbols.iter().find(|s| **s != next).cloned().unwrap_or_default());
        assert_eq!(c.last_symbol, Some(next.clone()));
    }
    assert!(first == "EURUSD" || first == "GBPUSD");
    let mut c = config(true, &["EURUSD", "GBPUSD"]);
    c.last_symbol = Some("EURUSD".to_string());
    for _ in 0..20 {
        c.last_symbol = Some("EURUSD".to_string());
        assert_eq!(choose_worker_symbol(&mut c), "GBPUSD");
    }
    let mut single = config(true, &["XAUUSD"]);
    single.last_symbol = Some("XAUUSD".to_string());
    assert_eq!(choose_worker_symbol(&mut single), "XAUUSD");
}

#[test]
fn position_limit() {
    assert!(!at_position_limit(0, 1000));
    assert!(!at_position_limit(4, 3));
    assert!(at_position_limit(4, 4));
    assert!(at_position_limit(4, 9));
}

#[test]
fn run_records() {
    let mut c = config(true, &["EURUSD"]);
    record_worker_run(&mut c, "t1".to_string(), true, true, Some(true), "EURUSD".to_string(), 0, "", "");
    assert_eq!(c.run_count, 1);
    assert_eq!(c.worker_balance, WorkerBalance { account1_buy: 1, account1_sell: 0 });
    assert_eq!(c.last_run_at, Some("t1".to_string()));
    record_worker_run(&mut c, "t2".to_string(), true, true, Some(false), "EURUSD".to_string(), 0, "", "");
    assert_eq!(c.worker_balance, WorkerBalance { account1_buy: 1, account1_sell: 1 });
    record_worker_run(&mut c, "t3".to_string(), true, false, Some(true), "EURUSD".to_string(), 0, "", "");
    assert_eq!(c.worker_balance, WorkerBalance { account1_buy: 1, account1_sell: 1 });
    assert_eq!(c.run_count, 3);
    record_worker_run(&mut c, "t4".to_string(), false, true, Some(true), "GBPUSD".to_string(), 0.02f64.to_bits(), "", "rolled back");
    assert_eq!(c.run_count, 3);
    assert_eq!(c.failed_positions.len(), 1);
    let f: &WorkerFailedRecord = &c.failed_positions[0];
    assert_eq!(f.time, "t4");
    assert_eq!(f.symbol, "GBPUSD");
    assert_eq!(f.volume_bits, 0.02f64.to_bits());
    assert_eq!(f.message, Some("rolled back".to_string()));
}

#[test]
fn failed_list_keeps_newest_hundred() {
    let mut c = config(true, &["EURUSD"]);
    for i in 0..(MAX_FAILED_RECORDS + 5) {
        record_worker_run(&mut c, format!("t{}", i), false, false, None, "EURUSD".to_string(), 0, "", "");
    }
    assert_eq!(c.failed_positions.len(), MAX_FAILED_RECORDS);
    assert_eq!(c.failed_positions[0].time, format!("t{}", MAX_FAILED_RECORDS + 4));
    assert_eq!(c.failed_positions[MAX_FAILED_RECORDS - 1].time, "t5");
    assert_eq!(c.failed_positions[0].message, Some("Order failed".to_string()));
}

#[test]
fn failure_messages() {
    assert_eq!(failure_message("timeout", "msg"), "timeout");
    assert_eq!(failure_message("", "msg"), "msg");
    assert_eq!(failure_message("", ""), "Order failed");
}

#[test]
fn worker_defaults() {
    let c = mt5_panel::worker::WorkerConfig::default();
    assert!(!c.enabled && !c.fixed_interval);
    assert_eq!(f64::from_bits(c.interval_minutes_bits), 15.0);
    assert_eq!(f64::from_bits(c.min_minutes_bits), 1.0);
    assert_eq!(f64::from_bits(c.max_minutes_bits), 5.0);
    assert_eq!(f64::from_bits(c.min_volume_bits), 0.0001);
    assert_eq!(f64::from_bits(c.max_volume_bits), 0.01);
    assert_eq!(c.place_mode, "both");
    assert!(c.use_sl_tp);
    assert!(c.symbols.is_empty() && c.failed_positions.is_empty() && c.sl_tp_pips.is_empty());
    assert_eq!(c.run_count, 0);
    assert_eq!(c.max_open_positions, 0);
}
