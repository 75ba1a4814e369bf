use mt5_panel::bridge::placement_succeeded;
use mt5_panel::bridge::{
    created_ticket, parse_bridge_error, parse_leg_result, parse_order_reply, reply_ok, ticket_to_register,
};
use mt5_panel::orders::{
    both_sides, choose_first_account_buy, hedge_volume_cents, master_slave_sides, placement_outcome, HedgeVolumes,
    OrderSide, Placement,
};

#[test]
fn bridge_error_with_hint() {
    let (m, h) = parse_bridge_error(r#"Bridge error: {"message":"Trade disabled","hint":"Enable Algo Trading"}"#);
    assert_eq!(m, "Trade disabled — Enable Algo Trading");
    assert_eq!(h, Some("Enable Algo Trading".to_string()));
}

#[test]
fn bridge_error_fallbacks() {
    let (m, h) = parse_bridge_error(r#"Bridge error: {"error":"init failed","hint":""}"#);
    assert_eq!(m, "init failed");
    assert_eq!(h, None);
    let (m, h) = parse_bridge_error(r#"Bridge error: {"other":1}"#);
    assert_eq!(m, "");
    assert_eq!(h, None);
    let (m, h) = parse_bridge_error("Bridge error: Traceback (most recent call last)");
    assert_eq!(m, "Bridge error: Traceback (most recent call last)");
    assert_eq!(h, None);
    let (m, h) = parse_bridge_error("Failed to run Python");
    assert_eq!(m, "Failed to run Python");
    assert_eq!(h, None);
}

#[test]
fn leg_results() {
    let ok = Ok(r#"{"ok":true,"message":"Order placed","order_ticket":123456}"#.to_string());
    let r = parse_leg_result(&ok, "default", "MT5 (Default)", OrderSide::Buy, "Invalid response");
    assert_eq!(r.account_id, "default");
    assert_eq!(r.label, "MT5 (Default) (BUY)");
    assert!(r.ok);
    assert_eq!(r.message, "Order placed");
    assert_eq!(r.order_ticket, Some(123456));

    let bad = Ok("not json".to_string());
    let r = parse_leg_result(&bad, "exness", "MT5 - EXNESS", OrderSide::Sell, "Invalid response");
    assert_eq!(r.label, "MT5 - EXNESS (SELL)");
    assert!(!r.ok);
    assert_eq!(r.message, "Invalid response");
    assert_eq!(r.order_ticket, None);
    let r = parse_leg_result(&bad, "exness", "MT5 - EXNESS", OrderSide::Sell, "");
    assert_eq!(r.message, "");

    let refused = Ok(r#"{"ok":false,"error":"No money"}"#.to_string());
    let r = parse_leg_result(&refused, "exness", "MT5 - EXNESS", OrderSide::Sell, "Invalid response");
    assert!(!r.ok);
    assert_eq!(r.message, "No money");

    let failed: Result<String, String> = Err(r#"Bridge error: {"message":"m","hint":"h"}"#.to_string());
    let r = parse_leg_result(&failed, "default", "MT5 (Default)", OrderSide::Sell, "Invalid response");
    assert!(!r.ok);
    assert_eq!(r.message, "m — h");
    assert_eq!(r.order_ticket, None);
}

#[test]
fn single_account_ticket() {
    assert_eq!(created_ticket(r#"{"ok":true,"order_ticket":55}"#), Some(55));
    assert_eq!(created_ticket(r#"{"ok":true,"position":77}"#), Some(77));
    assert_eq!(created_ticket(r#"{"ok":true,"order_ticket":null,"position":77}"#), None);
    assert_eq!(created_ticket(r#"{"ok":true,"order_ticket":-1}"#), None);
    assert_eq!(created_ticket("garbage"), None);
    assert_eq!(ticket_to_register(true, r#"{"order_ticket":9}"#), Some(9));
    assert_eq!(ticket_to_register(false, r#"{"order_ticket":9}"#), None);
}

#[test]
fn replies() {
    assert!(reply_ok(r#"{"ok":true}"#));
    assert!(!reply_ok(r#"{"ok":"true"}"#));
    assert!(!reply_ok("{}"));
    assert!(!reply_ok(""));
    let r = parse_order_reply(r#"{"ok":false,"one_sided_rollback":true,"message":"rolled back"}"#);
    assert!(!r.ok);
    assert!(r.one_sided_rollback);
    assert_eq!(r.message, "rolled back");
    assert_eq!(r.error, "");
    let r = parse_order_reply("oops");
    assert!(!r.ok && !r.one_sided_rollback && r.message.is_empty() && r.error.is_empty());
}

#[test]
fn sides() {
    assert_eq!(both_sides(true), (OrderSide::Buy, OrderSide::Sell));
    assert_eq!(both_sides(false), (OrderSide::Sell, OrderSide::Buy));
    assert_eq!(master_slave_sides("BUY"), (OrderSide::Buy, OrderSide::Sell));
    assert_eq!(master_slave_sides("buy"), (OrderSide::Buy, OrderSide::Sell));
    assert_eq!(master_slave_sides("sell"), (OrderSide::Sell, OrderSide::Buy));
    assert_eq!(master_slave_sides("anything"), (OrderSide::Sell, OrderSide::Buy));
    assert_eq!(choose_first_account_buy(Some(true)), true);
    assert_eq!(choose_first_account_buy(Some(false)), false);
    let _ = choose_first_account_buy(None);
    assert_eq!(OrderSide::Buy.name(), "buy");
    assert_eq!(OrderSide::Sell.label(), "SELL");
    assert_eq!(OrderSide::Buy.opposite(), OrderSide::Sell);
}

#[test]
fn copy_hedge_readme_example() {
    // N = 5, volume 1 lot: Broker B 1 lot, Exness 0.2 lot.
    assert_eq!(hedge_volume_cents(100, 5), HedgeVolumes { broker_cents: 100, exness_cents: 20 });
}

#[test]
fn copy_hedge_volumes() {
    // 0.23 lots with N = 10: step 0.10, rounds to 0.20; Exness 0.02
    assert_eq!(hedge_volume_cents(23, 10), HedgeVolumes { broker_cents: 20, exness_cents: 2 });
    // 0.25 rounds up to 0.30
    assert_eq!(hedge_volume_cents(25, 10), HedgeVolumes { broker_cents: 30, exness_cents: 3 });
    // below one step: one step
    assert_eq!(hedge_volume_cents(0, 10), HedgeVolumes { broker_cents: 10, exness_cents: 1 });
    assert_eq!(hedge_volume_cents(4, 10), HedgeVolumes { broker_cents: 10, exness_cents: 1 });
    // N = 0 counts as 1
    assert_eq!(hedge_volume_cents(7, 0), HedgeVolumes { broker_cents: 7, exness_cents: 7 });
    assert_eq!(hedge_volume_cents(1, 1), HedgeVolumes { broker_cents: 1, exness_cents: 1 });
    for v in 0..300u32 {
        for n in 1..12u32 {
            let h = hedge_volume_cents(v, n);
            assert_eq!(h.broker_cents, h.exness_cents * n);
            assert!(h.exness_cents >= 1);
        }
    }
}

#[test]
fn placement_outcomes() {
    assert!(matches!(placement_outcome(&vec![true, true], &vec![Some(1), Some(2)]), Placement::Complete));
    assert!(matches!(placement_outcome(&vec![false, false], &vec![None, None]), Placement::Failed));
    match placement_outcome(&vec![true, false], &vec![Some(11), None]) {
        Placement::Rollback(v) => assert_eq!(v, vec![(0, 11)]),
        other => panic!("unexpected {:?}", other),
    }
    match placement_outcome(&vec![false, true], &vec![None, Some(22)]) {
        Placement::Rollback(v) => assert_eq!(v, vec![(1, 22)]),
        other => panic!("unexpected {:?}", other),
    }
    match placement_outcome(&vec![true, false], &vec![None, None]) {
        Placement::Rollback(v) => assert!(v.is_empty()),
        other => panic!("unexpected {:?}", other),
    }
}

#[test]
fn worker_placement_success() {
    assert!(placement_succeeded(true, r#"{"ok":true,"results":[]}"#));
    assert!(!placement_succeeded(false, r#"{"ok":true}"#));
    assert!(!placement_succeeded(true, r#"{"ok":false}"#));
    assert!(!placement_succeeded(true, r#"{"ok":true,"one_sided_rollback":true}"#));
    assert!(placement_succeeded(true, r#"{"ok":true,"one_sided_rollback":false}"#));
    assert!(!placement_succeeded(true, "not json"));
}
