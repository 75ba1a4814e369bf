use mt5_panel::orphan::{orphan_request_finish, orphan_request_start, OrphanFinish, OrphanStart};
use mt5_panel::orders::{OrderSide, Placement};
use mt5_panel::pairs::{
    hedge_sync_plan, pair_from_legs, record_placed_pair, pairs_fully_closed, remove_pair_with_leg, set_panel_pips, take_all_pairs,
    take_pair_at, PositionPair,
};
use mt5_panel::sync::hedge_sync_cycle;
use mt5_panel::tickets::{
    leg_action, check_comment, check_registry, comment_marks_fixedlot, entries_to_persist, prune_registry, register_ticket,
    registered, LegAction, RegistryCheck, SkipReason, SINGLE_ACCOUNT_TICKETS_MAX,
};

fn pair(t0: u64, t1: u64, symbol: &str) -> PositionPair {
    PositionPair {
        ticket_0: t0,
        account_0: "default".to_string(),
        ticket_1: t1,
        account_1: "exness".to_string(),
        symbol: symbol.to_string(),
        created_at: "2024-05-01T10:00:00+02:00".to_string(),
        type_0: Some("buy".to_string()),
        type_1: Some("sell".to_string()),
        sl_pips_0_bits: None,
        tp_pips_0_bits: None,
        sl_pips_1_bits: None,
        tp_pips_1_bits: None,
    }
}

fn tickets(p: &[PositionPair]) -> Vec<(u64, u64)> {
    p.iter().map(|x| (x.ticket_0, x.ticket_1)).collect()
}

#[test]
fn hedge_sync_closes_orphans() {
    let pairs = vec![pair(1, 101, "EURUSD"), pair(2, 102, "GBPUSD"), pair(3, 103, "USDJPY"), pair(4, 104, "XAUUSD")];
    // pair 1: both open; pair 2: leg 0 closed; pair 3: leg 1 closed; pair 4: both closed
    let open0 = vec![1, 3, 99];
    let open1 = vec![101, 102];
    let plan = hedge_sync_plan(&pairs, &open0, &open1);
    assert_eq!(tickets(&plan.remaining), vec![(1, 101)]);
    assert_eq!(plan.to_close, vec![(102, "exness".to_string()), (3, "default".to_string())]);
}

#[test]
fn hedge_sync_keeps_everything_open() {
    let pairs = vec![pair(1, 101, "EURUSD"), pair(2, 102, "GBPUSD")];
    let plan = hedge_sync_plan(&pairs, &vec![1, 2], &vec![101, 102]);
    assert_eq!(tickets(&plan.remaining), vec![(1, 101), (2, 102)]);
    assert!(plan.to_close.is_empty());
    let plan = hedge_sync_plan(&Vec::new(), &vec![1], &vec![2]);
    assert!(plan.remaining.is_empty() && plan.to_close.is_empty());
}

#[test]
fn pair_list_operations() {
    let mut pairs = vec![pair(1, 101, "A"), pair(2, 102, "B"), pair(1, 103, "C")];
    assert!(remove_pair_with_leg(&mut pairs, 1, "default"));
    assert_eq!(tickets(&pairs), vec![(2, 102), (1, 103)]);
    assert!(!remove_pair_with_leg(&mut pairs, 102, "default"));
    assert!(remove_pair_with_leg(&mut pairs, 102, "exness"));
    assert_eq!(tickets(&pairs), vec![(1, 103)]);

    let mut pairs = vec![pair(1, 101, "A"), pair(2, 102, "B")];
    assert!(take_pair_at(&mut pairs, 5).is_none());
    assert_eq!(pairs.len(), 2);
    let p = take_pair_at(&mut pairs, 0).unwrap();
    assert_eq!(p.symbol, "A");
    assert_eq!(tickets(&pairs), vec![(2, 102)]);

    let all = take_all_pairs(&mut pairs);
    assert_eq!(tickets(&all), vec![(2, 102)]);
    assert!(pairs.is_empty());
}

#[test]
fn panel_pips_update() {
    let mut pairs = vec![pair(1, 101, "A"), pair(2, 102, "B")];
    assert!(!set_panel_pips(&mut pairs, 2, 0, 1, 2));
    assert!(set_panel_pips(&mut pairs, 1, 0, 10f64.to_bits(), 30f64.to_bits()));
    assert_eq!(pairs[1].sl_pips_0_bits, Some(10f64.to_bits()));
    assert_eq!(pairs[1].tp_pips_0_bits, Some(30f64.to_bits()));
    assert_eq!(pairs[1].sl_pips_1_bits, None);
    assert!(set_panel_pips(&mut pairs, 0, 1, 5f64.to_bits(), 6f64.to_bits()));
    assert_eq!(pairs[0].sl_pips_1_bits, Some(5f64.to_bits()));
    assert_eq!(pairs[0].sl_pips_0_bits, None);
    assert_eq!(pairs[1].symbol, "B");
}

#[test]
fn pair_record_and_counts() {
    let p = pair_from_legs(
        7, "default", OrderSide::Buy, 8, "exness", OrderSide::Sell, "EURUSD", "now", (1, 2), (3, 4),
    );
    assert_eq!((p.ticket_0, p.ticket_1), (7, 8));
    assert_eq!(p.type_0, Some("buy".to_string()));
    assert_eq!(p.type_1, Some("sell".to_string()));
    assert_eq!(p.sl_pips_1_bits, Some(3));
    assert_eq!(pairs_fully_closed(&vec![(true, true), (true, false), (false, false), (true, true)]), 2);
}

#[test]
fn registry_operations() {
    let mut list: Vec<(u64, String)> = Vec::new();
    register_ticket(&mut list, 10, "default");
    register_ticket(&mut list, 11, "exness");
    register_ticket(&mut list, 12, "other");
    assert!(registered(&list, 10, "default"));
    assert!(!registered(&list, 10, "exness"));
    let changed = prune_registry(&mut list, "default", "exness", &vec![10], &vec![]);
    assert!(changed);
    assert_eq!(list, vec![(10, "default".to_string()), (12, "other".to_string())]);
    let changed = prune_registry(&mut list, "default", "exness", &vec![10], &vec![]);
    assert!(!changed);
}

#[test]
fn registry_persisted_tail() {
    let list: Vec<(u64, String)> = (0..2005u64).map(|t| (t, "default".to_string())).collect();
    let kept = entries_to_persist(&list);
    assert_eq!(kept.len(), SINGLE_ACCOUNT_TICKETS_MAX);
    assert_eq!(kept[0].0, 5);
    assert_eq!(kept[kept.len() - 1].0, 2004);
    let short: Vec<(u64, String)> = vec![(1, "a".to_string())];
    assert_eq!(entries_to_persist(&short), short);
}

#[test]
fn leg_protection() {
    assert!(comment_marks_fixedlot("FixedLot 0.01"));
    assert!(comment_marks_fixedlot("via #FIXEDLOT"));
    assert!(!comment_marks_fixedlot("fixed lot"));
    assert!(!comment_marks_fixedlot(""));
    let list = vec![(5u64, "exness".to_string())];
    assert_eq!(check_registry(&list, 5, "exness"), RegistryCheck::Skip);
    assert_eq!(check_registry(&list, 5, "default"), RegistryCheck::CheckComment);
    assert_eq!(check_comment("fixedlot"), LegAction::Skip(SkipReason::FixedlotComment));
    assert_eq!(check_comment("hedge"), LegAction::Close);
}

#[test]
fn orphan_requests() {
    let registry = vec![(5u64, "exness".to_string())];
    let mut pairs = vec![pair(4, 5, "A"), pair(6, 7, "B")];
    assert_eq!(orphan_request_start(&mut pairs, &registry, 5, "icm"), OrphanStart::UnknownAccount);
    assert_eq!(pairs.len(), 2);
    // registered ticket: not closed, its pair dropped
    assert_eq!(orphan_request_start(&mut pairs, &registry, 5, "exness"), OrphanStart::Skipped { pair_removed: true });
    assert_eq!(tickets(&pairs), vec![(6, 7)]);
    assert_eq!(orphan_request_start(&mut pairs, &registry, 6, "default"), OrphanStart::CheckComment);
    assert_eq!(orphan_request_finish(&mut pairs, 6, "default", &Some("my FixedLot trade".to_string())), OrphanFinish::Skipped { pair_removed: true });
    assert!(pairs.is_empty());
    let mut pairs = vec![pair(6, 7, "B")];
    let empty = Some(String::new());
    assert_eq!(orphan_request_finish(&mut pairs, 9, "default", &empty), OrphanFinish::NotFound);
    assert_eq!(pairs.len(), 1);
    // a comment that could not be read counts as empty: no pair, not found
    assert_eq!(orphan_request_finish(&mut pairs, 9, "default", &None), OrphanFinish::NotFound);
    assert_eq!(pairs.len(), 1);
    assert_eq!(orphan_request_finish(&mut pairs, 7, "exness", &empty), OrphanFinish::Close);
    assert!(pairs.is_empty());
    // ... and with a pair: the pair is dropped and the leg closed
    let mut pairs = vec![pair(6, 7, "B")];
    assert_eq!(orphan_request_finish(&mut pairs, 7, "exness", &None), OrphanFinish::Close);
    assert!(pairs.is_empty());
}

#[test]
fn registered_open_leg_stays_protected() {
    let mut list: Vec<(u64, String)> = vec![(5, "default".to_string())];
    register_ticket(&mut list, 42, "exness");
    // 42 is still open on exness; 5 closed on default.
    let changed = prune_registry(&mut list, "default", "exness", &vec![], &vec![42, 7]);
    assert!(changed);
    assert_eq!(list, vec![(42, "exness".to_string())]);
    assert_eq!(check_registry(&list, 42, "exness"), RegistryCheck::Skip);
    assert_eq!(check_registry(&list, 42, "default"), RegistryCheck::CheckComment);
}

#[test]
fn sync_cycle_with_unknown_side_changes_nothing() {
    let mut pairs = vec![pair(4, 5, "A"), pair(6, 7, "B")];
    let mut registry = vec![(4u64, "default".to_string()), (99u64, "exness".to_string())];
    for (o0, o1) in [(Some(vec![4u64, 6]), None), (None, Some(vec![7u64])), (None, None)] {
        let cycle = hedge_sync_cycle(&mut pairs, &mut registry, "default", "exness", &o0, &o1);
        assert!(cycle.to_check.is_empty());
        assert!(!cycle.registry_changed);
        assert_eq!(tickets(&pairs), vec![(4, 5), (6, 7)]);
        assert_eq!(registry, vec![(4, "default".to_string()), (99, "exness".to_string())]);
    }
}

#[test]
fn sync_cycle_skips_registered_legs() {
    // (4,5): leg 5 closed, leg 4 open but registered; (6,7): leg 6 closed, 7 open; (8,9) both open.
    let mut pairs = vec![pair(4, 5, "A"), pair(6, 7, "B"), pair(8, 9, "C")];
    let mut registry = vec![(4u64, "default".to_string()), (99u64, "exness".to_string())];
    let cycle = hedge_sync_cycle(&mut pairs, &mut registry, "default", "exness", &Some(vec![4, 8]), &Some(vec![7, 9]));
    assert_eq!(cycle.to_check, vec![(7, "exness".to_string())]);
    assert_eq!(tickets(&pairs), vec![(8, 9)]);
    assert_eq!(registry, vec![(4, "default".to_string())]);
    assert!(cycle.registry_changed);
    assert_eq!(leg_action(&Some("hedge".to_string())), LegAction::Close);
    assert_eq!(leg_action(&Some("FIXEDLOT x".to_string())), LegAction::Skip(SkipReason::FixedlotComment));
    assert_eq!(leg_action(&None), LegAction::Close);
}

#[test]
fn placed_pair_recorded_only_when_complete() {
    let complete = Placement::Complete;
    let mut pairs = vec![pair(1, 2, "A")];
    let pips = (10f64.to_bits(), 30f64.to_bits());
    assert!(!record_placed_pair(&mut pairs, &Placement::Failed, Some(3), "default", OrderSide::Buy, Some(4), "exness", OrderSide::Sell, "EURUSD", "t", pips, pips));
    assert!(!record_placed_pair(&mut pairs, &Placement::Rollback(vec![(0, 3)]), Some(3), "default", OrderSide::Buy, None, "exness", OrderSide::Sell, "EURUSD", "t", pips, pips));
    assert!(!record_placed_pair(&mut pairs, &complete, Some(3), "default", OrderSide::Buy, None, "exness", OrderSide::Sell, "EURUSD", "t", pips, pips));
    assert_eq!(tickets(&pairs), vec![(1, 2)]);
    assert!(record_placed_pair(&mut pairs, &complete, Some(3), "default", OrderSide::Buy, Some(4), "exness", OrderSide::Sell, "EURUSD", "t", pips, pips));
    assert_eq!(tickets(&pairs), vec![(1, 2), (3, 4)]);
    let p = &pairs[1];
    assert_eq!((p.account_0.as_str(), p.account_1.as_str(), p.symbol.as_str()), ("default", "exness", "EURUSD"));
    assert_eq!((p.type_0.as_deref(), p.type_1.as_deref()), (Some("buy"), Some("sell")));
    assert_eq!(p.sl_pips_0_bits.map(f64::from_bits), Some(10.0));
}
