use mt5_panel::history::{pair_closed_deals, ClosedDeal};

fn deal(time: i64, symbol: &str) -> ClosedDeal {
    ClosedDeal { time, symbol: symbol.to_string() }
}

#[test]
fn nearest_partner_within_ten_minutes() {
    let d0 = vec![deal(1000, "EURUSD"), deal(5000, "GBPUSD"), deal(9000, "EURUSD")];
    let d1 = vec![deal(1500, "EURUSD"), deal(1100, "EURUSD"), deal(5601, "GBPUSD"), deal(9100, "EURUSD")];
    let close = vec![vec![true; 4]; 3];
    let r = pair_closed_deals(&d0, &d1, &close);
    // deal 0 takes the nearer deal 1 (100 s); deal 1 finds none within 600 s;
    // deal 2 takes deal 3; most recent first
    assert_eq!(r, vec![(2, 3), (0, 1)]);
}

#[test]
fn volumes_must_match_and_deals_are_used_once() {
    let d0 = vec![deal(100, "X"), deal(100, "X")];
    let d1 = vec![deal(100, "X"), deal(150, "X")];
    let close = vec![vec![false, true], vec![true, true]];
    let r = pair_closed_deals(&d0, &d1, &close);
    assert_eq!(r, vec![(0, 1), (1, 0)]);
    let r = pair_closed_deals(&d0, &d1, &vec![vec![true, false], vec![true, false]]);
    assert_eq!(r, vec![(0, 0)]);
}

#[test]
fn ties_keep_first_and_ordering_is_stable() {
    let d0 = vec![deal(1000, "A"), deal(2000, "B")];
    let d1 = vec![deal(900, "A"), deal(1100, "A"), deal(2000, "B")];
    let close = vec![vec![true; 3]; 2];
    let r = pair_closed_deals(&d0, &d1, &close);
    assert_eq!(r, vec![(1, 2), (0, 0)]);
    // equal recency keeps first-account order
    let d0 = vec![deal(10, "A"), deal(10, "B")];
    let d1 = vec![deal(10, "A"), deal(10, "B")];
    let r = pair_closed_deals(&d0, &d1, &vec![vec![true; 2]; 2]);
    assert_eq!(r, vec![(0, 0), (1, 1)]);
    assert!(pair_closed_deals(&Vec::new(), &d1, &Vec::new()).is_empty());
}

#[test]
fn deals_of_a_history_reply() {
    let reply = r#"{"ok":true,"deals":[
        {"time":1700000000,"symbol":"EURUSD","volume":0.1},
        {"time":"x","symbol":5},
        {"symbol":"GBPUSD","time":-3}
    ]}"#;
    let d = mt5_panel::history::closed_deals(reply);
    let got: Vec<(i64, String)> = d.into_iter().map(|x| (x.time, x.symbol)).collect();
    assert_eq!(got, vec![(1700000000, "EURUSD".to_string()), (0, String::new()), (-3, "GBPUSD".to_string())]);
    assert!(mt5_panel::history::closed_deals("oops").is_empty());
    assert!(mt5_panel::history::closed_deals(r#"{"ok":true}"#).is_empty());
}
