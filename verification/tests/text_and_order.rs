use mt5_panel::lexorder::{sort_dedup, str_lt};
use mt5_panel::orders::{master_slave_sides, OrderSide};
use mt5_panel::requests::{close_all_scope, CloseAllScope};
use mt5_panel::telegram::{spread_alert_decision, AlertLog, SpreadAlert, SpreadFacts};
use mt5_panel::text::{
    chars_of, str_concat, contains_chars, i64_to_decimal, parse_u32_chars, starts_with_chars, str_eq, trim,
    u64_to_decimal,
};

fn strings(v: &[&str]) -> Vec<String> {
    v.iter().map(|s| s.to_string()).collect()
}

#[test]
fn decimal_formatting() {
    assert_eq!(u64_to_decimal(0), "0");
    assert_eq!(u64_to_decimal(7), "7");
    assert_eq!(u64_to_decimal(1234567890), "1234567890");
    assert_eq!(u64_to_decimal(u64::MAX), u64::MAX.to_string());
    assert_eq!(i64_to_decimal(-42), "-42");
    assert_eq!(i64_to_decimal(i64::MIN), i64::MIN.to_string());
    assert_eq!(i64_to_decimal(i64::MAX), i64::MAX.to_string());
}

#[test]
fn parsing_like_std() {
    for s in ["0", "+0", "12", "007", "4294967295", "4294967296", "", "+", "-1", "1 ", " 1", "++1", "99999999999"] {
        let expected = s.parse::<u32>().ok();
        assert_eq!(parse_u32_chars(&chars_of(s)), expected, "input {:?}", s);
    }
}

#[test]
fn substring_and_prefix() {
    assert!(contains_chars(&chars_of("my fixedlot order"), &chars_of("fixedlot")));
    assert!(!contains_chars(&chars_of("fixedlo"), &chars_of("fixedlot")));
    assert!(contains_chars(&chars_of("abc"), &chars_of("")));
    assert!(starts_with_chars(&chars_of("Exness_01"), &chars_of("Exness_")));
    assert!(!starts_with_chars(&chars_of("Exn"), &chars_of("Exness_")));
    assert!(str_eq("abc", "abc"));
    assert!(!str_eq("abc", "abd"));
    assert_eq!(str_concat("ab", "cd"), "abcd");
}

#[test]
fn std_transforms() {
    // Lower case: the copy hedge reads the requested side in any case.
    assert_eq!(master_slave_sides("BuY"), (OrderSide::Buy, OrderSide::Sell));
    assert_eq!(master_slave_sides("SELL"), (OrderSide::Sell, OrderSide::Buy));
    // Trim and upper case: the spread alert's symbol.
    let facts = SpreadFacts { spread_valid: true, spread_below: true, has_token: true };
    let mut log = AlertLog::new();
    match spread_alert_decision(&mut log, true, "default", " eurusd\t", facts, 300, 1000) {
        SpreadAlert::Send { account_label, symbol } => {
            assert_eq!(account_label, "MT5 (Default)");
            assert_eq!(symbol, "EURUSD");
        }
        other => panic!("unexpected {:?}", other),
    }
    // Trim: an account parameter with spaces around it.
    match close_all_scope(&Some("  exness ".to_string())) {
        CloseAllScope::Single(id) => assert_eq!(id, "exness"),
        other => panic!("unexpected {:?}", other),
    }
}

#[test]
fn trim_like_std() {
    for s in ["  a b \t", "", "   ", "x", "\u{3000}y\u{85}", "\u{200B}z", "a\u{2028}"] {
        assert_eq!(trim(s), s.trim(), "input {:?}", s);
    }
}

#[test]
fn lexicographic_order() {
    assert!(str_lt("A", "a"));
    assert!(str_lt("ab", "abc"));
    assert!(!str_lt("abc", "ab"));
    assert!(!str_lt("x", "x"));
    assert!(str_lt("-5", "12"));
}

#[test]
fn sort_then_dedup() {
    let v = strings(&["b", "a", "b", "A", "", "a"]);
    assert_eq!(sort_dedup(&v), strings(&["", "A", "a", "b"]));
    let mut expected = v.clone();
    expected.sort();
    expected.dedup();
    assert_eq!(sort_dedup(&v), expected);
    assert_eq!(sort_dedup(&sort_dedup(&v)), sort_dedup(&v));
    assert!(sort_dedup(&Vec::new()).is_empty());
}
