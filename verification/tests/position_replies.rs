use mt5_panel::positions::{position_comment, position_tickets};

const REPLY: &str = r#"{"ok":true,"positions":[
    {"ticket":101,"symbol":"EURUSD","comment":"fixedlot 0.01"},
    {"ticket":"bad","comment":"x"},
    {"symbol":"GBPUSD"},
    {"ticket":102,"comment":null},
    {"ticket":101,"comment":"second"},
    {"ticket":-5,"comment":"negative"}
]}"#;

#[test]
fn tickets_of_a_positions_reply() {
    assert_eq!(position_tickets(REPLY), Some(vec![101, 102, 101]));
    assert_eq!(position_tickets(r#"{"ok":true,"positions":[]}"#), Some(Vec::<u64>::new()));
    // no positions array: the open tickets are unknown
    assert_eq!(position_tickets(r#"{"ok":true}"#), None);
    assert_eq!(position_tickets(r#"{"positions":{"ticket":1}}"#), None);
    assert_eq!(position_tickets("not json"), None);
}

#[test]
fn comment_of_a_listed_position() {
    assert_eq!(position_comment(REPLY, 101), Some("fixedlot 0.01".to_string()));
    assert_eq!(position_comment(REPLY, 102), Some(String::new()));
    assert_eq!(position_comment(REPLY, 7), Some(String::new()));
    assert_eq!(position_comment("not json", 101), None);
    assert_eq!(position_comment(r#"{"ok":false}"#, 101), None);
}
