use mt5_panel::accounts::{
    account_label, fixed_accounts, get_path_for_account, get_terminal_path_static, get_watcher_close_url,
    resolve_account_id,
};
use mt5_panel::clones::{
    check_clone_setup, clone_folder_plan, clone_target_accepted, exness_clone_dir_name, folders_to_create,
    list_clone_names, parse_exness_clone_index, CloneSetupError,
};
use mt5_panel::settings::default_exness_copy_count;

#[test]
fn terminal_paths_of_fixed_accounts() {
    assert_eq!(
        get_terminal_path_static("default"),
        Some(r"C:\Program Files\MetaTrader 5\terminal64.exe")
    );
    assert_eq!(
        get_terminal_path_static("exness"),
        Some(r"C:\Program Files\MetaTrader 5 EXNESS\terminal64.exe")
    );
    assert_eq!(get_terminal_path_static("Default"), None);
    assert_eq!(get_terminal_path_static(""), None);
    assert_eq!(
        get_path_for_account("exness"),
        Some(r"C:\Program Files\MetaTrader 5 EXNESS\terminal64.exe".to_string())
    );
    assert_eq!(get_path_for_account("icmarkets"), None);
}

#[test]
fn watcher_urls_and_labels() {
    assert_eq!(get_watcher_close_url("default"), "http://127.0.0.1:3100/close");
    assert_eq!(get_watcher_close_url("exness"), "http://127.0.0.1:3101/close");
    assert_eq!(get_watcher_close_url("other"), "");
    assert_eq!(account_label("default"), "MT5 (Default)");
    assert_eq!(account_label("exness"), "MT5 - EXNESS");
    assert_eq!(account_label("x"), "Unknown");
    let list = fixed_accounts();
    assert_eq!(
        list,
        vec![
            ("default".to_string(), "MT5 (Default)".to_string()),
            ("exness".to_string(), "MT5 - EXNESS".to_string())
        ]
    );
}

#[test]
fn account_resolution() {
    assert_eq!(resolve_account_id(None), Ok("default".to_string()));
    assert_eq!(resolve_account_id(Some("exness".to_string())), Ok("exness".to_string()));
    assert_eq!(
        resolve_account_id(Some("demo".to_string())),
        Err("Unknown account_id: demo. Use one of: default, exness".to_string())
    );
}

#[test]
fn clone_folder_names() {
    assert_eq!(exness_clone_dir_name(1), "Exness_01");
    assert_eq!(exness_clone_dir_name(9), "Exness_09");
    assert_eq!(exness_clone_dir_name(10), "Exness_10");
    assert_eq!(exness_clone_dir_name(123), "Exness_123");
    assert_eq!(exness_clone_dir_name(0), "Exness_00");
}

#[test]
fn clone_indices() {
    assert_eq!(parse_exness_clone_index("Exness_07"), Some(7));
    assert_eq!(parse_exness_clone_index("Exness_7"), Some(7));
    assert_eq!(parse_exness_clone_index("Exness_+12"), Some(12));
    assert_eq!(parse_exness_clone_index("Exness_00"), None);
    assert_eq!(parse_exness_clone_index("Exness_"), None);
    assert_eq!(parse_exness_clone_index("Exness_+"), None);
    assert_eq!(parse_exness_clone_index("Exness_-3"), None);
    assert_eq!(parse_exness_clone_index("Exness_1a"), None);
    assert_eq!(parse_exness_clone_index("exness_01"), None);
    assert_eq!(parse_exness_clone_index("Exness_4294967295"), Some(4294967295));
    assert_eq!(parse_exness_clone_index("Exness_4294967296"), None);
    assert_eq!(parse_exness_clone_index("Exness_0000000000000000000001"), Some(1));
}

#[test]
fn clone_names_round_trip() {
    for i in [1u32, 5, 10, 99, 100, 4096] {
        assert_eq!(parse_exness_clone_index(&exness_clone_dir_name(i)), Some(i));
    }
}

#[test]
fn clone_listing_order() {
    let names: Vec<String> = ["Exness_10", "notes", "Exness_02", "Exness_2", "Exness_0", "Exness_01"]
        .iter()
        .map(|s| s.to_string())
        .collect();
    assert_eq!(list_clone_names(&names), vec!["Exness_01", "Exness_02", "Exness_2", "Exness_10"]);
    assert_eq!(list_clone_names(&Vec::new()), Vec::<String>::new());
}

#[test]
fn clone_creation_checks() {
    assert_eq!(check_clone_setup(false, true, 3), Err(CloneSetupError::TemplateMissing));
    assert_eq!(check_clone_setup(true, false, 3), Err(CloneSetupError::TemplateInvalid));
    assert_eq!(check_clone_setup(true, true, 0), Err(CloneSetupError::CountTooSmall));
    assert_eq!(check_clone_setup(true, true, 1), Ok(()));
    assert!(!clone_target_accepted(0));
    assert!(clone_target_accepted(1));
    assert!(clone_target_accepted(200));
    assert!(!clone_target_accepted(201));
}

#[test]
fn clone_plan_and_missing_folders() {
    let plan = clone_folder_plan(3);
    assert_eq!(plan, vec!["Exness_01", "Exness_02", "Exness_03"]);
    assert!(clone_folder_plan(0).is_empty());
    let missing = folders_to_create(&plan, &vec![false, true, false]);
    assert_eq!(missing, vec!["Exness_01", "Exness_03"]);
}

#[test]
fn default_copy_count_is_one() {
    assert_eq!(default_exness_copy_count(), 1);
}
