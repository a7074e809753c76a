use wwrpc::character::find;
use wwrpc::cli::{
    account_line, app_id, character_input, character_line, companion_portrait, detect_seconds,
    env_flag, index_warning, nanos, presence_seconds, resolve_character, runtime_dir, static_text,
    DEFAULT_APP_ID, OFFICIAL_APP_ID, PORTRAIT_NEEDS_CHARACTER, PORTRAIT_NEEDS_PAGE,
};
use wwrpc::db::StoredAccount;
use wwrpc::detect::WUWA_ID;

#[test]
fn flags_win_over_variables_and_blank_is_unset() {
    assert!(env_flag(true, None));
    assert!(env_flag(false, Some("Yes")));
    assert!(!env_flag(false, Some("0")));
    assert!(!env_flag(false, None));
    assert_eq!(character_input(Some(" denia "), Some("aalto")), Some("denia".to_string()));
    assert_eq!(character_input(Some("  "), Some(" aalto")), Some("aalto".to_string()));
    assert_eq!(character_input(None, Some("")), None);
    assert_eq!(app_id(Some("7"), Some("8")), "7");
    assert_eq!(app_id(Some(DEFAULT_APP_ID), Some("8")), DEFAULT_APP_ID);
    assert_eq!(app_id(None, Some(" 8 ")), "8");
    assert_eq!(app_id(None, Some(" ")), DEFAULT_APP_ID);
    assert_eq!(app_id(None, None), "1546176429048463360");
    assert_eq!(OFFICIAL_APP_ID, WUWA_ID);
}

#[test]
fn unknown_characters_warn_and_go_without_an_icon() {
    assert_eq!(resolve_character(Some(" Denia ")), (find("denia"), None));
    assert_eq!(resolve_character(Some("  ")), (None, None));
    assert_eq!(resolve_character(None), (None, None));
    let (none, warning) = resolve_character(Some(" Nobody "));
    assert_eq!(none, None);
    assert_eq!(
        warning.unwrap(),
        "unknown character 'Nobody'; run --list-characters for valid names, publishing without an icon"
    );
}

#[test]
fn portraits_need_a_character_and_the_companion() {
    let denia = find("denia").unwrap();
    assert_eq!(companion_portrait(false, Some(&denia), true), (None, None));
    assert_eq!(
        companion_portrait(true, None, false),
        (None, Some(PORTRAIT_NEEDS_CHARACTER))
    );
    assert_eq!(
        companion_portrait(true, Some(&denia), false),
        (None, Some(PORTRAIT_NEEDS_PAGE))
    );
    let (url, warning) = companion_portrait(true, Some(&denia), true);
    assert!(url.unwrap().ends_with("/images/Denia.png"));
    assert_eq!(warning, None);
}

#[test]
fn intervals_have_a_minimum() {
    assert_eq!(presence_seconds(0), 5);
    assert_eq!(presence_seconds(5), 5);
    assert_eq!(presence_seconds(15), 15);
    assert_eq!(detect_seconds(0), 1);
    assert_eq!(detect_seconds(9), 9);
    assert_eq!(nanos(15), 15_000_000_000);
    assert_eq!(nanos(u64::MAX), 18_446_744_073_709_551_615_000_000_000);
}

#[test]
fn static_text_is_shown_on_request_or_without_a_database() {
    assert!(!static_text(false, false));
    assert!(static_text(true, false));
    assert!(static_text(false, true));
}

#[test]
fn lines_of_a_listing() {
    let account = StoredAccount {
        index: 2,
        region: "America".to_string(),
        level: "30".to_string(),
        nickname: Some("RoverOne".to_string()),
        last_login: true,
    };
    assert_eq!(
        account_line(&account),
        "2: America, Union 30 (login nickname: RoverOne?) [last launcher login]"
    );
    let plain = StoredAccount { nickname: None, last_login: false, ..account };
    assert_eq!(account_line(&plain), "2: America, Union 30");
    assert_eq!(character_line(&find("xiangliyao").unwrap()), "Xiangli Yao (xiangliyao)");
    assert_eq!(runtime_dir("/run/user/1000"), "/run/user/1000/wwrpc");
}

#[test]
fn positions_out_of_range_are_told() {
    assert_eq!(index_warning(1, 2), None);
    assert_eq!(index_warning(2, 2), None);
    assert_eq!(
        index_warning(3, 2).unwrap(),
        "account index 3 out of range (2 stored)"
    );
    assert_eq!(
        index_warning(0, 2).unwrap(),
        "account index 0 out of range (2 stored)"
    );
}
