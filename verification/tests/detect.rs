use wwrpc::detect::{
    boot_epoch, default_cache_dir, load_cache, pick_database, process_start_millis, running_game,
    select_wuwa, start_millis, start_ticks, validate_cache, DetectedGame, Pick, Source, Supply,
    CACHE_MAX_AGE, MISSING_BUNDLED, MISSING_ONLINE, WUWA_ID,
};
use wwrpc::json::parse;

#[test]
fn wuwa_id_matches_steam_appid() {
    assert_eq!(WUWA_ID, "1247227126416146462");
}

const ONLINE: &str = r#"[
    {"id": "1247227126416146462", "name": "Wuthering Waves", "hook": false,
     "executables": [{"name": "wuthering waves.exe", "is_launcher": false, "os": "win32"}]},
    {"id": "999", "name": "Other", "hook": false}
  ]"#;

#[test]
fn select_wuwa_keeps_entry_and_merges_linux_override() {
    let merged = select_wuwa(ONLINE).expect("entry present");
    let games: Vec<serde_json::Value> = serde_json::from_str(&merged).unwrap();
    assert_eq!(games.len(), 2, "online entry plus local override");
    assert!(games.iter().all(|g| g["id"] == WUWA_ID));
    let override_exe = &games[1]["executables"];
    assert_eq!(override_exe[0]["name"], "client-win64-shipping.exe");
    assert_eq!(override_exe[0]["os"], "linux");
}

#[test]
fn select_wuwa_rejects_databases_without_the_game() {
    assert_eq!(select_wuwa("[]"), None);
    assert_eq!(select_wuwa("not json"), None);
}

fn cache_selection() -> String {
    format!(r#"[{{"id": "{WUWA_ID}", "name": "Wuthering Waves", "hook": false}}]"#)
}

#[test]
fn caches_serve_while_fresh_and_garbage_is_ignored() {
    // Missing cache: nothing to serve.
    assert_eq!(load_cache(None, None, true), None);

    let body = cache_selection();
    assert_eq!(load_cache(Some(&body), Some(0), true), Some(body.clone()));
    assert_eq!(load_cache(Some(&body), Some(CACHE_MAX_AGE - 1), true), Some(body.clone()));
    assert_eq!(load_cache(Some(&body), Some(CACHE_MAX_AGE), true), None);
    assert_eq!(load_cache(Some(&body), None, true), None);
    // A stale read takes any age.
    assert_eq!(load_cache(Some(&body), Some(CACHE_MAX_AGE), false), Some(body.clone()));
    assert_eq!(load_cache(Some(&body), None, false), Some(body));

    // Garbage and wrong-id caches are ignored, never fatal.
    for garbage in ["not json", r#"[{"id": "999"}]"#, "[]", "{}", r#"[{"id": 1}]"#] {
        assert_eq!(load_cache(Some(garbage), Some(0), true), None);
        assert_eq!(load_cache(Some(garbage), Some(0), false), None);
    }
    let mixed = format!(r#"[{{"id": "{WUWA_ID}"}}, {{"id": "999"}}]"#);
    assert_eq!(validate_cache(&mixed), None);
}

#[test]
fn a_selection_passes_for_a_cache() {
    let selection = select_wuwa(ONLINE).unwrap();
    assert_eq!(validate_cache(&selection), Some(selection.clone()));
    assert_eq!(parse(&selection).unwrap().as_array().unwrap().len(), 2);
}

#[test]
fn a_selection_reads_back_as_the_entries_and_the_local_one() {
    // Fractions elsewhere in the database do not matter.
    let body = format!(
        r#"[{{"id": "1", "x": 1.5}}, {{"id": "{WUWA_ID}", "n": [1, -2]}}, 7, {{"id": "{WUWA_ID}"}}]"#
    );
    let selection = parse(&select_wuwa(&body).unwrap()).unwrap();
    let database = parse(&body).unwrap();
    assert_eq!(selection.as_array().unwrap().len(), 3);
    assert_eq!(selection.at(0), database.at(1));
    assert_eq!(selection.at(1), database.at(3));
    let local = selection.at(2).unwrap();
    assert_eq!(local.get("id").unwrap().as_str(), Some(WUWA_ID));
    let executable = local.get("executables").unwrap().at(0).unwrap();
    assert_eq!(executable.get("name").unwrap().as_str(), Some("client-win64-shipping.exe"));
    assert_eq!(executable.get("os").unwrap().as_str(), Some("linux"));
    assert_eq!(select_wuwa("{}"), None);
}

#[test]
fn a_selection_with_fractions_passes_for_a_cache() {
    for number in ["1.5", "0.99622830388368595", "-0.0", "1e300", "5e-324"] {
        let body = format!(r#"[{{"id": "{WUWA_ID}", "n": [{number}]}}]"#);
        let selection = select_wuwa(&body).unwrap();
        assert_eq!(validate_cache(&selection), Some(selection.clone()), "{number}");
    }
    // The largest numbers there are come out as numbers too.
    let mut bits = f64::MAX.to_bits();
    for _ in 0..100 {
        let number = f64::from_bits(bits);
        let body = format!(r#"[{{"id": "{WUWA_ID}", "n": {number:e}}}]"#);
        let selection = select_wuwa(&body).unwrap();
        assert_eq!(validate_cache(&selection), Some(selection.clone()), "{number:e}");
        bits -= 1;
    }
}

#[test]
fn sources_are_tried_in_order() {
    let nothing = || Supply::Nothing("offline".to_string());
    // A fresh cache ends the search.
    let pick = pick_database(Source::Fresh, Supply::Text("cached".to_string()), String::new());
    assert_eq!(pick, Pick::Use { selection: "cached".to_string(), store: false });
    let pick = pick_database(Source::Fresh, nothing(), String::new());
    assert_eq!(pick, Pick::Try(Source::Online, String::new()));
    // The database online is cached anew.
    let pick = pick_database(Source::Online, Supply::Text(ONLINE.to_string()), String::new());
    assert_eq!(pick, Pick::Use { selection: select_wuwa(ONLINE).unwrap(), store: true });
    let pick = pick_database(Source::Online, nothing(), String::new());
    assert_eq!(pick, Pick::Try(Source::Stale, "offline".to_string()));
    let pick = pick_database(Source::Online, Supply::Text("[]".to_string()), String::new());
    assert_eq!(pick, Pick::Try(Source::Stale, MISSING_ONLINE.to_string()));
    // A stale cache beats what came along.
    let pick = pick_database(Source::Stale, Supply::Text("old".to_string()), "why".to_string());
    assert_eq!(pick, Pick::Use { selection: "old".to_string(), store: false });
    let pick = pick_database(Source::Stale, nothing(), "why".to_string());
    assert_eq!(pick, Pick::Try(Source::Bundled, "why".to_string()));
    let pick = pick_database(Source::Bundled, Supply::Text(ONLINE.to_string()), String::new());
    assert_eq!(pick, Pick::Use { selection: select_wuwa(ONLINE).unwrap(), store: false });
    let pick = pick_database(Source::Bundled, Supply::Text("[]".to_string()), String::new());
    assert_eq!(pick, Pick::Fail(MISSING_BUNDLED));
    assert_eq!(pick_database(Source::Bundled, nothing(), String::new()), Pick::Fail(MISSING_BUNDLED));
}

#[test]
fn the_game_is_known_by_its_id() {
    let game = |id: &str, pid: Option<u64>| DetectedGame { id: id.to_string(), pid };
    assert_eq!(running_game(&Vec::new()), None);
    assert_eq!(running_game(&vec![game("1", Some(4))]), None);
    let games = vec![game("1", Some(4)), game(WUWA_ID, Some(5)), game(WUWA_ID, None)];
    assert_eq!(running_game(&games), Some(1));
}

const STAT: &str = "1234 (odd ) (name) S 1 2 3 4 5 6 7 8 9 10 11 12 13 14 15 16 17 18 4242 99 100";
const SYSTEM: &str = "cpu  1 2 3\nctxt 9\nbtime oops\nbtime  1700000000\r\nbtime 5\n";

#[test]
fn start_times_are_read_from_the_status_texts() {
    assert_eq!(start_ticks(STAT), Some(4242));
    assert_eq!(boot_epoch(SYSTEM), Some(1_700_000_000));
    assert_eq!(process_start_millis(STAT, 100, SYSTEM), Some(1_700_000_042_000));
    // What cannot be read gives no time.
    assert_eq!(process_start_millis("1 (x) S 1", 100, SYSTEM), None);
    assert_eq!(process_start_millis(STAT, 100, "cpu 1"), None);
    assert_eq!(process_start_millis(STAT, 0, SYSTEM), None);
    assert_eq!(process_start_millis(STAT, -1, SYSTEM), None);
    assert_eq!(start_ticks(""), None);
    assert_eq!(boot_epoch(""), None);
    assert_eq!(boot_epoch("xbtime 4\nbtime 7"), Some(7));
}

#[test]
fn start_times_round_towards_zero_and_must_fit() {
    assert_eq!(start_millis(199, 100, 0), Some(1000));
    assert_eq!(start_millis(-199, 100, 0), Some(-1000));
    assert_eq!(start_millis(i64::MIN, 1, 0), None);
    assert_eq!(start_millis(0, 1, i64::MAX), None);
    assert_eq!(start_millis(i64::MIN, i64::MAX, 1), Some(0));
}

#[test]
fn the_cache_lies_under_the_cache_directory() {
    assert_eq!(default_cache_dir(Some("/c"), Some("/home/x")), "/c/wwrpc");
    assert_eq!(default_cache_dir(None, Some("/home/x")), "/home/x/.cache/wwrpc");
    assert_eq!(default_cache_dir(None, None), "./.cache/wwrpc");
}
