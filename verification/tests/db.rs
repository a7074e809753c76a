use std::path::PathBuf;
use wwrpc::db::accounts::{nickname_for, parse_version};
use wwrpc::db::query::{PairsRead, TextRead};
use wwrpc::db::remnant::{balanced_end, find_subslice, rfind_subslice};
use wwrpc::db::storage::{copyable, sidecars, LAUNCHER_CACHE, MAX_DIRS, NO_GAME_MESSAGE, TELEMETRY_DB};
use wwrpc::db::triage::{integrity_verdict, schema_verdict, value_verdict};
use wwrpc::db::{
    check_integrity, check_schema, default_roots, device_version, find_remnant_role,
    has_account_data, has_numbered_db, is_numbered_db, json_scalar, load_quest_count,
    load_sdk_level, load_sdk_level_by_index, load_uid, parse_account_list, parse_quest_count,
    parse_sdk_level_data, peek_live_uid, query_kd_names, query_list, query_snapshot,
    read_last_login, read_nicknames, resolve_storage, resolve_storage_dir, scan_line,
    steamapps_dir, Action, DbReader, Discovery, Event, Located, Look, Notice, PlayerInfo, Refresh,
    RemnantStats, Seen, TriageError, MAX_REMANT_AGE_MS,
};

const SDK_BODY: &str = r#"{
  "___MetaType___": "___Map___",
  "Content": [
    ["111111111", [{"Region": "Europe", "Level": 60}]],
    ["222222222", [{"Region": "America", "Level": "30"}]]
  ]
}"#;

#[test]
fn numbered_db_names_match_only_numbered_files() {
    assert!(!is_numbered_db("LocalStorage.db"));
    assert!(!is_numbered_db("LocalStorage.db-journal"));
    assert!(!is_numbered_db("LocalStorage.db-shm"));
    assert!(!is_numbered_db("LocalStorage2.db-journal"));
    assert!(!is_numbered_db("other2.db"));
    assert!(is_numbered_db("LocalStorage2.db"));
    assert!(is_numbered_db("LocalStorage10.db"));
}

#[test]
fn numbers_in_names_are_ascii_digits() {
    assert!(is_numbered_db("LocalStorage007.db"));
    assert!(!is_numbered_db("LocalStorage٣.db"));
    assert!(!is_numbered_db("LocalStorage2a.db"));
    assert!(!is_numbered_db("LocalStorage2"));
    assert!(!is_numbered_db(""));
    assert!(!is_numbered_db("LocalStorage2.dbx"));
    let names = |list: &[&str]| list.iter().map(|s| s.to_string()).collect::<Vec<_>>();
    assert!(!has_numbered_db(&names(&["LocalStorage.db", "x"])));
    assert!(has_numbered_db(&names(&["LocalStorage.db", "LocalStorage3.db"])));
    assert!(!has_numbered_db(&Vec::new()));
}

#[test]
fn sdk_level_data_parses_numeric_and_string_levels() {
    assert_eq!(
        parse_sdk_level_data(SDK_BODY, "111111111"),
        Some(("Europe".to_string(), "60".to_string()))
    );
    assert_eq!(
        parse_sdk_level_data(SDK_BODY, "222222222"),
        Some(("America".to_string(), "30".to_string()))
    );
}

#[test]
fn sdk_level_data_rejects_unknown_uid_and_garbage() {
    assert_eq!(parse_sdk_level_data(SDK_BODY, "999999999"), None);
    assert_eq!(parse_sdk_level_data("not json", "111111111"), None);
    assert_eq!(parse_sdk_level_data("{}", "111111111"), None);
    assert_eq!(
        parse_sdk_level_data(
            r#"{"Content": [["111111111", [{"Region": "", "Level": 1}]]}"#,
            "111111111"
        ),
        None
    );
}

const QUESTS_BODY: &str = r#"{
  "___MetaType___": "___Map___",
  "Content": [
    ["111111111", {"___MetaType___": "___Map___", "Content": [1, 2, 3]}],
    ["222222222", {"___MetaType___": "___Map___", "Content": []}]
  ]
}"#;

#[test]
fn quest_count_counts_entries_per_uid() {
    assert_eq!(parse_quest_count(QUESTS_BODY, "111111111"), Some(3));
    assert_eq!(parse_quest_count(QUESTS_BODY, "222222222"), Some(0));
    assert_eq!(parse_quest_count(QUESTS_BODY, "999999999"), None);
    assert_eq!(parse_quest_count("not json", "111111111"), None);
}

#[test]
fn an_entry_without_a_uid_makes_quests_unreadable() {
    let body = r#"{"Content": [7, ["1", {"Content": [1]}]]}"#;
    assert_eq!(parse_quest_count(body, "1"), None);
    let after = r#"{"Content": [["1", {"Content": [1]}], 7]}"#;
    assert_eq!(parse_quest_count(after, "1"), Some(1));
    assert_eq!(parse_quest_count(r#"{"Content": [["1", {}]]}"#, "1"), None);
}

const VALID_SCHEMA: &str =
    "CREATE TABLE LocalStorage(key text primary key not null, value text not null)";
const UID_ROW: &str =
    "INSERT INTO LocalStorage(key, value) VALUES ('RecentlyLoginUID', '111111111')";
const SDK_ROW: &str = "INSERT INTO LocalStorage(key, value) VALUES ('SdkLevelData', '{\"___MetaType___\": \"___Map___\", \"Content\": [[\"111111111\", [{\"Region\": \"Europe\", \"Level\": 60}]]]}')";

fn mem_db(setup: &[&str]) -> rusqlite::Connection {
    let conn = rusqlite::Connection::open_in_memory().unwrap();
    for sql in setup {
        conn.execute_batch(sql).unwrap();
    }
    conn
}

/// What a reader sees in one tick.
struct World<'a> {
    names: Vec<&'a str>,
    source: Option<(u64, Option<i128>)>,
    after: Option<i128>,
    copied: bool,
    storage: Option<&'a rusqlite::Connection>,
    device: Option<&'a rusqlite::Connection>,
    telemetry_time: Option<i128>,
    telemetry: Option<&'a rusqlite::Connection>,
    bytes: Option<(Vec<u8>, u64)>,
}

/// A world with one database that changed at a time.
fn world(conn: &rusqlite::Connection, time: i128) -> World<'_> {
    World {
        names: vec!["LocalStorage.db"],
        source: Some((4096, Some(time))),
        after: Some(time),
        copied: true,
        storage: Some(conn),
        device: None,
        telemetry_time: None,
        telemetry: None,
        bytes: None,
    }
}

/// One tick of a reader in a world: how it ended, and what was asked for.
fn tick(reader: &mut DbReader, world: &World) -> (Refresh, Notice, Vec<Action>) {
    let mut asked = Vec::new();
    let mut event = Event::Start;
    loop {
        let action = reader.refresh(event);
        asked.push(action);
        event = match action {
            Action::ListStorage => {
                Event::Names(world.names.iter().map(|name| name.to_string()).collect())
            }
            Action::TimeTelemetry => Event::TelemetryTime(world.telemetry_time),
            Action::ReadName => {
                let live = reader.live_uid().unwrap().to_string();
                Event::Name(world.telemetry.and_then(|conn| query_kd_names(conn, &live)))
            }
            Action::StatSource => Event::Source(world.source),
            Action::CopySource => Event::Copied(world.copied, world.after),
            Action::ReadSnapshot => match world.storage {
                Some(conn) => Event::Snapshot(
                    peek_live_uid(conn),
                    world.device.and_then(device_version),
                    reader.triage(conn),
                ),
                None => Event::Snapshot(None, None, Err(TriageError::Unopenable)),
            },
            Action::ScanTelemetry => Event::Telemetry(world.bytes.clone()),
            Action::Done(refresh, notice) => return (refresh, notice, asked),
        };
    }
}

fn reader(uid_override: Option<&str>) -> DbReader {
    DbReader::new(
        PathBuf::from("/game/LocalStorage"),
        PathBuf::from("/run/wwrpc"),
        uid_override.map(str::to_string),
    )
}

#[test]
fn refresh_reads_and_caches_by_mtime() {
    let conn = mem_db(&[VALID_SCHEMA, UID_ROW, SDK_ROW]);
    let mut reader = reader(None);
    assert_eq!(tick(&mut reader, &world(&conn, 1)).0, Refresh::Updated);
    assert_eq!(reader.last_info().unwrap().union_level, "60".to_string());
    assert_eq!(reader.last_info().unwrap().region, "Europe".to_string());

    // Unchanged file: no copy, no re-read.
    let (refresh, _, asked) = tick(&mut reader, &world(&conn, 1));
    assert_eq!(refresh, Refresh::Unchanged);
    assert!(!asked.contains(&Action::CopySource));
    // Changed file: read again.
    assert_eq!(tick(&mut reader, &world(&conn, 2)).0, Refresh::Updated);
}

#[test]
fn refresh_honors_uid_override_and_sentinel_for_good() {
    let conn = mem_db(&[VALID_SCHEMA, UID_ROW, SDK_ROW]);
    let mut reader = reader(Some("999999999"));
    // Unknown override uid: no data, but no crash either.
    assert_eq!(tick(&mut reader, &world(&conn, 1)).0, Refresh::Unavailable);
    assert!(reader.last_info().is_none());

    // A numbered database trips the fail-safe permanently.
    let mut tripped = world(&conn, 1);
    tripped.names.push("LocalStorage2.db");
    let (refresh, notice, asked) = tick(&mut reader, &tripped);
    assert_eq!((refresh, notice), (Refresh::Unavailable, Notice::Numbered));
    assert_eq!(asked.len(), 2);
    assert!(reader.is_degraded());
    // Still degraded: game files are left alone for the rest of the session.
    let (refresh, notice, asked) = tick(&mut reader, &world(&conn, 1));
    assert_eq!((refresh, notice), (Refresh::Unavailable, Notice::Nothing));
    assert_eq!(asked.len(), 1);
    assert!(reader.is_degraded());
}

#[test]
fn a_degraded_reader_keeps_its_data() {
    let conn = mem_db(&[VALID_SCHEMA, UID_ROW, SDK_ROW]);
    let mut reader = reader(None);
    tick(&mut reader, &world(&conn, 1));
    let mut tripped = world(&conn, 2);
    tripped.names.push("LocalStorage10.db");
    assert_eq!(tick(&mut reader, &tripped).0, Refresh::Unchanged);
    assert_eq!(tick(&mut reader, &world(&conn, 3)).0, Refresh::Unchanged);
    assert_eq!(reader.last_info().unwrap().union_level, "60");
}

#[test]
fn triage_rejects_a_missing_table() {
    let conn = mem_db(&["CREATE TABLE Other(x)"]);
    let mut reader = reader(None);
    assert_eq!(tick(&mut reader, &world(&conn, 1)).0, Refresh::Unavailable);
    assert!(reader.last_info().is_none());
    assert_eq!(check_schema(&conn), Err(TriageError::MissingTable));
}

#[test]
fn triage_rejects_unexpected_columns() {
    let conn = mem_db(&["CREATE TABLE LocalStorage(a, b)"]);
    let mut reader = reader(None);
    assert_eq!(tick(&mut reader, &world(&conn, 1)).0, Refresh::Unavailable);
    assert!(reader.last_info().is_none());
    assert_eq!(check_schema(&conn), Err(TriageError::BadSchema));
    // Names count in any case, and the columns must be text.
    assert_eq!(check_schema(&mem_db(&["CREATE TABLE LocalStorage(KEY TEXT, Value Text)"])), Ok(()));
    for sql in [
        "CREATE TABLE LocalStorage(key text, value blob)",
        "CREATE TABLE LocalStorage(key, value)",
        "CREATE TABLE LocalStorage(key text)",
    ] {
        assert_eq!(check_schema(&mem_db(&[sql])), Err(TriageError::BadSchema));
    }
}

#[test]
fn answers_about_a_snapshot_are_judged() {
    let pair = |a: &str, b: &str| (a.to_string(), b.to_string());
    assert_eq!(schema_verdict(&PairsRead::NotADatabase), Err(TriageError::Unopenable));
    assert_eq!(schema_verdict(&PairsRead::Failed), Err(TriageError::MissingTable));
    assert_eq!(schema_verdict(&PairsRead::BadRow), Err(TriageError::BadSchema));
    assert_eq!(schema_verdict(&PairsRead::Found(Vec::new())), Err(TriageError::MissingTable));
    let columns = vec![pair("key", "text"), pair("value", "TEXT")];
    assert_eq!(schema_verdict(&PairsRead::Found(columns)), Ok(()));
    assert_eq!(integrity_verdict(&TextRead::Found("ok".to_string())), Ok(()));
    for bad in [TextRead::Failed, TextRead::Absent, TextRead::Found("row 1 missing".to_string())] {
        assert_eq!(integrity_verdict(&bad), Err(TriageError::Corrupt));
    }
    assert_eq!(value_verdict(TextRead::Failed, "K"), Err(TriageError::Malformed("K")));
    assert_eq!(value_verdict(TextRead::Absent, "K"), Err(TriageError::MissingKey("K")));
    assert_eq!(value_verdict(TextRead::Found("v".to_string()), "K"), Ok("v".to_string()));
}

#[test]
fn a_file_that_is_no_database_is_unavailable() {
    // Opening is lazy, so that only the first question tells.
    let conn = rusqlite::Connection::open_with_flags(
        "/proc/self/exe",
        rusqlite::OpenFlags::SQLITE_OPEN_READ_ONLY,
    )
    .unwrap();
    assert_eq!(check_schema(&conn), Err(TriageError::Unopenable));
    assert_eq!(query_snapshot(&conn, None, None), Err(TriageError::Unopenable));
    assert_eq!(query_list(&conn, None), Err(TriageError::Unopenable));
    assert_eq!(peek_live_uid(&conn), None);
    assert_eq!(device_version(&conn), None);
    let mut reader = reader(None);
    let (refresh, notice, _) = tick(&mut reader, &world(&conn, 1));
    assert_eq!(refresh, Refresh::Unavailable);
    assert_eq!(notice, Notice::Rejected(TriageError::Unopenable));
    assert!(reader.last_info().is_none());
    // A file that cannot even be opened is no better.
    let mut broken = world(&conn, 2);
    broken.storage = None;
    let (refresh, notice, _) = tick(&mut reader, &broken);
    assert_eq!((refresh, notice), (Refresh::Unavailable, Notice::Nothing));
}

#[test]
fn failures_keep_the_data_and_are_unavailable() {
    let conn = mem_db(&[VALID_SCHEMA, UID_ROW, SDK_ROW]);
    let mut reader = reader(None);
    assert_eq!(tick(&mut reader, &world(&conn, 1)).0, Refresh::Updated);
    let known = reader.last_info().unwrap().clone();
    let mut gone = world(&conn, 2);
    gone.source = None;
    let mut large = world(&conn, 2);
    large.source = Some((u64::MAX, Some(2)));
    let mut timeless = world(&conn, 2);
    timeless.source = Some((1, None));
    let mut uncopied = world(&conn, 2);
    uncopied.copied = false;
    let mut torn = world(&conn, 2);
    torn.after = Some(3);
    let mut broken = world(&conn, 2);
    broken.storage = None;
    for failure in [gone, large, timeless, uncopied, torn, broken] {
        let (refresh, _, _) = tick(&mut reader, &failure);
        assert_eq!(refresh, Refresh::Unavailable);
        assert_eq!(reader.last_info(), Some(&known));
        // A card that is asked for once is not made from them.
        assert_eq!(reader.info_after(refresh), None);
    }
    assert_eq!(tick(&mut reader, &world(&conn, 1)).0, Refresh::Unchanged);
    assert_eq!(reader.info_after(Refresh::Unchanged), Some(&known));
    assert_eq!(reader.info_after(Refresh::Updated), Some(&known));
}

#[test]
fn triage_rejects_a_missing_sdk_key() {
    let conn = mem_db(&[VALID_SCHEMA, UID_ROW]);
    let mut reader = reader(None);
    assert_eq!(tick(&mut reader, &world(&conn, 1)).0, Refresh::Unavailable);
    assert!(reader.last_info().is_none());
    assert_eq!(reader.last_triage(), Some(TriageError::MissingKey("SdkLevelData")));
}

#[test]
fn triage_rejects_malformed_level_data() {
    let conn = mem_db(&[
        VALID_SCHEMA,
        UID_ROW,
        "INSERT INTO LocalStorage(key, value) VALUES ('SdkLevelData', 'oops')",
    ]);
    let mut reader = reader(None);
    assert_eq!(tick(&mut reader, &world(&conn, 1)).0, Refresh::Unavailable);
    assert!(reader.last_info().is_none());
    assert_eq!(reader.last_triage(), Some(TriageError::Malformed("SdkLevelData")));
    // A value that is no text is malformed too.
    let blob = mem_db(&[
        "CREATE TABLE LocalStorage(key text, value text)",
        "INSERT INTO LocalStorage(key, value) VALUES ('SdkLevelData', x'00ff')",
    ]);
    assert_eq!(
        load_sdk_level(&blob, "1"),
        Err(TriageError::Malformed("SdkLevelData"))
    );
    assert_eq!(
        load_sdk_level_by_index(&blob, 1),
        Err(TriageError::Malformed("SdkLevelData"))
    );
}

#[test]
fn triage_rejects_a_missing_uid() {
    // No RecentlyLoginUID and no override: no account can be selected.
    let conn = mem_db(&[VALID_SCHEMA, SDK_ROW]);
    let mut reader = reader(None);
    assert_eq!(tick(&mut reader, &world(&conn, 1)).0, Refresh::Unavailable);
    assert!(reader.last_info().is_none());
    assert_eq!(reader.last_triage(), Some(TriageError::MissingKey("RecentlyLoginUID")));
    // A mark that is neither number nor text is no uid.
    let odd = mem_db(&[
        VALID_SCHEMA,
        "INSERT INTO LocalStorage(key, value) VALUES ('RecentlyLoginUID', '[1]')",
    ]);
    assert_eq!(load_uid(&odd, None), Err(TriageError::UnknownUid));
    assert_eq!(peek_live_uid(&odd), None);
    let quoted = mem_db(&[
        VALID_SCHEMA,
        "INSERT INTO LocalStorage(key, value) VALUES ('RecentlyLoginUID', '\"222\"')",
    ]);
    assert_eq!(peek_live_uid(&quoted), Some("222".to_string()));
}

#[test]
fn triage_rejects_a_stale_override() {
    // Override present but absent from SdkLevelData: reject, don't guess.
    let conn = mem_db(&[VALID_SCHEMA, UID_ROW, SDK_ROW]);
    let mut reader = reader(Some("000000000"));
    assert_eq!(tick(&mut reader, &world(&conn, 1)).0, Refresh::Unavailable);
    assert!(reader.last_info().is_none());
    assert_eq!(
        load_uid(&conn, Some("000000000")),
        Ok("000000000".to_string())
    );
    assert_eq!(
        load_sdk_level(&conn, "000000000"),
        Err(TriageError::AccountNotInLevelData {
            known_accounts: 1,
            uid_seen_elsewhere: false,
        })
    );
}

#[test]
fn a_missing_file_is_unavailable_not_fatal() {
    let conn = mem_db(&[]);
    let mut reader = reader(None);
    let mut gone = world(&conn, 1);
    gone.names.clear();
    gone.source = None;
    assert_eq!(tick(&mut reader, &gone).0, Refresh::Unavailable);
    assert!(reader.last_info().is_none());
    // A time that cannot be told is no better.
    gone.source = Some((1, None));
    assert_eq!(tick(&mut reader, &gone).0, Refresh::Unavailable);
}

#[test]
fn failures_are_told_once_and_hints_stay_generic() {
    let conn = mem_db(&[VALID_SCHEMA, UID_ROW, SDK_ROW]);
    let mut reader = reader(Some("000000000"));
    let expected = TriageError::AccountNotInLevelData {
        known_accounts: 1,
        uid_seen_elsewhere: false,
    };

    assert_eq!(reader.last_triage(), None);
    let (refresh, notice, _) = tick(&mut reader, &world(&conn, 1));
    assert_eq!((refresh, notice), (Refresh::Unavailable, Notice::Rejected(expected)));
    assert_eq!(reader.last_triage(), Some(expected));
    // Persists across ticks; it is not told again.
    let (refresh, notice, _) = tick(&mut reader, &world(&conn, 1));
    assert_eq!((refresh, notice), (Refresh::Unavailable, Notice::Nothing));
    assert_eq!(reader.last_triage(), Some(expected));
    // Another reason is.
    let other = mem_db(&["CREATE TABLE Other(x)"]);
    let (_, notice, _) = tick(&mut reader, &world(&other, 2));
    assert_eq!(notice, Notice::Rejected(TriageError::MissingTable));
    let (_, notice, _) = tick(&mut reader, &world(&conn, 3));
    assert_eq!(notice, Notice::Rejected(expected));

    // Hints guide to --kuro-uid without echoing account values.
    let err = reader.last_triage().unwrap();
    assert!(reader.hint(err).contains("--kuro-uid"));
    assert!(!reader.hint(err).contains("000000000"));
    assert_eq!(
        reader.rejection(err),
        "LocalStorage triage failed (logged-in account has no level data (1 account(s) stored)); check --kuro-uid: stale or unknown account"
    );
}

#[test]
fn hint_without_override_points_to_list_accounts() {
    let reader = reader(None);
    let hint = reader.hint(TriageError::AccountNotInLevelData {
        known_accounts: 2,
        uid_seen_elsewhere: false,
    });
    assert!(hint.contains("--list-accounts"), "unexpected hint: {hint}");
    assert!(hint.contains("--account-index"), "unexpected hint: {hint}");
    assert!(reader.hint(TriageError::UnknownUid).contains("log in"));
    assert_eq!(reader.hint(TriageError::Corrupt), "keeping previous data");
}

#[test]
fn success_resets_what_was_told() {
    let conn = mem_db(&[VALID_SCHEMA, UID_ROW, SDK_ROW]);
    let broken = mem_db(&[VALID_SCHEMA, UID_ROW]);
    let mut reader = reader(None);
    tick(&mut reader, &world(&broken, 1));
    assert!(reader.last_triage().is_some());
    assert_eq!(tick(&mut reader, &world(&conn, 2)).0, Refresh::Updated);
    assert_eq!(reader.last_triage(), None);
    // And the same failure is news again, while the data stay.
    let (refresh, notice, _) = tick(&mut reader, &world(&broken, 3));
    assert_eq!(refresh, Refresh::Unavailable);
    assert!(matches!(notice, Notice::Rejected(_)));
    assert_eq!(reader.last_info().unwrap().union_level, "60");
}

#[test]
fn a_known_account_without_a_level_row_is_told_apart() {
    let conn = mem_db(&[
        VALID_SCHEMA,
        UID_ROW,
        SDK_ROW,
        "INSERT INTO LocalStorage(key, value) VALUES ('LoginTime_000000000', '123')",
    ]);
    let mut reader = reader(Some("000000000"));
    assert_eq!(tick(&mut reader, &world(&conn, 1)).0, Refresh::Unavailable);
    assert_eq!(
        reader.last_triage(),
        Some(TriageError::AccountNotInLevelData {
            known_accounts: 1,
            uid_seen_elsewhere: true,
        })
    );
    assert!(
        reader
            .hint(reader.last_triage().unwrap())
            .contains("--list-accounts, --account-index N")
    );
    assert!(has_account_data(&conn, "000000000"));
    assert!(!has_account_data(&conn, "999999999"));
}

#[test]
fn missing_quests_still_update() {
    // Quests are best-effort: identity data alone is enough for presence.
    let conn = mem_db(&[VALID_SCHEMA, UID_ROW, SDK_ROW]);
    let mut reader = reader(None);
    assert_eq!(tick(&mut reader, &world(&conn, 1)).0, Refresh::Updated);
    let info = reader.last_info().unwrap();
    assert_eq!(info.union_level, "60".to_string());
    assert_eq!(info.region, "Europe".to_string());
    assert_eq!(info.quests_done, None);
}

#[test]
fn triage_valid_snapshot_passes_integrity() {
    let conn = mem_db(&[VALID_SCHEMA, UID_ROW, SDK_ROW]);
    assert_eq!(check_schema(&conn), Ok(()));
    assert_eq!(check_integrity(&conn), Ok(()));
    assert_eq!(load_uid(&conn, None), Ok("111111111".to_string()));
    // Empty or blank override falls back to auto-detection.
    assert_eq!(load_uid(&conn, Some("")), Ok("111111111".to_string()));
    assert_eq!(load_uid(&conn, Some("   ")), Ok("111111111".to_string()));
    assert_eq!(
        load_sdk_level(&conn, "111111111"),
        Ok(("Europe".to_string(), "60".to_string()))
    );
}

#[test]
fn the_device_version_rides_along() {
    let conn = mem_db(&[VALID_SCHEMA, UID_ROW, SDK_ROW]);
    // No device database: still updated, without a version.
    let mut first = reader(None);
    assert_eq!(tick(&mut first, &world(&conn, 1)).0, Refresh::Updated);
    assert_eq!(first.last_info().unwrap().game_version, None);

    let device = mem_db(&[
        VALID_SCHEMA,
        "INSERT INTO LocalStorage(key, value) VALUES ('PatchVersion', '\"9.9.9\"')",
    ]);
    let mut second = reader(None);
    let mut versioned = world(&conn, 1);
    versioned.device = Some(&device);
    assert_eq!(tick(&mut second, &versioned).0, Refresh::Updated);
    assert_eq!(
        second.last_info().unwrap().game_version.as_deref(),
        Some("9.9.9")
    );

    // A failed triage does not take the version down with it.
    let broken = mem_db(&[VALID_SCHEMA, UID_ROW]);
    let mut third = reader(None);
    let mut failed = world(&broken, 1);
    failed.device = Some(&device);
    assert_eq!(tick(&mut third, &failed).0, Refresh::Unavailable);
    assert_eq!(third.cached_version(), Some("9.9.9"));

    // Non-string version: ignored, presence still updates.
    device
        .execute(
            "UPDATE LocalStorage SET value = '123' WHERE key = 'PatchVersion'",
            [],
        )
        .unwrap();
    let mut fourth = reader(None);
    assert_eq!(tick(&mut fourth, &versioned).0, Refresh::Updated);
    assert_eq!(fourth.last_info().unwrap().game_version, None);
}

#[test]
fn versions_are_short_texts() {
    assert_eq!(parse_version("\" 3.6.13 \""), Some("3.6.13".to_string()));
    assert_eq!(parse_version("\"  \""), None);
    assert_eq!(parse_version("3.6"), None);
    assert_eq!(parse_version("oops"), None);
    assert_eq!(parse_version(&format!("\"{}\"", "9".repeat(32))), Some("9".repeat(32)));
    assert_eq!(parse_version(&format!("\"{}\"", "9".repeat(33))), None);
    // Bytes count, not characters.
    assert_eq!(parse_version(&format!("\"{}\"", "é".repeat(17))), None);
}

#[test]
fn a_named_directory_needs_storage() {
    // An explicit directory with the nested layout resolves without discovery.
    assert_eq!(
        resolve_storage(Some(("/game", [false, true, false])), None),
        Ok(Located::Named("Wuthering Waves Game/Client/Saved/LocalStorage"))
    );
    // An explicit directory without storage errs with a helpful message.
    let err = resolve_storage(Some(("/bogus", [false; 3])), Some((0, [true; 3]))).unwrap_err();
    assert_eq!(
        err,
        "no Client/Saved/LocalStorage under '/bogus' (tried Steam and standalone layouts)"
    );
    assert_eq!(
        resolve_storage(None, Some((4, [true, false, false]))),
        Ok(Located::Discovered(4, "Client/Saved/LocalStorage"))
    );
    assert_eq!(resolve_storage(None, None), Err(NO_GAME_MESSAGE.to_string()));
    assert_eq!(
        resolve_storage(None, Some((4, [false; 3]))),
        Err(NO_GAME_MESSAGE.to_string())
    );
}

const SDK_TWO: &str = "INSERT INTO LocalStorage(key, value) VALUES ('SdkLevelData', '{\"___MetaType___\": \"___Map___\", \"Content\": [[\"111111111\", [{\"Region\": \"Europe\", \"Level\": 60}]], [\"222222222\", [{\"Region\": \"America\", \"Level\": 30}]]]}')";
const QUESTS_TWO: &str = "INSERT INTO LocalStorage(key, value) VALUES ('UserFinishedQuests', '{\"___MetaType___\": \"___Map___\", \"Content\": [[\"111111111\", {\"Content\": [1]}], [\"222222222\", {\"Content\": [1, 2, 3]}]]}')";

#[test]
fn load_by_index_selects_position() {
    let conn = mem_db(&[VALID_SCHEMA, SDK_TWO]);
    let first = load_sdk_level_by_index(&conn, 1).expect("first entry");
    assert_eq!(first.uid, "111111111".to_string());
    assert_eq!(first.region, "Europe".to_string());
    let second = load_sdk_level_by_index(&conn, 2).expect("second entry");
    assert_eq!(second.uid, "222222222".to_string());
    assert_eq!(second.level, "30".to_string());
    assert_eq!(
        load_sdk_level_by_index(&conn, 0),
        Err(TriageError::UnknownUid)
    );
    assert_eq!(
        load_sdk_level_by_index(&conn, 3),
        Err(TriageError::UnknownUid)
    );
}

#[test]
fn a_position_wins_over_uid_resolution() {
    let conn = mem_db(&[VALID_SCHEMA, UID_ROW, SDK_TWO, QUESTS_TWO]);
    let mut auto = reader(None);
    assert_eq!(tick(&mut auto, &world(&conn, 1)).0, Refresh::Updated);
    assert_eq!(auto.last_info().unwrap().uid, "111111111".to_string());

    let mut pinned = reader(Some("111111111"));
    pinned.set_account_index(2);
    assert_eq!(tick(&mut pinned, &world(&conn, 1)).0, Refresh::Updated);
    let info = pinned.last_info().unwrap();
    assert_eq!(info.uid, "222222222".to_string());
    assert_eq!(info.union_level, "30".to_string());
    assert_eq!(info.region, "America".to_string());
    assert_eq!(info.quests_done, Some(3));
    // The live login is independent of the pin.
    assert_eq!(pinned.live_uid(), Some("111111111"));
    let (_, live) = query_snapshot(&conn, None, Some(2)).unwrap();
    assert_eq!(live, Some("111111111".to_string()));

    // Out of range degrades gracefully instead of failing.
    let mut bad = reader(None);
    bad.set_account_index(9);
    assert_eq!(tick(&mut bad, &world(&conn, 1)).0, Refresh::Unavailable);
    assert!(bad.last_info().is_none());
    assert_eq!(load_quest_count(&conn, "222222222"), Some(3));
    assert_eq!(load_quest_count(&conn, "x"), None);
}

#[test]
fn listing_reads_without_uids() {
    let conn = mem_db(&[VALID_SCHEMA, UID_ROW, SDK_TWO]);
    // No launcher cache around: nicknames stay absent, listing still works.
    let listed = query_list(&conn, None).expect("listing works");
    assert_eq!(listed.len(), 2);
    assert_eq!(listed[0].index, 1);
    assert_eq!(listed[0].region, "Europe".to_string());
    assert_eq!(listed[0].level, "60".to_string());
    assert_eq!(listed[0].nickname, None);
    assert_eq!(listed[1].nickname, None);
    // The position of a listing is the position of a pin.
    let pinned = load_sdk_level_by_index(&conn, listed[1].index).unwrap();
    assert_eq!((pinned.region, pinned.level), ("America".to_string(), "30".to_string()));
    assert_eq!(query_list(&mem_db(&[]), None), Err(TriageError::MissingTable));
    assert_eq!(
        query_list(&mem_db(&[VALID_SCHEMA]), None),
        Err(TriageError::MissingKey("SdkLevelData"))
    );
}

#[test]
fn listing_attaches_login_nicknames() {
    let conn = mem_db(&[VALID_SCHEMA, SDK_TWO]);
    let cache = r#"{"last_login_cuid": "222222222", "account_list": [
      {"cuid": "111111111", "thirdNickName": "RoverOne", "email": "x", "token": "y"},
      {"cuid": "222222222", "thirdNickName": "", "email": "x", "token": "y"},
      {"cuid": "333333333"}
    ]}"#;
    let listed = query_list(&conn, Some(cache)).expect("listing works");
    assert_eq!(listed.len(), 2);
    assert_eq!(listed[0].nickname.as_deref(), Some("RoverOne"));
    // Empty nicknames are skipped, unknown cuids stay absent.
    assert_eq!(listed[1].nickname, None);
    // Last-login marker follows cuid equality only.
    assert!(!listed[0].last_login);
    assert!(listed[1].last_login);
    // A cache that cannot be read costs nothing.
    let bare = query_list(&conn, Some("oops")).unwrap();
    assert_eq!(bare, query_list(&conn, None).unwrap());
}

#[test]
fn later_nicknames_take_the_place_of_earlier_ones() {
    let pairs = read_nicknames(
        r#"{"account_list": [{"cuid": "1", "thirdNickName": "a"}, 7,
            {"cuid": "1", "thirdNickName": "b"}, {"cuid": "", "thirdNickName": "c"}]}"#,
    );
    assert_eq!(nickname_for(&pairs, "1"), Some("b".to_string()));
    assert_eq!(nickname_for(&pairs, ""), None);
    assert_eq!(nickname_for(&pairs, "2"), None);
    assert!(read_nicknames("oops").is_empty());
    assert!(read_nicknames(r#"{"account_list": 1}"#).is_empty());
}

#[test]
fn last_login_accepts_only_usable_marks() {
    assert_eq!(
        read_last_login(r#"{"last_login_cuid": "222222222"}"#),
        Some("222222222".to_string())
    );
    // Missing, empty, non-string or garbage: None, never an error.
    assert_eq!(read_last_login(r#"{"account_list": []}"#), None);
    assert_eq!(read_last_login(r#"{"last_login_cuid": ""}"#), None);
    assert_eq!(read_last_login(r#"{"last_login_cuid": 123}"#), None);
    assert_eq!(read_last_login("not json"), None);
}

#[test]
fn launcher_files_lie_under_the_nearest_library() {
    let names = |list: &[&str]| {
        list.iter()
            .map(|s| if s.is_empty() { None } else { Some(s.to_string()) })
            .collect::<Vec<_>>()
    };
    assert_eq!(steamapps_dir(&names(&["Wuthering Waves", "common", "steamapps", "x", ""])), Some(2));
    assert_eq!(steamapps_dir(&names(&["steamapps", "steamapps"])), Some(0));
    // Outside any library: none.
    assert_eq!(steamapps_dir(&names(&["nope", "tmp", ""])), None);
    assert!(LAUNCHER_CACHE.ends_with("KR_G153/A1834/KRSDKUserCache.json"));
    assert!(TELEMETRY_DB.ends_with("KR_G153/KDData-data.db"));
    assert!(LAUNCHER_CACHE.starts_with("compatdata/3513350/pfx/drive_c/users/steamuser/"));
}

#[test]
fn triage_errors_never_echo_account_values() {
    // Privacy invariant: key names are fine in logs, values/uids are not.
    let probe = "111111111";
    let errors = [
        TriageError::Unopenable,
        TriageError::MissingTable,
        TriageError::BadSchema,
        TriageError::Corrupt,
        TriageError::MissingKey("SdkLevelData"),
        TriageError::Malformed("SdkLevelData"),
        TriageError::UnknownUid,
        TriageError::AccountNotInLevelData {
            known_accounts: 2,
            uid_seen_elsewhere: false,
        },
        TriageError::AccountNotInLevelData {
            known_accounts: 2,
            uid_seen_elsewhere: true,
        },
    ];
    for err in errors {
        assert!(
            !err.message().contains(probe),
            "triage message must not echo account values: {}",
            err.message()
        );
    }
}

#[test]
fn rejections_have_messages() {
    assert_eq!(TriageError::Unopenable.message(), "snapshot is not a readable SQLite database");
    assert_eq!(TriageError::MissingTable.message(), "LocalStorage table missing");
    assert_eq!(TriageError::BadSchema.message(), "LocalStorage table has unexpected columns");
    assert_eq!(TriageError::Corrupt.message(), "snapshot failed integrity check");
    assert_eq!(TriageError::MissingKey("K").message(), "required key `K` missing");
    assert_eq!(TriageError::Malformed("K").message(), "key `K` has unexpected shape");
    assert_eq!(TriageError::UnknownUid.message(), "no usable account uid found");
    let missing = |uid_seen_elsewhere| TriageError::AccountNotInLevelData {
        known_accounts: 2,
        uid_seen_elsewhere,
    };
    assert_eq!(
        missing(true).message(),
        "account has no level data yet (2 other account(s) stored)"
    );
    assert_eq!(
        missing(false).message(),
        "logged-in account has no level data (2 account(s) stored)"
    );
    assert!(missing(true).same_reason(&missing(true)));
    assert!(!missing(true).same_reason(&missing(false)));
    assert!(!TriageError::MissingKey("A").same_reason(&TriageError::MissingKey("B")));
    assert!(!TriageError::MissingKey("A").same_reason(&TriageError::Malformed("A")));
}

#[test]
fn storage_is_found_under_both_layouts() {
    assert_eq!(resolve_storage_dir([true, true, true]), Some("Client/Saved/LocalStorage"));
    assert_eq!(
        resolve_storage_dir([false, true, true]),
        Some("Wuthering Waves Game/Client/Saved/LocalStorage")
    );
    assert_eq!(
        resolve_storage_dir([false, false, true]),
        Some("wuthering waves game/Client/Saved/LocalStorage")
    );
    assert_eq!(resolve_storage_dir([false; 3]), None);
}

/// A directory of a pretended file system.
struct Dir {
    storage: bool,
    entries: Option<Vec<Option<usize>>>,
}

/// Runs a search over a pretended file system; gives the directory found and
/// how many were probed.
fn search(dirs: &[Dir], roots: usize) -> (Option<usize>, usize) {
    // The search's numbers, in its own order, stand for these directories.
    let mut known: Vec<usize> = (0..roots).collect();
    let mut discovery = Discovery::new(roots);
    let mut probed = 0;
    let mut look = discovery.step(Seen::Start);
    loop {
        look = match look {
            Look::Probe(id) => {
                probed += 1;
                discovery.step(Seen::Storage(dirs[known[id]].storage))
            }
            Look::Entries(id) => {
                let entries = dirs[known[id]].entries.clone();
                let flags = entries.as_ref().map(|list| {
                    list.iter().map(|entry| entry.is_some()).collect::<Vec<_>>()
                });
                for entry in entries.into_iter().flatten().flatten() {
                    known.push(entry);
                }
                discovery.step(Seen::Entries(flags))
            }
            Look::Found(id) => return (Some(known[id]), probed),
            Look::NotFound => return (None, probed),
        };
    }
}

#[test]
fn discovery_searches_roots_and_what_lies_below() {
    let dir = |storage: bool, entries: &[Option<usize>]| Dir {
        storage,
        entries: Some(entries.to_vec()),
    };
    // A nested game two levels below its root, beside a file.
    let nested = [
        dir(false, &[None, Some(1)]),
        dir(false, &[Some(2)]),
        dir(true, &[]),
    ];
    assert_eq!(search(&nested, 1), (Some(2), 3));
    // A root that is itself a game directory wins without descending.
    assert_eq!(search(&[dir(true, &[Some(0)])], 1), (Some(0), 1));
    // Three levels below is too deep.
    let deep = [
        dir(false, &[Some(1)]),
        dir(false, &[Some(2)]),
        dir(false, &[Some(3)]),
        dir(true, &[]),
    ];
    assert_eq!(search(&deep, 1), (None, 3));
    // Each root is probed before anything below one, in order.
    let below = [dir(true, &[]), dir(false, &[Some(2)]), dir(true, &[])];
    assert_eq!(search(&below, 2), (Some(0), 1));
    let later = [dir(false, &[Some(2)]), dir(true, &[]), dir(true, &[])];
    assert_eq!(search(&later, 2), (Some(1), 2));
    // Below the roots, the last root comes first.
    let both = [
        dir(false, &[Some(2)]),
        dir(false, &[Some(3)]),
        dir(true, &[]),
        dir(true, &[]),
    ];
    assert_eq!(search(&both, 2), (Some(3), 3));
    // A root that cannot be read is passed over.
    let unread = [Dir { storage: false, entries: None }, dir(false, &[Some(2)]), dir(true, &[])];
    assert_eq!(search(&unread, 2), (Some(2), 3));
    assert_eq!(search(&[], 0), (None, 0));
}

#[test]
fn discovery_is_bounded() {
    let mut dirs = vec![Dir {
        storage: false,
        entries: Some((1..=MAX_DIRS).map(Some).collect()),
    }];
    for _ in 0..MAX_DIRS {
        dirs.push(Dir { storage: false, entries: Some(Vec::new()) });
    }
    assert_eq!(search(&dirs, 1), (None, MAX_DIRS + 1));
    // One entry more, whatever it is, ends the search at once.
    let mut full: Vec<Option<usize>> = (1..=MAX_DIRS).map(Some).collect();
    full.push(None);
    dirs[0].entries = Some(full);
    assert_eq!(search(&dirs, 1), (None, 1));
    // As long as it is not full, whatever is there is found.
    let mut wide: Vec<Dir> = vec![Dir {
        storage: false,
        entries: Some((1..MAX_DIRS).map(Some).chain([None]).collect()),
    }];
    for at in 1..MAX_DIRS {
        wide.push(Dir { storage: at == 1, entries: Some(Vec::new()) });
    }
    assert_eq!(search(&wide, 1), (Some(1), MAX_DIRS));
}

#[test]
fn default_roots_lie_under_home() {
    let roots = default_roots(Some("/home/x"));
    assert_eq!(
        roots,
        vec![
            "/home/x/.steam/steam/steamapps/common/Wuthering Waves".to_string(),
            "/home/x/Games".to_string(),
            "/home/x/.var/app/app.twintaillauncher.ttl/data".to_string(),
        ]
    );
    assert_eq!(default_roots(None)[1], "./Games");
    assert_eq!(
        sidecars()[0],
        ("LocalStorage.db-journal".to_string(), "snapshot.db-journal".to_string())
    );
    assert_eq!(sidecars()[2].0, "LocalStorage.db-shm");
    assert!(copyable(Some(64 * 1024 * 1024)));
    assert!(!copyable(Some(64 * 1024 * 1024 + 1)));
    assert!(!copyable(None));
}

#[test]
fn garbage_sibling_rows_never_hide_a_valid_match() {
    // The exact dedup hazard: a malformed row for ANOTHER account must not
    // prevent resolving a valid one (nor listing it).
    let body = r#"{"Content": [
    ["9", [{"Region": "X", "Level": true}]],
    "not-an-entry",
    ["111111111", [{"Region": "Europe", "Level": 60}]],
    ["222222222", [{"Region": "", "Level": 1}]]
  ]}"#;
    assert_eq!(
        parse_sdk_level_data(body, "111111111"),
        Some(("Europe".to_string(), "60".to_string()))
    );
    assert_eq!(
        parse_account_list(body),
        Some(vec![("Europe".to_string(), "60".to_string())])
    );
    assert_eq!(parse_sdk_level_data(body, "000000000"), None);
    assert_eq!(parse_account_list("oops"), None);
}

#[test]
fn display_names_come_from_exact_live_rows_only() {
    let conn = mem_db(&[
        "CREATE TABLE KDData (id INTEGER PRIMARY KEY AUTOINCREMENT, content TEXT)",
    ]);
    for row in [
        r#"{"role_id":"111111111","role_name":"First"}"#,
        r#"{"role_id":"222222222","role_name":"Al"}"#,
        r#"{"role_id":"111111111","role_name":"Second"}"#,
        r#"{"role_id":"333333333"}"#,
        r#"{"role_id":"444444444","role_name":""}"#,
        r#"{"role_id":555555555,"role_name":"Numeric"}"#,
        "not json at all",
    ] {
        conn.execute("INSERT INTO KDData(content) VALUES (?1)", [row])
            .unwrap();
    }
    // First exact match wins; other uids, malformed rows and garbage pass by.
    assert_eq!(query_kd_names(&conn, "111111111").as_deref(), Some("First"));
    assert_eq!(query_kd_names(&conn, "222222222").as_deref(), Some("Al"));
    assert_eq!(query_kd_names(&conn, "555555555").as_deref(), Some("Numeric"));
    assert_eq!(query_kd_names(&conn, "444444444"), None);
    assert_eq!(query_kd_names(&conn, "999999999"), None);

    // Missing column or table: None, never an error.
    let empty = mem_db(&["CREATE TABLE KDData (id INTEGER PRIMARY KEY)"]);
    assert_eq!(query_kd_names(&empty, "111111111"), None);
    assert_eq!(query_kd_names(&mem_db(&[]), "111111111"), None);
    // Rows that are no text are passed over; names are bounded.
    conn.execute_batch("DELETE FROM KDData; INSERT INTO KDData(content) VALUES (x'ff')")
        .unwrap();
    for name in ["x".repeat(33), "y".repeat(32)] {
        let row = format!(r#"{{"role_id":"1","role_name":" {name} "}}"#);
        conn.execute("INSERT INTO KDData(content) VALUES (?1)", [row])
            .unwrap();
    }
    assert_eq!(query_kd_names(&conn, "1"), Some("y".repeat(32)));
}

#[test]
fn refresh_attaches_the_live_display_name() {
    let conn = mem_db(&[VALID_SCHEMA, UID_ROW, SDK_ROW]);
    let kd = mem_db(&[
        "CREATE TABLE KDData (id INTEGER PRIMARY KEY AUTOINCREMENT, content TEXT)",
        "INSERT INTO KDData(content) VALUES ('{\"role_id\":\"111111111\",\"role_name\":\"TestRover\"}')",
    ]);
    let mut reader = reader(None);
    reader.set_game_dir(PathBuf::from("/games/steamapps/common/Wuthering Waves"));
    let mut seen = world(&conn, 1);
    seen.telemetry = Some(&kd);
    seen.telemetry_time = Some(10);
    assert_eq!(tick(&mut reader, &seen).0, Refresh::Updated);
    assert_eq!(
        reader.last_info().unwrap().display_name.as_deref(),
        Some("TestRover")
    );
    assert_eq!(reader.display_name(), Some("TestRover"));
    // New data while the telemetry stays the same keep the name.
    seen.source = Some((4096, Some(2)));
    seen.after = Some(2);
    let (refresh, _, asked) = tick(&mut reader, &seen);
    assert_eq!(refresh, Refresh::Updated);
    assert!(!asked.contains(&Action::ReadName));
    assert_eq!(
        reader.last_info().unwrap().display_name.as_deref(),
        Some("TestRover")
    );
    // A gap in the telemetry does too.
    seen.telemetry = None;
    seen.telemetry_time = None;
    tick(&mut reader, &seen);
    assert_eq!(reader.display_name(), Some("TestRover"));
}

#[test]
fn without_a_game_directory_telemetry_is_left_alone() {
    let conn = mem_db(&[VALID_SCHEMA, UID_ROW, SDK_ROW]);
    let mut reader = reader(None);
    for time in 1..4 {
        let (_, _, asked) = tick(&mut reader, &world(&conn, time));
        assert!(!asked.contains(&Action::TimeTelemetry));
        assert!(!asked.contains(&Action::ReadName));
    }
    assert_eq!(reader.game_dir(), None);
    assert_eq!(reader.storage_dir(), &PathBuf::from("/game/LocalStorage"));
    assert_eq!(reader.snapshot_dir(), &PathBuf::from("/run/wwrpc"));
}

#[test]
fn torn_copies_and_large_files_are_never_read() {
    let conn = mem_db(&[VALID_SCHEMA, UID_ROW, SDK_ROW]);
    let mut reader = reader(None);
    let mut torn = world(&conn, 1);
    torn.after = Some(2);
    let (refresh, _, asked) = tick(&mut reader, &torn);
    assert_eq!(refresh, Refresh::Unavailable);
    assert!(!asked.contains(&Action::ReadSnapshot));
    torn.after = None;
    assert_eq!(tick(&mut reader, &torn).0, Refresh::Unavailable);
    torn.after = Some(1);
    torn.copied = false;
    assert_eq!(tick(&mut reader, &torn).0, Refresh::Unavailable);
    let mut large = world(&conn, 1);
    large.source = Some((64 * 1024 * 1024 + 1, Some(1)));
    let (refresh, notice, asked) = tick(&mut reader, &large);
    assert_eq!((refresh, notice), (Refresh::Unavailable, Notice::Oversized));
    assert!(!asked.contains(&Action::CopySource));
    assert_eq!(tick(&mut reader, &world(&conn, 1)).0, Refresh::Updated);
}

#[test]
fn a_role_switch_drops_the_past() {
    let first = mem_db(&[VALID_SCHEMA, UID_ROW, SDK_ROW]);
    let kd = mem_db(&[
        "CREATE TABLE KDData (content TEXT)",
        "INSERT INTO KDData(content) VALUES ('{\"role_id\":\"111111111\",\"role_name\":\"One\"}')",
    ]);
    let mut reader = reader(None);
    reader.set_game_dir(PathBuf::from("/g"));
    let mut seen = world(&first, 1);
    seen.telemetry = Some(&kd);
    seen.telemetry_time = Some(1);
    tick(&mut reader, &seen);
    assert_eq!(reader.display_name(), Some("One"));

    // A mark that cannot be read changes nothing.
    let unmarked = mem_db(&[VALID_SCHEMA]);
    tick(&mut reader, &world(&unmarked, 2));
    assert_eq!(reader.live_uid(), Some("111111111"));
    assert!(reader.last_info().is_some());

    // Another login without data leaves nothing to show.
    let second = mem_db(&[
        VALID_SCHEMA,
        "INSERT INTO LocalStorage(key, value) VALUES ('RecentlyLoginUID', '222222222')",
        SDK_ROW,
    ]);
    let mut moved = world(&second, 3);
    moved.telemetry = Some(&kd);
    moved.telemetry_time = Some(1);
    assert_eq!(tick(&mut reader, &moved).0, Refresh::Unavailable);
    assert_eq!(reader.live_uid(), Some("222222222"));
    assert!(reader.last_info().is_none());
    assert_eq!(reader.display_name(), None);
}

#[test]
fn unasked_answers_end_the_tick() {
    let conn = mem_db(&[VALID_SCHEMA, UID_ROW, SDK_ROW]);
    let mut reader = reader(None);
    tick(&mut reader, &world(&conn, 1));
    assert_eq!(
        reader.refresh(Event::Name(Some("x".to_string()))),
        Action::Done(Refresh::Unavailable, Notice::Nothing)
    );
    assert_eq!(reader.refresh(Event::Start), Action::ListStorage);
    assert_eq!(
        reader.refresh(Event::Copied(true, Some(1))),
        Action::Done(Refresh::Unavailable, Notice::Nothing)
    );
    assert_eq!(reader.last_info().unwrap().union_level, "60");
}

fn remnant_event(role: &str, name: &str, level: &str, region: &str, event_ms: u64) -> Vec<u8> {
    // Freelist context around the event: prefix/suffix noise like a real
    // telemetry copy, with fully synthetic values only.
    let mut bytes = b"\x00\x11s{\"#stale\":true}garbage".to_vec();
    bytes.extend_from_slice(
        format!(
            // `event_time_ms` is a string on the wire, like the real telemetry.
            "s{{\"#distinct_id\":\"test-device\",\"#event_name\":\"login_role\",\
       \"properties\":{{\"role_id\":\"{role}\",\"role_name\":\"{name}\",\
       \"role_level\":\"{level}\",\"server_name\":\"{region}\",\
       \"event_time_ms\":\"{event_ms}\"}}}}trailer"
        )
        .as_bytes(),
    );
    bytes
}

fn test_now_ms() -> u64 {
    u64::try_from(
        std::time::SystemTime::now()
            .duration_since(std::time::UNIX_EPOCH)
            .unwrap()
            .as_millis(),
    )
    .unwrap()
}

#[test]
fn remnant_role_recovers_fresh_match() {
    let now = test_now_ms();
    let bytes = remnant_event("111111111", "TestRover", "64", "America", now - 3_600_000);
    let (role, stats) = find_remnant_role(&bytes, "111111111", now);
    let role = role.unwrap();
    assert_eq!(role.name, "TestRover");
    assert_eq!(role.level, 64);
    assert_eq!(role.region, "America");
    // Census lines up: one candidate, one login event, one fresh event.
    assert_eq!(stats.candidates, 1);
    assert_eq!(stats.role_hits, 1);
    assert_eq!(stats.fresh_hits, 1);
}

#[test]
fn remnant_role_rejects_stale_wrong_role_and_garbage() {
    let now = test_now_ms();
    // Stale: older than the freshness gate.
    let stale = remnant_event(
        "111111111",
        "TestRover",
        "64",
        "America",
        now - MAX_REMANT_AGE_MS - 1,
    );
    assert_eq!(find_remnant_role(&stale, "111111111", now).0, None);
    // Wrong role.
    let fresh = remnant_event("111111111", "TestRover", "64", "America", now - 1_000);
    assert_eq!(find_remnant_role(&fresh, "999999999", now).0, None);
    // Garbage bytes and truncated objects.
    assert_eq!(
        find_remnant_role(b"\x00\xffnot json", "111111111", now).0,
        None
    );
    assert_eq!(
        find_remnant_role(b"s{\"#distinct_id\":\"x\",\"role_id\"", "111111111", now).0,
        None
    );
}

#[test]
fn remnant_role_accepts_numeric_fields_and_prefers_newest() {
    let now = test_now_ms();
    let mut bytes = remnant_event("111111111", "OldName", "60", "Europe", now - 5_000);
    bytes.extend_from_slice(b"filler");
    bytes.extend_from_slice(
        format!(
            "s{{\"#distinct_id\":\"test-device\",\"#event_name\":\"login_role\",\
       \"properties\":{{\"role_id\":111111111,\"role_name\":\"NewName\",\
       \"role_level\":64,\"server_name\":\"America\",\
       \"event_time_ms\":\"{}\"}}}}end",
            now - 1_000
        )
        .as_bytes(),
    );
    let (role, stats) = find_remnant_role(&bytes, "111111111", now);
    let role = role.unwrap();
    assert_eq!(role.name, "NewName");
    assert_eq!(role.level, 64);
    assert_eq!(stats.candidates, 2);
    assert_eq!(stats.role_hits, 2);
    assert_eq!(stats.fresh_hits, 2);
}

#[test]
fn remnant_role_rejects_future_skew_and_bad_names() {
    let now = test_now_ms();
    // Beyond the clock-skew allowance.
    let future = remnant_event(
        "111111111",
        "TestRover",
        "64",
        "America",
        now + 60 * 60 * 1000,
    );
    assert_eq!(find_remnant_role(&future, "111111111", now).0, None);
    // Control characters in the name.
    let control = remnant_event("111111111", "Bad\nName", "64", "America", now - 1_000);
    assert_eq!(find_remnant_role(&control, "111111111", now).0, None);
    // Missing level.
    let mut bytes = b"s".to_vec();
    bytes.extend_from_slice(
        format!(
            "{{\"#distinct_id\":\"d\",\"properties\":{{\"role_id\":\"111111111\",\
       \"role_name\":\"TestRover\",\"server_name\":\"America\",\
       \"event_time_ms\":\"{}\"}}}}",
            now - 1_000
        )
        .as_bytes(),
    );
    assert_eq!(find_remnant_role(&bytes, "111111111", now).0, None);
}

#[test]
fn remnant_events_have_sharp_bounds() {
    let now = 1_000_000_000_000;
    let found = |bytes: &[u8]| find_remnant_role(bytes, "1", now);
    let event = |ms: u64| remnant_event("1", "N", "1", "R", ms);
    assert!(found(&event(now - MAX_REMANT_AGE_MS)).0.is_some());
    assert!(found(&event(now - MAX_REMANT_AGE_MS - 1)).0.is_none());
    assert!(found(&event(now + 300_000)).0.is_some());
    assert!(found(&event(now + 300_001)).0.is_none());
    assert!(found(&event(0)).0.is_none());
    // Of two events at one time the first stays.
    let mut twice = remnant_event("1", "First", "1", "R", now);
    twice.extend_from_slice(&remnant_event("1", "Second", "1", "R", now));
    assert_eq!(found(&twice).0.unwrap().name, "First");
    // A level of zero, a long server name and an odd level do not count.
    for (level, region) in [("0", "R".to_string()), ("x", "R".to_string()), ("1", "r".repeat(65))] {
        let (role, stats) = found(&remnant_event("1", "N", level, &region, now));
        assert!(role.is_none());
        assert_eq!(stats.fresh_hits, 1);
    }
    // Only so many places are looked at.
    let mut many = b"\"role_id\"".repeat(64);
    assert_eq!(found(&many).1.candidates, 64);
    many.extend_from_slice(&event(now));
    let (role, stats) = found(&many);
    assert!(role.is_none());
    assert_eq!(stats.candidates, 64);
}

#[test]
fn objects_are_balanced_with_strings_honoured() {
    assert_eq!(balanced_end(b"{}x", 10), Some(2));
    assert_eq!(balanced_end(b"{\"a\":\"}\\\"}\"}}", 100), Some(12));
    assert_eq!(balanced_end(b"{{}", 10), None);
    assert_eq!(balanced_end(b"x{}", 10), None);
    assert_eq!(balanced_end(b"", 10), None);
    assert_eq!(balanced_end(b"{}", 1), None);
    assert_eq!(balanced_end(b"{}", 0), None);
    assert_eq!(find_subslice(b"abcabc", b"bc"), Some(1));
    assert_eq!(rfind_subslice(b"abcabc", b"bc"), Some(4));
    assert_eq!(find_subslice(b"ab", b"abc"), None);
    assert_eq!(rfind_subslice(b"", b"a"), None);
}

#[test]
fn refresh_recovers_an_identity_from_remnants() {
    // Level data WITHOUT the live login, and telemetry bytes that carry its
    // fresh identity.
    let conn = mem_db(&[
        VALID_SCHEMA,
        UID_ROW,
        "INSERT INTO LocalStorage(key, value) VALUES ('SdkLevelData', '{\"___MetaType___\": \"___Map___\", \"Content\": [[\"222222222\", [{\"Region\": \"Europe\", \"Level\": 60}]]]}')",
    ]);
    let now = test_now_ms();
    let mut seen = world(&conn, 1);
    seen.bytes = Some((
        remnant_event("111111111", "TestRover", "64", "America", now - 60_000),
        now,
    ));
    let mut reader = reader(None);
    reader.set_game_dir(PathBuf::from("/g"));
    assert_eq!(reader.last_scan(), None);
    let (refresh, notice, _) = tick(&mut reader, &seen);
    assert_eq!(refresh, Refresh::Updated);
    assert_eq!(notice, Notice::Recovered(60, false));
    let stats = reader.last_scan().unwrap();
    assert_eq!(stats, RemnantStats { candidates: 1, role_hits: 1, fresh_hits: 1 });
    assert_eq!(
        scan_line(&stats),
        "telemetry scan: 1 candidate(s), 1 login event(s), 1 fresh event(s)"
    );
    assert_eq!(
        reader.last_info(),
        Some(&PlayerInfo {
            uid: "111111111".to_string(),
            union_level: "64".to_string(),
            region: "America".to_string(),
            quests_done: None,
            game_version: None,
            display_name: Some("TestRover".to_string()),
        })
    );
    // Nothing fresh: the rejection is told.
    seen.bytes = None;
    seen.source = Some((1, Some(2)));
    seen.after = Some(2);
    let (refresh, notice, _) = tick(&mut reader, &seen);
    assert_eq!(refresh, Refresh::Unavailable);
    assert!(matches!(notice, Notice::Rejected(_)));
    assert_eq!(reader.last_info().unwrap().union_level, "64");
    assert_eq!(
        reader.last_scan(),
        Some(RemnantStats { candidates: 0, role_hits: 0, fresh_hits: 0 })
    );
}

#[test]
fn a_pin_is_never_overruled_by_remnants() {
    let conn = mem_db(&[VALID_SCHEMA, UID_ROW, SDK_ROW]);
    let mut pinned = reader(Some("000000000"));
    pinned.set_game_dir(PathBuf::from("/g"));
    let (refresh, _, asked) = tick(&mut pinned, &world(&conn, 1));
    assert_eq!(refresh, Refresh::Unavailable);
    assert!(!asked.contains(&Action::ScanTelemetry));
}

#[test]
fn stored_scalars_read_as_text() {
    assert_eq!(json_scalar("111111111"), Some("111111111".to_string()));
    assert_eq!(json_scalar("\"x\""), Some("x".to_string()));
    assert_eq!(json_scalar("null"), None);
    assert_eq!(json_scalar("oops"), None);
}
