//! The game's local storage: what its rows say, which account they name, and
//! how a reader keeps what it has learned from one tick to the next.

pub mod accounts;
pub mod query;
pub mod reader;
pub mod remnant;
pub mod snapshot;
pub mod storage;
pub mod triage;

pub use accounts::{
    json_scalar, parse_account_list, parse_quest_count, parse_sdk_accounts, parse_sdk_level_data,
    read_last_login, read_nicknames, SdkAccount,
};
pub use reader::{Action, DbReader, Event, Notice, Refresh};
pub use remnant::{
    find_remnant_role, scan_line, RemnantRole, RemnantStats, MAX_REMANT_AGE_MS,
};
pub use snapshot::{device_version, query_kd_names, query_list, query_snapshot, StoredAccount};
pub use storage::{
    default_roots, has_numbered_db, is_numbered_db, resolve_storage, resolve_storage_dir,
    steamapps_dir, Discovery, Located, Look, Seen,
};
pub use triage::{
    check_integrity, check_schema, has_account_data, load_quest_count, load_sdk_level,
    load_sdk_level_by_index, load_uid, peek_live_uid, PlayerInfo, TriageError,
};
