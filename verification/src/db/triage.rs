//! Triage of a snapshot: what a copy of the storage must be like before its
//! data counts, in order, and what it says then.
use crate::db::accounts::{
    accounts_of, content_of, find_account, first_account, json_scalar, parse_quest_count,
    parse_sdk_accounts, quest_count, scalar_text, sdk_accounts, stored_accounts, AccountView,
    SdkAccount,
};
use crate::db::query::{
    gave_number, gave_pairs, gave_text, query_number, query_pairs, query_text, PairsAnswer,
    PairsRead, TextAnswer, TextRead, INTEGRITY_SQL, SCHEMA_SQL, SUFFIX_SQL, VALUE_SQL,
};
use crate::json::{parse, parsed_text, Tree};
use crate::text::{glue, filled, opt_str, opt_view, same, to_lowered, write_u64};
use vstd::prelude::*;

verus! {

/// The key of the live login.
pub const UID_KEY: &'static str = "RecentlyLoginUID";

/// The key of the level data.
pub const LEVEL_KEY: &'static str = "SdkLevelData";

/// The key of the finished quests.
pub const QUEST_KEY: &'static str = "UserFinishedQuests";

/// Why a snapshot was rejected. Keys are named, values never: uids, levels
/// and regions stay out of the logs.
#[derive(Clone, Copy, Debug, PartialEq, Eq)]
pub enum TriageError {
    /// The file cannot be opened as an SQLite database at all.
    Unopenable,
    /// The `LocalStorage` table is missing.
    MissingTable,
    /// The table lacks `key` and `value` text columns.
    BadSchema,
    /// The copy is corrupt.
    Corrupt,
    /// A required key is absent.
    MissingKey(&'static str),
    /// A required key has a value of an unexpected shape.
    Malformed(&'static str),
    /// No usable uid.
    UnknownUid,
    /// The uid has no entry in the level data. Only counts are told: how many
    /// entries there are, and whether the uid shows up under another key.
    AccountNotInLevelData { known_accounts: usize, uid_seen_elsewhere: bool },
}

/// Why a snapshot was rejected, as data.
pub enum Reason {
    Unopenable,
    MissingTable,
    BadSchema,
    Corrupt,
    MissingKey(Seq<char>),
    Malformed(Seq<char>),
    UnknownUid,
    AccountNotInLevelData { known_accounts: nat, uid_seen_elsewhere: bool },
}

impl View for TriageError {
    type V = Reason;

    open spec fn view(&self) -> Reason {
        match *self {
            TriageError::Unopenable => Reason::Unopenable,
            TriageError::MissingTable => Reason::MissingTable,
            TriageError::BadSchema => Reason::BadSchema,
            TriageError::Corrupt => Reason::Corrupt,
            TriageError::MissingKey(key) => Reason::MissingKey(key@),
            TriageError::Malformed(key) => Reason::Malformed(key@),
            TriageError::UnknownUid => Reason::UnknownUid,
            TriageError::AccountNotInLevelData { known_accounts, uid_seen_elsewhere } =>
                Reason::AccountNotInLevelData {
                known_accounts: known_accounts as nat,
                uid_seen_elsewhere,
            },
        }
    }
}

impl Reason {
    /// What is told of a rejection.
    pub open spec fn message(self) -> Seq<char> {
        match self {
            Reason::Unopenable => "snapshot is not a readable SQLite database"@,
            Reason::MissingTable => "LocalStorage table missing"@,
            Reason::BadSchema => "LocalStorage table has unexpected columns"@,
            Reason::Corrupt => "snapshot failed integrity check"@,
            Reason::MissingKey(key) => "required key `"@ + key + "` missing"@,
            Reason::Malformed(key) => "key `"@ + key + "` has unexpected shape"@,
            Reason::UnknownUid => "no usable account uid found"@,
            Reason::AccountNotInLevelData { known_accounts, uid_seen_elsewhere } =>
                if uid_seen_elsewhere {
                    "account has no level data yet ("@ + crate::text::decimal(known_accounts)
                        + " other account(s) stored)"@
                } else {
                    "logged-in account has no level data ("@ + crate::text::decimal(known_accounts)
                        + " account(s) stored)"@
                },
        }
    }
}

impl TriageError {
    /// What is told of a rejection.
    pub fn message(&self) -> (r: String)
        ensures
            r@ == self@.message(),
    {
        match *self {
            TriageError::Unopenable => "snapshot is not a readable SQLite database".to_owned(),
            TriageError::MissingTable => "LocalStorage table missing".to_owned(),
            TriageError::BadSchema => "LocalStorage table has unexpected columns".to_owned(),
            TriageError::Corrupt => "snapshot failed integrity check".to_owned(),
            TriageError::MissingKey(key) => glue(
                glue("required key `", key).as_str(),
                "` missing",
            ),
            TriageError::Malformed(key) => glue(
                glue("key `", key).as_str(),
                "` has unexpected shape",
            ),
            TriageError::UnknownUid => "no usable account uid found".to_owned(),
            TriageError::AccountNotInLevelData { known_accounts, uid_seen_elsewhere } => {
                let count = write_u64(known_accounts as u64);
                if uid_seen_elsewhere {
                    glue(
                        glue("account has no level data yet (", count.as_str()).as_str(),
                        " other account(s) stored)",
                    )
                } else {
                    glue(
                        glue("logged-in account has no level data (", count.as_str()).as_str(),
                        " account(s) stored)",
                    )
                }
            },
        }
    }

    /// Whether two rejections have the same reason.
    pub fn same_reason(&self, other: &TriageError) -> (r: bool)
        ensures
            r == (self@ == other@),
    {
        match (*self, *other) {
            (TriageError::Unopenable, TriageError::Unopenable) => true,
            (TriageError::MissingTable, TriageError::MissingTable) => true,
            (TriageError::BadSchema, TriageError::BadSchema) => true,
            (TriageError::Corrupt, TriageError::Corrupt) => true,
            (TriageError::MissingKey(a), TriageError::MissingKey(b)) => same(a, b),
            (TriageError::Malformed(a), TriageError::Malformed(b)) => same(a, b),
            (TriageError::UnknownUid, TriageError::UnknownUid) => true,
            (
                TriageError::AccountNotInLevelData { known_accounts: a, uid_seen_elsewhere: x },
                TriageError::AccountNotInLevelData { known_accounts: b, uid_seen_elsewhere: y },
            ) => a == b && x == y,
            _ => false,
        }
    }
}

/// Identity and numbers of one account, as shown.
#[derive(Clone, Debug, PartialEq, Eq)]
pub struct PlayerInfo {
    pub uid: String,
    pub union_level: String,
    pub region: String,
    /// Finished quests, if readable.
    pub quests_done: Option<usize>,
    /// Game version, if readable.
    pub game_version: Option<String>,
    /// Display name of the live login, if known.
    pub display_name: Option<String>,
}

/// Identity and numbers of one account, as data.
pub struct InfoView {
    pub uid: Seq<char>,
    pub union_level: Seq<char>,
    pub region: Seq<char>,
    pub quests_done: Option<nat>,
    pub game_version: Option<Seq<char>>,
    pub display_name: Option<Seq<char>>,
}

/// A count that may be missing.
pub open spec fn opt_nat(n: Option<usize>) -> Option<nat> {
    match n {
        Some(n) => Some(n as nat),
        None => None,
    }
}

impl View for PlayerInfo {
    type V = InfoView;

    open spec fn view(&self) -> InfoView {
        InfoView {
            uid: self.uid@,
            union_level: self.union_level@,
            region: self.region@,
            quests_done: opt_nat(self.quests_done),
            game_version: opt_view(self.game_version),
            display_name: opt_view(self.display_name),
        }
    }
}

/// An outcome without a value.
pub open spec fn unit_outcome(r: Result<(), TriageError>) -> Result<(), Reason> {
    match r {
        Ok(_) => Ok(()),
        Err(err) => Err(err@),
    }
}

/// An outcome with a text.
pub open spec fn text_outcome(r: Result<String, TriageError>) -> Result<Seq<char>, Reason> {
    match r {
        Ok(s) => Ok(s@),
        Err(err) => Err(err@),
    }
}

/// An outcome with two texts.
pub open spec fn pair_outcome(r: Result<(String, String), TriageError>) -> Result<
    (Seq<char>, Seq<char>),
    Reason,
> {
    match r {
        Ok(pair) => Ok((pair.0@, pair.1@)),
        Err(err) => Err(err@),
    }
}

/// An outcome with an account.
pub open spec fn account_outcome(r: Result<SdkAccount, TriageError>) -> Result<
    AccountView,
    Reason,
> {
    match r {
        Ok(account) => Ok(account@),
        Err(err) => Err(err@),
    }
}

/// Whether a column of a name, in any ASCII case, is declared as text.
pub open spec fn has_text_column(columns: Seq<(Seq<char>, Seq<char>)>, name: Seq<char>) -> bool {
    exists|i: int|
        0 <= i < columns.len() && crate::text::lowered((#[trigger] columns[i]).0) == name
            && crate::text::lowered(columns[i].1) == "text"@
}

/// What the columns say: the file is a database, there is a table, and it has
/// `key` and `value` as text.
pub open spec fn schema_outcome(columns: PairsAnswer) -> Result<(), Reason> {
    match columns {
        PairsAnswer::NotADatabase => Err(Reason::Unopenable),
        PairsAnswer::Failed => Err(Reason::MissingTable),
        PairsAnswer::BadRow => Err(Reason::BadSchema),
        PairsAnswer::Found(columns) => if columns.len() == 0 {
            Err(Reason::MissingTable)
        } else if has_text_column(columns, "key"@) && has_text_column(columns, "value"@) {
            Ok(())
        } else {
            Err(Reason::BadSchema)
        },
    }
}

/// Whether a column of a name is declared as text.
fn finds_text_column(columns: &Vec<(String, String)>, name: &str) -> (r: bool)
    ensures
        r == has_text_column(crate::db::accounts::pair_views(columns@), name@),
{
    let ghost all = crate::db::accounts::pair_views(columns@);
    let mut i: usize = 0;
    while i < columns.len()
        invariant
            i <= columns@.len(),
            all == crate::db::accounts::pair_views(columns@),
            forall|j: int|
                0 <= j < i ==> !(crate::text::lowered((#[trigger] all[j]).0) == name@
                    && crate::text::lowered(all[j].1) == "text"@),
        decreases columns@.len() - i,
    {
        let column = to_lowered(columns[i].0.as_str());
        let declared = to_lowered(columns[i].1.as_str());
        assert(all[i as int] == (columns@[i as int].0@, columns@[i as int].1@));
        if same(column.as_str(), name) && same(declared.as_str(), "text") {
            return true;
        }
        i += 1;
    }
    false
}

/// Judges the columns of a snapshot.
pub fn schema_verdict(columns: &PairsRead) -> (r: Result<(), TriageError>)
    ensures
        unit_outcome(r) == schema_outcome(columns@),
{
    match columns {
        PairsRead::NotADatabase => Err(TriageError::Unopenable),
        PairsRead::Failed => Err(TriageError::MissingTable),
        PairsRead::BadRow => Err(TriageError::BadSchema),
        PairsRead::Found(columns) => if columns.len() == 0 {
            Err(TriageError::MissingTable)
        } else if finds_text_column(columns, "key") && finds_text_column(columns, "value") {
            Ok(())
        } else {
            Err(TriageError::BadSchema)
        },
    }
}

/// The snapshot must be a database with a table `LocalStorage(key text, value
/// text)`.
pub fn check_schema(conn: &rusqlite::Connection) -> (r: Result<(), TriageError>)
    ensures
        exists|columns: PairsAnswer| #[trigger]
            gave_pairs(*conn, SCHEMA_SQL@, 1, 2, columns) && unit_outcome(r) == schema_outcome(
                columns,
            ),
{
    let columns = query_pairs(conn, SCHEMA_SQL, 1, 2);
    schema_verdict(&columns)
}

/// What the integrity check says.
pub open spec fn integrity_outcome(status: TextAnswer) -> Result<(), Reason> {
    if status == TextAnswer::Found("ok"@) {
        Ok(())
    } else {
        Err(Reason::Corrupt)
    }
}

/// Judges the integrity of a snapshot.
pub fn integrity_verdict(status: &TextRead) -> (r: Result<(), TriageError>)
    ensures
        unit_outcome(r) == integrity_outcome(status@),
{
    match status {
        TextRead::Found(status) => if same(status.as_str(), "ok") {
            Ok(())
        } else {
            Err(TriageError::Corrupt)
        },
        _ => Err(TriageError::Corrupt),
    }
}

/// The snapshot must not be corrupt: this catches torn copies that kept their
/// time.
pub fn check_integrity(conn: &rusqlite::Connection) -> (r: Result<(), TriageError>)
    ensures
        exists|status: TextAnswer| #[trigger]
            gave_text(*conn, INTEGRITY_SQL@, None, status) && unit_outcome(r) == integrity_outcome(
                status,
            ),
{
    let status = query_text(conn, INTEGRITY_SQL, None);
    integrity_verdict(&status)
}

/// What asking for a key came to.
pub open spec fn value_outcome(value: TextAnswer, key: Seq<char>) -> Result<Seq<char>, Reason> {
    match value {
        TextAnswer::Failed => Err(Reason::Malformed(key)),
        TextAnswer::Absent => Err(Reason::MissingKey(key)),
        TextAnswer::Found(body) => Ok(body),
    }
}

/// Judges what asking for a key came to.
pub fn value_verdict(value: TextRead, key: &'static str) -> (r: Result<String, TriageError>)
    ensures
        text_outcome(r) == value_outcome(value@, key@),
{
    match value {
        TextRead::Failed => Err(TriageError::Malformed(key)),
        TextRead::Absent => Err(TriageError::MissingKey(key)),
        TextRead::Found(body) => Ok(body),
    }
}

/// The value under a key.
pub fn get_value(conn: &rusqlite::Connection, key: &'static str) -> (r: Result<
    String,
    TriageError,
>)
    ensures
        exists|value: TextAnswer| #[trigger]
            gave_text(*conn, VALUE_SQL@, Some(key@), value) && text_outcome(r) == value_outcome(
                value,
                key@,
            ),
{
    let value = query_text(conn, VALUE_SQL, Some(key));
    value_verdict(value, key)
}

/// The uid that counts: an override that is not blank, else the login mark.
pub open spec fn uid_outcome(uid_override: Option<Seq<char>>, mark: TextAnswer) -> Result<
    Seq<char>,
    Reason,
> {
    match filled(uid_override) {
        Some(uid) => Ok(uid),
        None => match value_outcome(mark, UID_KEY@) {
            Ok(body) => match scalar_text(body) {
                Some(uid) => Ok(uid),
                None => Err(Reason::UnknownUid),
            },
            Err(err) => Err(err),
        },
    }
}

/// Reads the login mark: a number or a text.
pub fn mark_verdict(mark: TextRead) -> (r: Result<String, TriageError>)
    ensures
        text_outcome(r) == uid_outcome(None, mark@),
{
    match value_verdict(mark, UID_KEY) {
        Ok(body) => match json_scalar(body.as_str()) {
            Some(uid) => Ok(uid),
            None => Err(TriageError::UnknownUid),
        },
        Err(err) => Err(err),
    }
}

/// Resolves the uid: an override that is not blank wins over the login mark.
pub fn load_uid(conn: &rusqlite::Connection, uid_override: Option<&str>) -> (r: Result<
    String,
    TriageError,
>)
    ensures
        match filled(opt_str(uid_override)) {
            Some(uid) => text_outcome(r) == Ok::<Seq<char>, Reason>(uid),
            None => exists|mark: TextAnswer| #[trigger]
                gave_text(*conn, VALUE_SQL@, Some(UID_KEY@), mark) && text_outcome(r)
                    == uid_outcome(None, mark),
        },
{
    match crate::text::fill(uid_override) {
        Some(uid) => Ok(uid),
        None => {
            let mark = query_text(conn, VALUE_SQL, Some(UID_KEY));
            mark_verdict(mark)
        },
    }
}

/// The live login, whatever else of the snapshot is broken: known exactly
/// when the login mark can be read.
pub fn peek_live_uid(conn: &rusqlite::Connection) -> (r: Option<String>)
    ensures
        exists|mark: TextAnswer| #[trigger]
            gave_text(*conn, VALUE_SQL@, Some(UID_KEY@), mark) && opt_view(r) == match uid_outcome(
                None,
                mark,
            ) {
                Ok(uid) => Some(uid),
                Err(_) => None,
            },
{
    let mark = query_text(conn, VALUE_SQL, Some(UID_KEY));
    match mark_verdict(mark) {
        Ok(uid) => Some(uid),
        Err(_) => None,
    }
}

/// The suffix of keys that belong to one account.
pub open spec fn key_suffix(uid: Seq<char>) -> Seq<char> {
    "_"@ + uid
}

/// Whether a count of keys is a sign of an account.
pub open spec fn seen(count: Option<i64>) -> bool {
    count matches Some(n) && n > 0
}

/// Whether any key ends in the account's suffix. The suffix is a parameter of
/// the question, never part of its text, so an odd uid can only match more.
pub fn has_account_data(conn: &rusqlite::Connection, uid: &str) -> (r: bool)
    ensures
        exists|count: Option<i64>| #[trigger]
            gave_number(*conn, SUFFIX_SQL@, key_suffix(uid@), count) && r == seen(count),
{
    let suffix = glue("_", uid);
    let count: Option<i64> = query_number(conn, SUFFIX_SQL, suffix.as_str());
    assert(gave_number(*conn, SUFFIX_SQL@, key_suffix(uid@), count));
    match count {
        Some(n) => n > 0,
        None => false,
    }
}

/// What the level data says of a uid, and how many entries it has.
pub open spec fn level_of(levels: TextAnswer, uid: Seq<char>) -> Result<
    (nat, Option<AccountView>),
    Reason,
> {
    match value_outcome(levels, LEVEL_KEY@) {
        Err(err) => Err(err),
        Ok(body) => match parsed_text(body) {
            Some(doc) => match content_of(doc) {
                Some(entries) => Ok((entries.len(), first_account(accounts_of(entries), uid))),
                None => Err(Reason::Malformed(LEVEL_KEY@)),
            },
            None => Err(Reason::Malformed(LEVEL_KEY@)),
        },
    }
}

/// Region and level of a uid; when it has none, how many entries there are
/// and whether the uid was seen elsewhere.
pub open spec fn level_outcome(levels: TextAnswer, uid: Seq<char>, elsewhere: bool) -> Result<
    (Seq<char>, Seq<char>),
    Reason,
> {
    match level_of(levels, uid) {
        Err(err) => Err(err),
        Ok((_, Some(account))) => Ok((account.region, account.level)),
        Ok((n, None)) => Err(
            Reason::AccountNotInLevelData { known_accounts: n, uid_seen_elsewhere: elsewhere },
        ),
    }
}

/// What the level data says of a uid.
pub enum LevelFound {
    /// Region and level.
    Level(String, String),
    /// The uid has no entry, among so many.
    Unlisted(usize),
}

/// Judges what the level data says of a uid.
pub fn level_verdict(levels: TextRead, uid: &str) -> (r: Result<LevelFound, TriageError>)
    ensures
        match (level_of(levels@, uid@), r) {
            (Ok((_, Some(account))), Ok(LevelFound::Level(region, level))) => region@
                == account.region && level@ == account.level,
            (Ok((n, None)), Ok(LevelFound::Unlisted(count))) => count == n,
            (Err(reason), Err(err)) => err@ == reason,
            _ => false,
        },
{
    let body = match value_verdict(levels, LEVEL_KEY) {
        Ok(body) => body,
        Err(err) => {
            return Err(err);
        },
    };
    match parse(body.as_str()) {
        Some(doc) => {
            let count: usize = match doc.get("Content") {
                Some(content) => match content.as_array() {
                    Some(entries) => entries.len(),
                    None => {
                        return Err(TriageError::Malformed(LEVEL_KEY));
                    },
                },
                None => {
                    return Err(TriageError::Malformed(LEVEL_KEY));
                },
            };
            match sdk_accounts(&doc) {
                Some(accounts) => match find_account(&accounts, uid) {
                    Some((region, level)) => Ok(LevelFound::Level(region, level)),
                    None => Ok(LevelFound::Unlisted(count)),
                },
                None => Err(TriageError::Malformed(LEVEL_KEY)),
            }
        },
        None => Err(TriageError::Malformed(LEVEL_KEY)),
    }
}

/// Holds when a connection gave these answers on the level of a uid: the
/// level data and, where the uid has no entry there, a count of its keys.
pub open spec fn level_given(
    conn: rusqlite::Connection,
    uid: Seq<char>,
    levels: TextAnswer,
    count: Option<i64>,
) -> bool {
    &&& gave_text(conn, VALUE_SQL@, Some(LEVEL_KEY@), levels)
    &&& (level_of(levels, uid) matches Ok((_, None)) ==> gave_number(
        conn,
        SUFFIX_SQL@,
        key_suffix(uid),
        count,
    ))
}

/// Region and level of one uid. Storage that lacks only this uid tells a
/// known account without a level row from an unknown one.
pub fn load_sdk_level(conn: &rusqlite::Connection, uid: &str) -> (r: Result<
    (String, String),
    TriageError,
>)
    ensures
        exists|levels: TextAnswer, count: Option<i64>| #[trigger]
            level_given(*conn, uid@, levels, count) && pair_outcome(r) == level_outcome(
                levels,
                uid@,
                seen(count),
            ),
{
    let levels = query_text(conn, VALUE_SQL, Some(LEVEL_KEY));
    let ghost answer = levels@;
    match level_verdict(levels, uid) {
        Ok(LevelFound::Level(region, level)) => {
            assert(level_given(*conn, uid@, answer, None));
            Ok((region, level))
        },
        Ok(LevelFound::Unlisted(known_accounts)) => {
            let uid_seen_elsewhere = has_account_data(conn, uid);
            proof {
                let count = choose|count: Option<i64>| #[trigger]
                    gave_number(*conn, SUFFIX_SQL@, key_suffix(uid@), count) && uid_seen_elsewhere
                        == seen(count);
                assert(level_given(*conn, uid@, answer, count));
            }
            Err(TriageError::AccountNotInLevelData { known_accounts, uid_seen_elsewhere })
        },
        Err(err) => {
            assert(level_given(*conn, uid@, answer, None));
            Err(err)
        },
    }
}

/// The account at a position of the level data, counted from one. Positions
/// out of range are refused like an unknown uid.
pub open spec fn index_outcome(levels: TextAnswer, index: nat) -> Result<AccountView, Reason> {
    match value_outcome(levels, LEVEL_KEY@) {
        Err(err) => Err(err),
        Ok(body) => match parsed_text(body) {
            Some(doc) => match stored_accounts(doc) {
                Some(accounts) => if 0 < index <= accounts.len() {
                    Ok(accounts[index - 1])
                } else {
                    Err(Reason::UnknownUid)
                },
                None => Err(Reason::Malformed(LEVEL_KEY@)),
            },
            None => Err(Reason::Malformed(LEVEL_KEY@)),
        },
    }
}

/// Picks the account at a position.
pub fn index_verdict(levels: TextRead, index: usize) -> (r: Result<SdkAccount, TriageError>)
    ensures
        account_outcome(r) == index_outcome(levels@, index as nat),
{
    let body = match value_verdict(levels, LEVEL_KEY) {
        Ok(body) => body,
        Err(err) => {
            return Err(err);
        },
    };
    match parse_sdk_accounts(body.as_str()) {
        Some(accounts) => {
            let mut accounts = accounts;
            if index == 0 || index > accounts.len() {
                return Err(TriageError::UnknownUid);
            }
            Ok(accounts.remove(index - 1))
        },
        None => Err(TriageError::Malformed(LEVEL_KEY)),
    }
}

/// One account of the level data by position, counted from one.
pub fn load_sdk_level_by_index(conn: &rusqlite::Connection, index: usize) -> (r: Result<
    SdkAccount,
    TriageError,
>)
    ensures
        exists|levels: TextAnswer| #[trigger]
            gave_text(*conn, VALUE_SQL@, Some(LEVEL_KEY@), levels) && account_outcome(r)
                == index_outcome(levels, index as nat),
{
    let levels = query_text(conn, VALUE_SQL, Some(LEVEL_KEY));
    index_verdict(levels, index)
}

/// The finished quests of one uid, if readable.
pub open spec fn quest_outcome(quests: TextAnswer, uid: Seq<char>) -> Option<nat> {
    match quests {
        TextAnswer::Found(body) => match parsed_text(body) {
            Some(doc) => quest_count(doc, uid),
            None => None,
        },
        _ => None,
    }
}

/// Counts the finished quests of one uid.
pub fn quest_verdict(quests: TextRead, uid: &str) -> (r: Option<usize>)
    ensures
        opt_nat(r) == quest_outcome(quests@, uid@),
{
    match quests {
        TextRead::Found(body) => parse_quest_count(body.as_str(), uid),
        _ => None,
    }
}

/// The finished quests of one uid. Their absence never blocks the rest.
pub fn load_quest_count(conn: &rusqlite::Connection, uid: &str) -> (r: Option<usize>)
    ensures
        exists|quests: TextAnswer| #[trigger]
            gave_text(*conn, VALUE_SQL@, Some(QUEST_KEY@), quests) && opt_nat(r) == quest_outcome(
                quests,
                uid@,
            ),
{
    let quests = query_text(conn, VALUE_SQL, Some(QUEST_KEY));
    quest_verdict(quests, uid)
}

/// What is told of each rejection, word for word: keys and counts, never a
/// value.
pub proof fn rejections_are_worded(err: TriageError, r: String)
    requires
        call_ensures(TriageError::message, (&err,), r),
    ensures
        match err {
            TriageError::Unopenable => r@ == "snapshot is not a readable SQLite database"@,
            TriageError::MissingTable => r@ == "LocalStorage table missing"@,
            TriageError::BadSchema => r@ == "LocalStorage table has unexpected columns"@,
            TriageError::Corrupt => r@ == "snapshot failed integrity check"@,
            TriageError::MissingKey(key) => r@ == "required key `"@ + key@ + "` missing"@,
            TriageError::Malformed(key) => r@ == "key `"@ + key@ + "` has unexpected shape"@,
            TriageError::UnknownUid => r@ == "no usable account uid found"@,
            TriageError::AccountNotInLevelData { known_accounts, uid_seen_elsewhere: true } => r@
                == "account has no level data yet ("@ + crate::text::decimal(known_accounts as nat)
                + " other account(s) stored)"@,
            TriageError::AccountNotInLevelData { known_accounts, uid_seen_elsewhere: false } => r@
                == "logged-in account has no level data ("@ + crate::text::decimal(
                known_accounts as nat,
            ) + " account(s) stored)"@,
        },
{
}

/// Two rejections are the same exactly when their kind is, with the key and
/// the counts where there are any.
pub proof fn same_reasons_are_equal(a: TriageError, b: TriageError, r: bool)
    requires
        call_ensures(TriageError::same_reason, (&a, &b), r),
    ensures
        r <==> match (a, b) {
            (TriageError::Unopenable, TriageError::Unopenable) => true,
            (TriageError::MissingTable, TriageError::MissingTable) => true,
            (TriageError::BadSchema, TriageError::BadSchema) => true,
            (TriageError::Corrupt, TriageError::Corrupt) => true,
            (TriageError::MissingKey(k), TriageError::MissingKey(l)) => k@ == l@,
            (TriageError::Malformed(k), TriageError::Malformed(l)) => k@ == l@,
            (TriageError::UnknownUid, TriageError::UnknownUid) => true,
            (
                TriageError::AccountNotInLevelData { known_accounts: m, uid_seen_elsewhere: x },
                TriageError::AccountNotInLevelData { known_accounts: n, uid_seen_elsewhere: y },
            ) => m == n && x == y,
            _ => false,
        },
{
}

/// The columns are right exactly when two of them are called key and value, in
/// any ASCII case, and declared as text, in any ASCII case. No columns mean no
/// table, and a failed question means what failed.
pub proof fn columns_are_judged(columns: PairsRead, r: Result<(), TriageError>)
    requires
        call_ensures(schema_verdict, (&columns,), r),
    ensures
        columns is NotADatabase ==> r is Err && r->Err_0 is Unopenable,
        columns is Failed ==> r is Err && r->Err_0 is MissingTable,
        columns is BadRow ==> r is Err && r->Err_0 is BadSchema,
        columns matches PairsRead::Found(list) ==> {
            &&& list@.len() == 0 ==> r is Err && r->Err_0 is MissingTable
            &&& list@.len() > 0 && r is Err ==> r->Err_0 is BadSchema
            &&& list@.len() > 0 ==> (r is Ok <==> (exists|i: int|
                0 <= i < list@.len() && crate::text::lowered((#[trigger] list@[i]).0@) == "key"@
                    && crate::text::lowered(list@[i].1@) == "text"@) && (exists|i: int|
                0 <= i < list@.len() && crate::text::lowered((#[trigger] list@[i]).0@) == "value"@
                    && crate::text::lowered(list@[i].1@) == "text"@))
        },
{
    if let PairsRead::Found(list) = columns {
        let all = crate::db::accounts::pair_views(list@);
        assert forall|i: int| 0 <= i < list@.len() implies #[trigger] all[i] == (
            list@[i].0@,
            list@[i].1@,
        ) by {}
        if has_text_column(all, "key"@) {
            let i = choose|i: int|
                0 <= i < all.len() && crate::text::lowered((#[trigger] all[i]).0) == "key"@
                    && crate::text::lowered(all[i].1) == "text"@;
            assert(crate::text::lowered(list@[i].0@) == "key"@);
        }
        if has_text_column(all, "value"@) {
            let i = choose|i: int|
                0 <= i < all.len() && crate::text::lowered((#[trigger] all[i]).0) == "value"@
                    && crate::text::lowered(all[i].1) == "text"@;
            assert(crate::text::lowered(list@[i].0@) == "value"@);
        }
        if exists|i: int|
            0 <= i < list@.len() && crate::text::lowered((#[trigger] list@[i]).0@) == "key"@
                && crate::text::lowered(list@[i].1@) == "text"@ {
            let i = choose|i: int|
                0 <= i < list@.len() && crate::text::lowered((#[trigger] list@[i]).0@) == "key"@
                    && crate::text::lowered(list@[i].1@) == "text"@;
            assert(crate::text::lowered(all[i].0) == "key"@);
        }
        if exists|i: int|
            0 <= i < list@.len() && crate::text::lowered((#[trigger] list@[i]).0@) == "value"@
                && crate::text::lowered(list@[i].1@) == "text"@ {
            let i = choose|i: int|
                0 <= i < list@.len() && crate::text::lowered((#[trigger] list@[i]).0@) == "value"@
                    && crate::text::lowered(list@[i].1@) == "text"@;
            assert(crate::text::lowered(all[i].0) == "value"@);
        }
    }
}

/// A snapshot is whole exactly when the integrity check says ok; whatever else
/// it says, and where it says nothing, the snapshot is corrupt.
pub proof fn only_ok_is_whole(status: TextRead, r: Result<(), TriageError>)
    requires
        call_ensures(integrity_verdict, (&status,), r),
    ensures
        r is Ok <==> status is Found && status->Found_0@ == "ok"@,
        r is Err ==> r->Err_0 is Corrupt,
{
}

/// A key's value is what was found under it; a missing row means a missing
/// key, and a failure an unexpected shape, each under the key's name.
pub proof fn values_are_what_was_found(
    value: TextRead,
    key: &'static str,
    r: Result<String, TriageError>,
)
    requires
        call_ensures(value_verdict, (value, key), r),
    ensures
        value matches TextRead::Found(body) ==> r is Ok && r->Ok_0@ == body@,
        value is Absent ==> r is Err && r->Err_0 is MissingKey && r->Err_0->MissingKey_0@ == key@,
        value is Failed ==> r is Err && r->Err_0 is Malformed && r->Err_0->Malformed_0@ == key@,
{
}

/// The login mark is a number or a text that is not blank; anything else that
/// was found means no uid.
pub proof fn marks_are_scalars(mark: TextRead, scalar: Option<Seq<char>>, r: Result<
    String,
    TriageError,
>)
    requires
        call_ensures(mark_verdict, (mark,), r),
        mark matches TextRead::Found(body) ==> scalar == scalar_text(body@),
    ensures
        mark is Found && scalar is Some ==> r is Ok && r->Ok_0@ == scalar->Some_0,
        mark is Found && scalar is None ==> r is Err && r->Err_0 is UnknownUid,
        mark is Absent ==> r is Err && r->Err_0@ == Reason::MissingKey("RecentlyLoginUID"@),
        mark is Failed ==> r is Err && r->Err_0@ == Reason::Malformed("RecentlyLoginUID"@),
{
}

/// An override that is not blank is the uid, without the white space around
/// it; without one it is the login mark's.
pub proof fn overrides_are_trimmed(uid_override: Option<Seq<char>>, mark: TextAnswer)
    ensures
        uid_override matches Some(uid) ==> (crate::text::trimmed(uid).len() > 0 ==> uid_outcome(
            uid_override,
            mark,
        ) == Ok::<Seq<char>, Reason>(crate::text::trimmed(uid))),
        uid_override matches Some(uid) ==> (crate::text::trimmed(uid).len() == 0 ==> uid_outcome(
            uid_override,
            mark,
        ) == uid_outcome(None, mark)),
        mark matches TextAnswer::Found(body) ==> uid_outcome(None, mark) == match scalar_text(
            body,
        ) {
            Some(uid) => Ok(uid),
            None => Err(Reason::UnknownUid),
        },
        mark is Absent ==> uid_outcome(None, mark) == Err::<Seq<char>, Reason>(
            Reason::MissingKey("RecentlyLoginUID"@),
        ),
        mark is Failed ==> uid_outcome(None, mark) == Err::<Seq<char>, Reason>(
            Reason::Malformed("RecentlyLoginUID"@),
        ),
{
}

/// The level of a uid is that of its first account in the level data; where it
/// has none, all the entries are counted, those of no account too.
pub proof fn levels_are_of_the_first_account(
    levels: TextRead,
    doc: Tree,
    entries: Seq<Tree>,
    uid: &str,
    r: Result<LevelFound, TriageError>,
)
    requires
        call_ensures(level_verdict, (levels, uid), r),
        levels matches TextRead::Found(body) && parsed_text(body@) == Some(doc),
        doc.has("Content"@, Tree::Array(entries)),
    ensures
        ({
            let accounts = accounts_of(entries);
            &&& r is Ok
            &&& r matches Ok(LevelFound::Level(region, level)) ==> exists|i: int|
                0 <= i < accounts.len() && (#[trigger] accounts[i]) == (AccountView {
                    uid: uid@,
                    region: region@,
                    level: level@,
                }) && forall|j: int| 0 <= j < i ==> (#[trigger] accounts[j]).uid != uid@
            &&& r matches Ok(LevelFound::Unlisted(count)) ==> count == entries.len() && forall|j: int|
                0 <= j < accounts.len() ==> (#[trigger] accounts[j]).uid != uid@
        }),
{
    first_is_listed_first(accounts_of(entries), uid@);
}

proof fn first_is_listed_first(accounts: Seq<AccountView>, uid: Seq<char>)
    ensures
        match first_account(accounts, uid) {
            Some(account) => exists|i: int|
                0 <= i < accounts.len() && #[trigger] accounts[i] == account && account.uid == uid
                    && forall|j: int| 0 <= j < i ==> (#[trigger] accounts[j]).uid != uid,
            None => forall|j: int| 0 <= j < accounts.len() ==> (#[trigger] accounts[j]).uid != uid,
        },
    decreases accounts.len(),
{
    if accounts.len() > 0 && accounts[0].uid != uid {
        let rest = accounts.skip(1);
        first_is_listed_first(rest, uid);
        match first_account(rest, uid) {
            Some(account) => {
                let i = choose|i: int|
                    0 <= i < rest.len() && #[trigger] rest[i] == account && account.uid == uid
                        && forall|j: int| 0 <= j < i ==> (#[trigger] rest[j]).uid != uid;
                assert(accounts[i + 1] == account);
                assert forall|j: int| 0 <= j < i + 1 implies (#[trigger] accounts[j]).uid != uid by {
                    if j > 0 {
                        assert(rest[j - 1] == accounts[j]);
                    }
                }
            },
            None => {
                assert forall|j: int| 0 <= j < accounts.len() implies (#[trigger] accounts[j]).uid
                    != uid by {
                    if j > 0 {
                        assert(rest[j - 1] == accounts[j]);
                    }
                }
            },
        }
    } else if accounts.len() > 0 {
        assert(accounts[0].uid == uid);
    }
}

/// Level data that are missing, no document, or without a list are told as
/// such.
pub proof fn level_data_have_a_shape(
    levels: TextRead,
    uid: &str,
    index: usize,
    r: Result<LevelFound, TriageError>,
    s: Result<SdkAccount, TriageError>,
)
    requires
        call_ensures(level_verdict, (levels, uid), r),
        call_ensures(index_verdict, (levels, index), s),
        levels matches TextRead::Found(body) ==> !(parsed_text(body@) matches Some(doc)
            && doc.member("Content"@) matches Some(Tree::Array(_))),
    ensures
        r is Err && s is Err,
        levels is Absent ==> r->Err_0@ == Reason::MissingKey("SdkLevelData"@) && s->Err_0@
            == Reason::MissingKey("SdkLevelData"@),
        levels !is Absent ==> r->Err_0@ == Reason::Malformed("SdkLevelData"@) && s->Err_0@
            == Reason::Malformed("SdkLevelData"@),
{
}

/// A uid's level is its account's region and level; where it has none, the
/// number of entries and whether its keys were seen elsewhere are told.
pub proof fn unlisted_uids_are_counted(
    levels: TextAnswer,
    uid: Seq<char>,
    elsewhere: bool,
    count: Option<i64>,
)
    ensures
        level_of(levels, uid) matches Ok((n, None)) ==> level_outcome(levels, uid, elsewhere)
            == Err::<(Seq<char>, Seq<char>), Reason>(
            Reason::AccountNotInLevelData { known_accounts: n, uid_seen_elsewhere: elsewhere },
        ),
        level_of(levels, uid) matches Ok((n, Some(account))) ==> level_outcome(
            levels,
            uid,
            elsewhere,
        ) == Ok::<(Seq<char>, Seq<char>), Reason>((account.region, account.level)),
        level_of(levels, uid) matches Err(err) ==> level_outcome(levels, uid, elsewhere) == Err::<
            (Seq<char>, Seq<char>),
            Reason,
        >(err),
        seen(count) <==> count is Some && count->Some_0 >= 1,
{
}

/// A position picks the account at that place of the level data, counted from
/// one; zero and anything past the end are refused.
pub proof fn positions_count_from_one(
    levels: TextRead,
    doc: Tree,
    entries: Seq<Tree>,
    index: usize,
    r: Result<SdkAccount, TriageError>,
)
    requires
        call_ensures(index_verdict, (levels, index), r),
        levels matches TextRead::Found(body) && parsed_text(body@) == Some(doc),
        doc.has("Content"@, Tree::Array(entries)),
    ensures
        ({
            let accounts = accounts_of(entries);
            &&& r is Ok <==> 1 <= index <= accounts.len()
            &&& r is Ok ==> r->Ok_0.uid@ == accounts[index - 1].uid && r->Ok_0.region@
                == accounts[index - 1].region && r->Ok_0.level@ == accounts[index - 1].level
            &&& r is Err ==> r->Err_0 is UnknownUid
        }),
{
}

/// The quests of a uid are counted where a document was found, and are unknown
/// else.
pub proof fn quests_need_a_document(quests: TextRead, uid: &str, r: Option<usize>)
    requires
        call_ensures(quest_verdict, (quests, uid), r),
    ensures
        quests is Absent || quests is Failed ==> r is None,
        quests matches TextRead::Found(body) ==> (parsed_text(body@) is None ==> r is None),
        quests matches TextRead::Found(body) ==> (parsed_text(body@) is Some ==> opt_nat(r)
            == quest_count(parsed_text(body@)->Some_0, uid@)),
{
}

/// The checks put their questions to the connection in these words, and judge
/// what it gave.
pub proof fn checks_ask_the_connection(
    conn: &rusqlite::Connection,
    schema: Result<(), TriageError>,
    integrity: Result<(), TriageError>,
    key: &'static str,
    value: Result<String, TriageError>,
)
    requires
        call_ensures(check_schema, (conn,), schema),
        call_ensures(check_integrity, (conn,), integrity),
        call_ensures(get_value, (conn, key), value),
    ensures
        exists|columns: PairsAnswer| #[trigger]
            gave_pairs(*conn, "PRAGMA table_info(LocalStorage)"@, 1, 2, columns) && (schema is Ok
                <==> schema_outcome(columns) is Ok) && (schema is Err ==> schema_outcome(columns)
                == Err::<(), Reason>(schema->Err_0@)),
        exists|status: TextAnswer| #[trigger]
            gave_text(*conn, "PRAGMA quick_check"@, None, status) && (integrity is Ok <==> status
                == TextAnswer::Found("ok"@)),
        exists|found: TextAnswer| #[trigger]
            gave_text(
                *conn,
                "SELECT value FROM LocalStorage WHERE key = ?1"@,
                Some(key@),
                found,
            ) && (value is Ok ==> found == TextAnswer::Found(value->Ok_0@)) && (value is Err
                ==> value->Err_0@ == if found is Absent {
                Reason::MissingKey(key@)
            } else {
                Reason::Malformed(key@)
            }) && (value is Err ==> found !is Found),
{
    let columns = choose|columns: PairsAnswer| #[trigger]
        gave_pairs(*conn, SCHEMA_SQL@, 1, 2, columns) && unit_outcome(schema) == schema_outcome(
            columns,
        );
    assert(gave_pairs(*conn, "PRAGMA table_info(LocalStorage)"@, 1, 2, columns));
    let status = choose|status: TextAnswer| #[trigger]
        gave_text(*conn, INTEGRITY_SQL@, None, status) && unit_outcome(integrity)
            == integrity_outcome(status);
    assert(gave_text(*conn, "PRAGMA quick_check"@, None, status));
    let found = choose|found: TextAnswer| #[trigger]
        gave_text(*conn, VALUE_SQL@, Some(key@), found) && text_outcome(value) == value_outcome(
            found,
            key@,
        );
    assert(gave_text(
        *conn,
        "SELECT value FROM LocalStorage WHERE key = ?1"@,
        Some(key@),
        found,
    ));
}

/// The live login is asked for under its key, and known exactly when the
/// answer is a number or a text; a uid that was asked for needs no question.
pub proof fn logins_are_asked_for(
    conn: &rusqlite::Connection,
    uid_override: Option<&str>,
    live: Option<String>,
    uid: Result<String, TriageError>,
)
    requires
        call_ensures(peek_live_uid, (conn,), live),
        call_ensures(load_uid, (conn, uid_override), uid),
    ensures
        exists|mark: TextAnswer| #[trigger]
            gave_text(
                *conn,
                "SELECT value FROM LocalStorage WHERE key = ?1"@,
                Some("RecentlyLoginUID"@),
                mark,
            ) && (live is Some <==> mark is Found && scalar_text(mark->Found_0) is Some) && (
            live matches Some(live) ==> scalar_text(mark->Found_0) == Some(live@)),
        uid_override matches Some(asked) ==> (crate::text::trimmed(asked@).len() > 0 ==> uid is Ok
            && uid->Ok_0@ == crate::text::trimmed(asked@)),
        uid_override is None || crate::text::trimmed(uid_override->Some_0@).len() == 0 ==> exists|
            mark: TextAnswer,
        | #[trigger]
            gave_text(
                *conn,
                "SELECT value FROM LocalStorage WHERE key = ?1"@,
                Some("RecentlyLoginUID"@),
                mark,
            ) && text_outcome(uid) == uid_outcome(None, mark),
{
    let mark = choose|mark: TextAnswer| #[trigger]
        gave_text(*conn, VALUE_SQL@, Some(UID_KEY@), mark) && opt_view(live) == match uid_outcome(
            None,
            mark,
        ) {
            Ok(uid) => Some(uid),
            Err(_) => None,
        };
    assert(gave_text(
        *conn,
        "SELECT value FROM LocalStorage WHERE key = ?1"@,
        Some("RecentlyLoginUID"@),
        mark,
    ));
}

/// The level, the account at a position and the quests are asked for under
/// their keys, and the keys of an account by its suffix.
pub proof fn accounts_are_asked_for(
    conn: &rusqlite::Connection,
    uid: &str,
    index: usize,
    level: Result<(String, String), TriageError>,
    account: Result<SdkAccount, TriageError>,
    quests: Option<usize>,
    elsewhere: bool,
)
    requires
        call_ensures(load_sdk_level, (conn, uid), level),
        call_ensures(load_sdk_level_by_index, (conn, index), account),
        call_ensures(load_quest_count, (conn, uid), quests),
        call_ensures(has_account_data, (conn, uid), elsewhere),
    ensures
        exists|levels: TextAnswer, count: Option<i64>| #[trigger]
            level_given(*conn, uid@, levels, count) && match (level, level_of(levels, uid@)) {
                (Ok((region, number)), Ok((_, Some(account)))) => region@ == account.region
                    && number@ == account.level,
                (Err(err), Ok((n, None))) => err@ == (Reason::AccountNotInLevelData {
                    known_accounts: n,
                    uid_seen_elsewhere: count is Some && count->Some_0 > 0,
                }),
                (Err(err), Err(reason)) => err@ == reason,
                _ => false,
            },
        exists|levels: TextAnswer| #[trigger]
            gave_text(
                *conn,
                "SELECT value FROM LocalStorage WHERE key = ?1"@,
                Some("SdkLevelData"@),
                levels,
            ) && match (account, index_outcome(levels, index as nat)) {
                (Ok(account), Ok(view)) => account@ == view,
                (Err(err), Err(reason)) => err@ == reason,
                _ => false,
            },
        exists|found: TextAnswer| #[trigger]
            gave_text(
                *conn,
                "SELECT value FROM LocalStorage WHERE key = ?1"@,
                Some("UserFinishedQuests"@),
                found,
            ) && opt_nat(quests) == quest_outcome(found, uid@),
        exists|count: Option<i64>| #[trigger]
            gave_number(
                *conn,
                "SELECT COUNT(*) FROM LocalStorage WHERE key LIKE '%' || ?1"@,
                "_"@ + uid@,
                count,
            ) && (elsewhere <==> count is Some && count->Some_0 > 0),
        forall|levels: TextAnswer, count: Option<i64>| #[trigger]
            level_given(*conn, uid@, levels, count) ==> gave_text(
                *conn,
                "SELECT value FROM LocalStorage WHERE key = ?1"@,
                Some("SdkLevelData"@),
                levels,
            ) && (level_of(levels, uid@) matches Ok((_, None)) ==> gave_number(
                *conn,
                "SELECT COUNT(*) FROM LocalStorage WHERE key LIKE '%' || ?1"@,
                "_"@ + uid@,
                count,
            )),
{
    let (levels, count) = choose|levels: TextAnswer, count: Option<i64>| #[trigger]
        level_given(*conn, uid@, levels, count) && pair_outcome(level) == level_outcome(
            levels,
            uid@,
            seen(count),
        );
    assert(level_given(*conn, uid@, levels, count));
    let listed = choose|levels: TextAnswer| #[trigger]
        gave_text(*conn, VALUE_SQL@, Some(LEVEL_KEY@), levels) && account_outcome(account)
            == index_outcome(levels, index as nat);
    assert(gave_text(
        *conn,
        "SELECT value FROM LocalStorage WHERE key = ?1"@,
        Some("SdkLevelData"@),
        listed,
    ));
    let found = choose|found: TextAnswer| #[trigger]
        gave_text(*conn, VALUE_SQL@, Some(QUEST_KEY@), found) && opt_nat(quests) == quest_outcome(
            found,
            uid@,
        );
    assert(gave_text(
        *conn,
        "SELECT value FROM LocalStorage WHERE key = ?1"@,
        Some("UserFinishedQuests"@),
        found,
    ));
    let n = choose|n: Option<i64>| #[trigger]
        gave_number(*conn, SUFFIX_SQL@, key_suffix(uid@), n) && elsewhere == seen(n);
    assert(gave_number(
        *conn,
        "SELECT COUNT(*) FROM LocalStorage WHERE key LIKE '%' || ?1"@,
        "_"@ + uid@,
        n,
    ));
}

} // verus!
