//! Whole snapshots: the triage of one from end to end, the listing of its
//! accounts, and the smaller databases beside it.
use crate::db::accounts::{
    account_views, first_name, last_login_of, name_in_rows, named, nickname_for, nicknames_of,
    parse_sdk_accounts, parse_version, read_last_login, read_nicknames, shown, stored_accounts,
    version_text, AccountView, SdkAccount,
};
use crate::db::query::{
    gave_pairs, gave_text, gave_texts, query_text, query_texts, PairsAnswer, TextAnswer, TextRead,
    INTEGRITY_SQL, SCHEMA_SQL, TELEMETRY_SQL, VALUE_SQL, VERSION_SQL,
};
use crate::db::triage::{
    check_integrity, check_schema, get_value, index_outcome, integrity_outcome, level_given,
    level_outcome, load_quest_count, load_sdk_level, load_sdk_level_by_index, load_uid,
    quest_outcome, schema_outcome, seen, uid_outcome, value_outcome, InfoView, PlayerInfo, Reason,
    TriageError, LEVEL_KEY, QUEST_KEY, UID_KEY,
};
use crate::json::parsed_text;
use crate::text::{filled, opt_str, opt_view, same};
use vstd::prelude::*;

verus! {

/// How many telemetry rows are asked for.
pub const MAX_TELEMETRY_ROWS: i64 = 500;

/// What a snapshot answered to the questions of its triage.
pub struct Answers {
    pub columns: PairsAnswer,
    pub status: TextAnswer,
    /// The login mark, asked for the live login.
    pub live: TextAnswer,
    /// The login mark, asked for the account.
    pub mark: TextAnswer,
    pub levels: TextAnswer,
    /// The count of the uid's keys.
    pub count: Option<i64>,
    pub quests: TextAnswer,
}

/// What is asked of a snapshot: whose account. A position wins over an
/// override, and an override over the login mark.
pub struct Pins {
    pub uid_override: Option<Seq<char>>,
    pub account_index: Option<nat>,
}

impl Answers {
    /// The account that the answers settle on.
    pub open spec fn account(self, pins: Pins) -> Result<AccountView, Reason> {
        match pins.account_index {
            Some(index) => index_outcome(self.levels, index),
            None => match uid_outcome(pins.uid_override, self.mark) {
                Err(err) => Err(err),
                Ok(uid) => match level_outcome(self.levels, uid, seen(self.count)) {
                    Err(err) => Err(err),
                    Ok((region, level)) => Ok(AccountView { uid, region, level }),
                },
            },
        }
    }

    /// What the triage comes to: the first check that fails decides.
    pub open spec fn outcome(self, pins: Pins) -> Result<(InfoView, Option<Seq<char>>), Reason> {
        match schema_outcome(self.columns) {
            Err(err) => Err(err),
            Ok(_) => match integrity_outcome(self.status) {
                Err(err) => Err(err),
                Ok(_) => match self.account(pins) {
                    Err(err) => Err(err),
                    Ok(account) => Ok(
                        (
                            InfoView {
                                uid: account.uid,
                                union_level: account.level,
                                region: account.region,
                                quests_done: quest_outcome(self.quests, account.uid),
                                game_version: None,
                                display_name: None,
                            },
                            match uid_outcome(None, self.live) {
                                Ok(uid) => Some(uid),
                                Err(_) => None,
                            },
                        ),
                    ),
                },
            },
        }
    }

    /// Holds when a connection gave the answers that settle the account.
    pub open spec fn account_given(self, conn: rusqlite::Connection, pins: Pins) -> bool {
        match pins.account_index {
            Some(_) => gave_text(conn, VALUE_SQL@, Some(LEVEL_KEY@), self.levels),
            None => {
                &&& (filled(pins.uid_override) is None ==> gave_text(
                    conn,
                    VALUE_SQL@,
                    Some(UID_KEY@),
                    self.mark,
                ))
                &&& (uid_outcome(pins.uid_override, self.mark) matches Ok(uid) ==> level_given(
                    conn,
                    uid,
                    self.levels,
                    self.count,
                ))
            },
        }
    }

    /// Holds when a connection gave these answers, as far as the triage got.
    pub open spec fn given(self, conn: rusqlite::Connection, pins: Pins) -> bool {
        &&& gave_pairs(conn, SCHEMA_SQL@, 1, 2, self.columns)
        &&& (schema_outcome(self.columns) is Ok ==> gave_text(
            conn,
            INTEGRITY_SQL@,
            None,
            self.status,
        ))
        &&& (schema_outcome(self.columns) is Ok && integrity_outcome(self.status) is Ok ==> {
            &&& gave_text(conn, VALUE_SQL@, Some(UID_KEY@), self.live)
            &&& self.account_given(conn, pins)
            &&& (self.account(pins) is Ok ==> gave_text(
                conn,
                VALUE_SQL@,
                Some(QUEST_KEY@),
                self.quests,
            ))
        })
    }
}

/// The checks come in order: a file that is no database is told before its
/// table, a table of the wrong shape before corruption, and corruption before
/// anything about accounts.
pub proof fn first_failure_decides(answers: Answers, pins: Pins)
    ensures
        answers.columns is NotADatabase ==> answers.outcome(pins) == Err::<
            (InfoView, Option<Seq<char>>),
            Reason,
        >(Reason::Unopenable),
        schema_outcome(answers.columns) matches Err(err) ==> answers.outcome(pins) == Err::<
            (InfoView, Option<Seq<char>>),
            Reason,
        >(err),
        schema_outcome(answers.columns) is Ok && integrity_outcome(answers.status) is Err
            ==> answers.outcome(pins) == Err::<(InfoView, Option<Seq<char>>), Reason>(
            Reason::Corrupt,
        ),
        answers.outcome(pins) is Ok ==> schema_outcome(answers.columns) is Ok
            && integrity_outcome(answers.status) is Ok,
{
}

/// A position wins over an override and over the login mark: with one, what
/// comes out does not depend on them.
pub proof fn position_wins(
    a: Answers,
    b: Answers,
    index: nat,
    first: Option<Seq<char>>,
    second: Option<Seq<char>>,
)
    requires
        a.columns == b.columns,
        a.status == b.status,
        a.live == b.live,
        a.levels == b.levels,
        a.quests == b.quests,
    ensures
        a.outcome(Pins { uid_override: first, account_index: Some(index) }) == b.outcome(
            Pins { uid_override: second, account_index: Some(index) },
        ),
{
}

/// An override that is not blank wins over the login mark: with one, the
/// account does not depend on the mark. A blank one counts for nothing.
pub proof fn override_wins(a: Answers, b: Answers, uid: Seq<char>)
    requires
        a.levels == b.levels,
        a.count == b.count,
    ensures
        crate::text::trimmed(uid).len() > 0 ==> a.account(
            Pins { uid_override: Some(uid), account_index: None },
        ) == b.account(Pins { uid_override: Some(uid), account_index: None }),
        crate::text::trimmed(uid).len() == 0 ==> a.account(
            Pins { uid_override: Some(uid), account_index: None },
        ) == a.account(Pins { uid_override: None, account_index: None }),
{
}

/// The quests never decide whether a snapshot counts, nor anything but their
/// own number.
pub proof fn quests_never_block(a: Answers, b: Answers, pins: Pins)
    requires
        b == (Answers { quests: b.quests, ..a }),
    ensures
        match (a.outcome(pins), b.outcome(pins)) {
            (Ok((x, l)), Ok((y, m))) => l == m && y == (InfoView {
                quests_done: y.quests_done,
                ..x
            }),
            (Err(x), Err(y)) => x == y,
            _ => false,
        },
{
}

/// A rejection never tells a value: the keys it names are the fixed ones of
/// the login mark and the level data, whatever the snapshot held.
pub proof fn rejections_name_fixed_keys(answers: Answers, pins: Pins)
    ensures
        answers.outcome(pins) matches Err(Reason::MissingKey(key)) ==> key == UID_KEY@ || key
            == LEVEL_KEY@,
        answers.outcome(pins) matches Err(Reason::Malformed(key)) ==> key == UID_KEY@ || key
            == LEVEL_KEY@,
{
}

/// What is asked of a snapshot, as data.
pub open spec fn pins(uid_override: Option<&str>, account_index: Option<usize>) -> Pins {
    Pins {
        uid_override: opt_str(uid_override),
        account_index: crate::db::triage::opt_nat(account_index),
    }
}

/// An outcome with an account and the live login.
pub open spec fn info_outcome(r: Result<(PlayerInfo, Option<String>), TriageError>) -> Result<
    (InfoView, Option<Seq<char>>),
    Reason,
> {
    match r {
        Ok((info, live)) => Ok((info@, opt_view(live))),
        Err(err) => Err(err@),
    }
}

/// Finds the account of a checked snapshot.
fn load_account(
    conn: &rusqlite::Connection,
    uid_override: Option<&str>,
    account_index: Option<usize>,
) -> (r: Result<SdkAccount, TriageError>)
    ensures
        exists|a: Answers| #[trigger]
            a.account_given(*conn, pins(uid_override, account_index))
                && crate::db::triage::account_outcome(r) == a.account(
                pins(uid_override, account_index),
            ),
{
    let ghost asked = pins(uid_override, account_index);
    let ghost none = Answers {
        columns: PairsAnswer::Failed,
        status: TextAnswer::Failed,
        live: TextAnswer::Failed,
        mark: TextAnswer::Failed,
        levels: TextAnswer::Failed,
        count: None,
        quests: TextAnswer::Failed,
    };
    match account_index {
        Some(index) => {
            let r = load_sdk_level_by_index(conn, index);
            proof {
                let levels = choose|levels: TextAnswer| #[trigger]
                    gave_text(*conn, VALUE_SQL@, Some(LEVEL_KEY@), levels)
                        && crate::db::triage::account_outcome(r) == index_outcome(
                        levels,
                        index as nat,
                    );
                assert((Answers { levels, ..none }).account_given(*conn, asked));
            }
            r
        },
        None => {
            let loaded = load_uid(conn, uid_override);
            let ghost mark = if filled(asked.uid_override) is Some {
                TextAnswer::Failed
            } else {
                choose|mark: TextAnswer| #[trigger]
                    gave_text(*conn, VALUE_SQL@, Some(UID_KEY@), mark)
                        && crate::db::triage::text_outcome(loaded) == uid_outcome(None, mark)
            };
            let uid = match loaded {
                Ok(uid) => uid,
                Err(err) => {
                    assert((Answers { mark, ..none }).account_given(*conn, asked));
                    return Err(err);
                },
            };
            assert(uid_outcome(asked.uid_override, mark) == Ok::<Seq<char>, Reason>(uid@));
            let found = load_sdk_level(conn, uid.as_str());
            proof {
                let (levels, count) = choose|levels: TextAnswer, count: Option<i64>| #[trigger]
                    level_given(*conn, uid@, levels, count) && crate::db::triage::pair_outcome(
                        found,
                    ) == level_outcome(levels, uid@, seen(count));
                assert((Answers { mark, levels, count, ..none }).account_given(*conn, asked));
            }
            match found {
                Ok((region, level)) => Ok(SdkAccount { uid, region, level }),
                Err(err) => Err(err),
            }
        },
    }
}

/// Triage of a private copy, in order: a database at all, table and columns,
/// integrity, required keys and their shapes, a known uid or position. Only then data comes out,
/// and with it the live login, when readable, which no pin changes.
pub fn query_snapshot(
    conn: &rusqlite::Connection,
    uid_override: Option<&str>,
    account_index: Option<usize>,
) -> (r: Result<(PlayerInfo, Option<String>), TriageError>)
    ensures
        exists|a: Answers| #[trigger]
            a.given(*conn, pins(uid_override, account_index)) && info_outcome(r) == a.outcome(
                pins(uid_override, account_index),
            ),
{
    let ghost asked = pins(uid_override, account_index);
    let ghost none = Answers {
        columns: PairsAnswer::Failed,
        status: TextAnswer::Failed,
        live: TextAnswer::Failed,
        mark: TextAnswer::Failed,
        levels: TextAnswer::Failed,
        count: None,
        quests: TextAnswer::Failed,
    };
    let schema = check_schema(conn);
    let ghost columns = choose|columns: PairsAnswer| #[trigger]
        gave_pairs(*conn, SCHEMA_SQL@, 1, 2, columns) && crate::db::triage::unit_outcome(schema)
            == schema_outcome(columns);
    if let Err(err) = schema {
        assert((Answers { columns, ..none }).given(*conn, asked));
        return Err(err);
    }
    let integrity = check_integrity(conn);
    let ghost status = choose|status: TextAnswer| #[trigger]
        gave_text(*conn, INTEGRITY_SQL@, None, status) && crate::db::triage::unit_outcome(integrity)
            == integrity_outcome(status);
    if let Err(err) = integrity {
        assert((Answers { columns, status, ..none }).given(*conn, asked));
        return Err(err);
    }
    let marked = load_uid(conn, None);
    let ghost live = choose|live: TextAnswer| #[trigger]
        gave_text(*conn, VALUE_SQL@, Some(UID_KEY@), live) && crate::db::triage::text_outcome(
            marked,
        ) == uid_outcome(None, live);
    let live_uid: Option<String> = match marked {
        Ok(uid) => Some(uid),
        Err(_) => None,
    };
    let found = load_account(conn, uid_override, account_index);
    let ghost part = choose|a: Answers| #[trigger]
        a.account_given(*conn, asked) && crate::db::triage::account_outcome(found) == a.account(
            asked,
        );
    let ghost known = Answers { columns, status, live, ..part };
    assert(known.account(asked) == part.account(asked));
    let account = match found {
        Ok(account) => account,
        Err(err) => {
            assert(known.given(*conn, asked));
            return Err(err);
        },
    };
    let quests_done: Option<usize> = load_quest_count(conn, account.uid.as_str());
    proof {
        let quests = choose|quests: TextAnswer| #[trigger]
            gave_text(*conn, VALUE_SQL@, Some(QUEST_KEY@), quests) && crate::db::triage::opt_nat(
                quests_done,
            ) == quest_outcome(quests, account.uid@);
        let all = Answers { quests, ..known };
        assert(all.account(asked) == part.account(asked));
        assert(all.given(*conn, asked));
    }
    Ok(
        (
            PlayerInfo {
                uid: account.uid,
                union_level: account.level,
                region: account.region,
                quests_done,
                game_version: None,
                display_name: None,
            },
            live_uid,
        ),
    )
}

/// The version that an answer of the device database gives.
pub open spec fn version_outcome(value: TextAnswer) -> Option<Seq<char>> {
    match value {
        TextAnswer::Found(body) => version_text(body),
        _ => None,
    }
}

/// The game version from a private copy of the device database.
pub fn device_version(conn: &rusqlite::Connection) -> (r: Option<String>)
    ensures
        exists|value: TextAnswer| #[trigger]
            gave_text(*conn, VERSION_SQL@, None, value) && opt_view(r) == version_outcome(value),
{
    match query_text(conn, VERSION_SQL, None) {
        TextRead::Found(body) => parse_version(body.as_str()),
        _ => None,
    }
}

/// The display name that an answer of the telemetry database gives a login.
pub open spec fn name_outcome(rows: Option<Seq<Option<Seq<char>>>>, uid: Seq<char>) -> Option<
    Seq<char>,
> {
    match rows {
        Some(rows) => first_name(rows, uid),
        None => None,
    }
}

/// The display name of one login from a private copy of the telemetry
/// database. Its rows come and go, so that none is found is no failure.
pub fn query_kd_names(conn: &rusqlite::Connection, role_uid: &str) -> (r: Option<String>)
    ensures
        exists|rows: Option<Seq<Option<Seq<char>>>>| #[trigger]
            gave_texts(*conn, TELEMETRY_SQL@, MAX_TELEMETRY_ROWS, rows) && opt_view(r)
                == name_outcome(rows, role_uid@),
{
    match query_texts(conn, TELEMETRY_SQL, MAX_TELEMETRY_ROWS) {
        Some(rows) => name_in_rows(&rows, role_uid),
        None => None,
    }
}

/// One stored account for display. It carries no uid, so that a listing is
/// safe to pass on.
#[derive(Clone, Debug, PartialEq, Eq)]
pub struct StoredAccount {
    /// Position, counted from one, good as a pin within one database.
    pub index: usize,
    pub region: String,
    pub level: String,
    /// Nickname from the launcher's cache, when known: an aid to recognise an
    /// account, never used to match one.
    pub nickname: Option<String>,
    /// Whether the launcher's last-login mark is on this account: a hint, not
    /// the truth about a session.
    pub last_login: bool,
}

/// One stored account, as data.
pub struct ListedView {
    pub index: nat,
    pub region: Seq<char>,
    pub level: Seq<char>,
    pub nickname: Option<Seq<char>>,
    pub last_login: bool,
}

impl View for StoredAccount {
    type V = ListedView;

    open spec fn view(&self) -> ListedView {
        ListedView {
            index: self.index as nat,
            region: self.region@,
            level: self.level@,
            nickname: opt_view(self.nickname),
            last_login: self.last_login,
        }
    }
}

/// What a listing holds.
pub open spec fn listed_views(listing: Seq<StoredAccount>) -> Seq<ListedView> {
    Seq::new(listing.len(), |i: int| listing[i]@)
}

/// What the launcher's cache adds to a listing.
pub struct CacheView {
    pub nicknames: Map<Seq<char>, Seq<char>>,
    pub last_login: Option<Seq<char>>,
}

/// What the text of the launcher's cache adds to a listing; nothing when
/// there is none or it cannot be read.
pub open spec fn cache_view(cache: Option<Seq<char>>) -> CacheView {
    match cache {
        Some(body) => match parsed_text(body) {
            Some(cache) => CacheView {
                nicknames: nicknames_of(cache),
                last_login: last_login_of(cache),
            },
            None => CacheView { nicknames: Map::empty(), last_login: None },
        },
        None => CacheView { nicknames: Map::empty(), last_login: None },
    }
}

/// The listing of accounts: in the order of the file, numbered from one.
pub open spec fn listing(accounts: Seq<AccountView>, cache: CacheView) -> Seq<ListedView> {
    Seq::new(
        accounts.len(),
        |i: int|
            ListedView {
                index: (i + 1) as nat,
                region: accounts[i].region,
                level: accounts[i].level,
                nickname: if cache.nicknames.dom().contains(accounts[i].uid) {
                    Some(cache.nicknames[accounts[i].uid])
                } else {
                    None
                },
                last_login: cache.last_login == Some(accounts[i].uid),
            },
    )
}

/// A listing never gives a uid away: without a cache it depends on regions
/// and levels alone.
pub proof fn listing_hides_uids(a: Seq<AccountView>, b: Seq<AccountView>)
    requires
        shown(a) == shown(b),
    ensures
        listing(a, cache_view(None)) == listing(b, cache_view(None)),
{
    assert(a.len() == shown(a).len() && b.len() == shown(b).len());
    assert forall|i: int| 0 <= i < a.len() implies (#[trigger] a[i]).region == b[i].region
        && a[i].level == b[i].level by {
        assert(shown(a)[i] == (a[i].region, a[i].level));
        assert(shown(b)[i] == (b[i].region, b[i].level));
    }
    assert(listing(a, cache_view(None)) =~= listing(b, cache_view(None)));
}

/// The position in a listing picks the same account as a pin.
pub proof fn listed_position_picks_the_account(levels: TextAnswer, cache: CacheView, i: int)
    requires
        value_outcome(levels, LEVEL_KEY@) matches Ok(body) && parsed_text(body) matches Some(doc)
            && stored_accounts(doc) matches Some(accounts) && 0 <= i < accounts.len(),
    ensures
        ({
            let accounts = stored_accounts(
                parsed_text(value_outcome(levels, LEVEL_KEY@)->Ok_0)->Some_0,
            )->Some_0;
            index_outcome(levels, listing(accounts, cache)[i].index) == Ok::<AccountView, Reason>(
                accounts[i],
            )
        }),
{
}

/// Lists accounts for display, with what the launcher's cache adds.
pub fn list_stored(accounts: Vec<SdkAccount>, cache: Option<&str>) -> (r: Vec<StoredAccount>)
    ensures
        listed_views(r@) == listing(account_views(accounts@), cache_view(opt_str(cache))),
{
    let ghost added = cache_view(opt_str(cache));
    let nicknames: Vec<(String, String)> = match cache {
        Some(body) => read_nicknames(body),
        None => {
            let none: Vec<(String, String)> = Vec::new();
            assert(crate::db::accounts::pair_views(none@).len() == 0);
            none
        },
    };
    let mark: Option<String> = match cache {
        Some(body) => read_last_login(body),
        None => None,
    };
    let mut list: Vec<StoredAccount> = Vec::new();
    let mut i: usize = 0;
    while i < accounts.len()
        invariant
            i <= accounts@.len(),
            list@.len() == i,
            named(crate::db::accounts::pair_views(nicknames@)) == added.nicknames,
            opt_view(mark) == added.last_login,
            forall|j: int|
                0 <= j < i ==> (#[trigger] list@[j])@ == listing(
                    account_views(accounts@),
                    added,
                )[j],
        decreases accounts@.len() - i,
    {
        let account: &SdkAccount = &accounts[i];
        let last_login: bool = match &mark {
            Some(mark) => same(mark.as_str(), account.uid.as_str()),
            None => false,
        };
        list.push(
            StoredAccount {
                index: i + 1,
                region: account.region.clone(),
                level: account.level.clone(),
                nickname: nickname_for(&nicknames, account.uid.as_str()),
                last_login,
            },
        );
        i += 1;
    }
    assert(listed_views(list@) =~= listing(account_views(accounts@), added));
    list
}

/// What a listing comes to.
pub open spec fn list_outcome(
    columns: PairsAnswer,
    status: TextAnswer,
    levels: TextAnswer,
    cache: CacheView,
) -> Result<Seq<ListedView>, Reason> {
    match schema_outcome(columns) {
        Err(err) => Err(err),
        Ok(_) => match integrity_outcome(status) {
            Err(err) => Err(err),
            Ok(_) => match value_outcome(levels, LEVEL_KEY@) {
                Err(err) => Err(err),
                Ok(body) => match parsed_text(body) {
                    Some(doc) => match stored_accounts(doc) {
                        Some(accounts) => Ok(listing(accounts, cache)),
                        None => Err(Reason::Malformed(LEVEL_KEY@)),
                    },
                    None => Err(Reason::Malformed(LEVEL_KEY@)),
                },
            },
        },
    }
}

/// Holds when a connection gave these answers to the questions of a listing,
/// as far as it got.
pub open spec fn list_given(
    conn: rusqlite::Connection,
    columns: PairsAnswer,
    status: TextAnswer,
    levels: TextAnswer,
) -> bool {
    &&& gave_pairs(conn, SCHEMA_SQL@, 1, 2, columns)
    &&& (schema_outcome(columns) is Ok ==> gave_text(conn, INTEGRITY_SQL@, None, status))
    &&& (schema_outcome(columns) is Ok && integrity_outcome(status) is Ok ==> gave_text(
        conn,
        VALUE_SQL@,
        Some(LEVEL_KEY@),
        levels,
    ))
}

/// An outcome with a listing.
pub open spec fn listing_outcome(r: Result<Vec<StoredAccount>, TriageError>) -> Result<
    Seq<ListedView>,
    Reason,
> {
    match r {
        Ok(list) => Ok(listed_views(list@)),
        Err(err) => Err(err@),
    }
}

/// Lists the accounts of a private copy, checked like any snapshot, in the
/// order of the file, with what the text of the launcher's cache adds.
pub fn query_list(conn: &rusqlite::Connection, cache: Option<&str>) -> (r: Result<
    Vec<StoredAccount>,
    TriageError,
>)
    ensures
        exists|columns: PairsAnswer, status: TextAnswer, levels: TextAnswer| #[trigger]
            list_given(*conn, columns, status, levels) && listing_outcome(r) == list_outcome(
                columns,
                status,
                levels,
                cache_view(opt_str(cache)),
            ),
{
    let schema = check_schema(conn);
    let ghost columns = choose|columns: PairsAnswer| #[trigger]
        gave_pairs(*conn, SCHEMA_SQL@, 1, 2, columns) && crate::db::triage::unit_outcome(schema)
            == schema_outcome(columns);
    if let Err(err) = schema {
        assert(list_given(*conn, columns, TextAnswer::Failed, TextAnswer::Failed));
        return Err(err);
    }
    let integrity = check_integrity(conn);
    let ghost status = choose|status: TextAnswer| #[trigger]
        gave_text(*conn, INTEGRITY_SQL@, None, status) && crate::db::triage::unit_outcome(integrity)
            == integrity_outcome(status);
    if let Err(err) = integrity {
        assert(list_given(*conn, columns, status, TextAnswer::Failed));
        return Err(err);
    }
    let value = get_value(conn, LEVEL_KEY);
    let ghost levels = choose|levels: TextAnswer| #[trigger]
        gave_text(*conn, VALUE_SQL@, Some(LEVEL_KEY@), levels) && crate::db::triage::text_outcome(
            value,
        ) == value_outcome(levels, LEVEL_KEY@);
    assert(list_given(*conn, columns, status, levels));
    match value {
        Ok(body) => match parse_sdk_accounts(body.as_str()) {
            Some(accounts) => Ok(list_stored(accounts, cache)),
            None => Err(TriageError::Malformed(LEVEL_KEY)),
        },
        Err(err) => Err(err),
    }
}

/// A whole snapshot with a uid in the level data tells that account, with its
/// quests, and the live login, which is the mark's whoever was asked for.
pub proof fn whole_snapshots_tell_the_account(
    answers: Answers,
    uid_override: Option<Seq<char>>,
    uid: Seq<char>,
    n: nat,
    account: AccountView,
)
    requires
        schema_outcome(answers.columns) is Ok,
        answers.status == TextAnswer::Found("ok"@),
        uid_outcome(uid_override, answers.mark) == Ok::<Seq<char>, Reason>(uid),
        crate::db::triage::level_of(answers.levels, uid) == Ok::<
            (nat, Option<AccountView>),
            Reason,
        >((n, Some(account))),
    ensures
        answers.outcome(Pins { uid_override, account_index: None }) matches Ok((info, live))
            && info.uid == uid && info.union_level == account.level && info.region
            == account.region && info.quests_done == quest_outcome(answers.quests, uid)
            && info.game_version is None && info.display_name is None && (live is Some
            <==> uid_outcome(None, answers.live) is Ok) && (live matches Some(live)
            ==> uid_outcome(None, answers.live) == Ok::<Seq<char>, Reason>(live)),
{
}

/// A whole snapshot whose level data lack the uid is rejected for just that,
/// with the number of entries and whether keys of the uid were counted.
pub proof fn unlisted_accounts_are_rejected(
    answers: Answers,
    uid_override: Option<Seq<char>>,
    uid: Seq<char>,
    n: nat,
)
    requires
        schema_outcome(answers.columns) is Ok,
        answers.status == TextAnswer::Found("ok"@),
        uid_outcome(uid_override, answers.mark) == Ok::<Seq<char>, Reason>(uid),
        crate::db::triage::level_of(answers.levels, uid) == Ok::<
            (nat, Option<AccountView>),
            Reason,
        >((n, None)),
    ensures
        answers.outcome(Pins { uid_override, account_index: None }) == Err::<
            (InfoView, Option<Seq<char>>),
            Reason,
        >(
            Reason::AccountNotInLevelData {
                known_accounts: n,
                uid_seen_elsewhere: answers.count is Some && answers.count->Some_0 > 0,
            },
        ),
{
}

/// A whole snapshot without a usable uid, or without usable level data, is
/// rejected for the first of the two.
pub proof fn missing_keys_are_rejected(answers: Answers, uid_override: Option<Seq<char>>)
    requires
        schema_outcome(answers.columns) is Ok,
        answers.status == TextAnswer::Found("ok"@),
    ensures
        ({
            let pins = Pins { uid_override, account_index: None };
            &&& uid_outcome(uid_override, answers.mark) matches Err(err) ==> answers.outcome(pins)
                == Err::<(InfoView, Option<Seq<char>>), Reason>(err)
            &&& uid_outcome(uid_override, answers.mark) matches Ok(uid) ==> (
            crate::db::triage::level_of(answers.levels, uid) matches Err(err) ==> answers.outcome(
                pins,
            ) == Err::<(InfoView, Option<Seq<char>>), Reason>(err))
        }),
{
}

/// With a position, a whole snapshot tells the account at that place, with its
/// own uid and quests, and is rejected where there is none.
pub proof fn positions_pick_the_account(
    answers: Answers,
    uid_override: Option<Seq<char>>,
    index: nat,
)
    requires
        schema_outcome(answers.columns) is Ok,
        answers.status == TextAnswer::Found("ok"@),
    ensures
        ({
            let pins = Pins { uid_override, account_index: Some(index) };
            &&& index_outcome(answers.levels, index) matches Err(err) ==> answers.outcome(pins)
                == Err::<(InfoView, Option<Seq<char>>), Reason>(err)
            &&& index_outcome(answers.levels, index) matches Ok(account) ==> (answers.outcome(
                pins,
            ) matches Ok((info, live)) && info == (InfoView {
                uid: account.uid,
                union_level: account.level,
                region: account.region,
                quests_done: quest_outcome(answers.quests, account.uid),
                game_version: None,
                display_name: None,
            }) && live == match uid_outcome(None, answers.live) {
                Ok(uid) => Some(uid),
                Err(_) => None,
            })
        }),
{
}

/// A snapshot of the wrong shape, or a corrupt one, is rejected before any
/// account is looked for.
pub proof fn bad_snapshots_are_rejected(answers: Answers, pins: Pins)
    ensures
        schema_outcome(answers.columns) matches Err(err) ==> answers.outcome(pins) == Err::<
            (InfoView, Option<Seq<char>>),
            Reason,
        >(err),
        schema_outcome(answers.columns) is Ok && answers.status != TextAnswer::Found("ok"@)
            ==> answers.outcome(pins) == Err::<(InfoView, Option<Seq<char>>), Reason>(
            Reason::Corrupt,
        ),
{
}

/// What a triage asks a connection, in which words and how far it goes: each
/// answer that counts was given to its own question.
pub proof fn triages_ask_in_order(answers: Answers, conn: rusqlite::Connection, pins: Pins)
    requires
        answers.given(conn, pins),
    ensures
        ({
            let value = "SELECT value FROM LocalStorage WHERE key = ?1"@;
            let whole = schema_outcome(answers.columns) is Ok && answers.status
                == TextAnswer::Found("ok"@);
            &&& gave_pairs(conn, "PRAGMA table_info(LocalStorage)"@, 1, 2, answers.columns)
            &&& schema_outcome(answers.columns) is Ok ==> gave_text(
                conn,
                "PRAGMA quick_check"@,
                None,
                answers.status,
            )
            &&& whole ==> gave_text(conn, value, Some("RecentlyLoginUID"@), answers.live)
            &&& whole && pins.account_index is Some ==> gave_text(
                conn,
                value,
                Some("SdkLevelData"@),
                answers.levels,
            )
            &&& whole && pins.account_index is None && filled(pins.uid_override) is None
                ==> gave_text(conn, value, Some("RecentlyLoginUID"@), answers.mark)
            &&& whole && pins.account_index is None ==> (uid_outcome(
                pins.uid_override,
                answers.mark,
            ) matches Ok(uid) ==> gave_text(conn, value, Some("SdkLevelData"@), answers.levels))
            &&& whole && pins.account_index is None ==> (uid_outcome(
                pins.uid_override,
                answers.mark,
            ) matches Ok(uid) ==> (crate::db::triage::level_of(answers.levels, uid) matches Ok(
                (_, None),
            ) ==> crate::db::query::gave_number(
                conn,
                "SELECT COUNT(*) FROM LocalStorage WHERE key LIKE '%' || ?1"@,
                "_"@ + uid,
                answers.count,
            )))
            &&& whole && answers.account(pins) is Ok ==> gave_text(
                conn,
                value,
                Some("UserFinishedQuests"@),
                answers.quests,
            )
        }),
{
}

/// A triage that is called judges what the connection gave, for exactly the
/// account that was asked for.
pub proof fn snapshots_are_judged(
    conn: &rusqlite::Connection,
    uid_override: Option<&str>,
    account_index: Option<usize>,
    r: Result<(PlayerInfo, Option<String>), TriageError>,
    asked: Pins,
)
    requires
        call_ensures(query_snapshot, (conn, uid_override, account_index), r),
        asked.uid_override is Some <==> uid_override is Some,
        uid_override matches Some(uid) ==> asked.uid_override == Some(uid@),
        asked.account_index is Some <==> account_index is Some,
        account_index matches Some(index) ==> asked.account_index == Some(index as nat),
    ensures
        exists|a: Answers| #[trigger]
            a.given(*conn, asked) && match (r, a.outcome(asked)) {
                (Ok((info, live)), Ok((told, known))) => info@ == told && (live is Some
                    <==> known is Some) && (live matches Some(live) ==> known == Some(live@)),
                (Err(err), Err(reason)) => err@ == reason,
                _ => false,
            },
{
    assert(asked == pins(uid_override, account_index));
    let a = choose|a: Answers| #[trigger]
        a.given(*conn, pins(uid_override, account_index)) && info_outcome(r) == a.outcome(
            pins(uid_override, account_index),
        );
    assert(a.given(*conn, asked));
}

/// The version is asked for under its key in the device database, and read
/// from what was found.
pub proof fn versions_are_asked_for(conn: &rusqlite::Connection, r: Option<String>)
    requires
        call_ensures(device_version, (conn,), r),
    ensures
        exists|value: TextAnswer| #[trigger]
            gave_text(
                *conn,
                "SELECT value FROM LocalStorage WHERE key = 'PatchVersion'"@,
                None,
                value,
            ) && (value !is Found ==> r is None) && (value matches TextAnswer::Found(body)
                ==> opt_view(r) == version_text(body)),
{
    let value = choose|value: TextAnswer| #[trigger]
        gave_text(*conn, VERSION_SQL@, None, value) && opt_view(r) == version_outcome(value);
    assert(gave_text(
        *conn,
        "SELECT value FROM LocalStorage WHERE key = 'PatchVersion'"@,
        None,
        value,
    ));
}

/// A display name is looked for in the first five hundred rows of telemetry.
pub proof fn names_are_asked_for(
    conn: &rusqlite::Connection,
    role_uid: &str,
    r: Option<String>,
)
    requires
        call_ensures(query_kd_names, (conn, role_uid), r),
    ensures
        exists|rows: Option<Seq<Option<Seq<char>>>>| #[trigger]
            gave_texts(*conn, "SELECT content FROM KDData LIMIT ?1"@, 500, rows) && (rows is None
                ==> r is None) && (rows matches Some(rows) ==> opt_view(r) == first_name(
                rows,
                role_uid@,
            )),
{
    let rows = choose|rows: Option<Seq<Option<Seq<char>>>>| #[trigger]
        gave_texts(*conn, TELEMETRY_SQL@, MAX_TELEMETRY_ROWS, rows) && opt_view(r) == name_outcome(
            rows,
            role_uid@,
        );
    assert(gave_texts(*conn, "SELECT content FROM KDData LIMIT ?1"@, 500, rows));
}

/// A listing has one line for each account, in the order of the file: numbered
/// from one, with the account's region and level, the nickname that the cache
/// has for its uid, and the mark on the account that logged in last.
pub proof fn listings_number_the_accounts(
    accounts: Vec<SdkAccount>,
    cache: Option<&str>,
    r: Vec<StoredAccount>,
    i: int,
)
    requires
        call_ensures(list_stored, (accounts, cache), r),
        0 <= i < accounts@.len(),
    ensures
        r@.len() == accounts@.len(),
        r@[i].index == i + 1,
        r@[i].region@ == accounts@[i].region@,
        r@[i].level@ == accounts@[i].level@,
        cache is None || parsed_text(cache->Some_0@) is None ==> r@[i].nickname is None
            && !r@[i].last_login,
        cache matches Some(body) ==> (parsed_text(body@) matches Some(doc) ==> {
            &&& r@[i].nickname is Some <==> nicknames_of(doc).dom().contains(accounts@[i].uid@)
            &&& r@[i].nickname matches Some(name) ==> name@ == nicknames_of(
                doc,
            )[accounts@[i].uid@]
            &&& r@[i].last_login <==> last_login_of(doc) == Some(accounts@[i].uid@)
        }),
{
    let views = listed_views(r@);
    let all = listing(account_views(accounts@), cache_view(opt_str(cache)));
    assert(views == all);
    assert(views.len() == r@.len());
    assert(views[i] == r@[i]@);
    assert(all[i] == views[i]);
}

/// A listing is checked like any snapshot: it is refused for the shape, for
/// corruption, and for level data without a list, in this order, and lists the
/// accounts of the level data else.
pub proof fn listings_are_checked(
    columns: PairsAnswer,
    status: TextAnswer,
    levels: TextAnswer,
    cache: CacheView,
)
    ensures
        ({
            let r = list_outcome(columns, status, levels, cache);
            let whole = schema_outcome(columns) is Ok && status == TextAnswer::Found("ok"@);
            &&& schema_outcome(columns) matches Err(err) ==> r == Err::<Seq<ListedView>, Reason>(err)
            &&& schema_outcome(columns) is Ok && !whole ==> r == Err::<Seq<ListedView>, Reason>(
                Reason::Corrupt,
            )
            &&& whole && levels is Absent ==> r == Err::<Seq<ListedView>, Reason>(
                Reason::MissingKey("SdkLevelData"@),
            )
            &&& whole && levels is Failed ==> r == Err::<Seq<ListedView>, Reason>(
                Reason::Malformed("SdkLevelData"@),
            )
            &&& whole && levels is Found ==> r == match parsed_text(levels->Found_0) {
                Some(doc) => match stored_accounts(doc) {
                    Some(accounts) => Ok(listing(accounts, cache)),
                    None => Err(Reason::Malformed("SdkLevelData"@)),
                },
                None => Err(Reason::Malformed("SdkLevelData"@)),
            }
        }),
{
}

/// A listing that is called puts the triage's questions to the connection, and
/// lists what it gave with what the cache's text adds.
pub proof fn listings_ask_the_connection(
    conn: &rusqlite::Connection,
    cache: Option<&str>,
    r: Result<Vec<StoredAccount>, TriageError>,
)
    requires
        call_ensures(query_list, (conn, cache), r),
    ensures
        exists|columns: PairsAnswer, status: TextAnswer, levels: TextAnswer| #[trigger]
            list_given(*conn, columns, status, levels) && match (
                r,
                list_outcome(columns, status, levels, cache_view(opt_str(cache))),
            ) {
                (Ok(list), Ok(told)) => list@.len() == told.len() && listed_views(list@) == told,
                (Err(err), Err(reason)) => err@ == reason,
                _ => false,
            },
        forall|columns: PairsAnswer, status: TextAnswer, levels: TextAnswer| #[trigger]
            list_given(*conn, columns, status, levels) ==> gave_pairs(
                *conn,
                "PRAGMA table_info(LocalStorage)"@,
                1,
                2,
                columns,
            ) && (schema_outcome(columns) is Ok ==> gave_text(
                *conn,
                "PRAGMA quick_check"@,
                None,
                status,
            )) && (schema_outcome(columns) is Ok && status == TextAnswer::Found("ok"@) ==> gave_text(
                *conn,
                "SELECT value FROM LocalStorage WHERE key = ?1"@,
                Some("SdkLevelData"@),
                levels,
            )),
{
}

} // verus!
