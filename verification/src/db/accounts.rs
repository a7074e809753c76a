//! What the stored documents say of accounts: region and level, finished
//! quests, nicknames, the version, the login.
use crate::db::remnant::{member_of, name_of, is_id, read_name, reads_as};
use crate::db::query::row_views;
use crate::json::{parse, parsed_text, trees, Json, Tree};
use crate::text::{opt_view, same, trim, trimmed};
use vstd::prelude::*;
use vstd::utf8::encode_utf8;

verus! {

/// How many bytes a version may have.
pub const MAX_VERSION_BYTES: usize = 32;

/// One account of the level data. Its uid serves lookups only; it is never
/// logged or shown.
#[derive(Clone, Debug, PartialEq, Eq)]
pub struct SdkAccount {
    pub uid: String,
    pub region: String,
    pub level: String,
}

/// One account of the level data, as data.
pub struct AccountView {
    pub uid: Seq<char>,
    pub region: Seq<char>,
    pub level: Seq<char>,
}

impl View for SdkAccount {
    type V = AccountView;

    open spec fn view(&self) -> AccountView {
        AccountView { uid: self.uid@, region: self.region@, level: self.level@ }
    }
}

/// What a list of accounts holds.
pub open spec fn account_views(accounts: Seq<SdkAccount>) -> Seq<AccountView> {
    Seq::new(accounts.len(), |i: int| accounts[i]@)
}

/// The items of a document that may be missing, at one place.
pub open spec fn item_of(tree: Option<Tree>, at: int) -> Option<Tree> {
    match tree {
        Some(tree) => tree.item(at),
        None => None,
    }
}

/// The text of a document that may be missing.
pub open spec fn text_of(tree: Option<Tree>) -> Option<Seq<char>> {
    match tree {
        Some(tree) => tree.text(),
        None => None,
    }
}

/// The text or number of a document that may be missing.
pub open spec fn scalar_of(tree: Option<Tree>) -> Option<Seq<char>> {
    match tree {
        Some(tree) => tree.scalar(),
        None => None,
    }
}

/// The entries of a stored map: the array under `Content`.
pub open spec fn content_of(doc: Tree) -> Option<Seq<Tree>> {
    match doc.member("Content"@) {
        Some(content) => content.items(),
        None => None,
    }
}

/// The account that an entry `[uid, [{Region, Level}, ..]]` describes; none
/// when a part is missing, of another kind, or empty.
pub open spec fn account_of(entry: Tree) -> Option<AccountView> {
    let data = item_of(entry.item(1), 0);
    match (
        text_of(entry.item(0)),
        text_of(member_of(data, "Region"@)),
        scalar_of(member_of(data, "Level"@)),
    ) {
        (Some(uid), Some(region), Some(level)) if region.len() > 0 && level.len() > 0 => Some(
            AccountView { uid, region, level },
        ),
        _ => None,
    }
}

/// The accounts that a list of entries describes, in order; the other entries
/// are passed over.
pub open spec fn accounts_of(entries: Seq<Tree>) -> Seq<AccountView>
    decreases entries.len(),
{
    if entries.len() == 0 {
        Seq::empty()
    } else {
        match account_of(entries.last()) {
            Some(account) => accounts_of(entries.drop_last()).push(account),
            None => accounts_of(entries.drop_last()),
        }
    }
}

/// The accounts that a document of level data describes; none at all when it
/// is no map of accounts.
pub open spec fn stored_accounts(doc: Tree) -> Option<Seq<AccountView>> {
    match content_of(doc) {
        Some(entries) => Some(accounts_of(entries)),
        None => None,
    }
}

/// An entry that describes an account is never lost, whatever stands next to
/// it, and every account listed has its entry.
pub proof fn siblings_never_hide_an_account(entries: Seq<Tree>)
    ensures
        forall|i: int|
            0 <= i < entries.len() && (#[trigger] account_of(entries[i])) is Some ==> accounts_of(
                entries,
            ).contains(account_of(entries[i])->Some_0),
        forall|a: AccountView| #[trigger]
            accounts_of(entries).contains(a) ==> exists|i: int|
                0 <= i < entries.len() && #[trigger] account_of(entries[i]) == Some(a),
        accounts_of(entries).len() <= entries.len(),
    decreases entries.len(),
{
    if entries.len() > 0 {
        let rest = entries.drop_last();
        let n = entries.len() - 1;
        siblings_never_hide_an_account(rest);
        let before = accounts_of(rest);
        let after = accounts_of(entries);
        assert(entries[n] == entries.last());
        assert forall|i: int|
            0 <= i < entries.len() && (#[trigger] account_of(
                entries[i],
            )) is Some implies after.contains(account_of(entries[i])->Some_0) by {
            let a = account_of(entries[i])->Some_0;
            if i < n {
                assert(rest[i] == entries[i]);
                assert(before.contains(a));
                let k = choose|k: int| 0 <= k < before.len() && before[k] == a;
                assert(after[k] == a);
            } else {
                assert(after[after.len() - 1] == a);
            }
        }
        assert forall|a: AccountView| #[trigger] after.contains(a) implies exists|i: int|
            0 <= i < entries.len() && #[trigger] account_of(entries[i]) == Some(a) by {
            if before.contains(a) {
                let i = choose|i: int|
                    0 <= i < rest.len() && #[trigger] account_of(rest[i]) == Some(a);
                assert(account_of(entries[i]) == Some(a));
            } else {
                let k = choose|k: int| 0 <= k < after.len() && after[k] == a;
                if k < before.len() {
                    assert(before[k] == a);
                }
                assert(account_of(entries[n]) == Some(a));
            }
        }
    }
}

/// The first account with a uid.
pub open spec fn first_account(accounts: Seq<AccountView>, uid: Seq<char>) -> Option<AccountView>
    decreases accounts.len(),
{
    if accounts.len() == 0 {
        None
    } else if accounts[0].uid == uid {
        Some(accounts[0])
    } else {
        first_account(accounts.skip(1), uid)
    }
}

/// An account is found exactly when one of the listed accounts has its uid,
/// and what is found is one of them.
pub proof fn first_account_is_listed(accounts: Seq<AccountView>, uid: Seq<char>)
    ensures
        match first_account(accounts, uid) {
            Some(account) => account.uid == uid && accounts.contains(account),
            None => forall|i: int| 0 <= i < accounts.len() ==> (#[trigger] accounts[i]).uid != uid,
        },
    decreases accounts.len(),
{
    if accounts.len() > 0 && accounts[0].uid != uid {
        let rest = accounts.skip(1);
        first_account_is_listed(rest, uid);
        match first_account(rest, uid) {
            Some(account) => {
                let k = choose|k: int| 0 <= k < rest.len() && rest[k] == account;
                assert(accounts[k + 1] == account);
            },
            None => {
                assert forall|i: int| 0 <= i < accounts.len() implies (
                #[trigger] accounts[i]).uid != uid by {
                    if i > 0 {
                        assert(rest[i - 1] == accounts[i]);
                    }
                }
            },
        }
    } else if accounts.len() > 0 {
        assert(accounts.contains(accounts[0]));
    }
}

/// Reads the account that an entry describes.
fn read_account(entry: &Json) -> (r: Option<SdkAccount>)
    ensures
        account_of(entry@) == match r {
            Some(account) => Some(account@),
            None => None,
        },
{
    let uid: &str = match entry.at(0) {
        Some(json) => match json.as_str() {
            Some(uid) => uid,
            None => {
                return None;
            },
        },
        None => {
            return None;
        },
    };
    let data: &Json = match entry.at(1) {
        Some(items) => match items.at(0) {
            Some(data) => data,
            None => {
                return None;
            },
        },
        None => {
            return None;
        },
    };
    let region: &str = match data.get("Region") {
        Some(json) => match json.as_str() {
            Some(region) => region,
            None => {
                return None;
            },
        },
        None => {
            return None;
        },
    };
    let level: String = match data.get("Level") {
        Some(json) => match json.scalar() {
            Some(level) => level,
            None => {
                return None;
            },
        },
        None => {
            return None;
        },
    };
    if region.is_empty() || level.as_str().is_empty() {
        return None;
    }
    Some(SdkAccount { uid: uid.to_owned(), region: region.to_owned(), level })
}

/// The entries of a stored map.
fn read_content(doc: &Json) -> (r: Option<&Vec<Json>>)
    ensures
        content_of(doc@) == match r {
            Some(entries) => Some(trees(*entries)),
            None => None,
        },
{
    match doc.get("Content") {
        Some(content) => content.as_array(),
        None => None,
    }
}

/// The accounts that a document of level data describes.
pub fn sdk_accounts(doc: &Json) -> (r: Option<Vec<SdkAccount>>)
    ensures
        stored_accounts(doc@) == match r {
            Some(accounts) => Some(account_views(accounts@)),
            None => None,
        },
{
    let entries: &Vec<Json> = match read_content(doc) {
        Some(entries) => entries,
        None => {
            return None;
        },
    };
    let mut accounts: Vec<SdkAccount> = Vec::new();
    let mut i: usize = 0;
    let ghost all = trees(*entries);
    assert(all.take(0) == Seq::<Tree>::empty());
    assert(account_views(accounts@) == accounts_of(all.take(0)));
    while i < entries.len()
        invariant
            i <= entries@.len(),
            all == trees(*entries),
            account_views(accounts@) == accounts_of(all.take(i as int)),
        decreases entries@.len() - i,
    {
        assert(all.take(i + 1).drop_last() == all.take(i as int));
        assert(all.take(i + 1).last() == entries@[i as int]@);
        let ghost before = accounts@;
        match read_account(&entries[i]) {
            Some(account) => {
                accounts.push(account);
                assert(account_views(accounts@) == account_views(before).push(account@));
            },
            None => {},
        }
        i += 1;
    }
    assert(all.take(i as int) == all);
    Some(accounts)
}

/// Reads every account of the level data. Entries that describe no account
/// are passed over, so that one odd entry never costs the others; nothing
/// comes of a text that is no map of accounts.
pub fn parse_sdk_accounts(body: &str) -> (r: Option<Vec<SdkAccount>>)
    ensures
        match parsed_text(body@) {
            Some(doc) => stored_accounts(doc) == match r {
                Some(accounts) => Some(account_views(accounts@)),
                None => None,
            },
            None => r is None,
        },
{
    match parse(body) {
        Some(doc) => sdk_accounts(&doc),
        None => None,
    }
}

/// What a list of regions and levels holds.
pub open spec fn pair_views(pairs: Seq<(String, String)>) -> Seq<(Seq<char>, Seq<char>)> {
    Seq::new(pairs.len(), |i: int| (pairs[i].0@, pairs[i].1@))
}

/// The regions and levels of accounts, without their uids.
pub open spec fn shown(accounts: Seq<AccountView>) -> Seq<(Seq<char>, Seq<char>)> {
    Seq::new(accounts.len(), |i: int| (accounts[i].region, accounts[i].level))
}

/// The regions and levels of accounts, without their uids.
pub fn without_uids(accounts: Vec<SdkAccount>) -> (r: Vec<(String, String)>)
    ensures
        pair_views(r@) == shown(account_views(accounts@)),
{
    let mut pairs: Vec<(String, String)> = Vec::new();
    let mut i: usize = 0;
    while i < accounts.len()
        invariant
            i <= accounts@.len(),
            pairs@.len() == i,
            forall|j: int|
                0 <= j < i ==> (#[trigger] pairs@[j]).0@ == accounts@[j].region@ && pairs@[j].1@
                    == accounts@[j].level@,
        decreases accounts@.len() - i,
    {
        pairs.push((accounts[i].region.clone(), accounts[i].level.clone()));
        i += 1;
    }
    assert(pair_views(pairs@) == shown(account_views(accounts@)));
    pairs
}

/// Region and level of every account of the level data, for display.
pub fn parse_account_list(body: &str) -> (r: Option<Vec<(String, String)>>)
    ensures
        match parsed_text(body@) {
            Some(doc) => match (stored_accounts(doc), r) {
                (Some(accounts), Some(pairs)) => pair_views(pairs@) == shown(accounts),
                (None, None) => true,
                _ => false,
            },
            None => r is None,
        },
{
    match parse_sdk_accounts(body) {
        Some(accounts) => Some(without_uids(accounts)),
        None => None,
    }
}

/// Region and level of the first account with a uid.
pub fn find_account(accounts: &Vec<SdkAccount>, uid: &str) -> (r: Option<(String, String)>)
    ensures
        match (first_account(account_views(accounts@), uid@), r) {
            (Some(account), Some(pair)) => pair.0@ == account.region && pair.1@ == account.level,
            (None, None) => true,
            _ => false,
        },
{
    let ghost all = account_views(accounts@);
    let mut i: usize = 0;
    assert(all.skip(0) == all);
    while i < accounts.len()
        invariant
            i <= accounts@.len(),
            all == account_views(accounts@),
            first_account(all, uid@) == first_account(all.skip(i as int), uid@),
        decreases accounts@.len() - i,
    {
        assert(all.skip(i as int)[0] == accounts@[i as int]@);
        if same(accounts[i].uid.as_str(), uid) {
            return Some((accounts[i].region.clone(), accounts[i].level.clone()));
        }
        assert(all.skip(i as int).skip(1) == all.skip(i + 1));
        i += 1;
    }
    None
}

/// Region and level of one account of the level data.
pub fn parse_sdk_level_data(body: &str, uid: &str) -> (r: Option<(String, String)>)
    ensures
        match parsed_text(body@) {
            Some(doc) => match stored_accounts(doc) {
                Some(accounts) => match (first_account(accounts, uid@), r) {
                    (Some(account), Some(pair)) => pair.0@ == account.region && pair.1@
                        == account.level,
                    (None, None) => true,
                    _ => false,
                },
                None => r is None,
            },
            None => r is None,
        },
{
    match parse_sdk_accounts(body) {
        Some(accounts) => find_account(&accounts, uid),
        None => None,
    }
}

/// The finished quests that entries `[uid, {Content: [..]}]` give one
/// account: the first entry with its uid decides. An entry before it that has
/// no uid makes the list unreadable.
pub open spec fn quests_of(entries: Seq<Tree>, uid: Seq<char>) -> Option<nat>
    decreases entries.len(),
{
    if entries.len() == 0 {
        None
    } else {
        match text_of(entries[0].item(0)) {
            None => None,
            Some(id) => if id == uid {
                match entries[0].item(1) {
                    Some(data) => match content_of(data) {
                        Some(quests) => Some(quests.len()),
                        None => None,
                    },
                    None => None,
                }
            } else {
                quests_of(entries.skip(1), uid)
            },
        }
    }
}

/// How many quests a document of finished quests gives one account.
pub open spec fn quest_count(doc: Tree, uid: Seq<char>) -> Option<nat> {
    match content_of(doc) {
        Some(entries) => quests_of(entries, uid),
        None => None,
    }
}

/// How many quests a document of finished quests gives one account.
pub fn count_quests(doc: &Json, uid: &str) -> (r: Option<usize>)
    ensures
        quest_count(doc@, uid@) == match r {
            Some(n) => Some(n as nat),
            None => None,
        },
{
    let entries: &Vec<Json> = match read_content(doc) {
        Some(entries) => entries,
        None => {
            return None;
        },
    };
    let ghost all = trees(*entries);
    let mut i: usize = 0;
    assert(all.skip(0) == all);
    while i < entries.len()
        invariant
            i <= entries@.len(),
            all == trees(*entries),
            quest_count(doc@, uid@) == quests_of(all.skip(i as int), uid@),
        decreases entries@.len() - i,
    {
        let entry: &Json = &entries[i];
        assert(all.skip(i as int)[0] == entry@);
        let id: &str = match entry.at(0) {
            Some(json) => match json.as_str() {
                Some(id) => id,
                None => {
                    return None;
                },
            },
            None => {
                return None;
            },
        };
        if same(id, uid) {
            return match entry.at(1) {
                Some(data) => match read_content(data) {
                    Some(quests) => Some(quests.len()),
                    None => None,
                },
                None => None,
            };
        }
        assert(all.skip(i as int).skip(1) == all.skip(i + 1));
        i += 1;
    }
    None
}

/// Counts the finished quests of one account. Only the number of entries is
/// used.
pub fn parse_quest_count(body: &str, uid: &str) -> (r: Option<usize>)
    ensures
        match parsed_text(body@) {
            Some(doc) => quest_count(doc, uid@) == match r {
                Some(n) => Some(n as nat),
                None => None,
            },
            None => r is None,
        },
{
    match parse(body) {
        Some(doc) => count_quests(&doc, uid),
        None => None,
    }
}

/// What a stored value reads as: a number or a text.
pub open spec fn scalar_text(body: Seq<char>) -> Option<Seq<char>> {
    scalar_of(parsed_text(body))
}

/// Reads a stored value, a number or a text, as text.
pub fn json_scalar(body: &str) -> (r: Option<String>)
    ensures
        opt_view(r) == scalar_text(body@),
{
    match parse(body) {
        Some(doc) => doc.scalar(),
        None => None,
    }
}

/// The version that a stored value gives.
pub open spec fn version_of(doc: Tree) -> Option<Seq<char>> {
    match doc {
        Tree::Text(s) if trimmed(s).len() > 0 && encode_utf8(trimmed(s)).len()
            <= MAX_VERSION_BYTES => Some(trimmed(s)),
        _ => None,
    }
}

/// Reads a version: a text, not blank, not overlong.
pub fn read_version(doc: &Json) -> (r: Option<String>)
    ensures
        opt_view(r) == version_of(doc@),
{
    match doc {
        Json::Text(s) => {
            let version = trim(s.as_str());
            if !version.as_str().is_empty() && version.as_str().as_bytes().len()
                <= MAX_VERSION_BYTES {
                Some(version)
            } else {
                None
            }
        },
        _ => None,
    }
}

/// The version that the text of a stored value gives.
pub open spec fn version_text(body: Seq<char>) -> Option<Seq<char>> {
    match parsed_text(body) {
        Some(doc) => version_of(doc),
        None => None,
    }
}

/// Reads the version that the text of a stored value gives.
pub fn parse_version(body: &str) -> (r: Option<String>)
    ensures
        opt_view(r) == version_text(body@),
{
    match parse(body) {
        Some(doc) => read_version(&doc),
        None => None,
    }
}

/// The account that the launcher's cache marks as its last login.
pub open spec fn last_login_of(cache: Tree) -> Option<Seq<char>> {
    match text_of(cache.member("last_login_cuid"@)) {
        Some(id) if id.len() > 0 => Some(id),
        _ => None,
    }
}

/// The account that the launcher's cache marks as its last login. It only
/// moves when somebody logs out, so it never identifies a session.
pub fn last_login(cache: &Json) -> (r: Option<String>)
    ensures
        opt_view(r) == last_login_of(cache@),
{
    match cache.get("last_login_cuid") {
        Some(json) => match json.as_str() {
            Some(id) => if id.is_empty() {
                None
            } else {
                Some(id.to_owned())
            },
            None => None,
        },
        None => None,
    }
}

/// Reads the last-login mark from the text of the launcher's cache.
pub fn read_last_login(body: &str) -> (r: Option<String>)
    ensures
        opt_view(r) == match parsed_text(body@) {
            Some(cache) => last_login_of(cache),
            None => None,
        },
{
    match parse(body) {
        Some(cache) => last_login(&cache),
        None => None,
    }
}

/// The id and nickname that an entry of the launcher's cache gives, when it
/// has both.
pub open spec fn nickname_of(entry: Tree) -> Option<(Seq<char>, Seq<char>)> {
    match (text_of(entry.member("cuid"@)), text_of(entry.member("thirdNickName"@))) {
        (Some(id), Some(name)) if id.len() > 0 && name.len() > 0 => Some((id, name)),
        _ => None,
    }
}

/// The nicknames that entries give, by id: a later entry takes the place of
/// an earlier one.
pub open spec fn nicknames_in(entries: Seq<Tree>) -> Map<Seq<char>, Seq<char>>
    decreases entries.len(),
{
    if entries.len() == 0 {
        Map::empty()
    } else {
        match nickname_of(entries.last()) {
            Some(pair) => nicknames_in(entries.drop_last()).insert(pair.0, pair.1),
            None => nicknames_in(entries.drop_last()),
        }
    }
}

/// The nicknames that the launcher's cache holds, by id.
pub open spec fn nicknames_of(cache: Tree) -> Map<Seq<char>, Seq<char>> {
    match cache.member("account_list"@) {
        Some(list) => match list.items() {
            Some(entries) => nicknames_in(entries),
            None => Map::empty(),
        },
        None => Map::empty(),
    }
}

/// What a list of ids and nicknames says, a later one in place of an earlier.
pub open spec fn named(pairs: Seq<(Seq<char>, Seq<char>)>) -> Map<Seq<char>, Seq<char>>
    decreases pairs.len(),
{
    if pairs.len() == 0 {
        Map::empty()
    } else {
        named(pairs.drop_last()).insert(pairs.last().0, pairs.last().1)
    }
}

/// Reads the id and nickname that an entry of the launcher's cache gives.
fn read_nickname(entry: &Json) -> (r: Option<(String, String)>)
    ensures
        nickname_of(entry@) == match r {
            Some(pair) => Some((pair.0@, pair.1@)),
            None => None,
        },
{
    let id: &str = match entry.get("cuid") {
        Some(json) => match json.as_str() {
            Some(id) => id,
            None => {
                return None;
            },
        },
        None => {
            return None;
        },
    };
    let name: &str = match entry.get("thirdNickName") {
        Some(json) => match json.as_str() {
            Some(name) => name,
            None => {
                return None;
            },
        },
        None => {
            return None;
        },
    };
    if id.is_empty() || name.is_empty() {
        None
    } else {
        Some((id.to_owned(), name.to_owned()))
    }
}

/// The nicknames that the launcher's cache holds, as ids and nicknames in the
/// order of the file. Mails, tokens and codes are never read.
pub fn nicknames(cache: &Json) -> (r: Vec<(String, String)>)
    ensures
        named(pair_views(r@)) == nicknames_of(cache@),
{
    let mut pairs: Vec<(String, String)> = Vec::new();
    assert(pair_views(pairs@) == Seq::<(Seq<char>, Seq<char>)>::empty());
    let entries: &Vec<Json> = match cache.get("account_list") {
        Some(list) => match list.as_array() {
            Some(entries) => entries,
            None => {
                return pairs;
            },
        },
        None => {
            return pairs;
        },
    };
    let ghost all = trees(*entries);
    let mut i: usize = 0;
    assert(all.take(0) == Seq::<Tree>::empty());
    while i < entries.len()
        invariant
            i <= entries@.len(),
            all == trees(*entries),
            named(pair_views(pairs@)) == nicknames_in(all.take(i as int)),
        decreases entries@.len() - i,
    {
        assert(all.take(i + 1).drop_last() == all.take(i as int));
        assert(all.take(i + 1).last() == entries@[i as int]@);
        let ghost before = pair_views(pairs@);
        match read_nickname(&entries[i]) {
            Some(pair) => {
                pairs.push(pair);
                assert(pair_views(pairs@).drop_last() == before);
                assert(pair_views(pairs@).last() == (pair.0@, pair.1@));
            },
            None => {},
        }
        i += 1;
    }
    assert(all.take(i as int) == all);
    pairs
}

/// Reads the nicknames from the text of the launcher's cache; none from a
/// text that is no such cache.
pub fn read_nicknames(body: &str) -> (r: Vec<(String, String)>)
    ensures
        named(pair_views(r@)) == match parsed_text(body@) {
            Some(cache) => nicknames_of(cache),
            None => Map::empty(),
        },
{
    match parse(body) {
        Some(cache) => nicknames(&cache),
        None => {
            let none: Vec<(String, String)> = Vec::new();
            assert(pair_views(none@).len() == 0);
            none
        },
    }
}

/// The nickname of an id.
pub fn nickname_for(pairs: &Vec<(String, String)>, id: &str) -> (r: Option<String>)
    ensures
        opt_view(r) == if named(pair_views(pairs@)).dom().contains(id@) {
            Some(named(pair_views(pairs@))[id@])
        } else {
            None
        },
{
    let ghost all = pair_views(pairs@);
    let mut i: usize = pairs.len();
    assert(all.take(i as int) == all);
    while i > 0
        invariant
            i <= pairs@.len(),
            all == pair_views(pairs@),
            named(all).dom().contains(id@) == named(all.take(i as int)).dom().contains(id@),
            named(all).dom().contains(id@) ==> named(all)[id@] == named(all.take(i as int))[id@],
        decreases i,
    {
        let k: usize = i - 1;
        assert(all.take(i as int).drop_last() == all.take(k as int));
        assert(all.take(i as int).last() == (pairs@[k as int].0@, pairs@[k as int].1@));
        if same(pairs[k].0.as_str(), id) {
            return Some(pairs[k].1.clone());
        }
        i = k;
    }
    None
}

/// The display name that one telemetry row gives a login: only its own rows
/// count, and only names that can be shown.
pub open spec fn row_name(row: Option<Seq<char>>, uid: Seq<char>) -> Option<Seq<char>> {
    match row {
        Some(row) => match parsed_text(row) {
            Some(event) => event_name(event, uid),
            None => None,
        },
        None => None,
    }
}

/// The display name that one telemetry event gives a login.
pub open spec fn event_name(event: Tree, uid: Seq<char>) -> Option<Seq<char>> {
    if is_id(event.member("role_id"@), uid) {
        name_of(event.member("role_name"@))
    } else {
        None
    }
}

/// The display name that one telemetry event gives a login.
pub fn name_in_event(event: &Json, uid: &str) -> (r: Option<String>)
    ensures
        opt_view(r) == event_name(event@, uid@),
{
    if reads_as(event.get("role_id"), uid) {
        read_name(event.get("role_name"))
    } else {
        None
    }
}

/// The display name that telemetry rows give a login: the first row that
/// gives one.
pub open spec fn first_name(rows: Seq<Option<Seq<char>>>, uid: Seq<char>) -> Option<Seq<char>>
    decreases rows.len(),
{
    if rows.len() == 0 {
        None
    } else {
        match row_name(rows[0], uid) {
            Some(name) => Some(name),
            None => first_name(rows.skip(1), uid),
        }
    }
}

/// The display name that telemetry rows give a login. Rows that failed, are
/// garbage, of other logins or without a usable name are passed over.
pub fn name_in_rows(rows: &Vec<Option<String>>, uid: &str) -> (r: Option<String>)
    ensures
        opt_view(r) == first_name(row_views(rows@), uid@),
{
    let ghost all = row_views(rows@);
    let mut i: usize = 0;
    assert(all.skip(0) == all);
    while i < rows.len()
        invariant
            i <= rows@.len(),
            all == row_views(rows@),
            first_name(all, uid@) == first_name(all.skip(i as int), uid@),
        decreases rows@.len() - i,
    {
        assert(all.skip(i as int)[0] == opt_view(rows@[i as int]));
        let name: Option<String> = match &rows[i] {
            Some(row) => match parse(row.as_str()) {
                Some(event) => name_in_event(&event, uid),
                None => None,
            },
            None => None,
        };
        if name.is_some() {
            return name;
        }
        assert(all.skip(i as int).skip(1) == all.skip(i + 1));
        i += 1;
    }
    None
}

/// An entry describes an account exactly when it is a list that starts with
/// the uid as a text and a list, which starts with an object that has a region
/// as a text and a level as a text or a number, neither of them empty. Nothing
/// else in it matters.
pub proof fn entries_describe_accounts(entry: Tree, account: AccountView)
    ensures
        account_of(entry) == Some(account) <==> ({
            &&& entry is Array && entry->Array_0.len() >= 2
            &&& entry->Array_0[0] == Tree::Text(account.uid)
            &&& entry->Array_0[1] is Array && entry->Array_0[1]->Array_0.len() >= 1
            &&& entry->Array_0[1]->Array_0[0].has("Region"@, Tree::Text(account.region))
            &&& entry->Array_0[1]->Array_0[0].has("Level"@, Tree::Text(account.level))
                || entry->Array_0[1]->Array_0[0].has("Level"@, Tree::Number(account.level))
            &&& account.region.len() > 0 && account.level.len() > 0
        }),
{
}

/// The accounts of entries come in their order, one for each entry that
/// describes one: those of two lists of entries, one behind the other, are
/// those of the first and then those of the second.
pub proof fn accounts_keep_the_order(a: Seq<Tree>, b: Seq<Tree>, entry: Tree)
    ensures
        accounts_of(a + b) == accounts_of(a) + accounts_of(b),
        accounts_of(seq![entry]) == match account_of(entry) {
            Some(account) => seq![account],
            None => Seq::<AccountView>::empty(),
        },
        accounts_of(Seq::<Tree>::empty()) == Seq::<AccountView>::empty(),
    decreases b.len(),
{
    assert(seq![entry].drop_last() =~= Seq::<Tree>::empty());
    assert(accounts_of(seq![entry].drop_last()) =~= Seq::<AccountView>::empty());
    assert(seq![entry].last() == entry);
    if b.len() == 0 {
        assert(a + b =~= a);
        assert(accounts_of(a) + accounts_of(b) =~= accounts_of(a));
    } else {
        accounts_keep_the_order(a, b.drop_last(), entry);
        assert((a + b).drop_last() =~= a + b.drop_last());
        assert((a + b).last() == b.last());
        assert(accounts_of(a + b) =~= accounts_of(a) + accounts_of(b));
    }
}

/// The entries of a stored map are the array under `Content` of an object, and
/// there are none in anything else.
pub proof fn entries_stand_under_content(doc: Tree, entries: Seq<Tree>)
    ensures
        content_of(doc) == Some(entries) <==> doc.has("Content"@, Tree::Array(entries)),
{
}

/// Every account of the level data is read, in the order of the entries, and
/// listed by region and level; a text that is no map of accounts has none.
pub proof fn level_data_list_their_accounts(
    body: &str,
    entries: Seq<Tree>,
    r: Option<Vec<SdkAccount>>,
    listed: Option<Vec<(String, String)>>,
)
    requires
        call_ensures(parse_sdk_accounts, (body,), r),
        call_ensures(parse_account_list, (body,), listed),
    ensures
        (parsed_text(body@) matches Some(doc) && content_of(doc) == Some(entries)) ==> ({
            &&& r matches Some(r) && account_views(r@) == accounts_of(entries)
            &&& listed matches Some(listed) && listed@.len() == accounts_of(entries).len()
                && forall|i: int|
                0 <= i < listed@.len() ==> (#[trigger] listed@[i]).0@ == accounts_of(
                    entries,
                )[i].region && listed@[i].1@ == accounts_of(entries)[i].level
        }),
        (parsed_text(body@) is None || content_of(parsed_text(body@)->Some_0) is None) ==> r is None
            && listed is None,
{
    if let Some(doc) = parsed_text(body@) {
        if content_of(doc) == Some(entries) {
            let pairs = listed->Some_0@;
            assert(pair_views(pairs) == shown(accounts_of(entries)));
            assert(pair_views(pairs).len() == pairs.len());
            assert forall|i: int| 0 <= i < pairs.len() implies (#[trigger] pairs[i]).0@
                == accounts_of(entries)[i].region && pairs[i].1@ == accounts_of(
                entries,
            )[i].level by {
                assert(pair_views(pairs)[i] == (pairs[i].0@, pairs[i].1@));
            }
        }
    }
}

/// Region and level of a uid are those of the first entry that describes an
/// account with it, whatever stands before and behind.
pub proof fn first_entry_gives_the_level(
    body: &str,
    uid: &str,
    entries: Seq<Tree>,
    k: int,
    account: AccountView,
    r: Option<(String, String)>,
)
    requires
        call_ensures(parse_sdk_level_data, (body, uid), r),
        parsed_text(body@) matches Some(doc) && content_of(doc) == Some(entries),
        0 <= k < entries.len(),
        account_of(entries[k]) == Some(account),
        account.uid == uid@,
        forall|j: int|
            0 <= j < k ==> !(account_of(#[trigger] entries[j]) matches Some(other) && other.uid
                == uid@),
    ensures
        r matches Some(pair) && pair.0@ == account.region && pair.1@ == account.level,
{
    first_entry_is_found(entries, uid@, k);
}

/// A uid without an entry that describes its account has no level.
pub proof fn unlisted_uid_has_no_level(
    body: &str,
    uid: &str,
    entries: Seq<Tree>,
    r: Option<(String, String)>,
)
    requires
        call_ensures(parse_sdk_level_data, (body, uid), r),
        parsed_text(body@) matches Some(doc) ==> (content_of(doc) matches Some(found) ==> found
            == entries),
        forall|j: int|
            0 <= j < entries.len() ==> !(account_of(#[trigger] entries[j]) matches Some(other)
                && other.uid == uid@),
    ensures
        r is None,
{
    if let Some((region, level)) = r {
        let accounts = accounts_of(entries);
        first_account_is_listed(accounts, uid@);
        siblings_never_hide_an_account(entries);
        let a = first_account(accounts, uid@)->Some_0;
        let i = choose|i: int|
            0 <= i < entries.len() && #[trigger] account_of(entries[i]) == Some(a);
        assert(account_of(entries[i]) == Some(a));
    }
}

proof fn first_entry_is_found(entries: Seq<Tree>, uid: Seq<char>, k: int)
    requires
        0 <= k < entries.len(),
        account_of(entries[k]) matches Some(account) && account.uid == uid,
        forall|j: int|
            0 <= j < k ==> !(account_of(#[trigger] entries[j]) matches Some(other) && other.uid
                == uid),
    ensures
        first_account(accounts_of(entries), uid) == account_of(entries[k]),
{
    let head = entries.take(k);
    let rest = entries.skip(k + 1);
    let here = seq![entries[k]];
    assert(entries =~= head + (here + rest));
    accounts_keep_the_order(head, here + rest, entries[k]);
    accounts_keep_the_order(here, rest, entries[k]);
    siblings_never_hide_an_account(head);
    let before = accounts_of(head);
    assert forall|i: int| 0 <= i < before.len() implies (#[trigger] before[i]).uid != uid by {
        assert(before.contains(before[i]));
        let j = choose|j: int|
            0 <= j < head.len() && #[trigger] account_of(head[j]) == Some(before[i]);
        assert(entries[j] == head[j]);
    }
    let account = account_of(entries[k])->Some_0;
    assert(accounts_of(here) =~= seq![account]);
    first_behind_others(before, account, accounts_of(rest), uid);
    assert(accounts_of(entries) =~= before + (seq![account] + accounts_of(rest)));
}

proof fn first_behind_others(
    before: Seq<AccountView>,
    account: AccountView,
    after: Seq<AccountView>,
    uid: Seq<char>,
)
    requires
        account.uid == uid,
        forall|i: int| 0 <= i < before.len() ==> (#[trigger] before[i]).uid != uid,
    ensures
        first_account(before + (seq![account] + after), uid) == Some(account),
    decreases before.len(),
{
    let all = before + (seq![account] + after);
    if before.len() == 0 {
        assert(all[0] == account);
    } else {
        assert(all[0] == before[0]);
        assert(all.skip(1) =~= before.skip(1) + (seq![account] + after));
        assert forall|i: int| 0 <= i < before.skip(1).len() implies (#[trigger] before.skip(
            1,
        )[i]).uid != uid by {
            assert(before.skip(1)[i] == before[i + 1]);
        }
        first_behind_others(before.skip(1), account, after, uid);
    }
}

/// The finished quests of a uid are as many as its first entry lists, for
/// every number of them, where every entry before it starts with another text.
pub proof fn quests_are_counted_in_full(
    body: &str,
    uid: &str,
    entries: Seq<Tree>,
    k: int,
    quests: Seq<Tree>,
    r: Option<usize>,
)
    requires
        call_ensures(parse_quest_count, (body, uid), r),
        parsed_text(body@) matches Some(doc) && content_of(doc) == Some(entries),
        0 <= k < entries.len(),
        starts_with(entries[k], uid@),
        entries[k] matches Tree::Array(items) && items.len() >= 2 && content_of(items[1]) == Some(
            quests,
        ),
        forall|j: int| 0 <= j < k ==> starts_otherwise(#[trigger] entries[j], uid@),
    ensures
        r matches Some(n) && n == quests.len(),
{
    quests_at(entries, uid@, k, quests);
}

/// Whether an entry is a list that starts with a text.
pub open spec fn starts_with(entry: Tree, text: Seq<char>) -> bool {
    entry matches Tree::Array(items) && items.len() >= 1 && items[0] == Tree::Text(text)
}

/// Whether an entry is a list that starts with another text.
pub open spec fn starts_otherwise(entry: Tree, text: Seq<char>) -> bool {
    entry matches Tree::Array(items) && items.len() >= 1 && items[0] is Text && items[0]->Text_0
        != text
}

proof fn quests_at(entries: Seq<Tree>, uid: Seq<char>, k: int, quests: Seq<Tree>)
    requires
        0 <= k < entries.len(),
        starts_with(entries[k], uid),
        entries[k] matches Tree::Array(items) && items.len() >= 2 && content_of(items[1]) == Some(
            quests,
        ),
        forall|j: int| 0 <= j < k ==> starts_otherwise(#[trigger] entries[j], uid),
    ensures
        quests_of(entries, uid) == Some(quests.len()),
    decreases k,
{
    if k > 0 {
        assert(starts_otherwise(entries[0], uid));
        let rest = entries.skip(1);
        assert forall|j: int| 0 <= j < k - 1 implies starts_otherwise(#[trigger] rest[j], uid) by {
            assert(rest[j] == entries[j + 1]);
        }
        assert(rest[k - 1] == entries[k]);
        quests_at(rest, uid, k - 1, quests);
    }
}

/// One more finished quest makes the count one more, and nothing else in the
/// document matters to it: only the first entry of the uid is counted.
pub proof fn one_more_quest_counts_one_more(
    entries: Seq<Tree>,
    uid: Seq<char>,
    quests: Seq<Tree>,
    quest: Tree,
    data: Map<Seq<char>, Tree>,
    rest: Seq<Tree>,
)
    requires
        data.dom().contains("Content"@),
    ensures
        ({
            let few = Tree::Object(data.insert("Content"@, Tree::Array(quests)));
            let more = Tree::Object(data.insert("Content"@, Tree::Array(quests.push(quest))));
            let first = quests_of(seq![Tree::Array(seq![Tree::Text(uid), few])] + rest, uid);
            let second = quests_of(seq![Tree::Array(seq![Tree::Text(uid), more])] + rest, uid);
            first == Some(quests.len()) && second == Some((quests.len() + 1) as nat)
        }),
{
    let few = Tree::Object(data.insert("Content"@, Tree::Array(quests)));
    let more = Tree::Object(data.insert("Content"@, Tree::Array(quests.push(quest))));
    let a = seq![Tree::Array(seq![Tree::Text(uid), few])] + rest;
    let b = seq![Tree::Array(seq![Tree::Text(uid), more])] + rest;
    assert(starts_with(a[0], uid) && starts_with(b[0], uid));
    assert(content_of(few) == Some(quests));
    assert(content_of(more) == Some(quests.push(quest)));
    assert(a[0] matches Tree::Array(items) && items.len() >= 2 && items[1] == few);
    assert(b[0] matches Tree::Array(items) && items.len() >= 2 && items[1] == more);
    quests_at(a, uid, 0, quests);
    quests_at(b, uid, 0, quests.push(quest));
}

/// A uid without an entry has no count, and neither has one behind an entry
/// that does not start with a text, or whose own entry lists no quests.
pub proof fn unreadable_quests_have_no_count(
    body: &str,
    uid: &str,
    entries: Seq<Tree>,
    r: Option<usize>,
)
    requires
        call_ensures(parse_quest_count, (body, uid), r),
        parsed_text(body@) matches Some(doc) && content_of(doc) == Some(entries),
    ensures
        (forall|j: int| 0 <= j < entries.len() ==> !starts_with(#[trigger] entries[j], uid@))
            ==> r is None,
        entries.len() > 0 && !(exists|text: Seq<char>| #[trigger] starts_with(entries[0], text))
            ==> r is None,
        entries.len() > 0 && starts_with(entries[0], uid@) && !(entries[0]->Array_0.len() >= 2
            && content_of(entries[0]->Array_0[1]) is Some) ==> r is None,
{
    if forall|j: int| 0 <= j < entries.len() ==> !starts_with(#[trigger] entries[j], uid@) {
        no_quests_without_entry(entries, uid@);
    }
    if entries.len() > 0 {
        if let Some(id) = text_of(entries[0].item(0)) {
            assert(starts_with(entries[0], id));
        }
    }
}

proof fn no_quests_without_entry(entries: Seq<Tree>, uid: Seq<char>)
    requires
        forall|j: int| 0 <= j < entries.len() ==> !starts_with(#[trigger] entries[j], uid),
    ensures
        quests_of(entries, uid) is None,
    decreases entries.len(),
{
    if entries.len() > 0 {
        let rest = entries.skip(1);
        assert forall|j: int| 0 <= j < rest.len() implies !starts_with(
            #[trigger] rest[j],
            uid,
        ) by {
            assert(rest[j] == entries[j + 1]);
        }
        no_quests_without_entry(rest, uid);
        assert(!starts_with(entries[0], uid));
    }
}

/// A stored value reads as the text it is, or as what its number prints as;
/// anything else reads as nothing.
pub proof fn stored_values_read_as_text(body: &str, r: Option<String>)
    requires
        call_ensures(json_scalar, (body,), r),
    ensures
        match parsed_text(body@) {
            Some(Tree::Text(s)) => r matches Some(r) && r@ == s,
            Some(Tree::Number(s)) => r matches Some(r) && r@ == s,
            _ => r is None,
        },
{
}

/// A version is a stored text without the white space around it, of at least
/// one byte and at most thirty-two.
pub proof fn versions_are_short_texts(body: &str, r: Option<String>)
    requires
        call_ensures(parse_version, (body,), r),
    ensures
        match parsed_text(body@) {
            Some(Tree::Text(s)) => if trimmed(s).len() > 0 && encode_utf8(trimmed(s)).len() <= 32 {
                r matches Some(r) && r@ == trimmed(s)
            } else {
                r is None
            },
            _ => r is None,
        },
{
}

/// The last login is the text under `last_login_cuid`, unless it is empty.
pub proof fn last_login_is_the_marked_one(body: &str, id: Seq<char>, r: Option<String>)
    requires
        call_ensures(read_last_login, (body,), r),
    ensures
        r matches Some(r) ==> (parsed_text(body@) matches Some(cache) && cache.has(
            "last_login_cuid"@,
            Tree::Text(r@),
        ) && r@.len() > 0),
        (parsed_text(body@) matches Some(cache) && cache.has("last_login_cuid"@, Tree::Text(id))
            && id.len() > 0) ==> (r matches Some(r) && r@ == id),
{
}

/// An entry of the launcher's cache gives a nickname to an id exactly when it
/// has both as texts that are not empty.
pub proof fn nicknames_belong_to_ids(entry: Tree, id: Seq<char>, name: Seq<char>)
    ensures
        nickname_of(entry) == Some((id, name)) <==> entry.has("cuid"@, Tree::Text(id))
            && entry.has("thirdNickName"@, Tree::Text(name)) && id.len() > 0 && name.len() > 0,
{
}

/// Whether an entry gives a nickname to an id.
pub open spec fn nicknames_id(entry: Tree, id: Seq<char>) -> bool {
    nickname_of(entry) matches Some(pair) && pair.0 == id
}

/// The nickname of an id is the one that the last entry with it gives.
pub proof fn last_nickname_counts(
    body: &str,
    entries: Seq<Tree>,
    k: int,
    name: Seq<char>,
    pairs: Vec<(String, String)>,
    id: &str,
    r: Option<String>,
)
    requires
        call_ensures(read_nicknames, (body,), pairs),
        call_ensures(nickname_for, (&pairs, id), r),
        parsed_text(body@) matches Some(cache) && cache.has("account_list"@, Tree::Array(entries)),
        0 <= k < entries.len(),
        nickname_of(entries[k]) == Some((id@, name)),
        forall|j: int| k < j < entries.len() ==> !nicknames_id(#[trigger] entries[j], id@),
    ensures
        r matches Some(r) && r@ == name,
{
    last_entry_names(entries, id@, k, name);
}

/// An id that no entry gives a nickname to has none.
pub proof fn unnamed_ids_have_no_nickname(
    body: &str,
    entries: Seq<Tree>,
    pairs: Vec<(String, String)>,
    id: &str,
    r: Option<String>,
)
    requires
        call_ensures(read_nicknames, (body,), pairs),
        call_ensures(nickname_for, (&pairs, id), r),
        parsed_text(body@) matches Some(cache) ==> (cache.member("account_list"@) matches Some(
            list,
        ) ==> (list is Array ==> list->Array_0 == entries)),
        forall|j: int| 0 <= j < entries.len() ==> !nicknames_id(#[trigger] entries[j], id@),
    ensures
        r is None,
{
    no_entry_names(entries, id@);
}

proof fn last_entry_names(entries: Seq<Tree>, id: Seq<char>, k: int, name: Seq<char>)
    requires
        0 <= k < entries.len(),
        nickname_of(entries[k]) == Some((id, name)),
        forall|j: int| k < j < entries.len() ==> !nicknames_id(#[trigger] entries[j], id),
    ensures
        nicknames_in(entries).dom().contains(id),
        nicknames_in(entries)[id] == name,
    decreases entries.len(),
{
    let rest = entries.drop_last();
    let n = entries.len() - 1;
    assert(entries[n] == entries.last());
    if k < n {
        assert(!nicknames_id(entries[n], id));
        assert(rest[k] == entries[k]);
        assert forall|j: int| k < j < rest.len() implies !nicknames_id(#[trigger] rest[j], id) by {
            assert(rest[j] == entries[j]);
        }
        last_entry_names(rest, id, k, name);
    }
}

proof fn no_entry_names(entries: Seq<Tree>, id: Seq<char>)
    requires
        forall|j: int| 0 <= j < entries.len() ==> !nicknames_id(#[trigger] entries[j], id),
    ensures
        !nicknames_in(entries).dom().contains(id),
    decreases entries.len(),
{
    if entries.len() > 0 {
        let rest = entries.drop_last();
        assert(entries[entries.len() - 1] == entries.last());
        assert forall|j: int| 0 <= j < rest.len() implies !nicknames_id(#[trigger] rest[j], id) by {
            assert(rest[j] == entries[j]);
        }
        no_entry_names(rest, id);
        assert(!nicknames_id(entries[entries.len() - 1], id));
    }
}

/// An event names a login exactly when its `role_id` is the login's, as a text
/// or a number, and its `role_name` is a text that without the white space
/// around it has one to thirty-two characters, none of them a control
/// character. Characters of every script count.
pub proof fn events_name_their_login(event: &Json, uid: &str, s: Seq<char>, r: Option<String>)
    requires
        call_ensures(name_in_event, (event, uid), r),
    ensures
        (event@.has("role_id"@, Tree::Text(uid@)) || event@.has("role_id"@, Tree::Number(uid@)))
            && event@.has("role_name"@, Tree::Text(s)) && 1 <= trimmed(s).len() <= 32 && (forall|
            i: int,
        |
            0 <= i < trimmed(s).len() ==> !(#[trigger] trimmed(s)[i] <= '\u{1f}' || '\u{7f}'
                <= trimmed(s)[i] <= '\u{9f}')) ==> (r matches Some(r) && r@ == trimmed(s)),
        r matches Some(r) ==> ({
            &&& event@.has("role_id"@, Tree::Text(uid@)) || event@.has(
                "role_id"@,
                Tree::Number(uid@),
            )
            &&& 1 <= r@.len() <= 32
            &&& forall|i: int|
                0 <= i < r@.len() ==> !(#[trigger] r@[i] <= '\u{1f}' || '\u{7f}' <= r@[i]
                    <= '\u{9f}')
            &&& event@->Object_0["role_name"@] is Text && r@ == trimmed(
                event@->Object_0["role_name"@]->Text_0,
            )
        }),
{
    if event@ is Object {
        crate::db::remnant::names_are_of_any_script(event@->Object_0["role_name"@]);
    }
}

/// The display name is that of the first row that gives the login one: rows
/// that failed, are no documents, of other logins or without a fit name are
/// passed over, and none of them hides a later one.
pub proof fn first_fit_row_names(rows: Vec<Option<String>>, uid: &str, r: Option<String>)
    requires
        call_ensures(name_in_rows, (&rows, uid), r),
    ensures
        match r {
            Some(name) => exists|k: int|
                0 <= k < rows@.len() && gives(#[trigger] rows@[k], uid@, name@) && forall|j: int|
                    0 <= j < k ==> !(exists|other: Seq<char>| #[trigger]
                        gives(#[trigger] rows@[j], uid@, other)),
            None => forall|j: int|
                0 <= j < rows@.len() ==> !(exists|other: Seq<char>| #[trigger]
                    gives(#[trigger] rows@[j], uid@, other)),
        },
{
    first_row_is_found(row_views(rows@), uid@);
    let all = row_views(rows@);
    assert forall|j: int| 0 <= j < rows@.len() implies (exists|other: Seq<char>| #[trigger]
        gives(#[trigger] rows@[j], uid@, other)) == (row_name(all[j], uid@) is Some) by {
        assert(all[j] == opt_view(rows@[j]));
        if let Some(name) = row_name(all[j], uid@) {
            assert(gives(rows@[j], uid@, name));
        }
    }
    match first_name(all, uid@) {
        Some(name) => {
            let k = choose|k: int|
                0 <= k < all.len() && row_name(#[trigger] all[k], uid@) == Some(name) && forall|
                    j: int,
                |
                    0 <= j < k ==> row_name(#[trigger] all[j], uid@) is None;
            assert(all[k] == opt_view(rows@[k]));
            assert(gives(rows@[k], uid@, name));
            assert forall|j: int| 0 <= j < k implies !(exists|other: Seq<char>| #[trigger]
                gives(#[trigger] rows@[j], uid@, other)) by {
                assert(row_name(all[j], uid@) is None);
            }
        },
        None => {
            assert forall|j: int| 0 <= j < rows@.len() implies !(exists|other: Seq<char>| #[trigger]
                gives(#[trigger] rows@[j], uid@, other)) by {
                assert(row_name(all[j], uid@) is None);
            }
        },
    }
}

/// Whether a row was read, is a document, and names a login.
pub open spec fn gives(row: Option<String>, uid: Seq<char>, name: Seq<char>) -> bool {
    row matches Some(text) && parsed_text(text@) matches Some(event) && event_name(event, uid)
        == Some(name)
}

proof fn first_row_is_found(rows: Seq<Option<Seq<char>>>, uid: Seq<char>)
    ensures
        match first_name(rows, uid) {
            Some(name) => exists|k: int|
                0 <= k < rows.len() && row_name(#[trigger] rows[k], uid) == Some(name) && forall|
                    j: int,
                |
                    0 <= j < k ==> row_name(#[trigger] rows[j], uid) is None,
            None => forall|j: int|
                0 <= j < rows.len() ==> row_name(#[trigger] rows[j], uid) is None,
        },
    decreases rows.len(),
{
    if rows.len() > 0 {
        let rest = rows.skip(1);
        first_row_is_found(rest, uid);
        if row_name(rows[0], uid) is None {
            match first_name(rest, uid) {
                Some(name) => {
                    let k = choose|k: int|
                        0 <= k < rest.len() && row_name(#[trigger] rest[k], uid) == Some(name)
                            && forall|j: int|
                            0 <= j < k ==> row_name(#[trigger] rest[j], uid) is None;
                    assert(row_name(rows[k + 1], uid) == Some(name));
                    assert forall|j: int| 0 <= j < k + 1 implies row_name(
                        #[trigger] rows[j],
                        uid,
                    ) is None by {
                        if j > 0 {
                            assert(rest[j - 1] == rows[j]);
                        }
                    }
                },
                None => {
                    assert forall|j: int| 0 <= j < rows.len() implies row_name(
                        #[trigger] rows[j],
                        uid,
                    ) is None by {
                        if j > 0 {
                            assert(rest[j - 1] == rows[j]);
                        }
                    }
                },
            }
        } else {
            assert(row_name(rows[0], uid) == first_name(rows, uid));
        }
    }
}

/// A document of quests is counted like its text: the first entry of the uid
/// decides, and its quests are counted in full, however many they are.
pub proof fn quests_of_documents_are_counted_in_full(
    doc: Json,
    uid: &str,
    entries: Seq<Tree>,
    k: int,
    data: Tree,
    quests: Seq<Tree>,
    r: Option<usize>,
)
    requires
        call_ensures(count_quests, (&doc, uid), r),
        doc@.has("Content"@, Tree::Array(entries)),
        0 <= k < entries.len(),
        starts_with(entries[k], uid@),
        entries[k] matches Tree::Array(items) && items.len() >= 2 && items[1] == data,
        data.has("Content"@, Tree::Array(quests)),
        forall|j: int| 0 <= j < k ==> starts_otherwise(#[trigger] entries[j], uid@),
    ensures
        r is Some,
        r->Some_0 == quests.len(),
{
    quests_at(entries, uid@, k, quests);
}

/// The accounts of a document are listed in its order, and found by the first
/// with the uid; without uids their regions and levels stay in their places.
pub proof fn documents_list_their_accounts(
    doc: Json,
    entries: Seq<Tree>,
    uid: &str,
    r: Option<Vec<SdkAccount>>,
    accounts: Vec<SdkAccount>,
    pairs: Vec<(String, String)>,
    found: Option<(String, String)>,
    i: int,
)
    requires
        call_ensures(sdk_accounts, (&doc,), r),
        call_ensures(without_uids, (accounts,), pairs),
        call_ensures(find_account, (&accounts, uid), found),
        doc@.has("Content"@, Tree::Array(entries)),
        0 <= i < accounts@.len(),
        accounts@[i].uid@ == uid@,
        forall|j: int| 0 <= j < i ==> (#[trigger] accounts@[j]).uid@ != uid@,
    ensures
        r is Some,
        account_views(r->Some_0@) == accounts_of(entries),
        pairs@.len() == accounts@.len(),
        pairs@[i].0@ == accounts@[i].region@ && pairs@[i].1@ == accounts@[i].level@,
        found is Some,
        found->Some_0.0@ == accounts@[i].region@ && found->Some_0.1@ == accounts@[i].level@,
{
    let views = account_views(accounts@);
    assert forall|j: int| 0 <= j < views.len() implies #[trigger] views[j] == accounts@[j]@ by {}
    assert(pair_views(pairs@).len() == pairs@.len());
    assert(pair_views(pairs@)[i] == (pairs@[i].0@, pairs@[i].1@));
    assert(shown(views)[i] == (views[i].region, views[i].level));
    assert forall|j: int| 0 <= j < i implies (#[trigger] views[j]).uid != uid@ by {
        assert(accounts@[j].uid@ != uid@);
    }
    first_of_the_uid(views, uid@, i);
}

proof fn first_of_the_uid(accounts: Seq<AccountView>, uid: Seq<char>, i: int)
    requires
        0 <= i < accounts.len(),
        accounts[i].uid == uid,
        forall|j: int| 0 <= j < i ==> (#[trigger] accounts[j]).uid != uid,
    ensures
        first_account(accounts, uid) == Some(accounts[i]),
    decreases i,
{
    if i > 0 {
        let rest = accounts.skip(1);
        assert(accounts[0].uid != uid);
        assert forall|j: int| 0 <= j < i - 1 implies (#[trigger] rest[j]).uid != uid by {
            assert(accounts[j + 1].uid != uid);
        }
        first_of_the_uid(rest, uid, i - 1);
    }
}

/// Versions, login marks and nicknames of documents are those of their texts.
pub proof fn documents_read_like_their_texts(
    doc: Json,
    body: &str,
    version: (Option<String>, Option<String>),
    mark: (Option<String>, Option<String>),
    names: (Vec<(String, String)>, Vec<(String, String)>),
    id: &str,
    name: (Option<String>, Option<String>),
)
    requires
        parsed_text(body@) == Some(doc@),
        call_ensures(read_version, (&doc,), version.0),
        call_ensures(parse_version, (body,), version.1),
        call_ensures(last_login, (&doc,), mark.0),
        call_ensures(read_last_login, (body,), mark.1),
        call_ensures(nicknames, (&doc,), names.0),
        call_ensures(read_nicknames, (body,), names.1),
        call_ensures(nickname_for, (&names.0, id), name.0),
        call_ensures(nickname_for, (&names.1, id), name.1),
    ensures
        opt_view(version.0) == opt_view(version.1),
        opt_view(mark.0) == opt_view(mark.1),
        opt_view(name.0) == opt_view(name.1),
{
}

} // verus!
