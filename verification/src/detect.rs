//! Game detection: the one entry of the database that counts, where that
//! database comes from, and when a process was started.
//!
//! Processes are scanned elsewhere. Here stands what a scan is fed with and
//! what is made of it.
use crate::json::{
    object_is_readable, object_of, pairs_of, parse, parsed_text, put, reading_depth, reads_like,
    rendered, trees, Json, Tree,
};
use crate::text::{
    after_last, chars_of, find_after_last, is_white, join_path, joined, opt_view, parse_i64, same,
    signed, stands_at, text_of, trim, trimmed, trimmed_start, white,
};
use vstd::prelude::*;

verus! {

/// The game's id in the database of detectable games.
pub const WUWA_ID: &'static str = "1247227126416146462";

/// The cache of the selected entries.
pub const CACHE_FILE: &'static str = "detectable.json";

/// How old a cache may be to be used without asking: a week, in seconds.
pub const CACHE_MAX_AGE: u64 = 604_800;

/// What is told when the database online lacks the game.
pub const MISSING_ONLINE: &'static str = "Wuthering Waves missing from the online database";

/// What is told when the database that came along lacks the game.
pub const MISSING_BUNDLED: &'static str =
    "Wuthering Waves missing from the bundled database; update rsrpc?";

/// The members of the executable that the local entry names.
pub open spec fn executable_pairs() -> Seq<(Seq<char>, Tree)> {
    seq![
        ("name"@, Tree::Text("client-win64-shipping.exe"@)),
        ("is_launcher"@, Tree::Bool(false)),
        ("os"@, Tree::Text("linux"@)),
    ]
}

/// The members of the local entry.
pub open spec fn override_pairs() -> Seq<(Seq<char>, Tree)> {
    seq![
        ("id"@, Tree::Text(WUWA_ID@)),
        ("name"@, Tree::Text("Wuthering Waves"@)),
        ("hook"@, Tree::Bool(false)),
        ("executables"@, Tree::Array(seq![Tree::Object(object_of(executable_pairs()))])),
    ]
}

/// The local entry: the database online names no executable for this system,
/// and launchers other than Steam leave no id behind, so that the file name
/// of the executable is what is left to match.
pub open spec fn override_tree() -> Tree {
    Tree::Object(object_of(override_pairs()))
}

/// Builds the local entry.
pub fn override_entry() -> (r: Json)
    ensures
        r@ == override_tree(),
{
    let mut executable: Vec<(String, Json)> = Vec::new();
    assert(pairs_of(executable) =~= Seq::<(Seq<char>, Tree)>::empty());
    put(&mut executable, "name", Json::string("client-win64-shipping.exe"));
    put(&mut executable, "is_launcher", Json::Bool(false));
    put(&mut executable, "os", Json::string("linux"));
    assert(pairs_of(executable) =~= executable_pairs());
    let mut executables: Vec<Json> = Vec::new();
    executables.push(Json::Object(executable));
    assert(trees(executables) =~= seq![Tree::Object(object_of(executable_pairs()))]);
    let mut members: Vec<(String, Json)> = Vec::new();
    assert(pairs_of(members) =~= Seq::<(Seq<char>, Tree)>::empty());
    put(&mut members, "id", Json::string(WUWA_ID));
    put(&mut members, "name", Json::string("Wuthering Waves"));
    put(&mut members, "hook", Json::Bool(false));
    put(&mut members, "executables", Json::Array(executables));
    assert(pairs_of(members) =~= override_pairs());
    Json::Object(members)
}

/// Whether an entry is the game's.
pub open spec fn is_wuwa(game: Tree) -> bool {
    game.member("id"@) == Some(Tree::Text(WUWA_ID@))
}

/// Whether an entry is the game's.
pub fn names_wuwa(game: &Json) -> (r: bool)
    ensures
        r == is_wuwa(game@),
{
    match game.get("id") {
        Some(id) => match id.as_str() {
            Some(id) => same(id, WUWA_ID),
            None => false,
        },
        None => false,
    }
}

/// The entries of the game, in order.
pub open spec fn kept(games: Seq<Tree>) -> Seq<Tree>
    decreases games.len(),
{
    if games.len() == 0 {
        Seq::empty()
    } else if is_wuwa(games.last()) {
        kept(games.drop_last()).push(games.last())
    } else {
        kept(games.drop_last())
    }
}

/// The selection from a database: the entries of the game, and the local one.
/// There is none when the game is not in it.
pub open spec fn selection(database: Tree) -> Option<Tree> {
    match database {
        Tree::Array(games) => if kept(games).len() > 0 {
            Some(Tree::Array(kept(games).push(override_tree())))
        } else {
            None
        },
        _ => None,
    }
}

/// Selects the entries of the game from a database.
pub fn select_games(database: Json) -> (r: Option<Json>)
    ensures
        selection(database@) == match r {
            Some(json) => Some(json@),
            None => None,
        },
{
    match database {
        Json::Array(games) => {
            let ghost all = trees(games);
            let mut list: Vec<Json> = Vec::new();
            assert(all.take(0) == Seq::<Tree>::empty());
            assert(trees(list) =~= Seq::<Tree>::empty());
            for game in it: games
                invariant
                    it.seq() == games@,
                    all == trees(games),
                    trees(list) == kept(all.take(it.index() as int)),
            {
                assert(all.take(it.index() + 1).drop_last() == all.take(it.index() as int));
                assert(all.take(it.index() + 1).last() == game@);
                if names_wuwa(&game) {
                    let ghost before = trees(list);
                    let ghost shown = game@;
                    list.push(game);
                    assert(trees(list) =~= before.push(shown));
                }
            }
            assert(all.take(all.len() as int) == all);
            if list.len() == 0 {
                return None;
            }
            let ghost before = trees(list);
            list.push(override_entry());
            assert(trees(list) =~= before.push(override_tree()));
            Some(Json::Array(list))
        },
        _ => None,
    }
}

/// Whether a cache still looks like a selection: a list that is not empty, of
/// entries of the game only.
pub open spec fn is_selection(cache: Tree) -> bool {
    match cache {
        Tree::Array(games) => games.len() > 0 && forall|i: int|
            0 <= i < games.len() ==> is_wuwa(#[trigger] games[i]),
        _ => false,
    }
}

/// Whether the text of a cache still looks like a selection.
pub open spec fn valid_cache(body: Seq<char>) -> bool {
    parsed_text(body) matches Some(cache) && is_selection(cache)
}

/// A selection always looks like one.
pub proof fn selections_are_valid(database: Tree)
    ensures
        selection(database) matches Some(chosen) ==> is_selection(chosen),
{
    match database {
        Tree::Array(games) => {
            kept_are_wuwa(games);
            override_is_wuwa();
        },
        _ => {},
    }
}

proof fn kept_are_wuwa(games: Seq<Tree>)
    ensures
        forall|i: int| 0 <= i < kept(games).len() ==> is_wuwa(#[trigger] kept(games)[i]),
    decreases games.len(),
{
    if games.len() > 0 {
        let before = kept(games.drop_last());
        kept_are_wuwa(games.drop_last());
        assert forall|i: int| 0 <= i < kept(games).len() implies is_wuwa(
            #[trigger] kept(games)[i],
        ) by {
            if i < before.len() {
                assert(kept(games)[i] == before[i]);
            }
        }
    }
}

proof fn override_is_wuwa()
    ensures
        is_wuwa(override_tree()),
{
    reveal_strlit("id");
    reveal_strlit("name");
    reveal_strlit("hook");
    reveal_strlit("executables");
    let pairs = override_pairs();
    assert("id"@.len() == 2 && "name"@.len() == 4 && "hook"@.len() == 4 && "executables"@.len()
        == 11);
    crate::json::object_of_last(pairs, 0);
}

proof fn override_is_shallow()
    ensures
        override_tree().within((reading_depth() - 1) as nat),
{
    let executable = Tree::Object(object_of(executable_pairs()));
    object_is_readable(executable_pairs(), 124);
    let list = Tree::Array(seq![executable]);
    assert(list.within(125) && list.integral());
    object_is_readable(override_pairs(), 126);
}

proof fn kept_are_shallow(games: Seq<Tree>, levels: nat)
    requires
        forall|i: int| 0 <= i < games.len() ==> (#[trigger] games[i]).within(levels),
    ensures
        forall|i: int| 0 <= i < kept(games).len() ==> (#[trigger] kept(games)[i]).within(levels),
    decreases games.len(),
{
    if games.len() > 0 {
        let rest = games.drop_last();
        assert forall|i: int| 0 <= i < rest.len() implies (#[trigger] rest[i]).within(levels) by {
            assert(rest[i] == games[i]);
        }
        kept_are_shallow(rest, levels);
        let before = kept(rest);
        assert(games[games.len() - 1] == games.last());
        assert forall|i: int| 0 <= i < kept(games).len() implies (#[trigger] kept(
            games,
        )[i]).within(levels) by {
            if i < before.len() {
                assert(kept(games)[i] == before[i]);
            }
        }
    }
}

/// A selection holds the entries of the game, unchanged and in order, and the
/// local one behind them. There is one exactly for a list that has such an
/// entry.
pub proof fn selection_holds_the_entries(database: Tree)
    ensures
        selection(database) is Some <==> (database matches Tree::Array(games) && exists|i: int|
            0 <= i < games.len() && is_wuwa(#[trigger] games[i])),
        database matches Tree::Array(games) ==> (selection(database) matches Some(chosen)
            ==> chosen == Tree::Array(
            games.filter(|game: Tree| is_wuwa(game)).push(override_tree()),
        )),
{
    match database {
        Tree::Array(games) => {
            kept_is_filtered(games);
        },
        _ => {},
    }
}

proof fn kept_is_filtered(games: Seq<Tree>)
    ensures
        kept(games) == games.filter(|game: Tree| is_wuwa(game)),
        kept(games).len() > 0 <==> exists|i: int|
            0 <= i < games.len() && is_wuwa(#[trigger] games[i]),
    decreases games.len(),
{
    reveal(Seq::filter);
    if games.len() > 0 {
        let rest = games.drop_last();
        kept_is_filtered(rest);
        assert(games[games.len() - 1] == games.last());
        assert forall|i: int| 0 <= i < rest.len() implies #[trigger] rest[i] == games[i] by {}
        if kept(rest).len() > 0 {
            let i = choose|i: int| 0 <= i < rest.len() && is_wuwa(#[trigger] rest[i]);
            assert(is_wuwa(games[i]));
        }
        if exists|i: int| 0 <= i < games.len() && is_wuwa(#[trigger] games[i]) {
            let i = choose|i: int| 0 <= i < games.len() && is_wuwa(#[trigger] games[i]);
            if i < rest.len() {
                assert(is_wuwa(rest[i]));
            }
        }
    }
}

/// What is like a selection but for the values of numbers passes for one too.
pub proof fn likeness_is_valid(chosen: Tree, back: Tree)
    requires
        is_selection(chosen),
        chosen.alike(back),
    ensures
        is_selection(back),
{
    let (games, again) = (chosen->Array_0, back->Array_0);
    assert forall|i: int| 0 <= i < again.len() implies is_wuwa(#[trigger] again[i]) by {
        assert(is_wuwa(games[i]));
        assert(games[i].alike(again[i]));
        let (entry, other) = (games[i]->Object_0, again[i]->Object_0);
        assert(entry["id"@].alike(other["id"@]));
    }
}

/// Keeps of a database only the entries of the game, and adds the local one.
/// What comes out can be cached: it passes for a selection when it is read
/// again. It is then the selection itself, at least where every number in the
/// entries is a whole one; a fraction may be read back as a neighbour of
/// itself.
pub fn select_wuwa(body: &str) -> (r: Option<String>)
    ensures
        opt_view(r) == selected(body@),
        r matches Some(text) ==> ({
            let chosen = selection(parsed_text(body@)->Some_0)->Some_0;
            &&& valid_cache(text@)
            &&& reads_like(parsed_text(text@), chosen)
            &&& chosen.integral() ==> parsed_text(text@) == Some(chosen)
        }),
{
    let database = match parse(body) {
        Some(database) => database,
        None => {
            return None;
        },
    };
    let ghost all = database@;
    proof {
        selections_are_valid(all);
    }
    match select_games(database) {
        Some(chosen) => {
            proof {
                let games = all->Array_0;
                assert forall|i: int| 0 <= i < games.len() implies (#[trigger] games[i]).within(
                    (reading_depth() - 1) as nat,
                ) by {}
                kept_are_shallow(games, (reading_depth() - 1) as nat);
                override_is_shallow();
                assert(chosen@.within(reading_depth()));
            }
            let text = chosen.render();
            proof {
                likeness_is_valid(chosen@, parsed_text(text@)->Some_0);
            }
            Some(text)
        },
        None => None,
    }
}

/// Whether the document of a cache still looks like a selection.
pub fn looks_selected(cache: &Json) -> (r: bool)
    ensures
        r == is_selection(cache@),
{
    match cache.as_array() {
        Some(games) => {
            let mut i: usize = 0;
            while i < games.len()
                invariant
                    i <= games@.len(),
                    cache@ == Tree::Array(trees(*games)),
                    forall|j: int| 0 <= j < i ==> is_wuwa(#[trigger] trees(*games)[j]),
                decreases games@.len() - i,
            {
                if !names_wuwa(&games[i]) {
                    assert(!is_wuwa(trees(*games)[i as int]));
                    return false;
                }
                i += 1;
            }
            games.len() > 0
        },
        None => false,
    }
}

/// The text of a cache, when it still looks like a selection.
pub fn validate_cache(body: &str) -> (r: Option<String>)
    ensures
        opt_view(r) == if valid_cache(body@) {
            Some(body@)
        } else {
            None
        },
{
    match parse(body) {
        Some(cache) => if looks_selected(&cache) {
            Some(body.to_owned())
        } else {
            None
        },
        None => None,
    }
}

/// Whether a cache of an age, in seconds, is used without asking. One whose
/// age cannot be told is not.
pub open spec fn fresh(age: Option<u64>) -> bool {
    age matches Some(age) && age < CACHE_MAX_AGE
}

/// The cache, when it can be used: valid, and fresh where that is asked for.
pub fn load_cache(body: Option<&str>, age: Option<u64>, fresh_only: bool) -> (r: Option<String>)
    ensures
        opt_view(r) == match body {
            Some(body) => if (fresh_only ==> fresh(age)) && valid_cache(body@) {
                Some(body@)
            } else {
                None
            },
            None => None,
        },
{
    if fresh_only {
        let usable: bool = match age {
            Some(age) => age < CACHE_MAX_AGE,
            None => false,
        };
        if !usable {
            return None;
        }
    }
    match body {
        Some(body) => validate_cache(body),
        None => None,
    }
}

/// Where the cache lies: in a directory of this program under the cache
/// directory, or under the one in the home directory.
pub fn default_cache_dir(cache_home: Option<&str>, home: Option<&str>) -> (r: String)
    ensures
        r@ == joined(
            match cache_home {
                Some(base) => base@,
                None => match home {
                    Some(home) => joined(home@, ".cache"@),
                    None => joined("."@, ".cache"@),
                },
            },
            "wwrpc"@,
        ),
{
    let base: String = match cache_home {
        Some(base) => base.to_owned(),
        None => match home {
            Some(home) => join_path(home, ".cache"),
            None => join_path(".", ".cache"),
        },
    };
    join_path(base.as_str(), "wwrpc")
}

/// Where the database comes from, in the order of trying.
#[derive(Clone, Copy, Debug, PartialEq, Eq)]
pub enum Source {
    /// A fresh cache.
    Fresh,
    /// The database online.
    Online,
    /// A cache of any age.
    Stale,
    /// The database that came along.
    Bundled,
}

/// What trying a source came to.
#[derive(Debug)]
pub enum Supply {
    /// The text of the source: a cache, or a whole database.
    Text(String),
    /// Nothing, for this reason.
    Nothing(String),
}

/// What to do about the database.
#[derive(Debug, PartialEq, Eq)]
pub enum Pick {
    /// Use this selection; cache it first where it is new.
    Use { selection: String, store: bool },
    /// Try this source. The reason for which the database online could not be
    /// used goes along.
    Try(Source, String),
    /// There is no database.
    Fail(&'static str),
}

/// What to do about the database, as data.
pub enum PickView {
    Use { selection: Seq<char>, store: bool },
    Try(Source, Seq<char>),
    Fail(Seq<char>),
}

impl View for Pick {
    type V = PickView;

    open spec fn view(&self) -> PickView {
        match *self {
            Pick::Use { selection, store } => PickView::Use { selection: selection@, store },
            Pick::Try(source, reason) => PickView::Try(source, reason@),
            Pick::Fail(message) => PickView::Fail(message@),
        }
    }
}

/// What a source supplies: its text, or the reason why there is none.
pub open spec fn supplied(supply: Supply) -> Result<Seq<char>, Seq<char>> {
    match supply {
        Supply::Text(text) => Ok(text@),
        Supply::Nothing(reason) => Err(reason@),
    }
}

/// The selection from the text of a database.
pub open spec fn selected(body: Seq<char>) -> Option<Seq<char>> {
    match parsed_text(body) {
        Some(database) => match selection(database) {
            Some(chosen) => Some(rendered(chosen)),
            None => None,
        },
        None => None,
    }
}

/// What follows from trying a source: a fresh cache first, then the database
/// online, which is cached anew, then a cache of any age, and last the
/// database that came along.
pub open spec fn picked(
    source: Source,
    supply: Result<Seq<char>, Seq<char>>,
    reason: Seq<char>,
) -> PickView {
    match source {
        Source::Fresh => match supply {
            Ok(cache) => PickView::Use { selection: cache, store: false },
            Err(_) => PickView::Try(Source::Online, Seq::empty()),
        },
        Source::Online => match supply {
            Ok(body) => match selected(body) {
                Some(chosen) => PickView::Use { selection: chosen, store: true },
                None => PickView::Try(Source::Stale, MISSING_ONLINE@),
            },
            Err(why) => PickView::Try(Source::Stale, why),
        },
        Source::Stale => match supply {
            Ok(cache) => PickView::Use { selection: cache, store: false },
            Err(_) => PickView::Try(Source::Bundled, reason),
        },
        Source::Bundled => match supply {
            Ok(body) => match selected(body) {
                Some(chosen) => PickView::Use { selection: chosen, store: false },
                None => PickView::Fail(MISSING_BUNDLED@),
            },
            Err(_) => PickView::Fail(MISSING_BUNDLED@),
        },
    }
}

/// Decides what follows from trying a source. A cache is supplied as
/// [`load_cache`] gives it.
pub fn pick_database(source: Source, supply: Supply, reason: String) -> (r: Pick)
    ensures
        r@ == picked(source, supplied(supply), reason@),
{
    match source {
        Source::Fresh => match supply {
            Supply::Text(cache) => Pick::Use { selection: cache, store: false },
            Supply::Nothing(_) => {
                let none = String::new();
                assert(none@ =~= Seq::<char>::empty());
                Pick::Try(Source::Online, none)
            },
        },
        Source::Online => match supply {
            Supply::Text(body) => match select_wuwa(body.as_str()) {
                Some(chosen) => Pick::Use { selection: chosen, store: true },
                None => Pick::Try(Source::Stale, MISSING_ONLINE.to_owned()),
            },
            Supply::Nothing(why) => Pick::Try(Source::Stale, why),
        },
        Source::Stale => match supply {
            Supply::Text(cache) => Pick::Use { selection: cache, store: false },
            Supply::Nothing(_) => Pick::Try(Source::Bundled, reason),
        },
        Source::Bundled => match supply {
            Supply::Text(body) => match select_wuwa(body.as_str()) {
                Some(chosen) => Pick::Use { selection: chosen, store: false },
                None => Pick::Fail(MISSING_BUNDLED),
            },
            Supply::Nothing(_) => Pick::Fail(MISSING_BUNDLED),
        },
    }
}

/// The search for a database ends: each source that is tried next stands
/// later in the order.
pub proof fn database_search_ends(
    source: Source,
    supply: Result<Seq<char>, Seq<char>>,
    reason: Seq<char>,
)
    ensures
        picked(source, supply, reason) matches PickView::Try(next, _) ==> rank(next) > rank(source),
{
}

/// The place of a source in the order of trying.
pub open spec fn rank(source: Source) -> int {
    match source {
        Source::Fresh => 0,
        Source::Online => 1,
        Source::Stale => 2,
        Source::Bundled => 3,
    }
}

/// A game that a scan found.
#[derive(Clone, Debug, PartialEq, Eq)]
pub struct DetectedGame {
    pub id: String,
    pub pid: Option<u64>,
}

/// The game among those that a scan found: the first with its id.
pub fn running_game(games: &Vec<DetectedGame>) -> (r: Option<usize>)
    ensures
        match r {
            Some(at) => at < games@.len() && games@[at as int].id@ == WUWA_ID@ && forall|i: int|
                0 <= i < at ==> (#[trigger] games@[i]).id@ != WUWA_ID@,
            None => forall|i: int|
                0 <= i < games@.len() ==> (#[trigger] games@[i]).id@ != WUWA_ID@,
        },
{
    let mut i: usize = 0;
    while i < games.len()
        invariant
            i <= games@.len(),
            forall|j: int| 0 <= j < i ==> (#[trigger] games@[j]).id@ != WUWA_ID@,
        decreases games@.len() - i,
    {
        if same(games[i].id.as_str(), WUWA_ID) {
            return Some(i);
        }
        i += 1;
    }
    None
}

/// How many characters come before the first white space.
pub open spec fn word_len(s: Seq<char>) -> nat
    decreases s.len(),
{
    if s.len() == 0 || white(s[0]) {
        0
    } else {
        1 + word_len(s.skip(1))
    }
}

/// A word of a text, counted from zero: words stand between white space.
pub open spec fn nth_word(s: Seq<char>, n: nat) -> Option<Seq<char>>
    decreases n,
{
    let rest = trimmed_start(s);
    if rest.len() == 0 {
        None
    } else if n == 0 {
        Some(rest.take(word_len(rest) as int))
    } else {
        nth_word(rest.skip(word_len(rest) as int), (n - 1) as nat)
    }
}

/// Finds a word of a text, from a place on.
fn find_word(chars: &Vec<char>, from: usize, n: usize) -> (r: Option<String>)
    requires
        from <= chars@.len(),
    ensures
        opt_view(r) == nth_word(chars@.skip(from as int), n as nat),
{
    let ghost all = chars@.skip(from as int);
    let mut at: usize = from;
    let mut left: usize = n;
    loop
        invariant
            at <= chars@.len(),
            left <= n,
            nth_word(all, n as nat) == nth_word(chars@.skip(at as int), left as nat),
            all == chars@.skip(from as int),
        decreases left,
    {
        let ghost here = chars@.skip(at as int);
        while at < chars.len() && is_white(chars[at])
            invariant
                at <= chars@.len(),
                trimmed_start(here) == trimmed_start(chars@.skip(at as int)),
            decreases chars@.len() - at,
        {
            assert(chars@.skip(at as int).skip(1) == chars@.skip(at + 1));
            at += 1;
        }
        let ghost rest = chars@.skip(at as int);
        assert(trimmed_start(here) == rest);
        if at == chars.len() {
            return None;
        }
        let start: usize = at;
        assert(rest.skip(0) == rest);
        while at < chars.len() && !is_white(chars[at])
            invariant
                start <= at <= chars@.len(),
                rest == chars@.skip(start as int),
                word_len(rest) == (at - start) + word_len(rest.skip(at - start)),
            decreases chars@.len() - at,
        {
            assert(rest.skip(at - start).skip(1) == rest.skip(at - start + 1));
            at += 1;
        }
        assert(word_len(rest) == at - start);
        if left == 0 {
            let word = text_of(chars, start, at);
            assert(word@ =~= rest.take(at - start));
            return Some(word);
        }
        assert(rest.skip(at - start) =~= chars@.skip(at as int));
        left -= 1;
    }
}

/// An integer that a text writes, if it fits.
pub open spec fn integer_in(s: Seq<char>) -> Option<int> {
    match signed(s) {
        Some(n) if i64::MIN <= n <= i64::MAX => Some(n),
        _ => None,
    }
}

/// When a process was started, in clock ticks since boot, as the text of its
/// status says: the twentieth word behind the name, which stands in
/// parentheses and may hold some itself.
pub open spec fn ticks_of(stat: Seq<char>) -> Option<int> {
    match nth_word(stat.skip(after_last(stat, ')')), 19) {
        Some(word) => integer_in(word),
        None => None,
    }
}

/// Reads when a process was started, in clock ticks since boot.
pub fn start_ticks(stat: &str) -> (r: Option<i64>)
    ensures
        ticks_of(stat@) == match r {
            Some(n) => Some(n as int),
            None => None,
        },
{
    let chars = chars_of(stat);
    assert(chars@.take(chars@.len() as int) == chars@);
    let from: usize = find_after_last(&chars, chars.len(), ')');
    match find_word(&chars, from, 19) {
        Some(word) => parse_i64(word.as_str()),
        None => None,
    }
}

/// How many characters come before the first line break.
pub open spec fn line_len(s: Seq<char>) -> nat
    decreases s.len(),
{
    if s.len() == 0 || s[0] == '\n' {
        0
    } else {
        1 + line_len(s.skip(1))
    }
}

proof fn line_fits(s: Seq<char>)
    ensures
        line_len(s) <= s.len(),
    decreases s.len(),
{
    if s.len() > 0 && s[0] != '\n' {
        line_fits(s.skip(1));
    }
}

/// The boot time that one line gives.
pub open spec fn boot_in_line(line: Seq<char>) -> Option<int> {
    if stands_at(line, "btime "@, 0) {
        integer_in(trimmed(line.skip("btime "@.len() as int)))
    } else {
        None
    }
}

/// The boot time, in seconds since the epoch, as the text of the system's
/// status says: the first line that gives one.
pub open spec fn boot_of(stat: Seq<char>) -> Option<int>
    decreases stat.len(),
    via boot_of_shrinks
{
    let end = line_len(stat) as int;
    match boot_in_line(stat.take(end)) {
        Some(time) => Some(time),
        None => if end < stat.len() {
            boot_of(stat.skip(end + 1))
        } else {
            None
        },
    }
}

#[via_fn]
proof fn boot_of_shrinks(stat: Seq<char>) {
    line_fits(stat);
}

/// Reads the boot time that one line gives.
fn read_boot_line(chars: &Vec<char>, from: usize, to: usize) -> (r: Option<i64>)
    requires
        from <= to <= chars@.len(),
    ensures
        boot_in_line(chars@.subrange(from as int, to as int)) == match r {
            Some(n) => Some(n as int),
            None => None,
        },
{
    let ghost line = chars@.subrange(from as int, to as int);
    let prefix = chars_of("btime ");
    let text = chars_of(text_of(chars, from, to).as_str());
    if crate::text::char_stands_at(&text, &prefix, 0) {
        let value = text_of(&text, prefix.len(), text.len());
        assert(value@ =~= line.skip(prefix@.len() as int));
        parse_i64(trim(value.as_str()).as_str())
    } else {
        None
    }
}

/// Reads the boot time, in seconds since the epoch.
pub fn boot_epoch(stat: &str) -> (r: Option<i64>)
    ensures
        boot_of(stat@) == match r {
            Some(n) => Some(n as int),
            None => None,
        },
{
    let chars = chars_of(stat);
    let mut from: usize = 0;
    assert(chars@.skip(0) == chars@);
    loop
        invariant
            from <= chars@.len(),
            chars@ == stat@,
            boot_of(stat@) == boot_of(chars@.skip(from as int)),
        decreases chars@.len() - from,
    {
        let ghost rest = chars@.skip(from as int);
        let mut to: usize = from;
        assert(rest.skip(0) == rest);
        while to < chars.len() && chars[to] != '\n'
            invariant
                from <= to <= chars@.len(),
                rest == chars@.skip(from as int),
                line_len(rest) == (to - from) + line_len(rest.skip(to - from)),
            decreases chars@.len() - to,
        {
            assert(rest.skip(to - from).skip(1) == rest.skip(to - from + 1));
            to += 1;
        }
        assert(line_len(rest) == to - from);
        assert(rest.take(to - from) =~= chars@.subrange(from as int, to as int));
        let found: Option<i64> = read_boot_line(&chars, from, to);
        if found.is_some() {
            return found;
        }
        if to == chars.len() {
            return None;
        }
        assert(rest.skip(to - from + 1) =~= chars@.skip(to + 1));
        from = to + 1;
    }
}

/// A quotient rounded towards zero.
pub open spec fn quotient(n: int, by: int) -> int {
    if n >= 0 {
        n / by
    } else {
        -((-n) / by)
    }
}

/// When a process was started, in milliseconds since the epoch.
pub open spec fn started(ticks: int, hz: int, boot: int) -> int {
    (boot + quotient(ticks, hz)) * 1000
}

/// Adds up when a process was started; nothing when the clock's rate is not
/// positive or the time does not fit.
pub fn start_millis(ticks: i64, hz: i64, boot: i64) -> (r: Option<i64>)
    ensures
        r == if hz > 0 && i64::MIN <= started(ticks as int, hz as int, boot as int) <= i64::MAX {
            Some(started(ticks as int, hz as int, boot as int) as i64)
        } else {
            None
        },
{
    if hz <= 0 {
        return None;
    }
    let rate: u128 = hz as u128;
    let seconds: i128 = if ticks >= 0 {
        let n: u128 = ticks as u128;
        assert(0 <= n / rate <= n) by (nonlinear_arith)
            requires
                rate >= 1,
                n >= 0,
        ;
        (n / rate) as i128
    } else {
        let n: u128 = (-(ticks as i128)) as u128;
        assert(0 <= n / rate <= n) by (nonlinear_arith)
            requires
                rate >= 1,
                n >= 0,
        ;
        -((n / rate) as i128)
    };
    assert(seconds == quotient(ticks as int, hz as int));
    let millis: i128 = (boot as i128 + seconds) * 1000;
    if -0x8000_0000_0000_0000 <= millis && millis <= 0x7fff_ffff_ffff_ffff {
        Some(millis as i64)
    } else {
        None
    }
}

/// When a process was started, in milliseconds since the epoch, given the
/// text of its status, the rate of the clock ticks, and the text of the
/// system's status. Nothing when that cannot be told.
pub fn process_start_millis(stat: &str, hz: i64, system: &str) -> (r: Option<i64>)
    ensures
        match (ticks_of(stat@), boot_of(system@)) {
            (Some(ticks), Some(boot)) => r == if hz > 0 && i64::MIN <= started(
                ticks,
                hz as int,
                boot,
            ) <= i64::MAX {
                Some(started(ticks, hz as int, boot) as i64)
            } else {
                None
            },
            _ => r is None,
        },
{
    match (start_ticks(stat), boot_epoch(system)) {
        (Some(ticks), Some(boot)) => start_millis(ticks, hz, boot),
        _ => None,
    }
}

/// The local entry, in full: the game's id and name, and the executable by
/// which it is known on this system.
pub proof fn local_entry_names_the_executable(r: Json)
    requires
        call_ensures(override_entry, (), r),
    ensures
        r@ == Tree::Object(
            map![
                "id"@ => Tree::Text("1247227126416146462"@),
                "name"@ => Tree::Text("Wuthering Waves"@),
                "hook"@ => Tree::Bool(false),
                "executables"@ => Tree::Array(
                    seq![
                        Tree::Object(
                            map![
                                "name"@ => Tree::Text("client-win64-shipping.exe"@),
                                "is_launcher"@ => Tree::Bool(false),
                                "os"@ => Tree::Text("linux"@),
                            ],
                        ),
                    ],
                ),
            ],
        ),
{
    let (a, b, c) = (
        ("name"@, Tree::Text("client-win64-shipping.exe"@)),
        ("is_launcher"@, Tree::Bool(false)),
        ("os"@, Tree::Text("linux"@)),
    );
    crate::json::object_of_one(a.0, a.1);
    crate::json::object_of_more(seq![a], b);
    crate::json::object_of_more(seq![a].push(b), c);
    assert(seq![a].push(b).push(c) =~= executable_pairs());
    let executable = Tree::Object(object_of(executable_pairs()));
    let (i, n, h, e) = (
        ("id"@, Tree::Text("1247227126416146462"@)),
        ("name"@, Tree::Text("Wuthering Waves"@)),
        ("hook"@, Tree::Bool(false)),
        ("executables"@, Tree::Array(seq![executable])),
    );
    crate::json::object_of_one(i.0, i.1);
    crate::json::object_of_more(seq![i], n);
    crate::json::object_of_more(seq![i].push(n), h);
    crate::json::object_of_more(seq![i].push(n).push(h), e);
    assert(seq![i].push(n).push(h).push(e) =~= override_pairs());
}

/// An entry is the game's exactly when its id is this text.
pub proof fn games_are_known_by_id(game: Json, r: bool)
    requires
        call_ensures(names_wuwa, (&game,), r),
    ensures
        r <==> game@.has("id"@, Tree::Text("1247227126416146462"@)),
{
}

/// A selection keeps every entry of the game, as it is and in order, and ends
/// in the local one; a database without such an entry, or that is no list,
/// has none.
pub proof fn selections_keep_the_game(database: Json, entry: Json, r: Option<Json>)
    requires
        call_ensures(select_games, (database,), r),
        call_ensures(override_entry, (), entry),
    ensures
        database@ !is Array ==> r is None,
        database@ matches Tree::Array(games) ==> {
            &&& r is Some <==> exists|i: int|
                0 <= i < games.len() && (#[trigger] games[i]).has(
                    "id"@,
                    Tree::Text("1247227126416146462"@),
                )
            &&& r matches Some(chosen) ==> chosen@ == Tree::Array(
                games.filter(
                    |game: Tree| game.has("id"@, Tree::Text("1247227126416146462"@)),
                ).push(entry@),
            )
        },
{
    selection_holds_the_entries(database@);
    assert forall|game: Tree| #[trigger] is_wuwa(game) == game.has(
        "id"@,
        Tree::Text("1247227126416146462"@),
    ) by {}
    if let Tree::Array(games) = database@ {
        let ours = |game: Tree| is_wuwa(game);
        let theirs = |game: Tree| game.has("id"@, Tree::Text("1247227126416146462"@));
        same_filter(games, ours, theirs);
        if exists|i: int| 0 <= i < games.len() && is_wuwa(#[trigger] games[i]) {
            let i = choose|i: int| 0 <= i < games.len() && is_wuwa(#[trigger] games[i]);
            assert(games[i].has("id"@, Tree::Text("1247227126416146462"@)));
        }
        if exists|i: int|
            0 <= i < games.len() && (#[trigger] games[i]).has(
                "id"@,
                Tree::Text("1247227126416146462"@),
            ) {
            let i = choose|i: int|
                0 <= i < games.len() && (#[trigger] games[i]).has(
                    "id"@,
                    Tree::Text("1247227126416146462"@),
                );
            assert(is_wuwa(games[i]));
        }
    }
}

proof fn same_filter(
    games: Seq<Tree>,
    ours: spec_fn(Tree) -> bool,
    theirs: spec_fn(Tree) -> bool,
)
    requires
        forall|game: Tree| #[trigger] ours(game) == theirs(game),
    ensures
        games.filter(ours) == games.filter(theirs),
    decreases games.len(),
{
    reveal(Seq::filter);
    if games.len() > 0 {
        same_filter(games.drop_last(), ours, theirs);
        assert(ours(games.last()) == theirs(games.last()));
    }
}

/// A cache passes exactly when it is a list that is not empty, of entries of
/// the game only, and is then used as it is.
pub proof fn caches_hold_the_game_only(cache: Json, body: &str, looks: bool, r: Option<String>)
    requires
        call_ensures(looks_selected, (&cache,), looks),
        call_ensures(validate_cache, (body,), r),
        parsed_text(body@) == Some(cache@),
    ensures
        looks <==> cache@ is Array && cache@->Array_0.len() > 0 && forall|i: int|
            0 <= i < cache@->Array_0.len() ==> (#[trigger] cache@->Array_0[i]).has(
                "id"@,
                Tree::Text("1247227126416146462"@),
            ),
        r is Some <==> looks,
        r matches Some(text) ==> text@ == body@,
{
    if let Tree::Array(games) = cache@ {
        assert forall|i: int| 0 <= i < games.len() implies is_wuwa(#[trigger] games[i])
            == games[i].has("id"@, Tree::Text("1247227126416146462"@)) by {}
        if looks {
            assert forall|i: int| 0 <= i < games.len() implies (#[trigger] games[i]).has(
                "id"@,
                Tree::Text("1247227126416146462"@),
            ) by {
                assert(is_wuwa(games[i]));
            }
        }
    }
}

/// A text that is no document is no cache.
pub proof fn caches_are_documents(body: &str, r: Option<String>)
    requires
        call_ensures(validate_cache, (body,), r),
        parsed_text(body@) is None,
    ensures
        r is None,
{
}

/// A cache is used when it passes and, where a fresh one is asked for, is known
/// to be less than a week old.
pub proof fn caches_are_fresh_for_a_week(
    body: Option<&str>,
    age: Option<u64>,
    fresh_only: bool,
    valid: Option<String>,
    r: Option<String>,
)
    requires
        call_ensures(load_cache, (body, age, fresh_only), r),
        body matches Some(body) ==> call_ensures(validate_cache, (body,), valid),
    ensures
        body is None ==> r is None,
        fresh_only && (age is None || age->Some_0 >= 604800) ==> r is None,
        body is Some && (!fresh_only || (age is Some && age->Some_0 < 604800)) ==> opt_view(r)
            == opt_view(valid),
{
}

/// The cache lies under the cache directory, else under the one in the home
/// directory, else under the one right here.
pub proof fn caches_lie_under_a_base(
    cache_home: Option<&str>,
    home: Option<&str>,
    r: String,
)
    requires
        call_ensures(default_cache_dir, (cache_home, home), r),
    ensures
        cache_home matches Some(base) ==> r@ == joined(base@, "wwrpc"@),
        cache_home is None && home is Some ==> r@ == joined(
            joined(home->Some_0@, ".cache"@),
            "wwrpc"@,
        ),
        cache_home is None && home is None ==> r@ == joined(joined("."@, ".cache"@), "wwrpc"@),
{
}

/// What follows from a cache that was supplied, or was not: it is used as it
/// is, and without it the next source is tried, with the reason of before
/// where the database online was tried already.
pub proof fn caches_are_used_as_they_are(
    source: Source,
    supply: Supply,
    reason: String,
    r: Pick,
)
    requires
        call_ensures(pick_database, (source, supply, reason), r),
        source == Source::Fresh || source == Source::Stale,
    ensures
        supply matches Supply::Text(cache) ==> (r matches Pick::Use { selection, store }
            && selection@ == cache@ && !store),
        supply is Nothing && source == Source::Fresh ==> (r matches Pick::Try(next, why) && next
            == Source::Online && why@.len() == 0),
        supply is Nothing && source == Source::Stale ==> (r matches Pick::Try(next, why) && next
            == Source::Bundled && why@ == reason@),
{
}

/// What follows from a database that was supplied, or was not: its selection
/// is used, and that of the one online is stored; without one the next source
/// is tried, and after the one that came along there is none.
pub proof fn databases_are_selected_from(
    source: Source,
    supply: Supply,
    reason: String,
    body: &str,
    chosen: Option<String>,
    r: Pick,
)
    requires
        call_ensures(pick_database, (source, supply, reason), r),
        source == Source::Online || source == Source::Bundled,
        supply matches Supply::Text(text) ==> body@ == text@,
        call_ensures(select_wuwa, (body,), chosen),
    ensures
        supply is Text && chosen is Some ==> (r matches Pick::Use { selection, store } && selection@
            == chosen->Some_0@ && store == (source == Source::Online)),
        supply is Text && chosen is None && source == Source::Online ==> (r matches Pick::Try(
            next,
            why,
        ) && next == Source::Stale && why@ == "Wuthering Waves missing from the online database"@),
        supply is Nothing && source == Source::Online ==> (r matches Pick::Try(next, why) && next
            == Source::Stale && why@ == supply->Nothing_0@),
        (supply is Nothing || chosen is None) && source == Source::Bundled ==> (
        r matches Pick::Fail(message) && message@
            == "Wuthering Waves missing from the bundled database; update rsrpc?"@),
{
}

/// A selection is made from the text of a document, and written as one.
pub proof fn selections_are_written(
    body: &str,
    database: Json,
    chosen: Option<Json>,
    r: Option<String>,
)
    requires
        call_ensures(select_wuwa, (body,), r),
        parsed_text(body@) == Some(database@),
        call_ensures(select_games, (database,), chosen),
    ensures
        r is Some <==> chosen is Some,
        r matches Some(text) ==> text@ == rendered(chosen->Some_0@),
{
}

/// The game that runs is the first one of a scan with its id.
pub proof fn first_game_with_the_id_runs(games: Vec<DetectedGame>, r: Option<usize>)
    requires
        call_ensures(running_game, (&games,), r),
    ensures
        r matches Some(at) ==> at < games@.len() && games@[at as int].id@ == "1247227126416146462"@
            && forall|i: int| 0 <= i < at ==> (#[trigger] games@[i]).id@ != "1247227126416146462"@,
        r is None ==> forall|i: int|
            0 <= i < games@.len() ==> (#[trigger] games@[i]).id@ != "1247227126416146462"@,
{
}

/// Words stand between white space: with white space before it and none in it,
/// a word is the first of a text that goes on with white space or not at all,
/// and the words behind it are those of the rest.
pub proof fn words_stand_between_spaces(
    lead: Seq<char>,
    word: Seq<char>,
    tail: Seq<char>,
    n: nat,
)
    requires
        forall|i: int| 0 <= i < lead.len() ==> white(#[trigger] lead[i]),
        forall|i: int| 0 <= i < word.len() ==> !white(#[trigger] word[i]),
        word.len() > 0,
        tail.len() > 0 ==> white(tail[0]),
    ensures
        nth_word(lead + word + tail, 0) == Some(word),
        nth_word(lead + word + tail, n + 1) == nth_word(tail, n),
        nth_word(lead, n) is None,
{
    let rest = word + tail;
    leading_spaces_go(lead, rest);
    leading_spaces_go(lead, Seq::empty());
    assert(lead + word + tail =~= lead + rest);
    assert(lead + Seq::<char>::empty() =~= lead);
    assert(rest[0] == word[0]);
    assert(trimmed_start(rest) == rest);
    word_is_measured(word, tail);
    assert(rest.take(word.len() as int) =~= word);
    assert(rest.skip(word.len() as int) =~= tail);
}

proof fn leading_spaces_go(lead: Seq<char>, rest: Seq<char>)
    requires
        forall|i: int| 0 <= i < lead.len() ==> white(#[trigger] lead[i]),
    ensures
        trimmed_start(lead + rest) == trimmed_start(rest),
    decreases lead.len(),
{
    if lead.len() > 0 {
        leading_spaces_go(lead.skip(1), rest);
        assert((lead + rest)[0] == lead[0]);
        assert((lead + rest).skip(1) =~= lead.skip(1) + rest);
    } else {
        assert(lead + rest =~= rest);
    }
}

proof fn word_is_measured(word: Seq<char>, tail: Seq<char>)
    requires
        forall|i: int| 0 <= i < word.len() ==> !white(#[trigger] word[i]),
        tail.len() > 0 ==> white(tail[0]),
    ensures
        word_len(word + tail) == word.len(),
    decreases word.len(),
{
    if word.len() > 0 {
        assert((word + tail)[0] == word[0]);
        assert((word + tail).skip(1) =~= word.skip(1) + tail);
        word_is_measured(word.skip(1), tail);
    } else {
        assert(word + tail =~= tail);
    }
}

/// The start of a process is the twentieth word behind the last parenthesis
/// that closes its name, where that is an integer of 64 bits.
pub proof fn starts_stand_behind_the_name(
    stat: &str,
    head: Seq<char>,
    tail: Seq<char>,
    r: Option<i64>,
)
    requires
        call_ensures(start_ticks, (stat,), r),
        stat@ == head + seq![')'] + tail,
        forall|i: int| 0 <= i < tail.len() ==> #[trigger] tail[i] != ')',
    ensures
        r matches Some(n) ==> nth_word(tail, 19) is Some && signed(nth_word(tail, 19)->Some_0)
            == Some(n as int),
        r is None ==> nth_word(tail, 19) is None || signed(nth_word(tail, 19)->Some_0) is None
            || !(i64::MIN <= signed(nth_word(tail, 19)->Some_0)->Some_0 <= i64::MAX),
{
    last_one_is_found(head, ')', tail);
    assert(stat@.skip(head.len() as int + 1) =~= tail);
}

proof fn last_one_is_found(head: Seq<char>, c: char, tail: Seq<char>)
    requires
        forall|i: int| 0 <= i < tail.len() ==> #[trigger] tail[i] != c,
    ensures
        after_last(head + seq![c] + tail, c) == head.len() + 1,
    decreases tail.len(),
{
    let all = head + seq![c] + tail;
    if tail.len() > 0 {
        assert(all.last() == tail.last());
        assert(tail[tail.len() - 1] == tail.last());
        assert(all.drop_last() =~= head + seq![c] + tail.drop_last());
        last_one_is_found(head, c, tail.drop_last());
    } else {
        assert(all.last() == c);
    }
}

/// The boot time is given by the first line that has one.
pub proof fn first_boot_line_counts(line: Seq<char>, rest: Seq<char>)
    requires
        forall|i: int| 0 <= i < line.len() ==> #[trigger] line[i] != '\n',
    ensures
        boot_of(line) == boot_in_line(line),
        boot_in_line(line) is Some ==> boot_of(line + seq!['\n'] + rest) == boot_in_line(line),
        boot_in_line(line) is None ==> boot_of(line + seq!['\n'] + rest) == boot_of(rest),
{
    let all = line + seq!['\n'] + rest;
    line_is_measured(line, seq!['\n'] + rest);
    line_is_measured(line, Seq::empty());
    assert(all =~= line + (seq!['\n'] + rest));
    assert(line + Seq::<char>::empty() =~= line);
    assert(all.take(line.len() as int) =~= line);
    assert(line.take(line.len() as int) =~= line);
    assert(all.skip(line.len() as int + 1) =~= rest);
}

proof fn line_is_measured(line: Seq<char>, tail: Seq<char>)
    requires
        forall|i: int| 0 <= i < line.len() ==> #[trigger] line[i] != '\n',
        tail.len() > 0 ==> tail[0] == '\n',
    ensures
        line_len(line + tail) == line.len(),
    decreases line.len(),
{
    if line.len() > 0 {
        assert((line + tail)[0] == line[0]);
        assert((line + tail).skip(1) =~= line.skip(1) + tail);
        line_is_measured(line.skip(1), tail);
    } else {
        assert(line + tail =~= tail);
    }
}

/// A line gives a boot time exactly when it starts with the word for it and an
/// integer of 64 bits follows, with white space around it at most.
pub proof fn boot_lines_say_so(line: Seq<char>, value: Seq<char>, n: int)
    ensures
        line == "btime "@ + value ==> (boot_in_line(line) == Some(n) <==> signed(trimmed(value))
            == Some(n) && i64::MIN <= n <= i64::MAX),
        line.len() < 6 || line.take(6) != "btime "@ ==> boot_in_line(line) is None,
{
    reveal_strlit("btime ");
    assert("btime "@.len() == 6);
    if line == "btime "@ + value {
        assert(line.subrange(0, 6) =~= "btime "@);
        assert(line.skip(6) =~= value);
    }
    if line.len() >= 6 {
        assert(line.take(6) =~= line.subrange(0, 6));
    }
}

/// The boot time that is read is the one that the text gives.
pub proof fn boot_times_are_read(stat: &str, r: Option<i64>)
    requires
        call_ensures(boot_epoch, (stat,), r),
    ensures
        r is Some <==> boot_of(stat@) is Some,
        r matches Some(n) ==> boot_of(stat@) == Some(n as int),
{
}

/// A start is told in milliseconds: the boot time and the ticks in whole
/// seconds, rounded towards the boot, added up. Nothing is told where the rate
/// is not positive or the sum does not fit.
pub proof fn starts_add_up(ticks: i64, hz: i64, boot: i64, seconds: int, r: Option<i64>)
    requires
        call_ensures(start_millis, (ticks, hz, boot), r),
        hz > 0,
        ticks >= 0 ==> seconds >= 0 && seconds * hz <= ticks < (seconds + 1) * hz,
        ticks < 0 ==> seconds <= 0 && (seconds - 1) * hz < ticks <= seconds * hz,
    ensures
        -9223372036854775808 <= (boot + seconds) * 1000 <= 9223372036854775807 ==> r is Some
            && r->Some_0 == (boot + seconds) * 1000,
        !(-9223372036854775808 <= (boot + seconds) * 1000 <= 9223372036854775807) ==> r is None,
{
    if ticks >= 0 {
        assert(ticks - seconds * hz < hz) by (nonlinear_arith)
            requires
                ticks < (seconds + 1) * hz,
        ;
        vstd::arithmetic::div_mod::lemma_fundamental_div_mod_converse(
            ticks as int,
            hz as int,
            seconds,
            ticks - seconds * hz,
        );
    } else {
        assert(ticks - seconds * hz > -hz) by (nonlinear_arith)
            requires
                (seconds - 1) * hz < ticks,
        ;
        assert(-ticks == (-seconds) * hz + (seconds * hz - ticks)) by (nonlinear_arith);
        vstd::arithmetic::div_mod::lemma_fundamental_div_mod_converse(
            -ticks as int,
            hz as int,
            -seconds,
            seconds * hz - ticks,
        );
    }
}

/// A clock without a rate tells nothing.
pub proof fn starts_need_a_rate(ticks: i64, hz: i64, boot: i64, r: Option<i64>)
    requires
        call_ensures(start_millis, (ticks, hz, boot), r),
        hz <= 0,
    ensures
        r is None,
{
}

/// The start of a process comes from its ticks and the boot time, and is not
/// told without either.
pub proof fn starts_need_ticks_and_boot(
    stat: &str,
    hz: i64,
    system: &str,
    ticks: Option<i64>,
    boot: Option<i64>,
    sum: Option<i64>,
    r: Option<i64>,
)
    requires
        call_ensures(process_start_millis, (stat, hz, system), r),
        call_ensures(start_ticks, (stat,), ticks),
        call_ensures(boot_epoch, (system,), boot),
        ticks is Some && boot is Some ==> call_ensures(
            start_millis,
            (ticks->Some_0, hz, boot->Some_0),
            sum,
        ),
    ensures
        ticks is Some && boot is Some ==> r == sum,
        ticks is None || boot is None ==> r is None,
{
}

} // verus!
