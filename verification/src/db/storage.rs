//! Where the game keeps its storage: layouts, file names, and the search for
//! a game directory.
//!
//! Directories are looked at elsewhere. Here stands what to look at next and
//! what to make of what was seen, over plain answers.
use crate::text::{
    all_digits, char_stands_at, chars_of, digit, glue, join_path, joined, same, stands_at,
};
use vstd::prelude::*;

verus! {

/// The database that is read.
pub const MAIN_DB: &'static str = "LocalStorage.db";

/// The name of its private copy.
pub const SNAPSHOT_DB: &'static str = "snapshot.db";

/// What the names of its companions end in: the journal of today, and the
/// files of another SQLite mode. Copied along so that a copy can recover.
pub const SIDECAR_SUFFIXES: [&'static str; 3] = ["-journal", "-wal", "-shm"];

/// How large a file may be to be copied. A healthy one has kilobytes.
pub const MAX_DB_BYTES: u64 = 67_108_864;

/// Where the device database lies, seen from the storage directory's parent.
pub const DEVICE_DB: &'static str = "DeviceSaved/DeviceStorage.db";

/// Where the storage lies under a game directory, in the order of probing:
/// directly, or under a folder of a standalone launcher.
pub const LAYOUTS: [&'static str; 3] = [
    "Client/Saved/LocalStorage",
    "Wuthering Waves Game/Client/Saved/LocalStorage",
    "wuthering waves game/Client/Saved/LocalStorage",
];

/// The folder of a Steam library.
pub const STEAMAPPS: &'static str = "steamapps";

/// Where the launcher keeps its accounts, under a Steam library.
pub const LAUNCHER_CACHE: &'static str =
    "compatdata/3513350/pfx/drive_c/users/steamuser/AppData/Roaming/KR_G153/A1834/KRSDKUserCache.json";

/// Where the launcher keeps its telemetry, under a Steam library.
pub const TELEMETRY_DB: &'static str =
    "compatdata/3513350/pfx/drive_c/users/steamuser/AppData/Roaming/KR_G153/KDData-data.db";

/// How deep the search goes below a root.
pub const MAX_DEPTH: u32 = 2;

/// How many directories below the roots the search takes in.
pub const MAX_DIRS: usize = 1024;

/// Whether a file name is `LocalStorage<digits>.db`.
pub open spec fn numbered(name: Seq<char>) -> bool {
    exists|number: Seq<char>| #[trigger]
        all_digits(number) && name == "LocalStorage"@ + number + ".db"@
}

/// Tells `LocalStorage2.db`, `LocalStorage10.db`, ... from the main database
/// and its companions.
pub fn is_numbered_db(file_name: &str) -> (r: bool)
    ensures
        r == numbered(file_name@),
{
    let name = chars_of(file_name);
    let prefix = chars_of("LocalStorage");
    let suffix = chars_of(".db");
    let ghost (p, s) = (prefix@, suffix@);
    let bare: bool = !char_stands_at(&name, &prefix, 0) || name.len() - prefix.len()
        <= suffix.len();
    if bare {
        proof {
            if numbered(name@) {
                let number = choose|number: Seq<char>| #[trigger]
                    all_digits(number) && name@ == p + number + s;
                assert(name@.subrange(0, p.len() as int) == p);
                assert(stands_at(name@, p, 0));
            }
        }
        return false;
    }
    let end: usize = name.len() - suffix.len();
    if !char_stands_at(&name, &suffix, end) {
        proof {
            if numbered(name@) {
                let number = choose|number: Seq<char>| #[trigger]
                    all_digits(number) && name@ == p + number + s;
                assert(name@.subrange(end as int, end + s.len()) == s);
            }
        }
        return false;
    }
    let mut i: usize = prefix.len();
    while i < end
        invariant
            p.len() <= i <= end,
            p.len() < end,
            end + s.len() == name@.len(),
            name@ == file_name@,
            p == "LocalStorage"@,
            s == ".db"@,
            forall|j: int| p.len() <= j < i ==> digit(#[trigger] name@[j]),
        decreases end - i,
    {
        if name[i] < '0' || name[i] > '9' {
            proof {
                if numbered(name@) {
                    let number = choose|number: Seq<char>| #[trigger]
                        all_digits(number) && name@ == p + number + s;
                    assert(number[i - p.len()] == name@[i as int]);
                    assert(digit(number[i - p.len()]));
                }
            }
            return false;
        }
        i += 1;
    }
    proof {
        let number = name@.subrange(p.len() as int, end as int);
        assert(name@.subrange(0, p.len() as int) == p);
        assert(name@.subrange(end as int, end + s.len()) == s);
        assert(name@ == p + number + s);
        assert(all_digits(number));
    }
    true
}

/// Whether any of the file names is a numbered database.
pub open spec fn any_numbered(names: Seq<String>) -> bool {
    exists|i: int| 0 <= i < names.len() && numbered((#[trigger] names[i])@)
}

/// Whether a directory holds a numbered database, by the names of its files.
pub fn has_numbered_db(names: &Vec<String>) -> (r: bool)
    ensures
        r == any_numbered(names@),
{
    let mut i: usize = 0;
    while i < names.len()
        invariant
            i <= names@.len(),
            forall|j: int| 0 <= j < i ==> !numbered((#[trigger] names@[j])@),
        decreases names@.len() - i,
    {
        if is_numbered_db(names[i].as_str()) {
            return true;
        }
        i += 1;
    }
    false
}

/// The names of the companions of the main database, each with the name of
/// its copy.
pub fn sidecars() -> (r: Vec<(String, String)>)
    ensures
        r@.len() == SIDECAR_SUFFIXES@.len(),
        forall|i: int|
            0 <= i < r@.len() ==> (#[trigger] r@[i]).0@ == MAIN_DB@ + SIDECAR_SUFFIXES@[i]@
                && r@[i].1@ == SNAPSHOT_DB@ + SIDECAR_SUFFIXES@[i]@,
{
    let suffixes = SIDECAR_SUFFIXES;
    let mut pairs: Vec<(String, String)> = Vec::new();
    let mut i: usize = 0;
    while i < suffixes.len()
        invariant
            i <= suffixes@.len(),
            suffixes == SIDECAR_SUFFIXES,
            pairs@.len() == i,
            forall|j: int|
                0 <= j < i ==> (#[trigger] pairs@[j]).0@ == MAIN_DB@ + SIDECAR_SUFFIXES@[j]@
                    && pairs@[j].1@ == SNAPSHOT_DB@ + SIDECAR_SUFFIXES@[j]@,
        decreases suffixes@.len() - i,
    {
        pairs.push((glue(MAIN_DB, suffixes[i]), glue(SNAPSHOT_DB, suffixes[i])));
        i += 1;
    }
    pairs
}

/// Whether a file may be copied: its size is known and sane.
pub fn copyable(bytes: Option<u64>) -> (r: bool)
    ensures
        r == (bytes matches Some(n) && n <= MAX_DB_BYTES),
{
    match bytes {
        Some(n) => n <= MAX_DB_BYTES,
        None => false,
    }
}

/// The first layout whose directory is there.
pub open spec fn layout(there: Seq<bool>) -> Option<Seq<char>> {
    if there[0] {
        Some(LAYOUTS@[0]@)
    } else if there[1] {
        Some(LAYOUTS@[1]@)
    } else if there[2] {
        Some(LAYOUTS@[2]@)
    } else {
        None
    }
}

/// Where the storage lies under a game directory, given which of the layouts'
/// directories are there.
pub fn resolve_storage_dir(there: [bool; 3]) -> (r: Option<&'static str>)
    ensures
        layout(there@) == crate::text::opt_str(r),
{
    let layouts = LAYOUTS;
    if there[0] {
        Some(layouts[0])
    } else if there[1] {
        Some(layouts[1])
    } else if there[2] {
        Some(layouts[2])
    } else {
        None
    }
}

/// Whether a name is that of a Steam library.
pub open spec fn is_library(name: Option<String>) -> bool {
    name matches Some(name) && name@ == STEAMAPPS@
}

/// The nearest Steam library above a path, given the names of the path itself
/// and of the directories above it, from the inside out.
pub fn steamapps_dir(names: &Vec<Option<String>>) -> (r: Option<usize>)
    ensures
        match r {
            Some(at) => at < names@.len() && is_library(names@[at as int]) && forall|i: int|
                0 <= i < at ==> !is_library(#[trigger] names@[i]),
            None => forall|i: int| 0 <= i < names@.len() ==> !is_library(#[trigger] names@[i]),
        },
{
    let mut i: usize = 0;
    while i < names.len()
        invariant
            i <= names@.len(),
            forall|j: int| 0 <= j < i ==> !is_library(#[trigger] names@[j]),
        decreases names@.len() - i,
    {
        let here: bool = match &names[i] {
            Some(name) => same(name.as_str(), STEAMAPPS),
            None => false,
        };
        if here {
            return Some(i);
        }
        i += 1;
    }
    None
}

/// Where games are looked for by default: the Steam library, a generic games
/// folder, and the data of a launcher in a sandbox.
pub fn default_roots(home: Option<&str>) -> (r: Vec<String>)
    ensures
        ({
            let base = match home {
                Some(home) => home@,
                None => "."@,
            };
            &&& r@.len() == 3
            &&& r@[0]@ == joined(base, ".steam/steam/steamapps/common/Wuthering Waves"@)
            &&& r@[1]@ == joined(base, "Games"@)
            &&& r@[2]@ == joined(base, ".var/app/app.twintaillauncher.ttl/data"@)
        }),
{
    let base: &str = match home {
        Some(home) => home,
        None => ".",
    };
    let mut roots: Vec<String> = Vec::new();
    roots.push(join_path(base, ".steam/steam/steamapps/common/Wuthering Waves"));
    roots.push(join_path(base, "Games"));
    roots.push(join_path(base, ".var/app/app.twintaillauncher.ttl/data"));
    roots
}

/// The directories that a search has yet to look at, by number and depth, the
/// next one last; how many it took in below the roots; the next free number.
pub struct Frontier {
    pub stack: Seq<(usize, u32)>,
    pub visited: nat,
    pub free: nat,
}

impl Frontier {
    /// A search that is full: nothing is left to look at.
    pub open spec fn given_up(self) -> Frontier {
        Frontier {
            stack: Seq::empty(),
            visited: MAX_DIRS as nat,
            free: (self.free + MAX_DIRS - self.visited) as nat,
        }
    }
}

/// What a search does next.
#[derive(Clone, Copy, Debug, PartialEq, Eq)]
pub enum Look {
    /// Tell whether this directory has a storage directory.
    Probe(usize),
    /// Tell which entries of this directory are directories, in order.
    Entries(usize),
    /// This directory is the game's.
    Found(usize),
    /// There is none.
    NotFound,
}

/// What a search was told.
#[derive(Debug)]
pub enum Seen {
    /// Nothing yet.
    Start,
    /// Whether the directory has a storage directory.
    Storage(bool),
    /// Which entries are directories; nothing when they cannot be read.
    Entries(Option<Vec<bool>>),
}

/// What a search was told, as data.
pub enum SeenView {
    Start,
    Storage(bool),
    Entries(Option<Seq<bool>>),
}

impl View for Seen {
    type V = SeenView;

    open spec fn view(&self) -> SeenView {
        match self {
            Seen::Start => SeenView::Start,
            Seen::Storage(there) => SeenView::Storage(*there),
            Seen::Entries(None) => SeenView::Entries(None),
            Seen::Entries(Some(entries)) => SeenView::Entries(Some(entries@)),
        }
    }
}

/// Takes in the directories among a list of entries, one level below `depth`.
/// Nothing comes of it when an entry is left and the search is full.
pub open spec fn taken_in(f: Frontier, entries: Seq<bool>, depth: u32) -> Option<Frontier>
    decreases entries.len(),
{
    if entries.len() == 0 {
        Some(f)
    } else if f.visited >= MAX_DIRS {
        None
    } else if entries[0] {
        taken_in(
            Frontier {
                stack: f.stack.push((f.free as usize, (depth + 1) as u32)),
                visited: f.visited + 1,
                free: f.free + 1,
            },
            entries.skip(1),
            depth,
        )
    } else {
        taken_in(f, entries.skip(1), depth)
    }
}

/// A search for a game directory: each root, then what lies below them, to a
/// bounded depth and number.
///
/// Directories go by numbers: the roots by their positions, those below by
/// the order in which the search takes them in.
#[derive(Debug)]
pub struct Discovery {
    /// How many roots there are.
    pub roots: usize,
    /// How many of them the search has turned to.
    pub ahead: usize,
    pub stack: Vec<(usize, u32)>,
    pub current: (usize, u32),
    pub visited: usize,
    pub free: usize,
}

/// A search, as data.
pub struct DiscoveryView {
    pub roots: nat,
    pub ahead: nat,
    pub frontier: Frontier,
    pub current: (usize, u32),
}

impl View for Discovery {
    type V = DiscoveryView;

    open spec fn view(&self) -> DiscoveryView {
        DiscoveryView {
            roots: self.roots as nat,
            ahead: self.ahead as nat,
            frontier: Frontier {
                stack: self.stack@,
                visited: self.visited as nat,
                free: self.free as nat,
            },
            current: self.current,
        }
    }
}

impl DiscoveryView {
    /// A search over so many roots that has looked at nothing yet. What lies
    /// below the last root comes first.
    pub open spec fn over(roots: nat) -> DiscoveryView {
        DiscoveryView {
            roots,
            ahead: 0,
            frontier: Frontier {
                stack: Seq::new(roots, |i: int| (i as usize, 0u32)),
                visited: 0,
                free: roots,
            },
            current: (0, 0),
        }
    }

    /// Turns to the next root; after the last one, to the directory taken in
    /// last. A root has been probed by then, so that its entries are next.
    pub open spec fn advanced(self) -> (DiscoveryView, Look) {
        if self.ahead < self.roots {
            (
                DiscoveryView { ahead: self.ahead + 1, current: (self.ahead as usize, 0), ..self },
                Look::Probe(self.ahead as usize),
            )
        } else if self.frontier.stack.len() == 0 {
            (self, Look::NotFound)
        } else {
            let next = self.frontier.stack.last();
            (
                DiscoveryView {
                    frontier: Frontier { stack: self.frontier.stack.drop_last(), ..self.frontier },
                    current: next,
                    ..self
                },
                if next.1 == 0 {
                    Look::Entries(next.0)
                } else {
                    Look::Probe(next.0)
                },
            )
        }
    }

    /// Whether the search looks below the current directory: only after all
    /// roots, and not too deep.
    pub open spec fn descends(self) -> bool {
        self.ahead == self.roots && self.current.1 < MAX_DEPTH
    }

    /// What a search does when it is told something.
    pub open spec fn step(self, seen: SeenView) -> (DiscoveryView, Look) {
        match seen {
            SeenView::Start => self.advanced(),
            SeenView::Storage(there) => if there {
                (self, Look::Found(self.current.0))
            } else if self.descends() && self.current.1 > 0 {
                (self, Look::Entries(self.current.0))
            } else {
                self.advanced()
            },
            SeenView::Entries(None) => self.advanced(),
            SeenView::Entries(Some(entries)) => if self.descends() {
                match taken_in(self.frontier, entries, self.current.1) {
                    Some(frontier) => (DiscoveryView { frontier, ..self }).advanced(),
                    None => (
                        DiscoveryView { frontier: self.frontier.given_up(), ..self },
                        Look::NotFound,
                    ),
                }
            } else {
                self.advanced()
            },
        }
    }

    /// How many directories the search may still turn to.
    pub open spec fn budget(self) -> int {
        (self.roots - self.ahead) + self.frontier.stack.len() + (MAX_DIRS - self.frontier.visited)
    }

    /// A search that was told of so many roots that they have no storage
    /// directory, and what it does then.
    pub open spec fn past(self, roots: nat) -> (DiscoveryView, Look)
        decreases roots,
    {
        if roots == 0 {
            self.step(SeenView::Start)
        } else {
            self.past((roots - 1) as nat).0.step(SeenView::Storage(false))
        }
    }
}

/// Taking in keeps the bounds of a search: it is never over-full, numbers stay
/// fresh, no directory is deeper than allowed, and the number of directories
/// it may turn to does not grow.
pub proof fn taking_in_is_bounded(f: Frontier, entries: Seq<bool>, depth: u32)
    requires
        f.visited <= MAX_DIRS,
        depth < MAX_DEPTH,
        f.free + MAX_DIRS - f.visited <= usize::MAX,
        forall|i: int|
            0 <= i < f.stack.len() ==> (#[trigger] f.stack[i]).1 <= MAX_DEPTH && f.stack[i].0
                < f.free,
    ensures
        taken_in(f, entries, depth) matches Some(g) ==> {
            &&& f.visited <= g.visited <= MAX_DIRS
            &&& g.free - g.visited == f.free - f.visited
            &&& g.stack.len() - g.visited == f.stack.len() - f.visited
            &&& forall|i: int|
                0 <= i < g.stack.len() ==> (#[trigger] g.stack[i]).1 <= MAX_DEPTH && g.stack[i].0
                    < g.free
        },
    decreases entries.len(),
{
    if entries.len() > 0 && f.visited < MAX_DIRS {
        if entries[0] {
            let g = Frontier {
                stack: f.stack.push((f.free as usize, (depth + 1) as u32)),
                visited: f.visited + 1,
                free: f.free + 1,
            };
            taking_in_is_bounded(g, entries.skip(1), depth);
        } else {
            taking_in_is_bounded(f, entries.skip(1), depth);
        }
    }
}

impl Discovery {
    /// The bounds of a search.
    pub open spec fn wf(&self) -> bool {
        &&& self.ahead <= self.roots
        &&& self.visited <= MAX_DIRS
        &&& self.current.1 <= MAX_DEPTH
        &&& self.free + MAX_DIRS - self.visited <= usize::MAX
        &&& forall|i: int|
            0 <= i < self.stack@.len() ==> (#[trigger] self.stack@[i]).1 <= MAX_DEPTH
                && self.stack@[i].0 < self.free
    }

    /// A search over so many roots.
    pub fn new(roots: usize) -> (r: Discovery)
        requires
            roots + MAX_DIRS <= usize::MAX,
        ensures
            r.wf(),
            r@ == DiscoveryView::over(roots as nat),
    {
        let mut stack: Vec<(usize, u32)> = Vec::new();
        let mut i: usize = 0;
        while i < roots
            invariant
                i <= roots,
                stack@ == Seq::new(i as nat, |j: int| (j as usize, 0u32)),
            decreases roots - i,
        {
            stack.push((i, 0));
            i += 1;
            assert(stack@ =~= Seq::new(i as nat, |j: int| (j as usize, 0u32)));
        }
        let r = Discovery { roots, ahead: 0, stack, current: (0, 0), visited: 0, free: roots };
        assert(r@.frontier.stack =~= DiscoveryView::over(roots as nat).frontier.stack);
        r
    }

    fn advance(&mut self) -> (r: Look)
        requires
            old(self).wf(),
        ensures
            final(self).wf(),
            final(self)@ == old(self)@.advanced().0,
            r == old(self)@.advanced().1,
    {
        if self.ahead < self.roots {
            let root: usize = self.ahead;
            self.current = (root, 0);
            self.ahead += 1;
            return Look::Probe(root);
        }
        match self.stack.pop() {
            Some(next) => {
                self.current = next;
                if next.1 == 0 {
                    Look::Entries(next.0)
                } else {
                    Look::Probe(next.0)
                }
            },
            None => Look::NotFound,
        }
    }

    fn descends(&self) -> (r: bool)
        ensures
            r == self@.descends(),
    {
        self.ahead == self.roots && self.current.1 < MAX_DEPTH
    }

    fn take_in(&mut self, entries: &Vec<bool>) -> (r: Look)
        requires
            old(self).wf(),
            old(self)@.descends(),
        ensures
            final(self).wf(),
            final(self)@ == old(self)@.step(SeenView::Entries(Some(entries@))).0,
            r == old(self)@.step(SeenView::Entries(Some(entries@))).1,
    {
        let ghost start = self@;
        let depth: u32 = self.current.1;
        proof {
            taking_in_is_bounded(start.frontier, entries@, depth);
        }
        let mut i: usize = 0;
        assert(entries@.skip(0) == entries@);
        while i < entries.len()
            invariant
                i <= entries@.len(),
                self.wf(),
                start == old(self)@,
                self.current == start.current,
                self.roots == start.roots,
                self.ahead == start.ahead,
                start.descends(),
                depth == start.current.1,
                depth < MAX_DEPTH,
                self.free - self.visited == start.frontier.free - start.frontier.visited,
                taken_in(start.frontier, entries@, depth) == taken_in(
                    self@.frontier,
                    entries@.skip(i as int),
                    depth,
                ),
            decreases entries@.len() - i,
        {
            assert(entries@.skip(i as int)[0] == entries@[i as int]);
            assert(entries@.skip(i as int).skip(1) == entries@.skip(i + 1));
            if self.visited >= MAX_DIRS {
                self.stack = Vec::new();
                assert(self@.frontier == start.frontier.given_up());
                return Look::NotFound;
            }
            if entries[i] {
                self.stack.push((self.free, depth + 1));
                self.visited += 1;
                self.free += 1;
            }
            i += 1;
        }
        self.advance()
    }

    /// One step of the search: told what was seen, it says what to look at.
    /// It turns to a directory at most `budget` times more, so no tree, however
    /// large, can stall it.
    pub fn step(&mut self, seen: Seen) -> (r: Look)
        requires
            old(self).wf(),
        ensures
            final(self).wf(),
            final(self)@ == old(self)@.step(seen@).0,
            r == old(self)@.step(seen@).1,
    {
        match seen {
            Seen::Start => self.advance(),
            Seen::Storage(there) => if there {
                Look::Found(self.current.0)
            } else if self.descends() && self.current.1 > 0 {
                Look::Entries(self.current.0)
            } else {
                self.advance()
            },
            Seen::Entries(None) => self.advance(),
            Seen::Entries(Some(entries)) => if self.descends() {
                self.take_in(&entries)
            } else {
                self.advance()
            },
        }
    }
}

/// No tree, however large, can stall a search: what it may still turn to never
/// grows, and shrinks whenever it turns to another directory. It stays with
/// one only to list what was probed.
pub proof fn search_ends(discovery: Discovery, seen: SeenView)
    requires
        discovery.wf(),
    ensures
        ({
            let (after, look) = discovery@.step(seen);
            &&& 0 <= after.budget() <= discovery@.budget()
            &&& look is Probe ==> after.budget() < discovery@.budget()
            &&& look is Entries && seen !is Storage ==> after.budget() < discovery@.budget()
        }),
{
    match seen {
        SeenView::Entries(Some(entries)) => {
            if discovery@.descends() {
                taking_in_is_bounded(discovery@.frontier, entries, discovery.current.1);
            }
        },
        _ => {},
    }
}

/// A search lists a directory only when it is less deep than the limit, and
/// settles only on a directory that has a storage directory.
pub proof fn search_settles_on_storage(discovery: Discovery, seen: SeenView)
    requires
        discovery.wf(),
    ensures
        ({
            let (after, look) = discovery@.step(seen);
            &&& look is Entries ==> look == Look::Entries(after.current.0) && after.current.1
                < MAX_DEPTH
            &&& look is Found ==> look == Look::Found(discovery.current.0) && seen
                == SeenView::Storage(true)
        }),
{
}

/// Each root comes before anything below one: as long as the roots have no
/// storage directory they are probed one after the other, and the first one
/// that has wins without descending.
pub proof fn roots_come_first(roots: nat, root: nat)
    requires
        root < roots <= usize::MAX,
    ensures
        DiscoveryView::over(roots).past(root).1 == Look::Probe(root as usize),
        DiscoveryView::over(roots).past(root).0.step(SeenView::Storage(true)).1 == Look::Found(
            root as usize,
        ),
        DiscoveryView::over(roots).past(root).0.frontier == DiscoveryView::over(roots).frontier,
        DiscoveryView::over(roots).past(root).0.ahead == root + 1,
        DiscoveryView::over(roots).past(root).0.roots == roots,
    decreases root,
{
    if root > 0 {
        roots_come_first(roots, (root - 1) as nat);
    }
}

/// A directory of a file system: whether it has a storage directory, and its
/// entries, where they can be read. An entry that is no directory is none.
pub struct Folder {
    pub storage: bool,
    pub entries: Option<Seq<Option<Folder>>>,
}

/// The directories among a list of entries, in order.
pub open spec fn folders(entries: Seq<Option<Folder>>) -> Seq<Folder>
    decreases entries.len(),
{
    if entries.len() == 0 {
        Seq::empty()
    } else {
        match entries[0] {
            Some(folder) => seq![folder] + folders(entries.skip(1)),
            None => folders(entries.skip(1)),
        }
    }
}

/// Which of a list of entries are directories.
pub open spec fn flags(entries: Seq<Option<Folder>>) -> Seq<bool> {
    Seq::new(entries.len(), |i: int| entries[i] is Some)
}

impl Folder {
    /// The directories right below this one.
    pub open spec fn below(self) -> Seq<Folder> {
        match self.entries {
            Some(entries) => folders(entries),
            None => Seq::empty(),
        }
    }

    /// Whether a directory at most so many levels below this one has storage.
    pub open spec fn storage_below(self, levels: nat) -> bool
        decreases levels, 0nat,
    {
        levels > 0 && exists|i: int|
            0 <= i < self.below().len() && (#[trigger] self.below()[i]).has_storage(
                (levels - 1) as nat,
            )
    }

    /// Whether this directory, or one at most so many levels below it, has
    /// storage.
    pub open spec fn has_storage(self, levels: nat) -> bool
        decreases levels, 1nat,
    {
        self.storage || self.storage_below(levels)
    }

    /// How many directories there are at most so many levels below this one.
    pub open spec fn met(self, levels: nat) -> nat
        decreases levels, 0nat, 0nat,
    {
        if levels == 0 {
            0
        } else {
            self.below().len() + met_under(self.below(), (levels - 1) as nat)
        }
    }
}

/// How many directories there are at most so many levels below some others.
pub open spec fn met_under(tops: Seq<Folder>, levels: nat) -> nat
    decreases levels, 1nat, tops.len(),
{
    if tops.len() == 0 {
        0
    } else {
        met_under(tops.drop_last(), levels) + tops.last().met(levels)
    }
}

/// What a search of a file system comes to.
pub enum Outcome {
    /// It settled on this directory.
    Found(Folder),
    /// It looked at everything, and found nothing.
    Nothing,
    /// It was full and an entry was left.
    GaveUp,
    /// It had no steps left.
    Unfinished,
}

/// A search of a file system, for so many steps: it is told of every directory
/// what is there. `known` are the directories by their numbers.
pub open spec fn run(
    view: DiscoveryView,
    known: Seq<Folder>,
    look: Look,
    steps: nat,
) -> Outcome
    decreases steps,
{
    if steps == 0 {
        Outcome::Unfinished
    } else {
        let left = (steps - 1) as nat;
        match look {
            Look::Found(id) => Outcome::Found(known[id as int]),
            Look::NotFound => Outcome::Nothing,
            Look::Probe(id) => {
                let (after, next) = view.step(SeenView::Storage(known[id as int].storage));
                run(after, known, next, left)
            },
            Look::Entries(id) => match known[id as int].entries {
                None => {
                    let (after, next) = view.step(SeenView::Entries(None));
                    run(after, known, next, left)
                },
                Some(entries) => if taken_in(view.frontier, flags(entries), view.current.1)
                    is None {
                    Outcome::GaveUp
                } else {
                    let (after, next) = view.step(SeenView::Entries(Some(flags(entries))));
                    run(after, known + folders(entries), next, left)
                },
            },
        }
    }
}

/// How many steps are enough for a search over so many roots.
pub open spec fn enough_steps(roots: nat) -> nat {
    4 * roots + 2 * MAX_DIRS as nat + 4
}

/// What a search of a file system comes to, over these roots.
pub open spec fn searched(roots: Seq<Folder>) -> Outcome {
    let (view, look) = DiscoveryView::over(roots.len()).step(SeenView::Start);
    run(view, roots, look, enough_steps(roots.len()))
}

/// Whether a root, or a directory at most two levels below one, has storage.
pub open spec fn anywhere(roots: Seq<Folder>) -> bool {
    exists|i: int| 0 <= i < roots.len() && (#[trigger] roots[i]).has_storage(MAX_DEPTH as nat)
}

/// How many levels below a depth the search goes.
spec fn levels(depth: u32) -> nat {
    if depth <= MAX_DEPTH {
        (MAX_DEPTH - depth) as nat
    } else {
        0
    }
}

/// Whether there is storage where the search has yet to turn to. A root was
/// probed before.
spec fn waits(known: Seq<Folder>, place: (usize, u32)) -> bool {
    if place.1 == 0 {
        known[place.0 as int].storage_below(levels(place.1))
    } else {
        known[place.0 as int].has_storage(levels(place.1))
    }
}

/// Whether there is storage in a place that the search has yet to turn to.
spec fn rest(view: DiscoveryView, known: Seq<Folder>) -> bool {
    ||| exists|i: int|
        0 <= i < view.frontier.stack.len() && waits(known, #[trigger] view.frontier.stack[i])
    ||| exists|j: int| view.ahead <= j < view.roots && (#[trigger] known[j]).storage
}

/// Whether the entries of the current directory are yet to be listed by way of
/// it.
spec fn open_now(view: DiscoveryView, look: Look) -> bool {
    look is Entries || view.current.1 > 0
}

/// Whether there is storage where the search looks now or has yet to turn to.
spec fn pending(view: DiscoveryView, known: Seq<Folder>, look: Look) -> bool {
    let here = known[view.current.0 as int];
    ||| look is Probe && here.storage
    ||| open_now(view, look) && here.storage_below(levels(view.current.1))
    ||| rest(view, known)
}

/// How many directories lie below the places that the search has yet to turn
/// to.
spec fn owed(stack: Seq<(usize, u32)>, known: Seq<Folder>) -> nat
    decreases stack.len(),
{
    if stack.len() == 0 {
        0
    } else {
        owed(stack.drop_last(), known) + known[stack.last().0 as int].met(levels(stack.last().1))
    }
}

/// How many directories below the roots the search takes in, if it does not
/// give up.
spec fn budgeted(view: DiscoveryView, known: Seq<Folder>, look: Look) -> nat {
    view.frontier.visited + owed(view.frontier.stack, known) + if open_now(view, look) {
        known[view.current.0 as int].met(levels(view.current.1))
    } else {
        0
    }
}

/// What holds of a search of a file system at any time.
spec fn consistent(view: DiscoveryView, known: Seq<Folder>) -> bool {
    &&& view.ahead <= view.roots <= known.len()
    &&& view.frontier.free == known.len()
    &&& view.frontier.visited <= MAX_DIRS
    &&& view.frontier.free + MAX_DIRS - view.frontier.visited <= usize::MAX
    &&& forall|i: int|
        0 <= i < view.frontier.stack.len() ==> (#[trigger] view.frontier.stack[i]).1 <= MAX_DEPTH
            && view.frontier.stack[i].0 < known.len()
}

/// What holds of a search that is not at its end.
spec fn looking(view: DiscoveryView, known: Seq<Folder>, look: Look) -> bool {
    &&& consistent(view, known)
    &&& view.current.0 < known.len()
    &&& view.current.1 <= MAX_DEPTH
    &&& look == Look::Probe(view.current.0) || look == Look::Entries(view.current.0)
    &&& view.ahead < view.roots ==> view.current.1 == 0 && look is Probe
    &&& look is Entries ==> view.descends()
}

/// How many steps a search has left, at most.
spec fn steps_left(view: DiscoveryView, look: Look) -> int {
    2 * view.budget() + match look {
        Look::Probe(_) => 3int,
        Look::Entries(_) => 2int,
        _ => 1int,
    }
}

proof fn turning_loses_nothing(view: DiscoveryView, known: Seq<Folder>)
    requires
        consistent(view, known),
    ensures
        ({
            let (after, look) = view.advanced();
            &&& look is NotFound || looking(after, known, look)
            &&& look is NotFound ==> !rest(view, known) && after == view
            &&& look !is NotFound ==> pending(after, known, look) == rest(view, known)
            &&& look !is NotFound ==> after.budget() == view.budget() - 1
            &&& look !is NotFound ==> budgeted(after, known, look) == view.frontier.visited + owed(
                view.frontier.stack,
                known,
            )
        }),
{
    let (after, look) = view.advanced();
    let stack = view.frontier.stack;
    if view.ahead < view.roots {
        if exists|j: int| view.ahead <= j < view.roots && (#[trigger] known[j]).storage {
            let j = choose|j: int| view.ahead <= j < view.roots && (#[trigger] known[j]).storage;
            assert(j == view.ahead || after.ahead <= j);
        }
        assert(after.frontier == view.frontier);
    } else if stack.len() > 0 {
        let next = stack.last();
        let less = after.frontier.stack;
        assert(stack[stack.len() - 1] == next);
        assert(less == stack.drop_last());
        assert forall|i: int| 0 <= i < less.len() implies #[trigger] less[i] == stack[i] by {}
        if exists|i: int| 0 <= i < stack.len() && waits(known, #[trigger] stack[i]) {
            let i = choose|i: int| 0 <= i < stack.len() && waits(known, #[trigger] stack[i]);
            if i < less.len() {
                assert(waits(known, less[i]));
            }
        }
        if exists|i: int| 0 <= i < less.len() && waits(known, #[trigger] less[i]) {
            let i = choose|i: int| 0 <= i < less.len() && waits(known, #[trigger] less[i]);
            assert(waits(known, stack[i]));
        }
    }
}

proof fn taking_in_is_exact(f: Frontier, entries: Seq<Option<Folder>>, depth: u32)
    requires
        f.visited <= MAX_DIRS,
        f.free + MAX_DIRS - f.visited <= usize::MAX,
        depth < MAX_DEPTH,
    ensures
        taken_in(f, flags(entries), depth) matches Some(g) ==> {
            &&& g.stack == f.stack + Seq::new(
                folders(entries).len(),
                |k: int| ((f.free + k) as usize, (depth + 1) as u32),
            )
            &&& g.visited == f.visited + folders(entries).len()
            &&& g.free == f.free + folders(entries).len()
            &&& g.visited <= MAX_DIRS
        },
        f.visited + folders(entries).len() < MAX_DIRS ==> taken_in(f, flags(entries), depth)
            is Some,
    decreases entries.len(),
{
    if entries.len() > 0 {
        let later = entries.skip(1);
        assert(flags(entries).skip(1) =~= flags(later));
        assert(flags(entries)[0] == (entries[0] is Some));
        if f.visited < MAX_DIRS {
            if entries[0] is Some {
                let g = Frontier {
                    stack: f.stack.push((f.free as usize, (depth + 1) as u32)),
                    visited: f.visited + 1,
                    free: f.free + 1,
                };
                taking_in_is_exact(g, later, depth);
                assert(folders(entries) =~= seq![entries[0]->Some_0] + folders(later));
                assert(g.stack + Seq::new(
                    folders(later).len(),
                    |k: int| ((g.free + k) as usize, (depth + 1) as u32),
                ) =~= f.stack + Seq::new(
                    folders(entries).len(),
                    |k: int| ((f.free + k) as usize, (depth + 1) as u32),
                ));
            } else {
                taking_in_is_exact(f, later, depth);
            }
        }
    } else {
        assert(f.stack + Seq::new(
            folders(entries).len(),
            |k: int| ((f.free + k) as usize, (depth + 1) as u32),
        ) =~= f.stack);
    }
}

/// What is owed does not depend on directories that came to be known later.
proof fn owed_stays(stack: Seq<(usize, u32)>, known: Seq<Folder>, more: Seq<Folder>)
    requires
        forall|i: int| 0 <= i < stack.len() ==> (#[trigger] stack[i]).0 < known.len(),
    ensures
        owed(stack, known + more) == owed(stack, known),
    decreases stack.len(),
{
    if stack.len() > 0 {
        let less = stack.drop_last();
        assert forall|i: int| 0 <= i < less.len() implies (#[trigger] less[i]).0
            < known.len() by {
            assert(less[i] == stack[i]);
        }
        owed_stays(less, known, more);
        assert(stack[stack.len() - 1] == stack.last());
        assert((known + more)[stack.last().0 as int] == known[stack.last().0 as int]);
    }
}

/// Directories that are taken in owe what lies below them.
proof fn owed_by_new(
    stack: Seq<(usize, u32)>,
    known: Seq<Folder>,
    more: Seq<Folder>,
    depth: u32,
    count: nat,
)
    requires
        count <= more.len(),
        known.len() + more.len() <= usize::MAX,
    ensures
        owed(
            stack + Seq::new(count, |k: int| ((known.len() + k) as usize, depth)),
            known + more,
        ) == owed(stack, known + more) + met_under(more.take(count as int), levels(depth)),
    decreases count,
{
    let all = known + more;
    let longer = stack + Seq::new(count, |k: int| ((known.len() + k) as usize, depth));
    if count == 0 {
        assert(longer =~= stack);
        assert(more.take(0) =~= Seq::<Folder>::empty());
    } else {
        let fewer = (count - 1) as nat;
        owed_by_new(stack, known, more, depth, fewer);
        assert(longer.drop_last() =~= stack + Seq::new(
            fewer,
            |k: int| ((known.len() + k) as usize, depth),
        ));
        assert(longer.last() == ((known.len() + fewer) as usize, depth));
        assert(all[known.len() as int + fewer as int] == more[fewer as int]);
        assert(more.take(count as int).drop_last() =~= more.take(fewer as int));
        assert(more.take(count as int).last() == more[fewer as int]);
    }
}

/// Listing the entries of the current directory loses nothing: what lay below
/// it waits from then on.
#[verifier::spinoff_prover]
proof fn listing_loses_nothing(
    view: DiscoveryView,
    known: Seq<Folder>,
    entries: Seq<Option<Folder>>,
    frontier: Frontier,
)
    requires
        looking(view, known, Look::Entries(view.current.0)),
        known[view.current.0 as int].entries == Some(entries),
        taken_in(view.frontier, flags(entries), view.current.1) == Some(frontier),
    ensures
        ({
            let after = DiscoveryView { frontier, ..view };
            let all = known + folders(entries);
            &&& consistent(after, all)
            &&& rest(after, all) == pending(view, known, Look::Entries(view.current.0))
            &&& after.budget() == view.budget()
            &&& frontier.visited + owed(frontier.stack, all) == budgeted(
                view,
                known,
                Look::Entries(view.current.0),
            )
        }),
{
    let here = known[view.current.0 as int];
    let more = folders(entries);
    let all = known + more;
    let depth = view.current.1;
    let old = view.frontier.stack;
    let new = frontier.stack;
    let after = DiscoveryView { frontier, ..view };
    let left = levels(depth);
    taking_in_is_exact(view.frontier, entries, depth);
    assert(here.below() == more);
    assert(levels((depth + 1) as u32) == (left - 1) as nat);
    assert forall|i: int| 0 <= i < new.len() implies (#[trigger] new[i]).1 <= MAX_DEPTH && new[i].0
        < all.len() && (i < old.len() ==> new[i] == old[i] && waits(all, new[i]) == waits(
        known,
        old[i],
    )) && (i >= old.len() ==> waits(all, new[i]) == more[i - old.len()].has_storage(
        (left - 1) as nat,
    )) by {
        if i < old.len() {
            assert(new[i] == old[i]);
            assert(all[old[i].0 as int] == known[old[i].0 as int]);
        } else {
            let k = i - old.len();
            assert(new[i] == ((view.frontier.free + k) as usize, (depth + 1) as u32));
            assert(all[known.len() + k] == more[k]);
        }
    }
    if rest(after, all) {
        if exists|i: int| 0 <= i < new.len() && waits(all, #[trigger] new[i]) {
            let i = choose|i: int| 0 <= i < new.len() && waits(all, #[trigger] new[i]);
            if i < old.len() {
                assert(waits(known, old[i]));
            } else {
                assert(here.below()[i - old.len()].has_storage((left - 1) as nat));
                assert(here.storage_below(left));
            }
        }
    }
    if pending(view, known, Look::Entries(view.current.0)) {
        if here.storage_below(left) {
            let k = choose|k: int|
                0 <= k < here.below().len() && (#[trigger] here.below()[k]).has_storage(
                    (left - 1) as nat,
                );
            assert(waits(all, new[old.len() + k]));
        } else {
            let i = choose|i: int| 0 <= i < old.len() && waits(known, #[trigger] old[i]);
            assert(waits(all, new[i]));
        }
    }
    owed_stays(old, known, more);
    owed_by_new(old, known, more, (depth + 1) as u32, more.len());
    assert(more.take(more.len() as int) =~= more);
    assert(new =~= old + Seq::new(
        more.len(),
        |k: int| ((known.len() + k) as usize, (depth + 1) as u32),
    ));
    assert(here.met(left) == more.len() + met_under(more, (left - 1) as nat));
    assert(frontier.stack.len() == old.len() + more.len());
    assert(all.len() == known.len() + more.len());
    assert(consistent(after, all));
    assert(after.budget() == view.budget());
    assert(owed(new, all) == owed(old, known) + met_under(more, (left - 1) as nat));
    assert(rest(after, all) == pending(view, known, Look::Entries(view.current.0)));
}

proof fn run_loses_nothing(view: DiscoveryView, known: Seq<Folder>, look: Look, steps: nat)
    requires
        looking(view, known, look),
        steps >= steps_left(view, look),
    ensures
        ({
            let outcome = run(view, known, look, steps);
            &&& outcome !is Unfinished
            &&& outcome matches Outcome::Found(folder) ==> folder.storage && pending(
                view,
                known,
                look,
            )
            &&& outcome is Nothing ==> !pending(view, known, look)
            &&& budgeted(view, known, look) < MAX_DIRS ==> outcome !is GaveUp
        }),
    decreases steps,
{
    let here = known[view.current.0 as int];
    let left = (steps - 1) as nat;
    match look {
        Look::Probe(id) => {
            let (after, next) = view.step(SeenView::Storage(here.storage));
            if here.storage {
                assert(run(after, known, next, left) == Outcome::Found(here));
            } else if view.descends() && view.current.1 > 0 {
                run_loses_nothing(after, known, next, left);
            } else {
                turning_loses_nothing(view, known);
                assert(!(open_now(view, look) && here.storage_below(levels(view.current.1))));
                if next is NotFound {
                    assert(run(after, known, next, left) is Nothing);
                } else {
                    run_loses_nothing(after, known, next, left);
                }
            }
        },
        Look::Entries(id) => {
            match here.entries {
                None => {
                    let (after, next) = view.step(SeenView::Entries(None));
                    turning_loses_nothing(view, known);
                    assert(here.below().len() == 0);
                    assert(met_under(here.below(), (levels(view.current.1) - 1) as nat) == 0);
                    if next is NotFound {
                        assert(run(after, known, next, left) is Nothing);
                    } else {
                        run_loses_nothing(after, known, next, left);
                    }
                },
                Some(entries) => {
                    match taken_in(view.frontier, flags(entries), view.current.1) {
                        None => {
                            taking_in_is_exact(view.frontier, entries, view.current.1);
                            assert(here.below() == folders(entries));
                            assert(here.met(levels(view.current.1)) >= folders(entries).len());
                        },
                        Some(frontier) => {
                            listing_loses_nothing(view, known, entries, frontier);
                            let taken = DiscoveryView { frontier, ..view };
                            let all = known + folders(entries);
                            turning_loses_nothing(taken, all);
                            let (after, next) = taken.advanced();
                            assert(view.step(SeenView::Entries(Some(flags(entries)))) == (
                                after,
                                next,
                            ));
                            if next is NotFound {
                                assert(run(after, all, next, left) is Nothing);
                            } else {
                                run_loses_nothing(after, all, next, left);
                            }
                        },
                    }
                },
            }
        },
        _ => {},
    }
}

proof fn owed_by_roots(roots: Seq<Folder>, count: nat)
    requires
        count <= roots.len() <= usize::MAX,
    ensures
        owed(Seq::new(count, |i: int| (i as usize, 0u32)), roots) == met_under(
            roots.take(count as int),
            MAX_DEPTH as nat,
        ),
    decreases count,
{
    let stack = Seq::new(count, |i: int| (i as usize, 0u32));
    if count > 0 {
        let fewer = (count - 1) as nat;
        owed_by_roots(roots, fewer);
        assert(stack.drop_last() =~= Seq::new(fewer, |i: int| (i as usize, 0u32)));
        assert(stack.last() == (fewer as usize, 0u32));
        assert(roots.take(count as int).drop_last() =~= roots.take(fewer as int));
        assert(roots.take(count as int).last() == roots[fewer as int]);
    }
}

/// A search of a file system comes to its end, and finds what there is: it
/// settles on a directory with storage, and only where a root or a directory
/// at most two levels below one has any; and where it found nothing, none of
/// them has. Only a search that is full with an entry left gives up, which
/// does not happen with fewer directories below the roots than it takes in.
pub proof fn search_is_complete(roots: Seq<Folder>)
    requires
        roots.len() + MAX_DIRS <= usize::MAX,
    ensures
        searched(roots) !is Unfinished,
        searched(roots) matches Outcome::Found(folder) ==> folder.storage && anywhere(roots),
        searched(roots) is Nothing ==> !anywhere(roots),
        met_under(roots, MAX_DEPTH as nat) < MAX_DIRS ==> searched(roots) !is GaveUp,
{
    let start = DiscoveryView::over(roots.len());
    let (view, look) = start.step(SeenView::Start);
    let stack = start.frontier.stack;
    turning_loses_nothing(start, roots);
    assert forall|i: int| 0 <= i < stack.len() implies waits(roots, #[trigger] stack[i])
        == roots[i].storage_below(MAX_DEPTH as nat) by {
        assert(stack[i] == (i as usize, 0u32));
    }
    if anywhere(roots) {
        let i = choose|i: int|
            0 <= i < roots.len() && (#[trigger] roots[i]).has_storage(MAX_DEPTH as nat);
        if !roots[i].storage {
            assert(waits(roots, stack[i]));
        }
        assert(rest(start, roots));
    }
    if rest(start, roots) {
        if exists|i: int| 0 <= i < stack.len() && waits(roots, #[trigger] stack[i]) {
            let i = choose|i: int| 0 <= i < stack.len() && waits(roots, #[trigger] stack[i]);
            assert(roots[i].has_storage(MAX_DEPTH as nat));
        } else {
            let j = choose|j: int| 0 <= j < roots.len() && (#[trigger] roots[j]).storage;
            assert(roots[j].has_storage(MAX_DEPTH as nat));
        }
    }
    owed_by_roots(roots, roots.len());
    assert(roots.take(roots.len() as int) =~= roots);
    if look !is NotFound {
        run_loses_nothing(view, roots, look, enough_steps(roots.len()));
    }
}

/// Where the game and its storage are.
#[derive(Clone, Copy, Debug, PartialEq, Eq)]
pub enum Located {
    /// In the directory that was named, under this layout.
    Named(&'static str),
    /// In a directory that the search settled on, under this layout.
    Discovered(usize, &'static str),
}

/// What is told of a named directory without storage.
pub open spec fn no_storage_message(shown: Seq<char>) -> Seq<char> {
    "no Client/Saved/LocalStorage under '"@ + shown
        + "' (tried Steam and standalone layouts)"@
}

/// What is told when no game was found.
pub const NO_GAME_MESSAGE: &'static str =
    "game not found; launch it once via Steam/Twintail/etc., or pass --game-dir pointing at the folder containing Client/";

/// Decides where the game and its storage are. A named directory, given as it
/// is shown and by which layouts are there, must have storage; without one
/// the search decides.
pub fn resolve_storage(
    named: Option<(&str, [bool; 3])>,
    discovered: Option<(usize, [bool; 3])>,
) -> (r: Result<Located, String>)
    ensures
        match named {
            Some((shown, there)) => match (layout(there@), r) {
                (Some(path), Ok(Located::Named(at))) => at@ == path,
                (None, Err(message)) => message@ == no_storage_message(shown@),
                _ => false,
            },
            None => match discovered {
                Some((dir, there)) => match (layout(there@), r) {
                    (Some(path), Ok(Located::Discovered(id, at))) => id == dir && at@ == path,
                    (None, Err(message)) => message@ == NO_GAME_MESSAGE@,
                    _ => false,
                },
                None => r matches Err(message) && message@ == NO_GAME_MESSAGE@,
            },
        },
{
    match named {
        Some((shown, there)) => match resolve_storage_dir(there) {
            Some(path) => Ok(Located::Named(path)),
            None => Err(
                glue(
                    glue("no Client/Saved/LocalStorage under '", shown).as_str(),
                    "' (tried Steam and standalone layouts)",
                ),
            ),
        },
        None => match discovered {
            Some((dir, there)) => match resolve_storage_dir(there) {
                Some(path) => Ok(Located::Discovered(dir, path)),
                None => Err(NO_GAME_MESSAGE.to_owned()),
            },
            None => Err(NO_GAME_MESSAGE.to_owned()),
        },
    }
}

/// A numbered database is the main one's name with one digit or more before
/// the ending, and nothing else is: neither the main database itself nor its
/// companions.
pub proof fn numbered_names_have_digits(file_name: &str, middle: Seq<char>, r: bool)
    requires
        call_ensures(is_numbered_db, (file_name,), r),
    ensures
        file_name@ == "LocalStorage"@ + middle + ".db"@ ==> (r <==> middle.len() > 0 && forall|
            i: int,
        |
            0 <= i < middle.len() ==> '0' <= #[trigger] middle[i] <= '9'),
        r ==> exists|number: Seq<char>|
            file_name@ == "LocalStorage"@ + number + ".db"@ && #[trigger] number.len() > 0,
{
    if file_name@ == "LocalStorage"@ + middle + ".db"@ {
        if r {
            let number = choose|number: Seq<char>| #[trigger]
                all_digits(number) && file_name@ == "LocalStorage"@ + number + ".db"@;
            let (p, s) = ("LocalStorage"@, ".db"@);
            assert(file_name@.len() == p.len() + middle.len() + s.len());
            assert(file_name@.len() == p.len() + number.len() + s.len());
            assert(middle =~= file_name@.subrange(p.len() as int, (p.len() + middle.len()) as int));
            assert(number =~= file_name@.subrange(p.len() as int, (p.len() + number.len()) as int));
            assert forall|i: int| 0 <= i < middle.len() implies '0' <= #[trigger] middle[i]
                <= '9' by {
                assert(digit(number[i]));
            }
        }
        if middle.len() > 0 && forall|i: int|
            0 <= i < middle.len() ==> '0' <= #[trigger] middle[i] <= '9' {
            assert(all_digits(middle));
        }
    }
    if r {
        let number = choose|number: Seq<char>| #[trigger]
            all_digits(number) && file_name@ == "LocalStorage"@ + number + ".db"@;
        assert(number.len() > 0);
    }
}

/// A directory has a numbered database exactly when one of its files is one.
pub proof fn numbered_files_are_noticed(names: Vec<String>, r: bool)
    requires
        call_ensures(has_numbered_db, (&names,), r),
    ensures
        r <==> exists|i: int| 0 <= i < names@.len() && numbered((#[trigger] names@[i])@),
{
}

/// The companions that are copied along, each under the name that the copy of
/// the database needs.
pub proof fn companions_keep_their_endings(r: Vec<(String, String)>)
    requires
        call_ensures(sidecars, (), r),
    ensures
        r@.len() == 3,
        r@[0].0@ == "LocalStorage.db"@ + "-journal"@ && r@[0].1@ == "snapshot.db"@ + "-journal"@,
        r@[1].0@ == "LocalStorage.db"@ + "-wal"@ && r@[1].1@ == "snapshot.db"@ + "-wal"@,
        r@[2].0@ == "LocalStorage.db"@ + "-shm"@ && r@[2].1@ == "snapshot.db"@ + "-shm"@,
{
    assert(r@[0].0@ == MAIN_DB@ + SIDECAR_SUFFIXES@[0]@);
    assert(r@[1].0@ == MAIN_DB@ + SIDECAR_SUFFIXES@[1]@);
    assert(r@[2].0@ == MAIN_DB@ + SIDECAR_SUFFIXES@[2]@);
}

/// A file may be copied exactly when its size is known to be at most 67108864
/// bytes.
pub proof fn sane_files_are_copied(bytes: Option<u64>, r: bool)
    requires
        call_ensures(copyable, (bytes,), r),
    ensures
        r <==> bytes is Some && bytes->Some_0 <= 67108864,
{
}

/// The storage lies where the first of the layouts is there: right under the
/// game, or under either spelling of a launcher's folder.
pub proof fn first_layout_counts(there: [bool; 3], r: Option<&'static str>)
    requires
        call_ensures(resolve_storage_dir, (there,), r),
    ensures
        r is None <==> !there@[0] && !there@[1] && !there@[2],
        there@[0] ==> r is Some && r->Some_0@ == "Client/Saved/LocalStorage"@,
        !there@[0] && there@[1] ==> r is Some && r->Some_0@
            == "Wuthering Waves Game/Client/Saved/LocalStorage"@,
        !there@[0] && !there@[1] && there@[2] ==> r is Some && r->Some_0@
            == "wuthering waves game/Client/Saved/LocalStorage"@,
{
}

/// The Steam library above a path is the innermost directory of that name.
pub proof fn innermost_library_counts(names: Vec<Option<String>>, r: Option<usize>)
    requires
        call_ensures(steamapps_dir, (&names,), r),
    ensures
        r matches Some(at) ==> at < names@.len() && names@[at as int] is Some && names@[at as int]->Some_0@
            == "steamapps"@ && forall|i: int|
            0 <= i < at && (#[trigger] names@[i]) is Some ==> names@[i]->Some_0@ != "steamapps"@,
        r is None ==> forall|i: int|
            0 <= i < names@.len() && (#[trigger] names@[i]) is Some ==> names@[i]->Some_0@
                != "steamapps"@,
{
    assert forall|i: int|
        0 <= i < names@.len() && (#[trigger] names@[i]) is Some && !is_library(
            names@[i],
        ) implies names@[i]->Some_0@ != "steamapps"@ by {}
}

/// The default roots lie under the home directory, or under the current one
/// without it, in the order of probing.
pub proof fn default_roots_lie_at_home(home: Option<&str>, base: Seq<char>, r: Vec<String>)
    requires
        call_ensures(default_roots, (home,), r),
        home matches Some(home) ==> base == home@,
        home is None ==> base == "."@,
    ensures
        r@.len() == 3,
        r@[0]@ == joined(base, ".steam/steam/steamapps/common/Wuthering Waves"@),
        r@[1]@ == joined(base, "Games"@),
        r@[2]@ == joined(base, ".var/app/app.twintaillauncher.ttl/data"@),
{
}

/// A directory that was named decides alone: it must have storage, and is told
/// of where it has none. Without one the directory that was discovered does.
pub proof fn named_directories_decide(
    named: Option<(&str, [bool; 3])>,
    discovered: Option<(usize, [bool; 3])>,
    r: Result<Located, String>,
)
    requires
        call_ensures(resolve_storage, (named, discovered), r),
    ensures
        named matches Some((shown, there)) ==> {
            &&& layout(there@) is Some <==> r is Ok
            &&& r is Ok ==> r->Ok_0 is Named && r->Ok_0->Named_0@ == layout(there@)->Some_0
            &&& r is Err ==> r->Err_0@ == "no Client/Saved/LocalStorage under '"@ + shown@
                + "' (tried Steam and standalone layouts)"@
        },
        named is None ==> {
            &&& r is Ok <==> discovered is Some && layout(discovered->Some_0.1@) is Some
            &&& r matches Ok(at) ==> at is Discovered && at->Discovered_0 == discovered->Some_0.0
                && at->Discovered_1@ == layout(discovered->Some_0.1@)->Some_0
            &&& r is Err ==> r->Err_0@
                == "game not found; launch it once via Steam/Twintail/etc., or pass --game-dir pointing at the folder containing Client/"@
        },
{
}

/// How many of a list of entries are directories.
pub open spec fn directories(entries: Seq<bool>) -> nat
    decreases entries.len(),
{
    if entries.len() == 0 {
        0
    } else {
        directories(entries.skip(1)) + if entries[0] {
            1nat
        } else {
            0nat
        }
    }
}

/// What a search takes in of a list of entries: every directory, under the
/// next free numbers in the order of the list, one level deeper. It takes in
/// 1024 directories at most, and gives up where an entry is left then.
pub proof fn directories_are_numbered_in_order(f: Frontier, entries: Seq<bool>, depth: u32)
    requires
        f.visited <= 1024,
        depth < 2,
    ensures
        taken_in(f, entries, depth) matches Some(g) ==> {
            &&& g.visited == f.visited + directories(entries)
            &&& g.free == f.free + directories(entries)
            &&& g.stack == f.stack + Seq::new(
                directories(entries),
                |i: int| ((f.free + i) as usize, (depth + 1) as u32),
            )
            &&& f.visited + directories(entries) <= 1024
        },
        f.visited + directories(entries) < 1024 ==> taken_in(f, entries, depth) is Some,
        f.visited == 1024 && entries.len() > 0 ==> taken_in(f, entries, depth) is None,
    decreases entries.len(),
{
    if entries.len() > 0 && f.visited < 1024 {
        let rest = entries.skip(1);
        if entries[0] {
            let g = Frontier {
                stack: f.stack.push((f.free as usize, (depth + 1) as u32)),
                visited: f.visited + 1,
                free: f.free + 1,
            };
            directories_are_numbered_in_order(g, rest, depth);
            assert(f.stack + Seq::new(
                directories(entries),
                |i: int| ((f.free + i) as usize, (depth + 1) as u32),
            ) =~= g.stack + Seq::new(
                directories(rest),
                |i: int| ((g.free + i) as usize, (depth + 1) as u32),
            ));
        } else {
            directories_are_numbered_in_order(f, rest, depth);
        }
    }
    assert(entries.len() == 0 ==> f.stack + Seq::new(
        0,
        |i: int| ((f.free + i) as usize, (depth + 1) as u32),
    ) =~= f.stack);
}

/// Where a search turns next: to the roots in their order, each probed; then
/// to the directory that was taken in last, which is probed unless it is a
/// root, whose entries are next; and where nothing is left it is over.
pub proof fn searches_go_on_with_the_latest(search: DiscoveryView, seen: SeenView)
    requires
        seen is Start || seen == SeenView::Entries(None) || (seen == SeenView::Storage(false) && (
        search.ahead < search.roots || search.current.1 == 0 || search.current.1 >= 2)),
    ensures
        ({
            let (after, look) = search.step(seen);
            let stack = search.frontier.stack;
            &&& search.ahead < search.roots ==> look == Look::Probe(search.ahead as usize)
                && after.ahead == search.ahead + 1 && after.current == (search.ahead as usize, 0u32)
                && after.frontier == search.frontier
            &&& search.ahead >= search.roots && stack.len() == 0 ==> look is NotFound
            &&& search.ahead >= search.roots && stack.len() > 0 ==> {
                &&& after.current == stack.last()
                &&& after.frontier == (Frontier { stack: stack.drop_last(), ..search.frontier })
                &&& after.ahead == search.ahead
                &&& stack.last().1 == 0 ==> look == Look::Entries(stack.last().0)
                &&& stack.last().1 > 0 ==> look == Look::Probe(stack.last().0)
            }
            &&& after.roots == search.roots
        }),
{
}

/// A directory below a root that has no storage is listed, unless it lies two
/// levels below; one that has storage is what the search settles on.
pub proof fn searches_go_two_levels_deep(search: DiscoveryView)
    requires
        search.ahead == search.roots,
    ensures
        search.step(SeenView::Storage(true)).1 == Look::Found(search.current.0),
        search.current.1 == 1 ==> search.step(SeenView::Storage(false)) == (
            search,
            Look::Entries(search.current.0),
        ),
        search.current.1 >= 2 ==> search.step(SeenView::Storage(false)).1 !is Entries
            || search.frontier.stack.len() > 0,
{
}

/// The directories of a listed one are turned to before anything else, the
/// last one first.
pub proof fn listed_directories_come_next(search: DiscoveryView, entries: Seq<bool>)
    requires
        search.ahead == search.roots,
        search.current.1 < 2,
        search.frontier.visited + directories(entries) < 1024,
        search.frontier.free + 1024 <= usize::MAX,
        directories(entries) > 0,
    ensures
        ({
            let (after, look) = search.step(SeenView::Entries(Some(entries)));
            let last = (search.frontier.free + directories(entries) - 1) as usize;
            &&& look == Look::Probe(last)
            &&& after.current == (last, (search.current.1 + 1) as u32)
            &&& after.frontier.visited == search.frontier.visited + directories(entries)
            &&& after.frontier.stack.len() == search.frontier.stack.len() + directories(entries) - 1
        }),
{
    directories_are_numbered_in_order(search.frontier, entries, search.current.1);
}

/// A search that is full with an entry left is over.
pub proof fn full_searches_give_up(search: DiscoveryView, entries: Seq<bool>)
    requires
        search.ahead == search.roots,
        search.current.1 < 2,
        search.frontier.visited == 1024,
        entries.len() > 0,
    ensures
        search.step(SeenView::Entries(Some(entries))).1 is NotFound,
        search.step(SeenView::Entries(Some(entries))).0.frontier.stack.len() == 0,
{
    directories_are_numbered_in_order(search.frontier, entries, search.current.1);
}

/// A new search has its roots before it, the last one to be listed first, and
/// what a call does is one step on exactly what it was told.
pub proof fn search_calls_are_steps(roots: usize, fresh: Discovery, seen: Seen, r: Look)
    requires
        call_ensures(Discovery::new, (roots,), fresh),
    ensures
        fresh@.roots == roots && fresh@.ahead == 0,
        fresh@.frontier.stack.len() == roots,
        forall|i: int| 0 <= i < roots ==> #[trigger] fresh@.frontier.stack[i] == (i as usize, 0u32),
        fresh@.frontier.visited == 0 && fresh@.frontier.free == roots,
        forall|search: &mut Discovery| #[trigger]
            call_ensures(Discovery::step, (search, seen), r) ==> ({
                let told = match seen {
                    Seen::Start => SeenView::Start,
                    Seen::Storage(there) => SeenView::Storage(there),
                    Seen::Entries(None) => SeenView::Entries(None),
                    Seen::Entries(Some(entries)) => SeenView::Entries(Some(entries@)),
                };
                (*final(search))@ == (*search)@.step(told).0 && r == (*search)@.step(told).1
            }),
{
}

} // verus!
