//! Login events in the bytes of the launcher's telemetry database, deleted
//! rows included: who logged in, when, at what level, on which server.
use crate::json::{parse_bytes, parsed_bytes, Json, Tree};
use crate::text::{
    all_digits, control, decimal, digits_value, glue, parse_u64, same, stands_at, trim, trimmed,
    unsigned, unsigned_upto, write_u64,
};
use vstd::prelude::*;
use vstd::utf8::encode_utf8;

verus! {

/// How old an event may be to describe the current session: a day.
pub const MAX_REMANT_AGE_MS: u64 = 86_400_000;

/// How far ahead of the clock an event may be: five minutes.
pub const REMNANT_SKEW_MS: u64 = 300_000;

/// How many places are looked at.
pub const MAX_REMANT_CANDIDATES: usize = 64;

/// How far before a role id its event may start.
pub const EVENT_LOOK_BACK: usize = 4096;

/// How long an event may be.
pub const EVENT_LIMIT: usize = 8192;

/// How many characters a display name may have.
pub const MAX_NAME_CHARS: usize = 32;

/// How many bytes a server name may have.
pub const MAX_REGION_BYTES: usize = 64;

/// The identity behind a login event, with the event's time.
#[derive(Clone, Debug, PartialEq, Eq)]
pub struct RemnantRole {
    pub name: String,
    pub level: u32,
    pub region: String,
    pub event_ms: u64,
}

/// The identity behind a login event, as data.
pub struct RoleView {
    pub name: Seq<char>,
    pub level: u32,
    pub region: Seq<char>,
    pub event_ms: u64,
}

impl View for RemnantRole {
    type V = RoleView;

    open spec fn view(&self) -> RoleView {
        RoleView {
            name: self.name@,
            level: self.level,
            region: self.region@,
            event_ms: self.event_ms,
        }
    }
}

/// What a scan met, in numbers only.
#[derive(Clone, Copy, Debug, PartialEq, Eq)]
pub struct RemnantStats {
    /// Places looked at.
    pub candidates: usize,
    /// Events of the live login.
    pub role_hits: usize,
    /// Of those, events recent enough to describe this session.
    pub fresh_hits: usize,
}

/// What is told of a scan: numbers only.
pub fn scan_line(stats: &RemnantStats) -> (r: String)
    ensures
        r@ == "telemetry scan: "@ + decimal(stats.candidates as nat) + " candidate(s), "@
            + decimal(stats.role_hits as nat) + " login event(s), "@ + decimal(
            stats.fresh_hits as nat,
        ) + " fresh event(s)"@,
{
    let candidates = write_u64(stats.candidates as u64);
    let live = write_u64(stats.role_hits as u64);
    let fresh = write_u64(stats.fresh_hits as u64);
    let a = glue(glue("telemetry scan: ", candidates.as_str()).as_str(), " candidate(s), ");
    let b = glue(glue(a.as_str(), live.as_str()).as_str(), " login event(s), ");
    glue(glue(b.as_str(), fresh.as_str()).as_str(), " fresh event(s)")
}

/// The first place from `from` on where `part` stands.
pub open spec fn first_at(s: Seq<u8>, part: Seq<u8>, from: int) -> Option<int>
    decreases s.len() + 1 - from,
{
    if from < 0 || from + part.len() > s.len() {
        None
    } else if stands_at(s, part, from) {
        Some(from)
    } else {
        first_at(s, part, from + 1)
    }
}

/// The last place below `below` where `part` stands.
pub open spec fn last_at(s: Seq<u8>, part: Seq<u8>, below: int) -> Option<int>
    decreases below,
{
    if below <= 0 {
        None
    } else if stands_at(s, part, below - 1) {
        Some(below - 1)
    } else {
        last_at(s, part, below - 1)
    }
}

/// Whether `part` stands in `bytes` from position `at` on.
fn byte_stands_at(bytes: &[u8], part: &[u8], at: usize) -> (r: bool)
    requires
        at + part@.len() <= bytes@.len(),
    ensures
        r == stands_at(bytes@, part@, at as int),
{
    let n: usize = bytes.len();
    let mut i: usize = 0;
    while i < part.len()
        invariant
            i <= part@.len(),
            n == bytes@.len(),
            at + part@.len() <= n,
            forall|j: int| 0 <= j < i ==> bytes@[at + j] == part@[j],
        decreases part@.len() - i,
    {
        if bytes[at + i] != part[i] {
            assert(bytes@.subrange(at as int, at + part@.len())[i as int] != part@[i as int]);
            return false;
        }
        i += 1;
    }
    assert(bytes@.subrange(at as int, at + part@.len()) == part@);
    true
}

/// The first place where `needle` stands in `haystack`.
pub fn find_subslice(haystack: &[u8], needle: &[u8]) -> (r: Option<usize>)
    requires
        needle@.len() > 0,
    ensures
        first_at(haystack@, needle@, 0) == match r {
            Some(at) => Some(at as int),
            None => None,
        },
        r matches Some(at) ==> at + needle@.len() <= haystack@.len(),
{
    let mut at: usize = 0;
    while at < haystack.len() && needle.len() <= haystack.len() - at
        invariant
            at <= haystack@.len(),
            needle@.len() > 0,
            first_at(haystack@, needle@, 0) == first_at(haystack@, needle@, at as int),
        decreases haystack@.len() - at,
    {
        if byte_stands_at(haystack, needle, at) {
            return Some(at);
        }
        at += 1;
    }
    None
}

/// The last place where `needle` stands in `haystack`: of several, the one
/// nearest to the end.
pub fn rfind_subslice(haystack: &[u8], needle: &[u8]) -> (r: Option<usize>)
    requires
        needle@.len() > 0,
    ensures
        last_at(haystack@, needle@, haystack@.len() as int) == match r {
            Some(at) => Some(at as int),
            None => None,
        },
        r matches Some(at) ==> at + needle@.len() <= haystack@.len(),
{
    let mut below: usize = haystack.len();
    while below > 0
        invariant
            below <= haystack@.len(),
            needle@.len() > 0,
            last_at(haystack@, needle@, haystack@.len() as int) == last_at(
                haystack@,
                needle@,
                below as int,
            ),
        decreases below,
    {
        let at: usize = below - 1;
        if needle.len() <= haystack.len() - at && byte_stands_at(haystack, needle, at) {
            return Some(at);
        }
        below = at;
    }
    None
}

/// Where a reader of JSON text stands: how many objects are open, whether it
/// is inside a string, and whether the next character there is escaped.
pub struct Lexed {
    pub depth: int,
    pub in_string: bool,
    pub escaped: bool,
}

/// Where a reader of JSON text stands after the first `n` bytes.
pub open spec fn lexed(bytes: Seq<u8>, n: nat) -> Lexed
    decreases n,
{
    if n == 0 {
        Lexed { depth: 0, in_string: false, escaped: false }
    } else {
        let before = lexed(bytes, (n - 1) as nat);
        let byte = bytes[n - 1];
        if before.in_string {
            Lexed {
                depth: before.depth,
                in_string: before.escaped || byte != 0x22,
                escaped: !before.escaped && byte == 0x5c,
            }
        } else {
            Lexed {
                depth: if byte == 0x7b {
                    before.depth + 1
                } else if byte == 0x7d {
                    before.depth - 1
                } else {
                    before.depth
                },
                in_string: byte == 0x22,
                escaped: false,
            }
        }
    }
}

/// Whether the object that starts with the first byte ends after `end` bytes:
/// it is open all the way up to there, and closed there.
pub open spec fn object_ends(bytes: Seq<u8>, end: int) -> bool {
    &&& 0 < end <= bytes.len()
    &&& bytes[0] == 0x7b
    &&& lexed(bytes, end as nat).depth == 0
    &&& forall|k: nat| 0 < k < end ==> (#[trigger] lexed(bytes, k)).depth > 0
}

/// Whether no object that starts with the first byte ends within `limit`
/// bytes.
pub open spec fn never_ends(bytes: Seq<u8>, limit: int) -> bool {
    forall|end: int| end <= limit ==> !#[trigger] object_ends(bytes, end)
}

/// The length of the object that starts with the first byte, strings and
/// escapes honoured; nothing when it does not end within `limit` bytes.
pub fn balanced_end(bytes: &[u8], limit: usize) -> (r: Option<usize>)
    ensures
        match r {
            Some(end) => end <= limit && object_ends(bytes@, end as int),
            None => forall|end: int| end <= limit ==> !object_ends(bytes@, end),
        },
        r is None ==> never_ends(bytes@, limit as int),
{
    if bytes.len() == 0 || bytes[0] != 0x7b {
        return None;
    }
    let mut depth: usize = 0;
    let mut in_string = false;
    let mut escaped = false;
    let mut i: usize = 0;
    while i < bytes.len() && i < limit
        invariant
            i <= bytes@.len(),
            i <= limit,
            bytes@.len() > 0,
            bytes@[0] == 0x7b,
            depth <= i,
            i > 0 ==> depth > 0,
            escaped ==> in_string,
            depth == lexed(bytes@, i as nat).depth,
            in_string == lexed(bytes@, i as nat).in_string,
            escaped == lexed(bytes@, i as nat).escaped,
            forall|k: nat| 0 < k <= i ==> (#[trigger] lexed(bytes@, k)).depth > 0,
        decreases bytes@.len() - i,
    {
        let byte: u8 = bytes[i];
        if in_string {
            if escaped {
                escaped = false;
            } else if byte == 0x5c {
                escaped = true;
            } else if byte == 0x22 {
                in_string = false;
            }
        } else if byte == 0x22 {
            in_string = true;
        } else if byte == 0x7b {
            depth += 1;
        } else if byte == 0x7d {
            depth -= 1;
            if depth == 0 {
                assert(object_ends(bytes@, i + 1));
                return Some(i + 1);
            }
        }
        i += 1;
    }
    assert forall|end: int| end <= limit implies !object_ends(bytes@, end) by {
        if 0 < end <= bytes@.len() {
            assert(lexed(bytes@, end as nat).depth > 0);
        }
    }
    None
}

/// What a login event says to a session.
pub enum RoleEvent {
    /// No event of the live login.
    Other,
    /// An event of the live login that is undated, too old, or ahead of time.
    Outdated,
    /// A recent event of the live login that lacks a usable name, level or
    /// server.
    Incomplete,
    /// A recent event of the live login with all three.
    Usable(RemnantRole),
}

/// What a login event says to a session, as data.
pub enum EventView {
    Other,
    Outdated,
    Incomplete,
    Usable(RoleView),
}

impl View for RoleEvent {
    type V = EventView;

    open spec fn view(&self) -> EventView {
        match self {
            RoleEvent::Other => EventView::Other,
            RoleEvent::Outdated => EventView::Outdated,
            RoleEvent::Incomplete => EventView::Incomplete,
            RoleEvent::Usable(role) => EventView::Usable(role@),
        }
    }
}

/// A number, or a text that writes one, at most `max`.
pub open spec fn number_upto(tree: Tree, max: nat) -> Option<nat> {
    match tree {
        Tree::Number(_) => match tree.whole() {
            Some(n) if n <= max => Some(n),
            _ => None,
        },
        Tree::Text(s) => unsigned_upto(trimmed(s), max),
        _ => None,
    }
}

/// Whether a text can stand as a display name.
pub open spec fn fit_name(s: Seq<char>) -> bool {
    0 < s.len() <= MAX_NAME_CHARS && forall|i: int| 0 <= i < s.len() ==> !control(#[trigger] s[i])
}

/// The display name that a value gives.
pub open spec fn name_of(tree: Option<Tree>) -> Option<Seq<char>> {
    match tree {
        Some(Tree::Text(s)) if fit_name(trimmed(s)) => Some(trimmed(s)),
        _ => None,
    }
}

/// The level that a value gives: a positive number.
pub open spec fn level_of(tree: Option<Tree>) -> Option<u32> {
    match tree {
        Some(tree) => match number_upto(tree, u32::MAX as nat) {
            Some(n) if n > 0 => Some(n as u32),
            _ => None,
        },
        None => None,
    }
}

/// The server that a value gives.
pub open spec fn region_of(tree: Option<Tree>) -> Option<Seq<char>> {
    match tree {
        Some(Tree::Text(s)) if trimmed(s).len() > 0 && encode_utf8(trimmed(s)).len()
            <= MAX_REGION_BYTES => Some(trimmed(s)),
        _ => None,
    }
}

/// A member of a document that may be missing.
pub open spec fn member_of(tree: Option<Tree>, name: Seq<char>) -> Option<Tree> {
    match tree {
        Some(tree) => tree.member(name),
        None => None,
    }
}

/// Whether a value is an id: a text or a number that reads as `uid`.
pub open spec fn is_id(tree: Option<Tree>, uid: Seq<char>) -> bool {
    tree matches Some(tree) && tree.scalar() == Some(uid)
}

/// When an event happened; zero when it does not say.
pub open spec fn time_of(tree: Option<Tree>) -> nat {
    match tree {
        Some(tree) => match number_upto(tree, u64::MAX as nat) {
            Some(n) => n,
            None => 0,
        },
        None => 0,
    }
}

/// Whether an event of a moment describes a session at another one.
pub open spec fn fresh(event_ms: nat, now_ms: nat) -> bool {
    &&& event_ms > 0
    &&& event_ms <= now_ms + REMNANT_SKEW_MS
    &&& now_ms <= event_ms + MAX_REMANT_AGE_MS
}

/// What an event says to a session.
pub open spec fn event_view(event: Tree, uid: Seq<char>, now_ms: nat) -> EventView {
    let props = event.member("properties"@);
    let event_ms = time_of(member_of(props, "event_time_ms"@));
    if !is_id(member_of(props, "role_id"@), uid) {
        EventView::Other
    } else if !fresh(event_ms, now_ms) {
        EventView::Outdated
    } else {
        match (
            name_of(member_of(props, "role_name"@)),
            level_of(member_of(props, "role_level"@)),
            region_of(member_of(props, "server_name"@)),
        ) {
            (Some(name), Some(level), Some(region)) => EventView::Usable(
                RoleView { name, level, region, event_ms: event_ms as u64 },
            ),
            _ => EventView::Incomplete,
        }
    }
}

/// A member of a document that may be missing.
fn member<'a>(json: Option<&'a Json>, name: &str) -> (r: Option<&'a Json>)
    ensures
        member_of(
            match json {
                Some(json) => Some(json@),
                None => None,
            },
            name@,
        ) == match r {
            Some(json) => Some(json@),
            None => None,
        },
{
    match json {
        Some(json) => json.get(name),
        None => None,
    }
}

/// What an optional document holds.
pub open spec fn opt_tree(json: Option<&Json>) -> Option<Tree> {
    match json {
        Some(json) => Some(json@),
        None => None,
    }
}

/// Reads a number, or a text that writes one.
fn read_number(json: &Json) -> (r: Option<u64>)
    ensures
        number_upto(json@, u64::MAX as nat) == match r {
            Some(n) => Some(n as nat),
            None => None,
        },
{
    match json {
        Json::Number(_) => json.as_u64(),
        Json::Text(s) => {
            let s = trim(s.as_str());
            parse_u64(s.as_str())
        },
        _ => None,
    }
}

/// Whether a text can stand as a display name.
pub fn is_fit_name(s: &str) -> (r: bool)
    ensures
        r == fit_name(s@),
{
    let chars = crate::text::chars_of(s);
    if chars.len() == 0 || chars.len() > MAX_NAME_CHARS {
        return false;
    }
    let mut i: usize = 0;
    while i < chars.len()
        invariant
            i <= chars@.len(),
            chars@ == s@,
            chars@.len() <= MAX_NAME_CHARS,
            forall|j: int| 0 <= j < i ==> !control(#[trigger] chars@[j]),
        decreases chars@.len() - i,
    {
        if crate::text::is_control(chars[i]) {
            assert(control(s@[i as int]));
            return false;
        }
        i += 1;
    }
    true
}

/// Reads a display name.
pub fn read_name(json: Option<&Json>) -> (r: Option<String>)
    ensures
        name_of(opt_tree(json)) == crate::text::opt_view(r),
{
    match json {
        Some(Json::Text(s)) => {
            let name = trim(s.as_str());
            if is_fit_name(name.as_str()) {
                Some(name)
            } else {
                None
            }
        },
        _ => None,
    }
}

/// Reads a level.
fn read_level(json: Option<&Json>) -> (r: Option<u32>)
    ensures
        level_of(opt_tree(json)) == r,
{
    match json {
        Some(json) => match read_number(json) {
            Some(n) if 0 < n && n <= 0xffff_ffff => Some(n as u32),
            _ => None,
        },
        None => None,
    }
}

/// Reads a server name.
fn read_region(json: Option<&Json>) -> (r: Option<String>)
    ensures
        region_of(opt_tree(json)) == crate::text::opt_view(r),
{
    match json {
        Some(Json::Text(s)) => {
            let region = trim(s.as_str());
            if !region.as_str().is_empty() && region.as_str().as_bytes().len() <= MAX_REGION_BYTES {
                Some(region)
            } else {
                None
            }
        },
        _ => None,
    }
}

/// Whether a value is an id that reads as `uid`.
pub fn reads_as(json: Option<&Json>, uid: &str) -> (r: bool)
    ensures
        r == is_id(opt_tree(json), uid@),
{
    match json {
        Some(json) => match json.scalar() {
            Some(id) => same(id.as_str(), uid),
            None => false,
        },
        None => false,
    }
}

/// What an event says to the session of `live_uid` at `now_ms`.
pub fn role_event(event: &Json, live_uid: &str, now_ms: u64) -> (r: RoleEvent)
    ensures
        r@ == event_view(event@, live_uid@, now_ms as nat),
{
    let props = event.get("properties");
    if !reads_as(member(props, "role_id"), live_uid) {
        return RoleEvent::Other;
    }
    let event_ms: u64 = match member(props, "event_time_ms") {
        Some(json) => match read_number(json) {
            Some(n) => n,
            None => 0,
        },
        None => 0,
    };
    if event_ms == 0 || (event_ms > now_ms && event_ms - now_ms > REMNANT_SKEW_MS) || (now_ms
        > event_ms && now_ms - event_ms > MAX_REMANT_AGE_MS) {
        return RoleEvent::Outdated;
    }
    let name = read_name(member(props, "role_name"));
    let level = read_level(member(props, "role_level"));
    let region = read_region(member(props, "server_name"));
    match (name, level, region) {
        (Some(name), Some(level), Some(region)) => RoleEvent::Usable(
            RemnantRole { name, level, region, event_ms },
        ),
        _ => RoleEvent::Incomplete,
    }
}

/// The bytes that announce a role id.
pub open spec fn role_key() -> Seq<u8> {
    encode_utf8("\"role_id\""@)
}

/// The bytes that an event starts with.
pub open spec fn event_start() -> Seq<u8> {
    encode_utf8("{\"#distinct_id\""@)
}

/// Where the event around a role id starts: at the nearest start before it,
/// not too far back.
pub open spec fn event_from(bytes: Seq<u8>, hit: int) -> Option<int> {
    let from = if hit > EVENT_LOOK_BACK {
        hit - EVENT_LOOK_BACK
    } else {
        0
    };
    match last_at(bytes.subrange(from, hit), event_start(), hit - from) {
        Some(at) => Some(from + at),
        None => None,
    }
}

/// What the event around a role id says to a session. Bytes that are no event
/// say nothing.
pub open spec fn hit_view(bytes: Seq<u8>, hit: int, uid: Seq<char>, now_ms: nat) -> EventView {
    match event_from(bytes, hit) {
        None => EventView::Other,
        Some(from) => {
            let rest = bytes.skip(from);
            if exists|end: int| end <= EVENT_LIMIT && #[trigger] object_ends(rest, end) {
                let end = choose|end: int| end <= EVENT_LIMIT && #[trigger] object_ends(rest, end);
                match parsed_bytes(rest.take(end)) {
                    Some(event) => event_view(event, uid, now_ms),
                    None => EventView::Other,
                }
            } else {
                EventView::Other
            }
        },
    }
}

/// An object ends in one place only.
pub proof fn object_ends_once(bytes: Seq<u8>, a: int, b: int)
    requires
        object_ends(bytes, a),
        object_ends(bytes, b),
    ensures
        a == b,
{
    if a < b {
        assert(lexed(bytes, a as nat).depth > 0);
    }
    if b < a {
        assert(lexed(bytes, b as nat).depth > 0);
    }
}

/// The places from `from` on that announce a role id, at most `cap` of them.
pub open spec fn hits(bytes: Seq<u8>, from: int, cap: nat) -> Seq<int>
    decreases cap,
{
    if cap == 0 || !(0 <= from <= bytes.len()) {
        Seq::empty()
    } else {
        match first_at(bytes.skip(from), role_key(), 0) {
            Some(at) => seq![from + at] + hits(bytes, from + at + 1, (cap - 1) as nat),
            None => Seq::empty(),
        }
    }
}

/// What the places that announce a role id say to a session, in order.
pub open spec fn views(bytes: Seq<u8>, places: Seq<int>, uid: Seq<char>, now_ms: nat) -> Seq<
    EventView,
> {
    Seq::new(places.len(), |i: int| hit_view(bytes, places[i], uid, now_ms))
}

/// How many events are the live login's.
pub open spec fn count_live(events: Seq<EventView>) -> nat
    decreases events.len(),
{
    if events.len() == 0 {
        0
    } else {
        count_live(events.drop_last()) + if events.last() is Other {
            0nat
        } else {
            1nat
        }
    }
}

/// How many events are the live login's and recent.
pub open spec fn count_fresh(events: Seq<EventView>) -> nat
    decreases events.len(),
{
    if events.len() == 0 {
        0
    } else {
        count_fresh(events.drop_last()) + if events.last() is Other || events.last() is Outdated {
            0nat
        } else {
            1nat
        }
    }
}

/// The newest usable event: a later one counts only when it is newer.
pub open spec fn newest(events: Seq<EventView>) -> Option<RoleView>
    decreases events.len(),
{
    if events.len() == 0 {
        None
    } else {
        match (newest(events.drop_last()), events.last()) {
            (None, EventView::Usable(role)) => Some(role),
            (Some(known), EventView::Usable(role)) => if role.event_ms > known.event_ms {
                Some(role)
            } else {
                Some(known)
            },
            (known, _) => known,
        }
    }
}

/// The identity that the newest of the usable events carries: it stands among
/// them, none of them is newer, and those before it are all older. There is
/// none only when no event is usable.
pub proof fn newest_event_wins(events: Seq<EventView>)
    ensures
        match newest(events) {
            Some(role) => exists|i: int|
                0 <= i < events.len() && #[trigger] events[i] == EventView::Usable(role) && (
                forall|j: int|
                    0 <= j < events.len() && (#[trigger] events[j]) is Usable
                        ==> events[j]->Usable_0.event_ms <= role.event_ms && (j < i
                        ==> events[j]->Usable_0.event_ms < role.event_ms)),
            None => forall|i: int| 0 <= i < events.len() ==> !((#[trigger] events[i]) is Usable),
        },
    decreases events.len(),
{
    if events.len() > 0 {
        let rest = events.drop_last();
        newest_event_wins(rest);
        let n = events.len() - 1;
        assert(events[n] == events.last());
        assert forall|j: int| 0 <= j < n implies #[trigger] events[j] == rest[j] by {}
        match newest(events) {
            Some(role) => {
                if newest(rest) == Some(role) {
                    let i = choose|i: int|
                        0 <= i < rest.len() && #[trigger] rest[i] == EventView::Usable(role) && (
                        forall|j: int|
                            0 <= j < rest.len() && (#[trigger] rest[j]) is Usable
                                ==> rest[j]->Usable_0.event_ms <= role.event_ms && (j < i
                                ==> rest[j]->Usable_0.event_ms < role.event_ms));
                    assert(events[i] == EventView::Usable(role));
                } else {
                    assert(events[n] == EventView::Usable(role));
                }
            },
            None => {},
        }
    }
}

/// Reads the event around the role id at `hit`.
fn hit_event(bytes: &[u8], hit: usize, live_uid: &str, now_ms: u64) -> (r: RoleEvent)
    requires
        hit <= bytes@.len(),
    ensures
        r@ == hit_view(bytes@, hit as int, live_uid@, now_ms as nat),
{
    let start = "{\"#distinct_id\"".as_bytes();
    proof {
        reveal_strlit("{\"#distinct_id\"");
        vstd::utf8::is_ascii_chars_encode_utf8("{\"#distinct_id\""@);
    }
    let from: usize = if hit > EVENT_LOOK_BACK {
        hit - EVENT_LOOK_BACK
    } else {
        0
    };
    let window = vstd::slice::slice_subrange(bytes, from, hit);
    let at: usize = match rfind_subslice(window, start) {
        Some(at) => from + at,
        None => {
            return RoleEvent::Other;
        },
    };
    let rest = vstd::slice::slice_subrange(bytes, at, bytes.len());
    assert(rest@ == bytes@.skip(at as int));
    let end: usize = match balanced_end(rest, EVENT_LIMIT) {
        Some(end) => end,
        None => {
            return RoleEvent::Other;
        },
    };
    let event = vstd::slice::slice_subrange(rest, 0, end);
    proof {
        let chosen = choose|end: int| end <= EVENT_LIMIT && #[trigger] object_ends(rest@, end);
        object_ends_once(rest@, chosen, end as int);
        assert(event@ == rest@.take(end as int));
    }
    match parse_bytes(event) {
        Some(event) => role_event(&event, live_uid, now_ms),
        None => RoleEvent::Other,
    }
}

/// The identity of one login that the bytes of the telemetry database give.
pub open spec fn recovered(bytes: Seq<u8>, uid: Seq<char>, now_ms: nat) -> Option<RoleView> {
    newest(views(bytes, hits(bytes, 0, MAX_REMANT_CANDIDATES as nat), uid, now_ms))
}

/// What a scan of the bytes of the telemetry database meets.
pub open spec fn census(bytes: Seq<u8>, uid: Seq<char>, now_ms: nat) -> RemnantStats {
    let places = hits(bytes, 0, MAX_REMANT_CANDIDATES as nat);
    let events = views(bytes, places, uid, now_ms);
    RemnantStats {
        candidates: places.len() as usize,
        role_hits: count_live(events) as usize,
        fresh_hits: count_fresh(events) as usize,
    }
}

/// An identity that is recovered is recent, and some place in the bytes holds
/// the event of the login that says so.
pub proof fn recovered_identities_are_fresh(bytes: Seq<u8>, uid: Seq<char>, now_ms: nat)
    ensures
        recovered(bytes, uid, now_ms) matches Some(role) ==> fresh(role.event_ms as nat, now_ms)
            && exists|i: int|
            #![trigger hits(bytes, 0, MAX_REMANT_CANDIDATES as nat)[i]]
            0 <= i < hits(bytes, 0, MAX_REMANT_CANDIDATES as nat).len() && hit_view(
                bytes,
                hits(bytes, 0, MAX_REMANT_CANDIDATES as nat)[i],
                uid,
                now_ms,
            ) == EventView::Usable(role),
{
    let places = hits(bytes, 0, MAX_REMANT_CANDIDATES as nat);
    let events = views(bytes, places, uid, now_ms);
    newest_event_wins(events);
    if let Some(role) = newest(events) {
        let i = choose|i: int|
            0 <= i < events.len() && #[trigger] events[i] == EventView::Usable(role) && (
            forall|j: int|
                0 <= j < events.len() && (#[trigger] events[j]) is Usable
                    ==> events[j]->Usable_0.event_ms <= role.event_ms && (j < i
                    ==> events[j]->Usable_0.event_ms < role.event_ms));
        assert(hit_view(bytes, places[i], uid, now_ms) == EventView::Usable(role));
    }
}

/// Recovers the identity of one login from the bytes of the telemetry
/// database: of its recent, complete events the newest.
pub fn find_remnant_role(copy_bytes: &[u8], live_uid: &str, now_ms: u64) -> (r: (
    Option<RemnantRole>,
    RemnantStats,
))
    ensures
        recovered(copy_bytes@, live_uid@, now_ms as nat) == match r.0 {
            Some(role) => Some(role@),
            None => None,
        },
        ({
            let places = hits(copy_bytes@, 0, MAX_REMANT_CANDIDATES as nat);
            let events = views(copy_bytes@, places, live_uid@, now_ms as nat);
            &&& r.1.candidates == places.len()
            &&& r.1.role_hits == count_live(events)
            &&& r.1.fresh_hits == count_fresh(events)
        }),
        r.1 == census(copy_bytes@, live_uid@, now_ms as nat),
{
    let key = "\"role_id\"".as_bytes();
    proof {
        reveal_strlit("\"role_id\"");
        vstd::utf8::is_ascii_chars_encode_utf8("\"role_id\""@);
    }
    let mut best: Option<RemnantRole> = None;
    let mut stats = RemnantStats { candidates: 0, role_hits: 0, fresh_hits: 0 };
    let mut cursor: usize = 0;
    let ghost bytes = copy_bytes@;
    let ghost all = hits(bytes, 0, MAX_REMANT_CANDIDATES as nat);
    let ghost mut seen = Seq::<int>::empty();
    assert(all == seen + hits(bytes, 0, MAX_REMANT_CANDIDATES as nat));
    while stats.candidates < MAX_REMANT_CANDIDATES
        invariant_except_break
            all == seen + hits(
                bytes,
                cursor as int,
                (MAX_REMANT_CANDIDATES - stats.candidates) as nat,
            ),
        invariant
            bytes == copy_bytes@,
            cursor <= bytes.len(),
            key@ == role_key(),
            key@.len() > 0,
            stats.candidates <= MAX_REMANT_CANDIDATES,
            stats.candidates == seen.len(),
            stats.role_hits == count_live(views(bytes, seen, live_uid@, now_ms as nat)),
            stats.fresh_hits == count_fresh(views(bytes, seen, live_uid@, now_ms as nat)),
            stats.role_hits <= stats.candidates,
            stats.fresh_hits <= stats.candidates,
            newest(views(bytes, seen, live_uid@, now_ms as nat)) == match best {
                Some(role) => Some(role@),
                None => None,
            },
        ensures
            all == seen,
        decreases MAX_REMANT_CANDIDATES - stats.candidates,
    {
        let rest = vstd::slice::slice_subrange(copy_bytes, cursor, copy_bytes.len());
        assert(rest@ == bytes.skip(cursor as int));
        let relative: usize = match find_subslice(rest, key) {
            Some(relative) => relative,
            None => {
                assert(all == seen);
                break ;
            },
        };
        stats.candidates += 1;
        let hit: usize = cursor + relative;
        cursor = hit + 1;
        let ghost before = views(bytes, seen, live_uid@, now_ms as nat);
        proof {
            let next = seen.push(hit as int);
            assert(all == next + hits(
                bytes,
                cursor as int,
                (MAX_REMANT_CANDIDATES - stats.candidates) as nat,
            ));
            let after = views(bytes, next, live_uid@, now_ms as nat);
            assert(after.drop_last() == before);
            assert(after.last() == hit_view(bytes, hit as int, live_uid@, now_ms as nat));
            seen = next;
        }
        match hit_event(copy_bytes, hit, live_uid, now_ms) {
            RoleEvent::Other => {},
            RoleEvent::Outdated => {
                stats.role_hits += 1;
            },
            RoleEvent::Incomplete => {
                stats.role_hits += 1;
                stats.fresh_hits += 1;
            },
            RoleEvent::Usable(role) => {
                stats.role_hits += 1;
                stats.fresh_hits += 1;
                let known = match &best {
                    Some(known) => known.event_ms >= role.event_ms,
                    None => false,
                };
                if !known {
                    best = Some(role);
                }
            },
        }
    }
    (best, stats)
}

/// A name is a text that without the white space around it has one to
/// thirty-two characters, none of them from the two blocks of control
/// characters; then it is that text. Characters of every script count, so that
/// whatever stands behind the second block never spoils a name.
pub proof fn names_are_of_any_script(value: Tree)
    ensures
        match value {
            Tree::Text(s) => if 1 <= trimmed(s).len() <= 32 && (forall|i: int|
                0 <= i < trimmed(s).len() ==> !(#[trigger] trimmed(s)[i] <= '\u{1f}' || '\u{7f}'
                    <= trimmed(s)[i] <= '\u{9f}')) {
                name_of(Some(value)) == Some(trimmed(s))
            } else {
                name_of(Some(value)) is None
            },
            _ => name_of(Some(value)) is None,
        },
        name_of(None) is None,
{
    if let Tree::Text(s) = value {
        let t = trimmed(s);
        assert forall|i: int| 0 <= i < t.len() implies control(#[trigger] t[i]) == (t[i]
            <= '\u{1f}' || '\u{7f}' <= t[i] <= '\u{9f}') by {
            control_codes(t[i]);
        }
    }
}

proof fn control_codes(c: char)
    ensures
        control(c) == (c <= '\u{1f}' || '\u{7f}' <= c <= '\u{9f}'),
{
}

/// A level is a positive whole number that fits in 32 bits, as a number or as
/// a text with white space around it at most; anything else is none.
pub proof fn levels_are_positive(value: Tree, n: u32)
    ensures
        level_of(Some(value)) == Some(n) <==> n > 0 && match value {
            Tree::Number(s) => all_digits(s) && digits_value(s) == n,
            Tree::Text(s) => unsigned(trimmed(s)) == Some(n as nat),
            _ => false,
        },
        level_of(None) is None,
{
}

/// An event is dated by a whole number that fits in 64 bits, as a number or as
/// a text with white space around it at most; else it is not dated.
pub proof fn events_are_dated(value: Tree, n: u64)
    ensures
        n > 0 ==> (time_of(Some(value)) == n <==> match value {
            Tree::Number(s) => all_digits(s) && digits_value(s) == n,
            Tree::Text(s) => unsigned(trimmed(s)) == Some(n as nat),
            _ => false,
        }),
        time_of(Some(value)) <= 18446744073709551615,
        time_of(None) == 0,
{
}

/// A server is a text without the white space around it, of at least one byte
/// and at most sixty-four.
pub proof fn servers_are_short_texts(value: Tree)
    ensures
        match value {
            Tree::Text(s) => if trimmed(s).len() > 0 && encode_utf8(trimmed(s)).len() <= 64 {
                region_of(Some(value)) == Some(trimmed(s))
            } else {
                region_of(Some(value)) is None
            },
            _ => region_of(Some(value)) is None,
        },
        region_of(None) is None,
{
}

/// An event describes the session when it is dated, at most a day old, and at
/// most five minutes ahead of the clock; with the clock it moves on.
pub proof fn events_stay_fresh_for_a_day(event_ms: nat, now_ms: nat, later: nat)
    ensures
        fresh(event_ms, now_ms) <==> event_ms > 0 && now_ms - event_ms <= 86400000 && event_ms
            - now_ms <= 300000,
        event_ms > 0 && later > 0 ==> fresh(event_ms + later, now_ms + later) == fresh(
            event_ms,
            now_ms,
        ),
        event_ms > 0 ==> fresh(event_ms, event_ms),
{
}

/// What an event says: the properties of another login say nothing; of this
/// one, an event that is not fresh is outdated, and a fresh one is usable
/// exactly when it has a name, a level and a server, which are then its own.
pub proof fn usable_events_are_complete(
    event: Json,
    props: Map<Seq<char>, Tree>,
    uid: &str,
    now_ms: u64,
    r: RoleEvent,
)
    requires
        call_ensures(role_event, (&event, uid, now_ms), r),
        event@.has("properties"@, Tree::Object(props)),
    ensures
        ({
            let all = Tree::Object(props);
            let ours = all.has("role_id"@, Tree::Text(uid@)) || all.has(
                "role_id"@,
                Tree::Number(uid@),
            );
            let at = time_of(all.member("event_time_ms"@));
            let name = name_of(all.member("role_name"@));
            let level = level_of(all.member("role_level"@));
            let server = region_of(all.member("server_name"@));
            &&& !ours <==> r is Other
            &&& ours && !fresh(at, now_ms as nat) <==> r is Outdated
            &&& r is Usable <==> ours && fresh(at, now_ms as nat) && name is Some && level is Some
                && server is Some
            &&& r matches RoleEvent::Usable(role) ==> role.name@ == name->Some_0 && role.level
                == level->Some_0 && role.region@ == server->Some_0 && role.event_ms == at
        }),
{
}

/// An event without properties says nothing to any session.
pub proof fn events_without_properties_say_nothing(
    event: Json,
    uid: &str,
    now_ms: u64,
    r: RoleEvent,
)
    requires
        call_ensures(role_event, (&event, uid, now_ms), r),
        !(event@.member("properties"@) matches Some(Tree::Object(_))),
    ensures
        r is Other,
{
}

/// The first place of some bytes is found, and the last: no earlier one, or no
/// later one, has them.
pub proof fn places_are_first_and_last(
    haystack: &[u8],
    needle: &[u8],
    first: Option<usize>,
    last: Option<usize>,
)
    requires
        needle@.len() > 0,
        call_ensures(find_subslice, (haystack, needle), first),
        call_ensures(rfind_subslice, (haystack, needle), last),
    ensures
        match first {
            Some(at) => stands_at(haystack@, needle@, at as int) && forall|i: int|
                0 <= i < at ==> !#[trigger] stands_at(haystack@, needle@, i),
            None => forall|i: int| !#[trigger] stands_at(haystack@, needle@, i),
        },
        match last {
            Some(at) => stands_at(haystack@, needle@, at as int) && forall|i: int|
                at < i ==> !#[trigger] stands_at(haystack@, needle@, i),
            None => forall|i: int| !#[trigger] stands_at(haystack@, needle@, i),
        },
{
    first_is_first(haystack@, needle@, 0);
    last_is_last(haystack@, needle@, haystack@.len() as int);
}

proof fn first_is_first(s: Seq<u8>, part: Seq<u8>, from: int)
    requires
        0 <= from,
    ensures
        match first_at(s, part, from) {
            Some(at) => from <= at && stands_at(s, part, at) && forall|i: int|
                from <= i < at ==> !#[trigger] stands_at(s, part, i),
            None => forall|i: int| from <= i ==> !#[trigger] stands_at(s, part, i),
        },
    decreases s.len() + 1 - from,
{
    if from + part.len() <= s.len() && !stands_at(s, part, from) {
        first_is_first(s, part, from + 1);
    }
}

proof fn last_is_last(s: Seq<u8>, part: Seq<u8>, below: int)
    ensures
        match last_at(s, part, below) {
            Some(at) => at < below && stands_at(s, part, at) && forall|i: int|
                at < i < below ==> !#[trigger] stands_at(s, part, i),
            None => forall|i: int| i < below ==> !#[trigger] stands_at(s, part, i),
        },
    decreases below,
{
    if below > 0 && !stands_at(s, part, below - 1) {
        last_is_last(s, part, below - 1);
    }
}

/// How one byte moves a reader of JSON text: outside of a string a quote opens
/// one and braces open and close objects; inside of one a backslash takes the
/// next byte as it is, and a quote that is not taken so closes the string.
pub proof fn one_byte_moves_the_reader(bytes: Seq<u8>, n: nat)
    requires
        n < bytes.len(),
    ensures
        ({
            let (before, after) = (lexed(bytes, n), lexed(bytes, n + 1));
            let byte = bytes[n as int];
            &&& before.in_string ==> after.depth == before.depth
            &&& before.in_string && before.escaped ==> after.in_string && !after.escaped
            &&& before.in_string && !before.escaped && byte == 92 ==> after.in_string
                && after.escaped
            &&& before.in_string && !before.escaped && byte == 34 ==> !after.in_string
                && !after.escaped
            &&& before.in_string && !before.escaped && byte != 34 && byte != 92 ==> after.in_string
                && !after.escaped
            &&& !before.in_string ==> !after.escaped && after.in_string == (byte == 34)
            &&& !before.in_string && byte == 123 ==> after.depth == before.depth + 1
            &&& !before.in_string && byte == 125 ==> after.depth == before.depth - 1
            &&& !before.in_string && byte != 123 && byte != 125 ==> after.depth == before.depth
        }),
        lexed(bytes, 0) == (Lexed { depth: 0, in_string: false, escaped: false }),
{
}

/// An object of one level ends with its brace, whatever stands in it, as long
/// as no quote or brace does; and so does an object that is a string alone,
/// whatever braces stand in that, as long as no quote or backslash does.
pub proof fn flat_objects_end_with_their_brace(inside: Seq<u8>, after: Seq<u8>)
    ensures
        (forall|i: int|
            0 <= i < inside.len() ==> #[trigger] inside[i] != 34 && inside[i] != 123 && inside[i]
                != 125) ==> object_ends(
            seq![123u8] + inside + seq![125u8] + after,
            inside.len() as int + 2,
        ),
        (forall|i: int| 0 <= i < inside.len() ==> #[trigger] inside[i] != 34 && inside[i] != 92)
            ==> object_ends(
            seq![123u8, 34u8] + inside + seq![34u8, 125u8] + after,
            inside.len() as int + 4,
        ),
{
    let n = inside.len() as int;
    if forall|i: int|
        0 <= i < inside.len() ==> #[trigger] inside[i] != 34 && inside[i] != 123 && inside[i]
            != 125 {
        let all = seq![123u8] + inside + seq![125u8] + after;
        assert forall|k: nat| 0 < k < n + 2 implies (#[trigger] lexed(all, k)) == (Lexed {
            depth: 1,
            in_string: false,
            escaped: false,
        }) by {
            plain_run(all, 1, k, false);
        }
        assert(lexed(all, 0).depth == 0);
        assert(all[0] == 123);
        assert(all[n + 1] == 125);
        assert(lexed(all, (n + 1) as nat).depth == 1);
        assert(lexed(all, (n + 2) as nat).depth == 0);
        assert(object_ends(all, n + 2));
    }
    if forall|i: int| 0 <= i < inside.len() ==> #[trigger] inside[i] != 34 && inside[i] != 92 {
        let all = seq![123u8, 34u8] + inside + seq![34u8, 125u8] + after;
        assert(all[0] == 123 && all[1] == 34 && all[n + 2] == 34 && all[n + 3] == 125);
        assert(lexed(all, 0).depth == 0);
        assert(lexed(all, 1) == (Lexed { depth: 1, in_string: false, escaped: false }));
        assert(lexed(all, 2) == (Lexed { depth: 1, in_string: true, escaped: false }));
        assert forall|k: nat| 2 <= k < n + 3 implies (#[trigger] lexed(all, k)) == (Lexed {
            depth: 1,
            in_string: true,
            escaped: false,
        }) by {
            plain_run(all, 2, k, true);
        }
        assert(lexed(all, (n + 2) as nat).in_string);
        assert(lexed(all, (n + 3) as nat) == (Lexed { depth: 1, in_string: false, escaped: false }));
        assert(lexed(all, (n + 4) as nat).depth == 0);
        assert forall|k: nat| 0 < k < n + 4 implies (#[trigger] lexed(all, k)).depth > 0 by {
            if k >= 2 && k < n + 3 {
                assert(lexed(all, k).depth == 1);
            }
        }
        assert(object_ends(all, n + 4));
    }
}

proof fn plain_run(all: Seq<u8>, from: nat, k: nat, in_string: bool)
    requires
        0 < from <= k <= all.len(),
        !in_string ==> from == 1 && all[0] == 123,
        in_string ==> from == 2 && all[0] == 123 && all[1] == 34,
        forall|i: int|
            from <= i < k ==> #[trigger] all[i] != 34 && (in_string ==> all[i] != 92) && (!in_string
                ==> all[i] != 123 && all[i] != 125),
    ensures
        lexed(all, k) == (Lexed { depth: 1, in_string, escaped: false }),
    decreases k,
{
    if k == from {
        assert(lexed(all, 0).depth == 0);
        if in_string {
            assert(lexed(all, 1) == (Lexed { depth: 1, in_string: false, escaped: false }));
        }
    } else {
        plain_run(all, from, (k - 1) as nat, in_string);
        assert(all[k - 1] != 34);
    }
}

/// What announces a role id and what an event starts with, in bytes.
pub proof fn marks_are_these_bytes()
    ensures
        role_key() == seq![34u8, 114, 111, 108, 101, 95, 105, 100, 34],
        event_start() == seq![
            123u8,
            34,
            35,
            100,
            105,
            115,
            116,
            105,
            110,
            99,
            116,
            95,
            105,
            100,
            34,
        ],
{
    reveal_strlit("\"role_id\"");
    reveal_strlit("{\"#distinct_id\"");
    vstd::utf8::is_ascii_chars_encode_utf8("\"role_id\""@);
    vstd::utf8::is_ascii_chars_encode_utf8("{\"#distinct_id\""@);
    assert(role_key() =~= seq![34u8, 114, 111, 108, 101, 95, 105, 100, 34]);
    assert(event_start() =~= seq![
        123u8,
        34,
        35,
        100,
        105,
        115,
        116,
        105,
        110,
        99,
        116,
        95,
        105,
        100,
        34,
    ]);
}

/// The event around a role id starts at the nearest start before it that is at
/// most 4096 bytes back and ends before it.
pub proof fn events_start_nearby(bytes: Seq<u8>, hit: int)
    requires
        0 <= hit <= bytes.len(),
    ensures
        match event_from(bytes, hit) {
            Some(from) => stands_at(bytes, event_start(), from) && from >= hit - 4096 && from >= 0
                && from + event_start().len() <= hit && forall|i: int|
                from < i && i + event_start().len() <= hit ==> !#[trigger] stands_at(
                    bytes,
                    event_start(),
                    i,
                ),
            None => forall|i: int|
                hit - 4096 <= i && i + event_start().len() <= hit ==> !#[trigger] stands_at(
                    bytes,
                    event_start(),
                    i,
                ),
        },
{
    marks_are_these_bytes();
    let mark = event_start();
    let from = if hit > 4096 {
        hit - 4096
    } else {
        0
    };
    let window = bytes.subrange(from, hit);
    last_is_last(window, mark, hit - from);
    assert forall|i: int| #[trigger] stands_at(bytes, mark, i) && from <= i && i + mark.len()
        <= hit implies stands_at(window, mark, i - from) by {
        assert(window.subrange(i - from, i - from + mark.len()) =~= bytes.subrange(
            i,
            i + mark.len(),
        ));
    }
    assert forall|i: int| #[trigger] stands_at(window, mark, i) implies stands_at(
        bytes,
        mark,
        from + i,
    ) by {
        assert(window.subrange(i, i + mark.len()) =~= bytes.subrange(
            from + i,
            from + i + mark.len(),
        ));
    }
    match last_at(window, mark, hit - from) {
        Some(at) => {
            assert(stands_at(bytes, mark, from + at));
            assert forall|i: int| from + at < i && i + mark.len() <= hit implies !#[trigger] stands_at(
                bytes,
                mark,
                i,
            ) by {
                if stands_at(bytes, mark, i) {
                    assert(stands_at(window, mark, i - from));
                }
            }
        },
        None => {
            assert forall|i: int| hit - 4096 <= i && i + mark.len()
                <= hit implies !#[trigger] stands_at(bytes, mark, i) by {
                if stands_at(bytes, mark, i) {
                    assert(stands_at(window, mark, i - from));
                }
            }
        },
    }
}

/// What stands around a role id counts as the event that is read from the
/// start nearby up to where the object ends, at most 8192 bytes on; without a
/// start, an end, or a document there, it says nothing.
pub proof fn events_are_read_whole(
    bytes: Seq<u8>,
    hit: int,
    from: int,
    end: int,
    uid: Seq<char>,
    now_ms: nat,
)
    requires
        event_from(bytes, hit) == Some(from),
        object_ends(bytes.skip(from), end),
    ensures
        end <= 8192 ==> hit_view(bytes, hit, uid, now_ms) == match parsed_bytes(
            bytes.skip(from).take(end),
        ) {
            Some(event) => event_view(event, uid, now_ms),
            None => EventView::Other,
        },
        end > 8192 ==> hit_view(bytes, hit, uid, now_ms) is Other,
{
    let rest = bytes.skip(from);
    if exists|e: int| e <= EVENT_LIMIT && #[trigger] object_ends(rest, e) {
        let chosen = choose|e: int| e <= EVENT_LIMIT && #[trigger] object_ends(rest, e);
        object_ends_once(rest, chosen, end);
    }
}

/// The places that are looked at are those that announce a role id, in order,
/// none passed over, up to the sixty-fourth.
pub proof fn places_are_the_first_ones(bytes: Seq<u8>)
    ensures
        ({
            let places = hits(bytes, 0, MAX_REMANT_CANDIDATES as nat);
            &&& places.len() <= 64
            &&& forall|i: int|
                0 <= i < places.len() ==> stands_at(bytes, role_key(), #[trigger] places[i])
            &&& forall|i: int, j: int|
                0 <= i < j < places.len() ==> #[trigger] places[i] < #[trigger] places[j]
            &&& forall|at: int| #[trigger]
                stands_at(bytes, role_key(), at) ==> places.contains(at) || (places.len() == 64
                    && places.last() < at)
        }),
{
    hits_are_complete(bytes, 0, MAX_REMANT_CANDIDATES as nat);
}

proof fn hits_are_complete(bytes: Seq<u8>, from: int, cap: nat)
    requires
        0 <= from,
    ensures
        ({
            let places = hits(bytes, from, cap);
            &&& places.len() <= cap
            &&& forall|i: int|
                0 <= i < places.len() ==> from <= #[trigger] places[i] && stands_at(
                    bytes,
                    role_key(),
                    places[i],
                )
            &&& forall|i: int, j: int|
                0 <= i < j < places.len() ==> #[trigger] places[i] < #[trigger] places[j]
            &&& cap > 0 ==> forall|at: int| #[trigger]
                stands_at(bytes, role_key(), at) && from <= at ==> places.contains(at) || (
                places.len() == cap && places.last() < at)
        }),
    decreases cap,
{
    marks_are_these_bytes();
    let places = hits(bytes, from, cap);
    if cap > 0 && from <= bytes.len() {
        let rest = bytes.skip(from);
        first_is_first(rest, role_key(), 0);
        assert forall|at: int| from <= at implies #[trigger] stands_at(bytes, role_key(), at)
            == stands_at(rest, role_key(), at - from) by {
            if at + role_key().len() <= bytes.len() {
                assert(rest.subrange(at - from, at - from + role_key().len()) =~= bytes.subrange(
                    at,
                    at + role_key().len(),
                ));
            }
        }
        match first_at(rest, role_key(), 0) {
            Some(first) => {
                let hit = from + first;
                let more = hits(bytes, hit + 1, (cap - 1) as nat);
                assert(stands_at(bytes, role_key(), hit));
                hits_are_complete(bytes, hit + 1, (cap - 1) as nat);
                assert(places =~= seq![hit] + more);
                assert(places[0] == hit);
                assert forall|i: int| 0 < i < places.len() implies #[trigger] places[i]
                    == more[i - 1] by {}
                assert forall|at: int| #[trigger] stands_at(bytes, role_key(), at) && from
                    <= at implies places.contains(at) || (places.len() == cap && places.last()
                    < at) by {
                    if at < hit {
                        assert(stands_at(rest, role_key(), at - from));
                    } else if at > hit {
                        if cap > 1 {
                            if more.contains(at) {
                                let k = choose|k: int| 0 <= k < more.len() && more[k] == at;
                                assert(places[k + 1] == at);
                            } else {
                                assert(places.last() == more.last());
                            }
                        } else {
                            assert(more.len() == 0);
                            assert(places.last() == hit);
                        }
                    }
                }
            },
            None => {
                assert forall|at: int| from <= at implies !#[trigger] stands_at(
                    bytes,
                    role_key(),
                    at,
                ) by {
                    assert(!stands_at(rest, role_key(), at - from));
                }
            },
        }
    }
}

/// What is recovered is the newest of the usable events at the places looked
/// at: one of them says it, and none says anything newer. Nothing is recovered
/// exactly when none of them is usable.
pub proof fn newest_usable_event_is_recovered(
    bytes: &[u8],
    uid: &str,
    now_ms: u64,
    r: (Option<RemnantRole>, RemnantStats),
)
    requires
        call_ensures(find_remnant_role, (bytes, uid, now_ms), r),
    ensures
        ({
            let places = hits(bytes@, 0, MAX_REMANT_CANDIDATES as nat);
            match r.0 {
                Some(role) => (exists|i: int|
                    0 <= i < places.len() && hit_view(
                        bytes@,
                        #[trigger] places[i],
                        uid@,
                        now_ms as nat,
                    ) == EventView::Usable(role@)) && forall|i: int|
                    0 <= i < places.len() ==> (hit_view(
                        bytes@,
                        #[trigger] places[i],
                        uid@,
                        now_ms as nat,
                    ) matches EventView::Usable(other) ==> other.event_ms <= role.event_ms),
                None => forall|i: int|
                    0 <= i < places.len() ==> !(hit_view(
                        bytes@,
                        #[trigger] places[i],
                        uid@,
                        now_ms as nat,
                    ) is Usable),
            }
        }),
        r.1.candidates == hits(bytes@, 0, MAX_REMANT_CANDIDATES as nat).len(),
        r.1.fresh_hits <= r.1.role_hits <= r.1.candidates,
        r.0 is Some ==> r.1.fresh_hits > 0,
{
    let places = hits(bytes@, 0, MAX_REMANT_CANDIDATES as nat);
    let events = views(bytes@, places, uid@, now_ms as nat);
    newest_event_wins(events);
    counts_are_ordered(events);
    assert forall|i: int| 0 <= i < places.len() implies hit_view(
        bytes@,
        #[trigger] places[i],
        uid@,
        now_ms as nat,
    ) == events[i] by {}
    match newest(events) {
        Some(role) => {
            let i = choose|i: int|
                0 <= i < events.len() && #[trigger] events[i] == EventView::Usable(role) && (
                forall|j: int|
                    0 <= j < events.len() && (#[trigger] events[j]) is Usable
                        ==> events[j]->Usable_0.event_ms <= role.event_ms && (j < i
                        ==> events[j]->Usable_0.event_ms < role.event_ms));
            assert(hit_view(bytes@, places[i], uid@, now_ms as nat) == EventView::Usable(role));
            assert forall|j: int| 0 <= j < places.len() implies (hit_view(
                bytes@,
                #[trigger] places[j],
                uid@,
                now_ms as nat,
            ) matches EventView::Usable(other) ==> other.event_ms <= role.event_ms) by {
                assert(hit_view(bytes@, places[j], uid@, now_ms as nat) == events[j]);
            }
        },
        None => {
            assert forall|j: int| 0 <= j < places.len() implies !(hit_view(
                bytes@,
                #[trigger] places[j],
                uid@,
                now_ms as nat,
            ) is Usable) by {
                assert(hit_view(bytes@, places[j], uid@, now_ms as nat) == events[j]);
            }
        },
    }
}

proof fn counts_are_ordered(events: Seq<EventView>)
    ensures
        count_fresh(events) <= count_live(events) <= events.len(),
        newest(events) is Some ==> count_fresh(events) > 0,
    decreases events.len(),
{
    if events.len() > 0 {
        counts_are_ordered(events.drop_last());
    }
}

/// Events are counted one by one: one of another login counts for nothing, an
/// outdated one as the login's, and a fresh one as fresh too.
pub proof fn events_are_counted_singly(events: Seq<EventView>, event: EventView)
    ensures
        count_live(events.push(event)) == count_live(events) + if event is Other {
            0int
        } else {
            1int
        },
        count_fresh(events.push(event)) == count_fresh(events) + if event is Incomplete
            || event is Usable {
            1int
        } else {
            0int
        },
        count_live(Seq::<EventView>::empty()) == 0,
        count_fresh(Seq::<EventView>::empty()) == 0,
{
    assert(events.push(event).drop_last() =~= events);
}

/// Bytes without the start of an event nearby say nothing, and neither do those
/// whose object does not end within 8192 bytes.
pub proof fn bytes_without_an_event_say_nothing(
    bytes: Seq<u8>,
    hit: int,
    from: int,
    uid: Seq<char>,
    now_ms: nat,
)
    ensures
        event_from(bytes, hit) is None ==> hit_view(bytes, hit, uid, now_ms) is Other,
        event_from(bytes, hit) == Some(from) && (forall|end: int|
            end <= 8192 ==> !#[trigger] object_ends(bytes.skip(from), end)) ==> hit_view(
            bytes,
            hit,
            uid,
            now_ms,
        ) is Other,
{
}

/// An object has the length that is found for it: it starts with a brace, is
/// closed for the first time there, and that is within the limit. One that is
/// not is given no length.
pub proof fn objects_end_where_they_close(bytes: &[u8], limit: usize, r: Option<usize>)
    requires
        call_ensures(balanced_end, (bytes, limit), r),
    ensures
        r matches Some(end) ==> 0 < end <= limit && end <= bytes@.len() && bytes@[0] == 123
            && lexed(bytes@, end as nat).depth == 0 && forall|k: nat|
            0 < k < end ==> (#[trigger] lexed(bytes@, k)).depth >= 1,
        r is None && bytes@.len() > 0 && bytes@[0] == 123 ==> forall|n: nat|
            0 < n <= limit && n <= bytes@.len() ==> (#[trigger] lexed(bytes@, n)).depth != 0,
{
    if r is None && bytes@.len() > 0 && bytes@[0] == 123 {
        assert forall|n: nat| 0 < n <= limit && n <= bytes@.len() implies (#[trigger] lexed(
            bytes@,
            n,
        )).depth != 0 by {
            stays_open(bytes@, limit as int, n);
        }
    }
}

proof fn stays_open(bytes: Seq<u8>, limit: int, n: nat)
    requires
        bytes.len() > 0,
        bytes[0] == 123,
        0 < n <= limit,
        n <= bytes.len(),
        never_ends(bytes, limit),
    ensures
        lexed(bytes, n).depth > 0,
    decreases n,
{
    if n == 1 {
        assert(lexed(bytes, 0).depth == 0);
    } else {
        stays_open(bytes, limit, (n - 1) as nat);
        assert(!object_ends(bytes, n as int));
        assert forall|k: nat| 0 < k < n implies (#[trigger] lexed(bytes, k)).depth > 0 by {
            stays_open(bytes, limit, k);
        }
    }
}

/// What a scan met is told in numbers only: how many places announced a role
/// id, how many were of the login, and how many of those were fresh.
pub proof fn scans_are_told_in_numbers(
    bytes: &[u8],
    uid: &str,
    now_ms: u64,
    events: Seq<EventView>,
    r: (Option<RemnantRole>, RemnantStats),
    line: String,
)
    requires
        call_ensures(find_remnant_role, (bytes, uid, now_ms), r),
        call_ensures(scan_line, (&r.1,), line),
        events.len() == hits(bytes@, 0, MAX_REMANT_CANDIDATES as nat).len(),
        forall|i: int|
            0 <= i < events.len() ==> #[trigger] events[i] == hit_view(
                bytes@,
                hits(bytes@, 0, MAX_REMANT_CANDIDATES as nat)[i],
                uid@,
                now_ms as nat,
            ),
    ensures
        r.1.candidates == events.len(),
        r.1.role_hits == count_live(events),
        r.1.fresh_hits == count_fresh(events),
        line@ == "telemetry scan: "@ + decimal(r.1.candidates as nat) + " candidate(s), "@
            + decimal(r.1.role_hits as nat) + " login event(s), "@ + decimal(
            r.1.fresh_hits as nat,
        ) + " fresh event(s)"@,
{
    let places = hits(bytes@, 0, MAX_REMANT_CANDIDATES as nat);
    assert(views(bytes@, places, uid@, now_ms as nat) =~= events);
}

/// A text is fit for a name exactly when it has one to thirty-two characters
/// and none of them is a control character; characters of any script are fit.
pub proof fn fit_names_are_of_any_script(s: &str, r: bool)
    requires
        call_ensures(is_fit_name, (s,), r),
    ensures
        r <==> 1 <= s@.len() <= 32 && forall|i: int|
            0 <= i < s@.len() ==> !(#[trigger] s@[i] <= '\u{1f}' || '\u{7f}' <= s@[i] <= '\u{9f}'),
{
    assert forall|i: int| 0 <= i < s@.len() implies control(#[trigger] s@[i]) == (s@[i]
        <= '\u{1f}' || '\u{7f}' <= s@[i] <= '\u{9f}') by {
        control_codes(s@[i]);
    }
}

/// A name is read from a text alone, as what is fit of it without the white
/// space around it; an id is read from a text or a number.
pub proof fn names_and_ids_are_read(
    json: Option<&Json>,
    uid: &str,
    trimmed_text: &str,
    fit: bool,
    name: Option<String>,
    ours: bool,
)
    requires
        call_ensures(read_name, (json,), name),
        call_ensures(reads_as, (json, uid), ours),
        json is Some && json->Some_0@ is Text ==> trimmed_text@ == trimmed(json->Some_0@->Text_0),
        call_ensures(is_fit_name, (trimmed_text,), fit),
    ensures
        name is Some <==> json is Some && json->Some_0@ is Text && fit,
        name matches Some(name) ==> name@ == trimmed_text@,
        ours <==> json is Some && (json->Some_0@ == Tree::Text(uid@) || json->Some_0@
            == Tree::Number(uid@)),
{
}

} // verus!
