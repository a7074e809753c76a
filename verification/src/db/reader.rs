//! The reader: what it has learned of the game's storage, kept from one tick
//! to the next.
//!
//! A tick is a conversation. The reader says what to look at, is told what
//! was seen, and ends the tick with an outcome. It never asks for more than a
//! private copy of a file, and stops asking for good once a numbered database
//! shows up.
use crate::db::remnant::{census, find_remnant_role, recovered, RemnantStats};
use crate::db::snapshot::{query_snapshot, Answers, Pins};
use crate::db::storage::{any_numbered, has_numbered_db, MAX_DB_BYTES};
use crate::db::triage::{opt_nat, InfoView, PlayerInfo, Reason, TriageError};
use crate::text::{glue, opt_clone, opt_str, opt_view, same, write_u64};
use std::path::PathBuf;
use vstd::prelude::*;

verus! {

/// A path of the file system, held for whoever opens it.
#[verifier::external_type_specification]
#[verifier::external_body]
pub struct ExPathBuf(std::path::PathBuf);

/// How a tick ended. The freshest data is always in
/// [`DbReader::last_info`].
#[derive(Clone, Copy, Debug, PartialEq, Eq)]
pub enum Refresh {
    /// The storage did not change since the last data, or is left alone for
    /// good; the data of before hold.
    Unchanged,
    /// New data, fully checked.
    Updated,
    /// Nothing usable right now: no file, a torn copy, a failed triage. The
    /// data of before are kept, if there are any.
    Unavailable,
}

/// What follows the tracking of the display name.
#[derive(Clone, Copy, Debug, PartialEq, Eq)]
pub enum Then {
    /// The look at the storage.
    Storage,
    /// The end of the tick, with new data.
    Accepted,
}

/// What a reader waits for. A time is in nanoseconds since the epoch.
#[derive(Clone, Copy, Debug, PartialEq, Eq)]
pub enum Phase {
    Idle,
    Listing,
    Timing(Then),
    Naming(Then),
    Sizing,
    Copying(i128),
    Reading(i128),
    Scanning(i128, TriageError),
}

/// What a reader waits for, as data.
pub enum PhaseView {
    Idle,
    Listing,
    Timing(Then),
    Naming(Then),
    Sizing,
    Copying(i128),
    Reading(i128),
    Scanning(i128, Reason),
}

impl View for Phase {
    type V = PhaseView;

    open spec fn view(&self) -> PhaseView {
        match *self {
            Phase::Idle => PhaseView::Idle,
            Phase::Listing => PhaseView::Listing,
            Phase::Timing(then) => PhaseView::Timing(then),
            Phase::Naming(then) => PhaseView::Naming(then),
            Phase::Sizing => PhaseView::Sizing,
            Phase::Copying(time) => PhaseView::Copying(time),
            Phase::Reading(time) => PhaseView::Reading(time),
            Phase::Scanning(time, err) => PhaseView::Scanning(time, err@),
        }
    }
}

/// What a reader is told.
#[derive(Debug)]
pub enum Event {
    /// A tick begins.
    Start,
    /// The file names in the storage directory; none when it cannot be read.
    Names(Vec<String>),
    /// When the telemetry database last changed, if that can be told.
    TelemetryTime(Option<i128>),
    /// The display name in a private copy of the telemetry database, if any.
    Name(Option<String>),
    /// Size of the main database and when it last changed, as far as that can
    /// be told.
    Source(Option<(u64, Option<i128>)>),
    /// Whether the copy was made, and when the main database last changed
    /// after it.
    Copied(bool, Option<i128>),
    /// What the copy says: the live login, the version of the device
    /// database, and the outcome of the triage.
    Snapshot(Option<String>, Option<String>, Result<PlayerInfo, TriageError>),
    /// The bytes of a private copy of the telemetry database and the clock,
    /// in milliseconds since the epoch.
    Telemetry(Option<(Vec<u8>, u64)>),
}

/// What a reader is told, as data.
pub enum EventView {
    Start,
    Names(Seq<String>),
    TelemetryTime(Option<i128>),
    Name(Option<Seq<char>>),
    Source(Option<(u64, Option<i128>)>),
    Copied(bool, Option<i128>),
    Snapshot(Option<Seq<char>>, Option<Seq<char>>, Result<InfoView, Reason>),
    Telemetry(Option<(Seq<u8>, nat)>),
}

/// The outcome of a triage, as data.
pub open spec fn triage_view(r: Result<PlayerInfo, TriageError>) -> Result<InfoView, Reason> {
    match r {
        Ok(info) => Ok(info@),
        Err(err) => Err(err@),
    }
}

impl View for Event {
    type V = EventView;

    open spec fn view(&self) -> EventView {
        match *self {
            Event::Start => EventView::Start,
            Event::Names(names) => EventView::Names(names@),
            Event::TelemetryTime(time) => EventView::TelemetryTime(time),
            Event::Name(name) => EventView::Name(opt_view(name)),
            Event::Source(source) => EventView::Source(source),
            Event::Copied(made, after) => EventView::Copied(made, after),
            Event::Snapshot(live, version, outcome) => EventView::Snapshot(
                opt_view(live),
                opt_view(version),
                triage_view(outcome),
            ),
            Event::Telemetry(None) => EventView::Telemetry(None),
            Event::Telemetry(Some((bytes, now))) => EventView::Telemetry(
                Some((bytes@, now as nat)),
            ),
        }
    }
}

/// What is worth telling the operator at the end of a tick.
#[derive(Clone, Copy, Debug, PartialEq, Eq)]
pub enum Notice {
    Nothing,
    /// A numbered database showed up; game files are left alone from now on.
    Numbered,
    /// The main database is larger than is sane.
    Oversized,
    /// The snapshot was rejected, for a reason not told yet.
    Rejected(TriageError),
    /// The identity came from the telemetry: how old its event is, in
    /// seconds, and whether a version is known.
    Recovered(u64, bool),
}

/// What is worth telling, as data.
pub enum NoticeView {
    Nothing,
    Numbered,
    Oversized,
    Rejected(Reason),
    Recovered(nat, bool),
}

impl View for Notice {
    type V = NoticeView;

    open spec fn view(&self) -> NoticeView {
        match *self {
            Notice::Nothing => NoticeView::Nothing,
            Notice::Numbered => NoticeView::Numbered,
            Notice::Oversized => NoticeView::Oversized,
            Notice::Rejected(err) => NoticeView::Rejected(err@),
            Notice::Recovered(age, version) => NoticeView::Recovered(age as nat, version),
        }
    }
}

/// What a reader asks for.
#[derive(Clone, Copy, Debug, PartialEq, Eq)]
pub enum Action {
    /// The file names in the storage directory.
    ListStorage,
    /// When the telemetry database last changed.
    TimeTelemetry,
    /// The display name of the live login in a private copy of the telemetry
    /// database.
    ReadName,
    /// Size and time of the main database.
    StatSource,
    /// A private copy of the main database and its companions.
    CopySource,
    /// What the private copy says.
    ReadSnapshot,
    /// The bytes of a private copy of the telemetry database, and the clock.
    ScanTelemetry,
    /// Nothing more in this tick.
    Done(Refresh, Notice),
}

/// What a reader asks for, as data.
pub enum ActionView {
    ListStorage,
    TimeTelemetry,
    ReadName,
    StatSource,
    CopySource,
    ReadSnapshot,
    ScanTelemetry,
    Done(Refresh, NoticeView),
}

impl View for Action {
    type V = ActionView;

    open spec fn view(&self) -> ActionView {
        match *self {
            Action::ListStorage => ActionView::ListStorage,
            Action::TimeTelemetry => ActionView::TimeTelemetry,
            Action::ReadName => ActionView::ReadName,
            Action::StatSource => ActionView::StatSource,
            Action::CopySource => ActionView::CopySource,
            Action::ReadSnapshot => ActionView::ReadSnapshot,
            Action::ScanTelemetry => ActionView::ScanTelemetry,
            Action::Done(refresh, notice) => ActionView::Done(refresh, notice@),
        }
    }
}

/// For a known account without a level row.
pub const HINT_PIN: &'static str =
    "account is known but its level data is missing; pin it with --list-accounts, --account-index N";

/// For an unknown account that was asked for.
pub const HINT_OVERRIDE: &'static str = "check --kuro-uid: stale or unknown account";

/// For an unknown account that was detected.
pub const HINT_LIST: &'static str =
    "run --list-accounts to recognize yours by level, then pin it with --account-index N";

/// For no account at all.
pub const HINT_LOGIN: &'static str = "no account detected; launch the game and log in";

/// For everything else.
pub const HINT_KEEP: &'static str = "keeping previous data";

/// Everything a reader knows.
pub struct ReaderView {
    pub storage_dir: PathBuf,
    pub snapshot_dir: PathBuf,
    pub game_dir: Option<PathBuf>,
    pub uid_override: Option<Seq<char>>,
    pub account_index: Option<nat>,
    /// The live login.
    pub live: Option<Seq<char>>,
    /// A display name, with the login it belongs to.
    pub display: Option<(Seq<char>, Seq<char>)>,
    /// When the telemetry last changed, as of the last look for a name.
    pub name_time: Option<i128>,
    pub version: Option<Seq<char>>,
    /// When the main database last changed, as of the last data.
    pub time: Option<i128>,
    /// The freshest data.
    pub last: Option<InfoView>,
    pub degraded: bool,
    /// The rejection that was told last.
    pub reported: Option<Reason>,
    /// What the last scan of the telemetry met.
    pub scan: Option<RemnantStats>,
    pub phase: PhaseView,
}

impl ReaderView {
    /// How a tick of a degraded reader ends: what is known holds.
    pub open spec fn cached(self) -> Refresh {
        if self.last is Some {
            Refresh::Unchanged
        } else {
            Refresh::Unavailable
        }
    }

    /// The end of a tick.
    pub open spec fn done(self, refresh: Refresh, notice: NoticeView) -> (ReaderView, ActionView) {
        (
            ReaderView { phase: PhaseView::Idle, ..self },
            ActionView::Done(refresh, notice),
        )
    }

    /// The end of a tick in which something was missing or went wrong. What is
    /// known stays.
    pub open spec fn gap(self, notice: NoticeView) -> (ReaderView, ActionView) {
        self.done(Refresh::Unavailable, notice)
    }

    /// The end of a tick of a degraded reader.
    pub open spec fn rest(self, notice: NoticeView) -> (ReaderView, ActionView) {
        self.done(self.cached(), notice)
    }

    /// The display name of the live login: one that was found for exactly
    /// this login.
    pub open spec fn display_name(self) -> Option<Seq<char>> {
        match (self.live, self.display) {
            (Some(live), Some((uid, name))) if uid == live => Some(name),
            _ => None,
        }
    }

    /// The freshest data, with the display name where they lack one.
    pub open spec fn attached(self) -> ReaderView {
        match self.last {
            Some(info) if info.display_name is None => ReaderView {
                last: Some(InfoView { display_name: self.display_name(), ..info }),
                ..self
            },
            _ => self,
        }
    }

    /// What follows the tracking of the display name.
    pub open spec fn follow(self, then: Then) -> (ReaderView, ActionView) {
        match then {
            Then::Storage => (
                ReaderView { phase: PhaseView::Sizing, ..self },
                ActionView::StatSource,
            ),
            Then::Accepted => self.done(Refresh::Updated, NoticeView::Nothing),
        }
    }

    /// The tracking of the display name: it needs a live login, and drops the
    /// name of another one.
    pub open spec fn track(self, then: Then) -> (ReaderView, ActionView) {
        match self.live {
            None => self.follow(then),
            Some(live) => {
                let fresh = ReaderView {
                    display: match self.display {
                        Some((uid, name)) if uid == live => Some((uid, name)),
                        _ => None,
                    },
                    ..self
                };
                if self.game_dir is Some {
                    (
                        ReaderView { phase: PhaseView::Timing(then), ..fresh },
                        ActionView::TimeTelemetry,
                    )
                } else {
                    fresh.timed(None, then)
                }
            },
        }
    }

    /// A known name holds while the telemetry stays the same; else it is
    /// looked for again.
    pub open spec fn timed(self, time: Option<i128>, then: Then) -> (ReaderView, ActionView) {
        if self.display is Some && time == self.name_time {
            self.attached().follow(then)
        } else {
            let looked = ReaderView { name_time: time, ..self };
            if self.game_dir is Some {
                (
                    ReaderView { phase: PhaseView::Naming(then), ..looked },
                    ActionView::ReadName,
                )
            } else {
                looked.named(None, then)
            }
        }
    }

    /// A name that was found takes the place of the known one; that none was
    /// found changes nothing.
    pub open spec fn named(self, name: Option<Seq<char>>, then: Then) -> (ReaderView, ActionView) {
        let known = match (self.live, name) {
            (Some(live), Some(name)) => ReaderView { display: Some((live, name)), ..self },
            _ => self,
        };
        known.attached().follow(then)
    }

    /// The main database counts when it is there, not overlarge, and changed
    /// since the last data.
    pub open spec fn sized(self, source: Option<(u64, Option<i128>)>) -> (ReaderView, ActionView) {
        match source {
            None => self.gap(NoticeView::Nothing),
            Some((size, time)) => if size > MAX_DB_BYTES {
                self.gap(NoticeView::Oversized)
            } else {
                match time {
                    None => self.gap(NoticeView::Nothing),
                    Some(time) => if self.time == Some(time) && self.last is Some {
                        self.done(Refresh::Unchanged, NoticeView::Nothing)
                    } else {
                        (
                            ReaderView { phase: PhaseView::Copying(time), ..self },
                            ActionView::CopySource,
                        )
                    },
                }
            },
        }
    }

    /// A copy counts when it was made and the main database did not change
    /// meanwhile.
    pub open spec fn copied(self, made: bool, after: Option<i128>, time: i128) -> (
        ReaderView,
        ActionView,
    ) {
        if made && after == Some(time) {
            (
                ReaderView { phase: PhaseView::Reading(time), ..self },
                ActionView::ReadSnapshot,
            )
        } else {
            self.gap(NoticeView::Nothing)
        }
    }

    /// The live login that a snapshot names. When it is another one than
    /// before, the data and the name of before are dropped. An unknown one
    /// changes nothing.
    pub open spec fn met(self, live: Option<Seq<char>>) -> ReaderView {
        match (self.live, live) {
            (Some(before), Some(now)) => if before == now {
                self
            } else {
                ReaderView { live, last: None, display: None, ..self }
            },
            (None, Some(_)) => ReaderView { live, ..self },
            (_, None) => self,
        }
    }

    /// A version that was read takes the place of the known one.
    pub open spec fn versioned(self, version: Option<Seq<char>>) -> ReaderView {
        match version {
            Some(_) => ReaderView { version, ..self },
            None => self,
        }
    }

    /// A rejection is told once, until another one or data come.
    pub open spec fn rejected(self, reason: Reason) -> (ReaderView, ActionView) {
        if self.reported == Some(reason) {
            self.gap(NoticeView::Nothing)
        } else {
            (ReaderView { reported: Some(reason), ..self }).gap(NoticeView::Rejected(reason))
        }
    }

    /// Whether the telemetry may supply an identity: only the level row is
    /// missing, nothing is pinned, and the live login is known.
    pub open spec fn recoverable(self, reason: Reason) -> bool {
        &&& reason is AccountNotInLevelData
        &&& self.uid_override is None
        &&& self.account_index is None
        &&& self.live is Some
        &&& self.game_dir is Some
    }

    /// What a snapshot changes.
    pub open spec fn read(
        self,
        live: Option<Seq<char>>,
        version: Option<Seq<char>>,
        outcome: Result<InfoView, Reason>,
        time: i128,
    ) -> (ReaderView, ActionView) {
        let known = self.met(live).versioned(version);
        match outcome {
            Ok(info) => (ReaderView {
                time: Some(time),
                last: Some(InfoView { game_version: known.version, ..info }),
                reported: None,
                ..known
            }).track(Then::Accepted),
            Err(reason) => if known.recoverable(reason) {
                (
                    ReaderView { phase: PhaseView::Scanning(time, reason), ..known },
                    ActionView::ScanTelemetry,
                )
            } else {
                known.rejected(reason)
            },
        }
    }

    /// What a scan of the telemetry met: nothing, where there is none.
    pub open spec fn met_in(self, telemetry: Option<(Seq<u8>, nat)>) -> RemnantStats {
        match (self.live, telemetry) {
            (Some(live), Some((bytes, now))) => census(bytes, live, now),
            _ => RemnantStats { candidates: 0, role_hits: 0, fresh_hits: 0 },
        }
    }

    /// What the telemetry supplies: the identity of the live login, if it
    /// holds a recent one. What the scan met is kept.
    pub open spec fn scanned(
        self,
        telemetry: Option<(Seq<u8>, nat)>,
        time: i128,
        reason: Reason,
    ) -> (ReaderView, ActionView) {
        let known = ReaderView { scan: Some(self.met_in(telemetry)), ..self };
        match (self.live, telemetry) {
            (Some(live), Some((bytes, now))) => match recovered(bytes, live, now) {
                Some(role) => (ReaderView {
                    time: Some(time),
                    reported: None,
                    last: Some(
                        InfoView {
                            uid: live,
                            union_level: crate::text::decimal(role.level as nat),
                            region: role.region,
                            quests_done: None,
                            game_version: self.version,
                            display_name: Some(role.name),
                        },
                    ),
                    ..known
                }).done(
                    Refresh::Updated,
                    NoticeView::Recovered(
                        if now > role.event_ms {
                            ((now - role.event_ms) / 1000) as nat
                        } else {
                            0
                        },
                        self.version is Some,
                    ),
                ),
                None => known.rejected(reason),
            },
            _ => known.rejected(reason),
        }
    }

    /// What the operator can do about a rejection.
    pub open spec fn hint(self, reason: Reason) -> Seq<char> {
        match reason {
            Reason::AccountNotInLevelData { known_accounts: _, uid_seen_elsewhere } =>
                if uid_seen_elsewhere {
                    HINT_PIN@
                } else if self.uid_override is Some {
                    HINT_OVERRIDE@
                } else {
                    HINT_LIST@
                },
            Reason::UnknownUid => HINT_LOGIN@,
            _ => HINT_KEEP@,
        }
    }

    /// What a reader does when it is told something. Told what it did not ask
    /// for, it ends the tick.
    pub open spec fn step(self, event: EventView) -> (ReaderView, ActionView) {
        match (self.phase, event) {
            (_, EventView::Start) => if self.degraded {
                self.rest(NoticeView::Nothing)
            } else {
                (
                    ReaderView { phase: PhaseView::Listing, ..self },
                    ActionView::ListStorage,
                )
            },
            (PhaseView::Listing, EventView::Names(names)) => if any_numbered(names) {
                (ReaderView { degraded: true, ..self }).rest(NoticeView::Numbered)
            } else {
                self.track(Then::Storage)
            },
            (PhaseView::Timing(then), EventView::TelemetryTime(time)) => self.timed(time, then),
            (PhaseView::Naming(then), EventView::Name(name)) => self.named(name, then),
            (PhaseView::Sizing, EventView::Source(source)) => self.sized(source),
            (PhaseView::Copying(time), EventView::Copied(made, after)) => self.copied(
                made,
                after,
                time,
            ),
            (PhaseView::Reading(time), EventView::Snapshot(live, version, outcome)) => self.read(
                live,
                version,
                outcome,
                time,
            ),
            (PhaseView::Scanning(time, reason), EventView::Telemetry(telemetry)) => self.scanned(
                telemetry,
                time,
                reason,
            ),
            _ => if self.degraded {
                self.rest(NoticeView::Nothing)
            } else {
                self.gap(NoticeView::Nothing)
            },
        }
    }
}

/// A name with the login it belongs to, as data.
pub open spec fn display_view(display: Option<(String, String)>) -> Option<
    (Seq<char>, Seq<char>),
> {
    match display {
        Some((uid, name)) => Some((uid@, name@)),
        None => None,
    }
}

/// Data that may be missing.
pub open spec fn opt_info(info: Option<PlayerInfo>) -> Option<InfoView> {
    match info {
        Some(info) => Some(info@),
        None => None,
    }
}

/// A rejection that may be missing.
pub open spec fn opt_reason(err: Option<TriageError>) -> Option<Reason> {
    match err {
        Some(err) => Some(err@),
        None => None,
    }
}

/// A reader over the game's storage.
#[derive(Debug)]
pub struct DbReader {
    storage_dir: PathBuf,
    snapshot_dir: PathBuf,
    game_dir: Option<PathBuf>,
    uid_override: Option<String>,
    account_index: Option<usize>,
    live_uid: Option<String>,
    cached_display: Option<(String, String)>,
    kd_mtime: Option<i128>,
    cached_version: Option<String>,
    last_mtime: Option<i128>,
    last: Option<PlayerInfo>,
    degraded: bool,
    last_reported: Option<TriageError>,
    last_scan: Option<RemnantStats>,
    phase: Phase,
}

impl View for DbReader {
    type V = ReaderView;

    closed spec fn view(&self) -> ReaderView {
        ReaderView {
            storage_dir: self.storage_dir,
            snapshot_dir: self.snapshot_dir,
            game_dir: self.game_dir,
            uid_override: opt_view(self.uid_override),
            account_index: opt_nat(self.account_index),
            live: opt_view(self.live_uid),
            display: display_view(self.cached_display),
            name_time: self.kd_mtime,
            version: opt_view(self.cached_version),
            time: self.last_mtime,
            last: opt_info(self.last),
            degraded: self.degraded,
            reported: opt_reason(self.last_reported),
            scan: self.last_scan,
            phase: self.phase@,
        }
    }
}

impl DbReader {
    /// A reader that has read nothing yet. `storage_dir` holds the live
    /// database, `snapshot_dir` the private copies, and a uid override wins
    /// over detection.
    pub fn new(storage_dir: PathBuf, snapshot_dir: PathBuf, uid_override: Option<String>) -> (r:
        DbReader)
        ensures
            r@ == (ReaderView {
                storage_dir,
                snapshot_dir,
                game_dir: None,
                uid_override: opt_view(uid_override),
                account_index: None,
                live: None,
                display: None,
                name_time: None,
                version: None,
                time: None,
                last: None,
                degraded: false,
                reported: None,
                scan: None,
                phase: PhaseView::Idle,
            }),
    {
        DbReader {
            storage_dir,
            snapshot_dir,
            game_dir: None,
            uid_override,
            account_index: None,
            live_uid: None,
            cached_display: None,
            kd_mtime: None,
            cached_version: None,
            last_mtime: None,
            last: None,
            degraded: false,
            last_reported: None,
            last_scan: None,
            phase: Phase::Idle,
        }
    }

    /// Pins one stored account by its position, counted from one. Wins over
    /// every uid.
    pub fn set_account_index(&mut self, index: usize)
        ensures
            final(self)@ == (ReaderView { account_index: Some(index as nat), ..old(self)@ }),
    {
        self.account_index = Some(index);
    }

    /// Says where the game is, for the launcher's files. Without it they are
    /// not looked for.
    pub fn set_game_dir(&mut self, dir: PathBuf)
        ensures
            final(self)@ == (ReaderView { game_dir: Some(dir), ..old(self)@ }),
    {
        self.game_dir = Some(dir);
    }

    /// Whether a numbered database showed up: game files are then left alone
    /// for good.
    pub fn is_degraded(&self) -> (r: bool)
        ensures
            r == self@.degraded,
    {
        self.degraded
    }

    /// The freshest data, if there are any.
    pub fn last_info(&self) -> (r: Option<&PlayerInfo>)
        ensures
            self@.last == match r {
                Some(info) => Some(info@),
                None => None,
            },
    {
        match &self.last {
            Some(info) => Some(info),
            None => None,
        }
    }

    /// The live login, if known. Never logged.
    pub fn live_uid(&self) -> (r: Option<&str>)
        ensures
            opt_str(r) == self@.live,
    {
        crate::text::opt_borrow(&self.live_uid)
    }

    /// The display name of the live login, if one was found for exactly this
    /// login. Never logged.
    pub fn display_name(&self) -> (r: Option<&str>)
        ensures
            opt_str(r) == self@.display_name(),
    {
        match (&self.live_uid, &self.cached_display) {
            (Some(live), Some((uid, name))) => if same(uid.as_str(), live.as_str()) {
                Some(name.as_str())
            } else {
                None
            },
            _ => None,
        }
    }

    /// The game version, as last read.
    pub fn cached_version(&self) -> (r: Option<&str>)
        ensures
            opt_str(r) == self@.version,
    {
        crate::text::opt_borrow(&self.cached_version)
    }

    /// Where the live database is.
    pub fn storage_dir(&self) -> (r: &PathBuf)
        ensures
            *r == self@.storage_dir,
    {
        &self.storage_dir
    }

    /// Where the private copies go.
    pub fn snapshot_dir(&self) -> (r: &PathBuf)
        ensures
            *r == self@.snapshot_dir,
    {
        &self.snapshot_dir
    }

    /// Where the game is, if that was said.
    pub fn game_dir(&self) -> (r: Option<&PathBuf>)
        ensures
            self@.game_dir == match r {
                Some(dir) => Some(*dir),
                None => None,
            },
    {
        match &self.game_dir {
            Some(dir) => Some(dir),
            None => None,
        }
    }

    /// The rejection that was told last, if no data came since.
    pub fn last_triage(&self) -> (r: Option<TriageError>)
        ensures
            opt_reason(r) == self@.reported,
    {
        self.last_reported
    }

    /// What the last scan of the telemetry met, in numbers only, if there was
    /// one.
    pub fn last_scan(&self) -> (r: Option<RemnantStats>)
        ensures
            r == self@.scan,
    {
        self.last_scan
    }

    /// What a card that is asked for once is made from: the freshest data, and
    /// nothing where the tick that should supply them found nothing usable.
    pub fn info_after(&self, refresh: Refresh) -> (r: Option<&PlayerInfo>)
        ensures
            match r {
                Some(info) => Some(info@),
                None => None,
            } == match refresh {
                Refresh::Updated => self@.last,
                Refresh::Unchanged => self@.last,
                Refresh::Unavailable => None,
            },
    {
        match refresh {
            Refresh::Updated => self.last_info(),
            Refresh::Unchanged => self.last_info(),
            Refresh::Unavailable => None,
        }
    }

    /// Whose account the reader asks for.
    pub open spec fn pins(&self) -> Pins {
        Pins { uid_override: self@.uid_override, account_index: self@.account_index }
    }

    /// The triage of a private copy, for the account that the reader asks
    /// for.
    pub fn triage(&self, conn: &rusqlite::Connection) -> (r: Result<PlayerInfo, TriageError>)
        ensures
            exists|a: Answers| #[trigger]
                a.given(*conn, self.pins()) && triage_view(r) == match a.outcome(self.pins()) {
                    Ok((info, _)) => Ok(info),
                    Err(err) => Err(err),
                },
    {
        let uid_override = crate::text::opt_borrow(&self.uid_override);
        match query_snapshot(conn, uid_override, self.account_index) {
            Ok((info, _)) => Ok(info),
            Err(err) => Err(err),
        }
    }

    /// What the operator can do about a rejection. Never holds account data.
    pub fn hint(&self, err: TriageError) -> (r: &'static str)
        ensures
            r@ == self@.hint(err@),
    {
        match err {
            TriageError::AccountNotInLevelData { known_accounts: _, uid_seen_elsewhere } =>
                if uid_seen_elsewhere {
                    HINT_PIN
                } else if self.uid_override.is_some() {
                    HINT_OVERRIDE
                } else {
                    HINT_LIST
                },
            TriageError::UnknownUid => HINT_LOGIN,
            _ => HINT_KEEP,
        }
    }

    /// What is told of a rejection: its reason, and what can be done.
    pub fn rejection(&self, err: TriageError) -> (r: String)
        ensures
            r@ == "LocalStorage triage failed ("@ + err@.message() + "); "@ + self@.hint(err@),
    {
        let start = glue("LocalStorage triage failed (", err.message().as_str());
        glue(glue(start.as_str(), "); ").as_str(), self.hint(err))
    }

    fn cached_or_unavailable(&self) -> (r: Refresh)
        ensures
            r == self@.cached(),
    {
        if self.last.is_some() {
            Refresh::Unchanged
        } else {
            Refresh::Unavailable
        }
    }

    fn done(&mut self, refresh: Refresh, notice: Notice) -> (r: Action)
        ensures
            final(self)@ == old(self)@.done(refresh, notice@).0,
            r@ == old(self)@.done(refresh, notice@).1,
    {
        self.phase = Phase::Idle;
        Action::Done(refresh, notice)
    }

    fn gap(&mut self, notice: Notice) -> (r: Action)
        ensures
            final(self)@ == old(self)@.gap(notice@).0,
            r@ == old(self)@.gap(notice@).1,
    {
        self.done(Refresh::Unavailable, notice)
    }

    fn rest(&mut self, notice: Notice) -> (r: Action)
        ensures
            final(self)@ == old(self)@.rest(notice@).0,
            r@ == old(self)@.rest(notice@).1,
    {
        let refresh = self.cached_or_unavailable();
        self.done(refresh, notice)
    }

    fn attach(&mut self)
        ensures
            final(self)@ == old(self)@.attached(),
    {
        let name: Option<String> = match self.display_name() {
            Some(name) => Some(name.to_owned()),
            None => None,
        };
        match self.last.take() {
            Some(info) => {
                let mut info = info;
                if info.display_name.is_none() {
                    info.display_name = name;
                }
                self.last = Some(info);
            },
            None => {},
        }
    }

    fn follow(&mut self, then: Then) -> (r: Action)
        ensures
            final(self)@ == old(self)@.follow(then).0,
            r@ == old(self)@.follow(then).1,
    {
        match then {
            Then::Storage => {
                self.phase = Phase::Sizing;
                Action::StatSource
            },
            Then::Accepted => self.done(Refresh::Updated, Notice::Nothing),
        }
    }

    fn refresh_display_name(&mut self, then: Then) -> (r: Action)
        ensures
            final(self)@ == old(self)@.track(then).0,
            r@ == old(self)@.track(then).1,
    {
        let stale: bool = match (&self.live_uid, &self.cached_display) {
            (Some(live), Some((uid, _))) => !same(uid.as_str(), live.as_str()),
            _ => false,
        };
        if self.live_uid.is_none() {
            return self.follow(then);
        }
        if stale {
            self.cached_display = None;
        }
        if self.game_dir.is_some() {
            self.phase = Phase::Timing(then);
            Action::TimeTelemetry
        } else {
            self.timed(None, then)
        }
    }

    fn timed(&mut self, time: Option<i128>, then: Then) -> (r: Action)
        ensures
            final(self)@ == old(self)@.timed(time, then).0,
            r@ == old(self)@.timed(time, then).1,
    {
        let same_time: bool = match (time, self.kd_mtime) {
            (Some(a), Some(b)) => a == b,
            (None, None) => true,
            _ => false,
        };
        if self.cached_display.is_some() && same_time {
            self.attach();
            return self.follow(then);
        }
        self.kd_mtime = time;
        if self.game_dir.is_some() {
            self.phase = Phase::Naming(then);
            Action::ReadName
        } else {
            self.named(None, then)
        }
    }

    fn named(&mut self, name: Option<String>, then: Then) -> (r: Action)
        ensures
            final(self)@ == old(self)@.named(opt_view(name), then).0,
            r@ == old(self)@.named(opt_view(name), then).1,
    {
        match (&self.live_uid, name) {
            (Some(live), Some(name)) => {
                self.cached_display = Some((live.clone(), name));
            },
            _ => {},
        }
        self.attach();
        self.follow(then)
    }

    fn sized(&mut self, source: Option<(u64, Option<i128>)>) -> (r: Action)
        ensures
            final(self)@ == old(self)@.sized(source).0,
            r@ == old(self)@.sized(source).1,
    {
        match source {
            None => self.gap(Notice::Nothing),
            Some((size, time)) => {
                if size > MAX_DB_BYTES {
                    return self.gap(Notice::Oversized);
                }
                match time {
                    None => self.gap(Notice::Nothing),
                    Some(time) => {
                        let same_time: bool = match self.last_mtime {
                            Some(before) => before == time,
                            None => false,
                        };
                        if same_time && self.last.is_some() {
                            self.done(Refresh::Unchanged, Notice::Nothing)
                        } else {
                            self.phase = Phase::Copying(time);
                            Action::CopySource
                        }
                    },
                }
            },
        }
    }

    fn copied(&mut self, made: bool, after: Option<i128>, time: i128) -> (r: Action)
        ensures
            final(self)@ == old(self)@.copied(made, after, time).0,
            r@ == old(self)@.copied(made, after, time).1,
    {
        let whole: bool = match after {
            Some(after) => made && after == time,
            None => false,
        };
        if whole {
            self.phase = Phase::Reading(time);
            Action::ReadSnapshot
        } else {
            self.gap(Notice::Nothing)
        }
    }

    fn meet(&mut self, live: Option<String>)
        ensures
            final(self)@ == old(self)@.met(opt_view(live)),
    {
        let switched: bool = match (&self.live_uid, &live) {
            (Some(before), Some(now)) => !same(before.as_str(), now.as_str()),
            _ => false,
        };
        if switched {
            self.last = None;
            self.cached_display = None;
        }
        if live.is_some() {
            self.live_uid = live;
        }
    }

    fn reject(&mut self, err: TriageError) -> (r: Action)
        ensures
            final(self)@ == old(self)@.rejected(err@).0,
            r@ == old(self)@.rejected(err@).1,
    {
        let told: bool = match self.last_reported {
            Some(before) => before.same_reason(&err),
            None => false,
        };
        if told {
            self.gap(Notice::Nothing)
        } else {
            self.last_reported = Some(err);
            self.gap(Notice::Rejected(err))
        }
    }

    fn read(
        &mut self,
        live: Option<String>,
        version: Option<String>,
        outcome: Result<PlayerInfo, TriageError>,
        time: i128,
    ) -> (r: Action)
        ensures
            final(self)@ == old(self)@.read(
                opt_view(live),
                opt_view(version),
                triage_view(outcome),
                time,
            ).0,
            r@ == old(self)@.read(
                opt_view(live),
                opt_view(version),
                triage_view(outcome),
                time,
            ).1,
    {
        self.meet(live);
        if version.is_some() {
            self.cached_version = version;
        }
        match outcome {
            Ok(info) => {
                let mut info = info;
                info.game_version = opt_clone(&self.cached_version);
                self.last_mtime = Some(time);
                self.last = Some(info);
                self.last_reported = None;
                self.refresh_display_name(Then::Accepted)
            },
            Err(err) => {
                let missing_row: bool = match err {
                    TriageError::AccountNotInLevelData { .. } => true,
                    _ => false,
                };
                if missing_row && self.uid_override.is_none() && self.account_index.is_none()
                    && self.live_uid.is_some() && self.game_dir.is_some() {
                    self.phase = Phase::Scanning(time, err);
                    Action::ScanTelemetry
                } else {
                    self.reject(err)
                }
            },
        }
    }

    fn remnant_role(
        &mut self,
        telemetry: Option<(Vec<u8>, u64)>,
        time: i128,
        err: TriageError,
    ) -> (r: Action)
        ensures
            final(self)@ == old(self)@.scanned(telemetry_view(telemetry), time, err@).0,
            r@ == old(self)@.scanned(telemetry_view(telemetry), time, err@).1,
    {
        let (live, bytes, now): (String, Vec<u8>, u64) = match (&self.live_uid, telemetry) {
            (Some(live), Some((bytes, now))) => (live.clone(), bytes, now),
            _ => {
                self.last_scan = Some(RemnantStats { candidates: 0, role_hits: 0, fresh_hits: 0 });
                return self.reject(err);
            },
        };
        let (found, stats) = find_remnant_role(bytes.as_slice(), live.as_str(), now);
        self.last_scan = Some(stats);
        match found {
            Some(role) => {
                let age: u64 = if now > role.event_ms {
                    (now - role.event_ms) / 1000
                } else {
                    0
                };
                self.last_mtime = Some(time);
                self.last_reported = None;
                self.last = Some(
                    PlayerInfo {
                        uid: live,
                        union_level: write_u64(role.level as u64),
                        region: role.region,
                        quests_done: None,
                        game_version: opt_clone(&self.cached_version),
                        display_name: Some(role.name),
                    },
                );
                let versioned: bool = self.cached_version.is_some();
                self.done(Refresh::Updated, Notice::Recovered(age, versioned))
            },
            None => self.reject(err),
        }
    }

    /// One step of a tick: told what was seen, the reader says what to look
    /// at or how the tick ended. It never fails: whatever goes wrong ends the
    /// tick as unavailable and keeps what is known, except that a numbered
    /// database puts an end to all looking.
    pub fn refresh(&mut self, event: Event) -> (r: Action)
        ensures
            final(self)@ == old(self)@.step(event@).0,
            r@ == old(self)@.step(event@).1,
    {
        match (self.phase, event) {
            (_, Event::Start) => if self.degraded {
                self.rest(Notice::Nothing)
            } else {
                self.phase = Phase::Listing;
                Action::ListStorage
            },
            (Phase::Listing, Event::Names(names)) => if has_numbered_db(&names) {
                self.degraded = true;
                self.rest(Notice::Numbered)
            } else {
                self.refresh_display_name(Then::Storage)
            },
            (Phase::Timing(then), Event::TelemetryTime(time)) => self.timed(time, then),
            (Phase::Naming(then), Event::Name(name)) => self.named(name, then),
            (Phase::Sizing, Event::Source(source)) => self.sized(source),
            (Phase::Copying(time), Event::Copied(made, after)) => self.copied(made, after, time),
            (Phase::Reading(time), Event::Snapshot(live, version, outcome)) => self.read(
                live,
                version,
                outcome,
                time,
            ),
            (Phase::Scanning(time, err), Event::Telemetry(telemetry)) => self.remnant_role(
                telemetry,
                time,
                err,
            ),
            _ => if self.degraded {
                self.rest(Notice::Nothing)
            } else {
                self.gap(Notice::Nothing)
            },
        }
    }
}

/// Telemetry that may be missing, as data.
pub open spec fn telemetry_view(telemetry: Option<(Vec<u8>, u64)>) -> Option<(Seq<u8>, nat)> {
    match telemetry {
        Some((bytes, now)) => Some((bytes@, now as nat)),
        None => None,
    }
}

impl ReaderView {
    /// What holds of a reader at any time: it waits for telemetry only where
    /// it can be had, for the end of a tick with data only with data, and for
    /// nothing once it is degraded.
    pub open spec fn sound(self) -> bool {
        match self.phase {
            PhaseView::Idle => true,
            PhaseView::Timing(then) | PhaseView::Naming(then) => !self.degraded && self.live is Some
                && self.game_dir is Some && (then == Then::Accepted ==> self.last is Some),
            PhaseView::Scanning(_, reason) => !self.degraded && self.recoverable(reason),
            _ => !self.degraded,
        }
    }

    /// How many steps a tick has left, at most.
    pub open spec fn steps_left(self) -> nat {
        match self.phase {
            PhaseView::Idle => 0,
            PhaseView::Scanning(_, _) => 1,
            PhaseView::Naming(Then::Accepted) => 2,
            PhaseView::Timing(Then::Accepted) => 3,
            PhaseView::Reading(_) => 4,
            PhaseView::Copying(_) => 5,
            PhaseView::Sizing => 6,
            PhaseView::Naming(Then::Storage) => 7,
            PhaseView::Timing(Then::Storage) => 8,
            PhaseView::Listing => 9,
        }
    }

    /// Whether an event names another login than the one known.
    pub open spec fn switches(self, event: EventView) -> bool {
        match (self.phase, event, self.live) {
            (PhaseView::Reading(_), EventView::Snapshot(Some(now), _, _), Some(before)) => now
                != before,
            _ => false,
        }
    }
}

/// A new reader is sound, and whatever it is told it stays so.
pub proof fn reader_stays_sound(reader: ReaderView, event: EventView)
    requires
        reader.sound(),
    ensures
        reader.step(event).0.sound(),
{
    match reader.phase {
        PhaseView::Listing => {},
        PhaseView::Timing(_) => {},
        PhaseView::Naming(_) => {},
        PhaseView::Reading(_) => {},
        PhaseView::Scanning(_, _) => {},
        _ => {},
    }
}

/// A degraded reader asks for nothing any more, whatever it is told: every
/// tick ends at once, with the data of before, and it stays degraded.
pub proof fn degraded_reader_rests(reader: ReaderView, event: EventView)
    requires
        reader.sound(),
        reader.degraded,
    ensures
        reader.step(event).1 == ActionView::Done(reader.cached(), NoticeView::Nothing),
        reader.step(event).0 == reader,
{
}

/// A numbered database in the storage directory degrades the reader, before
/// anything else is looked at.
pub proof fn numbered_database_degrades(reader: ReaderView, names: Seq<String>)
    requires
        !reader.degraded,
        any_numbered(names),
    ensures
        ({
            let (listing, ask) = reader.step(EventView::Start);
            let (after, end) = listing.step(EventView::Names(names));
            &&& ask == ActionView::ListStorage
            &&& end == ActionView::Done(reader.cached(), NoticeView::Numbered)
            &&& after == ReaderView { degraded: true, phase: PhaseView::Idle, ..reader }
        }),
{
}

/// A tick ends: every step brings its end nearer.
pub proof fn tick_ends(reader: ReaderView, event: EventView)
    requires
        event !is Start,
    ensures
        reader.step(event).1 is Done || reader.step(event).0.steps_left() < reader.steps_left(),
        reader.step(event).1 is Done ==> reader.step(event).0.phase is Idle,
{
    match reader.phase {
        PhaseView::Listing => {},
        PhaseView::Timing(_) => {},
        PhaseView::Naming(_) => {},
        PhaseView::Reading(_) => {},
        PhaseView::Scanning(_, _) => {},
        _ => {},
    }
}

/// A tick that ended with new data or unchanged ones has data.
pub proof fn outcome_tells_data(reader: ReaderView, event: EventView)
    requires
        reader.sound(),
    ensures
        reader.step(event).1 matches ActionView::Done(refresh, _) && refresh
            != Refresh::Unavailable ==> reader.step(event).0.last is Some,
{
    match reader.phase {
        PhaseView::Listing => {},
        PhaseView::Timing(_) => {},
        PhaseView::Naming(_) => {},
        PhaseView::Reading(_) => {},
        PhaseView::Scanning(_, _) => {},
        _ => {},
    }
}

/// Whatever is missing or goes wrong makes a tick unavailable, with or without
/// data of before: no file, one that is overlarge or without a time, a copy
/// that was not made or is torn, and a rejected snapshot.
pub proof fn failures_are_unavailable(
    reader: ReaderView,
    time: i128,
    source: Option<(u64, Option<i128>)>,
    copied: (bool, Option<i128>),
    reason: Reason,
)
    requires
        source matches Some((size, at)) ==> size > MAX_DB_BYTES || at is None,
    ensures
        reader.sized(source).1 matches ActionView::Done(refresh, _) && refresh
            == Refresh::Unavailable,
        copied != (true, Some(time)) ==> (reader.copied(copied.0, copied.1, time).1
            matches ActionView::Done(refresh, _) && refresh == Refresh::Unavailable),
        reader.rejected(reason).1 matches ActionView::Done(refresh, _) && refresh
            == Refresh::Unavailable,
        reader.sized(source).0.last == reader.last,
        reader.copied(copied.0, copied.1, time).0.last == reader.last,
        reader.rejected(reason).0.last == reader.last,
{
}

/// A tick without new data keeps the data of before, unless the login moved
/// on.
pub proof fn gaps_keep_the_data(reader: ReaderView, event: EventView)
    requires
        !reader.switches(event),
    ensures
        reader.step(event).1 matches ActionView::Done(refresh, _) && refresh != Refresh::Updated
            ==> reader.step(event).0.last == reader.last,
{
    match reader.phase {
        PhaseView::Listing => {},
        PhaseView::Timing(_) => {},
        PhaseView::Naming(_) => {},
        PhaseView::Reading(_) => {},
        PhaseView::Scanning(_, _) => {},
        _ => {},
    }
}

/// When the login moves on, nothing of the login before is left: neither its
/// data nor its name.
pub proof fn switch_drops_the_past(reader: ReaderView, event: EventView)
    requires
        reader.switches(event),
    ensures
        ({
            let after = reader.step(event).0;
            &&& after.display is None
            &&& after.live == event->Snapshot_0
            &&& match event->Snapshot_2 {
                Ok(info) => after.last == Some(
                    InfoView { game_version: after.version, ..info },
                ),
                Err(_) => after.last is None,
            }
        }),
{
}

/// A login mark that cannot be read counts for nothing: the login, the name
/// and, where the triage failed too, the data stay as they are.
pub proof fn unknown_login_changes_nothing(
    reader: ReaderView,
    time: i128,
    version: Option<Seq<char>>,
    reason: Reason,
)
    requires
        reader.phase == PhaseView::Reading(time),
    ensures
        ({
            let after = reader.step(EventView::Snapshot(None, version, Err(reason))).0;
            &&& after.live == reader.live
            &&& after.display == reader.display
            &&& after.last == reader.last
        }),
{
}

/// The data of an accepted snapshot are what the reader has from then on,
/// with the version it knows.
pub proof fn accepted_data_are_kept(
    reader: ReaderView,
    time: i128,
    live: Option<Seq<char>>,
    version: Option<Seq<char>>,
    info: InfoView,
)
    requires
        reader.phase == PhaseView::Reading(time),
    ensures
        ({
            let after = reader.step(EventView::Snapshot(live, version, Ok(info))).0;
            &&& after.time == Some(time)
            &&& after.reported is None
            &&& after.last matches Some(kept) && kept == (InfoView {
                game_version: after.version,
                display_name: kept.display_name,
                ..info
            }) && (info.display_name is Some ==> kept.display_name == info.display_name)
        }),
{
}

/// The version does not share the fate of the triage: one that was read is
/// kept whatever the snapshot was worth, and one that was not costs nothing.
pub proof fn version_is_independent(
    reader: ReaderView,
    time: i128,
    live: Option<Seq<char>>,
    version: Option<Seq<char>>,
    outcome: Result<InfoView, Reason>,
)
    requires
        reader.phase == PhaseView::Reading(time),
    ensures
        reader.step(EventView::Snapshot(live, version, outcome)).0.version == match version {
            Some(_) => version,
            None => reader.version,
        },
{
}

/// Each reason is told once: a rejection that is told was not the one told
/// last, and is from then on. What was told is forgotten only with new data.
pub proof fn each_reason_is_told_once(reader: ReaderView, event: EventView)
    ensures
        ({
            let (after, action) = reader.step(event);
            &&& action matches ActionView::Done(_, NoticeView::Rejected(reason))
                ==> reader.reported != Some(reason) && after.reported == Some(reason)
            &&& after.reported != reader.reported ==> (after.reported is None && after.last is Some)
                || (action matches ActionView::Done(_, NoticeView::Rejected(reason))
                && after.reported == Some(reason))
        }),
{
    match reader.phase {
        PhaseView::Listing => {},
        PhaseView::Timing(_) => {},
        PhaseView::Naming(_) => {},
        PhaseView::Reading(_) => {},
        PhaseView::Scanning(_, _) => {},
        _ => {},
    }
}

/// The telemetry never overrules a pin: a reader with one does not ask for
/// it.
pub proof fn pins_are_never_overruled(reader: ReaderView, event: EventView)
    requires
        reader.uid_override is Some || reader.account_index is Some,
    ensures
        reader.step(event).1 !is ScanTelemetry,
{
}

/// A name that is known is never missing from the data: where the tracking of
/// the display name ends, data without a name mean that none is known.
pub proof fn known_names_are_attached(reader: ReaderView, event: EventView)
    requires
        reader.sound(),
        reader.phase is Timing || reader.phase is Naming,
        event is TelemetryTime || event is Name,
    ensures
        ({
            let (after, action) = reader.step(event);
            (action is StatSource || action matches ActionView::Done(Refresh::Updated, _)) ==> (
            after.last matches Some(info) && info.display_name is None ==> after.display_name()
                is None)
        }),
{
}

/// A sticky name is attached: while the telemetry stays the same, a name that
/// was found for the live login goes to data that lack one, whichever of the
/// two came first, and stays known. The data are otherwise untouched.
pub proof fn sticky_name_is_attached(
    reader: ReaderView,
    then: Then,
    live: Seq<char>,
    name: Seq<char>,
    info: InfoView,
)
    requires
        reader.live == Some(live),
        reader.display == Some((live, name)),
        reader.last == Some(info),
        info.display_name is None,
    ensures
        ({
            let asked = reader.track(then);
            let after = if asked.1 is TimeTelemetry {
                asked.0.step(EventView::TelemetryTime(reader.name_time)).0
            } else {
                asked.0
            };
            &&& reader.game_dir is Some ==> asked.1 is TimeTelemetry
            &&& after.last == Some(InfoView { display_name: Some(name), ..info })
            &&& after.display_name() == Some(name)
        }),
{
}

/// A torn copy is never read, and a database that did not change since the
/// last data is not even copied.
pub proof fn only_whole_new_copies_are_read(reader: ReaderView, event: EventView)
    ensures
        reader.step(event).1 is ReadSnapshot ==> exists|time: i128|
            reader.phase == PhaseView::Copying(time) && event == EventView::Copied(
                true,
                Some(time),
            ),
        reader.step(event).1 is CopySource ==> reader.last is None || (
        event matches EventView::Source(Some((_, time))) && reader.time != time),
{
    match (reader.phase, event) {
        (PhaseView::Copying(time), EventView::Copied(made, after)) => {
            if reader.step(event).1 is ReadSnapshot {
                assert(reader.phase == PhaseView::Copying(time) && event == EventView::Copied(
                    true,
                    Some(time),
                ));
            }
        },
        _ => {},
    }
}

impl ReaderView {
    /// The data of a reader, with a display name where they have none.
    pub open spec fn last_with(self, name: Option<Seq<char>>) -> Option<InfoView> {
        match self.last {
            Some(info) => Some(
                InfoView {
                    display_name: if info.display_name is Some {
                        info.display_name
                    } else {
                        name
                    },
                    ..info
                },
            ),
            None => None,
        }
    }
}

/// A tick begins with the names in the storage directory, whatever the reader
/// waited for, and nothing is forgotten for it.
pub proof fn ticks_begin_with_the_storage(reader: ReaderView)
    requires
        !reader.degraded,
    ensures
        reader.step(EventView::Start) == (
            ReaderView { phase: PhaseView::Listing, ..reader },
            ActionView::ListStorage,
        ),
{
}

/// Without a numbered database the storage is looked at: at once where no
/// login is known or the game is not, else after the telemetry. The name of
/// another login is dropped on the way, everything else stays.
pub proof fn plain_storage_is_looked_at(reader: ReaderView, names: Seq<String>)
    requires
        reader.phase is Listing,
        forall|i: int|
            0 <= i < names.len() ==> !crate::db::storage::numbered(#[trigger] names[i]@),
    ensures
        ({
            let (after, action) = reader.step(EventView::Names(names));
            &&& after.degraded == reader.degraded
            &&& after.live == reader.live
            &&& after.version == reader.version
            &&& after.time == reader.time
            &&& after.reported == reader.reported
            &&& after.scan == reader.scan
            &&& reader.live is None ==> action is StatSource && after == (ReaderView {
                phase: PhaseView::Sizing,
                ..reader
            })
            &&& reader.live is Some && reader.game_dir is Some ==> action is TimeTelemetry
                && after.phase == PhaseView::Timing(Then::Storage) && after.last == reader.last
                && after.name_time == reader.name_time
            &&& reader.live is Some && reader.game_dir is None ==> action is StatSource
                && after.phase is Sizing && after.last == reader.last_with(reader.display_name())
                && after.name_time is None
            &&& reader.live matches Some(live) ==> after.display == match reader.display {
                Some((uid, name)) if uid == live => Some((uid, name)),
                _ => None,
            }
        }),
{
}

/// A look at the telemetry's time: a reader that has no name, or that sees
/// another time than at its last look, asks for the name and notes the time;
/// one that has a name for this very time goes on with it.
pub proof fn new_telemetry_is_asked_for_a_name(reader: ReaderView, then: Then, time: Option<i128>)
    requires
        reader.phase == PhaseView::Timing(then),
        reader.game_dir is Some,
    ensures
        ({
            let (after, action) = reader.step(EventView::TelemetryTime(time));
            &&& reader.display is None || time != reader.name_time ==> action is ReadName && after
                == (ReaderView { phase: PhaseView::Naming(then), name_time: time, ..reader })
            &&& reader.display is Some && time == reader.name_time ==> after == (ReaderView {
                phase: after.phase,
                last: reader.last_with(reader.display_name()),
                ..reader
            }) && match then {
                Then::Storage => action is StatSource && after.phase is Sizing,
                Then::Accepted => action == ActionView::Done(Refresh::Updated, NoticeView::Nothing)
                    && after.phase is Idle,
            }
        }),
{
}

/// A name that the telemetry gives belongs to the live login from then on, and
/// goes to data that have none; where it gives none, the name of before does.
pub proof fn found_names_belong_to_the_login(
    reader: ReaderView,
    then: Then,
    live: Seq<char>,
    name: Option<Seq<char>>,
)
    requires
        reader.phase == PhaseView::Naming(then),
        reader.live == Some(live),
    ensures
        ({
            let (after, action) = reader.step(EventView::Name(name));
            &&& name matches Some(name) ==> after == (ReaderView {
                phase: after.phase,
                display: Some((live, name)),
                last: reader.last_with(Some(name)),
                ..reader
            }) && after.display_name() == Some(name)
            &&& name is None ==> after == (ReaderView {
                phase: after.phase,
                last: reader.last_with(reader.display_name()),
                ..reader
            })
            &&& match then {
                Then::Storage => action is StatSource && after.phase is Sizing,
                Then::Accepted => action == ActionView::Done(Refresh::Updated, NoticeView::Nothing)
                    && after.phase is Idle,
            }
        }),
{
}

/// A display name is told only for the login it was found for.
pub proof fn names_are_of_the_live_login(reader: ReaderView, name: Seq<char>)
    ensures
        reader.display_name() == Some(name) <==> reader.live is Some && reader.display == Some(
            (reader.live->Some_0, name),
        ),
{
}

/// A main database of up to 67108864 bytes is copied, unless its time is that
/// of the last data; a larger one is told of and left alone, and so is one
/// that is missing or has no time, in silence.
pub proof fn sane_new_databases_are_copied(
    reader: ReaderView,
    source: Option<(u64, Option<i128>)>,
)
    requires
        reader.phase is Sizing,
    ensures
        ({
            let (after, action) = reader.step(EventView::Source(source));
            &&& source is None ==> action == ActionView::Done(
                Refresh::Unavailable,
                NoticeView::Nothing,
            )
            &&& source matches Some((size, at)) ==> (size > 67108864 ==> action
                == ActionView::Done(Refresh::Unavailable, NoticeView::Oversized))
            &&& source matches Some((size, at)) ==> (size <= 67108864 && at is None ==> action
                == ActionView::Done(Refresh::Unavailable, NoticeView::Nothing))
            &&& source matches Some((size, Some(time))) ==> (size <= 67108864 && reader.last is Some
                && reader.time == Some(time) ==> action == ActionView::Done(
                Refresh::Unchanged,
                NoticeView::Nothing,
            ))
            &&& source matches Some((size, Some(time))) ==> (size <= 67108864 && (reader.last is None
                || reader.time != Some(time)) ==> action is CopySource && after.phase
                == PhaseView::Copying(time))
            &&& action is Done ==> after.phase is Idle
            &&& after == (ReaderView { phase: after.phase, ..reader })
        }),
{
}

/// A copy is read exactly when it was made and the time before it is the time
/// after it; else the tick ends. Nothing is forgotten either way.
pub proof fn whole_copies_are_read(
    reader: ReaderView,
    time: i128,
    made: bool,
    later: Option<i128>,
)
    requires
        reader.phase == PhaseView::Copying(time),
    ensures
        ({
            let (after, action) = reader.step(EventView::Copied(made, later));
            &&& made && later == Some(time) ==> action is ReadSnapshot && after.phase
                == PhaseView::Reading(time)
            &&& !made || later != Some(time) ==> action == ActionView::Done(
                Refresh::Unavailable,
                NoticeView::Nothing,
            ) && after.phase is Idle
            &&& after == (ReaderView { phase: after.phase, ..reader })
        }),
{
}

/// What a snapshot tells of the login and the version, whatever came of the
/// triage: each one that it names is known from then on, and one that it does
/// not name stays as it was.
pub proof fn snapshots_tell_login_and_version(
    reader: ReaderView,
    time: i128,
    live: Option<Seq<char>>,
    version: Option<Seq<char>>,
    outcome: Result<InfoView, Reason>,
)
    requires
        reader.phase == PhaseView::Reading(time),
    ensures
        ({
            let after = reader.step(EventView::Snapshot(live, version, outcome)).0;
            &&& after.live == if live is Some {
                live
            } else {
                reader.live
            }
            &&& after.version == if version is Some {
                version
            } else {
                reader.version
            }
            &&& after.degraded == reader.degraded
            &&& after.scan == reader.scan
        }),
{
}

/// The data of an accepted snapshot, in full: they count from the time of the
/// copy, have the version that is known, and end the tick once the name is
/// looked after, which needs the telemetry where a login and the game are
/// known.
pub proof fn accepted_snapshots_update(
    reader: ReaderView,
    time: i128,
    live: Option<Seq<char>>,
    version: Option<Seq<char>>,
    info: InfoView,
)
    requires
        reader.phase == PhaseView::Reading(time),
    ensures
        ({
            let (after, action) = reader.step(EventView::Snapshot(live, version, Ok(info)));
            &&& after.time == Some(time)
            &&& after.reported is None
            &&& after.last matches Some(kept) && kept.uid == info.uid && kept.union_level
                == info.union_level && kept.region == info.region && kept.quests_done
                == info.quests_done && kept.game_version == after.version && (
            info.display_name is Some ==> kept.display_name == info.display_name)
            &&& after.live is Some && reader.game_dir is Some ==> action is TimeTelemetry
                && after.phase == PhaseView::Timing(Then::Accepted)
            &&& after.live is None || reader.game_dir is None ==> action == ActionView::Done(
                Refresh::Updated,
                NoticeView::Nothing,
            ) && after.phase is Idle
        }),
{
}

/// A snapshot without another login changes nothing else: a rejected one keeps
/// the data and the name, and an accepted one the name of the live login, which
/// goes to data without one as soon as the telemetry need not be asked.
pub proof fn snapshots_keep_the_rest(
    reader: ReaderView,
    time: i128,
    live: Option<Seq<char>>,
    version: Option<Seq<char>>,
    outcome: Result<InfoView, Reason>,
)
    requires
        reader.phase == PhaseView::Reading(time),
        reader.live is None || live is None || reader.live == live,
    ensures
        ({
            let after = reader.step(EventView::Snapshot(live, version, outcome)).0;
            &&& outcome is Err ==> after == (ReaderView {
                live: after.live,
                version: after.version,
                phase: after.phase,
                reported: after.reported,
                ..reader
            })
            &&& outcome matches Ok(info) ==> {
                &&& after.live is None ==> after.display == reader.display && after.last == Some(
                    InfoView { game_version: after.version, ..info },
                )
                &&& after.live is Some ==> after.display == (if reader.display is Some
                    && reader.display->Some_0.0 == after.live->Some_0 {
                    reader.display
                } else {
                    None
                })
                &&& after.live is Some && reader.game_dir is Some ==> after.last == Some(
                    InfoView { game_version: after.version, ..info },
                ) && after.name_time == reader.name_time
                &&& after.live is Some && reader.game_dir is None ==> after.name_time is None
                &&& after.live is None ==> after.name_time == reader.name_time
                &&& after.live is Some && reader.game_dir is None ==> after.last == Some(
                    InfoView {
                        game_version: after.version,
                        display_name: if info.display_name is Some {
                            info.display_name
                        } else {
                            after.display_name()
                        },
                        ..info
                    },
                )
            }
        }),
{
}

/// A missing level row sends a reader to the telemetry, however many accounts
/// are stored and whether or not the uid shows up under another key: all it
/// takes is a known login, a game directory, and no pin.
pub proof fn missing_level_rows_are_scanned_for(
    reader: ReaderView,
    time: i128,
    live: Option<Seq<char>>,
    version: Option<Seq<char>>,
    known_accounts: nat,
    uid_seen_elsewhere: bool,
)
    requires
        reader.phase == PhaseView::Reading(time),
        reader.uid_override is None,
        reader.account_index is None,
        reader.game_dir is Some,
        live is Some || reader.live is Some,
    ensures
        ({
            let reason = Reason::AccountNotInLevelData { known_accounts, uid_seen_elsewhere };
            let (after, action) = reader.step(EventView::Snapshot(live, version, Err(reason)));
            &&& action is ScanTelemetry
            &&& after.phase == PhaseView::Scanning(time, reason)
            &&& after.time == reader.time
            &&& after.reported == reader.reported
        }),
{
}

/// Any other rejection, and one without a login, without the game or with a
/// pin, ends the tick: it is told unless it was the last thing told, and from
/// then on it is.
pub proof fn other_rejections_end_the_tick(
    reader: ReaderView,
    time: i128,
    live: Option<Seq<char>>,
    version: Option<Seq<char>>,
    reason: Reason,
)
    requires
        reader.phase == PhaseView::Reading(time),
        reason !is AccountNotInLevelData || reader.uid_override is Some || reader.account_index
            is Some || reader.game_dir is None || (live is None && reader.live is None),
    ensures
        ({
            let (after, action) = reader.step(EventView::Snapshot(live, version, Err(reason)));
            &&& action == ActionView::Done(
                Refresh::Unavailable,
                if reader.reported == Some(reason) {
                    NoticeView::Nothing
                } else {
                    NoticeView::Rejected(reason)
                },
            )
            &&& after.reported == Some(reason)
            &&& after.phase is Idle
            &&& after.time == reader.time
        }),
{
}

/// An identity in the telemetry is as good as a level row: the tick ends with
/// new data, which hold the login as uid, the name, the level in decimal and
/// the server of the event, and the version that is known. What is told is the
/// event's age in whole seconds.
pub proof fn recovered_identities_update(
    reader: ReaderView,
    time: i128,
    reason: Reason,
    live: Seq<char>,
    bytes: Seq<u8>,
    now: nat,
    role: crate::db::remnant::RoleView,
)
    requires
        reader.phase == PhaseView::Scanning(time, reason),
        reader.live == Some(live),
        recovered(bytes, live, now) == Some(role),
    ensures
        ({
            let (after, action) = reader.step(EventView::Telemetry(Some((bytes, now))));
            &&& action matches ActionView::Done(Refresh::Updated, NoticeView::Recovered(age, known))
                && known == (reader.version is Some) && (role.event_ms <= now ==> age * 1000 <= now
                - role.event_ms < (age + 1) * 1000) && (role.event_ms > now ==> age == 0)
            &&& after.last matches Some(info) && info.uid == live && info.display_name == Some(
                role.name,
            ) && info.union_level == crate::text::decimal(role.level as nat) && info.region
                == role.region && info.game_version == reader.version && info.quests_done is None
            &&& after.time == Some(time)
            &&& after.reported is None
            &&& after.scan == Some(census(bytes, live, now))
            &&& after.phase is Idle
            &&& after.live == reader.live
            &&& after.version == reader.version
            &&& after.display == reader.display
            &&& after.degraded == reader.degraded
        }),
{
    let age = if now > role.event_ms {
        (now - role.event_ms) / 1000
    } else {
        0
    };
    if now >= role.event_ms {
        vstd::arithmetic::div_mod::lemma_fundamental_div_mod(now - role.event_ms, 1000);
    }
}

/// Telemetry without an identity leaves the rejection standing: it is told
/// unless it was the last thing told, and what is known stays.
pub proof fn fruitless_scans_leave_the_rejection(
    reader: ReaderView,
    time: i128,
    reason: Reason,
    live: Seq<char>,
    telemetry: Option<(Seq<u8>, nat)>,
)
    requires
        reader.phase == PhaseView::Scanning(time, reason),
        reader.live == Some(live),
        telemetry matches Some((bytes, now)) ==> recovered(bytes, live, now) is None,
    ensures
        ({
            let (after, action) = reader.step(EventView::Telemetry(telemetry));
            &&& action == ActionView::Done(
                Refresh::Unavailable,
                if reader.reported == Some(reason) {
                    NoticeView::Nothing
                } else {
                    NoticeView::Rejected(reason)
                },
            )
            &&& after == (ReaderView {
                phase: PhaseView::Idle,
                reported: Some(reason),
                scan: after.scan,
                ..reader
            })
            &&& telemetry is None ==> after.scan == Some(
                RemnantStats { candidates: 0, role_hits: 0, fresh_hits: 0 },
            )
            &&& telemetry matches Some((bytes, now)) ==> after.scan == Some(
                census(bytes, live, now),
            )
        }),
{
}

/// Whatever a reader is told, its directories and its pins stay.
pub proof fn steps_keep_the_settings(reader: ReaderView, event: EventView)
    ensures
        reader.step(event).0.storage_dir == reader.storage_dir,
        reader.step(event).0.snapshot_dir == reader.snapshot_dir,
        reader.step(event).0.game_dir == reader.game_dir,
        reader.step(event).0.uid_override == reader.uid_override,
        reader.step(event).0.account_index == reader.account_index,
{
    match reader.phase {
        PhaseView::Listing => {},
        PhaseView::Timing(_) => {},
        PhaseView::Naming(_) => {},
        PhaseView::Reading(_) => {},
        PhaseView::Scanning(_, _) => {},
        _ => {},
    }
}

/// Told what it did not ask for, a reader ends the tick and forgets nothing.
pub proof fn unasked_answers_end_the_tick(reader: ReaderView, event: EventView)
    requires
        event !is Start,
        reader.phase is Listing ==> event !is Names,
        reader.phase is Timing ==> event !is TelemetryTime,
        reader.phase is Naming ==> event !is Name,
        reader.phase is Sizing ==> event !is Source,
        reader.phase is Copying ==> event !is Copied,
        reader.phase is Reading ==> event !is Snapshot,
        reader.phase is Scanning ==> event !is Telemetry,
    ensures
        reader.step(event) == (
            ReaderView { phase: PhaseView::Idle, ..reader },
            ActionView::Done(
                if reader.degraded && reader.last is Some {
                    Refresh::Unchanged
                } else {
                    Refresh::Unavailable
                },
                NoticeView::Nothing,
            ),
        ),
{
}

/// What a degraded reader, and one that meets a numbered database, end a tick
/// with: the data of before if there are any.
pub proof fn data_outlive_the_storage(reader: ReaderView)
    ensures
        reader.cached() == Refresh::Unchanged <==> reader.last is Some,
        reader.cached() == Refresh::Unavailable <==> reader.last is None,
{
}

/// What a call of `refresh` does is one step, from what the reader knew to
/// what it knows, on exactly what it was told.
pub proof fn calls_are_steps(event: Event, r: Action)
    ensures
        forall|reader: &mut DbReader| #[trigger]
            call_ensures(DbReader::refresh, (reader, event), r) ==> ({
                let told = match event {
                    Event::Start => EventView::Start,
                    Event::Names(names) => EventView::Names(names@),
                    Event::TelemetryTime(time) => EventView::TelemetryTime(time),
                    Event::Name(Some(name)) => EventView::Name(Some(name@)),
                    Event::Name(None) => EventView::Name(None),
                    Event::Source(source) => EventView::Source(source),
                    Event::Copied(made, later) => EventView::Copied(made, later),
                    Event::Snapshot(live, version, Ok(info)) => EventView::Snapshot(
                        opt_view(live),
                        opt_view(version),
                        Ok(info@),
                    ),
                    Event::Snapshot(live, version, Err(err)) => EventView::Snapshot(
                        opt_view(live),
                        opt_view(version),
                        Err(err@),
                    ),
                    Event::Telemetry(Some((bytes, now))) => EventView::Telemetry(
                        Some((bytes@, now as nat)),
                    ),
                    Event::Telemetry(None) => EventView::Telemetry(None),
                };
                (*final(reader))@ == (*reader)@.step(told).0 && r@ == (*reader)@.step(told).1
            }),
        r@ == match r {
            Action::ListStorage => ActionView::ListStorage,
            Action::TimeTelemetry => ActionView::TimeTelemetry,
            Action::ReadName => ActionView::ReadName,
            Action::StatSource => ActionView::StatSource,
            Action::CopySource => ActionView::CopySource,
            Action::ReadSnapshot => ActionView::ReadSnapshot,
            Action::ScanTelemetry => ActionView::ScanTelemetry,
            Action::Done(refresh, Notice::Nothing) => ActionView::Done(
                refresh,
                NoticeView::Nothing,
            ),
            Action::Done(refresh, Notice::Numbered) => ActionView::Done(
                refresh,
                NoticeView::Numbered,
            ),
            Action::Done(refresh, Notice::Oversized) => ActionView::Done(
                refresh,
                NoticeView::Oversized,
            ),
            Action::Done(refresh, Notice::Rejected(err)) => ActionView::Done(
                refresh,
                NoticeView::Rejected(err@),
            ),
            Action::Done(refresh, Notice::Recovered(age, known)) => ActionView::Done(
                refresh,
                NoticeView::Recovered(age as nat, known),
            ),
        },
{
}

/// Of a reader that is called, too: a missing level row makes it ask for the
/// telemetry, and an identity in there ends the tick with that identity.
pub proof fn calls_recover_from_telemetry(
    live: Option<String>,
    version: Option<String>,
    known_accounts: usize,
    uid_seen_elsewhere: bool,
    bytes: Vec<u8>,
    now: u64,
    asked: Action,
    ended: Action,
)
    ensures
        forall|reader: &mut DbReader| #[trigger]
            call_ensures(
                DbReader::refresh,
                (
                    reader,
                    Event::Snapshot(
                        live,
                        version,
                        Err(
                            TriageError::AccountNotInLevelData {
                                known_accounts,
                                uid_seen_elsewhere,
                            },
                        ),
                    ),
                ),
                asked,
            ) && (*reader)@.phase is Reading && (*reader)@.uid_override is None && (
            *reader)@.account_index is None && (*reader)@.game_dir is Some && (live is Some || (
            *reader)@.live is Some) ==> asked == Action::ScanTelemetry && (
            *final(reader))@.phase is Scanning,
        forall|reader: &mut DbReader| #[trigger]
            call_ensures(
                DbReader::refresh,
                (reader, Event::Telemetry(Some((bytes, now)))),
                ended,
            ) && (*reader)@.phase is Scanning && (*reader)@.live is Some && recovered(
                bytes@,
                (*reader)@.live->Some_0,
                now as nat,
            ) is Some ==> ({
                let role = recovered(bytes@, (*reader)@.live->Some_0, now as nat)->Some_0;
                let after = (*final(reader))@;
                &&& ended matches Action::Done(Refresh::Updated, _)
                &&& after.last == Some(
                    InfoView {
                        uid: (*reader)@.live->Some_0,
                        union_level: crate::text::decimal(role.level as nat),
                        region: role.region,
                        quests_done: None,
                        game_version: (*reader)@.version,
                        display_name: Some(role.name),
                    },
                )
            }),
{
}

/// What is said of a rejection names what can be done: a pin for an account
/// that is known elsewhere, a look at the override or at the accounts for one
/// that is not, a login where there is none, and patience for the rest.
pub proof fn rejections_say_what_to_do(reader: &DbReader, err: TriageError, r: &'static str)
    requires
        call_ensures(DbReader::hint, (reader, err), r),
    ensures
        match err {
            TriageError::AccountNotInLevelData { uid_seen_elsewhere, .. } => if uid_seen_elsewhere {
                r@
                    == "account is known but its level data is missing; pin it with --list-accounts, --account-index N"@
            } else if reader@.uid_override is Some {
                r@ == "check --kuro-uid: stale or unknown account"@
            } else {
                r@
                    == "run --list-accounts to recognize yours by level, then pin it with --account-index N"@
            },
            TriageError::UnknownUid => r@ == "no account detected; launch the game and log in"@,
            _ => r@ == "keeping previous data"@,
        },
{
}

/// A rejection is told with its reason in brackets and the hint behind it.
pub proof fn rejections_are_told_with_hints(
    reader: &DbReader,
    err: TriageError,
    told: String,
    hint: &'static str,
    reason: String,
)
    requires
        call_ensures(DbReader::rejection, (reader, err), told),
        call_ensures(DbReader::hint, (reader, err), hint),
        call_ensures(TriageError::message, (&err,), reason),
    ensures
        told@ == "LocalStorage triage failed ("@ + reason@ + "); "@ + hint@,
{
}

/// The data that a card asked for once is made from: the freshest ones, unless
/// the tick found nothing usable.
pub proof fn unavailable_ticks_show_nothing(
    reader: &DbReader,
    refresh: Refresh,
    shown: Option<&PlayerInfo>,
    last: Option<&PlayerInfo>,
)
    requires
        call_ensures(DbReader::info_after, (reader, refresh), shown),
        call_ensures(DbReader::last_info, (reader,), last),
    ensures
        refresh == Refresh::Unavailable ==> shown is None,
        refresh != Refresh::Unavailable ==> (shown is Some <==> last is Some) && (
        shown matches Some(info) ==> info@ == last->Some_0@),
        last is Some <==> reader@.last is Some,
        last matches Some(info) ==> reader@.last == Some(info@),
{
}

/// What a reader tells is what it knows.
pub proof fn readers_tell_what_they_know(
    reader: &DbReader,
    degraded: bool,
    live: Option<&str>,
    name: Option<&str>,
    version: Option<&str>,
    told: Option<TriageError>,
    scan: Option<RemnantStats>,
)
    requires
        call_ensures(DbReader::is_degraded, (reader,), degraded),
        call_ensures(DbReader::live_uid, (reader,), live),
        call_ensures(DbReader::display_name, (reader,), name),
        call_ensures(DbReader::cached_version, (reader,), version),
        call_ensures(DbReader::last_triage, (reader,), told),
        call_ensures(DbReader::last_scan, (reader,), scan),
    ensures
        degraded == reader@.degraded,
        live is Some <==> reader@.live is Some,
        live matches Some(uid) ==> reader@.live == Some(uid@),
        name matches Some(name) ==> live is Some && reader@.display == Some((live->Some_0@, name@)),
        name is None ==> live is None || reader@.display is None
            || reader@.display->Some_0.0 != live->Some_0@,
        version is Some <==> reader@.version is Some,
        version matches Some(version) ==> reader@.version == Some(version@),
        told is Some <==> reader@.reported is Some,
        told matches Some(err) ==> reader@.reported == Some(err@),
        scan == reader@.scan,
{
}

/// A new reader knows its directories and its override, and nothing else; a
/// position and a game directory can be said later and change nothing else.
pub proof fn new_readers_know_nothing(
    storage_dir: PathBuf,
    snapshot_dir: PathBuf,
    uid_override: Option<String>,
    fresh: DbReader,
    index: usize,
    dir: PathBuf,
)
    requires
        call_ensures(DbReader::new, (storage_dir, snapshot_dir, uid_override), fresh),
    ensures
        fresh@.storage_dir == storage_dir,
        fresh@.snapshot_dir == snapshot_dir,
        fresh@.uid_override is Some <==> uid_override is Some,
        uid_override matches Some(uid) ==> fresh@.uid_override == Some(uid@),
        fresh@.game_dir is None && fresh@.account_index is None && fresh@.live is None,
        fresh@.display is None && fresh@.name_time is None && fresh@.version is None,
        fresh@.time is None && fresh@.last is None && !fresh@.degraded,
        fresh@.reported is None && fresh@.scan is None && fresh@.phase is Idle,
        fresh@.sound(),
        forall|reader: &mut DbReader| #[trigger]
            call_ensures(DbReader::set_account_index, (reader, index), ()) ==> (
            *final(reader))@ == (ReaderView { account_index: Some(index as nat), ..(*reader)@ }),
        forall|reader: &mut DbReader| #[trigger]
            call_ensures(DbReader::set_game_dir, (reader, dir), ()) ==> (*final(reader))@
                == (ReaderView { game_dir: Some(dir), ..(*reader)@ }),
{
}

/// A copy is judged for the account that the reader was told to ask for.
pub proof fn triage_follows_the_pins(
    reader: &DbReader,
    conn: &rusqlite::Connection,
    r: Result<PlayerInfo, TriageError>,
)
    requires
        call_ensures(DbReader::triage, (reader, conn), r),
    ensures
        exists|a: Answers| #[trigger]
            a.given(
                *conn,
                Pins { uid_override: reader@.uid_override, account_index: reader@.account_index },
            ) && match (
                r,
                a.outcome(
                    Pins {
                        uid_override: reader@.uid_override,
                        account_index: reader@.account_index,
                    },
                ),
            ) {
                (Ok(info), Ok((told, _))) => info@ == told,
                (Err(err), Err(reason)) => err@ == reason,
                _ => false,
            },
{
    let a = choose|a: Answers| #[trigger]
        a.given(*conn, reader.pins()) && triage_view(r) == match a.outcome(reader.pins()) {
            Ok((info, _)) => Ok(info),
            Err(err) => Err(err),
        };
    assert(reader.pins() == (Pins {
        uid_override: reader@.uid_override,
        account_index: reader@.account_index,
    }));
    assert(a.given(
        *conn,
        Pins { uid_override: reader@.uid_override, account_index: reader@.account_index },
    ));
}

/// A reader tells where it looks, as it was told.
pub proof fn readers_tell_where_they_look(
    reader: &DbReader,
    storage: &PathBuf,
    copies: &PathBuf,
    game: Option<&PathBuf>,
)
    requires
        call_ensures(DbReader::storage_dir, (reader,), storage),
        call_ensures(DbReader::snapshot_dir, (reader,), copies),
        call_ensures(DbReader::game_dir, (reader,), game),
    ensures
        *storage == reader@.storage_dir,
        *copies == reader@.snapshot_dir,
        game is Some <==> reader@.game_dir is Some,
        game matches Some(dir) ==> reader@.game_dir == Some(*dir),
{
}

} // verus!
