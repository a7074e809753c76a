//! The course of a run: sessions of the game, the two slots that show them,
//! and what is sent when.
//!
//! A [`Service`] is told what was seen and says what to do. It sees no
//! process, no socket and no file; it decides.
use crate::character::{Character, CharacterView};
use crate::db::triage::{InfoView, PlayerInfo};
use crate::ipc::{opt_bytes, ClientView, IpcClient};
use crate::json::{rendered, Json, Tree};
use crate::presence::{
    decide_publish, decision, inputs_text, official_activity, official_card, opt_json, resent,
    should_resend, switched, tier_inputs, tier_of, LiveContext, Publish, PublishView, Tier,
    GAME_NAME,
};
use crate::text::{opt_borrow, opt_owned, opt_str, opt_view};
use vstd::prelude::*;

verus! {

/// What is asked for once, at the start.
#[derive(Debug)]
pub struct Settings {
    /// The pid under which the companion slot goes: this program's own, never
    /// the game's, so that neither slot takes the place of the other.
    pub own_pid: u64,
    /// How much time passes between two updates, in nanoseconds.
    pub every: u128,
    /// Whether static text is shown where there is nothing better.
    pub static_text: bool,
    /// A name that wins over every other.
    pub player_name: Option<String>,
    pub character: Option<Character>,
    /// The address of the companion's portrait.
    pub portrait: Option<String>,
}

/// What is asked for once, as data.
pub struct SettingsView {
    pub own_pid: u64,
    pub every: u128,
    pub static_text: bool,
    pub player_name: Option<Seq<char>>,
    pub character: Option<CharacterView>,
    pub portrait: Option<Seq<char>>,
}

impl View for Settings {
    type V = SettingsView;

    open spec fn view(&self) -> SettingsView {
        SettingsView {
            own_pid: self.own_pid,
            every: self.every,
            static_text: self.static_text,
            player_name: opt_view(self.player_name),
            character: match self.character {
                Some(character) => Some(character@),
                None => None,
            },
            portrait: opt_view(self.portrait),
        }
    }
}

/// One run of the game in one slot: its clock, and what was last shown.
#[derive(Debug)]
pub struct Session {
    pub pid: u64,
    /// When the session began, in milliseconds since the epoch.
    pub start_ms: i64,
    /// The account behind the data.
    pub uid: Option<String>,
    /// What was sent last.
    pub last_body: Option<String>,
    /// How many ticks in a row skipped it.
    pub unchanged_streak: u32,
    /// When something was last sent or skipped, in nanoseconds of a clock that
    /// never goes back.
    pub last_send: Option<u128>,
    /// Whether the slot was cleared for this silent stretch.
    pub silence_cleared: bool,
    /// The tier of the last decision.
    pub last_tier: Option<Tier>,
}

/// One run of the game in one slot, as data.
pub struct SessionView {
    pub pid: u64,
    pub start_ms: i64,
    pub uid: Option<Seq<char>>,
    pub last_body: Option<Seq<char>>,
    pub streak: u32,
    pub last_send: Option<u128>,
    pub silence_cleared: bool,
    pub tier: Option<Tier>,
}

impl View for Session {
    type V = SessionView;

    open spec fn view(&self) -> SessionView {
        SessionView {
            pid: self.pid,
            start_ms: self.start_ms,
            uid: opt_view(self.uid),
            last_body: opt_view(self.last_body),
            streak: self.unchanged_streak,
            last_send: self.last_send,
            silence_cleared: self.silence_cleared,
            tier: self.last_tier,
        }
    }
}

impl SessionView {
    /// A session that has shown nothing yet.
    pub open spec fn fresh(pid: u64, start_ms: i64) -> SessionView {
        SessionView {
            pid,
            start_ms,
            uid: None,
            last_body: None,
            streak: 0,
            last_send: None,
            silence_cleared: false,
            tier: None,
        }
    }

    /// A session that starts over for another account.
    pub open spec fn restarted(self, start_ms: i64, uid: Option<Seq<char>>) -> SessionView {
        SessionView {
            start_ms,
            uid,
            last_body: None,
            streak: 0,
            last_send: None,
            silence_cleared: false,
            ..self
        }
    }

    /// A session after a card was sent.
    pub open spec fn sent(self, body: Seq<char>, now: u128) -> SessionView {
        SessionView { last_body: Some(body), streak: 0, last_send: Some(now), ..self }
    }

    /// A session after a card was skipped.
    pub open spec fn skipped(self, now: u128) -> SessionView {
        SessionView {
            streak: if self.streak < u32::MAX {
                (self.streak + 1) as u32
            } else {
                self.streak
            },
            last_send: Some(now),
            ..self
        }
    }

    /// Whether an update is due.
    pub open spec fn due(self, now: u128, every: u128) -> bool {
        match self.last_send {
            Some(at) => (if now > at {
                now - at
            } else {
                0
            }) >= every,
            None => true,
        }
    }
}

impl Session {
    /// A session for a process: its clock starts when the process did, or now
    /// where that cannot be told.
    pub fn new(pid: u64, started: Option<i64>, now_ms: i64) -> (r: Session)
        ensures
            r@ == SessionView::fresh(
                pid,
                match started {
                    Some(started) => started,
                    None => now_ms,
                },
            ),
    {
        let start_ms: i64 = match started {
            Some(started) => started,
            None => now_ms,
        };
        Session {
            pid,
            start_ms,
            uid: None,
            last_body: None,
            unchanged_streak: 0,
            last_send: None,
            silence_cleared: false,
            last_tier: None,
        }
    }

    fn restart(&mut self, start_ms: i64, uid: Option<String>)
        ensures
            final(self)@ == old(self)@.restarted(start_ms, opt_view(uid)),
    {
        self.start_ms = start_ms;
        self.uid = uid;
        self.last_body = None;
        self.unchanged_streak = 0;
        self.last_send = None;
        self.silence_cleared = false;
    }

    fn sent(&mut self, body: String, now: u128)
        ensures
            final(self)@ == old(self)@.sent(body@, now),
    {
        self.last_body = Some(body);
        self.unchanged_streak = 0;
        self.last_send = Some(now);
    }

    fn skipped(&mut self, now: u128)
        ensures
            final(self)@ == old(self)@.skipped(now),
    {
        if self.unchanged_streak < u32::MAX {
            self.unchanged_streak += 1;
        }
        self.last_send = Some(now);
    }

    fn due(&self, now: u128, every: u128) -> (r: bool)
        ensures
            r == self@.due(now, every),
    {
        match self.last_send {
            Some(at) => {
                let passed: u128 = if now > at {
                    now - at
                } else {
                    0
                };
                passed >= every
            },
            None => true,
        }
    }
}

/// The slots: this application's own, and the one on the official
/// application.
#[derive(Clone, Copy, Debug, PartialEq, Eq)]
pub enum Slot {
    Primary,
    Companion,
}

/// What a scan for the game came to.
#[derive(Clone, Copy, Debug, PartialEq, Eq)]
pub enum Scan {
    /// The scan failed.
    Failed,
    /// The game does not run.
    NoGame,
    /// The game runs, but its pid is not known.
    NoPid,
    /// The game runs under this pid.
    Game(u64),
}

/// What is worth telling.
#[derive(Clone, Copy, Debug, PartialEq, Eq)]
pub enum Note {
    WaitingForGame,
    GameClosed,
    NoPid,
    Detected(u64),
    Restarted(u64),
    Connected(Slot),
    NoConnection(Slot),
    AccountSwitched,
    TierChanged(Option<Tier>, Tier),
    LeftToDetection,
    ConnectionLost(Slot),
    Sent(Slot),
    Unchanged(Slot),
}

/// What to do next. A frame is written to its slot's socket; where there is
/// none, nothing is.
#[derive(Debug)]
pub enum Act {
    /// Wait, then scan.
    Sleep,
    /// Tell when this process was started.
    Open(u64),
    /// Connect this slot.
    Connect(Slot),
    /// Read the data again.
    Refresh,
    /// Write these frames, tell how that went, then wait. A slot without a
    /// frame counts as written.
    Clear { primary: Option<Vec<u8>>, companion: Option<Vec<u8>> },
    /// Write these frames, the companion's first, and tell how that went.
    Publish { primary: Option<Vec<u8>>, companion: Option<Vec<u8>> },
}

/// What to do next, as data.
pub enum ActView {
    Sleep,
    Open(u64),
    Connect(Slot),
    Refresh,
    Clear { primary: Option<Seq<u8>>, companion: Option<Seq<u8>> },
    Publish { primary: Option<Seq<u8>>, companion: Option<Seq<u8>> },
}

impl View for Act {
    type V = ActView;

    open spec fn view(&self) -> ActView {
        match *self {
            Act::Sleep => ActView::Sleep,
            Act::Open(pid) => ActView::Open(pid),
            Act::Connect(slot) => ActView::Connect(slot),
            Act::Refresh => ActView::Refresh,
            Act::Clear { primary, companion } => ActView::Clear {
                primary: opt_bytes(primary),
                companion: opt_bytes(companion),
            },
            Act::Publish { primary, companion } => ActView::Publish {
                primary: opt_bytes(primary),
                companion: opt_bytes(companion),
            },
        }
    }
}

/// What a slot waits for after a decision.
#[derive(Debug)]
pub enum Pending {
    /// Nothing.
    Nothing,
    /// To hear that its card was skipped.
    Skipped,
    /// To hear whether this card was written.
    Sent(String),
}

/// What a slot waits for, as data.
pub enum PendingView {
    Nothing,
    Skipped,
    Sent(Seq<char>),
}

impl View for Pending {
    type V = PendingView;

    open spec fn view(&self) -> PendingView {
        match self {
            Pending::Nothing => PendingView::Nothing,
            Pending::Skipped => PendingView::Skipped,
            Pending::Sent(body) => PendingView::Sent(body@),
        }
    }
}

/// Everything a service knows.
pub struct ServiceView {
    pub settings: SettingsView,
    pub primary: ClientView,
    pub official: Option<ClientView>,
    pub session: Option<SessionView>,
    pub official_session: Option<SessionView>,
    pub last_pid: Option<u64>,
    pub told_game: bool,
    pub told_primary: bool,
    pub told_companion: bool,
    pub primary_pending: PendingView,
    pub companion_pending: PendingView,
}

/// What a service does: what it knows then, what is done, and what is told.
pub struct Turn {
    pub after: ServiceView,
    pub act: ActView,
    pub notes: Seq<Note>,
}

/// The details of a card, for the companion.
pub open spec fn details_of(card: Tree) -> Seq<char> {
    match card.member("details"@) {
        Some(Tree::Text(details)) => details,
        _ => GAME_NAME@,
    }
}

/// The state of a card, for the companion.
pub open spec fn state_of(card: Tree) -> Seq<char> {
    match card.member("state"@) {
        Some(Tree::Text(state)) => state,
        _ => Seq::empty(),
    }
}

/// The companion of a card that is looked at before it is sent: there is one
/// where the companion slot is in use and the card has details.
pub fn companion_preview(card: &Json, game_page: bool, now_ms: i64, portrait: Option<&str>) -> (r:
    Option<Json>)
    ensures
        opt_json(r) == match card@.member("details"@) {
            Some(Tree::Text(details)) if game_page => Some(
                official_card(now_ms as int, details, state_of(card@), opt_str(portrait)),
            ),
            _ => None,
        },
{
    if !game_page {
        return None;
    }
    let state: &str = match card.get("state") {
        Some(json) => match json.as_str() {
            Some(state) => state,
            None => "",
        },
        None => "",
    };
    proof {
        reveal_strlit("");
        assert(""@ =~= Seq::<char>::empty());
    }
    match card.get("details") {
        Some(json) => match json.as_str() {
            Some(details) => Some(official_activity(now_ms, details, state, portrait)),
            None => None,
        },
        None => None,
    }
}

impl ClientView {
    /// A client after one more message.
    pub open spec fn counted(self) -> ClientView {
        ClientView { nonce: self.next_nonce(), ..self }
    }

    /// A client after a frame was written or not: a failed write ends the
    /// connection.
    pub open spec fn told(self, written: bool) -> ClientView {
        ClientView { connected: self.connected && written, ..self }
    }

    /// A client without a connection.
    pub open spec fn closed(self) -> ClientView {
        ClientView { connected: false, ..self }
    }
}

impl ServiceView {
    /// What is done where nothing else is.
    pub open spec fn rests(self, notes: Seq<Note>) -> Turn {
        Turn { after: self, act: ActView::Sleep, notes }
    }

    /// Both slots cleared: each client has sent one more message.
    pub open spec fn cleared(self) -> ServiceView {
        ServiceView {
            primary: self.primary.counted(),
            official: match self.official {
                Some(official) => Some(official.counted()),
                None => None,
            },
            ..self
        }
    }

    /// The frames that clear both slots: the primary for a process, the companion
    /// under its own pid.
    pub open spec fn clearing(self, pid: u64) -> ActView {
        ActView::Clear {
            primary: self.primary.message(pid, Tree::Null),
            companion: match self.official {
                Some(official) => official.message(self.settings.own_pid, Tree::Null),
                None => None,
            },
        }
    }

    /// What became of the frames that clear the slots: one whose write failed
    /// has no connection any more.
    pub open spec fn clear_told(self, primary: bool, companion: bool) -> ServiceView {
        ServiceView {
            primary: self.primary.told(primary),
            official: match self.official {
                Some(official) => Some(official.told(companion)),
                None => None,
            },
            ..self
        }
    }

    /// The game is gone: both slots are cleared and closed, and the session
    /// ends. Without a session it is told once that the game is waited for.
    pub open spec fn gone(self) -> Turn {
        match self.session {
            Some(_) => {
                let (cleared, act) = match self.last_pid {
                    Some(pid) => (self.cleared(), self.clearing(pid)),
                    None => (self, ActView::Clear { primary: None, companion: None }),
                };
                Turn {
                    after: ServiceView {
                        primary: cleared.primary.closed(),
                        official: match cleared.official {
                            Some(official) => Some(official.closed()),
                            None => None,
                        },
                        session: None,
                        official_session: None,
                        ..cleared
                    },
                    act,
                    notes: seq![Note::GameClosed],
                }
            },
            None => if self.told_game {
                self.rests(Seq::empty())
            } else {
                (ServiceView { told_game: true, ..self }).rests(seq![Note::WaitingForGame])
            },
        }
    }

    /// The next thing to connect, or else to read.
    pub open spec fn joining(self, notes: Seq<Note>) -> Turn {
        Turn {
            after: self,
            act: if !self.primary.connected {
                ActView::Connect(Slot::Primary)
            } else {
                match self.official {
                    Some(official) => if official.connected {
                        ActView::Refresh
                    } else {
                        ActView::Connect(Slot::Companion)
                    },
                    None => ActView::Refresh,
                }
            },
            notes,
        }
    }

    /// What a scan leads to. A pid that is new opens a session; else an update
    /// comes when it is due.
    pub open spec fn scanned(self, scan: Scan, now: u128) -> Turn {
        match scan {
            Scan::Failed => self.rests(Seq::empty()),
            Scan::NoGame => self.gone(),
            Scan::NoPid => (ServiceView { told_game: false, ..self }).rests(seq![Note::NoPid]),
            Scan::Game(pid) => {
                let seen = ServiceView { told_game: false, last_pid: Some(pid), ..self };
                match self.session {
                    Some(session) => if session.pid == pid {
                        if session.due(now, self.settings.every) {
                            seen.joining(Seq::empty())
                        } else {
                            seen.rests(Seq::empty())
                        }
                    } else {
                        Turn {
                            after: ServiceView { told_primary: false, ..seen },
                            act: ActView::Open(pid),
                            notes: seq![Note::Restarted(pid)],
                        }
                    },
                    None => Turn {
                        after: ServiceView { told_primary: false, ..seen },
                        act: ActView::Open(pid),
                        notes: seq![Note::Detected(pid)],
                    },
                }
            },
        }
    }

    /// A session opens, in each slot.
    pub open spec fn opened(self, pid: u64, start_ms: i64) -> Turn {
        (ServiceView {
            session: Some(SessionView::fresh(pid, start_ms)),
            official_session: match self.official {
                Some(_) => Some(SessionView::fresh(pid, start_ms)),
                None => None,
            },
            ..self
        }).joining(Seq::empty())
    }

    /// What an attempt to connect leads to. A failure is told once. Without
    /// the primary slot the tick ends; without the companion it goes on.
    pub open spec fn joined(self, slot: Slot, written: bool) -> Turn {
        match slot {
            Slot::Primary => {
                let tried = ServiceView {
                    primary: ClientView { connected: written, ..self.primary },
                    told_primary: !written,
                    ..self
                };
                if written {
                    tried.joining(seq![Note::Connected(Slot::Primary)])
                } else if self.told_primary {
                    tried.rests(Seq::empty())
                } else {
                    tried.rests(seq![Note::NoConnection(Slot::Primary)])
                }
            },
            Slot::Companion => {
                let tried = ServiceView {
                    official: match self.official {
                        Some(official) => Some(ClientView { connected: written, ..official }),
                        None => None,
                    },
                    told_companion: !written,
                    ..self
                };
                Turn {
                    after: tried,
                    act: ActView::Refresh,
                    notes: if written {
                        seq![Note::Connected(Slot::Companion)]
                    } else if self.told_companion {
                        Seq::empty()
                    } else {
                        seq![Note::NoConnection(Slot::Companion)]
                    },
                }
            },
        }
    }

    /// The account behind the data. Another one than before starts the session
    /// over, in both slots; an unknown one changes nothing.
    pub open spec fn settled(self, uid: Option<Seq<char>>, now_ms: i64) -> ServiceView {
        match self.session {
            Some(session) => if switched(session.uid, uid) {
                ServiceView {
                    session: Some(session.restarted(now_ms, uid)),
                    official_session: match self.official_session {
                        Some(official) => Some(official.restarted(now_ms, uid)),
                        None => None,
                    },
                    ..self
                }
            } else if session.uid is None {
                ServiceView { session: Some(SessionView { uid, ..session }), ..self }
            } else {
                self
            },
            None => self,
        }
    }

    /// The tier of a decision is kept.
    pub open spec fn announced(self, tier: Tier) -> ServiceView {
        match self.session {
            Some(session) => ServiceView {
                session: Some(SessionView { tier: Some(tier), ..session }),
                ..self
            },
            None => self,
        }
    }

    /// Silence: both slots are cleared, once for a silent stretch.
    pub open spec fn silenced(self, notes: Seq<Note>) -> Turn {
        match self.session {
            Some(session) => if session.silence_cleared {
                self.rests(notes)
            } else {
                let cleared = match self.official_session {
                    Some(_) => self.cleared(),
                    None => ServiceView { primary: self.primary.counted(), ..self },
                };
                Turn {
                    after: ServiceView {
                        session: Some(SessionView { silence_cleared: true, ..session }),
                        official_session: match self.official_session {
                            Some(official) => Some(
                                SessionView { silence_cleared: true, ..official },
                            ),
                            None => None,
                        },
                        ..cleared
                    },
                    act: match self.official_session {
                        Some(_) => self.clearing(session.pid),
                        None => ActView::Clear {
                            primary: self.primary.message(session.pid, Tree::Null),
                            companion: None,
                        },
                    },
                    notes: notes.push(Note::LeftToDetection),
                }
            },
            None => self.rests(notes),
        }
    }

    /// What the companion slot does with the primary card: the same details
    /// and state, under this program's pid.
    pub open spec fn companion(self, card: Tree) -> (ServiceView, Option<Seq<u8>>, Seq<Note>) {
        match (self.session, self.official_session, self.official) {
            (Some(session), Some(mirror), Some(official)) => {
                let shown = official_card(
                    session.start_ms as int,
                    details_of(card),
                    state_of(card),
                    self.settings.portrait,
                );
                let awake = ServiceView {
                    official_session: Some(SessionView { silence_cleared: false, ..mirror }),
                    ..self
                };
                if !resent(mirror.last_body, rendered(shown), mirror.streak as nat) {
                    (
                        ServiceView { companion_pending: PendingView::Skipped, ..awake },
                        None,
                        seq![Note::Unchanged(Slot::Companion)],
                    )
                } else if official.connected {
                    (
                        ServiceView {
                            official: Some(official.counted()),
                            companion_pending: PendingView::Sent(rendered(shown)),
                            ..awake
                        },
                        official.message(self.settings.own_pid, shown),
                        Seq::empty(),
                    )
                } else {
                    (
                        ServiceView {
                            official: Some(official.counted()),
                            companion_pending: PendingView::Nothing,
                            ..awake
                        },
                        None,
                        seq![Note::ConnectionLost(Slot::Companion)],
                    )
                }
            },
            _ => (
                ServiceView { companion_pending: PendingView::Nothing, ..self },
                None,
                Seq::empty(),
            ),
        }
    }

    /// What the primary slot does with a card.
    pub open spec fn primary(self, session: SessionView, card: Tree) -> (
        ServiceView,
        Option<Seq<u8>>,
        Seq<Note>,
    ) {
        if resent(session.last_body, rendered(card), session.streak as nat) {
            (
                ServiceView {
                    primary: self.primary.counted(),
                    primary_pending: PendingView::Sent(rendered(card)),
                    ..self
                },
                self.primary.message(session.pid, card),
                Seq::empty(),
            )
        } else {
            (
                ServiceView { primary_pending: PendingView::Skipped, ..self },
                None,
                seq![Note::Unchanged(Slot::Primary)],
            )
        }
    }

    /// A card goes to both slots.
    pub open spec fn offered(self, session: SessionView, card: Tree, notes: Seq<Note>) -> Turn {
        let awake = SessionView { silence_cleared: false, ..session };
        let (mirrored, companion, first) = (ServiceView {
            session: Some(awake),
            ..self
        }).companion(card);
        let (after, primary, second) = mirrored.primary(awake, card);
        Turn {
            after,
            act: ActView::Publish { primary, companion },
            notes: notes + (first + second),
        }
    }

    /// The decision of a tick.
    pub open spec fn decides(
        self,
        session: SessionView,
        info: Option<InfoView>,
        uid_known: bool,
        display_name: Option<Seq<char>>,
        version: Option<Seq<char>>,
    ) -> PublishView {
        decision(
            info,
            self.settings.static_text,
            session.start_ms as int,
            self.settings.player_name,
            self.settings.character,
            uid_known,
            display_name,
            version,
        )
    }

    /// What the data lead to. A change of tier is told.
    pub open spec fn refreshed(
        self,
        info: Option<InfoView>,
        uid_known: bool,
        display_name: Option<Seq<char>>,
        version: Option<Seq<char>>,
        now_ms: i64,
    ) -> Turn {
        match self.session {
            None => self.rests(Seq::empty()),
            Some(before) => {
                let uid = match info {
                    Some(info) => Some(info.uid),
                    None => None,
                };
                let here = self.settled(uid, now_ms);
                let session = here.session->Some_0;
                let publish = here.decides(session, info, uid_known, display_name, version);
                let first = if switched(before.uid, uid) {
                    seq![Note::AccountSwitched]
                } else {
                    Seq::empty()
                };
                let notes = if session.tier == Some(publish.tier()) {
                    first
                } else {
                    first.push(Note::TierChanged(session.tier, publish.tier()))
                };
                let told = here.announced(publish.tier());
                match publish.card() {
                    Some(card) => told.offered(told.session->Some_0, card, notes),
                    None => told.silenced(notes),
                }
            },
        }
    }

    /// What became of the companion's card.
    pub open spec fn companion_done(self, written: bool, now: u128) -> (ServiceView, Seq<Note>) {
        let done = ServiceView { companion_pending: PendingView::Nothing, ..self };
        match (self.companion_pending, self.official_session) {
            (PendingView::Sent(body), Some(mirror)) => if written {
                (
                    ServiceView { official_session: Some(mirror.sent(body, now)), ..done },
                    seq![Note::Sent(Slot::Companion)],
                )
            } else {
                (
                    ServiceView {
                        official: match self.official {
                            Some(official) => Some(official.closed()),
                            None => None,
                        },
                        ..done
                    },
                    seq![Note::ConnectionLost(Slot::Companion)],
                )
            },
            (PendingView::Skipped, Some(mirror)) => (
                ServiceView { official_session: Some(mirror.skipped(now)), ..done },
                Seq::empty(),
            ),
            _ => (done, Seq::empty()),
        }
    }

    /// What became of the primary card.
    pub open spec fn primary_done(self, written: bool, now: u128) -> (ServiceView, Seq<Note>) {
        let done = ServiceView { primary_pending: PendingView::Nothing, ..self };
        match (self.primary_pending, self.session) {
            (PendingView::Sent(body), Some(session)) => if written {
                (
                    ServiceView { session: Some(session.sent(body, now)), ..done },
                    seq![Note::Sent(Slot::Primary)],
                )
            } else {
                (
                    ServiceView { primary: self.primary.closed(), ..done },
                    seq![Note::ConnectionLost(Slot::Primary)],
                )
            },
            (PendingView::Skipped, Some(session)) => (
                ServiceView { session: Some(session.skipped(now)), ..done },
                Seq::empty(),
            ),
            _ => (done, Seq::empty()),
        }
    }

    /// What became of both cards. A slot whose write failed is connected again
    /// on a later tick, and its card counts as not sent.
    pub open spec fn published(self, companion: bool, primary: bool, now: u128) -> Turn {
        let (half, first) = self.companion_done(companion, now);
        let (after, second) = half.primary_done(primary, now);
        after.rests(first + second)
    }

    /// The end of the run: both slots are cleared.
    pub open spec fn shut(self) -> Turn {
        match self.last_pid {
            Some(pid) => Turn {
                after: self.cleared(),
                act: self.clearing(pid),
                notes: Seq::empty(),
            },
            None => self.rests(Seq::empty()),
        }
    }
}

/// The course of a run.
#[derive(Debug)]
pub struct Service {
    settings: Settings,
    ipc: IpcClient,
    ipc_official: Option<IpcClient>,
    session: Option<Session>,
    official_session: Option<Session>,
    last_pid: Option<u64>,
    announced_waiting_game: bool,
    announced_waiting_discord: bool,
    announced_waiting_discord_official: bool,
    primary_pending: Pending,
    companion_pending: Pending,
}

/// Data that may be missing.
pub open spec fn opt_player(info: Option<&PlayerInfo>) -> Option<InfoView> {
    match info {
        Some(info) => Some(info@),
        None => None,
    }
}

/// A session that may be missing.
pub open spec fn opt_session(session: Option<Session>) -> Option<SessionView> {
    match session {
        Some(session) => Some(session@),
        None => None,
    }
}

/// A client that may be missing.
pub open spec fn opt_client(client: Option<IpcClient>) -> Option<ClientView> {
    match client {
        Some(client) => Some(client@),
        None => None,
    }
}

impl View for Service {
    type V = ServiceView;

    closed spec fn view(&self) -> ServiceView {
        ServiceView {
            settings: self.settings@,
            primary: self.ipc@,
            official: opt_client(self.ipc_official),
            session: opt_session(self.session),
            official_session: opt_session(self.official_session),
            last_pid: self.last_pid,
            told_game: self.announced_waiting_game,
            told_primary: self.announced_waiting_discord,
            told_companion: self.announced_waiting_discord_official,
            primary_pending: self.primary_pending@,
            companion_pending: self.companion_pending@,
        }
    }
}

impl Service {
    /// A service that has seen nothing yet, with a companion slot or without.
    pub fn new(settings: Settings, app_id: String, official_id: Option<String>) -> (r: Service)
        ensures
            r@ == (ServiceView {
                settings: settings@,
                primary: ClientView { client_id: app_id@, connected: false, nonce: 0 },
                official: match official_id {
                    Some(id) => Some(
                        ClientView { client_id: id@, connected: false, nonce: 0 },
                    ),
                    None => None,
                },
                session: None,
                official_session: None,
                last_pid: None,
                told_game: false,
                told_primary: false,
                told_companion: false,
                primary_pending: PendingView::Nothing,
                companion_pending: PendingView::Nothing,
            }),
    {
        let ipc_official: Option<IpcClient> = match official_id {
            Some(id) => Some(IpcClient::new(id)),
            None => None,
        };
        Service {
            settings,
            ipc: IpcClient::new(app_id),
            ipc_official,
            session: None,
            official_session: None,
            last_pid: None,
            announced_waiting_game: false,
            announced_waiting_discord: false,
            announced_waiting_discord_official: false,
            primary_pending: Pending::Nothing,
            companion_pending: Pending::Nothing,
        }
    }

    /// Whether a slot has a connection.
    pub fn is_connected(&self, slot: Slot) -> (r: bool)
        ensures
            r == match slot {
                Slot::Primary => self@.primary.connected,
                Slot::Companion => self@.official matches Some(official) && official.connected,
            },
    {
        match slot {
            Slot::Primary => self.ipc.is_connected(),
            Slot::Companion => match &self.ipc_official {
                Some(official) => official.is_connected(),
                None => false,
            },
        }
    }

    /// The card that a slot was last sent, if there is one.
    pub fn last_body(&self, slot: Slot) -> (r: Option<&str>)
        ensures
            opt_str(r) == match slot {
                Slot::Primary => match self@.session {
                    Some(session) => session.last_body,
                    None => None,
                },
                Slot::Companion => match self@.official_session {
                    Some(session) => session.last_body,
                    None => None,
                },
            },
    {
        let session: &Option<Session> = match slot {
            Slot::Primary => &self.session,
            Slot::Companion => &self.official_session,
        };
        match session {
            Some(session) => opt_borrow(&session.last_body),
            None => None,
        }
    }

    /// The frame that opens a slot's connection; nothing for a slot that does
    /// not exist.
    pub fn handshake(&self, slot: Slot) -> (r: Option<Vec<u8>>)
        ensures
            opt_bytes(r) == match slot {
                Slot::Primary => Some(
                    crate::ipc::frame(
                        crate::ipc::OP_HANDSHAKE,
                        rendered(crate::ipc::handshake_tree(self@.primary.client_id)),
                    ),
                ),
                Slot::Companion => match self@.official {
                    Some(official) => Some(
                        crate::ipc::frame(
                            crate::ipc::OP_HANDSHAKE,
                            rendered(crate::ipc::handshake_tree(official.client_id)),
                        ),
                    ),
                    None => None,
                },
            },
    {
        match slot {
            Slot::Primary => Some(self.ipc.handshake()),
            Slot::Companion => match &self.ipc_official {
                Some(official) => Some(official.handshake()),
                None => None,
            },
        }
    }

    fn clear_both(&mut self, pid: u64) -> (r: Act)
        ensures
            final(self)@ == old(self)@.cleared(),
            r@ == old(self)@.clearing(pid),
    {
        let primary = self.ipc.clear(pid);
        let companion: Option<Vec<u8>> = match self.ipc_official.take() {
            Some(client) => {
                let mut client = client;
                let bytes = client.clear(self.settings.own_pid);
                self.ipc_official = Some(client);
                bytes
            },
            None => None,
        };
        Act::Clear { primary, companion }
    }

    fn joining(&self) -> (r: Act)
        ensures
            r@ == self@.joining(Seq::empty()).act,
    {
        if !self.ipc.is_connected() {
            return Act::Connect(Slot::Primary);
        }
        match &self.ipc_official {
            Some(official) => if official.is_connected() {
                Act::Refresh
            } else {
                Act::Connect(Slot::Companion)
            },
            None => Act::Refresh,
        }
    }

    fn gone(&mut self) -> (r: (Act, Vec<Note>))
        ensures
            final(self)@ == old(self)@.gone().after,
            r.0@ == old(self)@.gone().act,
            r.1@ == old(self)@.gone().notes,
    {
        let mut notes: Vec<Note> = Vec::new();
        if self.session.is_none() {
            if !self.announced_waiting_game {
                self.announced_waiting_game = true;
                notes.push(Note::WaitingForGame);
            }
            return (Act::Sleep, notes);
        }
        notes.push(Note::GameClosed);
        let act: Act = match self.last_pid {
            Some(pid) => self.clear_both(pid),
            None => Act::Clear { primary: None, companion: None },
        };
        self.ipc.close();
        match self.ipc_official.take() {
            Some(client) => {
                let mut client = client;
                client.close();
                self.ipc_official = Some(client);
            },
            None => {},
        }
        self.session = None;
        self.official_session = None;
        (act, notes)
    }

    /// Told what a scan came to, at a time of a clock that never goes back.
    pub fn scan(&mut self, scan: Scan, now: u128) -> (r: (Act, Vec<Note>))
        ensures
            final(self)@ == old(self)@.scanned(scan, now).after,
            r.0@ == old(self)@.scanned(scan, now).act,
            r.1@ == old(self)@.scanned(scan, now).notes,
    {
        let mut notes: Vec<Note> = Vec::new();
        match scan {
            Scan::Failed => (Act::Sleep, notes),
            Scan::NoGame => self.gone(),
            Scan::NoPid => {
                self.announced_waiting_game = false;
                notes.push(Note::NoPid);
                (Act::Sleep, notes)
            },
            Scan::Game(pid) => {
                self.announced_waiting_game = false;
                self.last_pid = Some(pid);
                match &self.session {
                    Some(session) => if session.pid == pid {
                        if session.due(now, self.settings.every) {
                            (self.joining(), notes)
                        } else {
                            (Act::Sleep, notes)
                        }
                    } else {
                        self.announced_waiting_discord = false;
                        notes.push(Note::Restarted(pid));
                        (Act::Open(pid), notes)
                    },
                    None => {
                        self.announced_waiting_discord = false;
                        notes.push(Note::Detected(pid));
                        (Act::Open(pid), notes)
                    },
                }
            },
        }
    }

    /// Told when a process was started, if that can be told, and what the
    /// clock shows, in milliseconds since the epoch.
    pub fn open(&mut self, pid: u64, started: Option<i64>, now_ms: i64) -> (r: Act)
        ensures
            ({
                let turn = old(self)@.opened(
                    pid,
                    match started {
                        Some(started) => started,
                        None => now_ms,
                    },
                );
                final(self)@ == turn.after && r@ == turn.act
            }),
    {
        self.session = Some(Session::new(pid, started, now_ms));
        self.official_session = if self.ipc_official.is_some() {
            Some(Session::new(pid, started, now_ms))
        } else {
            None
        };
        self.joining()
    }

    /// Told whether a slot's handshake was written.
    pub fn join(&mut self, slot: Slot, written: bool) -> (r: (Act, Vec<Note>))
        ensures
            final(self)@ == old(self)@.joined(slot, written).after,
            r.0@ == old(self)@.joined(slot, written).act,
            r.1@ == old(self)@.joined(slot, written).notes,
    {
        let mut notes: Vec<Note> = Vec::new();
        match slot {
            Slot::Primary => {
                self.ipc.connect(written);
                let told: bool = self.announced_waiting_discord;
                self.announced_waiting_discord = !written;
                if written {
                    notes.push(Note::Connected(Slot::Primary));
                    (self.joining(), notes)
                } else {
                    if !told {
                        notes.push(Note::NoConnection(Slot::Primary));
                    }
                    (Act::Sleep, notes)
                }
            },
            Slot::Companion => {
                match self.ipc_official.take() {
                    Some(client) => {
                        let mut client = client;
                        client.connect(written);
                        self.ipc_official = Some(client);
                    },
                    None => {},
                }
                let told: bool = self.announced_waiting_discord_official;
                self.announced_waiting_discord_official = !written;
                if written {
                    notes.push(Note::Connected(Slot::Companion));
                } else if !told {
                    notes.push(Note::NoConnection(Slot::Companion));
                }
                (Act::Refresh, notes)
            },
        }
    }

    fn settle(&mut self, uid: Option<&str>, now_ms: i64) -> (r: bool)
        ensures
            final(self)@ == old(self)@.settled(opt_str(uid), now_ms),
            r == (old(self)@.session matches Some(session) && switched(session.uid, opt_str(uid))),
    {
        match self.session.take() {
            Some(session) => {
                let mut session = session;
                let moved: bool = crate::presence::account_switched(
                    opt_borrow(&session.uid),
                    uid,
                );
                if moved {
                    session.restart(now_ms, opt_owned(uid));
                    match self.official_session.take() {
                        Some(mirror) => {
                            let mut mirror = mirror;
                            mirror.restart(now_ms, opt_owned(uid));
                            self.official_session = Some(mirror);
                        },
                        None => {},
                    }
                } else if session.uid.is_none() {
                    session.uid = opt_owned(uid);
                }
                self.session = Some(session);
                moved
            },
            None => false,
        }
    }

    fn silence(&mut self) -> (r: (Act, bool))
        ensures
            final(self)@ == old(self)@.silenced(Seq::empty()).after,
            r.0@ == old(self)@.silenced(Seq::empty()).act,
            r.1 == (old(self)@.session matches Some(session) && !session.silence_cleared),
    {
        match self.session.take() {
            Some(session) => {
                let mut session = session;
                if session.silence_cleared {
                    self.session = Some(session);
                    return (Act::Sleep, false);
                }
                let pid: u64 = session.pid;
                session.silence_cleared = true;
                self.session = Some(session);
                match self.official_session.take() {
                    Some(mirror) => {
                        let mut mirror = mirror;
                        mirror.silence_cleared = true;
                        self.official_session = Some(mirror);
                        (self.clear_both(pid), true)
                    },
                    None => {
                        let primary = self.ipc.clear(pid);
                        (Act::Clear { primary, companion: None }, true)
                    },
                }
            },
            None => (Act::Sleep, false),
        }
    }

    fn offer_companion(&mut self, card: &Json) -> (r: (Option<Vec<u8>>, Option<Note>))
        ensures
            final(self)@ == old(self)@.companion(card@).0,
            opt_bytes(r.0) == old(self)@.companion(card@).1,
            old(self)@.companion(card@).2 == match r.1 {
                Some(note) => seq![note],
                None => Seq::empty(),
            },
    {
        self.companion_pending = Pending::Nothing;
        let start_ms: i64 = match &self.session {
            Some(session) => session.start_ms,
            None => {
                return (None, None);
            },
        };
        match (self.official_session.take(), self.ipc_official.take()) {
            (Some(mirror), Some(client)) => {
                let mut mirror = mirror;
                let mut client = client;
                mirror.silence_cleared = false;
                let details: &str = match card.get("details") {
                    Some(json) => match json.as_str() {
                        Some(details) => details,
                        None => GAME_NAME,
                    },
                    None => GAME_NAME,
                };
                let state: &str = match card.get("state") {
                    Some(json) => match json.as_str() {
                        Some(state) => state,
                        None => "",
                    },
                    None => "",
                };
                proof {
                    reveal_strlit("");
                    assert(""@ =~= Seq::<char>::empty());
                }
                let shown = official_activity(
                    start_ms,
                    details,
                    state,
                    opt_borrow(&self.settings.portrait),
                );
                let body = shown.render();
                if !should_resend(
                    opt_borrow(&mirror.last_body),
                    body.as_str(),
                    mirror.unchanged_streak,
                ) {
                    self.official_session = Some(mirror);
                    self.ipc_official = Some(client);
                    self.companion_pending = Pending::Skipped;
                    return (None, Some(Note::Unchanged(Slot::Companion)));
                }
                let frame = client.set_activity(self.settings.own_pid, shown);
                self.official_session = Some(mirror);
                self.ipc_official = Some(client);
                if frame.is_some() {
                    self.companion_pending = Pending::Sent(body);
                    (frame, None)
                } else {
                    (None, Some(Note::ConnectionLost(Slot::Companion)))
                }
            },
            (mirror, client) => {
                self.official_session = mirror;
                self.ipc_official = client;
                (None, None)
            },
        }
    }

    fn offer_primary(&mut self, card: Json) -> (r: (Option<Vec<u8>>, Option<Note>))
        requires
            old(self)@.session is Some,
        ensures
            ({
                let session = old(self)@.session->Some_0;
                &&& final(self)@ == old(self)@.primary(session, card@).0
                &&& opt_bytes(r.0) == old(self)@.primary(session, card@).1
                &&& old(self)@.primary(session, card@).2 == match r.1 {
                    Some(note) => seq![note],
                    None => Seq::empty(),
                }
            }),
    {
        let body = card.render();
        let (pid, resend): (u64, bool) = match &self.session {
            Some(session) => (
                session.pid,
                should_resend(
                    opt_borrow(&session.last_body),
                    body.as_str(),
                    session.unchanged_streak,
                ),
            ),
            None => (0, false),
        };
        if resend {
            let frame = self.ipc.set_activity(pid, card);
            self.primary_pending = Pending::Sent(body);
            (frame, None)
        } else {
            self.primary_pending = Pending::Skipped;
            (None, Some(Note::Unchanged(Slot::Primary)))
        }
    }

    fn offer(&mut self, card: Json) -> (r: (Act, Vec<Note>))
        requires
            old(self)@.session is Some,
        ensures
            ({
                let turn = old(self)@.offered(
                    old(self)@.session->Some_0,
                    card@,
                    Seq::empty(),
                );
                &&& final(self)@ == turn.after
                &&& r.0@ == turn.act
                &&& r.1@ == turn.notes
            }),
    {
        match self.session.take() {
            Some(session) => {
                let mut session = session;
                session.silence_cleared = false;
                self.session = Some(session);
            },
            None => {},
        }
        let mut notes: Vec<Note> = Vec::new();
        let (companion, first) = self.offer_companion(&card);
        if let Some(note) = first {
            notes.push(note);
        }
        let (primary, second) = self.offer_primary(card);
        if let Some(note) = second {
            notes.push(note);
        }
        (Act::Publish { primary, companion }, notes)
    }

    fn decide(&self, info: Option<&PlayerInfo>, live: LiveContext<'_>) -> (r: Publish)
        requires
            self@.session is Some,
        ensures
            r@ == self@.decides(
                self@.session->Some_0,
                opt_player(info),
                live.uid_known,
                opt_str(live.display_name),
                opt_str(live.version),
            ),
    {
        let start_ms: i64 = match &self.session {
            Some(session) => session.start_ms,
            None => 0,
        };
        let character: Option<&Character> = match &self.settings.character {
            Some(character) => Some(character),
            None => None,
        };
        decide_publish(
            info,
            self.settings.static_text,
            start_ms,
            opt_borrow(&self.settings.player_name),
            character,
            live,
        )
    }

    fn announce(&mut self, tier: Tier) -> (r: Option<Note>)
        requires
            old(self)@.session is Some,
        ensures
            final(self)@ == old(self)@.announced(tier),
            r == if old(self)@.session->Some_0.tier == Some(tier) {
                None
            } else {
                Some(Note::TierChanged(old(self)@.session->Some_0.tier, tier))
            },
    {
        match self.session.take() {
            Some(session) => {
                let mut session = session;
                let before: Option<Tier> = session.last_tier;
                session.last_tier = Some(tier);
                self.session = Some(session);
                let same_tier: bool = match (before, tier) {
                    (Some(Tier::Rich), Tier::Rich) => true,
                    (Some(Tier::NamedStatic), Tier::NamedStatic) => true,
                    (Some(Tier::Static), Tier::Static) => true,
                    (Some(Tier::Silent), Tier::Silent) => true,
                    _ => false,
                };
                if same_tier {
                    None
                } else {
                    Some(Note::TierChanged(before, tier))
                }
            },
            None => None,
        }
    }

    /// Told what the data are and what else is known of the session, and what
    /// the clock shows, in milliseconds since the epoch.
    pub fn refreshed(
        &mut self,
        info: Option<&PlayerInfo>,
        live: LiveContext<'_>,
        now_ms: i64,
    ) -> (r: (Act, Vec<Note>))
        ensures
            ({
                let turn = old(self)@.refreshed(
                    opt_player(info),
                    live.uid_known,
                    opt_str(live.display_name),
                    opt_str(live.version),
                    now_ms,
                );
                &&& final(self)@ == turn.after
                &&& r.0@ == turn.act
                &&& r.1@ == turn.notes
            }),
    {
        let mut notes: Vec<Note> = Vec::new();
        if self.session.is_none() {
            return (Act::Sleep, notes);
        }
        let uid: Option<&str> = match info {
            Some(info) => Some(info.uid.as_str()),
            None => None,
        };
        if self.settle(uid, now_ms) {
            notes.push(Note::AccountSwitched);
        }
        let publish = self.decide(info, live);
        if let Some(note) = self.announce(tier_of(&publish)) {
            notes.push(note);
        }
        match publish.into_activity() {
            Some(card) => {
                let (act, more) = self.offer(card);
                let mut more = more;
                notes.append(&mut more);
                (act, notes)
            },
            None => {
                let (act, cleared) = self.silence();
                if cleared {
                    notes.push(Note::LeftToDetection);
                }
                (act, notes)
            },
        }
    }

    fn companion_done(&mut self, written: bool, now: u128) -> (r: Option<Note>)
        ensures
            final(self)@ == old(self)@.companion_done(written, now).0,
            old(self)@.companion_done(written, now).1 == match r {
                Some(note) => seq![note],
                None => Seq::empty(),
            },
    {
        let mut pending = Pending::Nothing;
        std::mem::swap(&mut pending, &mut self.companion_pending);
        match (pending, self.official_session.take()) {
            (Pending::Sent(body), Some(mirror)) => {
                let mut mirror = mirror;
                if written {
                    mirror.sent(body, now);
                    self.official_session = Some(mirror);
                    Some(Note::Sent(Slot::Companion))
                } else {
                    self.official_session = Some(mirror);
                    match self.ipc_official.take() {
                        Some(client) => {
                            let mut client = client;
                            client.close();
                            self.ipc_official = Some(client);
                        },
                        None => {},
                    }
                    Some(Note::ConnectionLost(Slot::Companion))
                }
            },
            (Pending::Skipped, Some(mirror)) => {
                let mut mirror = mirror;
                mirror.skipped(now);
                self.official_session = Some(mirror);
                None
            },
            (_, mirror) => {
                self.official_session = mirror;
                None
            },
        }
    }

    fn primary_done(&mut self, written: bool, now: u128) -> (r: Option<Note>)
        ensures
            final(self)@ == old(self)@.primary_done(written, now).0,
            old(self)@.primary_done(written, now).1 == match r {
                Some(note) => seq![note],
                None => Seq::empty(),
            },
    {
        let mut pending = Pending::Nothing;
        std::mem::swap(&mut pending, &mut self.primary_pending);
        match (pending, self.session.take()) {
            (Pending::Sent(body), Some(session)) => {
                let mut session = session;
                if written {
                    session.sent(body, now);
                    self.session = Some(session);
                    Some(Note::Sent(Slot::Primary))
                } else {
                    self.session = Some(session);
                    self.ipc.close();
                    Some(Note::ConnectionLost(Slot::Primary))
                }
            },
            (Pending::Skipped, Some(session)) => {
                let mut session = session;
                session.skipped(now);
                self.session = Some(session);
                None
            },
            (_, session) => {
                self.session = session;
                None
            },
        }
    }

    /// Told whether the frames of the two slots were written, at a time of a
    /// clock that never goes back.
    pub fn published(&mut self, companion: bool, primary: bool, now: u128) -> (r: (Act, Vec<Note>))
        ensures
            final(self)@ == old(self)@.published(companion, primary, now).after,
            r.0@ == old(self)@.published(companion, primary, now).act,
            r.1@ == old(self)@.published(companion, primary, now).notes,
    {
        let mut notes: Vec<Note> = Vec::new();
        if let Some(note) = self.companion_done(companion, now) {
            notes.push(note);
        }
        if let Some(note) = self.primary_done(primary, now) {
            notes.push(note);
        }
        (Act::Sleep, notes)
    }

    /// Told whether the frames that clear the slots were written.
    pub fn clear_written(&mut self, primary: bool, companion: bool)
        ensures
            final(self)@ == old(self)@.clear_told(primary, companion),
    {
        self.ipc.wrote(primary);
        match self.ipc_official.take() {
            Some(client) => {
                let mut client = client;
                client.wrote(companion);
                self.ipc_official = Some(client);
            },
            None => {},
        }
    }

    /// What the decision for these data is made from, for the log: shapes
    /// only, never values.
    pub fn inputs(&self, info: Option<&PlayerInfo>, live: LiveContext<'_>) -> (r: String)
        ensures
            r@ == inputs_text(
                info is Some,
                self@.settings.player_name is Some || live.display_name is Some || (
                opt_player(info) matches Some(info) && info.display_name is Some),
                live.uid_known,
                self@.settings.static_text,
                match self@.settings.character {
                    Some(character) => Some(character.key),
                    None => None,
                },
            ),
    {
        let found: bool = match info {
            Some(info) => info.display_name.is_some(),
            None => false,
        };
        let named: bool = self.settings.player_name.is_some() || live.display_name.is_some()
            || found;
        let character: Option<&str> = match &self.settings.character {
            Some(character) => Some(character.key),
            None => None,
        };
        tier_inputs(info.is_some(), named, live.uid_known, self.settings.static_text, character)
    }

    /// Told that the run ends.
    pub fn shut(&mut self) -> (r: Act)
        ensures
            final(self)@ == old(self)@.shut().after,
            r@ == old(self)@.shut().act,
    {
        match self.last_pid {
            Some(pid) => self.clear_both(pid),
            None => Act::Sleep,
        }
    }
}

/// A silent stretch clears the slots once: after a tick that has nothing to
/// show, another one does nothing.
pub proof fn silence_clears_once(
    service: ServiceView,
    session: SessionView,
    first: (bool, Option<Seq<char>>, Option<Seq<char>>, i64),
    second: (bool, Option<Seq<char>>, Option<Seq<char>>, i64),
)
    requires
        service.session == Some(session),
        service.decides(session, None, first.0, first.1, first.2) is Silent,
        service.decides(session, None, second.0, second.1, second.2) is Silent,
    ensures
        ({
            let quiet = service.refreshed(None, first.0, first.1, first.2, first.3).after;
            let again = quiet.refreshed(None, second.0, second.1, second.2, second.3);
            &&& again.act is Sleep
            &&& again.notes == Seq::<Note>::empty()
            &&& again.after == quiet
        }),
{
}

/// A tick that shows nothing leaves nothing of this program in the slots: the
/// first one of a silent stretch clears both that are in use.
pub proof fn silence_clears_both_slots(
    service: ServiceView,
    session: SessionView,
    known: (bool, Option<Seq<char>>, Option<Seq<char>>, i64),
)
    requires
        service.session == Some(session),
        service.decides(session, None, known.0, known.1, known.2) is Silent,
        !session.silence_cleared,
    ensures
        service.refreshed(None, known.0, known.1, known.2, known.3).act == (ActView::Clear {
            primary: service.primary.message(session.pid, Tree::Null),
            companion: match (service.official_session, service.official) {
                (Some(_), Some(official)) => official.message(
                    service.settings.own_pid,
                    Tree::Null,
                ),
                _ => None,
            },
        }),
{
}

/// Gaps never reset the clock: without data, or with data of the same account
/// or of the first one, the session keeps its start.
pub proof fn gaps_keep_the_clock(
    service: ServiceView,
    session: SessionView,
    info: Option<InfoView>,
    known: (bool, Option<Seq<char>>, Option<Seq<char>>, i64),
)
    requires
        service.session == Some(session),
        info matches Some(info) ==> session.uid is None || session.uid == Some(info.uid),
    ensures
        service.refreshed(info, known.0, known.1, known.2, known.3).after.session matches Some(
            after,
        ) && after.start_ms == session.start_ms && after.pid == session.pid,
{
}

/// Another account starts the clock over, in both slots, and its card is sent
/// at once.
pub proof fn switch_starts_over(
    service: ServiceView,
    session: SessionView,
    info: InfoView,
    known: (bool, Option<Seq<char>>, Option<Seq<char>>, i64),
)
    requires
        service.session == Some(session),
        switched(session.uid, Some(info.uid)),
    ensures
        ({
            let turn = service.refreshed(Some(info), known.0, known.1, known.2, known.3);
            &&& turn.after.session matches Some(after) && after.start_ms == known.3 && after.uid
                == Some(info.uid)
            &&& service.official_session is Some ==> (turn.after.official_session matches Some(
                mirror,
            ) && mirror.start_ms == known.3 && mirror.uid == Some(info.uid))
            &&& turn.notes.len() > 0 && turn.notes[0] == Note::AccountSwitched
            &&& turn.act matches ActView::Publish { primary, companion } && primary
                == service.primary.message(
                session.pid,
                crate::presence::rich_card(
                    known.3 as int,
                    info,
                    service.settings.player_name,
                    service.settings.character,
                ),
            )
        }),
{
}

/// The game under the same pid keeps its session; under another one, or after
/// none, it opens a new one.
pub proof fn sessions_follow_the_pid(service: ServiceView, pid: u64, now: u128)
    ensures
        ({
            let turn = service.scanned(Scan::Game(pid), now);
            &&& turn.after.session == service.session
            &&& (turn.act is Open <==> !(service.session matches Some(session) && session.pid
                == pid))
            &&& turn.act matches ActView::Open(opened) ==> opened == pid
        }),
        forall|start_ms: i64|
            (#[trigger] service.opened(pid, start_ms)).after.session == Some(
                SessionView::fresh(pid, start_ms),
            ),
{
}

/// Updates keep their distance: before the time between two of them has
/// passed, a scan that finds the same game leads to nothing.
pub proof fn updates_keep_their_distance(
    service: ServiceView,
    session: SessionView,
    at: u128,
    now: u128,
)
    requires
        service.session == Some(session),
        session.last_send == Some(at),
        at <= now,
        now - at < service.settings.every,
    ensures
        service.scanned(Scan::Game(session.pid), now).act is Sleep,
{
}

/// A card that was sent already is skipped until the heartbeat is due, and
/// then sent; a skipped tick brings that nearer by one.
pub proof fn same_card_waits_for_the_heartbeat(
    service: ServiceView,
    session: SessionView,
    card: Tree,
    now: u128,
)
    requires
        session.last_body == Some(rendered(card)),
    ensures
        ({
            let (after, frame, _) = service.primary(session, card);
            &&& session.streak < crate::presence::HEARTBEAT_EVERY_TICKS ==> frame is None
                && after.primary_pending is Skipped
            &&& session.streak >= crate::presence::HEARTBEAT_EVERY_TICKS ==> frame
                == service.primary.message(session.pid, card)
            &&& session.streak < crate::presence::HEARTBEAT_EVERY_TICKS ==> session.skipped(
                now,
            ).streak == session.streak + 1
        }),
{
}

/// What was written counts as sent: the same card is not sent again on the
/// next tick. What was not written does not: it is sent again, over a new
/// connection.
pub proof fn only_written_cards_count(
    service: ServiceView,
    session: SessionView,
    body: Seq<char>,
    companion: bool,
    now: u128,
)
    requires
        service.session == Some(session),
        service.primary_pending == PendingView::Sent(body),
    ensures
        service.published(companion, true, now).after.session == Some(session.sent(body, now)),
        !resent(session.sent(body, now).last_body, body, session.sent(body, now).streak as nat),
        service.published(companion, false, now).after.session == Some(session),
        !service.published(companion, false, now).after.primary.connected,
{
}

/// The companion never stands in the way of the primary slot: whether it can
/// be connected or written to, the primary goes on just the same.
pub proof fn companion_never_blocks(
    service: ServiceView,
    connected: bool,
    written: bool,
    primary: bool,
    now: u128,
)
    ensures
        service.joined(Slot::Companion, connected).act is Refresh,
        service.published(written, primary, now).after.session == service.published(
            !written,
            primary,
            now,
        ).after.session,
        service.published(written, primary, now).after.primary == service.published(
            !written,
            primary,
            now,
        ).after.primary,
{
}

/// The companion tells the same story as the card it goes with: the same
/// details, and the same state where there is one.
pub proof fn companion_mirrors_the_card(
    details: Seq<char>,
    state: Option<Seq<char>>,
    assets: Option<Tree>,
    start_ms: int,
    portrait: Option<Seq<char>>,
)
    requires
        state matches Some(state) ==> state.len() > 0,
    ensures
        ({
            let card = crate::presence::card(details, state, assets, start_ms);
            let companion = official_card(
                start_ms,
                details_of(card),
                state_of(card),
                portrait,
            );
            &&& companion.member("details"@) == card.member("details"@)
            &&& companion.member("state"@) == card.member("state"@)
            &&& companion.member("timestamps"@) == card.member("timestamps"@)
        }),
{
    crate::presence::card_says(details, state, assets, start_ms);
    let card = crate::presence::card(details, state, assets, start_ms);
    let pictures = match portrait {
        Some(portrait) => Some(
            Tree::Object(
                crate::json::object_of(seq![("large_image"@, Tree::Text(portrait))]),
            ),
        ),
        None => None,
    };
    let shown = if state_of(card).len() > 0 {
        Some(state_of(card))
    } else {
        None
    };
    assert(shown == state);
    crate::presence::card_says(details_of(card), shown, pictures, start_ms);
    crate::presence::cards_share_the_start(details, state, assets, pictures, start_ms);
}

/// The companion goes under this program's own pid, never under the game's.
pub proof fn companion_has_its_own_pid(service: ServiceView, card: Tree, pid: u64)
    ensures
        service.companion(card).1 matches Some(frame) ==> (service.official matches Some(official)
            && exists|shown: Tree| #[trigger]
            official.message(service.settings.own_pid, shown) == Some(frame)),
        service.clearing(pid) matches ActView::Clear { primary, companion } && (companion
            matches Some(frame) ==> (service.official matches Some(official)
            && official.message(service.settings.own_pid, Tree::Null) == Some(frame))),
{
}

/// When the game is gone, its session ends, both slots are cleared and their
/// connections given up.
pub proof fn closed_game_ends_the_session(
    service: ServiceView,
    session: SessionView,
    pid: u64,
    now: u128,
)
    requires
        service.session == Some(session),
        service.last_pid == Some(pid),
    ensures
        ({
            let turn = service.scanned(Scan::NoGame, now);
            &&& turn.act == service.clearing(pid)
            &&& turn.after.session is None
            &&& turn.after.official_session is None
            &&& !turn.after.primary.connected
            &&& turn.after.official matches Some(official) ==> !official.connected
        }),
{
}

/// A slot is connected until it is closed or a write fails: where the frame
/// that clears it was not written, it is connected anew on a later tick.
pub proof fn failed_clears_disconnect(service: ServiceView, primary: bool, companion: bool)
    ensures
        ({
            let after = service.clear_told(primary, companion);
            &&& after.primary.connected == (service.primary.connected && primary)
            &&& after.official matches Some(official) ==> official.connected == (
            service.official->Some_0.connected && companion)
            &&& !primary ==> after.joining(Seq::empty()).act == ActView::Connect(Slot::Primary)
            &&& after.session == service.session
            &&& after.official_session == service.official_session
        }),
{
}

/// That the game is waited for is told once.
pub proof fn waiting_is_told_once(service: ServiceView, now: u128)
    requires
        service.session is None,
    ensures
        service.scanned(Scan::NoGame, now).after.scanned(Scan::NoGame, now).notes == Seq::<
            Note,
        >::empty(),
{
}

/// That a slot cannot be connected is told once, until it can.
pub proof fn missing_connection_is_told_once(service: ServiceView, slot: Slot)
    ensures
        service.joined(slot, false).after.joined(slot, false).notes == Seq::<Note>::empty(),
{
}

/// The end of a run clears the slots once a game was seen.
pub proof fn shutting_down_clears(service: ServiceView, pid: u64)
    requires
        service.last_pid == Some(pid),
    ensures
        service.shut().act == service.clearing(pid),
{
}

/// What a call does is one turn, from what the service knew to what it knows:
/// the result is what is done and told, on exactly what it was told.
pub proof fn calls_are_turns(
    scan: Scan,
    slot: Slot,
    pid: u64,
    started: Option<i64>,
    flags: (bool, bool),
    now: u128,
    now_ms: i64,
    act: Act,
    r: (Act, Vec<Note>),
)
    ensures
        forall|service: &mut Service| #[trigger]
            call_ensures(Service::scan, (service, scan, now), r) ==> ({
                let turn = (*service)@.scanned(scan, now);
                (*final(service))@ == turn.after && r.0@ == turn.act && r.1@ == turn.notes
            }),
        forall|service: &mut Service| #[trigger]
            call_ensures(Service::open, (service, pid, started, now_ms), act) ==> ({
                let turn = (*service)@.opened(
                    pid,
                    if started is Some {
                        started->Some_0
                    } else {
                        now_ms
                    },
                );
                (*final(service))@ == turn.after && act@ == turn.act
            }),
        forall|service: &mut Service| #[trigger]
            call_ensures(Service::join, (service, slot, flags.0), r) ==> ({
                let turn = (*service)@.joined(slot, flags.0);
                (*final(service))@ == turn.after && r.0@ == turn.act && r.1@ == turn.notes
            }),
        forall|service: &mut Service| #[trigger]
            call_ensures(Service::published, (service, flags.0, flags.1, now), r) ==> ({
                let turn = (*service)@.published(flags.0, flags.1, now);
                (*final(service))@ == turn.after && r.0@ == turn.act && r.1@ == turn.notes
            }),
        forall|service: &mut Service| #[trigger]
            call_ensures(Service::clear_written, (service, flags.0, flags.1), ()) ==> (
            *final(service))@ == (*service)@.clear_told(flags.0, flags.1),
        forall|service: &mut Service| #[trigger]
            call_ensures(Service::shut, (service,), act) ==> ({
                let turn = (*service)@.shut();
                (*final(service))@ == turn.after && act@ == turn.act
            }),
{
}

/// A refresh that is called is one turn on exactly the data and the context
/// that it was given.
pub proof fn refreshes_are_turns(
    info: Option<&PlayerInfo>,
    live: LiveContext<'_>,
    now_ms: i64,
    r: (Act, Vec<Note>),
)
    ensures
        forall|service: &mut Service| #[trigger]
            call_ensures(Service::refreshed, (service, info, live, now_ms), r) ==> ({
                let turn = (*service)@.refreshed(
                    match info {
                        Some(info) => Some(info@),
                        None => None,
                    },
                    live.uid_known,
                    match live.display_name {
                        Some(name) => Some(name@),
                        None => None,
                    },
                    match live.version {
                        Some(version) => Some(version@),
                        None => None,
                    },
                    now_ms,
                );
                (*final(service))@ == turn.after && r.0@ == turn.act && r.1@ == turn.notes
            }),
{
}

/// What is done, as data, is what is done: the same step with the same frames.
pub proof fn acts_keep_their_frames(act: Act)
    ensures
        match act {
            Act::Sleep => act@ is Sleep,
            Act::Open(pid) => act@ == ActView::Open(pid),
            Act::Connect(slot) => act@ == ActView::Connect(slot),
            Act::Refresh => act@ is Refresh,
            Act::Clear { primary, companion } => act@ matches ActView::Clear {
                primary: p,
                companion: c,
            } && (p is Some <==> primary is Some) && (c is Some <==> companion is Some) && (
            primary matches Some(frame) ==> p == Some(frame@)) && (companion matches Some(frame)
                ==> c == Some(frame@)),
            Act::Publish { primary, companion } => act@ matches ActView::Publish {
                primary: p,
                companion: c,
            } && (p is Some <==> primary is Some) && (c is Some <==> companion is Some) && (
            primary matches Some(frame) ==> p == Some(frame@)) && (companion matches Some(frame)
                ==> c == Some(frame@)),
        },
{
}

impl SessionView {
    /// Whether data belong to another account than the session's.
    pub open spec fn left_by(self, info: Option<InfoView>) -> bool {
        self.uid is Some && info is Some && info->Some_0.uid != self.uid->Some_0
    }
}

/// What a tick with a card has settled before it offers the card.
#[verifier::rlimit(30)]
proof fn ticks_settle(
    service: ServiceView,
    session: SessionView,
    info: Option<InfoView>,
    known: (bool, Option<Seq<char>>, Option<Seq<char>>),
    now_ms: i64,
    start_ms: i64,
    card: Tree,
) -> (told: (ServiceView, Seq<Note>))
    requires
        service.session == Some(session),
        start_ms == if session.left_by(info) {
            now_ms
        } else {
            session.start_ms
        },
        decision(
            info,
            service.settings.static_text,
            start_ms as int,
            service.settings.player_name,
            service.settings.character,
            known.0,
            known.1,
            known.2,
        ).card() == Some(card),
    ensures
        ({
            let moved = session.left_by(info);
            let tier = decision(
                info,
                service.settings.static_text,
                start_ms as int,
                service.settings.player_name,
                service.settings.character,
                known.0,
                known.1,
                known.2,
            ).tier();
            &&& service.refreshed(info, known.0, known.1, known.2, now_ms) == told.0.offered(
                told.0.session->Some_0,
                card,
                told.1,
            )
            &&& told.0 == (ServiceView {
                session: Some(
                    SessionView {
                        pid: session.pid,
                        start_ms,
                        uid: if info is Some {
                            Some(info->Some_0.uid)
                        } else {
                            session.uid
                        },
                        last_body: if moved {
                            None
                        } else {
                            session.last_body
                        },
                        streak: if moved {
                            0
                        } else {
                            session.streak
                        },
                        last_send: if moved {
                            None
                        } else {
                            session.last_send
                        },
                        silence_cleared: if moved {
                            false
                        } else {
                            session.silence_cleared
                        },
                        tier: Some(tier),
                    },
                ),
                official_session: match service.official_session {
                    Some(mirror) => Some(
                        if moved {
                            SessionView {
                                pid: mirror.pid,
                                start_ms: now_ms,
                                uid: Some(info->Some_0.uid),
                                last_body: None,
                                streak: 0,
                                last_send: None,
                                silence_cleared: false,
                                tier: mirror.tier,
                            }
                        } else {
                            mirror
                        },
                    ),
                    None => None,
                },
                ..service
            })
            &&& told.1 == (if moved {
                seq![Note::AccountSwitched]
            } else {
                Seq::empty()
            }) + (if session.tier == Some(tier) {
                Seq::empty()
            } else {
                seq![Note::TierChanged(session.tier, tier)]
            })
        }),
{
    let uid = match info {
        Some(info) => Some(info.uid),
        None => None,
    };
    let here = service.settled(uid, now_ms);
    let settled = here.session->Some_0;
    let publish = here.decides(settled, info, known.0, known.1, known.2);
    let first = if switched(session.uid, uid) {
        seq![Note::AccountSwitched]
    } else {
        Seq::empty()
    };
    let change = Note::TierChanged(session.tier, publish.tier());
    let notes = if settled.tier == Some(publish.tier()) {
        first
    } else {
        first.push(change)
    };
    assert(first.push(change) =~= first + seq![change]);
    assert(first + Seq::<Note>::empty() =~= first);
    (here.announced(publish.tier()), notes)
}

/// What comes of a card that is offered to both slots.
#[verifier::rlimit(30)]
proof fn cards_are_offered(
    told: ServiceView,
    session: SessionView,
    card: Tree,
    notes: Seq<Note>,
    details: Seq<char>,
    state: Seq<char>,
)
    requires
        card.has("details"@, Tree::Text(details)),
        if state.len() > 0 {
            card.has("state"@, Tree::Text(state))
        } else {
            card.member("state"@) is None
        },
    ensures
        ({
            let shown = official_card(
                session.start_ms as int,
                details,
                state,
                told.settings.portrait,
            );
            let turn = told.offered(session, card, notes);
            let spared = session.last_body == Some(rendered(card)) && session.streak < 12;
            let awake = SessionView { silence_cleared: false, ..session };
            &&& turn.after.session == Some(awake)
            &&& turn.after.primary_pending == if spared {
                PendingView::Skipped
            } else {
                PendingView::Sent(rendered(card))
            }
            &&& turn.after.primary == (ClientView {
                nonce: if spared {
                    told.primary.nonce
                } else {
                    told.primary.next_nonce()
                },
                ..told.primary
            })
            &&& turn.act is Publish
            &&& turn.act->Publish_primary == if spared {
                None
            } else {
                told.primary.message(session.pid, card)
            }
            &&& match (told.official_session, told.official) {
                (Some(mirror), Some(official)) => {
                    let mirror_spared = mirror.last_body == Some(rendered(shown)) && mirror.streak
                        < 12;
                    &&& turn.act->Publish_companion == if mirror_spared {
                        None
                    } else {
                        official.message(told.settings.own_pid, shown)
                    }
                    &&& turn.after.companion_pending == if mirror_spared {
                        PendingView::Skipped
                    } else if official.connected {
                        PendingView::Sent(rendered(shown))
                    } else {
                        PendingView::Nothing
                    }
                    &&& turn.after.official_session == Some(
                        SessionView { silence_cleared: false, ..mirror },
                    )
                    &&& turn.after.official == Some(
                        ClientView {
                            client_id: official.client_id,
                            connected: official.connected,
                            nonce: if mirror_spared {
                                official.nonce
                            } else {
                                official.next_nonce()
                            },
                        },
                    )
                    &&& turn.notes == notes + ((if mirror_spared {
                        seq![Note::Unchanged(Slot::Companion)]
                    } else if official.connected {
                        Seq::empty()
                    } else {
                        seq![Note::ConnectionLost(Slot::Companion)]
                    }) + (if spared {
                        seq![Note::Unchanged(Slot::Primary)]
                    } else {
                        Seq::empty()
                    }))
                },
                _ => {
                    &&& turn.act->Publish_companion is None
                    &&& turn.after.companion_pending is Nothing
                    &&& turn.notes == notes + (Seq::<Note>::empty() + (if spared {
                        seq![Note::Unchanged(Slot::Primary)]
                    } else {
                        Seq::empty()
                    }))
                },
            }
        }),
{
    assert(details_of(card) == details);
    if state.len() == 0 {
        assert(state =~= Seq::<char>::empty());
    }
    assert(state_of(card) == state);
}

/// A tick with a card offers it to both slots: to the primary under the game's
/// pid, and to the companion, with the same details and state and with the
/// portrait, under this program's own. Each slot is spared the card it was
/// sent last, for at most twelve ticks, unless the account moved on.
#[verifier::rlimit(40)]
pub proof fn ticks_offer_their_card(
    service: ServiceView,
    session: SessionView,
    info: Option<InfoView>,
    known: (bool, Option<Seq<char>>, Option<Seq<char>>),
    now_ms: i64,
    start_ms: i64,
    card: Tree,
    details: Seq<char>,
    state: Seq<char>,
    shown: Tree,
)
    requires
        service.session == Some(session),
        start_ms == if session.left_by(info) {
            now_ms
        } else {
            session.start_ms
        },
        decision(
            info,
            service.settings.static_text,
            start_ms as int,
            service.settings.player_name,
            service.settings.character,
            known.0,
            known.1,
            known.2,
        ).card() == Some(card),
        card.has("details"@, Tree::Text(details)),
        if state.len() > 0 {
            card.has("state"@, Tree::Text(state))
        } else {
            card.member("state"@) is None
        },
        shown is Object,
        ({
            let base =
                map![
                "details"@ => Tree::Text(details),
                "timestamps"@ => Tree::Object(
                    map!["start"@ => Tree::Number(crate::text::decimal_int(start_ms as int))],
                ),
                "instance"@ => Tree::Bool(false),
            ];
            let stated = if state.len() > 0 {
                base.insert("state"@, Tree::Text(state))
            } else {
                base
            };
            shown->Object_0 == match service.settings.portrait {
                Some(portrait) => stated.insert(
                    "assets"@,
                    Tree::Object(map!["large_image"@ => Tree::Text(portrait)]),
                ),
                None => stated,
            }
        }),
    ensures
        ({
            let turn = service.refreshed(info, known.0, known.1, known.2, now_ms);
            let moved = session.left_by(info);
            let spared = !moved && session.last_body == Some(rendered(card)) && session.streak < 12;
            &&& turn.act matches ActView::Publish { primary, companion } && primary == (if spared {
                None
            } else {
                service.primary.message(session.pid, card)
            }) && companion == match (service.official_session, service.official) {
                (Some(mirror), Some(official)) => if !moved && mirror.last_body == Some(
                    rendered(shown),
                ) && mirror.streak < 12 {
                    None
                } else {
                    official.message(service.settings.own_pid, shown)
                },
                _ => None,
            }
            &&& turn.after.primary_pending == if spared {
                PendingView::Skipped
            } else {
                PendingView::Sent(rendered(card))
            }
            &&& turn.after.companion_pending == match (service.official_session, service.official) {
                (Some(mirror), Some(official)) => if !moved && mirror.last_body == Some(
                    rendered(shown),
                ) && mirror.streak < 12 {
                    PendingView::Skipped
                } else if official.connected {
                    PendingView::Sent(rendered(shown))
                } else {
                    PendingView::Nothing
                },
                _ => PendingView::Nothing,
            }
            &&& turn.after.session matches Some(after) && after == (SessionView {
                pid: session.pid,
                start_ms,
                uid: if info is Some {
                    Some(info->Some_0.uid)
                } else {
                    session.uid
                },
                last_body: if moved {
                    None
                } else {
                    session.last_body
                },
                streak: if moved {
                    0
                } else {
                    session.streak
                },
                last_send: if moved {
                    None
                } else {
                    session.last_send
                },
                silence_cleared: false,
                tier: after.tier,
            })
        }),
{
    let told = ticks_settle(service, session, info, known, now_ms, start_ms, card);
    crate::presence::companion_members(
        start_ms as int,
        details,
        state,
        service.settings.portrait,
    );
    assert(official_card(start_ms as int, details, state, service.settings.portrait) == shown);
    cards_are_offered(told.0, told.0.session->Some_0, card, told.1, details, state);
}

/// What a tick with a card leaves behind: each client has counted the messages
/// that it made, the companion's session starts over with the account, and it
/// is told which slots were spared and that a connection is missing.
#[verifier::rlimit(40)]
pub proof fn ticks_are_told_and_counted(
    service: ServiceView,
    session: SessionView,
    info: Option<InfoView>,
    known: (bool, Option<Seq<char>>, Option<Seq<char>>),
    now_ms: i64,
    start_ms: i64,
    card: Tree,
    details: Seq<char>,
    state: Seq<char>,
    shown: Tree,
)
    requires
        service.session == Some(session),
        start_ms == if session.left_by(info) {
            now_ms
        } else {
            session.start_ms
        },
        decision(
            info,
            service.settings.static_text,
            start_ms as int,
            service.settings.player_name,
            service.settings.character,
            known.0,
            known.1,
            known.2,
        ).card() == Some(card),
        card.has("details"@, Tree::Text(details)),
        if state.len() > 0 {
            card.has("state"@, Tree::Text(state))
        } else {
            card.member("state"@) is None
        },
        shown is Object,
        ({
            let base =
                map![
                "details"@ => Tree::Text(details),
                "timestamps"@ => Tree::Object(
                    map!["start"@ => Tree::Number(crate::text::decimal_int(start_ms as int))],
                ),
                "instance"@ => Tree::Bool(false),
            ];
            let stated = if state.len() > 0 {
                base.insert("state"@, Tree::Text(state))
            } else {
                base
            };
            shown->Object_0 == match service.settings.portrait {
                Some(portrait) => stated.insert(
                    "assets"@,
                    Tree::Object(map!["large_image"@ => Tree::Text(portrait)]),
                ),
                None => stated,
            }
        }),
    ensures
        ({
            let turn = service.refreshed(info, known.0, known.1, known.2, now_ms);
            let moved = session.left_by(info);
            let spared = !moved && session.last_body == Some(rendered(card)) && session.streak < 12;
            &&& turn.after.primary.nonce == if spared {
                service.primary.nonce
            } else {
                service.primary.next_nonce()
            }
            &&& service.official_session is Some && service.official is Some ==> ({
                let mirror = service.official_session->Some_0;
                let official = service.official->Some_0;
                let mirror_spared = !moved && mirror.last_body == Some(rendered(shown))
                    && mirror.streak < 12;
                &&& turn.after.official_session == Some(
                    SessionView {
                        pid: mirror.pid,
                        start_ms: if moved {
                            now_ms
                        } else {
                            mirror.start_ms
                        },
                        uid: if moved {
                            Some(info->Some_0.uid)
                        } else {
                            mirror.uid
                        },
                        last_body: if moved {
                            None
                        } else {
                            mirror.last_body
                        },
                        streak: if moved {
                            0
                        } else {
                            mirror.streak
                        },
                        last_send: if moved {
                            None
                        } else {
                            mirror.last_send
                        },
                        silence_cleared: false,
                        tier: mirror.tier,
                    },
                )
                &&& turn.after.official == Some(
                    ClientView {
                        client_id: official.client_id,
                        connected: official.connected,
                        nonce: if mirror_spared {
                            official.nonce
                        } else {
                            official.next_nonce()
                        },
                    },
                )
            })
            &&& turn.after.session matches Some(after) && after.tier matches Some(tier) && turn.notes
                == (if moved {
                seq![Note::AccountSwitched]
            } else {
                Seq::empty()
            }) + (if session.tier == Some(tier) {
                Seq::empty()
            } else {
                seq![Note::TierChanged(session.tier, tier)]
            }) + (match (service.official_session, service.official) {
                (Some(mirror), Some(official)) => if !moved && mirror.last_body == Some(
                    rendered(shown),
                ) && mirror.streak < 12 {
                    seq![Note::Unchanged(Slot::Companion)]
                } else if official.connected {
                    Seq::empty()
                } else {
                    seq![Note::ConnectionLost(Slot::Companion)]
                },
                _ => Seq::empty(),
            } + if spared {
                seq![Note::Unchanged(Slot::Primary)]
            } else {
                Seq::empty()
            })
        }),
{
    let told = ticks_settle(service, session, info, known, now_ms, start_ms, card);
    crate::presence::companion_members(
        start_ms as int,
        details,
        state,
        service.settings.portrait,
    );
    assert(official_card(start_ms as int, details, state, service.settings.portrait) == shown);
    cards_are_offered(told.0, told.0.session->Some_0, card, told.1, details, state);
}

/// The parts of a decided card.
proof fn decided_card(
    info: Option<InfoView>,
    static_text: bool,
    start_ms: int,
    player_name: Option<Seq<char>>,
    character: Option<CharacterView>,
    known: (bool, Option<Seq<char>>, Option<Seq<char>>),
    card: Tree,
) -> (parts: (Seq<char>, Seq<char>))
    requires
        decision(
            info,
            static_text,
            start_ms,
            player_name,
            character,
            known.0,
            known.1,
            known.2,
        ).card() == Some(card),
    ensures
        card.has("details"@, Tree::Text(parts.0)),
        if parts.1.len() > 0 {
            card.has("state"@, Tree::Text(parts.1))
        } else {
            card.member("state"@) is None
        },
        card.member("timestamps"@) == Some(
            Tree::Object(map!["start"@ => Tree::Number(crate::text::decimal_int(start_ms))]),
        ),
        player_name is Some && (info is Some || known.0) ==> parts.0 == player_name->Some_0,
{
    let chosen = decision(
        info,
        static_text,
        start_ms,
        player_name,
        character,
        known.0,
        known.1,
        known.2,
    );
    reveal_strlit("Lv. ");
    reveal_strlit("Exploring SOL-III");
    let (details, state, assets): (Seq<char>, Option<Seq<char>>, Tree) = match info {
        Some(info) => (
            match crate::presence::shown_name(info, player_name) {
                Some(name) => name,
                None => "Union Level "@ + info.union_level,
            },
            Some("Lv. "@ + info.union_level + " | Region: "@ + info.region),
            crate::presence::pictures(
                crate::presence::small_picture(
                    character,
                    crate::presence::info_bits(info.quests_done, info.game_version),
                ),
            ),
        ),
        None => if chosen is NamedStatic {
            (
                match player_name {
                    Some(name) => name,
                    None => known.1->Some_0,
                },
                Some(crate::presence::STATIC_TEXT@),
                crate::presence::pictures(
                    crate::presence::small_picture(
                        character,
                        crate::presence::info_bits(None, known.2),
                    ),
                ),
            )
        } else {
            (crate::presence::STATIC_TEXT@, None, crate::presence::pictures(None))
        },
    };
    assert(card == crate::presence::card(details, state, Some(assets), start_ms));
    crate::presence::card_says(details, state, Some(assets), start_ms);
    crate::presence::start_is_the_only_time(details, state, Some(assets), start_ms);
    (
        details,
        match state {
            Some(state) => state,
            None => Seq::empty(),
        },
    )
}

/// Where a tick sends a companion card, its frame holds a card whose only
/// picture is the portrait that was asked for, and that has no pictures where
/// none was; details, state and start are those of the tick's primary card.
#[verifier::rlimit(30)]
pub proof fn companions_wear_the_portrait(
    service: ServiceView,
    session: SessionView,
    info: Option<InfoView>,
    known: (bool, Option<Seq<char>>, Option<Seq<char>>),
    now_ms: i64,
    start_ms: i64,
    frame: Seq<u8>,
)
    requires
        service.session == Some(session),
        start_ms == if session.left_by(info) {
            now_ms
        } else {
            session.start_ms
        },
        service.refreshed(info, known.0, known.1, known.2, now_ms).act matches ActView::Publish {
            companion,
            ..
        } && companion == Some(frame),
    ensures
        service.official is Some,
        exists|card: Tree, shown: Tree|
            #![trigger rendered(card), service.official->Some_0.message(
                service.settings.own_pid,
                shown,
            )]
            {
                &&& decision(
                    info,
                    service.settings.static_text,
                    start_ms as int,
                    service.settings.player_name,
                    service.settings.character,
                    known.0,
                    known.1,
                    known.2,
                ).card() == Some(card)
                &&& service.official->Some_0.message(service.settings.own_pid, shown) == Some(frame)
                &&& shown.member("details"@) == card.member("details"@)
                &&& shown.member("state"@) == card.member("state"@)
                &&& shown.member("timestamps"@) == card.member("timestamps"@)
                &&& service.settings.portrait matches Some(portrait) ==> shown.has(
                    "assets"@,
                    Tree::Object(map!["large_image"@ => Tree::Text(portrait)]),
                )
                &&& service.settings.portrait is None ==> shown.member("assets"@) is None
            },
{
    let chosen = decision(
        info,
        service.settings.static_text,
        start_ms as int,
        service.settings.player_name,
        service.settings.character,
        known.0,
        known.1,
        known.2,
    );
    assert(chosen.card() is Some);
    let card = chosen.card()->Some_0;
    let (details, state) = decided_card(
        info,
        service.settings.static_text,
        start_ms as int,
        service.settings.player_name,
        service.settings.character,
        known,
        card,
    );
    let portrait = service.settings.portrait;
    let shown = official_card(start_ms as int, details, state, portrait);
    crate::presence::companion_members(start_ms as int, details, state, portrait);
    ticks_offer_their_card(
        service,
        session,
        info,
        known,
        now_ms,
        start_ms,
        card,
        details,
        state,
        shown,
    );
    reveal_strlit("details");
    reveal_strlit("timestamps");
    reveal_strlit("instance");
    reveal_strlit("state");
    reveal_strlit("assets");
    assert("details"@.len() == 7 && "timestamps"@.len() == 10 && "instance"@.len() == 8
        && "state"@.len() == 5 && "assets"@.len() == 6);
    assert(rendered(card) == rendered(card));
    assert(service.official->Some_0.message(service.settings.own_pid, shown) == Some(frame));
}

/// A name that was asked for is what a tick publishes, with data or for a known
/// login, whatever display name is known: the card it decides for has that
/// name as details, and it is this card that goes to the primary slot.
#[verifier::rlimit(30)]
pub proof fn asked_names_are_published(
    service: ServiceView,
    session: SessionView,
    name: Seq<char>,
    info: Option<InfoView>,
    known: (bool, Option<Seq<char>>, Option<Seq<char>>),
    now_ms: i64,
)
    requires
        service.session == Some(session),
        service.settings.player_name == Some(name),
        info is Some || known.0,
    ensures
        ({
            let turn = service.refreshed(info, known.0, known.1, known.2, now_ms);
            exists|card: Tree|
                #![trigger rendered(card)]
                {
                    &&& card.has("details"@, Tree::Text(name))
                    &&& turn.act matches ActView::Publish { primary, .. } && primary == (if !
                    session.left_by(info) && session.last_body == Some(rendered(card))
                        && session.streak < 12 {
                        None
                    } else {
                        service.primary.message(session.pid, card)
                    })
                    &&& turn.after.primary_pending is Skipped || turn.after.primary_pending
                        == PendingView::Sent(rendered(card))
                    &&& turn.after.session matches Some(after) && after.tier == Some(
                        if info is Some {
                            Tier::Rich
                        } else {
                            Tier::NamedStatic
                        },
                    )
                }
        }),
{
    let start_ms = if session.left_by(info) {
        now_ms
    } else {
        session.start_ms
    };
    let chosen = decision(
        info,
        service.settings.static_text,
        start_ms as int,
        service.settings.player_name,
        service.settings.character,
        known.0,
        known.1,
        known.2,
    );
    let card = chosen.card()->Some_0;
    let (details, state) = decided_card(
        info,
        service.settings.static_text,
        start_ms as int,
        service.settings.player_name,
        service.settings.character,
        known,
        card,
    );
    let portrait = service.settings.portrait;
    let shown = official_card(start_ms as int, details, state, portrait);
    crate::presence::companion_members(start_ms as int, details, state, portrait);
    ticks_offer_their_card(
        service,
        session,
        info,
        known,
        now_ms,
        start_ms,
        card,
        details,
        state,
        shown,
    );
    let turn = service.refreshed(info, known.0, known.1, known.2, now_ms);
    assert(turn.after.session->Some_0.tier == Some(chosen.tier()));
    assert(rendered(card) == rendered(card));
}

/// A tick without a card is silent: it clears each slot in use once for the
/// silent stretch, the primary under the game's pid and the companion under
/// this program's own, and changes nothing of what was sent.
pub proof fn silent_ticks_clear_the_slots(
    service: ServiceView,
    session: SessionView,
    known: (bool, Option<Seq<char>>, Option<Seq<char>>),
    now_ms: i64,
)
    requires
        service.session == Some(session),
        !service.settings.static_text,
        !known.0 || (service.settings.player_name is None && known.1 is None),
    ensures
        ({
            let turn = service.refreshed(None, known.0, known.1, known.2, now_ms);
            &&& session.silence_cleared ==> turn.act is Sleep && turn.after == (ServiceView {
                session: Some(SessionView { tier: Some(Tier::Silent), ..session }),
                ..service
            })
            &&& !session.silence_cleared ==> turn.act == (ActView::Clear {
                primary: service.primary.message(session.pid, Tree::Null),
                companion: if service.official_session is Some && service.official is Some {
                    service.official->Some_0.message(service.settings.own_pid, Tree::Null)
                } else {
                    None
                },
            }) && turn.notes.len() > 0 && turn.notes.last() == Note::LeftToDetection
            &&& turn.after.session == Some(
                SessionView { tier: Some(Tier::Silent), silence_cleared: true, ..session },
            )
            &&& !session.silence_cleared && service.official_session is Some
                ==> turn.after.official_session == Some(
                SessionView { silence_cleared: true, ..service.official_session->Some_0 },
            )
            &&& !session.silence_cleared ==> turn.after == (ServiceView {
                session: turn.after.session,
                official_session: turn.after.official_session,
                primary: ClientView {
                    client_id: service.primary.client_id,
                    connected: service.primary.connected,
                    nonce: service.primary.next_nonce(),
                },
                official: match service.official {
                    Some(official) => Some(
                        ClientView {
                            client_id: official.client_id,
                            connected: official.connected,
                            nonce: if service.official_session is Some {
                                official.next_nonce()
                            } else {
                                official.nonce
                            },
                        },
                    ),
                    None => None,
                },
                ..service
            })
            &&& service.official_session is None ==> turn.after.official_session is None
        }),
{
}

/// A change of tier is told with the tier before, and a tick that keeps its
/// tier tells nothing of it; a move to another account is told first.
pub proof fn changes_of_tier_are_told(
    service: ServiceView,
    session: SessionView,
    info: Option<InfoView>,
    known: (bool, Option<Seq<char>>, Option<Seq<char>>),
    now_ms: i64,
)
    requires
        service.session == Some(session),
    ensures
        ({
            let turn = service.refreshed(info, known.0, known.1, known.2, now_ms);
            let named = known.0 && (service.settings.player_name is Some || known.1 is Some);
            let tier = if info is Some {
                Tier::Rich
            } else if named {
                Tier::NamedStatic
            } else if service.settings.static_text {
                Tier::Static
            } else {
                Tier::Silent
            };
            let moved = session.left_by(info);
            let changed = session.tier != Some(tier);
            &&& turn.after.session matches Some(after) && after.tier == Some(tier)
            &&& moved ==> turn.notes.len() > 0 && turn.notes[0] == Note::AccountSwitched
            &&& changed && moved ==> turn.notes.len() > 1 && turn.notes[1] == Note::TierChanged(
                session.tier,
                tier,
            )
            &&& changed && !moved ==> turn.notes.len() > 0 && turn.notes[0] == Note::TierChanged(
                session.tier,
                tier,
            )
            &&& forall|i: int| 0 <= i < turn.notes.len() && (#[trigger] turn.notes[i]) is TierChanged
                ==> changed
            &&& forall|i: int|
                0 <= i < turn.notes.len() && (#[trigger] turn.notes[i]) is AccountSwitched ==> moved
        }),
{
}

/// A tick in a game without a session does nothing.
pub proof fn no_session_no_card(
    service: ServiceView,
    info: Option<InfoView>,
    known: (bool, Option<Seq<char>>, Option<Seq<char>>),
    now_ms: i64,
)
    requires
        service.session is None,
    ensures
        ({
            let turn = service.refreshed(info, known.0, known.1, known.2, now_ms);
            turn.after == service && turn.act is Sleep && turn.notes.len() == 0
        }),
{
}

/// What each scan leads to: a failed one to nothing; one that finds no pid to
/// a note; one that finds the session's game to an update, once the time
/// between two updates has passed since the last one; and one that finds
/// another to a session for it.
pub proof fn scans_lead_on(service: ServiceView, pid: u64, now: u128)
    ensures
        ({
            let failed = service.scanned(Scan::Failed, now);
            let unknown = service.scanned(Scan::NoPid, now);
            let found = service.scanned(Scan::Game(pid), now);
            let seen = ServiceView { told_game: false, last_pid: Some(pid), ..service };
            &&& failed.after == service && failed.act is Sleep && failed.notes.len() == 0
            &&& unknown.after == (ServiceView { told_game: false, ..service }) && unknown.act
                is Sleep && unknown.notes == seq![Note::NoPid]
            &&& service.session matches Some(session) ==> {
                &&& session.pid != pid ==> found.act == ActView::Open(pid) && found.notes
                    == seq![Note::Restarted(pid)] && found.after == (ServiceView {
                    told_primary: false,
                    ..seen
                })
                &&& session.pid == pid ==> found.after == seen && found.notes.len() == 0
                &&& session.pid == pid && (session.last_send is None || now
                    - session.last_send->Some_0 >= service.settings.every
                    || service.settings.every == 0) ==> found.act == if !service.primary.connected {
                    ActView::Connect(Slot::Primary)
                } else if service.official is Some && !service.official->Some_0.connected {
                    ActView::Connect(Slot::Companion)
                } else {
                    ActView::Refresh
                }
                &&& session.pid == pid && session.last_send is Some && now
                    - session.last_send->Some_0 < service.settings.every && service.settings.every
                    > 0 ==> found.act is Sleep
            }
            &&& service.session is None ==> found.act == ActView::Open(pid) && found.notes
                == seq![Note::Detected(pid)] && found.after == (ServiceView {
                told_primary: false,
                ..seen
            })
        }),
{
}

/// A scan that finds no game ends the session and gives up both connections,
/// after a frame that clears each slot; without a session it is told, once,
/// that the game is waited for.
pub proof fn missing_games_are_cleared(service: ServiceView, now: u128)
    ensures
        ({
            let turn = service.scanned(Scan::NoGame, now);
            &&& service.session is Some ==> {
                &&& turn.notes == seq![Note::GameClosed]
                &&& turn.after == (ServiceView {
                    session: None,
                    official_session: None,
                    primary: ClientView {
                        client_id: service.primary.client_id,
                        connected: false,
                        nonce: if service.last_pid is Some {
                            service.primary.next_nonce()
                        } else {
                            service.primary.nonce
                        },
                    },
                    official: match service.official {
                        Some(official) => Some(
                            ClientView {
                                client_id: official.client_id,
                                connected: false,
                                nonce: if service.last_pid is Some {
                                    official.next_nonce()
                                } else {
                                    official.nonce
                                },
                            },
                        ),
                        None => None,
                    },
                    ..service
                })
                &&& turn.act == (ActView::Clear {
                    primary: if service.last_pid is Some {
                        service.primary.message(service.last_pid->Some_0, Tree::Null)
                    } else {
                        None
                    },
                    companion: if service.last_pid is Some && service.official is Some {
                        service.official->Some_0.message(service.settings.own_pid, Tree::Null)
                    } else {
                        None
                    },
                })
            }
            &&& service.session is None ==> {
                &&& turn.act is Sleep
                &&& turn.after == (ServiceView { told_game: true, ..service })
                &&& service.told_game ==> turn.notes.len() == 0
                &&& !service.told_game ==> turn.notes == seq![Note::WaitingForGame]
            }
        }),
{
}

/// A session that opens has its game's pid and start in each slot in use, and
/// nothing was sent in it yet; what is not connected is connected first, the
/// primary slot before the companion.
pub proof fn sessions_open_fresh(service: ServiceView, pid: u64, start_ms: i64)
    ensures
        ({
            let turn = service.opened(pid, start_ms);
            let blank = SessionView {
                pid,
                start_ms,
                uid: None,
                last_body: None,
                streak: 0,
                last_send: None,
                silence_cleared: false,
                tier: None,
            };
            &&& turn.after == (ServiceView {
                session: Some(blank),
                official_session: if service.official is Some {
                    Some(blank)
                } else {
                    None
                },
                ..service
            })
            &&& turn.act == if !service.primary.connected {
                ActView::Connect(Slot::Primary)
            } else if service.official is Some && !service.official->Some_0.connected {
                ActView::Connect(Slot::Companion)
            } else {
                ActView::Refresh
            }
        }),
{
}

/// A session for a process starts when the process did, or now.
pub proof fn sessions_start_with_the_process(
    pid: u64,
    started: Option<i64>,
    now_ms: i64,
    r: Session,
)
    requires
        call_ensures(Session::new, (pid, started, now_ms), r),
    ensures
        r.pid == pid,
        started matches Some(started) ==> r.start_ms == started,
        started is None ==> r.start_ms == now_ms,
        r.uid is None && r.last_body is None && r.unchanged_streak == 0 && r.last_send is None,
        !r.silence_cleared && r.last_tier is None,
{
}

/// What an attempt to connect leads to: with the primary slot the tick goes on,
/// without it the tick ends, and the companion never matters for that. A
/// success is told, a failure only after a success or at first.
pub proof fn connections_are_told(service: ServiceView, written: bool)
    ensures
        ({
            let turn = service.joined(Slot::Primary, written);
            &&& turn.after == (ServiceView {
                primary: ClientView { connected: written, ..service.primary },
                told_primary: !written,
                ..service
            })
            &&& written ==> turn.notes == seq![Note::Connected(Slot::Primary)] && turn.act == (
            if service.official is Some && !service.official->Some_0.connected {
                ActView::Connect(Slot::Companion)
            } else {
                ActView::Refresh
            })
            &&& !written ==> turn.act is Sleep
            &&& !written && service.told_primary ==> turn.notes.len() == 0
            &&& !written && !service.told_primary ==> turn.notes
                == seq![Note::NoConnection(Slot::Primary)]
        }),
        ({
            let turn = service.joined(Slot::Companion, written);
            &&& turn.act is Refresh
            &&& turn.after == (ServiceView {
                official: match service.official {
                    Some(official) => Some(
                        ClientView {
                            client_id: official.client_id,
                            connected: written,
                            nonce: official.nonce,
                        },
                    ),
                    None => None,
                },
                told_companion: !written,
                ..service
            })
            &&& written ==> turn.notes == seq![Note::Connected(Slot::Companion)]
            &&& !written && service.told_companion ==> turn.notes.len() == 0
            &&& !written && !service.told_companion ==> turn.notes
                == seq![Note::NoConnection(Slot::Companion)]
        }),
{
}

/// What becomes of the primary slot after a tick: a card that was written is
/// what was sent last; one that was not costs the connection and nothing else;
/// one that was skipped counts towards the heartbeat.
pub proof fn primary_cards_are_booked(
    service: ServiceView,
    session: SessionView,
    companion: bool,
    primary: bool,
    now: u128,
)
    requires
        service.session == Some(session),
    ensures
        ({
            let after = service.published(companion, primary, now).after;
            &&& service.published(companion, primary, now).act is Sleep
            &&& after.primary_pending is Nothing
            &&& after.settings == service.settings && after.last_pid == service.last_pid
            &&& service.primary_pending matches PendingView::Sent(body) ==> {
                &&& primary ==> after.session == Some(
                    SessionView {
                        last_body: Some(body),
                        streak: 0,
                        last_send: Some(now),
                        ..session
                    },
                ) && after.primary == service.primary
                &&& !primary ==> after.session == Some(session) && after.primary == (ClientView {
                    connected: false,
                    ..service.primary
                })
            }
            &&& service.primary_pending is Skipped ==> after.session == Some(
                SessionView {
                    streak: if session.streak == 4294967295 {
                        4294967295
                    } else {
                        (session.streak + 1) as u32
                    },
                    last_send: Some(now),
                    ..session
                },
            ) && after.primary == service.primary
            &&& service.primary_pending is Nothing ==> after.session == Some(session)
                && after.primary == service.primary
        }),
{
}

/// What becomes of the companion slot after a tick, in the same way and on its
/// own.
pub proof fn companion_cards_are_booked(
    service: ServiceView,
    mirror: SessionView,
    companion: bool,
    primary: bool,
    now: u128,
)
    requires
        service.official_session == Some(mirror),
    ensures
        ({
            let after = service.published(companion, primary, now).after;
            &&& after.companion_pending is Nothing
            &&& service.companion_pending matches PendingView::Sent(body) ==> {
                &&& companion ==> after.official_session == Some(
                    SessionView {
                        last_body: Some(body),
                        streak: 0,
                        last_send: Some(now),
                        ..mirror
                    },
                ) && after.official == service.official
                &&& !companion ==> after.official_session == Some(mirror) && (
                service.official matches Some(official) ==> after.official == Some(
                    ClientView {
                        client_id: official.client_id,
                        connected: false,
                        nonce: official.nonce,
                    },
                ))
            }
            &&& service.companion_pending is Skipped ==> after.official_session == Some(
                SessionView {
                    streak: if mirror.streak == 4294967295 {
                        4294967295
                    } else {
                        (mirror.streak + 1) as u32
                    },
                    last_send: Some(now),
                    ..mirror
                },
            ) && after.official == service.official
            &&& service.companion_pending is Nothing ==> after.official_session == Some(mirror)
                && after.official == service.official
        }),
{
}

/// What becomes of the cards touches the two slots only.
pub proof fn bookings_touch_the_slots_only(
    service: ServiceView,
    companion: bool,
    primary: bool,
    now: u128,
)
    ensures
        ({
            let after = service.published(companion, primary, now).after;
            &&& after == (ServiceView {
                session: after.session,
                official_session: after.official_session,
                primary: after.primary,
                official: after.official,
                primary_pending: PendingView::Nothing,
                companion_pending: PendingView::Nothing,
                ..service
            })
            &&& service.session is None ==> after.session is None && after.primary
                == service.primary
            &&& service.official_session is None ==> after.official_session is None
                && after.official == service.official
        }),
{
}

/// What is told after a tick: for each slot that waited for a write, the
/// companion's first, whether its card was sent or its connection lost.
pub proof fn writes_are_told(
    service: ServiceView,
    companion: bool,
    primary: bool,
    now: u128,
)
    requires
        service.session is Some,
    ensures
        ({
            let notes = service.published(companion, primary, now).notes;
            let first = service.companion_pending is Sent && service.official_session is Some;
            let second = service.primary_pending is Sent;
            &&& notes.len() == (if first {
                1int
            } else {
                0int
            }) + (if second {
                1int
            } else {
                0int
            })
            &&& first ==> notes[0] == if companion {
                Note::Sent(Slot::Companion)
            } else {
                Note::ConnectionLost(Slot::Companion)
            }
            &&& second ==> notes.last() == if primary {
                Note::Sent(Slot::Primary)
            } else {
                Note::ConnectionLost(Slot::Primary)
            }
        }),
{
}

/// A message takes the next number from its client, whatever slot it is for:
/// clearing both slots takes one from each.
pub proof fn clearing_takes_a_number(service: ServiceView, pid: u64)
    requires
        service.last_pid == Some(pid),
    ensures
        ({
            let turn = service.shut();
            &&& turn.act == (ActView::Clear {
                primary: service.primary.message(pid, Tree::Null),
                companion: if service.official is Some {
                    service.official->Some_0.message(service.settings.own_pid, Tree::Null)
                } else {
                    None
                },
            })
            &&& turn.after == (ServiceView {
                primary: ClientView {
                    client_id: service.primary.client_id,
                    connected: service.primary.connected,
                    nonce: service.primary.next_nonce(),
                },
                official: match service.official {
                    Some(official) => Some(
                        ClientView {
                            client_id: official.client_id,
                            connected: official.connected,
                            nonce: official.next_nonce(),
                        },
                    ),
                    None => None,
                },
                ..service
            })
        }),
{
}

/// Without a game ever seen, the end of a run does nothing.
pub proof fn unseen_games_need_no_clearing(service: ServiceView)
    requires
        service.last_pid is None,
    ensures
        service.shut().act is Sleep,
        service.shut().after == service,
{
}

/// What is told of frames that clear changes connections only, each by its own
/// write.
pub proof fn clears_change_connections_only(
    service: ServiceView,
    primary: bool,
    companion: bool,
)
    ensures
        service.clear_told(primary, companion) == (ServiceView {
            primary: ClientView {
                connected: service.primary.connected && primary,
                ..service.primary
            },
            official: match service.official {
                Some(official) => Some(
                    ClientView {
                        client_id: official.client_id,
                        connected: official.connected && companion,
                        nonce: official.nonce,
                    },
                ),
                None => None,
            },
            ..service
        }),
{
}

/// A new service knows its settings and its clients' ids and nothing else.
pub proof fn new_services_know_their_settings(
    settings: Settings,
    app_id: String,
    official_id: Option<String>,
    r: Service,
)
    requires
        call_ensures(Service::new, (settings, app_id, official_id), r),
    ensures
        r@.settings.own_pid == settings.own_pid,
        r@.settings.every == settings.every,
        r@.settings.static_text == settings.static_text,
        r@.settings.player_name is Some <==> settings.player_name is Some,
        settings.player_name matches Some(name) ==> r@.settings.player_name == Some(name@),
        r@.settings.portrait is Some <==> settings.portrait is Some,
        settings.portrait matches Some(portrait) ==> r@.settings.portrait == Some(portrait@),
        r@.settings.character is Some <==> settings.character is Some,
        settings.character matches Some(character) ==> (r@.settings.character matches Some(view)
            && view.key == character.key@ && view.display == character.display@ && view.asset
            == character.asset@),
        r@.primary == (ClientView { client_id: app_id@, connected: false, nonce: 0 }),
        official_id matches Some(id) ==> r@.official == Some(
            ClientView { client_id: id@, connected: false, nonce: 0 },
        ),
        official_id is None ==> r@.official is None,
        r@.session is None && r@.official_session is None && r@.last_pid is None,
        !r@.told_game && !r@.told_primary && !r@.told_companion,
        r@.primary_pending is Nothing && r@.companion_pending is Nothing,
{
}

/// What was asked for at the start stays, whatever happens.
#[verifier::rlimit(30)]
pub proof fn settings_stay(
    service: ServiceView,
    scan: Scan,
    slot: Slot,
    pid: u64,
    info: Option<InfoView>,
    known: (bool, Option<Seq<char>>, Option<Seq<char>>),
    flags: (bool, bool),
    now: u128,
    now_ms: i64,
)
    ensures
        service.scanned(scan, now).after.settings == service.settings,
        service.opened(pid, now_ms).after.settings == service.settings,
        service.joined(slot, flags.0).after.settings == service.settings,
        service.refreshed(info, known.0, known.1, known.2, now_ms).after.settings
            == service.settings,
        service.published(flags.0, flags.1, now).after.settings == service.settings,
        service.clear_told(flags.0, flags.1).settings == service.settings,
        service.shut().after.settings == service.settings,
        service.refreshed(info, known.0, known.1, known.2, now_ms).after.last_pid
            == service.last_pid,
        service.refreshed(info, known.0, known.1, known.2, now_ms).after.primary.client_id
            == service.primary.client_id,
        service.refreshed(info, known.0, known.1, known.2, now_ms).after.primary.connected
            == service.primary.connected,
{
}

/// What a service tells is what it knows: whether a slot is connected, and
/// what it was sent last.
pub proof fn services_tell_what_they_know(
    service: &Service,
    connected: (bool, bool),
    sent: (Option<&str>, Option<&str>),
)
    requires
        call_ensures(Service::is_connected, (service, Slot::Primary), connected.0),
        call_ensures(Service::is_connected, (service, Slot::Companion), connected.1),
        call_ensures(Service::last_body, (service, Slot::Primary), sent.0),
        call_ensures(Service::last_body, (service, Slot::Companion), sent.1),
    ensures
        connected.0 == service@.primary.connected,
        connected.1 <==> service@.official is Some && service@.official->Some_0.connected,
        sent.0 matches Some(body) ==> service@.session is Some
            && service@.session->Some_0.last_body == Some(body@),
        sent.0 is None ==> service@.session is None || service@.session->Some_0.last_body is None,
        sent.1 matches Some(body) ==> service@.official_session is Some
            && service@.official_session->Some_0.last_body == Some(body@),
        sent.1 is None ==> service@.official_session is None
            || service@.official_session->Some_0.last_body is None,
{
}

/// A connection opens with the handshake of the slot's own client.
pub proof fn handshakes_name_their_client(
    service: &Service,
    primary: Option<Vec<u8>>,
    companion: Option<Vec<u8>>,
)
    requires
        call_ensures(Service::handshake, (service, Slot::Primary), primary),
        call_ensures(Service::handshake, (service, Slot::Companion), companion),
    ensures
        primary matches Some(frame) && frame@ == crate::ipc::frame(
            0,
            rendered(crate::ipc::handshake_tree(service@.primary.client_id)),
        ),
        companion is Some <==> service@.official is Some,
        companion matches Some(frame) ==> frame@ == crate::ipc::frame(
            0,
            rendered(crate::ipc::handshake_tree(service@.official->Some_0.client_id)),
        ),
{
}

/// What is told of a decision's inputs are shapes: whether there are data, a
/// name from any source, a login, and static text, and the character's key.
pub proof fn inputs_are_shapes(
    service: &Service,
    info: Option<&PlayerInfo>,
    live: LiveContext<'_>,
    r: String,
)
    requires
        call_ensures(Service::inputs, (service, info, live), r),
    ensures
        r@ == inputs_text(
            info is Some,
            service@.settings.player_name is Some || live.display_name is Some || (info is Some
                && info->Some_0.display_name is Some),
            live.uid_known,
            service@.settings.static_text,
            if service@.settings.character is Some {
                Some(service@.settings.character->Some_0.key)
            } else {
                None
            },
        ),
{
}

/// The companion of a card that is looked at before it is sent: the card's
/// details and state with the portrait, where the companion slot is in use and
/// the card has details.
pub proof fn previews_mirror_the_card(
    card: Json,
    game_page: bool,
    now_ms: i64,
    portrait: Option<&str>,
    details: &str,
    state: &str,
    shown: Json,
    r: Option<Json>,
)
    requires
        call_ensures(companion_preview, (&card, game_page, now_ms, portrait), r),
        call_ensures(official_activity, (now_ms, details, state, portrait), shown),
        card@.has("details"@, Tree::Text(details@)),
        card@.has("state"@, Tree::Text(state@)) || (state@.len() == 0 && !(card@.member("state"@)
            matches Some(Tree::Text(_)))),
    ensures
        game_page ==> (r matches Some(companion) && companion@ == shown@),
        !game_page ==> r is None,
{
    if state@.len() == 0 {
        assert(state@ =~= Seq::<char>::empty());
    }
}

/// A card without details has no companion to look at.
pub proof fn previews_need_details(
    card: Json,
    game_page: bool,
    now_ms: i64,
    portrait: Option<&str>,
    r: Option<Json>,
)
    requires
        call_ensures(companion_preview, (&card, game_page, now_ms, portrait), r),
        !(card@.member("details"@) matches Some(Tree::Text(_))),
    ensures
        r is None,
{
}

} // verus!
