use wwrpc::db::PlayerInfo;
use wwrpc::json::{parse, Json};
use wwrpc::presence::{
    db_activity, official_activity, tier_change, LiveContext, Tier, HEARTBEAT_EVERY_TICKS,
};
use wwrpc::session::{companion_preview, Act, Note, Scan, Service, Settings, Slot};

const EVERY: u128 = 15_000_000_000;
const OWN_PID: u64 = 777;

fn service(companion: bool, static_text: bool) -> Service {
    let settings = Settings {
        own_pid: OWN_PID,
        every: EVERY,
        static_text,
        player_name: None,
        character: None,
        portrait: None,
    };
    let official = if companion { Some("9".to_string()) } else { None };
    Service::new(settings, "8".to_string(), official)
}

fn info(uid: &str) -> PlayerInfo {
    PlayerInfo {
        uid: uid.to_string(),
        union_level: "60".to_string(),
        region: "Europe".to_string(),
        quests_done: None,
        game_version: None,
        display_name: None,
    }
}

fn nothing_known() -> LiveContext<'static> {
    LiveContext { uid_known: false, display_name: None, version: None }
}

/// Opens a session and connects what is asked for.
fn open(service: &mut Service, pid: u64, companion: bool) {
    let (act, notes) = service.scan(Scan::Game(pid), 0);
    assert!(matches!(act, Act::Open(opened) if opened == pid));
    assert_eq!(notes.len(), 1);
    let mut act = service.open(pid, Some(1000), 5000);
    if let Act::Connect(Slot::Primary) = act {
        act = service.join(Slot::Primary, true).0;
    }
    if companion {
        if let Act::Connect(Slot::Companion) = act {
            act = service.join(Slot::Companion, true).0;
        }
    }
    assert!(matches!(act, Act::Refresh));
}

fn body(frame: &[u8]) -> Json {
    parse(std::str::from_utf8(&frame[8..]).unwrap()).unwrap()
}

fn pid_of(frame: &[u8]) -> Option<u64> {
    body(frame).get("args").unwrap().get("pid").unwrap().as_u64()
}

fn start_of(frame: &[u8]) -> Option<u64> {
    let message = body(frame);
    let card = message.get("args").unwrap().get("activity").unwrap();
    card.get("timestamps").unwrap().get("start").unwrap().as_u64()
}

#[test]
fn waiting_for_the_game_is_told_once() {
    let mut service = service(false, false);
    let (act, notes) = service.scan(Scan::NoGame, 0);
    assert!(matches!(act, Act::Sleep));
    assert_eq!(notes, vec![Note::WaitingForGame]);
    assert!(service.scan(Scan::NoGame, 1).1.is_empty());
    assert!(service.scan(Scan::Failed, 2).1.is_empty());
    assert_eq!(service.scan(Scan::NoPid, 3).1, vec![Note::NoPid]);
    // A game that came and went is waited for anew.
    assert_eq!(service.scan(Scan::NoGame, 4).1, vec![Note::WaitingForGame]);
    assert!(matches!(service.shut(), Act::Sleep));
}

#[test]
fn a_card_is_sent_once_and_then_as_a_heartbeat() {
    let mut service = service(false, false);
    open(&mut service, 42, false);
    let data = info("1");
    let (act, notes) = service.refreshed(Some(&data), nothing_known(), 5000);
    assert_eq!(notes, vec![Note::TierChanged(None, Tier::Rich)]);
    let Act::Publish { primary, companion } = act else { panic!("card expected") };
    let frame = primary.unwrap();
    assert_eq!(pid_of(&frame), Some(42));
    assert_eq!(start_of(&frame), Some(1000));
    assert_eq!(companion, None);
    assert_eq!(service.last_body(Slot::Primary), None);
    assert_eq!(service.published(false, true, 1).1, vec![Note::Sent(Slot::Primary)]);
    let sent = body(&frame).get("args").unwrap().get("activity").unwrap().render();
    assert_eq!(service.last_body(Slot::Primary), Some(sent.as_str()));
    assert_eq!(service.last_body(Slot::Companion), None);
    for tick in 0..HEARTBEAT_EVERY_TICKS {
        let (act, notes) = service.refreshed(Some(&data), nothing_known(), 6000);
        assert!(matches!(act, Act::Publish { primary: None, companion: None }), "{tick}");
        assert_eq!(notes, vec![Note::Unchanged(Slot::Primary)]);
        service.published(false, false, 1);
    }
    let (act, _) = service.refreshed(Some(&data), nothing_known(), 6000);
    assert!(matches!(act, Act::Publish { primary: Some(_), companion: None }));
    service.published(false, true, 1);
    // A change goes out at once.
    let other = PlayerInfo { union_level: "61".to_string(), ..data };
    let (act, _) = service.refreshed(Some(&other), nothing_known(), 6000);
    assert!(matches!(act, Act::Publish { primary: Some(_), companion: None }));
}

#[test]
fn updates_wait_for_their_time() {
    let mut service = service(false, false);
    open(&mut service, 42, false);
    service.refreshed(Some(&info("1")), nothing_known(), 0);
    service.published(false, true, 100);
    assert!(matches!(service.scan(Scan::Game(42), 100).0, Act::Sleep));
    assert!(matches!(service.scan(Scan::Game(42), 99 + EVERY).0, Act::Sleep));
    assert!(matches!(service.scan(Scan::Game(42), 100 + EVERY).0, Act::Refresh));
    // A clock that seems to go back makes nothing due.
    assert!(matches!(service.scan(Scan::Game(42), 0).0, Act::Sleep));
}

#[test]
fn silence_clears_once() {
    let mut service = service(true, false);
    open(&mut service, 42, true);
    let (act, notes) = service.refreshed(None, nothing_known(), 0);
    assert_eq!(
        notes,
        vec![Note::TierChanged(None, Tier::Silent), Note::LeftToDetection]
    );
    let Act::Clear { primary, companion } = act else { panic!("clear expected") };
    assert_eq!(pid_of(&primary.unwrap()), Some(42));
    assert_eq!(pid_of(&companion.unwrap()), Some(OWN_PID));
    let (act, notes) = service.refreshed(None, nothing_known(), 0);
    assert!(matches!(act, Act::Sleep));
    assert!(notes.is_empty());
    // Data end the stretch; the next one clears again.
    service.refreshed(Some(&info("1")), nothing_known(), 0);
    service.published(true, true, 1);
    let (act, _) = service.refreshed(None, nothing_known(), 0);
    assert!(matches!(act, Act::Clear { primary: Some(_), companion: Some(_) }));
}

#[test]
fn static_text_takes_the_place_of_silence() {
    let mut service = service(false, true);
    open(&mut service, 42, false);
    let (act, notes) = service.refreshed(None, nothing_known(), 0);
    assert_eq!(notes, vec![Note::TierChanged(None, Tier::Static)]);
    assert!(matches!(act, Act::Publish { primary: Some(_), companion: None }));
}

#[test]
fn another_account_starts_the_clock_over_and_gaps_do_not() {
    let mut service = service(true, false);
    open(&mut service, 42, true);
    service.refreshed(Some(&info("1")), nothing_known(), 2000);
    service.published(true, true, 1);
    // A gap in the data keeps the clock.
    service.refreshed(None, nothing_known(), 3000);
    let (act, notes) = service.refreshed(Some(&info("1")), nothing_known(), 4000);
    assert!(!notes.contains(&Note::AccountSwitched));
    if let Act::Publish { primary: Some(frame), .. } = &act {
        assert_eq!(start_of(frame), Some(1000));
    }
    service.published(true, true, 2);
    let (act, notes) = service.refreshed(Some(&info("2")), nothing_known(), 9000);
    assert_eq!(notes[0], Note::AccountSwitched);
    let Act::Publish { primary, companion } = act else { panic!("card expected") };
    assert_eq!(start_of(&primary.unwrap()), Some(9000));
    assert_eq!(start_of(&companion.unwrap()), Some(9000));
}

#[test]
fn the_companion_mirrors_under_its_own_pid() {
    let mut service = service(true, false);
    open(&mut service, 42, true);
    let (act, _) = service.refreshed(Some(&info("1")), nothing_known(), 0);
    let Act::Publish { primary, companion } = act else { panic!("card expected") };
    let (primary, companion) = (primary.unwrap(), companion.unwrap());
    assert_eq!(pid_of(&primary), Some(42));
    assert_eq!(pid_of(&companion), Some(OWN_PID));
    let (first, second) = (body(&primary), body(&companion));
    let card = first.get("args").unwrap().get("activity").unwrap();
    let mirror = second.get("args").unwrap().get("activity").unwrap();
    assert_eq!(card.get("details"), mirror.get("details"));
    assert_eq!(card.get("state"), mirror.get("state"));
    assert!(mirror.get("assets").is_none());
}

#[test]
fn a_failed_companion_never_stops_the_primary() {
    let mut service = service(true, false);
    let (act, notes) = service.scan(Scan::Game(42), 0);
    assert!(matches!(act, Act::Open(42)));
    assert_eq!(notes, vec![Note::Detected(42)]);
    assert!(matches!(service.open(42, None, 5000), Act::Connect(Slot::Primary)));
    let (act, notes) = service.join(Slot::Primary, true);
    assert!(matches!(act, Act::Connect(Slot::Companion)));
    assert_eq!(notes, vec![Note::Connected(Slot::Primary)]);
    let (act, notes) = service.join(Slot::Companion, false);
    assert!(matches!(act, Act::Refresh));
    assert_eq!(notes, vec![Note::NoConnection(Slot::Companion)]);
    assert!(service.join(Slot::Companion, false).1.is_empty());
    let (act, notes) = service.refreshed(Some(&info("1")), nothing_known(), 0);
    assert!(notes.contains(&Note::ConnectionLost(Slot::Companion)));
    let Act::Publish { primary, companion } = act else { panic!("card expected") };
    // The clock starts now where the process does not tell.
    assert_eq!(start_of(&primary.unwrap()), Some(5000));
    assert_eq!(companion, None);
    // A write that fails is sent again over a new connection.
    let (_, notes) = service.published(false, false, 1);
    assert_eq!(notes, vec![Note::ConnectionLost(Slot::Primary)]);
    assert!(!service.is_connected(Slot::Primary));
    assert!(matches!(service.scan(Scan::Game(42), 2).0, Act::Connect(Slot::Primary)));
    service.join(Slot::Primary, true);
    let (act, _) = service.refreshed(Some(&info("1")), nothing_known(), 0);
    assert!(matches!(act, Act::Publish { primary: Some(_), .. }));
}

#[test]
fn without_a_connection_the_tick_ends_and_it_is_told_once() {
    let mut service = service(false, false);
    service.scan(Scan::Game(42), 0);
    assert!(matches!(service.open(42, Some(1), 1), Act::Connect(Slot::Primary)));
    let (act, notes) = service.join(Slot::Primary, false);
    assert!(matches!(act, Act::Sleep));
    assert_eq!(notes, vec![Note::NoConnection(Slot::Primary)]);
    assert!(service.join(Slot::Primary, false).1.is_empty());
    // A restarted game is told of again.
    let (act, notes) = service.scan(Scan::Game(43), 1);
    assert!(matches!(act, Act::Open(43)));
    assert_eq!(notes, vec![Note::Restarted(43)]);
    service.open(43, Some(1), 1);
    assert_eq!(
        service.join(Slot::Primary, false).1,
        vec![Note::NoConnection(Slot::Primary)]
    );
}

#[test]
fn a_closed_game_clears_both_slots() {
    let mut service = service(true, false);
    open(&mut service, 42, true);
    service.refreshed(Some(&info("1")), nothing_known(), 0);
    service.published(true, true, 1);
    let (act, notes) = service.scan(Scan::NoGame, 2);
    assert_eq!(notes, vec![Note::GameClosed]);
    let Act::Clear { primary, companion } = act else { panic!("clear expected") };
    assert_eq!(body(&primary.unwrap()).get("args").unwrap().get("activity"), Some(&Json::Null));
    assert_eq!(pid_of(&companion.unwrap()), Some(OWN_PID));
    assert!(!service.is_connected(Slot::Primary));
    assert!(!service.is_connected(Slot::Companion));
    // Then it is waited for.
    assert_eq!(service.scan(Scan::NoGame, 3).1, vec![Note::WaitingForGame]);
    // The end of the run has nothing left to write to.
    assert!(matches!(service.shut(), Act::Clear { primary: None, companion: None }));
}

#[test]
fn the_end_of_a_run_clears() {
    let mut service = service(false, false);
    open(&mut service, 42, false);
    let Act::Clear { primary, companion } = service.shut() else { panic!("clear expected") };
    assert_eq!(pid_of(&primary.unwrap()), Some(42));
    assert_eq!(companion, None);
    assert_eq!(
        body(&service.handshake(Slot::Primary).unwrap()).get("client_id").unwrap().as_str(),
        Some("8")
    );
    assert_eq!(service.handshake(Slot::Companion), None);
}

#[test]
fn a_tier_change_is_told() {
    let mut service = service(false, false);
    open(&mut service, 42, false);
    service.refreshed(None, nothing_known(), 0);
    let named = LiveContext { uid_known: true, display_name: Some("Rover"), version: None };
    let (act, notes) = service.refreshed(None, named, 0);
    assert_eq!(notes, vec![Note::TierChanged(Some(Tier::Silent), Tier::NamedStatic)]);
    assert!(matches!(act, Act::Publish { primary: Some(_), .. }));
}

#[test]
fn a_clear_that_was_not_written_ends_the_connection() {
    let mut service = service(true, false);
    open(&mut service, 42, true);
    let (act, _) = service.refreshed(None, nothing_known(), 0);
    assert!(matches!(act, Act::Clear { primary: Some(_), companion: Some(_) }));
    service.clear_written(true, true);
    assert!(service.is_connected(Slot::Primary) && service.is_connected(Slot::Companion));
    service.clear_written(true, false);
    assert!(service.is_connected(Slot::Primary) && !service.is_connected(Slot::Companion));
    service.clear_written(false, true);
    assert!(!service.is_connected(Slot::Primary));
    // It is connected anew on the next tick.
    assert!(matches!(service.scan(Scan::Game(42), 1).0, Act::Connect(Slot::Primary)));
}

#[test]
fn a_tier_change_tells_its_inputs_and_no_values() {
    let mut service = service(false, true);
    open(&mut service, 42, false);
    let inputs = service.inputs(None, nothing_known());
    assert_eq!(
        inputs,
        "(level data: false, name: false, login known: false, static flag: true, character: none)"
    );
    assert_eq!(
        tier_change(None, Tier::Static, &inputs),
        format!("presence tier: none -> static {inputs}")
    );
    let mut data = info("111111111");
    data.display_name = Some("Rover".to_string());
    let live = LiveContext { uid_known: true, display_name: None, version: None };
    let inputs = service.inputs(Some(&data), live);
    assert_eq!(
        inputs,
        "(level data: true, name: true, login known: true, static flag: true, character: none)"
    );
    assert_eq!(
        tier_change(Some(Tier::Static), Tier::Rich, &inputs),
        format!("presence tier: static -> rich {inputs}")
    );
}

#[test]
fn the_companion_can_be_looked_at_beforehand() {
    let card = db_activity(1, &info("1"), Some("Rover"), None);
    assert_eq!(companion_preview(&card, false, 7, None), None);
    assert_eq!(
        companion_preview(&card, true, 7, Some("https://x")),
        Some(official_activity(7, "Rover", "Lv. 60 | Region: Europe", Some("https://x")))
    );
    assert_eq!(companion_preview(&Json::Null, true, 7, None), None);
}
