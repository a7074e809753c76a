use wwrpc::character::find;
use wwrpc::db::PlayerInfo;
use wwrpc::json::Json;
use wwrpc::presence::{
    account_switched, db_activity, decide_publish, event_clock, named_static_activity, now_millis,
    official_activity, should_resend, signed_millis, static_activity, tier_name, unsigned_millis,
    LiveContext, Publish, HEARTBEAT_EVERY_TICKS,
};

fn no_live() -> LiveContext<'static> {
    LiveContext {
        uid_known: false,
        display_name: None,
        version: None,
    }
}

/// Shared rich fixture: Union 64 / America / 123 quests / v3.6.13.
fn rich_info() -> PlayerInfo {
    PlayerInfo {
        uid: "1".to_string(),
        union_level: "64".to_string(),
        region: "America".to_string(),
        quests_done: Some(123),
        game_version: Some("3.6.13".to_string()),
        display_name: None,
    }
}

/// The text under a path of names.
fn text<'a>(json: &'a Json, path: &[&str]) -> Option<&'a str> {
    let mut here = json;
    for name in path {
        here = here.get(name)?;
    }
    here.as_str()
}

#[test]
fn resend_on_first_send_and_on_change() {
    assert!(should_resend(None, r#"{"a":1}"#, 0));
    assert!(should_resend(Some(r#"{"a":1}"#), r#"{"a":2}"#, 11));
}

#[test]
fn identical_payload_skips_until_heartbeat() {
    let body = r#"{"a":1}"#;
    for streak in 0..HEARTBEAT_EVERY_TICKS {
        assert!(
            !should_resend(Some(body), body, streak),
            "streak {streak} must skip"
        );
    }
    assert!(should_resend(Some(body), body, HEARTBEAT_EVERY_TICKS));
}

#[test]
fn decide_publish_prefers_rich_then_flag_then_silence() {
    let info = PlayerInfo {
        uid: "1".to_string(),
        union_level: "60".to_string(),
        region: "Europe".to_string(),
        quests_done: None,
        game_version: None,
        display_name: None,
    };

    // Rich data always publishes, regardless of the flag.
    for flag in [false, true] {
        let activity = decide_publish(Some(&info), flag, 0, None, None, no_live()).into_activity();
        assert_eq!(activity, Some(db_activity(0, &info, None, None)));
    }

    // A display name takes over details; absence keeps the level line.
    let activity =
        decide_publish(Some(&info), false, 0, Some("Rover"), None, no_live()).into_activity();
    assert_eq!(activity, Some(db_activity(0, &info, Some("Rover"), None)));
    assert_eq!(text(&activity.unwrap(), &["details"]), Some("Rover"));

    // Without data: static text only under the flag, else silence.
    let activity = decide_publish(None, true, 0, None, None, no_live()).into_activity();
    assert_eq!(activity, Some(static_activity(0)));
    assert!(matches!(
        decide_publish(None, false, 0, None, None, no_live()),
        Publish::Silent
    ));
    assert_eq!(
        decide_publish(None, false, 0, None, None, no_live()).into_activity(),
        None
    );
}

#[test]
fn decide_publish_complements_sources_without_guessing() {
    let live = LiveContext {
        uid_known: true,
        display_name: Some("Rover"),
        version: Some("3.6.13"),
    };
    // Identity + name, no level data: named static, never silence, never a guess.
    let activity = decide_publish(None, false, 0, None, None, live).into_activity();
    let activity = activity.expect("named static publishes");
    assert_eq!(text(&activity, &["details"]), Some("Rover"));
    assert_eq!(text(&activity, &["state"]), Some("Exploring SOL-III"));
    assert_eq!(text(&activity, &["assets", "small_text"]), Some("v3.6.13"));

    // Identity without a name: still silent (a bare generic line would add
    // nothing over game detection).
    let nameless = LiveContext {
        display_name: None,
        ..live
    };
    assert!(matches!(
        decide_publish(None, false, 0, None, None, nameless),
        Publish::Silent
    ));

    // No identity at all: silent even with leftovers present.
    assert!(matches!(
        decide_publish(None, false, 0, None, None, no_live()),
        Publish::Silent
    ));
}

#[test]
fn db_activity_layout_is_name_then_level_pipe_region() {
    let info = rich_info();

    let value = db_activity(0, &info, Some("TestRover"), None);
    assert_eq!(text(&value, &["details"]), Some("TestRover"));
    assert_eq!(text(&value, &["state"]), Some("Lv. 64 | Region: America"));
    assert_eq!(
        text(&value, &["assets", "small_text"]),
        Some("123 quests • v3.6.13")
    );

    // No name, no quests, no version: level line, region-only state, no small.
    let bare = PlayerInfo {
        quests_done: None,
        game_version: None,
        ..info.clone()
    };
    let value = db_activity(0, &bare, None, None);
    assert_eq!(text(&value, &["details"]), Some("Union Level 64"));
    assert_eq!(text(&value, &["state"]), Some("Lv. 64 | Region: America"));
    assert!(value.get("assets").unwrap().get("small_image").is_none());
}

#[test]
fn character_icon_owns_small_slot_with_name_first() {
    let denia = find("denia").unwrap();
    let info = rich_info();
    let value = db_activity(0, &info, Some("TestRover"), Some(&denia));
    assert_eq!(text(&value, &["details"]), Some("TestRover"));
    assert_eq!(text(&value, &["assets", "small_image"]), Some("denia"));
    assert_eq!(
        text(&value, &["assets", "small_text"]),
        Some("Denia • 123 quests • v3.6.13")
    );

    // Rich decision threads the character through.
    let activity = decide_publish(Some(&info), false, 0, None, Some(&denia), no_live())
        .into_activity()
        .unwrap();
    assert_eq!(text(&activity, &["assets", "small_image"]), Some("denia"));

    // Named-static honors it too.
    let live = LiveContext {
        uid_known: true,
        display_name: Some("Rover"),
        version: Some("3.6.13"),
    };
    let activity = decide_publish(None, false, 0, None, Some(&denia), live)
        .into_activity()
        .unwrap();
    assert_eq!(text(&activity, &["assets", "small_image"]), Some("denia"));
    assert_eq!(
        text(&activity, &["assets", "small_text"]),
        Some("Denia • v3.6.13")
    );
}

#[test]
fn static_activity_has_expected_shape() {
    let value = static_activity(1_700_000_000_000);
    assert_eq!(text(&value, &["details"]), Some("Exploring SOL-III"));
    assert_eq!(text(&value, &["assets", "large_image"]), Some("logo"));
    assert_eq!(text(&value, &["assets", "large_text"]), Some("Wuthering Waves"));
    assert_eq!(
        value.get("timestamps").unwrap().get("start").unwrap().as_u64(),
        Some(1_700_000_000_000)
    );
    assert!(value.get("state").is_none());
}

#[test]
fn db_activity_shows_union_level_and_region() {
    let info = PlayerInfo {
        uid: "111111111".to_string(),
        union_level: "60".to_string(),
        region: "Europe".to_string(),
        quests_done: Some(123),
        game_version: Some("3.6.13".to_string()),
        display_name: None,
    };
    let value = db_activity(1_700_000_000_000, &info, None, None);
    assert_eq!(text(&value, &["details"]), Some("Union Level 60"));
    assert_eq!(text(&value, &["state"]), Some("Lv. 60 | Region: Europe"));
    assert_eq!(
        value.get("timestamps").unwrap().get("start").unwrap().as_u64(),
        Some(1_700_000_000_000)
    );
    assert_eq!(text(&value, &["assets", "small_image"]), Some("logo"));
    assert_eq!(
        text(&value, &["assets", "small_text"]),
        Some("123 quests • v3.6.13")
    );
}

#[test]
fn db_activity_without_quest_count_shows_region_only() {
    let info = PlayerInfo {
        uid: "111111111".to_string(),
        union_level: "60".to_string(),
        region: "Europe".to_string(),
        quests_done: None,
        game_version: None,
        display_name: None,
    };
    let value = db_activity(1_700_000_000_000, &info, None, None);
    assert_eq!(text(&value, &["details"]), Some("Union Level 60"));
    assert_eq!(text(&value, &["state"]), Some("Lv. 60 | Region: Europe"));
    assert!(value.get("assets").unwrap().get("small_image").is_none());
}

#[test]
fn clock_returns_millis() {
    // Sanity: millis since epoch is well above seconds since epoch.
    assert!(now_millis() > 1_700_000_000);
}

#[test]
fn db_activity_with_character_shows_icon_and_name_first() {
    let info = PlayerInfo {
        uid: "111111111".to_string(),
        union_level: "64".to_string(),
        region: "America".to_string(),
        quests_done: None,
        game_version: Some("3.6.13".to_string()),
        display_name: None,
    };
    let denia = find("Denia").unwrap();
    let value = db_activity(1_700_000_000_000, &info, None, Some(&denia));
    assert_eq!(text(&value, &["assets", "small_image"]), Some("denia"));
    assert_eq!(
        text(&value, &["assets", "small_text"]),
        Some("Denia • v3.6.13")
    );
}

#[test]
fn static_text_backs_a_login_without_a_name() {
    let nameless = LiveContext {
        uid_known: true,
        display_name: None,
        version: None,
    };
    let publish = decide_publish(None, true, 9, None, None, nameless);
    assert_eq!(tier_name(&publish), "static");
    assert_eq!(publish.into_activity(), Some(static_activity(9)));
    // A name without a login proves nothing.
    let stray = LiveContext {
        uid_known: false,
        display_name: Some("Rover"),
        version: None,
    };
    assert_eq!(tier_name(&decide_publish(None, false, 9, None, None, stray)), "silent");
}

#[test]
fn tiers_have_names() {
    let live = LiveContext { uid_known: true, display_name: None, version: None };
    let rich = decide_publish(Some(&rich_info()), false, 0, None, None, live);
    assert_eq!(tier_name(&rich), "rich");
    let named = decide_publish(None, false, 0, Some("Me"), None, live);
    assert_eq!(tier_name(&named), "named-static");
}

#[test]
fn an_asked_name_wins_over_a_found_one() {
    let info = PlayerInfo { display_name: Some("Found".to_string()), ..rich_info() };
    assert_eq!(text(&db_activity(0, &info, None, None), &["details"]), Some("Found"));
    assert_eq!(text(&db_activity(0, &info, Some("Asked"), None), &["details"]), Some("Asked"));
}

#[test]
fn cards_do_not_depend_on_the_uid() {
    let other = PlayerInfo { uid: "987654321".to_string(), ..rich_info() };
    let card = db_activity(7, &rich_info(), None, None);
    assert_eq!(card, db_activity(7, &other, None, None));
    assert!(!card.render().contains("987654321"));
}

#[test]
fn the_companion_card_mirrors_and_carries_a_portrait() {
    let bare = official_activity(5, "Rover", "", None);
    assert_eq!(
        bare.render(),
        r#"{"details":"Rover","instance":false,"timestamps":{"start":5}}"#
    );
    let full = official_activity(-5, "Rover", "Lv. 1", Some("https://x/y.png"));
    assert_eq!(
        full.render(),
        r#"{"assets":{"large_image":"https://x/y.png"},"details":"Rover","instance":false,"state":"Lv. 1","timestamps":{"start":-5}}"#
    );
}

#[test]
fn a_named_card_without_version_has_no_small_picture() {
    let card = named_static_activity(0, "Rover", None, None);
    assert!(card.get("assets").unwrap().get("small_image").is_none());
    let iconed = named_static_activity(0, "Rover", None, Some(&find("denia").unwrap()));
    assert_eq!(text(&iconed, &["assets", "small_text"]), Some("Denia"));
}

#[test]
fn only_known_accounts_switch() {
    assert!(account_switched(Some("1"), Some("2")));
    assert!(!account_switched(Some("1"), Some("1")));
    assert!(!account_switched(Some("1"), None));
    assert!(!account_switched(None, Some("2")));
    assert!(!account_switched(None, None));
}

#[test]
fn clock_readings_are_converted() {
    assert_eq!(signed_millis(None), 0);
    assert_eq!(signed_millis(Some(1_700_000_000_000)), 1_700_000_000_000);
    assert_eq!(unsigned_millis(None), None);
    assert_eq!(unsigned_millis(Some(u64::MAX as u128)), Some(u64::MAX));
    assert_eq!(unsigned_millis(Some(u64::MAX as u128 + 1)), None);
    let first = event_clock().unwrap();
    assert!(first > 1_700_000_000_000);
    assert!(event_clock().unwrap() >= first);
}
