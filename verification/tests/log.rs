use wwrpc::log::{
    configure, debug, error, info, is_quiet, is_verbose, level_from_env, truthy, warn, Levels,
};

#[test]
fn log_level_env_mapping() {
    // Pure mapping first: WWRPC_LOG, WWRPC_VERBOSE, WWRPC_QUIET.
    assert_eq!(level_from_env(Some("debug"), None, None), (true, false));
    assert_eq!(level_from_env(Some("QUIET"), None, None), (false, true));
    assert_eq!(level_from_env(None, Some("yes"), None), (true, false));
    assert_eq!(level_from_env(None, None, Some("1")), (false, true));
    assert_eq!(level_from_env(Some("info"), None, None), (false, false));

    // Flags OR env, then flag-only.
    let levels = configure(false, false, level_from_env(Some("debug"), None, None));
    assert!(is_verbose(&levels));
    assert!(!is_quiet(&levels));
    let levels = configure(false, false, level_from_env(None, None, None));
    assert!(!is_verbose(&levels));
}

#[test]
fn every_word_of_the_level_variable_counts() {
    for word in ["debug", "trace", " Trace "] {
        assert_eq!(level_from_env(Some(word), None, None), (true, false));
    }
    for word in ["quiet", "off", "none", "silent", "OFF"] {
        assert_eq!(level_from_env(Some(word), None, None), (false, true));
    }
    for word in ["warn", "error", "", "debugging"] {
        assert_eq!(level_from_env(Some(word), None, None), (false, false));
    }
    for word in ["1", "true", "yes", "on", " ON\n"] {
        assert!(truthy(Some(word)));
    }
    for word in ["0", "", "no", "y"] {
        assert!(!truthy(Some(word)));
    }
    assert!(!truthy(None));
}

#[test]
fn quiet_wins_over_verbose() {
    let levels = configure(true, false, (false, true));
    assert!(is_quiet(&levels));
    assert!(!is_verbose(&levels));
    assert_eq!(debug(&levels, "12:00:00", "x"), None);
    assert_eq!(info(&levels, "12:00:00", "x"), None);
}

#[test]
fn lines_carry_time_level_and_message() {
    let plain = Levels { verbose: false, quiet: false };
    let verbose = Levels { verbose: true, quiet: false };
    let t = "12:34:56";
    assert_eq!(info(&plain, t, "hi"), Some("[12:34:56 INFO] hi".to_string()));
    assert_eq!(debug(&plain, t, "hi"), None);
    assert_eq!(debug(&verbose, t, "hi"), Some("[12:34:56 DEBUG] hi".to_string()));
    assert_eq!(warn(t, "hi"), "[12:34:56 WARN] hi");
    assert_eq!(error(t, "hi"), "[12:34:56 ERROR] hi");
}
