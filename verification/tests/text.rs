use std::path::Path;
use wwrpc::text::{
    chars_of, glue, contains, fill, find_after_last, is_control, is_white, join_path, parse_i64,
    parse_u32, parse_u64, same, text_of, to_lowered, trim, write_u64,
};

#[test]
fn white_space_is_that_of_unicode() {
    for code in 0..=0x10ffff_u32 {
        if let Some(c) = char::from_u32(code) {
            assert_eq!(is_white(c), c.is_whitespace(), "{code:x}");
        }
    }
}

#[test]
fn control_characters_are_those_of_unicode() {
    for code in 0..=0x10ffff_u32 {
        if let Some(c) = char::from_u32(code) {
            assert_eq!(is_control(c), c.is_control(), "{code:x}");
        }
    }
}

#[test]
fn trimming_drops_both_ends_only() {
    for s in ["", " ", "a", "  a b\t\n", "\u{3000}x\u{2003}", "•", " \u{200b} "] {
        assert_eq!(trim(s), s.trim());
    }
    assert_eq!(fill(Some("  x ")), Some("x".to_string()));
    assert_eq!(fill(Some("  ")), None);
    assert_eq!(fill(None), None);
}

#[test]
fn numbers_are_read_as_the_standard_library_reads_them() {
    let samples = [
        "0", "1", "+1", "-1", "-0", "+", "-", "", " 1", "1 ", "007", "18446744073709551615",
        "18446744073709551616", "4294967295", "4294967296", "9223372036854775807",
        "9223372036854775808", "-9223372036854775808", "-9223372036854775809", "1e3", "1.0", "--1",
        "+-1", "٣", "99999999999999999999999999",
    ];
    for s in samples {
        assert_eq!(parse_u64(s), s.parse::<u64>().ok(), "{s}");
        assert_eq!(parse_u32(s), s.parse::<u32>().ok(), "{s}");
        assert_eq!(parse_i64(s), s.parse::<i64>().ok(), "{s}");
    }
}

#[test]
fn decimal_text_reads_back() {
    for n in [0, 9, 10, 64, 123, 1_700_000_000_000, u64::MAX] {
        assert_eq!(write_u64(n), n.to_string());
        assert_eq!(parse_u64(&write_u64(n)), Some(n));
    }
}

#[test]
fn lower_case_is_ascii_only() {
    assert_eq!(to_lowered("ÄBC xYZ9"), "Äbc xyz9");
    assert_eq!(to_lowered("TRUE"), "true");
}

#[test]
fn texts_are_compared_and_searched() {
    assert!(same("añb", "añb"));
    assert!(!same("a", "ab"));
    assert!(!same("ab", "a"));
    assert!(contains("/usr/bin/wwrpc-git", "wwrpc"));
    assert!(contains("abc", ""));
    assert!(contains("", ""));
    assert!(!contains("wwrp", "wwrpc"));
    assert_eq!(glue("a", "•b"), "a•b");
    let chars = chars_of("x/y/z");
    assert_eq!(text_of(&chars, 2, 3), "y");
    assert_eq!(find_after_last(&chars, 5, '/'), 4);
    assert_eq!(find_after_last(&chars, 5, ')'), 0);
}

#[test]
fn paths_join_as_the_standard_library_joins_them() {
    for base in ["", ".", "/", "/home/x", "/home/x/", "a b"] {
        for rest in ["wwrpc", ".steam/steam", "discord-ipc-0"] {
            assert_eq!(
                join_path(base, rest),
                Path::new(base).join(rest).to_str().unwrap(),
                "{base} {rest}"
            );
        }
    }
}
