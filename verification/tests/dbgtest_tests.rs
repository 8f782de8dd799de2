//! Tests of the debug output generator's messages and input handling

use dbgview::dbgtest::{
    basic_message, burst_message, classify_input, continuous_message, generate_random_data,
    interactive_message, level_message, multi_tag, multi_tag_message, pattern_message,
    pause_after, random_tag, test_pattern, InputAction, PATTERN_COUNT, TAG_COUNT,
};
use dbgview::text::{eq_ignore_ascii_case, is_whitespace, trim};

#[test]
fn random_data_is_alphanumeric_of_requested_length() {
    for len in [0usize, 1, 8, 20] {
        let s = generate_random_data(len);
        assert_eq!(s.chars().count(), len);
        assert!(s.chars().all(|c| c.is_ascii_alphanumeric()));
    }
}

#[test]
fn message_formats() {
    assert_eq!(
        basic_message("TEST", "12:00:00.000", 3, 10, "hello"),
        "[TEST] [12:00:00.000] Message 3/10: hello"
    );
    assert_eq!(
        multi_tag_message("WARN", "t", 7, "Warning: potential issue", "abcd1234"),
        "[WARN] [t] #7: Warning: potential issue - abcd1234"
    );
    assert_eq!(continuous_message("TAG", "t", 42, "m"), "[TAG] [t] Continuous #42: m");
    assert_eq!(burst_message(1000, "xyz"), "[BURST] #1000: xyz");
    assert_eq!(pattern_message("[PERF] x", "t"), "[PERF] x @t");
    assert_eq!(interactive_message("T", "t", "typed"), "[T] [t] typed");
}

#[test]
fn levels_and_tags() {
    assert_eq!(TAG_COUNT, 6);
    let tags: Vec<&str> = (0..TAG_COUNT).map(multi_tag).collect();
    assert_eq!(tags, vec!["INFO", "DEBUG", "WARN", "ERROR", "TRACE", "VERBOSE"]);
    assert_eq!(level_message("ERROR"), "Critical failure detected!");
    assert_eq!(level_message("VERBOSE"), "Verbose: detailed trace data");
    assert_eq!(level_message("OTHER"), "Message");
}

#[test]
fn patterns_listed() {
    assert_eq!(PATTERN_COUNT, 16);
    assert_eq!(test_pattern(0), ("[APP:Main] Starting application v1.0.0", "App lifecycle"));
    assert_eq!(test_pattern(15), ("[WARN] Low disk space: 500MB remaining", "Warning"));
}

#[test]
fn typed_input_is_classified() {
    assert!(matches!(classify_input("  QuIt \n"), InputAction::Quit));
    assert!(matches!(classify_input("   \n"), InputAction::Skip));
    match classify_input("  hello world \r\n") {
        InputAction::Send(s) => assert_eq!(s, "hello world"),
        other => panic!("unexpected action: {:?}", other),
    }
    match classify_input("quitting") {
        InputAction::Send(s) => assert_eq!(s, "quitting"),
        other => panic!("unexpected action: {:?}", other),
    }
}

#[test]
fn text_helpers() {
    assert_eq!(trim("\t a b \u{3000}"), "a b");
    assert_eq!(trim(""), "");
    assert!(eq_ignore_ascii_case("Ab", "aB"));
    assert!(!eq_ignore_ascii_case("Ä", "ä"));
    assert!(!eq_ignore_ascii_case("ab", "abc"));
}

#[test]
fn random_tag_is_one_of_the_tags() {
    let tags: Vec<&str> = (0..TAG_COUNT).map(multi_tag).collect();
    for _ in 0..50 {
        assert!(tags.contains(&random_tag()));
    }
}

#[test]
fn whitespace_agrees_with_std() {
    for code in 0..=0x10FFFFu32 {
        if let Some(c) = char::from_u32(code) {
            assert_eq!(is_whitespace(c), c.is_whitespace(), "U+{:04X}", code);
        }
    }
}

#[test]
fn pauses_after_every_message_but_the_last() {
    assert!(pause_after(1, 3));
    assert!(pause_after(2, 3));
    assert!(!pause_after(3, 3));
    assert!(!pause_after(1, 1));
}
