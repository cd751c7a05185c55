use veridion::config::TelemetryConfig;
use veridion::telemetry::{Telemetry, TelemetryError};
use veridion::text::{count_words, trim, contains_str, i64_to_decimal, join3, lex_le_str, str_eq, u64_to_decimal};

#[test]
fn decimal_rendering() {
    assert_eq!(u64_to_decimal(0), "0");
    assert_eq!(u64_to_decimal(80), "80");
    assert_eq!(u64_to_decimal(u64::MAX), "18446744073709551615");
    assert_eq!(i64_to_decimal(-42), "-42");
    assert_eq!(i64_to_decimal(i64::MIN), "-9223372036854775808");
    assert_eq!(i64_to_decimal(7), "7");
}

#[test]
fn substring_and_order() {
    assert!(contains_str("git push origin", "push"));
    assert!(contains_str("abc", ""));
    assert!(!contains_str("ab", "abc"));
    assert!(lex_le_str("a", "b"));
    assert!(lex_le_str("ab", "ab"));
    assert!(lex_le_str("a", "ab"));
    assert!(!lex_le_str("b", "ab"));
    assert!(str_eq("x", "x"));
    assert!(!str_eq("x", "y"));
    assert_eq!(join3("a", "-", "b"), "a-b");
}

#[test]
fn telemetry_disabled_installs_nothing() {
    let config = TelemetryConfig { enable_tracing: false, log_level: "not a level [".to_string() };
    let t = Telemetry::new(config).expect("telemetry");
    assert!(!t.config().enable_tracing);
    assert_eq!(t.config().log_level, "not a level [");
}

#[test]
fn telemetry_falls_back_to_info_for_a_bad_level() {
    let config = TelemetryConfig { enable_tracing: true, log_level: "veridion=[".to_string() };
    let t = Telemetry::new(config).expect("telemetry");
    assert!(t.config().enable_tracing);
    assert_eq!(t.config().log_level, "veridion=[");
}

#[test]
fn telemetry_error_messages() {
    assert_eq!(
        TelemetryError::InvalidConfig("x".to_string()).message(),
        "invalid telemetry configuration: x"
    );
    assert_eq!(
        TelemetryError::Initialization("y".to_string()).message(),
        "failed to initialize telemetry: y"
    );
}

#[test]
fn telemetry_rejects_a_directive_part_starting_with_white_space() {
    let config = TelemetryConfig { enable_tracing: true, log_level: "info, \u{e9}=x".to_string() };
    match Telemetry::new(config) {
        Err(TelemetryError::InvalidConfig(m)) => {
            assert_eq!(m, "a filter directive starts with white space: info, \u{e9}=x")
        }
        _ => panic!("expected an invalid configuration"),
    }
}

#[test]
fn trim_and_word_count_follow_unicode_white_space() {
    let samples = ["", "   ", "  a b  ", "\u{a0}x\u{3000}", "one", "\tline\n", " a\u{2003}b\u{85}c "];
    for text in samples {
        assert_eq!(trim(text), text.trim());
        assert_eq!(count_words(text), text.split_whitespace().count());
    }
}
