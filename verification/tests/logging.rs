use appflow::logfmt::{
    contains_subslice, format_line, i64_decimal, log_enabled, tags, timest, u64_decimal,
};

#[test]
fn subslice_search_finds_exceptions() {
    assert!(contains_subslice(b"tokio::runtime::worker", b"tokio"));
    assert!(contains_subslice(b"hyper_utils::client", b"hyper_utils"));
    assert!(contains_subslice(b"abc", b"abc"));
    assert!(contains_subslice(b"abc", b""));
    assert!(!contains_subslice(b"", b"a"));
    assert!(!contains_subslice(b"my_app::server", b"tokio"));
    assert!(!contains_subslice(b"ab", b"abc"));
    assert!(contains_subslice(b"aab", b"ab"));
}

#[test]
fn tags_wraps_the_id_in_a_mention() {
    assert_eq!(tags("455622761168109569"), "<@455622761168109569>");
    assert_eq!(tags(""), "<@>");
}

#[test]
fn timest_wraps_the_seconds_in_a_timestamp_marker() {
    assert_eq!(timest(10), "<t:10:f>");
    assert_eq!(timest(0), "<t:0:f>");
    assert_eq!(timest(-5), "<t:-5:f>");
    assert_eq!(timest(1730000000), "<t:1730000000:f>");
}

#[test]
fn decimal_rendering_is_exact() {
    assert_eq!(u64_decimal(0), "0");
    assert_eq!(u64_decimal(7), "7");
    assert_eq!(u64_decimal(1234567890), "1234567890");
    assert_eq!(u64_decimal(u64::MAX), "18446744073709551615");
    assert_eq!(i64_decimal(i64::MIN), "-9223372036854775808");
    assert_eq!(i64_decimal(-1), "-1");
}

#[test]
fn log_line_layout_is_exact() {
    let line = format_line(
        "2024-01-02 03:04:05",
        "INFO",
        "appflow",
        "src/lib.rs",
        42,
        "hello info",
    );
    assert_eq!(
        line,
        "[2024-01-02 03:04:05] [INFO] - [appflow] [src/lib.rs:42] - hello info"
    );
}

#[test]
fn level_gate_matches_the_thresholds() {
    // Levels as in the log crate: error 1, warn 2, info 3, debug 4, trace 5.
    assert!(log_enabled(1, false, false));
    assert!(log_enabled(3, false, false));
    assert!(!log_enabled(4, false, false));
    assert!(log_enabled(4, false, true));
    assert!(!log_enabled(5, false, true));
    // A record whose target matched an exception never passes.
    assert!(!log_enabled(1, true, true));
}
