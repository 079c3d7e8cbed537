use atomic_sync::text::{
    contains_text, decimal_text, find_text, format_count, same_text, split_once, starts_with,
    strip_prefix, take_bytes,
};

#[test]
fn counts_have_their_plural() {
    assert_eq!(format_count(0, "change"), "0 changes");
    assert_eq!(format_count(1, "provenance graph"), "1 provenance graph");
    assert_eq!(format_count(120, "local change"), "120 local changes");
}

#[test]
fn numbers_are_written_in_decimal() {
    assert_eq!(decimal_text(0), "0");
    assert_eq!(decimal_text(10), "10");
    assert_eq!(decimal_text(u64::MAX), "18446744073709551615");
}

#[test]
fn text_is_found_at_its_first_place() {
    assert_eq!(find_text("a://b://c", "://"), Some(1));
    assert_eq!(find_text("abc", "://"), None);
    assert!(contains_text("https://x", "://"));
    assert!(!contains_text("origin", "://"));
    assert_eq!(split_once("a://b://c", "://"), Some(("a", "b://c")));
    assert_eq!(split_once("abc", "/"), None);
}

#[test]
fn prefixes_are_cut_off() {
    assert!(starts_with("grpc://h", "grpc://"));
    assert!(!starts_with("grp", "grpc://"));
    assert_eq!(strip_prefix("grpc://h", "grpc://"), Some("h"));
    assert_eq!(strip_prefix("http://h", "grpc://"), None);
    assert!(same_text("dev", "dev"));
    assert!(!same_text("dev", "main"));
}

#[test]
fn bytes_are_taken_from_the_front() {
    assert_eq!(take_bytes("abcdef", 3), "abc");
    assert_eq!(take_bytes("ab", 3), "ab");
    assert_eq!(take_bytes("\u{e9}x", 2), "\u{e9}");
}
