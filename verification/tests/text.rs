use synkmusic_rpc::text::{decimal_string, format_time, truncate};

#[test]
fn truncate_keeps_short_text_whole() {
    assert_eq!(truncate("hello", 128), "hello");
    assert_eq!(truncate("", 3), "");
}

#[test]
fn truncate_cuts_ascii_at_limit() {
    assert_eq!(truncate("hello world", 5), "hello");
    assert_eq!(truncate("abc", 0), "");
}

#[test]
fn truncate_never_splits_a_character() {
    // 'é' takes two bytes: a cut after the first of them falls back before it.
    assert_eq!(truncate("héllo", 2), "h");
    assert_eq!(truncate("héllo", 3), "hé");
    // '·' takes two bytes, '😀' four.
    assert_eq!(truncate("a·b", 2), "a");
    assert_eq!(truncate("😀x", 3), "");
    assert_eq!(truncate("😀x", 4), "😀");
}

#[test]
fn truncate_twice_is_truncate_once() {
    let s = "Ünïcødé title with accents";
    let once = truncate(s, 10);
    assert_eq!(truncate(once, 10), once);
    assert_eq!(truncate(truncate(s, 12), 7), truncate(s, 7));
    assert!(once.len() <= 10);
    assert!(s.starts_with(once));
}

#[test]
fn truncate_long_title_to_discord_limit() {
    let long = "x".repeat(300);
    assert_eq!(truncate(&long, 128).len(), 128);
}

#[test]
fn format_time_pads_seconds() {
    assert_eq!(format_time(125), "2:05");
    assert_eq!(format_time(0), "0:00");
    assert_eq!(format_time(59), "0:59");
    assert_eq!(format_time(60), "1:00");
    assert_eq!(format_time(3725), "62:05");
}

#[test]
fn format_time_of_largest_value() {
    assert_eq!(format_time(u64::MAX), format!("{}:{:02}", u64::MAX / 60, u64::MAX % 60));
}

#[test]
fn decimal_renders_numbers() {
    assert_eq!(decimal_string(0), "0");
    assert_eq!(decimal_string(7), "7");
    assert_eq!(decimal_string(1234567890), "1234567890");
    assert_eq!(decimal_string(u64::MAX), u64::MAX.to_string());
}
