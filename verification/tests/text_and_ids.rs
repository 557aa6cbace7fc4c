use audio_server::{contains_bytes, parse_hex_id, Track, TrackQuery};

fn track(id: u64, title: &str) -> Track {
    Track { id, title: title.to_string(), duration_ms: 1000, source_path: format!("{id}.wav") }
}

fn query(title: &str, read_cursor: u32, max_response: u32) -> TrackQuery {
    TrackQuery { title: title.to_string(), read_cursor, max_response }
}

#[test]
fn parses_lower_and_upper_hex() {
    assert_eq!(parse_hex_id("ff"), Some(255));
    assert_eq!(parse_hex_id("FF"), Some(255));
    assert_eq!(parse_hex_id("1A2b"), Some(0x1a2b));
    assert_eq!(parse_hex_id("0"), Some(0));
    assert_eq!(parse_hex_id("ffffffffffffffff"), Some(u64::MAX));
}

#[test]
fn rejects_bad_hex() {
    assert_eq!(parse_hex_id(""), None);
    assert_eq!(parse_hex_id("zz"), None);
    assert_eq!(parse_hex_id("12 4"), None);
    assert_eq!(parse_hex_id("-1"), None);
    // one digit past the largest value overflows
    assert_eq!(parse_hex_id("10000000000000000"), None);
}

#[test]
fn contains_bytes_finds_runs() {
    assert!(contains_bytes(&b"electric prince".to_vec(), &b"prince".to_vec()));
    assert!(contains_bytes(&b"abc".to_vec(), &b"".to_vec()));
    assert!(contains_bytes(&b"".to_vec(), &b"".to_vec()));
    assert!(!contains_bytes(&b"abc".to_vec(), &b"abcd".to_vec()));
    assert!(!contains_bytes(&b"abab".to_vec(), &b"bb".to_vec()));
}

#[test]
fn matches_is_case_insensitive_substring() {
    let t = track(1, "Electric Prince");
    assert!(t.matches(&query("PRINCE", 0, 10)));
    assert!(t.matches(&query("electric", 0, 10)));
    assert!(t.matches(&query("", 0, 10)));
    assert!(!t.matches(&query("princess", 0, 10)));
}
