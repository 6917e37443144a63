use spotify_tracker::text::{decimal_text, encode_spaces, text_eq, text_le, trim_whitespace};

#[test]
fn text_le_follows_string_order() {
    let pairs = [
        ("2024-01-01", "2024-01-02"),
        ("2024-01-02", "2024-01-01"),
        ("2024", "2024-01-01"),
        ("2024-01-01", "2024"),
        ("", ""),
        ("", "a"),
        ("a", ""),
        ("é", "z"),
        ("z", "é"),
        ("abc", "abc"),
    ];
    for (a, b) in pairs {
        assert_eq!(text_le(a, b), a <= b, "{} <= {}", a, b);
    }
}

#[test]
fn text_eq_compares_contents() {
    assert!(text_eq("compilation", "compilation"));
    assert!(!text_eq("compilation", "compilations"));
    assert!(!text_eq("album", "single"));
    assert!(text_eq("", ""));
}

#[test]
fn trim_whitespace_matches_str_trim() {
    let samples = ["  code123 \n", "\tabc", "abc", "", "   ", "\u{3000}x y\u{2028}", "a b"];
    for s in samples {
        assert_eq!(trim_whitespace(s), s.trim());
    }
}

#[test]
fn trimming_twice_changes_nothing() {
    let once = trim_whitespace("  \t spaced out \n ");
    assert_eq!(once, "spaced out");
    assert_eq!(trim_whitespace(once), once);
}

#[test]
fn decimal_text_writes_numbers() {
    assert_eq!(decimal_text(0), "0");
    assert_eq!(decimal_text(7), "7");
    assert_eq!(decimal_text(10), "10");
    assert_eq!(decimal_text(82800), "82800");
    assert_eq!(decimal_text(u64::MAX), u64::MAX.to_string());
}

#[test]
fn encode_spaces_replaces_every_space() {
    assert_eq!(encode_spaces("user-library-read user-follow-read"), "user-library-read%20user-follow-read");
    assert_eq!(encode_spaces(" a  b "), "%20a%20%20b%20");
    assert_eq!(encode_spaces("none"), "none");
    assert_eq!(encode_spaces(""), "");
}
