use pocketstation_relay::frame_publisher::{check_publication_counts, validate_bus, BUS_MAX_LEN};
use pocketstation_relay::json;
use pocketstation_relay::numeral::{decimal_chars, parse_u64};
use pocketstation_relay::text::{
    find_text, is_white_space, replaced_first, skip_prefixes, trimmed, truncate_text,
};

fn chars(text: &str) -> Vec<char> {
    text.chars().collect()
}

fn text(chars: &[char]) -> String {
    chars.iter().collect()
}

#[test]
fn white_space_is_that_of_unicode() {
    for c in '\0'..=char::MAX {
        assert_eq!(is_white_space(c), c.is_whitespace(), "{c:?}");
    }
}

#[test]
fn texts_are_trimmed_cut_and_replaced() {
    assert_eq!(text(trimmed(&chars(" \t a b\u{3000}\n"))), "a b");
    assert_eq!(find_text(&chars("aXbX"), &chars("X")), Some(1));
    assert_eq!(find_text(&chars("a"), &chars("ab")), None);
    assert_eq!(find_text(&chars(""), &chars("")), Some(0));
    assert_eq!(
        text(&replaced_first(&chars("a-b-c"), &chars("-"), &chars("++"))),
        "a++b-c"
    );
    assert_eq!(text(skip_prefixes(&chars("ababc"), &chars("ab"))), "c");
    assert_eq!(text(skip_prefixes(&chars("abc"), &chars(""))), "abc");
    assert_eq!(text(truncate_text(&chars("añ€🎵z"), 9)), "añ€");
    assert_eq!(text(truncate_text(&chars("añ€🎵z"), 10)), "añ€🎵");
    assert_eq!(text(truncate_text(&chars("añ€🎵z"), 11)), "añ€🎵z");
    assert_eq!(text(truncate_text(&chars("🎵"), 3)), "");
}

#[test]
fn numerals_read_back() {
    for n in [0, 7, 10, 30_000, u64::MAX] {
        assert_eq!(text(&decimal_chars(n)), n.to_string());
        assert_eq!(parse_u64(&decimal_chars(n)), Some(n));
    }
    for numeral in [
        "", "+", "-1", "1 ", " 1", "+7", "007", "1a", "18446744073709551615",
        "18446744073709551616", "99999999999999999999999", "++1", "٣",
    ] {
        assert_eq!(parse_u64(&chars(numeral)), numeral.parse::<u64>().ok(), "{numeral}");
    }
}

#[test]
fn json_strings_escape_what_they_must() {
    let mut all = String::new();
    for c in '\0'..='\u{a0}' {
        all.push(c);
    }
    all.push_str("€🎵\u{2028}");
    let quoted = text(&json::string(&all));
    assert_eq!(quoted, serde_json::to_string(&all).unwrap());
    assert_ne!(quoted, all);
    assert_eq!(text(&json::string("a\u{1f}\"\\\n")), "\"a\\u001f\\\"\\\\\\n\"");
    let items = vec![json::string("a"), json::string("b")];
    assert_eq!(text(&json::array(&items)), "[\"a\",\"b\"]");
    assert_eq!(text(&json::array(&Vec::new())), "[]");
    let members = vec![json::member("k", json::string("v"))];
    assert_eq!(text(&json::object(&members)), "{\"k\":\"v\"}");
}

#[test]
fn bus_labels_are_checked() {
    assert!(validate_bus("Stage.left_1-b").is_ok());
    assert!(validate_bus(&"x".repeat(BUS_MAX_LEN)).is_ok());
    for label in ["".to_owned(), "x".repeat(65), "é".repeat(33)] {
        assert_eq!(
            validate_bus(&label).unwrap_err(),
            "bus label must be 1–64 characters"
        );
    }
    assert_eq!(
        validate_bus("a b").unwrap_err(),
        "bus label 'a b' must contain only letters, digits, '.', '_', or '-'"
    );
    assert!(validate_bus("é").is_err());
    assert!(check_publication_counts(2, 2, 2).is_ok());
    for (media, streams, receivers) in [(1, 2, 1), (1, 1, 2), (0, 1, 1)] {
        assert_eq!(
            check_publication_counts(media, streams, receivers).unwrap_err(),
            "relay publisher media, stream and receiver counts do not match"
        );
    }
}
