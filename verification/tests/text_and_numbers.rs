use fro::numbers::{format_decimal, parse_i32, parse_u32, parse_unsigned, parse_usize};
use fro::text::{
    char_to_uppercase, join2, contains, error_message, same_text, starts_with, to_lowercase,
    trim,
};

#[test]
fn trim_removes_unicode_white_space_at_both_ends() {
    assert_eq!(trim("  a b \t\n"), "a b");
    assert_eq!(trim("\u{3000}x\u{a0}"), "x");
    assert_eq!(trim("   "), "");
    assert_eq!(trim(""), "");
    assert_eq!(trim("no-space"), "no-space");
    for s in ["  a ", "\u{2003}b\u{2028}", "c", " \u{85}d e\u{205f} "] {
        assert_eq!(trim(s), s.trim());
    }
}

#[test]
fn parse_agrees_with_std() {
    let cases = [
        "", "+", "-", "0", "007", "+42", "-42", "42a", " 42", "4294967295", "4294967296",
        "18446744073709551615", "18446744073709551616", "-0", "+-1", "2147483647",
        "2147483648", "-2147483648", "-2147483649",
    ];
    for c in cases {
        assert_eq!(parse_u32(c), c.parse::<u32>().ok(), "u32 {c}");
        assert_eq!(parse_usize(c), c.parse::<usize>().ok(), "usize {c}");
        assert_eq!(parse_i32(c), c.parse::<i32>().ok(), "i32 {c}");
    }
}

#[test]
fn parse_unsigned_respects_the_bound() {
    assert_eq!(parse_unsigned("100", 100), Some(100));
    assert_eq!(parse_unsigned("101", 100), None);
    assert_eq!(parse_unsigned("+7", 9), Some(7));
}

#[test]
fn format_decimal_agrees_with_to_string() {
    for n in [0u64, 7, 10, 99, 100, 65536, 1_000_000_007, u64::MAX] {
        assert_eq!(format_decimal(n), n.to_string());
    }
}

#[test]
fn printed_numbers_parse_back() {
    for n in [0usize, 1, 48, 100, 123456789] {
        assert_eq!(parse_usize(&format_decimal(n as u64)), Some(n));
    }
}

#[test]
fn search_helpers() {
    assert!(starts_with("Error: boom", "Error"));
    assert!(!starts_with("Saved", "Error"));
    assert!(starts_with("abc", ""));
    assert!(contains("Tokenizer ready. Restart to activate it.", "Restart to activate"));
    assert!(!contains("Restart later", "Restart to activate"));
    assert!(contains("", ""));
    assert!(same_text("on", "on"));
    assert!(!same_text("on", "On"));
    assert_eq!(join2("ab", "cd"), "abcd");
    assert_eq!(error_message("timeout"), "Error: timeout");
}

#[test]
fn case_mappings() {
    assert_eq!(to_lowercase("TrUe"), "true");
    assert_eq!(char_to_uppercase('a'), "A");
    assert_eq!(char_to_uppercase('7'), "7");
    assert_eq!(char_to_uppercase('ß'), "SS");
}
