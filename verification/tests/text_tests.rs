use git_commitizen::number::{is_valid_integer, parse_i32};
use git_commitizen::text::{contains_chars, first_word, pad_right_to, trim, white_space};

#[test]
fn white_space_set() {
    for c in [' ', '\t', '\n', '\r', '\u{b}', '\u{c}', '\u{85}', '\u{a0}', '\u{2003}', '\u{3000}'] {
        assert!(white_space(c));
        assert!(c.is_whitespace());
    }
    for c in ['a', '0', '-', '\u{200b}', '_'] {
        assert!(!white_space(c));
    }
    for u in 0u32..=0x10ffff {
        if let Some(c) = char::from_u32(u) {
            assert_eq!(white_space(c), c.is_whitespace(), "{:x}", u);
        }
    }
}

#[test]
fn trimming() {
    assert_eq!(trim("  a b \n"), "a b");
    assert_eq!(trim("\u{3000}x\u{a0}"), "x");
    assert_eq!(trim("   "), "");
    assert_eq!(trim(""), "");
    assert_eq!(trim("abc"), "abc");
}

#[test]
fn first_words() {
    assert_eq!(first_word("feat         - A new feature"), Some("feat".to_string()));
    assert_eq!(first_word("  \tfix  x"), Some("fix".to_string()));
    assert_eq!(first_word("alone"), Some("alone".to_string()));
    assert_eq!(first_word("   "), None);
    assert_eq!(first_word(""), None);
}

#[test]
fn substring_search() {
    let hay: Vec<char> = "a bug fix".chars().collect();
    assert!(contains_chars(&hay, &"bug".chars().collect()));
    assert!(contains_chars(&hay, &Vec::new()));
    assert!(contains_chars(&hay, &"a bug fix".chars().collect()));
    assert!(!contains_chars(&hay, &"bugs".chars().collect()));
    assert!(!contains_chars(&hay, &"a bug fix!".chars().collect()));
}

#[test]
fn padding() {
    assert_eq!(pad_right_to("ab", 5), "ab   ");
    assert_eq!(pad_right_to("abcdef", 3), "abcdef");
    assert_eq!(pad_right_to("", 2), "  ");
}

#[test]
fn integers() {
    assert_eq!(parse_i32("42"), Some(42));
    assert_eq!(parse_i32("+7"), Some(7));
    assert_eq!(parse_i32("-2147483648"), Some(i32::MIN));
    assert_eq!(parse_i32("2147483647"), Some(i32::MAX));
    assert_eq!(parse_i32("2147483648"), None);
    assert_eq!(parse_i32("-2147483649"), None);
    assert_eq!(parse_i32("99999999999999999999"), None);
    assert_eq!(parse_i32("007"), Some(7));
    assert_eq!(parse_i32(""), None);
    assert_eq!(parse_i32("-"), None);
    assert_eq!(parse_i32("+"), None);
    assert_eq!(parse_i32("1a"), None);
    assert_eq!(parse_i32("١"), None);
    assert_eq!(parse_i32(" 1"), None);
    for s in ["0", "-0", "+-1", "--1", "12 ", "3.0", "1_000", "-12345"] {
        assert_eq!(parse_i32(s), s.parse::<i32>().ok(), "{}", s);
    }
}

#[test]
fn integer_validation_trims() {
    assert!(is_valid_integer("  123 "));
    assert!(is_valid_integer("-5\n"));
    assert!(!is_valid_integer("12a"));
    assert!(!is_valid_integer(""));
    assert!(!is_valid_integer("   "));
}

#[test]
fn trimming_twice_is_trimming_once() {
    for s in ["  a ", "\tb\u{3000}", "", "   ", "c"] {
        assert_eq!(trim(&trim(s)), trim(s));
        assert_eq!(trim(s), s.trim());
    }
}

#[test]
fn first_word_matches_std() {
    for s in ["  x y", "x", "", " \u{a0} ", "ab\u{2003}cd", "\nq"] {
        assert_eq!(first_word(s).as_deref(), s.split_whitespace().next());
    }
}
