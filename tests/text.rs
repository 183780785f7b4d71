use std::num::IntErrorKind;
use nvfancontrol::text::{
    decimal_string, parse_u16_checked, signed_decimal_string, ParseError,
    chars_of, contains_chars, is_whitespace, parse_u16_chars, split_chars, starts_with_chars,
    trim_chars, words_of,
};

fn cs(s: &str) -> Vec<char> {
    s.chars().collect()
}

#[test]
fn chars_of_keeps_every_character() {
    assert_eq!(chars_of("a°b c"), vec!['a', '°', 'b', ' ', 'c']);
    assert_eq!(chars_of(""), Vec::<char>::new());
}

#[test]
fn whitespace_is_unicode_whitespace() {
    for c in [' ', '\t', '\n', '\r', '\u{0b}', '\u{0c}', '\u{85}', '\u{a0}', '\u{2003}', '\u{3000}'] {
        assert!(is_whitespace(c));
        assert!(c.is_whitespace());
    }
    for c in ['a', '0', '#', '\u{200b}'] {
        assert!(!is_whitespace(c));
        assert!(!c.is_whitespace());
    }
}

#[test]
fn trim_drops_both_ends() {
    assert_eq!(trim_chars(&cs("  a b \t")), cs("a b"));
    assert_eq!(trim_chars(&cs("   ")), cs(""));
    assert_eq!(trim_chars(&cs("x")), cs("x"));
}

#[test]
fn split_keeps_empty_pieces() {
    assert_eq!(split_chars(&cs("a,,b"), ','), vec![cs("a"), cs(""), cs("b")]);
    assert_eq!(split_chars(&cs(""), ','), vec![cs("")]);
    assert_eq!(split_chars(&cs("a,"), ','), vec![cs("a"), cs("")]);
}

#[test]
fn words_are_runs_of_non_blanks() {
    assert_eq!(words_of(&cs("  41\t 20  x ")), vec![cs("41"), cs("20"), cs("x")]);
    assert_eq!(words_of(&cs("  ")), Vec::<Vec<char>>::new());
}

#[test]
fn prefix_and_substring() {
    assert!(starts_with_chars(&cs("points = 1"), &cs("points")));
    assert!(!starts_with_chars(&cs("point"), &cs("points")));
    assert!(contains_chars(&cs("[[gpu]]"), &cs("[gpu]")));
    assert!(!contains_chars(&cs("[[gpus"), &cs("[gpu]")));
    assert!(contains_chars(&cs("abc"), &cs("")));
}

#[test]
fn u16_parsing_matches_std() {
    for s in ["0", "7", "+7", "007", "65535", "65536", "", "+", "-1", "1x", " 1", "99999999999"] {
        assert_eq!(parse_u16_chars(&cs(s)), s.parse::<u16>().ok(), "{:?}", s);
    }
}

#[test]
fn u16_parse_errors_match_std() {
    for s in ["", "+", "-", "-1", "1x", "x1", "65536", "99999x", "1 ", "007", "+65535"] {
        let ours = parse_u16_checked(&cs(s));
        match s.parse::<u16>() {
            Ok(v) => assert_eq!(ours, Ok(v), "{:?}", s),
            Err(e) => {
                let kind = match e.kind() {
                    IntErrorKind::Empty => ParseError::Empty,
                    IntErrorKind::InvalidDigit => ParseError::InvalidDigit,
                    IntErrorKind::PosOverflow => ParseError::PosOverflow,
                    k => panic!("unexpected kind {:?}", k),
                };
                assert_eq!(ours, Err(kind), "{:?}", s);
                assert_eq!(kind.message(), e.to_string());
            }
        }
    }
}

#[test]
fn decimal_text() {
    for n in [0u64, 7, 10, 75, 100, 65535, u64::MAX] {
        assert_eq!(decimal_string(n), n.to_string());
    }
    for n in [0i32, -1, -75, 42, i32::MIN, i32::MAX] {
        assert_eq!(signed_decimal_string(n), n.to_string());
    }
}
