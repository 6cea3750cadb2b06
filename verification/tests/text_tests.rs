use tiledeck::text::{
    contains, is_whitespace, lines, parse_i32, split_char, split_whitespace, str_eq, strip_prefix, trim,
};

#[test]
fn trim_removes_surrounding_whitespace() {
    assert_eq!(trim("  abc \t\n"), "abc");
    assert_eq!(trim("abc"), "abc");
    assert_eq!(trim("   "), "");
    assert_eq!(trim(""), "");
    assert_eq!(trim("\u{3000}a b\u{a0}"), "a b");
}

#[test]
fn trim_agrees_with_std() {
    for s in ["", " ", "x", " x ", "\r\n0x1\r\n", "\u{85}a\u{2028}", "a\u{200b}"] {
        assert_eq!(trim(s), s.trim());
    }
}

#[test]
fn whitespace_matches_std() {
    for c in ['\t', '\n', ' ', '\u{85}', '\u{a0}', '\u{1680}', '\u{2000}', '\u{200a}', '\u{3000}', 'a', '\u{200b}', '0'] {
        assert_eq!(is_whitespace(c), c.is_whitespace());
    }
}

#[test]
fn split_char_keeps_empty_pieces() {
    assert_eq!(split_char("a,b,,c", ','), vec!["a", "b", "", "c"]);
    assert_eq!(split_char("", ','), vec![""]);
    assert_eq!(split_char(",", ','), vec!["", ""]);
    assert_eq!(split_char("800x600", 'x'), vec!["800", "600"]);
}

#[test]
fn lines_match_std() {
    for s in ["", "a", "a\n", "a\nb", "a\r\nb\r\n", "\n", "a\n\n", "a\r", "a\rb\n"] {
        let expected: Vec<String> = s.lines().map(|l| l.to_string()).collect();
        assert_eq!(lines(s), expected, "input {:?}", s);
    }
}

#[test]
fn contains_finds_substrings() {
    assert!(contains("alsa_output.hdmi-stereo", "hdmi"));
    assert!(!contains("alsa_output.usb", "hdmi"));
    assert!(contains("abc", ""));
    assert!(!contains("", "a"));
    assert!(contains("abc", "abc"));
    assert!(!contains("ab", "abc"));
}

#[test]
fn str_eq_compares_characters() {
    assert!(str_eq("plasma", "plasma"));
    assert!(!str_eq("plasma", "plasm"));
    assert!(!str_eq("Plasma", "plasma"));
}

#[test]
fn strip_prefix_cuts_prefix() {
    assert_eq!(strip_prefix("Position: 1,2", "Position:"), Some(" 1,2".to_string()));
    assert_eq!(strip_prefix("Geometry: 1x2", "Position:"), None);
    assert_eq!(strip_prefix("Pos", "Position:"), None);
}

#[test]
fn parse_i32_matches_std() {
    for s in [
        "0", "42", "-42", "+7", "-", "+", "", " 1", "1 ", "2147483647", "2147483648", "-2147483648",
        "-2147483649", "0007", "99999999999999999999", "1a", "--1",
    ] {
        assert_eq!(parse_i32(s), s.parse::<i32>().ok(), "input {:?}", s);
    }
}

#[test]
fn split_whitespace_matches_std() {
    for s in ["", "  ", "a", "1\talsa_output.pci hdmi\tRUNNING", " a  b ", "a\u{3000}b"] {
        let expected: Vec<String> = s.split_whitespace().map(|w| w.to_string()).collect();
        assert_eq!(split_whitespace(s), expected, "input {:?}", s);
    }
}
