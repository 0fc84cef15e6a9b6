use yodawg::text::{
    contains_any, contains_char, contains_whitespace, decimal_string, first_line_of, is_whitespace,
    push_hex2, str_eq, str_lt, trim,
};

#[test]
fn equality_and_search() {
    assert!(str_eq("tcg", "tcg"));
    assert!(!str_eq("tcg", "tc"));
    assert!(!str_eq("tcg", "kvm"));
    assert!(contains_char("a,b", ','));
    assert!(!contains_char("ab", ','));
    assert!(contains_any("vm|1", "/|"));
    assert!(!contains_any("vm1", "/|"));
    assert!(contains_whitespace("a\u{3000}b"));
    assert!(!contains_whitespace("ab"));
}

#[test]
fn whitespace_matches_std() {
    for c in ['\t', '\n', '\u{b}', '\u{c}', '\r', ' ', '\u{85}', '\u{a0}', '\u{1680}', '\u{2000}',
        '\u{200a}', '\u{2028}', '\u{2029}', '\u{202f}', '\u{205f}', '\u{3000}', 'a', '\u{200b}', '\u{180e}', '0']
    {
        assert_eq!(is_whitespace(c), c.is_whitespace(), "{:?}", c);
    }
}

#[test]
fn trim_matches_std() {
    for s in ["", "   ", " a ", "\t\nab c\r\n", "x", "\u{3000}wide\u{a0}", "a  "] {
        assert_eq!(trim(s), s.trim());
    }
}

#[test]
fn decimal_rendering() {
    assert_eq!(decimal_string(0), "0");
    assert_eq!(decimal_string(7), "7");
    assert_eq!(decimal_string(5900), "5900");
    assert_eq!(decimal_string(u64::MAX), u64::MAX.to_string());
}

#[test]
fn hex_rendering() {
    let mut s = String::new();
    push_hex2(&mut s, 0x0a);
    push_hex2(&mut s, 0xff);
    push_hex2(&mut s, 0x00);
    assert_eq!(s, "0aff00");
}

#[test]
fn first_line_like_lines() {
    for s in ["", "\n", "abc", "abc\ndef", "abc\r\ndef", "baz\r", "\r\nx", "one\n"] {
        assert_eq!(first_line_of(s), s.lines().next(), "{:?}", s);
    }
}

#[test]
fn ordering_like_string_order() {
    let words = ["", "a", "b", "ab", "abc", "B", "é", "z", "aa"];
    for x in words {
        for y in words {
            assert_eq!(str_lt(x, y), x < y, "{x} {y}");
        }
    }
}
