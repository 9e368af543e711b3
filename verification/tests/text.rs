use sysinfo::chars::{chars_of, string_of, trimmed, trimmed_end, trimmed_start, white_space};
use sysinfo::decimal::{parse_u64, spells_u64, to_u64};
use sysinfo::text::{before, begins_with, behind, filled, find, lines_of, pieces, same_text};

fn parse(s: &str) -> Option<u64> {
    parse_u64(&chars_of(s))
}

#[test]
fn splitting_keeps_every_piece() {
    assert_eq!(pieces(b"a,,b,", b','), vec![&b"a"[..], b"", b"b", b""]);
    assert_eq!(pieces(b"", b','), vec![&b""[..]]);
    assert_eq!(filled(&pieces(b"a,,b,", b',')), vec![&b"a"[..], b"b"]);
}

#[test]
fn splitting_and_joining_gives_the_text_back() {
    let text = b"one two  three ";
    let joined = pieces(text, b' ').join(&b' ');
    assert_eq!(joined, text);
}

#[test]
fn a_last_line_counts_where_it_holds_something() {
    assert_eq!(lines_of(b"a\nb\n"), vec![&b"a"[..], b"b"]);
    assert_eq!(lines_of(b"a\n\nb"), vec![&b"a"[..], b"", b"b"]);
    assert_eq!(lines_of(b"").len(), 0);
    assert_eq!(lines_of(b"\n"), vec![&b""[..]]);
}

#[test]
fn pieces_around_the_first_separator() {
    assert_eq!(find(b"key: 1: 2", b':'), 3);
    assert_eq!(find(b"key", b':'), 3);
    assert_eq!(before(b"key: 1: 2", b':'), b"key");
    assert_eq!(behind(b"key: 1: 2", b':'), Some(&b" 1: 2"[..]));
    assert_eq!(before(b"key", b':'), b"key");
    assert_eq!(behind(b"key", b':'), None);
    assert_eq!(behind(b"key:", b':'), Some(&b""[..]));
}

#[test]
fn prefixes_and_equality() {
    assert!(begins_with(b"cpu0 1", b"cpu"));
    assert!(begins_with(b"cpu", b""));
    assert!(!begins_with(b"cp", b"cpu"));
    assert!(!begins_with(b"cpa", b"cpu"));
    assert!(same_text(b"abc", b"abc"));
    assert!(!same_text(b"abc", b"abcd"));
    assert!(!same_text(b"abd", b"abc"));
}

#[test]
fn bytes_spell_a_number() {
    assert_eq!(to_u64(b""), 0);
    assert_eq!(to_u64(b"0"), 0);
    assert_eq!(to_u64(b"1633450260"), 1633450260);
    assert_eq!(to_u64(b"18446744073709551615"), u64::MAX);
    // A byte beyond the digits stands for its distance from zero.
    assert_eq!(to_u64(b"1:"), 20);
}

#[test]
fn the_digits_of_a_number_spell_it() {
    for n in [0, 9, 10, 4096, 999_999, u64::MAX] {
        assert_eq!(to_u64(n.to_string().as_bytes()), n);
    }
}

#[test]
fn bytes_that_spell_no_number() {
    assert!(spells_u64(b"12"));
    assert!(spells_u64(b"18446744073709551615"));
    assert!(!spells_u64(b"18446744073709551616"));
    assert!(!spells_u64(b"99999999999999999999"));
    assert!(!spells_u64(b"-1"));
    assert!(!spells_u64(b"1 2"));
}

#[test]
fn text_that_is_a_number() {
    assert_eq!(parse("42"), Some(42));
    assert_eq!(parse("+42"), Some(42));
    assert_eq!(parse("007"), Some(7));
    assert_eq!(parse("18446744073709551615"), Some(u64::MAX));
}

#[test]
fn text_that_is_no_number() {
    for s in ["", "+", "-1", "++1", "1 ", " 1", "1a", "1_000", "18446744073709551616", "\u{661}"] {
        assert_eq!(parse(s), None, "{}", s);
        assert_eq!(s.parse::<u64>().ok(), None, "{}", s);
    }
}

#[test]
fn characters_make_the_string_again() {
    let s = "gr\u{fc}n \u{1f600}";
    assert_eq!(chars_of(s), s.chars().collect::<Vec<char>>());
    assert_eq!(string_of(&chars_of(s)), s);
    assert_eq!(string_of(&[]), "");
}

#[test]
fn white_space_is_what_unicode_calls_it() {
    for u in 0..0x11_0000u32 {
        if let Some(c) = char::from_u32(u) {
            assert_eq!(white_space(c), c.is_whitespace(), "{:x}", u);
        }
    }
}

#[test]
fn trimming() {
    let chars = chars_of(" \t a b\u{3000}\n");
    assert_eq!(string_of(trimmed_start(&chars)), "a b\u{3000}\n");
    assert_eq!(string_of(trimmed_end(&chars)), " \t a b");
    assert_eq!(string_of(trimmed(&chars)), "a b");
    assert_eq!(string_of(trimmed(&chars_of(" \n "))), "");
}
