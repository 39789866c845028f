use solana_tools::text::{decimal, integer, parse_usize, trimnw, white_space};

#[test]
fn trimnw_strips_white_space_and_nul_at_both_ends() {
    assert_eq!(trimnw("  abc \0\n"), "abc");
    assert_eq!(trimnw("\0\t\r\n token \u{3000}\u{85}"), "token");
    assert_eq!(trimnw("a b\0c"), "a b\0c");
}

#[test]
fn trimnw_of_padding_only_is_empty() {
    assert_eq!(trimnw(""), "");
    assert_eq!(trimnw(" \0 \t\u{2028}"), "");
}

#[test]
fn trimnw_is_idempotent_on_examples() {
    for s in ["  x  ", "\0\0y", "z\n", "", " a\0b "] {
        assert_eq!(trimnw(trimnw(s)), trimnw(s));
    }
}

#[test]
fn trimnw_agrees_with_std_trim_matches() {
    let samples = [" hello\u{a0}", "\u{1680}\u{200a}x\u{205f}", "\u{200b}x\u{200b}", "\u{feff} y", "\u{180e}z"];
    for s in samples {
        let expected = s.trim_matches(|c: char| c.is_whitespace() || c == '\0');
        assert_eq!(trimnw(s), expected);
    }
}

#[test]
fn white_space_agrees_with_std_on_every_char() {
    for u in 0u32..=0x10FFFF {
        if let Some(c) = char::from_u32(u) {
            assert_eq!(white_space(c), c.is_whitespace(), "code point {:x}", u);
        }
    }
}

#[test]
fn parse_usize_reads_decimal_numbers() {
    assert_eq!(parse_usize("42"), Some(42));
    assert_eq!(parse_usize("+7"), Some(7));
    assert_eq!(parse_usize("0007"), Some(7));
    assert_eq!(parse_usize(&usize::MAX.to_string()), Some(usize::MAX));
}

#[test]
fn parse_usize_rejects_other_text() {
    assert_eq!(parse_usize(""), None);
    assert_eq!(parse_usize("+"), None);
    assert_eq!(parse_usize("-1"), None);
    assert_eq!(parse_usize(" 1"), None);
    assert_eq!(parse_usize("1_000"), None);
    assert_eq!(parse_usize("12a"), None);
    let too_big = format!("{}0", usize::MAX);
    assert_eq!(parse_usize(&too_big), None);
}

#[test]
fn parse_usize_agrees_with_std() {
    let samples = ["", "+", "++1", "+0", "-0", "1", "99", "٣", "１", "18446744073709551615", "18446744073709551616", "4294967296", "12 ", "0x10"];
    for s in samples {
        assert_eq!(parse_usize(s), s.parse::<usize>().ok(), "{:?}", s);
    }
}

#[test]
fn decimal_writes_base_ten() {
    assert_eq!(decimal(0), "0");
    assert_eq!(decimal(7), "7");
    assert_eq!(decimal(1234), "1234");
    assert_eq!(decimal(u64::MAX), u64::MAX.to_string());
}

#[test]
fn integer_writes_sign() {
    assert_eq!(integer(-5), "-5");
    assert_eq!(integer(0), "0");
    assert_eq!(integer(2025), "2025");
    assert_eq!(integer(i64::MIN), i64::MIN.to_string());
}

#[test]
fn decimal_then_parse_gives_back_the_number() {
    for n in [0usize, 1, 9, 10, 255, 65535, 1_000_000] {
        assert_eq!(parse_usize(&decimal(n as u64)), Some(n));
    }
}

#[test]
fn utils_trimnw_is_the_same_function() {
    assert_eq!(solana_tools::utils::trimnw(" \0x\0 "), "x");
}

#[test]
fn trimnw_differs_from_trim_only_by_nul() {
    for s in ["  a b  ", "\u{3000}x\n", "", "\0 y \0", " \0z\0 ", "\u{85}w\u{a0}"] {
        assert_eq!(trimnw(s), trimnw(s.trim()));
        if !s.contains('\0') {
            assert_eq!(trimnw(s), s.trim());
        }
    }
}
