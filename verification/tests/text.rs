use mouse_unlock::number::{parse_u32, parse_u64, to_decimal};
use mouse_unlock::text::{chars_of, is_white_space, string_of, to_ascii_lowercase, to_ascii_upper, trim};

#[test]
fn white_space_agrees_with_the_standard_library() {
    for n in 0..=0x10ffffu32 {
        if let Some(c) = char::from_u32(n) {
            assert_eq!(is_white_space(c), c.is_whitespace(), "{n:#x}");
        }
    }
}

#[test]
fn trims_both_ends_only() {
    for s in ["", " ", "a", "  a b\t", "\u{3000}x\u{a0}", "\r\n", "é \u{85}"] {
        assert_eq!(trim(s), s.trim());
    }
    assert_eq!(trim(" \t LLRRL \r"), "LLRRL");
}

#[test]
fn strings_and_characters_convert() {
    let v = chars_of("aé—z");
    assert_eq!(v, vec!['a', 'é', '—', 'z']);
    assert_eq!(string_of(&v, 1, 3), "é—");
    assert_eq!(string_of(&v, 2, 2), "");
}

#[test]
fn ascii_case_only() {
    assert_eq!(to_ascii_lowercase("AbZ-É1"), "abz-É1");
    for n in 0..=0x10ffffu32 {
        if let Some(c) = char::from_u32(n) {
            assert_eq!(to_ascii_upper(c), c.to_ascii_uppercase());
        }
    }
}

#[test]
fn numbers_read_as_the_standard_library_reads_them() {
    for s in [
        "", "+", "-", "0", "+0", "-0", "007", "+2000", "2000", "2 000", " 1", "1 ", "1_0", "++1",
        "18446744073709551615", "18446744073709551616", "18446744073709551620",
        "99999999999999999999", "000000000000000000000000000001", "4294967295", "4294967296", "٣",
        "1a", "0x10",
    ] {
        assert_eq!(parse_u64(s), s.parse::<u64>().ok(), "{s:?}");
        assert_eq!(parse_u32(s), s.parse::<u32>().ok(), "{s:?}");
    }
    assert_eq!(parse_u64("+42"), Some(42));
}

#[test]
fn numbers_are_written_in_decimal() {
    for n in [0, 9, 10, 99, 100, 2000, 300_000, u64::MAX - 1, u64::MAX] {
        assert_eq!(to_decimal(n), n.to_string());
    }
    assert_eq!(to_decimal(300_000), "300000");
}

#[test]
fn a_number_reads_back() {
    for n in [0, 1, 10, 65_535, u64::MAX] {
        assert_eq!(parse_u64(&to_decimal(n)), Some(n));
    }
}
