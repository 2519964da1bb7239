use chute::iso::parse_local_iso;
use chute::numbers::{decimal_string, signed_decimal_string};
use chute::text::{is_white_space_char, trimmed};

#[test]
fn parse_local_iso_reads_the_documented_example() {
    assert_eq!(parse_local_iso("2026-06-15T14:00:00"), Some((2026, 6, 15, 14, 0, 0)));
}

#[test]
fn parse_local_iso_defaults_missing_seconds_to_zero() {
    assert_eq!(parse_local_iso("2026-06-15T09:30"), Some((2026, 6, 15, 9, 30, 0)));
}

#[test]
fn parse_local_iso_refuses_unreadable_seconds() {
    assert_eq!(parse_local_iso("2026-06-15T09:30:xx"), None);
    assert_eq!(parse_local_iso("2026-06-15T09:30:"), None);
    assert_eq!(parse_local_iso("2026-06-15T14:00:xx"), None);
}

#[test]
fn parse_local_iso_ignores_extra_pieces() {
    assert_eq!(parse_local_iso("2026-06-15-99T10:00:05:77"), Some((2026, 6, 15, 10, 0, 5)));
}

#[test]
fn parse_local_iso_refuses_malformed_text() {
    assert_eq!(parse_local_iso(""), None);
    assert_eq!(parse_local_iso("2026-06-15 14:00:00"), None);
    assert_eq!(parse_local_iso("2026-06-15t14:00:00"), None);
    assert_eq!(parse_local_iso("2026-06T10:00"), None);
    assert_eq!(parse_local_iso("2026-ab-15T10:00"), None);
    assert_eq!(parse_local_iso("2026-06-15T10"), None);
    assert_eq!(parse_local_iso("2026-06-15T10:00T5"), None);
    assert_eq!(parse_local_iso(" 2026-06-15T10:00"), None);
    assert_eq!(parse_local_iso("-2026-06-15T10:00"), None);
    assert_eq!(parse_local_iso("2026--15T10:00"), None);
}

#[test]
fn parse_local_iso_reads_numbers_as_from_str_does() {
    assert_eq!(parse_local_iso("+2026-+6-15T+1:02"), Some((2026, 6, 15, 1, 2, 0)));
    assert_eq!(parse_local_iso("0002-01-01T00:00:00"), Some((2, 1, 1, 0, 0, 0)));
    assert_eq!(parse_local_iso("2147483647-1-1T0:0"), Some((i32::MAX, 1, 1, 0, 0, 0)));
    assert_eq!(parse_local_iso("2147483648-1-1T0:0"), None);
    assert_eq!(parse_local_iso("1-4294967295-1T0:0"), Some((1, u32::MAX, 1, 0, 0, 0)));
    assert_eq!(parse_local_iso("1-4294967296-1T0:0"), None);
    assert_eq!(parse_local_iso("1-1-1T0:0:4294967295"), Some((1, 1, 1, 0, 0, u32::MAX)));
    assert_eq!(parse_local_iso("1-1-1T0:0:4294967296"), None);
    assert_eq!(parse_local_iso("2026-13-40T25:61:99"), Some((2026, 13, 40, 25, 61, 99)));
    assert_eq!(parse_local_iso("2026-+-1T0:0"), None);
}

#[test]
fn parse_local_iso_cuts_at_the_first_t() {
    assert_eq!(parse_local_iso("2026-06-15T10:00Textra"), None);
    assert_eq!(parse_local_iso("2026-06-15T10:00:00Textra"), None);
    assert_eq!(parse_local_iso("2026-06-15T10:00:00:Textra"), Some((2026, 6, 15, 10, 0, 0)));
}

#[test]
fn parse_local_iso_reads_back_written_parts() {
    for (y, mo, d, h, mi, s) in [(0, 0, 0, 0, 0, 0), (2026, 6, 15, 14, 5, 9), (i32::MAX, u32::MAX, 7, 23, 59, 59)] {
        let text = format!("{}-{}-{}T{}:{}:{}", y, mo, d, h, mi, s);
        assert_eq!(parse_local_iso(&text), Some((y, mo, d, h, mi, s)));
        let padded = format!("{:04}-{:02}-{:02}T{:02}:{:02}:{:02}", y, mo, d, h, mi, s);
        assert_eq!(parse_local_iso(&padded), Some((y, mo, d, h, mi, s)));
        let short = format!("{:04}-{:02}-{:02}T{:02}:{:02}", y, mo, d, h, mi);
        assert_eq!(parse_local_iso(&short), Some((y, mo, d, h, mi, 0)));
    }
    assert_eq!(parse_local_iso("0007-01-02T03:04"), Some((7, 1, 2, 3, 4, 0)));
}

#[test]
fn numerals_are_written_as_to_string_does() {
    assert_eq!(decimal_string(0), "0");
    assert_eq!(decimal_string(1234567), "1234567");
    assert_eq!(decimal_string(u128::MAX), u128::MAX.to_string());
    assert_eq!(signed_decimal_string(-42), "-42");
    assert_eq!(signed_decimal_string(0), "0");
    assert_eq!(signed_decimal_string(i64::MIN), i64::MIN.to_string());
    assert_eq!(signed_decimal_string(i64::MAX), i64::MAX.to_string());
}

#[test]
fn white_space_matches_char_is_whitespace() {
    for u in 0u32..=0x10FFFF {
        if let Some(c) = char::from_u32(u) {
            assert_eq!(is_white_space_char(c), c.is_whitespace(), "U+{:04X}", u);
        }
    }
}

#[test]
fn trimmed_matches_str_trim() {
    for s in ["", "   ", "  a b \t\n", "\u{3000}x\u{85}", "\u{a0}\u{2028}y z\u{205f}", "none", " \u{200b} "] {
        assert_eq!(trimmed(s), s.trim());
    }
}
