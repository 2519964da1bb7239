//! Reading a local ISO date-time such as `2026-06-15T14:00:00` into its parts.

use vstd::prelude::*;
use crate::fields::{
    split_on, split_once, split_once_range, nth_piece, lemma_split_once_at, lemma_split_without_sep,
    lemma_split_after_sep, lemma_concat_lacks,
};
use crate::numbers::{
    parse_i32_spec, parse_u32_spec, parse_i32_range, parse_u32_range, decimal, is_digit, is_digits,
    digits_value, zero_padded, lemma_padded_decimal, lemma_parse_u32_digits, lemma_parse_i32_digits,
};
use crate::text::chars_of;

verus! {

/// The parts `(year, month, day, hour, minute, second)` of a local date-time
/// text. The text is cut at its first `T`; the part before is split at `-`
/// and its first three pieces read as year (`i32`), month and day (`u32`);
/// the part after is split at `:` and its first two pieces read as hour and
/// minute (`u32`), and a third piece, where there is one, as the second
/// (`u32`). A text without a third time piece has second 0. Pieces beyond
/// those are not looked at, and no range check is made on the values. `None`
/// where the `T` or a piece is missing, or a piece that is there does not read.
pub open spec fn local_iso_fields(s: Seq<char>) -> Option<(i32, u32, u32, u32, u32, u32)> {
    match split_once(s, 'T') {
        None => None,
        Some((date, time)) => {
            let d = split_on(date, '-');
            let t = split_on(time, ':');
            let second: Option<u32> = if t.len() > 2 {
                parse_u32_spec(t[2])
            } else {
                Some(0)
            };
            if d.len() > 2 && t.len() > 1 {
                match (
                    parse_i32_spec(d[0]),
                    parse_u32_spec(d[1]),
                    parse_u32_spec(d[2]),
                    parse_u32_spec(t[0]),
                    parse_u32_spec(t[1]),
                    second,
                ) {
                    (
                        Some(year),
                        Some(month),
                        Some(day),
                        Some(hour),
                        Some(minute),
                        Some(second),
                    ) => Some((year, month, day, hour, minute, second)),
                    _ => None,
                }
            } else {
                None
            }
        },
    }
}

/// Parses a local ISO date-time (`2026-06-15T14:00:00`) into its parts.
/// Returns `None` if the string is malformed; the caller then goes on
/// without a due date.
pub fn parse_local_iso(s: &str) -> (r: Option<(i32, u32, u32, u32, u32, u32)>)
    ensures
        r == local_iso_fields(s@),
{
    let cs = chars_of(s);
    let n = cs.len();
    assert(cs@.subrange(0, n as int) =~= s@);
    let t = split_once_range(&cs, 0, n, 'T')?;
    let (a, b) = nth_piece(&cs, 0, t, '-', 0)?;
    let year = parse_i32_range(&cs, a, b)?;
    let (a, b) = nth_piece(&cs, 0, t, '-', 1)?;
    let month = parse_u32_range(&cs, a, b)?;
    let (a, b) = nth_piece(&cs, 0, t, '-', 2)?;
    let day = parse_u32_range(&cs, a, b)?;
    let (a, b) = nth_piece(&cs, t + 1, n, ':', 0)?;
    let hour = parse_u32_range(&cs, a, b)?;
    let (a, b) = nth_piece(&cs, t + 1, n, ':', 1)?;
    let minute = parse_u32_range(&cs, a, b)?;
    let second = match nth_piece(&cs, t + 1, n, ':', 2) {
        Some((a, b)) => parse_u32_range(&cs, a, b)?,
        None => 0,
    };
    Some((year, month, day, hour, minute, second))
}

/// The date-time text `Y-M-DTh:m` followed, where `second` is given, by `:s`,
/// built from the numerals given for each part.
pub open spec fn iso_text(
    year: Seq<char>,
    month: Seq<char>,
    day: Seq<char>,
    hour: Seq<char>,
    minute: Seq<char>,
    second: Option<Seq<char>>,
) -> Seq<char> {
    year + seq!['-'] + month + seq!['-'] + day + seq!['T'] + hour + seq![':'] + minute + match second {
        Some(s) => seq![':'] + s,
        None => Seq::empty(),
    }
}

/// A run of digits holds no character other than digits.
proof fn lemma_digits_lack(x: Seq<char>, c: char)
    requires
        is_digits(x),
        !is_digit(c),
    ensures
        !x.contains(c),
{
    if x.contains(c) {
        let k = choose|k: int| 0 <= k < x.len() && x[k] == c;
        assert(is_digit(x[k]));
    }
}

/// `a`, the separator and `b`, where neither holds `c` (nor is the separator `c`).
proof fn lemma_joined_lacks(a: Seq<char>, sep: char, b: Seq<char>, c: char)
    requires
        !a.contains(c),
        !b.contains(c),
        sep != c,
    ensures
        !(a + seq![sep] + b).contains(c),
{
    if seq![sep].contains(c) {
        let k = choose|k: int| 0 <= k < seq![sep].len() && seq![sep][k] == c;
        assert(seq![sep][k] == sep);
    }
    lemma_concat_lacks(a, seq![sep], c);
    lemma_concat_lacks(a + seq![sep], b, c);
}

/// Two runs of digits joined by `sep` split back into the two runs.
proof fn lemma_split_two(x: Seq<char>, y: Seq<char>, sep: char)
    requires
        is_digits(x),
        is_digits(y),
        !is_digit(sep),
    ensures
        split_on(x + seq![sep] + y, sep) == seq![x, y],
{
    lemma_digits_lack(x, sep);
    lemma_digits_lack(y, sep);
    lemma_split_after_sep(x, sep, y);
    lemma_split_without_sep(y, sep);
    assert(seq![x] + seq![y] =~= seq![x, y]);
}

/// Three runs of digits joined by `sep` split back into the three runs.
proof fn lemma_split_three(x: Seq<char>, y: Seq<char>, z: Seq<char>, sep: char)
    requires
        is_digits(x),
        is_digits(y),
        is_digits(z),
        !is_digit(sep),
    ensures
        split_on(x + seq![sep] + y + seq![sep] + z, sep) == seq![x, y, z],
{
    lemma_digits_lack(x, sep);
    let tail = y + seq![sep] + z;
    assert(x + seq![sep] + y + seq![sep] + z =~= x + seq![sep] + tail);
    lemma_split_after_sep(x, sep, tail);
    lemma_split_two(y, z, sep);
    assert(seq![x] + seq![y, z] =~= seq![x, y, z]);
}

/// A date-time text built from runs of digits reads as their values.
proof fn lemma_digit_text_reads(
    year: Seq<char>,
    month: Seq<char>,
    day: Seq<char>,
    hour: Seq<char>,
    minute: Seq<char>,
    second: Option<Seq<char>>,
)
    requires
        is_digits(year),
        is_digits(month),
        is_digits(day),
        is_digits(hour),
        is_digits(minute),
        second matches Some(s) ==> is_digits(s) && digits_value(s) <= u32::MAX,
        digits_value(year) <= i32::MAX,
        digits_value(month) <= u32::MAX,
        digits_value(day) <= u32::MAX,
        digits_value(hour) <= u32::MAX,
        digits_value(minute) <= u32::MAX,
    ensures
        local_iso_fields(iso_text(year, month, day, hour, minute, second)) == Some(
            (
                digits_value(year) as i32,
                digits_value(month) as u32,
                digits_value(day) as u32,
                digits_value(hour) as u32,
                digits_value(minute) as u32,
                match second {
                    Some(s) => digits_value(s) as u32,
                    None => 0u32,
                },
            ),
        ),
{
    let date = year + seq!['-'] + month + seq!['-'] + day;
    let time = hour + seq![':'] + minute + match second {
        Some(s) => seq![':'] + s,
        None => Seq::empty(),
    };
    let s = iso_text(year, month, day, hour, minute, second);
    assert(s =~= date + seq!['T'] + time);
    lemma_digits_lack(year, 'T');
    lemma_digits_lack(month, 'T');
    lemma_digits_lack(day, 'T');
    lemma_joined_lacks(year, '-', month, 'T');
    lemma_joined_lacks(year + seq!['-'] + month, '-', day, 'T');
    let i = date.len() as int;
    assert(s[i] == 'T');
    assert(s.take(i) =~= date);
    assert(s.skip(i + 1) =~= time);
    lemma_split_once_at(s, 'T', i);
    lemma_split_three(year, month, day, '-');
    match second {
        Some(sec) => {
            assert(time =~= hour + seq![':'] + minute + seq![':'] + sec);
            lemma_split_three(hour, minute, sec, ':');
            lemma_parse_u32_digits(sec);
        },
        None => {
            assert(time =~= hour + seq![':'] + minute);
            lemma_split_two(hour, minute, ':');
        },
    }
    lemma_parse_i32_digits(year);
    lemma_parse_u32_digits(month);
    lemma_parse_u32_digits(day);
    lemma_parse_u32_digits(hour);
    lemma_parse_u32_digits(minute);
}

/// Any date-time with a year from 0 up, written as `Y-M-DTh:m:s` or
/// `Y-M-DTh:m` with each numeral padded with zeros to any width (plain
/// numerals at width 0; `{:04}` for the year and `{:02}` for the rest at
/// widths 4 and 2), reads back as exactly its parts, the second being 0 where
/// it is left out.
pub proof fn local_iso_reads_back(
    year: i32,
    month: u32,
    day: u32,
    hour: u32,
    minute: u32,
    second: u32,
    year_width: nat,
    width: nat,
)
    requires
        year >= 0,
    ensures
        local_iso_fields(
            iso_text(
                zero_padded(decimal(year as nat), year_width),
                zero_padded(decimal(month as nat), width),
                zero_padded(decimal(day as nat), width),
                zero_padded(decimal(hour as nat), width),
                zero_padded(decimal(minute as nat), width),
                Some(zero_padded(decimal(second as nat), width)),
            ),
        ) == Some((year, month, day, hour, minute, second)),
        local_iso_fields(
            iso_text(
                zero_padded(decimal(year as nat), year_width),
                zero_padded(decimal(month as nat), width),
                zero_padded(decimal(day as nat), width),
                zero_padded(decimal(hour as nat), width),
                zero_padded(decimal(minute as nat), width),
                None,
            ),
        ) == Some((year, month, day, hour, minute, 0u32)),
{
    lemma_padded_decimal(year as nat, year_width);
    lemma_padded_decimal(month as nat, width);
    lemma_padded_decimal(day as nat, width);
    lemma_padded_decimal(hour as nat, width);
    lemma_padded_decimal(minute as nat, width);
    lemma_padded_decimal(second as nat, width);
    let y = zero_padded(decimal(year as nat), year_width);
    let mo = zero_padded(decimal(month as nat), width);
    let d = zero_padded(decimal(day as nat), width);
    let h = zero_padded(decimal(hour as nat), width);
    let mi = zero_padded(decimal(minute as nat), width);
    let s = zero_padded(decimal(second as nat), width);
    lemma_digit_text_reads(y, mo, d, h, mi, Some(s));
    lemma_digit_text_reads(y, mo, d, h, mi, None);
}

} // verus!
