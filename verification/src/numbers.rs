//! Decimal numerals: writing integers as `to_string` does and reading them as
//! `u32::from_str` and `i32::from_str` do.

use vstd::prelude::*;
use crate::text::push_char;

verus! {

/// An ASCII decimal digit.
pub open spec fn is_digit(c: char) -> bool {
    48 <= (c as u32) <= 57
}

/// The value of a decimal digit.
pub open spec fn digit_value(c: char) -> nat {
    ((c as u32) - 48) as nat
}

/// The digit that stands for `d` (below ten).
pub open spec fn digit_char(d: nat) -> char {
    (d + 48) as char
}

/// One or more ASCII digits.
pub open spec fn is_digits(s: Seq<char>) -> bool {
    s.len() > 0 && forall|i: int| 0 <= i < s.len() ==> is_digit(#[trigger] s[i])
}

/// The value of a string of digits, read in base ten.
pub open spec fn digits_value(s: Seq<char>) -> nat
    decreases s.len(),
{
    if s.len() == 0 {
        0
    } else {
        digits_value(s.drop_last()) * 10 + digit_value(s.last())
    }
}

/// The shortest base-ten numeral of `n`.
pub open spec fn decimal(n: nat) -> Seq<char>
    decreases n,
{
    if n < 10 {
        seq![digit_char(n)]
    } else {
        decimal(n / 10).push(digit_char(n % 10))
    }
}

/// The numeral of `i` as integers print: a `-` before negative values.
pub open spec fn signed_decimal(i: int) -> Seq<char> {
    if i < 0 {
        seq!['-'] + decimal((-i) as nat)
    } else {
        decimal(i as nat)
    }
}

/// What `u32::from_str` accepts: an optional `+`, then one or more ASCII
/// digits whose value fits in a `u32`.
pub open spec fn parse_u32_spec(s: Seq<char>) -> Option<u32> {
    let body = if s.len() > 0 && s[0] == '+' { s.drop_first() } else { s };
    if is_digits(body) && digits_value(body) <= u32::MAX {
        Some(digits_value(body) as u32)
    } else {
        None
    }
}

/// What `i32::from_str` accepts: an optional `+` or `-`, then one or more
/// ASCII digits whose signed value fits in an `i32`.
pub open spec fn parse_i32_spec(s: Seq<char>) -> Option<i32> {
    if s.len() > 0 && s[0] == '-' {
        let body = s.drop_first();
        if is_digits(body) && digits_value(body) <= 0x8000_0000 {
            Some((0 - digits_value(body)) as i32)
        } else {
            None
        }
    } else {
        let body = if s.len() > 0 && s[0] == '+' { s.drop_first() } else { s };
        if is_digits(body) && digits_value(body) <= i32::MAX {
            Some(digits_value(body) as i32)
        } else {
            None
        }
    }
}

/// A longer run of digits is worth at least as much as its prefix.
proof fn lemma_prefix_value(s: Seq<char>, i: int)
    requires
        0 <= i <= s.len(),
    ensures
        digits_value(s.take(i)) <= digits_value(s),
    decreases s.len(),
{
    if i < s.len() {
        lemma_prefix_value(s.drop_last(), i);
        assert(s.drop_last().take(i) =~= s.take(i));
    } else {
        assert(s.take(i) =~= s);
    }
}

/// Reads `cs[from..to]` as a run of digits no larger than `limit`.
fn read_digits(cs: &Vec<char>, from: usize, to: usize, limit: u64) -> (r: Option<u64>)
    requires
        from <= to <= cs@.len(),
        limit <= u32::MAX + 1,
    ensures
        ({
            let s = cs@.subrange(from as int, to as int);
            &&& r is Some <==> (is_digits(s) && digits_value(s) <= limit)
            &&& r matches Some(v) ==> v == digits_value(s)
        }),
{
    let ghost s = cs@.subrange(from as int, to as int);
    if from == to {
        return None;
    }
    let mut acc: u64 = 0;
    let mut i = from;
    while i < to
        invariant
            from <= i <= to <= cs@.len(),
            s == cs@.subrange(from as int, to as int),
            limit <= u32::MAX + 1,
            acc == digits_value(s.take(i - from)),
            acc <= limit,
            forall|j: int| 0 <= j < i - from ==> is_digit(#[trigger] s[j]),
        decreases to - i,
    {
        let c = cs[i];
        let u = c as u32;
        if u < 48 || u > 57 {
            assert(!is_digit(s[i - from]));
            return None;
        }
        let d = (u - 48) as u64;
        assert(s.take(i + 1 - from).drop_last() =~= s.take(i - from));
        let next = acc * 10 + d;
        if next > limit {
            proof {
                lemma_prefix_value(s, i + 1 - from);
            }
            return None;
        }
        acc = next;
        i += 1;
    }
    assert(s.take(to - from) =~= s);
    Some(acc)
}

/// Reads `cs[from..to]` as `u32::from_str` does.
pub fn parse_u32_range(cs: &Vec<char>, from: usize, to: usize) -> (r: Option<u32>)
    requires
        from <= to <= cs@.len(),
    ensures
        r == parse_u32_spec(cs@.subrange(from as int, to as int)),
{
    let ghost s = cs@.subrange(from as int, to as int);
    let mut start = from;
    if from < to && cs[from] == '+' {
        start = from + 1;
        assert(s.drop_first() =~= cs@.subrange(start as int, to as int));
    } else {
        assert(s =~= cs@.subrange(start as int, to as int));
    }
    match read_digits(cs, start, to, 0xffff_ffff) {
        Some(v) => Some(v as u32),
        None => None,
    }
}

/// Reads `cs[from..to]` as `i32::from_str` does.
pub fn parse_i32_range(cs: &Vec<char>, from: usize, to: usize) -> (r: Option<i32>)
    requires
        from <= to <= cs@.len(),
    ensures
        r == parse_i32_spec(cs@.subrange(from as int, to as int)),
{
    let ghost s = cs@.subrange(from as int, to as int);
    if from < to && cs[from] == '-' {
        assert(s.drop_first() =~= cs@.subrange(from + 1, to as int));
        match read_digits(cs, from + 1, to, 0x8000_0000) {
            Some(v) => {
                let w = v as i64;
                Some((0 - w) as i32)
            },
            None => None,
        }
    } else {
        let mut start = from;
        if from < to && cs[from] == '+' {
            start = from + 1;
            assert(s.drop_first() =~= cs@.subrange(start as int, to as int));
        } else {
            assert(s =~= cs@.subrange(start as int, to as int));
        }
        match read_digits(cs, start, to, 0x7fff_ffff) {
            Some(v) => Some(v as i32),
            None => None,
        }
    }
}

/// Appends the numeral of `n`.
pub fn push_decimal(s: &mut String, n: u128)
    ensures
        final(s)@ == old(s)@ + decimal(n as nat),
    decreases n,
{
    if n >= 10 {
        push_decimal(s, n / 10);
    }
    let d = (n % 10) as u8;
    push_char(s, (d + 48) as char);
    if n >= 10 {
        assert(decimal(n as nat) == decimal((n / 10) as nat).push(digit_char((n % 10) as nat)));
        assert(old(s)@ + decimal(n as nat) =~= old(s)@ + decimal((n / 10) as nat) + seq![
            digit_char((n % 10) as nat),
        ]);
    } else {
        assert(old(s)@ + decimal(n as nat) =~= old(s)@.push(digit_char(n as nat)));
    }
}

/// Appends the numeral of `i`, with a `-` before a negative value.
pub fn push_signed_decimal(s: &mut String, i: i128)
    requires
        i > i128::MIN,
    ensures
        final(s)@ == old(s)@ + signed_decimal(i as int),
{
    if i < 0 {
        push_char(s, '-');
        let m = (0 - i) as u128;
        push_decimal(s, m);
        assert(old(s)@ + signed_decimal(i as int) =~= old(s)@.push('-') + decimal(m as nat));
    } else {
        push_decimal(s, i as u128);
    }
}

/// The numeral of `i`, as `to_string` writes it.
pub fn signed_decimal_string(i: i64) -> (r: String)
    ensures
        r@ == signed_decimal(i as int),
{
    let mut r = String::new();
    push_signed_decimal(&mut r, i as i128);
    assert(r@ =~= signed_decimal(i as int));
    r
}

/// The numeral of `n`, as `to_string` writes it.
pub fn decimal_string(n: u128) -> (r: String)
    ensures
        r@ == decimal(n as nat),
{
    let mut r = String::new();
    push_decimal(&mut r, n);
    assert(r@ =~= decimal(n as nat));
    r
}

/// The numeral of `n` is a run of digits worth `n`.
pub proof fn lemma_decimal_digits(n: nat)
    ensures
        is_digits(decimal(n)),
        digits_value(decimal(n)) == n,
    decreases n,
{
    let d = digit_char(n % 10);
    assert((d as u32) == n % 10 + 48);
    assert(digit_value(d) == n % 10);
    let s = decimal(n);
    assert(s.last() == d);
    assert(digits_value(s) == digits_value(s.drop_last()) * 10 + digit_value(s.last()));
    if n < 10 {
        assert(s.drop_last() =~= Seq::<char>::empty());
        assert(digits_value(Seq::<char>::empty()) == 0);
    } else {
        lemma_decimal_digits(n / 10);
        assert(s.drop_last() =~= decimal(n / 10));
        assert((n / 10) * 10 + n % 10 == n) by (nonlinear_arith);
        assert forall|i: int| 0 <= i < s.len() implies is_digit(#[trigger] s[i]) by {
            if i < s.len() - 1 {
                assert(s[i] == decimal(n / 10)[i]);
            }
        }
    }
}

/// Reading back the numeral of any `u32` gives the number: the arguments
/// written for the date-time parts read as the parts themselves.
pub proof fn parse_u32_reads_decimal(n: u32)
    ensures
        parse_u32_spec(decimal(n as nat)) == Some(n),
{
    lemma_decimal_digits(n as nat);
    assert(is_digit(decimal(n as nat)[0]));
}

/// Reading back the numeral of any `i32` gives the number.
pub proof fn parse_i32_reads_signed_decimal(i: i32)
    ensures
        parse_i32_spec(signed_decimal(i as int)) == Some(i),
{
    if i < 0 {
        let m = (-i) as nat;
        lemma_decimal_digits(m);
        let s = signed_decimal(i as int);
        assert(s.drop_first() =~= decimal(m));
    } else {
        lemma_decimal_digits(i as nat);
        assert(is_digit(decimal(i as nat)[0]));
    }
}

/// `s` with zeros put in front until it is `width` characters long, as the
/// `{:0width}` format pads a numeral.
pub open spec fn zero_padded(s: Seq<char>, width: nat) -> Seq<char>
    decreases width - s.len(),
{
    if s.len() >= width {
        s
    } else {
        zero_padded(seq!['0'] + s, width)
    }
}

/// A leading zero changes neither the digit-ness nor the value of a numeral.
proof fn lemma_leading_zero(x: Seq<char>)
    ensures
        digits_value(seq!['0'] + x) == digits_value(x),
        is_digits(x) ==> is_digits(seq!['0'] + x),
    decreases x.len(),
{
    let z = seq!['0'] + x;
    assert(('0' as u32) == 48);
    if x.len() == 0 {
        assert(z.drop_last() =~= Seq::<char>::empty());
        assert(digits_value(Seq::<char>::empty()) == 0);
        assert(digits_value(z) == digits_value(z.drop_last()) * 10 + digit_value(z.last()));
    } else {
        lemma_leading_zero(x.drop_last());
        assert(z.drop_last() =~= seq!['0'] + x.drop_last());
        assert(z.last() == x.last());
        assert(digits_value(z) == digits_value(z.drop_last()) * 10 + digit_value(z.last()));
        assert(digits_value(x) == digits_value(x.drop_last()) * 10 + digit_value(x.last()));
    }
    if is_digits(x) {
        assert forall|i: int| 0 <= i < z.len() implies is_digit(#[trigger] z[i]) by {
            if i > 0 {
                assert(z[i] == x[i - 1]);
            }
        }
    }
}

/// The numeral of `n` padded with zeros to any width is a run of digits worth `n`.
pub proof fn lemma_padded_decimal(n: nat, width: nat)
    ensures
        is_digits(zero_padded(decimal(n), width)),
        digits_value(zero_padded(decimal(n), width)) == n,
{
    lemma_decimal_digits(n);
    lemma_padded_digits(decimal(n), width);
}

proof fn lemma_padded_digits(s: Seq<char>, width: nat)
    requires
        is_digits(s),
    ensures
        is_digits(zero_padded(s, width)),
        digits_value(zero_padded(s, width)) == digits_value(s),
    decreases width - s.len(),
{
    if s.len() < width {
        lemma_leading_zero(s);
        lemma_padded_digits(seq!['0'] + s, width);
    }
}

/// A run of digits whose value fits in a `u32` reads as that value.
pub proof fn lemma_parse_u32_digits(s: Seq<char>)
    requires
        is_digits(s),
        digits_value(s) <= u32::MAX,
    ensures
        parse_u32_spec(s) == Some(digits_value(s) as u32),
{
    assert(is_digit(s[0]));
}

/// A run of digits whose value fits in an `i32` reads as that value.
pub proof fn lemma_parse_i32_digits(s: Seq<char>)
    requires
        is_digits(s),
        digits_value(s) <= i32::MAX,
    ensures
        parse_i32_spec(s) == Some(digits_value(s) as i32),
{
    assert(is_digit(s[0]));
}

} // verus!
