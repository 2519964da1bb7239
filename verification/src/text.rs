//! Character-level text helpers shared by the parsers and the argument builders.

use vstd::prelude::*;

verus! {

broadcast use vstd::string::group_string_axioms;

/// The characters that carry the Unicode `White_Space` property: those that
/// `char::is_whitespace`, and so `str::trim`, treat as blank.
pub open spec fn is_white_space(c: char) -> bool {
    let u = c as u32;
    ||| 0x9 <= u <= 0xd
    ||| u == 0x20
    ||| u == 0x85
    ||| u == 0xa0
    ||| u == 0x1680
    ||| 0x2000 <= u <= 0x200a
    ||| u == 0x2028
    ||| u == 0x2029
    ||| u == 0x202f
    ||| u == 0x205f
    ||| u == 0x3000
}

/// Drops the blank characters at the front.
pub open spec fn trim_start(s: Seq<char>) -> Seq<char>
    decreases s.len(),
{
    if s.len() > 0 && is_white_space(s[0]) {
        trim_start(s.drop_first())
    } else {
        s
    }
}

/// Drops the blank characters at the back.
pub open spec fn trim_end(s: Seq<char>) -> Seq<char>
    decreases s.len(),
{
    if s.len() > 0 && is_white_space(s.last()) {
        trim_end(s.drop_last())
    } else {
        s
    }
}

/// The text with the blank characters at both ends removed, as `str::trim` gives it.
pub open spec fn trim(s: Seq<char>) -> Seq<char> {
    trim_end(trim_start(s))
}

/// Whether `c` is a blank character.
pub fn is_white_space_char(c: char) -> (b: bool)
    ensures
        b == is_white_space(c),
{
    let u = c as u32;
    (0x9 <= u && u <= 0xd) || u == 0x20 || u == 0x85 || u == 0xa0 || u == 0x1680 || (0x2000 <= u
        && u <= 0x200a) || u == 0x2028 || u == 0x2029 || u == 0x202f || u == 0x205f || u == 0x3000
}

/// Appends one character (`String::push`).
#[verifier::external_body]
pub(crate) fn push_char(s: &mut String, c: char)
    ensures
        final(s)@ == old(s)@.push(c),
{
    s.push(c);
}

/// The characters of `s`, one per element.
pub fn chars_of(s: &str) -> (v: Vec<char>)
    ensures
        v@ == s@,
{
    let mut v: Vec<char> = Vec::new();
    for c in it: s.chars()
        invariant
            v@ == it.seq().take(it.index()),
            it.seq() == s@,
    {
        v.push(c);
    }
    v
}

/// A new string holding `cs[from..to]`.
pub fn string_from_range(cs: &Vec<char>, from: usize, to: usize) -> (r: String)
    requires
        from <= to <= cs@.len(),
    ensures
        r@ == cs@.subrange(from as int, to as int),
{
    let mut r = String::new();
    let mut i = from;
    while i < to
        invariant
            from <= i <= to <= cs@.len(),
            r@ == cs@.subrange(from as int, i as int),
        decreases to - i,
    {
        push_char(&mut r, cs[i]);
        assert(cs@.subrange(from as int, i + 1) =~= cs@.subrange(from as int, i as int).push(
            cs@[i as int],
        ));
        i += 1;
    }
    r
}

/// The positions `(a, b)` such that `cs[a..b]` is `cs[from..to]` with its blank
/// ends removed.
pub fn trim_range(cs: &Vec<char>, from: usize, to: usize) -> (r: (usize, usize))
    requires
        from <= to <= cs@.len(),
    ensures
        from <= r.0 <= r.1 <= to,
        cs@.subrange(r.0 as int, r.1 as int) == trim(cs@.subrange(from as int, to as int)),
{
    let ghost whole = cs@.subrange(from as int, to as int);
    let mut a = from;
    loop
        invariant
            from <= a <= to <= cs@.len(),
            whole == cs@.subrange(from as int, to as int),
            trim_start(whole) == trim_start(cs@.subrange(a as int, to as int)),
        ensures
            from <= a <= to,
            trim_start(whole) == cs@.subrange(a as int, to as int),
        decreases to - a,
    {
        if a == to {
            break;
        }
        if !is_white_space_char(cs[a]) {
            break;
        }
        assert(cs@.subrange(a as int, to as int).drop_first() =~= cs@.subrange(a + 1, to as int));
        a += 1;
    }
    let ghost front = cs@.subrange(a as int, to as int);
    let mut b = to;
    loop
        invariant
            a <= b <= to <= cs@.len(),
            front == cs@.subrange(a as int, to as int),
            trim_end(front) == trim_end(cs@.subrange(a as int, b as int)),
        ensures
            a <= b <= to,
            trim_end(front) == cs@.subrange(a as int, b as int),
        decreases b - a,
    {
        if b == a {
            break;
        }
        if !is_white_space_char(cs[b - 1]) {
            break;
        }
        assert(cs@.subrange(a as int, b as int).drop_last() =~= cs@.subrange(a as int, b - 1));
        b -= 1;
    }
    (a, b)
}

/// `s` with its blank ends removed, as `str::trim` gives it, as a new string.
pub fn trimmed(s: &str) -> (r: String)
    ensures
        r@ == trim(s@),
{
    let cs = chars_of(s);
    let n = cs.len();
    let (a, b) = trim_range(&cs, 0, n);
    assert(cs@.subrange(0, n as int) =~= cs@);
    string_from_range(&cs, a, b)
}

} // verus!
