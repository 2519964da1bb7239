//! Cutting text at a separator character, as `str::split` and
//! `str::split_once` do.

use vstd::prelude::*;

verus! {

/// The pieces of `s` between occurrences of `sep`, in order: what
/// `str::split` yields. There is always at least one piece.
pub open spec fn split_on(s: Seq<char>, sep: char) -> Seq<Seq<char>>
    decreases s.len(),
{
    if s.len() == 0 {
        seq![Seq::empty()]
    } else {
        let p = split_on(s.drop_last(), sep);
        if s.last() == sep {
            p.push(Seq::empty())
        } else {
            p.update(p.len() - 1, p.last().push(s.last()))
        }
    }
}

/// Whether `i` is the position of the first `sep` in `s`.
pub open spec fn is_first_sep(s: Seq<char>, sep: char, i: int) -> bool {
    0 <= i < s.len() && s[i] == sep && !s.take(i).contains(sep)
}

/// The position of the first `sep` in `s` (meaningful where `s` holds one).
pub open spec fn first_sep(s: Seq<char>, sep: char) -> int {
    choose|i: int| is_first_sep(s, sep, i)
}

/// The text before the first `sep` and the text after it, or `None` where
/// `sep` does not occur: what `str::split_once` gives.
pub open spec fn split_once(s: Seq<char>, sep: char) -> Option<(Seq<char>, Seq<char>)> {
    if s.contains(sep) {
        let i = first_sep(s, sep);
        Some((s.take(i), s.skip(i + 1)))
    } else {
        None
    }
}

/// Every text has at least one piece.
pub proof fn lemma_split_nonempty(s: Seq<char>, sep: char)
    ensures
        split_on(s, sep).len() >= 1,
    decreases s.len(),
{
    if s.len() > 0 {
        lemma_split_nonempty(s.drop_last(), sep);
    }
}

/// The position of the first `sep` in `cs[from..to]`, counted from `from`.
pub fn find_first(cs: &Vec<char>, from: usize, to: usize, sep: char) -> (r: Option<usize>)
    requires
        from <= to <= cs@.len(),
    ensures
        ({
            let s = cs@.subrange(from as int, to as int);
            match r {
                Some(i) => i < s.len() && s[i as int] == sep && !s.take(i as int).contains(sep),
                None => !s.contains(sep),
            }
        }),
{
    let ghost s = cs@.subrange(from as int, to as int);
    let mut i = from;
    while i < to
        invariant
            from <= i <= to <= cs@.len(),
            s == cs@.subrange(from as int, to as int),
            forall|j: int| 0 <= j < i - from ==> s[j] != sep,
        decreases to - i,
    {
        if cs[i] == sep {
            assert forall|k: int| 0 <= k < i - from implies #[trigger] s.take(i - from)[k]
                != sep by {
                assert(s.take(i - from)[k] == s[k]);
            }
            return Some(i - from);
        }
        i += 1;
    }
    assert forall|k: int| 0 <= k < s.len() implies s[k] != sep by {}
    None
}

/// The first-separator position that `split_once` chooses is the one found.
pub proof fn lemma_split_once_at(s: Seq<char>, sep: char, i: int)
    requires
        0 <= i < s.len(),
        s[i] == sep,
        !s.take(i).contains(sep),
    ensures
        split_once(s, sep) == Some((s.take(i), s.skip(i + 1))),
{
    assert(s.contains(sep));
    assert(is_first_sep(s, sep, i));
    let j = first_sep(s, sep);
    if j < i {
        assert(s.take(i)[j] == sep);
        assert(s.take(i).contains(sep));
    } else if j > i {
        assert(s.take(j)[i] == sep);
        assert(s.take(j).contains(sep));
    }

}

/// Splits `cs[from..to]` at its first `sep`: the positions of the text
/// before it (`from..k`) and after it (`k + 1..to`), given as `k`.
pub fn split_once_range(cs: &Vec<char>, from: usize, to: usize, sep: char) -> (r: Option<usize>)
    requires
        from <= to <= cs@.len(),
    ensures
        ({
            let s = cs@.subrange(from as int, to as int);
            match r {
                Some(k) => from <= k < to && split_once(s, sep) == Some(
                    (
                        cs@.subrange(from as int, k as int),
                        cs@.subrange(k + 1, to as int),
                    ),
                ),
                None => split_once(s, sep) is None,
            }
        }),
{
    let ghost s = cs@.subrange(from as int, to as int);
    match find_first(cs, from, to, sep) {
        Some(i) => {
            proof {
                lemma_split_once_at(s, sep, i as int);
                assert(s.take(i as int) =~= cs@.subrange(from as int, from + i));
                assert(s.skip(i + 1) =~= cs@.subrange(from + i + 1, to as int));
            }
            Some(from + i)
        },
        None => None,
    }
}

/// The positions of piece number `n` of `cs[from..to]` split at `sep`, or
/// `None` where there are not that many pieces.
pub fn nth_piece(cs: &Vec<char>, from: usize, to: usize, sep: char, n: usize) -> (r: Option<
    (usize, usize),
>)
    requires
        from <= to <= cs@.len(),
    ensures
        ({
            let p = split_on(cs@.subrange(from as int, to as int), sep);
            &&& r is Some <==> n < p.len()
            &&& r matches Some((a, b)) ==> from <= a <= b <= to && cs@.subrange(a as int, b as int)
                == p[n as int]
        }),
{
    let mut k: usize = 0;
    let mut start = from;
    let mut found: Option<(usize, usize)> = None;
    let mut i = from;
    assert(cs@.subrange(from as int, from as int) =~= Seq::<char>::empty());
    while i < to
        invariant
            from <= start <= i <= to <= cs@.len(),
            k <= i - from,
            ({
                let p = split_on(cs@.subrange(from as int, i as int), sep);
                &&& p.len() == k + 1
                &&& p[k as int] == cs@.subrange(start as int, i as int)
                &&& found is Some <==> n < k
                &&& found matches Some((a, b)) ==> from <= a <= b <= i && cs@.subrange(
                    a as int,
                    b as int,
                ) == p[n as int]
            }),
        decreases to - i,
    {
        let ghost before = cs@.subrange(from as int, i as int);
        let ghost after = cs@.subrange(from as int, i + 1);
        assert(after.drop_last() =~= before);
        assert(after.last() == cs@[i as int]);
        proof {
            lemma_split_nonempty(before, sep);
        }
        if cs[i] == sep {
            if k == n {
                found = Some((start, i));
            }
            k += 1;
            start = i + 1;
            assert(cs@.subrange(start as int, i + 1) =~= Seq::<char>::empty());
        } else {
            assert(cs@.subrange(start as int, i + 1) =~= cs@.subrange(start as int, i as int).push(
                cs@[i as int],
            ));
        }
        i += 1;
    }
    if k == n {
        Some((start, to))
    } else {
        found
    }
}

/// Text without the separator is a single piece.
pub proof fn lemma_split_without_sep(a: Seq<char>, sep: char)
    requires
        !a.contains(sep),
    ensures
        split_on(a, sep) == seq![a],
    decreases a.len(),
{
    if a.len() == 0 {
        assert(a =~= Seq::<char>::empty());
        assert(split_on(a, sep) =~= seq![a]);
    } else {
        let p = a.drop_last();
        if p.contains(sep) {
            let k = choose|k: int| 0 <= k < p.len() && p[k] == sep;
            assert(a[k] == sep);
        }
        assert(a[a.len() - 1] == a.last());
        lemma_split_without_sep(p, sep);
        assert(p.push(a.last()) =~= a);
        assert(split_on(a, sep) =~= seq![a]);
    }
}

/// Text made of a separator-free head, the separator and a tail splits into
/// the head followed by the pieces of the tail.
pub proof fn lemma_split_after_sep(a: Seq<char>, sep: char, b: Seq<char>)
    requires
        !a.contains(sep),
    ensures
        split_on(a + seq![sep] + b, sep) == seq![a] + split_on(b, sep),
    decreases b.len(),
{
    let s = a + seq![sep] + b;
    if b.len() == 0 {
        assert(s.drop_last() =~= a);
        assert(s.last() == sep);
        lemma_split_without_sep(a, sep);
        assert(b =~= Seq::<char>::empty());
        assert(split_on(s, sep) =~= seq![a] + split_on(b, sep));
    } else {
        let b0 = b.drop_last();
        lemma_split_after_sep(a, sep, b0);
        assert(s.drop_last() =~= a + seq![sep] + b0);
        assert(s.last() == b.last());
        lemma_split_nonempty(b0, sep);
        let p = split_on(b0, sep);
        let q = seq![a] + p;
        if b.last() == sep {
            assert(split_on(s, sep) == q.push(Seq::<char>::empty()));
            assert(split_on(b, sep) == p.push(Seq::<char>::empty()));
            assert(q.push(Seq::<char>::empty()) =~= seq![a] + p.push(Seq::<char>::empty()));
        } else {
            assert(split_on(s, sep) == q.update(q.len() - 1, q.last().push(b.last())));
            assert(split_on(b, sep) == p.update(p.len() - 1, p.last().push(b.last())));
            assert(q.update(q.len() - 1, q.last().push(b.last())) =~= seq![a] + p.update(
                p.len() - 1,
                p.last().push(b.last()),
            ));
        }
    }
}

/// Two texts without `c` joined make a text without `c`.
pub proof fn lemma_concat_lacks(x: Seq<char>, y: Seq<char>, c: char)
    requires
        !x.contains(c),
        !y.contains(c),
    ensures
        !(x + y).contains(c),
{
    if (x + y).contains(c) {
        let k = choose|k: int| 0 <= k < (x + y).len() && (x + y)[k] == c;
        if k < x.len() {
            assert(x[k] == c);
        } else {
            assert(y[k - x.len()] == c);
        }
    }
}

} // verus!
