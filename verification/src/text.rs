//! Character-level helpers on strings: conversion between strings and
//! character vectors, splitting, searching and suffix tests.

use vstd::prelude::*;
use vstd::std_specs::iter::IteratorSpec;

verus! {

/// `String::push` appends one character to the end of the string.
pub assume_specification[ std::string::String::push ](s: &mut std::string::String, c: char)
    ensures
        final(s)@ == old(s)@.push(c),
;

/// The characters of `s`, in order.
pub fn to_chars(s: &str) -> (v: Vec<char>)
    ensures
        v@ == s@,
{
    let mut it = s.chars();
    let mut v: Vec<char> = Vec::new();
    assert(v@ + it.remaining() =~= s@);
    loop
        invariant
            it.obeys_prophetic_iter_laws(),
            it.decrease() is Some,
            v@ + it.remaining() == s@,
        decreases it.decrease()->0,
    {
        match it.next() {
            Some(c) => {
                v.push(c);
                assert(v@ + it.remaining() =~= s@);
            },
            None => {
                assert(v@ =~= s@);
                return v;
            },
        }
    }
}

/// The string made of the characters `v[from..to]`.
pub(crate) fn string_of(v: &Vec<char>, from: usize, to: usize) -> (s: String)
    requires
        from <= to <= v@.len(),
    ensures
        s@ == v@.subrange(from as int, to as int),
{
    let mut s = String::new();
    let mut i: usize = from;
    while i < to
        invariant
            from <= i <= to <= v@.len(),
            s@ == v@.subrange(from as int, i as int),
        decreases to - i,
    {
        s.push(v[i]);
        i += 1;
    }
    s
}

/// Whether `c` occurs in `v[from..to]`.
pub(crate) fn has_char(v: &Vec<char>, from: usize, to: usize, c: char) -> (r: bool)
    requires
        from <= to <= v@.len(),
    ensures
        r == v@.subrange(from as int, to as int).contains(c),
{
    let mut i: usize = from;
    while i < to
        invariant
            from <= i <= to <= v@.len(),
            forall|k: int| from <= k < i ==> v@[k] != c,
        decreases to - i,
    {
        if v[i] == c {
            assert(v@.subrange(from as int, to as int)[i - from] == c);
            return true;
        }
        i += 1;
    }
    assert forall|k: int| 0 <= k < to - from implies v@.subrange(from as int, to as int)[k]
        != c by {
        assert(v@[from + k] != c);
    }
    false
}

/// The pieces of `s` between occurrences of `sep`. There is always at
/// least one piece; an occurrence at either end leaves an empty piece there.
pub open spec fn split(s: Seq<char>, sep: char) -> Seq<Seq<char>>
    decreases s.len(),
{
    if s.len() == 0 {
        seq![Seq::<char>::empty()]
    } else {
        let before = split(s.drop_last(), sep);
        if s.last() == sep {
            before.push(Seq::<char>::empty())
        } else {
            before.drop_last().push(before.last().push(s.last()))
        }
    }
}

/// The character sequences of a list of character vectors.
pub open spec fn pieces_of(vs: Seq<Vec<char>>) -> Seq<Seq<char>> {
    Seq::new(vs.len(), |i: int| vs[i]@)
}

/// Splits `v` at each occurrence of `sep`.
pub fn split_chars(v: &Vec<char>, sep: char) -> (r: Vec<Vec<char>>)
    ensures
        pieces_of(r@) == split(v@, sep),
        r@.len() >= 1,
{
    let mut done: Vec<Vec<char>> = Vec::new();
    let mut cur: Vec<char> = Vec::new();
    let mut i: usize = 0;
    assert(v@.take(0) =~= Seq::<char>::empty());
    assert(pieces_of(done@).push(cur@) =~= split(v@.take(0), sep));
    while i < v.len()
        invariant
            i <= v@.len(),
            pieces_of(done@).push(cur@) == split(v@.take(i as int), sep),
        decreases v@.len() - i,
    {
        let c = v[i];
        proof {
            assert(v@.take(i + 1).drop_last() =~= v@.take(i as int));
            assert(v@.take(i + 1).last() == c);
        }
        let ghost before = pieces_of(done@).push(cur@);
        if c == sep {
            done.push(cur);
            cur = Vec::new();
            assert(pieces_of(done@).push(cur@) =~= before.push(Seq::<char>::empty()));
        } else {
            cur.push(c);
            assert(pieces_of(done@).push(cur@) =~= before.drop_last().push(
                before.last().push(c),
            ));
        }
        i += 1;
    }
    assert(v@.take(v@.len() as int) =~= v@);
    let ghost all = pieces_of(done@).push(cur@);
    done.push(cur);
    assert(pieces_of(done@) =~= all);
    done
}

/// `s` with each `*` replaced by `.*`.
pub open spec fn stars_to_any(s: Seq<char>) -> Seq<char>
    decreases s.len(),
{
    if s.len() == 0 {
        Seq::<char>::empty()
    } else if s.last() == '*' {
        stars_to_any(s.drop_last()).push('.').push('*')
    } else {
        stars_to_any(s.drop_last()).push(s.last())
    }
}

/// The string of `v[from..to]` with each `*` replaced by `.*`.
pub(crate) fn expand_stars(v: &Vec<char>, from: usize, to: usize) -> (r: String)
    requires
        from <= to <= v@.len(),
    ensures
        r@ == stars_to_any(v@.subrange(from as int, to as int)),
{
    let mut out = String::new();
    let mut i: usize = from;
    assert(v@.subrange(from as int, from as int) =~= Seq::<char>::empty());
    while i < to
        invariant
            from <= i <= to <= v@.len(),
            out@ == stars_to_any(v@.subrange(from as int, i as int)),
        decreases to - i,
    {
        let c = v[i];
        proof {
            assert(v@.subrange(from as int, i + 1).drop_last() =~= v@.subrange(
                from as int,
                i as int,
            ));
            assert(v@.subrange(from as int, i + 1).last() == c);
        }
        if c == '*' {
            out.push('.');
            out.push('*');
        } else {
            out.push(c);
        }
        i += 1;
    }
    out
}

/// Whether `s` is `t`, or ends with a dot followed by `t`: read as
/// dot-separated labels, the labels of `t` are the last labels of `s`.
pub open spec fn ends_with_labels(s: Seq<char>, t: Seq<char>) -> bool {
    s == t || (s.len() > t.len() && s[s.len() - t.len() - 1] == '.' && s.subrange(
        s.len() - t.len(),
        s.len() as int,
    ) == t)
}

/// Whether `s[..end]` ends with `t`.
pub(crate) fn ends_with_chars(s: &Vec<char>, end: usize, t: &Vec<char>) -> (r: bool)
    requires
        end <= s@.len(),
    ensures
        r == (t@.len() <= end && s@.subrange(end - t@.len(), end as int) == t@),
{
    if t.len() > end {
        return false;
    }
    let base: usize = end - t.len();
    let mut i: usize = 0;
    while i < t.len()
        invariant
            i <= t@.len(),
            base + t@.len() == end <= s@.len(),
            forall|k: int| 0 <= k < i ==> s@[base + k] == t@[k],
        decreases t@.len() - i,
    {
        if s[base + i] != t[i] {
            assert(s@.subrange(end - t@.len(), end as int)[i as int] != t@[i as int]);
            return false;
        }
        i += 1;
    }
    assert(s@.subrange(end - t@.len(), end as int) =~= t@);
    true
}

/// Whether the dot-separated labels of `t` are the last labels of `s[..end]`.
pub(crate) fn labels_end_with(s: &Vec<char>, end: usize, t: &Vec<char>) -> (r: bool)
    requires
        end <= s@.len(),
    ensures
        r == ends_with_labels(s@.take(end as int), t@),
{
    let ghost head = s@.take(end as int);
    proof {
        if t@.len() <= end {
            assert(head.subrange(end - t@.len(), end as int) =~= s@.subrange(
                end - t@.len(),
                end as int,
            ));
            assert(head.subrange(0, end as int) =~= head);
        }
    }
    if !ends_with_chars(s, end, t) {
        return false;
    }
    if t.len() == end {
        assert(head =~= t@);
        return true;
    }
    s[end - t.len() - 1] == '.'
}

} // verus!
