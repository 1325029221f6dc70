//! Cutting a `|`-separated list whose items may be regular expressions
//! between slashes: a `|` inside such an expression does not separate.

use vstd::prelude::*;

verus! {

/// `s` with each backslash that stands before a comma removed.
pub open spec fn commas_unescaped(s: Seq<char>) -> Seq<char>
    decreases s.len(),
{
    if s.len() == 0 {
        Seq::<char>::empty()
    } else {
        let before = commas_unescaped(s.drop_last());
        if s.last() == ',' && s.len() >= 2 && s[s.len() - 2] == '\\' {
            before.drop_last().push(',')
        } else {
            before.push(s.last())
        }
    }
}

/// Whether `s` holds an odd number of backslashes.
pub open spec fn escaped_after(s: Seq<char>) -> bool
    decreases s.len(),
{
    if s.len() == 0 {
        false
    } else {
        (s.last() == '\\') != escaped_after(s.drop_last())
    }
}

/// Whether a `|` after `s` separates: each `/` read while the number of
/// backslashes so far is even switches between separating and not.
pub open spec fn splitting_after(s: Seq<char>) -> bool
    decreases s.len(),
{
    if s.len() == 0 {
        true
    } else if s.last() == '/' && !escaped_after(s) {
        !splitting_after(s.drop_last())
    } else {
        splitting_after(s.drop_last())
    }
}

/// Whether the last character of `s` is a `|` that separates.
pub open spec fn ends_item(s: Seq<char>) -> bool {
    s.len() > 0 && s.last() == '|' && splitting_after(s)
}

/// The item that is still open after `s`.
pub open spec fn open_item(s: Seq<char>) -> Seq<char>
    decreases s.len(),
{
    if s.len() == 0 || ends_item(s) {
        Seq::<char>::empty()
    } else {
        open_item(s.drop_last()).push(s.last())
    }
}

/// The items that are closed after `s`, each with its commas unescaped.
pub open spec fn closed_items(s: Seq<char>) -> Seq<Seq<char>>
    decreases s.len(),
{
    if s.len() == 0 {
        Seq::empty()
    } else if ends_item(s) {
        closed_items(s.drop_last()).push(commas_unescaped(open_item(s.drop_last())))
    } else {
        closed_items(s.drop_last())
    }
}

/// The items of the list `s`: the closed ones, and the open one unless it
/// is empty.
pub open spec fn pipe_items(s: Seq<char>) -> Seq<Seq<char>> {
    if open_item(s).len() == 0 {
        closed_items(s)
    } else {
        closed_items(s).push(commas_unescaped(open_item(s)))
    }
}

/// The character sequences of a list of strings.
pub open spec fn strings_of(v: Seq<String>) -> Seq<Seq<char>> {
    Seq::new(v.len(), |i: int| v[i]@)
}

/// The string of `v` with each backslash before a comma removed.
pub fn unescape_commas(v: &Vec<char>) -> (r: String)
    ensures
        r@ == commas_unescaped(v@),
{
    let mut out = String::new();
    let mut pending = false;
    let mut i: usize = 0;
    assert(v@.take(0) =~= Seq::<char>::empty());
    while i < v.len()
        invariant
            i <= v@.len(),
            pending == (i > 0 && v@[i - 1] == '\\'),
            commas_unescaped(v@.take(i as int)) == (if pending {
                out@.push('\\')
            } else {
                out@
            }),
        decreases v@.len() - i,
    {
        let c = v[i];
        let ghost before = out@;
        proof {
            assert(v@.take(i + 1).drop_last() =~= v@.take(i as int));
            assert(v@.take(i + 1).last() == c);
            if i > 0 {
                assert(v@.take(i + 1)[i - 1] == v@[i - 1]);
            }
        }
        if pending {
            if c == ',' {
                out.push(',');
                pending = false;
                assert(before.push('\\').drop_last() =~= before);
            } else {
                out.push('\\');
                if c == '\\' {
                    pending = true;
                } else {
                    out.push(c);
                    pending = false;
                }
            }
        } else if c == '\\' {
            pending = true;
        } else {
            out.push(c);
        }
        i += 1;
    }
    assert(v@.take(v@.len() as int) =~= v@);
    if pending {
        out.push('\\');
    }
    out
}

/// Cuts a list at each `|` that does not stand inside a regular
/// expression, and unescapes the commas of each item. An empty last item is
/// left out.
pub fn split_on_pipe_but_not_in_regex(x: &str) -> (r: Vec<String>)
    ensures
        strings_of(r@) == pipe_items(x@),
{
    let chars = crate::text::to_chars(x);
    let mut escaped = false;
    let mut split = true;
    let mut acc: Vec<char> = Vec::new();
    let mut ret: Vec<String> = Vec::new();
    let mut i: usize = 0;
    assert(chars@.take(0) =~= Seq::<char>::empty());
    assert(strings_of(ret@) =~= closed_items(chars@.take(0)));
    while i < chars.len()
        invariant
            i <= chars@.len(),
            escaped == escaped_after(chars@.take(i as int)),
            split == splitting_after(chars@.take(i as int)),
            acc@ == open_item(chars@.take(i as int)),
            strings_of(ret@) == closed_items(chars@.take(i as int)),
        decreases chars@.len() - i,
    {
        let c = chars[i];
        proof {
            assert(chars@.take(i + 1).drop_last() =~= chars@.take(i as int));
            assert(chars@.take(i + 1).last() == c);
        }
        if c == '\\' {
            escaped = !escaped;
        }
        if c == '/' && !escaped {
            split = !split;
        }
        if c == '|' && split {
            let item = unescape_commas(&acc);
            let ghost before = strings_of(ret@);
            ret.push(item);
            assert(strings_of(ret@) =~= before.push(item@));
            acc = Vec::new();
        } else {
            acc.push(c);
        }
        i += 1;
    }
    assert(chars@.take(chars@.len() as int) =~= chars@);
    if acc.len() > 0 {
        let item = unescape_commas(&acc);
        let ghost before = strings_of(ret@);
        ret.push(item);
        assert(strings_of(ret@) =~= before.push(item@));
    }
    ret
}

} // verus!
