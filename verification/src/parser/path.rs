//! Path patterns: `/`-separated segments, each with at most one `*`, at its
//! start or at its end.

use vstd::prelude::*;
use crate::model::{Cond, Condition, PartView, StringLocation, UrlPart, cond_of, conds_of,
    lemma_conds_of_push};
use crate::parser::PatternUnsupported;
use crate::text::{has_char, pieces_of, split, split_chars, string_of, to_chars};

verus! {

/// What the segment with index `i` asks of a path, or `None` where it holds
/// a `*` that is not alone, the only one at its start, or the only one at
/// its end.
pub open spec fn segment_cond(i: int, seg: Seq<char>) -> Option<Cond> {
    let n = seg.len() as int;
    let part = PartView::PathSegment(i);
    if n == 1 && seg[0] == '*' {
        Some(Cond::Not(Box::new(Cond::PartIs { part, value: None })))
    } else if n >= 1 && seg[0] == '*' && !seg.subrange(1, n).contains('*') {
        Some(Cond::PartContains { part, location: StringLocation::End, value: seg.subrange(1, n) })
    } else if n >= 1 && seg[n - 1] == '*' && !seg.take(n - 1).contains('*') {
        Some(Cond::PartContains { part, location: StringLocation::Start, value: seg.take(n - 1) })
    } else if !seg.contains('*') {
        Some(Cond::PartIs { part, value: Some(seg) })
    } else {
        None
    }
}

/// The conditions of the first `n` segments, or `None` where one of them is
/// unsupported.
pub open spec fn segment_conds(segs: Seq<Seq<char>>, n: int) -> Option<Seq<Cond>>
    decreases n,
{
    if n <= 0 || n > segs.len() {
        Some(Seq::empty())
    } else {
        match (segment_conds(segs, n - 1), segment_cond(n - 1, segs[n - 1])) {
            (Some(before), Some(c)) => Some(before.push(c)),
            _ => None,
        }
    }
}

/// What a path pattern means.
///
/// Without `*` the path is the pattern. `/*` is any path but the bare
/// root. Otherwise the pattern is cut at each `/`, the empty piece before
/// the first `/` is dropped, and the result is `All` of what each segment
/// asks. A pattern with an unsupported segment, or with more segments than
/// a segment index can number, has no meaning.
pub open spec fn path_glob(p: Seq<char>) -> Option<Cond> {
    let segs = split(p, '/').drop_first();
    if !p.contains('*') {
        Some(Cond::PathIs(p))
    } else if segs.len() == 1 && segs[0] == seq!['*'] {
        Some(Cond::Not(Box::new(Cond::PathIs(seq!['/']))))
    } else if segs.len() > isize::MAX {
        None
    } else {
        match segment_conds(segs, segs.len() as int) {
            Some(cs) => Some(Cond::All(cs)),
            None => None,
        }
    }
}

/// Compiles one segment of a path pattern.
pub fn segment_to_condition(i: isize, seg: &Vec<char>) -> (r: Result<
    Condition,
    PatternUnsupported,
>)
    ensures
        match segment_cond(i as int, seg@) {
            Some(c) => r is Ok && r->Ok_0@ == c,
            None => r is Err,
        },
{
    let n: usize = seg.len();
    proof {
        reveal_with_fuel(cond_of, 3);
    }
    if n == 1 && seg[0] == '*' {
        Ok(
            Condition::Not(
                Box::new(Condition::PartIs { part: UrlPart::PathSegment(i), value: None }),
            ),
        )
    } else if n >= 1 && seg[0] == '*' && !has_char(seg, 1, n, '*') {
        Ok(
            Condition::PartContains {
                part: UrlPart::PathSegment(i),
                location: StringLocation::End,
                value: string_of(seg, 1, n),
            },
        )
    } else if n >= 1 && seg[n - 1] == '*' && !has_char(seg, 0, n - 1, '*') {
        assert(seg@.subrange(0, n - 1) == seg@.take(n - 1));
        Ok(
            Condition::PartContains {
                part: UrlPart::PathSegment(i),
                location: StringLocation::Start,
                value: string_of(seg, 0, n - 1),
            },
        )
    } else if !has_char(seg, 0, n, '*') {
        assert(seg@.subrange(0, n as int) =~= seg@);
        Ok(
            Condition::PartIs {
                part: UrlPart::PathSegment(i),
                value: Some(string_of(seg, 0, n)),
            },
        )
    } else {
        assert(seg@.subrange(0, n as int) =~= seg@);
        if n >= 1 {
            assert(seg@.subrange(0, n - 1) == seg@.take(n - 1));
        }
        Err(PatternUnsupported)
    }
}

/// Once a prefix of the segments is unsupported, so is every longer one.
proof fn lemma_segment_conds_fail(segs: Seq<Seq<char>>, n: int, m: int)
    requires
        0 <= n <= m <= segs.len(),
        segment_conds(segs, n) is None,
    ensures
        segment_conds(segs, m) is None,
    decreases m - n,
{
    if n < m {
        lemma_segment_conds_fail(segs, n, m - 1);
    }
}

/// Compiles a path pattern.
///
/// Succeeds exactly where [`path_glob`] gives the pattern a meaning, with
/// that condition.
pub fn path_glob_to_condition(path: &str) -> (r: Result<Condition, PatternUnsupported>)
    ensures
        match path_glob(path@) {
            Some(c) => r is Ok && r->Ok_0@ == c,
            None => r is Err,
        },
{
    let p = to_chars(path);
    let n: usize = p.len();
    assert(p@.subrange(0, n as int) =~= p@);
    if !has_char(&p, 0, n, '*') {
        return Ok(Condition::PathIs(string_of(&p, 0, n)));
    }
    let pieces = split_chars(&p, '/');
    let ghost segs = split(path@, '/').drop_first();
    assert(segs.len() == pieces@.len() - 1);
    assert forall|k: int| 0 <= k < segs.len() implies segs[k] == #[trigger] pieces@[k + 1]@ by {
        assert(pieces_of(pieces@)[k + 1] == pieces@[k + 1]@);
    }
    if pieces.len() == 2 && pieces[1].len() == 1 && pieces[1][0] == '*' {
        assert(segs[0] == pieces@[1]@);
        assert(segs[0] =~= seq!['*']);
        proof {
            reveal_with_fuel(cond_of, 3);
        }
        let mut root = String::new();
        root.push('/');
        assert(root@ =~= seq!['/']);
        return Ok(Condition::Not(Box::new(Condition::PathIs(root))));
    }
    proof {
        if segs.len() == 1 && segs[0] == seq!['*'] {
            assert(segs[0] == pieces@[1]@);
            assert(seq!['*'].len() == 1);
            assert(seq!['*'][0] == '*');
        }
    }
    if pieces.len() - 1 > isize::MAX as usize {
        return Err(PatternUnsupported);
    }
    let mut out: Vec<Condition> = Vec::new();
    let mut k: usize = 1;
    while k < pieces.len()
        invariant
            1 <= k <= pieces@.len(),
            pieces@.len() - 1 <= isize::MAX,
            path@.contains('*'),
            segs == split(path@, '/').drop_first(),
            !(segs.len() == 1 && segs[0] == seq!['*']),
            segs.len() == pieces@.len() - 1,
            forall|j: int| 0 <= j < segs.len() ==> segs[j] == #[trigger] pieces@[j + 1]@,
            segment_conds(segs, k - 1) == Some(conds_of(out@)),
        decreases pieces@.len() - k,
    {
        assert(segs[k - 1] == pieces@[k - 1 + 1]@);
        match segment_to_condition((k - 1) as isize, &pieces[k]) {
            Ok(c) => {
                proof {
                    lemma_conds_of_push(out@, c);
                }
                out.push(c);
            },
            Err(e) => {
                proof {
                    assert(segment_cond(k - 1, segs[k - 1]) is None);
                    assert(segment_conds(segs, k as int) is None);
                    lemma_segment_conds_fail(segs, k as int, segs.len() as int);
                }
                return Err(e);
            },
        }
        k += 1;
    }
    Ok(Condition::All(out))
}

} // verus!
