//! Host patterns: dot-separated labels, with `*` allowed as the first or
//! the last label only.

use vstd::prelude::*;
use crate::model::{Cond, Condition, conds_of, lemma_conds_of_push};
use crate::parser::PatternUnsupported;
use crate::text::{has_char, pieces_of, split, split_chars, string_of, to_chars};

verus! {

/// Whether `p` starts with the label `*`, followed by more labels.
pub open spec fn has_leading_star(p: Seq<char>) -> bool {
    p.len() >= 2 && p[0] == '*' && p[1] == '.'
}

/// Whether `p` ends with the label `*`, after other labels.
pub open spec fn has_trailing_star(p: Seq<char>) -> bool {
    p.len() >= 2 && p[p.len() - 2] == '.' && p[p.len() - 1] == '*'
}

/// What a host pattern means, or `None` where a `*` stands anywhere but as
/// the first or the last label.
///
/// The pattern is unqualified where the caller says so or where it starts
/// with `*.`; its public suffix is elided where it ends with `.*`, and the
/// condition then holds the pattern without that ending.
pub open spec fn domain_glob(explicitly_unqualified: bool, p: Seq<char>) -> Option<Cond> {
    let n = p.len() as int;
    let leading = has_leading_star(p);
    let trailing = has_trailing_star(p);
    let unqualified = explicitly_unqualified || leading;
    let from = if leading { 1int } else { 0int };
    let to = if trailing { n - 1 } else { n };
    if p.subrange(from, to).contains('*') {
        None
    } else if trailing {
        if unqualified {
            Some(Cond::UnqualifiedAnyTld(p.take(n - 2)))
        } else {
            Some(Cond::QualifiedAnyTld(p.take(n - 2)))
        }
    } else {
        if unqualified {
            Some(Cond::UnqualifiedDomain(p))
        } else {
            Some(Cond::QualifiedDomain(p))
        }
    }
}

/// Compiles a host pattern given as characters.
pub fn domain_glob_chars(explicitly_unqualified: bool, p: &Vec<char>) -> (r: Result<
    Condition,
    PatternUnsupported,
>)
    ensures
        match domain_glob(explicitly_unqualified, p@) {
            Some(c) => r is Ok && r->Ok_0@ == c,
            None => r is Err,
        },
{
    let n: usize = p.len();
    let leading = n >= 2 && p[0] == '*' && p[1] == '.';
    let trailing = n >= 2 && p[n - 2] == '.' && p[n - 1] == '*';
    let unqualified = explicitly_unqualified || leading;
    let from: usize = if leading { 1 } else { 0 };
    let to: usize = if trailing { n - 1 } else { n };
    if has_char(p, from, to, '*') {
        return Err(PatternUnsupported);
    }
    if trailing {
        let base = string_of(p, 0, n - 2);
        assert(p@.subrange(0, n - 2) == p@.take(n - 2));
        if unqualified {
            Ok(Condition::UnqualifiedAnyTld(base))
        } else {
            Ok(Condition::QualifiedAnyTld(base))
        }
    } else {
        let whole = string_of(p, 0, n);
        assert(p@.subrange(0, n as int) =~= p@);
        if unqualified {
            Ok(Condition::UnqualifiedDomain(whole))
        } else {
            Ok(Condition::QualifiedDomain(whole))
        }
    }
}

/// Compiles a host pattern.
///
/// Succeeds exactly where `*` stands only as the first or the last label,
/// with the condition that [`domain_glob`] gives.
pub fn domain_glob_to_condition(explicitly_unqualified: bool, domain: &str) -> (r: Result<
    Condition,
    PatternUnsupported,
>)
    ensures
        match domain_glob(explicitly_unqualified, domain@) {
            Some(c) => r is Ok && r->Ok_0@ == c,
            None => r is Err,
        },
{
    let p = to_chars(domain);
    domain_glob_chars(explicitly_unqualified, &p)
}

/// The conditions of the first `n` patterns, each read as unqualified, or
/// `None` where one of them is unsupported.
pub open spec fn domain_globs(ps: Seq<Seq<char>>, n: int) -> Option<Seq<Cond>>
    decreases n,
{
    if n <= 0 || n > ps.len() {
        Some(Seq::empty())
    } else {
        match (domain_globs(ps, n - 1), domain_glob(true, ps[n - 1])) {
            (Some(before), Some(c)) => Some(before.push(c)),
            _ => None,
        }
    }
}

/// What a `|`-separated list of host patterns means: `Any` of what each
/// pattern means as an unqualified one.
pub open spec fn domain_list(s: Seq<char>) -> Option<Cond> {
    let ps = split(s, '|');
    match domain_globs(ps, ps.len() as int) {
        Some(cs) => Some(Cond::Any(cs)),
        None => None,
    }
}

/// Compiles a `|`-separated list of host patterns.
///
/// Succeeds exactly where every pattern of the list is supported.
pub fn domains_to_condition(domains: &str) -> (r: Result<Condition, PatternUnsupported>)
    ensures
        match domain_list(domains@) {
            Some(c) => r is Ok && r->Ok_0@ == c,
            None => r is Err,
        },
{
    let chars = to_chars(domains);
    let ps = split_chars(&chars, '|');
    let ghost specs = pieces_of(ps@);
    let mut out: Vec<Condition> = Vec::new();
    let mut i: usize = 0;
    while i < ps.len()
        invariant
            i <= ps@.len(),
            specs == pieces_of(ps@),
            specs == split(domains@, '|'),
            domain_globs(specs, i as int) == Some(conds_of(out@)),
        decreases ps@.len() - i,
    {
        assert(specs[i as int] == ps@[i as int]@);
        match domain_glob_chars(true, &ps[i]) {
            Ok(c) => {
                proof {
                    lemma_conds_of_push(out@, c);
                }
                out.push(c);
            },
            Err(e) => {
                proof {
                    assert(domain_globs(specs, i as int + 1) is None);
                    lemma_domain_globs_fail(specs, i as int + 1, specs.len() as int);
                }
                return Err(e);
            },
        }
        i += 1;
    }
    Ok(Condition::Any(out))
}

/// Once a prefix of the patterns is unsupported, so is every longer one.
proof fn lemma_domain_globs_fail(ps: Seq<Seq<char>>, n: int, m: int)
    requires
        0 <= n <= m <= ps.len(),
        domain_globs(ps, n) is None,
    ensures
        domain_globs(ps, m) is None,
    decreases m - n,
{
    if n < m {
        lemma_domain_globs_fail(ps, n, m - 1);
    }
}

} // verus!
