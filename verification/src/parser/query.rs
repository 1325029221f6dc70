//! Query patterns: `&`-separated parameters, each a bare key or `key=value`
//! with `*` allowed in the value.

use vstd::prelude::*;
use crate::model::{Cond, Condition, MatcherView, PartView, RegexParts, RegexView, StringMatcher,
    UrlPart, cond_of, conds_of, lemma_conds_of_push};
use crate::model::RegexConfig;
use crate::parser::regex::{check_regex, default_config, regex_accepts};
use crate::text::{expand_stars, has_char, pieces_of, split, split_chars, stars_to_any, string_of,
    to_chars};

verus! {

/// Why a query pattern has no condition.
#[derive(Debug)]
pub enum QueryToConditionError {
    /// A value with wildcards does not give a well-formed regular
    /// expression.
    RegexMakingError(Box<regex_syntax::Error>),
    /// A key holds a wildcard.
    PatternUnsupported,
}

/// The kind of a [`QueryToConditionError`].
pub ghost enum QueryFailure {
    Regex,
    Unsupported,
}

impl View for QueryToConditionError {
    type V = QueryFailure;

    open spec fn view(&self) -> QueryFailure {
        match self {
            QueryToConditionError::RegexMakingError(_) => QueryFailure::Regex,
            QueryToConditionError::PatternUnsupported => QueryFailure::Unsupported,
        }
    }
}

/// The index of the first `c` in `s`, or the length of `s` where there is
/// none.
pub open spec fn first_index(s: Seq<char>, c: char) -> int
    decreases s.len(),
{
    if s.len() == 0 {
        0
    } else {
        let before = first_index(s.drop_last(), c);
        if before < s.len() - 1 {
            before
        } else if s.last() == c {
            s.len() - 1
        } else {
            s.len() as int
        }
    }
}

/// The condition that the parameter named `key` is present.
pub open spec fn present(key: Seq<char>) -> Cond {
    Cond::Not(Box::new(Cond::PartIs { part: PartView::QueryParam(key), value: None }))
}

/// The condition that the parameter named `key` matches `pattern`.
pub open spec fn matches_pattern(key: Seq<char>, pattern: Seq<char>) -> Cond {
    Cond::PartMatches {
        part: PartView::QueryParam(key),
        matcher: MatcherView::Regex(RegexView { pattern, config: default_config() }),
    }
}

/// What one parameter of a query pattern asks.
///
/// A bare key asks for the parameter to be present. `key=value` without
/// `*` asks for that value; `key=*` asks for presence; any other value with
/// `*` asks that the value match the regular expression got by writing `.*`
/// for each `*`, and fails where that expression is not well formed. A `*` in
/// the key of `key=value` is unsupported.
pub open spec fn param_cond(p: Seq<char>) -> Result<Cond, QueryFailure> {
    let i = first_index(p, '=');
    let key = p.take(i);
    let value = p.skip(i + 1);
    if i == p.len() {
        Ok(present(p))
    } else if key.contains('*') {
        Err(QueryFailure::Unsupported)
    } else if !value.contains('*') {
        Ok(Cond::PartIs { part: PartView::QueryParam(key), value: Some(value) })
    } else if value == seq!['*'] {
        Ok(present(key))
    } else if regex_accepts(stars_to_any(value), default_config()) {
        Ok(matches_pattern(key, stars_to_any(value)))
    } else {
        Err(QueryFailure::Regex)
    }
}

/// What the first `n` parameters ask, or the failure of the first one that
/// fails.
pub open spec fn param_conds(ps: Seq<Seq<char>>, n: int) -> Result<Seq<Cond>, QueryFailure>
    decreases n,
{
    if n <= 0 || n > ps.len() {
        Ok(Seq::empty())
    } else {
        match param_conds(ps, n - 1) {
            Err(e) => Err(e),
            Ok(before) => match param_cond(ps[n - 1]) {
                Err(e) => Err(e),
                Ok(c) => Ok(before.push(c)),
            },
        }
    }
}

/// What a query pattern means: `All` of what its `&`-separated parameters
/// ask.
pub open spec fn query_cond(q: Seq<char>) -> Result<Cond, QueryFailure> {
    let ps = split(q, '&');
    match param_conds(ps, ps.len() as int) {
        Ok(cs) => Ok(Cond::All(cs)),
        Err(e) => Err(e),
    }
}

/// The index of the first `c` in `v`, or the length of `v`.
pub fn find_char(v: &Vec<char>, c: char) -> (r: usize)
    ensures
        r == first_index(v@, c),
        r <= v@.len(),
{
    let mut i: usize = 0;
    assert(v@.take(0) =~= Seq::<char>::empty());
    while i < v.len()
        invariant
            i <= v@.len(),
            first_index(v@.take(i as int), c) == i,
        decreases v@.len() - i,
    {
        proof {
            assert(v@.take(i + 1).drop_last() =~= v@.take(i as int));
            assert(v@.take(i + 1).last() == v@[i as int]);
        }
        if v[i] == c {
            proof {
                lemma_first_index_found(v@, c, i as int + 1, v@.len() as int);
                assert(v@.take(v@.len() as int) =~= v@);
            }
            return i;
        }
        i += 1;
    }
    assert(v@.take(v@.len() as int) =~= v@);
    i
}

/// Once `c` is found in a prefix, longer prefixes find it at the same place.
proof fn lemma_first_index_found(s: Seq<char>, c: char, n: int, m: int)
    requires
        0 <= n <= m <= s.len(),
        first_index(s.take(n), c) < n,
    ensures
        first_index(s.take(m), c) == first_index(s.take(n), c),
    decreases m - n,
{
    if n < m {
        lemma_first_index_found(s, c, n, m - 1);
        assert(s.take(m).drop_last() =~= s.take(m - 1));
    }
}

/// The condition of a `key=value` parameter whose value holds wildcards,
/// given what the regex parser said of the expression made of the value: the match
/// condition where it accepted, its error where it did not.
pub fn wildcard_value_condition(
    key: String,
    pattern: String,
    checked: Result<(), regex_syntax::Error>,
) -> (r: Result<Condition, QueryToConditionError>)
    ensures
        checked is Ok ==> r is Ok && r->Ok_0@ == matches_pattern(key@, pattern@),
        checked is Err ==> r is Err && r->Err_0@ == QueryFailure::Regex,
{
    match checked {
        Ok(_) => Ok(
            Condition::PartMatches {
                part: UrlPart::QueryParam(key),
                matcher: StringMatcher::Regex(
                    RegexParts { pattern, config: RegexConfig::default() },
                ),
            },
        ),
        Err(e) => Err(QueryToConditionError::RegexMakingError(Box::new(e))),
    }
}

/// Compiles one parameter of a query pattern.
pub fn query_param_to_condition(p: &Vec<char>) -> (r: Result<Condition, QueryToConditionError>)
    ensures
        match param_cond(p@) {
            Ok(c) => r is Ok && r->Ok_0@ == c,
            Err(e) => r is Err && r->Err_0@ == e,
        },
{
    let n: usize = p.len();
    let i: usize = find_char(p, '=');
    proof {
        reveal_with_fuel(cond_of, 3);
        assert(p@.subrange(0, n as int) =~= p@);
        assert(p@.subrange(0, i as int) =~= p@.take(i as int));
    }
    if i == n {
        return Ok(
            Condition::Not(
                Box::new(
                    Condition::PartIs {
                        part: UrlPart::QueryParam(string_of(p, 0, n)),
                        value: None,
                    },
                ),
            ),
        );
    }
    assert(p@.subrange(i + 1, n as int) =~= p@.skip(i + 1));
    if has_char(p, 0, i, '*') {
        return Err(QueryToConditionError::PatternUnsupported);
    }
    let key = string_of(p, 0, i);
    if !has_char(p, i + 1, n, '*') {
        return Ok(
            Condition::PartIs {
                part: UrlPart::QueryParam(key),
                value: Some(string_of(p, i + 1, n)),
            },
        );
    }
    if n - i == 2 && p[i + 1] == '*' {
        assert(p@.skip(i + 1) =~= seq!['*']);
        return Ok(
            Condition::Not(
                Box::new(Condition::PartIs { part: UrlPart::QueryParam(key), value: None }),
            ),
        );
    }
    proof {
        if p@.skip(i + 1) == seq!['*'] {
            assert(seq!['*'].len() == 1);
            assert(seq!['*'][0] == '*');
            assert(p@.skip(i + 1)[0] == p@[i + 1]);
        }
    }
    let pattern = expand_stars(p, i + 1, n);
    let config = RegexConfig::default();
    let checked = check_regex(pattern.as_str(), &config);
    wildcard_value_condition(key, pattern, checked)
}

/// Once a prefix of the parameters fails, longer ones fail in the same way.
proof fn lemma_param_conds_fail(ps: Seq<Seq<char>>, n: int, m: int)
    requires
        0 <= n <= m <= ps.len(),
        param_conds(ps, n) is Err,
    ensures
        param_conds(ps, m) == param_conds(ps, n),
    decreases m - n,
{
    if n < m {
        lemma_param_conds_fail(ps, n, m - 1);
    }
}

/// Compiles a query pattern.
///
/// Succeeds exactly where every parameter has a condition; otherwise fails
/// with the error of the first parameter that has none.
pub fn query_to_condition(query: &str) -> (r: Result<Condition, QueryToConditionError>)
    ensures
        match query_cond(query@) {
            Ok(c) => r is Ok && r->Ok_0@ == c,
            Err(e) => r is Err && r->Err_0@ == e,
        },
{
    let chars = to_chars(query);
    let ps = split_chars(&chars, '&');
    let ghost specs = pieces_of(ps@);
    let mut out: Vec<Condition> = Vec::new();
    let mut i: usize = 0;
    assert(conds_of(out@) =~= Seq::<Cond>::empty());
    while i < ps.len()
        invariant
            i <= ps@.len(),
            specs == pieces_of(ps@),
            specs == split(query@, '&'),
            param_conds(specs, i as int) == Ok::<Seq<Cond>, QueryFailure>(conds_of(out@)),
        decreases ps@.len() - i,
    {
        assert(specs[i as int] == ps@[i as int]@);
        match query_param_to_condition(&ps[i]) {
            Ok(c) => {
                proof {
                    lemma_conds_of_push(out@, c);
                }
                out.push(c);
            },
            Err(e) => {
                proof {
                    assert(param_conds(specs, i as int + 1) == Err::<Seq<Cond>, QueryFailure>(
                        e@,
                    ));
                    lemma_param_conds_fail(specs, i as int + 1, specs.len() as int);
                }
                return Err(e);
            },
        }
        i += 1;
    }
    Ok(Condition::All(out))
}

} // verus!
