//! Structural equality and copying of the model's values.

use vstd::prelude::*;
use crate::model::{Condition, Mapper, RegexParts, Rule, StringMatcher, UrlPart, conds_of,
    lemma_conds_of_push, name_set};

verus! {

impl UrlPart {
    /// Whether two parts are the same part.
    pub fn same(&self, other: &UrlPart) -> (r: bool)
        ensures
            r == (self@ == other@),
    {
        match (self, other) {
            (UrlPart::PathSegment(i), UrlPart::PathSegment(j)) => *i == *j,
            (UrlPart::QueryParam(a), UrlPart::QueryParam(b)) => *a == *b,
            _ => false,
        }
    }

    /// A copy with the same value.
    pub fn duplicate(&self) -> (r: UrlPart)
        ensures
            r@ == self@,
    {
        match self {
            UrlPart::PathSegment(i) => UrlPart::PathSegment(*i),
            UrlPart::QueryParam(k) => UrlPart::QueryParam(k.clone()),
        }
    }
}

impl RegexParts {
    /// Whether two expressions have the same text and switches.
    pub fn same(&self, other: &RegexParts) -> (r: bool)
        ensures
            r == (self@ == other@),
    {
        self.pattern == other.pattern && self.config == other.config
    }

    /// A copy with the same value.
    pub fn duplicate(&self) -> (r: RegexParts)
        ensures
            r@ == self@,
    {
        RegexParts { pattern: self.pattern.clone(), config: self.config }
    }
}

impl StringMatcher {
    /// Whether two matchers are the same test.
    pub fn same(&self, other: &StringMatcher) -> (r: bool)
        ensures
            r == (self@ == other@),
    {
        match (self, other) {
            (StringMatcher::Regex(a), StringMatcher::Regex(b)) => a.same(b),
        }
    }

    /// A copy with the same value.
    pub fn duplicate(&self) -> (r: StringMatcher)
        ensures
            r@ == self@,
    {
        match self {
            StringMatcher::Regex(a) => StringMatcher::Regex(a.duplicate()),
        }
    }
}

/// Whether two optional strings hold the same characters, or are both absent.
pub fn same_opt_string(a: &Option<String>, b: &Option<String>) -> (r: bool)
    ensures
        r == (crate::model::opt_chars(*a) == crate::model::opt_chars(*b)),
{
    match (a, b) {
        (Some(x), Some(y)) => *x == *y,
        (None, None) => true,
        _ => false,
    }
}

/// Whether two lists of conditions have the same length and, place by
/// place, the same value.
pub fn same_conditions(a: &Vec<Condition>, b: &Vec<Condition>) -> (r: bool)
    ensures
        r == (conds_of(a@) == conds_of(b@)),
    decreases a@,
{
    if a.len() != b.len() {
        assert(conds_of(a@).len() != conds_of(b@).len());
        return false;
    }
    let mut i: usize = 0;
    while i < a.len()
        invariant
            a@.len() == b@.len(),
            i <= a@.len(),
            forall|k: int| 0 <= k < i ==> a@[k]@ == b@[k]@,
        decreases a@.len() - i,
    {
        if !same_condition(&a[i], &b[i]) {
            assert(conds_of(a@)[i as int] != conds_of(b@)[i as int]);
            return false;
        }
        i += 1;
    }
    assert(conds_of(a@) =~= conds_of(b@));
    true
}

/// Whether two conditions are the same tree.
pub fn same_condition(a: &Condition, b: &Condition) -> (r: bool)
    ensures
        r == (a@ == b@),
    decreases a,
{
    match (a, b) {
        (Condition::Always, Condition::Always) => true,
        (Condition::Never, Condition::Never) => true,
        (Condition::Not(x), Condition::Not(y)) => same_condition(x, y),
        (Condition::All(x), Condition::All(y)) => same_conditions(x, y),
        (Condition::Any(x), Condition::Any(y)) => same_conditions(x, y),
        (Condition::QualifiedDomain(x), Condition::QualifiedDomain(y)) => *x == *y,
        (Condition::UnqualifiedDomain(x), Condition::UnqualifiedDomain(y)) => *x == *y,
        (Condition::QualifiedAnyTld(x), Condition::QualifiedAnyTld(y)) => *x == *y,
        (Condition::UnqualifiedAnyTld(x), Condition::UnqualifiedAnyTld(y)) => *x == *y,
        (Condition::PathIs(x), Condition::PathIs(y)) => *x == *y,
        (
            Condition::PartIs { part: p, value: v },
            Condition::PartIs { part: q, value: w },
        ) => p.same(q) && same_opt_string(v, w),
        (
            Condition::PartContains { part: p, location: l, value: v },
            Condition::PartContains { part: q, location: m, value: w },
        ) => p.same(q) && *l == *m && *v == *w,
        (
            Condition::PartMatches { part: p, matcher: v },
            Condition::PartMatches { part: q, matcher: w },
        ) => p.same(q) && v.same(w),
        _ => false,
    }
}

/// Copies of the conditions of a list, in order.
pub fn duplicate_conditions(cs: &Vec<Condition>) -> (r: Vec<Condition>)
    ensures
        conds_of(r@) == conds_of(cs@),
    decreases cs@,
{
    let mut out: Vec<Condition> = Vec::new();
    let mut i: usize = 0;
    while i < cs.len()
        invariant
            i <= cs@.len(),
            conds_of(out@) == conds_of(cs@.take(i as int)),
        decreases cs@.len() - i,
    {
        let c = duplicate_condition(&cs[i]);
        proof {
            lemma_conds_of_push(out@, c);
            lemma_conds_of_push(cs@.take(i as int), cs@[i as int]);
            assert(cs@.take(i as int).push(cs@[i as int]) == cs@.take(i + 1));
        }
        out.push(c);
        i += 1;
    }
    assert(cs@.take(cs@.len() as int) == cs@);
    out
}

/// A copy of a condition, with the same value.
pub fn duplicate_condition(c: &Condition) -> (r: Condition)
    ensures
        r@ == c@,
    decreases c,
{
    match c {
        Condition::Always => Condition::Always,
        Condition::Never => Condition::Never,
        Condition::Not(x) => Condition::Not(Box::new(duplicate_condition(x))),
        Condition::All(x) => Condition::All(duplicate_conditions(x)),
        Condition::Any(x) => Condition::Any(duplicate_conditions(x)),
        Condition::QualifiedDomain(x) => Condition::QualifiedDomain(x.clone()),
        Condition::UnqualifiedDomain(x) => Condition::UnqualifiedDomain(x.clone()),
        Condition::QualifiedAnyTld(x) => Condition::QualifiedAnyTld(x.clone()),
        Condition::UnqualifiedAnyTld(x) => Condition::UnqualifiedAnyTld(x.clone()),
        Condition::PathIs(x) => Condition::PathIs(x.clone()),
        Condition::PartIs { part, value } => Condition::PartIs {
            part: part.duplicate(),
            value: match value {
                Some(v) => Some(v.clone()),
                None => None,
            },
        },
        Condition::PartContains { part, location, value } => Condition::PartContains {
            part: part.duplicate(),
            location: *location,
            value: value.clone(),
        },
        Condition::PartMatches { part, matcher } => Condition::PartMatches {
            part: part.duplicate(),
            matcher: matcher.duplicate(),
        },
    }
}

impl Clone for Condition {
    fn clone(&self) -> (r: Condition)
        ensures
            r@ == self@,
    {
        duplicate_condition(self)
    }
}

impl PartialEq for Condition {
    fn eq(&self, other: &Condition) -> (r: bool) {
        same_condition(self, other)
    }
}

impl vstd::std_specs::cmp::PartialEqSpecImpl for Condition {
    open spec fn obeys_eq_spec() -> bool {
        true
    }

    open spec fn eq_spec(&self, other: &Condition) -> bool {
        self@ == other@
    }
}

/// Whether `name` is one of `names`.
pub fn has_name(names: &Vec<String>, name: &String) -> (r: bool)
    ensures
        r == name_set(names@).contains(name@),
{
    let mut i: usize = 0;
    while i < names.len()
        invariant
            i <= names@.len(),
            forall|k: int| 0 <= k < i ==> names@[k]@ != name@,
        decreases names@.len() - i,
    {
        if names[i] == *name {
            return true;
        }
        i += 1;
    }
    false
}

/// Whether every one of `a` is one of `b`.
pub fn names_within(a: &Vec<String>, b: &Vec<String>) -> (r: bool)
    ensures
        r == name_set(a@).subset_of(name_set(b@)),
{
    let mut i: usize = 0;
    while i < a.len()
        invariant
            i <= a@.len(),
            forall|k: int| 0 <= k < i ==> name_set(b@).contains(#[trigger] a@[k]@),
        decreases a@.len() - i,
    {
        if !has_name(b, &a[i]) {
            assert(name_set(a@).contains(a@[i as int]@));
            return false;
        }
        i += 1;
    }
    true
}

impl Mapper {
    /// Whether two actions are the same; sets of names are compared as sets.
    pub fn same(&self, other: &Mapper) -> (r: bool)
        ensures
            r == (self@ == other@),
    {
        match (self, other) {
            (Mapper::NoOp, Mapper::NoOp) => true,
            (Mapper::RemoveQueryParams(a), Mapper::RemoveQueryParams(b)) => {
                let r = names_within(a, b) && names_within(b, a);
                assert(r == (name_set(a@) =~= name_set(b@)));
                r
            },
            (Mapper::RemoveQueryParamsMatching(a), Mapper::RemoveQueryParamsMatching(b)) => a.same(
                b,
            ),
            _ => false,
        }
    }

    /// A copy with the same value.
    pub fn duplicate(&self) -> (r: Mapper)
        ensures
            r@ == self@,
    {
        match self {
            Mapper::NoOp => Mapper::NoOp,
            Mapper::RemoveQueryParams(a) => {
                let mut out: Vec<String> = Vec::new();
                let mut i: usize = 0;
                while i < a.len()
                    invariant
                        i <= a@.len(),
                        out@.len() == i,
                        forall|k: int| 0 <= k < i ==> out@[k]@ == a@[k]@,
                    decreases a@.len() - i,
                {
                    out.push(a[i].clone());
                    i += 1;
                }
                assert(name_set(out@) =~= name_set(a@));
                Mapper::RemoveQueryParams(out)
            },
            Mapper::RemoveQueryParamsMatching(m) => Mapper::RemoveQueryParamsMatching(
                m.duplicate(),
            ),
        }
    }
}

impl PartialEq for Mapper {
    fn eq(&self, other: &Mapper) -> (r: bool) {
        self.same(other)
    }
}

impl vstd::std_specs::cmp::PartialEqSpecImpl for Mapper {
    open spec fn obeys_eq_spec() -> bool {
        true
    }

    open spec fn eq_spec(&self, other: &Mapper) -> bool {
        self@ == other@
    }
}

impl Rule {
    /// Whether two rules have the same condition and the same action.
    pub fn same(&self, other: &Rule) -> (r: bool)
        ensures
            r == (self@ == other@),
    {
        match (self, other) {
            (
                Rule::Normal { condition: c, mapper: m },
                Rule::Normal { condition: d, mapper: n },
            ) => same_condition(c, d) && m.same(n),
        }
    }

    /// A copy with the same value.
    pub fn duplicate(&self) -> (r: Rule)
        ensures
            r@ == self@,
    {
        match self {
            Rule::Normal { condition, mapper } => Rule::Normal {
                condition: duplicate_condition(condition),
                mapper: mapper.duplicate(),
            },
        }
    }
}

impl PartialEq for Rule {
    fn eq(&self, other: &Rule) -> (r: bool) {
        self.same(other)
    }
}

impl vstd::std_specs::cmp::PartialEqSpecImpl for Rule {
    open spec fn obeys_eq_spec() -> bool {
        true
    }

    open spec fn eq_spec(&self, other: &Rule) -> bool {
        self@ == other@
    }
}

} // verus!
