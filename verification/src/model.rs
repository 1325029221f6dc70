//! The predicate tree, the rewrite action and the rule built from both,
//! each with the mathematical value that contracts speak of.

use vstd::prelude::*;

verus! {

/// The part of a URL that a predicate reads.
#[derive(Debug)]
pub enum UrlPart {
    /// The path segment with this index.
    PathSegment(isize),
    /// The query parameter with this name.
    QueryParam(String),
}

/// The value of a [`UrlPart`].
pub ghost enum PartView {
    PathSegment(int),
    QueryParam(Seq<char>),
}

impl View for UrlPart {
    type V = PartView;

    open spec fn view(&self) -> PartView {
        match self {
            UrlPart::PathSegment(i) => PartView::PathSegment(*i as int),
            UrlPart::QueryParam(k) => PartView::QueryParam(k@),
        }
    }
}

/// The end of a string at which a fragment is looked for.
#[derive(Clone, Copy, Debug, PartialEq, Eq, Structural)]
pub enum StringLocation {
    Start,
    End,
}

/// The switches under which a regular expression is read.
#[derive(Clone, Copy, Debug, PartialEq, Eq, Structural)]
pub struct RegexConfig {
    /// Letters match both cases (`i`).
    pub case_insensitive: bool,
    /// `^` and `$` match at line ends (`m`).
    pub multi_line: bool,
    /// `.` matches a line break too (`s`).
    pub dot_matches_new_line: bool,
    /// Greedy and lazy repetition change places (`U`).
    pub swap_greed: bool,
    /// White space and comments in the pattern are skipped (`x`).
    pub ignore_whitespace: bool,
    /// Line ends include carriage return (`R`).
    pub crlf: bool,
    /// Classes are Unicode aware (`u`); on unless switched off.
    pub unicode: bool,
}

/// A regular expression as text, with its switches.
#[derive(Debug)]
pub struct RegexParts {
    pub pattern: String,
    pub config: RegexConfig,
}

/// The value of a [`RegexParts`].
pub ghost struct RegexView {
    pub pattern: Seq<char>,
    pub config: RegexConfig,
}

impl View for RegexParts {
    type V = RegexView;

    open spec fn view(&self) -> RegexView {
        RegexView { pattern: self.pattern@, config: self.config }
    }
}

/// A test on a string.
#[derive(Debug)]
pub enum StringMatcher {
    /// The string matches the regular expression.
    Regex(RegexParts),
}

/// The value of a [`StringMatcher`].
pub ghost enum MatcherView {
    Regex(RegexView),
}

impl View for StringMatcher {
    type V = MatcherView;

    open spec fn view(&self) -> MatcherView {
        match self {
            StringMatcher::Regex(r) => MatcherView::Regex(r@),
        }
    }
}

/// A predicate on URLs, as a tree.
#[derive(Debug)]
pub enum Condition {
    /// Matches every URL.
    Always,
    /// Matches no URL.
    Never,
    /// Matches where the inner condition does not.
    Not(Box<Condition>),
    /// Matches where every member does.
    All(Vec<Condition>),
    /// Matches where some member does.
    Any(Vec<Condition>),
    /// The host is exactly this domain.
    QualifiedDomain(String),
    /// The host is this domain or a subdomain of it.
    UnqualifiedDomain(String),
    /// The host, without its public suffix, is exactly this.
    QualifiedAnyTld(String),
    /// The host, without its public suffix, is this or a subdomain of it.
    UnqualifiedAnyTld(String),
    /// The path is exactly this.
    PathIs(String),
    /// The part has this value, or with `None` is absent.
    PartIs { part: UrlPart, value: Option<String> },
    /// The part starts or ends with this value.
    PartContains { part: UrlPart, location: StringLocation, value: String },
    /// The part passes the matcher.
    PartMatches { part: UrlPart, matcher: StringMatcher },
}

/// The value of a [`Condition`]: the same tree over sequences.
pub ghost enum Cond {
    Always,
    Never,
    Not(Box<Cond>),
    All(Seq<Cond>),
    Any(Seq<Cond>),
    QualifiedDomain(Seq<char>),
    UnqualifiedDomain(Seq<char>),
    QualifiedAnyTld(Seq<char>),
    UnqualifiedAnyTld(Seq<char>),
    PathIs(Seq<char>),
    PartIs { part: PartView, value: Option<Seq<char>> },
    PartContains { part: PartView, location: StringLocation, value: Seq<char> },
    PartMatches { part: PartView, matcher: MatcherView },
}

/// The characters of an optional string.
pub open spec fn opt_chars(o: Option<String>) -> Option<Seq<char>> {
    match o {
        Some(s) => Some(s@),
        None => None,
    }
}

/// The value of a condition: its shape, with each string as its characters.
pub open spec fn cond_of(c: Condition) -> Cond
    decreases c,
{
    match c {
        Condition::Always => Cond::Always,
        Condition::Never => Cond::Never,
        Condition::Not(inner) => Cond::Not(Box::new(cond_of(*inner))),
        Condition::All(cs) => Cond::All(conds_of(cs@)),
        Condition::Any(cs) => Cond::Any(conds_of(cs@)),
        Condition::QualifiedDomain(d) => Cond::QualifiedDomain(d@),
        Condition::UnqualifiedDomain(d) => Cond::UnqualifiedDomain(d@),
        Condition::QualifiedAnyTld(d) => Cond::QualifiedAnyTld(d@),
        Condition::UnqualifiedAnyTld(d) => Cond::UnqualifiedAnyTld(d@),
        Condition::PathIs(p) => Cond::PathIs(p@),
        Condition::PartIs { part, value } => Cond::PartIs { part: part@, value: opt_chars(value) },
        Condition::PartContains { part, location, value } => Cond::PartContains {
            part: part@,
            location,
            value: value@,
        },
        Condition::PartMatches { part, matcher } => Cond::PartMatches {
            part: part@,
            matcher: matcher@,
        },
    }
}

/// The values of a sequence of conditions, one by one.
pub open spec fn conds_of(cs: Seq<Condition>) -> Seq<Cond>
    decreases cs,
{
    Seq::new(cs.len(), |i: int| if 0 <= i < cs.len() { cond_of(cs[i]) } else { Cond::Never })
}

impl View for Condition {
    type V = Cond;

    open spec fn view(&self) -> Cond {
        cond_of(*self)
    }
}

/// Pushing a condition onto a vector pushes its value onto the values.
pub proof fn lemma_conds_of_push(cs: Seq<Condition>, c: Condition)
    ensures
        conds_of(cs.push(c)) == conds_of(cs).push(c@),
{
    assert(conds_of(cs.push(c)) =~= conds_of(cs).push(c@));
}

/// What the rule does to a URL that its condition matches.
#[derive(Debug)]
pub enum Mapper {
    /// Nothing.
    NoOp,
    /// Removes the query parameters with these names. The names form a set:
    /// order and repetition carry no meaning.
    RemoveQueryParams(Vec<String>),
    /// Removes the query parameters whose names pass the matcher.
    RemoveQueryParamsMatching(StringMatcher),
}

/// The value of a [`Mapper`].
pub ghost enum MapperView {
    NoOp,
    RemoveQueryParams(Set<Seq<char>>),
    RemoveQueryParamsMatching(MatcherView),
}

/// The set of the strings in `names`, each as its characters.
pub open spec fn name_set(names: Seq<String>) -> Set<Seq<char>> {
    Set::new(|n: Seq<char>| exists|i: int| 0 <= i < names.len() && #[trigger] names[i]@ == n)
}

impl View for Mapper {
    type V = MapperView;

    open spec fn view(&self) -> MapperView {
        match self {
            Mapper::NoOp => MapperView::NoOp,
            Mapper::RemoveQueryParams(names) => MapperView::RemoveQueryParams(name_set(names@)),
            Mapper::RemoveQueryParamsMatching(m) => MapperView::RemoveQueryParamsMatching(m@),
        }
    }
}

/// A condition and the action taken where it matches.
#[derive(Debug)]
pub enum Rule {
    Normal { condition: Condition, mapper: Mapper },
}

/// The value of a [`Rule`].
pub ghost struct RuleView {
    pub condition: Cond,
    pub mapper: MapperView,
}

impl View for Rule {
    type V = RuleView;

    open spec fn view(&self) -> RuleView {
        match self {
            Rule::Normal { condition, mapper } => RuleView { condition: condition@, mapper: mapper@ },
        }
    }
}

/// An ordered list of rules.
#[derive(Debug)]
pub struct Rules(pub Vec<Rule>);

/// The values of a sequence of rules, one by one.
pub open spec fn rules_of(rs: Seq<Rule>) -> Seq<RuleView> {
    Seq::new(rs.len(), |i: int| rs[i]@)
}

impl View for Rules {
    type V = Seq<RuleView>;

    open spec fn view(&self) -> Seq<RuleView> {
        rules_of(self.0@)
    }
}

} // verus!
