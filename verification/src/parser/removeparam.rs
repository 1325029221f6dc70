//! The remove-parameter directive: a literal parameter name, or a regular
//! expression between slashes followed by flag letters.

use vstd::prelude::*;
use crate::model::{Mapper, MapperView, MatcherView, RegexConfig, RegexParts, RegexView,
    StringMatcher, name_set};
use crate::parser::regex::{UDERPError, check_regex, regex_accepts, un_double_escape_regex_pattern,
    unescaped};
use crate::text::{has_char, string_of, to_chars};

verus! {

/// A parsed remove-parameter directive.
#[derive(Debug)]
pub enum RemoveParam {
    /// Parameters whose names match the expression are removed.
    RegexParts(RegexParts),
    /// The parameter with this name is removed.
    String(String),
}

/// The value of a [`RemoveParam`].
pub ghost enum RemoveParamView {
    RegexParts(RegexView),
    String(Seq<char>),
}

impl View for RemoveParam {
    type V = RemoveParamView;

    open spec fn view(&self) -> RemoveParamView {
        match self {
            RemoveParam::RegexParts(r) => RemoveParamView::RegexParts(r@),
            RemoveParam::String(s) => RemoveParamView::String(s@),
        }
    }
}

/// Why a remove-parameter directive could not be read.
#[derive(Debug)]
pub enum ParseRemoveParamError {
    /// The expression between the slashes is not well formed.
    RegexSyntaxError(Box<regex_syntax::Error>),
    /// An escape in the expression could not be undone.
    USERPError(UDERPError),
    /// The directive starts with a slash and holds no second one.
    MissingDelimiter,
}

/// The kind of a [`ParseRemoveParamError`].
pub ghost enum RemoveParamFailure {
    Regex,
    Escape,
    MissingDelimiter,
}

impl View for ParseRemoveParamError {
    type V = RemoveParamFailure;

    open spec fn view(&self) -> RemoveParamFailure {
        match self {
            ParseRemoveParamError::RegexSyntaxError(_) => RemoveParamFailure::Regex,
            ParseRemoveParamError::USERPError(_) => RemoveParamFailure::Escape,
            ParseRemoveParamError::MissingDelimiter => RemoveParamFailure::MissingDelimiter,
        }
    }
}

/// The index of the last `c` in `s`, or -1 where there is none.
pub open spec fn last_index(s: Seq<char>, c: char) -> int
    decreases s.len(),
{
    if s.len() == 0 {
        -1
    } else if s.last() == c {
        s.len() - 1
    } else {
        last_index(s.drop_last(), c)
    }
}

/// The switches that a string of flag letters turns on: `i`, `m`, `s`, `U`,
/// `x` and `R` each turn on their switch; `unicode` is on in any case; other
/// letters change nothing.
pub open spec fn flags_config(flags: Seq<char>) -> RegexConfig {
    RegexConfig {
        case_insensitive: flags.contains('i'),
        multi_line: flags.contains('m'),
        dot_matches_new_line: flags.contains('s'),
        swap_greed: flags.contains('U'),
        ignore_whitespace: flags.contains('x'),
        crlf: flags.contains('R'),
        unicode: true,
    }
}

/// What a directive that starts with `/` and has its closing `/` at index
/// `close` holds: the unescaped text between the two, and the switches of
/// the letters after the second.
pub open spec fn delimited_regex(s: Seq<char>, close: int) -> RegexView {
    RegexView {
        pattern: unescaped(s.subrange(1, close)),
        config: flags_config(s.skip(close + 1)),
    }
}

/// What a remove-parameter directive means.
///
/// Without a leading `/` it names one parameter. With one it is
/// `/pattern/flags`, cut at the first and the last `/`: it fails where there
/// is no second `/`, and where the unescaped pattern is not a well-formed
/// regular expression under the flags.
pub open spec fn remove_param(s: Seq<char>) -> Result<RemoveParamView, RemoveParamFailure> {
    let close = last_index(s, '/');
    if s.len() == 0 || s[0] != '/' {
        Ok(RemoveParamView::String(s))
    } else if close == 0 {
        Err(RemoveParamFailure::MissingDelimiter)
    } else if regex_accepts(delimited_regex(s, close).pattern, delimited_regex(s, close).config) {
        Ok(RemoveParamView::RegexParts(delimited_regex(s, close)))
    } else {
        Err(RemoveParamFailure::Regex)
    }
}

/// The index of the last `c` in `v`, if there is one.
pub fn find_last_char(v: &Vec<char>, c: char) -> (r: Option<usize>)
    ensures
        match r {
            Some(i) => i == last_index(v@, c) && i < v@.len(),
            None => last_index(v@, c) == -1,
        },
{
    let mut found: Option<usize> = None;
    let mut i: usize = 0;
    assert(v@.take(0) =~= Seq::<char>::empty());
    while i < v.len()
        invariant
            i <= v@.len(),
            match found {
                Some(k) => k == last_index(v@.take(i as int), c) && k < i,
                None => last_index(v@.take(i as int), c) == -1,
            },
        decreases v@.len() - i,
    {
        proof {
            assert(v@.take(i + 1).drop_last() =~= v@.take(i as int));
            assert(v@.take(i + 1).last() == v@[i as int]);
        }
        if v[i] == c {
            found = Some(i);
        }
        i += 1;
    }
    assert(v@.take(v@.len() as int) =~= v@);
    found
}

/// Reads the flag letters `v[from..]`.
pub(crate) fn parse_flags(v: &Vec<char>, from: usize) -> (r: RegexConfig)
    requires
        from <= v@.len(),
    ensures
        r == flags_config(v@.skip(from as int)),
{
    let n: usize = v.len();
    assert(v@.subrange(from as int, n as int) =~= v@.skip(from as int));
    RegexConfig {
        case_insensitive: has_char(v, from, n, 'i'),
        multi_line: has_char(v, from, n, 'm'),
        dot_matches_new_line: has_char(v, from, n, 's'),
        swap_greed: has_char(v, from, n, 'U'),
        ignore_whitespace: has_char(v, from, n, 'x'),
        crlf: has_char(v, from, n, 'R'),
        unicode: true,
    }
}

/// The directive for a delimited regular expression, given what the regex
/// parser said of it: the expression where it accepted, its error where it
/// did not.
pub fn checked_regex_parts(
    pattern: String,
    config: RegexConfig,
    checked: Result<(), regex_syntax::Error>,
) -> (r: Result<RemoveParam, ParseRemoveParamError>)
    ensures
        checked is Ok ==> r is Ok && r->Ok_0@ == RemoveParamView::RegexParts(
            RegexView { pattern: pattern@, config },
        ),
        checked is Err ==> r is Err && r->Err_0@ == RemoveParamFailure::Regex,
{
    match checked {
        Ok(_) => Ok(RemoveParam::RegexParts(RegexParts { pattern, config })),
        Err(e) => Err(ParseRemoveParamError::RegexSyntaxError(Box::new(e))),
    }
}

impl RemoveParam {
    /// Reads a remove-parameter directive.
    ///
    /// Succeeds exactly where [`remove_param`] gives the directive a
    /// meaning, with that value; otherwise fails with the error it names.
    pub fn from_str(s: &str) -> (r: Result<RemoveParam, ParseRemoveParamError>)
        ensures
            match remove_param(s@) {
                Ok(v) => r is Ok && r->Ok_0@ == v,
                Err(e) => r is Err && r->Err_0@ == e,
            },
    {
        let v = to_chars(s);
        let n: usize = v.len();
        if n == 0 || v[0] != '/' {
            assert(v@.subrange(0, n as int) =~= v@);
            return Ok(RemoveParam::String(string_of(&v, 0, n)));
        }
        let close: usize = match find_last_char(&v, '/') {
            Some(i) => i,
            None => {
                proof {
                    lemma_last_index_from_first(v@, '/');
                }
                return Err(ParseRemoveParamError::MissingDelimiter);
            },
        };
        if close == 0 {
            return Err(ParseRemoveParamError::MissingDelimiter);
        }
        let raw = string_of(&v, 1, close);
        let pattern = match un_double_escape_regex_pattern(raw.as_str()) {
            Ok(p) => p,
            Err(e) => {
                return Err(ParseRemoveParamError::USERPError(e));
            },
        };
        let config = parse_flags(&v, close + 1);
        let checked = check_regex(pattern.as_str(), &config);
        checked_regex_parts(pattern, config, checked)
    }
}

/// A sequence that starts with `c` has a last `c`.
proof fn lemma_last_index_from_first(s: Seq<char>, c: char)
    requires
        s.len() > 0,
        s[0] == c,
    ensures
        last_index(s, c) >= 0,
    decreases s.len(),
{
    if s.last() != c {
        lemma_last_index_from_first(s.drop_last(), c);
    }
}

/// The action of a directive: removal by name for a literal, removal by
/// match for a regular expression.
pub open spec fn action_of(p: RemoveParamView) -> MapperView {
    match p {
        RemoveParamView::RegexParts(r) => MapperView::RemoveQueryParamsMatching(
            MatcherView::Regex(r),
        ),
        RemoveParamView::String(s) => MapperView::RemoveQueryParams(set![s]),
    }
}

impl Mapper {
    /// The action that a parsed directive stands for.
    pub fn from_remove_param(value: RemoveParam) -> (r: Mapper)
        ensures
            r@ == action_of(value@),
    {
        match value {
            RemoveParam::RegexParts(parts) => Mapper::RemoveQueryParamsMatching(
                StringMatcher::Regex(parts),
            ),
            RemoveParam::String(name) => {
                let mut names: Vec<String> = Vec::new();
                names.push(name);
                assert(name_set(names@) =~= set![name@]) by {
                    assert(names@[0]@ == name@);
                }
                Mapper::RemoveQueryParams(names)
            },
        }
    }
}

} // verus!
