//! Regular expressions in rule text: undoing the rule syntax's escapes, and
//! asking the regex parser whether a pattern is well formed.

use vstd::prelude::*;
use crate::model::RegexConfig;
use crate::text::to_chars;

verus! {

/// The failure of unescaping. [`un_double_escape_regex_pattern`] drops
/// unknown escapes and never fails; [`un_double_escape_regex_pattern_strict`]
/// reports them.
#[derive(Debug, Clone, Copy, PartialEq, Eq, Structural)]
pub enum UDERPError {
    UnknownEscape,
}

/// Whether a backslash at the end of `s` still waits for its character.
pub open spec fn escape_pending(s: Seq<char>) -> bool
    decreases s.len(),
{
    if s.len() == 0 {
        false
    } else if escape_pending(s.drop_last()) {
        false
    } else {
        s.last() == '\\'
    }
}

/// `s` with the rule syntax's escapes undone: a backslash followed by a
/// backslash, a slash or a comma stands for that character; a backslash
/// followed by anything else is dropped together with what follows it; a
/// backslash at the very end is dropped.
pub open spec fn unescaped(s: Seq<char>) -> Seq<char>
    decreases s.len(),
{
    if s.len() == 0 {
        Seq::<char>::empty()
    } else {
        let before = unescaped(s.drop_last());
        let c = s.last();
        if escape_pending(s.drop_last()) {
            if c == '\\' || c == '/' || c == ',' {
                before.push(c)
            } else {
                before
            }
        } else if c == '\\' {
            before
        } else {
            before.push(c)
        }
    }
}

/// Undoes the escapes that the rule syntax lays over a regular expression.
pub fn un_double_escape_regex_pattern(pattern: &str) -> (r: Result<String, UDERPError>)
    ensures
        r is Ok,
        r->Ok_0@ == unescaped(pattern@),
{
    let chars = to_chars(pattern);
    let mut ret = String::new();
    let mut escape = false;
    let mut i: usize = 0;
    assert(chars@.take(0) =~= Seq::<char>::empty());
    while i < chars.len()
        invariant
            i <= chars@.len(),
            ret@ == unescaped(chars@.take(i as int)),
            escape == escape_pending(chars@.take(i as int)),
        decreases chars@.len() - i,
    {
        let c = chars[i];
        proof {
            assert(chars@.take(i + 1).drop_last() =~= chars@.take(i as int));
            assert(chars@.take(i + 1).last() == c);
        }
        if escape {
            if c == '\\' || c == '/' || c == ',' {
                ret.push(c);
            }
            escape = false;
        } else if c == '\\' {
            escape = true;
        } else {
            ret.push(c);
        }
        i += 1;
    }
    assert(chars@.take(chars@.len() as int) =~= chars@);
    Ok(ret)
}

/// Whether `s` holds a backslash followed by anything but a backslash, a
/// slash or a comma.
pub open spec fn has_unknown_escape(s: Seq<char>) -> bool
    decreases s.len(),
{
    if s.len() == 0 {
        false
    } else {
        has_unknown_escape(s.drop_last()) || (escape_pending(s.drop_last()) && s.last() != '\\'
            && s.last() != '/' && s.last() != ',')
    }
}

/// An unknown escape in a prefix is one in every longer prefix.
proof fn lemma_unknown_escape_stays(s: Seq<char>, n: int, m: int)
    requires
        0 <= n <= m <= s.len(),
        has_unknown_escape(s.take(n)),
    ensures
        has_unknown_escape(s.take(m)),
    decreases m - n,
{
    if n < m {
        lemma_unknown_escape_stays(s, n, m - 1);
        assert(s.take(m).drop_last() =~= s.take(m - 1));
    }
}

/// Undoes the escapes that the rule syntax lays over a regular expression,
/// and fails where one of them is unknown or the pattern ends in the middle
/// of one.
pub fn un_double_escape_regex_pattern_strict(pattern: &str) -> (r: Result<String, UDERPError>)
    ensures
        r is Ok <==> !has_unknown_escape(pattern@) && !escape_pending(pattern@),
        r is Ok ==> r->Ok_0@ == unescaped(pattern@),
{
    let chars = to_chars(pattern);
    let mut ret = String::new();
    let mut escape = false;
    let mut i: usize = 0;
    assert(chars@.take(0) =~= Seq::<char>::empty());
    while i < chars.len()
        invariant
            i <= chars@.len(),
            ret@ == unescaped(chars@.take(i as int)),
            escape == escape_pending(chars@.take(i as int)),
            !has_unknown_escape(chars@.take(i as int)),
            chars@ == pattern@,
        decreases chars@.len() - i,
    {
        let c = chars[i];
        proof {
            assert(chars@.take(i + 1).drop_last() =~= chars@.take(i as int));
            assert(chars@.take(i + 1).last() == c);
        }
        if escape {
            if c == '\\' || c == '/' || c == ',' {
                ret.push(c);
            } else {
                proof {
                    assert(has_unknown_escape(chars@.take(i + 1)));
                    lemma_unknown_escape_stays(chars@, i as int + 1, chars@.len() as int);
                    assert(chars@.take(chars@.len() as int) =~= chars@);
                }
                return Err(UDERPError::UnknownEscape);
            }
            escape = false;
        } else if c == '\\' {
            escape = true;
        } else {
            ret.push(c);
        }
        i += 1;
    }
    assert(chars@.take(chars@.len() as int) =~= chars@);
    if escape {
        return Err(UDERPError::UnknownEscape);
    }
    Ok(ret)
}

/// Whether the regex parser, set up with these switches, accepts `pattern`.
pub uninterp spec fn regex_parses(
    pattern: Seq<char>,
    case_insensitive: bool,
    multi_line: bool,
    dot_matches_new_line: bool,
    swap_greed: bool,
    ignore_whitespace: bool,
    crlf: bool,
    unicode: bool,
) -> bool;

/// Whether `pattern` is a well-formed regular expression under `config`.
pub open spec fn regex_accepts(pattern: Seq<char>, config: RegexConfig) -> bool {
    regex_parses(
        pattern,
        config.case_insensitive,
        config.multi_line,
        config.dot_matches_new_line,
        config.swap_greed,
        config.ignore_whitespace,
        config.crlf,
        config.unicode,
    )
}

/// The error of the regex parser, carried through unread.
#[verifier::external_type_specification]
#[verifier::external_body]
pub struct ExRegexSyntaxError(regex_syntax::Error);

/// Runs `regex_syntax::Parser::parse` on `pattern`, with a parser built by
/// `regex_syntax::ParserBuilder` from the switches of `config`, and drops
/// the parsed expression. The contract claims only that the outcome, success
/// or failure, is a fixed function of the pattern and the switches.
#[verifier::external_body]
pub(crate) fn check_regex(pattern: &str, config: &RegexConfig) -> (r: Result<
    (),
    regex_syntax::Error,
>)
    ensures
        r is Ok == regex_parses(
            pattern@,
            config.case_insensitive,
            config.multi_line,
            config.dot_matches_new_line,
            config.swap_greed,
            config.ignore_whitespace,
            config.crlf,
            config.unicode,
        ),
{
    let mut builder = regex_syntax::ParserBuilder::new();
    builder.case_insensitive(config.case_insensitive);
    builder.multi_line(config.multi_line);
    builder.dot_matches_new_line(config.dot_matches_new_line);
    builder.swap_greed(config.swap_greed);
    builder.ignore_whitespace(config.ignore_whitespace);
    builder.crlf(config.crlf);
    builder.unicode(config.unicode);
    match builder.build().parse(pattern) {
        Ok(_) => Ok(()),
        Err(e) => Err(e),
    }
}

/// The switches of a pattern written without any: all off but `unicode`.
pub open spec fn default_config() -> RegexConfig {
    RegexConfig {
        case_insensitive: false,
        multi_line: false,
        dot_matches_new_line: false,
        swap_greed: false,
        ignore_whitespace: false,
        crlf: false,
        unicode: true,
    }
}

impl Default for RegexConfig {
    fn default() -> (r: RegexConfig)
        ensures
            r == default_config(),
    {
        RegexConfig {
            case_insensitive: false,
            multi_line: false,
            dot_matches_new_line: false,
            swap_greed: false,
            ignore_whitespace: false,
            crlf: false,
            unicode: true,
        }
    }
}

} // verus!
