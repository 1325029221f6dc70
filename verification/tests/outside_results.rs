use adguard_rules::parser::query::wildcard_value_condition;
use adguard_rules::parser::removeparam::checked_regex_parts;
use adguard_rules::subset::{organizational_ends_with, organizational_is, strip_suffix_len};
use adguard_rules::{
    Condition, ParseRemoveParamError, QueryToConditionError, RegexConfig, RegexParts, RemoveParam,
    StringMatcher, UrlPart,
};

fn chars(s: &str) -> Vec<char> {
    s.chars().collect()
}

#[test]
fn suffix_is_stripped_with_its_dot() {
    assert_eq!(strip_suffix_len(&chars("abc.xyz.com"), &Some("com".to_string())), Some(7));
    assert_eq!(strip_suffix_len(&chars("abc.xyz.co.uk"), &Some("co.uk".to_string())), Some(7));
    assert_eq!(strip_suffix_len(&chars("a."), &Some(String::new())), Some(1));
}

#[test]
fn suffix_that_does_not_fit_strips_nothing() {
    assert_eq!(strip_suffix_len(&chars("abc.xyz.com"), &None), None);
    assert_eq!(strip_suffix_len(&chars("com"), &Some("com".to_string())), None);
    assert_eq!(strip_suffix_len(&chars("xcom"), &Some("com".to_string())), None);
    assert_eq!(strip_suffix_len(&chars("a.org"), &Some("com".to_string())), None);
    assert_eq!(strip_suffix_len(&chars("m"), &Some("com".to_string())), None);
    assert_eq!(strip_suffix_len(&chars(""), &Some(String::new())), None);
}

#[test]
fn organizational_part_is_compared_whole() {
    let com = Some("com".to_string());
    assert!(organizational_is("abc.xyz.com", &com, "abc.xyz"));
    assert!(!organizational_is("abc.xyz.com", &com, "xyz"));
    assert!(!organizational_is("abc.xyz.com", &com, "abc.xyz.com"));
    assert!(!organizational_is("abc.xyz.com", &None, "abc.xyz"));
    assert!(!organizational_is("com", &com, ""));
}

#[test]
fn organizational_part_is_compared_by_labels() {
    let com = Some("com".to_string());
    assert!(organizational_ends_with("abc.xyz.com", &com, "xyz"));
    assert!(organizational_ends_with("abc.xyz.com", &com, "abc.xyz"));
    assert!(!organizational_ends_with("abcxyz.com", &com, "xyz"));
    assert!(!organizational_ends_with("abc.xyz.com", &com, "abc"));
    assert!(!organizational_ends_with("abc.xyz.com", &None, "xyz"));
}

#[test]
fn wildcard_value_follows_the_parser() {
    let ok = wildcard_value_condition("k".to_string(), "a.*".to_string(), Ok(())).unwrap();
    assert_eq!(
        ok,
        Condition::PartMatches {
            part: UrlPart::QueryParam("k".to_string()),
            matcher: StringMatcher::Regex(RegexParts { pattern: "a.*".to_string(), config: RegexConfig::default() }),
        }
    );
    let error = regex_syntax::parse("(").unwrap_err();
    let failed = wildcard_value_condition("k".to_string(), "(".to_string(), Err(error.clone()));
    assert!(matches!(failed, Err(QueryToConditionError::RegexMakingError(e)) if *e == error));
}

#[test]
fn regex_directive_follows_the_parser() {
    let mut config = RegexConfig::default();
    config.multi_line = true;
    let ok = checked_regex_parts("^a$".to_string(), config, Ok(())).unwrap();
    assert!(matches!(ok, RemoveParam::RegexParts(p) if p.pattern == "^a$" && p.config == config));
    let error = regex_syntax::parse("[").unwrap_err();
    let failed = checked_regex_parts("[".to_string(), config, Err(error.clone()));
    assert!(matches!(failed, Err(ParseRemoveParamError::RegexSyntaxError(e)) if *e == error));
}
