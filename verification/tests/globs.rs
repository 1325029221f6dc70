use adguard_rules::{
    domain_glob_to_condition, domains_to_condition, path_glob_to_condition, query_to_condition,
    un_double_escape_regex_pattern, un_double_escape_regex_pattern_strict, AdGuardFieldError, AdGuardRule, Condition, Mapper,
    ParseRemoveParamError, PatternUnsupported, QueryToConditionError, RegexConfig, RegexParts,
    RemoveParam, Rule, StringLocation, StringMatcher, UDERPError, UrlPart,
};

fn present(key: &str) -> Condition {
    Condition::Not(Box::new(Condition::PartIs { part: UrlPart::QueryParam(key.to_string()), value: None }))
}

#[test]
fn domain_glob_plain_and_elided() {
    assert_eq!(domain_glob_to_condition(false, "example.com"), Ok(Condition::QualifiedDomain("example.com".to_string())));
    assert_eq!(domain_glob_to_condition(true, "example.com"), Ok(Condition::UnqualifiedDomain("example.com".to_string())));
    assert_eq!(domain_glob_to_condition(false, "example.*"), Ok(Condition::QualifiedAnyTld("example".to_string())));
    assert_eq!(domain_glob_to_condition(true, "example.*"), Ok(Condition::UnqualifiedAnyTld("example".to_string())));
}

#[test]
fn domain_glob_leading_star_is_unqualified() {
    assert_eq!(domain_glob_to_condition(false, "*.example.*"), Ok(Condition::UnqualifiedAnyTld("*.example".to_string())));
    assert_eq!(domain_glob_to_condition(false, "*.example.com"), Ok(Condition::UnqualifiedDomain("*.example.com".to_string())));
    assert_eq!(domain_glob_to_condition(true, "*.example.com"), Ok(Condition::UnqualifiedDomain("*.example.com".to_string())));
}

#[test]
fn domain_glob_rejects_inner_star() {
    assert_eq!(domain_glob_to_condition(false, "a.*.com"), Err(PatternUnsupported));
    assert_eq!(domain_glob_to_condition(true, "ex*mple.com"), Err(PatternUnsupported));
    assert_eq!(domain_glob_to_condition(true, "*"), Err(PatternUnsupported));
    assert_eq!(domain_glob_to_condition(false, "*example.com"), Err(PatternUnsupported));
}

#[test]
fn domain_glob_edges() {
    assert_eq!(domain_glob_to_condition(false, ""), Ok(Condition::QualifiedDomain(String::new())));
    assert_eq!(domain_glob_to_condition(false, "*.*"), Ok(Condition::UnqualifiedAnyTld("*".to_string())));
    assert_eq!(domain_glob_to_condition(false, ".*"), Ok(Condition::QualifiedAnyTld(String::new())));
}

#[test]
fn domains_list_is_any_of_unqualified() {
    assert_eq!(
        domains_to_condition("a.com|b.*"),
        Ok(Condition::Any(vec![
            Condition::UnqualifiedDomain("a.com".to_string()),
            Condition::UnqualifiedAnyTld("b".to_string()),
        ]))
    );
    assert_eq!(domains_to_condition("a.com"), Ok(Condition::Any(vec![Condition::UnqualifiedDomain("a.com".to_string())])));
    assert_eq!(domains_to_condition("a.com|b*c.com"), Err(PatternUnsupported));
}

#[test]
fn path_glob_without_star_is_exact() {
    assert_eq!(path_glob_to_condition("/a/b"), Ok(Condition::PathIs("/a/b".to_string())));
    assert_eq!(path_glob_to_condition(""), Ok(Condition::PathIs(String::new())));
}

#[test]
fn path_glob_ads_star() {
    assert_eq!(
        path_glob_to_condition("/ads/*"),
        Ok(Condition::All(vec![
            Condition::PartIs { part: UrlPart::PathSegment(0), value: Some("ads".to_string()) },
            Condition::Not(Box::new(Condition::PartIs { part: UrlPart::PathSegment(1), value: None })),
        ]))
    );
}

#[test]
fn path_glob_root_star() {
    assert_eq!(path_glob_to_condition("/*"), Ok(Condition::Not(Box::new(Condition::PathIs("/".to_string())))));
}

#[test]
fn path_glob_prefix_and_suffix() {
    assert_eq!(
        path_glob_to_condition("/*.js/img*/x"),
        Ok(Condition::All(vec![
            Condition::PartContains { part: UrlPart::PathSegment(0), location: StringLocation::End, value: ".js".to_string() },
            Condition::PartContains { part: UrlPart::PathSegment(1), location: StringLocation::Start, value: "img".to_string() },
            Condition::PartIs { part: UrlPart::PathSegment(2), value: Some("x".to_string()) },
        ]))
    );
}

#[test]
fn path_glob_rejects_other_stars() {
    assert_eq!(path_glob_to_condition("/a*b"), Err(PatternUnsupported));
    assert_eq!(path_glob_to_condition("/*a*"), Err(PatternUnsupported));
    assert_eq!(path_glob_to_condition("/ok/**"), Err(PatternUnsupported));
}

#[test]
fn query_bare_key_and_exact_value() {
    let got = query_to_condition("a&b=1").unwrap();
    assert_eq!(
        got,
        Condition::All(vec![
            present("a"),
            Condition::PartIs { part: UrlPart::QueryParam("b".to_string()), value: Some("1".to_string()) },
        ])
    );
}

#[test]
fn query_star_value_is_presence() {
    assert_eq!(query_to_condition("k=*").unwrap(), Condition::All(vec![present("k")]));
}

#[test]
fn query_wildcard_value_becomes_regex() {
    let got = query_to_condition("k=a*b.c").unwrap();
    assert_eq!(
        got,
        Condition::All(vec![Condition::PartMatches {
            part: UrlPart::QueryParam("k".to_string()),
            matcher: StringMatcher::Regex(RegexParts { pattern: "a.*b.c".to_string(), config: RegexConfig::default() }),
        }])
    );
}

#[test]
fn query_value_splits_at_first_equals() {
    assert_eq!(
        query_to_condition("k=a=b").unwrap(),
        Condition::All(vec![Condition::PartIs { part: UrlPart::QueryParam("k".to_string()), value: Some("a=b".to_string()) }])
    );
}

#[test]
fn query_star_in_key_is_unsupported() {
    assert!(matches!(query_to_condition("k*=v"), Err(QueryToConditionError::PatternUnsupported)));
    assert!(matches!(query_to_condition("a=1&k*=v*"), Err(QueryToConditionError::PatternUnsupported)));
}

#[test]
fn query_bad_regex_is_reported() {
    assert!(matches!(query_to_condition("k=(*"), Err(QueryToConditionError::RegexMakingError(_))));
    assert!(matches!(query_to_condition("k=(*&j*=1"), Err(QueryToConditionError::RegexMakingError(_))));
    assert!(query_to_condition("k=(*)").is_ok());
}

#[test]
fn unescape_known_escapes() {
    assert_eq!(un_double_escape_regex_pattern("a\\\\b").unwrap(), "a\\b");
    assert_eq!(un_double_escape_regex_pattern("a\\/b").unwrap(), "a/b");
    assert_eq!(un_double_escape_regex_pattern("a\\,b").unwrap(), "a,b");
    assert_eq!(un_double_escape_regex_pattern("plain").unwrap(), "plain");
    assert_eq!(un_double_escape_regex_pattern("").unwrap(), "");
}

#[test]
fn unescape_drops_unknown_escapes() {
    assert_eq!(un_double_escape_regex_pattern("a\\db").unwrap(), "ab");
    assert_eq!(un_double_escape_regex_pattern("a\\").unwrap(), "a");
    assert_eq!(un_double_escape_regex_pattern("\\\\\\/").unwrap(), "\\/");
}

#[test]
fn remove_param_literal() {
    let parsed = RemoveParam::from_str("utm_source").unwrap();
    assert!(matches!(&parsed, RemoveParam::String(s) if s == "utm_source"));
    assert_eq!(Mapper::from_remove_param(parsed), Mapper::RemoveQueryParams(vec!["utm_source".to_string()]));
    assert!(matches!(RemoveParam::from_str("").unwrap(), RemoveParam::String(s) if s.is_empty()));
}

#[test]
fn remove_param_regex_with_flags() {
    let parsed = RemoveParam::from_str("/^utm_\\/x/i").unwrap();
    let mut config = RegexConfig::default();
    config.case_insensitive = true;
    let expected = Mapper::RemoveQueryParamsMatching(StringMatcher::Regex(RegexParts { pattern: "^utm_/x".to_string(), config }));
    assert_eq!(Mapper::from_remove_param(parsed), expected);
}

#[test]
fn remove_param_regex_without_flags() {
    let parsed = RemoveParam::from_str("/a|b/").unwrap();
    let expected = Mapper::RemoveQueryParamsMatching(StringMatcher::Regex(RegexParts { pattern: "a|b".to_string(), config: RegexConfig::default() }));
    assert_eq!(Mapper::from_remove_param(parsed), expected);
}

#[test]
fn remove_param_errors() {
    assert!(matches!(RemoveParam::from_str("/(/"), Err(ParseRemoveParamError::RegexSyntaxError(_))));
    assert!(matches!(RemoveParam::from_str("/abc"), Err(ParseRemoveParamError::MissingDelimiter)));
    assert!(matches!(RemoveParam::from_str("/"), Err(ParseRemoveParamError::MissingDelimiter)));
}

#[test]
fn remove_param_flags_decide_validity() {
    assert!(RemoveParam::from_str("/a b # (/x").is_ok());
    assert!(matches!(RemoveParam::from_str("/a b # (/"), Err(ParseRemoveParamError::RegexSyntaxError(_))));
}

#[test]
fn default_config_is_unicode_only() {
    let c = RegexConfig::default();
    assert!(c.unicode);
    assert!(!c.case_insensitive && !c.multi_line && !c.dot_matches_new_line);
    assert!(!c.swap_greed && !c.ignore_whitespace && !c.crlf);
}

#[test]
fn fields_compile_into_a_rule() {
    let fields = AdGuardRule::from_fields(false, true, Some("example.com"), Some("/ads/*"), None, Some("utm"), None).unwrap();
    assert!(!fields.negation);
    let rule = fields.into_rule();
    let expected = Rule::Normal {
        condition: Condition::All(vec![
            Condition::UnqualifiedDomain("example.com".to_string()),
            Condition::PartIs { part: UrlPart::PathSegment(0), value: Some("ads".to_string()) },
            Condition::Not(Box::new(Condition::PartIs { part: UrlPart::PathSegment(1), value: None })),
        ]),
        mapper: Mapper::RemoveQueryParams(vec!["utm".to_string()]),
    };
    assert_eq!(rule, expected);
}

#[test]
fn rule_without_any_field_always_applies() {
    let fields = AdGuardRule::from_fields(true, false, None, None, None, None, None).unwrap();
    assert!(fields.negation);
    assert_eq!(fields.into_rule(), Rule::Normal { condition: Condition::Always, mapper: Mapper::NoOp });
}

#[test]
fn rule_with_host_and_domains() {
    let fields = AdGuardRule::from_fields(false, false, Some("a.com"), None, None, None, Some("b.com|c.com")).unwrap();
    let expected = Condition::Any(vec![
        Condition::QualifiedDomain("a.com".to_string()),
        Condition::UnqualifiedDomain("b.com".to_string()),
        Condition::UnqualifiedDomain("c.com".to_string()),
    ]);
    assert_eq!(fields.into_rule(), Rule::Normal { condition: expected, mapper: Mapper::NoOp });
}

#[test]
fn field_errors_name_the_first_bad_field() {
    assert!(matches!(AdGuardRule::from_fields(false, false, Some("a.*.b"), Some("/a*b"), None, None, None), Err(AdGuardFieldError::Host(_))));
    assert!(matches!(AdGuardRule::from_fields(false, false, Some("a.b"), Some("/a*b"), Some("k*=1"), None, None), Err(AdGuardFieldError::Path(_))));
    assert!(matches!(AdGuardRule::from_fields(false, false, None, None, Some("k*=1"), Some("/x"), None), Err(AdGuardFieldError::Query(QueryToConditionError::PatternUnsupported))));
    assert!(matches!(AdGuardRule::from_fields(false, false, None, None, None, Some("/x"), Some("a*b")), Err(AdGuardFieldError::RemoveParam(ParseRemoveParamError::MissingDelimiter))));
    assert!(matches!(AdGuardRule::from_fields(false, false, None, None, None, None, Some("a*b")), Err(AdGuardFieldError::Domains(_))));
}

#[test]
fn strict_unescape_reports_unknown_escapes() {
    assert_eq!(un_double_escape_regex_pattern_strict("a\\\\b\\/c\\,d").unwrap(), "a\\b/c,d");
    assert_eq!(un_double_escape_regex_pattern_strict("a\\db"), Err(UDERPError::UnknownEscape));
    assert_eq!(un_double_escape_regex_pattern_strict("a\\"), Err(UDERPError::UnknownEscape));
    assert_eq!(un_double_escape_regex_pattern_strict("").unwrap(), "");
}

#[test]
fn globs_count_characters_not_bytes() {
    assert_eq!(
        path_glob_to_condition("/\u{e4}\u{f6}*/*\u{fc}"),
        Ok(Condition::All(vec![
            Condition::PartContains { part: UrlPart::PathSegment(0), location: StringLocation::Start, value: "\u{e4}\u{f6}".to_string() },
            Condition::PartContains { part: UrlPart::PathSegment(1), location: StringLocation::End, value: "\u{fc}".to_string() },
        ]))
    );
    assert_eq!(domain_glob_to_condition(false, "\u{e4}.*"), Ok(Condition::QualifiedAnyTld("\u{e4}".to_string())));
}
