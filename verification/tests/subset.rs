use adguard_rules::{condition_is_partial_non_strict_subset, Condition, UrlPart};

fn qd(s: &str) -> Condition {
    Condition::QualifiedDomain(s.to_string())
}

fn ud(s: &str) -> Condition {
    Condition::UnqualifiedDomain(s.to_string())
}

#[test]
fn cipnss() {
    assert!(condition_is_partial_non_strict_subset(&Condition::All(vec![Condition::Never]), &Condition::All(vec![Condition::QualifiedDomain("abc.com".to_string())])));
    assert!(condition_is_partial_non_strict_subset(&Condition::All(vec![Condition::QualifiedDomain("abc.xyz.com".to_string())]), &Condition::All(vec![Condition::UnqualifiedDomain("xyz.com".to_string())])));
    assert!(condition_is_partial_non_strict_subset(&Condition::All(vec![Condition::QualifiedDomain("abc.xyz.com".to_string())]), &Condition::All(vec![Condition::QualifiedAnyTld("abc.xyz".to_string())])));
    assert!(condition_is_partial_non_strict_subset(&Condition::All(vec![Condition::QualifiedDomain("abc.xyz.com".to_string())]), &Condition::All(vec![Condition::UnqualifiedAnyTld("abc.xyz".to_string())])));
    assert!(condition_is_partial_non_strict_subset(&Condition::All(vec![Condition::UnqualifiedDomain("abc.xyz.com".to_string())]), &Condition::All(vec![Condition::UnqualifiedAnyTld("xyz".to_string())])));
    assert!(condition_is_partial_non_strict_subset(&Condition::All(vec![Condition::UnqualifiedDomain("xyz.com".to_string())]), &Condition::All(vec![Condition::UnqualifiedAnyTld("xyz".to_string())])));
}

#[test]
fn qualified_domain_within_unqualified_parent() {
    assert!(condition_is_partial_non_strict_subset(&qd("a.b.example.com"), &ud("example.com")));
    assert!(!condition_is_partial_non_strict_subset(&ud("example.com"), &qd("a.b.example.com")));
}

#[test]
fn labels_must_match_whole() {
    assert!(!condition_is_partial_non_strict_subset(&qd("notexample.com"), &ud("example.com")));
    assert!(condition_is_partial_non_strict_subset(&qd("example.com"), &ud("example.com")));
    assert!(!condition_is_partial_non_strict_subset(&qd("com"), &ud("example.com")));
}

#[test]
fn never_is_within_everything() {
    let others = vec![
        Condition::Always,
        Condition::Never,
        qd("example.com"),
        Condition::Not(Box::new(Condition::Always)),
        Condition::Any(vec![]),
        Condition::PathIs("/".to_string()),
    ];
    for x in others.iter() {
        assert!(condition_is_partial_non_strict_subset(&Condition::Never, x));
    }
}

#[test]
fn everything_is_within_always() {
    let others = vec![
        Condition::Always,
        Condition::Never,
        qd("example.com"),
        Condition::All(vec![qd("a.com"), qd("b.com")]),
        Condition::PartIs { part: UrlPart::PathSegment(0), value: None },
    ];
    for x in others.iter() {
        assert!(condition_is_partial_non_strict_subset(x, &Condition::Always));
    }
}

#[test]
fn equal_conditions_are_subsets() {
    let c = Condition::Any(vec![qd("a.com"), Condition::PathIs("/x".to_string())]);
    assert!(condition_is_partial_non_strict_subset(&c, &c.clone()));
}

#[test]
fn all_needs_every_right_member_covered() {
    let left = Condition::All(vec![qd("a.example.com"), Condition::PathIs("/x".to_string())]);
    let right = Condition::All(vec![ud("example.com")]);
    assert!(condition_is_partial_non_strict_subset(&left, &right));
    assert!(!condition_is_partial_non_strict_subset(&right, &left));
}

#[test]
fn any_needs_every_left_member_within() {
    let left = Condition::Any(vec![qd("a.example.com")]);
    let right = Condition::Any(vec![ud("other.org"), ud("example.com")]);
    assert!(condition_is_partial_non_strict_subset(&left, &right));
    assert!(!condition_is_partial_non_strict_subset(&right, &left));
}

#[test]
fn any_tld_uses_the_public_suffix() {
    let any_tld = Condition::QualifiedAnyTld("example".to_string());
    assert!(condition_is_partial_non_strict_subset(&qd("example.co.uk"), &any_tld));
    assert!(condition_is_partial_non_strict_subset(&qd("example.com"), &any_tld));
    assert!(!condition_is_partial_non_strict_subset(&qd("www.example.com"), &any_tld));
    assert!(!condition_is_partial_non_strict_subset(&qd("example.com"), &Condition::QualifiedAnyTld("example.com".to_string())));
    let unq = Condition::UnqualifiedAnyTld("example".to_string());
    assert!(condition_is_partial_non_strict_subset(&qd("www.example.co.uk"), &unq));
    assert!(!condition_is_partial_non_strict_subset(&qd("www.other.co.uk"), &unq));
}

#[test]
fn a_bare_suffix_has_no_organizational_part() {
    let unq = Condition::UnqualifiedAnyTld("com".to_string());
    assert!(!condition_is_partial_non_strict_subset(&qd("com"), &unq));
    assert!(!condition_is_partial_non_strict_subset(&qd(""), &unq));
}

#[test]
fn unlisted_pairs_are_not_proved() {
    assert!(!condition_is_partial_non_strict_subset(&Condition::PathIs("/a".to_string()), &Condition::PathIs("/b".to_string())));
    assert!(!condition_is_partial_non_strict_subset(&Condition::Always, &Condition::Never));
    assert!(!condition_is_partial_non_strict_subset(&ud("a.example.com"), &ud("example.com")));
}
