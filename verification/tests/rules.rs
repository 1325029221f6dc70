use adguard_rules::{
    apply_exception, apply_exceptions, simplify_condition, simplify_mapper, simplify_rule,
    simplify_rules, Condition, Mapper, Rule, Rules, UrlPart,
};

fn path(s: &str) -> Condition {
    Condition::PathIs(s.to_string())
}

fn names(list: &[&str]) -> Mapper {
    Mapper::RemoveQueryParams(list.iter().map(|s| s.to_string()).collect())
}

fn samples() -> Vec<Condition> {
    vec![
        Condition::Always,
        Condition::Never,
        Condition::All(vec![]),
        Condition::Any(vec![]),
        Condition::All(vec![Condition::Always, path("/a")]),
        Condition::Any(vec![Condition::Never, path("/a")]),
        Condition::All(vec![path("/a"), Condition::Never, path("/b")]),
        Condition::Any(vec![path("/a"), Condition::Always, path("/b")]),
        Condition::All(vec![Condition::All(vec![path("/a"), path("/b")]), path("/c")]),
        Condition::Any(vec![Condition::Any(vec![path("/a"), path("/b")]), Condition::Never]),
        Condition::All(vec![Condition::Any(vec![Condition::All(vec![path("/a")])]), Condition::Any(vec![path("/b"), path("/c")])]),
        Condition::Not(Box::new(Condition::All(vec![]))),
        Condition::All(vec![Condition::All(vec![Condition::All(vec![path("/a"), path("/b")]), path("/c")]), Condition::Any(vec![])]),
    ]
}

fn eval(c: &Condition, current: &str) -> bool {
    match c {
        Condition::Always => true,
        Condition::Never => false,
        Condition::Not(x) => !eval(x, current),
        Condition::All(xs) => xs.iter().all(|x| eval(x, current)),
        Condition::Any(xs) => xs.iter().any(|x| eval(x, current)),
        Condition::PathIs(p) => p == current,
        _ => false,
    }
}

#[test]
fn simplify_is_idempotent_on_samples() {
    for c in samples() {
        let once = simplify_condition(c);
        let twice = simplify_condition(once.clone());
        assert_eq!(twice, once);
    }
}

#[test]
fn simplify_keeps_matches_on_samples() {
    for c in samples() {
        let s = simplify_condition(c.clone());
        for u in ["/a", "/b", "/c", "/d"] {
            assert_eq!(eval(&s, u), eval(&c, u));
        }
    }
}

#[test]
fn simplify_exact_results() {
    assert_eq!(simplify_condition(Condition::All(vec![])), Condition::Always);
    assert_eq!(simplify_condition(Condition::Any(vec![])), Condition::Never);
    assert_eq!(simplify_condition(Condition::All(vec![Condition::Always, path("/a")])), path("/a"));
    assert_eq!(simplify_condition(Condition::Any(vec![Condition::Never, path("/a")])), path("/a"));
    assert_eq!(simplify_condition(Condition::All(vec![path("/a"), Condition::Never])), Condition::Never);
    assert_eq!(simplify_condition(Condition::Any(vec![path("/a"), Condition::Always])), Condition::Always);
    assert_eq!(
        simplify_condition(Condition::All(vec![
            Condition::Always,
            Condition::Any(vec![Condition::Never, path("/a")]),
            Condition::All(vec![path("/b"), path("/c")]),
        ])),
        Condition::All(vec![path("/a"), path("/b"), path("/c")])
    );
    assert_eq!(
        simplify_condition(Condition::Any(vec![Condition::Any(vec![path("/a"), path("/b")]), path("/c")])),
        Condition::Any(vec![path("/a"), path("/b"), path("/c")])
    );
}

#[test]
fn simplify_leaves_other_variants_alone() {
    let inner = Condition::Not(Box::new(Condition::All(vec![])));
    assert_eq!(simplify_condition(inner.clone()), inner);
    let leaf = Condition::PartIs { part: UrlPart::QueryParam("k".to_string()), value: None };
    assert_eq!(simplify_condition(leaf.clone()), leaf);
}

#[test]
fn simplify_mapper_is_identity() {
    assert_eq!(simplify_mapper(names(&["a"])), names(&["a"]));
    assert_eq!(simplify_mapper(Mapper::NoOp), Mapper::NoOp);
}

#[test]
fn simplify_rule_touches_only_the_condition() {
    let rule = Rule::Normal { condition: Condition::All(vec![path("/a")]), mapper: names(&["a"]) };
    assert_eq!(simplify_rule(rule), Rule::Normal { condition: path("/a"), mapper: names(&["a"]) });
}

#[test]
fn merge_adjacent_rules_with_one_condition() {
    let rules = Rules(vec![
        Rule::Normal { condition: path("/x"), mapper: names(&["a"]) },
        Rule::Normal { condition: Condition::All(vec![path("/x")]), mapper: names(&["b"]) },
    ]);
    let out = simplify_rules(rules);
    assert_eq!(out.0.len(), 1);
    assert_eq!(out.0[0], Rule::Normal { condition: path("/x"), mapper: names(&["a", "b"]) });
    assert_ne!(out.0[0], Rule::Normal { condition: path("/x"), mapper: names(&["a"]) });
}

#[test]
fn merge_needs_adjacent_equal_conditions() {
    let rules = Rules(vec![
        Rule::Normal { condition: path("/x"), mapper: names(&["a"]) },
        Rule::Normal { condition: path("/y"), mapper: names(&["b"]) },
        Rule::Normal { condition: path("/x"), mapper: names(&["c"]) },
        Rule::Normal { condition: path("/x"), mapper: Mapper::NoOp },
    ]);
    let out = simplify_rules(rules);
    assert_eq!(out.0.len(), 4);
    assert_eq!(out.0[0], Rule::Normal { condition: path("/x"), mapper: names(&["a"]) });
    assert_eq!(out.0[2], Rule::Normal { condition: path("/x"), mapper: names(&["c"]) });
    assert_eq!(out.0[3], Rule::Normal { condition: path("/x"), mapper: Mapper::NoOp });
}

#[test]
fn merge_drops_unreachable_rules() {
    let rules = Rules(vec![
        Rule::Normal { condition: Condition::Any(vec![]), mapper: names(&["a"]) },
        Rule::Normal { condition: path("/x"), mapper: names(&["b"]) },
        Rule::Normal { condition: Condition::Never, mapper: Mapper::NoOp },
        Rule::Normal { condition: path("/x"), mapper: names(&["b", "c"]) },
    ]);
    let out = simplify_rules(rules);
    assert_eq!(out.0.len(), 1);
    assert_eq!(out.0[0], Rule::Normal { condition: path("/x"), mapper: names(&["c", "b"]) });
    assert_eq!(simplify_rules(Rules(vec![])).0.len(), 0);
}

#[test]
fn exception_carves_a_blocking_rule() {
    let exception = Rule::Normal { condition: Condition::QualifiedDomain("a.example.com".to_string()), mapper: names(&["x"]) };
    let blocked = Rule::Normal { condition: Condition::UnqualifiedDomain("example.com".to_string()), mapper: names(&["x"]) };
    let got = apply_exception(&exception, &blocked);
    let expected = Rule::Normal {
        condition: Condition::All(vec![
            Condition::Not(Box::new(Condition::QualifiedDomain("a.example.com".to_string()))),
            Condition::UnqualifiedDomain("example.com".to_string()),
        ]),
        mapper: names(&["x"]),
    };
    assert_eq!(got, expected);
}

#[test]
fn exception_needs_the_same_action_and_a_subset() {
    let exception = Rule::Normal { condition: Condition::QualifiedDomain("a.example.com".to_string()), mapper: names(&["x"]) };
    let other_action = Rule::Normal { condition: Condition::UnqualifiedDomain("example.com".to_string()), mapper: names(&["y"]) };
    assert_eq!(apply_exception(&exception, &other_action), other_action);
    let unrelated = Rule::Normal { condition: Condition::UnqualifiedDomain("other.com".to_string()), mapper: names(&["x"]) };
    assert_eq!(apply_exception(&exception, &unrelated), unrelated);
}

#[test]
fn exceptions_apply_in_order_to_every_rule() {
    let e1 = Rule::Normal { condition: Condition::Never, mapper: Mapper::NoOp };
    let e2 = Rule::Normal { condition: path("/p"), mapper: Mapper::NoOp };
    let mut rules = vec![
        Rule::Normal { condition: path("/p"), mapper: Mapper::NoOp },
        Rule::Normal { condition: path("/q"), mapper: names(&["k"]) },
    ];
    apply_exceptions(&vec![e1, e2], &mut rules);
    let first = Condition::All(vec![Condition::Not(Box::new(Condition::Never)), path("/p")]);
    assert_eq!(rules.len(), 2);
    assert_eq!(rules[0], Rule::Normal { condition: first, mapper: Mapper::NoOp });
    assert_eq!(rules[1], Rule::Normal { condition: path("/q"), mapper: names(&["k"]) });
}

#[test]
fn carved_rule_matches_less() {
    let exception = Rule::Normal { condition: Condition::Any(vec![path("/a")]), mapper: Mapper::NoOp };
    let blocked = Rule::Normal { condition: Condition::Any(vec![path("/a"), path("/b")]), mapper: Mapper::NoOp };
    let got = apply_exception(&exception, &blocked);
    let (Rule::Normal { condition: after, .. }, Rule::Normal { condition: before, .. }) = (&got, &blocked);
    assert_ne!(after, before);
    for u in ["/a", "/b", "/c"] {
        assert!(!eval(after, u) || eval(before, u));
    }
    assert!(!eval(after, "/a"));
    assert!(eval(after, "/b"));
}

#[test]
fn mapper_sets_compare_as_sets() {
    assert_eq!(names(&["a", "b"]), names(&["b", "a", "a"]));
    assert_ne!(names(&["a"]), names(&["a", "b"]));
    assert_ne!(names(&[]), Mapper::NoOp);
}
