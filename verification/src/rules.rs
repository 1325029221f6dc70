//! The rule list: merging neighbours with one condition, and narrowing
//! blocking rules by the exceptions that lie within them.

use vstd::prelude::*;
use crate::compare::{duplicate_condition, has_name, same_condition};
use crate::model::{Cond, Condition, Mapper, MapperView, Rule, RuleView, Rules, cond_of, conds_of,
    name_set, rules_of};
use crate::semantics::{holds, lemma_holds_all};
use crate::simplify::{simplified, simplify};
use crate::subset::{condition_is_partial_non_strict_subset, is_subset};

verus! {

/// A rule with its condition simplified and its action kept.
pub open spec fn simplified_rule(r: RuleView) -> RuleView {
    RuleView { condition: simplified(r.condition), mapper: r.mapper }
}

/// Whether `cur` is merged into the last of `kept`: there is a last rule,
/// it has the same condition, and both remove parameters by name.
pub open spec fn merges(kept: Seq<RuleView>, cur: RuleView) -> bool {
    kept.len() > 0 && kept.last().condition == cur.condition && kept.last().mapper
        is RemoveQueryParams && cur.mapper is RemoveQueryParams
}

/// The rule `a` with the names that `b` removes added to its own.
pub open spec fn joined(a: RuleView, b: RuleView) -> RuleView {
    RuleView {
        condition: a.condition,
        mapper: MapperView::RemoveQueryParams(
            a.mapper->RemoveQueryParams_0.union(b.mapper->RemoveQueryParams_0),
        ),
    }
}

/// The rule list that the first `n` rules of `rs` leave.
///
/// Each rule is simplified. One that has the condition of the rule kept
/// last, where both remove parameters by name, is merged into it. Otherwise
/// one whose condition is `Never` is dropped, and any other is kept after
/// those kept before.
pub open spec fn merged(rs: Seq<RuleView>, n: int) -> Seq<RuleView>
    decreases n,
{
    if n <= 0 || n > rs.len() {
        Seq::empty()
    } else {
        let kept = merged(rs, n - 1);
        let cur = simplified_rule(rs[n - 1]);
        if merges(kept, cur) {
            kept.drop_last().push(joined(kept.last(), cur))
        } else if cur.condition == Cond::Never {
            kept
        } else {
            kept.push(cur)
        }
    }
}

/// Two neighbours with one condition that both remove parameters by name
/// leave a single rule, which removes the names of both, unless the
/// condition simplifies to `Never` and nothing is left.
pub proof fn merge_joins_neighbours(c: Cond, a: Set<Seq<char>>, b: Set<Seq<char>>)
    ensures
        merged(
            seq![
                RuleView { condition: c, mapper: MapperView::RemoveQueryParams(a) },
                RuleView { condition: c, mapper: MapperView::RemoveQueryParams(b) },
            ],
            2,
        ) == (if simplified(c) == Cond::Never {
            Seq::<RuleView>::empty()
        } else {
            seq![
                RuleView {
                    condition: simplified(c),
                    mapper: MapperView::RemoveQueryParams(a.union(b)),
                },
            ]
        }),
{
    let first = RuleView { condition: c, mapper: MapperView::RemoveQueryParams(a) };
    let second = RuleView { condition: c, mapper: MapperView::RemoveQueryParams(b) };
    let rs = seq![first, second];
    assert(rs[0] == first && rs[1] == second);
    assert(merged(rs, 0) =~= Seq::<RuleView>::empty());
    let one = merged(rs, 1);
    if simplified(c) == Cond::Never {
        assert(one =~= Seq::<RuleView>::empty());
        assert(merged(rs, 2) =~= Seq::<RuleView>::empty());
    } else {
        assert(one =~= seq![simplified_rule(first)]);
        assert(one.last() == simplified_rule(first));
        assert(merges(one, simplified_rule(second)));
        assert(merged(rs, 2) =~= seq![
            RuleView {
                condition: simplified(c),
                mapper: MapperView::RemoveQueryParams(a.union(b)),
            },
        ]);
    }
}

/// Adds to `names` each of `more` that it does not hold yet.
pub fn add_names(names: &mut Vec<String>, more: &Vec<String>)
    ensures
        name_set(final(names)@) == name_set(old(names)@).union(name_set(more@)),
{
    let ghost start = name_set(names@);
    let mut i: usize = 0;
    assert(name_set(more@.take(0)) =~= Set::<Seq<char>>::empty());
    assert(start.union(Set::<Seq<char>>::empty()) =~= start);
    while i < more.len()
        invariant
            i <= more@.len(),
            name_set(names@) == start.union(name_set(more@.take(i as int))),
        decreases more@.len() - i,
    {
        let ghost before = names@;
        let ghost seen = more@.take(i as int);
        let ghost next = more@.take(i + 1);
        proof {
            assert forall|n: Seq<char>| name_set(next).contains(n) <==> (name_set(seen).contains(n)
                || n == more@[i as int]@) by {
                if name_set(next).contains(n) {
                    let k = choose|k: int| 0 <= k < next.len() && #[trigger] next[k]@ == n;
                    if k < i {
                        assert(seen[k]@ == n);
                    }
                }
                if name_set(seen).contains(n) {
                    let k = choose|k: int| 0 <= k < seen.len() && #[trigger] seen[k]@ == n;
                    assert(next[k]@ == n);
                }
                if n == more@[i as int]@ {
                    assert(next[i as int]@ == n);
                }
            }
        }
        if !has_name(names, &more[i]) {
            names.push(more[i].clone());
            proof {
                assert forall|n: Seq<char>| name_set(names@).contains(n) <==> (name_set(
                    before,
                ).contains(n) || n == more@[i as int]@) by {
                    if name_set(names@).contains(n) {
                        let k = choose|k: int| 0 <= k < names@.len() && #[trigger] names@[k]@ == n;
                        if k < before.len() {
                            assert(before[k]@ == n);
                        }
                    }
                    if name_set(before).contains(n) {
                        let k = choose|k: int| 0 <= k < before.len() && #[trigger] before[k]@ == n;
                        assert(names@[k]@ == n);
                    }
                    if n == more@[i as int]@ {
                        assert(names@[before.len() as int]@ == n);
                    }
                }
            }
        }
        assert forall|n: Seq<char>| name_set(names@).contains(n) <==> start.union(
            name_set(next),
        ).contains(n) by {
            assert(name_set(before).contains(n) <==> (start.contains(n) || name_set(seen).contains(
                n,
            )));
            assert(name_set(next).contains(n) <==> (name_set(seen).contains(n) || n
                == more@[i as int]@));
            if names@.len() == before.len() {
                assert(names@ == before);
                assert(name_set(before).contains(more@[i as int]@));
            } else {
                assert(name_set(names@).contains(n) <==> (name_set(before).contains(n) || n
                    == more@[i as int]@));
            }
        }
        assert(name_set(names@) =~= start.union(name_set(next)));
        i += 1;
    }
    assert(more@.take(more@.len() as int) =~= more@);
}

/// Pushing a rule onto a vector pushes its value onto the values.
pub proof fn lemma_rules_of_push(rs: Seq<Rule>, r: Rule)
    ensures
        rules_of(rs.push(r)) == rules_of(rs).push(r@),
{
    assert(rules_of(rs.push(r)) =~= rules_of(rs).push(r@));
}

/// Simplifies every rule, merges neighbours and drops the unreachable.
///
/// The result is what [`merged`] gives for the whole list.
pub fn simplify_rules(rules: Rules) -> (r: Rules)
    ensures
        r@ == merged(rules@, rules@.len() as int),
{
    let mut ret: Vec<Rule> = Vec::new();
    let mut i: usize = 0;
    assert(rules_of(ret@) =~= Seq::<RuleView>::empty());
    while i < rules.0.len()
        invariant
            i <= rules.0@.len(),
            rules@ == rules_of(rules.0@),
            rules_of(ret@) == merged(rules@, i as int),
        decreases rules.0@.len() - i,
    {
        let ghost kept = rules_of(ret@);
        let ghost cur = simplified_rule(rules@[i as int]);
        assert(rules@[i as int] == rules.0@[i as int]@);
        match &rules.0[i] {
            Rule::Normal { condition, mapper } => {
                let c = simplify(condition);
                let n: usize = ret.len();
                let mut merge = false;
                if n > 0 {
                    assert(kept.last() == ret@[n - 1]@);
                    match (&ret[n - 1], mapper) {
                        (
                            Rule::Normal { condition: lc, mapper: Mapper::RemoveQueryParams(_) },
                            Mapper::RemoveQueryParams(_),
                        ) => {
                            merge = same_condition(lc, &c);
                        },
                        _ => {},
                    }
                }
                assert(merge == merges(kept, cur));
                if merge {
                    let last = ret.pop().unwrap();
                    assert(rules_of(ret@) =~= kept.drop_last());
                    match (last, mapper) {
                        (
                            Rule::Normal { condition: lc, mapper: Mapper::RemoveQueryParams(mut names) },
                            Mapper::RemoveQueryParams(more),
                        ) => {
                            add_names(&mut names, more);
                            let both = Rule::Normal {
                                condition: lc,
                                mapper: Mapper::RemoveQueryParams(names),
                            };
                            proof {
                                assert(both@ == joined(kept.last(), cur));
                                lemma_rules_of_push(ret@, both);
                            }
                            ret.push(both);
                        },
                        _ => {
                            assert(false);
                        },
                    }
                } else {
                    match c {
                        Condition::Never => {},
                        _ => {
                            let copy = Rule::Normal { condition: c, mapper: mapper.duplicate() };
                            proof {
                                lemma_rules_of_push(ret@, copy);
                            }
                            ret.push(copy);
                        },
                    }
                }
            },
        }
        i += 1;
    }
    Rules(ret)
}

/// The condition of a blocking rule once an exception is carved out of it:
/// the rule's own condition, and not the exception's.
pub open spec fn carved(exception: Cond, blocked: Cond) -> Cond {
    Cond::All(seq![Cond::Not(Box::new(exception)), blocked])
}

/// What the exception `e` makes of the blocking rule `b`: where both have
/// the same action and the subset test reports the condition of `e` as a subset
/// of that of `b`, the condition of `b` is carved; otherwise `b` stays.
pub open spec fn narrowed(b: RuleView, e: RuleView) -> RuleView {
    if e.mapper == b.mapper && is_subset(e.condition, b.condition) {
        RuleView { condition: carved(e.condition, b.condition), mapper: b.mapper }
    } else {
        b
    }
}

/// What the first `n` exceptions, applied in order, make of `b`.
pub open spec fn narrowed_by(b: RuleView, es: Seq<RuleView>, n: int) -> RuleView
    decreases n,
{
    if n <= 0 || n > es.len() {
        b
    } else {
        narrowed(narrowed_by(b, es, n - 1), es[n - 1])
    }
}

/// A carved condition matches exactly the URLs that the blocking condition
/// matches and the exception does not: never one that the blocking
/// condition did not match.
pub proof fn carved_matches_less(exception: Cond, blocked: Cond, atom: spec_fn(Cond) -> bool)
    ensures
        holds(carved(exception, blocked), atom) == (holds(blocked, atom) && !holds(
            exception,
            atom,
        )),
        holds(carved(exception, blocked), atom) ==> holds(blocked, atom),
{
    let members = seq![Cond::Not(Box::new(exception)), blocked];
    lemma_holds_all(members, atom);
    assert(members[0] == Cond::Not(Box::new(exception)));
    assert(members[1] == blocked);
    assert(holds(members[0], atom) == !holds(exception, atom));
    if holds(blocked, atom) && !holds(exception, atom) {
        assert forall|i: int| 0 <= i < members.len() implies #[trigger] holds(members[i], atom) by {
            if i == 0 {
            } else {
                assert(members[i] == blocked);
            }
        }
    }
    if holds(carved(exception, blocked), atom) {
        assert(holds(members[0], atom));
        assert(holds(members[1], atom));
    }
}

/// Whatever exceptions are applied to a rule, the result matches no URL
/// that the rule did not match before, and its action is unchanged.
pub proof fn narrowing_matches_less(
    b: RuleView,
    es: Seq<RuleView>,
    n: int,
    atom: spec_fn(Cond) -> bool,
)
    ensures
        holds(narrowed_by(b, es, n).condition, atom) ==> holds(b.condition, atom),
        narrowed_by(b, es, n).mapper == b.mapper,
    decreases n,
{
    if 0 < n <= es.len() {
        narrowing_matches_less(b, es, n - 1, atom);
        let before = narrowed_by(b, es, n - 1);
        carved_matches_less(es[n - 1].condition, before.condition, atom);
    }
}

/// Applies one exception to one blocking rule.
pub fn apply_exception(exception: &Rule, blocked: &Rule) -> (r: Rule)
    ensures
        r@ == narrowed(blocked@, exception@),
{
    match (exception, blocked) {
        (Rule::Normal { condition: wc, mapper: wm }, Rule::Normal { condition: rc, mapper: rm }) => {
            if wm.same(rm) && condition_is_partial_non_strict_subset(wc, rc) {
                let mut members: Vec<Condition> = Vec::new();
                members.push(Condition::Not(Box::new(duplicate_condition(wc))));
                members.push(duplicate_condition(rc));
                proof {
                    reveal_with_fuel(cond_of, 2);
                    assert(conds_of(members@) =~= seq![Cond::Not(Box::new(wc@)), rc@]);
                }
                Rule::Normal { condition: Condition::All(members), mapper: rm.duplicate() }
            } else {
                blocked.duplicate()
            }
        },
    }
}

/// Narrows each blocking rule by each exception, exception by exception.
///
/// Every rule ends as what all the exceptions, applied in order, make of
/// it; no rule is added, dropped or moved.
pub fn apply_exceptions(exceptions: &Vec<Rule>, rules: &mut Vec<Rule>)
    ensures
        final(rules)@.len() == old(rules)@.len(),
        forall|i: int|
            0 <= i < old(rules)@.len() ==> (#[trigger] final(rules)@[i])@ == narrowed_by(
                old(rules)@[i]@,
                rules_of(exceptions@),
                exceptions@.len() as int,
            ),
{
    let ghost start = rules@;
    let ghost es = rules_of(exceptions@);
    let mut k: usize = 0;
    while k < exceptions.len()
        invariant
            k <= exceptions@.len(),
            es == rules_of(exceptions@),
            rules@.len() == start.len(),
            forall|i: int|
                0 <= i < start.len() ==> (#[trigger] rules@[i])@ == narrowed_by(
                    start[i]@,
                    es,
                    k as int,
                ),
        decreases exceptions@.len() - k,
    {
        let mut j: usize = 0;
        assert(es[k as int] == exceptions@[k as int]@);
        while j < rules.len()
            invariant
                k < exceptions@.len(),
                j <= rules@.len(),
                es == rules_of(exceptions@),
                es[k as int] == exceptions@[k as int]@,
                rules@.len() == start.len(),
                forall|i: int|
                    0 <= i < j ==> (#[trigger] rules@[i])@ == narrowed_by(
                        start[i]@,
                        es,
                        k as int + 1,
                    ),
                forall|i: int|
                    j <= i < start.len() ==> (#[trigger] rules@[i])@ == narrowed_by(
                        start[i]@,
                        es,
                        k as int,
                    ),
            decreases rules@.len() - j,
        {
            let next = apply_exception(&exceptions[k], &rules[j]);
            rules.set(j, next);
            j += 1;
        }
        k += 1;
    }
}

} // verus!
