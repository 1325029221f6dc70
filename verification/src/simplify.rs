//! The boolean simplifier: what the simplified form of a condition is, and
//! the function that computes it.

use vstd::prelude::*;
use crate::model::{Cond, Condition, Mapper, Rule, conds_of, lemma_conds_of_push};
use crate::compare::duplicate_condition;

verus! {

/// `cs` without the members equal to `v`, the others in order.
pub open spec fn without(cs: Seq<Cond>, v: Cond) -> Seq<Cond>
    decreases cs.len(),
{
    if cs.len() == 0 {
        Seq::empty()
    } else if cs.last() == v {
        without(cs.drop_last(), v)
    } else {
        without(cs.drop_last(), v).push(cs.last())
    }
}

/// `cs` with each member that is an `All` replaced by that member's own
/// members, in place.
pub open spec fn spliced_all(cs: Seq<Cond>) -> Seq<Cond>
    decreases cs.len(),
{
    if cs.len() == 0 {
        Seq::empty()
    } else {
        match cs.last() {
            Cond::All(inner) => spliced_all(cs.drop_last()) + inner,
            other => spliced_all(cs.drop_last()).push(other),
        }
    }
}

/// `cs` with each member that is an `Any` replaced by that member's own
/// members, in place.
pub open spec fn spliced_any(cs: Seq<Cond>) -> Seq<Cond>
    decreases cs.len(),
{
    if cs.len() == 0 {
        Seq::empty()
    } else {
        match cs.last() {
            Cond::Any(inner) => spliced_any(cs.drop_last()) + inner,
            other => spliced_any(cs.drop_last()).push(other),
        }
    }
}

/// The simplified forms of the members of `cs`, in order.
pub open spec fn simplified_each(cs: Seq<Cond>) -> Seq<Cond>
    decreases cs,
{
    Seq::new(cs.len(), |i: int| if 0 <= i < cs.len() { simplified(cs[i]) } else { Cond::Never })
}

/// The simplified form of a condition.
///
/// For `All`: the members are simplified; those equal to `Always` are
/// dropped; if one equals `Never` the result is `Never`; members that are
/// themselves `All` are spliced in; nothing left gives `Always`, one member
/// left gives that member, more give `All` of them. `Any` is the mirror
/// image, with `Never` and `Always` changing places. Every other condition
/// is its own simplified form.
pub open spec fn simplified(c: Cond) -> Cond
    decreases c,
{
    match c {
        Cond::All(cs) => {
            let kept = without(simplified_each(cs), Cond::Always);
            let flat = spliced_all(kept);
            if kept.contains(Cond::Never) {
                Cond::Never
            } else if flat.len() == 0 {
                Cond::Always
            } else if flat.len() == 1 {
                flat[0]
            } else {
                Cond::All(flat)
            }
        },
        Cond::Any(cs) => {
            let kept = without(simplified_each(cs), Cond::Never);
            let flat = spliced_any(kept);
            if kept.contains(Cond::Always) {
                Cond::Always
            } else if flat.len() == 0 {
                Cond::Never
            } else if flat.len() == 1 {
                flat[0]
            } else {
                Cond::Any(flat)
            }
        },
        _ => c,
    }
}

/// The values of two lists laid end to end are the values of the first
/// followed by those of the second.
pub proof fn lemma_conds_of_concat(a: Seq<Condition>, b: Seq<Condition>)
    ensures
        conds_of(a + b) == conds_of(a) + conds_of(b),
{
    assert(conds_of(a + b) =~= conds_of(a) + conds_of(b));
}

/// A member of `cs` other than `v` is a member of `without(cs, v)`, and the
/// other way round.
pub proof fn lemma_without_contains(cs: Seq<Cond>, v: Cond, x: Cond)
    ensures
        without(cs, v).contains(x) <==> (cs.contains(x) && x != v),
    decreases cs.len(),
{
    if cs.len() > 0 {
        let rest = cs.drop_last();
        lemma_without_contains(rest, v, x);
        let w = without(rest, v);
        if cs.contains(x) && x != v {
            let i = choose|i: int| 0 <= i < cs.len() && cs[i] == x;
            if i < cs.len() - 1 {
                assert(rest[i] == x);
                assert(w.contains(x));
                let j = choose|j: int| 0 <= j < w.len() && w[j] == x;
                assert(without(cs, v)[j] == x);
            } else {
                assert(without(cs, v).last() == x);
            }
        }
        if without(cs, v).contains(x) {
            let j = choose|j: int| 0 <= j < without(cs, v).len() && without(cs, v)[j] == x;
            if cs.last() != v && j == w.len() {
                assert(cs[cs.len() - 1] == x);
            } else {
                assert(w[j] == x);
                assert(w.contains(x));
                let i = choose|i: int| 0 <= i < rest.len() && rest[i] == x;
                assert(cs[i] == x);
            }
        }
    }
}

/// The connective whose members are being simplified.
enum Kind {
    All,
    Any,
}

/// Simplifies the members of an `All` (or of an `Any`). Returns `None` where
/// a member collapses the whole, else the members that stay, spliced.
fn simplify_members(cs: &Vec<Condition>, kind: Kind) -> (r: Option<Vec<Condition>>)
    ensures
        ({
            let unit = if kind is All { Cond::Always } else { Cond::Never };
            let zero = if kind is All { Cond::Never } else { Cond::Always };
            let kept = without(simplified_each(conds_of(cs@)), unit);
            match r {
                None => kept.contains(zero),
                Some(flat) => !kept.contains(zero) && conds_of(flat@) == (if kind is All {
                    spliced_all(kept)
                } else {
                    spliced_any(kept)
                }),
            }
        }),
    decreases cs@, 0int,
{
    let ghost unit = if kind is All { Cond::Always } else { Cond::Never };
    let ghost zero = if kind is All { Cond::Never } else { Cond::Always };
    let ghost members = simplified_each(conds_of(cs@));
    let mut flat: Vec<Condition> = Vec::new();
    let mut i: usize = 0;
    assert(members.take(0) =~= Seq::empty());
    while i < cs.len()
        invariant
            i <= cs@.len(),
            unit == (if kind is All { Cond::Always } else { Cond::Never }),
            zero == (if kind is All { Cond::Never } else { Cond::Always }),
            members == simplified_each(conds_of(cs@)),
            !without(members.take(i as int), unit).contains(zero),
            conds_of(flat@) == (if kind is All {
                spliced_all(without(members.take(i as int), unit))
            } else {
                spliced_any(without(members.take(i as int), unit))
            }),
        decreases cs@.len() - i,
    {
        let s = simplify(&cs[i]);
        proof {
            assert(conds_of(cs@)[i as int] == cs@[i as int]@);
            assert(s@ == members[i as int]);
            assert(members.take(i + 1).drop_last() =~= members.take(i as int));
            assert(members.take(i + 1).last() == s@);
            let before = without(members.take(i as int), unit);
            if s@ != unit {
                assert(without(members.take(i + 1), unit) == before.push(s@));
                assert(before.push(s@).drop_last() =~= before);
                assert(before.push(s@).last() == s@);
            }
            lemma_without_contains(members.take(i + 1), unit, zero);
            lemma_without_contains(members.take(i as int), unit, zero);
        }
        match (&kind, s) {
            (Kind::All, Condition::Always) => {},
            (Kind::Any, Condition::Never) => {},
            (Kind::All, Condition::Never) => {
                assert(members.take(i + 1).contains(zero));
                proof {
                    lemma_without_contains(members, unit, zero);
                    assert(members[i as int] == zero);
                }
                return None;
            },
            (Kind::Any, Condition::Always) => {
                assert(members.take(i + 1).contains(zero));
                proof {
                    lemma_without_contains(members, unit, zero);
                    assert(members[i as int] == zero);
                }
                return None;
            },
            (Kind::All, Condition::All(mut inner)) => {
                proof {
                    lemma_conds_of_concat(flat@, inner@);
                }
                flat.append(&mut inner);
            },
            (Kind::Any, Condition::Any(mut inner)) => {
                proof {
                    lemma_conds_of_concat(flat@, inner@);
                }
                flat.append(&mut inner);
            },
            (_, other) => {
                proof {
                    lemma_conds_of_push(flat@, other);
                }
                flat.push(other);
            },
        }
        proof {
            let t = members.take(i + 1);
            if t.contains(zero) {
                let k = choose|k: int| 0 <= k < t.len() && t[k] == zero;
                if k < i {
                    assert(members.take(i as int)[k] == zero);
                }
            }
        }
        i += 1;
    }
    proof {
        assert(members.take(cs@.len() as int) == members);
    }
    Some(flat)
}

/// Builds the simplified form of `c`, leaving `c` as it is.
pub fn simplify(c: &Condition) -> (r: Condition)
    ensures
        r@ == simplified(c@),
    decreases c, 1int,
{
    match c {
        Condition::All(cs) => {
            match simplify_members(cs, Kind::All) {
                None => Condition::Never,
                Some(mut flat) => {
                    if flat.len() == 0 {
                        Condition::Always
                    } else if flat.len() == 1 {
                        let only = flat.remove(0);
                        only
                    } else {
                        Condition::All(flat)
                    }
                },
            }
        },
        Condition::Any(cs) => {
            match simplify_members(cs, Kind::Any) {
                None => Condition::Always,
                Some(mut flat) => {
                    if flat.len() == 0 {
                        Condition::Never
                    } else if flat.len() == 1 {
                        let only = flat.remove(0);
                        only
                    } else {
                        Condition::Any(flat)
                    }
                },
            }
        },
        _ => duplicate_condition(c),
    }
}

/// Rewrites a condition into its simplified form.
pub fn simplify_condition(condition: Condition) -> (r: Condition)
    ensures
        r@ == simplified(condition@),
{
    simplify(&condition)
}

/// Actions have no simpler form: the action is returned as it is.
pub fn simplify_mapper(mapper: Mapper) -> (r: Mapper)
    ensures
        r == mapper,
{
    mapper
}

/// Simplifies the condition of a rule and keeps its action.
pub fn simplify_rule(rule: Rule) -> (r: Rule)
    ensures
        r@.condition == simplified(rule@.condition),
        r@.mapper == rule@.mapper,
{
    match rule {
        Rule::Normal { condition, mapper } => Rule::Normal {
            condition: simplify_condition(condition),
            mapper: simplify_mapper(mapper),
        },
    }
}

} // verus!
