//! What it means for a condition to match, and what the simplifier keeps.
//!
//! A URL enters only through the truth value it gives to each predicate
//! that is not built from others: a valuation `atom`. The connectives
//! `Not`, `All` and `Any` are read on top of it.

use vstd::prelude::*;
use crate::model::Cond;
use crate::simplify::{simplified, simplified_each, spliced_all, spliced_any, without,
    lemma_without_contains};

verus! {

/// Whether `c` matches under the valuation `atom` of its leaves: `Not`
/// where the inner condition does not, `All` where every member does, `Any`
/// where some member does.
pub open spec fn holds(c: Cond, atom: spec_fn(Cond) -> bool) -> bool
    decreases c, 0int,
{
    match c {
        Cond::Always => true,
        Cond::Never => false,
        Cond::Not(inner) => !holds(*inner, atom),
        Cond::All(cs) => all_hold(cs, cs.len() as int, atom),
        Cond::Any(cs) => one_holds(cs, cs.len() as int, atom),
        _ => atom(c),
    }
}

/// Whether each of the first `n` members of `cs` matches.
pub open spec fn all_hold(cs: Seq<Cond>, n: int, atom: spec_fn(Cond) -> bool) -> bool
    decreases cs, n,
{
    if n <= 0 || n > cs.len() {
        true
    } else {
        holds(cs[n - 1], atom) && all_hold(cs, n - 1, atom)
    }
}

/// Whether one of the first `n` members of `cs` matches.
pub open spec fn one_holds(cs: Seq<Cond>, n: int, atom: spec_fn(Cond) -> bool) -> bool
    decreases cs, n,
{
    if n <= 0 || n > cs.len() {
        false
    } else {
        holds(cs[n - 1], atom) || one_holds(cs, n - 1, atom)
    }
}

proof fn lemma_all_hold(cs: Seq<Cond>, n: int, atom: spec_fn(Cond) -> bool)
    requires
        0 <= n <= cs.len(),
    ensures
        all_hold(cs, n, atom) == (forall|i: int| 0 <= i < n ==> #[trigger] holds(cs[i], atom)),
    decreases n,
{
    if n > 0 {
        lemma_all_hold(cs, n - 1, atom);
        assert(all_hold(cs, n, atom) == (holds(cs[n - 1], atom) && all_hold(cs, n - 1, atom)));
        if all_hold(cs, n, atom) {
            assert forall|i: int| 0 <= i < n implies #[trigger] holds(cs[i], atom) by {
                if i < n - 1 {
                }
            }
        }
    }
}

proof fn lemma_one_holds(cs: Seq<Cond>, n: int, atom: spec_fn(Cond) -> bool)
    requires
        0 <= n <= cs.len(),
    ensures
        one_holds(cs, n, atom) == (exists|i: int| 0 <= i < n && #[trigger] holds(cs[i], atom)),
    decreases n,
{
    if n > 0 {
        lemma_one_holds(cs, n - 1, atom);
        assert(one_holds(cs, n, atom) == (holds(cs[n - 1], atom) || one_holds(cs, n - 1, atom)));
    }
}

/// An `All` matches exactly where each of its members matches.
pub proof fn lemma_holds_all(cs: Seq<Cond>, atom: spec_fn(Cond) -> bool)
    ensures
        holds(Cond::All(cs), atom) == (forall|i: int|
            0 <= i < cs.len() ==> #[trigger] holds(cs[i], atom)),
{
    lemma_all_hold(cs, cs.len() as int, atom);
}

/// An `Any` matches exactly where one of its members matches.
pub proof fn lemma_holds_any(cs: Seq<Cond>, atom: spec_fn(Cond) -> bool)
    ensures
        holds(Cond::Any(cs), atom) == (exists|i: int|
            0 <= i < cs.len() && #[trigger] holds(cs[i], atom)),
{
    lemma_one_holds(cs, cs.len() as int, atom);
}

/// Whether `c` may stand as a member of a simplified `All`.
pub open spec fn all_member(c: Cond) -> bool {
    is_simple(c) && c != Cond::Always && c != Cond::Never && !(c is All)
}

/// Whether `c` may stand as a member of a simplified `Any`.
pub open spec fn any_member(c: Cond) -> bool {
    is_simple(c) && c != Cond::Always && c != Cond::Never && !(c is Any)
}

/// The shape that the simplifier leaves: an `All` or `Any` has at least two
/// members, none of them `Always`, `Never` or of the parent's own kind, and
/// each of them of this shape again.
pub open spec fn is_simple(c: Cond) -> bool
    decreases c,
{
    match c {
        Cond::All(cs) => cs.len() >= 2 && forall|i: int|
            0 <= i < cs.len() ==> {
                &&& is_simple(#[trigger] cs[i])
                &&& cs[i] != Cond::Always
                &&& cs[i] != Cond::Never
                &&& !(cs[i] is All)
            },
        Cond::Any(cs) => cs.len() >= 2 && forall|i: int|
            0 <= i < cs.len() ==> {
                &&& is_simple(#[trigger] cs[i])
                &&& cs[i] != Cond::Always
                &&& cs[i] != Cond::Never
                &&& !(cs[i] is Any)
            },
        _ => true,
    }
}

proof fn lemma_without_same(cs: Seq<Cond>, v: Cond)
    requires
        !cs.contains(v),
    ensures
        without(cs, v) == cs,
    decreases cs.len(),
{
    if cs.len() > 0 {
        assert(cs.last() == cs[cs.len() - 1]);
        assert forall|i: int| 0 <= i < cs.drop_last().len() implies cs.drop_last()[i] != v by {
            assert(cs[i] == cs.drop_last()[i]);
        }
        lemma_without_same(cs.drop_last(), v);
        assert(cs.drop_last().push(cs.last()) =~= cs);
    } else {
        assert(cs =~= Seq::empty());
    }
}

proof fn lemma_spliced_all_same(cs: Seq<Cond>)
    requires
        forall|i: int| 0 <= i < cs.len() ==> !(#[trigger] cs[i] is All),
    ensures
        spliced_all(cs) == cs,
    decreases cs.len(),
{
    if cs.len() > 0 {
        assert(cs.last() == cs[cs.len() - 1]);
        assert forall|i: int| 0 <= i < cs.drop_last().len() implies !(
        #[trigger] cs.drop_last()[i] is All) by {
            assert(cs[i] == cs.drop_last()[i]);
        }
        lemma_spliced_all_same(cs.drop_last());
        assert(cs.drop_last().push(cs.last()) =~= cs);
    } else {
        assert(cs =~= Seq::empty());
    }
}

proof fn lemma_spliced_any_same(cs: Seq<Cond>)
    requires
        forall|i: int| 0 <= i < cs.len() ==> !(#[trigger] cs[i] is Any),
    ensures
        spliced_any(cs) == cs,
    decreases cs.len(),
{
    if cs.len() > 0 {
        assert(cs.last() == cs[cs.len() - 1]);
        assert forall|i: int| 0 <= i < cs.drop_last().len() implies !(
        #[trigger] cs.drop_last()[i] is Any) by {
            assert(cs[i] == cs.drop_last()[i]);
        }
        lemma_spliced_any_same(cs.drop_last());
        assert(cs.drop_last().push(cs.last()) =~= cs);
    } else {
        assert(cs =~= Seq::empty());
    }
}

/// Splicing keeps the members fit for an `All`, and the truth of "all hold".
proof fn lemma_spliced_all(cs: Seq<Cond>, atom: spec_fn(Cond) -> bool)
    ensures
        (forall|i: int| 0 <= i < cs.len() ==> is_simple(#[trigger] cs[i]) && cs[i] != Cond::Always
            && cs[i] != Cond::Never) ==> (forall|j: int|
            0 <= j < spliced_all(cs).len() ==> all_member(#[trigger] spliced_all(cs)[j])),
        holds(Cond::All(spliced_all(cs)), atom) == holds(Cond::All(cs), atom),
    decreases cs.len(),
{
    if cs.len() > 0 {
        let rest = cs.drop_last();
        let last = cs.last();
        lemma_spliced_all(rest, atom);
        let sr = spliced_all(rest);
        let sc = spliced_all(cs);
        let tail = match last {
            Cond::All(inner) => inner,
            other => seq![other],
        };
        lemma_holds_all(cs, atom);
        lemma_holds_all(rest, atom);
        lemma_holds_all(sr, atom);
        lemma_holds_all(sc, atom);
        lemma_holds_all(tail, atom);
        assert(last == cs[cs.len() - 1]);
        assert forall|i: int| 0 <= i < rest.len() implies rest[i] == cs[i] by {}
        // members
        if forall|i: int|
            0 <= i < cs.len() ==> is_simple(#[trigger] cs[i]) && cs[i] != Cond::Always && cs[i]
                != Cond::Never {
            assert forall|i: int| 0 <= i < rest.len() implies is_simple(#[trigger] rest[i])
                && rest[i] != Cond::Always && rest[i] != Cond::Never by {
                assert(rest[i] == cs[i]);
            }
            assert forall|j: int| 0 <= j < sc.len() implies all_member(#[trigger] sc[j]) by {
                if j < sr.len() {
                    assert(sc[j] == sr[j]);
                } else {
                    match last {
                        Cond::All(inner) => {
                            assert(sc[j] == inner[j - sr.len()]);
                            assert(is_simple(last));
                            assert(is_simple(inner[j - sr.len()]));
                        },
                        _ => {
                            assert(sc[j] == last);
                        },
                    }
                }
            }
        }
        // truth
        let hr = holds(Cond::All(rest), atom);
        let hl = holds(last, atom);
        assert(holds(Cond::All(cs), atom) == (hr && hl)) by {
            if hr && hl {
                assert forall|i: int| 0 <= i < cs.len() implies #[trigger] holds(cs[i], atom) by {
                    if i < rest.len() {
                        assert(holds(rest[i], atom));
                    }
                }
            }
            if holds(Cond::All(cs), atom) {
                assert(holds(cs[cs.len() - 1], atom));
                assert forall|i: int| 0 <= i < rest.len() implies #[trigger] holds(rest[i], atom) by {
                    assert(holds(cs[i], atom));
                }
            }
        }
        assert(sc =~= sr + tail);
        assert(holds(Cond::All(tail), atom) == hl) by {
            match last {
                Cond::All(inner) => {},
                _ => {
                    assert(tail[0] == last);
                    if hl {
                        assert forall|i: int| 0 <= i < tail.len() implies #[trigger] holds(tail[i], atom) by {}
                    }
                },
            }
        }
        assert(holds(Cond::All(sc), atom) == (holds(Cond::All(sr), atom) && holds(
            Cond::All(tail),
            atom,
        ))) by {
            if holds(Cond::All(sc), atom) {
                assert forall|i: int| 0 <= i < sr.len() implies #[trigger] holds(sr[i], atom) by {
                    assert(sc[i] == sr[i]);
                    assert(holds(sc[i], atom));
                }
                assert forall|i: int| 0 <= i < tail.len() implies #[trigger] holds(tail[i], atom) by {
                    assert(sc[sr.len() + i] == tail[i]);
                    assert(holds(sc[sr.len() + i], atom));
                }
            }
            if holds(Cond::All(sr), atom) && holds(Cond::All(tail), atom) {
                assert forall|i: int| 0 <= i < sc.len() implies #[trigger] holds(sc[i], atom) by {
                    if i < sr.len() {
                        assert(holds(sr[i], atom));
                    } else {
                        assert(holds(tail[i - sr.len()], atom));
                    }
                }
            }
        }
    } else {
        assert(spliced_all(cs) =~= cs);
    }
}

/// Splicing keeps the members fit for an `Any`, and the truth of "one holds".
proof fn lemma_spliced_any(cs: Seq<Cond>, atom: spec_fn(Cond) -> bool)
    ensures
        (forall|i: int| 0 <= i < cs.len() ==> is_simple(#[trigger] cs[i]) && cs[i] != Cond::Always
            && cs[i] != Cond::Never) ==> (forall|j: int|
            0 <= j < spliced_any(cs).len() ==> any_member(#[trigger] spliced_any(cs)[j])),
        holds(Cond::Any(spliced_any(cs)), atom) == holds(Cond::Any(cs), atom),
    decreases cs.len(),
{
    if cs.len() > 0 {
        let rest = cs.drop_last();
        let last = cs.last();
        lemma_spliced_any(rest, atom);
        let sr = spliced_any(rest);
        let sc = spliced_any(cs);
        let tail = match last {
            Cond::Any(inner) => inner,
            other => seq![other],
        };
        lemma_holds_any(cs, atom);
        lemma_holds_any(rest, atom);
        lemma_holds_any(sr, atom);
        lemma_holds_any(sc, atom);
        lemma_holds_any(tail, atom);
        assert(last == cs[cs.len() - 1]);
        assert forall|i: int| 0 <= i < rest.len() implies rest[i] == cs[i] by {}
        if forall|i: int|
            0 <= i < cs.len() ==> is_simple(#[trigger] cs[i]) && cs[i] != Cond::Always && cs[i]
                != Cond::Never {
            assert forall|i: int| 0 <= i < rest.len() implies is_simple(#[trigger] rest[i])
                && rest[i] != Cond::Always && rest[i] != Cond::Never by {
                assert(rest[i] == cs[i]);
            }
            assert forall|j: int| 0 <= j < sc.len() implies any_member(#[trigger] sc[j]) by {
                if j < sr.len() {
                    assert(sc[j] == sr[j]);
                } else {
                    match last {
                        Cond::Any(inner) => {
                            assert(sc[j] == inner[j - sr.len()]);
                            assert(is_simple(last));
                            assert(is_simple(inner[j - sr.len()]));
                        },
                        _ => {
                            assert(sc[j] == last);
                        },
                    }
                }
            }
        }
        let hr = holds(Cond::Any(rest), atom);
        let hl = holds(last, atom);
        assert(holds(Cond::Any(cs), atom) == (hr || hl)) by {
            if hr {
                let i = choose|i: int| 0 <= i < rest.len() && #[trigger] holds(rest[i], atom);
                assert(holds(cs[i], atom));
            }
            if hl {
                assert(holds(cs[cs.len() - 1], atom));
            }
            if holds(Cond::Any(cs), atom) {
                let i = choose|i: int| 0 <= i < cs.len() && #[trigger] holds(cs[i], atom);
                if i < rest.len() {
                    assert(holds(rest[i], atom));
                }
            }
        }
        assert(sc =~= sr + tail);
        assert(holds(Cond::Any(tail), atom) == hl) by {
            match last {
                Cond::Any(inner) => {},
                _ => {
                    assert(tail[0] == last);
                    if hl {
                        assert(holds(tail[0], atom));
                    }
                },
            }
        }
        assert(holds(Cond::Any(sc), atom) == (holds(Cond::Any(sr), atom) || holds(
            Cond::Any(tail),
            atom,
        ))) by {
            if holds(Cond::Any(sc), atom) {
                let i = choose|i: int| 0 <= i < sc.len() && #[trigger] holds(sc[i], atom);
                if i < sr.len() {
                    assert(holds(sr[i], atom));
                } else {
                    assert(holds(tail[i - sr.len()], atom));
                }
            }
            if holds(Cond::Any(sr), atom) {
                let i = choose|i: int| 0 <= i < sr.len() && #[trigger] holds(sr[i], atom);
                assert(holds(sc[i], atom));
            }
            if holds(Cond::Any(tail), atom) {
                let i = choose|i: int| 0 <= i < tail.len() && #[trigger] holds(tail[i], atom);
                assert(holds(sc[sr.len() + i], atom));
            }
        }
    } else {
        assert(spliced_any(cs) =~= cs);
    }
}

/// Dropping the members equal to `Always` does not change whether all hold.
proof fn lemma_without_always(cs: Seq<Cond>, atom: spec_fn(Cond) -> bool)
    ensures
        holds(Cond::All(without(cs, Cond::Always)), atom) == holds(Cond::All(cs), atom),
{
    let w = without(cs, Cond::Always);
    lemma_holds_all(cs, atom);
    lemma_holds_all(w, atom);
    if holds(Cond::All(cs), atom) {
        assert forall|j: int| 0 <= j < w.len() implies #[trigger] holds(w[j], atom) by {
            lemma_without_contains(cs, Cond::Always, w[j]);
            assert(w.contains(w[j]));
            let i = choose|i: int| 0 <= i < cs.len() && cs[i] == w[j];
            assert(holds(cs[i], atom));
        }
    }
    if holds(Cond::All(w), atom) {
        assert forall|i: int| 0 <= i < cs.len() implies #[trigger] holds(cs[i], atom) by {
            if cs[i] != Cond::Always {
                lemma_without_contains(cs, Cond::Always, cs[i]);
                assert(cs.contains(cs[i]));
                let j = choose|j: int| 0 <= j < w.len() && w[j] == cs[i];
                assert(holds(w[j], atom));
            }
        }
    }
}

/// Dropping the members equal to `Never` does not change whether one holds.
proof fn lemma_without_never(cs: Seq<Cond>, atom: spec_fn(Cond) -> bool)
    ensures
        holds(Cond::Any(without(cs, Cond::Never)), atom) == holds(Cond::Any(cs), atom),
{
    let w = without(cs, Cond::Never);
    lemma_holds_any(cs, atom);
    lemma_holds_any(w, atom);
    if holds(Cond::Any(cs), atom) {
        let i = choose|i: int| 0 <= i < cs.len() && #[trigger] holds(cs[i], atom);
        lemma_without_contains(cs, Cond::Never, cs[i]);
        assert(cs.contains(cs[i]));
        let j = choose|j: int| 0 <= j < w.len() && w[j] == cs[i];
        assert(holds(w[j], atom));
    }
    if holds(Cond::Any(w), atom) {
        let j = choose|j: int| 0 <= j < w.len() && #[trigger] holds(w[j], atom);
        lemma_without_contains(cs, Cond::Never, w[j]);
        assert(w.contains(w[j]));
        let i = choose|i: int| 0 <= i < cs.len() && cs[i] == w[j];
        assert(holds(cs[i], atom));
    }
}

/// The simplified form of any condition has the simplifier's shape, and
/// matches exactly where the condition itself matches.
pub proof fn lemma_simplified(c: Cond, atom: spec_fn(Cond) -> bool)
    ensures
        is_simple(simplified(c)),
        holds(simplified(c), atom) == holds(c, atom),
    decreases c,
{
    match c {
        Cond::All(cs) => {
            let members = simplified_each(cs);
            let kept = without(members, Cond::Always);
            let flat = spliced_all(kept);
            lemma_holds_all(cs, atom);
            lemma_holds_all(members, atom);
            lemma_holds_all(kept, atom);
            lemma_holds_all(flat, atom);
            assert forall|i: int| 0 <= i < cs.len() implies is_simple(#[trigger] members[i])
                && holds(members[i], atom) == holds(cs[i], atom) by {
                lemma_simplified(cs[i], atom);
            }
            assert(holds(Cond::All(members), atom) == holds(c, atom)) by {
                if holds(c, atom) {
                    assert forall|i: int| 0 <= i < members.len() implies #[trigger] holds(members[i], atom) by {
                        assert(holds(cs[i], atom));
                    }
                }
                if holds(Cond::All(members), atom) {
                    assert forall|i: int| 0 <= i < cs.len() implies #[trigger] holds(cs[i], atom) by {
                        assert(holds(members[i], atom));
                    }
                }
            }
            lemma_without_always(members, atom);
            lemma_spliced_all(kept, atom);
            if kept.contains(Cond::Never) {
                let j = choose|j: int| 0 <= j < kept.len() && kept[j] == Cond::Never;
                assert(!holds(kept[j], atom));
            } else {
                assert forall|j: int| 0 <= j < kept.len() implies is_simple(#[trigger] kept[j])
                    && kept[j] != Cond::Always && kept[j] != Cond::Never by {
                    lemma_without_contains(members, Cond::Always, kept[j]);
                    assert(kept.contains(kept[j]));
                    let i = choose|i: int| 0 <= i < members.len() && members[i] == kept[j];
                    assert(is_simple(members[i]));
                }
                if flat.len() == 1 {
                    assert(all_member(flat[0]));
                    assert(holds(Cond::All(flat), atom) == holds(flat[0], atom)) by {
                        if holds(flat[0], atom) {
                            assert forall|i: int| 0 <= i < flat.len() implies #[trigger] holds(flat[i], atom) by {}
                        }
                    }
                } else if flat.len() >= 2 {
                    assert forall|j: int| 0 <= j < flat.len() implies {
                        &&& is_simple(#[trigger] flat[j])
                        &&& flat[j] != Cond::Always
                        &&& flat[j] != Cond::Never
                        &&& !(flat[j] is All)
                    } by {
                        assert(all_member(flat[j]));
                    }
                }
            }
        },
        Cond::Any(cs) => {
            let members = simplified_each(cs);
            let kept = without(members, Cond::Never);
            let flat = spliced_any(kept);
            lemma_holds_any(cs, atom);
            lemma_holds_any(members, atom);
            lemma_holds_any(kept, atom);
            lemma_holds_any(flat, atom);
            assert forall|i: int| 0 <= i < cs.len() implies is_simple(#[trigger] members[i])
                && holds(members[i], atom) == holds(cs[i], atom) by {
                lemma_simplified(cs[i], atom);
            }
            assert(holds(Cond::Any(members), atom) == holds(c, atom)) by {
                if holds(c, atom) {
                    let i = choose|i: int| 0 <= i < cs.len() && #[trigger] holds(cs[i], atom);
                    assert(holds(members[i], atom));
                }
                if holds(Cond::Any(members), atom) {
                    let i = choose|i: int|
                        0 <= i < members.len() && #[trigger] holds(members[i], atom);
                    assert(holds(cs[i], atom));
                }
            }
            lemma_without_never(members, atom);
            lemma_spliced_any(kept, atom);
            if kept.contains(Cond::Always) {
                let j = choose|j: int| 0 <= j < kept.len() && kept[j] == Cond::Always;
                assert(holds(kept[j], atom));
            } else {
                assert forall|j: int| 0 <= j < kept.len() implies is_simple(#[trigger] kept[j])
                    && kept[j] != Cond::Always && kept[j] != Cond::Never by {
                    lemma_without_contains(members, Cond::Never, kept[j]);
                    assert(kept.contains(kept[j]));
                    let i = choose|i: int| 0 <= i < members.len() && members[i] == kept[j];
                    assert(is_simple(members[i]));
                }
                if flat.len() == 1 {
                    assert(any_member(flat[0]));
                    assert(holds(Cond::Any(flat), atom) == holds(flat[0], atom)) by {
                        if holds(Cond::Any(flat), atom) {
                            let i = choose|i: int|
                                0 <= i < flat.len() && #[trigger] holds(flat[i], atom);
                            assert(i == 0);
                        }
                    }
                } else if flat.len() >= 2 {
                    assert forall|j: int| 0 <= j < flat.len() implies {
                        &&& is_simple(#[trigger] flat[j])
                        &&& flat[j] != Cond::Always
                        &&& flat[j] != Cond::Never
                        &&& !(flat[j] is Any)
                    } by {
                        assert(any_member(flat[j]));
                    }
                }
            }
        },
        _ => {},
    }
}

/// A condition of the simplifier's shape is its own simplified form.
pub proof fn lemma_simple_is_fixed(c: Cond)
    requires
        is_simple(c),
    ensures
        simplified(c) == c,
    decreases c,
{
    match c {
        Cond::All(cs) => {
            let members = simplified_each(cs);
            assert forall|i: int| 0 <= i < cs.len() implies members[i] == cs[i] by {
                assert(is_simple(cs[i]));
                lemma_simple_is_fixed(cs[i]);
            }
            assert(members =~= cs);
            assert(!cs.contains(Cond::Always)) by {
                if cs.contains(Cond::Always) {
                    let i = choose|i: int| 0 <= i < cs.len() && cs[i] == Cond::Always;
                    assert(is_simple(cs[i]));
                }
            }
            assert(!cs.contains(Cond::Never)) by {
                if cs.contains(Cond::Never) {
                    let i = choose|i: int| 0 <= i < cs.len() && cs[i] == Cond::Never;
                    assert(is_simple(cs[i]));
                }
            }
            lemma_without_same(cs, Cond::Always);
            assert forall|i: int| 0 <= i < cs.len() implies !(#[trigger] cs[i] is All) by {
                assert(is_simple(cs[i]));
            }
            lemma_spliced_all_same(cs);
        },
        Cond::Any(cs) => {
            let members = simplified_each(cs);
            assert forall|i: int| 0 <= i < cs.len() implies members[i] == cs[i] by {
                assert(is_simple(cs[i]));
                lemma_simple_is_fixed(cs[i]);
            }
            assert(members =~= cs);
            assert(!cs.contains(Cond::Always)) by {
                if cs.contains(Cond::Always) {
                    let i = choose|i: int| 0 <= i < cs.len() && cs[i] == Cond::Always;
                    assert(is_simple(cs[i]));
                }
            }
            assert(!cs.contains(Cond::Never)) by {
                if cs.contains(Cond::Never) {
                    let i = choose|i: int| 0 <= i < cs.len() && cs[i] == Cond::Never;
                    assert(is_simple(cs[i]));
                }
            }
            lemma_without_same(cs, Cond::Never);
            assert forall|i: int| 0 <= i < cs.len() implies !(#[trigger] cs[i] is Any) by {
                assert(is_simple(cs[i]));
            }
            lemma_spliced_any_same(cs);
        },
        _ => {},
    }
}

/// Simplifying twice gives what simplifying once gives.
pub proof fn simplify_is_idempotent(c: Cond)
    ensures
        simplified(simplified(c)) == simplified(c),
{
    lemma_simplified(c, |x: Cond| true);
    lemma_simple_is_fixed(simplified(c));
}

/// Whatever truth values a URL gives to the leaves, the simplified form of
/// a condition matches it if and only if the condition does.
pub proof fn simplify_keeps_matches(c: Cond, atom: spec_fn(Cond) -> bool)
    ensures
        holds(simplified(c), atom) == holds(c, atom),
{
    lemma_simplified(c, atom);
}

} // verus!
