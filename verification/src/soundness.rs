//! The subset test never reports a subset that is none: whatever
//! it reports holds under every reading of the leaves that honours the
//! rules on domains.

use vstd::prelude::*;
use crate::model::Cond;
use crate::semantics::{holds, lemma_holds_all, lemma_holds_any};
use crate::subset::{domain_subset, each_covered, each_within, is_subset, some_covers, within_some};

verus! {

/// Whether the valuation `atom` honours the rules on domains: where they
/// put `a` within `b`, it makes `b` true wherever it makes `a` true.
pub open spec fn honours_domains(atom: spec_fn(Cond) -> bool) -> bool {
    forall|a: Cond, b: Cond| #[trigger] domain_subset(a, b) ==> (atom(a) ==> atom(b))
}

proof fn lemma_some_covers_sound(ls: Seq<Cond>, n: int, r: Cond, atom: spec_fn(Cond) -> bool)
    requires
        honours_domains(atom),
        0 <= n <= ls.len(),
        some_covers(ls, n, r),
        forall|i: int| 0 <= i < ls.len() ==> #[trigger] holds(ls[i], atom),
    ensures
        holds(r, atom),
    decreases ls, 1int, n,
{
    if n > 0 {
        if is_subset(ls[n - 1], r) {
            assert(holds(ls[n - 1], atom));
            subset_is_sound(ls[n - 1], r, atom);
        } else {
            lemma_some_covers_sound(ls, n - 1, r, atom);
        }
    }
}

proof fn lemma_each_covered_sound(
    ls: Seq<Cond>,
    rs: Seq<Cond>,
    m: int,
    atom: spec_fn(Cond) -> bool,
)
    requires
        honours_domains(atom),
        0 <= m <= rs.len(),
        each_covered(ls, rs, m),
        forall|i: int| 0 <= i < ls.len() ==> #[trigger] holds(ls[i], atom),
    ensures
        forall|j: int| 0 <= j < m ==> #[trigger] holds(rs[j], atom),
    decreases ls, 2int, m,
{
    if m > 0 {
        lemma_each_covered_sound(ls, rs, m - 1, atom);
        lemma_some_covers_sound(ls, ls.len() as int, rs[m - 1], atom);
    }
}

proof fn lemma_within_some_sound(l: Cond, rs: Seq<Cond>, m: int, atom: spec_fn(Cond) -> bool)
    requires
        honours_domains(atom),
        0 <= m <= rs.len(),
        within_some(l, rs, m),
        holds(l, atom),
    ensures
        exists|j: int| 0 <= j < m && #[trigger] holds(rs[j], atom),
    decreases l, 1int, m,
{
    if m > 0 {
        if is_subset(l, rs[m - 1]) {
            subset_is_sound(l, rs[m - 1], atom);
            assert(holds(rs[m - 1], atom));
        } else {
            lemma_within_some_sound(l, rs, m - 1, atom);
            let j = choose|j: int| 0 <= j < m - 1 && #[trigger] holds(rs[j], atom);
            assert(holds(rs[j], atom));
        }
    }
}

proof fn lemma_each_within_sound(
    ls: Seq<Cond>,
    n: int,
    rs: Seq<Cond>,
    i: int,
    atom: spec_fn(Cond) -> bool,
)
    requires
        honours_domains(atom),
        0 <= i < n <= ls.len(),
        each_within(ls, n, rs),
        holds(ls[i], atom),
    ensures
        exists|j: int| 0 <= j < rs.len() && #[trigger] holds(rs[j], atom),
    decreases ls, 2int, n,
{
    if i == n - 1 {
        lemma_within_some_sound(ls[i], rs, rs.len() as int, atom);
    } else {
        lemma_each_within_sound(ls, n - 1, rs, i, atom);
    }
}

/// Where the subset test reports `l` as a subset of `r`, every URL that `l`
/// matches is matched by `r`: under every valuation that honours the rules
/// on domains, `l` holds only where `r` holds.
pub proof fn subset_is_sound(l: Cond, r: Cond, atom: spec_fn(Cond) -> bool)
    requires
        honours_domains(atom),
        is_subset(l, r),
    ensures
        holds(l, atom) ==> holds(r, atom),
    decreases l, 0int, 0int,
{
    if l != r && holds(l, atom) {
        match (l, r) {
            (Cond::Never, _) => {},
            (_, Cond::Always) => {},
            (Cond::All(ls), Cond::All(rs)) => {
                lemma_holds_all(ls, atom);
                lemma_holds_all(rs, atom);
                lemma_each_covered_sound(ls, rs, rs.len() as int, atom);
            },
            (Cond::Any(ls), Cond::Any(rs)) => {
                lemma_holds_any(ls, atom);
                lemma_holds_any(rs, atom);
                let i = choose|i: int| 0 <= i < ls.len() && #[trigger] holds(ls[i], atom);
                lemma_each_within_sound(ls, ls.len() as int, rs, i, atom);
            },
            _ => {
                assert(domain_subset(l, r));
            },
        }
    }
}

} // verus!
