//! Subsumption: a sound, incomplete test of whether every URL
//! that one condition matches is matched by another.

use vstd::prelude::*;
use crate::model::{Cond, Condition, conds_of};
use crate::compare::same_condition;
use crate::text::{ends_with_chars, ends_with_labels, labels_end_with, to_chars};

verus! {

/// The public suffix that the public suffix list gives for `domain`, if it
/// gives one.
pub uninterp spec fn public_suffix(domain: Seq<char>) -> Option<Seq<char>>;

/// Looks `domain` up with `psl::suffix_str` and copies the suffix it
/// returns. The contract claims only that the answer is a fixed function of
/// the domain.
#[verifier::external_body]
pub(crate) fn public_suffix_of(domain: &str) -> (r: Option<String>)
    ensures
        match r {
            Some(s) => public_suffix(domain@) == Some(s@),
            None => public_suffix(domain@) is None,
        },
{
    match psl::suffix_str(domain) {
        Some(s) => Some(s.to_owned()),
        None => None,
    }
}

/// `domain` without the given suffix and the dot before it; `None` where
/// there is no suffix, where `domain` does not end with it, or where no dot
/// stands before it.
pub open spec fn without_suffix(domain: Seq<char>, suffix: Option<Seq<char>>) -> Option<
    Seq<char>,
> {
    match suffix {
        None => None,
        Some(sfx) => {
            let cut = domain.len() - sfx.len();
            if cut >= 1 && domain.skip(cut) == sfx && domain[cut - 1] == '.' {
                Some(domain.take(cut - 1))
            } else {
                None
            }
        },
    }
}

/// The organizational part of `domain`: what stands before its public
/// suffix and the dot in front of that.
pub open spec fn organizational(domain: Seq<char>) -> Option<Seq<char>> {
    without_suffix(domain, public_suffix(domain))
}

/// The length of `domain` without `suffix` and the dot before it.
pub fn strip_suffix_len(domain: &Vec<char>, suffix: &Option<String>) -> (r: Option<usize>)
    ensures
        match without_suffix(domain@, crate::model::opt_chars(*suffix)) {
            Some(o) => r is Some && r->Some_0 == o.len() && o == domain@.take(r->Some_0 as int)
                && r->Some_0 < domain@.len(),
            None => r is None,
        },
{
    match suffix {
        None => None,
        Some(s) => {
            let sfx = to_chars(s.as_str());
            let n: usize = domain.len();
            proof {
                if sfx@.len() <= n {
                    assert(domain@.subrange(n - sfx@.len(), n as int) =~= domain@.skip(
                        n - sfx@.len(),
                    ));
                }
            }
            if !ends_with_chars(domain, n, &sfx) {
                proof {
                    if sfx@.len() > n {
                        assert(domain@.len() - sfx@.len() < 1);
                    }
                }
                return None;
            }
            let cut: usize = n - sfx.len();
            if cut >= 1 && domain[cut - 1] == '.' {
                Some(cut - 1)
            } else {
                None
            }
        },
    }
}

/// The rules that relate two conditions of different kinds, all of them on
/// domains:
/// an exact domain is within a domain-or-subdomains where the labels of the
/// second are the last labels of the first; within an exact
/// name-with-any-suffix where its organizational part is that name; within
/// a name-or-subdomains-with-any-suffix where the labels of that name are
/// the last labels of its organizational part; and a domain-or-subdomains is
/// within a name-or-subdomains-with-any-suffix under the same test.
pub open spec fn domain_subset(l: Cond, r: Cond) -> bool {
    match (l, r) {
        (Cond::QualifiedDomain(a), Cond::UnqualifiedDomain(b)) => ends_with_labels(a, b),
        (Cond::QualifiedDomain(a), Cond::QualifiedAnyTld(b)) => organizational(a) == Some(b),
        (Cond::QualifiedDomain(a), Cond::UnqualifiedAnyTld(b)) => organizational(a) is Some
            && ends_with_labels(organizational(a)->Some_0, b),
        (Cond::UnqualifiedDomain(a), Cond::UnqualifiedAnyTld(b)) => organizational(a) is Some
            && ends_with_labels(organizational(a)->Some_0, b),
        _ => false,
    }
}

/// Whether the subset test reports `l` as a subset of `r`.
///
/// Equal conditions are subsets of each other; `Never` is a subset of
/// everything and everything of `Always`. An `All` is a subset of an `All`
/// with no more members, each of which has a member of the first within it.
/// An `Any` is a subset of an `Any` with no fewer members where each member
/// of the first is within one of the second. Between other kinds only the
/// rules of [`domain_subset`] apply.
pub open spec fn is_subset(l: Cond, r: Cond) -> bool
    decreases l, 0int, 0int,
{
    if l == r {
        true
    } else {
        match (l, r) {
            (Cond::Never, _) => true,
            (_, Cond::Always) => true,
            (Cond::All(ls), Cond::All(rs)) => ls.len() >= rs.len() && each_covered(
                ls,
                rs,
                rs.len() as int,
            ),
            (Cond::Any(ls), Cond::Any(rs)) => ls.len() <= rs.len() && each_within(
                ls,
                ls.len() as int,
                rs,
            ),
            _ => domain_subset(l, r),
        }
    }
}

/// Whether each of the first `m` members of `rs` has a member of `ls`
/// within it.
pub open spec fn each_covered(ls: Seq<Cond>, rs: Seq<Cond>, m: int) -> bool
    decreases ls, 2int, m,
{
    if m <= 0 || m > rs.len() {
        true
    } else {
        some_covers(ls, ls.len() as int, rs[m - 1]) && each_covered(ls, rs, m - 1)
    }
}

/// Whether one of the first `n` members of `ls` is a subset of `r`.
pub open spec fn some_covers(ls: Seq<Cond>, n: int, r: Cond) -> bool
    decreases ls, 1int, n,
{
    if n <= 0 || n > ls.len() {
        false
    } else {
        is_subset(ls[n - 1], r) || some_covers(ls, n - 1, r)
    }
}

/// Whether each of the first `n` members of `ls` is a subset of a member of
/// `rs`.
pub open spec fn each_within(ls: Seq<Cond>, n: int, rs: Seq<Cond>) -> bool
    decreases ls, 2int, n,
{
    if n <= 0 || n > ls.len() {
        true
    } else {
        within_some(ls[n - 1], rs, rs.len() as int) && each_within(ls, n - 1, rs)
    }
}

/// Whether `l` is a subset of one of the first `m` members of `rs`.
pub open spec fn within_some(l: Cond, rs: Seq<Cond>, m: int) -> bool
    decreases l, 1int, m,
{
    if m <= 0 || m > rs.len() {
        false
    } else {
        is_subset(l, rs[m - 1]) || within_some(l, rs, m - 1)
    }
}

/// Whether the labels of `name` are the last labels of the organizational
/// part of `domain`, given the public suffix found for `domain`.
pub fn organizational_ends_with(domain: &str, suffix: &Option<String>, name: &str) -> (r: bool)
    ensures
        r == match without_suffix(domain@, crate::model::opt_chars(*suffix)) {
            Some(o) => ends_with_labels(o, name@),
            None => false,
        },
{
    let d = to_chars(domain);
    match strip_suffix_len(&d, suffix) {
        Some(len) => labels_end_with(&d, len, &to_chars(name)),
        None => false,
    }
}

/// Whether the organizational part of `domain` is `name`, given the public
/// suffix found for `domain`.
pub fn organizational_is(domain: &str, suffix: &Option<String>, name: &str) -> (r: bool)
    ensures
        r == (without_suffix(domain@, crate::model::opt_chars(*suffix)) == Some(name@)),
{
    let d = to_chars(domain);
    let t = to_chars(name);
    match strip_suffix_len(&d, suffix) {
        Some(len) => {
            let r = t.len() == len && ends_with_chars(&d, len, &t);
            proof {
                if t@.len() == len {
                    assert(d@.subrange(len - t@.len(), len as int) =~= d@.take(len as int));
                }
            }
            r
        },
        None => false,
    }
}

fn covers_some(ls: &Vec<Condition>, r: &Condition) -> (b: bool)
    ensures
        b == some_covers(conds_of(ls@), ls@.len() as int, r@),
    decreases ls@, 1int,
{
    let mut i: usize = 0;
    while i < ls.len()
        invariant
            i <= ls@.len(),
            !some_covers(conds_of(ls@), i as int, r@),
        decreases ls@.len() - i,
    {
        assert(conds_of(ls@)[i as int] == ls@[i as int]@);
        if condition_is_partial_non_strict_subset(&ls[i], r) {
            proof {
                lemma_some_covers_grows(conds_of(ls@), i as int + 1, ls@.len() as int, r@);
            }
            return true;
        }
        i += 1;
    }
    false
}

proof fn lemma_some_covers_grows(ls: Seq<Cond>, n: int, m: int, r: Cond)
    requires
        0 <= n <= m <= ls.len(),
        some_covers(ls, n, r),
    ensures
        some_covers(ls, m, r),
    decreases m - n,
{
    if n < m {
        lemma_some_covers_grows(ls, n, m - 1, r);
    }
}

proof fn lemma_within_some_grows(l: Cond, rs: Seq<Cond>, n: int, m: int)
    requires
        0 <= n <= m <= rs.len(),
        within_some(l, rs, n),
    ensures
        within_some(l, rs, m),
    decreases m - n,
{
    if n < m {
        lemma_within_some_grows(l, rs, n, m - 1);
    }
}

proof fn lemma_each_covered_fails(ls: Seq<Cond>, rs: Seq<Cond>, n: int, m: int)
    requires
        0 <= n <= m <= rs.len(),
        !each_covered(ls, rs, n),
    ensures
        !each_covered(ls, rs, m),
    decreases m - n,
{
    if n < m {
        lemma_each_covered_fails(ls, rs, n, m - 1);
    }
}

proof fn lemma_each_within_fails(ls: Seq<Cond>, n: int, m: int, rs: Seq<Cond>)
    requires
        0 <= n <= m <= ls.len(),
        !each_within(ls, n, rs),
    ensures
        !each_within(ls, m, rs),
    decreases m - n,
{
    if n < m {
        lemma_each_within_fails(ls, n, m - 1, rs);
    }
}

fn all_covered(ls: &Vec<Condition>, rs: &Vec<Condition>) -> (b: bool)
    ensures
        b == each_covered(conds_of(ls@), conds_of(rs@), rs@.len() as int),
    decreases ls@, 2int,
{
    let mut j: usize = 0;
    while j < rs.len()
        invariant
            j <= rs@.len(),
            each_covered(conds_of(ls@), conds_of(rs@), j as int),
        decreases rs@.len() - j,
    {
        assert(conds_of(rs@)[j as int] == rs@[j as int]@);
        if !covers_some(ls, &rs[j]) {
            proof {
                lemma_each_covered_fails(
                    conds_of(ls@),
                    conds_of(rs@),
                    j as int + 1,
                    rs@.len() as int,
                );
            }
            return false;
        }
        j += 1;
    }
    true
}

fn within_one(l: &Condition, rs: &Vec<Condition>) -> (b: bool)
    ensures
        b == within_some(l@, conds_of(rs@), rs@.len() as int),
    decreases l, 1int,
{
    let mut j: usize = 0;
    while j < rs.len()
        invariant
            j <= rs@.len(),
            !within_some(l@, conds_of(rs@), j as int),
        decreases rs@.len() - j,
    {
        assert(conds_of(rs@)[j as int] == rs@[j as int]@);
        if condition_is_partial_non_strict_subset(l, &rs[j]) {
            proof {
                lemma_within_some_grows(l@, conds_of(rs@), j as int + 1, rs@.len() as int);
            }
            return true;
        }
        j += 1;
    }
    false
}

fn all_within(ls: &Vec<Condition>, rs: &Vec<Condition>) -> (b: bool)
    ensures
        b == each_within(conds_of(ls@), ls@.len() as int, conds_of(rs@)),
    decreases ls@, 2int,
{
    let mut i: usize = 0;
    while i < ls.len()
        invariant
            i <= ls@.len(),
            each_within(conds_of(ls@), i as int, conds_of(rs@)),
        decreases ls@.len() - i,
    {
        assert(conds_of(ls@)[i as int] == ls@[i as int]@);
        if !within_one(&ls[i], rs) {
            proof {
                lemma_each_within_fails(
                    conds_of(ls@),
                    i as int + 1,
                    ls@.len() as int,
                    conds_of(rs@),
                );
            }
            return false;
        }
        i += 1;
    }
    true
}

/// Decides whether every URL that `left` matches is sure to be matched by
/// `right`. `true` is a proof; `false` only says that none was found.
///
/// The answer is [`is_subset`] of the two conditions.
pub fn condition_is_partial_non_strict_subset(left: &Condition, right: &Condition) -> (r: bool)
    ensures
        r == is_subset(left@, right@),
        left@ is Never ==> r,
        right@ is Always ==> r,
    decreases left, 0int,
{
    if same_condition(left, right) {
        return true;
    }
    match (left, right) {
        (Condition::Never, _) => true,
        (_, Condition::Always) => true,
        (Condition::All(ls), Condition::All(rs)) => {
            assert(conds_of(rs@).len() == rs@.len());
            assert(conds_of(ls@).len() == ls@.len());
            ls.len() >= rs.len() && all_covered(ls, rs)
        },
        (Condition::Any(ls), Condition::Any(rs)) => {
            assert(conds_of(rs@).len() == rs@.len());
            assert(conds_of(ls@).len() == ls@.len());
            ls.len() <= rs.len() && all_within(ls, rs)
        },
        (Condition::QualifiedDomain(l), Condition::UnqualifiedDomain(r)) => {
            let lc = to_chars(l.as_str());
            assert(lc@.take(lc@.len() as int) =~= lc@);
            labels_end_with(&lc, lc.len(), &to_chars(r.as_str()))
        },
        (Condition::QualifiedDomain(l), Condition::QualifiedAnyTld(r)) => {
            let suffix = public_suffix_of(l.as_str());
            organizational_is(l.as_str(), &suffix, r.as_str())
        },
        (Condition::QualifiedDomain(l), Condition::UnqualifiedAnyTld(r)) => {
            let suffix = public_suffix_of(l.as_str());
            organizational_ends_with(l.as_str(), &suffix, r.as_str())
        },
        (Condition::UnqualifiedDomain(l), Condition::UnqualifiedAnyTld(r)) => {
            let suffix = public_suffix_of(l.as_str());
            organizational_ends_with(l.as_str(), &suffix, r.as_str())
        },
        _ => false,
    }
}

/// `Never` is reported as a subset of every condition.
pub proof fn never_is_subset_of_all(x: Cond)
    ensures
        is_subset(Cond::Never, x),
{
}

/// Every condition is reported as a subset of `Always`.
pub proof fn all_are_subsets_of_always(x: Cond)
    ensures
        is_subset(x, Cond::Always),
{
}

} // verus!
