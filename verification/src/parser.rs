//! Compilers from the textual fields of a filter rule to conditions and
//! actions, and the assembly of one rule from its compiled fields.

use vstd::prelude::*;
use crate::model::{Cond, Condition, Mapper, MapperView, Rule, RuleView, conds_of};
use crate::parser::domain::{domain_glob, domain_glob_to_condition, domain_list,
    domains_to_condition};
use crate::parser::path::{path_glob, path_glob_to_condition};
use crate::parser::query::{QueryFailure, QueryToConditionError, query_cond, query_to_condition};
use crate::parser::removeparam::{ParseRemoveParamError, RemoveParam, RemoveParamFailure,
    action_of, remove_param};
use crate::simplify::{simplified, simplify_rule};

pub mod domain;
pub mod modifiers;
pub mod path;
pub mod query;
pub mod regex;
pub mod removeparam;

verus! {

/// A wildcard stands where no compiler gives it a meaning.
#[derive(Debug, Clone, Copy, PartialEq, Eq, Structural)]
pub struct PatternUnsupported;

/// The compiled fields of one filter rule.
#[derive(Debug)]
pub struct AdGuardRule {
    /// Whether the rule is an exception.
    pub negation: bool,
    pub host: Option<Condition>,
    pub path: Option<Condition>,
    pub query: Option<Condition>,
    pub removeparam: Option<Mapper>,
    pub domains: Option<Condition>,
}

/// The field of a filter rule that could not be compiled, with its error.
#[derive(Debug)]
pub enum AdGuardFieldError {
    Host(PatternUnsupported),
    Path(PatternUnsupported),
    Query(QueryToConditionError),
    RemoveParam(ParseRemoveParamError),
    Domains(PatternUnsupported),
}

/// The value of an optional condition.
pub open spec fn opt_cond(o: Option<Condition>) -> Option<Cond> {
    match o {
        Some(c) => Some(c@),
        None => None,
    }
}

/// The characters of an optional string slice.
pub open spec fn opt_str(o: Option<&str>) -> Option<Seq<char>> {
    match o {
        Some(s) => Some(s@),
        None => None,
    }
}

/// Whether the host pattern, where there is one, has a meaning.
pub open spec fn host_ok(unqualified: bool, host: Option<Seq<char>>) -> bool {
    host is Some ==> domain_glob(unqualified, host->Some_0) is Some
}

/// Whether the path pattern, where there is one, has a meaning.
pub open spec fn path_ok(path: Option<Seq<char>>) -> bool {
    path is Some ==> path_glob(path->Some_0) is Some
}

/// Whether the query pattern, where there is one, has a meaning.
pub open spec fn query_ok(query: Option<Seq<char>>) -> bool {
    query is Some ==> query_cond(query->Some_0) is Ok
}

/// Whether the remove-parameter directive, where there is one, has a
/// meaning.
pub open spec fn removeparam_ok(removeparam: Option<Seq<char>>) -> bool {
    removeparam is Some ==> remove_param(removeparam->Some_0) is Ok
}

/// Whether the domain list, where there is one, has a meaning.
pub open spec fn domains_ok(domains: Option<Seq<char>>) -> bool {
    domains is Some ==> domain_list(domains->Some_0) is Some
}

impl AdGuardRule {
    /// Compiles the fields that the rule grammar found in one line.
    ///
    /// Succeeds exactly where every field that is present has a meaning,
    /// and then holds the meaning of each. Otherwise the error names the
    /// first field without one, in the order host, path, query, remove
    /// parameter, domains.
    pub fn from_fields(
        negation: bool,
        unqualified: bool,
        host: Option<&str>,
        path: Option<&str>,
        query: Option<&str>,
        removeparam: Option<&str>,
        domains: Option<&str>,
    ) -> (r: Result<AdGuardRule, AdGuardFieldError>)
        ensures
            r is Ok <==> host_ok(unqualified, opt_str(host)) && path_ok(opt_str(path)) && query_ok(
                opt_str(query),
            ) && removeparam_ok(opt_str(removeparam)) && domains_ok(opt_str(domains)),
            r is Ok ==> {
                let rule = r->Ok_0;
                &&& rule.negation == negation
                &&& rule.host is Some == host is Some
                &&& (host is Some ==> Some(rule.host->Some_0@) == domain_glob(
                    unqualified,
                    host->Some_0@,
                ))
                &&& rule.path is Some == path is Some
                &&& (path is Some ==> Some(rule.path->Some_0@) == path_glob(path->Some_0@))
                &&& rule.query is Some == query is Some
                &&& (query is Some ==> Ok::<Cond, QueryFailure>(rule.query->Some_0@) == query_cond(
                    query->Some_0@,
                ))
                &&& rule.removeparam is Some == removeparam is Some
                &&& (removeparam is Some ==> remove_param(removeparam->Some_0@) is Ok
                    && rule.removeparam->Some_0@ == action_of(
                    remove_param(removeparam->Some_0@)->Ok_0,
                ))
                &&& rule.domains is Some == domains is Some
                &&& (domains is Some ==> Some(rule.domains->Some_0@) == domain_list(
                    domains->Some_0@,
                ))
            },
            r is Err ==> match r->Err_0 {
                AdGuardFieldError::Host(_) => !host_ok(unqualified, opt_str(host)),
                AdGuardFieldError::Path(_) => host_ok(unqualified, opt_str(host)) && !path_ok(
                    opt_str(path),
                ),
                AdGuardFieldError::Query(e) => host_ok(unqualified, opt_str(host)) && path_ok(
                    opt_str(path),
                ) && query is Some && query_cond(query->Some_0@) == Err::<Cond, QueryFailure>(e@),
                AdGuardFieldError::RemoveParam(e) => host_ok(unqualified, opt_str(host))
                    && path_ok(opt_str(path)) && query_ok(opt_str(query)) && removeparam is Some
                    && remove_param(removeparam->Some_0@) == Err::<
                    crate::parser::removeparam::RemoveParamView,
                    RemoveParamFailure,
                >(e@),
                AdGuardFieldError::Domains(_) => host_ok(unqualified, opt_str(host)) && path_ok(
                    opt_str(path),
                ) && query_ok(opt_str(query)) && removeparam_ok(opt_str(removeparam))
                    && !domains_ok(opt_str(domains)),
            },
    {
        let host = match host {
            None => None,
            Some(h) => match domain_glob_to_condition(unqualified, h) {
                Ok(c) => Some(c),
                Err(e) => {
                    return Err(AdGuardFieldError::Host(e));
                },
            },
        };
        let path = match path {
            None => None,
            Some(p) => match path_glob_to_condition(p) {
                Ok(c) => Some(c),
                Err(e) => {
                    return Err(AdGuardFieldError::Path(e));
                },
            },
        };
        let query = match query {
            None => None,
            Some(q) => match query_to_condition(q) {
                Ok(c) => Some(c),
                Err(e) => {
                    return Err(AdGuardFieldError::Query(e));
                },
            },
        };
        let removeparam = match removeparam {
            None => None,
            Some(p) => match RemoveParam::from_str(p) {
                Ok(parsed) => Some(Mapper::from_remove_param(parsed)),
                Err(e) => {
                    return Err(AdGuardFieldError::RemoveParam(e));
                },
            },
        };
        let domains = match domains {
            None => None,
            Some(d) => match domains_to_condition(d) {
                Ok(c) => Some(c),
                Err(e) => {
                    return Err(AdGuardFieldError::Domains(e));
                },
            },
        };
        Ok(AdGuardRule { negation, host, path, query, removeparam, domains })
    }
}

/// The members that an optional condition adds to a list: itself, or none.
pub open spec fn opt_member(o: Option<Cond>) -> Seq<Cond> {
    match o {
        Some(c) => seq![c],
        None => Seq::empty(),
    }
}

/// The condition of a rule before simplification: `All` of where the rule
/// applies, its path and its query. Where it applies is `Any` of its host
/// and its domain list, or of `Always` alone where it has neither.
pub open spec fn assembled(
    host: Option<Cond>,
    domains: Option<Cond>,
    path: Option<Cond>,
    query: Option<Cond>,
) -> Cond {
    let anywhere = if host is None && domains is None {
        seq![Cond::Always]
    } else {
        Seq::<Cond>::empty()
    };
    let hosts = anywhere + opt_member(host) + opt_member(domains);
    Cond::All(seq![Cond::Any(hosts)] + opt_member(path) + opt_member(query))
}

/// The rule that compiled fields stand for: the simplified form of their
/// assembled condition, with the remove-parameter action or, without one,
/// the action that does nothing.
pub open spec fn rule_of_fields(
    host: Option<Cond>,
    domains: Option<Cond>,
    path: Option<Cond>,
    query: Option<Cond>,
    removeparam: Option<MapperView>,
) -> RuleView {
    RuleView {
        condition: simplified(assembled(host, domains, path, query)),
        mapper: match removeparam {
            Some(m) => m,
            None => MapperView::NoOp,
        },
    }
}

/// Adds an optional condition to a list.
fn push_member(list: &mut Vec<Condition>, member: Option<Condition>)
    ensures
        conds_of(final(list)@) == conds_of(old(list)@) + opt_member(opt_cond(member)),
{
    match member {
        Some(c) => {
            list.push(c);
            assert(conds_of(list@) =~= conds_of(old(list)@) + seq![c@]);
        },
        None => {
            assert(conds_of(list@) =~= conds_of(old(list)@) + Seq::<Cond>::empty());
        },
    }
}

impl AdGuardRule {
    /// Assembles the rule that the compiled fields stand for.
    pub fn into_rule(self) -> (r: Rule)
        ensures
            r@ == rule_of_fields(
                opt_cond(self.host),
                opt_cond(self.domains),
                opt_cond(self.path),
                opt_cond(self.query),
                match self.removeparam {
                    Some(m) => Some(m@),
                    None => None,
                },
            ),
    {
        let AdGuardRule { negation: _, host, path, query, removeparam, domains } = self;
        let mut hosts: Vec<Condition> = Vec::new();
        if host.is_none() && domains.is_none() {
            hosts.push(Condition::Always);
        }
        assert(conds_of(hosts@) =~= (if host is None && domains is None {
            seq![Cond::Always]
        } else {
            Seq::<Cond>::empty()
        }));
        push_member(&mut hosts, host);
        push_member(&mut hosts, domains);
        let mut all: Vec<Condition> = Vec::new();
        all.push(Condition::Any(hosts));
        assert(conds_of(all@) =~= seq![Cond::Any(conds_of(hosts@))]);
        push_member(&mut all, path);
        push_member(&mut all, query);
        let mapper = match removeparam {
            Some(m) => m,
            None => Mapper::NoOp,
        };
        simplify_rule(Rule::Normal { condition: Condition::All(all), mapper })
    }
}

} // verus!
