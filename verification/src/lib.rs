//! Compiles ad-filtering rules into boolean predicate trees paired with
//! rewrite actions, simplifies the trees, and decides a sound, incomplete
//! subset relation between them.

pub mod text;
pub mod model;
pub mod compare;
pub mod simplify;
pub mod semantics;
pub mod parser;
pub mod subset;
pub mod rules;
pub mod soundness;
pub mod eqmap;

pub use eqmap::EqMap;
pub use model::{Condition, Mapper, RegexConfig, RegexParts, Rule, Rules, StringLocation,
    StringMatcher, UrlPart};
pub use parser::domain::{domain_glob_to_condition, domains_to_condition};
pub use parser::modifiers::split_on_pipe_but_not_in_regex;
pub use parser::path::path_glob_to_condition;
pub use parser::query::{QueryToConditionError, query_to_condition};
pub use parser::regex::{UDERPError, un_double_escape_regex_pattern,
    un_double_escape_regex_pattern_strict};
pub use parser::removeparam::{ParseRemoveParamError, RemoveParam};
pub use parser::{AdGuardFieldError, AdGuardRule, PatternUnsupported};
pub use rules::{apply_exception, apply_exceptions, simplify_rules};
pub use simplify::{simplify_condition, simplify_mapper, simplify_rule};
pub use subset::condition_is_partial_non_strict_subset;
