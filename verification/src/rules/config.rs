//! The options of all rules, as a configuration holds them.

use vstd::prelude::*;
use crate::rules::body_empty::BodyEmptyRule;
use crate::rules::runner::Rule;
use crate::rules::scope_empty::ScopeEmptyRule;
use crate::rules::scope_enum::ScopeEnumRule;
use crate::rules::scope_max_length::ScopeMaxLengthRule;
use crate::rules::{EnumOpts, LengthOpts, NoOpts};

verus! {

/// Config all the rules
#[derive(Clone, Debug)]
pub struct RulesDetails {
    /// The options of `scope-empty`.
    pub scope_empty: NoOpts,
    /// The options of `scope-enum`.
    pub scope_enum: EnumOpts,
    /// The options of `scope-max-length`.
    pub scope_max_length: LengthOpts,
    /// The options of `body-empty`.
    pub body_empty: NoOpts,
}

/// Config
#[derive(Clone, Debug)]
pub struct RulesConfig {
    pub rules: RulesDetails,
}

impl RulesConfig {
    /// The rules of the configuration, in the order in which they run.
    pub open spec fn rule_list(self) -> Seq<Rule> {
        seq![
            Rule::ScopeEmpty(ScopeEmptyRule { opts: self.rules.scope_empty }),
            Rule::ScopeEnum(ScopeEnumRule { opts: self.rules.scope_enum }),
            Rule::ScopeMaxLength(ScopeMaxLengthRule { opts: self.rules.scope_max_length }),
            Rule::BodyEmpty(BodyEmptyRule { opts: self.rules.body_empty }),
        ]
    }

    /// Makes the rules of the configuration, in the order in which they run.
    pub fn rule_set(self) -> (r: Vec<Rule>)
        ensures
            r@ == self.rule_list(),
    {
        let mut rules: Vec<Rule> = Vec::new();
        rules.push(Rule::ScopeEmpty(ScopeEmptyRule { opts: self.rules.scope_empty }));
        rules.push(Rule::ScopeEnum(ScopeEnumRule { opts: self.rules.scope_enum }));
        rules.push(Rule::ScopeMaxLength(ScopeMaxLengthRule { opts: self.rules.scope_max_length }));
        rules.push(Rule::BodyEmpty(BodyEmptyRule { opts: self.rules.body_empty }));
        assert(rules@ =~= self.rule_list());
        rules
    }
}

} // verus!
