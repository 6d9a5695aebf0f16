//! The style rules: their options, the diagnostics they give, and the runner
//! that evaluates a list of them on one commit.

use vstd::prelude::*;
use vstd::string::*;

pub mod body_empty;
pub mod config;
pub mod diagnostic;
pub mod laws;
pub mod runner;
pub mod scope_empty;
pub mod scope_enum;
pub mod scope_max_length;

pub use config::{RulesConfig, RulesDetails};
pub use diagnostic::{Diagnostic, Label};
pub use runner::{run, LintResult, Rule};

verus! {

/// Severity of the rule
#[derive(Clone, Copy, Debug, PartialEq, Eq, Structural)]
pub enum Severity {
    /// Turn off the rule
    Off,
    /// Warn about the violation of a rule
    Warning,
    /// Error about the violation of a rule
    Error,
}

/// When the rule should be applied
#[derive(Clone, Copy, Debug, PartialEq, Eq, Structural)]
pub enum Condition {
    /// The options should "never" be found (e.g. in a list of disallowed values)
    Never,
    /// The options should "always" be found (e.g. in a list of allowed values)
    Always,
}

/// Options for all rules without options
#[derive(Clone, Copy, Debug)]
pub struct NoOpts(pub Severity, pub Condition);

/// Options for all enum rules
#[derive(Clone, Debug)]
pub struct EnumOpts(pub Severity, pub Condition, pub Vec<String>);

/// Options for all length rules
#[derive(Clone, Copy, Debug)]
pub struct LengthOpts(pub Severity, pub usize);

/// What a condition asks of a field that may be there or not: `Never` that it
/// is never empty, `Always` that it is always empty. This tells whether a
/// field that is present (or absent) breaks the condition.
pub open spec fn presence_violates(condition: Condition, present: bool) -> bool {
    match condition {
        Condition::Never => !present,
        Condition::Always => present,
    }
}

/// Tells whether a field that is present (or absent) breaks the condition.
pub fn breaks_presence(condition: Condition, present: bool) -> (r: bool)
    ensures
        r == presence_violates(condition, present),
{
    match condition {
        Condition::Never => !present,
        Condition::Always => present,
    }
}

/// The end of the help text of a rule on the presence of a field.
pub open spec fn presence_wording(condition: Condition) -> Seq<char> {
    match condition {
        Condition::Never => " may not be empty"@,
        Condition::Always => " must be empty"@,
    }
}

/// The help text of a rule on the presence of the field called `field`.
pub fn presence_help(field: &str, condition: Condition) -> (r: String)
    ensures
        r@ == field@ + presence_wording(condition),
{
    let mut help = String::from_str(field);
    match condition {
        Condition::Never => help.append(" may not be empty"),
        Condition::Always => help.append(" must be empty"),
    }
    help
}

} // verus!
