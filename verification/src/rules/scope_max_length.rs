//! The rule `scope-max-length`: how long a scope may be.

use vstd::prelude::*;
use vstd::string::*;
use crate::parser::{Commit, CommitView};
use crate::rules::diagnostic::{
    label_field, labels_at, outcome_view, violation, Diagnostic, DiagnosticView,
};
use crate::rules::{LengthOpts, Severity};
use crate::wording::{decimal, decimal_string};

verus! {

/// The rule on the length of the scope: a scope of more characters than the
/// maximum breaks it. A commit without a scope keeps it.
#[derive(Clone, Copy, Debug)]
pub struct ScopeMaxLengthRule {
    pub opts: LengthOpts,
}

/// The help text of the rule, for a maximum and the length that was found.
pub open spec fn length_help(maximum: nat, current: nat) -> Seq<char> {
    "scope must not be longer than "@ + decimal(maximum) + " characters (current length: "@
        + decimal(current) + ")"@
}

impl ScopeMaxLengthRule {
    /// Whether the commit breaks the rule, whatever the severity.
    pub open spec fn violated(&self, commit: CommitView) -> bool {
        match commit.scope {
            Some(scope) => scope.text.len() > self.opts.1,
            None => false,
        }
    }

    /// What the rule reports of a commit: nothing where the rule is off or the
    /// commit keeps it, else a diagnostic of the rule's severity that points
    /// at the scope and tells the maximum and the length of the scope.
    pub open spec fn outcome(&self, commit: CommitView) -> Option<DiagnosticView> {
        if self.opts.0 == Severity::Off || !self.violated(commit) {
            None
        } else {
            Some(
                DiagnosticView {
                    severity: self.opts.0,
                    code: "rule/scope-max-length"@,
                    message: "Scope too long"@,
                    help: length_help(self.opts.1 as nat, commit.scope->Some_0.text.len()),
                    labels: labels_at(commit.scope, "not allowed scope"@),
                    source: commit.raw,
                },
            )
        }
    }

    /// Evaluates the rule on a commit.
    pub fn run(&self, commit: &Commit) -> (r: Option<Diagnostic>)
        ensures
            outcome_view(r) == self.outcome(commit@),
    {
        let severity = self.opts.0;
        let maximum = self.opts.1;
        if severity == Severity::Off {
            return None;
        }
        match &commit.scope {
            Some(scope) => {
                let current = scope.char_len();
                if current <= maximum {
                    return None;
                }
                let mut help = String::from_str("scope must not be longer than ");
                help.append(decimal_string(maximum).as_str());
                help.append(" characters (current length: ");
                help.append(decimal_string(current).as_str());
                help.append(")");
                let labels = label_field(&commit.scope, "not allowed scope");
                Some(
                    violation(
                        severity,
                        "rule/scope-max-length",
                        "Scope too long",
                        help,
                        labels,
                        &commit.raw,
                    ),
                )
            },
            None => None,
        }
    }
}

} // verus!
