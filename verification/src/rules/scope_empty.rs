//! The rule `scope-empty`: whether a commit must have a scope.

use vstd::prelude::*;
use crate::parser::{Commit, CommitView};
use crate::rules::diagnostic::{
    label_field, labels_at, outcome_view, violation, Diagnostic, DiagnosticView,
};
use crate::rules::{
    breaks_presence, presence_help, presence_violates, presence_wording, NoOpts, Severity,
};

verus! {

/// The rule on the presence of the scope. With the condition `Never` the
/// scope may never be empty: a commit without a scope breaks the rule. With
/// `Always` the scope must always be empty: a commit with a scope breaks it.
#[derive(Clone, Copy, Debug)]
pub struct ScopeEmptyRule {
    pub opts: NoOpts,
}

impl ScopeEmptyRule {
    /// Whether the commit breaks the rule, whatever the severity.
    pub open spec fn violated(&self, commit: CommitView) -> bool {
        presence_violates(self.opts.1, commit.scope is Some)
    }

    /// What the rule reports of a commit: nothing where the rule is off or the
    /// commit keeps it, else a diagnostic of the rule's severity that points
    /// at the scope, where there is one.
    pub open spec fn outcome(&self, commit: CommitView) -> Option<DiagnosticView> {
        if self.opts.0 == Severity::Off || !self.violated(commit) {
            None
        } else {
            Some(
                DiagnosticView {
                    severity: self.opts.0,
                    code: "rule/scope-empty"@,
                    message: "Scope"@,
                    help: "scope"@ + presence_wording(self.opts.1),
                    labels: labels_at(commit.scope, "not allowed scope"@),
                    source: commit.raw,
                },
            )
        }
    }

    /// Evaluates the rule on a commit.
    pub fn run(&self, commit: &Commit) -> (r: Option<Diagnostic>)
        ensures
            outcome_view(r) == self.outcome(commit@),
    {
        let severity = self.opts.0;
        let condition = self.opts.1;
        if severity == Severity::Off {
            return None;
        }
        if !breaks_presence(condition, commit.scope.is_some()) {
            return None;
        }
        let labels = label_field(&commit.scope, "not allowed scope");
        Some(
            violation(
                severity,
                "rule/scope-empty",
                "Scope",
                presence_help("scope", condition),
                labels,
                &commit.raw,
            ),
        )
    }
}

} // verus!
