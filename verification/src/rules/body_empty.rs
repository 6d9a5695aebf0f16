//! The rule `body-empty`: whether a commit must have a body.

use vstd::prelude::*;
use crate::parser::{Commit, CommitView};
use crate::rules::diagnostic::{
    label_field, labels_at, outcome_view, violation, Diagnostic, DiagnosticView,
};
use crate::rules::{
    breaks_presence, presence_help, presence_violates, presence_wording, NoOpts, Severity,
};

verus! {

/// The rule on the presence of the body. With the condition `Never` the
/// body may never be empty: a commit without a body breaks the rule. With
/// `Always` the body must always be empty: a commit with a body breaks it.
#[derive(Clone, Copy, Debug)]
pub struct BodyEmptyRule {
    pub opts: NoOpts,
}

impl BodyEmptyRule {
    /// Whether the commit breaks the rule, whatever the severity.
    pub open spec fn violated(&self, commit: CommitView) -> bool {
        presence_violates(self.opts.1, commit.body is Some)
    }

    /// What the rule reports of a commit: nothing where the rule is off or the
    /// commit keeps it, else a diagnostic of the rule's severity that points
    /// at the body, where there is one.
    pub open spec fn outcome(&self, commit: CommitView) -> Option<DiagnosticView> {
        if self.opts.0 == Severity::Off || !self.violated(commit) {
            None
        } else {
            Some(
                DiagnosticView {
                    severity: self.opts.0,
                    code: "rule/body-empty"@,
                    message: "Body"@,
                    help: "body"@ + presence_wording(self.opts.1),
                    labels: labels_at(commit.body, "not allowed body"@),
                    source: commit.raw,
                },
            )
        }
    }

    /// Evaluates the rule on a commit.
    pub fn run(&self, commit: &Commit) -> (r: Option<Diagnostic>)
        ensures
            outcome_view(r) == self.outcome(commit@),
    {
        let severity = self.opts.0;
        let condition = self.opts.1;
        if severity == Severity::Off {
            return None;
        }
        if !breaks_presence(condition, commit.body.is_some()) {
            return None;
        }
        let labels = label_field(&commit.body, "not allowed body");
        Some(
            violation(
                severity,
                "rule/body-empty",
                "Body",
                presence_help("body", condition),
                labels,
                &commit.raw,
            ),
        )
    }
}

} // verus!
