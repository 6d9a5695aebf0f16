//! The rule `scope-enum`: which scopes a commit may have.

use vstd::prelude::*;
use vstd::string::*;
use crate::parser::{Commit, CommitView};
use crate::rules::diagnostic::{
    label_field, labels_at, outcome_view, violation, Diagnostic, DiagnosticView,
};
use crate::rules::{Condition, EnumOpts, Severity};
use crate::wording::{join, joined, texts};

verus! {

/// The rule on the value of the scope. With the condition `Never` the list
/// holds the scopes that are not allowed, with `Always` those that are. A
/// commit without a scope keeps the rule, and so does every commit where the
/// list is empty.
#[derive(Clone, Debug)]
pub struct ScopeEnumRule {
    pub opts: EnumOpts,
}

/// Whether a scope of the given membership breaks the condition: `Never`
/// asks that the scope is not in the list, `Always` that it is.
pub open spec fn membership_violates(condition: Condition, member: bool) -> bool {
    match condition {
        Condition::Never => member,
        Condition::Always => !member,
    }
}

/// The help text of the rule, for a condition and a list.
pub open spec fn enum_help(condition: Condition, list: Seq<Seq<char>>) -> Seq<char> {
    "scope must"@ + (match condition {
        Condition::Never => " not"@,
        Condition::Always => ""@,
    }) + " be one of "@ + joined(list, ", "@)
}

/// Tells whether the list holds the text.
pub fn contains_text(list: &Vec<String>, text: &String) -> (r: bool)
    ensures
        r == texts(list@).contains(text@),
{
    let mut i: usize = 0;
    while i < list.len()
        invariant
            i <= list@.len(),
            forall|j: int| 0 <= j < i ==> texts(list@)[j] != text@,
        decreases list@.len() - i,
    {
        if list[i] == *text {
            assert(texts(list@)[i as int] == text@);
            return true;
        }
        i = i + 1;
    }
    false
}

impl ScopeEnumRule {
    /// The scopes of the list.
    pub open spec fn list(&self) -> Seq<Seq<char>> {
        texts(self.opts.2@)
    }

    /// Whether the commit breaks the rule, whatever the severity.
    pub open spec fn violated(&self, commit: CommitView) -> bool {
        match commit.scope {
            Some(scope) => self.list().len() > 0 && membership_violates(
                self.opts.1,
                self.list().contains(scope.text),
            ),
            None => false,
        }
    }

    /// What the rule reports of a commit: nothing where the rule is off or the
    /// commit keeps it, else a diagnostic of the rule's severity that points
    /// at the scope and tells the list.
    pub open spec fn outcome(&self, commit: CommitView) -> Option<DiagnosticView> {
        if self.opts.0 == Severity::Off || !self.violated(commit) {
            None
        } else {
            Some(
                DiagnosticView {
                    severity: self.opts.0,
                    code: "rule/scope-enum"@,
                    message: "Scope not allowed"@,
                    help: enum_help(self.opts.1, self.list()),
                    labels: labels_at(commit.scope, "not allowed scope"@),
                    source: commit.raw,
                },
            )
        }
    }

    /// Evaluates the rule on a commit.
    pub fn run(&self, commit: &Commit) -> (r: Option<Diagnostic>)
        ensures
            outcome_view(r) == self.outcome(commit@),
    {
        let severity = self.opts.0;
        let condition = self.opts.1;
        let scopes = &self.opts.2;
        if severity == Severity::Off || scopes.len() == 0 {
            return None;
        }
        match &commit.scope {
            Some(scope) => {
                let is_in_scopes = contains_text(scopes, &scope.to_string());
                let is_valid = match condition {
                    Condition::Never => !is_in_scopes,
                    Condition::Always => is_in_scopes,
                };
                if is_valid {
                    return None;
                }
                let mut help = String::from_str("scope must");
                match condition {
                    Condition::Never => help.append(" not"),
                    Condition::Always => help.append(""),
                }
                help.append(" be one of ");
                help.append(join(scopes, ", ").as_str());
                let labels = label_field(&commit.scope, "not allowed scope");
                Some(
                    violation(severity, "rule/scope-enum", "Scope not allowed", help, labels, &commit.raw),
                )
            },
            None => None,
        }
    }
}

} // verus!
