//! The runner: evaluates a list of rules on one commit and sorts what they
//! report into errors and warnings.

use vstd::prelude::*;
use crate::parser::{Commit, CommitView};
use crate::rules::body_empty::BodyEmptyRule;
use crate::rules::diagnostic::{outcome_view, Diagnostic, DiagnosticView};
use crate::rules::scope_empty::ScopeEmptyRule;
use crate::rules::scope_enum::ScopeEnumRule;
use crate::rules::scope_max_length::ScopeMaxLengthRule;
use crate::rules::Severity;

verus! {

/// One of the rules, with its options.
#[derive(Clone, Debug)]
pub enum Rule {
    ScopeEmpty(ScopeEmptyRule),
    ScopeEnum(ScopeEnumRule),
    ScopeMaxLength(ScopeMaxLengthRule),
    BodyEmpty(BodyEmptyRule),
}

impl Rule {
    /// The severity that the rule was given.
    pub open spec fn severity(&self) -> Severity {
        match self {
            Rule::ScopeEmpty(rule) => rule.opts.0,
            Rule::ScopeEnum(rule) => rule.opts.0,
            Rule::ScopeMaxLength(rule) => rule.opts.0,
            Rule::BodyEmpty(rule) => rule.opts.0,
        }
    }

    /// Whether the commit breaks the rule, whatever the severity.
    pub open spec fn violated(&self, commit: CommitView) -> bool {
        match self {
            Rule::ScopeEmpty(rule) => rule.violated(commit),
            Rule::ScopeEnum(rule) => rule.violated(commit),
            Rule::ScopeMaxLength(rule) => rule.violated(commit),
            Rule::BodyEmpty(rule) => rule.violated(commit),
        }
    }

    /// What the rule reports of a commit.
    pub open spec fn outcome(&self, commit: CommitView) -> Option<DiagnosticView> {
        match self {
            Rule::ScopeEmpty(rule) => rule.outcome(commit),
            Rule::ScopeEnum(rule) => rule.outcome(commit),
            Rule::ScopeMaxLength(rule) => rule.outcome(commit),
            Rule::BodyEmpty(rule) => rule.outcome(commit),
        }
    }

    /// Evaluates the rule on a commit.
    pub fn run(&self, commit: &Commit) -> (r: Option<Diagnostic>)
        ensures
            outcome_view(r) == self.outcome(commit@),
    {
        match self {
            Rule::ScopeEmpty(rule) => rule.run(commit),
            Rule::ScopeEnum(rule) => rule.run(commit),
            Rule::ScopeMaxLength(rule) => rule.run(commit),
            Rule::BodyEmpty(rule) => rule.run(commit),
        }
    }
}

/// What the diagnostics of a list are.
pub open spec fn diagnostic_views(list: Seq<Diagnostic>) -> Seq<DiagnosticView> {
    Seq::new(list.len(), |i: int| list[i]@)
}

/// The diagnostics of the given severity that the rules report of a commit,
/// in the order of the rules.
pub open spec fn reports(rules: Seq<Rule>, commit: CommitView, severity: Severity) -> Seq<
    DiagnosticView,
>
    decreases rules.len(),
{
    if rules.len() == 0 {
        Seq::empty()
    } else {
        let before = reports(rules.drop_last(), commit, severity);
        match rules.last().outcome(commit) {
            Some(d) => if d.severity == severity {
                before.push(d)
            } else {
                before
            },
            None => before,
        }
    }
}

/// What a linting pass found: the errors and the warnings, each in the order
/// of the rules that reported them.
#[derive(Debug)]
pub struct LintResult {
    errors: Option<Vec<Diagnostic>>,
    warnings: Option<Vec<Diagnostic>>,
}

/// The diagnostics of a collection that is missing while it is empty.
pub open spec fn collected(list: Option<Vec<Diagnostic>>) -> Seq<DiagnosticView> {
    match list {
        Some(list) => diagnostic_views(list@),
        None => Seq::empty(),
    }
}

/// Makes the collection of a list: none while the list is empty.
fn collect(list: Vec<Diagnostic>) -> (r: Option<Vec<Diagnostic>>)
    ensures
        collected(r) == diagnostic_views(list@),
        r is Some <==> list@.len() > 0,
{
    if list.len() == 0 {
        assert(diagnostic_views(list@) =~= Seq::empty());
        None
    } else {
        Some(list)
    }
}

impl LintResult {
    /// A collection is there only once it holds a diagnostic.
    #[verifier::type_invariant]
    spec fn well_formed(&self) -> bool {
        &&& self.errors is Some ==> self.errors->Some_0@.len() > 0
        &&& self.warnings is Some ==> self.warnings->Some_0@.len() > 0
    }

    /// The errors, in the order of the rules.
    pub closed spec fn error_views(&self) -> Seq<DiagnosticView> {
        collected(self.errors)
    }

    /// The warnings, in the order of the rules.
    pub closed spec fn warning_views(&self) -> Seq<DiagnosticView> {
        collected(self.warnings)
    }

    /// The errors, where there is any.
    pub fn errors(&self) -> (r: Option<&Vec<Diagnostic>>)
        ensures
            r is Some <==> self.error_views().len() > 0,
            r is Some ==> diagnostic_views(r->Some_0@) == self.error_views(),
    {
        proof {
            use_type_invariant(self);
        }
        self.errors.as_ref()
    }

    /// The number of errors.
    pub fn errors_len(&self) -> (r: usize)
        ensures
            r == self.error_views().len(),
    {
        match self.errors() {
            None => 0,
            Some(errors) => errors.len(),
        }
    }

    /// Whether there is an error.
    pub fn has_errors(&self) -> (r: bool)
        ensures
            r == (self.error_views().len() > 0),
    {
        self.errors().is_some()
    }

    /// The warnings, where there is any.
    pub fn warnings(&self) -> (r: Option<&Vec<Diagnostic>>)
        ensures
            r is Some <==> self.warning_views().len() > 0,
            r is Some ==> diagnostic_views(r->Some_0@) == self.warning_views(),
    {
        proof {
            use_type_invariant(self);
        }
        self.warnings.as_ref()
    }

    /// The number of warnings.
    pub fn warnings_len(&self) -> (r: usize)
        ensures
            r == self.warning_views().len(),
    {
        match self.warnings() {
            None => 0,
            Some(warnings) => warnings.len(),
        }
    }

    /// Whether there is a warning.
    pub fn has_warnings(&self) -> (r: bool)
        ensures
            r == (self.warning_views().len() > 0),
    {
        self.warnings().is_some()
    }
}

/// Runs the rules on a commit, each in its turn, and sorts what they report
/// by severity: the errors and the warnings of the result are the diagnostics
/// of these severities, in the order of the rules. A diagnostic of another
/// severity is dropped.
pub fn run(commit: &Commit, rules: &Vec<Rule>) -> (r: LintResult)
    ensures
        r.error_views() == reports(rules@, commit@, Severity::Error),
        r.warning_views() == reports(rules@, commit@, Severity::Warning),
{
    let mut errors: Vec<Diagnostic> = Vec::new();
    let mut warnings: Vec<Diagnostic> = Vec::new();
    let mut i: usize = 0;
    assert(diagnostic_views(errors@) =~= Seq::empty());
    assert(diagnostic_views(warnings@) =~= Seq::empty());
    assert(rules@.take(0) =~= Seq::empty());
    while i < rules.len()
        invariant
            i <= rules@.len(),
            diagnostic_views(errors@) == reports(rules@.take(i as int), commit@, Severity::Error),
            diagnostic_views(warnings@) == reports(
                rules@.take(i as int),
                commit@,
                Severity::Warning,
            ),
        decreases rules@.len() - i,
    {
        let ghost before_errors = errors@;
        let ghost before_warnings = warnings@;
        proof {
            let now = rules@.take(i as int + 1);
            assert(now.drop_last() =~= rules@.take(i as int));
            assert(now.last() == rules@[i as int]);
        }
        match rules[i].run(commit) {
            Some(report) => match report.severity {
                Severity::Error => {
                    errors.push(report);
                    assert(diagnostic_views(errors@) =~= diagnostic_views(before_errors).push(
                        report@,
                    ));
                },
                Severity::Warning => {
                    warnings.push(report);
                    assert(diagnostic_views(warnings@) =~= diagnostic_views(before_warnings).push(
                        report@,
                    ));
                },
                Severity::Off => {},
            },
            None => {},
        }
        i = i + 1;
    }
    assert(rules@.take(i as int) =~= rules@);
    LintResult { errors: collect(errors), warnings: collect(warnings) }
}

} // verus!
