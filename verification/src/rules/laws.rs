//! What holds of the rules and of the runner for every commit.

use vstd::prelude::*;
use crate::parser::CommitView;
use crate::rules::runner::{reports, Rule};
use crate::rules::scope_enum::ScopeEnumRule;
use crate::rules::scope_max_length::ScopeMaxLengthRule;
use crate::rules::Severity;

verus! {

/// A rule that is off reports nothing, whatever the commit: the severity is
/// looked at before anything else.
pub proof fn lemma_off_reports_nothing(rule: Rule, commit: CommitView)
    requires
        rule.severity() == Severity::Off,
    ensures
        rule.outcome(commit) is None,
{
}

/// A rule reports a commit if and only if it is not off and the commit
/// breaks it.
pub proof fn lemma_reports_what_is_violated(rule: Rule, commit: CommitView)
    ensures
        rule.outcome(commit) is Some <==> rule.severity() != Severity::Off && rule.violated(
            commit,
        ),
{
}

/// A diagnostic has the severity of the rule that gave it, which is a
/// warning or an error, and carries the raw text of the commit as its source.
pub proof fn lemma_diagnostic_mirrors_rule(rule: Rule, commit: CommitView)
    requires
        rule.outcome(commit) is Some,
    ensures
        rule.outcome(commit)->Some_0.severity == rule.severity(),
        rule.outcome(commit)->Some_0.severity != Severity::Off,
        rule.outcome(commit)->Some_0.source == commit.raw,
{
}

/// A label of a diagnostic points at the field that the rule is about: a
/// diagnostic has at most one label, and none where the field is missing.
pub proof fn lemma_labels_point_at_field(rule: Rule, commit: CommitView)
    requires
        rule.outcome(commit) is Some,
    ensures
        ({
            let labels = rule.outcome(commit)->Some_0.labels;
            let field = match rule {
                Rule::BodyEmpty(_) => commit.body,
                _ => commit.scope,
            };
            match field {
                Some(span) => labels.len() == 1 && labels[0].start == span.start && labels[0].end
                    == span.end,
                None => labels.len() == 0,
            }
        }),
{
}

/// The rules on the value and on the length of the scope report nothing of a
/// commit without a scope.
pub proof fn lemma_missing_scope_is_no_violation(rule: Rule, commit: CommitView)
    requires
        commit.scope is None,
        rule is ScopeEnum || rule is ScopeMaxLength,
    ensures
        rule.outcome(commit) is None,
{
}

/// The rule on the value of the scope reports nothing while its list is
/// empty, whatever the condition and the commit.
pub proof fn lemma_empty_list_is_inactive(rule: ScopeEnumRule, commit: CommitView)
    requires
        rule.opts.2@.len() == 0,
    ensures
        rule.outcome(commit) is None,
{
}

/// The rule on the length of the scope reports a scope if and only if the
/// scope has more characters than the maximum.
pub proof fn lemma_length_is_compared_with_maximum(rule: ScopeMaxLengthRule, commit: CommitView)
    requires
        rule.opts.0 != Severity::Off,
        commit.scope is Some,
    ensures
        rule.outcome(commit) is Some <==> commit.scope->Some_0.text.len() > rule.opts.1,
{
}

/// How many of the rules have the given severity and are broken by the
/// commit.
pub open spec fn violations(rules: Seq<Rule>, commit: CommitView, severity: Severity) -> nat
    decreases rules.len(),
{
    if rules.len() == 0 {
        0
    } else {
        let before = violations(rules.drop_last(), commit, severity);
        if rules.last().severity() == severity && rules.last().violated(commit) {
            before + 1
        } else {
            before
        }
    }
}

/// The runner reports one diagnostic for each rule that the commit breaks:
/// as many errors as rules of the severity error are broken, and as many
/// warnings as rules of the severity warning are.
pub proof fn lemma_one_diagnostic_for_each_violation(
    rules: Seq<Rule>,
    commit: CommitView,
    severity: Severity,
)
    requires
        severity != Severity::Off,
    ensures
        reports(rules, commit, severity).len() == violations(rules, commit, severity),
    decreases rules.len(),
{
    if rules.len() > 0 {
        lemma_one_diagnostic_for_each_violation(rules.drop_last(), commit, severity);
    }
}

/// No diagnostic has the severity off: what the runner would sort under it is
/// nothing.
pub proof fn lemma_no_report_is_off(rules: Seq<Rule>, commit: CommitView)
    ensures
        reports(rules, commit, Severity::Off).len() == 0,
    decreases rules.len(),
{
    if rules.len() > 0 {
        lemma_no_report_is_off(rules.drop_last(), commit);
    }
}

/// Rules that are all off report nothing.
pub proof fn lemma_all_off_reports_nothing(rules: Seq<Rule>, commit: CommitView, severity: Severity)
    requires
        forall|i: int| 0 <= i < rules.len() ==> (#[trigger] rules[i]).severity() == Severity::Off,
    ensures
        reports(rules, commit, severity).len() == 0,
    decreases rules.len(),
{
    if rules.len() > 0 {
        assert forall|i: int| 0 <= i < rules.drop_last().len() implies (
        #[trigger] rules.drop_last()[i]).severity() == Severity::Off by {
            assert(rules.drop_last()[i] == rules[i]);
        }
        lemma_all_off_reports_nothing(rules.drop_last(), commit, severity);
        assert(rules.last() == rules[rules.len() - 1]);
    }
}

/// No rule depends on another: what two lists of rules report one after the
/// other is what the first reports, followed by what the second reports.
pub proof fn lemma_rules_are_independent(
    first: Seq<Rule>,
    second: Seq<Rule>,
    commit: CommitView,
    severity: Severity,
)
    ensures
        reports(first + second, commit, severity) == reports(first, commit, severity) + reports(
            second,
            commit,
            severity,
        ),
    decreases second.len(),
{
    if second.len() == 0 {
        assert(first + second =~= first);
        assert(reports(first, commit, severity) + reports(second, commit, severity) =~= reports(
            first,
            commit,
            severity,
        ));
    } else {
        lemma_rules_are_independent(first, second.drop_last(), commit, severity);
        assert((first + second).drop_last() =~= first + second.drop_last());
        assert((first + second).last() == second.last());
        let before = reports(first, commit, severity) + reports(
            second.drop_last(),
            commit,
            severity,
        );
        match second.last().outcome(commit) {
            Some(d) => {
                if d.severity == severity {
                    assert(before.push(d) =~= reports(first, commit, severity) + reports(
                        second.drop_last(),
                        commit,
                        severity,
                    ).push(d));
                }
            },
            None => {},
        }
    }
}

/// The order of the rules decides the order of the diagnostics only: the
/// number of diagnostics of a severity is the same when two lists of rules
/// run the other way round.
pub proof fn lemma_order_keeps_count(
    first: Seq<Rule>,
    second: Seq<Rule>,
    commit: CommitView,
    severity: Severity,
)
    ensures
        reports(first + second, commit, severity).len() == reports(
            second + first,
            commit,
            severity,
        ).len(),
{
    lemma_rules_are_independent(first, second, commit, severity);
    lemma_rules_are_independent(second, first, commit, severity);
}

} // verus!
