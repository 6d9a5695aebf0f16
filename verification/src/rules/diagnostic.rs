//! Diagnostics: what a rule reports of a commit that breaks it.

use vstd::prelude::*;
use vstd::string::*;
use crate::parser::{CommitSpan, SpanView};
use crate::rules::Severity;

verus! {

/// What a label is: a range of byte offsets of the source and a note on it.
pub struct LabelView {
    pub start: int,
    pub end: int,
    pub text: Seq<char>,
}

/// A part of the source that a diagnostic points at, with a note on it.
#[derive(Clone, Debug)]
pub struct Label {
    /// The byte offset at which the part starts.
    pub start: usize,
    /// The byte offset at which the part ends.
    pub end: usize,
    /// The note.
    pub text: String,
}

impl View for Label {
    type V = LabelView;

    open spec fn view(&self) -> LabelView {
        LabelView { start: self.start as int, end: self.end as int, text: self.text@ }
    }
}

/// What a diagnostic is.
pub struct DiagnosticView {
    pub severity: Severity,
    pub code: Seq<char>,
    pub message: Seq<char>,
    pub help: Seq<char>,
    pub labels: Seq<LabelView>,
    pub source: Seq<char>,
}

/// The violation of one rule by one commit.
#[derive(Clone, Debug)]
pub struct Diagnostic {
    /// How grave the violation is: the severity that the rule was given.
    pub severity: Severity,
    /// The name of the rule, as in `rule/scope-enum`.
    pub code: String,
    /// What is wrong.
    pub message: String,
    /// What the rule asks for.
    pub help: String,
    /// The parts of the source that are at fault, in order.
    pub labels: Vec<Label>,
    /// The raw commit message.
    pub source: String,
}

/// What the labels of a list are.
pub open spec fn label_views(labels: Seq<Label>) -> Seq<LabelView> {
    Seq::new(labels.len(), |i: int| labels[i]@)
}

impl View for Diagnostic {
    type V = DiagnosticView;

    open spec fn view(&self) -> DiagnosticView {
        DiagnosticView {
            severity: self.severity,
            code: self.code@,
            message: self.message@,
            help: self.help@,
            labels: label_views(self.labels@),
            source: self.source@,
        }
    }
}

/// What an optional diagnostic is.
pub open spec fn outcome_view(d: Option<Diagnostic>) -> Option<DiagnosticView> {
    match d {
        Some(d) => Some(d@),
        None => None,
    }
}

/// The labels that point at a field: one label at the span of the field with
/// the note `text`, or none where the field is missing.
pub open spec fn labels_at(span: Option<SpanView>, text: Seq<char>) -> Seq<LabelView> {
    match span {
        Some(s) => seq![LabelView { start: s.start, end: s.end, text }],
        None => Seq::empty(),
    }
}

/// Makes the labels that point at a field.
pub fn label_field(span: &Option<CommitSpan<'_>>, text: &str) -> (r: Vec<Label>)
    ensures
        label_views(r@) == labels_at(crate::parser::optional_span(*span), text@),
{
    let mut labels: Vec<Label> = Vec::new();
    match span {
        Some(s) => {
            labels.push(Label { start: s.start(), end: s.end(), text: String::from_str(text) });
        },
        None => {},
    }
    assert(label_views(labels@) =~= labels_at(crate::parser::optional_span(*span), text@));
    labels
}

/// Makes the diagnostic of a violation.
pub fn violation(
    severity: Severity,
    code: &str,
    message: &str,
    help: String,
    labels: Vec<Label>,
    source: &String,
) -> (r: Diagnostic)
    ensures
        r@ == (DiagnosticView {
            severity,
            code: code@,
            message: message@,
            help: help@,
            labels: label_views(labels@),
            source: source@,
        }),
{
    Diagnostic {
        severity,
        code: String::from_str(code),
        message: String::from_str(message),
        help,
        labels,
        source: source.clone(),
    }
}

} // verus!
