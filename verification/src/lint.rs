//! One linting pass: parse the message, then run the rules on the commit.

use vstd::prelude::*;
use vstd::string::*;
use crate::grammar::{parse, Failure, Fields, ParseError};
use crate::parser::{commit_of, parse_commit};
use crate::rules::runner::{reports, run, LintResult, Rule};
use crate::rules::Severity;

verus! {

/// Lints a commit message. A message that the grammar rejects gives the
/// failure of the grammar, and no rule runs. Any other message gives what the
/// rules report of its commit.
pub fn lint(commit_msg: &str, rules: &Vec<Rule>) -> (r: Result<LintResult, ParseError>)
    ensures
        match r {
            Ok(found) => {
                &&& parse(commit_msg.spec_bytes()) is Ok
                &&& found.error_views() == reports(
                    rules@,
                    commit_of(commit_msg@),
                    Severity::Error,
                )
                &&& found.warning_views() == reports(
                    rules@,
                    commit_of(commit_msg@),
                    Severity::Warning,
                )
            },
            Err(e) => parse(commit_msg.spec_bytes()) == Err::<Fields, Failure>(e@),
        },
{
    match parse_commit(commit_msg) {
        Ok(commit) => Ok(run(&commit, rules)),
        Err(e) => Err(e),
    }
}

} // verus!
