use commitguard::grammar::{ParseError, ParseErrorKind};
use commitguard::parser::{parse_commit, Commit, CommitSpan};

struct TestConfig {
    /// `name` is used for test identification
    name: String,
    /// `commit` is the commit message to be parsed
    commit: String,
    /// `want_err` is used to indicate if the commit should be parsed successfully or not
    want_err: bool,
}

fn check_span(span: &CommitSpan, raw: &str, text: &str, start: usize) {
    assert_eq!(span.as_str(), text);
    assert_eq!(span.start(), start);
    assert_eq!(span.end(), start + text.len());
    assert_eq!(&raw[span.start()..span.end()], text);
}

fn check_optional(span: &Option<CommitSpan>, raw: &str, want: Option<(&str, usize)>) {
    match (span, want) {
        (Some(span), Some((text, start))) => check_span(span, raw, text, start),
        (None, None) => {}
        (got, want) => panic!("span {:?}, wanted {:?}", got, want),
    }
}

fn failure(raw: &str) -> ParseError {
    match parse_commit(raw) {
        Ok(commit) => panic!("{:?} parsed: {:?}", raw, commit),
        Err(e) => e,
    }
}

fn parsed(raw: &str) -> Commit<'_> {
    match parse_commit(raw) {
        Ok(commit) => commit,
        Err(e) => panic!("{:?} failed: {:?}", raw, e),
    }
}

#[test]
fn commit_parse_tests() {
    let test_configs = vec![
        TestConfig {
            name: String::from("complex"),
            commit: String::from("feat(nice): add cool feature\n\nsome body\n\nsome footer"),
            want_err: false,
        },
        TestConfig {
            name: String::from("scope missing"),
            commit: String::from("feat: add cool feature\n\nsome body\n\nsome footer"),
            want_err: false,
        },
        TestConfig {
            name: String::from("body and footer missing"),
            commit: String::from("feat(nice): add cool feature"),
            want_err: false,
        },
        TestConfig {
            name: String::from(
                "body and footer missing with newline at the end (stdio input adds a newline)",
            ),
            commit: String::from("feat(nice): add cool feature\n"),
            want_err: false,
        },
        TestConfig {
            name: String::from("subject with whitespace at the end"),
            commit: String::from("feat(nice): add cool feature \t "),
            want_err: false,
        },
        TestConfig {
            name: String::from("footer missing"),
            commit: String::from("feat(nice): add cool feature\n\nsome body"),
            want_err: false,
        },
        TestConfig {
            name: String::from("multiple body lines"),
            commit: String::from(
                "feat(nice): add cool feature\n\nsome body\nnext body line\n\nthe real footer",
            ),
            want_err: false,
        },
        TestConfig {
            name: String::from("breaking change after type"),
            commit: String::from("feat!: add cool feature\n\nsome body"),
            want_err: false,
        },
        TestConfig {
            name: String::from("breaking change after scope"),
            commit: String::from("feat(nice)!: add cool feature\n\nsome body"),
            want_err: false,
        },
        TestConfig {
            name: String::from("only one newline after header"),
            commit: String::from("feat(nice): add cool feature\nsome body"),
            want_err: true,
        },
        TestConfig {
            name: String::from("type missing"),
            commit: String::from("add cool feature\n\nsome body\n\nsome footer"),
            want_err: true,
        },
        TestConfig {
            name: String::from("not enough newlines"),
            commit: String::from("feat: add cool feature\nsome body"),
            want_err: true,
        },
        TestConfig {
            name: String::from("random text"),
            commit: String::from("Added a cool new feature"),
            want_err: true,
        },
        TestConfig {
            name: String::from("no text"),
            commit: String::new(),
            want_err: true,
        },
    ];

    for test_config in test_configs {
        let parse_result = parse_commit(&test_config.commit);

        if test_config.want_err {
            assert!(
                parse_result.is_err(),
                "{} | commit parse error = {:#?}",
                test_config.name,
                parse_result
            );
        } else {
            assert!(
                parse_result.is_ok(),
                "{} | commit parse should be successfull",
                test_config.name
            );
            let result = parse_result.unwrap();
            assert_eq!(result.raw, test_config.commit, "{}", test_config.name);
            assert_eq!(result.commit_type.as_str(), "feat", "{}", test_config.name);
            assert_eq!(result.subject.as_str(), "add cool feature", "{}", test_config.name);
        }
    }
}

#[test]
fn parses_every_field_of_a_complete_message() {
    let raw = "feat(nice): add cool feature\n\nsome body\n\nsome footer";
    let commit = parsed(raw);
    check_span(&commit.header, raw, "feat(nice): add cool feature", 0);
    check_span(&commit.commit_type, raw, "feat", 0);
    check_optional(&commit.scope, raw, Some(("nice", 5)));
    check_span(&commit.subject, raw, "add cool feature", 12);
    check_optional(&commit.body, raw, Some(("some body", 30)));
    check_optional(&commit.footer, raw, Some(("some footer", 41)));
    assert_eq!(commit.raw, raw);
}

#[test]
fn parses_a_message_without_scope() {
    let raw = "feat: add cool feature\n\nsome body\n\nsome footer";
    let commit = parsed(raw);
    check_span(&commit.header, raw, "feat: add cool feature", 0);
    check_span(&commit.commit_type, raw, "feat", 0);
    check_optional(&commit.scope, raw, None);
    check_span(&commit.subject, raw, "add cool feature", 6);
    check_optional(&commit.body, raw, Some(("some body", 24)));
    check_optional(&commit.footer, raw, Some(("some footer", 35)));
}

#[test]
fn parses_a_header_alone() {
    let raw = "feat(nice): add cool feature";
    let commit = parsed(raw);
    check_span(&commit.header, raw, raw, 0);
    check_optional(&commit.scope, raw, Some(("nice", 5)));
    check_optional(&commit.body, raw, None);
    check_optional(&commit.footer, raw, None);
}

#[test]
fn tolerates_one_line_break_at_the_end() {
    let raw = "feat(nice): add cool feature\n";
    let commit = parsed(raw);
    check_span(&commit.header, raw, "feat(nice): add cool feature", 0);
    check_span(&commit.subject, raw, "add cool feature", 12);
    check_optional(&commit.body, raw, None);
    assert_eq!(commit.raw, raw);

    let raw = "feat: x\n\nbody\n";
    let commit = parsed(raw);
    check_optional(&commit.body, raw, Some(("body", 9)));
    check_optional(&commit.footer, raw, None);

    let raw = "feat: x\n\nbody\n\nfooter\n";
    let commit = parsed(raw);
    check_optional(&commit.body, raw, Some(("body", 9)));
    check_optional(&commit.footer, raw, Some(("footer", 15)));
}

#[test]
fn trims_whitespace_at_the_end_of_the_subject() {
    let raw = "feat(nice): add cool feature \t ";
    let commit = parsed(raw);
    check_span(&commit.subject, raw, "add cool feature", 12);
    check_span(&commit.header, raw, raw, 0);

    let raw = "fix: keep  inner \r\n\nbody";
    let commit = parsed(raw);
    check_span(&commit.subject, raw, "keep  inner", 5);
    check_span(&commit.header, raw, "fix: keep  inner \r", 0);
    check_optional(&commit.body, raw, Some(("body", 20)));
}

#[test]
fn a_body_runs_over_several_lines() {
    let raw = "feat(nice): add cool feature\n\nsome body\nnext body line\n\nthe real footer";
    let commit = parsed(raw);
    check_optional(&commit.body, raw, Some(("some body\nnext body line", 30)));
    check_optional(&commit.footer, raw, Some(("the real footer", 56)));
}

#[test]
fn a_footer_takes_all_that_is_left() {
    let raw = "feat: x\n\nbody\n\nfirst\n\nsecond\nthird\n";
    let commit = parsed(raw);
    check_optional(&commit.body, raw, Some(("body", 9)));
    check_optional(&commit.footer, raw, Some(("first\n\nsecond\nthird", 15)));
}

#[test]
fn the_breaking_change_marker_is_no_part_of_a_field() {
    let raw = "feat!: add cool feature\n\nsome body";
    let commit = parsed(raw);
    check_span(&commit.commit_type, raw, "feat", 0);
    check_optional(&commit.scope, raw, None);
    check_span(&commit.subject, raw, "add cool feature", 7);
    check_span(&commit.header, raw, "feat!: add cool feature", 0);
    check_optional(&commit.body, raw, Some(("some body", 25)));

    let raw = "feat(nice)!: add cool feature\n\nsome body";
    let commit = parsed(raw);
    check_span(&commit.commit_type, raw, "feat", 0);
    check_optional(&commit.scope, raw, Some(("nice", 5)));
    check_span(&commit.subject, raw, "add cool feature", 13);
    check_optional(&commit.body, raw, Some(("some body", 31)));
}

#[test]
fn a_bang_inside_the_type_belongs_to_the_type() {
    let raw = "fe!at: x";
    let commit = parsed(raw);
    check_span(&commit.commit_type, raw, "fe!at", 0);

    let raw = "feat!(api): x";
    let commit = parsed(raw);
    check_span(&commit.commit_type, raw, "feat!", 0);
    check_optional(&commit.scope, raw, Some(("api", 6)));
}

#[test]
fn an_empty_scope_is_a_scope() {
    let raw = "feat(): x";
    let commit = parsed(raw);
    check_optional(&commit.scope, raw, Some(("", 5)));
    check_span(&commit.subject, raw, "x", 8);
}

#[test]
fn spans_count_bytes_of_text_that_is_not_ascii() {
    let raw = "fix(caf\u{e9}): gr\u{fc}\u{df}e \u{1f600}\n\n\u{4f60}\u{597d}\n\n\u{e9}nd";
    let commit = parsed(raw);
    check_span(&commit.commit_type, raw, "fix", 0);
    check_optional(&commit.scope, raw, Some(("caf\u{e9}", 4)));
    check_span(&commit.subject, raw, "gr\u{fc}\u{df}e \u{1f600}", 12);
    check_span(&commit.header, raw, "fix(caf\u{e9}): gr\u{fc}\u{df}e \u{1f600}", 0);
    check_optional(&commit.body, raw, Some(("\u{4f60}\u{597d}", 26)));
    check_optional(&commit.footer, raw, Some(("\u{e9}nd", 34)));
    assert_eq!(commit.scope.unwrap().char_len(), 4);
}

#[test]
fn header_then_one_line_break_and_text_fails() {
    let e = failure("feat: add x\nsome body");
    assert_eq!(e, ParseError { kind: ParseErrorKind::MissingBlankLine, offset: 12 });
    let e = failure("feat(nice): add cool feature\nsome body");
    assert_eq!(e, ParseError { kind: ParseErrorKind::MissingBlankLine, offset: 29 });
}

#[test]
fn text_without_a_type_before_a_colon_fails() {
    let e = failure("add cool feature");
    assert_eq!(e, ParseError { kind: ParseErrorKind::MissingColon, offset: 3 });
    let e = failure("Added a cool new feature");
    assert_eq!(e, ParseError { kind: ParseErrorKind::MissingColon, offset: 5 });
    let e = failure("add cool feature\n\nsome body\n\nsome footer");
    assert_eq!(e, ParseError { kind: ParseErrorKind::MissingColon, offset: 3 });
}

#[test]
fn every_kind_of_failure_has_an_input() {
    assert_eq!(failure(""), ParseError { kind: ParseErrorKind::MissingType, offset: 0 });
    assert_eq!(failure(": x"), ParseError { kind: ParseErrorKind::MissingType, offset: 0 });
    assert_eq!(failure("!: x"), ParseError { kind: ParseErrorKind::MissingType, offset: 0 });
    assert_eq!(failure(" feat: x"), ParseError { kind: ParseErrorKind::MissingType, offset: 0 });
    assert_eq!(
        failure("feat(api: x"),
        ParseError { kind: ParseErrorKind::UnclosedScope, offset: 11 }
    );
    assert_eq!(
        failure("feat(api\n): x"),
        ParseError { kind: ParseErrorKind::UnclosedScope, offset: 8 }
    );
    assert_eq!(
        failure("feat(api) x"),
        ParseError { kind: ParseErrorKind::MissingColon, offset: 9 }
    );
    assert_eq!(
        failure("feat(api)!!: x"),
        ParseError { kind: ParseErrorKind::MissingColon, offset: 10 }
    );
    assert_eq!(failure("feat"), ParseError { kind: ParseErrorKind::MissingColon, offset: 4 });
    assert_eq!(failure("feat:x"), ParseError { kind: ParseErrorKind::MissingSpace, offset: 5 });
    assert_eq!(failure("feat:"), ParseError { kind: ParseErrorKind::MissingSpace, offset: 5 });
    assert_eq!(failure("feat: "), ParseError { kind: ParseErrorKind::MissingSubject, offset: 6 });
    assert_eq!(
        failure("feat:  \t\n\nbody"),
        ParseError { kind: ParseErrorKind::MissingSubject, offset: 6 }
    );
    assert_eq!(
        failure("feat: x\ny"),
        ParseError { kind: ParseErrorKind::MissingBlankLine, offset: 8 }
    );
    assert_eq!(
        failure("feat: x\n\n"),
        ParseError { kind: ParseErrorKind::EmptySection, offset: 9 }
    );
    assert_eq!(
        failure("feat: x\n\n\nbody"),
        ParseError { kind: ParseErrorKind::EmptySection, offset: 9 }
    );
    assert_eq!(
        failure("feat: x\n\nbody\n\n"),
        ParseError { kind: ParseErrorKind::EmptySection, offset: 15 }
    );
    assert_eq!(
        failure("feat: x\n\nbody\n\n\nfooter"),
        ParseError { kind: ParseErrorKind::EmptySection, offset: 15 }
    );
}

#[test]
fn a_failure_tells_what_was_expected() {
    assert_eq!(failure("").expected(), "a commit type");
    assert_eq!(failure("feat(api: x").expected(), "`)`");
    assert_eq!(failure("feat").expected(), "`:`");
    assert_eq!(failure("feat:x").expected(), "a space");
    assert_eq!(failure("feat: ").expected(), "a subject");
    assert_eq!(failure("feat: x\ny").expected(), "a blank line");
    assert_eq!(failure("feat: x\n\n").expected(), "the text of a body or footer");
}

#[test]
fn parsing_twice_gives_the_same_spans() {
    let raw = "feat(nice): add cool feature\n\nsome body\n\nsome footer";
    let first = parsed(raw);
    let second = parsed(raw);
    assert_eq!(format!("{:?}", first), format!("{:?}", second));
}

#[test]
fn fields_do_not_overlap_and_leave_only_separators() {
    let raw = "feat(nice): add cool feature\n\nsome body\nmore\n\nsome footer\n";
    let commit = parsed(raw);
    let body = commit.body.unwrap();
    let footer = commit.footer.unwrap();
    assert_eq!(commit.header.start(), 0);
    assert_eq!(commit.header.end() + 2, body.start());
    assert_eq!(body.end() + 2, footer.start());
    assert_eq!(footer.end() + 1, raw.len());
    let rebuilt = format!("{}\n\n{}\n\n{}\n", commit.header.as_str(), body.as_str(), footer.as_str());
    assert_eq!(rebuilt, raw);
}

#[test]
fn a_new_commit_is_empty() {
    let commit = Commit::new();
    check_span(&commit.header, "", "", 0);
    check_span(&commit.commit_type, "", "", 0);
    check_span(&commit.subject, "", "", 0);
    assert!(commit.scope.is_none());
    assert!(commit.body.is_none());
    assert!(commit.footer.is_none());
    assert_eq!(commit.raw, "");
    let commit: Commit<'_> = Default::default();
    assert_eq!(commit.raw, "");
    assert!(commit.scope.is_none());
}

#[test]
fn a_span_keeps_what_it_was_made_of() {
    let span = CommitSpan::new("nice", 5, 9);
    assert_eq!(span.start(), 5);
    assert_eq!(span.end(), 9);
    assert_eq!(span.as_str(), "nice");
    assert_eq!(span.to_string(), "nice");
    assert_eq!(span.char_len(), 4);
    let span: CommitSpan<'_> = Default::default();
    assert_eq!(span.start(), 0);
    assert_eq!(span.end(), 0);
    assert_eq!(span.to_string(), "");
}
