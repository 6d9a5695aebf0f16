use commitguard::lint::lint;
use commitguard::grammar::{ParseError, ParseErrorKind};
use commitguard::parser::parse_commit;
use commitguard::rules::body_empty::BodyEmptyRule;
use commitguard::rules::scope_empty::ScopeEmptyRule;
use commitguard::rules::scope_enum::ScopeEnumRule;
use commitguard::rules::scope_max_length::ScopeMaxLengthRule;
use commitguard::rules::{
    run, Condition, EnumOpts, LengthOpts, NoOpts, Rule, RulesConfig, RulesDetails, Severity,
};

fn config(
    scope_empty: NoOpts,
    scope_enum: EnumOpts,
    scope_max_length: LengthOpts,
    body_empty: NoOpts,
) -> RulesConfig {
    RulesConfig { rules: RulesDetails { scope_empty, scope_enum, scope_max_length, body_empty } }
}

#[test]
fn two_errors_and_one_warning_are_sorted_by_severity() {
    let rules = config(
        NoOpts(Severity::Error, Condition::Always),
        EnumOpts(Severity::Warning, Condition::Always, vec!["api".to_string()]),
        LengthOpts(Severity::Error, 5),
        NoOpts(Severity::Off, Condition::Never),
    )
    .rule_set();
    let commit = parse_commit("feat(backend): add x").unwrap();
    let result = run(&commit, &rules);
    assert_eq!(result.errors().unwrap().len(), 2);
    assert_eq!(result.warnings().unwrap().len(), 1);
    assert_eq!(result.errors_len(), 2);
    assert_eq!(result.warnings_len(), 1);
    assert!(result.has_errors());
    assert!(result.has_warnings());
    let errors = result.errors().unwrap();
    assert_eq!(errors[0].code, "rule/scope-empty");
    assert_eq!(errors[1].code, "rule/scope-max-length");
    assert_eq!(result.warnings().unwrap()[0].code, "rule/scope-enum");
    assert_eq!(errors[0].source, "feat(backend): add x");
    assert_eq!(errors[0].labels[0].start, 5);
    assert_eq!(errors[0].labels[0].end, 12);
}

#[test]
fn a_commit_that_keeps_every_rule_gives_an_empty_result() {
    let rules = config(
        NoOpts(Severity::Error, Condition::Never),
        EnumOpts(Severity::Error, Condition::Always, vec!["api".to_string()]),
        LengthOpts(Severity::Error, 5),
        NoOpts(Severity::Warning, Condition::Never),
    )
    .rule_set();
    let commit = parse_commit("feat(api): add x\n\nwhy").unwrap();
    let result = run(&commit, &rules);
    assert!(result.errors().is_none());
    assert!(result.warnings().is_none());
    assert_eq!(result.errors_len(), 0);
    assert_eq!(result.warnings_len(), 0);
    assert!(!result.has_errors());
    assert!(!result.has_warnings());
}

#[test]
fn warnings_alone_are_no_errors() {
    let rules = vec![
        Rule::BodyEmpty(BodyEmptyRule { opts: NoOpts(Severity::Warning, Condition::Never) }),
        Rule::ScopeEmpty(ScopeEmptyRule { opts: NoOpts(Severity::Warning, Condition::Never) }),
    ];
    let commit = parse_commit("feat: add x").unwrap();
    let result = run(&commit, &rules);
    assert!(!result.has_errors());
    assert!(result.errors().is_none());
    assert!(result.has_warnings());
    assert_eq!(result.warnings_len(), 2);
    let warnings = result.warnings().unwrap();
    assert_eq!(warnings[0].code, "rule/body-empty");
    assert_eq!(warnings[1].code, "rule/scope-empty");
}

#[test]
fn the_order_of_the_rules_is_the_order_of_the_diagnostics() {
    let first = Rule::ScopeMaxLength(ScopeMaxLengthRule { opts: LengthOpts(Severity::Error, 1) });
    let second = Rule::ScopeEnum(ScopeEnumRule {
        opts: EnumOpts(Severity::Error, Condition::Never, vec!["api".to_string()]),
    });
    let commit = parse_commit("feat(api): add x").unwrap();
    let result = run(&commit, &vec![first.clone(), second.clone()]);
    let codes: Vec<&str> = result.errors().unwrap().iter().map(|d| d.code.as_str()).collect();
    assert_eq!(codes, vec!["rule/scope-max-length", "rule/scope-enum"]);
    let result = run(&commit, &vec![second, first]);
    let codes: Vec<&str> = result.errors().unwrap().iter().map(|d| d.code.as_str()).collect();
    assert_eq!(codes, vec!["rule/scope-enum", "rule/scope-max-length"]);
}

#[test]
fn no_rules_give_an_empty_result() {
    let commit = parse_commit("feat: add x").unwrap();
    let result = run(&commit, &vec![]);
    assert!(!result.has_errors());
    assert!(!result.has_warnings());
    assert_eq!(result.errors_len(), 0);
    assert_eq!(result.warnings_len(), 0);
}

#[test]
fn the_rules_of_a_configuration_run_in_a_fixed_order() {
    let rules = config(
        NoOpts(Severity::Error, Condition::Always),
        EnumOpts(Severity::Error, Condition::Never, vec!["api".to_string()]),
        LengthOpts(Severity::Error, 1),
        NoOpts(Severity::Error, Condition::Never),
    )
    .rule_set();
    assert_eq!(rules.len(), 4);
    assert!(matches!(rules[0], Rule::ScopeEmpty(_)));
    assert!(matches!(rules[1], Rule::ScopeEnum(_)));
    assert!(matches!(rules[2], Rule::ScopeMaxLength(_)));
    assert!(matches!(rules[3], Rule::BodyEmpty(_)));
    let commit = parse_commit("feat(api): add x").unwrap();
    let result = run(&commit, &rules);
    let codes: Vec<&str> = result.errors().unwrap().iter().map(|d| d.code.as_str()).collect();
    assert_eq!(
        codes,
        vec!["rule/scope-empty", "rule/scope-enum", "rule/scope-max-length", "rule/body-empty"]
    );
}

#[test]
fn linting_parses_and_then_runs_the_rules() {
    let rules = vec![
        Rule::ScopeMaxLength(ScopeMaxLengthRule { opts: LengthOpts(Severity::Error, 5) }),
        Rule::BodyEmpty(BodyEmptyRule { opts: NoOpts(Severity::Warning, Condition::Never) }),
    ];
    let result = lint("feat(backend): add x\n", &rules).unwrap();
    assert_eq!(result.errors_len(), 1);
    assert_eq!(result.warnings_len(), 1);
    assert_eq!(
        result.errors().unwrap()[0].help,
        "scope must not be longer than 5 characters (current length: 7)"
    );
    assert_eq!(result.errors().unwrap()[0].source, "feat(backend): add x\n");

    match lint("feat: add x\nsome body", &rules) {
        Ok(_) => panic!("a message without a blank line was linted"),
        Err(e) => assert_eq!(e, ParseError { kind: ParseErrorKind::MissingBlankLine, offset: 12 }),
    }
}
