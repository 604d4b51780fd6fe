use lint_session::diagnostic::{LintOutcome, Position};
use lint_session::engine::{diagnostic_from, lint_source, outcome_from, Finding};
use lint_session::rules::{
    check_rules, copy_names, get_configured_rules, resolve_rule_selector,
    resolve_target_patterns, rule_codes_for, ConfigurationError, FilesConfig, LintConfig,
    RuleChoice, RulesConfig,
};

fn names(items: &[&str]) -> Vec<String> {
    items.iter().map(|s| s.to_string()).collect()
}

fn config(tags: Option<&[&str]>, inc: Option<&[&str]>, exc: Option<&[&str]>) -> LintConfig {
    LintConfig {
        rules: RulesConfig {
            tags: tags.map(names),
            included: inc.map(names),
            excluded: exc.map(names),
        },
        files: FilesConfig { included: names(&["src"]), excluded: names(&["vendor"]) },
    }
}

#[test]
fn command_line_rules_win_over_configuration() {
    let c = config(Some(&["recommended"]), Some(&["ban-types"]), Some(&["no-explicit-any"]));
    let choice = resolve_rule_selector(Some(&c), vec![], names(&["no-empty"]), vec![]);
    match choice {
        RuleChoice::Selected(sel) => {
            assert_eq!(sel.included, Some(names(&["no-empty"])));
            assert_eq!(sel.tags, names(&["recommended"]));
            assert_eq!(sel.excluded, Some(names(&["no-explicit-any"])));
        },
        RuleChoice::Recommended => panic!("selectors were given"),
    }
}

#[test]
fn nothing_given_means_recommended() {
    assert!(matches!(
        resolve_rule_selector(None, vec![], vec![], vec![]),
        RuleChoice::Recommended
    ));
}

#[test]
fn configuration_without_lists_gives_absent_lists() {
    let c = config(None, None, None);
    match resolve_rule_selector(Some(&c), vec![], vec![], vec![]) {
        RuleChoice::Selected(sel) => {
            assert!(sel.tags.is_empty());
            assert_eq!(sel.included, None);
            assert_eq!(sel.excluded, None);
        },
        RuleChoice::Recommended => panic!("a configuration was given"),
    }
}

#[test]
fn command_line_tags_win_over_configuration() {
    let c = config(Some(&["recommended"]), None, None);
    match resolve_rule_selector(Some(&c), names(&["fresh"]), vec![], names(&["no-var"])) {
        RuleChoice::Selected(sel) => {
            assert_eq!(sel.tags, names(&["fresh"]));
            assert_eq!(sel.included, None);
            assert_eq!(sel.excluded, Some(names(&["no-var"])));
        },
        RuleChoice::Recommended => panic!("selectors were given"),
    }
}

#[test]
fn target_patterns_fall_back_to_configuration() {
    let c = config(None, None, None);
    let (inc, exc) = resolve_target_patterns(Some(&c), vec![], names(&["dist"]));
    assert_eq!(inc, names(&["src"]));
    assert_eq!(exc, names(&["dist"]));
    let (inc, exc) = resolve_target_patterns(None, names(&["a.ts"]), vec![]);
    assert_eq!(inc, names(&["a.ts"]));
    assert!(exc.is_empty());
    let (inc, exc) = resolve_target_patterns(Some(&c), names(&["a.ts"]), vec![]);
    assert_eq!(inc, names(&["a.ts"]));
    assert_eq!(exc, names(&["vendor"]));
}

#[test]
fn empty_rule_collection_is_refused() {
    assert_eq!(check_rules(vec![]), Err(ConfigurationError::NoRules));
    assert_eq!(check_rules(names(&["no-empty"])), Ok(names(&["no-empty"])));
    assert_eq!(ConfigurationError::NoRules.message(), "No rules have been configured");
}

#[test]
fn names_are_copied() {
    assert_eq!(copy_names(&names(&["a", "b"])), names(&["a", "b"]));
    assert!(copy_names(&vec![]).is_empty());
}

#[test]
fn catalogue_gives_the_rules_that_are_asked_for() {
    let r = get_configured_rules(None, vec![], names(&["no-empty", "no-debugger"]), vec![]);
    assert_eq!(r, Ok(names(&["no-debugger", "no-empty"])));
}

#[test]
fn unknown_tag_selects_no_rules() {
    let r = get_configured_rules(None, names(&["no-such-tag"]), vec![], vec![]);
    assert_eq!(r, Err(ConfigurationError::NoRules));
}

#[test]
fn excluded_rule_leaves_the_recommended_set() {
    let all = get_configured_rules(None, names(&["recommended"]), vec![], vec![]);
    let less = get_configured_rules(None, names(&["recommended"]), vec![], names(&["no-debugger"]));
    match (all, less) {
        (Ok(all), Ok(less)) => {
            assert!(all.contains(&"no-debugger".to_string()));
            assert!(!less.contains(&"no-debugger".to_string()));
            assert_eq!(all.len(), less.len() + 1);
        },
        _ => panic!("the recommended tag selects rules"),
    }
}

#[test]
fn recommended_rules_are_not_empty() {
    let codes = rule_codes_for(RuleChoice::Recommended);
    assert!(codes.contains(&"no-debugger".to_string()));
    assert_eq!(get_configured_rules(None, vec![], vec![], vec![]), Ok(codes));
}

#[test]
fn engine_finds_a_violation() {
    let outcome = lint_source("a.ts", "const a = 1;\n  debugger;\n", &names(&["no-debugger"]));
    match outcome {
        LintOutcome::Success { diagnostics, source_text } => {
            assert_eq!(source_text, "const a = 1;\n  debugger;\n");
            assert_eq!(diagnostics.len(), 1);
            assert_eq!(diagnostics[0].code, "no-debugger");
            assert_eq!(diagnostics[0].filename, "a.ts");
            assert_eq!(diagnostics[0].range.start, Position { line_index: 1, column_index: 2 });
            assert_eq!(diagnostics[0].range.end, Position { line_index: 1, column_index: 11 });
        },
        LintOutcome::Failure { message } => panic!("{}", message),
    }
}

#[test]
fn engine_runs_only_the_rules_given() {
    let outcome = lint_source("a.ts", "debugger;\n", &names(&["no-empty"]));
    match outcome {
        LintOutcome::Success { diagnostics, .. } => assert!(diagnostics.is_empty()),
        LintOutcome::Failure { message } => panic!("{}", message),
    }
}

#[test]
fn text_that_does_not_parse_is_a_failure() {
    let outcome = lint_source("a.ts", "let = = ;", &names(&["no-debugger"]));
    assert!(matches!(outcome, LintOutcome::Failure { .. }));
}

#[test]
fn finding_without_range_is_placed_at_the_start() {
    let f = Finding {
        code: "c".to_string(),
        message: "m".to_string(),
        hint: Some("h".to_string()),
        range: None,
    };
    let d = diagnostic_from("a.ts", f);
    assert_eq!(d.code, "c");
    assert_eq!(d.message, "m");
    assert_eq!(d.hint, Some("h".to_string()));
    assert_eq!(d.filename, "a.ts");
    assert_eq!(d.range.start, Position { line_index: 0, column_index: 0 });
    assert_eq!(d.range.end, Position { line_index: 0, column_index: 0 });
}

#[test]
fn diagnostic_outside_the_text_is_a_failure() {
    let f = Finding {
        code: "c".to_string(),
        message: "m".to_string(),
        hint: None,
        range: Some(lint_session::diagnostic::Range::new(
            Position { line_index: 0, column_index: 9 },
            Position { line_index: 1, column_index: 0 },
        )),
    };
    let d = diagnostic_from("a.ts", f);
    let bad = outcome_from(vec![d.clone()], "ab\ncd".to_string());
    assert_eq!(
        bad,
        LintOutcome::Failure { message: "A diagnostic lies outside the source text".to_string() }
    );
    let good = outcome_from(vec![d.clone()], "abcdefghij\ncd".to_string());
    assert_eq!(
        good,
        LintOutcome::Success { diagnostics: vec![d], source_text: "abcdefghij\ncd".to_string() }
    );
}

#[test]
fn rules_are_listed_with_their_help_address() {
    let lines = lint_session::rules::rules_list_lines(&names(&["no-empty", "no-var"]));
    assert_eq!(
        lines,
        names(&[
            "Available rules:",
            " - no-empty",
            "   help: https://lint.deno.land/#no-empty",
            "",
            " - no-var",
            "   help: https://lint.deno.land/#no-var",
            "",
        ])
    );
    assert_eq!(
        lint_session::rules::rules_list_lines(&vec![]),
        names(&["Available rules:"])
    );
}

#[test]
fn ranges_are_checked_against_the_lines() {
    let f = Finding {
        code: "c".to_string(),
        message: "m".to_string(),
        hint: None,
        range: Some(lint_session::diagnostic::Range::new(
            Position { line_index: 0, column_index: 3 },
            Position { line_index: 0, column_index: 1 },
        )),
    };
    let backwards = diagnostic_from("a.ts", f);
    assert!(!backwards.range.check_ordered());
    assert!(!lint_session::engine::check_all_fit(&vec![backwards], &["abcdef"]));
    assert!(lint_session::engine::check_all_fit(&vec![], &["abcdef"]));
}

#[test]
fn engine_failure_becomes_the_failure_of_the_file() {
    let outcome = lint_session::engine::outcome_of_answer(
        "a.ts",
        "let a;".to_string(),
        Err("Unexpected token".to_string()),
    );
    assert_eq!(outcome, LintOutcome::Failure { message: "Unexpected token".to_string() });
}

#[test]
fn engine_findings_become_the_diagnostics_of_the_file() {
    let findings = vec![
        Finding {
            code: "no-debugger".to_string(),
            message: "`debugger` statement is not allowed".to_string(),
            hint: Some("Remove it".to_string()),
            range: Some(lint_session::diagnostic::Range::new(
                Position { line_index: 1, column_index: 2 },
                Position { line_index: 1, column_index: 11 },
            )),
        },
        Finding { code: "whole".to_string(), message: "m".to_string(), hint: None, range: None },
    ];
    let ds = lint_session::engine::diagnostics_from("a.ts", &findings);
    assert_eq!(ds.len(), 2);
    assert_eq!(ds[0].code, "no-debugger");
    assert_eq!(ds[0].message, "`debugger` statement is not allowed");
    assert_eq!(ds[0].hint, Some("Remove it".to_string()));
    assert_eq!(ds[0].filename, "a.ts");
    assert_eq!(ds[0].range.start, Position { line_index: 1, column_index: 2 });
    assert_eq!(ds[0].range.end, Position { line_index: 1, column_index: 11 });
    assert_eq!(ds[1].code, "whole");
    assert_eq!(ds[1].range.end, Position { line_index: 0, column_index: 0 });

    let text = "const a = 1;\n  debugger;\n".to_string();
    let outcome = lint_session::engine::outcome_of_answer("a.ts", text.clone(), Ok(findings));
    assert_eq!(outcome, LintOutcome::Success { diagnostics: ds, source_text: text });
}

#[test]
fn engine_finding_outside_the_text_fails_the_file() {
    let findings = vec![Finding {
        code: "c".to_string(),
        message: "m".to_string(),
        hint: None,
        range: Some(lint_session::diagnostic::Range::new(
            Position { line_index: 0, column_index: 5 },
            Position { line_index: 0, column_index: 2 },
        )),
    }];
    let outcome = lint_session::engine::outcome_of_answer("a.ts", "abcdef".to_string(), Ok(findings));
    assert_eq!(
        outcome,
        LintOutcome::Failure { message: "A diagnostic lies outside the source text".to_string() }
    );
}
