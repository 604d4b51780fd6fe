use crate::diagnostic::{Diagnostic, LintOutcome, Position, Range};
use crate::render::{check_range_fits, range_fits};
use crate::session::renderable;
use crate::text::{line_texts, lines_of, split_lines};
use vstd::prelude::*;

verus! {

#[verifier::external_type_specification]
#[verifier::external_body]
pub struct ExLinter(deno_lint::linter::Linter);

#[verifier::external_type_specification]
#[verifier::external_body]
pub struct ExLintDiagnostic(deno_lint::diagnostic::LintDiagnostic);

/// What the engine tells of one rule violation, as plain values. A finding
/// without a range concerns the file as a whole.
pub struct Finding {
    pub code: String,
    pub message: String,
    pub hint: Option<String>,
    pub range: Option<Range>,
}

/// Calls `deno_lint::linter::Linter::new` with the rules of the catalogue
/// (`deno_lint::rules::get_all_rules`) whose codes are given, picked by
/// `deno_lint::rules::filtered_rules`, and with the engine's own ignore
/// directives. Nothing is claimed of the linter.
#[verifier::external_body]
pub fn create_linter(rule_codes: &Vec<String>) -> (linter: deno_lint::linter::Linter) {
    let all = deno_lint::rules::get_all_rules();
    let codes = Some(rule_codes.clone());
    deno_lint::linter::Linter::new(
        deno_lint::linter::LinterOptions {
            all_rule_codes: all.iter().map(|rule| rule.code().into()).collect(),
            rules: deno_lint::rules::filtered_rules(all, Some(Vec::new()), None, codes),
            custom_ignore_file_directive: None,
            custom_ignore_diagnostic_directive: None,
        },
    )
}

/// Calls `deno_lint::linter::Linter::lint_file` on the text, under a file URL
/// made of the name by `deno_ast::ModuleSpecifier::parse` and with the dialect
/// that `deno_ast::MediaType::from_str` reads off the name. A failure of the
/// engine comes back as its message. Nothing is claimed of the outcome.
#[verifier::external_body]
fn run_linter(linter: &deno_lint::linter::Linter, file_name: &str, source_text: &str) -> (r: Result<
    Vec<deno_lint::diagnostic::LintDiagnostic>,
    String,
>) {
    let url = format!("file:///{}", file_name);
    let specifier = deno_ast::ModuleSpecifier::parse(&url).map_err(|e| e.to_string())?;
    let options = deno_lint::linter::LintFileOptions {
        specifier,
        source_code: source_text.to_string(),
        media_type: deno_ast::MediaType::from_str(file_name),
        config: deno_lint::linter::LintConfig {
            default_jsx_factory: None,
            default_jsx_fragment_factory: None,
        },
        external_linter: None,
    };
    linter.lint_file(options).map(|(_, found)| found).map_err(|e| e.to_string())
}

/// Reads the fields of a `deno_lint::diagnostic::LintDiagnostic`; the two ends
/// of its range are turned into line and column by
/// `deno_ast::SourceTextInfo::line_and_column_index`. Nothing is claimed of
/// the values.
#[verifier::external_body]
fn finding_of(d: &deno_lint::diagnostic::LintDiagnostic) -> (f: Finding) {
    let range = d.range.as_ref().map(|r| {
        let s = r.text_info.line_and_column_index(r.range.start);
        let e = r.text_info.line_and_column_index(r.range.end);
        Range {
            start: Position { line_index: s.line_index, column_index: s.column_index },
            end: Position { line_index: e.line_index, column_index: e.column_index },
        }
    });
    let details = &d.details;
    Finding {
        code: details.code.clone(),
        message: details.message.clone(),
        hint: details.hint.clone(),
        range,
    }
}

/// The range of a finding; one without a range is placed at the start of the file.
pub open spec fn range_or_start(range: Option<Range>) -> Range {
    match range {
        Some(r) => r,
        None => Range {
            start: Position { line_index: 0, column_index: 0 },
            end: Position { line_index: 0, column_index: 0 },
        },
    }
}

/// The diagnostic for a finding of the engine in the named file.
pub fn diagnostic_from(file_name: &str, finding: Finding) -> (d: Diagnostic)
    ensures
        d.code == finding.code,
        d.message == finding.message,
        d.hint == finding.hint,
        d.filename@ == file_name@,
        d.range == range_or_start(finding.range),
{
    let range = match finding.range {
        Some(r) => r,
        None => Range {
            start: Position { line_index: 0, column_index: 0 },
            end: Position { line_index: 0, column_index: 0 },
        },
    };
    Diagnostic {
        code: finding.code,
        message: finding.message,
        hint: finding.hint,
        filename: file_name.to_owned(),
        range,
    }
}

/// Every range can be underlined on the lines.
pub open spec fn all_fit(diagnostics: Seq<Diagnostic>, lines: Seq<Seq<char>>) -> bool {
    forall|i: int| 0 <= i < diagnostics.len() ==> range_fits((#[trigger] diagnostics[i]).range, lines)
}

/// Every diagnostic names the file.
pub open spec fn all_in_file(diagnostics: Seq<Diagnostic>, file: Seq<char>) -> bool {
    forall|i: int| 0 <= i < diagnostics.len() ==> (#[trigger] diagnostics[i]).filename@ == file
}

/// Decides `all_fit`.
pub fn check_all_fit(diagnostics: &Vec<Diagnostic>, source_lines: &[&str]) -> (b: bool)
    ensures
        b == all_fit(diagnostics@, line_texts(source_lines@)),
{
    let mut i: usize = 0;
    while i < diagnostics.len()
        invariant
            0 <= i <= diagnostics@.len(),
            forall|k: int|
                0 <= k < i ==> range_fits(
                    (#[trigger] diagnostics@[k]).range,
                    line_texts(source_lines@),
                ),
        decreases diagnostics@.len() - i,
    {
        if !check_range_fits(diagnostics[i].range, source_lines) {
            return false;
        }
        i += 1;
    }
    true
}

/// The outcome for the diagnostics found in a text: a success where every
/// range can be underlined on the text, else a failure that says so.
pub fn outcome_from(diagnostics: Vec<Diagnostic>, source_text: String) -> (outcome: LintOutcome)
    ensures
        renderable(outcome),
        all_fit(diagnostics@, lines_of(source_text@)) ==> outcome == (LintOutcome::Success {
            diagnostics,
            source_text,
        }),
        !all_fit(diagnostics@, lines_of(source_text@)) ==> (outcome matches LintOutcome::Failure {
            message,
        } && message@ == "A diagnostic lies outside the source text"@),
{
    let lines = split_lines(source_text.as_str());
    if check_all_fit(&diagnostics, lines.as_slice()) {
        LintOutcome::Success { diagnostics, source_text }
    } else {
        LintOutcome::Failure { message: "A diagnostic lies outside the source text".to_owned() }
    }
}

/// What the engine found, each finding as plain values, in the engine's order.
fn collect_findings(found: &Vec<deno_lint::diagnostic::LintDiagnostic>) -> (findings: Vec<Finding>)
    ensures
        findings@.len() == found@.len(),
{
    let mut findings: Vec<Finding> = Vec::new();
    let mut i: usize = 0;
    while i < found.len()
        invariant
            0 <= i <= found@.len(),
            findings@.len() == i,
        decreases found@.len() - i,
    {
        findings.push(finding_of(&found[i]));
        i += 1;
    }
    findings
}

/// Analyses one source text with the rules whose codes are given. Whatever
/// the engine answers, the outcome can be rendered, a success hands the text
/// back, and its diagnostics name the file.
pub fn lint_source(file_name: &str, source_text: &str, rule_codes: &Vec<String>) -> (outcome:
    LintOutcome)
    ensures
        renderable(outcome),
        match outcome {
            LintOutcome::Success { diagnostics, source_text: kept } => kept@ == source_text@
                && all_in_file(diagnostics@, file_name@),
            LintOutcome::Failure { .. } => true,
        },
{
    let linter = create_linter(rule_codes);
    let answer = match run_linter(&linter, file_name, source_text) {
        Ok(found) => Ok(collect_findings(&found)),
        Err(message) => Err(message),
    };
    let ghost given = answer;
    let outcome = outcome_of_answer(file_name, source_text.to_owned(), answer);
    let ghost got = outcome;
    proof {
        match got {
            LintOutcome::Success { diagnostics, source_text: kept } => {
                assert forall|i: int| 0 <= i < diagnostics@.len() implies (
                #[trigger] diagnostics@[i]).filename@ == file_name@ by {
                    assert(is_diagnostic_of(diagnostics@[i], file_name@, given.unwrap()@[i]));
                }
            },
            LintOutcome::Failure { .. } => {},
        }
    }
    outcome
}

/// `d` is the diagnostic for the finding `f` in the named file: it has the
/// finding's code, message and hint, the file's name, and the finding's range,
/// or the start of the file where the finding has none.
pub open spec fn is_diagnostic_of(d: Diagnostic, file: Seq<char>, f: Finding) -> bool {
    &&& d.code == f.code
    &&& d.message == f.message
    &&& d.hint == f.hint
    &&& d.filename@ == file
    &&& d.range == range_or_start(f.range)
}

/// The diagnostics are those for the findings, one for one and in their order.
pub open spec fn are_diagnostics_of(ds: Seq<Diagnostic>, file: Seq<char>, findings: Seq<Finding>) -> bool {
    &&& ds.len() == findings.len()
    &&& forall|i: int|
        0 <= i < ds.len() ==> is_diagnostic_of(#[trigger] ds[i], file, findings[i])
}

/// The range of every finding can be underlined on the lines.
pub open spec fn findings_fit(findings: Seq<Finding>, lines: Seq<Seq<char>>) -> bool {
    forall|i: int|
        0 <= i < findings.len() ==> range_fits(
            range_or_start((#[trigger] findings[i]).range),
            lines,
        )
}

/// The outcome that belongs to an answer of the engine for the named file and
/// its text. A failure of the engine is a failure with the engine's message.
/// Findings whose ranges all fit the text are a success with their
/// diagnostics and the text. Findings of which one does not fit are a failure
/// that says so.
pub open spec fn answer_gives(
    answer: Result<Vec<Finding>, String>,
    file: Seq<char>,
    source: Seq<char>,
    outcome: LintOutcome,
) -> bool {
    match answer {
        Err(message) => outcome == (LintOutcome::Failure { message }),
        Ok(findings) => if findings_fit(findings@, lines_of(source)) {
            outcome matches LintOutcome::Success { diagnostics, source_text } && source_text@
                == source && are_diagnostics_of(diagnostics@, file, findings@)
        } else {
            outcome matches LintOutcome::Failure { message } && message@
                == "A diagnostic lies outside the source text"@
        },
    }
}

/// The diagnostics for a list of findings in the named file.
pub fn diagnostics_from(file_name: &str, findings: &Vec<Finding>) -> (ds: Vec<Diagnostic>)
    ensures
        are_diagnostics_of(ds@, file_name@, findings@),
{
    let mut ds: Vec<Diagnostic> = Vec::new();
    let mut i: usize = 0;
    while i < findings.len()
        invariant
            0 <= i <= findings@.len(),
            are_diagnostics_of(ds@, file_name@, findings@.take(i as int)),
        decreases findings@.len() - i,
    {
        let f = &findings[i];
        let hint = match &f.hint {
            Some(h) => Some(h.clone()),
            None => None,
        };
        let copy = Finding {
            code: f.code.clone(),
            message: f.message.clone(),
            hint,
            range: f.range,
        };
        let d = diagnostic_from(file_name, copy);
        let ghost before = ds@;
        ds.push(d);
        proof {
            assert forall|k: int| 0 <= k < ds@.len() implies is_diagnostic_of(
                #[trigger] ds@[k],
                file_name@,
                findings@.take(i + 1)[k],
            ) by {
                if k < i {
                    assert(ds@[k] == before[k]);
                    assert(findings@.take(i as int)[k] == findings@[k]);
                }
            }
        }
        i += 1;
    }
    assert(findings@.take(findings@.len() as int) =~= findings@);
    ds
}

/// Turns an answer of the engine for one file into the outcome of that file.
pub fn outcome_of_answer(
    file_name: &str,
    source_text: String,
    answer: Result<Vec<Finding>, String>,
) -> (outcome: LintOutcome)
    ensures
        renderable(outcome),
        answer_gives(answer, file_name@, source_text@, outcome),
{
    match answer {
        Ok(findings) => {
            let ds = diagnostics_from(file_name, &findings);
            proof {
                let lines = lines_of(source_text@);
                if findings_fit(findings@, lines) {
                    assert forall|i: int| 0 <= i < ds@.len() implies range_fits(
                        (#[trigger] ds@[i]).range,
                        lines,
                    ) by {
                        assert(is_diagnostic_of(ds@[i], file_name@, findings@[i]));
                        assert(range_fits(range_or_start(findings@[i].range), lines));
                    }
                }
                if all_fit(ds@, lines) {
                    assert forall|i: int| 0 <= i < findings@.len() implies range_fits(
                        range_or_start((#[trigger] findings@[i]).range),
                        lines,
                    ) by {
                        assert(is_diagnostic_of(ds@[i], file_name@, findings@[i]));
                        assert(range_fits(ds@[i].range, lines));
                    }
                }
            }
            outcome_from(ds, source_text)
        },
        Err(message) => LintOutcome::Failure { message },
    }
}

} // verus!
