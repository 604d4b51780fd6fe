use crate::diagnostic::{Diagnostic, LintOutcome};
use crate::engine::lint_source;
use crate::order::stable_sorted;
use crate::reporter::{error_views, summary_lines, LintReporterKind, Reporter};
use crate::rules::{
    configured_codes, get_configured_rules, uses_defaults, ConfigurationError, LintConfig,
};
use crate::session::{
    failure_of, findings_count, findings_of, renderable, shown_for, weight, LintSession,
    SessionResult,
};
use crate::text::texts;
use vstd::prelude::*;

verus! {

/// One target of a session: its name, and its text or the message of the
/// failure to read it.
pub struct SourceInput {
    pub path: String,
    pub content: Result<String, String>,
}

/// Why a session did not start.
#[derive(Clone, Copy, Debug, PartialEq, Eq, Structural)]
pub enum SessionError {
    NoRules,
    NoTargetFiles,
}

impl SessionError {
    pub fn message(&self) -> (m: String)
        ensures
            m@ == (match *self {
                SessionError::NoRules => "No rules have been configured"@,
                SessionError::NoTargetFiles => "No target files found."@,
            }),
    {
        match self {
            SessionError::NoRules => "No rules have been configured".to_owned(),
            SessionError::NoTargetFiles => "No target files found.".to_owned(),
        }
    }
}

/// What a finished session leaves: the texts shown while it ran, the closing
/// lines, the closed reporter, the result, and the number of files checked.
pub struct SessionReport {
    pub shown: Vec<String>,
    pub closing: Vec<String>,
    pub reporter: Reporter,
    pub result: SessionResult,
    pub files_checked: usize,
}

/// The findings of all outcomes together.
pub open spec fn total_findings(outcomes: Seq<(String, LintOutcome)>) -> nat
    decreases outcomes.len(),
{
    if outcomes.len() == 0 {
        0
    } else {
        total_findings(outcomes.drop_last()) + findings_count(outcomes.last().1)
    }
}

/// The records that all outcomes make together.
pub open spec fn total_weight(outcomes: Seq<(String, LintOutcome)>) -> nat
    decreases outcomes.len(),
{
    if outcomes.len() == 0 {
        0
    } else {
        total_weight(outcomes.drop_last()) + weight(outcomes.last().1)
    }
}

/// The findings of the outcomes in the order in which they are recorded.
pub open spec fn all_findings(outcomes: Seq<(String, LintOutcome)>) -> Seq<Diagnostic>
    decreases outcomes.len(),
{
    if outcomes.len() == 0 {
        Seq::empty()
    } else {
        all_findings(outcomes.drop_last()) + findings_of(outcomes.last().1)
    }
}

/// The file-level errors of the outcomes in the order in which they are recorded.
pub open spec fn all_failures(outcomes: Seq<(String, LintOutcome)>) -> Seq<(Seq<char>, Seq<char>)>
    decreases outcomes.len(),
{
    if outcomes.len() == 0 {
        Seq::empty()
    } else {
        all_failures(outcomes.drop_last()) + failure_of(outcomes.last().0@, outcomes.last().1)
    }
}

/// The texts shown while the outcomes are recorded.
pub open spec fn all_shown(pretty: bool, outcomes: Seq<(String, LintOutcome)>, use_color: bool) -> Seq<
    Seq<char>,
>
    decreases outcomes.len(),
{
    if outcomes.len() == 0 {
        Seq::empty()
    } else {
        all_shown(pretty, outcomes.drop_last(), use_color) + shown_for(
            pretty,
            outcomes.last().0@,
            outcomes.last().1,
            use_color,
        )
    }
}

/// Every outcome can be rendered.
pub open spec fn all_renderable(outcomes: Seq<(String, LintOutcome)>) -> bool {
    forall|i: int| 0 <= i < outcomes.len() ==> renderable((#[trigger] outcomes[i]).1)
}

/// The report is the one that a session of the given kind makes of the outcomes.
pub open spec fn report_of(
    report: SessionReport,
    outcomes: Seq<(String, LintOutcome)>,
    kind: LintReporterKind,
    use_color: bool,
) -> bool {
    &&& report.files_checked == outcomes.len()
    &&& report.result.has_failures == (total_weight(outcomes) > 0)
    &&& texts(report.shown@) == all_shown(kind == LintReporterKind::Pretty, outcomes, use_color)
    &&& match kind {
        LintReporterKind::Pretty => report.reporter matches Reporter::Pretty(p) && p.lint_count
            == total_findings(outcomes) && texts(report.closing@) == summary_lines(
            total_findings(outcomes),
            outcomes.len(),
        ),
        LintReporterKind::Json => report.reporter matches Reporter::Json(j) && j.diagnostics@
            == stable_sorted(all_findings(outcomes)) && error_views(j.errors@) == all_failures(
            outcomes,
        ) && report.closing@.len() == 0,
    }
}

proof fn lemma_unfold_take(outcomes: Seq<(String, LintOutcome)>, i: int)
    requires
        0 <= i < outcomes.len(),
    ensures
        outcomes.take(i + 1).drop_last() == outcomes.take(i),
        outcomes.take(i + 1).last() == outcomes[i],
{
    assert(outcomes.take(i + 1).drop_last() =~= outcomes.take(i));
}

/// Reports the outcomes of a session in the order given, then closes the
/// reporter.
pub fn report_outcomes(
    outcomes: Vec<(String, LintOutcome)>,
    kind: LintReporterKind,
    use_color: bool,
) -> (report: SessionReport)
    requires
        all_renderable(outcomes@),
        total_findings(outcomes@) <= u32::MAX,
    ensures
        report_of(report, outcomes@, kind, use_color),
{
    let ghost given = outcomes@;
    let n: usize = outcomes.len();
    let mut pending = outcomes;
    let mut rest: Vec<(String, LintOutcome)> = Vec::new();
    while pending.len() > 0
        invariant
            pending@.len() + rest@.len() == n,
            n == given.len(),
            forall|k: int| 0 <= k < pending@.len() ==> pending@[k] == given[k],
            forall|k: int| 0 <= k < rest@.len() ==> rest@[k] == given[n - 1 - k],
        decreases pending@.len(),
    {
        let item = pending.pop().unwrap();
        rest.push(item);
    }
    let mut session = LintSession::new(kind);
    let mut shown: Vec<String> = Vec::new();
    let mut done: usize = 0;
    let ghost pretty = kind == LintReporterKind::Pretty;
    assert(given.take(0) =~= Seq::<(String, LintOutcome)>::empty());
    while done < n
        invariant
            n == given.len(),
            0 <= done <= n,
            rest@.len() == n - done,
            forall|k: int| 0 <= k < rest@.len() ==> rest@[k] == given[n - 1 - k],
            all_renderable(given),
            total_findings(given) <= u32::MAX,
            session.wf(),
            session.recorded@ == total_weight(given.take(done as int)),
            texts(shown@) == all_shown(pretty, given.take(done as int), use_color),
            pretty == (kind == LintReporterKind::Pretty),
            total_findings(given.take(done as int)) <= total_findings(given),
            match kind {
                LintReporterKind::Pretty => session.reporter matches Reporter::Pretty(p)
                    && p.lint_count == total_findings(given.take(done as int)),
                LintReporterKind::Json => session.reporter matches Reporter::Json(j)
                    && j.diagnostics@ == all_findings(given.take(done as int)) && error_views(
                    j.errors@,
                ) == all_failures(given.take(done as int)),
            },
        decreases n - done,
    {
        let item = rest.pop().unwrap();
        let ghost shown_before = shown@;
        proof {
            assert(item == given[done as int]);
            lemma_unfold_take(given, done as int);
            lemma_total_findings_grows(given, done + 1);
        }
        let mut texts_now = session.record(item.0.as_str(), item.1, use_color);
        shown.append(&mut texts_now);
        proof {
            assert(texts(shown@) =~= texts(shown_before) + shown_for(
                pretty,
                item.0@,
                item.1,
                use_color,
            ));
        }
        done += 1;
    }
    assert(given.take(n as int) =~= given);
    let (closing, result) = session.finish(n);
    SessionReport { shown, closing, reporter: session.reporter, result, files_checked: n }
}

/// The findings of the first `i` outcomes are no more than those of all.
pub proof fn lemma_total_findings_grows(outcomes: Seq<(String, LintOutcome)>, i: int)
    requires
        0 <= i <= outcomes.len(),
    ensures
        total_findings(outcomes.take(i)) <= total_findings(outcomes),
    decreases outcomes.len() - i,
{
    if i == outcomes.len() {
        assert(outcomes.take(i) =~= outcomes);
    } else {
        lemma_unfold_take(outcomes, i);
        lemma_total_findings_grows(outcomes, i + 1);
    }
}

/// The reporter kind that the structured-output switch selects.
pub open spec fn kind_for(json: bool) -> LintReporterKind {
    if json {
        LintReporterKind::Json
    } else {
        LintReporterKind::Pretty
    }
}

/// Selects the reporter kind by the structured-output switch.
pub fn reporter_kind_for(json: bool) -> (kind: LintReporterKind)
    ensures
        kind == kind_for(json),
{
    if json {
        LintReporterKind::Json
    } else {
        LintReporterKind::Pretty
    }
}

/// The name under which a text read from standard input is reported.
pub fn stdin_file_name() -> (name: &'static str)
    ensures
        name@ == "_stdin.ts"@,
{
    "_stdin.ts"
}

/// Whether the arguments ask for standard input: a single `-`.
pub fn reads_standard_input(args: &Vec<String>) -> (b: bool)
    ensures
        b == (args@.len() == 1 && args@[0]@ == "-"@),
{
    if args.len() != 1 {
        return false;
    }
    let dash: String = "-".to_owned();
    args[0].eq(&dash)
}

/// The outcome that stands for an input: the failure to read it, or a
/// failure where its findings can no longer be counted, else what the
/// analysis gave.
pub fn admit_outcome(outcome: LintOutcome, counted: u32) -> (r: (LintOutcome, u32))
    requires
        renderable(outcome),
    ensures
        renderable(r.0),
        r.1 == counted + findings_count(r.0),
        counted + findings_count(outcome) <= u32::MAX ==> r.0 == outcome,
        counted + findings_count(outcome) > u32::MAX ==> (r.0 matches LintOutcome::Failure {
            message,
        } && message@ == "Too many problems to count"@),
{
    match outcome {
        LintOutcome::Success { diagnostics, source_text } => {
            let room: u32 = u32::MAX - counted;
            if diagnostics.len() <= room as usize {
                let more: u32 = diagnostics.len() as u32;
                (LintOutcome::Success { diagnostics, source_text }, counted + more)
            } else {
                (
                    LintOutcome::Failure { message: "Too many problems to count".to_owned() },
                    counted,
                )
            }
        },
        LintOutcome::Failure { message } => (LintOutcome::Failure { message }, counted),
    }
}

/// Runs a whole session over texts that were read beforehand: settles the
/// rules, analyses each input in turn, records every outcome and closes the
/// reporter. Without rules no input is analysed; without inputs nothing is
/// reported. An input that could not be read is recorded as a failure of
/// that file, and the others are analysed all the same.
pub fn lint_files(
    maybe_lint_config: Option<&LintConfig>,
    rules_tags: Vec<String>,
    rules_include: Vec<String>,
    rules_exclude: Vec<String>,
    inputs: &Vec<SourceInput>,
    json: bool,
    use_color: bool,
) -> (r: Result<SessionReport, SessionError>)
    ensures
        inputs@.len() == 0 ==> r is Err,
        r == Err::<SessionReport, SessionError>(SessionError::NoTargetFiles) ==> inputs@.len()
            == 0,
        !uses_defaults(
            maybe_lint_config,
            texts(rules_tags@),
            texts(rules_include@),
            texts(rules_exclude@),
        ) ==> {
            let codes = configured_codes(
                maybe_lint_config,
                texts(rules_tags@),
                texts(rules_include@),
                texts(rules_exclude@),
            );
            if codes.len() == 0 {
                r == Err::<SessionReport, SessionError>(SessionError::NoRules)
            } else if inputs@.len() == 0 {
                r == Err::<SessionReport, SessionError>(SessionError::NoTargetFiles)
            } else {
                r is Ok
            }
        },
        r matches Ok(report) ==> inputs@.len() > 0 && exists|outcomes: Seq<(String, LintOutcome)>|
            {
                &&& #[trigger] report_of(
                    report,
                    outcomes,
                    kind_for(json),
                    use_color,
                )
                &&& outcomes.len() == inputs@.len()
                &&& forall|i: int|
                    0 <= i < outcomes.len() ==> (#[trigger] outcomes[i]).0@ == inputs@[i].path@
                &&& forall|i: int|
                    0 <= i < outcomes.len() && inputs@[i].content is Err ==> weight(
                        (#[trigger] outcomes[i]).1,
                    ) == 1
            },
{
    let codes = match get_configured_rules(
        maybe_lint_config,
        rules_tags,
        rules_include,
        rules_exclude,
    ) {
        Ok(codes) => codes,
        Err(ConfigurationError::NoRules) => {
            return Err(SessionError::NoRules);
        },
    };
    if inputs.len() == 0 {
        return Err(SessionError::NoTargetFiles);
    }
    let kind = reporter_kind_for(json);
    let mut outcomes: Vec<(String, LintOutcome)> = Vec::new();
    let mut counted: u32 = 0;
    let mut i: usize = 0;
    while i < inputs.len()
        invariant
            0 <= i <= inputs@.len(),
            outcomes@.len() == i,
            all_renderable(outcomes@),
            counted == total_findings(outcomes@),
            forall|k: int| 0 <= k < i ==> (#[trigger] outcomes@[k]).0@ == inputs@[k].path@,
            forall|k: int|
                0 <= k < i && inputs@[k].content is Err ==> weight((#[trigger] outcomes@[k]).1)
                    == 1,
        decreases inputs@.len() - i,
    {
        let input = &inputs[i];
        let outcome = match &input.content {
            Ok(text) => lint_source(input.path.as_str(), text.as_str(), &codes),
            Err(message) => LintOutcome::Failure { message: message.clone() },
        };
        let (admitted, total) = admit_outcome(outcome, counted);
        let ghost before = outcomes@;
        outcomes.push((input.path.clone(), admitted));
        proof {
            assert(outcomes@.drop_last() =~= before);
        }
        counted = total;
        i += 1;
    }
    let report = report_outcomes(outcomes, kind, use_color);
    Ok(report)
}

} // verus!
