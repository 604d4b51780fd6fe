use crate::diagnostic::{Diagnostic, LintOutcome};
use crate::order::{sort_diagnostics, stable_sorted};
use crate::render::range_fits;
use crate::reporter::{
    create_reporter, error_text, error_views, pretty_text, summary_lines, LintReporterKind,
    Reporter,
};
use crate::text::{line_texts, lines_of, split_lines, texts};
use vstd::prelude::*;

verus! {

/// How many records an outcome adds: one for each finding, or one for the failure.
pub open spec fn weight(result: LintOutcome) -> nat {
    match result {
        LintOutcome::Success { diagnostics, .. } => diagnostics@.len(),
        LintOutcome::Failure { .. } => 1,
    }
}

/// How many findings an outcome holds.
pub open spec fn findings_count(result: LintOutcome) -> nat {
    match result {
        LintOutcome::Success { diagnostics, .. } => diagnostics@.len(),
        LintOutcome::Failure { .. } => 0,
    }
}

/// The findings of an outcome in the order in which they are reported.
pub open spec fn findings_of(result: LintOutcome) -> Seq<Diagnostic> {
    match result {
        LintOutcome::Success { diagnostics, .. } => stable_sorted(diagnostics@),
        LintOutcome::Failure { .. } => Seq::empty(),
    }
}

/// The file-level error of an outcome, as a list of none or one.
pub open spec fn failure_of(file: Seq<char>, result: LintOutcome) -> Seq<(Seq<char>, Seq<char>)> {
    match result {
        LintOutcome::Success { .. } => Seq::empty(),
        LintOutcome::Failure { message } => seq![(file, message@)],
    }
}

/// Every finding of the outcome can be underlined on the outcome's source text.
pub open spec fn renderable(result: LintOutcome) -> bool {
    match result {
        LintOutcome::Success { diagnostics, source_text } => forall|i: int|
            0 <= i < diagnostics@.len() ==> range_fits(
                (#[trigger] diagnostics@[i]).range,
                lines_of(source_text@),
            ),
        LintOutcome::Failure { .. } => true,
    }
}

/// The texts that are shown at once for an outcome: by the human-readable
/// reporter one for each finding, or one for the failure; by the structured
/// reporter none.
pub open spec fn shown_for(pretty: bool, file: Seq<char>, result: LintOutcome, use_color: bool) -> Seq<
    Seq<char>,
> {
    if pretty {
        match result {
            LintOutcome::Success { diagnostics, source_text } => stable_sorted(
                diagnostics@,
            ).map_values(|d: Diagnostic| pretty_text(d, lines_of(source_text@), use_color)),
            LintOutcome::Failure { message } => seq![error_text(file, message@)],
        }
    } else {
        Seq::empty()
    }
}

/// How `after` follows from `before` when the outcome of one file is recorded.
pub open spec fn outcome_step(
    before: Reporter,
    after: Reporter,
    file: Seq<char>,
    result: LintOutcome,
) -> bool {
    match (before, after) {
        (Reporter::Pretty(a), Reporter::Pretty(b)) => b.lint_count == a.lint_count
            + findings_count(result),
        (Reporter::Json(a), Reporter::Json(b)) => b.diagnostics@ == a.diagnostics@ + findings_of(
            result,
        ) && error_views(b.errors@) == error_views(a.errors@) + failure_of(file, result),
        _ => false,
    }
}

/// Records the outcome of one file: its findings in order, or its failure.
/// The flag is raised as soon as anything is recorded.
pub fn handle_lint_result(
    file_path: &str,
    result: LintOutcome,
    reporter: &mut Reporter,
    has_error: &mut bool,
    use_color: bool,
) -> (shown: Vec<String>)
    requires
        renderable(result),
        old(reporter).room() >= findings_count(result),
    ensures
        outcome_step(*old(reporter), *final(reporter), file_path@, result),
        *final(has_error) == (*old(has_error) || weight(result) > 0),
        texts(shown@) == shown_for((*old(reporter)) is Pretty, file_path@, result, use_color),
{
    let ghost before = *reporter;
    let mut shown: Vec<String> = Vec::new();
    match result {
        LintOutcome::Success { diagnostics, source_text } => {
            let ghost given = diagnostics@;
            let mut ds = diagnostics;
            sort_diagnostics(&mut ds);
            let lines = split_lines(source_text.as_str());
            proof {
                broadcast use vstd::seq_lib::to_multiset_contains;

                assert forall|k: int| 0 <= k < ds@.len() implies range_fits(
                    (#[trigger] ds@[k]).range,
                    line_texts(lines@),
                ) by {
                    assert(ds@.contains(ds@[k]));
                    assert(given.to_multiset().count(ds@[k]) > 0);
                    assert(given.contains(ds@[k]));
                    let j = choose|j: int| 0 <= j < given.len() && given[j] == ds@[k];
                    assert(range_fits(given[j].range, lines_of(source_text@)));
                }
            }
            let ghost render = |d: Diagnostic| pretty_text(d, lines_of(source_text@), use_color);
            let mut i: usize = 0;
            assert(ds@.take(0).map_values(render) =~= texts(shown@));
            while i < ds.len()
                invariant
                    0 <= i <= ds@.len(),
                    ds@ == stable_sorted(given),
                    ds@.len() == given.len(),
                    line_texts(lines@) == lines_of(source_text@),
                    before.room() >= given.len(),
                    forall|k: int|
                        0 <= k < ds@.len() ==> range_fits(
                            (#[trigger] ds@[k]).range,
                            line_texts(lines@),
                        ),
                    forall|d: Diagnostic| #[trigger]
                        render(d) == pretty_text(d, lines_of(source_text@), use_color),
                    *has_error == (*old(has_error) || i > 0),
                    match (before, *reporter) {
                        (Reporter::Pretty(a), Reporter::Pretty(b)) => b.lint_count == a.lint_count
                            + i && texts(shown@) == ds@.take(i as int).map_values(render),
                        (Reporter::Json(a), Reporter::Json(b)) => b.diagnostics@ == a.diagnostics@
                            + ds@.take(i as int) && b.errors == a.errors && shown@.len() == 0,
                        _ => false,
                    },
                decreases ds@.len() - i,
            {
                *has_error = true;
                let ghost shown_before = shown@;
                let ghost mid = *reporter;
                let out = reporter.visit_diagnostic(&ds[i], lines.as_slice(), use_color);
                let ghost text = if out.is_some() {
                    out.unwrap()@
                } else {
                    Seq::empty()
                };
                match out {
                    Some(t) => {
                        shown.push(t);
                    },
                    None => {},
                }
                proof {
                    assert(ds@.take(i + 1) =~= ds@.take(i as int).push(ds@[i as int]));
                    match (before, mid) {
                        (Reporter::Pretty(a), Reporter::Pretty(b)) => {
                            assert(texts(shown@) =~= texts(shown_before).push(text));
                            assert(text == render(ds@[i as int]));
                            assert(ds@.take(i + 1).map_values(render) =~= ds@.take(
                                i as int,
                            ).map_values(render).push(render(ds@[i as int])));
                        },
                        (Reporter::Json(a), Reporter::Json(b)) => {
                            assert(a.diagnostics@ + ds@.take(i as int).push(ds@[i as int])
                                =~= (a.diagnostics@ + ds@.take(i as int)).push(ds@[i as int]));
                        },
                        _ => {},
                    }
                }
                i += 1;
            }
            let ghost after = *reporter;
            proof {
                assert(ds@.take(ds@.len() as int) =~= ds@);
                assert(ds@.map_values(render) =~= shown_for(true, file_path@, result, use_color));
                match (before, after) {
                    (Reporter::Json(a), Reporter::Json(b)) => {
                        assert(error_views(b.errors@) =~= error_views(a.errors@) + failure_of(
                            file_path@,
                            result,
                        ));
                    },
                    _ => {},
                }
            }
        },
        LintOutcome::Failure { message } => {
            *has_error = true;
            let out = reporter.visit_error(file_path, message.as_str());
            match out {
                Some(t) => {
                    shown.push(t);
                    assert(texts(shown@) =~= seq![error_text(file_path@, message@)]);
                },
                None => {},
            }
            let ghost after = *reporter;
            proof {
                match (before, after) {
                    (Reporter::Json(a), Reporter::Json(b)) => {
                        assert(b.diagnostics@ =~= a.diagnostics@ + findings_of(result));
                        assert(error_views(a.errors@).push((file_path@, message@))
                            =~= error_views(a.errors@) + failure_of(file_path@, result));
                    },
                    _ => {},
                }
            }
        },
    }
    shown
}

/// What a finished session hands to its caller, who decides how the process ends.
#[derive(Clone, Copy, Debug, PartialEq, Eq, Structural)]
pub struct SessionResult {
    pub has_failures: bool,
}

/// The exit status of the process: 1 where anything was recorded, else 0.
pub fn exit_status(result: SessionResult) -> (status: i32)
    ensures
        status == (if result.has_failures { 1int } else { 0int }),
{
    if result.has_failures {
        1
    } else {
        0
    }
}

/// The state that the tasks of one session share: the reporter, the failure
/// flag, and the number of records made so far.
pub struct LintSession {
    pub reporter: Reporter,
    pub has_error: bool,
    pub recorded: Ghost<nat>,
}

impl LintSession {
    /// The flag is raised exactly when something was recorded.
    pub open spec fn wf(&self) -> bool {
        self.has_error == (self.recorded@ > 0)
    }

    pub fn new(kind: LintReporterKind) -> (s: LintSession)
        ensures
            s.wf(),
            s.recorded@ == 0,
            !s.has_error,
            match kind {
                LintReporterKind::Pretty => s.reporter matches Reporter::Pretty(p) && p.lint_count
                    == 0,
                LintReporterKind::Json => s.reporter matches Reporter::Json(j)
                    && j.diagnostics@.len() == 0 && j.errors@.len() == 0,
            },
    {
        LintSession { reporter: create_reporter(kind), has_error: false, recorded: Ghost(0) }
    }

    /// Records the outcome of one file and gives the texts to show at once.
    pub fn record(&mut self, file_path: &str, result: LintOutcome, use_color: bool) -> (shown: Vec<
        String,
    >)
        requires
            old(self).wf(),
            renderable(result),
            old(self).reporter.room() >= findings_count(result),
        ensures
            final(self).wf(),
            final(self).recorded@ == old(self).recorded@ + weight(result),
            outcome_step(old(self).reporter, final(self).reporter, file_path@, result),
            texts(shown@) == shown_for(
                old(self).reporter is Pretty,
                file_path@,
                result,
                use_color,
            ),
    {
        let ghost w = weight(result);
        let shown = handle_lint_result(
            file_path,
            result,
            &mut self.reporter,
            &mut self.has_error,
            use_color,
        );
        self.recorded = Ghost((self.recorded@ + w) as nat);
        shown
    }

    /// Closes the reporter once every file has been recorded, and gives the
    /// closing lines and the result of the session.
    pub fn finish(&mut self, check_count: usize) -> (r: (Vec<String>, SessionResult))
        requires
            old(self).wf(),
        ensures
            final(self).wf(),
            final(self).recorded == old(self).recorded,
            r.1.has_failures == (old(self).recorded@ > 0),
            match (old(self).reporter, final(self).reporter) {
                (Reporter::Pretty(a), Reporter::Pretty(b)) => b == a && texts(r.0@)
                    == summary_lines(a.lint_count as nat, check_count as nat),
                (Reporter::Json(a), Reporter::Json(b)) => b.diagnostics@ == stable_sorted(
                    a.diagnostics@,
                ) && b.errors == a.errors && r.0@.len() == 0,
                _ => false,
            },
    {
        let lines = self.reporter.close(check_count);
        (lines, SessionResult { has_failures: self.has_error })
    }
}

} // verus!
