use crate::diagnostic::{Diagnostic, LintError, Position};
use crate::order::{sort_diagnostics, stable_sorted};
use crate::render::{format_diagnostic, formatted, range_fits, red, red_text};
use crate::text::{decimal, decimal_text, line_texts};
use vstd::prelude::*;

verus! {

/// Which reporter a session writes its findings through.
#[derive(Clone, Copy, Debug, PartialEq, Eq, Structural)]
pub enum LintReporterKind {
    Pretty,
    Json,
}

/// Renders each finding at once and counts them.
pub struct PrettyLintReporter {
    pub lint_count: u32,
}

/// Keeps the findings, and hands them out in order when it is closed.
pub struct JsonLintReporter {
    pub diagnostics: Vec<Diagnostic>,
    pub errors: Vec<LintError>,
}

/// The sink of a session: one of the two reporters.
pub enum Reporter {
    Pretty(PrettyLintReporter),
    Json(JsonLintReporter),
}

/// The hint of a diagnostic as a text.
pub open spec fn hint_of(d: Diagnostic) -> Option<Seq<char>> {
    match d.hint {
        Some(h) => Some(h@),
        None => None,
    }
}

/// The place of a finding: file, line counted from one, column counted from zero.
pub open spec fn location_text(file: Seq<char>, start: Position) -> Seq<char> {
    file + ":"@ + decimal((start.line_index + 1) as nat) + ":"@ + decimal(
        start.column_index as nat,
    )
}

/// The first line of a rendered finding: the rule code in brackets, then the message.
pub open spec fn message_line_text(d: Diagnostic, use_color: bool) -> Seq<char> {
    "("@ + red_text(d.code@, use_color) + ") "@ + d.message@
}

/// What the human-readable reporter writes for one finding.
pub open spec fn pretty_text(d: Diagnostic, lines: Seq<Seq<char>>, use_color: bool) -> Seq<char> {
    formatted(
        d.code@,
        message_line_text(d, use_color),
        lines,
        d.range,
        hint_of(d),
        location_text(d.filename@, d.range.start),
        use_color,
    )
}

/// What the human-readable reporter writes for a file that could not be analysed.
pub open spec fn error_text(file: Seq<char>, message: Seq<char>) -> Seq<char> {
    "Error linting: "@ + file + "\n   "@ + message
}

/// The line that tells how many problems were found; none where there are none.
pub open spec fn problems_line(count: nat) -> Option<Seq<char>> {
    if count == 0 {
        None
    } else if count == 1 {
        Some("Found 1 problem"@)
    } else {
        Some("Found "@ + decimal(count) + " problems"@)
    }
}

/// The line that tells how many files were checked.
pub open spec fn checked_line(n: nat) -> Seq<char> {
    if n <= 1 {
        "Checked "@ + decimal(n) + " file"@
    } else {
        "Checked "@ + decimal(n) + " files"@
    }
}

/// The closing lines of the human-readable reporter.
pub open spec fn summary_lines(count: nat, n: nat) -> Seq<Seq<char>> {
    match problems_line(count) {
        Some(p) => seq![p, checked_line(n)],
        None => seq![checked_line(n)],
    }
}

/// The file-level errors as pairs of file path and message.
pub open spec fn error_views(errors: Seq<LintError>) -> Seq<(Seq<char>, Seq<char>)> {
    errors.map_values(|e: LintError| (e.file_path@, e.message@))
}

/// Writes the place of a finding.
pub fn format_location(filename: &str, start: Position) -> (s: String)
    ensures
        s@ == location_text(filename@, start),
{
    let line = decimal_text(start.line_index as u128 + 1);
    let column = decimal_text(start.column_index as u128);
    let mut s = String::new();
    s.append(filename);
    s.append(":");
    s.append(line.as_str());
    s.append(":");
    s.append(column.as_str());
    assert(s@ =~= location_text(filename@, start));
    s
}

impl PrettyLintReporter {
    pub fn new() -> (r: PrettyLintReporter)
        ensures
            r.lint_count == 0,
    {
        PrettyLintReporter { lint_count: 0 }
    }

    /// Counts the finding and renders it.
    pub fn visit_diagnostic(&mut self, d: &Diagnostic, source_lines: &[&str], use_color: bool) -> (text:
        String)
        requires
            old(self).lint_count < u32::MAX,
            range_fits(d.range, line_texts(source_lines@)),
        ensures
            final(self).lint_count == old(self).lint_count + 1,
            text@ == pretty_text(*d, line_texts(source_lines@), use_color),
    {
        self.lint_count += 1;
        let code = red(d.code.as_str(), use_color);
        let mut message = String::new();
        message.append("(");
        message.append(code.as_str());
        message.append(") ");
        message.append(d.message.as_str());
        assert(message@ =~= message_line_text(*d, use_color));
        let location = format_location(d.filename.as_str(), d.range.start);
        let hint: Option<&String> = match &d.hint {
            Some(h) => Some(h),
            None => None,
        };
        format_diagnostic(
            d.code.as_str(),
            message.as_str(),
            source_lines,
            d.range,
            hint,
            location.as_str(),
            use_color,
        )
    }

    /// Renders a file-level error; the count of findings stays.
    pub fn visit_error(&mut self, file_path: &str, err: &str) -> (text: String)
        ensures
            *final(self) == *old(self),
            text@ == error_text(file_path@, err@),
    {
        let mut text = String::new();
        text.append("Error linting: ");
        text.append(file_path);
        text.append("\n   ");
        text.append(err);
        assert(text@ =~= error_text(file_path@, err@));
        text
    }

    /// The closing lines: the problems found, if any, and the files checked.
    pub fn close(&mut self, check_count: usize) -> (lines: Vec<String>)
        ensures
            *final(self) == *old(self),
            crate::text::texts(lines@) == summary_lines(
                old(self).lint_count as nat,
                check_count as nat,
            ),
    {
        let mut lines: Vec<String> = Vec::new();
        if self.lint_count == 1 {
            let mut found = String::new();
            found.append("Found 1 problem");
            assert(found@ =~= "Found 1 problem"@);
            lines.push(found);
        } else if self.lint_count > 1 {
            let number = decimal_text(self.lint_count as u128);
            let mut found = String::new();
            found.append("Found ");
            found.append(number.as_str());
            found.append(" problems");
            assert(found@ =~= problems_line(self.lint_count as nat).unwrap());
            lines.push(found);
        }
        let number = decimal_text(check_count as u128);
        let mut checked = String::new();
        checked.append("Checked ");
        checked.append(number.as_str());
        if check_count <= 1 {
            checked.append(" file");
        } else {
            checked.append(" files");
        }
        assert(checked@ =~= checked_line(check_count as nat));
        lines.push(checked);
        assert(crate::text::texts(lines@) =~= summary_lines(
            self.lint_count as nat,
            check_count as nat,
        ));
        lines
    }
}

impl JsonLintReporter {
    pub fn new() -> (r: JsonLintReporter)
        ensures
            r.diagnostics@.len() == 0,
            r.errors@.len() == 0,
    {
        JsonLintReporter { diagnostics: Vec::new(), errors: Vec::new() }
    }

    /// Keeps a copy of the finding behind those kept so far.
    pub fn visit_diagnostic(&mut self, d: &Diagnostic)
        ensures
            final(self).diagnostics@ == old(self).diagnostics@.push(*d),
            final(self).errors == old(self).errors,
    {
        self.diagnostics.push(d.duplicate());
    }

    /// Keeps a record of the file and the message behind those kept so far.
    pub fn visit_error(&mut self, file_path: &str, err: &str)
        ensures
            final(self).diagnostics == old(self).diagnostics,
            error_views(final(self).errors@) == error_views(old(self).errors@).push(
                (file_path@, err@),
            ),
    {
        let record = LintError { file_path: file_path.to_owned(), message: err.to_owned() };
        self.errors.push(record);
        assert(error_views(self.errors@) =~= error_views(old(self).errors@).push(
            (file_path@, err@),
        ));
    }

    /// Puts the findings kept into their final order.
    pub fn close(&mut self)
        ensures
            final(self).diagnostics@ == stable_sorted(old(self).diagnostics@),
            final(self).errors == old(self).errors,
    {
        sort_diagnostics(&mut self.diagnostics);
    }
}

/// The reporter of the given kind, with nothing recorded.
pub fn create_reporter(kind: LintReporterKind) -> (r: Reporter)
    ensures
        match kind {
            LintReporterKind::Pretty => r matches Reporter::Pretty(p) && p.lint_count == 0,
            LintReporterKind::Json => r matches Reporter::Json(j) && j.diagnostics@.len() == 0
                && j.errors@.len() == 0,
        },
{
    match kind {
        LintReporterKind::Pretty => Reporter::Pretty(PrettyLintReporter::new()),
        LintReporterKind::Json => Reporter::Json(JsonLintReporter::new()),
    }
}

impl Reporter {
    /// How many further findings the reporter can count.
    pub open spec fn room(&self) -> nat {
        match self {
            Reporter::Pretty(p) => (u32::MAX - p.lint_count) as nat,
            Reporter::Json(_) => usize::MAX as nat,
        }
    }

    /// Decides whether the reporter can count `n` further findings.
    pub fn has_room_for(&self, n: usize) -> (b: bool)
        ensures
            b == (self.room() >= n),
    {
        match self {
            Reporter::Pretty(p) => {
                let room: u32 = u32::MAX - p.lint_count;
                n <= room as usize
            },
            Reporter::Json(_) => true,
        }
    }

    /// How `after` follows from `before` when one finding is visited.
    pub open spec fn diagnostic_step(before: Reporter, after: Reporter, d: Diagnostic) -> bool {
        match (before, after) {
            (Reporter::Pretty(a), Reporter::Pretty(b)) => b.lint_count == a.lint_count + 1,
            (Reporter::Json(a), Reporter::Json(b)) => b.diagnostics@ == a.diagnostics@.push(d)
                && b.errors == a.errors,
            _ => false,
        }
    }

    /// How `after` follows from `before` when one file-level error is visited.
    pub open spec fn error_step(
        before: Reporter,
        after: Reporter,
        file: Seq<char>,
        message: Seq<char>,
    ) -> bool {
        match (before, after) {
            (Reporter::Pretty(a), Reporter::Pretty(b)) => b.lint_count == a.lint_count,
            (Reporter::Json(a), Reporter::Json(b)) => b.diagnostics == a.diagnostics
                && error_views(b.errors@) == error_views(a.errors@).push((file, message)),
            _ => false,
        }
    }

    /// Hands one finding to the reporter; gives the text to show, if any.
    pub fn visit_diagnostic(&mut self, d: &Diagnostic, source_lines: &[&str], use_color: bool) -> (out:
        Option<String>)
        requires
            old(self).room() >= 1,
            range_fits(d.range, line_texts(source_lines@)),
        ensures
            Reporter::diagnostic_step(*old(self), *final(self), *d),
            (*old(self)) is Pretty ==> out.is_some() && out.unwrap()@ == pretty_text(
                *d,
                line_texts(source_lines@),
                use_color,
            ),
            (*old(self)) is Json ==> out.is_none(),
    {
        match self {
            Reporter::Pretty(p) => Some(p.visit_diagnostic(d, source_lines, use_color)),
            Reporter::Json(j) => {
                j.visit_diagnostic(d);
                None
            },
        }
    }

    /// Hands one file-level error to the reporter; gives the text to show, if any.
    pub fn visit_error(&mut self, file_path: &str, err: &str) -> (out: Option<String>)
        ensures
            Reporter::error_step(*old(self), *final(self), file_path@, err@),
            (*old(self)) is Pretty ==> out.is_some() && out.unwrap()@ == error_text(
                file_path@,
                err@,
            ),
            (*old(self)) is Json ==> out.is_none(),
    {
        match self {
            Reporter::Pretty(p) => Some(p.visit_error(file_path, err)),
            Reporter::Json(j) => {
                j.visit_error(file_path, err);
                None
            },
        }
    }

    /// Closes the reporter. The human-readable one gives its closing lines;
    /// the structured one gives none and then holds its findings in order.
    pub fn close(&mut self, check_count: usize) -> (lines: Vec<String>)
        ensures
            match (*old(self), *final(self)) {
                (Reporter::Pretty(a), Reporter::Pretty(b)) => b == a && crate::text::texts(lines@)
                    == summary_lines(a.lint_count as nat, check_count as nat),
                (Reporter::Json(a), Reporter::Json(b)) => b.diagnostics@ == stable_sorted(
                    a.diagnostics@,
                ) && b.errors == a.errors && lines@.len() == 0,
                _ => false,
            },
    {
        match self {
            Reporter::Pretty(p) => p.close(check_count),
            Reporter::Json(j) => {
                j.close();
                Vec::new()
            },
        }
    }
}

} // verus!
