use vstd::prelude::*;

verus! {

/// A zero-based place in a source text.
#[derive(Clone, Copy, Debug, PartialEq, Eq, Structural)]
pub struct Position {
    pub line_index: usize,
    pub column_index: usize,
}

/// A half-open span between two places of one source text.
#[derive(Clone, Copy, Debug, PartialEq, Eq, Structural)]
pub struct Range {
    pub start: Position,
    pub end: Position,
}

impl Range {
    /// The start does not come after the end in document order.
    pub open spec fn is_ordered(&self) -> bool {
        self.start.line_index < self.end.line_index || (self.start.line_index
            == self.end.line_index && self.start.column_index <= self.end.column_index)
    }

    /// Whether the span stays on one line.
    pub open spec fn is_single_line(&self) -> bool {
        self.start.line_index == self.end.line_index
    }

    pub fn new(start: Position, end: Position) -> (r: Range)
        ensures
            r.start == start,
            r.end == end,
    {
        Range { start, end }
    }

    /// Decides `is_ordered`.
    pub fn check_ordered(&self) -> (b: bool)
        ensures
            b == self.is_ordered(),
    {
        self.start.line_index < self.end.line_index || (self.start.line_index
            == self.end.line_index && self.start.column_index <= self.end.column_index)
    }
}

/// One reported rule violation.
#[derive(Clone, Debug, PartialEq, Eq)]
pub struct Diagnostic {
    pub code: String,
    pub message: String,
    pub hint: Option<String>,
    pub filename: String,
    pub range: Range,
}

impl Diagnostic {
    /// A copy that is equal to `self` in every field.
    pub fn duplicate(&self) -> (d: Diagnostic)
        ensures
            d == *self,
    {
        let hint = match &self.hint {
            Some(h) => Some(h.clone()),
            None => None,
        };
        Diagnostic {
            code: self.code.clone(),
            message: self.message.clone(),
            hint,
            filename: self.filename.clone(),
            range: self.range,
        }
    }
}

/// A failure that concerns one file as a whole.
#[derive(Clone, Debug, PartialEq, Eq)]
pub struct LintError {
    pub file_path: String,
    pub message: String,
}

/// What analysing one file gave.
#[derive(Clone, Debug, PartialEq, Eq)]
pub enum LintOutcome {
    Success { diagnostics: Vec<Diagnostic>, source_text: String },
    Failure { message: String },
}

} // verus!
