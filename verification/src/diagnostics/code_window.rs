use crate::span::{Span, SpanCursor};
use vstd::prelude::*;

verus! {

/// How a span is marked in a code window.
#[derive(Debug, Clone, Copy, PartialEq, Eq, Structural)]
pub enum MarkKind {
    /// The place of the error.
    Error,
    /// A place that explains the error.
    Secondary,
    /// A place that a note points at.
    Note,
}

/// A marked span of a code window, with its labels.
#[derive(Debug, Clone)]
pub struct CodeMark {
    pub span: Span,
    pub kind: MarkKind,
    pub labels: Vec<String>,
}

/// The part of a file shown with a diagnostic: where it starts, and the spans marked in it,
/// in the order they were marked.
#[derive(Debug, Clone)]
pub struct CodeWindow {
    pub start: SpanCursor,
    pub marks: Vec<CodeMark>,
}

impl CodeWindow {
    pub fn new(start: SpanCursor) -> (r: Self)
        ensures
            r.start == start,
            r.marks@.len() == 0,
    {
        CodeWindow { start, marks: Vec::new() }
    }

    /// Marks `span` as the place of the error.
    pub fn mark_error(&mut self, span: Span, labels: Vec<String>)
        ensures
            final(self).start == old(self).start,
            final(self).marks@ == old(self).marks@.push(
                CodeMark { span, kind: MarkKind::Error, labels },
            ),
    {
        self.marks.push(CodeMark { span, kind: MarkKind::Error, labels });
    }

    /// Marks `span` as a place that explains the error.
    pub fn mark_secondary(&mut self, span: Span, labels: Vec<String>)
        ensures
            final(self).start == old(self).start,
            final(self).marks@ == old(self).marks@.push(
                CodeMark { span, kind: MarkKind::Secondary, labels },
            ),
    {
        self.marks.push(CodeMark { span, kind: MarkKind::Secondary, labels });
    }

    /// Marks `span` as a place a note points at.
    pub fn mark_note(&mut self, span: Span, labels: Vec<String>)
        ensures
            final(self).start == old(self).start,
            final(self).marks@ == old(self).marks@.push(
                CodeMark { span, kind: MarkKind::Note, labels },
            ),
    {
        self.marks.push(CodeMark { span, kind: MarkKind::Note, labels });
    }
}

} // verus!
