use super::code_window::{CodeMark, MarkKind};
use super::{Diagnostic, DiagnosticLevel, PhaseDiagnostics};
use crate::span::{Span, SpanCursor};
use vstd::prelude::*;

verus! {

impl<'a> PhaseDiagnostics<'a> {
    /// Reports an invalid token at `cursor`: an error whose code window starts at `cursor`
    /// and marks, with no label, the one column there.
    pub fn report_unknown_token(&mut self, cursor: SpanCursor)
        requires
            cursor.col < usize::MAX,
        ensures
            final(self).file_path == old(self).file_path,
            final(self).file_lines == old(self).file_lines,
            final(self).diagnostics@.len() == old(self).diagnostics@.len() + 1,
            final(self).diagnostics@.take(old(self).diagnostics@.len() as int) == old(
                self,
            ).diagnostics@,
            ({
                let d = final(self).diagnostics@.last();
                &&& d.level() == DiagnosticLevel::Error
                &&& d.msg() == "رمز غير صالح"@
                &&& d.chained().len() == 0
                &&& d.code_window() matches Some(w) && w.start == cursor && w.marks@.len() == 1
                    && w.marks@[0].kind == MarkKind::Error && w.marks@[0].labels@.len() == 0
                    && w.marks@[0].span == (Span {
                    start: cursor,
                    end: SpanCursor { line: cursor.line, col: (cursor.col + 1) as usize },
                })
            }),
    {
        let mut code_window = self.new_code_window(cursor);
        code_window.mark_error(
            Span { start: cursor, end: SpanCursor { line: cursor.line, col: cursor.col + 1 } },
            vec![],  // No labels
        );
        let err = Diagnostic::new(
            DiagnosticLevel::Error,
            String::from_str("رمز غير صالح"),
            Some(code_window),
        );
        let ghost before = self.diagnostics@;
        self.push(err);
        proof {
            assert(self.diagnostics@.take(before.len() as int) =~= before);
        }
    }
}

} // verus!
