//! Diagnostics: the errors, warnings, help and notes that the compiler reports, each with
//! a message, the part of the file it is about, and the diagnostics chained after it.
pub mod code_window;
pub mod lexer_errors;

use crate::span::SpanCursor;
use code_window::CodeWindow;
use vstd::prelude::*;

verus! {

pub struct Diagnostic {
    level: DiagnosticLevel,
    msg: String,
    code_window: Option<CodeWindow>,
    chained_diagnostics: Vec<Diagnostic>,
}

#[derive(Debug, Clone, Copy, PartialEq, Eq, Structural)]
pub enum DiagnosticLevel {
    Error,
    ErrorWithCode(usize),
    Warning,
    Help,
    Note,
}

impl Diagnostic {
    pub closed spec fn level(&self) -> DiagnosticLevel {
        self.level
    }

    pub closed spec fn msg(&self) -> Seq<char> {
        self.msg@
    }

    pub closed spec fn code_window(&self) -> Option<CodeWindow> {
        self.code_window
    }

    pub closed spec fn chained(&self) -> Seq<Diagnostic> {
        self.chained_diagnostics@
    }

    pub fn error(msg: String, code_window: Option<CodeWindow>) -> (r: Self)
        ensures
            r.level() == DiagnosticLevel::Error,
            r.msg() == msg@,
            r.code_window() == code_window,
            r.chained().len() == 0,
    {
        Self::new(DiagnosticLevel::Error, msg, code_window)
    }

    pub fn help(msg: String, code_window: Option<CodeWindow>) -> (r: Self)
        ensures
            r.level() == DiagnosticLevel::Help,
            r.msg() == msg@,
            r.code_window() == code_window,
            r.chained().len() == 0,
    {
        Self::new(DiagnosticLevel::Help, msg, code_window)
    }

    #[inline]
    fn new(level: DiagnosticLevel, msg: String, code_window: Option<CodeWindow>) -> (r: Self)
        ensures
            r.level() == level,
            r.msg() == msg@,
            r.code_window() == code_window,
            r.chained().len() == 0,
    {
        Diagnostic { level: level, msg: msg, code_window: code_window, chained_diagnostics: vec![] }
    }

    /// Chains `with` after the diagnostics already chained to this one.
    pub fn chain(&mut self, with: Diagnostic) -> (r: &mut Self)
        ensures
            r.level() == old(self).level(),
            r.msg() == old(self).msg(),
            r.code_window() == old(self).code_window(),
            r.chained() == old(self).chained().push(with),
            *final(self) == *final(r),
    {
        self.chained_diagnostics.push(with);
        self
    }

    /// The level of the diagnostic.
    pub fn get_level(&self) -> (r: DiagnosticLevel)
        ensures
            r == self.level(),
    {
        self.level
    }

    /// The message of the diagnostic.
    pub fn get_msg(&self) -> (r: &str)
        ensures
            r@ == self.msg(),
    {
        self.msg.as_str()
    }

    /// The code window of the diagnostic, if it has one.
    pub fn get_code_window(&self) -> (r: &Option<CodeWindow>)
        ensures
            *r == self.code_window(),
    {
        &self.code_window
    }

    /// The diagnostics chained after this one.
    pub fn get_chained(&self) -> (r: &Vec<Diagnostic>)
        ensures
            r@ == self.chained(),
    {
        &self.chained_diagnostics
    }
}

/// The diagnostics of one phase of the compiler on one file: the file's path and lines, and
/// the diagnostics in the order they were reported.
pub struct PhaseDiagnostics<'a> {
    pub file_path: &'a str,
    pub file_lines: &'a [&'a str],
    pub diagnostics: Vec<Diagnostic>,
}

impl<'a> PhaseDiagnostics<'a> {
    pub fn new(file_path: &'a str, file_lines: &'a [&'a str]) -> (r: Self)
        ensures
            r.file_path == file_path,
            r.file_lines == file_lines,
            r.diagnostics@.len() == 0,
    {
        PhaseDiagnostics { file_path, file_lines, diagnostics: vec![] }
    }

    /// A code window on this phase's file, starting at `cursor`.
    pub fn new_code_window(&self, cursor: SpanCursor) -> (r: CodeWindow)
        ensures
            r.start == cursor,
            r.marks@.len() == 0,
    {
        CodeWindow::new(cursor)
    }

    pub fn push(&mut self, diagnostic: Diagnostic)
        ensures
            final(self).file_path == old(self).file_path,
            final(self).file_lines == old(self).file_lines,
            final(self).diagnostics@ == old(self).diagnostics@.push(diagnostic),
    {
        self.diagnostics.push(diagnostic);
    }

    /// Chains `diagnostic` to the last diagnostic reported; with none reported, nothing changes.
    pub fn chain_on_last(&mut self, diagnostic: Diagnostic)
        ensures
            final(self).file_path == old(self).file_path,
            final(self).file_lines == old(self).file_lines,
            old(self).diagnostics@.len() == 0 ==> final(self).diagnostics@ == old(
                self,
            ).diagnostics@,
            old(self).diagnostics@.len() > 0 ==> {
                let n = old(self).diagnostics@.len() - 1;
                let last = old(self).diagnostics@[n];
                let chained = final(self).diagnostics@[n];
                &&& final(self).diagnostics@.len() == old(self).diagnostics@.len()
                &&& final(self).diagnostics@.take(n) == old(self).diagnostics@.take(n)
                &&& chained.level() == last.level()
                &&& chained.msg() == last.msg()
                &&& chained.code_window() == last.code_window()
                &&& chained.chained() == last.chained().push(diagnostic)
            },
    {
        let n = self.diagnostics.len();
        if n > 0 {
            let ghost before = self.diagnostics@;
            let mut last = self.diagnostics.pop().unwrap();
            last.chain(diagnostic);
            self.diagnostics.push(last);
            proof {
                assert(self.diagnostics@.take(n - 1) =~= before.take(n - 1));
            }
        }
    }
}

} // verus!
