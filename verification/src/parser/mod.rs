pub mod ast;
pub mod ast_generator;
pub mod checks;
pub mod errors_reporter;
pub mod parse_methods;
pub mod path;
pub mod report_seq;
pub mod syntax;
pub mod terminal;
pub mod tokens_iter;

use crate::diagnostics::Diagnostic;
use crate::lexer::error::LexerError;
use crate::lexer::lexer_iter::{lemma_token_spans_bounded, lexing_errors, tokenizes, LexerIter};
use crate::lexer::token::Token;
use errors_reporter::{is_lexer_error_report, ParseErrorsReporter};
use vstd::prelude::*;

verus! {

/// `r` reports the lexer errors `errors` that lexing `content` into `tokens` found, one
/// diagnostic per error, in order.
pub open spec fn lexer_errors_reported(
    content: Seq<char>,
    tokens: Seq<Token>,
    errors: Seq<LexerError>,
    r: Seq<Diagnostic>,
) -> bool {
    &&& tokenizes(content, tokens, content.len() as int)
    &&& r.len() == errors.len()
    &&& forall|k: int|
        0 <= k < errors.len() ==> errors[k].token_idx < tokens.len() && is_lexer_error_report(
            #[trigger] r[k],
            errors[k],
            tokens[errors[k].token_idx as int].span,
        )
}

/// The parsing of one file: its path and its content.
pub struct ParseCtx<'a> {
    pub file_path: &'a str,
    pub file_content: &'a str,
}

impl<'a> ParseCtx<'a> {
    pub fn new(file_path: &'a str, file_content: &'a str) -> (r: Self)
        ensures
            r.file_path == file_path,
            r.file_content == file_content,
    {
        Self { file_path, file_content }
    }

    /// Lexes the file and reports the errors that lexing it finds, one diagnostic per error in
    /// the order they were found.
    pub fn parse(&self) -> (r: Vec<Diagnostic>)
        requires
            4 * self.file_content@.len() + 16 <= usize::MAX,
        ensures
            exists|tokens: Seq<Token>| #[trigger]
                lexer_errors_reported(
                    self.file_content@,
                    tokens,
                    lexing_errors(self.file_content@, tokens),
                    r@,
                ),
    {
        let (tokens, file_lines, lexer_errors) = LexerIter::new(self.file_content).collect_all();
        let mut reporter = ParseErrorsReporter::new(
            self.file_path,
            file_lines.as_slice(),
            tokens.as_slice(),
        );
        proof {
            assert forall|k: int| 0 <= k < lexer_errors@.len() implies reporter.tokens()[#[trigger] lexer_errors@[k].token_idx as int].span.start.col
                < usize::MAX by {
                lemma_token_spans_bounded(
                    self.file_content@,
                    tokens@,
                    self.file_content@.len() as int,
                    lexer_errors@[k].token_idx as int,
                );
            }
        }
        reporter.report_lexer_errors(lexer_errors.as_slice());
        let ghost reported = reporter.diagnostics();
        let diagnostics = reporter.into_diagnostics().diagnostics;
        proof {
            assert forall|k: int| 0 <= k < lexer_errors@.len() implies lexer_errors@[k].token_idx
                < tokens@.len() && is_lexer_error_report(
                #[trigger] diagnostics@[k],
                lexer_errors@[k],
                tokens@[lexer_errors@[k].token_idx as int].span,
            ) by {
                assert(reported[0 + k] == diagnostics@[k]);
            }
        }
        proof {
            assert(diagnostics@.take(0) =~= Seq::<Diagnostic>::empty());
            assert(lexer_errors_reported(self.file_content@, tokens@, lexer_errors@, diagnostics@));
        }
        diagnostics
    }
}

} // verus!
