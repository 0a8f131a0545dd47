//! The terminals of the syntax tree: the symbols, the keywords and the identifiers, each
//! read from one token.
use super::parse_methods::{eof_err, moved_to, parse_step, Check, NazmcParse, ParseErr, ParseResult};
use super::tokens_iter::{skips_trivia, TokensIter};
use crate::lexer::token::{KeywordKind, SymbolKind, TokenKind};
use crate::span::Span;
use std::sync::Arc;
use vstd::prelude::*;

verus! {

/// What reading a terminal does. When the recent token is one that `wanted` accepts, the
/// terminal is read with that token's span, and the iterator moves past it and the trivia
/// after it. Otherwise reading fails at the recent token, or with the end-of-tokens error
/// when there is no recent token, and the iterator stays where it is.
pub open spec fn read_terminal(
    before: TokensIter,
    after: TokensIter,
    wanted: spec_fn(TokenKind) -> bool,
    r: ParseResult<Span>,
) -> bool {
    &&& parse_step(before, after)
    &&& match before.recent_token() {
        Some(t) => if wanted(t.kind) {
            &&& r == Ok::<Span, ParseErr>(t.span)
            &&& skips_trivia(before.tokens@, before.peek_idx as int, after.peek_idx as int)
        } else {
            &&& r == Err::<Span, ParseErr>(ParseErr { found_token_index: (before.peek_idx - 1) as usize })
            &&& after.peek_idx == before.peek_idx
        },
        None => r == Err::<Span, ParseErr>(eof_err()) && after.peek_idx == before.peek_idx,
    }
}

/// Reads the recent token as a terminal when `fits` says it is of the wanted kind.
fn read_fitting(iter: &mut TokensIter, fits: bool) -> (r: ParseResult<Span>)
    requires
        old(iter).wf(),
        old(iter).recent_token() is Some,
    ensures
        parse_step(*old(iter), *final(iter)),
        fits ==> r == Ok::<Span, ParseErr>(old(iter).recent_token()->0.span) && skips_trivia(
            old(iter).tokens@,
            old(iter).peek_idx as int,
            final(iter).peek_idx as int,
        ),
        !fits ==> r == Err::<Span, ParseErr>(ParseErr { found_token_index: (old(iter).peek_idx - 1) as usize })
            && final(iter).peek_idx == old(iter).peek_idx,
{
    let token = iter.recent().unwrap();
    if fits {
        let span = token.span;
        iter.next_non_space_or_comment();
        Ok(span)
    } else {
        Err(ParseErr { found_token_index: iter.peek_idx - 1 })
    }
}

/// Reads the symbol `kind` from the recent token.
pub fn read_symbol(iter: &mut TokensIter, kind: SymbolKind) -> (r: ParseResult<Span>)
    requires
        old(iter).wf(),
    ensures
        read_terminal(*old(iter), *final(iter), |k: TokenKind| k == TokenKind::Symbol(kind), r),
{
    let fits = match iter.recent() {
        Some(token) => match &token.kind {
            TokenKind::Symbol(symbol) => *symbol == kind,
            _ => false,
        },
        None => {
            return ParseErr::eof();
        },
    };
    read_fitting(iter, fits)
}

/// Reads the keyword `kind` from the recent token.
pub fn read_keyword(iter: &mut TokensIter, kind: KeywordKind) -> (r: ParseResult<Span>)
    requires
        old(iter).wf(),
    ensures
        read_terminal(*old(iter), *final(iter), |k: TokenKind| k == TokenKind::Keyword(kind), r),
{
    let fits = match iter.recent() {
        Some(token) => match &token.kind {
            TokenKind::Keyword(keyword) => *keyword == kind,
            _ => false,
        },
        None => {
            return ParseErr::eof();
        },
    };
    read_fitting(iter, fits)
}

/// `Arc::clone`: another pointer to the same string.
#[verifier::external_body]
fn share_str(s: &Arc<String>) -> (r: Arc<String>)
    ensures
        r == *s,
{
    Arc::clone(s)
}

/// An identifier, with its name.
#[derive(Debug, Clone)]
pub struct Id {
    pub span: Span,
    pub data: Arc<String>,
}

impl NazmcParse for Id {
    open spec fn parsed(before: TokensIter, r: ParseResult<Self>, after: usize) -> bool {
        &&& read_terminal(
            before,
            moved_to(before, after),
            |k: TokenKind| k is Id,
            match r {
                Ok(x) => Ok::<Span, ParseErr>(x.span),
                Err(e) => Err::<Span, ParseErr>(e),
            },
        )
        &&& r matches Ok(x) ==> before.recent_token()->0.kind == TokenKind::Id(x.data)
    }

    /// Reads an identifier from the recent token (see `read_terminal`); its name is the
    /// token's.
    fn parse(iter: &mut TokensIter) -> (r: ParseResult<Self>)
        ensures
            read_terminal(
                *old(iter),
                *final(iter),
                |k: TokenKind| k is Id,
                match r {
                    Ok(x) => Ok::<Span, ParseErr>(x.span),
                    Err(e) => Err::<Span, ParseErr>(e),
                },
            ),
            r matches Ok(x) ==> old(iter).recent_token()->0.kind == TokenKind::Id(x.data),
    {
        let (fits, data) = match iter.recent() {
            Some(token) => match &token.kind {
                TokenKind::Id(name) => (true, Some(share_str(name))),
                _ => (false, None),
            },
            None => {
                return ParseErr::eof();
            },
        };
        match read_fitting(iter, fits) {
            Ok(span) => Ok(Id { span, data: data.unwrap() }),
            Err(e) => Err(e),
        }
    }
}

impl Check for Id {
    open spec fn broken(&self) -> bool {
        false
    }

    fn is_broken(&self) -> (r: bool) {
        false
    }
}

/// The symbol comma.
#[derive(Debug, Clone, Copy)]
pub struct CommaSymbol {
    pub span: Span,
}

impl NazmcParse for CommaSymbol {
    open spec fn parsed(before: TokensIter, r: ParseResult<Self>, after: usize) -> bool {
        read_terminal(
            before,
            moved_to(before, after),
            |k: TokenKind| k == TokenKind::Symbol(SymbolKind::Comma),
            match r {
                Ok(x) => Ok::<Span, ParseErr>(x.span),
                Err(e) => Err::<Span, ParseErr>(e),
            },
        )
    }
    fn parse(iter: &mut TokensIter) -> (r: ParseResult<Self>)
        ensures
            read_terminal(
                *old(iter),
                *final(iter),
                |k: TokenKind| k == TokenKind::Symbol(SymbolKind::Comma),
                match r {
                    Ok(x) => Ok::<Span, ParseErr>(x.span),
                    Err(e) => Err::<Span, ParseErr>(e),
                },
            ),
    {
        match read_symbol(iter, SymbolKind::Comma) {
            Ok(span) => Ok(CommaSymbol { span }),
            Err(e) => Err(e),
        }
    }
}

impl Check for CommaSymbol {
    open spec fn broken(&self) -> bool {
        false
    }

    fn is_broken(&self) -> (r: bool) {
        false
    }
}

/// The symbol semicolon.
#[derive(Debug, Clone, Copy)]
pub struct SemicolonSymbol {
    pub span: Span,
}

impl NazmcParse for SemicolonSymbol {
    open spec fn parsed(before: TokensIter, r: ParseResult<Self>, after: usize) -> bool {
        read_terminal(
            before,
            moved_to(before, after),
            |k: TokenKind| k == TokenKind::Symbol(SymbolKind::Semicolon),
            match r {
                Ok(x) => Ok::<Span, ParseErr>(x.span),
                Err(e) => Err::<Span, ParseErr>(e),
            },
        )
    }
    fn parse(iter: &mut TokensIter) -> (r: ParseResult<Self>)
        ensures
            read_terminal(
                *old(iter),
                *final(iter),
                |k: TokenKind| k == TokenKind::Symbol(SymbolKind::Semicolon),
                match r {
                    Ok(x) => Ok::<Span, ParseErr>(x.span),
                    Err(e) => Err::<Span, ParseErr>(e),
                },
            ),
    {
        match read_symbol(iter, SymbolKind::Semicolon) {
            Ok(span) => Ok(SemicolonSymbol { span }),
            Err(e) => Err(e),
        }
    }
}

impl Check for SemicolonSymbol {
    open spec fn broken(&self) -> bool {
        false
    }

    fn is_broken(&self) -> (r: bool) {
        false
    }
}

/// The symbol question mark.
#[derive(Debug, Clone, Copy)]
pub struct QuestionMarkSymbol {
    pub span: Span,
}

impl NazmcParse for QuestionMarkSymbol {
    open spec fn parsed(before: TokensIter, r: ParseResult<Self>, after: usize) -> bool {
        read_terminal(
            before,
            moved_to(before, after),
            |k: TokenKind| k == TokenKind::Symbol(SymbolKind::QuestionMark),
            match r {
                Ok(x) => Ok::<Span, ParseErr>(x.span),
                Err(e) => Err::<Span, ParseErr>(e),
            },
        )
    }
    fn parse(iter: &mut TokensIter) -> (r: ParseResult<Self>)
        ensures
            read_terminal(
                *old(iter),
                *final(iter),
                |k: TokenKind| k == TokenKind::Symbol(SymbolKind::QuestionMark),
                match r {
                    Ok(x) => Ok::<Span, ParseErr>(x.span),
                    Err(e) => Err::<Span, ParseErr>(e),
                },
            ),
    {
        match read_symbol(iter, SymbolKind::QuestionMark) {
            Ok(span) => Ok(QuestionMarkSymbol { span }),
            Err(e) => Err(e),
        }
    }
}

impl Check for QuestionMarkSymbol {
    open spec fn broken(&self) -> bool {
        false
    }

    fn is_broken(&self) -> (r: bool) {
        false
    }
}

/// The symbol open parenthesis.
#[derive(Debug, Clone, Copy)]
pub struct OpenParenthesisSymbol {
    pub span: Span,
}

impl NazmcParse for OpenParenthesisSymbol {
    open spec fn parsed(before: TokensIter, r: ParseResult<Self>, after: usize) -> bool {
        read_terminal(
            before,
            moved_to(before, after),
            |k: TokenKind| k == TokenKind::Symbol(SymbolKind::OpenParenthesis),
            match r {
                Ok(x) => Ok::<Span, ParseErr>(x.span),
                Err(e) => Err::<Span, ParseErr>(e),
            },
        )
    }
    fn parse(iter: &mut TokensIter) -> (r: ParseResult<Self>)
        ensures
            read_terminal(
                *old(iter),
                *final(iter),
                |k: TokenKind| k == TokenKind::Symbol(SymbolKind::OpenParenthesis),
                match r {
                    Ok(x) => Ok::<Span, ParseErr>(x.span),
                    Err(e) => Err::<Span, ParseErr>(e),
                },
            ),
    {
        match read_symbol(iter, SymbolKind::OpenParenthesis) {
            Ok(span) => Ok(OpenParenthesisSymbol { span }),
            Err(e) => Err(e),
        }
    }
}

impl Check for OpenParenthesisSymbol {
    open spec fn broken(&self) -> bool {
        false
    }

    fn is_broken(&self) -> (r: bool) {
        false
    }
}

/// The symbol close parenthesis.
#[derive(Debug, Clone, Copy)]
pub struct CloseParenthesisSymbol {
    pub span: Span,
}

impl NazmcParse for CloseParenthesisSymbol {
    open spec fn parsed(before: TokensIter, r: ParseResult<Self>, after: usize) -> bool {
        read_terminal(
            before,
            moved_to(before, after),
            |k: TokenKind| k == TokenKind::Symbol(SymbolKind::CloseParenthesis),
            match r {
                Ok(x) => Ok::<Span, ParseErr>(x.span),
                Err(e) => Err::<Span, ParseErr>(e),
            },
        )
    }
    fn parse(iter: &mut TokensIter) -> (r: ParseResult<Self>)
        ensures
            read_terminal(
                *old(iter),
                *final(iter),
                |k: TokenKind| k == TokenKind::Symbol(SymbolKind::CloseParenthesis),
                match r {
                    Ok(x) => Ok::<Span, ParseErr>(x.span),
                    Err(e) => Err::<Span, ParseErr>(e),
                },
            ),
    {
        match read_symbol(iter, SymbolKind::CloseParenthesis) {
            Ok(span) => Ok(CloseParenthesisSymbol { span }),
            Err(e) => Err(e),
        }
    }
}

impl Check for CloseParenthesisSymbol {
    open spec fn broken(&self) -> bool {
        false
    }

    fn is_broken(&self) -> (r: bool) {
        false
    }
}

/// The symbol open curly brace.
#[derive(Debug, Clone, Copy)]
pub struct OpenCurlyBraceSymbol {
    pub span: Span,
}

impl NazmcParse for OpenCurlyBraceSymbol {
    open spec fn parsed(before: TokensIter, r: ParseResult<Self>, after: usize) -> bool {
        read_terminal(
            before,
            moved_to(before, after),
            |k: TokenKind| k == TokenKind::Symbol(SymbolKind::OpenCurlyBrace),
            match r {
                Ok(x) => Ok::<Span, ParseErr>(x.span),
                Err(e) => Err::<Span, ParseErr>(e),
            },
        )
    }
    fn parse(iter: &mut TokensIter) -> (r: ParseResult<Self>)
        ensures
            read_terminal(
                *old(iter),
                *final(iter),
                |k: TokenKind| k == TokenKind::Symbol(SymbolKind::OpenCurlyBrace),
                match r {
                    Ok(x) => Ok::<Span, ParseErr>(x.span),
                    Err(e) => Err::<Span, ParseErr>(e),
                },
            ),
    {
        match read_symbol(iter, SymbolKind::OpenCurlyBrace) {
            Ok(span) => Ok(OpenCurlyBraceSymbol { span }),
            Err(e) => Err(e),
        }
    }
}

impl Check for OpenCurlyBraceSymbol {
    open spec fn broken(&self) -> bool {
        false
    }

    fn is_broken(&self) -> (r: bool) {
        false
    }
}

/// The symbol close curly brace.
#[derive(Debug, Clone, Copy)]
pub struct CloseCurlyBraceSymbol {
    pub span: Span,
}

impl NazmcParse for CloseCurlyBraceSymbol {
    open spec fn parsed(before: TokensIter, r: ParseResult<Self>, after: usize) -> bool {
        read_terminal(
            before,
            moved_to(before, after),
            |k: TokenKind| k == TokenKind::Symbol(SymbolKind::CloseCurlyBrace),
            match r {
                Ok(x) => Ok::<Span, ParseErr>(x.span),
                Err(e) => Err::<Span, ParseErr>(e),
            },
        )
    }
    fn parse(iter: &mut TokensIter) -> (r: ParseResult<Self>)
        ensures
            read_terminal(
                *old(iter),
                *final(iter),
                |k: TokenKind| k == TokenKind::Symbol(SymbolKind::CloseCurlyBrace),
                match r {
                    Ok(x) => Ok::<Span, ParseErr>(x.span),
                    Err(e) => Err::<Span, ParseErr>(e),
                },
            ),
    {
        match read_symbol(iter, SymbolKind::CloseCurlyBrace) {
            Ok(span) => Ok(CloseCurlyBraceSymbol { span }),
            Err(e) => Err(e),
        }
    }
}

impl Check for CloseCurlyBraceSymbol {
    open spec fn broken(&self) -> bool {
        false
    }

    fn is_broken(&self) -> (r: bool) {
        false
    }
}

/// The symbol open square bracket.
#[derive(Debug, Clone, Copy)]
pub struct OpenSquareBracketSymbol {
    pub span: Span,
}

impl NazmcParse for OpenSquareBracketSymbol {
    open spec fn parsed(before: TokensIter, r: ParseResult<Self>, after: usize) -> bool {
        read_terminal(
            before,
            moved_to(before, after),
            |k: TokenKind| k == TokenKind::Symbol(SymbolKind::OpenSquareBracket),
            match r {
                Ok(x) => Ok::<Span, ParseErr>(x.span),
                Err(e) => Err::<Span, ParseErr>(e),
            },
        )
    }
    fn parse(iter: &mut TokensIter) -> (r: ParseResult<Self>)
        ensures
            read_terminal(
                *old(iter),
                *final(iter),
                |k: TokenKind| k == TokenKind::Symbol(SymbolKind::OpenSquareBracket),
                match r {
                    Ok(x) => Ok::<Span, ParseErr>(x.span),
                    Err(e) => Err::<Span, ParseErr>(e),
                },
            ),
    {
        match read_symbol(iter, SymbolKind::OpenSquareBracket) {
            Ok(span) => Ok(OpenSquareBracketSymbol { span }),
            Err(e) => Err(e),
        }
    }
}

impl Check for OpenSquareBracketSymbol {
    open spec fn broken(&self) -> bool {
        false
    }

    fn is_broken(&self) -> (r: bool) {
        false
    }
}

/// The symbol close square bracket.
#[derive(Debug, Clone, Copy)]
pub struct CloseSquareBracketSymbol {
    pub span: Span,
}

impl NazmcParse for CloseSquareBracketSymbol {
    open spec fn parsed(before: TokensIter, r: ParseResult<Self>, after: usize) -> bool {
        read_terminal(
            before,
            moved_to(before, after),
            |k: TokenKind| k == TokenKind::Symbol(SymbolKind::CloseSquareBracket),
            match r {
                Ok(x) => Ok::<Span, ParseErr>(x.span),
                Err(e) => Err::<Span, ParseErr>(e),
            },
        )
    }
    fn parse(iter: &mut TokensIter) -> (r: ParseResult<Self>)
        ensures
            read_terminal(
                *old(iter),
                *final(iter),
                |k: TokenKind| k == TokenKind::Symbol(SymbolKind::CloseSquareBracket),
                match r {
                    Ok(x) => Ok::<Span, ParseErr>(x.span),
                    Err(e) => Err::<Span, ParseErr>(e),
                },
            ),
    {
        match read_symbol(iter, SymbolKind::CloseSquareBracket) {
            Ok(span) => Ok(CloseSquareBracketSymbol { span }),
            Err(e) => Err(e),
        }
    }
}

impl Check for CloseSquareBracketSymbol {
    open spec fn broken(&self) -> bool {
        false
    }

    fn is_broken(&self) -> (r: bool) {
        false
    }
}

/// The symbol dot.
#[derive(Debug, Clone, Copy)]
pub struct DotSymbol {
    pub span: Span,
}

impl NazmcParse for DotSymbol {
    open spec fn parsed(before: TokensIter, r: ParseResult<Self>, after: usize) -> bool {
        read_terminal(
            before,
            moved_to(before, after),
            |k: TokenKind| k == TokenKind::Symbol(SymbolKind::Dot),
            match r {
                Ok(x) => Ok::<Span, ParseErr>(x.span),
                Err(e) => Err::<Span, ParseErr>(e),
            },
        )
    }
    fn parse(iter: &mut TokensIter) -> (r: ParseResult<Self>)
        ensures
            read_terminal(
                *old(iter),
                *final(iter),
                |k: TokenKind| k == TokenKind::Symbol(SymbolKind::Dot),
                match r {
                    Ok(x) => Ok::<Span, ParseErr>(x.span),
                    Err(e) => Err::<Span, ParseErr>(e),
                },
            ),
    {
        match read_symbol(iter, SymbolKind::Dot) {
            Ok(span) => Ok(DotSymbol { span }),
            Err(e) => Err(e),
        }
    }
}

impl Check for DotSymbol {
    open spec fn broken(&self) -> bool {
        false
    }

    fn is_broken(&self) -> (r: bool) {
        false
    }
}

/// The symbol open angle bracket or less.
#[derive(Debug, Clone, Copy)]
pub struct OpenAngleBracketOrLessSymbol {
    pub span: Span,
}

impl NazmcParse for OpenAngleBracketOrLessSymbol {
    open spec fn parsed(before: TokensIter, r: ParseResult<Self>, after: usize) -> bool {
        read_terminal(
            before,
            moved_to(before, after),
            |k: TokenKind| k == TokenKind::Symbol(SymbolKind::OpenAngleBracketOrLess),
            match r {
                Ok(x) => Ok::<Span, ParseErr>(x.span),
                Err(e) => Err::<Span, ParseErr>(e),
            },
        )
    }
    fn parse(iter: &mut TokensIter) -> (r: ParseResult<Self>)
        ensures
            read_terminal(
                *old(iter),
                *final(iter),
                |k: TokenKind| k == TokenKind::Symbol(SymbolKind::OpenAngleBracketOrLess),
                match r {
                    Ok(x) => Ok::<Span, ParseErr>(x.span),
                    Err(e) => Err::<Span, ParseErr>(e),
                },
            ),
    {
        match read_symbol(iter, SymbolKind::OpenAngleBracketOrLess) {
            Ok(span) => Ok(OpenAngleBracketOrLessSymbol { span }),
            Err(e) => Err(e),
        }
    }
}

impl Check for OpenAngleBracketOrLessSymbol {
    open spec fn broken(&self) -> bool {
        false
    }

    fn is_broken(&self) -> (r: bool) {
        false
    }
}

/// The symbol close angle bracket or greater.
#[derive(Debug, Clone, Copy)]
pub struct CloseAngleBracketOrGreaterSymbol {
    pub span: Span,
}

impl NazmcParse for CloseAngleBracketOrGreaterSymbol {
    open spec fn parsed(before: TokensIter, r: ParseResult<Self>, after: usize) -> bool {
        read_terminal(
            before,
            moved_to(before, after),
            |k: TokenKind| k == TokenKind::Symbol(SymbolKind::CloseAngleBracketOrGreater),
            match r {
                Ok(x) => Ok::<Span, ParseErr>(x.span),
                Err(e) => Err::<Span, ParseErr>(e),
            },
        )
    }
    fn parse(iter: &mut TokensIter) -> (r: ParseResult<Self>)
        ensures
            read_terminal(
                *old(iter),
                *final(iter),
                |k: TokenKind| k == TokenKind::Symbol(SymbolKind::CloseAngleBracketOrGreater),
                match r {
                    Ok(x) => Ok::<Span, ParseErr>(x.span),
                    Err(e) => Err::<Span, ParseErr>(e),
                },
            ),
    {
        match read_symbol(iter, SymbolKind::CloseAngleBracketOrGreater) {
            Ok(span) => Ok(CloseAngleBracketOrGreaterSymbol { span }),
            Err(e) => Err(e),
        }
    }
}

impl Check for CloseAngleBracketOrGreaterSymbol {
    open spec fn broken(&self) -> bool {
        false
    }

    fn is_broken(&self) -> (r: bool) {
        false
    }
}

/// The symbol star.
#[derive(Debug, Clone, Copy)]
pub struct StarSymbol {
    pub span: Span,
}

impl NazmcParse for StarSymbol {
    open spec fn parsed(before: TokensIter, r: ParseResult<Self>, after: usize) -> bool {
        read_terminal(
            before,
            moved_to(before, after),
            |k: TokenKind| k == TokenKind::Symbol(SymbolKind::Star),
            match r {
                Ok(x) => Ok::<Span, ParseErr>(x.span),
                Err(e) => Err::<Span, ParseErr>(e),
            },
        )
    }
    fn parse(iter: &mut TokensIter) -> (r: ParseResult<Self>)
        ensures
            read_terminal(
                *old(iter),
                *final(iter),
                |k: TokenKind| k == TokenKind::Symbol(SymbolKind::Star),
                match r {
                    Ok(x) => Ok::<Span, ParseErr>(x.span),
                    Err(e) => Err::<Span, ParseErr>(e),
                },
            ),
    {
        match read_symbol(iter, SymbolKind::Star) {
            Ok(span) => Ok(StarSymbol { span }),
            Err(e) => Err(e),
        }
    }
}

impl Check for StarSymbol {
    open spec fn broken(&self) -> bool {
        false
    }

    fn is_broken(&self) -> (r: bool) {
        false
    }
}

/// The symbol plus.
#[derive(Debug, Clone, Copy)]
pub struct PlusSymbol {
    pub span: Span,
}

impl NazmcParse for PlusSymbol {
    open spec fn parsed(before: TokensIter, r: ParseResult<Self>, after: usize) -> bool {
        read_terminal(
            before,
            moved_to(before, after),
            |k: TokenKind| k == TokenKind::Symbol(SymbolKind::Plus),
            match r {
                Ok(x) => Ok::<Span, ParseErr>(x.span),
                Err(e) => Err::<Span, ParseErr>(e),
            },
        )
    }
    fn parse(iter: &mut TokensIter) -> (r: ParseResult<Self>)
        ensures
            read_terminal(
                *old(iter),
                *final(iter),
                |k: TokenKind| k == TokenKind::Symbol(SymbolKind::Plus),
                match r {
                    Ok(x) => Ok::<Span, ParseErr>(x.span),
                    Err(e) => Err::<Span, ParseErr>(e),
                },
            ),
    {
        match read_symbol(iter, SymbolKind::Plus) {
            Ok(span) => Ok(PlusSymbol { span }),
            Err(e) => Err(e),
        }
    }
}

impl Check for PlusSymbol {
    open spec fn broken(&self) -> bool {
        false
    }

    fn is_broken(&self) -> (r: bool) {
        false
    }
}

/// The symbol minus.
#[derive(Debug, Clone, Copy)]
pub struct MinusSymbol {
    pub span: Span,
}

impl NazmcParse for MinusSymbol {
    open spec fn parsed(before: TokensIter, r: ParseResult<Self>, after: usize) -> bool {
        read_terminal(
            before,
            moved_to(before, after),
            |k: TokenKind| k == TokenKind::Symbol(SymbolKind::Minus),
            match r {
                Ok(x) => Ok::<Span, ParseErr>(x.span),
                Err(e) => Err::<Span, ParseErr>(e),
            },
        )
    }
    fn parse(iter: &mut TokensIter) -> (r: ParseResult<Self>)
        ensures
            read_terminal(
                *old(iter),
                *final(iter),
                |k: TokenKind| k == TokenKind::Symbol(SymbolKind::Minus),
                match r {
                    Ok(x) => Ok::<Span, ParseErr>(x.span),
                    Err(e) => Err::<Span, ParseErr>(e),
                },
            ),
    {
        match read_symbol(iter, SymbolKind::Minus) {
            Ok(span) => Ok(MinusSymbol { span }),
            Err(e) => Err(e),
        }
    }
}

impl Check for MinusSymbol {
    open spec fn broken(&self) -> bool {
        false
    }

    fn is_broken(&self) -> (r: bool) {
        false
    }
}

/// The symbol bit or.
#[derive(Debug, Clone, Copy)]
pub struct BitOrSymbol {
    pub span: Span,
}

impl NazmcParse for BitOrSymbol {
    open spec fn parsed(before: TokensIter, r: ParseResult<Self>, after: usize) -> bool {
        read_terminal(
            before,
            moved_to(before, after),
            |k: TokenKind| k == TokenKind::Symbol(SymbolKind::BitOr),
            match r {
                Ok(x) => Ok::<Span, ParseErr>(x.span),
                Err(e) => Err::<Span, ParseErr>(e),
            },
        )
    }
    fn parse(iter: &mut TokensIter) -> (r: ParseResult<Self>)
        ensures
            read_terminal(
                *old(iter),
                *final(iter),
                |k: TokenKind| k == TokenKind::Symbol(SymbolKind::BitOr),
                match r {
                    Ok(x) => Ok::<Span, ParseErr>(x.span),
                    Err(e) => Err::<Span, ParseErr>(e),
                },
            ),
    {
        match read_symbol(iter, SymbolKind::BitOr) {
            Ok(span) => Ok(BitOrSymbol { span }),
            Err(e) => Err(e),
        }
    }
}

impl Check for BitOrSymbol {
    open spec fn broken(&self) -> bool {
        false
    }

    fn is_broken(&self) -> (r: bool) {
        false
    }
}

/// The symbol bit and.
#[derive(Debug, Clone, Copy)]
pub struct BitAndSymbol {
    pub span: Span,
}

impl NazmcParse for BitAndSymbol {
    open spec fn parsed(before: TokensIter, r: ParseResult<Self>, after: usize) -> bool {
        read_terminal(
            before,
            moved_to(before, after),
            |k: TokenKind| k == TokenKind::Symbol(SymbolKind::BitAnd),
            match r {
                Ok(x) => Ok::<Span, ParseErr>(x.span),
                Err(e) => Err::<Span, ParseErr>(e),
            },
        )
    }
    fn parse(iter: &mut TokensIter) -> (r: ParseResult<Self>)
        ensures
            read_terminal(
                *old(iter),
                *final(iter),
                |k: TokenKind| k == TokenKind::Symbol(SymbolKind::BitAnd),
                match r {
                    Ok(x) => Ok::<Span, ParseErr>(x.span),
                    Err(e) => Err::<Span, ParseErr>(e),
                },
            ),
    {
        match read_symbol(iter, SymbolKind::BitAnd) {
            Ok(span) => Ok(BitAndSymbol { span }),
            Err(e) => Err(e),
        }
    }
}

impl Check for BitAndSymbol {
    open spec fn broken(&self) -> bool {
        false
    }

    fn is_broken(&self) -> (r: bool) {
        false
    }
}

/// The symbol modulo.
#[derive(Debug, Clone, Copy)]
pub struct ModuloSymbol {
    pub span: Span,
}

impl NazmcParse for ModuloSymbol {
    open spec fn parsed(before: TokensIter, r: ParseResult<Self>, after: usize) -> bool {
        read_terminal(
            before,
            moved_to(before, after),
            |k: TokenKind| k == TokenKind::Symbol(SymbolKind::Modulo),
            match r {
                Ok(x) => Ok::<Span, ParseErr>(x.span),
                Err(e) => Err::<Span, ParseErr>(e),
            },
        )
    }
    fn parse(iter: &mut TokensIter) -> (r: ParseResult<Self>)
        ensures
            read_terminal(
                *old(iter),
                *final(iter),
                |k: TokenKind| k == TokenKind::Symbol(SymbolKind::Modulo),
                match r {
                    Ok(x) => Ok::<Span, ParseErr>(x.span),
                    Err(e) => Err::<Span, ParseErr>(e),
                },
            ),
    {
        match read_symbol(iter, SymbolKind::Modulo) {
            Ok(span) => Ok(ModuloSymbol { span }),
            Err(e) => Err(e),
        }
    }
}

impl Check for ModuloSymbol {
    open spec fn broken(&self) -> bool {
        false
    }

    fn is_broken(&self) -> (r: bool) {
        false
    }
}

/// The symbol bit not.
#[derive(Debug, Clone, Copy)]
pub struct BitNotSymbol {
    pub span: Span,
}

impl NazmcParse for BitNotSymbol {
    open spec fn parsed(before: TokensIter, r: ParseResult<Self>, after: usize) -> bool {
        read_terminal(
            before,
            moved_to(before, after),
            |k: TokenKind| k == TokenKind::Symbol(SymbolKind::BitNot),
            match r {
                Ok(x) => Ok::<Span, ParseErr>(x.span),
                Err(e) => Err::<Span, ParseErr>(e),
            },
        )
    }
    fn parse(iter: &mut TokensIter) -> (r: ParseResult<Self>)
        ensures
            read_terminal(
                *old(iter),
                *final(iter),
                |k: TokenKind| k == TokenKind::Symbol(SymbolKind::BitNot),
                match r {
                    Ok(x) => Ok::<Span, ParseErr>(x.span),
                    Err(e) => Err::<Span, ParseErr>(e),
                },
            ),
    {
        match read_symbol(iter, SymbolKind::BitNot) {
            Ok(span) => Ok(BitNotSymbol { span }),
            Err(e) => Err(e),
        }
    }
}

impl Check for BitNotSymbol {
    open spec fn broken(&self) -> bool {
        false
    }

    fn is_broken(&self) -> (r: bool) {
        false
    }
}

/// The symbol xor.
#[derive(Debug, Clone, Copy)]
pub struct XorSymbol {
    pub span: Span,
}

impl NazmcParse for XorSymbol {
    open spec fn parsed(before: TokensIter, r: ParseResult<Self>, after: usize) -> bool {
        read_terminal(
            before,
            moved_to(before, after),
            |k: TokenKind| k == TokenKind::Symbol(SymbolKind::Xor),
            match r {
                Ok(x) => Ok::<Span, ParseErr>(x.span),
                Err(e) => Err::<Span, ParseErr>(e),
            },
        )
    }
    fn parse(iter: &mut TokensIter) -> (r: ParseResult<Self>)
        ensures
            read_terminal(
                *old(iter),
                *final(iter),
                |k: TokenKind| k == TokenKind::Symbol(SymbolKind::Xor),
                match r {
                    Ok(x) => Ok::<Span, ParseErr>(x.span),
                    Err(e) => Err::<Span, ParseErr>(e),
                },
            ),
    {
        match read_symbol(iter, SymbolKind::Xor) {
            Ok(span) => Ok(XorSymbol { span }),
            Err(e) => Err(e),
        }
    }
}

impl Check for XorSymbol {
    open spec fn broken(&self) -> bool {
        false
    }

    fn is_broken(&self) -> (r: bool) {
        false
    }
}

/// The symbol exclamation mark.
#[derive(Debug, Clone, Copy)]
pub struct ExclamationMarkSymbol {
    pub span: Span,
}

impl NazmcParse for ExclamationMarkSymbol {
    open spec fn parsed(before: TokensIter, r: ParseResult<Self>, after: usize) -> bool {
        read_terminal(
            before,
            moved_to(before, after),
            |k: TokenKind| k == TokenKind::Symbol(SymbolKind::ExclamationMark),
            match r {
                Ok(x) => Ok::<Span, ParseErr>(x.span),
                Err(e) => Err::<Span, ParseErr>(e),
            },
        )
    }
    fn parse(iter: &mut TokensIter) -> (r: ParseResult<Self>)
        ensures
            read_terminal(
                *old(iter),
                *final(iter),
                |k: TokenKind| k == TokenKind::Symbol(SymbolKind::ExclamationMark),
                match r {
                    Ok(x) => Ok::<Span, ParseErr>(x.span),
                    Err(e) => Err::<Span, ParseErr>(e),
                },
            ),
    {
        match read_symbol(iter, SymbolKind::ExclamationMark) {
            Ok(span) => Ok(ExclamationMarkSymbol { span }),
            Err(e) => Err(e),
        }
    }
}

impl Check for ExclamationMarkSymbol {
    open spec fn broken(&self) -> bool {
        false
    }

    fn is_broken(&self) -> (r: bool) {
        false
    }
}

/// The symbol colon.
#[derive(Debug, Clone, Copy)]
pub struct ColonSymbol {
    pub span: Span,
}

impl NazmcParse for ColonSymbol {
    open spec fn parsed(before: TokensIter, r: ParseResult<Self>, after: usize) -> bool {
        read_terminal(
            before,
            moved_to(before, after),
            |k: TokenKind| k == TokenKind::Symbol(SymbolKind::Colon),
            match r {
                Ok(x) => Ok::<Span, ParseErr>(x.span),
                Err(e) => Err::<Span, ParseErr>(e),
            },
        )
    }
    fn parse(iter: &mut TokensIter) -> (r: ParseResult<Self>)
        ensures
            read_terminal(
                *old(iter),
                *final(iter),
                |k: TokenKind| k == TokenKind::Symbol(SymbolKind::Colon),
                match r {
                    Ok(x) => Ok::<Span, ParseErr>(x.span),
                    Err(e) => Err::<Span, ParseErr>(e),
                },
            ),
    {
        match read_symbol(iter, SymbolKind::Colon) {
            Ok(span) => Ok(ColonSymbol { span }),
            Err(e) => Err(e),
        }
    }
}

impl Check for ColonSymbol {
    open spec fn broken(&self) -> bool {
        false
    }

    fn is_broken(&self) -> (r: bool) {
        false
    }
}

/// The symbol equal.
#[derive(Debug, Clone, Copy)]
pub struct EqualSymbol {
    pub span: Span,
}

impl NazmcParse for EqualSymbol {
    open spec fn parsed(before: TokensIter, r: ParseResult<Self>, after: usize) -> bool {
        read_terminal(
            before,
            moved_to(before, after),
            |k: TokenKind| k == TokenKind::Symbol(SymbolKind::Equal),
            match r {
                Ok(x) => Ok::<Span, ParseErr>(x.span),
                Err(e) => Err::<Span, ParseErr>(e),
            },
        )
    }
    fn parse(iter: &mut TokensIter) -> (r: ParseResult<Self>)
        ensures
            read_terminal(
                *old(iter),
                *final(iter),
                |k: TokenKind| k == TokenKind::Symbol(SymbolKind::Equal),
                match r {
                    Ok(x) => Ok::<Span, ParseErr>(x.span),
                    Err(e) => Err::<Span, ParseErr>(e),
                },
            ),
    {
        match read_symbol(iter, SymbolKind::Equal) {
            Ok(span) => Ok(EqualSymbol { span }),
            Err(e) => Err(e),
        }
    }
}

impl Check for EqualSymbol {
    open spec fn broken(&self) -> bool {
        false
    }

    fn is_broken(&self) -> (r: bool) {
        false
    }
}

/// The symbol hash.
#[derive(Debug, Clone, Copy)]
pub struct HashSymbol {
    pub span: Span,
}

impl NazmcParse for HashSymbol {
    open spec fn parsed(before: TokensIter, r: ParseResult<Self>, after: usize) -> bool {
        read_terminal(
            before,
            moved_to(before, after),
            |k: TokenKind| k == TokenKind::Symbol(SymbolKind::Hash),
            match r {
                Ok(x) => Ok::<Span, ParseErr>(x.span),
                Err(e) => Err::<Span, ParseErr>(e),
            },
        )
    }
    fn parse(iter: &mut TokensIter) -> (r: ParseResult<Self>)
        ensures
            read_terminal(
                *old(iter),
                *final(iter),
                |k: TokenKind| k == TokenKind::Symbol(SymbolKind::Hash),
                match r {
                    Ok(x) => Ok::<Span, ParseErr>(x.span),
                    Err(e) => Err::<Span, ParseErr>(e),
                },
            ),
    {
        match read_symbol(iter, SymbolKind::Hash) {
            Ok(span) => Ok(HashSymbol { span }),
            Err(e) => Err(e),
        }
    }
}

impl Check for HashSymbol {
    open spec fn broken(&self) -> bool {
        false
    }

    fn is_broken(&self) -> (r: bool) {
        false
    }
}

/// The symbol slash.
#[derive(Debug, Clone, Copy)]
pub struct SlashSymbol {
    pub span: Span,
}

impl NazmcParse for SlashSymbol {
    open spec fn parsed(before: TokensIter, r: ParseResult<Self>, after: usize) -> bool {
        read_terminal(
            before,
            moved_to(before, after),
            |k: TokenKind| k == TokenKind::Symbol(SymbolKind::Slash),
            match r {
                Ok(x) => Ok::<Span, ParseErr>(x.span),
                Err(e) => Err::<Span, ParseErr>(e),
            },
        )
    }
    fn parse(iter: &mut TokensIter) -> (r: ParseResult<Self>)
        ensures
            read_terminal(
                *old(iter),
                *final(iter),
                |k: TokenKind| k == TokenKind::Symbol(SymbolKind::Slash),
                match r {
                    Ok(x) => Ok::<Span, ParseErr>(x.span),
                    Err(e) => Err::<Span, ParseErr>(e),
                },
            ),
    {
        match read_symbol(iter, SymbolKind::Slash) {
            Ok(span) => Ok(SlashSymbol { span }),
            Err(e) => Err(e),
        }
    }
}

impl Check for SlashSymbol {
    open spec fn broken(&self) -> bool {
        false
    }

    fn is_broken(&self) -> (r: bool) {
        false
    }
}

/// The keyword fn.
#[derive(Debug, Clone, Copy)]
pub struct FnKeyword {
    pub span: Span,
}

impl NazmcParse for FnKeyword {
    open spec fn parsed(before: TokensIter, r: ParseResult<Self>, after: usize) -> bool {
        read_terminal(
            before,
            moved_to(before, after),
            |k: TokenKind| k == TokenKind::Keyword(KeywordKind::Fn),
            match r {
                Ok(x) => Ok::<Span, ParseErr>(x.span),
                Err(e) => Err::<Span, ParseErr>(e),
            },
        )
    }
    fn parse(iter: &mut TokensIter) -> (r: ParseResult<Self>)
        ensures
            read_terminal(
                *old(iter),
                *final(iter),
                |k: TokenKind| k == TokenKind::Keyword(KeywordKind::Fn),
                match r {
                    Ok(x) => Ok::<Span, ParseErr>(x.span),
                    Err(e) => Err::<Span, ParseErr>(e),
                },
            ),
    {
        match read_keyword(iter, KeywordKind::Fn) {
            Ok(span) => Ok(FnKeyword { span }),
            Err(e) => Err(e),
        }
    }
}

impl Check for FnKeyword {
    open spec fn broken(&self) -> bool {
        false
    }

    fn is_broken(&self) -> (r: bool) {
        false
    }
}

/// The keyword struct.
#[derive(Debug, Clone, Copy)]
pub struct StructKeyword {
    pub span: Span,
}

impl NazmcParse for StructKeyword {
    open spec fn parsed(before: TokensIter, r: ParseResult<Self>, after: usize) -> bool {
        read_terminal(
            before,
            moved_to(before, after),
            |k: TokenKind| k == TokenKind::Keyword(KeywordKind::Struct),
            match r {
                Ok(x) => Ok::<Span, ParseErr>(x.span),
                Err(e) => Err::<Span, ParseErr>(e),
            },
        )
    }
    fn parse(iter: &mut TokensIter) -> (r: ParseResult<Self>)
        ensures
            read_terminal(
                *old(iter),
                *final(iter),
                |k: TokenKind| k == TokenKind::Keyword(KeywordKind::Struct),
                match r {
                    Ok(x) => Ok::<Span, ParseErr>(x.span),
                    Err(e) => Err::<Span, ParseErr>(e),
                },
            ),
    {
        match read_keyword(iter, KeywordKind::Struct) {
            Ok(span) => Ok(StructKeyword { span }),
            Err(e) => Err(e),
        }
    }
}

impl Check for StructKeyword {
    open spec fn broken(&self) -> bool {
        false
    }

    fn is_broken(&self) -> (r: bool) {
        false
    }
}

/// The keyword let.
#[derive(Debug, Clone, Copy)]
pub struct LetKeyword {
    pub span: Span,
}

impl NazmcParse for LetKeyword {
    open spec fn parsed(before: TokensIter, r: ParseResult<Self>, after: usize) -> bool {
        read_terminal(
            before,
            moved_to(before, after),
            |k: TokenKind| k == TokenKind::Keyword(KeywordKind::Let),
            match r {
                Ok(x) => Ok::<Span, ParseErr>(x.span),
                Err(e) => Err::<Span, ParseErr>(e),
            },
        )
    }
    fn parse(iter: &mut TokensIter) -> (r: ParseResult<Self>)
        ensures
            read_terminal(
                *old(iter),
                *final(iter),
                |k: TokenKind| k == TokenKind::Keyword(KeywordKind::Let),
                match r {
                    Ok(x) => Ok::<Span, ParseErr>(x.span),
                    Err(e) => Err::<Span, ParseErr>(e),
                },
            ),
    {
        match read_keyword(iter, KeywordKind::Let) {
            Ok(span) => Ok(LetKeyword { span }),
            Err(e) => Err(e),
        }
    }
}

impl Check for LetKeyword {
    open spec fn broken(&self) -> bool {
        false
    }

    fn is_broken(&self) -> (r: bool) {
        false
    }
}

/// The keyword mut.
#[derive(Debug, Clone, Copy)]
pub struct MutKeyword {
    pub span: Span,
}

impl NazmcParse for MutKeyword {
    open spec fn parsed(before: TokensIter, r: ParseResult<Self>, after: usize) -> bool {
        read_terminal(
            before,
            moved_to(before, after),
            |k: TokenKind| k == TokenKind::Keyword(KeywordKind::Mut),
            match r {
                Ok(x) => Ok::<Span, ParseErr>(x.span),
                Err(e) => Err::<Span, ParseErr>(e),
            },
        )
    }
    fn parse(iter: &mut TokensIter) -> (r: ParseResult<Self>)
        ensures
            read_terminal(
                *old(iter),
                *final(iter),
                |k: TokenKind| k == TokenKind::Keyword(KeywordKind::Mut),
                match r {
                    Ok(x) => Ok::<Span, ParseErr>(x.span),
                    Err(e) => Err::<Span, ParseErr>(e),
                },
            ),
    {
        match read_keyword(iter, KeywordKind::Mut) {
            Ok(span) => Ok(MutKeyword { span }),
            Err(e) => Err(e),
        }
    }
}

impl Check for MutKeyword {
    open spec fn broken(&self) -> bool {
        false
    }

    fn is_broken(&self) -> (r: bool) {
        false
    }
}

/// The keyword if.
#[derive(Debug, Clone, Copy)]
pub struct IfKeyword {
    pub span: Span,
}

impl NazmcParse for IfKeyword {
    open spec fn parsed(before: TokensIter, r: ParseResult<Self>, after: usize) -> bool {
        read_terminal(
            before,
            moved_to(before, after),
            |k: TokenKind| k == TokenKind::Keyword(KeywordKind::If),
            match r {
                Ok(x) => Ok::<Span, ParseErr>(x.span),
                Err(e) => Err::<Span, ParseErr>(e),
            },
        )
    }
    fn parse(iter: &mut TokensIter) -> (r: ParseResult<Self>)
        ensures
            read_terminal(
                *old(iter),
                *final(iter),
                |k: TokenKind| k == TokenKind::Keyword(KeywordKind::If),
                match r {
                    Ok(x) => Ok::<Span, ParseErr>(x.span),
                    Err(e) => Err::<Span, ParseErr>(e),
                },
            ),
    {
        match read_keyword(iter, KeywordKind::If) {
            Ok(span) => Ok(IfKeyword { span }),
            Err(e) => Err(e),
        }
    }
}

impl Check for IfKeyword {
    open spec fn broken(&self) -> bool {
        false
    }

    fn is_broken(&self) -> (r: bool) {
        false
    }
}

/// The keyword else.
#[derive(Debug, Clone, Copy)]
pub struct ElseKeyword {
    pub span: Span,
}

impl NazmcParse for ElseKeyword {
    open spec fn parsed(before: TokensIter, r: ParseResult<Self>, after: usize) -> bool {
        read_terminal(
            before,
            moved_to(before, after),
            |k: TokenKind| k == TokenKind::Keyword(KeywordKind::Else),
            match r {
                Ok(x) => Ok::<Span, ParseErr>(x.span),
                Err(e) => Err::<Span, ParseErr>(e),
            },
        )
    }
    fn parse(iter: &mut TokensIter) -> (r: ParseResult<Self>)
        ensures
            read_terminal(
                *old(iter),
                *final(iter),
                |k: TokenKind| k == TokenKind::Keyword(KeywordKind::Else),
                match r {
                    Ok(x) => Ok::<Span, ParseErr>(x.span),
                    Err(e) => Err::<Span, ParseErr>(e),
                },
            ),
    {
        match read_keyword(iter, KeywordKind::Else) {
            Ok(span) => Ok(ElseKeyword { span }),
            Err(e) => Err(e),
        }
    }
}

impl Check for ElseKeyword {
    open spec fn broken(&self) -> bool {
        false
    }

    fn is_broken(&self) -> (r: bool) {
        false
    }
}

/// The keyword while.
#[derive(Debug, Clone, Copy)]
pub struct WhileKeyword {
    pub span: Span,
}

impl NazmcParse for WhileKeyword {
    open spec fn parsed(before: TokensIter, r: ParseResult<Self>, after: usize) -> bool {
        read_terminal(
            before,
            moved_to(before, after),
            |k: TokenKind| k == TokenKind::Keyword(KeywordKind::While),
            match r {
                Ok(x) => Ok::<Span, ParseErr>(x.span),
                Err(e) => Err::<Span, ParseErr>(e),
            },
        )
    }
    fn parse(iter: &mut TokensIter) -> (r: ParseResult<Self>)
        ensures
            read_terminal(
                *old(iter),
                *final(iter),
                |k: TokenKind| k == TokenKind::Keyword(KeywordKind::While),
                match r {
                    Ok(x) => Ok::<Span, ParseErr>(x.span),
                    Err(e) => Err::<Span, ParseErr>(e),
                },
            ),
    {
        match read_keyword(iter, KeywordKind::While) {
            Ok(span) => Ok(WhileKeyword { span }),
            Err(e) => Err(e),
        }
    }
}

impl Check for WhileKeyword {
    open spec fn broken(&self) -> bool {
        false
    }

    fn is_broken(&self) -> (r: bool) {
        false
    }
}

/// The keyword loop.
#[derive(Debug, Clone, Copy)]
pub struct LoopKeyword {
    pub span: Span,
}

impl NazmcParse for LoopKeyword {
    open spec fn parsed(before: TokensIter, r: ParseResult<Self>, after: usize) -> bool {
        read_terminal(
            before,
            moved_to(before, after),
            |k: TokenKind| k == TokenKind::Keyword(KeywordKind::Loop),
            match r {
                Ok(x) => Ok::<Span, ParseErr>(x.span),
                Err(e) => Err::<Span, ParseErr>(e),
            },
        )
    }
    fn parse(iter: &mut TokensIter) -> (r: ParseResult<Self>)
        ensures
            read_terminal(
                *old(iter),
                *final(iter),
                |k: TokenKind| k == TokenKind::Keyword(KeywordKind::Loop),
                match r {
                    Ok(x) => Ok::<Span, ParseErr>(x.span),
                    Err(e) => Err::<Span, ParseErr>(e),
                },
            ),
    {
        match read_keyword(iter, KeywordKind::Loop) {
            Ok(span) => Ok(LoopKeyword { span }),
            Err(e) => Err(e),
        }
    }
}

impl Check for LoopKeyword {
    open spec fn broken(&self) -> bool {
        false
    }

    fn is_broken(&self) -> (r: bool) {
        false
    }
}

/// The keyword run.
#[derive(Debug, Clone, Copy)]
pub struct RunKeyword {
    pub span: Span,
}

impl NazmcParse for RunKeyword {
    open spec fn parsed(before: TokensIter, r: ParseResult<Self>, after: usize) -> bool {
        read_terminal(
            before,
            moved_to(before, after),
            |k: TokenKind| k == TokenKind::Keyword(KeywordKind::Run),
            match r {
                Ok(x) => Ok::<Span, ParseErr>(x.span),
                Err(e) => Err::<Span, ParseErr>(e),
            },
        )
    }
    fn parse(iter: &mut TokensIter) -> (r: ParseResult<Self>)
        ensures
            read_terminal(
                *old(iter),
                *final(iter),
                |k: TokenKind| k == TokenKind::Keyword(KeywordKind::Run),
                match r {
                    Ok(x) => Ok::<Span, ParseErr>(x.span),
                    Err(e) => Err::<Span, ParseErr>(e),
                },
            ),
    {
        match read_keyword(iter, KeywordKind::Run) {
            Ok(span) => Ok(RunKeyword { span }),
            Err(e) => Err(e),
        }
    }
}

impl Check for RunKeyword {
    open spec fn broken(&self) -> bool {
        false
    }

    fn is_broken(&self) -> (r: bool) {
        false
    }
}

} // verus!
