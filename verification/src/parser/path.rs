//! Paths: names joined by double colons.
use super::parse_methods::{
    moved_to, parse_step, parse_vec, vec_parsed, Check, NazmcParse, ParseErr, ParseResult,
};
use super::terminal::Id;
use super::tokens_iter::{skips_trivia, TokensIter};
use crate::lexer::token::{SymbolKind, TokenKind};
use crate::span::Span;
use vstd::prelude::*;

verus! {

/// The symbol `::`: two colons, one right after the other.
#[derive(Debug, Clone, Copy)]
pub struct DoubleColonsSymbol {
    pub span: Span,
}

/// The token is a colon.
pub open spec fn is_colon(kind: TokenKind) -> bool {
    kind == TokenKind::Symbol(SymbolKind::Colon)
}

/// The span of the double colons that the iterator stands at: the recent token and the one
/// right after it, when both are colons.
pub open spec fn double_colons_span(it: TokensIter) -> Option<Span> {
    match (it.recent_token(), it.token_at(it.peek_idx as int)) {
        (Some(t), Some(u)) => if is_colon(t.kind) && is_colon(u.kind) {
            Some(Span { start: t.span.start, end: u.span.end })
        } else {
            None
        },
        _ => None,
    }
}

impl NazmcParse for DoubleColonsSymbol {
    /// Two colons are read from the recent token and the one right after it, and the
    /// iterator moves past them and the trivia after them; otherwise the read fails at the
    /// recent token (or with the end-of-tokens error) and the iterator stays.
    open spec fn parsed(before: TokensIter, r: ParseResult<Self>, after: usize) -> bool {
        &&& before.recent_token() is None ==> r == Err::<Self, ParseErr>(
            ParseErr { found_token_index: usize::MAX },
        ) && after == before.peek_idx
        &&& before.recent_token() is Some ==> match double_colons_span(before) {
            Some(span) => {
                &&& r is Ok
                &&& r->Ok_0.span == span
                &&& skips_trivia(before.tokens@, before.peek_idx + 1, after as int)
            },
            None => {
                &&& r == Err::<Self, ParseErr>(
                    ParseErr { found_token_index: (before.peek_idx - 1) as usize },
                )
                &&& after == before.peek_idx
            },
        }
    }

    /// Reads two colons: the recent token and the one right after it. Then the iterator moves
    /// past them and the trivia after them. Otherwise it fails at the recent token (or with
    /// the end-of-tokens error) and stays.
    fn parse(iter: &mut TokensIter) -> (r: ParseResult<Self>)
        ensures
            old(iter).recent_token() is None ==> r == Err::<Self, ParseErr>(
                ParseErr { found_token_index: usize::MAX },
            ) && final(iter).peek_idx == old(iter).peek_idx,
            old(iter).recent_token() is Some ==> match double_colons_span(*old(iter)) {
                Some(span) => {
                    &&& r is Ok
                    &&& r->Ok_0.span == span
                    &&& skips_trivia(
                        old(iter).tokens@,
                        old(iter).peek_idx + 1,
                        final(iter).peek_idx as int,
                    )
                },
                None => {
                    &&& r == Err::<Self, ParseErr>(
                        ParseErr { found_token_index: (old(iter).peek_idx - 1) as usize },
                    )
                    &&& final(iter).peek_idx == old(iter).peek_idx
                },
            },
    {
        let first = match iter.recent() {
            Some(token) => token,
            None => {
                return ParseErr::eof();
            },
        };
        let first_is_colon = match &first.kind {
            TokenKind::Symbol(SymbolKind::Colon) => true,
            _ => false,
        };
        let second = match iter.peek() {
            Some(token) => token,
            None => {
                return Err(ParseErr { found_token_index: iter.peek_idx - 1 });
            },
        };
        let second_is_colon = match &second.kind {
            TokenKind::Symbol(SymbolKind::Colon) => true,
            _ => false,
        };
        if !(first_is_colon && second_is_colon) {
            return Err(ParseErr { found_token_index: iter.peek_idx - 1 });
        }
        let span = Span { start: first.span.start, end: second.span.end };
        iter.next();
        iter.next_non_space_or_comment();
        Ok(DoubleColonsSymbol { span })
    }
}

impl Check for DoubleColonsSymbol {
    open spec fn broken(&self) -> bool {
        false
    }

    fn is_broken(&self) -> (r: bool) {
        false
    }
}

/// A path: a name, then `::` and a name any number of times.
#[derive(Debug)]
pub struct SimplePath {
    pub top: Id,
    pub inners: Vec<SimpleInnerPath>,
}

/// `::` and the name after it (which may be missing).
#[derive(Debug)]
pub struct SimpleInnerPath {
    pub double_colons: DoubleColonsSymbol,
    pub inner: ParseResult<Id>,
}

impl NazmcParse for SimplePath {
    /// The first name is read (without it the read fails with its error and the iterator
    /// moves back), then the inner paths for as long as they parse.
    open spec fn parsed(before: TokensIter, r: ParseResult<Self>, after: usize) -> bool {
        exists|top: ParseResult<Id>, a: usize|
            #[trigger] Id::parsed(before, top, a) && match top {
                Err(e) => r == Err::<Self, ParseErr>(e) && after == before.peek_idx,
                Ok(id) => r matches Ok(p) && p.top == id && vec_parsed(
                    moved_to(before, a),
                    p.inners@,
                    after,
                ),
            }
    }

    /// Reads the first name (failing, and moving back, without it), then the inner paths for
    /// as long as they parse.
    fn parse(iter: &mut TokensIter) -> (r: ParseResult<Self>)
        ensures
            r is Err ==> final(iter).peek_idx == old(iter).peek_idx,
    {
        let ghost before = *iter;
        let peek_idx = iter.peek_idx;
        let top = match Id::parse(iter) {
            Ok(tree) => tree,
            Err(err) => {
                let ghost a = iter.peek_idx;
                iter.peek_idx = peek_idx;  // Backtrack
                proof {
                    assert(Id::parsed(before, Err::<Id, ParseErr>(err), a));
                }
                return Err(err);
            },
        };
        let ghost a = iter.peek_idx;
        proof {
            assert(*iter == moved_to(before, a));
        }
        let inners = parse_vec::<SimpleInnerPath>(iter);
        let r = SimplePath { top, inners };
        proof {
            assert(Id::parsed(before, Ok::<Id, ParseErr>(r.top), a));
        }
        Ok(r)
    }
}

impl NazmcParse for SimpleInnerPath {
    /// `::` is read (without it the read fails with its error and the iterator moves back),
    /// then the name after it, which may fail.
    open spec fn parsed(before: TokensIter, r: ParseResult<Self>, after: usize) -> bool {
        exists|dc: ParseResult<DoubleColonsSymbol>, a: usize|
            #[trigger] DoubleColonsSymbol::parsed(before, dc, a) && match dc {
                Err(e) => r == Err::<Self, ParseErr>(e) && after == before.peek_idx,
                Ok(d) => r matches Ok(p) && p.double_colons == d && Id::parsed(
                    moved_to(before, a),
                    p.inner,
                    after,
                ),
            }
    }

    /// Reads `::` (failing, and moving back, without it), then the name after it.
    fn parse(iter: &mut TokensIter) -> (r: ParseResult<Self>)
        ensures
            r is Err ==> final(iter).peek_idx == old(iter).peek_idx,
    {
        let ghost before = *iter;
        let peek_idx = iter.peek_idx;
        let double_colons = match DoubleColonsSymbol::parse(iter) {
            Ok(tree) => tree,
            Err(err) => {
                let ghost a = iter.peek_idx;
                iter.peek_idx = peek_idx;  // Backtrack
                proof {
                    assert(DoubleColonsSymbol::parsed(
                        before,
                        Err::<DoubleColonsSymbol, ParseErr>(err),
                        a,
                    ));
                }
                return Err(err);
            },
        };
        let ghost a = iter.peek_idx;
        proof {
            assert(*iter == moved_to(before, a));
        }
        let inner = Id::parse(iter);
        let r = SimpleInnerPath { double_colons, inner };
        proof {
            assert(DoubleColonsSymbol::parsed(
                before,
                Ok::<DoubleColonsSymbol, ParseErr>(r.double_colons),
                a,
            ));
        }
        Ok(r)
    }
}

impl Check for SimplePath {
    open spec fn broken(&self) -> bool {
        self.top.broken() || self.inners.broken()
    }

    fn is_broken(&self) -> (r: bool) {
        self.top.is_broken() || self.inners.is_broken()
    }
}

impl Check for SimpleInnerPath {
    open spec fn broken(&self) -> bool {
        self.double_colons.broken() || self.inner.broken()
    }

    fn is_broken(&self) -> (r: bool) {
        self.double_colons.is_broken() || self.inner.is_broken()
    }
}

} // verus!
