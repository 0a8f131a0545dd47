use crate::lexer::token::{Token, TokenKind};
use vstd::prelude::*;

verus! {

/// Tokens that the parser passes over between the tokens it reads: line ends, comments and
/// whitespace.
pub open spec fn is_trivia(kind: TokenKind) -> bool {
    ||| kind is Eol
    ||| kind is DelimitedComment
    ||| kind is LineComment
    ||| kind is Space
}

/// Moving from `from` to `to` passed over trivia only, and stopped right after the first token
/// that is not trivia (or past the end of the tokens).
pub open spec fn skips_trivia(tokens: Seq<Token>, from: int, to: int) -> bool {
    &&& from < to <= tokens.len() + 1
    &&& forall|k: int| from <= k < to - 1 ==> is_trivia(#[trigger] tokens[k].kind)
    &&& (to == tokens.len() + 1 || !is_trivia(tokens[to - 1].kind))
}

/// Skipping trivia from a token passes over it when it is a line end, a comment (line or
/// delimited) or a space, and stops right after it when it is a name, a keyword, a symbol or
/// a literal.
pub proof fn lemma_trivia_skipped_over(tokens: Seq<Token>, from: int, to: int)
    requires
        0 <= from < tokens.len(),
        skips_trivia(tokens, from, to),
    ensures
        (tokens[from].kind is Eol || tokens[from].kind is LineComment || tokens[from].kind
            is DelimitedComment || tokens[from].kind is Space) ==> to > from + 1,
        (tokens[from].kind is Id || tokens[from].kind is Keyword || tokens[from].kind is Symbol
            || tokens[from].kind is Literal) ==> to == from + 1,
{
}

/// An iterator over the tokens of a file, for the parser. `peek_idx` is the index of the next
/// token; the token before it is the `recent` one, the one the parser looks at.
pub struct TokensIter<'a> {
    pub peek_idx: usize,
    pub tokens: &'a [Token<'a>],
}

impl<'a> TokensIter<'a> {
    /// The index stays within the tokens, or one past their end.
    pub open spec fn wf(&self) -> bool {
        &&& self.peek_idx <= self.tokens@.len() + 1
        &&& self.tokens@.len() < usize::MAX
    }

    /// The token at `idx`, if there is one.
    pub open spec fn token_at(&self, idx: int) -> Option<&'a Token<'a>> {
        if 0 <= idx < self.tokens@.len() {
            Some(&self.tokens@[idx])
        } else {
            None
        }
    }

    /// The token before the peek index: the one the parser looks at.
    pub open spec fn recent_token(&self) -> Option<&'a Token<'a>> {
        self.token_at(self.peek_idx - 1)
    }

    pub fn new(tokens: &'a [Token<'a>]) -> (r: Self)
        requires
            tokens@.len() < usize::MAX,
        ensures
            r.wf(),
            r.peek_idx == 0,
            r.tokens@ == tokens@,
    {
        Self { peek_idx: 0, tokens }
    }

    #[inline]
    pub fn peek(&self) -> (r: Option<&'a Token<'a>>)
        ensures
            r == self.token_at(self.peek_idx as int),
    {
        self.peek_nth(0)
    }

    #[inline]
    pub fn peek_nth(&self, nth: usize) -> (r: Option<&'a Token<'a>>)
        requires
            self.peek_idx + nth <= usize::MAX,
        ensures
            r == self.token_at(self.peek_idx + nth),
    {
        self.nth(self.peek_idx + nth)
    }

    #[inline]
    pub fn recent(&self) -> (r: Option<&'a Token<'a>>)
        ensures
            r == self.recent_token(),
    {
        self.recent_nth(0)
    }

    #[inline]
    pub fn recent_nth(&self, nth: usize) -> (r: Option<&'a Token<'a>>)
        ensures
            r == (if self.peek_idx > nth {
                self.token_at(self.peek_idx - nth - 1)
            } else {
                None
            }),
    {
        if self.peek_idx > nth {
            self.nth(self.peek_idx - nth - 1)
        } else {
            None
        }
    }

    #[inline]
    pub fn nth(&self, nth: usize) -> (r: Option<&'a Token<'a>>)
        ensures
            r == self.token_at(nth as int),
    {
        if nth < self.tokens.len() {
            Some(&self.tokens[nth])
        } else {
            None
        }
    }

    /// Moves one token on (unless already past the end) and returns the new recent token.
    #[inline]
    pub fn next(&mut self) -> (r: Option<&'a Token<'a>>)
        requires
            old(self).wf(),
        ensures
            final(self).wf(),
            final(self).tokens == old(self).tokens,
            final(self).peek_idx == (if old(self).peek_idx > old(self).tokens@.len() {
                old(self).peek_idx
            } else {
                (old(self).peek_idx + 1) as usize
            }),
            old(self).peek_idx > old(self).tokens@.len() ==> r is None,
            old(self).peek_idx <= old(self).tokens@.len() ==> r == final(self).recent_token(),
    {
        if self.peek_idx > self.tokens.len() {
            return None;
        }
        self.peek_idx += 1;
        self.recent()
    }

    /// Moves on past the line ends, comments and whitespace that follow, so that the recent
    /// token is the next other token; returns the token after it.
    pub fn next_non_space_or_comment(&mut self) -> (r: Option<&'a Token<'a>>)
        requires
            old(self).wf(),
        ensures
            final(self).wf(),
            final(self).tokens == old(self).tokens,
            old(self).peek_idx <= old(self).tokens@.len() ==> skips_trivia(
                old(self).tokens@,
                old(self).peek_idx as int,
                final(self).peek_idx as int,
            ),
            old(self).peek_idx > old(self).tokens@.len() ==> final(self).peek_idx == old(
                self,
            ).peek_idx,
            r == final(self).token_at(final(self).peek_idx as int),
    {
        let ghost start = self.peek_idx as int;
        let ghost toks = self.tokens@;
        loop
            invariant_except_break
                self.wf(),
                self.tokens@ == toks,
                start <= self.tokens@.len() ==> start <= self.peek_idx,
                start <= self.tokens@.len() ==> forall|k: int|
                    start <= k < self.peek_idx ==> is_trivia(#[trigger] toks[k].kind),
                start > self.tokens@.len() ==> self.peek_idx == start,
            ensures
                self.wf(),
                self.tokens@ == toks,
                start <= toks.len() ==> skips_trivia(toks, start, self.peek_idx as int),
                start > toks.len() ==> self.peek_idx == start,
            decreases self.tokens@.len() + 1 - self.peek_idx,
        {
            let before = self.peek_idx;
            let next = self.next();
            match next {
                Some(token) => {
                    let trivia = match token.kind {
                        TokenKind::Eol | TokenKind::DelimitedComment | TokenKind::LineComment
                        | TokenKind::Space => true,
                        _ => false,
                    };
                    if !trivia {
                        break ;
                    }
                },
                None => {
                    break ;
                },
            }
        }
        self.peek()
    }
}

} // verus!
