use super::error::{LexerError, LexerErrorKind};
use super::kufr::{is_kufr_or_unsupported_character, kufr_or_unsupported};
use super::spec::{
    char_at, closes_quote, cursor_at, cursor_step, decimal_value, is_digit, is_space_char,
    is_word_char, lemma_cursor_at_bounds, lemma_cursor_col_step, lemma_cursor_same_line,
    lemma_split_lines_take_succ, quoted_until, run_of, split_lines, strs_view,
};
use super::string_or_char::{decode_errors, decode_literal, lexer_err};
use super::token::{
    is_word_kind, keyword_from, keyword_of, keyword_order, keyword_text, symbol_of,
    symbol_of_char, KeywordKind, LiteralKind, NumKind, SymbolKind, Token, TokenKind,
};
use crate::span::{Span, SpanCursor};
use crate::text::{
    alphabetic, alphanumeric, ascii_whitespace, char_to_string, chars_of, is_alphabetic,
    is_alphanumeric, is_ascii_whitespace, push_char,
};
use std::sync::Arc;
use vstd::prelude::*;

verus! {

/// A cursor over the characters of a text: the position and the character it stopped at
/// (`'\0'` once the characters run out), and the characters after it.
struct CharsCursor {
    stopped_at: (SpanCursor, char),
    chars: Vec<char>,
    next_idx: usize,
}

impl CharsCursor {
    /// The characters the cursor has not reached yet.
    closed spec fn remaining(&self) -> Seq<char> {
        self.chars@.skip(self.next_idx as int)
    }

    /// All the characters of the text.
    closed spec fn all_chars(&self) -> Seq<char> {
        self.chars@
    }

    closed spec fn wf(&self) -> bool {
        self.next_idx <= self.chars@.len()
    }

    fn new(text: &str) -> (r: Self)
        ensures
            r.wf(),
            r.stopped_at == (SpanCursor { line: 0, col: 0 }, '\0'),
            r.remaining() == text@,
            r.all_chars() == text@,
    {
        let r = Self {
            stopped_at: (SpanCursor { line: 0, col: 0 }, '\0'),
            chars: chars_of(text),
            next_idx: 0,
        };
        assert(r.chars@.skip(0) =~= r.chars@);
        r
    }

    /// Moves to the next character: the position moves over the character the cursor stood
    /// on (see `cursor_step`), and the cursor stops at the next character, or at `'\0'`.
    fn next(&mut self) -> (r: Option<(SpanCursor, char)>)
        requires
            old(self).wf(),
            old(self).stopped_at.0.col < usize::MAX,
            old(self).stopped_at.0.line < usize::MAX,
        ensures
            final(self).wf(),
            final(self).all_chars() == old(self).all_chars(),
            final(self).stopped_at.0 == cursor_step(old(self).stopped_at.0, old(self).stopped_at.1),
            old(self).remaining().len() > 0 ==> {
                &&& final(self).stopped_at.1 == old(self).remaining()[0]
                &&& final(self).remaining() == old(self).remaining().drop_first()
                &&& r == Some(final(self).stopped_at)
            },
            old(self).remaining().len() == 0 ==> {
                &&& final(self).stopped_at.1 == '\0'
                &&& final(self).remaining() == old(self).remaining()
                &&& r is None
            },
    {
        if self.stopped_at.1 != '\0' {
            // Not the first time to call the `next` method
            self.stopped_at.0.col += 1;  // Update the column
        }
        if self.stopped_at.1 == '\n' {
            // Last was a new line character
            self.stopped_at.0.line += 1;  // Update the line
            self.stopped_at.0.col = 0;  // Reset the column
        }
        if self.next_idx < self.chars.len() {
            let ch = self.chars[self.next_idx];
            self.next_idx = self.next_idx + 1;
            proof {
                assert(self.chars@.skip(self.next_idx - 1).drop_first() =~= self.chars@.skip(
                    self.next_idx as int,
                ));
            }
            self.stopped_at.1 = ch;  // Update the character
            Some(self.stopped_at)
        } else {
            self.stopped_at.1 = '\0';  // Update the character
            None
        }
    }
}

/// The lexer of Nazm source text: it hands out the tokens of the text one by one,
/// and gathers the lines of the text and the errors that it finds.
pub struct LexerIter<'a> {
    content: &'a str,
    /// The number of characters of the content
    content_len: usize,
    cursor: CharsCursor,
    /// The character index the cursor stopped at
    stopped_at_idx: usize,
    /// The file lines to fill from lexing
    file_lines: Vec<&'a str>,
    /// The character index where the current line starts
    current_line_start_idx: usize,
    /// Errors
    errs: Vec<LexerError>,
    current_token_idx: usize,
}

/// The lines gathered after lexing up to `pos`: the complete lines, with the current line
/// (from `line_start` to `pos`) still open while the text is not done.
pub open spec fn lines_gathered(
    s: Seq<char>,
    pos: int,
    line_start: int,
    lines: Seq<Seq<char>>,
) -> bool {
    if s.len() == 0 {
        lines.len() == 0 && line_start == 0
    } else if pos < s.len() {
        &&& 0 <= line_start <= pos
        &&& lines.push(s.subrange(line_start, pos)) == split_lines(s.take(pos))
    } else {
        lines == split_lines(s) && line_start == s.len()
    }
}

/// The first character of `t`, or `'\0'` if it is empty.
pub open spec fn first_or_nul(t: Seq<char>) -> char {
    if t.len() > 0 {
        t[0]
    } else {
        '\0'
    }
}

/// The value of an integer literal of decimal digits: 0 where it does not fit in `u64` (an
/// error is then reported).
pub open spec fn num_value(digits: Seq<char>) -> u64 {
    if decimal_value(digits) <= u64::MAX {
        decimal_value(digits) as u64
    } else {
        0
    }
}

/// `kind` is what the text `s[start..end]` is lexed as, by its first character: a comment,
/// a symbol, a line end, a number (with its value, see `num_value`), a character or string
/// literal (see `quoted_until` and `decode_literal`), a run of whitespace, a word, or else an
/// unknown character.
pub open spec fn lexed_as(s: Seq<char>, start: int, end: int, kind: TokenKind) -> bool {
    let c = s[start];
    &&& 0 <= start < end <= s.len()
    &&& if c == '/' {
        if start + 1 < s.len() && s[start + 1] == '/' {
            &&& kind == TokenKind::LineComment
            &&& start + 2 <= end
            &&& forall|k: int| start <= k < end ==> s[k] != '\n'
            &&& (end == s.len() || s[end] == '\n')
        } else if start + 1 < s.len() && s[start + 1] == '*' {
            kind == TokenKind::DelimitedComment && end == delimited_end(s, start + 1, 1)
        } else {
            kind == TokenKind::Symbol(SymbolKind::Slash) && end == start + 1
        }
    } else if symbol_of(c) is Some {
        kind == TokenKind::Symbol(symbol_of(c)->0) && end == start + 1
    } else if c == '\n' {
        kind == TokenKind::Eol && end == start + 1
    } else if is_digit(c) {
        run_of(s, start, end, |ch: char| is_digit(ch)) && kind == TokenKind::Literal(
            LiteralKind::Num(NumKind::UnspecifiedInt(num_value(s.subrange(start, end)))),
        )
    } else if c == '\'' {
        ||| quoted_until(s, start, end, '\'', true) && kind == TokenKind::Literal(
            LiteralKind::Char(first_or_nul(decode_literal(s.subrange(start + 1, end - 1)))),
        )
        ||| quoted_until(s, start, end, '\'', false) && kind == TokenKind::Literal(
            LiteralKind::Char('\0'),
        )
    } else if c == '"' {
        ||| quoted_until(s, start, end, '"', true) && is_str_literal(
            kind,
            decode_literal(s.subrange(start + 1, end - 1)),
        )
        ||| quoted_until(s, start, end, '"', false) && is_str_literal(kind, Seq::<char>::empty())
    } else if c == '\t' || c == '\x0B' || c == '\x0C' || c == '\r' || c == ' ' {
        kind == TokenKind::Space && run_of(s, start, end, |ch: char| is_space_char(ch))
    } else if alphabetic(c) {
        run_of(s, start, end, |ch: char| is_word_char(ch)) && is_word_kind(
            s.subrange(start, end),
            kind,
        )
    } else {
        end == start + 1 && is_id(kind, seq![c])
    }
}

/// The kufr error of the character at `k`.
pub open spec fn kufr_err_at(s: Seq<char>, k: int, idx: usize) -> LexerError {
    lexer_err(idx, cursor_at(s, k).col as int, 1, LexerErrorKind::KufrOrInvalidChar)
}

/// The kufr errors of the characters from `from` to `to` (excluded), in order.
pub open spec fn kufr_errors(s: Seq<char>, from: int, to: int, idx: usize) -> Seq<LexerError>
    decreases to - from,
{
    if to <= from {
        Seq::empty()
    } else {
        kufr_errors(s, from, to - 1, idx) + (if kufr_or_unsupported(s[to - 1]) {
            seq![kufr_err_at(s, to - 1, idx)]
        } else {
            Seq::empty()
        })
    }
}

/// Where a delimited comment scan goes from the character at `q` with `n` comments open:
/// after `/` or `*` it moves over the next character too, and `/*` opens one more comment
/// while `*/` closes one.
pub open spec fn delimited_step(s: Seq<char>, q: int, n: int) -> (int, int) {
    if s[q] == '/' {
        (q + 1, if q + 1 < s.len() && s[q + 1] == '*' { n + 1 } else { n })
    } else if s[q] == '*' {
        (q + 1, if q + 1 < s.len() && s[q + 1] == '/' { n - 1 } else { n })
    } else {
        (q, n)
    }
}

/// Where a delimited comment ends when its scan stands at `p` with `n` comments open: right
/// after the character that closed the last comment, or at the end of the text.
pub open spec fn delimited_end(s: Seq<char>, p: int, n: int) -> int
    decreases s.len() - p,
{
    if p + 1 >= s.len() {
        s.len() as int
    } else if n == 0 {
        p + 1
    } else {
        let (r, n2) = delimited_step(s, p + 1, n);
        delimited_end(s, r, n2)
    }
}

/// The errors of a delimited comment scan from `p` with `n` comments open: the kufr
/// characters it stands at after each step, and at the end of the text a comment left open.
pub open spec fn delimited_errors(s: Seq<char>, p: int, n: int, idx: usize) -> Seq<LexerError>
    decreases s.len() - p,
{
    if p + 1 >= s.len() {
        if n != 0 {
            seq![
                lexer_err(
                    idx,
                    cursor_at(s, s.len() as int).col as int,
                    1,
                    LexerErrorKind::UnclosedDelimitedComment,
                ),
            ]
        } else {
            Seq::empty()
        }
    } else if n == 0 {
        Seq::empty()
    } else {
        let (r, n2) = delimited_step(s, p + 1, n);
        (if kufr_or_unsupported(char_at(s, r)) {
            seq![kufr_err_at(s, r, idx)]
        } else {
            Seq::empty()
        }) + delimited_errors(s, r, n2, idx)
    }
}

/// The quoted literal from `start` to `end` was closed by its quote `q`.
pub open spec fn is_closed_literal(s: Seq<char>, start: int, end: int, q: char) -> bool {
    start < end - 1 && closes_quote(s, start, end - 1, q)
}

/// The errors of the character literal from `start` to `end`: those of its characters, and
/// no character or more than one; or, left open, the missing quote.
pub open spec fn char_literal_errors(s: Seq<char>, start: int, end: int, idx: usize) -> Seq<
    LexerError,
> {
    let sc = cursor_at(s, start).col as int;
    let ec = cursor_at(s, end).col as int;
    if is_closed_literal(s, start, end, '\'') {
        let lit = s.subrange(start + 1, end - 1);
        let n = decode_literal(lit).len();
        decode_errors(lit, sc, idx) + (if n > 1 {
            seq![lexer_err(idx, sc + 1, ec - sc - 2, LexerErrorKind::ManyChars)]
        } else if n == 0 {
            seq![lexer_err(idx, sc, 2, LexerErrorKind::ZeroChars)]
        } else {
            Seq::empty()
        })
    } else {
        seq![lexer_err(idx, ec, 1, LexerErrorKind::UnclosedChar)]
    }
}

/// The errors of the string literal from `start` to `end`: those of its characters; or, left
/// open, the missing quote.
pub open spec fn str_literal_errors(s: Seq<char>, start: int, end: int, idx: usize) -> Seq<
    LexerError,
> {
    if is_closed_literal(s, start, end, '"') {
        decode_errors(s.subrange(start + 1, end - 1), cursor_at(s, start).col as int, idx)
    } else {
        seq![lexer_err(idx, cursor_at(s, end).col as int, 1, LexerErrorKind::UnclosedStr)]
    }
}

/// The errors found while lexing the token from `start` to `end`, which has the index `idx`.
pub open spec fn token_errors(s: Seq<char>, start: int, end: int, idx: usize) -> Seq<LexerError> {
    let c = s[start];
    if c == '/' {
        if start + 1 < s.len() && s[start + 1] == '/' {
            kufr_errors(s, start + 2, end, idx)
        } else if start + 1 < s.len() && s[start + 1] == '*' {
            delimited_errors(s, start + 1, 1, idx)
        } else {
            Seq::empty()
        }
    } else if symbol_of(c) is Some || c == '\n' {
        Seq::empty()
    } else if is_digit(c) {
        if decimal_value(s.subrange(start, end)) > u64::MAX {
            seq![
                lexer_err(
                    idx,
                    cursor_at(s, start).col as int,
                    0,
                    LexerErrorKind::NumIsOutOfRange(NumKind::UnspecifiedInt(0)),
                ),
            ]
        } else {
            Seq::empty()
        }
    } else if c == '\'' {
        char_literal_errors(s, start, end, idx)
    } else if c == '"' {
        str_literal_errors(s, start, end, idx)
    } else if c == '\t' || c == '\x0B' || c == '\x0C' || c == '\r' || c == ' ' || alphabetic(c) {
        Seq::empty()
    } else {
        let col = cursor_at(s, start + 1).col;
        seq![
            lexer_err(
                idx,
                if col > 0 {
                    col - 1
                } else {
                    0
                },
                1,
                LexerErrorKind::UnknownToken,
            ),
        ]
    }
}

/// `kind` is a string literal holding `t`.
pub open spec fn is_str_literal(kind: TokenKind, t: Seq<char>) -> bool {
    kind matches TokenKind::Literal(LiteralKind::Str(x)) && x@ == t
}

/// `kind` is an identifier holding `t`.
pub open spec fn is_id(kind: TokenKind, t: Seq<char>) -> bool {
    kind matches TokenKind::Id(x) && x@ == t
}

impl<'a> LexerIter<'a> {
    /// The text being lexed.
    pub closed spec fn text(&self) -> Seq<char> {
        self.content@
    }

    /// The index of the character the lexer stands at.
    pub closed spec fn pos(&self) -> int {
        self.stopped_at_idx as int
    }

    /// The errors found so far.
    pub closed spec fn errors(&self) -> Seq<LexerError> {
        self.errs@
    }

    /// The lines gathered so far.
    pub closed spec fn lines(&self) -> Seq<Seq<char>> {
        strs_view(self.file_lines@)
    }

    /// The index that the next token will have.
    pub closed spec fn token_index(&self) -> usize {
        self.current_token_idx
    }

    /// The lexer's state agrees with its text and position.
    pub closed spec fn wf(&self) -> bool {
        let s = self.content@;
        let pos = self.stopped_at_idx as int;
        &&& self.content_len as int == s.len()
        &&& 4 * s.len() + 16 <= usize::MAX
        &&& pos <= s.len()
        &&& self.cursor.stopped_at.1 == char_at(s, pos)
        &&& self.cursor.stopped_at.0 == cursor_at(s, pos)
        &&& self.cursor.wf()
        &&& self.cursor.all_chars() == s
        &&& self.cursor.remaining() == (if pos < s.len() {
            s.skip(pos + 1)
        } else {
            Seq::<char>::empty()
        })
        &&& self.current_token_idx <= pos
        &&& forall|k: int|
            0 <= k < self.errs@.len() ==> #[trigger] self.errs@[k].token_idx
                <= self.current_token_idx
        &&& forall|k: int|
            0 <= k < self.errs@.len() ==> #[trigger] self.errs@[k].col + self.errs@[k].len <= 4
                * s.len() + 8
        &&& lines_gathered(
            s,
            pos,
            self.current_line_start_idx as int,
            strs_view(self.file_lines@),
        )
    }

    /// The lexer went on within the same text, and kept what it had found before.
    pub closed spec fn continues(&self, old: &Self) -> bool {
        &&& self.content == old.content
        &&& self.stopped_at_idx >= old.stopped_at_idx
        &&& self.errs@.len() >= old.errs@.len()
        &&& self.errs@.take(old.errs@.len() as int) == old.errs@
        &&& self.current_token_idx == old.current_token_idx
        &&& forall|k: int|
            old.errs@.len() <= k < self.errs@.len() ==> #[trigger] self.errs@[k].token_idx
                == old.current_token_idx
    }

    pub fn new(content: &'a str) -> (r: Self)
        requires
            4 * content@.len() + 16 <= usize::MAX,
        ensures
            r.wf(),
            r.text() == content@,
            r.pos() == 0,
            r.errors().len() == 0,
            r.lines().len() == 0,
            r.token_index() == 0,
    {
        let content_len = content.unicode_len();
        let mut _self = Self {
            content,
            content_len,
            cursor: CharsCursor::new(content),
            stopped_at_idx: 0,
            file_lines: vec![],
            current_line_start_idx: 0,
            errs: vec![],
            current_token_idx: 0,
        };
        _self.cursor.next();  // Init cursor::stopped_at with first char
        proof {
            let s = content@;
            assert(s.take(0) =~= Seq::<char>::empty());
            assert(s.subrange(0, 0) =~= Seq::<char>::empty());
            assert(strs_view(_self.file_lines@) =~= Seq::<Seq<char>>::empty());
            if s.len() > 0 {
                assert(s.drop_first() =~= s.skip(1));
            }
        }
        _self
    }

    /// Moves over the character the lexer stands at, gathering the line it ends.
    /// Past the end of the text there is nothing left to move over.
    fn next_cursor(&mut self) -> (r: Option<(SpanCursor, char)>)
        requires
            old(self).wf(),
        ensures
            final(self).wf(),
            final(self).continues(old(self)),
            final(self).errs@ == old(self).errs@,
            old(self).pos() < old(self).text().len() ==> final(self).pos() == old(self).pos() + 1,
            old(self).pos() == old(self).text().len() ==> final(self).pos() == old(self).pos(),
            r == (if final(self).pos() < final(self).text().len() {
                Some(
                    (
                        cursor_at(final(self).text(), final(self).pos()),
                        final(self).text()[final(self).pos()],
                    ),
                )
            } else {
                None::<(SpanCursor, char)>
            }),
    {
        proof {
            assert(self.errs@.take(self.errs@.len() as int) =~= self.errs@);
        }
        if self.stopped_at_idx >= self.content_len {
            return None;
        }
        let ghost s = self.content@;
        let ghost pos = self.stopped_at_idx as int;
        let ghost ls = self.current_line_start_idx as int;
        let ghost fl = strs_view(self.file_lines@);
        proof {
            lemma_cursor_at_bounds(s, pos);
            lemma_split_lines_take_succ(s, pos);
        }
        let stopped_at_eol = self.cursor.stopped_at.1 == '\n';
        if stopped_at_eol {
            let current_line = self.content.substring_char(
                self.current_line_start_idx,
                self.stopped_at_idx,
            );
            self.file_lines.push(current_line);
            self.current_line_start_idx = self.stopped_at_idx + 1;
            proof {
                assert(strs_view(self.file_lines@) =~= fl.push(s.subrange(ls, pos)));
            }
        }
        self.stopped_at_idx = self.stopped_at_idx + 1;
        let next = self.cursor.next();
        proof {
            let np = pos + 1;
            if np < s.len() {
                assert(s.skip(pos + 1).drop_first() =~= s.skip(np + 1));
                assert(s.skip(pos + 1)[0] == s[np]);
                if stopped_at_eol {
                    assert(s.subrange(np, np) =~= Seq::<char>::empty());
                    assert(strs_view(self.file_lines@).push(s.subrange(np, np)) =~= split_lines(
                        s.take(np),
                    ));
                } else {
                    assert(s.subrange(ls, np) =~= s.subrange(ls, pos).push(s[pos]));
                    assert(strs_view(self.file_lines@).push(s.subrange(ls, np)) =~= split_lines(
                        s.take(np),
                    ));
                }
            }
        }
        if next.is_none() {
            if stopped_at_eol {
                let empty_line: &'static str = "";
                proof {
                    reveal_strlit("");
                    assert(empty_line@ =~= Seq::<char>::empty());
                }
                self.file_lines.push(empty_line);
                proof {
                    assert(s.take(pos + 1) =~= s);
                    assert(strs_view(self.file_lines@) =~= fl.push(s.subrange(ls, pos)).push(
                        Seq::<char>::empty(),
                    ));
                    assert(strs_view(self.file_lines@) =~= split_lines(s));
                }
            } else if self.current_line_start_idx < self.content_len {
                let current_line = self.content.substring_char(
                    self.current_line_start_idx,
                    self.stopped_at_idx,
                );
                self.file_lines.push(current_line);
                self.current_line_start_idx = self.stopped_at_idx;
                proof {
                    assert(s.take(pos + 1) =~= s);
                    assert(s.subrange(ls, pos + 1) =~= s.subrange(ls, pos).push(s[pos]));
                    assert(strs_view(self.file_lines@) =~= fl.push(s.subrange(ls, pos + 1)));
                    assert(strs_view(self.file_lines@) =~= split_lines(s));
                }
            }
        }
        proof {
            let s2 = self.content@;
            let p2 = self.stopped_at_idx as int;
            assert(self.cursor.remaining() == (if p2 < s2.len() {
                s2.skip(p2 + 1)
            } else {
                Seq::<char>::empty()
            }));
            assert(lines_gathered(
                s2,
                p2,
                self.current_line_start_idx as int,
                strs_view(self.file_lines@),
            ));
        }
        next
    }

    /// Moves like `next_cursor`, but reports no character when it stops at a line end.
    fn next_cursor_non_eol(&mut self) -> (r: Option<(SpanCursor, char)>)
        requires
            old(self).wf(),
        ensures
            final(self).wf(),
            final(self).continues(old(self)),
            final(self).errs@ == old(self).errs@,
            old(self).pos() < old(self).text().len() ==> final(self).pos() == old(self).pos() + 1,
            old(self).pos() == old(self).text().len() ==> final(self).pos() == old(self).pos(),
            r == (if final(self).pos() < final(self).text().len()
                && final(self).text()[final(self).pos()] != '\n' {
                Some(
                    (
                        cursor_at(final(self).text(), final(self).pos()),
                        final(self).text()[final(self).pos()],
                    ),
                )
            } else {
                None::<(SpanCursor, char)>
            }),
    {
        match self.next_cursor() {
            Some((_, '\n')) => None,
            any => any,
        }
    }
}

impl<'a> LexerIter<'a> {
    pub(crate) proof fn lemma_continues_trans(a: &Self, b: &Self, c: &Self)
        requires
            b.continues(a),
            c.continues(b),
        ensures
            c.continues(a),
    {
        assert(c.errs@.take(a.errs@.len() as int) =~= b.errs@.take(a.errs@.len() as int));
        assert forall|k: int| a.errs@.len() <= k < c.errs@.len() implies #[trigger] c.errs@[k].token_idx
            == a.current_token_idx by {
            if k < b.errs@.len() {
                assert(c.errs@.take(b.errs@.len() as int)[k] == c.errs@[k]);
            }
        }
    }

    pub(crate) proof fn lemma_continues_refl(a: &Self)
        ensures
            a.continues(a),
    {
        assert(a.errs@.take(a.errs@.len() as int) =~= a.errs@);
    }

    /// The bounds that the lexer's state keeps.
    pub(crate) proof fn lemma_wf_bounds(&self)
        requires
            self.wf(),
        ensures
            4 * self.text().len() + 16 <= usize::MAX,
            0 <= self.pos() <= self.text().len(),
            cursor_at(self.text(), self.pos()).col <= self.pos(),
            cursor_at(self.text(), self.pos()).line <= self.pos(),
    {
        lemma_cursor_at_bounds(self.content@, self.stopped_at_idx as int);
    }

    /// Moves like `next_cursor`, and tells whether it stopped at the character `c`.
    fn next_cursor_is(&mut self, c: char) -> (r: bool)
        requires
            old(self).wf(),
        ensures
            final(self).wf(),
            final(self).continues(old(self)),
            final(self).errs@ == old(self).errs@,
            old(self).pos() < old(self).text().len() ==> final(self).pos() == old(self).pos() + 1,
            old(self).pos() == old(self).text().len() ==> final(self).pos() == old(self).pos(),
            r == (final(self).pos() < final(self).text().len() && final(self).text()[final(self).pos()] == c),
    {
        match self.next_cursor() {
            Some((_, ch)) => ch == c,
            None => false,
        }
    }

    /// Records an error of the token being lexed.
    pub(crate) fn push_err(&mut self, col: usize, len: usize, kind: LexerErrorKind)
        requires
            old(self).wf(),
            col + len <= 4 * old(self).text().len() + 8,
        ensures
            final(self).wf(),
            final(self).continues(old(self)),
            final(self).pos() == old(self).pos(),
            final(self).text() == old(self).text(),
            final(self).errors() == old(self).errors().push(
                LexerError { token_idx: old(self).token_index(), col, len, kind },
            ),
            final(self).token_index() == old(self).token_index(),
    {
        self.errs.push(LexerError { token_idx: self.current_token_idx, col, len, kind });
        proof {
            assert(self.errs@.take(self.errs@.len() - 1) =~= old(self).errs@);
        }
    }

    /// The error to report when the character the lexer stands at is a kufr symbol or
    /// a character of an unsupported script.
    #[inline]
    fn check_is_kufr_or_unsupported_char(&self) -> (r: Result<Option<char>, LexerError>)
        requires
            self.wf(),
        ensures
            kufr_or_unsupported(char_at(self.text(), self.pos())) ==> r == Err::<Option<char>, LexerError>(
                LexerError {
                    token_idx: self.current_token_idx,
                    col: cursor_at(self.text(), self.pos()).col,
                    len: 1,
                    kind: LexerErrorKind::KufrOrInvalidChar,
                },
            ),
            !kufr_or_unsupported(char_at(self.text(), self.pos())) ==> r == Ok::<Option<char>, LexerError>(
                Some(char_at(self.text(), self.pos())),
            ),
    {
        let (start, ch) = self.cursor.stopped_at;
        if is_kufr_or_unsupported_character(ch) {
            Err(
                LexerError {
                    token_idx: self.current_token_idx,
                    col: start.col,
                    len: 1,
                    kind: LexerErrorKind::KufrOrInvalidChar,
                },
            )
        } else {
            Ok(Some(ch))
        }
    }

    /// Lexes the token that starts with `/`: a line comment, a delimited comment (which
    /// may nest) or the slash symbol.
    fn next_token_with_slash(&mut self) -> (kind: TokenKind)
        requires
            old(self).wf(),
            old(self).pos() < old(self).text().len(),
            old(self).text()[old(self).pos()] == '/',
        ensures
            final(self).wf(),
            final(self).continues(old(self)),
            final(self).pos() > old(self).pos(),
            lexed_as(old(self).text(), old(self).pos(), final(self).pos(), kind),
            final(self).errors() == old(self).errors() + token_errors(
                old(self).text(),
                old(self).pos(),
                final(self).pos(),
                old(self).token_index(),
            ),
    {
        let ghost start = *self;
        let ghost idx = self.token_index();
        let ghost s = self.content@;
        let ghost p0 = self.stopped_at_idx as int;
        match self.next_cursor() {
            Some((_, '/')) => {
                loop
                    invariant_except_break
                        p0 < self.pos() < s.len(),
                        forall|k: int| p0 <= k <= self.pos() ==> s[k] != '\n',
                        self.errors() == start.errors() + kufr_errors(s, p0 + 2, self.pos() + 1, idx),
                    invariant
                        self.wf(),
                        self.continues(&start),
                        self.content@ == s,
                        self.token_index() == idx,
                        start.token_index() == idx,
                        p0 == start.pos(),
                    ensures
                        p0 + 2 <= self.pos() <= s.len(),
                        forall|k: int| p0 <= k < self.pos() ==> s[k] != '\n',
                        self.pos() == s.len() || s[self.pos()] == '\n',
                        self.errors() == start.errors() + kufr_errors(s, p0 + 2, self.pos(), idx),
                    decreases self.text().len() - self.pos(),
                {
                    let ghost before = self;
                    if self.next_cursor_non_eol().is_none() {
                        proof { Self::lemma_continues_trans(&start, &before, self); }
                        break;
                    }
                    // Skip all until first EOL
                    let ghost before_check = *self;
                    if let Err(err) = self.check_is_kufr_or_unsupported_char() {
                        proof {
                            self.lemma_wf_bounds();
                        }
                        let ghost before_push = *self;
                        self.push_err(err.col, err.len, err.kind);
                        proof {
                            Self::lemma_continues_trans(&before, &before_push, self);
                        }
                    }
                    proof {
                        Self::lemma_continues_trans(&start, &before, self);
                        let q = before_check.pos();
                        assert(self.errors() =~= start.errors() + kufr_errors(s, p0 + 2, q + 1, idx));
                    }
                }
                proof {
                    assert(lexed_as(s, p0, self.pos(), TokenKind::LineComment));
                    assert(token_errors(s, p0, self.pos(), idx) == kufr_errors(s, p0 + 2, self.pos(), idx));
                }
                TokenKind::LineComment
            },
            Some((_, '*')) => {
                let mut opened_delimted_comments: usize = 1;
                loop
                    invariant_except_break
                        delimited_end(s, self.pos(), opened_delimted_comments as int)
                            == delimited_end(s, p0 + 1, 1),
                        self.errors() + delimited_errors(
                            s,
                            self.pos(),
                            opened_delimted_comments as int,
                            idx,
                        ) == start.errors() + delimited_errors(s, p0 + 1, 1, idx),
                    invariant
                        self.wf(),
                        self.continues(&start),
                        self.content@ == s,
                        self.pos() > start.pos(),
                        p0 == start.pos(),
                        p0 + 1 < s.len(),
                        s[p0 + 1] == '*',
                        self.pos() >= p0 + 1,
                        opened_delimted_comments <= self.pos(),
                        self.token_index() == idx,
                        start.token_index() == idx,
                    ensures
                        self.pos() >= p0 + 2,
                        self.pos() == delimited_end(s, p0 + 1, 1),
                        opened_delimted_comments != 0 ==> self.pos() == s.len(),
                        self.errors() + (if opened_delimted_comments != 0 {
                            seq![
                                lexer_err(
                                    idx,
                                    cursor_at(s, s.len() as int).col as int,
                                    1,
                                    LexerErrorKind::UnclosedDelimitedComment,
                                ),
                            ]
                        } else {
                            Seq::empty()
                        }) == start.errors() + delimited_errors(s, p0 + 1, 1, idx),
                    decreases self.text().len() - self.pos(),
                {
                    let ghost before = self;
                    let ghost p = self.pos();
                    let ghost n = opened_delimted_comments as int;
                    let ch = match self.next_cursor() {
                        Some((_, ch)) => ch,
                        None => {
                            proof {
                                Self::lemma_continues_trans(&start, &before, self);
                                assert(delimited_errors(s, p, n, idx) =~= (if n != 0 {
                                    seq![
                                        lexer_err(
                                            idx,
                                            cursor_at(s, s.len() as int).col as int,
                                            1,
                                            LexerErrorKind::UnclosedDelimitedComment,
                                        ),
                                    ]
                                } else {
                                    Seq::empty()
                                }));
                            }
                            break;
                        },
                    };
                    if opened_delimted_comments == 0 {
                        proof {
                            Self::lemma_continues_trans(&start, &before, self);
                            assert(delimited_errors(s, p, n, idx) =~= Seq::<LexerError>::empty());
                            assert(self.errors() =~= self.errors() + Seq::<LexerError>::empty());
                        }
                        break;
                    }
                    let ghost mid = *self;
                    if ch == '/' && self.next_cursor_is('*') {
                        opened_delimted_comments += 1;
                    } else if ch == '*' && self.next_cursor_is('/') {
                        opened_delimted_comments -= 1;
                    }
                    proof {
                        Self::lemma_continues_trans(&before, &mid, self);
                        assert((self.pos(), opened_delimted_comments as int) == delimited_step(s, p + 1, n));
                    }
                    let ghost stepped = *self;
                    if let Err(err) = self.check_is_kufr_or_unsupported_char() {
                        proof {
                            self.lemma_wf_bounds();
                        }
                        let ghost before_push = *self;
                        self.push_err(err.col, err.len, err.kind);
                        proof {
                            Self::lemma_continues_trans(&before, &before_push, self);
                        }
                    }
                    proof {
                        Self::lemma_continues_trans(&start, &before, self);
                        let r = stepped.pos();
                        let n2 = opened_delimted_comments as int;
                        let e = if kufr_or_unsupported(char_at(s, r)) {
                            seq![kufr_err_at(s, r, idx)]
                        } else {
                            Seq::<LexerError>::empty()
                        };
                        assert(self.errors() =~= before.errors() + e);
                        assert(delimited_errors(s, p, n, idx) =~= e + delimited_errors(s, r, n2, idx));
                        assert(self.errors() + delimited_errors(s, r, n2, idx) =~= before.errors()
                            + delimited_errors(s, p, n, idx));
                    }
                }
                if opened_delimted_comments != 0 {
                    let col = self.cursor.stopped_at.0.col;
                    proof {
                        self.lemma_wf_bounds();
                    }
                    let ghost before = self;
                    self.push_err(col, 1, LexerErrorKind::UnclosedDelimitedComment);
                    proof { Self::lemma_continues_trans(&start, &before, self); }
                } else {
                    proof {
                        assert(self.errors() =~= self.errors() + Seq::<LexerError>::empty());
                    }
                }
                proof {
                    assert(lexed_as(s, p0, self.pos(), TokenKind::DelimitedComment));
                    assert(token_errors(s, p0, self.pos(), idx) == delimited_errors(s, p0 + 1, 1, idx));
                }
                TokenKind::DelimitedComment
            },
            _ => {
                proof {
                    assert(lexed_as(s, p0, self.pos(), TokenKind::Symbol(SymbolKind::Slash)));
                }
                TokenKind::Symbol(SymbolKind::Slash)
            },
        }
    }
}

impl<'a> LexerIter<'a> {
    /// Lexes a word: a boolean literal, a keyword or an identifier. A character that cannot
    /// start a word is an unknown token of its own.
    fn next_id_or_keyword(&mut self) -> (kind: TokenKind)
        requires
            old(self).wf(),
            old(self).pos() < old(self).text().len(),
            ({
                let c = old(self).text()[old(self).pos()];
                &&& c != '\n' && c != '/' && c != '\'' && c != '"'
                &&& symbol_of(c) is None
                &&& !is_digit(c)
                &&& !(c == '\t' || c == '\x0B' || c == '\x0C' || c == '\r' || c == ' ')
            }),
        ensures
            final(self).wf(),
            final(self).continues(old(self)),
            final(self).pos() > old(self).pos(),
            alphabetic(old(self).text()[old(self).pos()]) ==> {
                &&& run_of(
                    old(self).text(),
                    old(self).pos(),
                    final(self).pos(),
                    |c: char| is_word_char(c),
                )
                &&& is_word_kind(
                    old(self).text().subrange(old(self).pos(), final(self).pos()),
                    kind,
                )
                &&& final(self).errs@ == old(self).errs@
            },
            !alphabetic(old(self).text()[old(self).pos()]) ==> {
                &&& final(self).pos() == old(self).pos() + 1
                &&& kind matches TokenKind::Id(id) && id@ == seq![old(self).text()[old(self).pos()]]
                &&& final(self).errs@.len() == old(self).errs@.len() + 1
                &&& final(self).errs@.last().kind == LexerErrorKind::UnknownToken
                &&& final(self).errs@.last().len == 1
            },
            final(self).errors() == old(self).errors() + token_errors(
                old(self).text(),
                old(self).pos(),
                final(self).pos(),
                old(self).token_index(),
            ),
    {
        let ghost start_state = *self;
        let ghost s = self.content@;
        if !is_alphabetic(self.cursor.stopped_at.1) {
            let c = self.cursor.stopped_at.1;
            self.next_cursor();
            // The unknown character stands one column before the cursor, unless it is a
            // '\0' at the start of a line, after which the column does not move.
            let col = self.cursor.stopped_at.0.col;
            let col = if col > 0 {
                col - 1
            } else {
                0
            };
            let ghost mid = *self;
            proof {
                self.lemma_wf_bounds();
            }
            self.push_err(col, 1, LexerErrorKind::UnknownToken);
            proof {
                Self::lemma_continues_trans(&start_state, &mid, self);
                assert(self.errors() =~= start_state.errors() + token_errors(
                    s,
                    start_state.pos(),
                    self.pos(),
                    start_state.token_index(),
                ));
            }
            return TokenKind::Id(Arc::new(char_to_string(c)));
        }
        let start = self.stopped_at_idx;
        proof {
            Self::lemma_continues_refl(self);
        }
        loop
            invariant_except_break
                start <= self.pos() < s.len(),
                forall|k: int| start < k <= self.pos() ==> is_word_char(#[trigger] s[k]),
            invariant
                self.wf(),
                self.continues(&start_state),
                self.content@ == s,
                self.errs@ == start_state.errs@,
            ensures
                start < self.pos() <= s.len(),
                forall|k: int| start < k < self.pos() ==> is_word_char(#[trigger] s[k]),
                self.pos() == s.len() || !is_word_char(s[self.pos()]),
            decreases s.len() - self.pos(),
        {
            let ghost before = self;
            let r = self.next_cursor_non_eol();
            proof {
                Self::lemma_continues_trans(&start_state, &before, self);
            }
            let go = match r {
                Some((_, ch)) => is_alphanumeric(ch) || ch == '_',
                None => false,
            };
            if !go {
                break;
            }
        }
        proof {
            assert(self.errors() =~= start_state.errors() + token_errors(
                s,
                start_state.pos(),
                self.pos(),
                start_state.token_index(),
            ));
        }
        let end = self.stopped_at_idx;
        let id = self.content.substring_char(start, end);
        let id_string = String::from_str(id);
        proof {
            reveal_strlit("صحيح");
            reveal_strlit("فاسد");
        }
        if id_string == String::from_str("صحيح") {
            return TokenKind::Literal(LiteralKind::Bool(true));
        } else if id_string == String::from_str("فاسد") {
            return TokenKind::Literal(LiteralKind::Bool(false));
        }
        match keyword_of_word(&id_string) {
            Some(keyword_typ) => TokenKind::Keyword(keyword_typ),
            None => TokenKind::Id(Arc::new(id_string)),
        }
    }

    /// Lexes a run of decimal digits as an integer literal.
    fn next_num_token(&mut self) -> (kind: TokenKind)
        requires
            old(self).wf(),
            old(self).pos() < old(self).text().len(),
            is_digit(old(self).text()[old(self).pos()]),
        ensures
            final(self).wf(),
            final(self).continues(old(self)),
            run_of(old(self).text(), old(self).pos(), final(self).pos(), |c: char| is_digit(c)),
            ({
                let value = decimal_value(
                    old(self).text().subrange(old(self).pos(), final(self).pos()),
                );
                if value <= u64::MAX {
                    &&& kind == TokenKind::Literal(LiteralKind::Num(NumKind::UnspecifiedInt(value as u64)))
                    &&& final(self).errs@ == old(self).errs@
                } else {
                    &&& kind == TokenKind::Literal(LiteralKind::Num(NumKind::UnspecifiedInt(0)))
                    &&& final(self).errs@ == old(self).errs@.push(
                        LexerError {
                            token_idx: old(self).current_token_idx,
                            col: cursor_at(old(self).text(), old(self).pos()).col,
                            len: 0,
                            kind: LexerErrorKind::NumIsOutOfRange(NumKind::UnspecifiedInt(0)),
                        },
                    )
                }
            }),
            final(self).errors() == old(self).errors() + token_errors(
                old(self).text(),
                old(self).pos(),
                final(self).pos(),
                old(self).token_index(),
            ),
    {
        let ghost start_state = *self;
        let ghost s = self.content@;
        let start = self.stopped_at_idx;
        let start_col = self.cursor.stopped_at.0.col;
        let first = self.cursor.stopped_at.1;
        let mut value: u64 = (first as u64) - ('0' as u64);
        let mut out_of_range = false;
        proof {
            assert(s.subrange(start as int, start + 1).drop_last() =~= Seq::<char>::empty());
            assert(s.subrange(start as int, start + 1).last() == s[start as int]);
            assert(decimal_value(Seq::<char>::empty()) == 0);
            Self::lemma_continues_refl(self);
        }
        loop
            invariant_except_break
                start <= self.pos() < s.len(),
                forall|k: int| start <= k <= self.pos() ==> is_digit(#[trigger] s[k]),
                !out_of_range ==> value == decimal_value(s.subrange(start as int, self.pos() + 1)),
                out_of_range ==> decimal_value(s.subrange(start as int, self.pos() + 1)) > u64::MAX,
            invariant
                self.wf(),
                self.continues(&start_state),
                self.content@ == s,
                self.errs@ == start_state.errs@,
            ensures
                start < self.pos() <= s.len(),
                forall|k: int| start <= k < self.pos() ==> is_digit(#[trigger] s[k]),
                self.pos() == s.len() || !is_digit(s[self.pos()]),
                !out_of_range ==> value == decimal_value(s.subrange(start as int, self.pos())),
                out_of_range ==> decimal_value(s.subrange(start as int, self.pos())) > u64::MAX,
            decreases s.len() - self.pos(),
        {
            let ghost before = self;
            let r = self.next_cursor();
            proof {
                Self::lemma_continues_trans(&start_state, &before, self);
            }
            let ch = match r {
                Some((_, ch)) => ch,
                None => {
                    break;
                },
            };
            if !('0' <= ch && ch <= '9') {
                break;
            }
            let ghost prev = s.subrange(start as int, self.pos());
            proof {
                assert(s.subrange(start as int, self.pos() + 1).drop_last() =~= prev);
                assert(decimal_value(prev) >= 0) by {
                    lemma_decimal_value_nonneg(prev);
                }
            }
            if !out_of_range {
                let digit = (ch as u64) - ('0' as u64);
                match value.checked_mul(10) {
                    Some(v) => match v.checked_add(digit) {
                        Some(v) => {
                            value = v;
                        },
                        None => {
                            out_of_range = true;
                        },
                    },
                    None => {
                        out_of_range = true;
                    },
                }
            }
        }
        if out_of_range {
            let ghost before = self;
            proof {
                start_state.lemma_wf_bounds();
            }
            self.push_err(start_col, 0, LexerErrorKind::NumIsOutOfRange(NumKind::UnspecifiedInt(0)));
            proof {
                Self::lemma_continues_trans(&start_state, &before, self);
            }
            TokenKind::Literal(LiteralKind::Num(NumKind::UnspecifiedInt(0)))
        } else {
            TokenKind::Literal(LiteralKind::Num(NumKind::UnspecifiedInt(value)))
        }
    }
}

impl<'a> LexerIter<'a> {
    /// Scans a quoted literal from its opening quote `q` (at the position the lexer stands at)
    /// up to its closing quote, or up to the end of the line or of the text. Returns whether
    /// it was closed.
    fn scan_quoted(&mut self, q: char) -> (closed: bool)
        requires
            old(self).wf(),
            old(self).pos() < old(self).text().len(),
            old(self).text()[old(self).pos()] == q,
            q != '\n',
        ensures
            final(self).wf(),
            final(self).continues(old(self)),
            final(self).errs@ == old(self).errs@,
            quoted_until(old(self).text(), old(self).pos(), final(self).pos(), q, closed),
    {
        let ghost start_state = *self;
        let ghost s = self.content@;
        let ghost start = self.stopped_at_idx as int;
        let mut last_is_backslash = false;
        proof {
            Self::lemma_continues_refl(self);
        }
        loop
            invariant_except_break
                start <= self.pos() < s.len(),
                forall|k: int|
                    start < k <= self.pos() ==> s[k] != '\n' && !closes_quote(s, start, k, q),
                last_is_backslash == (self.pos() > start && s[self.pos()] == '\\'),
            invariant
                self.wf(),
                start_state == *old(self),
                s == old(self).text(),
                start == old(self).pos(),
                start < s.len(),
                s[start] == q,
                self.continues(&start_state),
                self.content@ == s,
                self.errs@ == start_state.errs@,
            decreases s.len() - self.pos(),
        {
            let ghost before = self;
            match self.next_cursor_non_eol() {
                None => {
                    proof {
                        Self::lemma_continues_trans(&start_state, &before, self);
                    }
                    return false;
                },
                Some((_, ch)) => {
                    proof {
                        Self::lemma_continues_trans(&start_state, &before, self);
                    }
                    if ch == q && !last_is_backslash {
                        let ghost mid = *self;
                        self.next_cursor();
                        proof {
                            Self::lemma_continues_trans(&start_state, &mid, self);
                        }
                        return true;
                    }
                    last_is_backslash = ch == '\\';
                },
            }
        }
    }

    /// Lexes a character literal.
    fn next_char_literal(&mut self) -> (kind: TokenKind)
        requires
            old(self).wf(),
            old(self).pos() < old(self).text().len(),
            old(self).text()[old(self).pos()] == '\'',
        ensures
            final(self).wf(),
            final(self).continues(old(self)),
            final(self).pos() > old(self).pos(),
            lexed_as(old(self).text(), old(self).pos(), final(self).pos(), kind),
            final(self).errors() == old(self).errors() + token_errors(
                old(self).text(),
                old(self).pos(),
                final(self).pos(),
                old(self).token_index(),
            ),
    {
        let ghost start_state = *self;
        let ghost s = self.content@;
        let start = self.cursor.stopped_at.0;
        let start_idx = self.stopped_at_idx;
        proof {
            self.lemma_wf_bounds();
        }
        let closed = self.scan_quoted('\'');
        if !closed {
            let col = self.cursor.stopped_at.0.col;
            let ghost mid = *self;
            proof {
                self.lemma_wf_bounds();
            }
            self.push_err(col, 1, LexerErrorKind::UnclosedChar);
            proof {
                Self::lemma_continues_trans(&start_state, &mid, self);
            }
            return TokenKind::Literal(LiteralKind::Char('\0'));
        }
        let end = self.cursor.stopped_at.0;
        let end_idx = self.stopped_at_idx;
        proof {
            self.lemma_wf_bounds();
            lemma_cursor_col_step(s, start_idx as int);
            lemma_cursor_col_step(s, end_idx - 1);
            lemma_cursor_same_line(s, start_idx + 1, end_idx - 1);
        }
        let lit = self.content.substring_char(start_idx + 1, end_idx - 1);
        let ghost mid = *self;
        let str = self.next_valid_nazm_rust_char_in_str(lit, start.col);
        proof {
            Self::lemma_continues_trans(&start_state, &mid, self);
        }
        let n = str.as_str().unicode_len();
        let ch = if n > 0 {
            let ch = str.as_str().get_char(0);
            if n > 1 {
                let ghost before = self;
                self.push_err(start.col + 1, end.col - start.col - 2, LexerErrorKind::ManyChars);
                proof {
                    Self::lemma_continues_trans(&start_state, &before, self);
                }
            }
            ch
        } else {
            let ghost before = self;
            self.push_err(start.col, 2, LexerErrorKind::ZeroChars);
            proof {
                Self::lemma_continues_trans(&start_state, &before, self);
            }
            '\0'
        };
        TokenKind::Literal(LiteralKind::Char(ch))
    }

    /// Lexes a string literal.
    fn next_str_literal(&mut self) -> (kind: TokenKind)
        requires
            old(self).wf(),
            old(self).pos() < old(self).text().len(),
            old(self).text()[old(self).pos()] == '"',
        ensures
            final(self).wf(),
            final(self).continues(old(self)),
            final(self).pos() > old(self).pos(),
            lexed_as(old(self).text(), old(self).pos(), final(self).pos(), kind),
            final(self).errors() == old(self).errors() + token_errors(
                old(self).text(),
                old(self).pos(),
                final(self).pos(),
                old(self).token_index(),
            ),
    {
        let ghost start_state = *self;
        let ghost s = self.content@;
        let start = self.cursor.stopped_at.0;
        let start_idx = self.stopped_at_idx;
        proof {
            self.lemma_wf_bounds();
        }
        let closed = self.scan_quoted('"');
        if !closed {
            let col = self.cursor.stopped_at.0.col;
            let ghost mid = *self;
            proof {
                self.lemma_wf_bounds();
            }
            self.push_err(col, 1, LexerErrorKind::UnclosedStr);
            proof {
                Self::lemma_continues_trans(&start_state, &mid, self);
            }
            return TokenKind::Literal(LiteralKind::Str(Arc::new(String::new())));
        }
        let end_idx = self.stopped_at_idx;
        let lit = self.content.substring_char(start_idx + 1, end_idx - 1);
        let ghost mid = *self;
        let str = self.next_valid_nazm_rust_char_in_str(lit, start.col);
        proof {
            Self::lemma_continues_trans(&start_state, &mid, self);
        }
        TokenKind::Literal(LiteralKind::Str(Arc::new(str)))
    }

    /// Lexes a run of whitespace (a line end is a token of its own).
    fn next_space(&mut self) -> (kind: TokenKind)
        requires
            old(self).wf(),
            old(self).pos() < old(self).text().len(),
            is_space_char(old(self).text()[old(self).pos()]),
        ensures
            final(self).wf(),
            final(self).continues(old(self)),
            final(self).errs@ == old(self).errs@,
            kind == TokenKind::Space,
            run_of(old(self).text(), old(self).pos(), final(self).pos(), |ch: char| is_space_char(ch)),
            final(self).errors() == old(self).errors() + token_errors(
                old(self).text(),
                old(self).pos(),
                final(self).pos(),
                old(self).token_index(),
            ),
    {
        let ghost start_state = *self;
        let ghost s = self.content@;
        let ghost start = self.stopped_at_idx as int;
        proof {
            Self::lemma_continues_refl(self);
        }
        loop
            invariant_except_break
                start <= self.pos() < s.len(),
                forall|k: int| start <= k <= self.pos() ==> is_space_char(#[trigger] s[k]),
            invariant
                self.wf(),
                self.continues(&start_state),
                self.content@ == s,
                self.errs@ == start_state.errs@,
            ensures
                start < self.pos() <= s.len(),
                forall|k: int| start < k < self.pos() ==> is_space_char(#[trigger] s[k]),
                self.pos() == s.len() || !is_space_char(s[self.pos()]),
            decreases s.len() - self.pos(),
        {
            let ghost before = self;
            let r = self.next_cursor();
            proof {
                Self::lemma_continues_trans(&start_state, &before, self);
            }
            match r {
                Some((_, ch)) => {
                    if !((ch == '\x0b' || is_ascii_whitespace(ch)) && ch != '\n') {
                        break;
                    }
                },
                None => {
                    break;
                },
            }
        }
        TokenKind::Space
    }

    /// Once the whole text is lexed, the lines gathered are the lines of the text (none yet
    /// for the empty text).
    proof fn lemma_lines_at_end(&self)
        requires
            self.wf(),
            self.pos() == self.text().len(),
        ensures
            self.text().len() > 0 ==> self.lines() == split_lines(self.text()),
            self.text().len() == 0 ==> self.lines().len() == 0,
    {
    }

    /// The next token of the text, and `None` once the text is done. The token's text, span
    /// and kind are those of the text from where the lexer stood (see `lexed_as`); the errors
    /// found on the way are added, marked with the token's index.
    pub fn next(&mut self) -> (r: Option<Token<'a>>)
        requires
            old(self).wf(),
        ensures
            final(self).wf(),
            final(self).text() == old(self).text(),
            r is None <==> old(self).pos() == old(self).text().len(),
            r is None ==> final(self).pos() == old(self).pos() && final(self).errors()
                == old(self).errors() && final(self).token_index() == old(self).token_index(),
            r matches Some(t) ==> {
                &&& final(self).pos() == old(self).pos() + t.val@.len()
                &&& t.val@.len() > 0
                &&& token_at(old(self).text(), old(self).pos(), t)
                &&& final(self).token_index() == old(self).token_index() + 1
                &&& final(self).errors() == old(self).errors() + token_errors(
                    old(self).text(),
                    old(self).pos(),
                    final(self).pos(),
                    old(self).token_index(),
                )
            },
            final(self).errors().len() >= old(self).errors().len(),
            final(self).errors().take(old(self).errors().len() as int) == old(self).errors(),
            forall|k: int|
                old(self).errors().len() <= k < final(self).errors().len()
                    ==> #[trigger] final(self).errors()[k].token_idx == old(self).token_index(),
    {
        let start = self.cursor.stopped_at.0;
        let start_idx = self.stopped_at_idx;
        let kind = self.next_token_type();
        if let TokenKind::Eof = kind {
            if start_idx < self.content_len {
                proof {
                    // A token that is not the end of the text is never `Eof`.
                    assert(lexed_as(self.content@, start_idx as int, self.stopped_at_idx as int, kind));
                }
            }
            return None;
        }
        let end = self.cursor.stopped_at.0;
        let end_idx = self.stopped_at_idx;
        let val = self.content.substring_char(start_idx, end_idx);
        let span = Span { start, end };
        self.current_token_idx = self.current_token_idx + 1;
        let t = Token { val, span, kind };
        proof {
            reveal(token_at);
        }
        Some(t)
    }

    /// Lexes the whole text: its tokens, its lines and the errors found.
    pub fn collect_all(self) -> (r: (Vec<Token<'a>>, Vec<&'a str>, Vec<LexerError>))
        requires
            self.wf(),
            self.pos() == 0,
            self.token_index() == 0,
            self.errors().len() == 0,
        ensures
            tokenizes(self.text(), r.0@, self.text().len() as int),
            joined_vals(r.0@) == self.text(),
            r.2@ == lexing_errors(self.text(), r.0@),
            strs_view(r.1@) == split_lines(self.text()),
            forall|k: int| 0 <= k < r.2@.len() ==> #[trigger] r.2@[k].token_idx < r.0@.len(),
            forall|i: int, j: int|
                0 <= i <= j < r.2@.len() ==> #[trigger] r.2@[i].token_idx <= #[trigger] r.2@[j].token_idx,
            forall|k: int| 0 <= k < r.2@.len() ==> #[trigger] r.2@[k].col + r.2@[k].len <= 4
                * self.text().len() + 8,
    {
        let ghost s = self.text();
        let mut lexer = self;
        let mut tokens: Vec<Token<'a>> = Vec::new();
        loop
            invariant
                lexer.wf(),
                lexer.text() == s,
                tokenizes(s, tokens@, lexer.pos()),
                lexer.token_index() == tokens@.len(),
                lexer.errors() == lexing_errors(s, tokens@),
                forall|k: int|
                    0 <= k < lexer.errors().len() ==> #[trigger] lexer.errors()[k].token_idx
                        < tokens@.len(),
                forall|i: int, j: int|
                    0 <= i <= j < lexer.errors().len() ==> #[trigger] lexer.errors()[i].token_idx
                        <= #[trigger] lexer.errors()[j].token_idx,
            ensures
                lexer.wf(),
                lexer.text() == s,
                lexer.pos() == s.len(),
                tokenizes(s, tokens@, s.len() as int),
                lexer.errors() == lexing_errors(s, tokens@),
                forall|k: int|
                    0 <= k < lexer.errors().len() ==> #[trigger] lexer.errors()[k].token_idx
                        < tokens@.len(),
                forall|i: int, j: int|
                    0 <= i <= j < lexer.errors().len() ==> #[trigger] lexer.errors()[i].token_idx
                        <= #[trigger] lexer.errors()[j].token_idx,
            decreases s.len() - lexer.pos(),
        {
            proof {
                lexer.lemma_wf_bounds();
            }
            let ghost before = lexer;
            match lexer.next() {
                Some(t) => {
                    proof {
                        lemma_tokenizes_push(s, tokens@, before.pos(), t);
                        assert(tokens@.push(t).drop_last() =~= tokens@);
                        assert forall|k: int|
                            0 <= k < lexer.errors().len() implies #[trigger] lexer.errors()[k].token_idx
                            < tokens@.len() + 1 by {
                            if k < before.errors().len() {
                                assert(lexer.errors().take(before.errors().len() as int)[k]
                                    == lexer.errors()[k]);
                            }
                        }
                        assert forall|i: int, j: int|
                            0 <= i <= j < lexer.errors().len() implies #[trigger] lexer.errors()[i].token_idx
                            <= #[trigger] lexer.errors()[j].token_idx by {
                            let n = before.errors().len() as int;
                            if i < n {
                                assert(lexer.errors().take(n)[i] == lexer.errors()[i]);
                            }
                            if j < n {
                                assert(lexer.errors().take(n)[j] == lexer.errors()[j]);
                            }
                        }
                    }
                    tokens.push(t);
                },
                None => {
                    break ;
                },
            }
        }
        proof {
            lexer.lemma_lines_at_end();
            lexer.lemma_wf_bounds();
            super::spec::lemma_split_lines_nonempty(s);
        }
        if lexer.file_lines.len() == 0 {
            let empty_line: &'static str = "";
            proof {
                reveal_strlit("");
                assert(empty_line@ =~= Seq::<char>::empty());
            }
            lexer.file_lines.push(empty_line);
            proof {
                assert(s.len() == 0);
                assert(strs_view(lexer.file_lines@) =~= split_lines(s));
            }
        }
        let errs = lexer.errs;
        proof {
            lemma_tokens_are_the_text(s, tokens@, s.len() as int);
            assert(s.take(s.len() as int) =~= s);
            assert forall|k: int| 0 <= k < errs@.len() implies #[trigger] errs@[k].token_idx
                < tokens@.len() by {
                assert(lexer.errors()[k] == errs@[k]);
            }
            assert forall|i: int, j: int| 0 <= i <= j < errs@.len() implies #[trigger] errs@[i].token_idx
                <= #[trigger] errs@[j].token_idx by {
                assert(lexer.errors()[i] == errs@[i]);
                assert(lexer.errors()[j] == errs@[j]);
            }
        }
        (tokens, lexer.file_lines, errs)
    }

    /// Lexes the token that starts at the position the lexer stands at; at the end of the
    /// text that is `Eof`.
    fn next_token_type(&mut self) -> (kind: TokenKind)
        requires
            old(self).wf(),
        ensures
            final(self).wf(),
            final(self).continues(old(self)),
            old(self).pos() == old(self).text().len() ==> kind == TokenKind::Eof && final(self).pos()
                == old(self).pos() && final(self).errs@ == old(self).errs@,
            old(self).pos() < old(self).text().len() ==> final(self).pos() > old(self).pos()
                && lexed_as(old(self).text(), old(self).pos(), final(self).pos(), kind)
                && final(self).errors() == old(self).errors() + token_errors(
                old(self).text(),
                old(self).pos(),
                final(self).pos(),
                old(self).token_index(),
            ),
    {
        let c = self.cursor.stopped_at.1;
        if c == '/' {
            return self.next_token_with_slash();
        }
        match symbol_of_char(c) {
            Some(symbol) => {
                self.next_cursor();
                proof {
                    assert(self.errors() =~= old(self).errors() + Seq::<LexerError>::empty());
                }
                return TokenKind::Symbol(symbol);
            },
            None => {},
        }
        if c == '\n' {
            self.next_cursor();
            proof {
                assert(self.errors() =~= old(self).errors() + Seq::<LexerError>::empty());
            }
            return TokenKind::Eol;
        }
        if '0' <= c && c <= '9' {
            return self.next_num_token();
        }
        if c == '\'' {
            return self.next_char_literal();
        }
        if c == '\"' {
            return self.next_str_literal();
        }
        if c == '\t' || c == '\x0b' || c == '\x0C' || c == '\r' || c == ' ' {
            return self.next_space();
        }
        if self.stopped_at_idx == self.content_len {
            proof {
                Self::lemma_continues_refl(self);
            }
            return TokenKind::Eof;
        }
        self.next_id_or_keyword()
    }
}

/// The character index at which the tokens `toks` end, when they start at index zero.
pub open spec fn tokens_end(toks: Seq<Token>) -> int
    decreases toks.len(),
{
    if toks.len() == 0 {
        0
    } else {
        tokens_end(toks.drop_last()) + toks.last().val@.len()
    }
}

/// The token `t` is the text `s[start..]` up to its length: its text, its span and its kind
/// are those of that part of `s`.
#[verifier::opaque]
pub open spec fn token_at(s: Seq<char>, start: int, t: Token) -> bool {
    let end = start + t.val@.len();
    &&& t.val@ == s.subrange(start, end)
    &&& t.span == (Span { start: cursor_at(s, start), end: cursor_at(s, end) })
    &&& lexed_as(s, start, end, t.kind)
}

/// The tokens `toks` are the lexed text `s`, one after another from its start up to `upto`.
pub open spec fn tokenizes(s: Seq<char>, toks: Seq<Token>, upto: int) -> bool {
    &&& tokens_end(toks) == upto
    &&& forall|i: int| 0 <= i < toks.len() ==> token_at(s, tokens_end(toks.take(i)), #[trigger] toks[i])
}

/// The errors found while lexing the tokens `toks` of the text `s`, token after token.
pub open spec fn lexing_errors(s: Seq<char>, toks: Seq<Token>) -> Seq<LexerError>
    decreases toks.len(),
{
    if toks.len() == 0 {
        Seq::empty()
    } else {
        lexing_errors(s, toks.drop_last()) + token_errors(
            s,
            tokens_end(toks.drop_last()),
            tokens_end(toks),
            (toks.len() - 1) as usize,
        )
    }
}

/// The texts of the tokens `toks`, one after another.
pub open spec fn joined_vals(toks: Seq<Token>) -> Seq<char>
    decreases toks.len(),
{
    if toks.len() == 0 {
        Seq::<char>::empty()
    } else {
        joined_vals(toks.drop_last()) + toks.last().val@
    }
}

/// Lexing loses nothing: tokens that are the lexed text `s` up to `upto` hold, one after
/// another, exactly the characters of `s` up to `upto`.
pub proof fn lemma_tokens_are_the_text(s: Seq<char>, toks: Seq<Token>, upto: int)
    requires
        tokenizes(s, toks, upto),
    ensures
        joined_vals(toks) == s.take(upto),
    decreases toks.len(),
{
    if toks.len() > 0 {
        let prev = toks.drop_last();
        let start = tokens_end(prev);
        lemma_tokenizes_drop_last(s, toks, upto);
        lemma_tokens_are_the_text(s, prev, start);
        lemma_tokens_end_nonneg(prev);
        let t = toks.last();
        assert(t.val@ == s.subrange(start, upto) && upto <= s.len()) by {
            reveal(token_at);
        }
        assert(joined_vals(toks) =~= s.take(upto));
    } else {
        assert(s.take(0) =~= Seq::<char>::empty());
    }
}

/// The tokens before the last one are the lexed text up to where the last one starts.
proof fn lemma_tokenizes_drop_last(s: Seq<char>, toks: Seq<Token>, upto: int)
    requires
        tokenizes(s, toks, upto),
        toks.len() > 0,
    ensures
        tokenizes(s, toks.drop_last(), tokens_end(toks.drop_last())),
        token_at(s, tokens_end(toks.drop_last()), toks.last()),
{
    let prev = toks.drop_last();
    let n = toks.len() - 1;
    assert(toks.take(n) =~= prev);
    assert(token_at(s, tokens_end(toks.take(n)), toks[n]));
    assert forall|i: int| 0 <= i < prev.len() implies token_at(
        s,
        tokens_end(prev.take(i)),
        #[trigger] prev[i],
    ) by {
        assert(prev.take(i) =~= toks.take(i));
        assert(token_at(s, tokens_end(toks.take(i)), toks[i]));
    }
}

/// The span of each token lies within the text: its lines and columns are at most the
/// number of characters of the text.
pub proof fn lemma_token_spans_bounded(s: Seq<char>, toks: Seq<Token>, upto: int, i: int)
    requires
        tokenizes(s, toks, upto),
        0 <= i < toks.len(),
    ensures
        toks[i].span.start.line <= s.len(),
        toks[i].span.start.col <= s.len(),
        toks[i].span.end.line <= s.len(),
        toks[i].span.end.col <= s.len(),
{
    let start = tokens_end(toks.take(i));
    assert(token_at(s, start, toks[i]));
    lemma_tokens_end_nonneg(toks.take(i));
    reveal(token_at);
    let end = start + toks[i].val@.len();
    lemma_cursor_at_bounds(s, start);
    lemma_cursor_at_bounds(s, end);
}

/// Each symbol, written alone, is lexed as one token of that symbol.
pub proof fn lemma_symbol_lexed_alone(k: SymbolKind, end: int, kind: TokenKind)
    requires
        lexed_as(seq![super::token::symbol_char(k)], 0, end, kind),
    ensures
        end == 1,
        kind == TokenKind::Symbol(k),
{
    super::token::lemma_symbol_char_roundtrip(k);
}

pub proof fn lemma_tokens_end_nonneg(toks: Seq<Token>)
    ensures
        tokens_end(toks) >= 0,
    decreases toks.len(),
{
    if toks.len() > 0 {
        lemma_tokens_end_nonneg(toks.drop_last());
    }
}

/// Appending a token that is the text after `toks` keeps `toks` the lexed text.
proof fn lemma_tokenizes_push(s: Seq<char>, toks: Seq<Token>, upto: int, t: Token)
    requires
        tokenizes(s, toks, upto),
        token_at(s, upto, t),
    ensures
        tokenizes(s, toks.push(t), upto + t.val@.len()),
{
    let nt = toks.push(t);
    assert(nt.drop_last() =~= toks);
    assert forall|i: int| 0 <= i < nt.len() implies token_at(
        s,
        tokens_end(nt.take(i)),
        #[trigger] nt[i],
    ) by {
        if i < toks.len() {
            assert(nt.take(i) =~= toks.take(i));
            assert(token_at(s, tokens_end(toks.take(i)), toks[i]));
        } else {
            assert(nt.take(i) =~= toks);
        }
    }
}

/// The first keyword written as `word`, in the order of `KeywordKind::all`.
fn keyword_of_word(word: &String) -> (r: Option<KeywordKind>)
    ensures
        r == keyword_of(word@),
{
    let keywords = KeywordKind::all();
    let mut i: usize = 0;
    while i < keywords.len()
        invariant
            keywords@ == keyword_order(),
            0 <= i <= keywords@.len(),
            keyword_of(word@) == keyword_from(word@, i as int),
        decreases keywords@.len() - i,
    {
        let keyword_typ = keywords[i];
        if String::from_str(keyword_typ.docs()) == *word {
            return Some(keyword_typ);
        }
        i = i + 1;
    }
    None
}

proof fn lemma_decimal_value_nonneg(ds: Seq<char>)
    requires
        forall|k: int| 0 <= k < ds.len() ==> is_digit(#[trigger] ds[k]),
    ensures
        decimal_value(ds) >= 0,
    decreases ds.len(),
{
    if ds.len() > 0 {
        lemma_decimal_value_nonneg(ds.drop_last());
    }
}

} // verus!
