use super::error::{LexerError, LexerErrorKind};
use super::kufr::{is_kufr_or_unsupported_character, kufr_or_unsupported};
use super::lexer_iter::LexerIter;
use crate::text::{
    ascii_hexdigit, char_from_u32, chars_of, hex_digit_value, hex_value, is_ascii_hexdigit,
    push_char,
};
use vstd::prelude::*;

verus! {

/// The character written by the escape `\e` of one character, if `e` is such an escape.
pub open spec fn simple_escape(e: char) -> Option<char> {
    if e == 'خ' {
        Some('\x08')  // مسافة للخلف
    } else if e == 'ر' {
        Some('\x0b')  // مسافة رأسية
    } else if e == 'ص' {
        Some('\x0c')  // الصفحة التالية
    } else if e == 'ف' {
        Some('\t')  // مسافة أفقية
    } else if e == 'س' {
        Some('\n')  // سطر جديد
    } else if e == 'ج' {
        Some('\r')  // إرجاع المؤشر إلى بداية السطر، وبدء الكتابة منه
    } else if e == '\\' {
        Some('\\')
    } else if e == '\'' {
        Some('\'')
    } else if e == '\"' {
        Some('\"')
    } else if e == '0' {
        Some('\0')
    } else {
        None
    }
}

/// The value of four hexadecimal digits.
pub open spec fn hex4_value(t: Seq<char>) -> int {
    ((hex_value(t[0]) * 16 + hex_value(t[1])) * 16 + hex_value(t[2])) * 16 + hex_value(t[3])
}

/// A code that is a Unicode scalar value.
pub open spec fn is_scalar_value(v: int) -> bool {
    (0 <= v && v <= 0xD7FF) || (0xE000 <= v && v <= 0x10FFFF)
}

/// The character of the escape `\يXXXX`, where `t` holds the (at most four) characters after
/// `ي`: the character with that code when they are four hexadecimal digits of a supported
/// character, else `'\0'`.
pub open spec fn unicode_escape(t: Seq<char>) -> char {
    if t.len() == 4 && (forall|k: int| 0 <= k < 4 ==> ascii_hexdigit(#[trigger] t[k]))
        && is_scalar_value(hex4_value(t)) && !kufr_or_unsupported(hex4_value(t) as char) {
        hex4_value(t) as char
    } else {
        '\0'
    }
}

/// The number of characters an escape `\يXXXX` reads after `ي`: four, or what is left.
pub open spec fn unicode_escape_len(rest: Seq<char>) -> int {
    if rest.len() < 4 {
        rest.len() as int
    } else {
        4
    }
}

/// The text that the characters between the quotes of a string or character literal write:
/// escapes are replaced by the characters they stand for (an unknown escape, or a backslash
/// at the end, by `'\0'`), and kufr or unsupported characters are left out.
pub open spec fn decode_literal(cs: Seq<char>) -> Seq<char>
    decreases cs.len(),
{
    if cs.len() == 0 {
        Seq::<char>::empty()
    } else if cs[0] != '\\' {
        (if kufr_or_unsupported(cs[0]) {
            Seq::<char>::empty()
        } else {
            seq![cs[0]]
        }) + decode_literal(cs.drop_first())
    } else if cs.len() == 1 {
        seq!['\0']
    } else if cs[1] == 'ي' {
        let n = unicode_escape_len(cs.skip(2));
        seq![unicode_escape(cs.subrange(2, 2 + n))] + decode_literal(cs.skip(2 + n))
    } else {
        seq![
            match simple_escape(cs[1]) {
                Some(c) => c,
                None => '\0',
            },
        ] + decode_literal(cs.skip(2))
    }
}

/// The hexadecimal digit of the value `v` (below 16): `0` to `9`, then `a` to `f` in lower
/// case or `A` to `F` in upper case.
pub open spec fn hex_digit_char(v: int, lower: bool) -> char {
    if v < 10 {
        (48 + v) as char
    } else if lower {
        (97 + v - 10) as char
    } else {
        (65 + v - 10) as char
    }
}

/// Every hexadecimal digit, in lower or upper case, is read as a digit with its value.
pub proof fn lemma_hex_digits_read(v: int, lower: bool)
    requires
        0 <= v < 16,
    ensures
        ascii_hexdigit(hex_digit_char(v, lower)),
        hex_value(hex_digit_char(v, lower)) == v,
{
}

/// The escape `\ي` followed by four hexadecimal digits (in either case) writes the character
/// whose code they give, when that code is a supported character.
pub proof fn lemma_unicode_escape_decodes(
    v0: int,
    v1: int,
    v2: int,
    v3: int,
    l0: bool,
    l1: bool,
    l2: bool,
    l3: bool,
)
    requires
        0 <= v0 < 16,
        0 <= v1 < 16,
        0 <= v2 < 16,
        0 <= v3 < 16,
        is_scalar_value(((v0 * 16 + v1) * 16 + v2) * 16 + v3),
        !kufr_or_unsupported((((v0 * 16 + v1) * 16 + v2) * 16 + v3) as char),
    ensures
        decode_literal(
            seq![
                '\\',
                'ي',
                hex_digit_char(v0, l0),
                hex_digit_char(v1, l1),
                hex_digit_char(v2, l2),
                hex_digit_char(v3, l3),
            ],
        ) == seq![(((v0 * 16 + v1) * 16 + v2) * 16 + v3) as char],
{
    lemma_hex_digits_read(v0, l0);
    lemma_hex_digits_read(v1, l1);
    lemma_hex_digits_read(v2, l2);
    lemma_hex_digits_read(v3, l3);
    let cs = seq![
        '\\',
        'ي',
        hex_digit_char(v0, l0),
        hex_digit_char(v1, l1),
        hex_digit_char(v2, l2),
        hex_digit_char(v3, l3),
    ];
    let t = cs.subrange(2, 6);
    assert(cs.skip(2).len() == 4);
    assert(t =~= seq![
        hex_digit_char(v0, l0),
        hex_digit_char(v1, l1),
        hex_digit_char(v2, l2),
        hex_digit_char(v3, l3),
    ]);
    assert(forall|k: int| 0 <= k < 4 ==> ascii_hexdigit(#[trigger] t[k]));
    assert(hex4_value(t) == ((v0 * 16 + v1) * 16 + v2) * 16 + v3);
    assert(cs.skip(6) =~= Seq::<char>::empty());
    assert(decode_literal(Seq::<char>::empty()) == Seq::<char>::empty());
    assert(decode_literal(cs) =~= seq![unicode_escape(t)] + decode_literal(cs.skip(6)));
}

/// The error of the token with index `idx` at column `col`, `len` columns long.
pub open spec fn lexer_err(idx: usize, col: int, len: int, kind: LexerErrorKind) -> LexerError {
    LexerError { token_idx: idx, col: col as usize, len: len as usize, kind }
}

/// The errors of a unicode escape whose hexadecimal digits `t` (those read, at most four)
/// start at column `dcol`: digits that are missing or not hexadecimal (marked from the
/// backslash when none was read), a code that is no character, or a kufr character.
pub open spec fn unicode_escape_errors(t: Seq<char>, dcol: int, idx: usize) -> Seq<LexerError> {
    if !(t.len() == 4 && (forall|k: int| 0 <= k < 4 ==> ascii_hexdigit(#[trigger] t[k]))) {
        if t.len() == 0 {
            seq![lexer_err(idx, dcol - 2, 2, LexerErrorKind::UnicodeCodePointHexDigitOnly)]
        } else {
            seq![lexer_err(idx, dcol, t.len() as int, LexerErrorKind::UnicodeCodePointHexDigitOnly)]
        }
    } else if !is_scalar_value(hex4_value(t)) {
        seq![lexer_err(idx, dcol - 2, 6, LexerErrorKind::InvalidUnicodeCodePoint)]
    } else if kufr_or_unsupported(hex4_value(t) as char) {
        seq![lexer_err(idx, dcol - 2, 6, LexerErrorKind::KufrOrInvalidChar)]
    } else {
        Seq::empty()
    }
}

/// The errors of decoding the characters `cs` of a literal (see `decode_literal`), where
/// `col` is the column before the first of them: kufr characters, unknown escapes (and a
/// backslash at the end), and the errors of unicode escapes, in order.
pub open spec fn decode_errors(cs: Seq<char>, col: int, idx: usize) -> Seq<LexerError>
    decreases cs.len(),
{
    if cs.len() == 0 {
        Seq::empty()
    } else if cs[0] != '\\' {
        (if kufr_or_unsupported(cs[0]) {
            seq![lexer_err(idx, col + 1, 1, LexerErrorKind::KufrOrInvalidChar)]
        } else {
            Seq::empty()
        }) + decode_errors(cs.drop_first(), col + 1, idx)
    } else if cs.len() == 1 {
        seq![lexer_err(idx, col + 2, 1, LexerErrorKind::UnknownEscapeSequence)]
    } else if cs[1] == 'ي' {
        let n = unicode_escape_len(cs.skip(2));
        unicode_escape_errors(cs.subrange(2, 2 + n), col + 3, idx) + decode_errors(
            cs.skip(2 + n),
            col + 6,
            idx,
        )
    } else {
        (if simple_escape(cs[1]) is None {
            seq![lexer_err(idx, col + 2, 1, LexerErrorKind::UnknownEscapeSequence)]
        } else {
            Seq::empty()
        }) + decode_errors(cs.skip(2), col + 2, idx)
    }
}

impl<'a> LexerIter<'a> {
    /// Reads the characters between the quotes of a string or character literal that starts
    /// at column `start_col`, and returns the text they write (see `decode_literal`).
    /// Kufr characters, unknown escapes and bad unicode escapes are reported as errors.
    pub fn next_valid_nazm_rust_char_in_str(&mut self, chars: &str, start_col: usize) -> (r:
        String)
        requires
            old(self).wf(),
            start_col + 3 * chars@.len() <= 4 * old(self).text().len(),
        ensures
            final(self).wf(),
            final(self).continues(old(self)),
            final(self).pos() == old(self).pos(),
            final(self).text() == old(self).text(),
            r@ == decode_literal(chars@),
            final(self).errors() == old(self).errors() + decode_errors(
                chars@,
                start_col as int,
                old(self).token_index(),
            ),
    {
        let cs = chars_of(chars);
        self.decode_literal_chars(&cs, start_col)
    }

    fn decode_literal_chars(&mut self, chars: &Vec<char>, start_col: usize) -> (r: String)
        requires
            old(self).wf(),
            start_col + 3 * chars@.len() <= 4 * old(self).text().len(),
        ensures
            final(self).wf(),
            final(self).continues(old(self)),
            final(self).pos() == old(self).pos(),
            final(self).text() == old(self).text(),
            r@ == decode_literal(chars@),
            final(self).errors() == old(self).errors() + decode_errors(
                chars@,
                start_col as int,
                old(self).token_index(),
            ),
    {
        let ghost start_state = *self;
        let ghost idx = self.token_index();
        let ghost cs = chars@;
        let ghost old_col = start_col;
        let mut start_col = start_col;
        let mut i: usize = 0;
        let mut str = String::new();
        proof {
            LexerIter::lemma_continues_refl(self);
            self.lemma_wf_bounds();
            assert(cs.skip(0) =~= cs);
        }
        while i < chars.len()
            invariant
                4 * self.text().len() + 16 <= usize::MAX,
                self.wf(),
                self.continues(&start_state),
                self.pos() == start_state.pos(),
                self.text() == start_state.text(),
                chars@ == cs,
                0 <= i <= cs.len(),
                start_col + 3 * (cs.len() - i) <= 4 * self.text().len(),
                str@ + decode_literal(cs.skip(i as int)) == decode_literal(cs),
                idx == self.token_index(),
                self.errors() + decode_errors(cs.skip(i as int), start_col as int, idx)
                    == start_state.errors() + decode_errors(cs, old_col as int, idx),
            decreases cs.len() - i,
        {
            let ghost rem = cs.skip(i as int);
            let ch = chars[i];
            i = i + 1;
            start_col += 1;
            if ch != '\\' {
                proof {
                    assert(rem.drop_first() =~= cs.skip(i as int));
                }
                if is_kufr_or_unsupported_character(ch) {
                    let ghost before = *self;
                    self.push_err(start_col, 1, LexerErrorKind::KufrOrInvalidChar);
                    proof {
                        LexerIter::lemma_continues_trans(&start_state, &before, self);
                        assert(str@ + decode_literal(cs.skip(i as int)) =~= decode_literal(cs));
                    }
                } else {
                    push_char(&mut str, ch);
                    proof {
                        assert(str@ + decode_literal(cs.skip(i as int)) =~= decode_literal(cs));
                    }
                };
                continue ;
            }
            start_col += 1;
            if i >= chars.len() {
                // A backslash at the end
                push_char(&mut str, '\0');
                let ghost before = *self;
                self.push_err(start_col, 1, LexerErrorKind::UnknownEscapeSequence);
                proof {
                    LexerIter::lemma_continues_trans(&start_state, &before, self);
                    assert(cs.skip(i as int) =~= Seq::<char>::empty());
                    assert(str@ + decode_literal(cs.skip(i as int)) =~= decode_literal(cs));
                }
                continue ;
            }
            let e = chars[i];
            i = i + 1;
            match e {
                'خ' => push_char(&mut str, '\x08'),  // مسافة للخلف
                'ر' => push_char(&mut str, '\x0b'),  // مسافة رأسية
                'ص' => push_char(&mut str, '\x0c'),  // الصفحة التالية
                'ف' => push_char(&mut str, '\t'),  // مسافة أفقية
                'س' => push_char(&mut str, '\n'),  // سطر جديد
                'ج' => push_char(&mut str, '\r'),  // إرجاع المؤشر إلى بداية السطر، وبدء الكتابة منه
                '\\' => push_char(&mut str, '\\'),
                '\'' => push_char(&mut str, '\''),
                '\"' => push_char(&mut str, '\"'),
                '0' => push_char(&mut str, '\0'),
                'ي' => {
                    start_col += 1;
                    let ghost before = *self;
                    let ch = self.next_unicode_char(chars, &mut i, start_col);
                    proof {
                        LexerIter::lemma_continues_trans(&start_state, &before, self);
                    }
                    start_col += 3;
                    push_char(&mut str, ch);
                },
                _ => {
                    push_char(&mut str, '\0');
                    let ghost before = *self;
                    self.push_err(start_col, 1, LexerErrorKind::UnknownEscapeSequence);
                    proof {
                        LexerIter::lemma_continues_trans(&start_state, &before, self);
                    }
                },
            }
            proof {
                if e == 'ي' {
                    assert(rem.skip(2) =~= cs.skip(i - unicode_escape_len(rem.skip(2))));
                    assert(rem.skip(2 + unicode_escape_len(rem.skip(2))) =~= cs.skip(i as int));
                    assert(rem.subrange(2, 2 + unicode_escape_len(rem.skip(2))) =~= rem.skip(
                        2,
                    ).take(unicode_escape_len(rem.skip(2))));
                } else {
                    assert(rem.skip(2) =~= cs.skip(i as int));
                }
                assert(str@ + decode_literal(cs.skip(i as int)) =~= decode_literal(cs));
            }
        }
        proof {
            assert(cs.skip(i as int) =~= Seq::<char>::empty());
            assert(str@ =~= decode_literal(cs));
        }
        return str;
    }

    /// Reads the (at most four) hexadecimal digits of a unicode escape `\يXXXX` that start at
    /// index `*i` of `chars` and at column `start_col`, and returns the character they write
    /// (see `unicode_escape`).
    fn next_unicode_char(&mut self, chars: &Vec<char>, i: &mut usize, start_col: usize) -> (r:
        char)
        requires
            old(self).wf(),
            start_col >= 2,
            start_col + 6 <= 4 * old(self).text().len() + 8,
            *old(i) <= chars@.len(),
        ensures
            final(self).wf(),
            final(self).continues(old(self)),
            final(self).pos() == old(self).pos(),
            final(self).text() == old(self).text(),
            *final(i) == *old(i) + unicode_escape_len(chars@.skip(*old(i) as int)),
            r == unicode_escape(
                chars@.skip(*old(i) as int).take(unicode_escape_len(chars@.skip(*old(i) as int))),
            ),
            final(self).errors() == old(self).errors() + unicode_escape_errors(
                chars@.skip(*old(i) as int).take(unicode_escape_len(chars@.skip(*old(i) as int))),
                start_col as int,
                old(self).token_index(),
            ),
            final(self).token_index() == old(self).token_index(),
    {
        proof {
            LexerIter::lemma_continues_refl(self);
        }
        let ghost rem = chars@.skip(*i as int);
        let mut code_point: u32 = 0;
        let mut err = false;
        let mut len: usize = 0;
        let mut k: usize = 0;
        while k < 4
            invariant_except_break
                err ==> exists|j: int| 0 <= j < len && !ascii_hexdigit(#[trigger] rem[j]),
            invariant
                rem == chars@.skip(*old(i) as int),
                *i == *old(i) + len,
                *i <= chars@.len(),
                k == len,
                0 <= len <= 4,
                len <= rem.len(),
                code_point < 0x10000,
                len == 0 ==> code_point == 0,
                len <= 1 ==> code_point < 16,
                len <= 2 ==> code_point < 256,
                len <= 3 ==> code_point < 4096,
                !err ==> code_point as int == hex_prefix_value(rem, len as int),
                !err ==> forall|j: int| 0 <= j < len ==> ascii_hexdigit(#[trigger] rem[j]),
            ensures
                len == unicode_escape_len(rem),
                *i == *old(i) + len,
                code_point < 0x10000,
                !err ==> len == 4 && code_point as int == hex_prefix_value(rem, 4),
                !err ==> forall|j: int| 0 <= j < 4 ==> ascii_hexdigit(#[trigger] rem[j]),
                err ==> !(len == 4 && forall|j: int| 0 <= j < 4 ==> ascii_hexdigit(#[trigger] rem[j])),
            decreases 4 - k,
        {
            if *i < chars.len() {
                let ch = chars[*i];
                *i = *i + 1;
                if is_ascii_hexdigit(ch) {
                    if !err {
                        code_point = code_point * 16 + hex_digit_value(ch);
                    }
                } else {
                    assert(!ascii_hexdigit(rem[len as int]));
                    err = true;
                }
            } else {
                err = true;
                break;
            }
            len += 1;
            k += 1;
        }
        proof {
            if !err {
                reveal_with_fuel(hex_prefix_value, 5);
                assert(hex_prefix_value(rem, 4) == hex4_value(rem.take(4)));
                assert forall|j: int| 0 <= j < 4 implies ascii_hexdigit(#[trigger] rem.take(4)[j]) by {
                    assert(rem.take(4)[j] == rem[j]);
                }
            } else if len == 4 {
                assert(rem.take(4).len() == 4);
                if forall|j: int| 0 <= j < 4 ==> ascii_hexdigit(#[trigger] rem.take(4)[j]) {
                    assert forall|j: int| 0 <= j < 4 implies ascii_hexdigit(#[trigger] rem[j]) by {
                        assert(rem.take(4)[j] == rem[j]);
                    }
                }
            }
        }
        let ghost t = rem.take(len as int);
        proof {
            assert(t.len() == len);
            assert forall|j: int| 0 <= j < t.len() implies t[j] == rem[j] by {}
            if err {
                assert(!(t.len() == 4 && (forall|k: int| 0 <= k < 4 ==> ascii_hexdigit(#[trigger] t[k])))) by {
                    if t.len() == 4 && (forall|k: int| 0 <= k < 4 ==> ascii_hexdigit(#[trigger] t[k])) {
                        assert forall|j: int| 0 <= j < 4 implies ascii_hexdigit(#[trigger] rem[j]) by {
                            assert(t[j] == rem[j]);
                        }
                    }
                }
            } else {
                assert forall|k: int| 0 <= k < 4 implies ascii_hexdigit(#[trigger] t[k]) by {
                    assert(t[k] == rem[k]);
                }
            }
        }
        if err {
            let (col, len) = if len == 0 {
                // Mark starting from the slash if no digits found
                (start_col - 2, 2)
            } else {
                (start_col, len)
            };
            self.push_err(col, len, LexerErrorKind::UnicodeCodePointHexDigitOnly);
            proof {
                assert(self.errors() =~= old(self).errors() + unicode_escape_errors(
                    t,
                    start_col as int,
                    old(self).token_index(),
                ));
            }
            return '\0';
        }
        return match char_from_u32(code_point) {
            Some(ch) => {
                proof {
                    assert(ch as int == hex4_value(rem.take(4)));
                    assert(ch == hex4_value(rem.take(4)) as char);
                }
                if is_kufr_or_unsupported_character(ch) {
                    self.push_err(
                        start_col - 2,  // mark starting from the slash
                        6,
                        LexerErrorKind::KufrOrInvalidChar,
                    );
                    proof {
                        assert(self.errors() =~= old(self).errors() + unicode_escape_errors(
                            t,
                            start_col as int,
                            old(self).token_index(),
                        ));
                    }
                    '\0'
                } else {
                    proof {
                        assert(self.errors() =~= old(self).errors() + unicode_escape_errors(
                            t,
                            start_col as int,
                            old(self).token_index(),
                        ));
                    }
                    ch
                }
            },
            None => {
                self.push_err(
                    start_col - 2,  // mark starting from the slash
                    6,
                    LexerErrorKind::InvalidUnicodeCodePoint,
                );
                proof {
                    assert(self.errors() =~= old(self).errors() + unicode_escape_errors(
                        t,
                        start_col as int,
                        old(self).token_index(),
                    ));
                }
                '\0'
            },
        };
    }
}

/// The value of the first `n` characters of `t` read as hexadecimal digits.
pub open spec fn hex_prefix_value(t: Seq<char>, n: int) -> int
    decreases n,
{
    if n <= 0 {
        0
    } else {
        hex_prefix_value(t, n - 1) * 16 + hex_value(t[n - 1])
    }
}

} // verus!
