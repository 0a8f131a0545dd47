use super::token::{Base, NumKind};
use vstd::prelude::*;

verus! {

/// An error found while lexing: the index of the token it belongs to, and the columns
/// (`col` and `len` columns after it) that it marks on that token's line.
#[derive(Debug, Clone, Copy, PartialEq, Eq, Structural)]
pub struct LexerError {
    pub token_idx: usize,
    pub col: usize,
    pub len: usize,
    pub kind: LexerErrorKind,
}

#[derive(Debug, Clone, Copy, PartialEq, Eq, Structural)]
pub enum LexerErrorKind {
    UnknownToken,
    UnclosedStr,
    UnclosedChar,
    UnclosedDelimitedComment,
    ZeroChars,
    ManyChars,
    KufrOrInvalidChar,
    UnicodeCodePointHexDigitOnly,
    InvalidUnicodeCodePoint,
    UnknownEscapeSequence,
    MissingDigitsAfterBasePrefix,
    MissingDigitsAfterExponent,
    InvalidIntBasePrefix,
    InvalidNumSuffix,
    InvalidFloatSuffix,
    InvalidIntSuffix,
    InvalidDigitForBase(Base),
    NumIsOutOfRange(NumKind),
}

} // verus!
