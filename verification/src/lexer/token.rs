use crate::span::Span;
use std::sync::Arc;
use vstd::prelude::*;

verus! {

/// A token of a Nazm source file: its text, where it stands and what it is.
#[derive(Debug, Clone, PartialEq)]
pub struct Token<'a> {
    pub val: &'a str,
    pub span: Span,
    pub kind: TokenKind,
}

#[derive(Debug, Clone, PartialEq)]
pub enum TokenKind {
    Eof,
    Eol,
    Space,
    LineComment,
    DelimitedComment,
    Literal(LiteralKind),
    Id(Arc<String>),
    Symbol(SymbolKind),
    Keyword(KeywordKind),
}

#[derive(Debug, Clone, PartialEq)]
pub enum LiteralKind {
    Str(Arc<String>),
    Char(char),
    Bool(bool),
    Num(NumKind),
}

/// The kind and value of a number literal (the integer kinds).
#[derive(Debug, Clone, Copy, PartialEq, Eq, Structural)]
pub enum NumKind {
    I(isize),
    I1(i8),
    I2(i16),
    I4(i32),
    I8(i64),
    U(usize),
    U1(u8),
    U2(u16),
    U4(u32),
    U8(u64),
    UnspecifiedInt(u64),
}

/// The numeral systems of number literals.
#[derive(Debug, Clone, Copy, PartialEq, Eq, Structural)]
pub enum Base {
    Bin,
    Oct,
    Dec,
    Hex,
}

/// The symbols of the language; each is written with one character.
#[derive(Debug, Clone, Copy, PartialEq, Eq, Structural)]
pub enum SymbolKind {
    Comma,
    Semicolon,
    QuestionMark,
    OpenParenthesis,
    CloseParenthesis,
    OpenCurlyBrace,
    CloseCurlyBrace,
    OpenSquareBracket,
    CloseSquareBracket,
    Dot,
    OpenAngleBracketOrLess,
    CloseAngleBracketOrGreater,
    Star,
    Plus,
    Minus,
    BitOr,
    BitAnd,
    Modulo,
    BitNot,
    Xor,
    ExclamationMark,
    Colon,
    Equal,
    Hash,
    Slash,
}

/// The keywords of the language.
#[derive(Debug, Clone, Copy, PartialEq, Eq, Structural)]
pub enum KeywordKind {
    Fn,
    Struct,
    Let,
    Mut,
    If,
    Else,
    While,
    Loop,
    Run,
}

/// The symbol that the character `c` stands for, if any.
pub open spec fn symbol_of(c: char) -> Option<SymbolKind> {
    if c == '،' {
        Some(SymbolKind::Comma)
    } else if c == '؛' {
        Some(SymbolKind::Semicolon)
    } else if c == '؟' {
        Some(SymbolKind::QuestionMark)
    } else if c == '(' {
        Some(SymbolKind::OpenParenthesis)
    } else if c == ')' {
        Some(SymbolKind::CloseParenthesis)
    } else if c == '{' {
        Some(SymbolKind::OpenCurlyBrace)
    } else if c == '}' {
        Some(SymbolKind::CloseCurlyBrace)
    } else if c == '[' {
        Some(SymbolKind::OpenSquareBracket)
    } else if c == ']' {
        Some(SymbolKind::CloseSquareBracket)
    } else if c == '.' {
        Some(SymbolKind::Dot)
    } else if c == '<' {
        Some(SymbolKind::OpenAngleBracketOrLess)
    } else if c == '>' {
        Some(SymbolKind::CloseAngleBracketOrGreater)
    } else if c == '*' {
        Some(SymbolKind::Star)
    } else if c == '+' {
        Some(SymbolKind::Plus)
    } else if c == '-' {
        Some(SymbolKind::Minus)
    } else if c == '|' {
        Some(SymbolKind::BitOr)
    } else if c == '&' {
        Some(SymbolKind::BitAnd)
    } else if c == '%' {
        Some(SymbolKind::Modulo)
    } else if c == '~' {
        Some(SymbolKind::BitNot)
    } else if c == '^' {
        Some(SymbolKind::Xor)
    } else if c == '!' {
        Some(SymbolKind::ExclamationMark)
    } else if c == ':' {
        Some(SymbolKind::Colon)
    } else if c == '=' {
        Some(SymbolKind::Equal)
    } else if c == '#' {
        Some(SymbolKind::Hash)
    } else if c == '/' {
        Some(SymbolKind::Slash)
    } else {
        None
    }
}

/// The symbol that the character `c` stands for, if any.
pub fn symbol_of_char(c: char) -> (r: Option<SymbolKind>)
    ensures
        r == symbol_of(c),
{
    match c {
        '،' => Some(SymbolKind::Comma),
        '؛' => Some(SymbolKind::Semicolon),
        '؟' => Some(SymbolKind::QuestionMark),
        '(' => Some(SymbolKind::OpenParenthesis),
        ')' => Some(SymbolKind::CloseParenthesis),
        '{' => Some(SymbolKind::OpenCurlyBrace),
        '}' => Some(SymbolKind::CloseCurlyBrace),
        '[' => Some(SymbolKind::OpenSquareBracket),
        ']' => Some(SymbolKind::CloseSquareBracket),
        '.' => Some(SymbolKind::Dot),
        '<' => Some(SymbolKind::OpenAngleBracketOrLess),
        '>' => Some(SymbolKind::CloseAngleBracketOrGreater),
        '*' => Some(SymbolKind::Star),
        '+' => Some(SymbolKind::Plus),
        '-' => Some(SymbolKind::Minus),
        '|' => Some(SymbolKind::BitOr),
        '&' => Some(SymbolKind::BitAnd),
        '%' => Some(SymbolKind::Modulo),
        '~' => Some(SymbolKind::BitNot),
        '^' => Some(SymbolKind::Xor),
        '!' => Some(SymbolKind::ExclamationMark),
        ':' => Some(SymbolKind::Colon),
        '=' => Some(SymbolKind::Equal),
        '#' => Some(SymbolKind::Hash),
        '/' => Some(SymbolKind::Slash),
        _ => None,
    }
}

/// The character that writes the symbol `k`.
pub open spec fn symbol_char(k: SymbolKind) -> char {
    match k {
        SymbolKind::Comma => '،',
        SymbolKind::Semicolon => '؛',
        SymbolKind::QuestionMark => '؟',
        SymbolKind::OpenParenthesis => '(',
        SymbolKind::CloseParenthesis => ')',
        SymbolKind::OpenCurlyBrace => '{',
        SymbolKind::CloseCurlyBrace => '}',
        SymbolKind::OpenSquareBracket => '[',
        SymbolKind::CloseSquareBracket => ']',
        SymbolKind::Dot => '.',
        SymbolKind::OpenAngleBracketOrLess => '<',
        SymbolKind::CloseAngleBracketOrGreater => '>',
        SymbolKind::Star => '*',
        SymbolKind::Plus => '+',
        SymbolKind::Minus => '-',
        SymbolKind::BitOr => '|',
        SymbolKind::BitAnd => '&',
        SymbolKind::Modulo => '%',
        SymbolKind::BitNot => '~',
        SymbolKind::Xor => '^',
        SymbolKind::ExclamationMark => '!',
        SymbolKind::Colon => ':',
        SymbolKind::Equal => '=',
        SymbolKind::Hash => '#',
        SymbolKind::Slash => '/',
    }
}

/// Each symbol's character is read back as that symbol.
pub proof fn lemma_symbol_char_roundtrip(k: SymbolKind)
    ensures
        symbol_of(symbol_char(k)) == Some(k),
{
}

impl SymbolKind {
    /// The character that writes this symbol.
    pub fn to_char(&self) -> (r: char)
        ensures
            r == symbol_char(*self),
    {
        match self {
            SymbolKind::Comma => '،',
            SymbolKind::Semicolon => '؛',
            SymbolKind::QuestionMark => '؟',
            SymbolKind::OpenParenthesis => '(',
            SymbolKind::CloseParenthesis => ')',
            SymbolKind::OpenCurlyBrace => '{',
            SymbolKind::CloseCurlyBrace => '}',
            SymbolKind::OpenSquareBracket => '[',
            SymbolKind::CloseSquareBracket => ']',
            SymbolKind::Dot => '.',
            SymbolKind::OpenAngleBracketOrLess => '<',
            SymbolKind::CloseAngleBracketOrGreater => '>',
            SymbolKind::Star => '*',
            SymbolKind::Plus => '+',
            SymbolKind::Minus => '-',
            SymbolKind::BitOr => '|',
            SymbolKind::BitAnd => '&',
            SymbolKind::Modulo => '%',
            SymbolKind::BitNot => '~',
            SymbolKind::Xor => '^',
            SymbolKind::ExclamationMark => '!',
            SymbolKind::Colon => ':',
            SymbolKind::Equal => '=',
            SymbolKind::Hash => '#',
            SymbolKind::Slash => '/',
        }
    }

    /// The text that writes this symbol.
    pub fn docs(&self) -> (r: String)
        ensures
            r@ == seq![symbol_char(*self)],
    {
        crate::text::char_to_string(self.to_char())
    }

    /// All the symbols, in their order of declaration.
    pub fn all() -> (r: Vec<SymbolKind>)
        ensures
            r@.len() == 25,
            forall|k: SymbolKind| r@.contains(k),
    {
        let v = vec![
            SymbolKind::Comma,
            SymbolKind::Semicolon,
            SymbolKind::QuestionMark,
            SymbolKind::OpenParenthesis,
            SymbolKind::CloseParenthesis,
            SymbolKind::OpenCurlyBrace,
            SymbolKind::CloseCurlyBrace,
            SymbolKind::OpenSquareBracket,
            SymbolKind::CloseSquareBracket,
            SymbolKind::Dot,
            SymbolKind::OpenAngleBracketOrLess,
            SymbolKind::CloseAngleBracketOrGreater,
            SymbolKind::Star,
            SymbolKind::Plus,
            SymbolKind::Minus,
            SymbolKind::BitOr,
            SymbolKind::BitAnd,
            SymbolKind::Modulo,
            SymbolKind::BitNot,
            SymbolKind::Xor,
            SymbolKind::ExclamationMark,
            SymbolKind::Colon,
            SymbolKind::Equal,
            SymbolKind::Hash,
            SymbolKind::Slash,
        ];
        proof {
            assert forall|k: SymbolKind| v@.contains(k) by {
                let i: int = match k {
                    SymbolKind::Comma => 0,
                    SymbolKind::Semicolon => 1,
                    SymbolKind::QuestionMark => 2,
                    SymbolKind::OpenParenthesis => 3,
                    SymbolKind::CloseParenthesis => 4,
                    SymbolKind::OpenCurlyBrace => 5,
                    SymbolKind::CloseCurlyBrace => 6,
                    SymbolKind::OpenSquareBracket => 7,
                    SymbolKind::CloseSquareBracket => 8,
                    SymbolKind::Dot => 9,
                    SymbolKind::OpenAngleBracketOrLess => 10,
                    SymbolKind::CloseAngleBracketOrGreater => 11,
                    SymbolKind::Star => 12,
                    SymbolKind::Plus => 13,
                    SymbolKind::Minus => 14,
                    SymbolKind::BitOr => 15,
                    SymbolKind::BitAnd => 16,
                    SymbolKind::Modulo => 17,
                    SymbolKind::BitNot => 18,
                    SymbolKind::Xor => 19,
                    SymbolKind::ExclamationMark => 20,
                    SymbolKind::Colon => 21,
                    SymbolKind::Equal => 22,
                    SymbolKind::Hash => 23,
                    SymbolKind::Slash => 24,
                };
                assert(v@[i] == k);
            }
        }
        v
    }
}

/// The word that writes the keyword `k`.
pub open spec fn keyword_text(k: KeywordKind) -> Seq<char> {
    match k {
        KeywordKind::Fn => "دالة"@,
        KeywordKind::Struct => "هيكل"@,
        KeywordKind::Let => "احجز"@,
        KeywordKind::Mut => "متغير"@,
        KeywordKind::If => "لو"@,
        KeywordKind::Else => "وإلا"@,
        KeywordKind::While => "طالما"@,
        KeywordKind::Loop => "تكرار"@,
        KeywordKind::Run => "تشغيل"@,
    }
}

/// The keywords in the order in which a word is checked against them.
pub open spec fn keyword_order() -> Seq<KeywordKind> {
    seq![
        KeywordKind::Fn,
        KeywordKind::Struct,
        KeywordKind::Let,
        KeywordKind::Mut,
        KeywordKind::If,
        KeywordKind::Else,
        KeywordKind::While,
        KeywordKind::Loop,
        KeywordKind::Run,
    ]
}

/// The first keyword, in `keyword_order`, that is written as `word`.
pub open spec fn keyword_from(word: Seq<char>, from: int) -> Option<KeywordKind>
    decreases keyword_order().len() - from,
{
    if from < 0 || from >= keyword_order().len() {
        None
    } else if keyword_text(keyword_order()[from]) == word {
        Some(keyword_order()[from])
    } else {
        keyword_from(word, from + 1)
    }
}

pub open spec fn keyword_of(word: Seq<char>) -> Option<KeywordKind> {
    keyword_from(word, 0)
}

/// `kind` is the token kind of `word`: a boolean literal, a keyword, or else an identifier
/// holding the word.
pub open spec fn is_word_kind(word: Seq<char>, kind: TokenKind) -> bool {
    if word == "صحيح"@ {
        kind == TokenKind::Literal(LiteralKind::Bool(true))
    } else if word == "فاسد"@ {
        kind == TokenKind::Literal(LiteralKind::Bool(false))
    } else {
        match keyword_of(word) {
            Some(k) => kind == TokenKind::Keyword(k),
            None => kind matches TokenKind::Id(id) && id@ == word,
        }
    }
}

impl KeywordKind {
    /// The word that writes this keyword.
    pub fn docs(&self) -> (r: &'static str)
        ensures
            r@ == keyword_text(*self),
    {
        match self {
            KeywordKind::Fn => "دالة",
            KeywordKind::Struct => "هيكل",
            KeywordKind::Let => "احجز",
            KeywordKind::Mut => "متغير",
            KeywordKind::If => "لو",
            KeywordKind::Else => "وإلا",
            KeywordKind::While => "طالما",
            KeywordKind::Loop => "تكرار",
            KeywordKind::Run => "تشغيل",
        }
    }

    /// All the keywords, in the order in which a word is checked against them.
    pub fn all() -> (r: Vec<KeywordKind>)
        ensures
            r@ == keyword_order(),
    {
        let v = vec![
            KeywordKind::Fn,
            KeywordKind::Struct,
            KeywordKind::Let,
            KeywordKind::Mut,
            KeywordKind::If,
            KeywordKind::Else,
            KeywordKind::While,
            KeywordKind::Loop,
            KeywordKind::Run,
        ];
        assert(v@ =~= keyword_order());
        v
    }
}

/// The words of the keywords: `دالة` is the function keyword, `هيكل` the structure keyword,
/// `احجز` let, `متغير` mut, `لو` if, `وإلا` else, `طالما` while, `تكرار` loop and `تشغيل`
/// run; no other word is a keyword, and a keyword's word is lexed as that keyword.
pub proof fn lemma_keyword_words()
    ensures
        keyword_of("دالة"@) == Some(KeywordKind::Fn),
        keyword_of("هيكل"@) == Some(KeywordKind::Struct),
        keyword_of("احجز"@) == Some(KeywordKind::Let),
        keyword_of("متغير"@) == Some(KeywordKind::Mut),
        keyword_of("لو"@) == Some(KeywordKind::If),
        keyword_of("وإلا"@) == Some(KeywordKind::Else),
        keyword_of("طالما"@) == Some(KeywordKind::While),
        keyword_of("تكرار"@) == Some(KeywordKind::Loop),
        keyword_of("تشغيل"@) == Some(KeywordKind::Run),
        forall|w: Seq<char>|
            #![trigger keyword_of(w)]
            keyword_of(w) is Some ==> w == "دالة"@ || w == "هيكل"@ || w == "احجز"@ || w
                == "متغير"@ || w == "لو"@ || w == "وإلا"@ || w == "طالما"@ || w == "تكرار"@
                || w == "تشغيل"@,
        is_word_kind("طالما"@, TokenKind::Keyword(KeywordKind::While)),
        is_word_kind("تكرار"@, TokenKind::Keyword(KeywordKind::Loop)),
{
    reveal_strlit("دالة");
    reveal_strlit("هيكل");
    reveal_strlit("احجز");
    reveal_strlit("متغير");
    reveal_strlit("لو");
    reveal_strlit("وإلا");
    reveal_strlit("طالما");
    reveal_strlit("تكرار");
    reveal_strlit("تشغيل");
    reveal_strlit("صحيح");
    reveal_strlit("فاسد");
    reveal_with_fuel(keyword_from, 10);
    assert("هيكل"@[0] != "دالة"@[0]);
    assert("احجز"@[0] != "دالة"@[0]);
    assert("احجز"@[0] != "هيكل"@[0]);
    assert("متغير"@.len() != "دالة"@.len());
    assert("متغير"@.len() != "هيكل"@.len());
    assert("متغير"@.len() != "احجز"@.len());
    assert("لو"@.len() != "دالة"@.len());
    assert("لو"@.len() != "هيكل"@.len());
    assert("لو"@.len() != "احجز"@.len());
    assert("لو"@.len() != "متغير"@.len());
    assert("وإلا"@[0] != "دالة"@[0]);
    assert("وإلا"@[0] != "هيكل"@[0]);
    assert("وإلا"@[0] != "احجز"@[0]);
    assert("وإلا"@.len() != "متغير"@.len());
    assert("وإلا"@.len() != "لو"@.len());
    assert("طالما"@.len() != "دالة"@.len());
    assert("طالما"@.len() != "هيكل"@.len());
    assert("طالما"@.len() != "احجز"@.len());
    assert("طالما"@[0] != "متغير"@[0]);
    assert("طالما"@.len() != "لو"@.len());
    assert("طالما"@.len() != "وإلا"@.len());
    assert("تكرار"@.len() != "دالة"@.len());
    assert("تكرار"@.len() != "هيكل"@.len());
    assert("تكرار"@.len() != "احجز"@.len());
    assert("تكرار"@[0] != "متغير"@[0]);
    assert("تكرار"@.len() != "لو"@.len());
    assert("تكرار"@.len() != "وإلا"@.len());
    assert("تكرار"@[0] != "طالما"@[0]);
    assert("تشغيل"@.len() != "دالة"@.len());
    assert("تشغيل"@.len() != "هيكل"@.len());
    assert("تشغيل"@.len() != "احجز"@.len());
    assert("تشغيل"@[0] != "متغير"@[0]);
    assert("تشغيل"@.len() != "لو"@.len());
    assert("تشغيل"@.len() != "وإلا"@.len());
    assert("تشغيل"@[0] != "طالما"@[0]);
    assert("تشغيل"@[1] != "تكرار"@[1]);
    assert forall|w: Seq<char>| #![trigger keyword_of(w)] keyword_of(w) is Some implies w
        == "دالة"@ || w == "هيكل"@ || w == "احجز"@ || w == "متغير"@ || w == "لو"@ || w
        == "وإلا"@ || w == "طالما"@ || w == "تكرار"@ || w == "تشغيل"@ by {
        reveal_with_fuel(keyword_from, 10);
    }
}

} // verus!
