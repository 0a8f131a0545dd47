use nazmc::lexer::error::LexerErrorKind;
use nazmc::lexer::lexer_iter::LexerIter;
use nazmc::lexer::token::{KeywordKind, LiteralKind, NumKind, SymbolKind, Token, TokenKind};
use nazmc::span::{Span, SpanCursor};

#[test]
fn test_lines() {
    assert_eq!(vec![""], LexerIter::new("").collect_all().1);

    let content = "\n/*\nmultiline comment\n*/\n123456789\n\nاحجز\n\na\n";

    let lexer: LexerIter = LexerIter::new(content);

    let (_, lines, _) = lexer.collect_all();
    let expected_lines = content.split('\n').collect::<Vec<_>>();

    assert_eq!(expected_lines, lines);

    // No new line at the end
    let content = "\n/*\nmultiline comment\n*/\n123456789\n\nاحجز\n\na";

    let lexer: LexerIter = LexerIter::new(content);

    let (_, lines, _) = lexer.collect_all();
    let expected_lines = content.split('\n').collect::<Vec<_>>();

    assert_eq!(expected_lines, lines);
}

#[test]
fn test_symbols_lexing() {
    for symbol in SymbolKind::all() {
        let symbol_val = symbol.docs();
        let Token { span, val, kind } = LexerIter::new(&symbol_val).next().unwrap();
        assert_eq!(
            span,
            Span {
                start: SpanCursor { line: 0, col: 0 },
                end: SpanCursor { line: 0, col: symbol_val.chars().count() },
            }
        );
        assert_eq!(val, symbol_val);
        assert_eq!(kind, TokenKind::Symbol(symbol));
    }

    let mut symbols_line = String::new();
    for symbol in SymbolKind::all() {
        let symbol_val = symbol.docs();
        symbols_line.push_str(&symbol_val);
    }

    let mut tokens = LexerIter::new(&symbols_line);
    let mut symbols_iter = SymbolKind::all().into_iter();
    let mut columns = 0;

    while let Some(Token { span, val, kind }) = tokens.next() {
        let symbol = symbols_iter.next().unwrap();
        let symbol_val = symbol.docs();

        assert_eq!(
            span,
            Span {
                start: SpanCursor { line: 0, col: columns },
                end: SpanCursor { line: 0, col: columns + symbol_val.chars().count() },
            },
            "Maybe the tokens are overlapping for left: `{}`, right: `{}`",
            val,
            symbol_val
        );

        columns += symbol_val.chars().count();

        assert_eq!(val, symbol_val);
        assert_eq!(kind, TokenKind::Symbol(symbol));
    }

    let mut symbols_line = String::new();
    for symbol in SymbolKind::all() {
        let symbol_val = symbol.docs();
        symbols_line.push_str(&symbol_val);
        symbols_line.push('\n');
    }

    let mut tokens = LexerIter::new(&symbols_line);
    let mut symbols_iter = SymbolKind::all().into_iter();
    let mut lines = 0;

    while let Some(Token { span, val, kind }) = tokens.next() {
        let symbol = symbols_iter.next().unwrap();
        let symbol_val = symbol.docs();

        assert_eq!(
            span,
            Span {
                start: SpanCursor { line: lines, col: 0 },
                end: SpanCursor { line: lines, col: symbol_val.chars().count() },
            },
            "Maybe the tokens are overlapping for left: `{}`, right: `{}`",
            val,
            symbol_val
        );

        assert_eq!(val, symbol_val);
        assert_eq!(kind, TokenKind::Symbol(symbol));

        let Token { span, val, kind } = tokens.next().unwrap();

        assert_eq!(
            span,
            Span {
                start: SpanCursor { line: lines, col: symbol_val.chars().count() },
                end: SpanCursor { line: lines + 1, col: 0 },
            },
            "On symbol `{}`",
            symbol_val
        );

        assert_eq!(val, "\n");
        assert_eq!(kind, TokenKind::Eol);
        lines += 1;
    }
}

#[test]
fn test_keywords_lexing() {
    for keyword in KeywordKind::all() {
        let keyword_val = keyword.docs();
        let Token { span, val, kind } = LexerIter::new(keyword_val).next().unwrap();
        assert_eq!(
            span,
            Span {
                start: SpanCursor { line: 0, col: 0 },
                end: SpanCursor { line: 0, col: keyword_val.chars().count() },
            }
        );
        assert_eq!(val, keyword_val);
        assert_eq!(kind, TokenKind::Keyword(keyword));
    }
}

fn kinds(content: &str) -> Vec<TokenKind> {
    LexerIter::new(content).collect_all().0.into_iter().map(|t| t.kind).collect()
}

#[test]
fn tokens_join_back_into_the_text() {
    let content = "دالة س(ص: ع8) { احجز متغير ك = 12؛ // تعليق\n \"نص\\س\" 'ح' }";
    let (tokens, _, errors) = LexerIter::new(content).collect_all();
    let joined: String = tokens.iter().map(|t| t.val).collect();
    assert_eq!(joined, content);
    assert!(errors.is_empty());
}

#[test]
fn empty_text_has_no_tokens() {
    let (tokens, lines, errors) = LexerIter::new("").collect_all();
    assert!(tokens.is_empty());
    assert_eq!(lines, vec![""]);
    assert!(errors.is_empty());
}

#[test]
fn numbers_and_words() {
    let ks = kinds("123 ابجد لو");
    assert_eq!(ks.len(), 5);
    assert_eq!(ks[0], TokenKind::Literal(LiteralKind::Num(NumKind::UnspecifiedInt(123))));
    assert_eq!(ks[1], TokenKind::Space);
    assert!(matches!(&ks[2], TokenKind::Id(name) if name.as_str() == "ابجد"));
    assert_eq!(ks[4], TokenKind::Keyword(KeywordKind::If));
}

#[test]
fn number_out_of_range_is_an_error() {
    let (tokens, _, errors) = LexerIter::new("99999999999999999999999").collect_all();
    assert_eq!(tokens.len(), 1);
    assert_eq!(errors.len(), 1);
    assert_eq!(errors[0].token_idx, 0);
    assert_eq!(errors[0].kind, LexerErrorKind::NumIsOutOfRange(NumKind::UnspecifiedInt(0)));
}

#[test]
fn comments_and_slash() {
    let ks = kinds("// سطر\n/* كتلة */ /");
    assert_eq!(
        ks,
        vec![
            TokenKind::LineComment,
            TokenKind::Eol,
            TokenKind::DelimitedComment,
            TokenKind::Space,
            TokenKind::Symbol(SymbolKind::Slash),
        ]
    );
}

#[test]
fn unclosed_delimited_comment_is_an_error() {
    let (tokens, _, errors) = LexerIter::new("/* بلا نهاية").collect_all();
    assert_eq!(tokens.len(), 1);
    assert_eq!(tokens[0].kind, TokenKind::DelimitedComment);
    assert_eq!(errors.len(), 1);
    assert_eq!(errors[0].kind, LexerErrorKind::UnclosedDelimitedComment);
}

#[test]
fn string_literal_with_escapes() {
    let ks = kinds("\"ا\\فب\\ي0041\"");
    assert!(matches!(&ks[0], TokenKind::Literal(LiteralKind::Str(s)) if s.as_str() == "ا\tبA"));
}

#[test]
fn unclosed_string_is_an_error() {
    let (tokens, _, errors) = LexerIter::new("\"نص").collect_all();
    assert_eq!(tokens.len(), 1);
    assert_eq!(errors.len(), 1);
    assert_eq!(errors[0].kind, LexerErrorKind::UnclosedStr);
}

#[test]
fn char_literals() {
    assert_eq!(kinds("'ب'")[0], TokenKind::Literal(LiteralKind::Char('ب')));
    let (_, _, errors) = LexerIter::new("''").collect_all();
    assert_eq!(errors[0].kind, LexerErrorKind::ZeroChars);
    let (_, _, errors) = LexerIter::new("'اب'").collect_all();
    assert_eq!(errors[0].kind, LexerErrorKind::ManyChars);
    let (_, _, errors) = LexerIter::new("'ب").collect_all();
    assert_eq!(errors[0].kind, LexerErrorKind::UnclosedChar);
}

#[test]
fn unknown_character_is_an_error() {
    let (tokens, _, errors) = LexerIter::new("@").collect_all();
    assert_eq!(tokens.len(), 1);
    assert_eq!(errors.len(), 1);
    assert_eq!(errors[0].kind, LexerErrorKind::UnknownToken);
    assert_eq!(errors[0].token_idx, 0);
}

#[test]
fn errors_point_at_their_tokens() {
    let (tokens, _, errors) = LexerIter::new("س @ ص @").collect_all();
    assert_eq!(errors.len(), 2);
    assert_eq!(tokens[errors[0].token_idx].val, "@");
    assert_eq!(tokens[errors[1].token_idx].val, "@");
    assert_eq!(errors[1].token_idx, 6);
}

#[test]
fn kufr_character_in_comment_is_an_error() {
    let (tokens, _, errors) = LexerIter::new("// \u{2020}").collect_all();
    assert_eq!(tokens.len(), 1);
    assert_eq!(errors.len(), 1);
    assert_eq!(errors[0].kind, LexerErrorKind::KufrOrInvalidChar);
}

#[test]
fn kufr_character_in_string_is_an_error() {
    let (_, _, errors) = LexerIter::new("\"\u{2020}\"").collect_all();
    assert_eq!(errors.len(), 1);
    assert_eq!(errors[0].kind, LexerErrorKind::KufrOrInvalidChar);
    assert_eq!(errors[0].col, 1);
    assert_eq!(errors[0].len, 1);
}

#[test]
fn unicode_escape_needs_hex_digits() {
    let (_, _, errors) = LexerIter::new("\"\\يzz12\"").collect_all();
    assert_eq!(errors.len(), 1);
    assert_eq!(errors[0].kind, LexerErrorKind::UnicodeCodePointHexDigitOnly);
}

#[test]
fn unicode_escape_of_a_surrogate_is_invalid() {
    let (_, _, errors) = LexerIter::new("\"\\يD800\"").collect_all();
    assert_eq!(errors.len(), 1);
    assert_eq!(errors[0].kind, LexerErrorKind::InvalidUnicodeCodePoint);
}

#[test]
fn unknown_escape_is_an_error() {
    let (tokens, _, errors) = LexerIter::new("\"\\ق\"").collect_all();
    assert_eq!(errors.len(), 1);
    assert_eq!(errors[0].kind, LexerErrorKind::UnknownEscapeSequence);
    assert!(matches!(&tokens[0].kind, TokenKind::Literal(LiteralKind::Str(s)) if s.as_str() == "\0"));
}

#[test]
fn escapes_decode() {
    let ks = kinds("\"\\خ\\ر\\ص\\ف\\س\\ج\\\\\\'\\\"\\0\"");
    assert!(matches!(&ks[0], TokenKind::Literal(LiteralKind::Str(s)) if s.as_str() == "\x08\x0b\x0c\t\n\r\\'\"\0"));
}

#[test]
fn identifier_with_digit_is_one_word() {
    let (tokens, _, _) = LexerIter::new("ص8").collect_all();
    assert_eq!(tokens.len(), 1);
    assert!(matches!(&tokens[0].kind, TokenKind::Id(name) if name.as_str() == "ص8"));
}

#[test]
fn spans_follow_lines_and_columns() {
    let (tokens, _, _) = LexerIter::new("ا\nبج د").collect_all();
    assert_eq!(tokens[2].span, Span::new((1, 0), (1, 2)));
    assert_eq!(tokens[4].span, Span::new((1, 3), (1, 4)));
}
