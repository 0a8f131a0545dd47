use nazmc::lexer::lexer_iter::LexerIter;
use nazmc::lexer::token::{SymbolKind, TokenKind};
use nazmc::parser::parse_methods::{
    parse_option, parse_vec, Check, NazmcParse, OneOrMany, ParseErr, ParseResult, ZeroOrMany,
};
use nazmc::parser::ast::UnaryOp;
use nazmc::parser::ast_generator::{lower_unary_op, UnaryOpToken};
use nazmc::parser::path::SimplePath;
use nazmc::parser::terminal::{
    CloseParenthesisSymbol, CommaSymbol, FnKeyword, Id, OpenParenthesisSymbol, PlusSymbol,
    SemicolonSymbol,
};
use nazmc::parser::tokens_iter::TokensIter;

#[test]
fn tokens_iter_moves_and_looks() {
    let (tokens, ..) = LexerIter::new("+ -").collect_all();
    let mut iter = TokensIter::new(&tokens);
    assert!(iter.recent().is_none());
    assert_eq!(iter.peek().unwrap().kind, TokenKind::Symbol(SymbolKind::Plus));
    assert_eq!(iter.peek_nth(2).unwrap().kind, TokenKind::Symbol(SymbolKind::Minus));
    assert!(iter.nth(3).is_none());
    assert_eq!(iter.next().unwrap().kind, TokenKind::Symbol(SymbolKind::Plus));
    assert_eq!(iter.recent().unwrap().kind, TokenKind::Symbol(SymbolKind::Plus));
    assert!(iter.recent_nth(1).is_none());
    let after = iter.next_non_space_or_comment();
    assert!(after.is_none());
    assert_eq!(iter.peek_idx, 3);
    assert_eq!(iter.recent().unwrap().kind, TokenKind::Symbol(SymbolKind::Minus));
    assert!(iter.next().is_none());
    assert_eq!(iter.peek_idx, 4);
    assert!(iter.next().is_none());
    assert_eq!(iter.peek_idx, 4);
}

#[test]
fn terminal_fails_at_the_recent_token() {
    let (tokens, ..) = LexerIter::new("- +").collect_all();
    let mut iter = TokensIter::new(&tokens);
    assert_eq!(PlusSymbol::parse(&mut iter).unwrap_err(), ParseErr { found_token_index: usize::MAX });
    iter.next();
    let err = PlusSymbol::parse(&mut iter).unwrap_err();
    assert_eq!(err.found_token_index, 0);
    assert_eq!(iter.peek_idx, 1);
}

#[test]
fn id_terminal_keeps_the_name() {
    let (tokens, ..) = LexerIter::new("اسم دالة").collect_all();
    let mut iter = TokensIter::new(&tokens);
    iter.next();
    let id = Id::parse(&mut iter).unwrap();
    assert_eq!(id.data.as_str(), "اسم");
    assert!(!id.is_broken());
    assert!(FnKeyword::parse(&mut iter).is_ok());
    assert!(Id::parse(&mut iter).is_err());
}

#[test]
fn zero_or_many_skips_unexpected_tokens() {
    // `,` items until `)`; the stray `+` is kept as a failed item.
    let (tokens, ..) = LexerIter::new("، + ، )").collect_all();
    let mut iter = TokensIter::new(&tokens);
    iter.next();
    let list = ZeroOrMany::<CommaSymbol, CloseParenthesisSymbol>::parse(&mut iter);
    assert_eq!(list.items.len(), 3);
    assert!(list.items[0].is_ok());
    assert_eq!(list.items[1].as_ref().unwrap_err().found_token_index, 2);
    assert!(list.items[2].is_ok());
    assert!(list.terminator.is_ok());
    assert!(list.is_broken());
}

#[test]
fn zero_or_many_without_terminator_ends_at_eof() {
    let (tokens, ..) = LexerIter::new("، ،").collect_all();
    let mut iter = TokensIter::new(&tokens);
    iter.next();
    let list = ZeroOrMany::<CommaSymbol, CloseParenthesisSymbol>::parse(&mut iter);
    assert_eq!(list.items.len(), 2);
    assert_eq!(list.terminator.unwrap_err(), ParseErr { found_token_index: usize::MAX });
}

#[test]
fn one_or_many_needs_the_first_item() {
    let (tokens, ..) = LexerIter::new(")").collect_all();
    let mut iter = TokensIter::new(&tokens);
    iter.next();
    let list = OneOrMany::<CommaSymbol, CloseParenthesisSymbol>::parse(&mut iter);
    assert!(list.first.is_err());
    assert!(list.rest.is_empty());
    assert!(list.terminator.is_err());

    let (tokens, ..) = LexerIter::new("، ، )").collect_all();
    let mut iter = TokensIter::new(&tokens);
    iter.next();
    let list = OneOrMany::<CommaSymbol, CloseParenthesisSymbol>::parse(&mut iter);
    assert!(list.first.is_ok());
    assert_eq!(list.rest.len(), 1);
    assert!(list.terminator.is_ok());
    assert!(!list.is_broken());
}

#[test]
fn vec_and_option_parse() {
    let (tokens, ..) = LexerIter::new("، ، ؛").collect_all();
    let mut iter = TokensIter::new(&tokens);
    iter.next();
    let commas: Vec<CommaSymbol> = parse_vec(&mut iter);
    assert_eq!(commas.len(), 2);
    assert_eq!(iter.recent().unwrap().kind, TokenKind::Symbol(SymbolKind::Semicolon));
    let open: Option<OpenParenthesisSymbol> = parse_option(&mut iter);
    assert!(open.is_none());
    let semicolon: Option<SemicolonSymbol> = parse_option(&mut iter);
    assert!(semicolon.is_some());
}

#[test]
fn broken_results() {
    let err: ParseResult<CommaSymbol> = ParseErr::eof();
    assert!(err.is_broken());
    let none: Option<CommaSymbol> = None;
    assert!(!none.is_broken());
    let empty: Vec<ParseResult<CommaSymbol>> = vec![];
    assert!(!empty.is_broken());
    assert!(vec![err].is_broken());
}

#[test]
fn simple_paths() {
    let (tokens, ..) = LexerIter::new("أ::ب::ج ؛").collect_all();
    let mut iter = TokensIter::new(&tokens);
    iter.next();
    let path = SimplePath::parse(&mut iter).unwrap();
    assert_eq!(path.top.data.as_str(), "أ");
    assert_eq!(path.inners.len(), 2);
    assert_eq!(path.inners[1].inner.as_ref().unwrap().data.as_str(), "ج");
    assert!(!path.is_broken());
    assert_eq!(iter.recent().unwrap().kind, TokenKind::Symbol(SymbolKind::Semicolon));

    let (tokens, ..) = LexerIter::new("أ:: ؛").collect_all();
    let mut iter = TokensIter::new(&tokens);
    iter.next();
    let path = SimplePath::parse(&mut iter).unwrap();
    assert_eq!(path.inners.len(), 1);
    assert!(path.inners[0].inner.is_err());
    assert!(path.is_broken());

    let (tokens, ..) = LexerIter::new("؛").collect_all();
    let mut iter = TokensIter::new(&tokens);
    iter.next();
    assert!(SimplePath::parse(&mut iter).is_err());
    assert_eq!(iter.peek_idx, 1);
}

#[test]
fn unary_ops_lower_one_to_one() {
    let pairs = [
        (UnaryOpToken::Minus, UnaryOp::Minus),
        (UnaryOpToken::LNot, UnaryOp::LNot),
        (UnaryOpToken::BNot, UnaryOp::BNot),
        (UnaryOpToken::Deref, UnaryOp::Deref),
        (UnaryOpToken::Borrow, UnaryOp::Borrow),
        (UnaryOpToken::BorrowMut, UnaryOp::BorrowMut),
    ];
    for (token, op) in pairs {
        assert_eq!(lower_unary_op(token), op);
    }
}
