//! Lowering the nodes of the parser to the syntax tree.
use super::ast;
use vstd::prelude::*;

verus! {

/// The unary operators as the parser reads them.
#[derive(Debug, Clone, Copy, PartialEq, Eq, Structural)]
pub enum UnaryOpToken {
    Minus,
    LNot,
    BNot,
    Deref,
    Borrow,
    BorrowMut,
}

/// The operator of the syntax tree that each unary operator token stands for.
pub fn lower_unary_op(op: UnaryOpToken) -> (r: ast::UnaryOp)
    ensures
        r == match op {
            UnaryOpToken::Minus => ast::UnaryOp::Minus,
            UnaryOpToken::LNot => ast::UnaryOp::LNot,
            UnaryOpToken::BNot => ast::UnaryOp::BNot,
            UnaryOpToken::Deref => ast::UnaryOp::Deref,
            UnaryOpToken::Borrow => ast::UnaryOp::Borrow,
            UnaryOpToken::BorrowMut => ast::UnaryOp::BorrowMut,
        },
{
    match op {
        UnaryOpToken::Minus => ast::UnaryOp::Minus,
        UnaryOpToken::LNot => ast::UnaryOp::LNot,
        UnaryOpToken::BNot => ast::UnaryOp::BNot,
        UnaryOpToken::Deref => ast::UnaryOp::Deref,
        UnaryOpToken::Borrow => ast::UnaryOp::Borrow,
        UnaryOpToken::BorrowMut => ast::UnaryOp::BorrowMut,
    }
}

} // verus!
