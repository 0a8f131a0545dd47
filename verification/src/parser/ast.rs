//! The syntax tree that the parser lowers its nodes to.
use crate::span::Span;
use std::sync::Arc;
use vstd::prelude::*;

verus! {

/// A name in the syntax tree: where it was written and the name itself.
#[derive(Debug, Clone)]
pub struct ASTId {
    pub span: Span,
    pub id: Arc<String>,
}

#[derive(Debug, Clone, Copy, PartialEq, Eq, Structural)]
pub enum VisModifier {
    Default,
    Public,
    Private,
}

/// A structure without fields.
#[derive(Debug, Clone)]
pub struct UnitStruct {
    pub vis: VisModifier,
    pub name: ASTId,
}

#[derive(Debug, Clone, Copy, PartialEq, Eq, Structural)]
pub enum UnaryOp {
    Minus,
    LNot,
    BNot,
    Deref,
    Borrow,
    BorrowMut,
}

#[derive(Debug, Clone, Copy, PartialEq, Eq, Structural)]
pub enum BinOp {
    LOr,
    LAnd,
    EqualEqual,
    NotEqual,
    GE,
    GT,
    LE,
    LT,
    OpenOpenRange,
    CloseOpenRange,
    OpenCloseRange,
    CloseCloseRange,
    BOr,
    Xor,
    BAnd,
    Shr,
    Shl,
    Plus,
    Minus,
    Times,
    Div,
    Mod,
    Assign,
    PlusAssign,
    MinusAssign,
    TimesAssign,
    DivAssign,
    ModAssign,
    BAndAssign,
    BOrAssign,
    XorAssign,
    ShlAssign,
    ShrAssign,
}

} // verus!
