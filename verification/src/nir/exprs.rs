use crate::span::{Span, SpanCursor};
use vstd::prelude::*;

verus! {

/// An expression of the NIR: its kind and index, packed in one integer, and where it was
/// written.
pub struct Expr {
    pub kind_and_index: ExprKindAndIndex,
    pub span: Span,
}

/// An expression's kind (in the five high bits) and its index among the expressions of that
/// kind (in the other bits), packed in one `u64`.
#[derive(Clone, Copy, Debug, PartialEq, Eq, Structural)]
pub struct ExprKindAndIndex(u64);

pub open spec fn expr_kind_mask() -> u64 {
    0b11111u64 << 59u64
}

pub open spec fn expr_index_mask() -> u64 {
    !(0b11111u64 << 59u64)
}

impl ExprKindAndIndex {
    pub const KIND_BITS: u64 = 5;
    pub const KIND_SHIFT: u64 = 59;
    pub const KIND_MASK: u64 = 0b11111 << 59;
    pub const INDEX_MASK: u64 = !(0b11111u64 << 59);

    // Possible kinds
    pub const UNIT: u64 = 0 << 59;
    pub const LITERAL: u64 = 1 << 59;
    pub const PARENS: u64 = 2 << 59;
    pub const PATH_CALL: u64 = 3 << 59;
    pub const METHOD_CALL: u64 = 4 << 59;
    pub const UNIT_STRUCT: u64 = 5 << 59;
    pub const TUPLE_STRUCT: u64 = 6 << 59;
    pub const FIELDS_STRUCT: u64 = 7 << 59;
    pub const FIELD: u64 = 8 << 59;
    pub const INDEX: u64 = 9 << 59;
    pub const ARRAY_ELEMENTS: u64 = 10 << 59;
    pub const ARRAY_ELEMENTS_SIZED: u64 = 11 << 59;
    pub const TUPLE_EXPR: u64 = 12 << 59;
    pub const RETURN_WITH_VALUE: u64 = 13 << 59;
    pub const IF_EXPR: u64 = 14 << 59;
    pub const LAMBDA_EXPR: u64 = 15 << 59;
    pub const UNARY_EXPR: u64 = 16 << 59;
    pub const BIN_EXPR: u64 = 17 << 59;

    /// The packed integer.
    pub closed spec fn bits(self) -> u64 {
        self.0
    }

    /// Creates a new encoded value for a given kind and index.
    pub fn new(kind: u64, index: usize) -> (r: Self)
        ensures
            r.bits() == kind | (index as u64),
    {
        Self(kind | index as u64)
    }

    /// Decodes the kind of the expression: the bits of the kind mask.
    pub fn kind(self) -> (r: u64)
        ensures
            r == self.bits() & expr_kind_mask(),
    {
        self.0 & Self::KIND_MASK
    }

    /// Decodes the index of the expression: the bits outside the kind mask.
    pub fn index(self) -> (r: u64)
        ensures
            r == self.bits() & expr_index_mask(),
    {
        self.0 & Self::INDEX_MASK
    }
}

/// Packing a kind and an index and then decoding gives them back, when the kind lies within
/// the kind mask (each of the kinds `UNIT` to `BIN_EXPR` does) and the index below it.
pub proof fn lemma_expr_kind_and_index_roundtrip(kind: u64, index: u64)
    requires
        kind & expr_index_mask() == 0,
        index & expr_kind_mask() == 0,
    ensures
        (kind | index) & expr_kind_mask() == kind,
        (kind | index) & expr_index_mask() == index,
{
    assert((kind | index) & (0b11111u64 << 59u64) == kind && (kind | index) & !(0b11111u64
        << 59u64) == index) by (bit_vector)
        requires
            kind & !(0b11111u64 << 59u64) == 0,
            index & (0b11111u64 << 59u64) == 0,
    ;
}

/// Every kind of expression lies within the kind mask.
pub proof fn lemma_expr_kinds_fit(k: u64)
    requires
        k <= 17,
    ensures
        (k << 59u64) & expr_index_mask() == 0,
{
    assert((k << 59u64) & !(0b11111u64 << 59u64) == 0) by (bit_vector)
        requires
            k <= 17,
    ;
}

#[derive(Debug, Clone, Copy, PartialEq, Eq, Structural)]
pub enum UnaryOp {
    Minus,
    LNot,
    BNot,
    Deref,
    Borrow,
    BorrowMut,
}

/// A unary operation applied to an expression.
pub struct UnaryExpr {
    pub op: UnaryOp,
    pub op_span: Span,
    pub expr: Expr,
}

#[derive(Debug, Clone, Copy, PartialEq, Eq, Structural)]
pub enum BinOp {
    LOr,
    LAnd,
    EqualEqual,
    NotEqual,
    GE,
    GT,
    LE,
    LT,
    OpenOpenRange,
    CloseOpenRange,
    OpenCloseRange,
    CloseCloseRange,
    BOr,
    Xor,
    BAnd,
    Shr,
    Shl,
    Plus,
    Minus,
    Times,
    Div,
    Mod,
    Assign,
    PlusAssign,
    MinusAssign,
    TimesAssign,
    DivAssign,
    ModAssign,
    BAndAssign,
    BOrAssign,
    XorAssign,
    ShlAssign,
    ShrAssign,
}

/// A binary operation applied to two expressions.
pub struct BinExpr {
    pub op: BinOp,
    pub op_span_cursor: SpanCursor,
    pub left: Expr,
    pub right: Expr,
}

} // verus!
