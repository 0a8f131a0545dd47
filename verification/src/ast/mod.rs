pub mod item;

use crate::display_table::DisplayIdx;
use crate::lexer::token::NumKind;
use crate::span::{Span, SpanCursor};
use vstd::prelude::*;

verus! {

/// A name in the syntax tree: where it was written and its entry in the display table.
#[derive(Debug, Clone, Copy, PartialEq, Eq, Structural)]
pub struct ASTId {
    pub span: Span,
    pub id: DisplayIdx,
}

#[derive(Debug, Clone, Copy, PartialEq, Eq, Structural)]
pub enum VisModifier {
    Default,
    Public,
    Private,
}

/// A structure without fields.
#[derive(Debug, Clone, Copy, PartialEq, Eq, Structural)]
pub struct UnitStruct {
    pub vis: VisModifier,
    pub name: ASTId,
}

#[derive(Debug, Clone, Copy, PartialEq, Eq, Structural)]
pub enum UnaryOp {
    Minus,
    LNot,
    BNot,
    Deref,
    Borrow,
    BorrowMut,
}

#[derive(Debug, Clone, Copy, PartialEq, Eq, Structural)]
pub enum BinOp {
    LOr,
    LAnd,
    EqualEqual,
    NotEqual,
    GE,
    GT,
    LE,
    LT,
    OpenOpenRange,
    CloseOpenRange,
    OpenCloseRange,
    CloseCloseRange,
    BOr,
    Xor,
    BAnd,
    Shr,
    Shl,
    Plus,
    Minus,
    Times,
    Div,
    Mod,
    Assign,
    PlusAssign,
    MinusAssign,
    TimesAssign,
    DivAssign,
    ModAssign,
    BAndAssign,
    BOrAssign,
    XorAssign,
    ShlAssign,
    ShrAssign,
}

/// The syntax tree of a file: its imports and its items.
#[derive(Debug)]
pub struct File {
    pub imports: Vec<ModPathWithItem>,
    pub star_imports: Vec<ModPath>,
    pub unit_structs: Vec<UnitStruct>,
    pub tuple_structs: Vec<TupleStruct>,
    pub fields_structs: Vec<FieldsStruct>,
    pub fns: Vec<Fn>,
}

/// A path of modules: the name of each segment and where it was written.
#[derive(Debug)]
pub struct ModPath {
    pub ids: Vec<DisplayIdx>,
    pub spans: Vec<Span>,
}

#[derive(Debug)]
pub struct ModPathWithItem {
    pub mod_path: ModPath,
    pub item: ASTId,
}

#[derive(Debug)]
pub struct Binding {
    pub kind: BindingKind,
    pub typ: Option<Type>,
}

#[derive(Debug)]
pub enum BindingKind {
    Id(ASTId),
    Tuple(Vec<BindingKind>, Span),
}

#[derive(Debug)]
pub enum Type {
    Path(ModPathWithItem),
    Unit(Option<Span>),
    Tuple(Vec<Type>, Span),
    Paren(Box<Type>, Span),
    Slice(Box<Type>, Span),
    Array(Box<Type>, Box<Expr>, Span),
    Ptr(Box<Type>, Span),
    Ref(Box<Type>, Span),
    PtrMut(Box<Type>, Span),
    RefMut(Box<Type>, Span),
    Lambda(Vec<Type>, Box<Type>),
}

#[derive(Debug)]
pub struct TupleStruct {
    pub vis: VisModifier,
    pub name: ASTId,
    pub types: Vec<(VisModifier, Type)>,
}

#[derive(Debug)]
pub struct FieldsStruct {
    pub vis: VisModifier,
    pub name: ASTId,
    pub fields: Vec<(VisModifier, ASTId, Type)>,
}

#[derive(Debug)]
pub struct Fn {
    pub vis: VisModifier,
    pub name: ASTId,
    pub params: Vec<(ASTId, Type)>,
    pub return_type: Type,
    pub body: Scope,
}

/// What an item of a file is.
#[derive(Debug)]
pub enum ItemKind {
    UnitStruct,
    TupleStruct(TupleStruct),
    FieldsStruct(FieldsStruct),
    Fn(Fn),
}

#[derive(Debug)]
pub struct Scope {
    pub stms: Vec<Stm>,
    pub return_expr: Option<Expr>,
}

#[derive(Debug)]
pub enum Stm {
    Let(Box<LetStm>),
    LetMut(Box<LetStm>),
    While(Box<(Expr, Scope)>),
    If(Box<IfExpr>),
    Expr(Box<Expr>),
}

#[derive(Debug)]
pub struct LetStm {
    pub binding: Binding,
    pub assign: Option<Box<Expr>>,
}

#[derive(Debug)]
pub struct Expr {
    pub span: Span,
    pub kind: ExprKind,
}

#[derive(Debug)]
pub enum ExprKind {
    Literal(LiteralExpr),
    Parens(Box<Expr>),
    Path(Box<ModPathWithItem>),
    Call(Box<CallExpr>),
    UnitStruct(Box<ModPathWithItem>),
    TupleStruct(Box<TupleStructExpr>),
    FieldsStruct(Box<FieldsStructExpr>),
    Field(Box<FieldExpr>),
    Index(Box<IndexExpr>),
    Tuple(Vec<Expr>),
    ArrayElemnts(Vec<Expr>),
    ArrayElemntsSized(Box<ArrayElementsSizedExpr>),
    If(Box<IfExpr>),
    Lambda(Box<LambdaExpr>),
    UnaryOp(Box<UnaryOpExpr>),
    BinaryOp(Box<BinaryOpExpr>),
    Return(Option<Box<Expr>>),
    Break(Option<Box<Expr>>),
    Continue,
    On,
}

/// A literal; number literals are the integer kinds.
#[derive(Debug)]
pub enum LiteralExpr {
    Str(DisplayIdx),
    Char(char),
    Bool(bool),
    Num(NumKind),
}

#[derive(Debug)]
pub struct CallExpr {
    pub on: Expr,
    pub args: Vec<Expr>,
    pub parens_span: Span,
}

#[derive(Debug)]
pub struct TupleStructExpr {
    pub path: ModPathWithItem,
    pub args: Vec<Expr>,
}

#[derive(Debug)]
pub struct FieldsStructExpr {
    pub path: ModPathWithItem,
    pub fields: Vec<(ASTId, Expr)>,
}

#[derive(Debug)]
pub struct FieldExpr {
    pub on: Expr,
    pub name: ASTId,
}

#[derive(Debug)]
pub struct IndexExpr {
    pub on: Expr,
    pub index: Expr,
    pub brackets_span: Span,
}

#[derive(Debug)]
pub struct ArrayElementsSizedExpr {
    pub repeat: Expr,
    pub size: Expr,
}

#[derive(Debug)]
pub struct IfExpr {
    pub if_: (Expr, Scope),
    pub else_ifs: Vec<(Expr, Scope)>,
    pub else_: Option<Box<Scope>>,
}

#[derive(Debug)]
pub struct LambdaExpr {
    pub params: Vec<Binding>,
    pub body: Scope,
}

#[derive(Debug)]
pub struct UnaryOpExpr {
    pub op: UnaryOp,
    pub op_span: Span,
    pub expr: Expr,
}

#[derive(Debug)]
pub struct BinaryOpExpr {
    pub op: BinOp,
    pub op_span_cursor: SpanCursor,
    pub left: Expr,
    pub right: Expr,
}

} // verus!
