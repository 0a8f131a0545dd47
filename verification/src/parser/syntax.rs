//! The nodes of the syntax tree that the parser reads from a file: items, types, statements
//! and expressions. A part that failed to parse is kept as the error of its parse, and is
//! reported by the checks of `errors_reporter`.
use super::ast_generator::UnaryOpToken;
use super::parse_methods::ParseResult;
use super::path::SimplePath;
use super::terminal::{
    ColonSymbol, CommaSymbol, CloseCurlyBraceSymbol, CloseParenthesisSymbol,
    CloseSquareBracketSymbol, DotSymbol, ElseKeyword, EqualSymbol, FnKeyword, HashSymbol, Id,
    IfKeyword, LetKeyword, LoopKeyword, MutKeyword, OpenCurlyBraceSymbol, OpenParenthesisSymbol,
    OpenSquareBracketSymbol, RunKeyword, SemicolonSymbol, StarSymbol, StructKeyword, WhileKeyword,
};
use crate::lexer::token::LiteralKind;
use crate::parser::ast::BinOp;
use crate::span::Span;
use vstd::prelude::*;

verus! {

/// A visibility keyword (`عام` or `خاص`).
#[derive(Debug, Clone, Copy)]
pub struct VisModifier {
    pub span: Span,
}

/// The symbol `->`.
#[derive(Debug, Clone, Copy)]
pub struct RArrowSymbol {
    pub span: Span,
}

/// The keyword `on` of a method's receiver.
#[derive(Debug, Clone, Copy)]
pub struct OnKeyword {
    pub span: Span,
}

#[derive(Debug, Clone, Copy)]
pub struct BreakKeyword {
    pub span: Span,
}

#[derive(Debug, Clone, Copy)]
pub struct ContinueKeyword {
    pub span: Span,
}

#[derive(Debug, Clone, Copy)]
pub struct ReturnKeyword {
    pub span: Span,
}

#[derive(Debug, Clone, Copy)]
pub struct WhenKeyword {
    pub span: Span,
}

#[derive(Debug, Clone, Copy)]
pub struct DoKeyword {
    pub span: Span,
}

// Items
/// An item of a file, with or without a visibility keyword before it.
#[derive(Debug)]
pub enum FileItem {
    WithVisModifier(ItemWithVisibility),
    WithoutModifier(Item),
}

#[derive(Debug)]
pub struct ItemWithVisibility {
    pub visibility: VisModifier,
    pub item: ParseResult<Item>,
}

#[derive(Debug)]
pub enum Item {
    Struct(Struct),
    Fn(Fn),
}

#[derive(Debug)]
pub struct Struct {
    pub struct_keyword: StructKeyword,
    pub name: ParseResult<Id>,
    pub kind: ParseResult<StructKind>,
}

/// A structure without fields (`؛`), with unnamed fields (their types in parentheses), or
/// with named fields (in curly braces).
#[derive(Debug)]
pub enum StructKind {
    Unit(SemicolonSymbol),
    Tuple(TupleType),
    Fields(StructFields),
}

#[derive(Debug)]
pub struct StructFields {
    pub open_delim: OpenCurlyBraceSymbol,
    pub items: Option<PunctuatedStructField>,
    pub close_delim: ParseResult<CloseCurlyBraceSymbol>,
}

#[derive(Debug)]
pub struct PunctuatedStructField {
    pub first_item: ParseResult<StructField>,
    pub rest_items: Vec<ParseResult<CommaWithStructField>>,
    pub trailing_comma: Option<CommaSymbol>,
}

#[derive(Debug)]
pub struct CommaWithStructField {
    pub comma: CommaSymbol,
    pub item: StructField,
}

#[derive(Debug)]
pub struct StructField {
    pub visibility: Option<VisModifier>,
    pub name: Id,
    pub typ: ParseResult<ColonWithType>,
}

#[derive(Debug)]
pub struct Fn {
    pub fn_keyword: FnKeyword,
    pub name: ParseResult<Id>,
    pub params_decl: ParseResult<FnParams>,
    pub return_type: Option<ColonWithType>,
    /// This must be checked that it doesn't have a lambda arrow
    pub body: ParseResult<LambdaExpr>,
}

#[derive(Debug)]
pub struct FnParams {
    pub open_delim: OpenParenthesisSymbol,
    pub items: Option<PunctuatedFnParam>,
    pub close_delim: ParseResult<CloseParenthesisSymbol>,
}

#[derive(Debug)]
pub struct PunctuatedFnParam {
    pub first_item: ParseResult<FnParam>,
    pub rest_items: Vec<ParseResult<CommaWithFnParam>>,
    pub trailing_comma: Option<CommaSymbol>,
}

#[derive(Debug)]
pub struct CommaWithFnParam {
    pub comma: CommaSymbol,
    pub item: FnParam,
}

#[derive(Debug)]
pub struct FnParam {
    pub name: Id,
    pub typ: ParseResult<ColonWithType>,
}

#[derive(Debug)]
pub struct ColonWithType {
    pub colon: ColonSymbol,
    pub typ: ParseResult<Type>,
}

// Types
#[derive(Debug)]
pub enum Type {
    Path(SimplePath),
    Ptr(Box<PtrType>),
    Ref(Box<RefType>),
    Slice(Box<SliceType>),
    Paren(Box<ParenType>),
}

#[derive(Debug)]
pub struct PtrType {
    pub star: StarSymbol,
    pub mut_keyword: Option<MutKeyword>,
    pub typ: ParseResult<Type>,
}

#[derive(Debug)]
pub struct RefType {
    pub hash: HashSymbol,
    pub mut_keyword: Option<MutKeyword>,
    pub typ: ParseResult<Type>,
}

#[derive(Debug)]
pub struct SliceType {
    pub open_bracket: OpenSquareBracketSymbol,
    pub typ: ParseResult<Type>,
    pub array_size: Option<ArraySizeExpr>,
    pub close_bracket: ParseResult<CloseSquareBracketSymbol>,
}

#[derive(Debug)]
pub struct ArraySizeExpr {
    pub semicolon: SemicolonSymbol,
    pub expr: ParseResult<Expr>,
}

#[derive(Debug)]
pub struct ParenType {
    pub tuple: TupleType,
    pub lambda: Option<LambdaType>,
}

#[derive(Debug)]
pub struct LambdaType {
    pub r_arrow: RArrowSymbol,
    pub typ: ParseResult<Type>,
}

#[derive(Debug)]
pub struct TupleType {
    pub open_delim: OpenParenthesisSymbol,
    pub items: Option<PunctuatedType>,
    pub close_delim: ParseResult<CloseParenthesisSymbol>,
}

#[derive(Debug)]
pub struct PunctuatedType {
    pub first_item: ParseResult<Type>,
    pub rest_items: Vec<ParseResult<CommaWithType>>,
    pub trailing_comma: Option<CommaSymbol>,
}

#[derive(Debug)]
pub struct CommaWithType {
    pub comma: CommaSymbol,
    pub item: Type,
}

// Statements
#[derive(Debug)]
pub enum Stm {
    Semicolon(SemicolonSymbol),
    Let(LetStm),
    Expr(ExprStm),
}

#[derive(Debug)]
pub struct LetStm {
    pub let_keyword: LetKeyword,
    pub mut_keyword: Option<MutKeyword>,
    pub binding: ParseResult<Binding>,
    pub let_assign: Option<LetAssign>,
    pub semicolon: ParseResult<SemicolonSymbol>,
}

#[derive(Debug)]
pub struct LetAssign {
    pub equal: EqualSymbol,
    pub expr: ParseResult<Expr>,
}

/// A statement of an expression: one with a block needs no semicolon.
#[derive(Debug)]
pub enum ExprStm {
    WithBlock(ExprWithBlockStm),
    Any(AnyExprStm),
}

#[derive(Debug)]
pub struct ExprWithBlockStm {
    pub expr: ExprWithBlock,
    pub semicolon: Option<SemicolonSymbol>,
}

#[derive(Debug)]
pub struct AnyExprStm {
    pub expr: Expr,
    pub semicolon: ParseResult<SemicolonSymbol>,
}

#[derive(Debug)]
pub struct Binding {
    pub kind: BindingKind,
    pub typ: Option<ColonWithType>,
}

#[derive(Debug)]
pub enum BindingKind {
    Id(Id),
    MutId(MutIdBinding),
    Destructed(Box<DestructedTuple>),
}

#[derive(Debug)]
pub struct MutIdBinding {
    pub mut_keyword: MutKeyword,
    pub id: ParseResult<Id>,
}

#[derive(Debug)]
pub struct DestructedTuple {
    pub open_delim: OpenParenthesisSymbol,
    pub items: Option<PunctuatedBindingKind>,
    pub close_delim: ParseResult<CloseParenthesisSymbol>,
}

#[derive(Debug)]
pub struct PunctuatedBindingKind {
    pub first_item: ParseResult<BindingKind>,
    pub rest_items: Vec<ParseResult<CommaWithBindingKind>>,
    pub trailing_comma: Option<CommaSymbol>,
}

#[derive(Debug)]
pub struct CommaWithBindingKind {
    pub comma: CommaSymbol,
    pub item: BindingKind,
}

// Expressions
/// An expression: a primary expression, then binary operators each with its right side
/// (their precedence is resolved later).
#[derive(Debug)]
pub struct Expr {
    pub left: Box<PrimaryExpr>,
    pub bin: Vec<BinExpr>,
}

/// A binary operator token, with the operator it stands for.
#[derive(Debug, Clone, Copy)]
pub struct BinOpToken {
    pub span: Span,
    pub op: BinOp,
}

#[derive(Debug)]
pub struct BinExpr {
    pub op: BinOpToken,
    pub right: ParseResult<PrimaryExpr>,
}

#[derive(Debug)]
pub struct PrimaryExpr {
    pub kind: PrimaryExprKind,
    pub post_ops: Vec<PostOpExpr>,
    pub inner_access: Vec<InnerAccessExpr>,
}

#[derive(Debug)]
pub enum PrimaryExprKind {
    Unary(UnaryExpr),
    Atomic(AtomicExpr),
}

#[derive(Debug)]
pub struct UnaryExpr {
    pub first_op: UnaryOpToken,
    pub rest_ops: Vec<UnaryOpToken>,
    pub expr: ParseResult<AtomicExpr>,
}

#[derive(Debug)]
pub enum PostOpExpr {
    Invoke(ParenExpr),
    Lambda(LambdaExpr),
    Index(IdxExpr),
}

#[derive(Debug)]
pub struct InnerAccessExpr {
    pub dot: DotSymbol,
    pub inner: ParseResult<Id>,
    pub post_ops: Vec<PostOpExpr>,
}

#[derive(Debug)]
pub struct IdxExpr {
    pub open_bracket: OpenSquareBracketSymbol,
    pub expr: ParseResult<Expr>,
    pub close_bracket: ParseResult<CloseSquareBracketSymbol>,
}

/// The atom of an expression.
#[derive(Debug)]
pub enum AtomicExpr {
    Array(ArrayExpr),
    Paren(ParenExpr),
    Struct(StructExpr),
    Path(SimplePath),
    Literal(LiteralExpr),
    On(OnKeyword),
    Lambda(LambdaExpr),
    Break(BreakExpr),
    Continue(ContinueExpr),
    Return(ReturnExpr),
    WithBlock(ExprWithBlock),
}

/// A literal, with its value.
#[derive(Debug)]
pub struct LiteralExpr {
    pub span: Span,
    pub kind: LiteralKind,
}

#[derive(Debug)]
pub struct ArrayExpr {
    pub open_bracket: OpenSquareBracketSymbol,
    pub expr_kind: Option<ArrayExprKind>,
    pub close_bracket: ParseResult<CloseSquareBracketSymbol>,
}

#[derive(Debug)]
pub enum ArrayExprKind {
    ExplicitSize(ExplicitSizeArrayExpr),
    Elements(ElementsArrayExpr),
}

#[derive(Debug)]
pub struct ExplicitSizeArrayExpr {
    pub repeated_expr: ParseResult<Expr>,
    pub semicolon: SemicolonSymbol,
    pub size_expr: ParseResult<Expr>,
}

#[derive(Debug)]
pub struct ElementsArrayExpr {
    pub first: ParseResult<Expr>,
    pub rest: Vec<ParseResult<CommaWithExpr>>,
    pub trailing_comma: Option<CommaSymbol>,
}

#[derive(Debug)]
pub struct CommaWithExpr {
    pub comma: CommaSymbol,
    pub item: Expr,
}

/// Expressions in parentheses: a tuple, the arguments of a call, or one expression.
#[derive(Debug)]
pub struct ParenExpr {
    pub open_delim: OpenParenthesisSymbol,
    pub items: Option<PunctuatedExpr>,
    pub close_delim: ParseResult<CloseParenthesisSymbol>,
}

#[derive(Debug)]
pub struct PunctuatedExpr {
    pub first_item: ParseResult<Expr>,
    pub rest_items: Vec<ParseResult<CommaWithExpr>>,
    pub trailing_comma: Option<CommaSymbol>,
}

#[derive(Debug)]
pub struct StructExpr {
    pub dot: DotSymbol,
    pub path: ParseResult<SimplePath>,
    pub init: Option<StructInit>,
}

#[derive(Debug)]
pub enum StructInit {
    Tuple(ParenExpr),
    Fields(StructFieldsInitExpr),
}

#[derive(Debug)]
pub struct StructFieldsInitExpr {
    pub open_delim: OpenCurlyBraceSymbol,
    pub items: Option<PunctuatedStructFieldInitExpr>,
    pub close_delim: ParseResult<CloseCurlyBraceSymbol>,
}

#[derive(Debug)]
pub struct PunctuatedStructFieldInitExpr {
    pub first_item: ParseResult<StructFieldInitExpr>,
    pub rest_items: Vec<ParseResult<CommaWithStructFieldInitExpr>>,
    pub trailing_comma: Option<CommaSymbol>,
}

#[derive(Debug)]
pub struct CommaWithStructFieldInitExpr {
    pub comma: CommaSymbol,
    pub item: StructFieldInitExpr,
}

#[derive(Debug)]
pub struct StructFieldInitExpr {
    pub name: Id,
    pub expr: Option<StructFieldInitExplicitExpr>,
}

#[derive(Debug)]
pub struct StructFieldInitExplicitExpr {
    pub equal: EqualSymbol,
    pub expr: ParseResult<Expr>,
}

#[derive(Debug)]
pub struct BreakExpr {
    pub break_keyword: BreakKeyword,
    pub expr: Option<Expr>,
}

#[derive(Debug)]
pub struct ContinueExpr {
    pub continue_keyword: ContinueKeyword,
}

#[derive(Debug)]
pub struct ReturnExpr {
    pub return_keyword: ReturnKeyword,
    pub expr: Option<Expr>,
}

/// A block: `{`, maybe a lambda arrow with the parameters before it, the statements, the last
/// expression (with no semicolon after it), and `}`.
#[derive(Debug)]
pub struct LambdaExpr {
    pub open_curly: OpenCurlyBraceSymbol,
    pub lambda_arrow: Option<LambdaArrow>,
    pub stms: Vec<ParseResult<Stm>>,
    pub last_expr: Option<Expr>,
    pub close_curly: ParseResult<CloseCurlyBraceSymbol>,
}

#[derive(Debug)]
pub enum LambdaArrow {
    NoParams(RArrowSymbol),
    WithParams(LambdaParams),
}

#[derive(Debug)]
pub struct LambdaParams {
    pub first: Binding,
    pub rest: Vec<CommaWithBinding>,
    pub trailing_comma: Option<CommaSymbol>,
    pub r_arrow: ParseResult<RArrowSymbol>,
}

#[derive(Debug)]
pub struct CommaWithBinding {
    pub comma: CommaSymbol,
    pub item: Binding,
}

/// An expression that ends with a block.
#[derive(Debug)]
pub enum ExprWithBlock {
    If(IfExpr),
    While(WhileExpr),
    Loop(LoopExpr),
    Run(RunExpr),
    When(WhenExpr),
    DoWhile(DoWhileExpr),
}

#[derive(Debug)]
pub struct ConditionalBlock {
    pub condition: ParseResult<Expr>,
    /// This must be checked that it doesn't have a lambda arrow
    pub block: ParseResult<LambdaExpr>,
}

#[derive(Debug)]
pub struct IfExpr {
    pub if_keyword: IfKeyword,
    pub conditional_block: ConditionalBlock,
    pub else_ifs: Vec<ElseIfClause>,
    pub else_cluase: Option<ElseClause>,
}

#[derive(Debug)]
pub struct ElseIfClause {
    pub else_keyword: ElseKeyword,
    pub if_keyword: IfKeyword,
    pub conditional_block: ConditionalBlock,
}

#[derive(Debug)]
pub struct ElseClause {
    pub else_keyword: ElseKeyword,
    pub block: ParseResult<LambdaExpr>,
}

#[derive(Debug)]
pub struct WhileExpr {
    pub while_keyword: WhileKeyword,
    pub conditional_block: ConditionalBlock,
}

#[derive(Debug)]
pub struct LoopExpr {
    pub loop_keyword: LoopKeyword,
    pub block: ParseResult<LambdaExpr>,
}

#[derive(Debug)]
pub struct RunExpr {
    pub run: RunKeyword,
    pub block: ParseResult<LambdaExpr>,
}

#[derive(Debug)]
pub struct WhenExpr {
    pub when_keyword: WhenKeyword,
    pub expr: ParseResult<Expr>,
}

#[derive(Debug)]
pub struct DoWhileExpr {
    pub do_keyword: DoKeyword,
    pub block: ParseResult<LambdaExpr>,
    pub while_keyword: ParseResult<WhileKeyword>,
    pub condition: ParseResult<Expr>,
}

/// Where a lambda arrow is: from its first token to `->` (none when `->` is missing).
pub open spec fn lambda_arrow_span(a: LambdaArrow) -> Option<Span> {
    match a {
        LambdaArrow::NoParams(r) => Some(r.span),
        LambdaArrow::WithParams(p) => match p.r_arrow {
            Ok(r) => Some(Span { start: binding_kind_start(p.first.kind), end: r.span.end }),
            Err(_) => None,
        },
    }
}

/// Where a binding starts.
pub open spec fn binding_kind_start(k: BindingKind) -> crate::span::SpanCursor {
    match k {
        BindingKind::Id(id) => id.span.start,
        BindingKind::MutId(m) => m.mut_keyword.span.start,
        BindingKind::Destructed(d) => d.open_delim.span.start,
    }
}

impl LambdaArrow {
    pub fn span(&self) -> (r: Option<Span>)
        ensures
            r == lambda_arrow_span(*self),
    {
        match self {
            LambdaArrow::NoParams(r) => Some(r.span),
            LambdaArrow::WithParams(p) => match &p.r_arrow {
                Ok(r) => {
                    let start = match &p.first.kind {
                        BindingKind::Id(id) => id.span.start,
                        BindingKind::MutId(m) => m.mut_keyword.span.start,
                        BindingKind::Destructed(d) => d.open_delim.span.start,
                    };
                    Some(Span { start, end: r.span.end })
                },
                Err(_) => None,
            },
        }
    }
}

} // verus!
