//! The checks of a parsed file: each part that failed to parse is reported, in the order of
//! the file. What is reported is first stated as a sequence of reports (`ParseReport`), each
//! of which one call of the reporter makes.
use super::errors_reporter::ParseErrorsReporter;
use super::report_seq::{
    all_reportable, lemma_reportable_split, lemma_reports_appended_none,
    lemma_reports_appended_trans, reportable, reports_appended, ParseReport,
};
use super::parse_methods::{ParseErr, ParseResult};
use super::path::{SimpleInnerPath, SimplePath};
use super::syntax::{
    ArrayExpr, ArrayExprKind, AtomicExpr, BinExpr, Binding, BindingKind, ColonWithType, CommaWithBinding, CommaWithBindingKind, CommaWithExpr, CommaWithFnParam, CommaWithStructField, CommaWithStructFieldInitExpr, CommaWithType, ConditionalBlock, DestructedTuple, ElseIfClause, Expr, ExprStm, ExprWithBlock, FileItem, Fn, FnParams, IdxExpr, InnerAccessExpr, Item, LambdaArrow, LambdaExpr, ParenExpr, PostOpExpr, PrimaryExpr, PrimaryExprKind, SliceType, Stm, Struct, StructExpr, StructFieldInitExpr, StructInit, StructKind, TupleType, Type, lambda_arrow_span,
};
use super::terminal::SemicolonSymbol;
use crate::lexer::token::Token;
use crate::span::Span;
use vstd::prelude::*;
use super::errors_reporter::secondaries_view;

verus! {

/// The report of an unclosed delimiter at `span`, when `unclosed` holds.
pub open spec fn unclosed_if(unclosed: bool, span: Span) -> Seq<ParseReport> {
    if unclosed {
        seq![ParseReport::Unclosed(span)]
    } else {
        Seq::empty()
    }
}

/// The report of a missing semicolon.
pub open spec fn semicolon_reports(s: ParseResult<SemicolonSymbol>) -> Seq<ParseReport> {
    match s {
        Ok(_) => Seq::empty(),
        Err(e) => seq![ParseReport::Semicolon(e)],
    }
}


pub open spec fn path_reports(p: SimplePath) -> Seq<ParseReport> {
    path_inners_reports(p.inners@)
}

/// The reports of a type that may have failed to parse.
pub open spec fn type_result_reports(t: ParseResult<Type>) -> Seq<ParseReport>
    decreases t, 1int,
{
    match t {
        Ok(typ) => type_reports(typ),
        Err(e) => seq![ParseReport::Expected("نوع"@, e)],
    }
}

/// The reports of a type.
pub open spec fn type_reports(t: Type) -> Seq<ParseReport>
    decreases t, 1int,
{
    match t {
        Type::Path(p) => path_reports(p),
        Type::Ptr(p) => type_result_reports(p.typ),
        Type::Ref(r) => type_result_reports(r.typ),
        Type::Slice(s) => type_result_reports(s.typ) + match s.array_size {
            Some(a) => expr_result_reports(a.expr),
            None => Seq::empty(),
        } + unclosed_if(s.close_bracket is Err, s.open_bracket.span),
        Type::Paren(p) => tuple_type_reports(p.tuple) + match p.lambda {
            Some(l) => type_result_reports(l.typ),
            None => Seq::empty(),
        },
    }
}

/// The reports of the types in parentheses.
pub open spec fn tuple_type_reports(t: TupleType) -> Seq<ParseReport>
    decreases t, 1int,
{
    (match t.items {
        Some(p) => type_result_reports(p.first_item) + comma_types_reports(p.rest_items@),
        None => Seq::empty(),
    }) + unclosed_if(t.close_delim is Err, t.open_delim.span)
}


/// The reports of an expression that may have failed to parse.
pub open spec fn expr_result_reports(e: ParseResult<Expr>) -> Seq<ParseReport>
    decreases e, 1int,
{
    match e {
        Ok(x) => expr_reports(x),
        Err(err) => seq![ParseReport::Expected("تعبير برمجي"@, err)],
    }
}

/// The reports of an expression: its first primary expression, then the right side of each
/// binary operator.
pub open spec fn expr_reports(e: Expr) -> Seq<ParseReport>
    decreases e, 1int,
{
    primary_reports(*e.left) + bins_reports(e.bin@)
}


pub open spec fn primary_reports(p: PrimaryExpr) -> Seq<ParseReport>
    decreases p, 1int,
{
    (match p.kind {
        PrimaryExprKind::Unary(u) => match u.expr {
            Ok(a) => atomic_reports(a),
            Err(err) => seq![ParseReport::Expected("تعبير برمجي"@, err)],
        },
        PrimaryExprKind::Atomic(a) => atomic_reports(a),
    }) + post_ops_reports(p.post_ops@) + inner_access_reports(p.inner_access@)
}



/// The reports of the atom of an expression.
pub open spec fn atomic_reports(a: AtomicExpr) -> Seq<ParseReport>
    decreases a, 1int,
{
    match a {
        AtomicExpr::Literal(_) | AtomicExpr::On(_) | AtomicExpr::Continue(_) => Seq::empty(),
        AtomicExpr::Paren(pe) => paren_reports(pe),
        AtomicExpr::Path(p) => path_reports(p),
        AtomicExpr::WithBlock(w) => with_block_reports(w),
        AtomicExpr::Lambda(l) => lambda_reports(l),
        AtomicExpr::Break(b) => match b.expr {
            Some(x) => expr_reports(x),
            None => Seq::empty(),
        },
        AtomicExpr::Return(r) => match r.expr {
            Some(x) => expr_reports(x),
            None => Seq::empty(),
        },
        AtomicExpr::Array(arr) => unclosed_if(arr.close_bracket is Err, arr.open_bracket.span)
            + match arr.expr_kind {
            Some(ArrayExprKind::ExplicitSize(x)) => expr_result_reports(x.repeated_expr)
                + expr_result_reports(x.size_expr),
            Some(ArrayExprKind::Elements(el)) => expr_result_reports(el.first)
                + comma_exprs_reports(el.rest@),
            None => Seq::empty(),
        },
        AtomicExpr::Struct(se) => (match se.path {
            Ok(p) => path_reports(p),
            Err(err) => seq![ParseReport::Expected("اسم تصنيف أو مساره"@, err)],
        }) + match se.init {
            Some(StructInit::Fields(f)) => unclosed_if(f.close_delim is Err, f.open_delim.span)
                + match f.items {
                Some(p) => field_init_reports(p.first_item) + field_inits_reports(
                    p.rest_items@,
                ),
                None => Seq::empty(),
            },
            Some(StructInit::Tuple(pe)) => paren_reports(pe),
            None => Seq::empty(),
        },
    }
}

pub open spec fn field_init_reports(r: ParseResult<StructFieldInitExpr>) -> Seq<ParseReport>
    decreases r, 1int,
{
    match r {
        Ok(n) => match n.expr {
            Some(x) => expr_result_reports(x.expr),
            None => Seq::empty(),
        },
        Err(err) => seq![ParseReport::Expected("مُعرِّف"@, err)],
    }
}



/// The reports of expressions in parentheses.
pub open spec fn paren_reports(pe: ParenExpr) -> Seq<ParseReport>
    decreases pe, 1int,
{
    (match pe.items {
        Some(p) => expr_result_reports(p.first_item) + comma_exprs_reports(p.rest_items@),
        None => Seq::empty(),
    }) + unclosed_if(pe.close_delim is Err, pe.open_delim.span)
}

/// The reports of a block that is not a lambda, or of its missing parse with `missing`.
pub open spec fn block_result_reports(b: ParseResult<LambdaExpr>, missing: Seq<char>) -> Seq<
    ParseReport,
>
    decreases b, 1int,
{
    match b {
        Ok(l) => non_lambda_reports(l),
        Err(err) => seq![ParseReport::Expected(missing, err)],
    }
}

/// The reports of a condition and its block: of the condition, only its missing parse.
pub open spec fn cond_reports(
    cb: ConditionalBlock,
    missing_cond: Seq<char>,
    missing_block: Seq<char>,
) -> Seq<ParseReport>
    decreases cb, 1int,
{
    (match cb.condition {
        Ok(_) => Seq::empty(),
        Err(err) => seq![ParseReport::Expected(missing_cond, err)],
    }) + block_result_reports(cb.block, missing_block)
}


/// The reports of an expression that ends with a block.
pub open spec fn with_block_reports(w: ExprWithBlock) -> Seq<ParseReport>
    decreases w, 1int,
{
    match w {
        ExprWithBlock::If(i) => cond_reports(
            i.conditional_block,
            "تعبير برمجي (شرط `لو`)"@,
            "محتوى `لو`"@,
        ) + else_ifs_reports(i.else_ifs@) + match i.else_cluase {
            Some(c) => block_result_reports(c.block, "محتوى `وإلا`"@),
            None => Seq::empty(),
        },
        ExprWithBlock::While(wh) => cond_reports(
            wh.conditional_block,
            "تعبير برمجي (شرط `طالما`)"@,
            "محتوى `طالما`"@,
        ),
        ExprWithBlock::Loop(l) => block_result_reports(l.block, "محتوى `تكرار`"@),
        ExprWithBlock::Run(r) => block_result_reports(r.block, "محتوى `تشغيل`"@),
        ExprWithBlock::When(_) | ExprWithBlock::DoWhile(_) => seq![ParseReport::Unsupported],
    }
}

/// The reports of a block that must not be a lambda: a lambda arrow is reported.
pub open spec fn non_lambda_reports(l: LambdaExpr) -> Seq<ParseReport>
    decreases l, 1int,
{
    (match l.lambda_arrow {
        Some(a) => match lambda_arrow_span(a) {
            Some(sp) => seq![
                ParseReport::Message(
                    "يُتوقع محتوى غير لامدا"@,
                    sp,
                    "تم العثور على تعبير لامدا"@,
                ),
            ],
            None => seq![ParseReport::Unsupported],
        },
        None => Seq::empty(),
    }) + block_reports(l)
}

/// The reports of a lambda: its parameters, then its block.
pub open spec fn lambda_reports(l: LambdaExpr) -> Seq<ParseReport>
    decreases l, 1int,
{
    (match l.lambda_arrow {
        Some(LambdaArrow::WithParams(p)) => binding_reports(p.first) + comma_bindings_reports(
            p.rest@,
        ) + match p.r_arrow {
            Ok(_) => Seq::empty(),
            Err(err) => seq![ParseReport::Expected("`->`"@, err)],
        },
        _ => Seq::empty(),
    }) + block_reports(l)
}


/// The reports of the statements of a block, its last expression, and its `}`.
pub open spec fn block_reports(l: LambdaExpr) -> Seq<ParseReport>
    decreases l, 0int,
{
    stms_reports(l.stms@) + match l.last_expr {
        Some(e) => expr_reports(e),
        None => Seq::empty(),
    } + unclosed_if(l.close_curly is Err, l.open_curly.span)
}


/// The reports of a statement. A `let` whose value failed to parse has its semicolon left
/// unchecked.
pub open spec fn stm_reports(stm: Stm) -> Seq<ParseReport>
    decreases stm, 1int,
{
    match stm {
        Stm::Semicolon(_) => Seq::empty(),
        Stm::Let(ls) => (match ls.binding {
            Ok(b) => binding_reports(b),
            Err(err) => seq![ParseReport::Expected("مُعرِّف"@, err)],
        }) + match ls.let_assign {
            Some(a) => expr_result_reports(a.expr) + if a.expr is Ok {
                semicolon_reports(ls.semicolon)
            } else {
                Seq::empty()
            },
            None => semicolon_reports(ls.semicolon),
        },
        Stm::Expr(ExprStm::WithBlock(w)) => with_block_reports(w.expr),
        Stm::Expr(ExprStm::Any(a)) => expr_reports(a.expr) + semicolon_reports(a.semicolon),
    }
}

pub open spec fn binding_reports(b: Binding) -> Seq<ParseReport>
    decreases b, 1int,
{
    binding_kind_reports(b.kind) + match b.typ {
        Some(c) => type_result_reports(c.typ),
        None => Seq::empty(),
    }
}

pub open spec fn binding_kind_reports(k: BindingKind) -> Seq<ParseReport>
    decreases k, 1int,
{
    match k {
        BindingKind::Destructed(d) => (match d.items {
            Some(p) => (match p.first_item {
                Ok(k2) => binding_kind_reports(k2),
                Err(err) => seq![ParseReport::Expected("مُعرِّف"@, err)],
            }) + comma_binding_kinds_reports(p.rest_items@),
            None => Seq::empty(),
        }) + unclosed_if(d.close_delim is Err, d.open_delim.span),
        _ => Seq::empty(),
    }
}



/// The reports of a name after `::` that is missing.
pub open spec fn path_inners_item_reports(x: SimpleInnerPath) -> Seq<ParseReport>
    decreases x, 1int,
{
    match x.inner {
        Ok(_) => Seq::empty(),
        Err(e) => seq![ParseReport::Expected("مسار"@, e)],
    }
}

/// The reports of each of `s`, in order.
pub open spec fn path_inners_reports(s: Seq<SimpleInnerPath>) -> Seq<ParseReport>
    decreases s, 1int,
{
    if s.len() == 0 {
        Seq::empty()
    } else {
        path_inners_reports(s.drop_last()) + path_inners_item_reports(s.last())
    }
}

proof fn lemma_path_inners_prefix(toks: Seq<Token>, s: Seq<SimpleInnerPath>, k: int)
    requires
        0 <= k <= s.len(),
        all_reportable(toks, path_inners_reports(s)),
    ensures
        all_reportable(toks, path_inners_reports(s.take(k))),
    decreases s.len() - k,
{
    if k < s.len() {
        lemma_path_inners_prefix(toks, s, k + 1);
        assert(s.take(k + 1).drop_last() =~= s.take(k));
        lemma_reportable_split(toks, path_inners_reports(s.take(k)), path_inners_item_reports(s.take(k + 1).last()));
    } else {
        assert(s.take(k) =~= s);
    }
}

/// The reports of a type after a comma.
pub open spec fn comma_types_item_reports(x: ParseResult<CommaWithType>) -> Seq<ParseReport>
    decreases x, 1int,
{
    match x {
        Ok(n) => type_reports(n.item),
        Err(e) => seq![ParseReport::CommaOrItem("نوع"@, e)],
    }
}

/// The reports of each of `s`, in order.
pub open spec fn comma_types_reports(s: Seq<ParseResult<CommaWithType>>) -> Seq<ParseReport>
    decreases s, 1int,
{
    if s.len() == 0 {
        Seq::empty()
    } else {
        comma_types_reports(s.drop_last()) + comma_types_item_reports(s.last())
    }
}

proof fn lemma_comma_types_prefix(toks: Seq<Token>, s: Seq<ParseResult<CommaWithType>>, k: int)
    requires
        0 <= k <= s.len(),
        all_reportable(toks, comma_types_reports(s)),
    ensures
        all_reportable(toks, comma_types_reports(s.take(k))),
    decreases s.len() - k,
{
    if k < s.len() {
        lemma_comma_types_prefix(toks, s, k + 1);
        assert(s.take(k + 1).drop_last() =~= s.take(k));
        lemma_reportable_split(toks, comma_types_reports(s.take(k)), comma_types_item_reports(s.take(k + 1).last()));
    } else {
        assert(s.take(k) =~= s);
    }
}

/// The reports of the right side of a binary operator.
pub open spec fn bins_item_reports(x: BinExpr) -> Seq<ParseReport>
    decreases x, 1int,
{
    match x.right {
        Ok(p) => primary_reports(p),
        Err(err) => seq![ParseReport::Expected("تعبير برمجي"@, err)],
    }
}

/// The reports of each of `s`, in order.
pub open spec fn bins_reports(s: Seq<BinExpr>) -> Seq<ParseReport>
    decreases s, 1int,
{
    if s.len() == 0 {
        Seq::empty()
    } else {
        bins_reports(s.drop_last()) + bins_item_reports(s.last())
    }
}

proof fn lemma_bins_prefix(toks: Seq<Token>, s: Seq<BinExpr>, k: int)
    requires
        0 <= k <= s.len(),
        all_reportable(toks, bins_reports(s)),
    ensures
        all_reportable(toks, bins_reports(s.take(k))),
    decreases s.len() - k,
{
    if k < s.len() {
        lemma_bins_prefix(toks, s, k + 1);
        assert(s.take(k + 1).drop_last() =~= s.take(k));
        lemma_reportable_split(toks, bins_reports(s.take(k)), bins_item_reports(s.take(k + 1).last()));
    } else {
        assert(s.take(k) =~= s);
    }
}

/// The reports of an access to an inner name, with its post operations.
pub open spec fn inner_access_item_reports(x: InnerAccessExpr) -> Seq<ParseReport>
    decreases x, 1int,
{
    (match x.inner {
        Ok(_) => Seq::empty(),
        Err(err) => seq![ParseReport::Expected("مُعرِّف"@, err)],
    }) + post_ops_reports(x.post_ops@)
}

/// The reports of each of `s`, in order.
pub open spec fn inner_access_reports(s: Seq<InnerAccessExpr>) -> Seq<ParseReport>
    decreases s, 1int,
{
    if s.len() == 0 {
        Seq::empty()
    } else {
        inner_access_reports(s.drop_last()) + inner_access_item_reports(s.last())
    }
}

proof fn lemma_inner_access_prefix(toks: Seq<Token>, s: Seq<InnerAccessExpr>, k: int)
    requires
        0 <= k <= s.len(),
        all_reportable(toks, inner_access_reports(s)),
    ensures
        all_reportable(toks, inner_access_reports(s.take(k))),
    decreases s.len() - k,
{
    if k < s.len() {
        lemma_inner_access_prefix(toks, s, k + 1);
        assert(s.take(k + 1).drop_last() =~= s.take(k));
        lemma_reportable_split(toks, inner_access_reports(s.take(k)), inner_access_item_reports(s.take(k + 1).last()));
    } else {
        assert(s.take(k) =~= s);
    }
}

/// The reports of a post operation: a call, a lambda, or an index.
pub open spec fn post_ops_item_reports(x: PostOpExpr) -> Seq<ParseReport>
    decreases x, 1int,
{
    match x {
        PostOpExpr::Invoke(pe) => paren_reports(pe),
        PostOpExpr::Lambda(l) => lambda_reports(l),
        PostOpExpr::Index(ix) => expr_result_reports(ix.expr) + unclosed_if(
            ix.close_bracket is Err,
            ix.open_bracket.span,
        ),
    }
}

/// The reports of each of `s`, in order.
pub open spec fn post_ops_reports(s: Seq<PostOpExpr>) -> Seq<ParseReport>
    decreases s, 1int,
{
    if s.len() == 0 {
        Seq::empty()
    } else {
        post_ops_reports(s.drop_last()) + post_ops_item_reports(s.last())
    }
}

proof fn lemma_post_ops_prefix(toks: Seq<Token>, s: Seq<PostOpExpr>, k: int)
    requires
        0 <= k <= s.len(),
        all_reportable(toks, post_ops_reports(s)),
    ensures
        all_reportable(toks, post_ops_reports(s.take(k))),
    decreases s.len() - k,
{
    if k < s.len() {
        lemma_post_ops_prefix(toks, s, k + 1);
        assert(s.take(k + 1).drop_last() =~= s.take(k));
        lemma_reportable_split(toks, post_ops_reports(s.take(k)), post_ops_item_reports(s.take(k + 1).last()));
    } else {
        assert(s.take(k) =~= s);
    }
}

/// The reports of a field's value after a comma.
pub open spec fn field_inits_item_reports(x: ParseResult<CommaWithStructFieldInitExpr>) -> Seq<ParseReport>
    decreases x, 1int,
{
    match x {
        Ok(c) => match c.item.expr {
            Some(e) => expr_result_reports(e.expr),
            None => Seq::empty(),
        },
        Err(err) => seq![ParseReport::CommaOrItem("مُعرِّف"@, err)],
    }
}

/// The reports of each of `s`, in order.
pub open spec fn field_inits_reports(s: Seq<ParseResult<CommaWithStructFieldInitExpr>>) -> Seq<ParseReport>
    decreases s, 1int,
{
    if s.len() == 0 {
        Seq::empty()
    } else {
        field_inits_reports(s.drop_last()) + field_inits_item_reports(s.last())
    }
}

proof fn lemma_field_inits_prefix(toks: Seq<Token>, s: Seq<ParseResult<CommaWithStructFieldInitExpr>>, k: int)
    requires
        0 <= k <= s.len(),
        all_reportable(toks, field_inits_reports(s)),
    ensures
        all_reportable(toks, field_inits_reports(s.take(k))),
    decreases s.len() - k,
{
    if k < s.len() {
        lemma_field_inits_prefix(toks, s, k + 1);
        assert(s.take(k + 1).drop_last() =~= s.take(k));
        lemma_reportable_split(toks, field_inits_reports(s.take(k)), field_inits_item_reports(s.take(k + 1).last()));
    } else {
        assert(s.take(k) =~= s);
    }
}

/// The reports of an expression after a comma.
pub open spec fn comma_exprs_item_reports(x: ParseResult<CommaWithExpr>) -> Seq<ParseReport>
    decreases x, 1int,
{
    match x {
        Ok(c) => expr_reports(c.item),
        Err(err) => seq![ParseReport::CommaOrItem("تعبير برمجي"@, err)],
    }
}

/// The reports of each of `s`, in order.
pub open spec fn comma_exprs_reports(s: Seq<ParseResult<CommaWithExpr>>) -> Seq<ParseReport>
    decreases s, 1int,
{
    if s.len() == 0 {
        Seq::empty()
    } else {
        comma_exprs_reports(s.drop_last()) + comma_exprs_item_reports(s.last())
    }
}

proof fn lemma_comma_exprs_prefix(toks: Seq<Token>, s: Seq<ParseResult<CommaWithExpr>>, k: int)
    requires
        0 <= k <= s.len(),
        all_reportable(toks, comma_exprs_reports(s)),
    ensures
        all_reportable(toks, comma_exprs_reports(s.take(k))),
    decreases s.len() - k,
{
    if k < s.len() {
        lemma_comma_exprs_prefix(toks, s, k + 1);
        assert(s.take(k + 1).drop_last() =~= s.take(k));
        lemma_reportable_split(toks, comma_exprs_reports(s.take(k)), comma_exprs_item_reports(s.take(k + 1).last()));
    } else {
        assert(s.take(k) =~= s);
    }
}

/// The reports of an `else if` clause.
pub open spec fn else_ifs_item_reports(x: ElseIfClause) -> Seq<ParseReport>
    decreases x, 1int,
{
    cond_reports(
        x.conditional_block,
        "تعبير برمجي (شرط `وإلا لو`)"@,
        "محتوى `وإلا لو`"@,
    )
}

/// The reports of each of `s`, in order.
pub open spec fn else_ifs_reports(s: Seq<ElseIfClause>) -> Seq<ParseReport>
    decreases s, 1int,
{
    if s.len() == 0 {
        Seq::empty()
    } else {
        else_ifs_reports(s.drop_last()) + else_ifs_item_reports(s.last())
    }
}

proof fn lemma_else_ifs_prefix(toks: Seq<Token>, s: Seq<ElseIfClause>, k: int)
    requires
        0 <= k <= s.len(),
        all_reportable(toks, else_ifs_reports(s)),
    ensures
        all_reportable(toks, else_ifs_reports(s.take(k))),
    decreases s.len() - k,
{
    if k < s.len() {
        lemma_else_ifs_prefix(toks, s, k + 1);
        assert(s.take(k + 1).drop_last() =~= s.take(k));
        lemma_reportable_split(toks, else_ifs_reports(s.take(k)), else_ifs_item_reports(s.take(k + 1).last()));
    } else {
        assert(s.take(k) =~= s);
    }
}

/// The reports of a lambda parameter after a comma.
pub open spec fn comma_bindings_item_reports(x: CommaWithBinding) -> Seq<ParseReport>
    decreases x, 1int,
{
    binding_reports(x.item)
}

/// The reports of each of `s`, in order.
pub open spec fn comma_bindings_reports(s: Seq<CommaWithBinding>) -> Seq<ParseReport>
    decreases s, 1int,
{
    if s.len() == 0 {
        Seq::empty()
    } else {
        comma_bindings_reports(s.drop_last()) + comma_bindings_item_reports(s.last())
    }
}

proof fn lemma_comma_bindings_prefix(toks: Seq<Token>, s: Seq<CommaWithBinding>, k: int)
    requires
        0 <= k <= s.len(),
        all_reportable(toks, comma_bindings_reports(s)),
    ensures
        all_reportable(toks, comma_bindings_reports(s.take(k))),
    decreases s.len() - k,
{
    if k < s.len() {
        lemma_comma_bindings_prefix(toks, s, k + 1);
        assert(s.take(k + 1).drop_last() =~= s.take(k));
        lemma_reportable_split(toks, comma_bindings_reports(s.take(k)), comma_bindings_item_reports(s.take(k + 1).last()));
    } else {
        assert(s.take(k) =~= s);
    }
}

/// The reports of a statement.
pub open spec fn stms_item_reports(x: ParseResult<Stm>) -> Seq<ParseReport>
    decreases x, 1int,
{
    match x {
        Ok(stm) => stm_reports(stm),
        Err(err) => seq![ParseReport::Expected("جملة برمجية"@, err)],
    }
}

/// The reports of each of `s`, in order.
pub open spec fn stms_reports(s: Seq<ParseResult<Stm>>) -> Seq<ParseReport>
    decreases s, 1int,
{
    if s.len() == 0 {
        Seq::empty()
    } else {
        stms_reports(s.drop_last()) + stms_item_reports(s.last())
    }
}

proof fn lemma_stms_prefix(toks: Seq<Token>, s: Seq<ParseResult<Stm>>, k: int)
    requires
        0 <= k <= s.len(),
        all_reportable(toks, stms_reports(s)),
    ensures
        all_reportable(toks, stms_reports(s.take(k))),
    decreases s.len() - k,
{
    if k < s.len() {
        lemma_stms_prefix(toks, s, k + 1);
        assert(s.take(k + 1).drop_last() =~= s.take(k));
        lemma_reportable_split(toks, stms_reports(s.take(k)), stms_item_reports(s.take(k + 1).last()));
    } else {
        assert(s.take(k) =~= s);
    }
}

/// The reports of a destructured name after a comma.
pub open spec fn comma_binding_kinds_item_reports(x: ParseResult<CommaWithBindingKind>) -> Seq<ParseReport>
    decreases x, 1int,
{
    match x {
        Ok(c) => binding_kind_reports(c.item),
        Err(err) => seq![ParseReport::CommaOrItem("مُعرِّف"@, err)],
    }
}

/// The reports of each of `s`, in order.
pub open spec fn comma_binding_kinds_reports(s: Seq<ParseResult<CommaWithBindingKind>>) -> Seq<ParseReport>
    decreases s, 1int,
{
    if s.len() == 0 {
        Seq::empty()
    } else {
        comma_binding_kinds_reports(s.drop_last()) + comma_binding_kinds_item_reports(s.last())
    }
}

proof fn lemma_comma_binding_kinds_prefix(toks: Seq<Token>, s: Seq<ParseResult<CommaWithBindingKind>>, k: int)
    requires
        0 <= k <= s.len(),
        all_reportable(toks, comma_binding_kinds_reports(s)),
    ensures
        all_reportable(toks, comma_binding_kinds_reports(s.take(k))),
    decreases s.len() - k,
{
    if k < s.len() {
        lemma_comma_binding_kinds_prefix(toks, s, k + 1);
        assert(s.take(k + 1).drop_last() =~= s.take(k));
        lemma_reportable_split(toks, comma_binding_kinds_reports(s.take(k)), comma_binding_kinds_item_reports(s.take(k + 1).last()));
    } else {
        assert(s.take(k) =~= s);
    }
}

/// The reports of a field after a comma.
pub open spec fn struct_fields_item_reports(x: ParseResult<CommaWithStructField>) -> Seq<ParseReport>
    decreases x, 1int,
{
    match x {
        Ok(c) => field_type_reports(c.item.typ),
        Err(err) => seq![ParseReport::CommaOrItem("حقل"@, err)],
    }
}

/// The reports of each of `s`, in order.
pub open spec fn struct_fields_reports(s: Seq<ParseResult<CommaWithStructField>>) -> Seq<ParseReport>
    decreases s, 1int,
{
    if s.len() == 0 {
        Seq::empty()
    } else {
        struct_fields_reports(s.drop_last()) + struct_fields_item_reports(s.last())
    }
}

proof fn lemma_struct_fields_prefix(toks: Seq<Token>, s: Seq<ParseResult<CommaWithStructField>>, k: int)
    requires
        0 <= k <= s.len(),
        all_reportable(toks, struct_fields_reports(s)),
    ensures
        all_reportable(toks, struct_fields_reports(s.take(k))),
    decreases s.len() - k,
{
    if k < s.len() {
        lemma_struct_fields_prefix(toks, s, k + 1);
        assert(s.take(k + 1).drop_last() =~= s.take(k));
        lemma_reportable_split(toks, struct_fields_reports(s.take(k)), struct_fields_item_reports(s.take(k + 1).last()));
    } else {
        assert(s.take(k) =~= s);
    }
}

/// The reports of a function parameter after a comma.
pub open spec fn fn_params_item_reports(x: ParseResult<CommaWithFnParam>) -> Seq<ParseReport>
    decreases x, 1int,
{
    match x {
        Ok(c) => match c.item.typ {
            Ok(ct) => type_result_reports(ct.typ),
            Err(err) => seq![ParseReport::Expected("نوع لمُعامِل الدالة"@, err)],
        },
        Err(err) => seq![ParseReport::CommaOrItem("مُعامِل دالة"@, err)],
    }
}

/// The reports of each of `s`, in order.
pub open spec fn fn_params_reports(s: Seq<ParseResult<CommaWithFnParam>>) -> Seq<ParseReport>
    decreases s, 1int,
{
    if s.len() == 0 {
        Seq::empty()
    } else {
        fn_params_reports(s.drop_last()) + fn_params_item_reports(s.last())
    }
}

proof fn lemma_fn_params_prefix(toks: Seq<Token>, s: Seq<ParseResult<CommaWithFnParam>>, k: int)
    requires
        0 <= k <= s.len(),
        all_reportable(toks, fn_params_reports(s)),
    ensures
        all_reportable(toks, fn_params_reports(s.take(k))),
    decreases s.len() - k,
{
    if k < s.len() {
        lemma_fn_params_prefix(toks, s, k + 1);
        assert(s.take(k + 1).drop_last() =~= s.take(k));
        lemma_reportable_split(toks, fn_params_reports(s.take(k)), fn_params_item_reports(s.take(k + 1).last()));
    } else {
        assert(s.take(k) =~= s);
    }
}

/// The reports of an item of a file.
pub open spec fn file_items_item_reports(x: ParseResult<FileItem>) -> Seq<ParseReport>
    decreases x, 1int,
{
    file_item_reports(x)
}

/// The reports of each of `s`, in order.
pub open spec fn file_items_reports(s: Seq<ParseResult<FileItem>>) -> Seq<ParseReport>
    decreases s, 1int,
{
    if s.len() == 0 {
        Seq::empty()
    } else {
        file_items_reports(s.drop_last()) + file_items_item_reports(s.last())
    }
}

proof fn lemma_file_items_prefix(toks: Seq<Token>, s: Seq<ParseResult<FileItem>>, k: int)
    requires
        0 <= k <= s.len(),
        all_reportable(toks, file_items_reports(s)),
    ensures
        all_reportable(toks, file_items_reports(s.take(k))),
    decreases s.len() - k,
{
    if k < s.len() {
        lemma_file_items_prefix(toks, s, k + 1);
        assert(s.take(k + 1).drop_last() =~= s.take(k));
        lemma_reportable_split(toks, file_items_reports(s.take(k)), file_items_item_reports(s.take(k + 1).last()));
    } else {
        assert(s.take(k) =~= s);
    }
}

/// The reports of the type of a field, after `:`.
pub open spec fn field_type_reports(t: ParseResult<ColonWithType>) -> Seq<ParseReport> {
    match t {
        Ok(c) => type_result_reports(c.typ),
        Err(err) => seq![ParseReport::Expected("`:` ثم نوع الحقل"@, err)],
    }
}

/// The reports of a structure: one report when it has neither a name nor a declaration;
/// otherwise a missing name, then its declaration.
pub open spec fn struct_reports(s: Struct) -> Seq<ParseReport> {
    if s.name is Err && s.kind is Err {
        seq![ParseReport::Message("لم يتم تعريف التصنيف"@, s.struct_keyword.span, ""@)]
    } else {
        (if s.name is Err {
            seq![ParseReport::Message("يجب إعطاء اسم للتصنيف"@, s.struct_keyword.span, ""@)]
        } else {
            Seq::empty()
        }) + match s.kind {
            Err(err) => seq![ParseReport::Expected("بعد التصنيف `؛` أو `{` أو `(`"@, err)],
            Ok(StructKind::Unit(_)) => Seq::empty(),
            Ok(StructKind::Tuple(t)) => tuple_type_reports(t),
            Ok(StructKind::Fields(f)) => (match f.items {
                Some(p) => (match p.first_item {
                    Ok(field) => field_type_reports(field.typ),
                    Err(err) => seq![ParseReport::Expected("حقل"@, err)],
                }) + struct_fields_reports(p.rest_items@),
                None => Seq::empty(),
            }) + unclosed_if(f.close_delim is Err, f.open_delim.span),
        }
    }
}

/// The reports of the parameters of a function.
pub open spec fn fn_params_decl_reports(fp: FnParams) -> Seq<ParseReport> {
    (match fp.items {
        Some(p) => (match p.first_item {
            Ok(prm) => match prm.typ {
                Ok(ct) => type_result_reports(ct.typ),
                Err(err) => seq![ParseReport::Expected("`:` ثم نوع مُعامِل الدالة"@, err)],
            },
            Err(err) => seq![ParseReport::Expected("مُعامِل دالة"@, err)],
        }) + fn_params_reports(p.rest_items@),
        None => Seq::empty(),
    }) + unclosed_if(fp.close_delim is Err, fp.open_delim.span)
}

/// The reports of a function: one report when it has none of its parts; otherwise a missing
/// name, its parameters (missing ones only when it has a name), its return type, and its
/// body (a missing one only when it has parameters or a return type).
pub open spec fn fn_reports(f: Fn) -> Seq<ParseReport> {
    let missing_name = f.name is Err;
    let missing_params = f.params_decl is Err;
    let no_return_type = f.return_type is None;
    let missing_body = f.body is Err;
    if missing_name && missing_params && no_return_type && missing_body {
        seq![ParseReport::Message("لم يتم تعريف الدالة"@, f.fn_keyword.span, ""@)]
    } else {
        (if missing_name {
            seq![ParseReport::Message("يجب إعطاء اسم للدالة"@, f.fn_keyword.span, ""@)]
        } else {
            Seq::empty()
        }) + (match f.params_decl {
            Ok(fp) => fn_params_decl_reports(fp),
            Err(err) => if !missing_name {
                seq![ParseReport::Expected("مُعامِلات الدالة"@, err)]
            } else {
                Seq::empty()
            },
        }) + (match f.return_type {
            Some(ct) => type_result_reports(ct.typ),
            None => Seq::empty(),
        }) + match f.body {
            Ok(b) => non_lambda_reports(b),
            Err(err) => if !missing_params || !no_return_type {
                seq![ParseReport::Expected("محتوى الدالة"@, err)]
            } else {
                Seq::empty()
            },
        }
    }
}

pub open spec fn item_reports(it: Item) -> Seq<ParseReport> {
    match it {
        Item::Struct(s) => struct_reports(s),
        Item::Fn(f) => fn_reports(f),
    }
}

/// The reports of an item of a file: a missing item, or an item missing after a visibility
/// keyword, or the item's own.
pub open spec fn file_item_reports(r: ParseResult<FileItem>) -> Seq<ParseReport> {
    match r {
        Err(err) => seq![ParseReport::Expected("عنصر ملف (دالة أو تصنيف)"@, err)],
        Ok(FileItem::WithVisModifier(iv)) => match iv.item {
            Ok(it) => item_reports(it),
            Err(_) => seq![
                ParseReport::Message(
                    "يُتوقع عنصر ملف (دالة أو تصنيف) بعد مُعامِل الوصول"@,
                    iv.visibility.span,
                    "مُعامِل الوصول"@,
                ),
            ],
        },
        Ok(FileItem::WithoutModifier(it)) => item_reports(it),
    }
}


broadcast use lemma_reports_appended_trans;

/// The two reporters are on the same file and its tokens.
pub open spec fn same_file<'a>(a: ParseErrorsReporter<'a>, b: ParseErrorsReporter<'a>) -> bool {
    &&& a.tokens() == b.tokens()
    &&& a.file_path() == b.file_path()
    &&& a.file_lines() == b.file_lines()
}

/// The empty list of secondary marks.
fn no_secondaries() -> (r: Vec<(Span, Vec<String>)>)
    ensures
        secondaries_view(r@) == Seq::<(Span, Seq<Seq<char>>)>::empty(),
{
    let r: Vec<(Span, Vec<String>)> = Vec::new();
    assert(secondaries_view(r@) =~= Seq::<(Span, Seq<Seq<char>>)>::empty());
    r
}

impl<'a> ParseErrorsReporter<'a> {
    fn push_expected(&mut self, expected: &str, err: &ParseErr)
        requires
            all_reportable(old(self).tokens(), seq![ParseReport::Expected(expected@, *err)]),
        ensures
            same_file(*old(self), *final(self)),
            reports_appended(
                old(self).diagnostics(),
                final(self).diagnostics(),
                old(self).tokens(),
                seq![ParseReport::Expected(expected@, *err)],
            ),
    {
        proof {
            assert(reportable(self.tokens(), seq![ParseReport::Expected(expected@, *err)][0]));
        }
        self.report_expected(expected, err, no_secondaries());
    }

    fn push_comma_or_item(&mut self, expected: &str, err: &ParseErr)
        requires
            all_reportable(old(self).tokens(), seq![ParseReport::CommaOrItem(expected@, *err)]),
        ensures
            same_file(*old(self), *final(self)),
            reports_appended(
                old(self).diagnostics(),
                final(self).diagnostics(),
                old(self).tokens(),
                seq![ParseReport::CommaOrItem(expected@, *err)],
            ),
    {
        proof {
            assert(reportable(self.tokens(), seq![ParseReport::CommaOrItem(expected@, *err)][0]));
        }
        self.report_expected_comma_or_item(expected, err, no_secondaries());
    }

    fn push_message(&mut self, msg: String, span: Span, label: String)
        ensures
            same_file(*old(self), *final(self)),
            reports_appended(
                old(self).diagnostics(),
                final(self).diagnostics(),
                old(self).tokens(),
                seq![ParseReport::Message(msg@, span, label@)],
            ),
    {
        self.report(msg, span, label, no_secondaries());
    }

    /// Reports the opening delimiter at `span` as unclosed, when `unclosed` holds.
    fn check_unclosed(&mut self, unclosed: bool, span: Span)
        ensures
            same_file(*old(self), *final(self)),
            reports_appended(
                old(self).diagnostics(),
                final(self).diagnostics(),
                old(self).tokens(),
                unclosed_if(unclosed, span),
            ),
    {
        if unclosed {
            self.report_unclosed_delimiter(span);
        } else {
            proof {
                lemma_reports_appended_none(self.diagnostics(), self.tokens());
            }
        }
    }

    fn check_semicolon(&mut self, semicolon: &ParseResult<SemicolonSymbol>)
        requires
            all_reportable(old(self).tokens(), semicolon_reports(*semicolon)),
        ensures
            same_file(*old(self), *final(self)),
            reports_appended(
                old(self).diagnostics(),
                final(self).diagnostics(),
                old(self).tokens(),
                semicolon_reports(*semicolon),
            ),
    {
        proof {
            if semicolon is Err {
                assert(reportable(self.tokens(), semicolon_reports(*semicolon)[0]));
            }
        }
        self.check_semicolon_result(semicolon);
        proof {
            if semicolon is Ok {
                lemma_reports_appended_none(self.diagnostics(), self.tokens());
            }
        }
    }
    fn check_simple_path(&mut self, p: &SimplePath)
        requires
            all_reportable(old(self).tokens(), path_reports(*p)),
        ensures
            same_file(*old(self), *final(self)),
            reports_appended(
                old(self).diagnostics(),
                final(self).diagnostics(),
                old(self).tokens(),
                path_reports(*p),
            ),
        decreases p, 1int,
    {
        self.check_path_inners(&p.inners);
    }

    fn check_type_result(&mut self, t: &ParseResult<Type>)
        requires
            all_reportable(old(self).tokens(), type_result_reports(*t)),
        ensures
            same_file(*old(self), *final(self)),
            reports_appended(
                old(self).diagnostics(),
                final(self).diagnostics(),
                old(self).tokens(),
                type_result_reports(*t),
            ),
        decreases t, 1int,
    {
        match t {
            Ok(typ) => self.check_type(typ),
            Err(e) => self.push_expected("نوع", e),
        }
    }

    fn check_type(&mut self, t: &Type)
        requires
            all_reportable(old(self).tokens(), type_reports(*t)),
        ensures
            same_file(*old(self), *final(self)),
            reports_appended(
                old(self).diagnostics(),
                final(self).diagnostics(),
                old(self).tokens(),
                type_reports(*t),
            ),
        decreases t, 1int,
    {
        let ghost toks = self.tokens();
        match t {
            Type::Path(p) => self.check_simple_path(p),
            Type::Ptr(p) => self.check_type_result(&p.typ),
            Type::Ref(r) => self.check_type_result(&r.typ),
            Type::Slice(s) => {
                let ghost a = type_result_reports(s.typ);
                let ghost b = match &s.array_size {
                    Some(x) => expr_result_reports(x.expr),
                    None => Seq::<ParseReport>::empty(),
                };
                proof {
                    lemma_reportable_split(toks, a + b, unclosed_if(s.close_bracket is Err, s.open_bracket.span));
                    lemma_reportable_split(toks, a, b);
                }
                self.check_type_result(&s.typ);
                match &s.array_size {
                    Some(x) => self.check_expr_result(&x.expr),
                    None => proof {
                        lemma_reports_appended_none(self.diagnostics(), toks);
                    },
                }
                self.check_unclosed(s.close_bracket.is_err(), s.open_bracket.span);
            },
            Type::Paren(p) => {
                let ghost b = match &p.lambda {
                    Some(l) => type_result_reports(l.typ),
                    None => Seq::<ParseReport>::empty(),
                };
                proof {
                    lemma_reportable_split(toks, tuple_type_reports(p.tuple), b);
                }
                self.check_tuple_type(&p.tuple);
                match &p.lambda {
                    Some(l) => self.check_type_result(&l.typ),
                    None => proof {
                        lemma_reports_appended_none(self.diagnostics(), toks);
                    },
                }
            },
        }
    }

    fn check_tuple_type(&mut self, t: &TupleType)
        requires
            all_reportable(old(self).tokens(), tuple_type_reports(*t)),
        ensures
            same_file(*old(self), *final(self)),
            reports_appended(
                old(self).diagnostics(),
                final(self).diagnostics(),
                old(self).tokens(),
                tuple_type_reports(*t),
            ),
        decreases t, 1int,
    {
        let ghost toks = self.tokens();
        let ghost a = match &t.items {
            Some(p) => type_result_reports(p.first_item) + comma_types_reports(p.rest_items@),
            None => Seq::<ParseReport>::empty(),
        };
        proof {
            lemma_reportable_split(toks, a, unclosed_if(t.close_delim is Err, t.open_delim.span));
        }
        match &t.items {
            Some(p) => {
                proof {
                    lemma_reportable_split(toks, type_result_reports(p.first_item), comma_types_reports(p.rest_items@));
                }
                self.check_type_result(&p.first_item);
                self.check_comma_types(&p.rest_items);
            },
            None => proof {
                lemma_reports_appended_none(self.diagnostics(), toks);
            },
        }
        self.check_unclosed(t.close_delim.is_err(), t.open_delim.span);
    }

    fn check_expr_result(&mut self, e: &ParseResult<Expr>)
        requires
            all_reportable(old(self).tokens(), expr_result_reports(*e)),
        ensures
            same_file(*old(self), *final(self)),
            reports_appended(
                old(self).diagnostics(),
                final(self).diagnostics(),
                old(self).tokens(),
                expr_result_reports(*e),
            ),
        decreases e, 1int,
    {
        match e {
            Ok(x) => self.check_expr(x),
            Err(err) => self.push_expected("تعبير برمجي", err),
        }
    }

    fn check_expr(&mut self, e: &Expr)
        requires
            all_reportable(old(self).tokens(), expr_reports(*e)),
        ensures
            same_file(*old(self), *final(self)),
            reports_appended(
                old(self).diagnostics(),
                final(self).diagnostics(),
                old(self).tokens(),
                expr_reports(*e),
            ),
        decreases e, 1int,
    {
        proof {
            lemma_reportable_split(self.tokens(), primary_reports(*e.left), bins_reports(e.bin@));
        }
        self.check_primary_expr(&e.left);
        self.check_bins(&e.bin);
    }

    fn check_primary_expr(&mut self, p: &PrimaryExpr)
        requires
            all_reportable(old(self).tokens(), primary_reports(*p)),
        ensures
            same_file(*old(self), *final(self)),
            reports_appended(
                old(self).diagnostics(),
                final(self).diagnostics(),
                old(self).tokens(),
                primary_reports(*p),
            ),
        decreases p, 1int,
    {
        let ghost toks = self.tokens();
        let ghost a = match &p.kind {
            PrimaryExprKind::Unary(u) => match &u.expr {
                Ok(x) => atomic_reports(*x),
                Err(err) => seq![ParseReport::Expected("تعبير برمجي"@, *err)],
            },
            PrimaryExprKind::Atomic(x) => atomic_reports(*x),
        };
        proof {
            lemma_reportable_split(toks, a + post_ops_reports(p.post_ops@), inner_access_reports(p.inner_access@));
            lemma_reportable_split(toks, a, post_ops_reports(p.post_ops@));
        }
        match &p.kind {
            PrimaryExprKind::Unary(u) => match &u.expr {
                Ok(x) => self.check_atomic_expr(x),
                Err(err) => self.push_expected("تعبير برمجي", err),
            },
            PrimaryExprKind::Atomic(x) => self.check_atomic_expr(x),
        }
        self.check_post_ops(&p.post_ops);
        self.check_inner_access(&p.inner_access);
    }

    fn check_field_init(&mut self, r: &ParseResult<StructFieldInitExpr>)
        requires
            all_reportable(old(self).tokens(), field_init_reports(*r)),
        ensures
            same_file(*old(self), *final(self)),
            reports_appended(
                old(self).diagnostics(),
                final(self).diagnostics(),
                old(self).tokens(),
                field_init_reports(*r),
            ),
        decreases r, 1int,
    {
        match r {
            Ok(n) => match &n.expr {
                Some(x) => self.check_expr_result(&x.expr),
                None => proof {
                    lemma_reports_appended_none(self.diagnostics(), self.tokens());
                },
            },
            Err(err) => self.push_expected("مُعرِّف", err),
        }
    }

    /// Checks the atom of an expression.
    pub fn check_atomic_expr(&mut self, a: &AtomicExpr)
        requires
            all_reportable(old(self).tokens(), atomic_reports(*a)),
        ensures
            same_file(*old(self), *final(self)),
            reports_appended(
                old(self).diagnostics(),
                final(self).diagnostics(),
                old(self).tokens(),
                atomic_reports(*a),
            ),
        decreases a, 1int,
    {
        let ghost toks = self.tokens();
        match a {
            AtomicExpr::Literal(_) | AtomicExpr::On(_) | AtomicExpr::Continue(_) => proof {
                lemma_reports_appended_none(self.diagnostics(), toks);
            },
            AtomicExpr::Paren(pe) => self.check_paren_expr(pe),
            AtomicExpr::Path(p) => self.check_simple_path(p),
            AtomicExpr::WithBlock(w) => self.check_expr_with_block(w),
            AtomicExpr::Lambda(l) => self.check_lambda_expr(l),
            AtomicExpr::Break(b) => match &b.expr {
                Some(x) => self.check_expr(x),
                None => proof {
                    lemma_reports_appended_none(self.diagnostics(), toks);
                },
            },
            AtomicExpr::Return(r) => match &r.expr {
                Some(x) => self.check_expr(x),
                None => proof {
                    lemma_reports_appended_none(self.diagnostics(), toks);
                },
            },
            AtomicExpr::Array(arr) => {
                let ghost u = unclosed_if(arr.close_bracket is Err, arr.open_bracket.span);
                let ghost b = match &arr.expr_kind {
                    Some(ArrayExprKind::ExplicitSize(x)) => expr_result_reports(x.repeated_expr)
                        + expr_result_reports(x.size_expr),
                    Some(ArrayExprKind::Elements(el)) => expr_result_reports(el.first)
                        + comma_exprs_reports(el.rest@),
                    None => Seq::<ParseReport>::empty(),
                };
                proof {
                    lemma_reportable_split(toks, u, b);
                }
                self.check_unclosed(arr.close_bracket.is_err(), arr.open_bracket.span);
                let ghost d1 = self.diagnostics();
                match &arr.expr_kind {
                    Some(ArrayExprKind::ExplicitSize(x)) => {
                        proof {
                            lemma_reportable_split(toks, expr_result_reports(x.repeated_expr), expr_result_reports(x.size_expr));
                        }
                        self.check_expr_result(&x.repeated_expr);
                        self.check_expr_result(&x.size_expr);
                    },
                    Some(ArrayExprKind::Elements(el)) => {
                        proof {
                            lemma_reportable_split(toks, expr_result_reports(el.first), comma_exprs_reports(el.rest@));
                        }
                        self.check_expr_result(&el.first);
                        self.check_comma_exprs(&el.rest);
                    },
                    None => proof {
                        lemma_reports_appended_none(self.diagnostics(), toks);
                    },
                }
                proof {
                    assert(reports_appended(d1, self.diagnostics(), toks, b));
                }
            },
            AtomicExpr::Struct(se) => {
                let ghost a1 = match &se.path {
                    Ok(p) => path_reports(*p),
                    Err(err) => seq![ParseReport::Expected("اسم تصنيف أو مساره"@, *err)],
                };
                let ghost b = match &se.init {
                    Some(StructInit::Fields(f)) => unclosed_if(f.close_delim is Err, f.open_delim.span)
                        + match &f.items {
                        Some(p) => field_init_reports(p.first_item) + field_inits_reports(
                            p.rest_items@,
                        ),
                        None => Seq::empty(),
                    },
                    Some(StructInit::Tuple(pe)) => paren_reports(*pe),
                    None => Seq::empty(),
                };
                proof {
                    lemma_reportable_split(toks, a1, b);
                }
                match &se.path {
                    Ok(p) => self.check_simple_path(p),
                    Err(err) => self.push_expected("اسم تصنيف أو مساره", err),
                }
                let ghost d1 = self.diagnostics();
                match &se.init {
                    Some(StructInit::Fields(f)) => {
                        let ghost c = match &f.items {
                            Some(p) => field_init_reports(p.first_item) + field_inits_reports(
                                p.rest_items@,
                            ),
                            None => Seq::<ParseReport>::empty(),
                        };
                        proof {
                            lemma_reportable_split(toks, unclosed_if(f.close_delim is Err, f.open_delim.span), c);
                        }
                        self.check_unclosed(f.close_delim.is_err(), f.open_delim.span);
                        let ghost d2 = self.diagnostics();
                        match &f.items {
                            Some(p) => {
                                proof {
                                    lemma_reportable_split(toks, field_init_reports(p.first_item), field_inits_reports(p.rest_items@));
                                }
                                self.check_field_init(&p.first_item);
                                self.check_field_inits(&p.rest_items);
                            },
                            None => proof {
                                lemma_reports_appended_none(self.diagnostics(), toks);
                            },
                        }
                        proof {
                            assert(reports_appended(d2, self.diagnostics(), toks, c));
                        }
                    },
                    Some(StructInit::Tuple(pe)) => self.check_paren_expr(pe),
                    None => proof {
                        lemma_reports_appended_none(self.diagnostics(), toks);
                    },
                }
                proof {
                    assert(reports_appended(d1, self.diagnostics(), toks, b));
                }
            },
        }
    }

    fn check_paren_expr(&mut self, pe: &ParenExpr)
        requires
            all_reportable(old(self).tokens(), paren_reports(*pe)),
        ensures
            same_file(*old(self), *final(self)),
            reports_appended(
                old(self).diagnostics(),
                final(self).diagnostics(),
                old(self).tokens(),
                paren_reports(*pe),
            ),
        decreases pe, 1int,
    {
        let ghost toks = self.tokens();
        let ghost a = match &pe.items {
            Some(p) => expr_result_reports(p.first_item) + comma_exprs_reports(p.rest_items@),
            None => Seq::<ParseReport>::empty(),
        };
        proof {
            lemma_reportable_split(toks, a, unclosed_if(pe.close_delim is Err, pe.open_delim.span));
        }
        match &pe.items {
            Some(p) => {
                proof {
                    lemma_reportable_split(toks, expr_result_reports(p.first_item), comma_exprs_reports(p.rest_items@));
                }
                self.check_expr_result(&p.first_item);
                self.check_comma_exprs(&p.rest_items);
            },
            None => proof {
                lemma_reports_appended_none(self.diagnostics(), toks);
            },
        }
        self.check_unclosed(pe.close_delim.is_err(), pe.open_delim.span);
    }

    fn check_block_result(&mut self, b: &ParseResult<LambdaExpr>, missing: &str)
        requires
            all_reportable(old(self).tokens(), block_result_reports(*b, missing@)),
        ensures
            same_file(*old(self), *final(self)),
            reports_appended(
                old(self).diagnostics(),
                final(self).diagnostics(),
                old(self).tokens(),
                block_result_reports(*b, missing@),
            ),
        decreases b, 1int,
    {
        match b {
            Ok(l) => self.check_non_lambda_expr(l),
            Err(err) => self.push_expected(missing, err),
        }
    }

    fn check_cond(&mut self, cb: &ConditionalBlock, missing_cond: &str, missing_block: &str)
        requires
            all_reportable(old(self).tokens(), cond_reports(*cb, missing_cond@, missing_block@)),
        ensures
            same_file(*old(self), *final(self)),
            reports_appended(
                old(self).diagnostics(),
                final(self).diagnostics(),
                old(self).tokens(),
                cond_reports(*cb, missing_cond@, missing_block@),
            ),
        decreases cb, 1int,
    {
        let ghost a = match &cb.condition {
            Ok(_) => Seq::<ParseReport>::empty(),
            Err(err) => seq![ParseReport::Expected(missing_cond@, *err)],
        };
        proof {
            lemma_reportable_split(self.tokens(), a, block_result_reports(cb.block, missing_block@));
        }
        match &cb.condition {
            Ok(_) => proof {
                lemma_reports_appended_none(self.diagnostics(), self.tokens());
            },
            Err(err) => self.push_expected(missing_cond, err),
        }
        self.check_block_result(&cb.block, missing_block);
    }

    fn check_expr_with_block(&mut self, w: &ExprWithBlock)
        requires
            all_reportable(old(self).tokens(), with_block_reports(*w)),
        ensures
            same_file(*old(self), *final(self)),
            reports_appended(
                old(self).diagnostics(),
                final(self).diagnostics(),
                old(self).tokens(),
                with_block_reports(*w),
            ),
        decreases w, 1int,
    {
        let ghost toks = self.tokens();
        match w {
            ExprWithBlock::If(i) => {
                let ghost a = cond_reports(
                    i.conditional_block,
                    "تعبير برمجي (شرط `لو`)"@,
                    "محتوى `لو`"@,
                );
                let ghost c = match &i.else_cluase {
                    Some(e) => block_result_reports(e.block, "محتوى `وإلا`"@),
                    None => Seq::<ParseReport>::empty(),
                };
                proof {
                    lemma_reportable_split(toks, a + else_ifs_reports(i.else_ifs@), c);
                    lemma_reportable_split(toks, a, else_ifs_reports(i.else_ifs@));
                }
                self.check_cond(&i.conditional_block, "تعبير برمجي (شرط `لو`)", "محتوى `لو`");
                self.check_else_ifs(&i.else_ifs);
                match &i.else_cluase {
                    Some(e) => self.check_block_result(&e.block, "محتوى `وإلا`"),
                    None => proof {
                        lemma_reports_appended_none(self.diagnostics(), toks);
                    },
                }
            },
            ExprWithBlock::While(wh) => self.check_cond(
                &wh.conditional_block,
                "تعبير برمجي (شرط `طالما`)",
                "محتوى `طالما`",
            ),
            ExprWithBlock::Loop(l) => self.check_block_result(&l.block, "محتوى `تكرار`"),
            ExprWithBlock::Run(r) => self.check_block_result(&r.block, "محتوى `تشغيل`"),
            ExprWithBlock::When(_) | ExprWithBlock::DoWhile(_) => {
                proof {
                    assert(reportable(toks, with_block_reports(*w)[0]));
                }
            },
        }
    }

    fn check_non_lambda_expr(&mut self, l: &LambdaExpr)
        requires
            all_reportable(old(self).tokens(), non_lambda_reports(*l)),
        ensures
            same_file(*old(self), *final(self)),
            reports_appended(
                old(self).diagnostics(),
                final(self).diagnostics(),
                old(self).tokens(),
                non_lambda_reports(*l),
            ),
        decreases l, 1int,
    {
        let ghost toks = self.tokens();
        let ghost a = match &l.lambda_arrow {
            Some(arrow) => match lambda_arrow_span(*arrow) {
                Some(sp) => seq![
                    ParseReport::Message(
                        "يُتوقع محتوى غير لامدا"@,
                        sp,
                        "تم العثور على تعبير لامدا"@,
                    ),
                ],
                None => seq![ParseReport::Unsupported],
            },
            None => Seq::<ParseReport>::empty(),
        };
        proof {
            lemma_reportable_split(toks, a, block_reports(*l));
        }
        match &l.lambda_arrow {
            Some(arrow) => {
                let span = arrow.span();
                match span {
                    Some(sp) => self.push_message(
                        String::from_str("يُتوقع محتوى غير لامدا"),
                        sp,
                        String::from_str("تم العثور على تعبير لامدا"),
                    ),
                    None => {
                        proof {
                            assert(reportable(toks, a[0]));
                        }
                    },
                }
            },
            None => proof {
                lemma_reports_appended_none(self.diagnostics(), toks);
            },
        }
        self.check_block(l);
    }

    fn check_lambda_expr(&mut self, l: &LambdaExpr)
        requires
            all_reportable(old(self).tokens(), lambda_reports(*l)),
        ensures
            same_file(*old(self), *final(self)),
            reports_appended(
                old(self).diagnostics(),
                final(self).diagnostics(),
                old(self).tokens(),
                lambda_reports(*l),
            ),
        decreases l, 1int,
    {
        let ghost toks = self.tokens();
        let ghost a = match &l.lambda_arrow {
            Some(LambdaArrow::WithParams(p)) => binding_reports(p.first) + comma_bindings_reports(
                p.rest@,
            ) + match &p.r_arrow {
                Ok(_) => Seq::<ParseReport>::empty(),
                Err(err) => seq![ParseReport::Expected("`->`"@, *err)],
            },
            _ => Seq::<ParseReport>::empty(),
        };
        proof {
            lemma_reportable_split(toks, a, block_reports(*l));
        }
        match &l.lambda_arrow {
            Some(LambdaArrow::WithParams(p)) => {
                let ghost c = match &p.r_arrow {
                    Ok(_) => Seq::<ParseReport>::empty(),
                    Err(err) => seq![ParseReport::Expected("`->`"@, *err)],
                };
                proof {
                    lemma_reportable_split(toks, binding_reports(p.first) + comma_bindings_reports(p.rest@), c);
                    lemma_reportable_split(toks, binding_reports(p.first), comma_bindings_reports(p.rest@));
                }
                self.check_binding(&p.first);
                self.check_comma_bindings(&p.rest);
                match &p.r_arrow {
                    Ok(_) => proof {
                        lemma_reports_appended_none(self.diagnostics(), toks);
                    },
                    Err(err) => self.push_expected("`->`", err),
                }
            },
            _ => proof {
                lemma_reports_appended_none(self.diagnostics(), toks);
            },
        }
        self.check_block(l);
    }

    fn check_block(&mut self, l: &LambdaExpr)
        requires
            all_reportable(old(self).tokens(), block_reports(*l)),
        ensures
            same_file(*old(self), *final(self)),
            reports_appended(
                old(self).diagnostics(),
                final(self).diagnostics(),
                old(self).tokens(),
                block_reports(*l),
            ),
        decreases l, 0int,
    {
        let ghost toks = self.tokens();
        let ghost b = match &l.last_expr {
            Some(e) => expr_reports(*e),
            None => Seq::<ParseReport>::empty(),
        };
        proof {
            lemma_reportable_split(toks, stms_reports(l.stms@) + b, unclosed_if(l.close_curly is Err, l.open_curly.span));
            lemma_reportable_split(toks, stms_reports(l.stms@), b);
        }
        self.check_stms(&l.stms);
        match &l.last_expr {
            Some(e) => self.check_expr(e),
            None => proof {
                lemma_reports_appended_none(self.diagnostics(), toks);
            },
        }
        self.check_unclosed(l.close_curly.is_err(), l.open_curly.span);
    }

    fn check_stm(&mut self, stm: &Stm)
        requires
            all_reportable(old(self).tokens(), stm_reports(*stm)),
        ensures
            same_file(*old(self), *final(self)),
            reports_appended(
                old(self).diagnostics(),
                final(self).diagnostics(),
                old(self).tokens(),
                stm_reports(*stm),
            ),
        decreases stm, 1int,
    {
        let ghost toks = self.tokens();
        match stm {
            Stm::Semicolon(_) => proof {
                lemma_reports_appended_none(self.diagnostics(), toks);
            },
            Stm::Let(ls) => {
                let ghost a = match &ls.binding {
                    Ok(b) => binding_reports(*b),
                    Err(err) => seq![ParseReport::Expected("مُعرِّف"@, *err)],
                };
                let ghost b = match &ls.let_assign {
                    Some(x) => expr_result_reports(x.expr) + if x.expr is Ok {
                        semicolon_reports(ls.semicolon)
                    } else {
                        Seq::empty()
                    },
                    None => semicolon_reports(ls.semicolon),
                };
                proof {
                    lemma_reportable_split(toks, a, b);
                }
                match &ls.binding {
                    Ok(bd) => self.check_binding(bd),
                    Err(err) => self.push_expected("مُعرِّف", err),
                }
                let ghost d1 = self.diagnostics();
                match &ls.let_assign {
                    Some(x) => {
                        let ghost c = if x.expr is Ok {
                            semicolon_reports(ls.semicolon)
                        } else {
                            Seq::<ParseReport>::empty()
                        };
                        proof {
                            lemma_reportable_split(toks, expr_result_reports(x.expr), c);
                        }
                        self.check_expr_result(&x.expr);
                        if x.expr.is_ok() {
                            self.check_semicolon(&ls.semicolon);
                        } else {
                            proof {
                                lemma_reports_appended_none(self.diagnostics(), toks);
                            }
                        }
                    },
                    None => self.check_semicolon(&ls.semicolon),
                }
                proof {
                    assert(reports_appended(d1, self.diagnostics(), toks, b));
                }
            },
            Stm::Expr(ExprStm::WithBlock(w)) => self.check_expr_with_block(&w.expr),
            Stm::Expr(ExprStm::Any(x)) => {
                proof {
                    lemma_reportable_split(toks, expr_reports(x.expr), semicolon_reports(x.semicolon));
                }
                self.check_expr(&x.expr);
                self.check_semicolon(&x.semicolon);
            },
        }
    }

    fn check_binding(&mut self, b: &Binding)
        requires
            all_reportable(old(self).tokens(), binding_reports(*b)),
        ensures
            same_file(*old(self), *final(self)),
            reports_appended(
                old(self).diagnostics(),
                final(self).diagnostics(),
                old(self).tokens(),
                binding_reports(*b),
            ),
        decreases b, 1int,
    {
        let ghost c = match &b.typ {
            Some(ct) => type_result_reports(ct.typ),
            None => Seq::<ParseReport>::empty(),
        };
        proof {
            lemma_reportable_split(self.tokens(), binding_kind_reports(b.kind), c);
        }
        self.check_binding_kind(&b.kind);
        match &b.typ {
            Some(ct) => self.check_type_result(&ct.typ),
            None => proof {
                lemma_reports_appended_none(self.diagnostics(), self.tokens());
            },
        }
    }

    fn check_binding_kind(&mut self, k: &BindingKind)
        requires
            all_reportable(old(self).tokens(), binding_kind_reports(*k)),
        ensures
            same_file(*old(self), *final(self)),
            reports_appended(
                old(self).diagnostics(),
                final(self).diagnostics(),
                old(self).tokens(),
                binding_kind_reports(*k),
            ),
        decreases k, 1int,
    {
        let ghost toks = self.tokens();
        match k {
            BindingKind::Destructed(d) => {
                let ghost a = match &d.items {
                    Some(p) => (match &p.first_item {
                        Ok(k2) => binding_kind_reports(*k2),
                        Err(err) => seq![ParseReport::Expected("مُعرِّف"@, *err)],
                    }) + comma_binding_kinds_reports(p.rest_items@),
                    None => Seq::<ParseReport>::empty(),
                };
                proof {
                    lemma_reportable_split(toks, a, unclosed_if(d.close_delim is Err, d.open_delim.span));
                }
                match &d.items {
                    Some(p) => {
                        let ghost f = match &p.first_item {
                            Ok(k2) => binding_kind_reports(*k2),
                            Err(err) => seq![ParseReport::Expected("مُعرِّف"@, *err)],
                        };
                        proof {
                            lemma_reportable_split(toks, f, comma_binding_kinds_reports(p.rest_items@));
                        }
                        match &p.first_item {
                            Ok(k2) => self.check_binding_kind(k2),
                            Err(err) => self.push_expected("مُعرِّف", err),
                        }
                        self.check_comma_binding_kinds(&p.rest_items);
                    },
                    None => proof {
                        lemma_reports_appended_none(self.diagnostics(), toks);
                    },
                }
                self.check_unclosed(d.close_delim.is_err(), d.open_delim.span);
            },
            _ => proof {
                lemma_reports_appended_none(self.diagnostics(), toks);
            },
        }
    }

    fn check_field_type(&mut self, t: &ParseResult<ColonWithType>)
        requires
            all_reportable(old(self).tokens(), field_type_reports(*t)),
        ensures
            same_file(*old(self), *final(self)),
            reports_appended(
                old(self).diagnostics(),
                final(self).diagnostics(),
                old(self).tokens(),
                field_type_reports(*t),
            ),
        decreases t, 1int,
    {
        match t {
            Ok(c) => self.check_type_result(&c.typ),
            Err(err) => self.push_expected("`:` ثم نوع الحقل", err),
        }
    }

    /// Checks a structure: see `struct_reports`.
    pub fn check_struct(&mut self, s: &Struct)
        requires
            all_reportable(old(self).tokens(), struct_reports(*s)),
        ensures
            same_file(*old(self), *final(self)),
            reports_appended(
                old(self).diagnostics(),
                final(self).diagnostics(),
                old(self).tokens(),
                struct_reports(*s),
            ),
    {
        let ghost toks = self.tokens();
        let missing_name = s.name.is_err();
        let missing_decl = s.kind.is_err();
        if missing_name && missing_decl {
            self.push_message(
                String::from_str("لم يتم تعريف التصنيف"),
                s.struct_keyword.span,
                String::from_str(""),
            );
            return ;
        }
        let ghost a = if s.name is Err {
            seq![ParseReport::Message("يجب إعطاء اسم للتصنيف"@, s.struct_keyword.span, ""@)]
        } else {
            Seq::<ParseReport>::empty()
        };
        let ghost b = match &s.kind {
            Err(err) => seq![ParseReport::Expected("بعد التصنيف `؛` أو `{` أو `(`"@, *err)],
            Ok(StructKind::Unit(_)) => Seq::<ParseReport>::empty(),
            Ok(StructKind::Tuple(t)) => tuple_type_reports(*t),
            Ok(StructKind::Fields(f)) => (match &f.items {
                Some(p) => (match &p.first_item {
                    Ok(field) => field_type_reports(field.typ),
                    Err(err) => seq![ParseReport::Expected("حقل"@, *err)],
                }) + struct_fields_reports(p.rest_items@),
                None => Seq::<ParseReport>::empty(),
            }) + unclosed_if(f.close_delim is Err, f.open_delim.span),
        };
        proof {
            assert(struct_reports(*s) == a + b);
            lemma_reportable_split(toks, a, b);
        }
        if missing_name {
            self.push_message(
                String::from_str("يجب إعطاء اسم للتصنيف"),
                s.struct_keyword.span,
                String::from_str(""),
            );
        } else {
            proof {
                lemma_reports_appended_none(self.diagnostics(), toks);
            }
        }
        let ghost d1 = self.diagnostics();
        match &s.kind {
            Err(err) => self.push_expected("بعد التصنيف `؛` أو `{` أو `(`", err),
            Ok(StructKind::Unit(_)) => proof {
                lemma_reports_appended_none(self.diagnostics(), toks);
            },
            Ok(StructKind::Tuple(t)) => self.check_tuple_type(t),
            Ok(StructKind::Fields(f)) => {
                let ghost c = match &f.items {
                    Some(p) => (match &p.first_item {
                        Ok(field) => field_type_reports(field.typ),
                        Err(err) => seq![ParseReport::Expected("حقل"@, *err)],
                    }) + struct_fields_reports(p.rest_items@),
                    None => Seq::<ParseReport>::empty(),
                };
                proof {
                    lemma_reportable_split(toks, c, unclosed_if(f.close_delim is Err, f.open_delim.span));
                }
                match &f.items {
                    Some(p) => {
                        let ghost g = match &p.first_item {
                            Ok(field) => field_type_reports(field.typ),
                            Err(err) => seq![ParseReport::Expected("حقل"@, *err)],
                        };
                        proof {
                            lemma_reportable_split(toks, g, struct_fields_reports(p.rest_items@));
                        }
                        match &p.first_item {
                            Ok(field) => self.check_field_type(&field.typ),
                            Err(err) => self.push_expected("حقل", err),
                        }
                        self.check_struct_fields(&p.rest_items);
                    },
                    None => proof {
                        lemma_reports_appended_none(self.diagnostics(), toks);
                    },
                }
                self.check_unclosed(f.close_delim.is_err(), f.open_delim.span);
            },
        }
        proof {
            assert(reports_appended(d1, self.diagnostics(), toks, b));
        }
    }

    fn check_fn_params_decl(&mut self, fp: &FnParams)
        requires
            all_reportable(old(self).tokens(), fn_params_decl_reports(*fp)),
        ensures
            same_file(*old(self), *final(self)),
            reports_appended(
                old(self).diagnostics(),
                final(self).diagnostics(),
                old(self).tokens(),
                fn_params_decl_reports(*fp),
            ),
    {
        let ghost toks = self.tokens();
        let ghost a = match &fp.items {
            Some(p) => (match &p.first_item {
                Ok(prm) => match &prm.typ {
                    Ok(ct) => type_result_reports(ct.typ),
                    Err(err) => seq![ParseReport::Expected("`:` ثم نوع مُعامِل الدالة"@, *err)],
                },
                Err(err) => seq![ParseReport::Expected("مُعامِل دالة"@, *err)],
            }) + fn_params_reports(p.rest_items@),
            None => Seq::<ParseReport>::empty(),
        };
        proof {
            lemma_reportable_split(toks, a, unclosed_if(fp.close_delim is Err, fp.open_delim.span));
        }
        match &fp.items {
            Some(p) => {
                let ghost f = match &p.first_item {
                    Ok(prm) => match &prm.typ {
                        Ok(ct) => type_result_reports(ct.typ),
                        Err(err) => seq![ParseReport::Expected("`:` ثم نوع مُعامِل الدالة"@, *err)],
                    },
                    Err(err) => seq![ParseReport::Expected("مُعامِل دالة"@, *err)],
                };
                proof {
                    lemma_reportable_split(toks, f, fn_params_reports(p.rest_items@));
                }
                match &p.first_item {
                    Ok(prm) => match &prm.typ {
                        Ok(ct) => self.check_type_result(&ct.typ),
                        Err(err) => self.push_expected("`:` ثم نوع مُعامِل الدالة", err),
                    },
                    Err(err) => self.push_expected("مُعامِل دالة", err),
                }
                self.check_fn_params(&p.rest_items);
            },
            None => proof {
                lemma_reports_appended_none(self.diagnostics(), toks);
            },
        }
        self.check_unclosed(fp.close_delim.is_err(), fp.open_delim.span);
    }

    /// Checks a function: see `fn_reports`.
    pub fn check_fn(&mut self, f: &Fn)
        requires
            all_reportable(old(self).tokens(), fn_reports(*f)),
        ensures
            same_file(*old(self), *final(self)),
            reports_appended(
                old(self).diagnostics(),
                final(self).diagnostics(),
                old(self).tokens(),
                fn_reports(*f),
            ),
    {
        let ghost toks = self.tokens();
        let missing_name = f.name.is_err();
        let missing_params = f.params_decl.is_err();
        let no_return_type = f.return_type.is_none();
        let missing_body = f.body.is_err();
        if missing_name && missing_params && no_return_type && missing_body {
            self.push_message(
                String::from_str("لم يتم تعريف الدالة"),
                f.fn_keyword.span,
                String::from_str(""),
            );
            return ;
        }
        let ghost a = if missing_name {
            seq![ParseReport::Message("يجب إعطاء اسم للدالة"@, f.fn_keyword.span, ""@)]
        } else {
            Seq::<ParseReport>::empty()
        };
        let ghost b = match &f.params_decl {
            Ok(fp) => fn_params_decl_reports(*fp),
            Err(err) => if !missing_name {
                seq![ParseReport::Expected("مُعامِلات الدالة"@, *err)]
            } else {
                Seq::<ParseReport>::empty()
            },
        };
        let ghost c = match &f.return_type {
            Some(ct) => type_result_reports(ct.typ),
            None => Seq::<ParseReport>::empty(),
        };
        let ghost d = match &f.body {
            Ok(bd) => non_lambda_reports(*bd),
            Err(err) => if !missing_params || !no_return_type {
                seq![ParseReport::Expected("محتوى الدالة"@, *err)]
            } else {
                Seq::<ParseReport>::empty()
            },
        };
        proof {
            assert(fn_reports(*f) == a + b + c + d);
            lemma_reportable_split(toks, a + b + c, d);
            lemma_reportable_split(toks, a + b, c);
            lemma_reportable_split(toks, a, b);
        }
        if missing_name {
            self.push_message(
                String::from_str("يجب إعطاء اسم للدالة"),
                f.fn_keyword.span,
                String::from_str(""),
            );
        } else {
            proof {
                lemma_reports_appended_none(self.diagnostics(), toks);
            }
        }
        match &f.params_decl {
            Ok(fp) => self.check_fn_params_decl(fp),
            Err(err) => {
                if !missing_name {
                    self.push_expected("مُعامِلات الدالة", err);
                } else {
                    proof {
                        lemma_reports_appended_none(self.diagnostics(), toks);
                    }
                }
            },
        }
        match &f.return_type {
            Some(ct) => self.check_type_result(&ct.typ),
            None => proof {
                lemma_reports_appended_none(self.diagnostics(), toks);
            },
        }
        match &f.body {
            Ok(bd) => self.check_non_lambda_expr(bd),
            Err(err) => {
                if !missing_params || !no_return_type {
                    self.push_expected("محتوى الدالة", err);
                } else {
                    proof {
                        lemma_reports_appended_none(self.diagnostics(), toks);
                    }
                }
            },
        }
    }

    fn check_item(&mut self, it: &Item)
        requires
            all_reportable(old(self).tokens(), item_reports(*it)),
        ensures
            same_file(*old(self), *final(self)),
            reports_appended(
                old(self).diagnostics(),
                final(self).diagnostics(),
                old(self).tokens(),
                item_reports(*it),
            ),
    {
        match it {
            Item::Struct(s) => self.check_struct(s),
            Item::Fn(f) => self.check_fn(f),
        }
    }

    fn check_file_item(&mut self, r: &ParseResult<FileItem>)
        requires
            all_reportable(old(self).tokens(), file_item_reports(*r)),
        ensures
            same_file(*old(self), *final(self)),
            reports_appended(
                old(self).diagnostics(),
                final(self).diagnostics(),
                old(self).tokens(),
                file_item_reports(*r),
            ),
    {
        match r {
            Err(err) => self.push_expected("عنصر ملف (دالة أو تصنيف)", err),
            Ok(FileItem::WithVisModifier(iv)) => match &iv.item {
                Ok(it) => self.check_item(it),
                Err(_) => self.push_message(
                    String::from_str("يُتوقع عنصر ملف (دالة أو تصنيف) بعد مُعامِل الوصول"),
                    iv.visibility.span,
                    String::from_str("مُعامِل الوصول"),
                ),
            },
            Ok(FileItem::WithoutModifier(it)) => self.check_item(it),
        }
    }

    fn check_path_inners_item(&mut self, x: &SimpleInnerPath)
        requires
            all_reportable(old(self).tokens(), path_inners_item_reports(*x)),
        ensures
            same_file(*old(self), *final(self)),
            reports_appended(
                old(self).diagnostics(),
                final(self).diagnostics(),
                old(self).tokens(),
                path_inners_item_reports(*x),
            ),
        decreases x, 1int,
    {
        match &x.inner {
            Ok(_) => {
                proof {
                    lemma_reports_appended_none(self.diagnostics(), self.tokens());
                }
            },
            Err(e) => self.push_expected("مسار", e),
        }
    }

    fn check_path_inners(&mut self, v: &Vec<SimpleInnerPath>)
        requires
            all_reportable(old(self).tokens(), path_inners_reports(v@)),
        ensures
            same_file(*old(self), *final(self)),
            reports_appended(
                old(self).diagnostics(),
                final(self).diagnostics(),
                old(self).tokens(),
                path_inners_reports(v@),
            ),
        decreases v, 1int,
    {
        let ghost start = *self;
        let ghost toks = self.tokens();
        proof {
            lemma_reports_appended_none(start.diagnostics(), toks);
            assert(v@.take(0) =~= Seq::<SimpleInnerPath>::empty());
        }
        let mut i: usize = 0;
        while i < v.len()
            invariant
                i <= v@.len(),
                toks == start.tokens(),
                same_file(start, *self),
                all_reportable(toks, path_inners_reports(v@)),
                reports_appended(start.diagnostics(), self.diagnostics(), toks, path_inners_reports(v@.take(i as int))),
            decreases v@.len() - i,
        {
            proof {
                lemma_path_inners_prefix(toks, v@, i + 1);
                assert(v@.take(i + 1).drop_last() =~= v@.take(i as int));
                assert(v@.take(i + 1).last() == v@[i as int]);
                lemma_reportable_split(toks, path_inners_reports(v@.take(i as int)), path_inners_item_reports(v@[i as int]));
            }
            self.check_path_inners_item(&v[i]);
            i = i + 1;
        }
        proof {
            assert(v@.take(v@.len() as int) =~= v@);
        }
    }

    fn check_comma_types_item(&mut self, x: &ParseResult<CommaWithType>)
        requires
            all_reportable(old(self).tokens(), comma_types_item_reports(*x)),
        ensures
            same_file(*old(self), *final(self)),
            reports_appended(
                old(self).diagnostics(),
                final(self).diagnostics(),
                old(self).tokens(),
                comma_types_item_reports(*x),
            ),
        decreases x, 1int,
    {
        match x {
            Ok(n) => self.check_type(&n.item),
            Err(e) => self.push_comma_or_item("نوع", e),
        }
    }

    fn check_comma_types(&mut self, v: &Vec<ParseResult<CommaWithType>>)
        requires
            all_reportable(old(self).tokens(), comma_types_reports(v@)),
        ensures
            same_file(*old(self), *final(self)),
            reports_appended(
                old(self).diagnostics(),
                final(self).diagnostics(),
                old(self).tokens(),
                comma_types_reports(v@),
            ),
        decreases v, 1int,
    {
        let ghost start = *self;
        let ghost toks = self.tokens();
        proof {
            lemma_reports_appended_none(start.diagnostics(), toks);
            assert(v@.take(0) =~= Seq::<ParseResult<CommaWithType>>::empty());
        }
        let mut i: usize = 0;
        while i < v.len()
            invariant
                i <= v@.len(),
                toks == start.tokens(),
                same_file(start, *self),
                all_reportable(toks, comma_types_reports(v@)),
                reports_appended(start.diagnostics(), self.diagnostics(), toks, comma_types_reports(v@.take(i as int))),
            decreases v@.len() - i,
        {
            proof {
                lemma_comma_types_prefix(toks, v@, i + 1);
                assert(v@.take(i + 1).drop_last() =~= v@.take(i as int));
                assert(v@.take(i + 1).last() == v@[i as int]);
                lemma_reportable_split(toks, comma_types_reports(v@.take(i as int)), comma_types_item_reports(v@[i as int]));
            }
            self.check_comma_types_item(&v[i]);
            i = i + 1;
        }
        proof {
            assert(v@.take(v@.len() as int) =~= v@);
        }
    }

    fn check_bins_item(&mut self, x: &BinExpr)
        requires
            all_reportable(old(self).tokens(), bins_item_reports(*x)),
        ensures
            same_file(*old(self), *final(self)),
            reports_appended(
                old(self).diagnostics(),
                final(self).diagnostics(),
                old(self).tokens(),
                bins_item_reports(*x),
            ),
        decreases x, 1int,
    {
        match &x.right {
            Ok(p) => self.check_primary_expr(p),
            Err(e) => self.push_expected("تعبير برمجي", e),
        }
    }

    fn check_bins(&mut self, v: &Vec<BinExpr>)
        requires
            all_reportable(old(self).tokens(), bins_reports(v@)),
        ensures
            same_file(*old(self), *final(self)),
            reports_appended(
                old(self).diagnostics(),
                final(self).diagnostics(),
                old(self).tokens(),
                bins_reports(v@),
            ),
        decreases v, 1int,
    {
        let ghost start = *self;
        let ghost toks = self.tokens();
        proof {
            lemma_reports_appended_none(start.diagnostics(), toks);
            assert(v@.take(0) =~= Seq::<BinExpr>::empty());
        }
        let mut i: usize = 0;
        while i < v.len()
            invariant
                i <= v@.len(),
                toks == start.tokens(),
                same_file(start, *self),
                all_reportable(toks, bins_reports(v@)),
                reports_appended(start.diagnostics(), self.diagnostics(), toks, bins_reports(v@.take(i as int))),
            decreases v@.len() - i,
        {
            proof {
                lemma_bins_prefix(toks, v@, i + 1);
                assert(v@.take(i + 1).drop_last() =~= v@.take(i as int));
                assert(v@.take(i + 1).last() == v@[i as int]);
                lemma_reportable_split(toks, bins_reports(v@.take(i as int)), bins_item_reports(v@[i as int]));
            }
            self.check_bins_item(&v[i]);
            i = i + 1;
        }
        proof {
            assert(v@.take(v@.len() as int) =~= v@);
        }
    }

    fn check_inner_access_item(&mut self, x: &InnerAccessExpr)
        requires
            all_reportable(old(self).tokens(), inner_access_item_reports(*x)),
        ensures
            same_file(*old(self), *final(self)),
            reports_appended(
                old(self).diagnostics(),
                final(self).diagnostics(),
                old(self).tokens(),
                inner_access_item_reports(*x),
            ),
        decreases x, 1int,
    {
        let ghost a = match &x.inner {
            Ok(_) => Seq::<ParseReport>::empty(),
            Err(err) => seq![ParseReport::Expected("مُعرِّف"@, *err)],
        };
        proof {
            lemma_reportable_split(self.tokens(), a, post_ops_reports(x.post_ops@));
        }
        match &x.inner {
            Ok(_) => {
                proof {
                    lemma_reports_appended_none(self.diagnostics(), self.tokens());
                }
            },
            Err(e) => self.push_expected("مُعرِّف", e),
        }
        self.check_post_ops(&x.post_ops);
    }

    fn check_inner_access(&mut self, v: &Vec<InnerAccessExpr>)
        requires
            all_reportable(old(self).tokens(), inner_access_reports(v@)),
        ensures
            same_file(*old(self), *final(self)),
            reports_appended(
                old(self).diagnostics(),
                final(self).diagnostics(),
                old(self).tokens(),
                inner_access_reports(v@),
            ),
        decreases v, 1int,
    {
        let ghost start = *self;
        let ghost toks = self.tokens();
        proof {
            lemma_reports_appended_none(start.diagnostics(), toks);
            assert(v@.take(0) =~= Seq::<InnerAccessExpr>::empty());
        }
        let mut i: usize = 0;
        while i < v.len()
            invariant
                i <= v@.len(),
                toks == start.tokens(),
                same_file(start, *self),
                all_reportable(toks, inner_access_reports(v@)),
                reports_appended(start.diagnostics(), self.diagnostics(), toks, inner_access_reports(v@.take(i as int))),
            decreases v@.len() - i,
        {
            proof {
                lemma_inner_access_prefix(toks, v@, i + 1);
                assert(v@.take(i + 1).drop_last() =~= v@.take(i as int));
                assert(v@.take(i + 1).last() == v@[i as int]);
                lemma_reportable_split(toks, inner_access_reports(v@.take(i as int)), inner_access_item_reports(v@[i as int]));
            }
            self.check_inner_access_item(&v[i]);
            i = i + 1;
        }
        proof {
            assert(v@.take(v@.len() as int) =~= v@);
        }
    }

    fn check_post_ops_item(&mut self, x: &PostOpExpr)
        requires
            all_reportable(old(self).tokens(), post_ops_item_reports(*x)),
        ensures
            same_file(*old(self), *final(self)),
            reports_appended(
                old(self).diagnostics(),
                final(self).diagnostics(),
                old(self).tokens(),
                post_ops_item_reports(*x),
            ),
        decreases x, 1int,
    {
        match x {
            PostOpExpr::Invoke(pe) => self.check_paren_expr(pe),
            PostOpExpr::Lambda(l) => self.check_lambda_expr(l),
            PostOpExpr::Index(ix) => {
                proof {
                    lemma_reportable_split(
                        self.tokens(),
                        expr_result_reports(ix.expr),
                        unclosed_if(ix.close_bracket is Err, ix.open_bracket.span),
                    );
                }
                self.check_expr_result(&ix.expr);
                self.check_unclosed(ix.close_bracket.is_err(), ix.open_bracket.span);
            },
        }
    }

    fn check_post_ops(&mut self, v: &Vec<PostOpExpr>)
        requires
            all_reportable(old(self).tokens(), post_ops_reports(v@)),
        ensures
            same_file(*old(self), *final(self)),
            reports_appended(
                old(self).diagnostics(),
                final(self).diagnostics(),
                old(self).tokens(),
                post_ops_reports(v@),
            ),
        decreases v, 1int,
    {
        let ghost start = *self;
        let ghost toks = self.tokens();
        proof {
            lemma_reports_appended_none(start.diagnostics(), toks);
            assert(v@.take(0) =~= Seq::<PostOpExpr>::empty());
        }
        let mut i: usize = 0;
        while i < v.len()
            invariant
                i <= v@.len(),
                toks == start.tokens(),
                same_file(start, *self),
                all_reportable(toks, post_ops_reports(v@)),
                reports_appended(start.diagnostics(), self.diagnostics(), toks, post_ops_reports(v@.take(i as int))),
            decreases v@.len() - i,
        {
            proof {
                lemma_post_ops_prefix(toks, v@, i + 1);
                assert(v@.take(i + 1).drop_last() =~= v@.take(i as int));
                assert(v@.take(i + 1).last() == v@[i as int]);
                lemma_reportable_split(toks, post_ops_reports(v@.take(i as int)), post_ops_item_reports(v@[i as int]));
            }
            self.check_post_ops_item(&v[i]);
            i = i + 1;
        }
        proof {
            assert(v@.take(v@.len() as int) =~= v@);
        }
    }

    fn check_field_inits_item(&mut self, x: &ParseResult<CommaWithStructFieldInitExpr>)
        requires
            all_reportable(old(self).tokens(), field_inits_item_reports(*x)),
        ensures
            same_file(*old(self), *final(self)),
            reports_appended(
                old(self).diagnostics(),
                final(self).diagnostics(),
                old(self).tokens(),
                field_inits_item_reports(*x),
            ),
        decreases x, 1int,
    {
        match x {
            Ok(c) => match &c.item.expr {
                Some(e) => self.check_expr_result(&e.expr),
                None => {
                    proof {
                        lemma_reports_appended_none(self.diagnostics(), self.tokens());
                    }
                },
            },
            Err(e) => self.push_comma_or_item("مُعرِّف", e),
        }
    }

    fn check_field_inits(&mut self, v: &Vec<ParseResult<CommaWithStructFieldInitExpr>>)
        requires
            all_reportable(old(self).tokens(), field_inits_reports(v@)),
        ensures
            same_file(*old(self), *final(self)),
            reports_appended(
                old(self).diagnostics(),
                final(self).diagnostics(),
                old(self).tokens(),
                field_inits_reports(v@),
            ),
        decreases v, 1int,
    {
        let ghost start = *self;
        let ghost toks = self.tokens();
        proof {
            lemma_reports_appended_none(start.diagnostics(), toks);
            assert(v@.take(0) =~= Seq::<ParseResult<CommaWithStructFieldInitExpr>>::empty());
        }
        let mut i: usize = 0;
        while i < v.len()
            invariant
                i <= v@.len(),
                toks == start.tokens(),
                same_file(start, *self),
                all_reportable(toks, field_inits_reports(v@)),
                reports_appended(start.diagnostics(), self.diagnostics(), toks, field_inits_reports(v@.take(i as int))),
            decreases v@.len() - i,
        {
            proof {
                lemma_field_inits_prefix(toks, v@, i + 1);
                assert(v@.take(i + 1).drop_last() =~= v@.take(i as int));
                assert(v@.take(i + 1).last() == v@[i as int]);
                lemma_reportable_split(toks, field_inits_reports(v@.take(i as int)), field_inits_item_reports(v@[i as int]));
            }
            self.check_field_inits_item(&v[i]);
            i = i + 1;
        }
        proof {
            assert(v@.take(v@.len() as int) =~= v@);
        }
    }

    fn check_comma_exprs_item(&mut self, x: &ParseResult<CommaWithExpr>)
        requires
            all_reportable(old(self).tokens(), comma_exprs_item_reports(*x)),
        ensures
            same_file(*old(self), *final(self)),
            reports_appended(
                old(self).diagnostics(),
                final(self).diagnostics(),
                old(self).tokens(),
                comma_exprs_item_reports(*x),
            ),
        decreases x, 1int,
    {
        match x {
            Ok(c) => self.check_expr(&c.item),
            Err(e) => self.push_comma_or_item("تعبير برمجي", e),
        }
    }

    fn check_comma_exprs(&mut self, v: &Vec<ParseResult<CommaWithExpr>>)
        requires
            all_reportable(old(self).tokens(), comma_exprs_reports(v@)),
        ensures
            same_file(*old(self), *final(self)),
            reports_appended(
                old(self).diagnostics(),
                final(self).diagnostics(),
                old(self).tokens(),
                comma_exprs_reports(v@),
            ),
        decreases v, 1int,
    {
        let ghost start = *self;
        let ghost toks = self.tokens();
        proof {
            lemma_reports_appended_none(start.diagnostics(), toks);
            assert(v@.take(0) =~= Seq::<ParseResult<CommaWithExpr>>::empty());
        }
        let mut i: usize = 0;
        while i < v.len()
            invariant
                i <= v@.len(),
                toks == start.tokens(),
                same_file(start, *self),
                all_reportable(toks, comma_exprs_reports(v@)),
                reports_appended(start.diagnostics(), self.diagnostics(), toks, comma_exprs_reports(v@.take(i as int))),
            decreases v@.len() - i,
        {
            proof {
                lemma_comma_exprs_prefix(toks, v@, i + 1);
                assert(v@.take(i + 1).drop_last() =~= v@.take(i as int));
                assert(v@.take(i + 1).last() == v@[i as int]);
                lemma_reportable_split(toks, comma_exprs_reports(v@.take(i as int)), comma_exprs_item_reports(v@[i as int]));
            }
            self.check_comma_exprs_item(&v[i]);
            i = i + 1;
        }
        proof {
            assert(v@.take(v@.len() as int) =~= v@);
        }
    }

    fn check_else_ifs_item(&mut self, x: &ElseIfClause)
        requires
            all_reportable(old(self).tokens(), else_ifs_item_reports(*x)),
        ensures
            same_file(*old(self), *final(self)),
            reports_appended(
                old(self).diagnostics(),
                final(self).diagnostics(),
                old(self).tokens(),
                else_ifs_item_reports(*x),
            ),
        decreases x, 1int,
    {
        self.check_cond(&x.conditional_block, "تعبير برمجي (شرط `وإلا لو`)", "محتوى `وإلا لو`");
    }

    fn check_else_ifs(&mut self, v: &Vec<ElseIfClause>)
        requires
            all_reportable(old(self).tokens(), else_ifs_reports(v@)),
        ensures
            same_file(*old(self), *final(self)),
            reports_appended(
                old(self).diagnostics(),
                final(self).diagnostics(),
                old(self).tokens(),
                else_ifs_reports(v@),
            ),
        decreases v, 1int,
    {
        let ghost start = *self;
        let ghost toks = self.tokens();
        proof {
            lemma_reports_appended_none(start.diagnostics(), toks);
            assert(v@.take(0) =~= Seq::<ElseIfClause>::empty());
        }
        let mut i: usize = 0;
        while i < v.len()
            invariant
                i <= v@.len(),
                toks == start.tokens(),
                same_file(start, *self),
                all_reportable(toks, else_ifs_reports(v@)),
                reports_appended(start.diagnostics(), self.diagnostics(), toks, else_ifs_reports(v@.take(i as int))),
            decreases v@.len() - i,
        {
            proof {
                lemma_else_ifs_prefix(toks, v@, i + 1);
                assert(v@.take(i + 1).drop_last() =~= v@.take(i as int));
                assert(v@.take(i + 1).last() == v@[i as int]);
                lemma_reportable_split(toks, else_ifs_reports(v@.take(i as int)), else_ifs_item_reports(v@[i as int]));
            }
            self.check_else_ifs_item(&v[i]);
            i = i + 1;
        }
        proof {
            assert(v@.take(v@.len() as int) =~= v@);
        }
    }

    fn check_comma_bindings_item(&mut self, x: &CommaWithBinding)
        requires
            all_reportable(old(self).tokens(), comma_bindings_item_reports(*x)),
        ensures
            same_file(*old(self), *final(self)),
            reports_appended(
                old(self).diagnostics(),
                final(self).diagnostics(),
                old(self).tokens(),
                comma_bindings_item_reports(*x),
            ),
        decreases x, 1int,
    {
        self.check_binding(&x.item);
    }

    fn check_comma_bindings(&mut self, v: &Vec<CommaWithBinding>)
        requires
            all_reportable(old(self).tokens(), comma_bindings_reports(v@)),
        ensures
            same_file(*old(self), *final(self)),
            reports_appended(
                old(self).diagnostics(),
                final(self).diagnostics(),
                old(self).tokens(),
                comma_bindings_reports(v@),
            ),
        decreases v, 1int,
    {
        let ghost start = *self;
        let ghost toks = self.tokens();
        proof {
            lemma_reports_appended_none(start.diagnostics(), toks);
            assert(v@.take(0) =~= Seq::<CommaWithBinding>::empty());
        }
        let mut i: usize = 0;
        while i < v.len()
            invariant
                i <= v@.len(),
                toks == start.tokens(),
                same_file(start, *self),
                all_reportable(toks, comma_bindings_reports(v@)),
                reports_appended(start.diagnostics(), self.diagnostics(), toks, comma_bindings_reports(v@.take(i as int))),
            decreases v@.len() - i,
        {
            proof {
                lemma_comma_bindings_prefix(toks, v@, i + 1);
                assert(v@.take(i + 1).drop_last() =~= v@.take(i as int));
                assert(v@.take(i + 1).last() == v@[i as int]);
                lemma_reportable_split(toks, comma_bindings_reports(v@.take(i as int)), comma_bindings_item_reports(v@[i as int]));
            }
            self.check_comma_bindings_item(&v[i]);
            i = i + 1;
        }
        proof {
            assert(v@.take(v@.len() as int) =~= v@);
        }
    }

    fn check_stms_item(&mut self, x: &ParseResult<Stm>)
        requires
            all_reportable(old(self).tokens(), stms_item_reports(*x)),
        ensures
            same_file(*old(self), *final(self)),
            reports_appended(
                old(self).diagnostics(),
                final(self).diagnostics(),
                old(self).tokens(),
                stms_item_reports(*x),
            ),
        decreases x, 1int,
    {
        match x {
            Ok(stm) => self.check_stm(stm),
            Err(e) => self.push_expected("جملة برمجية", e),
        }
    }

    fn check_stms(&mut self, v: &Vec<ParseResult<Stm>>)
        requires
            all_reportable(old(self).tokens(), stms_reports(v@)),
        ensures
            same_file(*old(self), *final(self)),
            reports_appended(
                old(self).diagnostics(),
                final(self).diagnostics(),
                old(self).tokens(),
                stms_reports(v@),
            ),
        decreases v, 1int,
    {
        let ghost start = *self;
        let ghost toks = self.tokens();
        proof {
            lemma_reports_appended_none(start.diagnostics(), toks);
            assert(v@.take(0) =~= Seq::<ParseResult<Stm>>::empty());
        }
        let mut i: usize = 0;
        while i < v.len()
            invariant
                i <= v@.len(),
                toks == start.tokens(),
                same_file(start, *self),
                all_reportable(toks, stms_reports(v@)),
                reports_appended(start.diagnostics(), self.diagnostics(), toks, stms_reports(v@.take(i as int))),
            decreases v@.len() - i,
        {
            proof {
                lemma_stms_prefix(toks, v@, i + 1);
                assert(v@.take(i + 1).drop_last() =~= v@.take(i as int));
                assert(v@.take(i + 1).last() == v@[i as int]);
                lemma_reportable_split(toks, stms_reports(v@.take(i as int)), stms_item_reports(v@[i as int]));
            }
            self.check_stms_item(&v[i]);
            i = i + 1;
        }
        proof {
            assert(v@.take(v@.len() as int) =~= v@);
        }
    }

    fn check_comma_binding_kinds_item(&mut self, x: &ParseResult<CommaWithBindingKind>)
        requires
            all_reportable(old(self).tokens(), comma_binding_kinds_item_reports(*x)),
        ensures
            same_file(*old(self), *final(self)),
            reports_appended(
                old(self).diagnostics(),
                final(self).diagnostics(),
                old(self).tokens(),
                comma_binding_kinds_item_reports(*x),
            ),
        decreases x, 1int,
    {
        match x {
            Ok(c) => self.check_binding_kind(&c.item),
            Err(e) => self.push_comma_or_item("مُعرِّف", e),
        }
    }

    fn check_comma_binding_kinds(&mut self, v: &Vec<ParseResult<CommaWithBindingKind>>)
        requires
            all_reportable(old(self).tokens(), comma_binding_kinds_reports(v@)),
        ensures
            same_file(*old(self), *final(self)),
            reports_appended(
                old(self).diagnostics(),
                final(self).diagnostics(),
                old(self).tokens(),
                comma_binding_kinds_reports(v@),
            ),
        decreases v, 1int,
    {
        let ghost start = *self;
        let ghost toks = self.tokens();
        proof {
            lemma_reports_appended_none(start.diagnostics(), toks);
            assert(v@.take(0) =~= Seq::<ParseResult<CommaWithBindingKind>>::empty());
        }
        let mut i: usize = 0;
        while i < v.len()
            invariant
                i <= v@.len(),
                toks == start.tokens(),
                same_file(start, *self),
                all_reportable(toks, comma_binding_kinds_reports(v@)),
                reports_appended(start.diagnostics(), self.diagnostics(), toks, comma_binding_kinds_reports(v@.take(i as int))),
            decreases v@.len() - i,
        {
            proof {
                lemma_comma_binding_kinds_prefix(toks, v@, i + 1);
                assert(v@.take(i + 1).drop_last() =~= v@.take(i as int));
                assert(v@.take(i + 1).last() == v@[i as int]);
                lemma_reportable_split(toks, comma_binding_kinds_reports(v@.take(i as int)), comma_binding_kinds_item_reports(v@[i as int]));
            }
            self.check_comma_binding_kinds_item(&v[i]);
            i = i + 1;
        }
        proof {
            assert(v@.take(v@.len() as int) =~= v@);
        }
    }

    fn check_struct_fields_item(&mut self, x: &ParseResult<CommaWithStructField>)
        requires
            all_reportable(old(self).tokens(), struct_fields_item_reports(*x)),
        ensures
            same_file(*old(self), *final(self)),
            reports_appended(
                old(self).diagnostics(),
                final(self).diagnostics(),
                old(self).tokens(),
                struct_fields_item_reports(*x),
            ),
        decreases x, 1int,
    {
        match x {
            Ok(c) => self.check_field_type(&c.item.typ),
            Err(e) => self.push_comma_or_item("حقل", e),
        }
    }

    fn check_struct_fields(&mut self, v: &Vec<ParseResult<CommaWithStructField>>)
        requires
            all_reportable(old(self).tokens(), struct_fields_reports(v@)),
        ensures
            same_file(*old(self), *final(self)),
            reports_appended(
                old(self).diagnostics(),
                final(self).diagnostics(),
                old(self).tokens(),
                struct_fields_reports(v@),
            ),
        decreases v, 1int,
    {
        let ghost start = *self;
        let ghost toks = self.tokens();
        proof {
            lemma_reports_appended_none(start.diagnostics(), toks);
            assert(v@.take(0) =~= Seq::<ParseResult<CommaWithStructField>>::empty());
        }
        let mut i: usize = 0;
        while i < v.len()
            invariant
                i <= v@.len(),
                toks == start.tokens(),
                same_file(start, *self),
                all_reportable(toks, struct_fields_reports(v@)),
                reports_appended(start.diagnostics(), self.diagnostics(), toks, struct_fields_reports(v@.take(i as int))),
            decreases v@.len() - i,
        {
            proof {
                lemma_struct_fields_prefix(toks, v@, i + 1);
                assert(v@.take(i + 1).drop_last() =~= v@.take(i as int));
                assert(v@.take(i + 1).last() == v@[i as int]);
                lemma_reportable_split(toks, struct_fields_reports(v@.take(i as int)), struct_fields_item_reports(v@[i as int]));
            }
            self.check_struct_fields_item(&v[i]);
            i = i + 1;
        }
        proof {
            assert(v@.take(v@.len() as int) =~= v@);
        }
    }

    fn check_fn_params_item(&mut self, x: &ParseResult<CommaWithFnParam>)
        requires
            all_reportable(old(self).tokens(), fn_params_item_reports(*x)),
        ensures
            same_file(*old(self), *final(self)),
            reports_appended(
                old(self).diagnostics(),
                final(self).diagnostics(),
                old(self).tokens(),
                fn_params_item_reports(*x),
            ),
        decreases x, 1int,
    {
        match x {
            Ok(c) => match &c.item.typ {
                Ok(ct) => self.check_type_result(&ct.typ),
                Err(e) => self.push_expected("نوع لمُعامِل الدالة", e),
            },
            Err(e) => self.push_comma_or_item("مُعامِل دالة", e),
        }
    }

    fn check_fn_params(&mut self, v: &Vec<ParseResult<CommaWithFnParam>>)
        requires
            all_reportable(old(self).tokens(), fn_params_reports(v@)),
        ensures
            same_file(*old(self), *final(self)),
            reports_appended(
                old(self).diagnostics(),
                final(self).diagnostics(),
                old(self).tokens(),
                fn_params_reports(v@),
            ),
        decreases v, 1int,
    {
        let ghost start = *self;
        let ghost toks = self.tokens();
        proof {
            lemma_reports_appended_none(start.diagnostics(), toks);
            assert(v@.take(0) =~= Seq::<ParseResult<CommaWithFnParam>>::empty());
        }
        let mut i: usize = 0;
        while i < v.len()
            invariant
                i <= v@.len(),
                toks == start.tokens(),
                same_file(start, *self),
                all_reportable(toks, fn_params_reports(v@)),
                reports_appended(start.diagnostics(), self.diagnostics(), toks, fn_params_reports(v@.take(i as int))),
            decreases v@.len() - i,
        {
            proof {
                lemma_fn_params_prefix(toks, v@, i + 1);
                assert(v@.take(i + 1).drop_last() =~= v@.take(i as int));
                assert(v@.take(i + 1).last() == v@[i as int]);
                lemma_reportable_split(toks, fn_params_reports(v@.take(i as int)), fn_params_item_reports(v@[i as int]));
            }
            self.check_fn_params_item(&v[i]);
            i = i + 1;
        }
        proof {
            assert(v@.take(v@.len() as int) =~= v@);
        }
    }

    fn check_file_items_item(&mut self, x: &ParseResult<FileItem>)
        requires
            all_reportable(old(self).tokens(), file_items_item_reports(*x)),
        ensures
            same_file(*old(self), *final(self)),
            reports_appended(
                old(self).diagnostics(),
                final(self).diagnostics(),
                old(self).tokens(),
                file_items_item_reports(*x),
            ),
        decreases x, 1int,
    {
        self.check_file_item(x);
    }

    /// Checks the items of a file, one after another: see `file_item_reports`.
    pub fn check_file_items(&mut self, v: &Vec<ParseResult<FileItem>>)
        requires
            all_reportable(old(self).tokens(), file_items_reports(v@)),
        ensures
            same_file(*old(self), *final(self)),
            reports_appended(
                old(self).diagnostics(),
                final(self).diagnostics(),
                old(self).tokens(),
                file_items_reports(v@),
            ),
        decreases v, 1int,
    {
        let ghost start = *self;
        let ghost toks = self.tokens();
        proof {
            lemma_reports_appended_none(start.diagnostics(), toks);
            assert(v@.take(0) =~= Seq::<ParseResult<FileItem>>::empty());
        }
        let mut i: usize = 0;
        while i < v.len()
            invariant
                i <= v@.len(),
                toks == start.tokens(),
                same_file(start, *self),
                all_reportable(toks, file_items_reports(v@)),
                reports_appended(start.diagnostics(), self.diagnostics(), toks, file_items_reports(v@.take(i as int))),
            decreases v@.len() - i,
        {
            proof {
                lemma_file_items_prefix(toks, v@, i + 1);
                assert(v@.take(i + 1).drop_last() =~= v@.take(i as int));
                assert(v@.take(i + 1).last() == v@[i as int]);
                lemma_reportable_split(toks, file_items_reports(v@.take(i as int)), file_items_item_reports(v@[i as int]));
            }
            self.check_file_items_item(&v[i]);
            i = i + 1;
        }
        proof {
            assert(v@.take(v@.len() as int) =~= v@);
        }
    }
}

/// A report that is among the reports of a part is among those of the whole, before or after.
proof fn lemma_contains_concat(a: Seq<ParseReport>, b: Seq<ParseReport>, r: ParseReport)
    ensures
        a.contains(r) ==> (a + b).contains(r),
        b.contains(r) ==> (a + b).contains(r),
{
    if a.contains(r) {
        let i = choose|i: int| 0 <= i < a.len() && a[i] == r;
        assert((a + b)[i] == r);
    }
    if b.contains(r) {
        let i = choose|i: int| 0 <= i < b.len() && b[i] == r;
        assert((a + b)[a.len() + i] == r);
    }
}

proof fn lemma_unclosed_if_contains(span: Span)
    ensures
        unclosed_if(true, span).contains(ParseReport::Unclosed(span)),
{
    assert(unclosed_if(true, span)[0] == ParseReport::Unclosed(span));
}

/// Every opening delimiter whose closing one failed to parse is reported as unclosed, at
/// the opening delimiter: of expressions in parentheses (also the arguments of a call), of
/// types in parentheses, of an array, of the fields of a structure value, of an index, of a
/// slice or array type, of a destructured binding, of a block, of the fields of a structure
/// and of the parameters of a function.
pub proof fn lemma_unclosed_delimiters_reported(
    pe: ParenExpr,
    tt: TupleType,
    arr: ArrayExpr,
    se: StructExpr,
    ix: IdxExpr,
    sl: SliceType,
    dt: DestructedTuple,
    l: LambdaExpr,
    s: Struct,
    fp: FnParams,
)
    ensures
        pe.close_delim is Err ==> paren_reports(pe).contains(ParseReport::Unclosed(pe.open_delim.span)),
        pe.close_delim is Err ==> atomic_reports(AtomicExpr::Paren(pe)).contains(
            ParseReport::Unclosed(pe.open_delim.span),
        ),
        pe.close_delim is Err ==> post_ops_item_reports(PostOpExpr::Invoke(pe)).contains(
            ParseReport::Unclosed(pe.open_delim.span),
        ),
        tt.close_delim is Err ==> tuple_type_reports(tt).contains(
            ParseReport::Unclosed(tt.open_delim.span),
        ),
        arr.close_bracket is Err ==> atomic_reports(AtomicExpr::Array(arr)).contains(
            ParseReport::Unclosed(arr.open_bracket.span),
        ),
        se.init matches Some(StructInit::Fields(f)) ==> (f.close_delim is Err ==> atomic_reports(
            AtomicExpr::Struct(se),
        ).contains(ParseReport::Unclosed(f.open_delim.span))),
        ix.close_bracket is Err ==> post_ops_item_reports(PostOpExpr::Index(ix)).contains(
            ParseReport::Unclosed(ix.open_bracket.span),
        ),
        sl.close_bracket is Err ==> type_reports(Type::Slice(Box::new(sl))).contains(
            ParseReport::Unclosed(sl.open_bracket.span),
        ),
        dt.close_delim is Err ==> binding_kind_reports(BindingKind::Destructed(Box::new(dt))).contains(
            ParseReport::Unclosed(dt.open_delim.span),
        ),
        l.close_curly is Err ==> block_reports(l).contains(ParseReport::Unclosed(l.open_curly.span)),
        l.close_curly is Err ==> lambda_reports(l).contains(ParseReport::Unclosed(l.open_curly.span)),
        l.close_curly is Err ==> non_lambda_reports(l).contains(
            ParseReport::Unclosed(l.open_curly.span),
        ),
        s.name is Ok ==> (s.kind matches Ok(StructKind::Fields(f)) ==> (f.close_delim is Err
            ==> struct_reports(s).contains(ParseReport::Unclosed(f.open_delim.span)))),
        fp.close_delim is Err ==> fn_params_decl_reports(fp).contains(
            ParseReport::Unclosed(fp.open_delim.span),
        ),
{
    // Each of these reports ends with, or starts with, the report of its delimiter.
    lemma_unclosed_if_contains(pe.open_delim.span);
    lemma_unclosed_if_contains(tt.open_delim.span);
    lemma_unclosed_if_contains(arr.open_bracket.span);
    lemma_unclosed_if_contains(ix.open_bracket.span);
    lemma_unclosed_if_contains(sl.open_bracket.span);
    lemma_unclosed_if_contains(dt.open_delim.span);
    lemma_unclosed_if_contains(l.open_curly.span);
    lemma_unclosed_if_contains(fp.open_delim.span);
    let u = |sp: Span| ParseReport::Unclosed(sp);
    let pa = match pe.items {
        Some(p) => expr_result_reports(p.first_item) + comma_exprs_reports(p.rest_items@),
        None => Seq::<ParseReport>::empty(),
    };
    lemma_contains_concat(pa, unclosed_if(pe.close_delim is Err, pe.open_delim.span), u(pe.open_delim.span));
    let ta = match tt.items {
        Some(p) => type_result_reports(p.first_item) + comma_types_reports(p.rest_items@),
        None => Seq::<ParseReport>::empty(),
    };
    lemma_contains_concat(ta, unclosed_if(tt.close_delim is Err, tt.open_delim.span), u(tt.open_delim.span));
    let ab = match arr.expr_kind {
        Some(ArrayExprKind::ExplicitSize(x)) => expr_result_reports(x.repeated_expr)
            + expr_result_reports(x.size_expr),
        Some(ArrayExprKind::Elements(el)) => expr_result_reports(el.first) + comma_exprs_reports(
            el.rest@,
        ),
        None => Seq::<ParseReport>::empty(),
    };
    lemma_contains_concat(unclosed_if(arr.close_bracket is Err, arr.open_bracket.span), ab, u(arr.open_bracket.span));
    if let Some(StructInit::Fields(f)) = se.init {
        lemma_unclosed_if_contains(f.open_delim.span);
        let fi = match f.items {
            Some(p) => field_init_reports(p.first_item) + field_inits_reports(p.rest_items@),
            None => Seq::<ParseReport>::empty(),
        };
        lemma_contains_concat(unclosed_if(f.close_delim is Err, f.open_delim.span), fi, u(f.open_delim.span));
        let pa2 = match se.path {
            Ok(p) => path_reports(p),
            Err(err) => seq![ParseReport::Expected("اسم تصنيف أو مساره"@, err)],
        };
        lemma_contains_concat(pa2, unclosed_if(f.close_delim is Err, f.open_delim.span) + fi, u(f.open_delim.span));
    }
    lemma_contains_concat(expr_result_reports(ix.expr), unclosed_if(ix.close_bracket is Err, ix.open_bracket.span), u(ix.open_bracket.span));
    let sb = match sl.array_size {
        Some(a) => expr_result_reports(a.expr),
        None => Seq::<ParseReport>::empty(),
    };
    lemma_contains_concat(type_result_reports(sl.typ) + sb, unclosed_if(sl.close_bracket is Err, sl.open_bracket.span), u(sl.open_bracket.span));
    let da = match dt.items {
        Some(p) => (match p.first_item {
            Ok(k2) => binding_kind_reports(k2),
            Err(err) => seq![ParseReport::Expected("مُعرِّف"@, err)],
        }) + comma_binding_kinds_reports(p.rest_items@),
        None => Seq::<ParseReport>::empty(),
    };
    lemma_contains_concat(da, unclosed_if(dt.close_delim is Err, dt.open_delim.span), u(dt.open_delim.span));
    let lb = match l.last_expr {
        Some(e) => expr_reports(e),
        None => Seq::<ParseReport>::empty(),
    };
    lemma_contains_concat(stms_reports(l.stms@) + lb, unclosed_if(l.close_curly is Err, l.open_curly.span), u(l.open_curly.span));
    let la = match l.lambda_arrow {
        Some(LambdaArrow::WithParams(p)) => binding_reports(p.first) + comma_bindings_reports(p.rest@)
            + match p.r_arrow {
            Ok(_) => Seq::<ParseReport>::empty(),
            Err(err) => seq![ParseReport::Expected("`->`"@, err)],
        },
        _ => Seq::<ParseReport>::empty(),
    };
    lemma_contains_concat(la, block_reports(l), u(l.open_curly.span));
    let na = match l.lambda_arrow {
        Some(a) => match lambda_arrow_span(a) {
            Some(sp) => seq![
                ParseReport::Message("يُتوقع محتوى غير لامدا"@, sp, "تم العثور على تعبير لامدا"@),
            ],
            None => seq![ParseReport::Unsupported],
        },
        None => Seq::<ParseReport>::empty(),
    };
    lemma_contains_concat(na, block_reports(l), u(l.open_curly.span));
    if let Ok(StructKind::Fields(f)) = s.kind {
        lemma_unclosed_if_contains(f.open_delim.span);
        let c = match f.items {
            Some(p) => (match p.first_item {
                Ok(field) => field_type_reports(field.typ),
                Err(err) => seq![ParseReport::Expected("حقل"@, err)],
            }) + struct_fields_reports(p.rest_items@),
            None => Seq::<ParseReport>::empty(),
        };
        lemma_contains_concat(c, unclosed_if(f.close_delim is Err, f.open_delim.span), u(f.open_delim.span));
        lemma_contains_concat(Seq::<ParseReport>::empty(), c + unclosed_if(f.close_delim is Err, f.open_delim.span), u(f.open_delim.span));
    }
    let fa = match fp.items {
        Some(p) => (match p.first_item {
            Ok(prm) => match prm.typ {
                Ok(ct) => type_result_reports(ct.typ),
                Err(err) => seq![ParseReport::Expected("`:` ثم نوع مُعامِل الدالة"@, err)],
            },
            Err(err) => seq![ParseReport::Expected("مُعامِل دالة"@, err)],
        }) + fn_params_reports(p.rest_items@),
        None => Seq::<ParseReport>::empty(),
    };
    lemma_contains_concat(fa, unclosed_if(fp.close_delim is Err, fp.open_delim.span), u(fp.open_delim.span));
}

} // verus!
