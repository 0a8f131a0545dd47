use nazmc::lexer::lexer_iter::LexerIter;
use nazmc::parser::ast::BinOp;
use nazmc::parser::errors_reporter::ParseErrorsReporter;
use nazmc::parser::parse_methods::ParseErr;
use nazmc::parser::syntax::{
    ArrayExpr, AtomicExpr, BinExpr, BinOpToken, ElementsArrayExpr, Expr, FileItem, Fn, Item,
    ItemWithVisibility, LambdaExpr, PrimaryExpr, PrimaryExprKind, Struct, VisModifier,
};
use nazmc::parser::terminal::{
    CloseCurlyBraceSymbol, FnKeyword, OpenCurlyBraceSymbol, OpenSquareBracketSymbol,
    StructKeyword,
};
use nazmc::span::Span;

fn messages(content: &str, check: impl std::ops::Fn(&mut ParseErrorsReporter)) -> Vec<String> {
    let (tokens, lines, _) = LexerIter::new(content).collect_all();
    let mut reporter = ParseErrorsReporter::new("ملف", &lines, &tokens);
    check(&mut reporter);
    reporter.into_diagnostics().diagnostics.iter().map(|d| d.get_msg().to_string()).collect()
}

fn sp(a: usize, b: usize) -> Span {
    Span::new((0, a), (0, b))
}

#[test]
fn struct_without_name_or_declaration_is_one_report() {
    let s = Struct {
        struct_keyword: StructKeyword { span: sp(0, 5) },
        name: Err(ParseErr { found_token_index: usize::MAX }),
        kind: Err(ParseErr { found_token_index: usize::MAX }),
    };
    let msgs = messages("تصنيف", |r| r.check_struct(&s));
    assert_eq!(msgs, vec!["لم يتم تعريف التصنيف".to_string()]);
}

#[test]
fn struct_without_name_reports_the_name_then_the_declaration() {
    let s = Struct {
        struct_keyword: StructKeyword { span: sp(0, 5) },
        name: Err(ParseErr { found_token_index: 2 }),
        kind: Err(ParseErr { found_token_index: 2 }),
    };
    let s2 = Struct { name: Ok(nazmc::parser::terminal::Id { span: sp(6, 7), data: std::sync::Arc::new("س".to_string()) }), ..s };
    let msgs = messages("تصنيف س ،", |r| r.check_struct(&s2));
    assert_eq!(msgs, vec!["يُتوقع بعد التصنيف `؛` أو `{` أو `(`، ولكن تم العثور على `س`".to_string()]);
}

#[test]
fn function_with_no_parts_is_one_report() {
    let f = Fn {
        fn_keyword: FnKeyword { span: sp(0, 4) },
        name: Err(ParseErr { found_token_index: usize::MAX }),
        params_decl: Err(ParseErr { found_token_index: usize::MAX }),
        return_type: None,
        body: Err(ParseErr { found_token_index: usize::MAX }),
    };
    let msgs = messages("دالة", |r| r.check_fn(&f));
    assert_eq!(msgs, vec!["لم يتم تعريف الدالة".to_string()]);
}

#[test]
fn function_without_name_reports_the_name_and_the_missing_body() {
    let f = Fn {
        fn_keyword: FnKeyword { span: sp(0, 4) },
        name: Err(ParseErr { found_token_index: usize::MAX }),
        params_decl: Err(ParseErr { found_token_index: usize::MAX }),
        return_type: None,
        body: Ok(LambdaExpr {
            open_curly: OpenCurlyBraceSymbol { span: sp(5, 6) },
            lambda_arrow: None,
            stms: vec![],
            last_expr: None,
            close_curly: Err(ParseErr { found_token_index: usize::MAX }),
        }),
    };
    let msgs = messages("دالة {", |r| r.check_fn(&f));
    assert_eq!(msgs, vec!["يجب إعطاء اسم للدالة".to_string(), "لم يتم إغلاق القوس".to_string()]);
}

#[test]
fn unclosed_array_and_missing_operand_are_reported_in_order() {
    let literal = || PrimaryExpr {
        kind: PrimaryExprKind::Atomic(AtomicExpr::On(nazmc::parser::syntax::OnKeyword { span: sp(1, 2) })),
        post_ops: vec![],
        inner_access: vec![],
    };
    let arr = AtomicExpr::Array(ArrayExpr {
        open_bracket: OpenSquareBracketSymbol { span: sp(0, 1) },
        expr_kind: Some(nazmc::parser::syntax::ArrayExprKind::Elements(ElementsArrayExpr {
            first: Ok(Expr {
                left: Box::new(literal()),
                bin: vec![BinExpr {
                    op: BinOpToken { span: sp(2, 3), op: BinOp::Plus },
                    right: Err(ParseErr { found_token_index: usize::MAX }),
                }],
            }),
            rest: vec![],
            trailing_comma: None,
        })),
        close_bracket: Err(ParseErr { found_token_index: usize::MAX }),
    });
    let msgs = messages("[س +", |r| r.check_atomic_expr(&arr));
    assert_eq!(
        msgs,
        vec![
            "لم يتم إغلاق القوس".to_string(),
            "يُتوقع تعبير برمجي، ولكن تم العثور على `نهاية الملف`".to_string(),
        ]
    );
}

#[test]
fn file_items_report_missing_items() {
    let items = vec![
        Err(ParseErr { found_token_index: 0 }),
        Ok(FileItem::WithVisModifier(ItemWithVisibility {
            visibility: VisModifier { span: sp(2, 5) },
            item: Err(ParseErr { found_token_index: usize::MAX }),
        })),
        Ok(FileItem::WithoutModifier(Item::Struct(Struct {
            struct_keyword: StructKeyword { span: sp(6, 11) },
            name: Err(ParseErr { found_token_index: usize::MAX }),
            kind: Err(ParseErr { found_token_index: usize::MAX }),
        }))),
    ];
    let msgs = messages("؟ عام تصنيف", |r| r.check_file_items(&items));
    assert_eq!(
        msgs,
        vec![
            "يُتوقع عنصر ملف (دالة أو تصنيف)، ولكن تم العثور على `؟`".to_string(),
            "يُتوقع عنصر ملف (دالة أو تصنيف) بعد مُعامِل الوصول".to_string(),
            "لم يتم تعريف التصنيف".to_string(),
        ]
    );
    let _ = CloseCurlyBraceSymbol { span: sp(0, 0) };
}
