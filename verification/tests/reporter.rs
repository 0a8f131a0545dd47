use nazmc::diagnostics::code_window::MarkKind;
use nazmc::diagnostics::DiagnosticLevel;
use nazmc::lexer::error::{LexerError, LexerErrorKind};
use nazmc::lexer::lexer_iter::LexerIter;
use nazmc::lexer::token::{Base, NumKind};
use nazmc::parser::errors_reporter::ParseErrorsReporter;
use nazmc::parser::parse_methods::ParseErr;
use nazmc::parser::terminal::SemicolonSymbol;
use nazmc::parser::ParseCtx;
use nazmc::span::{Span, SpanCursor};

fn lexer_error_messages(kind: LexerErrorKind) -> (String, Vec<String>, Vec<String>) {
    let (tokens, lines, _) = LexerIter::new("اسم").collect_all();
    let mut reporter = ParseErrorsReporter::new("ملف", &lines, &tokens);
    reporter.report_lexer_errors(&[LexerError { token_idx: 0, col: 1, len: 2, kind }]);
    let diagnostics = reporter.into_diagnostics().diagnostics;
    assert_eq!(diagnostics.len(), 1);
    let d = &diagnostics[0];
    assert_eq!(d.get_level(), DiagnosticLevel::Error);
    let window = d.get_code_window().as_ref().unwrap();
    assert_eq!(window.marks[0].kind, MarkKind::Error);
    assert_eq!(window.marks[0].span, Span::new((0, 1), (0, 3)));
    let labels = window.marks.iter().flat_map(|m| m.labels.clone()).collect();
    let helps = d.get_chained().iter().map(|h| h.get_msg().to_string()).collect();
    (d.get_msg().to_string(), labels, helps)
}

#[test]
fn each_lexer_error_has_its_message() {
    let cases = [
        (LexerErrorKind::UnknownToken, "رمز غير مدعوم"),
        (LexerErrorKind::UnclosedDelimitedComment, "لم يتم إغلاق التعليق"),
        (LexerErrorKind::ZeroChars, "لا يوجد حروف ولكن يُتوقع حرف واحد بين علامتي التنصيص"),
        (LexerErrorKind::ManyChars, "يوجد أكثر من حرف ولكن يُتوقع حرف واحد بين علامتي التنصيص"),
        (LexerErrorKind::KufrOrInvalidChar, "يحتوي على رمز كُفر أو رمز غير مدعوم"),
        (
            LexerErrorKind::UnicodeCodePointHexDigitOnly,
            "رمز اليونيكود يجب أن يحتوي فقط على أرقام بالنظام العددي السُداسي عشر",
        ),
        (LexerErrorKind::InvalidUnicodeCodePoint, "رمز يونيكود غير صالح"),
        (LexerErrorKind::UnknownEscapeSequence, "حرف تسلسل غير صالح"),
        (LexerErrorKind::MissingDigitsAfterBasePrefix, "يُتوقع أرقام بعد رمز النظام العددي"),
        (LexerErrorKind::MissingDigitsAfterExponent, "يُتوقع أرقام الأس"),
        (LexerErrorKind::InvalidIntBasePrefix, "نظام عددي غير مدعوم"),
    ];
    for (kind, msg) in cases {
        let (found, labels, helps) = lexer_error_messages(kind);
        assert_eq!(found, msg);
        assert!(helps.is_empty());
        if kind == LexerErrorKind::UnclosedDelimitedComment {
            assert_eq!(labels, vec!["تم بدء التعليق هنا".to_string()]);
        } else {
            assert_eq!(labels, vec!["".to_string()]);
        }
    }
}

#[test]
fn unclosed_quotes_point_at_the_quote() {
    for (kind, label) in [
        (LexerErrorKind::UnclosedStr, "قٌم بإضافة `\"`"),
        (LexerErrorKind::UnclosedChar, "قٌم بإضافة `'`"),
    ] {
        let (msg, labels, _) = lexer_error_messages(kind);
        assert_eq!(msg, "علامة تنصيص مفقودة");
        assert_eq!(labels, vec![label.to_string(), "لم يتم إغلاق علامة التنصيص هذه".to_string()]);
    }
}

#[test]
fn suffix_errors_have_help() {
    let (msg, _, helps) = lexer_error_messages(LexerErrorKind::InvalidIntSuffix);
    assert_eq!(msg, "لاحقة غير صالحة للعدد الصحيح");
    assert_eq!(
        helps,
        vec!["اللاحقات الصالحة للعدد الصحيح هى (ص، ص1، ص2، ص4، ص8، م، م1، م2، م4، م8)".to_string()]
    );
    let (msg, _, helps) = lexer_error_messages(LexerErrorKind::InvalidFloatSuffix);
    assert_eq!(msg, "لاحقة غير صحيحة للعدد العشري");
    assert_eq!(helps, vec!["اللاحقات الصالحة للعدد العشري هى (ع4، ع8)".to_string()]);
    let (msg, _, helps) = lexer_error_messages(LexerErrorKind::InvalidNumSuffix);
    assert_eq!(msg, "لاحقة غير صحيحة للعدد");
    assert_eq!(helps.len(), 1);
}

#[test]
fn digit_errors_name_the_base() {
    let (msg, _, _) = lexer_error_messages(LexerErrorKind::InvalidDigitForBase(Base::Hex));
    assert_eq!(msg, "رقم غير صالح في النظام العددي السُداسي عشر");
    let (msg, _, _) = lexer_error_messages(LexerErrorKind::InvalidDigitForBase(Base::Bin));
    assert_eq!(msg, "رقم غير صالح في النظام العددي الثُنائي");
}

#[test]
fn out_of_range_numbers_show_the_greatest_value() {
    let (msg, _, helps) = lexer_error_messages(LexerErrorKind::NumIsOutOfRange(NumKind::I1(0)));
    assert_eq!(msg, "قيمة العدد خارج النطاق المسموح به");
    assert_eq!(helps, vec!["أكبر قيمة من نفس نوع العدد هى `127`".to_string()]);
    let (_, _, helps) =
        lexer_error_messages(LexerErrorKind::NumIsOutOfRange(NumKind::UnspecifiedInt(0)));
    assert_eq!(helps, vec![format!("أكبر قيمة من نفس نوع العدد هى `{}`", u64::MAX)]);
    let (_, _, helps) = lexer_error_messages(LexerErrorKind::NumIsOutOfRange(NumKind::U2(0)));
    assert_eq!(helps, vec!["أكبر قيمة من نفس نوع العدد هى `65535`".to_string()]);
}

#[test]
fn zero_length_error_marks_the_whole_token() {
    let (tokens, lines, _) = LexerIter::new("ب اسم").collect_all();
    let mut reporter = ParseErrorsReporter::new("ملف", &lines, &tokens);
    reporter.report_lexer_errors(&[LexerError {
        token_idx: 2,
        col: 0,
        len: 0,
        kind: LexerErrorKind::UnknownToken,
    }]);
    let diagnostics = reporter.into_diagnostics().diagnostics;
    let window = diagnostics[0].get_code_window().as_ref().unwrap();
    assert_eq!(window.marks[0].span, Span::new((0, 2), (0, 5)));
    assert_eq!(window.start, SpanCursor { line: 0, col: 2 });
}

#[test]
fn report_expected_names_the_found_token() {
    let (tokens, lines, _) = LexerIter::new("دالة ١").collect_all();
    let mut reporter = ParseErrorsReporter::new("ملف", &lines, &tokens);
    reporter.report_expected("اسم", &ParseErr { found_token_index: 0 }, vec![]);
    reporter.report_expected("اسم", &ParseErr { found_token_index: usize::MAX }, vec![]);
    let diagnostics = reporter.into_diagnostics().diagnostics;
    assert_eq!(diagnostics[0].get_msg(), "يُتوقع اسم، ولكن تم العثور على `دالة`");
    let window = diagnostics[0].get_code_window().as_ref().unwrap();
    assert_eq!(window.marks[0].labels, vec!["رمز غير متوقع".to_string()]);
    assert_eq!(diagnostics[1].get_msg(), "يُتوقع اسم، ولكن تم العثور على `نهاية الملف`");
    let window = diagnostics[1].get_code_window().as_ref().unwrap();
    let last = tokens[tokens.len() - 1].span;
    assert_eq!(window.marks[0].span, Span::len_after(&last, 1));
    assert_eq!(window.marks[0].labels, vec!["تم الوصول إلى نهاية الملف".to_string()]);
}

#[test]
fn report_expected_comma_or_item_tells_which() {
    let (tokens, lines, _) = LexerIter::new("س، )").collect_all();
    let mut reporter = ParseErrorsReporter::new("ملف", &lines, &tokens);
    // Failed at the comma: the item after it is missing.
    reporter.report_expected_comma_or_item("مُعامل", &ParseErr { found_token_index: 1 }, vec![]);
    // Failed elsewhere: the comma is missing.
    reporter.report_expected_comma_or_item("مُعامل", &ParseErr { found_token_index: 0 }, vec![]);
    let diagnostics = reporter.into_diagnostics().diagnostics;
    assert_eq!(diagnostics[0].get_msg(), "يُتوقع مُعامل، ولكن تم العثور على `)`");
    assert_eq!(diagnostics[1].get_msg(), "يُتوقع يُتوقع فاصلة `،`، ولكن تم العثور على `س`");
}

#[test]
fn missing_semicolon_is_marked_right_after_the_last_token() {
    let (tokens, lines, _) = LexerIter::new("س \n ص").collect_all();
    let mut reporter = ParseErrorsReporter::new("ملف", &lines, &tokens);
    let missing: Result<SemicolonSymbol, ParseErr> = Err(ParseErr { found_token_index: 4 });
    reporter.check_semicolon_result(&missing);
    let present: Result<SemicolonSymbol, ParseErr> =
        Ok(SemicolonSymbol { span: Span::new((0, 0), (0, 1)) });
    reporter.check_semicolon_result(&present);
    reporter.report_unclosed_delimiter(Span::new((0, 0), (0, 1)));
    let diagnostics = reporter.into_diagnostics().diagnostics;
    assert_eq!(diagnostics.len(), 2);
    assert_eq!(diagnostics[0].get_msg(), "يُتوقع فاصلة منقوطة `؛`، ولكن تم العثور على `ص`");
    let window = diagnostics[0].get_code_window().as_ref().unwrap();
    assert_eq!(window.marks[0].span, Span::new((0, 1), (0, 1)));
    assert_eq!(window.marks[1].span, tokens[4].span);
    assert_eq!(diagnostics[1].get_msg(), "لم يتم إغلاق القوس");
}

#[test]
fn parse_ctx_reports_lexer_errors() {
    let ctx = ParseCtx::new("ملف.نظم", "س @ \"ص");
    let diagnostics = ctx.parse();
    assert_eq!(diagnostics.len(), 2);
    assert_eq!(diagnostics[0].get_msg(), "رمز غير مدعوم");
    assert_eq!(diagnostics[1].get_msg(), "علامة تنصيص مفقودة");
}
