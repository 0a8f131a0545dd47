use nazmc::diagnostics::code_window::{CodeWindow, MarkKind};
use nazmc::diagnostics::{Diagnostic, DiagnosticLevel, PhaseDiagnostics};
use nazmc::span::{Span, SpanCursor};

#[test]
fn diagnostics_keep_what_they_are_given() {
    let mut window = CodeWindow::new(SpanCursor { line: 2, col: 3 });
    window.mark_error(Span::new((2, 3), (2, 5)), vec!["هنا".to_string()]);
    window.mark_secondary(Span::new((1, 0), (1, 1)), vec![]);
    window.mark_note(Span::new((0, 0), (0, 1)), vec![]);
    let mut d = Diagnostic::error("خطأ ما".to_string(), Some(window));
    assert_eq!(d.get_level(), DiagnosticLevel::Error);
    assert_eq!(d.get_msg(), "خطأ ما");
    let marks = &d.get_code_window().as_ref().unwrap().marks;
    assert_eq!(marks.len(), 3);
    assert_eq!(marks[0].kind, MarkKind::Error);
    assert_eq!(marks[1].kind, MarkKind::Secondary);
    assert_eq!(marks[2].kind, MarkKind::Note);
    d.chain(Diagnostic::help("مساعدة".to_string(), None))
        .chain(Diagnostic::help("أخرى".to_string(), None));
    assert_eq!(d.get_chained().len(), 2);
    assert_eq!(d.get_chained()[1].get_msg(), "أخرى");
    assert_eq!(d.get_chained()[0].get_level(), DiagnosticLevel::Help);
}

#[test]
fn report_unknown_token_marks_one_column() {
    let lines = ["أ @"];
    let mut phase = PhaseDiagnostics::new("ملف.نظم", &lines);
    phase.report_unknown_token(SpanCursor { line: 0, col: 2 });
    assert_eq!(phase.diagnostics.len(), 1);
    let d = &phase.diagnostics[0];
    assert_eq!(d.get_msg(), "رمز غير صالح");
    let window = d.get_code_window().as_ref().unwrap();
    assert_eq!(window.start, SpanCursor { line: 0, col: 2 });
    assert_eq!(window.marks[0].span, Span::new((0, 2), (0, 3)));
    assert!(window.marks[0].labels.is_empty());
}

#[test]
fn chain_on_last_needs_a_diagnostic() {
    let lines: [&str; 0] = [];
    let mut phase = PhaseDiagnostics::new("ملف", &lines);
    phase.chain_on_last(Diagnostic::help("ملحوظة".to_string(), None));
    assert!(phase.diagnostics.is_empty());
    phase.push(Diagnostic::error("خطأ".to_string(), None));
    phase.chain_on_last(Diagnostic::help("ملحوظة".to_string(), None));
    assert_eq!(phase.diagnostics[0].get_chained().len(), 1);
}
