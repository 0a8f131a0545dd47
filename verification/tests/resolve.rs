use nazmc::ast::{File, ItemKind};
use nazmc::diagnostics::code_window::MarkKind;
use nazmc::resolve::{item_kind_to_str, occurrences_code_window, ParsedFile};
use nazmc::span::{Span, SpanCursor};

fn empty_file() -> ParsedFile {
    ParsedFile {
        path: "ملف.نظم".to_string(),
        lines: vec![],
        ast: File {
            imports: vec![],
            star_imports: vec![],
            unit_structs: vec![],
            tuple_structs: vec![],
            fields_structs: vec![],
            fns: vec![],
        },
    }
}

#[test]
fn occurrences_are_marked_in_order() {
    let file = empty_file();
    let mut occurrences = 1;
    let window = occurrences_code_window(
        &file,
        &mut occurrences,
        vec![Span::new((3, 0), (3, 2)), Span::new((1, 4), (1, 6))],
    );
    assert_eq!(occurrences, 3);
    assert_eq!(window.start, SpanCursor { line: 3, col: 0 });
    assert_eq!(window.marks.len(), 2);
    assert_eq!(window.marks[0].span, Span::new((1, 4), (1, 6)));
    assert_eq!(window.marks[0].kind, MarkKind::Error);
    assert_eq!(window.marks[0].labels, vec!["هنا تم العثور على أول عنصر بهذا الاسم".to_string()]);
    assert_eq!(window.marks[1].kind, MarkKind::Secondary);
    assert_eq!(
        window.marks[1].labels,
        vec!["هنا تم العثور على نفس الاسم للمرة الثانية".to_string()]
    );
}

#[test]
fn late_occurrences_are_numbered() {
    let file = empty_file();
    let mut occurrences = 10;
    let window = occurrences_code_window(
        &file,
        &mut occurrences,
        vec![Span::new((0, 0), (0, 1)), Span::new((0, 2), (0, 3))],
    );
    assert_eq!(occurrences, 12);
    assert_eq!(
        window.marks[0].labels,
        vec!["هنا تم العثور على نفس الاسم للمرة العاشرة".to_string()]
    );
    assert_eq!(window.marks[1].labels, vec!["هنا تم العثور على نفس الاسم للمرة 11".to_string()]);
}

#[test]
fn item_kinds_are_named() {
    assert_eq!(item_kind_to_str(&ItemKind::UnitStruct), "الهيكل");
}
