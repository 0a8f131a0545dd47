use nazmc::span::{sort_spans, Span, SpanCursor};
use nazmc::text::decimal_text;

#[test]
fn span_builders() {
    let a = Span::new((0, 1), (0, 4));
    let b = Span::new((2, 0), (3, 5));
    assert_eq!(a.merged_with(&b), Span::new((0, 1), (3, 5)));
    assert_eq!(Span::after(&a), Span::new((0, 4), (0, 4)));
    assert_eq!(Span::len_after(&b, 2), Span::new((3, 5), (3, 5)));
    assert_eq!(a.start, SpanCursor { line: 0, col: 1 });
}

#[test]
fn spans_sort_by_start_keeping_ties() {
    let mut spans = [
        Span::new((2, 0), (2, 1)),
        Span::new((0, 5), (0, 6)),
        Span::new((0, 5), (1, 0)),
        Span::new((0, 1), (0, 2)),
    ];
    sort_spans(&mut spans);
    assert_eq!(
        spans,
        [
            Span::new((0, 1), (0, 2)),
            Span::new((0, 5), (0, 6)),
            Span::new((0, 5), (1, 0)),
            Span::new((2, 0), (2, 1)),
        ]
    );
}

#[test]
fn decimal_text_writes_numbers() {
    assert_eq!(decimal_text(0), "0");
    assert_eq!(decimal_text(7), "7");
    assert_eq!(decimal_text(127), "127");
    assert_eq!(decimal_text(u64::MAX), u64::MAX.to_string());
}

#[test]
fn len_after_is_a_zero_column_span_after() {
    let b = Span::new((2, 0), (3, 5));
    assert_eq!(Span::len_after(&b, 0), Span::after(&b));
    assert_eq!(Span::len_after(&b, 1), Span::after(&b));
}
