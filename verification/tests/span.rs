use rusty_lox::span::Span;

#[test]
fn new_keeps_both_ends() {
    let span = Span::new(2, 5);
    assert_eq!(span.start, 2);
    assert_eq!(span.end, 5);
}

#[test]
fn slice_gives_the_text_between_the_ends() {
    let source = "print 2.34;";
    assert_eq!(Span::new(6, 10).slice(source), "2.34");
    assert_eq!(Span::new(0, 0).slice(source), "");
    assert_eq!(Span::new(0, source.len()).slice(source), source);
}

#[test]
fn fits_in_tells_when_a_span_can_be_sliced() {
    let source = "a\u{e9}b";
    assert!(Span { start: 0, end: 1 }.fits_in(source));
    assert!(Span { start: 1, end: 3 }.fits_in(source));
    assert!(Span { start: 0, end: 4 }.fits_in(source));
    assert!(!Span { start: 1, end: 2 }.fits_in(source));
    assert!(!Span { start: 2, end: 4 }.fits_in(source));
    assert!(!Span { start: 0, end: 5 }.fits_in(source));
    assert!(!Span { start: 3, end: 1 }.fits_in(source));
}

#[test]
fn combine_covers_both_spans() {
    assert_eq!(Span::new(2, 5).combine(Span::new(7, 9)), Span::new(2, 9));
    assert_eq!(Span::new(7, 9).combine(Span::new(2, 5)), Span::new(2, 9));
    assert_eq!(Span::new(2, 9).combine(Span::new(4, 5)), Span::new(2, 9));
    assert_eq!(Span::new(4, 5).combine(Span::new(4, 5)), Span::new(4, 5));
    assert_eq!(Span::new(0, 3).combine(Span::new(3, 3)), Span::new(0, 3));
}
