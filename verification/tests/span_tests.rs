use ponos::span::{byte_offset_to_location, Location, Span};

#[test]
fn test_span_merge() {
    let span1 = Span::new(5, 10);
    let span2 = Span::new(8, 15);
    let merged = span1.merge(span2);

    assert_eq!(merged.start, 5);
    assert_eq!(merged.end, 15);
}

#[test]
fn test_byte_offset_to_location() {
    let source = "line 1\nline 2\nline 3";

    let loc = byte_offset_to_location(source, 0);
    assert_eq!(loc.line, 0);
    assert_eq!(loc.column, 0);

    let loc = byte_offset_to_location(source, 7);
    assert_eq!(loc.line, 1);
    assert_eq!(loc.column, 0);

    let loc = byte_offset_to_location(source, 10);
    assert_eq!(loc.line, 1);
    assert_eq!(loc.column, 3);
}

#[test]
fn test_span_text() {
    let source = "hello world";
    let span = Span::new(0, 5);
    assert_eq!(span.text(source), "hello");

    let span = Span::new(6, 11);
    assert_eq!(span.text(source), "world");
}

#[test]
fn location_counts_characters_not_bytes() {
    let source = "пер x\nда";
    // "пер" is three characters in six bytes
    let loc = byte_offset_to_location(source, 6);
    assert_eq!(loc, Location::new(0, 3));
    let loc = byte_offset_to_location(source, 9);
    assert_eq!(loc, Location::new(1, 0));
    let loc = byte_offset_to_location(source, 1000);
    assert_eq!(loc, Location::new(1, 2));
}

#[test]
fn span_merge_is_symmetric_and_covers_both() {
    let a = Span::new(3, 4);
    let b = Span::new(10, 20);
    assert_eq!(a.merge(b), b.merge(a));
    assert_eq!(a.merge(b), Span::new(3, 20));
    assert_eq!(a.merge(a), a);
}

#[test]
fn span_text_of_multibyte_source() {
    let source = "пер x";
    let span = Span::new(0, 6);
    assert!(span.within(source));
    assert_eq!(span.text(source), "пер");
    assert!(!Span::new(1, 6).within(source));
    assert!(!Span::new(0, 60).within(source));
    assert!(!Span::new(4, 2).within(source));
}

#[test]
fn span_to_location_gives_both_ends() {
    let source = "a\nbc\nd";
    let (start, end) = Span::new(2, 5).to_location(source);
    assert_eq!(start, Location::new(1, 0));
    assert_eq!(end, Location::new(2, 0));
    assert_eq!(Span::default(), Span::new(0, 0));
}
