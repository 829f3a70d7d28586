use rol::location::{Position, SourceLocation, Span, TokenSpan};

#[test]
fn test_pos() {
    let pos = Position { line: 1, column: 1 };
    let span = pos.to_span("hello");
    assert_eq!(span.start, pos);
    assert_eq!(span.end, Position { line: 1, column: 5 });

    assert_eq!(pos.location_in("hello"), 0);
    assert_eq!(pos.location_in("hello\nworld"), 0);

    let pos = Position { line: 2, column: 1 };
    assert_eq!(pos.location_in("hello\nworld"), 6);

    let pos = Position { line: 2, column: 3 };
    assert_eq!(pos.location_in("hello\nworld"), 8);
}

#[test]
fn test_span() {
    let span = Span::new(
        Position { line: 1, column: 1 },
        Position { line: 1, column: 5 },
    );

    assert_eq!(span.text("hello"), "hello");
    assert_eq!(span.caret(), Some("^---^".into()));

    let span = Span::new(
        Position { line: 1, column: 1 },
        Position { line: 1, column: 1 },
    );

    assert_eq!(span.text("hello"), "h");
    assert_eq!(span.caret(), Some("^".into()));

    let span = Span::new(
        Position { line: 1, column: 1 },
        Position { line: 1, column: 2 },
    );

    assert_eq!(span.text("hello"), "he");
    assert_eq!(span.caret(), Some("^^".into()));

    let span = Span::new(
        Position { line: 1, column: 3 },
        Position { line: 1, column: 5 },
    );

    assert_eq!(span.text("hello"), "llo");
    assert_eq!(span.caret(), Some("  ^-^".into()));

    let span = Span::new(
        Position { line: 1, column: 1 },
        Position { line: 2, column: 5 },
    );

    assert_eq!(span.text("hello\nworld"), "hello\nworld");
    assert_eq!(span.caret(), None);

    let span = Span::new(
        Position { line: 1, column: 1 },
        Position { line: 2, column: 1 },
    );

    assert_eq!(span.text("hello\nworld"), "hello\nw");
    assert_eq!(span.caret(), None);
}

fn pos(line: usize, column: usize) -> Position {
    Position { line, column }
}

#[test]
fn span_over_several_lines_ends_at_last_character() {
    let span = Span::from_pos(pos(3, 4), "ab\ncd");
    assert_eq!(span.start, pos(3, 4));
    assert_eq!(span.end, pos(4, 2));
}

#[test]
fn span_of_empty_text_is_its_start() {
    let span = pos(2, 7).to_span("");
    assert_eq!(span.start, pos(2, 7));
    assert_eq!(span.end, pos(2, 7));
}

#[test]
fn span_merge_takes_min_start_and_max_end() {
    let a = Span::new(pos(1, 5), pos(1, 9));
    let b = Span::new(pos(1, 2), pos(1, 6));
    let c = Span::new(pos(2, 1), pos(2, 3));
    let ab = a.merge(&b);
    assert_eq!(ab, Span::new(pos(1, 2), pos(1, 9)));
    assert_eq!(ab, b.merge(&a));
    assert_eq!(a.merge(&b.merge(&c)), a.merge(&b).merge(&c));
    assert_eq!(a.merge(&c), Span::new(pos(1, 5), pos(2, 3)));
}

#[test]
fn token_span_none_and_merge() {
    let none = TokenSpan::none();
    assert_eq!(none.start, 0);
    assert_eq!(none.end, 0);
    assert!(none.tokens().is_empty());
    let toks = rol::lexer::lex("a + b").unwrap();
    let buffer = std::rc::Rc::new(toks);
    let a = TokenSpan::new(0, 0, buffer.clone());
    let b = TokenSpan::new(2, 2, buffer.clone());
    let m = b.merge(&a);
    assert_eq!((m.start, m.end), (0, 2));
    let covered = m.tokens();
    assert_eq!(covered.len(), 3);
    assert_eq!(covered[2].text, "b");
}

#[test]
fn source_locations() {
    let p = pos(2, 4);
    assert_eq!(p.caret(), Some("   ^".to_string()));
    assert_eq!((p.line(), p.column()), (2, 4));
    let s = Span::new(pos(3, 2), pos(3, 4));
    assert_eq!(SourceLocation::caret(&s), Some(" ^-^".to_string()));
    assert_eq!((SourceLocation::line(&s), SourceLocation::column(&s)), (3, 2));
    let multi = Span::new(pos(3, 2), pos(4, 1));
    assert_eq!(SourceLocation::caret(&multi), None);
}
