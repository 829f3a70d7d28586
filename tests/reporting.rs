use rol::ast::{AstNode, BinOp, Expr, Literal, Modifier, ModifierSet, PrefixOp};
use rol::common::Identifier;
use rol::error::{RolError, SyntaxError};
use rol::location::{Position, Span};
use rol::parser::parse_source;

fn span(l1: usize, c1: usize, l2: usize, c2: usize) -> Span {
    Span::new(Position { line: l1, column: c1 }, Position { line: l2, column: c2 })
}

#[test]
fn report_of_collected_errors() {
    let text = "val = 1\nvar = 2\n";
    let err = parse_source(text).unwrap_err();
    assert_eq!(err.message(), "Multiple errors");
    assert_eq!(
        err.report("main.rol", text),
        vec![
            "Syntax error: Expected an identifier",
            "  --> main.rol:1:5",
            "   | val = 1",
            "   |     ^",
            "Syntax error: Expected an identifier",
            "  --> main.rol:2:5",
            "   | var = 2",
            "   |     ^",
        ]
    );
}

#[test]
fn report_without_location() {
    let err = RolError::Syntax(SyntaxError::UnexpectedEof);
    assert_eq!(err.message(), "Syntax error");
    assert_eq!(
        err.report("x.rol", "\"abc"),
        vec!["Syntax error: Unexpected end of file", "  --> x.rol"]
    );
}

#[test]
fn report_of_multi_line_span_has_no_underline() {
    let err = SyntaxError::UnexpectedToken(span(1, 2, 2, 1));
    assert_eq!(
        err.report("y", "ab\ncd"),
        vec!["Syntax error: Unexpected token", "  --> y:1:2"]
    );
}

#[test]
fn report_of_qualified_declaration() {
    let text = "\r\nval a::b = 1\r\n";
    let err = parse_source(text).unwrap_err();
    assert_eq!(err.message(), "Cannot declare the package-qualified name 'a::b'");
    assert_eq!(
        err.report("q.rol", text),
        vec![
            "Syntax error: Cannot declare the package-qualified name 'a::b'",
            "  --> q.rol:2:5",
            "   | val a::b = 1",
            "   |     ^--^",
        ]
    );
}

#[test]
fn messages_of_each_error() {
    let s = span(3, 10, 3, 12);
    assert_eq!(SyntaxError::ExpectedNewline(s).message(), "Expected a new line");
    assert_eq!(SyntaxError::ExpectedToken("'='".to_string(), s).message(), "Expected '='");
    assert_eq!(
        SyntaxError::IdentifierParseError("a::".to_string()).message(),
        "Failed to parse the identifier 'a::' (this shouldn't happen)"
    );
    assert_eq!(SyntaxError::InvalidNumber("1..2".to_string(), s).message(), "Invalid number '1..2'");
    assert_eq!(
        SyntaxError::InvalidUnicodeEscape("D800".to_string(), s).message(),
        "Invalid Unicode escape sequence 'D800'"
    );
    assert_eq!(SyntaxError::UnexpectedChar(s).message(), "Unexpected character");
    assert_eq!(SyntaxError::UnexpectedEof.message(), "Unexpected end of file");
    assert_eq!(SyntaxError::UnexpectedToken(s).message(), "Unexpected token");
    assert_eq!(SyntaxError::UnexpectedToken(s).location(), Some(s));
    assert_eq!(SyntaxError::IdentifierParseError("x".to_string()).location(), None);
}

#[test]
fn report_of_large_line_number() {
    let err = SyntaxError::UnexpectedChar(span(120, 3, 120, 3));
    let lines = err.report("big", "");
    assert_eq!(lines[1], "  --> big:120:3");
    assert_eq!(lines[2], "   | ");
    assert_eq!(lines[3], "   |   ^");
}

#[test]
fn modifier_set_insert() {
    let mut m = ModifierSet::empty();
    assert!(!m.contains(Modifier::Final));
    m.insert(Modifier::Private);
    m.insert(Modifier::Final);
    assert!(m.contains(Modifier::Final));
    assert!(m.contains(Modifier::Private));
    assert!(!m.contains(Modifier::Public));
    assert!(!m.contains(Modifier::Package));
}

#[test]
fn tree_renders_with_operator_names() {
    let ast = parse_source("val x = -f(1, 2) ** y\nvar z = x\n").unwrap();
    assert_eq!(
        ast.render(),
        "{ VarDecl(Final, x); x = ((Negate(f(1, 2))) Power y); VarDecl(, z); z = x }"
    );
    match parse_source("").unwrap() {
        AstNode::Statements(v, _) => assert!(v.is_empty()),
        other => panic!("not a statement list: {:?}", other),
    }
    assert_eq!(parse_source("").unwrap().render(), "{  }");
}

#[test]
fn literals_render_as_written() {
    assert_eq!(Literal::Int(-42).render(), "-42");
    assert_eq!(Literal::Int(i64::MIN).render(), "-9223372036854775808");
    assert_eq!(Literal::Int(7).render(), "7");
    assert_eq!(Literal::Float("1.50".to_string()).render(), "1.50");
    assert_eq!(Literal::String("hi".to_string()).render(), "\"hi\"");
    assert_eq!(Literal::Bool(true).render(), "true");
    assert_eq!(Literal::Bool(false).render(), "false");
    assert_eq!(Literal::Null.render(), "null");
}

#[test]
fn modifiers_render_in_declaration_order() {
    let mut m = ModifierSet::empty();
    assert_eq!(m.render(), "");
    m.insert(Modifier::Final);
    m.insert(Modifier::Public);
    assert_eq!(m.render(), "Public Final");
}

#[test]
fn expressions_render() {
    let e: Expr<()> = Expr::BinOp(
        Box::new(Expr::PrefixOp(PrefixOp::Not, Box::new(Expr::Literal(Literal::Bool(true), ())), ())),
        BinOp::And,
        Box::new(Expr::VarAccess(Identifier::from_str("m::v"), ())),
        (),
    );
    assert_eq!(e.render(), "((Nottrue) And m::v)");
    assert_eq!(e.extra_data(), &());
}
