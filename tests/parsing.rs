use rol::ast::{AstNode, BinOp, Expr, Literal, Modifier, PostfixOp, PrefixOp};
use rol::error::{RolError, SyntaxError};
use rol::lexer::lex;
use rol::location::{Position, Span, TokenSpan};
use rol::parser::{parse, parse_source};

fn show(e: &Expr<TokenSpan>) -> String {
    match e {
        Expr::BinOp(l, op, r, _) => format!("({} {:?} {})", show(l), op, show(r)),
        Expr::PrefixOp(op, x, _) => format!("({:?}{})", op, show(x)),
        Expr::PostfixOp(x, PostfixOp::FunctionCall(args), _) => {
            let args: Vec<String> = args.iter().map(show).collect();
            format!("({}({}))", show(x), args.join(", "))
        }
        Expr::VarAccess(id, _) => id.render(),
        Expr::Literal(Literal::Float(s), _) => s.clone(),
        Expr::Literal(other, _) => format!("{:?}", other),
    }
}

/// The statements of a successful parse.
fn statements(text: &str) -> Vec<AstNode<TokenSpan>> {
    match parse_source(text) {
        Ok(AstNode::Statements(v, _)) => v,
        Ok(other) => panic!("not a statement list: {:?}", other),
        Err(e) => panic!("parse failed: {:?}", e),
    }
}

/// The expression assigned by the single declaration in `text`.
fn assigned(text: &str) -> String {
    let v = statements(text);
    assert_eq!(v.len(), 2);
    match &v[1] {
        AstNode::VarAssign(_, e, _) => show(e),
        other => panic!("not an assignment: {:?}", other),
    }
}

fn span(l1: usize, c1: usize, l2: usize, c2: usize) -> Span {
    Span::new(Position { line: l1, column: c1 }, Position { line: l2, column: c2 })
}

fn errors(text: &str) -> Vec<SyntaxError> {
    match parse_source(text) {
        Err(RolError::Multiple(v)) => v,
        other => panic!("expected collected errors: {:?}", other),
    }
}

#[test]
fn binary_operators_associate_left() {
    assert_eq!(assigned("val x = 1 + 2 - 3"), "((1 Plus 2) Minus 3)");
    assert_eq!(assigned("val x = 8 / 4 % 3 * 2"), "(((8 Divide 4) Modulo 3) Times 2)");
}

#[test]
fn power_associates_right() {
    assert_eq!(assigned("val x = 2 ** 3 ** 2"), "(2 Power (3 Power 2))");
}

#[test]
fn multiplication_binds_tighter_than_addition() {
    assert_eq!(assigned("val x = 1 + 2 * 3"), "(1 Plus (2 Times 3))");
    assert_eq!(assigned("val x = 1 * 2 + 3"), "((1 Times 2) Plus 3)");
}

#[test]
fn precedence_ladder() {
    assert_eq!(
        assigned("val x = a || b && c == d < e + f * -g ** h"),
        "(a Or (b And (c Equals (d LessThan (e Plus (f Times ((Negateg) Power h)))))))"
    );
    assert_eq!(assigned("val x = a != b >= c <= d > e"), "(a NotEquals (((b GreaterThanOrEqual c) LessThanOrEqual d) GreaterThan e))");
    assert_eq!(assigned("val x = !-a"), "(Not(Negatea))");
}

#[test]
fn prefix_binds_tighter_than_power() {
    assert_eq!(assigned("val x = -2 ** 2"), "((Negate2) Power 2)");
    assert_eq!(assigned("val x = 2 ** -2"), "(2 Power (Negate2))");
    assert_eq!(assigned("val x = -2 ** -3 ** 2"), "((Negate2) Power ((Negate3) Power 2))");
}

#[test]
fn calls() {
    assert_eq!(assigned("val x = f(1, a + b)(g())"), "((f(1, (a Plus b)))((g())))");
    assert_eq!(
        errors("val x = pkg::f"),
        vec![
            SyntaxError::ExpectedNewline(span(1, 12, 1, 13)),
            SyntaxError::ExpectedToken("'val' or 'var'".to_string(), span(1, 12, 1, 13)),
        ]
    );
}

#[test]
fn val_declares_final() {
    let v = statements("val x = 1\n");
    assert_eq!(v.len(), 2);
    match &v[0] {
        AstNode::VarDecl(mods, name, s) => {
            assert!(mods.contains(Modifier::Final));
            assert!(!mods.contains(Modifier::Public));
            assert!(!mods.contains(Modifier::Private));
            assert!(!mods.contains(Modifier::Package));
            assert_eq!(name.render(), "x");
            assert_eq!((s.start, s.end), (0, 2));
        }
        other => panic!("not a declaration: {:?}", other),
    }
    match &v[1] {
        AstNode::VarAssign(name, Expr::Literal(Literal::Float(t), e), s) => {
            assert_eq!(name.render(), "x");
            assert_eq!(t, "1");
            assert_eq!((e.start, e.end), (3, 3));
            assert_eq!((s.start, s.end), (1, 3));
        }
        other => panic!("not an assignment: {:?}", other),
    }
}

#[test]
fn var_declares_nothing_final() {
    let v = statements("var y = 2\n");
    assert_eq!(v.len(), 2);
    match &v[0] {
        AstNode::VarDecl(mods, name, _) => {
            assert!(!mods.contains(Modifier::Final));
            assert_eq!(name.render(), "y");
        }
        other => panic!("not a declaration: {:?}", other),
    }
    match &v[1] {
        AstNode::VarAssign(name, e, _) => {
            assert_eq!(name.render(), "y");
            assert_eq!(show(e), "2");
        }
        other => panic!("not an assignment: {:?}", other),
    }
}

#[test]
fn statements_span_first_to_last() {
    match parse_source("val a = 1\n\nvar b = 2\n").unwrap() {
        AstNode::Statements(v, s) => {
            assert_eq!(v.len(), 4);
            assert_eq!((s.start, s.end), (0, 8));
        }
        other => panic!("not a statement list: {:?}", other),
    }
    match parse_source("\n\n").unwrap() {
        AstNode::Statements(v, s) => {
            assert!(v.is_empty());
            assert_eq!(s, TokenSpan::none());
        }
        other => panic!("not a statement list: {:?}", other),
    }
}

#[test]
fn newlines_allowed_inside_declaration() {
    assert_eq!(assigned("val\nx\n=\n5"), "5");
}

#[test]
fn each_malformed_line_reported() {
    let v = errors("val = 1\nvar = 2\n");
    assert_eq!(
        v,
        vec![
            SyntaxError::ExpectedToken("an identifier".to_string(), span(1, 5, 1, 5)),
            SyntaxError::ExpectedToken("an identifier".to_string(), span(2, 5, 2, 5)),
        ]
    );
}

#[test]
fn binop_span_covers_both_operands() {
    let v = statements("val z = a + b");
    match &v[1] {
        AstNode::VarAssign(_, e, _) => match e {
            Expr::BinOp(l, BinOp::Plus, r, s) => {
                assert_eq!((s.start, s.end), (3, 5));
                assert_eq!(s.start, l.extra_data().start);
                assert_eq!(s.end, r.extra_data().end);
                let covered: Vec<String> = s.tokens().iter().map(|t| t.text.clone()).collect();
                assert_eq!(covered, vec!["a", "+", "b"]);
                assert_eq!(e.extra_data(), s);
            }
            other => panic!("not a sum: {:?}", other),
        },
        other => panic!("not a sum: {:?}", other),
    }
}

#[test]
fn qualified_declaration_is_fatal() {
    match parse_source("val a::b = 1\nval = 2\n") {
        Err(RolError::QualifiedDeclaration(id, s)) => {
            assert_eq!(id.package, Some("a".to_string()));
            assert_eq!(id.name, "b");
            assert_eq!(s, span(1, 5, 1, 8));
        }
        other => panic!("expected a fatal error: {:?}", other),
    }
}

#[test]
fn parsing_twice_gives_the_same_tree() {
    let text = "val x = f(1, 2) ** -y\nvar z = x\n";
    assert!(parse_source(text).is_ok());
    assert_eq!(parse_source(text), parse_source(text));
    let bad = "val = 1\nvar x 2\n";
    assert_eq!(parse_source(bad), parse_source(bad));
}

#[test]
fn missing_newline_keeps_the_next_line() {
    let v = errors("val x = 1 val y = 2\n");
    assert_eq!(v, vec![SyntaxError::ExpectedNewline(span(1, 11, 1, 13))]);
    let v = errors("val x = 1 2\nval y = 3\n");
    assert_eq!(
        v,
        vec![
            SyntaxError::ExpectedNewline(span(1, 11, 1, 11)),
            SyntaxError::ExpectedToken("'val' or 'var'".to_string(), span(1, 11, 1, 11)),
        ]
    );
}

#[test]
fn error_at_line_end_keeps_the_next_line() {
    let v = errors("val x = 1 +\nval y = 2\nval = 3\n");
    assert_eq!(
        v,
        vec![
            SyntaxError::UnexpectedToken(span(1, 12, 1, 12)),
            SyntaxError::ExpectedToken("an identifier".to_string(), span(3, 5, 3, 5)),
        ]
    );
}

#[test]
fn missing_equals_and_bad_expression() {
    let v = errors("val x 1\n");
    assert_eq!(
        v,
        vec![
            SyntaxError::ExpectedToken("'='".to_string(), span(1, 7, 1, 7)),
            SyntaxError::UnexpectedEof,
        ]
    );
    let v = errors("val x = )\n");
    assert_eq!(v, vec![SyntaxError::UnexpectedToken(span(1, 9, 1, 9))]);
    let v = errors("val x =");
    assert_eq!(v, vec![SyntaxError::UnexpectedEof]);
}

#[test]
fn statement_must_start_with_keyword() {
    let v = errors("x = 1\nval y = 2\n");
    assert_eq!(v, vec![SyntaxError::ExpectedToken("'val' or 'var'".to_string(), span(1, 1, 1, 1))]);
}

#[test]
fn missing_commas_all_reported() {
    let v = errors("val x = f(1 2 3 4 5)\n");
    assert_eq!(
        v,
        vec![
            SyntaxError::ExpectedToken("','".to_string(), span(1, 13, 1, 13)),
            SyntaxError::ExpectedToken("','".to_string(), span(1, 17, 1, 17)),
        ]
    );
    let v = errors("val x = f(1 2");
    assert_eq!(
        v,
        vec![
            SyntaxError::ExpectedToken("','".to_string(), span(1, 13, 1, 13)),
            SyntaxError::UnexpectedEof,
        ]
    );
}

#[test]
fn lexical_error_stops_at_once() {
    assert_eq!(
        parse_source("val x = 1\nval y = 1.2.3\n"),
        Err(RolError::Syntax(SyntaxError::InvalidNumber("1.2.3".to_string(), span(2, 9, 2, 13))))
    );
}

#[test]
fn parse_of_lexed_tokens() {
    let tokens = lex("var q = -(1)").unwrap();
    match parse(tokens) {
        Err(RolError::Multiple(v)) => {
            assert_eq!(v, vec![SyntaxError::UnexpectedToken(span(1, 10, 1, 10))]);
        }
        other => panic!("expected an error: {:?}", other),
    }
    let prefix = PrefixOp::Negate;
    assert_eq!(format!("{:?}", prefix), "Negate");
}
