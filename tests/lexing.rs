use rol::common::Identifier;
use rol::error::SyntaxError;
use rol::lexer::{lex, RolKeyword, SingleChar, Token, TokenType};
use rol::location::{Position, Span};

fn kinds(tokens: &[Token]) -> Vec<TokenType> {
    tokens.iter().map(|t| t.token_type.clone()).collect()
}

fn span(l1: usize, c1: usize, l2: usize, c2: usize) -> Span {
    Span::new(Position { line: l1, column: c1 }, Position { line: l2, column: c2 })
}

#[test]
fn newlines_collapse_to_one_token() {
    let tokens = lex("a\n\n\nb").unwrap();
    assert_eq!(
        kinds(&tokens),
        vec![TokenType::Identifier, TokenType::Newline, TokenType::Identifier]
    );
    assert_eq!(tokens[0].text, "a");
    assert_eq!(tokens[2].text, "b");
    assert_eq!(tokens[2].span, span(4, 1, 4, 1));
}

#[test]
fn line_breaks_of_each_kind_reset_the_column() {
    let tokens = lex("a\r\n  \r\rb\n  c").unwrap();
    assert_eq!(
        kinds(&tokens),
        vec![
            TokenType::Identifier,
            TokenType::Newline,
            TokenType::Identifier,
            TokenType::Newline,
            TokenType::Identifier
        ]
    );
    assert_eq!(tokens[1].text, "\r\n");
    assert_eq!(tokens[2].span, span(4, 1, 4, 1));
    assert_eq!(tokens[4].span, span(5, 3, 5, 3));
}

#[test]
fn lexing_twice_gives_the_same_tokens() {
    let text = "val x = \"\\u0041\" ** 2\n\nvar y = x";
    assert_eq!(lex(text), lex(text));
    assert_eq!(lex("a $"), lex("a $"));
}

#[test]
fn unicode_escape_decodes() {
    let tokens = lex("\"\\u0041\"").unwrap();
    assert_eq!(tokens.len(), 1);
    assert_eq!(tokens[0].token_type, TokenType::String("A".to_string()));
    assert_eq!(tokens[0].text, "\"\\u0041\"");
    assert_eq!(tokens[0].span, span(1, 1, 1, 8));
}

#[test]
fn other_escapes_are_kept() {
    let tokens = lex("\"a\\n\\\"b\"").unwrap();
    assert_eq!(tokens.len(), 1);
    assert_eq!(tokens[0].token_type, TokenType::String("a\\n\\\"b".to_string()));
}

#[test]
fn keywords_and_identifiers() {
    let tokens = lex("val var if else value").unwrap();
    assert_eq!(
        kinds(&tokens),
        vec![
            TokenType::Keyword(RolKeyword::Val),
            TokenType::Keyword(RolKeyword::Var),
            TokenType::Keyword(RolKeyword::If),
            TokenType::Keyword(RolKeyword::Else),
            TokenType::Identifier
        ]
    );
    assert_eq!(tokens[4].span, span(1, 17, 1, 21));
}

#[test]
fn identifiers_are_normalized() {
    let tokens = lex("e\u{301}x").unwrap();
    assert_eq!(tokens.len(), 1);
    assert_eq!(tokens[0].token_type, TokenType::Identifier);
    assert_eq!(tokens[0].text, "\u{e9}x");
    assert_eq!(tokens[0].span, span(1, 1, 1, 3));
}

#[test]
fn unicode_identifiers_start_tokens() {
    let tokens = lex("π1 _x").unwrap_err();
    assert_eq!(tokens, SyntaxError::UnexpectedChar(span(1, 4, 1, 4)));
    let tokens = lex("π1").unwrap();
    assert_eq!(tokens[0].text, "π1");
}

#[test]
fn operators() {
    let tokens = lex(":: == != <= >= && || ** = < > * ! , - ( ) + % /").unwrap();
    assert_eq!(
        kinds(&tokens),
        vec![
            TokenType::DoubleColon,
            TokenType::DoubleEquals,
            TokenType::NotEquals,
            TokenType::LessThanEquals,
            TokenType::GreaterThanEquals,
            TokenType::And,
            TokenType::Or,
            TokenType::DoubleStar,
            TokenType::SingleChar(SingleChar::Equals),
            TokenType::SingleChar(SingleChar::LessThan),
            TokenType::SingleChar(SingleChar::GreaterThan),
            TokenType::SingleChar(SingleChar::Star),
            TokenType::SingleChar(SingleChar::Not),
            TokenType::SingleChar(SingleChar::Comma),
            TokenType::SingleChar(SingleChar::Minus),
            TokenType::SingleChar(SingleChar::OpenParen),
            TokenType::SingleChar(SingleChar::CloseParen),
            TokenType::SingleChar(SingleChar::Plus),
            TokenType::SingleChar(SingleChar::Percent),
            TokenType::SingleChar(SingleChar::Slash)
        ]
    );
    assert_eq!(tokens[0].span, span(1, 1, 1, 2));
}

#[test]
fn numbers() {
    let tokens = lex("12 3.25 7.").unwrap();
    assert_eq!(kinds(&tokens), vec![TokenType::Number, TokenType::Number, TokenType::Number]);
    assert_eq!(tokens[1].text, "3.25");
    assert_eq!(tokens[1].span, span(1, 4, 1, 7));
}

#[test]
fn invalid_number() {
    assert_eq!(
        lex("x = 1.2.3").unwrap_err(),
        SyntaxError::InvalidNumber("1.2.3".to_string(), span(1, 5, 1, 9))
    );
}

#[test]
fn invalid_unicode_escape() {
    assert_eq!(
        lex("\"ab\\uD800\"").unwrap_err(),
        SyntaxError::InvalidUnicodeEscape("D800".to_string(), span(1, 6, 1, 9))
    );
    assert_eq!(
        lex("\"\\uzz12\"").unwrap_err(),
        SyntaxError::InvalidUnicodeEscape("zz12".to_string(), span(1, 4, 1, 7))
    );
}

#[test]
fn lone_composite_characters() {
    assert_eq!(lex("a : b").unwrap_err(), SyntaxError::UnexpectedChar(span(1, 3, 1, 3)));
    assert_eq!(lex("|").unwrap_err(), SyntaxError::UnexpectedChar(span(1, 1, 1, 1)));
    assert_eq!(lex("\n&x").unwrap_err(), SyntaxError::UnexpectedChar(span(2, 1, 2, 1)));
    assert_eq!(lex("a $").unwrap_err(), SyntaxError::UnexpectedChar(span(1, 3, 1, 3)));
}

#[test]
fn unterminated_string() {
    assert_eq!(lex("\"abc").unwrap_err(), SyntaxError::UnexpectedEof);
    assert_eq!(lex("\"\\u00").unwrap_err(), SyntaxError::UnexpectedEof);
}

#[test]
fn empty_text_has_no_tokens() {
    assert!(lex("").unwrap().is_empty());
    assert_eq!(kinds(&lex(" \t").unwrap()), Vec::<TokenType>::new());
}

#[test]
fn keyword_from_str() {
    assert_eq!(RolKeyword::from_str("val"), Some(RolKeyword::Val));
    assert_eq!(RolKeyword::from_str("else"), Some(RolKeyword::Else));
    assert_eq!(RolKeyword::from_str("vals"), None);
    assert_eq!(SingleChar::from_char('%'), Some(SingleChar::Percent));
    assert_eq!(SingleChar::from_char('='), None);
}

#[test]
fn identifier_split_on_package_separator() {
    let id = Identifier::from_str("a::b::c");
    assert_eq!(id.package, Some("a::b".to_string()));
    assert_eq!(id.name, "c");
    assert_eq!(id.render(), "a::b::c");
    let id = Identifier::from_str("a:::b");
    assert_eq!(id.package, Some("a".to_string()));
    assert_eq!(id.name, ":b");
    let id = Identifier::from_str("plain");
    assert_eq!(id.package, None);
    assert_eq!(id.render(), "plain");
}
