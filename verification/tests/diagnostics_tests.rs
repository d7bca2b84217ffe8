use rnf::diagnostics::kind_text;
use rnf::lexer::TokenKind;
use rnf::parser::ParseError;

#[test]
fn expected_token_message() {
    let e = ParseError::Expected { expected: TokenKind::RParen, got: TokenKind::Ident("x".to_string()), line: 3 };
    assert_eq!(e.message(""), "Expected RParen but got Ident(\"x\") at line 3");
}

#[test]
fn messages_of_each_error() {
    let got = TokenKind::Int(-5);
    assert_eq!(
        ParseError::ExpectedIdent { got: got.clone(), line: 1 }.message(""),
        "Expected identifier, got Int(-5) at line 1"
    );
    assert_eq!(
        ParseError::TopLevelIdent { name: "foo".to_string(), line: 12 }.message(""),
        "Unexpected identifier 'foo' at top level — line 12"
    );
    assert_eq!(
        ParseError::TopLevelToken { got: TokenKind::Plus, line: 2 }.message(""),
        "Unexpected token Plus at top level (line 2)"
    );
    assert_eq!(
        ParseError::ExpectedType { got: TokenKind::Bool(true), line: 7 }.message(""),
        "Expected type, got Bool(true) at line 7"
    );
    assert_eq!(
        ParseError::ExprToken { got: TokenKind::Float("1.50".to_string()), line: 4 }.message("1.5"),
        "Unexpected token in expression: Float(1.5) at line 4"
    );
}

#[test]
fn token_kinds_show_their_payload_quoted() {
    assert_eq!(kind_text(&TokenKind::Str("a\"b\n".to_string()), ""), "Str(\"a\\\"b\\n\")");
    assert_eq!(kind_text(&TokenKind::Ident("name".to_string()), ""), "Ident(\"name\")");
    assert_eq!(kind_text(&TokenKind::EOF, ""), "EOF");
    assert_eq!(kind_text(&TokenKind::Int(42), ""), "Int(42)");
    assert_eq!(kind_text(&TokenKind::Bool(false), ""), "Bool(false)");
}
