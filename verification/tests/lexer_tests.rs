use rnf::lexer::{LexError, Lexer, Token, TokenKind};

fn lex(src: &str) -> Result<Vec<Token>, LexError> {
    let mut l = Lexer::new(src);
    l.tokenize()
}

fn kinds(src: &str) -> Vec<TokenKind> {
    lex(src).expect("lexes").into_iter().map(|t| t.kind).collect()
}

fn ident(s: &str) -> TokenKind {
    TokenKind::Ident(s.to_string())
}

#[test]
fn newline_after_value_inserts_semicolon() {
    let toks = lex("x = 42\ny = x + 1").unwrap();
    let ks: Vec<TokenKind> = toks.iter().map(|t| t.kind.clone()).collect();
    assert_eq!(
        ks,
        vec![
            ident("x"),
            TokenKind::Assign,
            TokenKind::Int(42),
            TokenKind::Semicolon,
            ident("y"),
            TokenKind::Assign,
            ident("x"),
            TokenKind::Plus,
            TokenKind::Int(1),
            TokenKind::EOF,
        ]
    );
    assert_eq!((toks[0].line, toks[0].col), (1, 1));
    assert_eq!((toks[2].line, toks[2].col), (1, 5));
    // The inserted semicolon stands where the next token starts.
    assert_eq!((toks[3].line, toks[3].col), (2, 1));
    assert_eq!((toks[8].line, toks[8].col), (2, 9));
    assert_eq!((toks[9].line, toks[9].col), (2, 10));
}

#[test]
fn newline_after_operator_inserts_nothing() {
    assert_eq!(
        kinds("x = 1 +\n2"),
        vec![ident("x"), TokenKind::Assign, TokenKind::Int(1), TokenKind::Plus, TokenKind::Int(2), TokenKind::EOF]
    );
}

#[test]
fn several_newlines_insert_one_semicolon() {
    assert_eq!(
        kinds("a\n\n\nb"),
        vec![ident("a"), TokenKind::Semicolon, ident("b"), TokenKind::EOF]
    );
}

#[test]
fn statement_enders_insert_semicolons() {
    let src = "return\nbreak\ncontinue\nnil\ntrue\n\"s\"\n1.5\n)\n]\n}\n";
    assert_eq!(
        kinds(src),
        vec![
            TokenKind::Return,
            TokenKind::Semicolon,
            TokenKind::Break,
            TokenKind::Semicolon,
            TokenKind::Continue,
            TokenKind::Semicolon,
            TokenKind::Nil,
            TokenKind::Semicolon,
            TokenKind::Bool(true),
            TokenKind::Semicolon,
            TokenKind::Str("s".to_string()),
            TokenKind::Semicolon,
            TokenKind::Float("1.5".to_string()),
            TokenKind::Semicolon,
            TokenKind::RParen,
            TokenKind::Semicolon,
            TokenKind::RBracket,
            TokenKind::Semicolon,
            TokenKind::RBrace,
            TokenKind::Semicolon,
            TokenKind::EOF,
        ]
    );
}

#[test]
fn empty_source_is_one_eof() {
    let toks = lex("").unwrap();
    assert_eq!(toks.len(), 1);
    assert_eq!(toks[0].kind, TokenKind::EOF);
    assert_eq!((toks[0].line, toks[0].col), (1, 1));
}

#[test]
fn output_ends_with_single_eof() {
    for src in ["fn main() {}", "x = 1\n", "// only a comment", "a b c\n\n"] {
        let ks = kinds(src);
        assert_eq!(ks.last(), Some(&TokenKind::EOF));
        assert_eq!(ks.iter().filter(|k| **k == TokenKind::EOF).count(), 1);
    }
}

#[test]
fn numbers() {
    assert_eq!(kinds("0xFF"), vec![TokenKind::Int(255), TokenKind::EOF]);
    assert_eq!(kinds("0X1a"), vec![TokenKind::Int(26), TokenKind::EOF]);
    assert_eq!(kinds("0x"), vec![TokenKind::Int(0), TokenKind::EOF]);
    assert_eq!(kinds("3.14"), vec![TokenKind::Float("3.14".to_string()), TokenKind::EOF]);
    assert_eq!(
        kinds("1..5"),
        vec![TokenKind::Int(1), TokenKind::DotDot, TokenKind::Int(5), TokenKind::EOF]
    );
    assert_eq!(
        kinds("1.2.3"),
        vec![TokenKind::Float("1.2".to_string()), TokenKind::Dot, TokenKind::Int(3), TokenKind::EOF]
    );
    assert_eq!(kinds("9223372036854775807"), vec![TokenKind::Int(i64::MAX), TokenKind::EOF]);
    assert_eq!(kinds("99999999999999999999"), vec![TokenKind::Int(0), TokenKind::EOF]);
    assert_eq!(kinds("0x8000000000000000"), vec![TokenKind::Int(0), TokenKind::EOF]);
}

#[test]
fn keywords_and_identifiers() {
    let src = "fn return if else while loop in go struct impl exec print let ptr make_chan send recv raw_mem asm pub use mod nil break continue true false foo_1 _x é";
    assert_eq!(
        kinds(src),
        vec![
            TokenKind::Fn,
            TokenKind::Return,
            TokenKind::If,
            TokenKind::Else,
            TokenKind::While,
            TokenKind::Loop,
            TokenKind::In,
            TokenKind::Go,
            TokenKind::Struct,
            TokenKind::Impl,
            TokenKind::Exec,
            TokenKind::Print,
            TokenKind::Let,
            TokenKind::Ptr,
            TokenKind::MakeChan,
            TokenKind::Send,
            TokenKind::Recv,
            TokenKind::RawMem,
            TokenKind::Asm,
            TokenKind::Pub,
            TokenKind::Use,
            TokenKind::Mod,
            TokenKind::Nil,
            TokenKind::Break,
            TokenKind::Continue,
            TokenKind::Bool(true),
            TokenKind::Bool(false),
            ident("foo_1"),
            ident("_x"),
            ident("é"),
            TokenKind::EOF,
        ]
    );
}

#[test]
fn operators_and_punctuation() {
    let src = "+ - -> * / % = == ! != < <= <- > >= & && || . .. { } ( ) [ ] , : ;";
    assert_eq!(
        kinds(src),
        vec![
            TokenKind::Plus,
            TokenKind::Minus,
            TokenKind::Arrow,
            TokenKind::Star,
            TokenKind::Slash,
            TokenKind::Percent,
            TokenKind::Assign,
            TokenKind::Eq,
            TokenKind::Not,
            TokenKind::Ne,
            TokenKind::Lt,
            TokenKind::Le,
            TokenKind::ChanRecv,
            TokenKind::Gt,
            TokenKind::Ge,
            TokenKind::Amp,
            TokenKind::And,
            TokenKind::Or,
            TokenKind::Dot,
            TokenKind::DotDot,
            TokenKind::LBrace,
            TokenKind::RBrace,
            TokenKind::LParen,
            TokenKind::RParen,
            TokenKind::LBracket,
            TokenKind::RBracket,
            TokenKind::Comma,
            TokenKind::Colon,
            TokenKind::Semicolon,
            TokenKind::EOF,
        ]
    );
}

#[test]
fn string_escapes() {
    assert_eq!(
        kinds("\"a\\nb\\t\\r\\\"\\\\\\0\\q\""),
        vec![TokenKind::Str("a\nb\t\r\"\\\0\\q".to_string()), TokenKind::EOF]
    );
}

#[test]
fn comments_are_skipped() {
    assert_eq!(
        kinds("x // note\ny /* a\nb */ z"),
        vec![ident("x"), TokenKind::Semicolon, ident("y"), ident("z"), TokenKind::EOF]
    );
    assert_eq!(kinds("/* never closed"), vec![TokenKind::EOF]);
}

#[test]
fn lexing_errors() {
    assert_eq!(lex("\"abc").unwrap_err(), LexError::UnterminatedString { line: 1 });
    assert_eq!(lex("\"a\nb").unwrap_err(), LexError::UnterminatedString { line: 2 });
    assert_eq!(lex("\"ab\\").unwrap_err(), LexError::UnterminatedEscape);
    assert_eq!(lex("a | b").unwrap_err(), LexError::LonePipe { line: 1, col: 3 });
    assert_eq!(lex("x = @").unwrap_err(), LexError::UnexpectedChar { ch: '@', line: 1, col: 5 });
    assert_eq!(lex("ok\n  #").unwrap_err(), LexError::UnexpectedChar { ch: '#', line: 2, col: 3 });
}

#[test]
fn float_exponents() {
    assert_eq!(kinds("1e9"), vec![TokenKind::Float("1e9".to_string()), TokenKind::EOF]);
    assert_eq!(kinds("2.5E-3"), vec![TokenKind::Float("2.5E-3".to_string()), TokenKind::EOF]);
    assert_eq!(kinds("7e+2"), vec![TokenKind::Float("7e+2".to_string()), TokenKind::EOF]);
    assert_eq!(kinds("1e"), vec![TokenKind::Int(1), ident("e"), TokenKind::EOF]);
    assert_eq!(
        kinds("3e+x"),
        vec![TokenKind::Int(3), ident("e"), TokenKind::Plus, ident("x"), TokenKind::EOF]
    );
    assert_eq!(kinds("0x1e9"), vec![TokenKind::Int(0x1e9), TokenKind::EOF]);
}

#[test]
fn lexing_error_messages() {
    assert_eq!(LexError::UnterminatedEscape.message(), "Unterminated string escape");
    assert_eq!(LexError::UnterminatedString { line: 3 }.message(), "Unterminated string at line 3");
    assert_eq!(
        LexError::LonePipe { line: 1, col: 12 }.message(),
        "Unexpected '|' at 1:12 — did you mean '||'?"
    );
    assert_eq!(
        LexError::UnexpectedChar { ch: '@', line: 2, col: 5 }.message(),
        "Unexpected character '@' at 2:5"
    );
}
