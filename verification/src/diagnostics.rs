//! The texts of parse errors and of token kinds, as the command line shows them.
use vstd::prelude::*;
use crate::lexer::{SpecTokenKind, TokenKind};
use crate::parser::{ParseError, SpecParseError};
use crate::runtime::{int_text, int_to_text, nat_text, push_nat_text};
use crate::text::{push_text, string_of};

verus! {

/// What `<str as Debug>` writes for a text: the text in double quotes, with
/// quotes, backslashes and characters that do not print escaped.
pub uninterp spec fn debug_quoted(s: Seq<char>) -> Seq<char>;

/// `<str as Debug>::fmt`, through `format!("{:?}", ..)`: the result is named
/// by `debug_quoted`, a function of the text alone.
#[verifier::external_body]
fn quoted(s: &str) -> (r: String)
    ensures
        r@ == debug_quoted(s@),
{
    format!("{:?}", s)
}

/// A token kind as a diagnostic shows it: the variant's name, with its
/// payload in brackets. A float literal shows as `float_shown`, the host's
/// text for its value.
pub open spec fn kind_text_spec(k: SpecTokenKind, float_shown: Seq<char>) -> Seq<char> {
    match k {
        SpecTokenKind::Int(n) => "Int("@ + int_text(n as int) + ")"@,
        SpecTokenKind::Float(_) => "Float("@ + float_shown + ")"@,
        SpecTokenKind::Str(s) => "Str("@ + debug_quoted(s) + ")"@,
        SpecTokenKind::Bool(b) => "Bool("@ + (if b { "true"@ } else { "false"@ }) + ")"@,
        SpecTokenKind::Ident(s) => "Ident("@ + debug_quoted(s) + ")"@,
        SpecTokenKind::Fn => "Fn"@,
        SpecTokenKind::Return => "Return"@,
        SpecTokenKind::If => "If"@,
        SpecTokenKind::Else => "Else"@,
        SpecTokenKind::While => "While"@,
        SpecTokenKind::Loop => "Loop"@,
        SpecTokenKind::In => "In"@,
        SpecTokenKind::Go => "Go"@,
        SpecTokenKind::Struct => "Struct"@,
        SpecTokenKind::Impl => "Impl"@,
        SpecTokenKind::Exec => "Exec"@,
        SpecTokenKind::Print => "Print"@,
        SpecTokenKind::Let => "Let"@,
        SpecTokenKind::Ptr => "Ptr"@,
        SpecTokenKind::MakeChan => "MakeChan"@,
        SpecTokenKind::Send => "Send"@,
        SpecTokenKind::Recv => "Recv"@,
        SpecTokenKind::RawMem => "RawMem"@,
        SpecTokenKind::Asm => "Asm"@,
        SpecTokenKind::Pub => "Pub"@,
        SpecTokenKind::Use => "Use"@,
        SpecTokenKind::Mod => "Mod"@,
        SpecTokenKind::Nil => "Nil"@,
        SpecTokenKind::Break => "Break"@,
        SpecTokenKind::Continue => "Continue"@,
        SpecTokenKind::Plus => "Plus"@,
        SpecTokenKind::Minus => "Minus"@,
        SpecTokenKind::Star => "Star"@,
        SpecTokenKind::Slash => "Slash"@,
        SpecTokenKind::Percent => "Percent"@,
        SpecTokenKind::Assign => "Assign"@,
        SpecTokenKind::Eq => "Eq"@,
        SpecTokenKind::Ne => "Ne"@,
        SpecTokenKind::Lt => "Lt"@,
        SpecTokenKind::Gt => "Gt"@,
        SpecTokenKind::Le => "Le"@,
        SpecTokenKind::Ge => "Ge"@,
        SpecTokenKind::And => "And"@,
        SpecTokenKind::Or => "Or"@,
        SpecTokenKind::Not => "Not"@,
        SpecTokenKind::Amp => "Amp"@,
        SpecTokenKind::Arrow => "Arrow"@,
        SpecTokenKind::ChanRecv => "ChanRecv"@,
        SpecTokenKind::DotDot => "DotDot"@,
        SpecTokenKind::LBrace => "LBrace"@,
        SpecTokenKind::RBrace => "RBrace"@,
        SpecTokenKind::LParen => "LParen"@,
        SpecTokenKind::RParen => "RParen"@,
        SpecTokenKind::LBracket => "LBracket"@,
        SpecTokenKind::RBracket => "RBracket"@,
        SpecTokenKind::Comma => "Comma"@,
        SpecTokenKind::Colon => "Colon"@,
        SpecTokenKind::Semicolon => "Semicolon"@,
        SpecTokenKind::Dot => "Dot"@,
        SpecTokenKind::EOF => "EOF"@,
    }
}

/// The text of a parse error; `float_shown` stands for the value of a float
/// literal that the error names.
pub open spec fn parse_error_text(e: SpecParseError, float_shown: Seq<char>) -> Seq<char> {
    match e {
        SpecParseError::Expected { expected, got, line } => "Expected "@ + kind_text_spec(
            expected,
            float_shown,
        ) + " but got "@ + kind_text_spec(got, float_shown) + " at line "@ + nat_text(line),
        SpecParseError::ExpectedIdent { got, line } => "Expected identifier, got "@ + kind_text_spec(
            got,
            float_shown,
        ) + " at line "@ + nat_text(line),
        SpecParseError::TopLevelIdent { name, line } => "Unexpected identifier '"@ + name
            + "' at top level — line "@ + nat_text(line),
        SpecParseError::TopLevelToken { got, line } => "Unexpected token "@ + kind_text_spec(
            got,
            float_shown,
        ) + " at top level (line "@ + nat_text(line) + ")"@,
        SpecParseError::ExpectedType { got, line } => "Expected type, got "@ + kind_text_spec(
            got,
            float_shown,
        ) + " at line "@ + nat_text(line),
        SpecParseError::ExprToken { got, line } => "Unexpected token in expression: "@
            + kind_text_spec(got, float_shown) + " at line "@ + nat_text(line),
        SpecParseError::Stuck => Seq::empty(),
    }
}

/// The text of a token kind in a diagnostic (see `kind_text_spec`).
pub fn kind_text(k: &TokenKind, float_shown: &str) -> (r: String)
    ensures
        r@ == kind_text_spec(k@, float_shown@),
{
    match k {
        TokenKind::Int(n) => {
            let mut s = string_of("Int(");
            let t = int_to_text(*n);
            push_text(&mut s, t.as_str());
            push_text(&mut s, ")");
            s
        },
        TokenKind::Float(_) => {
            let mut s = string_of("Float(");
            push_text(&mut s, float_shown);
            push_text(&mut s, ")");
            s
        },
        TokenKind::Str(text) => {
            let mut s = string_of("Str(");
            let q = quoted(text.as_str());
            push_text(&mut s, q.as_str());
            push_text(&mut s, ")");
            s
        },
        TokenKind::Bool(b) => {
            let mut s = string_of("Bool(");
            if *b {
                push_text(&mut s, "true");
            } else {
                push_text(&mut s, "false");
            }
            push_text(&mut s, ")");
            s
        },
        TokenKind::Ident(text) => {
            let mut s = string_of("Ident(");
            let q = quoted(text.as_str());
            push_text(&mut s, q.as_str());
            push_text(&mut s, ")");
            s
        },
        TokenKind::Fn => string_of("Fn"),
        TokenKind::Return => string_of("Return"),
        TokenKind::If => string_of("If"),
        TokenKind::Else => string_of("Else"),
        TokenKind::While => string_of("While"),
        TokenKind::Loop => string_of("Loop"),
        TokenKind::In => string_of("In"),
        TokenKind::Go => string_of("Go"),
        TokenKind::Struct => string_of("Struct"),
        TokenKind::Impl => string_of("Impl"),
        TokenKind::Exec => string_of("Exec"),
        TokenKind::Print => string_of("Print"),
        TokenKind::Let => string_of("Let"),
        TokenKind::Ptr => string_of("Ptr"),
        TokenKind::MakeChan => string_of("MakeChan"),
        TokenKind::Send => string_of("Send"),
        TokenKind::Recv => string_of("Recv"),
        TokenKind::RawMem => string_of("RawMem"),
        TokenKind::Asm => string_of("Asm"),
        TokenKind::Pub => string_of("Pub"),
        TokenKind::Use => string_of("Use"),
        TokenKind::Mod => string_of("Mod"),
        TokenKind::Nil => string_of("Nil"),
        TokenKind::Break => string_of("Break"),
        TokenKind::Continue => string_of("Continue"),
        TokenKind::Plus => string_of("Plus"),
        TokenKind::Minus => string_of("Minus"),
        TokenKind::Star => string_of("Star"),
        TokenKind::Slash => string_of("Slash"),
        TokenKind::Percent => string_of("Percent"),
        TokenKind::Assign => string_of("Assign"),
        TokenKind::Eq => string_of("Eq"),
        TokenKind::Ne => string_of("Ne"),
        TokenKind::Lt => string_of("Lt"),
        TokenKind::Gt => string_of("Gt"),
        TokenKind::Le => string_of("Le"),
        TokenKind::Ge => string_of("Ge"),
        TokenKind::And => string_of("And"),
        TokenKind::Or => string_of("Or"),
        TokenKind::Not => string_of("Not"),
        TokenKind::Amp => string_of("Amp"),
        TokenKind::Arrow => string_of("Arrow"),
        TokenKind::ChanRecv => string_of("ChanRecv"),
        TokenKind::DotDot => string_of("DotDot"),
        TokenKind::LBrace => string_of("LBrace"),
        TokenKind::RBrace => string_of("RBrace"),
        TokenKind::LParen => string_of("LParen"),
        TokenKind::RParen => string_of("RParen"),
        TokenKind::LBracket => string_of("LBracket"),
        TokenKind::RBracket => string_of("RBracket"),
        TokenKind::Comma => string_of("Comma"),
        TokenKind::Colon => string_of("Colon"),
        TokenKind::Semicolon => string_of("Semicolon"),
        TokenKind::Dot => string_of("Dot"),
        TokenKind::EOF => string_of("EOF"),
    }
}

fn push_line(s: &mut String, line: usize)
    ensures
        final(s)@ == old(s)@ + nat_text(line as nat),
{
    push_nat_text(s, line as u64);
}

impl ParseError {
    /// The error's message; `float_shown` is the host's text for the value of
    /// a float literal that the error names (it shows nowhere else).
    pub fn message(&self, float_shown: &str) -> (r: String)
        ensures
            r@ == parse_error_text(self@, float_shown@),
    {
        match self {
            ParseError::Expected { expected, got, line } => {
                let mut s = string_of("Expected ");
                let a = kind_text(expected, float_shown);
                push_text(&mut s, a.as_str());
                push_text(&mut s, " but got ");
                let b = kind_text(got, float_shown);
                push_text(&mut s, b.as_str());
                push_text(&mut s, " at line ");
                push_line(&mut s, *line);
                s
            },
            ParseError::ExpectedIdent { got, line } => {
                let mut s = string_of("Expected identifier, got ");
                let b = kind_text(got, float_shown);
                push_text(&mut s, b.as_str());
                push_text(&mut s, " at line ");
                push_line(&mut s, *line);
                s
            },
            ParseError::TopLevelIdent { name, line } => {
                let mut s = string_of("Unexpected identifier '");
                push_text(&mut s, name.as_str());
                push_text(&mut s, "' at top level — line ");
                push_line(&mut s, *line);
                s
            },
            ParseError::TopLevelToken { got, line } => {
                let mut s = string_of("Unexpected token ");
                let b = kind_text(got, float_shown);
                push_text(&mut s, b.as_str());
                push_text(&mut s, " at top level (line ");
                push_line(&mut s, *line);
                push_text(&mut s, ")");
                s
            },
            ParseError::ExpectedType { got, line } => {
                let mut s = string_of("Expected type, got ");
                let b = kind_text(got, float_shown);
                push_text(&mut s, b.as_str());
                push_text(&mut s, " at line ");
                push_line(&mut s, *line);
                s
            },
            ParseError::ExprToken { got, line } => {
                let mut s = string_of("Unexpected token in expression: ");
                let b = kind_text(got, float_shown);
                push_text(&mut s, b.as_str());
                push_text(&mut s, " at line ");
                push_line(&mut s, *line);
                s
            },
        }
    }
}

} // verus!
