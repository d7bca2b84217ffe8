//! The lexer: turns RNF source text into tokens, inserting a `;` where a
//! line ends after a token that can end a statement.
use vstd::prelude::*;
use crate::text::{
    ascii_digit, ascii_hexdigit, is_letter, chars_of, is_letter_or_digit, chars_equal_str,
    digits_i64_or_zero, digits_to_i64, is_ascii_digit, is_ascii_hexdigit, push_char,
    string_from_chars, letter, letter_or_digit, push_text,
};
use crate::runtime::{nat_text, push_nat_text};

verus! {

/// The kind of a token. `Float` holds the literal's source text (digits,
/// one `.`, digits), which the runtime converts to a number.
#[derive(Debug, Clone, PartialEq)]
pub enum TokenKind {
    Int(i64),
    Float(String),
    Str(String),
    Bool(bool),
    Ident(String),
    Fn,
    Return,
    If,
    Else,
    While,
    Loop,
    In,
    Go,
    Struct,
    Impl,
    Exec,
    Print,
    Let,
    Ptr,
    MakeChan,
    Send,
    Recv,
    RawMem,
    Asm,
    Pub,
    Use,
    Mod,
    Nil,
    Break,
    Continue,
    Plus,
    Minus,
    Star,
    Slash,
    Percent,
    Assign,
    Eq,
    Ne,
    Lt,
    Gt,
    Le,
    Ge,
    And,
    Or,
    Not,
    Amp,
    Arrow,
    ChanRecv,
    DotDot,
    LBrace,
    RBrace,
    LParen,
    RParen,
    LBracket,
    RBracket,
    Comma,
    Colon,
    Semicolon,
    Dot,
    EOF,
}

/// The mathematical model of a `TokenKind`: text payloads become `Seq<char>`.
pub enum SpecTokenKind {
    Int(i64),
    Float(Seq<char>),
    Str(Seq<char>),
    Bool(bool),
    Ident(Seq<char>),
    Fn,
    Return,
    If,
    Else,
    While,
    Loop,
    In,
    Go,
    Struct,
    Impl,
    Exec,
    Print,
    Let,
    Ptr,
    MakeChan,
    Send,
    Recv,
    RawMem,
    Asm,
    Pub,
    Use,
    Mod,
    Nil,
    Break,
    Continue,
    Plus,
    Minus,
    Star,
    Slash,
    Percent,
    Assign,
    Eq,
    Ne,
    Lt,
    Gt,
    Le,
    Ge,
    And,
    Or,
    Not,
    Amp,
    Arrow,
    ChanRecv,
    DotDot,
    LBrace,
    RBrace,
    LParen,
    RParen,
    LBracket,
    RBracket,
    Comma,
    Colon,
    Semicolon,
    Dot,
    EOF,
}

impl View for TokenKind {
    type V = SpecTokenKind;

    open spec fn view(&self) -> SpecTokenKind {
        match self {
            TokenKind::Int(n) => SpecTokenKind::Int(*n),
            TokenKind::Float(s) => SpecTokenKind::Float(s@),
            TokenKind::Str(s) => SpecTokenKind::Str(s@),
            TokenKind::Bool(b) => SpecTokenKind::Bool(*b),
            TokenKind::Ident(s) => SpecTokenKind::Ident(s@),
            TokenKind::Fn => SpecTokenKind::Fn,
            TokenKind::Return => SpecTokenKind::Return,
            TokenKind::If => SpecTokenKind::If,
            TokenKind::Else => SpecTokenKind::Else,
            TokenKind::While => SpecTokenKind::While,
            TokenKind::Loop => SpecTokenKind::Loop,
            TokenKind::In => SpecTokenKind::In,
            TokenKind::Go => SpecTokenKind::Go,
            TokenKind::Struct => SpecTokenKind::Struct,
            TokenKind::Impl => SpecTokenKind::Impl,
            TokenKind::Exec => SpecTokenKind::Exec,
            TokenKind::Print => SpecTokenKind::Print,
            TokenKind::Let => SpecTokenKind::Let,
            TokenKind::Ptr => SpecTokenKind::Ptr,
            TokenKind::MakeChan => SpecTokenKind::MakeChan,
            TokenKind::Send => SpecTokenKind::Send,
            TokenKind::Recv => SpecTokenKind::Recv,
            TokenKind::RawMem => SpecTokenKind::RawMem,
            TokenKind::Asm => SpecTokenKind::Asm,
            TokenKind::Pub => SpecTokenKind::Pub,
            TokenKind::Use => SpecTokenKind::Use,
            TokenKind::Mod => SpecTokenKind::Mod,
            TokenKind::Nil => SpecTokenKind::Nil,
            TokenKind::Break => SpecTokenKind::Break,
            TokenKind::Continue => SpecTokenKind::Continue,
            TokenKind::Plus => SpecTokenKind::Plus,
            TokenKind::Minus => SpecTokenKind::Minus,
            TokenKind::Star => SpecTokenKind::Star,
            TokenKind::Slash => SpecTokenKind::Slash,
            TokenKind::Percent => SpecTokenKind::Percent,
            TokenKind::Assign => SpecTokenKind::Assign,
            TokenKind::Eq => SpecTokenKind::Eq,
            TokenKind::Ne => SpecTokenKind::Ne,
            TokenKind::Lt => SpecTokenKind::Lt,
            TokenKind::Gt => SpecTokenKind::Gt,
            TokenKind::Le => SpecTokenKind::Le,
            TokenKind::Ge => SpecTokenKind::Ge,
            TokenKind::And => SpecTokenKind::And,
            TokenKind::Or => SpecTokenKind::Or,
            TokenKind::Not => SpecTokenKind::Not,
            TokenKind::Amp => SpecTokenKind::Amp,
            TokenKind::Arrow => SpecTokenKind::Arrow,
            TokenKind::ChanRecv => SpecTokenKind::ChanRecv,
            TokenKind::DotDot => SpecTokenKind::DotDot,
            TokenKind::LBrace => SpecTokenKind::LBrace,
            TokenKind::RBrace => SpecTokenKind::RBrace,
            TokenKind::LParen => SpecTokenKind::LParen,
            TokenKind::RParen => SpecTokenKind::RParen,
            TokenKind::LBracket => SpecTokenKind::LBracket,
            TokenKind::RBracket => SpecTokenKind::RBracket,
            TokenKind::Comma => SpecTokenKind::Comma,
            TokenKind::Colon => SpecTokenKind::Colon,
            TokenKind::Semicolon => SpecTokenKind::Semicolon,
            TokenKind::Dot => SpecTokenKind::Dot,
            TokenKind::EOF => SpecTokenKind::EOF,
        }
    }
}

/// The variant of a token kind as a number: two kinds have the same tag
/// exactly when they are the same variant, whatever their payloads.
pub open spec fn kind_tag(k: SpecTokenKind) -> int {
    match k {
        SpecTokenKind::Int(..) => 0,
        SpecTokenKind::Float(..) => 1,
        SpecTokenKind::Str(..) => 2,
        SpecTokenKind::Bool(..) => 3,
        SpecTokenKind::Ident(..) => 4,
        SpecTokenKind::Fn => 5,
        SpecTokenKind::Return => 6,
        SpecTokenKind::If => 7,
        SpecTokenKind::Else => 8,
        SpecTokenKind::While => 9,
        SpecTokenKind::Loop => 10,
        SpecTokenKind::In => 11,
        SpecTokenKind::Go => 12,
        SpecTokenKind::Struct => 13,
        SpecTokenKind::Impl => 14,
        SpecTokenKind::Exec => 15,
        SpecTokenKind::Print => 16,
        SpecTokenKind::Let => 17,
        SpecTokenKind::Ptr => 18,
        SpecTokenKind::MakeChan => 19,
        SpecTokenKind::Send => 20,
        SpecTokenKind::Recv => 21,
        SpecTokenKind::RawMem => 22,
        SpecTokenKind::Asm => 23,
        SpecTokenKind::Pub => 24,
        SpecTokenKind::Use => 25,
        SpecTokenKind::Mod => 26,
        SpecTokenKind::Nil => 27,
        SpecTokenKind::Break => 28,
        SpecTokenKind::Continue => 29,
        SpecTokenKind::Plus => 30,
        SpecTokenKind::Minus => 31,
        SpecTokenKind::Star => 32,
        SpecTokenKind::Slash => 33,
        SpecTokenKind::Percent => 34,
        SpecTokenKind::Assign => 35,
        SpecTokenKind::Eq => 36,
        SpecTokenKind::Ne => 37,
        SpecTokenKind::Lt => 38,
        SpecTokenKind::Gt => 39,
        SpecTokenKind::Le => 40,
        SpecTokenKind::Ge => 41,
        SpecTokenKind::And => 42,
        SpecTokenKind::Or => 43,
        SpecTokenKind::Not => 44,
        SpecTokenKind::Amp => 45,
        SpecTokenKind::Arrow => 46,
        SpecTokenKind::ChanRecv => 47,
        SpecTokenKind::DotDot => 48,
        SpecTokenKind::LBrace => 49,
        SpecTokenKind::RBrace => 50,
        SpecTokenKind::LParen => 51,
        SpecTokenKind::RParen => 52,
        SpecTokenKind::LBracket => 53,
        SpecTokenKind::RBracket => 54,
        SpecTokenKind::Comma => 55,
        SpecTokenKind::Colon => 56,
        SpecTokenKind::Semicolon => 57,
        SpecTokenKind::Dot => 58,
        SpecTokenKind::EOF => 59,
    }
}

impl TokenKind {
    /// The variant number of this kind (see `kind_tag`).
    pub fn tag(&self) -> (r: u8)
        ensures
            r as int == kind_tag(self@),
    {
        match self {
            TokenKind::Int(..) => 0,
            TokenKind::Float(..) => 1,
            TokenKind::Str(..) => 2,
            TokenKind::Bool(..) => 3,
            TokenKind::Ident(..) => 4,
            TokenKind::Fn => 5,
            TokenKind::Return => 6,
            TokenKind::If => 7,
            TokenKind::Else => 8,
            TokenKind::While => 9,
            TokenKind::Loop => 10,
            TokenKind::In => 11,
            TokenKind::Go => 12,
            TokenKind::Struct => 13,
            TokenKind::Impl => 14,
            TokenKind::Exec => 15,
            TokenKind::Print => 16,
            TokenKind::Let => 17,
            TokenKind::Ptr => 18,
            TokenKind::MakeChan => 19,
            TokenKind::Send => 20,
            TokenKind::Recv => 21,
            TokenKind::RawMem => 22,
            TokenKind::Asm => 23,
            TokenKind::Pub => 24,
            TokenKind::Use => 25,
            TokenKind::Mod => 26,
            TokenKind::Nil => 27,
            TokenKind::Break => 28,
            TokenKind::Continue => 29,
            TokenKind::Plus => 30,
            TokenKind::Minus => 31,
            TokenKind::Star => 32,
            TokenKind::Slash => 33,
            TokenKind::Percent => 34,
            TokenKind::Assign => 35,
            TokenKind::Eq => 36,
            TokenKind::Ne => 37,
            TokenKind::Lt => 38,
            TokenKind::Gt => 39,
            TokenKind::Le => 40,
            TokenKind::Ge => 41,
            TokenKind::And => 42,
            TokenKind::Or => 43,
            TokenKind::Not => 44,
            TokenKind::Amp => 45,
            TokenKind::Arrow => 46,
            TokenKind::ChanRecv => 47,
            TokenKind::DotDot => 48,
            TokenKind::LBrace => 49,
            TokenKind::RBrace => 50,
            TokenKind::LParen => 51,
            TokenKind::RParen => 52,
            TokenKind::LBracket => 53,
            TokenKind::RBracket => 54,
            TokenKind::Comma => 55,
            TokenKind::Colon => 56,
            TokenKind::Semicolon => 57,
            TokenKind::Dot => 58,
            TokenKind::EOF => 59,
        }
    }
}

/// A token with the line and column (both from 1) where it starts.
#[derive(Debug, Clone)]
pub struct Token {
    pub kind: TokenKind,
    pub line: usize,
    pub col: usize,
}

/// The model of a token.
pub struct SpecToken {
    pub kind: SpecTokenKind,
    pub line: nat,
    pub col: nat,
}

impl View for Token {
    type V = SpecToken;

    open spec fn view(&self) -> SpecToken {
        SpecToken { kind: self.kind@, line: self.line as nat, col: self.col as nat }
    }
}

/// The model of a sequence of tokens.
pub open spec fn tokens_view(v: Seq<Token>) -> Seq<SpecToken> {
    v.map_values(|t: Token| t@)
}

/// Why the source text could not be split into tokens.
#[derive(Debug, Clone, Copy, PartialEq, Eq, Structural)]
pub enum LexError {
    /// A `\` at the very end of the text, inside a string literal.
    UnterminatedEscape,
    /// The text ends inside a string literal; `line` is where it ended.
    UnterminatedString { line: usize },
    /// A single `|`, which is no operator.
    LonePipe { line: usize, col: usize },
    /// A character that starts no token.
    UnexpectedChar { ch: char, line: usize, col: usize },
}


/// The message that reports a lexing error.
pub open spec fn lex_error_text(e: LexError) -> Seq<char> {
    match e {
        LexError::UnterminatedEscape => "Unterminated string escape"@,
        LexError::UnterminatedString { line } => "Unterminated string at line "@ + nat_text(line as nat),
        LexError::LonePipe { line, col } => "Unexpected '|' at "@ + nat_text(line as nat) + ":"@ + nat_text(col as nat)
            + " — did you mean '||'?"@,
        LexError::UnexpectedChar { ch, line, col } => "Unexpected character '"@ + seq![ch] + "' at "@
            + nat_text(line as nat) + ":"@ + nat_text(col as nat),
    }
}

impl LexError {
    /// The message that reports the error.
    pub fn message(&self) -> (r: String)
        ensures
            r@ == lex_error_text(*self),
    {
        let mut s = String::new();
        match *self {
            LexError::UnterminatedEscape => push_text(&mut s, "Unterminated string escape"),
            LexError::UnterminatedString { line } => {
                push_text(&mut s, "Unterminated string at line ");
                push_nat_text(&mut s, line as u64);
            },
            LexError::LonePipe { line, col } => {
                push_text(&mut s, "Unexpected '|' at ");
                push_nat_text(&mut s, line as u64);
                push_text(&mut s, ":");
                push_nat_text(&mut s, col as u64);
                push_text(&mut s, " — did you mean '||'?");
            },
            LexError::UnexpectedChar { ch, line, col } => {
                push_text(&mut s, "Unexpected character '");
                push_char(&mut s, ch);
                push_text(&mut s, "' at ");
                push_nat_text(&mut s, line as u64);
                push_text(&mut s, ":");
                push_nat_text(&mut s, col as u64);
            },
        }
        proof {
            assert(s@ =~= lex_error_text(*self));
        }
        s
    }
}

// ── The model of lexing ──────────────────────────────────────────────────────

/// A place in the source: the index of the next character, and the line and
/// column (both from 1) that it stands on.
pub struct Cursor {
    pub pos: nat,
    pub line: nat,
    pub col: nat,
}

pub open spec fn char_at(src: Seq<char>, i: int) -> Option<char> {
    if 0 <= i < src.len() {
        Some(src[i])
    } else {
        None
    }
}

/// Moving past one character: a newline starts the next line at column 1.
/// At the end of the text the cursor stays where it is.
pub open spec fn step(src: Seq<char>, c: Cursor) -> Cursor {
    if c.pos < src.len() {
        if src[c.pos as int] == '\n' {
            Cursor { pos: c.pos + 1, line: c.line + 1, col: 1 }
        } else {
            Cursor { pos: c.pos + 1, line: c.line, col: c.col + 1 }
        }
    } else {
        c
    }
}

/// How many line breaks `s` holds.
pub open spec fn newlines(s: Seq<char>) -> nat
    decreases s.len(),
{
    if s.len() == 0 {
        0
    } else {
        newlines(s.drop_last()) + if s.last() == '\n' { 1nat } else { 0nat }
    }
}

/// Where the last line of `s` starts: just after its last line break, or 0.
pub open spec fn line_start(s: Seq<char>) -> nat
    decreases s.len(),
{
    if s.len() == 0 {
        0
    } else if s.last() == '\n' {
        s.len()
    } else {
        line_start(s.drop_last())
    }
}

pub proof fn lemma_line_start_bound(s: Seq<char>)
    ensures
        line_start(s) <= s.len(),
    decreases s.len(),
{
    if s.len() > 0 {
        lemma_line_start_bound(s.drop_last());
    }
}

/// The cursor at position `p` of `src`: its line is one more than the line
/// breaks before it, its column one more than the characters between the
/// last of them and `p`.
pub open spec fn cursor_at(src: Seq<char>, p: nat) -> Cursor {
    Cursor {
        pos: p,
        line: 1 + newlines(src.take(p as int)),
        col: (p - line_start(src.take(p as int)) + 1) as nat,
    }
}

/// Stepping over a character keeps the line and column those of the
/// position: from the start, a cursor always names the 1-based line and
/// column of the character it stands on.
pub proof fn law_step_tracks_position(src: Seq<char>, p: nat)
    requires
        p < src.len(),
    ensures
        step(src, cursor_at(src, p)) == cursor_at(src, p + 1),
{
    let a = src.take(p as int);
    let b = src.take(p + 1int);
    assert(b.drop_last() =~= a);
    assert(b.last() == src[p as int]);
    lemma_line_start_bound(a);
}

/// How many characters are left after the cursor.
pub open spec fn remaining(src: Seq<char>, c: Cursor) -> nat {
    if c.pos <= src.len() {
        (src.len() - c.pos) as nat
    } else {
        0
    }
}

/// The tokens after which a line break ends the statement.
pub open spec fn ends_statement(k: SpecTokenKind) -> bool {
    match k {
        SpecTokenKind::Ident(_) | SpecTokenKind::Int(_) | SpecTokenKind::Float(_)
        | SpecTokenKind::Str(_) | SpecTokenKind::Bool(_) | SpecTokenKind::Nil
        | SpecTokenKind::RParen | SpecTokenKind::RBracket | SpecTokenKind::RBrace
        | SpecTokenKind::Return | SpecTokenKind::Break | SpecTokenKind::Continue => true,
        _ => false,
    }
}

pub open spec fn last_ends_statement(last: Option<TokenKind>) -> bool {
    match last {
        Some(k) => ends_statement(k@),
        None => false,
    }
}

/// Where the skipping of blanks stands: in code, in a `//` comment, or in a
/// `/* */` comment.
pub enum Blank {
    Code,
    LineComment,
    BlockComment,
}

/// Skipping spaces, tabs, carriage returns, newlines and comments from `c`.
/// Gives where the next token starts, and whether a line ended on the way
/// while `can_end` holds (the previous token can end a statement), or
/// `inserted` already held.
pub open spec fn skip_blank(src: Seq<char>, c: Cursor, mode: Blank, can_end: bool, inserted: bool) -> (Cursor, bool)
    decreases 2 * remaining(src, c) + (if mode is Code { 0nat } else { 1nat }),
{
    let ch = char_at(src, c.pos as int);
    match mode {
        Blank::Code => {
            if ch == Some('\n') {
                skip_blank(src, step(src, c), Blank::Code, can_end, inserted || can_end)
            } else if ch == Some(' ') || ch == Some('\t') || ch == Some('\r') {
                skip_blank(src, step(src, c), Blank::Code, can_end, inserted)
            } else if ch == Some('/') && char_at(src, c.pos + 1int) == Some('/') {
                skip_blank(src, step(src, c), Blank::LineComment, can_end, inserted)
            } else if ch == Some('/') && char_at(src, c.pos + 1int) == Some('*') {
                skip_blank(src, step(src, step(src, c)), Blank::BlockComment, can_end, inserted)
            } else {
                (c, inserted)
            }
        },
        Blank::LineComment => {
            if ch.is_some() && ch != Some('\n') {
                skip_blank(src, step(src, c), Blank::LineComment, can_end, inserted)
            } else {
                skip_blank(src, c, Blank::Code, can_end, inserted)
            }
        },
        Blank::BlockComment => {
            if ch == Some('*') && char_at(src, c.pos + 1int) == Some('/') {
                skip_blank(src, step(src, step(src, c)), Blank::Code, can_end, inserted)
            } else if ch.is_none() {
                skip_blank(src, c, Blank::Code, can_end, inserted)
            } else {
                skip_blank(src, step(src, c), Blank::BlockComment, can_end, inserted)
            }
        },
    }
}

/// The text that an escape `\e` stands for inside a string literal; an
/// unknown escape is kept as written.
pub open spec fn push_escape(acc: Seq<char>, e: char) -> Seq<char> {
    if e == 'n' {
        acc.push('\n')
    } else if e == 't' {
        acc.push('\t')
    } else if e == 'r' {
        acc.push('\r')
    } else if e == '"' {
        acc.push('"')
    } else if e == '\\' {
        acc.push('\\')
    } else if e == '0' {
        acc.push('\0')
    } else {
        acc.push('\\').push(e)
    }
}

/// The rest of a string literal from `c` (after the opening quote), with
/// `acc` already read: its text and where it ends, past the closing quote.
pub open spec fn scan_string(src: Seq<char>, c: Cursor, acc: Seq<char>) -> Result<(Seq<char>, Cursor), LexError>
    decreases remaining(src, c),
{
    match char_at(src, c.pos as int) {
        None => Err(LexError::UnterminatedString { line: c.line as usize }),
        Some(ch) => {
            if ch == '"' {
                Ok((acc, step(src, c)))
            } else if ch == '\\' {
                let c1 = step(src, c);
                match char_at(src, c1.pos as int) {
                    None => Err(LexError::UnterminatedEscape),
                    Some(e) => scan_string(src, step(src, c1), push_escape(acc, e)),
                }
            } else {
                scan_string(src, step(src, c), acc.push(ch))
            }
        },
    }
}

/// The hexadecimal digits from `c` on.
pub open spec fn scan_hex(src: Seq<char>, c: Cursor, acc: Seq<char>) -> (Seq<char>, Cursor)
    decreases remaining(src, c),
{
    match char_at(src, c.pos as int) {
        Some(ch) => if is_ascii_hexdigit(ch) {
            scan_hex(src, step(src, c), acc.push(ch))
        } else {
            (acc, c)
        },
        None => (acc, c),
    }
}

/// The digits of a decimal literal from `c` on, with at most one `.` and
/// only where a digit follows it; the flag says whether that `.` was read.
pub open spec fn scan_decimal(src: Seq<char>, c: Cursor, is_float: bool, acc: Seq<char>) -> (Seq<char>, bool, Cursor)
    decreases remaining(src, c),
{
    match char_at(src, c.pos as int) {
        Some(ch) => if is_ascii_digit(ch) {
            scan_decimal(src, step(src, c), is_float, acc.push(ch))
        } else if ch == '.' && !is_float && (match char_at(src, c.pos + 1int) {
            Some(d) => is_ascii_digit(d),
            None => false,
        }) {
            scan_decimal(src, step(src, c), true, acc.push('.'))
        } else {
            (acc, is_float, c)
        },
        None => (acc, is_float, c),
    }
}

/// Whether the character at `i` is an ASCII digit.
pub open spec fn digit_at(src: Seq<char>, i: int) -> bool {
    match char_at(src, i) {
        Some(d) => is_ascii_digit(d),
        None => false,
    }
}

/// The start of an exponent at `i`: 1 for `e` or `E` followed by a digit, 2
/// for `e` or `E`, a sign and a digit, 0 where no exponent starts.
pub open spec fn exponent_marker(src: Seq<char>, i: int) -> nat {
    let e = char_at(src, i);
    let s = char_at(src, i + 1);
    if e == Some('e') || e == Some('E') {
        if digit_at(src, i + 1) {
            1
        } else if (s == Some('+') || s == Some('-')) && digit_at(src, i + 2) {
            2
        } else {
            0
        }
    } else {
        0
    }
}

/// A number literal at `c`: `0x`/`0X` and hexadecimal digits, or decimal
/// digits with an optional fraction and an optional exponent (`1e9`,
/// `2.5E-3`); a fraction or an exponent makes it a float. A hexadecimal or
/// integer literal whose value does not fit in an `i64` (or a bare `0x`)
/// reads as 0.
pub open spec fn scan_number(src: Seq<char>, c: Cursor) -> (SpecTokenKind, Cursor) {
    let nx = char_at(src, c.pos + 1int);
    if char_at(src, c.pos as int) == Some('0') && (nx == Some('x') || nx == Some('X')) {
        let (h, c2) = scan_hex(src, step(src, step(src, c)), Seq::empty());
        (SpecTokenKind::Int(digits_i64_or_zero(h, 16)), c2)
    } else {
        let (d, f, c2) = scan_decimal(src, c, false, Seq::empty());
        let k = exponent_marker(src, c2.pos as int);
        if k > 0 {
            let c3 = step(src, c2);
            let (m, c4) = if k == 1 {
                (d.push(src[c2.pos as int]), c3)
            } else {
                (d.push(src[c2.pos as int]).push(src[c3.pos as int]), step(src, c3))
            };
            let (d2, f2, c5) = scan_decimal(src, c4, true, m);
            (SpecTokenKind::Float(d2), c5)
        } else if f {
            (SpecTokenKind::Float(d), c2)
        } else {
            (SpecTokenKind::Int(digits_i64_or_zero(d, 10)), c2)
        }
    }
}

/// The letters, digits and underscores from `c` on.
pub open spec fn scan_word(src: Seq<char>, c: Cursor, acc: Seq<char>) -> (Seq<char>, Cursor)
    decreases remaining(src, c),
{
    match char_at(src, c.pos as int) {
        Some(ch) => if letter_or_digit(ch) || ch == '_' {
            scan_word(src, step(src, c), acc.push(ch))
        } else {
            (acc, c)
        },
        None => (acc, c),
    }
}

/// The token kind of a word: its keyword, `true`/`false`, or an identifier.
pub open spec fn keyword_kind(w: Seq<char>) -> SpecTokenKind {
    if w == "fn"@ {
        SpecTokenKind::Fn
    } else if w == "return"@ {
        SpecTokenKind::Return
    } else if w == "if"@ {
        SpecTokenKind::If
    } else if w == "else"@ {
        SpecTokenKind::Else
    } else if w == "while"@ {
        SpecTokenKind::While
    } else if w == "loop"@ {
        SpecTokenKind::Loop
    } else if w == "in"@ {
        SpecTokenKind::In
    } else if w == "go"@ {
        SpecTokenKind::Go
    } else if w == "struct"@ {
        SpecTokenKind::Struct
    } else if w == "impl"@ {
        SpecTokenKind::Impl
    } else if w == "exec"@ {
        SpecTokenKind::Exec
    } else if w == "print"@ {
        SpecTokenKind::Print
    } else if w == "let"@ {
        SpecTokenKind::Let
    } else if w == "ptr"@ {
        SpecTokenKind::Ptr
    } else if w == "make_chan"@ {
        SpecTokenKind::MakeChan
    } else if w == "send"@ {
        SpecTokenKind::Send
    } else if w == "recv"@ {
        SpecTokenKind::Recv
    } else if w == "raw_mem"@ {
        SpecTokenKind::RawMem
    } else if w == "asm"@ {
        SpecTokenKind::Asm
    } else if w == "pub"@ {
        SpecTokenKind::Pub
    } else if w == "use"@ {
        SpecTokenKind::Use
    } else if w == "mod"@ {
        SpecTokenKind::Mod
    } else if w == "nil"@ {
        SpecTokenKind::Nil
    } else if w == "break"@ {
        SpecTokenKind::Break
    } else if w == "continue"@ {
        SpecTokenKind::Continue
    } else if w == "true"@ {
        SpecTokenKind::Bool(true)
    } else if w == "false"@ {
        SpecTokenKind::Bool(false)
    } else {
        SpecTokenKind::Ident(w)
    }
}

/// A token of one character, or of two when `second` follows.
pub open spec fn one_or_two(src: Seq<char>, c: Cursor, second: char, two: SpecTokenKind, one: SpecTokenKind) -> Result<(SpecTokenKind, Cursor), LexError> {
    let c1 = step(src, c);
    if char_at(src, c1.pos as int) == Some(second) {
        Ok((two, step(src, c1)))
    } else {
        Ok((one, c1))
    }
}

/// The token that starts at `c` (which is before the end of the text), and
/// where it ends.
pub open spec fn scan_token(src: Seq<char>, c: Cursor) -> Result<(SpecTokenKind, Cursor), LexError> {
    let ch = src[c.pos as int];
    let c1 = step(src, c);
    let nx = char_at(src, c1.pos as int);
    if ch == '"' {
        match scan_string(src, c1, Seq::empty()) {
            Ok((s, c2)) => Ok((SpecTokenKind::Str(s), c2)),
            Err(e) => Err(e),
        }
    } else if is_ascii_digit(ch) {
        Ok(scan_number(src, c))
    } else if letter(ch) || ch == '_' {
        let (w, c2) = scan_word(src, c1, seq![ch]);
        Ok((keyword_kind(w), c2))
    } else if ch == '+' {
        Ok((SpecTokenKind::Plus, c1))
    } else if ch == '-' {
        one_or_two(src, c, '>', SpecTokenKind::Arrow, SpecTokenKind::Minus)
    } else if ch == '*' {
        Ok((SpecTokenKind::Star, c1))
    } else if ch == '/' {
        Ok((SpecTokenKind::Slash, c1))
    } else if ch == '%' {
        Ok((SpecTokenKind::Percent, c1))
    } else if ch == '=' {
        one_or_two(src, c, '=', SpecTokenKind::Eq, SpecTokenKind::Assign)
    } else if ch == '!' {
        one_or_two(src, c, '=', SpecTokenKind::Ne, SpecTokenKind::Not)
    } else if ch == '<' {
        if nx == Some('=') {
            Ok((SpecTokenKind::Le, step(src, c1)))
        } else if nx == Some('-') {
            Ok((SpecTokenKind::ChanRecv, step(src, c1)))
        } else {
            Ok((SpecTokenKind::Lt, c1))
        }
    } else if ch == '>' {
        one_or_two(src, c, '=', SpecTokenKind::Ge, SpecTokenKind::Gt)
    } else if ch == '&' {
        one_or_two(src, c, '&', SpecTokenKind::And, SpecTokenKind::Amp)
    } else if ch == '|' {
        if nx == Some('|') {
            Ok((SpecTokenKind::Or, step(src, c1)))
        } else {
            Err(LexError::LonePipe { line: c.line as usize, col: c.col as usize })
        }
    } else if ch == '.' {
        one_or_two(src, c, '.', SpecTokenKind::DotDot, SpecTokenKind::Dot)
    } else if ch == '{' {
        Ok((SpecTokenKind::LBrace, c1))
    } else if ch == '}' {
        Ok((SpecTokenKind::RBrace, c1))
    } else if ch == '(' {
        Ok((SpecTokenKind::LParen, c1))
    } else if ch == ')' {
        Ok((SpecTokenKind::RParen, c1))
    } else if ch == '[' {
        Ok((SpecTokenKind::LBracket, c1))
    } else if ch == ']' {
        Ok((SpecTokenKind::RBracket, c1))
    } else if ch == ',' {
        Ok((SpecTokenKind::Comma, c1))
    } else if ch == ':' {
        Ok((SpecTokenKind::Colon, c1))
    } else if ch == ';' {
        Ok((SpecTokenKind::Semicolon, c1))
    } else {
        Err(LexError::UnexpectedChar { ch, line: c.line as usize, col: c.col as usize })
    }
}

pub open spec fn token_at(kind: SpecTokenKind, c: Cursor) -> SpecToken {
    SpecToken { kind, line: c.line, col: c.col }
}

pub open spec fn prepend_tokens(front: Seq<SpecToken>, r: Result<Seq<SpecToken>, LexError>) -> Result<Seq<SpecToken>, LexError> {
    match r {
        Ok(rest) => Ok(front + rest),
        Err(e) => Err(e),
    }
}

/// The tokens of `src` from `c` on, when the previous token can end a
/// statement exactly if `can_end`: after the blanks, a `;` where a line ended
/// after such a token; else the next token, or `EOF` at the end of the text.
pub open spec fn lex_from(src: Seq<char>, c: Cursor, can_end: bool) -> Result<Seq<SpecToken>, LexError>
    decreases 2 * remaining(src, c) + (if can_end { 1nat } else { 0nat }),
{
    let (c1, ins) = skip_blank(src, c, Blank::Code, can_end, false);
    proof {
        lemma_skip_blank(src, c, Blank::Code, can_end, false);
    }
    if ins {
        prepend_tokens(seq![token_at(SpecTokenKind::Semicolon, c1)], lex_from(src, c1, false))
    } else if c1.pos >= src.len() {
        Ok(seq![token_at(SpecTokenKind::EOF, c1)])
    } else {
        match scan_token(src, c1) {
            Err(e) => Err(e),
            Ok((k, c2)) => {
                proof {
                    lemma_scan_token(src, c1);
                }
                prepend_tokens(seq![token_at(k, c1)], lex_from(src, c2, ends_statement(k)))
            },
        }
    }
}

/// The tokens of a whole source text.
pub open spec fn lex(src: Seq<char>) -> Result<Seq<SpecToken>, LexError> {
    lex_from(src, Cursor { pos: 0, line: 1, col: 1 }, false)
}

// ── Facts about the model ────────────────────────────────────────────────────

/// The lexer's output always ends with an `EOF` token, and holds no other
/// `EOF`: it is what the parser accepts.
pub proof fn lemma_lex_from_ends_with_eof(src: Seq<char>, c: Cursor, can_end: bool)
    ensures
        lex_from(src, c, can_end) matches Ok(ts) ==> ts.len() > 0 && ts[ts.len() - 1].kind is EOF
            && forall|i: int| 0 <= i < ts.len() - 1 ==> !(ts[i].kind is EOF),
    decreases 2 * remaining(src, c) + (if can_end { 1nat } else { 0nat }),
{
    let (c1, ins) = skip_blank(src, c, Blank::Code, can_end, false);
    lemma_skip_blank(src, c, Blank::Code, can_end, false);
    if ins {
        lemma_lex_from_ends_with_eof(src, c1, false);
        if let Ok(rest) = lex_from(src, c1, false) {
            let ts = seq![token_at(SpecTokenKind::Semicolon, c1)] + rest;
            assert forall|i: int| 0 <= i < ts.len() - 1 implies !(ts[i].kind is EOF) by {
                if i > 0 {
                    assert(ts[i] == rest[i - 1]);
                }
            }
        }
    } else if c1.pos < src.len() {
        if let Ok((k, c2)) = scan_token(src, c1) {
            lemma_scan_token(src, c1);
            lemma_scan_token_not_eof(src, c1);
            lemma_lex_from_ends_with_eof(src, c2, ends_statement(k));
            if let Ok(rest) = lex_from(src, c2, ends_statement(k)) {
                let ts = seq![token_at(k, c1)] + rest;
                assert forall|i: int| 0 <= i < ts.len() - 1 implies !(ts[i].kind is EOF) by {
                    if i > 0 {
                        assert(ts[i] == rest[i - 1]);
                    }
                }
            }
        }
    }
}

/// No character reads as an `EOF` token.
pub proof fn lemma_scan_token_not_eof(src: Seq<char>, c: Cursor)
    requires
        c.pos < src.len(),
    ensures
        scan_token(src, c) matches Ok((k, _)) ==> !(k is EOF),
{
    let ch = src[c.pos as int];
    if letter(ch) || ch == '_' {
        let (w, c2) = scan_word(src, step(src, c), seq![ch]);
        assert(!(keyword_kind(w) is EOF));
    }
}

pub proof fn lemma_prepend_tokens_assoc(a: Seq<SpecToken>, b: Seq<SpecToken>, r: Result<Seq<SpecToken>, LexError>)
    ensures
        prepend_tokens(a, prepend_tokens(b, r)) == prepend_tokens(a + b, r),
{
    if let Ok(s) = r {
        assert((a + b) + s =~= a + (b + s));
    }
}

pub proof fn lemma_skip_blank(src: Seq<char>, c: Cursor, mode: Blank, can_end: bool, inserted: bool)
    ensures
        remaining(src, skip_blank(src, c, mode, can_end, inserted).0) <= remaining(src, c),
        c.pos <= src.len() ==> skip_blank(src, c, mode, can_end, inserted).0.pos <= src.len(),
        skip_blank(src, c, mode, can_end, inserted).1 ==> (inserted || can_end),
    decreases 2 * remaining(src, c) + (if mode is Code { 0nat } else { 1nat }),
{
    let ch = char_at(src, c.pos as int);
    match mode {
        Blank::Code => {
            if ch == Some('\n') {
                lemma_skip_blank(src, step(src, c), Blank::Code, can_end, inserted || can_end);
            } else if ch == Some(' ') || ch == Some('\t') || ch == Some('\r') {
                lemma_skip_blank(src, step(src, c), Blank::Code, can_end, inserted);
            } else if ch == Some('/') && char_at(src, c.pos + 1int) == Some('/') {
                lemma_skip_blank(src, step(src, c), Blank::LineComment, can_end, inserted);
            } else if ch == Some('/') && char_at(src, c.pos + 1int) == Some('*') {
                lemma_skip_blank(src, step(src, step(src, c)), Blank::BlockComment, can_end, inserted);
            }
        },
        Blank::LineComment => {
            if ch.is_some() && ch != Some('\n') {
                lemma_skip_blank(src, step(src, c), Blank::LineComment, can_end, inserted);
            } else {
                lemma_skip_blank(src, c, Blank::Code, can_end, inserted);
            }
        },
        Blank::BlockComment => {
            if ch == Some('*') && char_at(src, c.pos + 1int) == Some('/') {
                lemma_skip_blank(src, step(src, step(src, c)), Blank::Code, can_end, inserted);
            } else if ch.is_none() {
                lemma_skip_blank(src, c, Blank::Code, can_end, inserted);
            } else {
                lemma_skip_blank(src, step(src, c), Blank::BlockComment, can_end, inserted);
            }
        },
    }
}

/// Blanks insert a `;` only where a statement can end and they hold a line
/// break; and they never move backward.
pub proof fn lemma_skip_blank_break(src: Seq<char>, c: Cursor, mode: Blank, can_end: bool, inserted: bool)
    requires
        c.pos <= src.len(),
    ensures
        c.pos <= skip_blank(src, c, mode, can_end, inserted).0.pos,
        skip_blank(src, c, mode, can_end, inserted).1 ==> inserted || (can_end && exists|i: int|
            c.pos <= i < skip_blank(src, c, mode, can_end, inserted).0.pos && #[trigger] src[i] == '\n'),
    decreases 2 * remaining(src, c) + (if mode is Code { 0nat } else { 1nat }),
{
    let ch = char_at(src, c.pos as int);
    let c1 = step(src, c);
    match mode {
        Blank::Code => {
            if ch == Some('\n') {
                lemma_skip_blank_break(src, c1, Blank::Code, can_end, inserted || can_end);
                if can_end && !inserted {
                    assert(src[c.pos as int] == '\n');
                }
            } else if ch == Some(' ') || ch == Some('\t') || ch == Some('\r') {
                lemma_skip_blank_break(src, c1, Blank::Code, can_end, inserted);
            } else if ch == Some('/') && char_at(src, c.pos + 1int) == Some('/') {
                lemma_skip_blank_break(src, c1, Blank::LineComment, can_end, inserted);
            } else if ch == Some('/') && char_at(src, c.pos + 1int) == Some('*') {
                lemma_skip_blank_break(src, step(src, c1), Blank::BlockComment, can_end, inserted);
            }
        },
        Blank::LineComment => {
            if ch.is_some() && ch != Some('\n') {
                lemma_skip_blank_break(src, c1, Blank::LineComment, can_end, inserted);
            } else {
                lemma_skip_blank_break(src, c, Blank::Code, can_end, inserted);
            }
        },
        Blank::BlockComment => {
            if ch == Some('*') && char_at(src, c.pos + 1int) == Some('/') {
                lemma_skip_blank_break(src, step(src, c1), Blank::Code, can_end, inserted);
            } else if ch.is_none() {
                lemma_skip_blank_break(src, c, Blank::Code, can_end, inserted);
            } else {
                lemma_skip_blank_break(src, c1, Blank::BlockComment, can_end, inserted);
            }
        },
    }
}

/// Only a written `;` reads as a `;` token.
pub proof fn lemma_semicolon_is_written(src: Seq<char>, c: Cursor)
    requires
        c.pos < src.len(),
    ensures
        scan_token(src, c) matches Ok((k, _)) && k is Semicolon ==> src[c.pos as int] == ';',
{
    let ch = src[c.pos as int];
    if letter(ch) || ch == '_' {
        let (w, c2) = scan_word(src, step(src, c), seq![ch]);
        assert(!(keyword_kind(w) is Semicolon));
    }
}

pub proof fn lemma_scan_string(src: Seq<char>, c: Cursor, acc: Seq<char>)
    requires
        c.pos <= src.len(),
    ensures
        scan_string(src, c, acc) matches Ok((_, c2)) ==> c2.pos <= src.len() && remaining(src, c2) < remaining(src, c),
    decreases remaining(src, c),
{
    match char_at(src, c.pos as int) {
        None => {},
        Some(ch) => {
            if ch == '\\' {
                let c1 = step(src, c);
                match char_at(src, c1.pos as int) {
                    None => {},
                    Some(e) => lemma_scan_string(src, step(src, c1), push_escape(acc, e)),
                }
            } else if ch != '"' {
                lemma_scan_string(src, step(src, c), acc.push(ch));
            }
        },
    }
}

pub proof fn lemma_scan_hex(src: Seq<char>, c: Cursor, acc: Seq<char>)
    requires
        c.pos <= src.len(),
    ensures
        scan_hex(src, c, acc).1.pos <= src.len(),
        remaining(src, scan_hex(src, c, acc).1) <= remaining(src, c),
    decreases remaining(src, c),
{
    if let Some(ch) = char_at(src, c.pos as int) {
        if is_ascii_hexdigit(ch) {
            lemma_scan_hex(src, step(src, c), acc.push(ch));
        }
    }
}

pub proof fn lemma_scan_decimal(src: Seq<char>, c: Cursor, is_float: bool, acc: Seq<char>)
    requires
        c.pos <= src.len(),
    ensures
        scan_decimal(src, c, is_float, acc).2.pos <= src.len(),
        remaining(src, scan_decimal(src, c, is_float, acc).2) <= remaining(src, c),
        (char_at(src, c.pos as int) matches Some(ch) && is_ascii_digit(ch)) ==> remaining(src, scan_decimal(src, c, is_float, acc).2) < remaining(src, c),
    decreases remaining(src, c),
{
    if let Some(ch) = char_at(src, c.pos as int) {
        if is_ascii_digit(ch) {
            lemma_scan_decimal(src, step(src, c), is_float, acc.push(ch));
        } else if ch == '.' && !is_float && (match char_at(src, c.pos + 1int) {
            Some(d) => is_ascii_digit(d),
            None => false,
        }) {
            lemma_scan_decimal(src, step(src, c), true, acc.push('.'));
        }
    }
}

pub proof fn lemma_scan_word(src: Seq<char>, c: Cursor, acc: Seq<char>)
    requires
        c.pos <= src.len(),
    ensures
        scan_word(src, c, acc).1.pos <= src.len(),
        remaining(src, scan_word(src, c, acc).1) <= remaining(src, c),
    decreases remaining(src, c),
{
    if let Some(ch) = char_at(src, c.pos as int) {
        if letter_or_digit(ch) || ch == '_' {
            lemma_scan_word(src, step(src, c), acc.push(ch));
        }
    }
}

/// Every token takes at least one character.
pub proof fn lemma_scan_token(src: Seq<char>, c: Cursor)
    requires
        c.pos < src.len(),
    ensures
        scan_token(src, c) matches Ok((_, c2)) ==> c2.pos <= src.len() && remaining(src, c2) < remaining(src, c),
{
    let c1 = step(src, c);
    lemma_scan_string(src, c1, Seq::empty());
    lemma_scan_word(src, c1, seq![src[c.pos as int]]);
    lemma_scan_decimal(src, c, false, Seq::empty());
    if c.pos + 1 < src.len() {
        lemma_scan_hex(src, step(src, step(src, c)), Seq::empty());
    }
    let (d, f, c2) = scan_decimal(src, c, false, Seq::empty());
    let k = exponent_marker(src, c2.pos as int);
    if k > 0 {
        let c3 = step(src, c2);
        if k == 1 {
            lemma_scan_decimal(src, c3, true, d.push(src[c2.pos as int]));
        } else {
            lemma_scan_decimal(src, step(src, c3), true, d.push(src[c2.pos as int]).push(src[c3.pos as int]));
        }
    }
}


/// The tokens `ts` start at the positions `ps` of `src`, in order: each
/// token's line and column are those of its position, and the positions do
/// not decrease.
/// `(line, col)` of `a` comes no later than that of `b`.
pub open spec fn no_later(a: Cursor, b: Cursor) -> bool {
    a.line < b.line || (a.line == b.line && a.col <= b.col)
}

/// The line and column of a later position never come earlier: lines only
/// grow, and within a line the column only grows.
pub proof fn law_line_col_monotone(src: Seq<char>, p: nat, q: nat)
    requires
        p <= q <= src.len(),
    ensures
        no_later(cursor_at(src, p), cursor_at(src, q)),
    decreases q - p,
{
    if p < q {
        law_line_col_monotone(src, p, (q - 1) as nat);
        law_step_tracks_position(src, (q - 1) as nat);
    }
}

/// The tokens' `(line, col)` pairs never decrease along the tokens, where
/// each stands at the line and column of a position that never decreases.
pub proof fn law_tokens_line_col_ordered(src: Seq<char>, ts: Seq<SpecToken>, ps: Seq<nat>, i: int, j: int)
    requires
        placed(src, ts, ps),
        0 <= i <= j < ts.len(),
    ensures
        ts[i].line < ts[j].line || (ts[i].line == ts[j].line && ts[i].col <= ts[j].col),
{
    assert(ps[i] <= ps[j]);
    assert(ps[j] <= src.len());
    law_line_col_monotone(src, ps[i], ps[j]);
}

/// Along the tokens, `(line, col)` never decreases.
pub open spec fn line_col_ordered(ts: Seq<SpecToken>) -> bool {
    forall|i: int, j: int|
        0 <= i <= j < ts.len() ==> #[trigger] ts[i].line < #[trigger] ts[j].line || (ts[i].line
            == ts[j].line && ts[i].col <= ts[j].col)
}

proof fn lemma_placed_ordered(src: Seq<char>, ts: Seq<SpecToken>, ps: Seq<nat>)
    requires
        placed(src, ts, ps),
    ensures
        line_col_ordered(ts),
{
    assert forall|i: int, j: int| 0 <= i <= j < ts.len() implies #[trigger] ts[i].line < #[trigger] ts[j].line
        || (ts[i].line == ts[j].line && ts[i].col <= ts[j].col) by {
        law_tokens_line_col_ordered(src, ts, ps, i, j);
    }
}

pub open spec fn placed(src: Seq<char>, ts: Seq<SpecToken>, ps: Seq<nat>) -> bool {
    &&& ps.len() == ts.len()
    &&& forall|i: int| 0 <= i < ps.len() ==> #[trigger] ps[i] <= src.len()
        && ts[i].line == cursor_at(src, ps[i]).line && ts[i].col == cursor_at(src, ps[i]).col
    &&& forall|i: int, j: int| 0 <= i <= j < ps.len() ==> #[trigger] ps[i] <= #[trigger] ps[j]
}

/// Each `;` of `ts` (at the positions `ps` of `src`) is written in the text,
/// or was inserted where a line broke after a token that can end a
/// statement: the token before it can, and a line break stands between the
/// two.
pub open spec fn semicolons_justified(src: Seq<char>, ts: Seq<SpecToken>, ps: Seq<nat>) -> bool {
    forall|i: int| 0 <= i < ts.len() && #[trigger] ts[i].kind is Semicolon ==> {
        ||| ps[i] < src.len() && src[ps[i] as int] == ';'
        ||| 0 < i && ends_statement(ts[i - 1].kind) && exists|j: int| ps[i - 1] <= j < ps[i] && #[trigger] src[j] == '\n'
    }
}

proof fn lemma_justified_push(src: Seq<char>, ts: Seq<SpecToken>, ps: Seq<nat>, t: SpecToken, p: nat)
    requires
        semicolons_justified(src, ts, ps),
        ps.len() == ts.len(),
        t.kind is Semicolon ==> {
            ||| p < src.len() && src[p as int] == ';'
            ||| ts.len() > 0 && ends_statement(ts.last().kind) && exists|j: int| ps.last() <= j < p && #[trigger] src[j] == '\n'
        },
    ensures
        semicolons_justified(src, ts + seq![t], ps.push(p)),
{
    let ts2 = ts + seq![t];
    let ps2 = ps.push(p);
    assert forall|i: int| 0 <= i < ts2.len() && #[trigger] ts2[i].kind is Semicolon implies {
        ||| ps2[i] < src.len() && src[ps2[i] as int] == ';'
        ||| 0 < i && ends_statement(ts2[i - 1].kind) && exists|j: int| ps2[i - 1] <= j < ps2[i] && #[trigger] src[j] == '\n'
    } by {
        if i < ts.len() {
            assert(ts2[i] == ts[i]);
            assert(ps2[i] == ps[i]);
            if i > 0 {
                assert(ts2[i - 1] == ts[i - 1]);
                assert(ps2[i - 1] == ps[i - 1]);
            }
        } else {
            assert(ts2[i] == t);
            assert(ps2[i] == p);
            if ts.len() > 0 {
                assert(ts2[i - 1] == ts.last());
                assert(ps2[i - 1] == ps.last());
            }
        }
    }
}

proof fn lemma_placed_push(src: Seq<char>, ts: Seq<SpecToken>, ps: Seq<nat>, t: SpecToken, p: nat)
    requires
        placed(src, ts, ps),
        forall|i: int| 0 <= i < ps.len() ==> #[trigger] ps[i] <= p,
        p <= src.len(),
        t.line == cursor_at(src, p).line,
        t.col == cursor_at(src, p).col,
    ensures
        placed(src, ts + seq![t], ps.push(p)),
{
    let ts2 = ts + seq![t];
    let ps2 = ps.push(p);
    assert forall|i: int| 0 <= i < ps2.len() implies #[trigger] ps2[i] <= src.len()
        && ts2[i].line == cursor_at(src, ps2[i]).line && ts2[i].col == cursor_at(src, ps2[i]).col by {
        if i < ps.len() {
            assert(ps2[i] == ps[i]);
            assert(ts2[i] == ts[i]);
        }
    }
    assert forall|i: int, j: int| 0 <= i <= j < ps2.len() implies #[trigger] ps2[i] <= #[trigger] ps2[j] by {
        if j < ps.len() {
            assert(ps2[i] == ps[i] && ps2[j] == ps[j]);
        } else if i < ps.len() {
            assert(ps2[i] == ps[i]);
        }
    }
}

// ── The lexer ────────────────────────────────────────────────────────────────

pub open spec fn lex_result(r: Result<Vec<Token>, LexError>) -> Result<Seq<SpecToken>, LexError> {
    match r {
        Ok(v) => Ok(tokens_view(v@)),
        Err(e) => Err(e),
    }
}

impl TokenKind {
    /// A copy of this kind.
    pub fn duplicate(&self) -> (r: TokenKind)
        ensures
            r@ == self@,
    {
        match self {
            TokenKind::Int(n) => TokenKind::Int(*n),
            TokenKind::Float(s) => TokenKind::Float(s.clone()),
            TokenKind::Str(s) => TokenKind::Str(s.clone()),
            TokenKind::Bool(b) => TokenKind::Bool(*b),
            TokenKind::Ident(s) => TokenKind::Ident(s.clone()),
            TokenKind::Fn => TokenKind::Fn,
            TokenKind::Return => TokenKind::Return,
            TokenKind::If => TokenKind::If,
            TokenKind::Else => TokenKind::Else,
            TokenKind::While => TokenKind::While,
            TokenKind::Loop => TokenKind::Loop,
            TokenKind::In => TokenKind::In,
            TokenKind::Go => TokenKind::Go,
            TokenKind::Struct => TokenKind::Struct,
            TokenKind::Impl => TokenKind::Impl,
            TokenKind::Exec => TokenKind::Exec,
            TokenKind::Print => TokenKind::Print,
            TokenKind::Let => TokenKind::Let,
            TokenKind::Ptr => TokenKind::Ptr,
            TokenKind::MakeChan => TokenKind::MakeChan,
            TokenKind::Send => TokenKind::Send,
            TokenKind::Recv => TokenKind::Recv,
            TokenKind::RawMem => TokenKind::RawMem,
            TokenKind::Asm => TokenKind::Asm,
            TokenKind::Pub => TokenKind::Pub,
            TokenKind::Use => TokenKind::Use,
            TokenKind::Mod => TokenKind::Mod,
            TokenKind::Nil => TokenKind::Nil,
            TokenKind::Break => TokenKind::Break,
            TokenKind::Continue => TokenKind::Continue,
            TokenKind::Plus => TokenKind::Plus,
            TokenKind::Minus => TokenKind::Minus,
            TokenKind::Star => TokenKind::Star,
            TokenKind::Slash => TokenKind::Slash,
            TokenKind::Percent => TokenKind::Percent,
            TokenKind::Assign => TokenKind::Assign,
            TokenKind::Eq => TokenKind::Eq,
            TokenKind::Ne => TokenKind::Ne,
            TokenKind::Lt => TokenKind::Lt,
            TokenKind::Gt => TokenKind::Gt,
            TokenKind::Le => TokenKind::Le,
            TokenKind::Ge => TokenKind::Ge,
            TokenKind::And => TokenKind::And,
            TokenKind::Or => TokenKind::Or,
            TokenKind::Not => TokenKind::Not,
            TokenKind::Amp => TokenKind::Amp,
            TokenKind::Arrow => TokenKind::Arrow,
            TokenKind::ChanRecv => TokenKind::ChanRecv,
            TokenKind::DotDot => TokenKind::DotDot,
            TokenKind::LBrace => TokenKind::LBrace,
            TokenKind::RBrace => TokenKind::RBrace,
            TokenKind::LParen => TokenKind::LParen,
            TokenKind::RParen => TokenKind::RParen,
            TokenKind::LBracket => TokenKind::LBracket,
            TokenKind::RBracket => TokenKind::RBracket,
            TokenKind::Comma => TokenKind::Comma,
            TokenKind::Colon => TokenKind::Colon,
            TokenKind::Semicolon => TokenKind::Semicolon,
            TokenKind::Dot => TokenKind::Dot,
            TokenKind::EOF => TokenKind::EOF,
        }
    }
}

impl Token {
    /// A copy of this token.
    pub fn duplicate(&self) -> (r: Token)
        ensures
            r@ == self@,
    {
        Token { kind: self.kind.duplicate(), line: self.line, col: self.col }
    }
}

/// Turns RNF source text into tokens.
pub struct Lexer {
    src: Vec<char>,
    pos: usize,
    line: usize,
    col: usize,
}

impl Lexer {
    /// The characters being read.
    pub closed spec fn source(&self) -> Seq<char> {
        self.src@
    }

    /// Where the lexer stands in the source.
    pub closed spec fn cursor(&self) -> Cursor {
        Cursor { pos: self.pos as nat, line: self.line as nat, col: self.col as nat }
    }

    /// The lexer's invariant: the cursor is within the text, its line and
    /// column are those of its position (see `cursor_at`), and so at least 1
    /// and at most one more than the characters read.
    pub closed spec fn wf(&self) -> bool {
        &&& self.src@.len() < usize::MAX
        &&& self.pos <= self.src@.len()
        &&& 1 <= self.line <= self.pos + 1
        &&& 1 <= self.col <= self.pos + 1
        &&& self.cursor() == cursor_at(self.src@, self.pos as nat)
    }

    /// A lexer's line and column are those of its position.
    pub proof fn law_cursor_tracks_position(&self)
        requires
            self.wf(),
        ensures
            self.cursor() == cursor_at(self.source(), self.cursor().pos),
    {
    }

    /// A lexer at the start (line 1, column 1) of `source`.
    pub fn new(source: &str) -> (r: Self)
        requires
            source@.len() < usize::MAX,
        ensures
            r.wf(),
            r.source() == source@,
            r.cursor() == (Cursor { pos: 0, line: 1, col: 1 }),
    {
        let src = chars_of(source);
        proof {
            assert(src@.take(0) =~= Seq::<char>::empty());
        }
        Lexer { src, pos: 0, line: 1, col: 1 }
    }

    fn cur(&self) -> (r: Option<char>)
        requires
            self.wf(),
        ensures
            r == char_at(self.source(), self.pos as int),
    {
        if self.pos < self.src.len() {
            Some(self.src[self.pos])
        } else {
            None
        }
    }

    fn peek(&self) -> (r: Option<char>)
        requires
            self.wf(),
        ensures
            r == char_at(self.source(), self.pos + 1int),
    {
        if self.pos + 1 < self.src.len() {
            Some(self.src[self.pos + 1])
        } else {
            None
        }
    }

    fn peek_second(&self) -> (r: Option<char>)
        requires
            self.wf(),
        ensures
            r == char_at(self.source(), self.pos + 2int),
    {
        if self.src.len() >= 2 && self.pos < self.src.len() - 2 {
            Some(self.src[self.pos + 2])
        } else {
            None
        }
    }

    fn advance(&mut self) -> (r: Option<char>)
        requires
            old(self).wf(),
        ensures
            final(self).wf(),
            final(self).source() == old(self).source(),
            final(self).cursor() == step(old(self).source(), old(self).cursor()),
            r == char_at(old(self).source(), old(self).pos as int),
    {
        let c = self.cur();
        proof {
            if self.pos < self.src@.len() {
                law_step_tracks_position(self.src@, self.pos as nat);
            }
        }
        if let Some(ch) = c {
            self.pos = self.pos + 1;
            if ch == '\n' {
                self.line = self.line + 1;
                self.col = 1;
            } else {
                self.col = self.col + 1;
            }
        }
        c
    }

    fn can_end_stmt(kind: &TokenKind) -> (r: bool)
        ensures
            r == ends_statement(kind@),
    {
        match kind {
            TokenKind::Ident(_) | TokenKind::Int(_) | TokenKind::Float(_) | TokenKind::Str(_)
            | TokenKind::Bool(_) | TokenKind::Nil | TokenKind::RParen | TokenKind::RBracket
            | TokenKind::RBrace | TokenKind::Return | TokenKind::Break | TokenKind::Continue => true,
            _ => false,
        }
    }

    /// Skips blanks and comments; says whether a line ended on the way after
    /// a token that can end a statement.
    fn skip_ws_comments(&mut self, last: &Option<TokenKind>) -> (inserted: bool)
        requires
            old(self).wf(),
        ensures
            final(self).wf(),
            final(self).source() == old(self).source(),
            (final(self).cursor(), inserted) == skip_blank(
                old(self).source(),
                old(self).cursor(),
                Blank::Code,
                last_ends_statement(*last),
                false,
            ),
    {
        let ghost src = self.source();
        let ghost c0 = self.cursor();
        let can_end = match last {
            Some(lk) => Self::can_end_stmt(lk),
            None => false,
        };
        let mut inserted = false;
        // 0: code, 1: inside `//`, 2: inside `/* */`
        let mut mode: u8 = 0;
        loop
            invariant
                self.wf(),
                self.source() == src,
                mode <= 2,
                can_end == last_ends_statement(*last),
                skip_blank(src, c0, Blank::Code, can_end, false) == skip_blank(
                    src,
                    self.cursor(),
                    if mode == 0 { Blank::Code } else if mode == 1 { Blank::LineComment } else { Blank::BlockComment },
                    can_end,
                    inserted,
                ),
            ensures
                skip_blank(src, c0, Blank::Code, can_end, false) == (self.cursor(), inserted),
            decreases 2 * remaining(src, self.cursor()) + (if mode == 0 { 0nat } else { 1nat }),
        {
            let c = self.cur();
            let n = self.peek();
            if mode == 0 {
                if c == Some('\n') {
                    self.advance();
                    if can_end {
                        inserted = true;
                    }
                } else if c == Some(' ') || c == Some('\t') || c == Some('\r') {
                    self.advance();
                } else if c == Some('/') && n == Some('/') {
                    self.advance();
                    mode = 1;
                } else if c == Some('/') && n == Some('*') {
                    self.advance();
                    self.advance();
                    mode = 2;
                } else {
                    break;
                }
            } else if mode == 1 {
                if c.is_some() && c != Some('\n') {
                    self.advance();
                } else {
                    mode = 0;
                }
            } else {
                if c == Some('*') && n == Some('/') {
                    self.advance();
                    self.advance();
                    mode = 0;
                } else if c.is_none() {
                    mode = 0;
                } else {
                    self.advance();
                }
            }
        }
        inserted
    }
}

impl Lexer {
    /// Reads a string literal; the cursor is on its opening quote.
    fn read_string(&mut self) -> (r: Result<TokenKind, LexError>)
        requires
            old(self).wf(),
            char_at(old(self).source(), old(self).pos as int) == Some('"'),
        ensures
            final(self).wf(),
            final(self).source() == old(self).source(),
            match scan_string(old(self).source(), step(old(self).source(), old(self).cursor()), Seq::empty()) {
                Ok((s, c2)) => r matches Ok(k) && k@ == SpecTokenKind::Str(s) && final(self).cursor() == c2,
                Err(e) => r == Err::<TokenKind, LexError>(e),
            },
    {
        let ghost src = self.source();
        self.advance();
        let ghost c1 = self.cursor();
        let mut s = String::new();
        loop
            invariant
                self.wf(),
                self.source() == src,
                src == old(self).source(),
                c1 == step(src, old(self).cursor()),
                scan_string(src, c1, Seq::empty()) == scan_string(src, self.cursor(), s@),
            decreases remaining(src, self.cursor()),
        {
            match self.cur() {
                Some('"') => {
                    self.advance();
                    return Ok(TokenKind::Str(s));
                },
                Some('\\') => {
                    self.advance();
                    match self.advance() {
                        Some('n') => push_char(&mut s, '\n'),
                        Some('t') => push_char(&mut s, '\t'),
                        Some('r') => push_char(&mut s, '\r'),
                        Some('"') => push_char(&mut s, '"'),
                        Some('\\') => push_char(&mut s, '\\'),
                        Some('0') => push_char(&mut s, '\0'),
                        Some(c) => {
                            push_char(&mut s, '\\');
                            push_char(&mut s, c);
                        },
                        None => return Err(LexError::UnterminatedEscape),
                    }
                },
                Some(c) => {
                    push_char(&mut s, c);
                    self.advance();
                },
                None => return Err(LexError::UnterminatedString { line: self.line }),
            }
        }
    }

    /// Reads a number literal; the cursor is on its first digit.
    fn read_number(&mut self) -> (r: TokenKind)
        requires
            old(self).wf(),
            char_at(old(self).source(), old(self).pos as int) matches Some(d) && is_ascii_digit(d),
        ensures
            final(self).wf(),
            final(self).source() == old(self).source(),
            (r@, final(self).cursor()) == scan_number(old(self).source(), old(self).cursor()),
    {
        let ghost src = self.source();
        let ghost c0 = self.cursor();
        // Hex literals
        let n = self.peek();
        if self.cur() == Some('0') && (n == Some('x') || n == Some('X')) {
            self.advance();
            self.advance();
            let ghost c2 = self.cursor();
            let mut hex: Vec<char> = Vec::new();
            loop
                invariant
                    self.wf(),
                    self.source() == src,
                    scan_hex(src, c2, Seq::empty()) == scan_hex(src, self.cursor(), hex@),
                ensures
                    scan_hex(src, c2, Seq::empty()) == (hex@, self.cursor()),
                decreases remaining(src, self.cursor()),
            {
                match self.cur() {
                    Some(c) => {
                        if ascii_hexdigit(c) {
                            hex.push(c);
                            self.advance();
                        } else {
                            break;
                        }
                    },
                    None => break,
                }
            }
            return TokenKind::Int(digits_to_i64(&hex, 16));
        }
        let mut s: Vec<char> = Vec::new();
        let mut is_float = false;
        loop
            invariant
                self.wf(),
                self.source() == src,
                scan_decimal(src, c0, false, Seq::empty()) == scan_decimal(src, self.cursor(), is_float, s@),
            ensures
                scan_decimal(src, c0, false, Seq::empty()) == (s@, is_float, self.cursor()),
            decreases remaining(src, self.cursor()),
        {
            match self.cur() {
                Some(c) => {
                    let next_digit = match self.peek() {
                        Some(p) => ascii_digit(p),
                        None => false,
                    };
                    if ascii_digit(c) {
                        s.push(c);
                        self.advance();
                    } else if c == '.' && !is_float && next_digit {
                        is_float = true;
                        s.push(c);
                        self.advance();
                    } else {
                        break;
                    }
                },
                None => break,
            }
        }
        // An exponent: `e` or `E`, an optional sign, digits.
        let e = self.cur();
        let s1 = self.peek();
        let s2 = self.peek_second();
        let d1 = match s1 {
            Some(x) => ascii_digit(x),
            None => false,
        };
        let d2 = match s2 {
            Some(x) => ascii_digit(x),
            None => false,
        };
        let signed = (s1 == Some('+') || s1 == Some('-')) && d2;
        if (e == Some('e') || e == Some('E')) && (d1 || signed) {
            let ghost c2 = self.cursor();
            let ghost d = s@;
            if let Some(ec) = e {
                s.push(ec);
            }
            self.advance();
            if !d1 {
                if let Some(sc) = s1 {
                    s.push(sc);
                }
                self.advance();
            }
            let ghost c4 = self.cursor();
            let ghost m = s@;
            proof {
                assert(exponent_marker(src, c2.pos as int) == (if d1 { 1nat } else { 2nat }));
            }
            loop
                invariant
                    self.wf(),
                    self.source() == src,
                    scan_decimal(src, c4, true, m) == scan_decimal(src, self.cursor(), true, s@),
                ensures
                    scan_decimal(src, c4, true, m) == (s@, true, self.cursor()),
                decreases remaining(src, self.cursor()),
            {
                match self.cur() {
                    Some(c) => {
                        if ascii_digit(c) {
                            s.push(c);
                            self.advance();
                        } else {
                            break;
                        }
                    },
                    None => break,
                }
            }
            return TokenKind::Float(string_from_chars(&s));
        }
        if is_float {
            TokenKind::Float(string_from_chars(&s))
        } else {
            TokenKind::Int(digits_to_i64(&s, 10))
        }
    }

    /// Reads a keyword or an identifier; the cursor is on a letter or `_`.
    fn read_ident_or_kw(&mut self) -> (r: TokenKind)
        requires
            old(self).wf(),
            char_at(old(self).source(), old(self).pos as int) matches Some(c) && (letter(c) || c == '_'),
        ensures
            final(self).wf(),
            final(self).source() == old(self).source(),
            ({
                let src = old(self).source();
                let c0 = old(self).cursor();
                let (w, c2) = scan_word(src, step(src, c0), seq![src[c0.pos as int]]);
                r@ == keyword_kind(w) && final(self).cursor() == c2
            }),
    {
        let ghost src = self.source();
        let ghost c0 = self.cursor();
        let ghost c1 = step(src, c0);
        let ghost first = src[c0.pos as int];
        let mut s: Vec<char> = Vec::new();
        loop
            invariant
                self.wf(),
                self.source() == src,
                c0.pos < src.len(),
                first == src[c0.pos as int],
                letter(first) || first == '_',
                c1 == step(src, c0),
                s@.len() == 0 ==> self.cursor() == c0,
                s@.len() > 0 ==> scan_word(src, c1, seq![first]) == scan_word(src, self.cursor(), s@),
            ensures
                scan_word(src, c1, seq![first]) == (s@, self.cursor()),
            decreases remaining(src, self.cursor()),
        {
            match self.cur() {
                Some(c) => {
                    if is_letter_or_digit(c) || c == '_' {
                        let ghost was_first = s@.len() == 0;
                        s.push(c);
                        self.advance();
                        proof {
                            if was_first {
                                assert(s@ =~= seq![first]);
                            }
                        }
                    } else {
                        break;
                    }
                },
                None => break,
            }
        }
        Self::word_kind(&s)
    }

    /// The token kind of the word `w` (see `keyword_kind`).
    fn word_kind(w: &Vec<char>) -> (r: TokenKind)
        ensures
            r@ == keyword_kind(w@),
    {
        if chars_equal_str(w, "fn") {
            TokenKind::Fn
        } else if chars_equal_str(w, "return") {
            TokenKind::Return
        } else if chars_equal_str(w, "if") {
            TokenKind::If
        } else if chars_equal_str(w, "else") {
            TokenKind::Else
        } else if chars_equal_str(w, "while") {
            TokenKind::While
        } else if chars_equal_str(w, "loop") {
            TokenKind::Loop
        } else if chars_equal_str(w, "in") {
            TokenKind::In
        } else if chars_equal_str(w, "go") {
            TokenKind::Go
        } else if chars_equal_str(w, "struct") {
            TokenKind::Struct
        } else if chars_equal_str(w, "impl") {
            TokenKind::Impl
        } else if chars_equal_str(w, "exec") {
            TokenKind::Exec
        } else if chars_equal_str(w, "print") {
            TokenKind::Print
        } else if chars_equal_str(w, "let") {
            TokenKind::Let
        } else if chars_equal_str(w, "ptr") {
            TokenKind::Ptr
        } else if chars_equal_str(w, "make_chan") {
            TokenKind::MakeChan
        } else if chars_equal_str(w, "send") {
            TokenKind::Send
        } else if chars_equal_str(w, "recv") {
            TokenKind::Recv
        } else if chars_equal_str(w, "raw_mem") {
            TokenKind::RawMem
        } else if chars_equal_str(w, "asm") {
            TokenKind::Asm
        } else if chars_equal_str(w, "pub") {
            TokenKind::Pub
        } else if chars_equal_str(w, "use") {
            TokenKind::Use
        } else if chars_equal_str(w, "mod") {
            TokenKind::Mod
        } else if chars_equal_str(w, "nil") {
            TokenKind::Nil
        } else if chars_equal_str(w, "break") {
            TokenKind::Break
        } else if chars_equal_str(w, "continue") {
            TokenKind::Continue
        } else if chars_equal_str(w, "true") {
            TokenKind::Bool(true)
        } else if chars_equal_str(w, "false") {
            TokenKind::Bool(false)
        } else {
            TokenKind::Ident(string_from_chars(w))
        }
    }

    /// Reads the token at the cursor, which is before the end of the text.
    fn read_token(&mut self) -> (r: Result<TokenKind, LexError>)
        requires
            old(self).wf(),
            old(self).pos < old(self).source().len(),
        ensures
            final(self).wf(),
            final(self).source() == old(self).source(),
            match scan_token(old(self).source(), old(self).cursor()) {
                Ok((k, c2)) => r matches Ok(k2) && k2@ == k && final(self).cursor() == c2,
                Err(e) => r == Err::<TokenKind, LexError>(e),
            },
    {
        let line = self.line;
        let col = self.col;
        let c = self.src[self.pos];
        if c == '"' {
            return self.read_string();
        }
        if ascii_digit(c) {
            return Ok(self.read_number());
        }
        if is_letter(c) || c == '_' {
            return Ok(self.read_ident_or_kw());
        }
        self.advance();
        let n = self.cur();
        let kind = if c == '+' {
            TokenKind::Plus
        } else if c == '-' {
            if n == Some('>') {
                self.advance();
                TokenKind::Arrow
            } else {
                TokenKind::Minus
            }
        } else if c == '*' {
            TokenKind::Star
        } else if c == '/' {
            TokenKind::Slash
        } else if c == '%' {
            TokenKind::Percent
        } else if c == '=' {
            if n == Some('=') {
                self.advance();
                TokenKind::Eq
            } else {
                TokenKind::Assign
            }
        } else if c == '!' {
            if n == Some('=') {
                self.advance();
                TokenKind::Ne
            } else {
                TokenKind::Not
            }
        } else if c == '<' {
            if n == Some('=') {
                self.advance();
                TokenKind::Le
            } else if n == Some('-') {
                self.advance();
                TokenKind::ChanRecv
            } else {
                TokenKind::Lt
            }
        } else if c == '>' {
            if n == Some('=') {
                self.advance();
                TokenKind::Ge
            } else {
                TokenKind::Gt
            }
        } else if c == '&' {
            if n == Some('&') {
                self.advance();
                TokenKind::And
            } else {
                TokenKind::Amp
            }
        } else if c == '|' {
            if n == Some('|') {
                self.advance();
                TokenKind::Or
            } else {
                return Err(LexError::LonePipe { line, col });
            }
        } else if c == '.' {
            if n == Some('.') {
                self.advance();
                TokenKind::DotDot
            } else {
                TokenKind::Dot
            }
        } else if c == '{' {
            TokenKind::LBrace
        } else if c == '}' {
            TokenKind::RBrace
        } else if c == '(' {
            TokenKind::LParen
        } else if c == ')' {
            TokenKind::RParen
        } else if c == '[' {
            TokenKind::LBracket
        } else if c == ']' {
            TokenKind::RBracket
        } else if c == ',' {
            TokenKind::Comma
        } else if c == ':' {
            TokenKind::Colon
        } else if c == ';' {
            TokenKind::Semicolon
        } else {
            return Err(LexError::UnexpectedChar { ch: c, line, col });
        };
        Ok(kind)
    }

    /// All the tokens from the cursor to the end of the text, the last of
    /// them `EOF`; a `;` is inserted where a line ends after a token that can
    /// end a statement.
    pub fn tokenize(&mut self) -> (r: Result<Vec<Token>, LexError>)
        requires
            old(self).wf(),
        ensures
            lex_result(r) == lex_from(old(self).source(), old(self).cursor(), false),
            match r {
                Ok(ts) => (exists|ps: Seq<nat>| #[trigger] placed(old(self).source(), tokens_view(ts@), ps)
                    && semicolons_justified(old(self).source(), tokens_view(ts@), ps))
                    && line_col_ordered(tokens_view(ts@)),
                Err(_) => true,
            },
    {
        let ghost src = self.source();
        let ghost c0 = self.cursor();
        let mut tokens: Vec<Token> = Vec::new();
        let mut last_kind: Option<TokenKind> = None;
        let ghost mut ps: Seq<nat> = Seq::empty();
        proof {
            assert(tokens_view(tokens@) =~= Seq::<SpecToken>::empty());
        }
        loop
            invariant
                placed(src, tokens_view(tokens@), ps),
                semicolons_justified(src, tokens_view(tokens@), ps),
                tokens@.len() == 0 ==> last_kind is None,
                tokens@.len() > 0 ==> (last_kind matches Some(k) && k@ == tokens_view(tokens@).last().kind),
                forall|i: int| 0 <= i < ps.len() ==> #[trigger] ps[i] <= self.pos,
                self.wf(),
                self.source() == src,
                src == old(self).source(),
                c0 == old(self).cursor(),
                lex_from(src, c0, false) == prepend_tokens(
                    tokens_view(tokens@),
                    lex_from(src, self.cursor(), last_ends_statement(last_kind)),
                ),
            decreases 2 * remaining(src, self.cursor()) + (if last_ends_statement(last_kind) { 1nat } else { 0nat }),
        {
            let ghost c = self.cursor();
            let ghost ce = last_ends_statement(last_kind);
            // ASI: a `;` where a line ended after a token that can end a statement
            let inserted = self.skip_ws_comments(&last_kind);
            proof {
                lemma_skip_blank(src, c, Blank::Code, ce, false);
                lemma_skip_blank_break(src, c, Blank::Code, ce, false);
            }
            let ghost c1 = self.cursor();
            let line = self.line;
            let col = self.col;
            proof {
                self.law_cursor_tracks_position();
            }
            if inserted {
                let t = Token { kind: TokenKind::Semicolon, line, col };
                proof {
                    lemma_placed_push(src, tokens_view(tokens@), ps, t@, c1.pos);
                    lemma_justified_push(src, tokens_view(tokens@), ps, t@, c1.pos);
                    ps = ps.push(c1.pos);
                    assert(tokens_view(tokens@.push(t)) =~= tokens_view(tokens@) + seq![t@]);
                    lemma_prepend_tokens_assoc(tokens_view(tokens@), seq![t@], lex_from(src, c1, false));
                }
                tokens.push(t);
                last_kind = Some(TokenKind::Semicolon);
                continue;
            }
            if self.pos >= self.src.len() {
                let t = Token { kind: TokenKind::EOF, line, col };
                proof {
                    lemma_placed_push(src, tokens_view(tokens@), ps, t@, c1.pos);
                    lemma_justified_push(src, tokens_view(tokens@), ps, t@, c1.pos);
                    ps = ps.push(c1.pos);
                    assert(tokens_view(tokens@.push(t)) =~= tokens_view(tokens@) + seq![t@]);
                }
                tokens.push(t);
                proof {
                    lemma_placed_ordered(src, tokens_view(tokens@), ps);
                }
                return Ok(tokens);
            }
            match self.read_token() {
                Ok(kind) => {
                    proof {
                        lemma_scan_token(src, c1);
                        lemma_semicolon_is_written(src, c1);
                    }
                    let t = Token { kind: kind.duplicate(), line, col };
                    proof {
                        lemma_placed_push(src, tokens_view(tokens@), ps, t@, c1.pos);
                        lemma_justified_push(src, tokens_view(tokens@), ps, t@, c1.pos);
                        ps = ps.push(c1.pos);
                        assert(tokens_view(tokens@.push(t)) =~= tokens_view(tokens@) + seq![t@]);
                        lemma_prepend_tokens_assoc(
                            tokens_view(tokens@),
                            seq![t@],
                            lex_from(src, self.cursor(), ends_statement(kind@)),
                        );
                    }
                    tokens.push(t);
                    last_kind = Some(kind);
                },
                Err(e) => {
                    return Err(e);
                },
            }
        }
    }
}

} // verus!
