//! The parser: a recursive-descent parser from tokens to a `Program`.
use vstd::prelude::*;
use crate::ast::{
    field_types_view, params_view,
    exprs_view, field_inits_view, lemma_exprs_view_push, lemma_field_inits_view_push,
    lemma_stmts_view_push, stmts_view, opt_type_view,
    BinOp, Expr, FunctionDecl, ImplDecl, Param, Program, SpecExpr, SpecFunctionDecl, SpecParam,
    SpecProgram, SpecStmt, SpecStructDecl, SpecTopLevel, SpecType, SpecImplDecl, Stmt, StructDecl,
    TopLevel, Type, UnOp,
};
use crate::lexer::{kind_tag, SpecToken, SpecTokenKind, Token, TokenKind, tokens_view};
use crate::text::{chars_are, first_is_uppercase, push_text, string_of, upper_letter};

verus! {

// ── Errors ───────────────────────────────────────────────────────────────────

/// Why a token sequence is no program. Each error names the offending token
/// and the line it stands on.
#[derive(Debug, Clone)]
pub enum ParseError {
    /// `expected` was required here.
    Expected { expected: TokenKind, got: TokenKind, line: usize },
    /// An identifier was required here.
    ExpectedIdent { got: TokenKind, line: usize },
    /// An identifier at top level that is not followed by `=`; `line` is
    /// that of the token after it.
    TopLevelIdent { name: String, line: usize },
    /// A token that starts no top-level item.
    TopLevelToken { got: TokenKind, line: usize },
    /// A type was required here.
    ExpectedType { got: TokenKind, line: usize },
    /// A token that starts no expression.
    ExprToken { got: TokenKind, line: usize },
}

/// The model of a parse error. `Stuck` stands for a sub-parse that succeeded
/// without moving forward, which the parser never does (its functions
/// guarantee progress); the model uses it to be well founded.
pub enum SpecParseError {
    Expected { expected: SpecTokenKind, got: SpecTokenKind, line: nat },
    ExpectedIdent { got: SpecTokenKind, line: nat },
    TopLevelIdent { name: Seq<char>, line: nat },
    TopLevelToken { got: SpecTokenKind, line: nat },
    ExpectedType { got: SpecTokenKind, line: nat },
    ExprToken { got: SpecTokenKind, line: nat },
    Stuck,
}

impl View for ParseError {
    type V = SpecParseError;

    open spec fn view(&self) -> SpecParseError {
        match self {
            ParseError::Expected { expected, got, line } => SpecParseError::Expected {
                expected: expected@,
                got: got@,
                line: *line as nat,
            },
            ParseError::ExpectedIdent { got, line } => SpecParseError::ExpectedIdent { got: got@, line: *line as nat },
            ParseError::TopLevelIdent { name, line } => SpecParseError::TopLevelIdent { name: name@, line: *line as nat },
            ParseError::TopLevelToken { got, line } => SpecParseError::TopLevelToken { got: got@, line: *line as nat },
            ParseError::ExpectedType { got, line } => SpecParseError::ExpectedType { got: got@, line: *line as nat },
            ParseError::ExprToken { got, line } => SpecParseError::ExprToken { got: got@, line: *line as nat },
        }
    }
}

// ── The grammar, as a model ──────────────────────────────────────────────────
//
// Each `*_from(t, p)` below is what parsing from token `p` of `t` gives: the
// result and the position of the first token after it, or the error.

/// A token sequence the parser accepts: at least one token, the last `EOF`
/// (as the lexer always ends its output).
pub open spec fn wf_tokens(t: Seq<SpecToken>) -> bool {
    t.len() > 0 && t[t.len() - 1].kind is EOF
}

pub open spec fn kind_at(t: Seq<SpecToken>, p: nat) -> SpecTokenKind {
    t[p as int].kind
}

pub open spec fn line_at(t: Seq<SpecToken>, p: nat) -> nat {
    t[p as int].line
}

/// The position after `p`; the last token is never moved past.
pub open spec fn next_pos(t: Seq<SpecToken>, p: nat) -> nat {
    if p + 1 < t.len() {
        (p + 1) as nat
    } else {
        p
    }
}

/// Whether the token at `p` is of the same variant as `k`.
pub open spec fn at_kind(t: Seq<SpecToken>, p: nat, k: SpecTokenKind) -> bool {
    kind_tag(kind_at(t, p)) == kind_tag(k)
}

pub open spec fn expect_from(t: Seq<SpecToken>, p: nat, k: SpecTokenKind) -> Result<nat, SpecParseError> {
    if at_kind(t, p, k) {
        Ok(next_pos(t, p))
    } else {
        Err(SpecParseError::Expected { expected: k, got: kind_at(t, p), line: line_at(t, p) })
    }
}

pub open spec fn ident_from(t: Seq<SpecToken>, p: nat) -> Result<(Seq<char>, nat), SpecParseError> {
    match kind_at(t, p) {
        SpecTokenKind::Ident(name) => Ok((name, next_pos(t, p))),
        _ => Err(SpecParseError::ExpectedIdent { got: kind_at(t, p), line: line_at(t, p) }),
    }
}

/// A sub-result that moved forward and stayed within the tokens; any other
/// success becomes `Stuck`.
pub open spec fn advanced<X>(t: Seq<SpecToken>, p: nat, r: Result<(X, nat), SpecParseError>) -> Result<(X, nat), SpecParseError> {
    match r {
        Ok((x, q)) => if p < q < t.len() {
            Ok((x, q))
        } else {
            Err(SpecParseError::Stuck)
        },
        Err(e) => Err(e),
    }
}

/// A sub-result that did not move backward and stayed within the tokens.
pub open spec fn kept<X>(t: Seq<SpecToken>, p: nat, r: Result<(X, nat), SpecParseError>) -> Result<(X, nat), SpecParseError> {
    match r {
        Ok((x, q)) => if p <= q < t.len() {
            Ok((x, q))
        } else {
            Err(SpecParseError::Stuck)
        },
        Err(e) => Err(e),
    }
}

/// Past any `;` tokens.
pub open spec fn skip_semis_from(t: Seq<SpecToken>, p: nat) -> nat
    decreases t.len() - p,
    when wf_tokens(t) && p < t.len()
{
    if at_kind(t, p, SpecTokenKind::Semicolon) {
        skip_semis_from(t, next_pos(t, p))
    } else {
        p
    }
}

pub proof fn lemma_skip_semis(t: Seq<SpecToken>, p: nat)
    requires
        wf_tokens(t),
        p < t.len(),
    ensures
        p <= skip_semis_from(t, p) < t.len(),
        !at_kind(t, skip_semis_from(t, p), SpecTokenKind::Semicolon),
    decreases t.len() - p,
{
    if at_kind(t, p, SpecTokenKind::Semicolon) {
        lemma_skip_semis(t, next_pos(t, p));
    }
}

/// The type that a name denotes.
pub open spec fn type_named(name: Seq<char>) -> SpecType {
    if name == "int"@ {
        SpecType::Int
    } else if name == "float"@ {
        SpecType::Float
    } else if name == "str"@ {
        SpecType::Str
    } else if name == "bool"@ {
        SpecType::Bool
    } else if name == "void"@ {
        SpecType::Void
    } else {
        SpecType::Custom(name)
    }
}

/// A type in angle brackets `<T>`, the `<` at `p`.
pub open spec fn angled_from(t: Seq<SpecToken>, p: nat) -> Result<(SpecType, nat), SpecParseError>
    decreases t.len() - p, 1nat,
    when wf_tokens(t) && p < t.len()
{
    let q = next_pos(t, p);
    if p < q {
        match type_from(t, q) {
            Ok((ty, q2)) => match expect_from(t, q2, SpecTokenKind::Gt) {
                Ok(q3) => Ok((ty, q3)),
                Err(e) => Err(e),
            },
            Err(e) => Err(e),
        }
    } else {
        Err(SpecParseError::Stuck)
    }
}

/// A type: a name, `chan<T>`, `ptr<T>`, `*T` or `ptr T`, or `[T]` /
/// `[T; n]`.
pub open spec fn type_from(t: Seq<SpecToken>, p: nat) -> Result<(SpecType, nat), SpecParseError>
    decreases t.len() - p, 2nat,
    when wf_tokens(t) && p < t.len()
{
    let q = next_pos(t, p);
    match kind_at(t, p) {
        SpecTokenKind::Ident(name) => if name == "chan"@ && at_kind(t, q, SpecTokenKind::Lt) && p < q {
            match angled_from(t, q) {
                Ok((ty, q2)) => Ok((SpecType::Chan(Box::new(ty)), q2)),
                Err(e) => Err(e),
            }
        } else {
            Ok((type_named(name), q))
        },
        SpecTokenKind::Ptr => if at_kind(t, q, SpecTokenKind::Lt) && p < q {
            match angled_from(t, q) {
                Ok((ty, q2)) => Ok((SpecType::Ptr(Box::new(ty)), q2)),
                Err(e) => Err(e),
            }
        } else {
            match type_from(t, q) {
                Ok((ty, q2)) => Ok((SpecType::Ptr(Box::new(ty)), q2)),
                Err(e) => Err(e),
            }
        },
        SpecTokenKind::Star => match type_from(t, q) {
            Ok((ty, q2)) => Ok((SpecType::Ptr(Box::new(ty)), q2)),
            Err(e) => Err(e),
        },
        SpecTokenKind::LBracket => match type_from(t, next_pos(t, p)) {
            Ok((inner, q)) => {
                let (sz, q2) = if at_kind(t, q, SpecTokenKind::Semicolon) {
                    let q1 = next_pos(t, q);
                    match kind_at(t, q1) {
                        SpecTokenKind::Int(n) => (Some(n as usize), next_pos(t, q1)),
                        _ => (None, q1),
                    }
                } else {
                    (None, q)
                };
                match expect_from(t, q2, SpecTokenKind::RBracket) {
                    Ok(q3) => Ok((SpecType::Array(Box::new(inner), sz), q3)),
                    Err(e) => Err(e),
                }
            },
            Err(e) => Err(e),
        },
        _ => Err(SpecParseError::ExpectedType { got: kind_at(t, p), line: line_at(t, p) }),
    }
}

/// The binary operator that token kind `k` writes at precedence `level`
/// (6 `||`, 5 `&&`, 4 `==` `!=`, 3 `<` `>` `<=` `>=`, 2 `+` `-`, 1 `*` `/` `%`).
pub open spec fn level_op(level: nat, k: SpecTokenKind) -> Option<BinOp> {
    if level == 6 {
        if k is Or { Some(BinOp::Or) } else { None }
    } else if level == 5 {
        if k is And { Some(BinOp::And) } else { None }
    } else if level == 4 {
        if k is Eq { Some(BinOp::Eq) } else if k is Ne { Some(BinOp::Ne) } else { None }
    } else if level == 3 {
        if k is Lt {
            Some(BinOp::Lt)
        } else if k is Gt {
            Some(BinOp::Gt)
        } else if k is Le {
            Some(BinOp::Le)
        } else if k is Ge {
            Some(BinOp::Ge)
        } else {
            None
        }
    } else if level == 2 {
        if k is Plus { Some(BinOp::Add) } else if k is Minus { Some(BinOp::Sub) } else { None }
    } else if level == 1 {
        if k is Star {
            Some(BinOp::Mul)
        } else if k is Slash {
            Some(BinOp::Div)
        } else if k is Percent {
            Some(BinOp::Mod)
        } else {
            None
        }
    } else {
        None
    }
}

/// An expression: the lowest precedence level, `||`.
pub open spec fn expr_from(t: Seq<SpecToken>, p: nat) -> Result<(SpecExpr, nat), SpecParseError>
    decreases t.len() - p, 11nat,
    when wf_tokens(t) && p < t.len()
{
    binary_from(t, p, 6)
}

/// An operand of precedence `level` (1 to 6): operands of the level below,
/// joined left to right by the operators of this level.
pub open spec fn binary_from(t: Seq<SpecToken>, p: nat, level: nat) -> Result<(SpecExpr, nat), SpecParseError>
    decreases t.len() - p, 4 + level,
    when wf_tokens(t) && p < t.len() && 1 <= level <= 6
{
    let operand = if level == 1 {
        unary_from(t, p)
    } else {
        binary_from(t, p, (level - 1) as nat)
    };
    match advanced(t, p, operand) {
        Ok((left, q)) => binary_tail(t, left, q, level),
        Err(e) => Err(e),
    }
}

/// The rest of a level-`level` operand after its first part `left`.
pub open spec fn binary_tail(t: Seq<SpecToken>, left: SpecExpr, q: nat, level: nat) -> Result<(SpecExpr, nat), SpecParseError>
    decreases t.len() - q, 4 + level,
    when wf_tokens(t) && q < t.len() && 1 <= level <= 6
{
    match level_op(level, kind_at(t, q)) {
        Some(op) => {
            let q1 = next_pos(t, q);
            let operand = if level == 1 {
                unary_from(t, q1)
            } else {
                binary_from(t, q1, (level - 1) as nat)
            };
            if q1 > q {
                match advanced(t, q1, operand) {
                    Ok((right, q2)) => binary_tail(
                        t,
                        SpecExpr::Binary { op, left: Box::new(left), right: Box::new(right) },
                        q2,
                        level,
                    ),
                    Err(e) => Err(e),
                }
            } else {
                Err(SpecParseError::Stuck)
            }
        },
        None => Ok((left, q)),
    }
}

/// Prefix operators `!` `-` `&` `*` `<-`, else a range.
pub open spec fn unary_from(t: Seq<SpecToken>, p: nat) -> Result<(SpecExpr, nat), SpecParseError>
    decreases t.len() - p, 4nat,
    when wf_tokens(t) && p < t.len()
{
    let q = next_pos(t, p);
    match kind_at(t, p) {
        SpecTokenKind::Not => match unary_from(t, q) {
            Ok((e, q2)) => Ok((SpecExpr::Unary { op: UnOp::Not, expr: Box::new(e) }, q2)),
            Err(err) => Err(err),
        },
        SpecTokenKind::Minus => match unary_from(t, q) {
            Ok((e, q2)) => Ok((SpecExpr::Unary { op: UnOp::Neg, expr: Box::new(e) }, q2)),
            Err(err) => Err(err),
        },
        SpecTokenKind::Amp => match unary_from(t, q) {
            Ok((e, q2)) => Ok((SpecExpr::Ref(Box::new(e)), q2)),
            Err(err) => Err(err),
        },
        SpecTokenKind::Star => match unary_from(t, q) {
            Ok((e, q2)) => Ok((SpecExpr::Deref(Box::new(e)), q2)),
            Err(err) => Err(err),
        },
        SpecTokenKind::ChanRecv => match primary_from(t, q) {
            Ok((e, q2)) => Ok((SpecExpr::ChanRecv(Box::new(e)), q2)),
            Err(err) => Err(err),
        },
        _ => range_from(t, p),
    }
}

/// A postfix expression, or `a..b` of two.
pub open spec fn range_from(t: Seq<SpecToken>, p: nat) -> Result<(SpecExpr, nat), SpecParseError>
    decreases t.len() - p, 3nat,
    when wf_tokens(t) && p < t.len()
{
    match advanced(t, p, postfix_from(t, p)) {
        Ok((left, q)) => if at_kind(t, q, SpecTokenKind::DotDot) {
            match postfix_from(t, next_pos(t, q)) {
                Ok((right, q2)) => Ok((SpecExpr::Range { start: Box::new(left), end: Box::new(right) }, q2)),
                Err(e) => Err(e),
            }
        } else {
            Ok((left, q))
        },
        Err(e) => Err(e),
    }
}

/// A primary expression followed by `.field`, `.method(args)` and `[index]`.
pub open spec fn postfix_from(t: Seq<SpecToken>, p: nat) -> Result<(SpecExpr, nat), SpecParseError>
    decreases t.len() - p, 2nat,
    when wf_tokens(t) && p < t.len()
{
    match advanced(t, p, primary_from(t, p)) {
        Ok((e, q)) => postfix_tail(t, e, q),
        Err(err) => Err(err),
    }
}

pub open spec fn postfix_tail(t: Seq<SpecToken>, e: SpecExpr, q: nat) -> Result<(SpecExpr, nat), SpecParseError>
    decreases t.len() - q, 2nat,
    when wf_tokens(t) && q < t.len()
{
    if at_kind(t, q, SpecTokenKind::Dot) {
        match ident_from(t, next_pos(t, q)) {
            Ok((field, q2)) => if at_kind(t, q2, SpecTokenKind::LParen) {
                let q3 = next_pos(t, q2);
                match kept(t, q3, list_from(t, q3, SpecTokenKind::RParen, seq![e])) {
                    Ok((args, q4)) => match expect_from(t, q4, SpecTokenKind::RParen) {
                        Ok(q5) => if q < q5 {
                            postfix_tail(t, SpecExpr::Call { name: field, args }, q5)
                        } else {
                            Err(SpecParseError::Stuck)
                        },
                        Err(err) => Err(err),
                    },
                    Err(err) => Err(err),
                }
            } else if q < q2 {
                postfix_tail(t, SpecExpr::Field { object: Box::new(e), field }, q2)
            } else {
                Err(SpecParseError::Stuck)
            },
            Err(err) => Err(err),
        }
    } else if at_kind(t, q, SpecTokenKind::LBracket) {
        let q1 = next_pos(t, q);
        match advanced(t, q1, expr_from(t, q1)) {
            Ok((idx, q2)) => match expect_from(t, q2, SpecTokenKind::RBracket) {
                Ok(q3) => if q < q3 {
                    postfix_tail(t, SpecExpr::Index { array: Box::new(e), index: Box::new(idx) }, q3)
                } else {
                    Err(SpecParseError::Stuck)
                },
                Err(err) => Err(err),
            },
            Err(err) => Err(err),
        }
    } else {
        Ok((e, q))
    }
}

/// A comma-separated list of expressions up to (not past) a token of kind
/// `close`, after the expressions `acc` already read; a trailing comma is
/// allowed, and the list ends early where no comma follows an expression.
pub open spec fn list_from(t: Seq<SpecToken>, p: nat, close: SpecTokenKind, acc: Seq<SpecExpr>) -> Result<(Seq<SpecExpr>, nat), SpecParseError>
    decreases t.len() - p, 12nat,
    when wf_tokens(t) && p < t.len()
{
    if at_kind(t, p, close) {
        Ok((acc, p))
    } else {
        match advanced(t, p, expr_from(t, p)) {
            Ok((e, q)) => if at_kind(t, q, SpecTokenKind::Comma) {
                list_from(t, next_pos(t, q), close, acc.push(e))
            } else {
                Ok((acc.push(e), q))
            },
            Err(err) => Err(err),
        }
    }
}

/// The `name: value` fields of a struct literal up to `}`, separated by
/// commas or line ends.
pub open spec fn inits_from(t: Seq<SpecToken>, p: nat, acc: Seq<(Seq<char>, SpecExpr)>) -> Result<(Seq<(Seq<char>, SpecExpr)>, nat), SpecParseError>
    decreases t.len() - p, 12nat,
    when wf_tokens(t) && p < t.len()
{
    let p1 = skip_semis_from(t, p);
    proof {
        lemma_skip_semis(t, p);
    }
    if at_kind(t, p1, SpecTokenKind::RBrace) {
        Ok((acc, p1))
    } else {
        match ident_from(t, p1) {
            Ok((fname, q1)) => match expect_from(t, q1, SpecTokenKind::Colon) {
                Ok(q2) => match advanced(t, q2, expr_from(t, q2)) {
                    Ok((v, q3)) => {
                        let q4 = if at_kind(t, q3, SpecTokenKind::Comma) {
                            next_pos(t, q3)
                        } else {
                            skip_semis_from(t, q3)
                        };
                        proof {
                            lemma_skip_semis(t, q3);
                        }
                        if p < q4 {
                            inits_from(t, q4, acc.push((fname, v)))
                        } else {
                            Err(SpecParseError::Stuck)
                        }
                    },
                    Err(e) => Err(e),
                },
                Err(e) => Err(e),
            },
            Err(e) => Err(e),
        }
    }
}

/// The text of the name `exec`.
pub open spec fn exec_name() -> Seq<char> {
    "exec"@
}

/// Whether a name starts with an uppercase letter (a struct literal follows
/// only such a name).
pub open spec fn starts_uppercase(name: Seq<char>) -> bool {
    name.len() > 0 && upper_letter(name[0])
}

/// `( e )` for `raw_mem`, `exec` and `recv`: the expression between the
/// parentheses after the keyword at `p`.
pub open spec fn paren_arg_from(t: Seq<SpecToken>, p: nat) -> Result<(SpecExpr, nat), SpecParseError>
    decreases t.len() - p, 0nat,
    when wf_tokens(t) && p < t.len()
{
    match expect_from(t, next_pos(t, p), SpecTokenKind::LParen) {
        Ok(q1) => if p < q1 {
            match advanced(t, q1, expr_from(t, q1)) {
                Ok((e, q2)) => match expect_from(t, q2, SpecTokenKind::RParen) {
                    Ok(q3) => Ok((e, q3)),
                    Err(err) => Err(err),
                },
                Err(err) => Err(err),
            }
        } else {
            Err(SpecParseError::Stuck)
        },
        Err(err) => Err(err),
    }
}

/// Literals, `( e )`, array literals, `raw_mem(e)`, `make_chan<T>()`,
/// `exec(e)`, `recv(e)`, calls, struct literals and names.
pub open spec fn primary_from(t: Seq<SpecToken>, p: nat) -> Result<(SpecExpr, nat), SpecParseError>
    decreases t.len() - p, 1nat,
    when wf_tokens(t) && p < t.len()
{
    let q = next_pos(t, p);
    match kind_at(t, p) {
        SpecTokenKind::Int(n) => Ok((SpecExpr::Int(n), q)),
        SpecTokenKind::Float(s) => Ok((SpecExpr::Float(s), q)),
        SpecTokenKind::Str(s) => Ok((SpecExpr::Str(s), q)),
        SpecTokenKind::Bool(b) => Ok((SpecExpr::Bool(b), q)),
        SpecTokenKind::Nil => Ok((SpecExpr::Nil, q)),
        SpecTokenKind::LParen => match advanced(t, q, expr_from(t, q)) {
            Ok((e, q2)) => match expect_from(t, q2, SpecTokenKind::RParen) {
                Ok(q3) => Ok((e, q3)),
                Err(err) => Err(err),
            },
            Err(err) => Err(err),
        },
        SpecTokenKind::LBracket => match kept(t, q, list_from(t, q, SpecTokenKind::RBracket, Seq::empty())) {
            Ok((items, q2)) => match expect_from(t, q2, SpecTokenKind::RBracket) {
                Ok(q3) => Ok((SpecExpr::Array(items), q3)),
                Err(err) => Err(err),
            },
            Err(err) => Err(err),
        },
        SpecTokenKind::RawMem => match paren_arg_from(t, p) {
            Ok((e, q2)) => Ok((SpecExpr::RawMem(Box::new(e)), q2)),
            Err(err) => Err(err),
        },
        SpecTokenKind::MakeChan => {
            let ty_part = if at_kind(t, q, SpecTokenKind::Lt) {
                match advanced(t, next_pos(t, q), type_from(t, next_pos(t, q))) {
                    Ok((ty, q1)) => match expect_from(t, q1, SpecTokenKind::Gt) {
                        Ok(q2) => Ok((ty, q2)),
                        Err(err) => Err(err),
                    },
                    Err(err) => Err(err),
                }
            } else {
                Ok((SpecType::Int, q))
            };
            match ty_part {
                Ok((ty, q2)) => if at_kind(t, q2, SpecTokenKind::LParen) {
                    match expect_from(t, next_pos(t, q2), SpecTokenKind::RParen) {
                        Ok(q3) => Ok((SpecExpr::MakeChan(ty), q3)),
                        Err(err) => Err(err),
                    }
                } else {
                    Ok((SpecExpr::MakeChan(ty), q2))
                },
                Err(err) => Err(err),
            }
        },
        SpecTokenKind::Exec => match paren_arg_from(t, p) {
            Ok((e, q2)) => Ok((SpecExpr::Call { name: exec_name(), args: seq![e] }, q2)),
            Err(err) => Err(err),
        },
        SpecTokenKind::Recv => match paren_arg_from(t, p) {
            Ok((e, q2)) => Ok((SpecExpr::ChanRecv(Box::new(e)), q2)),
            Err(err) => Err(err),
        },
        SpecTokenKind::Ident(first) => {
            let (name, q) = path_name_from(t, q, first);
            if at_kind(t, q, SpecTokenKind::LParen) {
            let q1 = next_pos(t, q);
            match kept(t, q1, list_from(t, q1, SpecTokenKind::RParen, Seq::empty())) {
                Ok((args, q2)) => match expect_from(t, q2, SpecTokenKind::RParen) {
                    Ok(q3) => Ok((SpecExpr::Call { name, args }, q3)),
                    Err(err) => Err(err),
                },
                Err(err) => Err(err),
            }
        } else if starts_uppercase(name) && at_kind(t, q, SpecTokenKind::LBrace) {
            let q1 = next_pos(t, q);
            match kept(t, q1, inits_from(t, q1, Seq::empty())) {
                Ok((fields, q2)) => match expect_from(t, q2, SpecTokenKind::RBrace) {
                    Ok(q3) => Ok((SpecExpr::StructInit { name, fields }, q3)),
                    Err(err) => Err(err),
                },
                Err(err) => Err(err),
            }
        } else {
            Ok((SpecExpr::Ident(name), q))
        }
        },
        _ => Err(SpecParseError::ExprToken { got: kind_at(t, p), line: line_at(t, p) }),
    }
}


/// A name at `q - 1` continued by `::name`, as `Point::distance`: the whole
/// name and the position after it; without `::` and a name after it, the
/// first name alone.
pub open spec fn path_name_from(t: Seq<SpecToken>, q: nat, first: Seq<char>) -> (Seq<char>, nat) {
    let q1 = next_pos(t, q);
    let q2 = next_pos(t, q1);
    if at_kind(t, q, SpecTokenKind::Colon) && at_kind(t, q1, SpecTokenKind::Colon) {
        match kind_at(t, q2) {
            SpecTokenKind::Ident(m) => (first + "::"@ + m, next_pos(t, q2)),
            _ => (first, q),
        }
    } else {
        (first, q)
    }
}

/// `let name[: T] = value` after the keyword at `p`: the name, the type and
/// the value.
pub open spec fn let_from(t: Seq<SpecToken>, p: nat) -> Result<((Seq<char>, Option<SpecType>, SpecExpr), nat), SpecParseError>
    decreases t.len() - p, 0nat,
    when wf_tokens(t) && p < t.len()
{
    match ident_from(t, next_pos(t, p)) {
        Ok((name, q1)) => {
            let ty_part = if at_kind(t, q1, SpecTokenKind::Colon) {
                match advanced(t, next_pos(t, q1), type_from(t, next_pos(t, q1))) {
                    Ok((ty, q2)) => Ok((Some(ty), q2)),
                    Err(e) => Err(e),
                }
            } else {
                Ok((None, q1))
            };
            match ty_part {
                Ok((ty, q2)) => match expect_from(t, q2, SpecTokenKind::Assign) {
                    Ok(q3) => if p < q3 {
                        match expr_from(t, q3) {
                            Ok((value, q4)) => Ok(((name, ty, value), q4)),
                            Err(e) => Err(e),
                        }
                    } else {
                        Err(SpecParseError::Stuck)
                    },
                    Err(e) => Err(e),
                },
                Err(e) => Err(e),
            }
        },
        Err(e) => Err(e),
    }
}

/// A block `{ statements }`.
pub open spec fn block_from(t: Seq<SpecToken>, p: nat) -> Result<(Seq<SpecStmt>, nat), SpecParseError>
    decreases t.len() - p, 15nat,
    when wf_tokens(t) && p < t.len()
{
    match expect_from(t, p, SpecTokenKind::LBrace) {
        Ok(q) => if p < q {
            match kept(t, q, stmts_from(t, q, Seq::empty())) {
                Ok((body, q2)) => match expect_from(t, q2, SpecTokenKind::RBrace) {
                    Ok(q3) => Ok((body, q3)),
                    Err(e) => Err(e),
                },
                Err(e) => Err(e),
            }
        } else {
            Err(SpecParseError::Stuck)
        },
        Err(e) => Err(e),
    }
}

/// The statements of a block after those in `acc`, up to (not past) `}` or
/// the end, with `;`s between them skipped.
pub open spec fn stmts_from(t: Seq<SpecToken>, p: nat, acc: Seq<SpecStmt>) -> Result<(Seq<SpecStmt>, nat), SpecParseError>
    decreases t.len() - p, 14nat,
    when wf_tokens(t) && p < t.len()
{
    let p1 = skip_semis_from(t, p);
    proof {
        lemma_skip_semis(t, p);
    }
    if at_kind(t, p1, SpecTokenKind::RBrace) || at_kind(t, p1, SpecTokenKind::EOF) {
        Ok((acc, p1))
    } else {
        match advanced(t, p1, stmt_from(t, p1)) {
            Ok((st, q)) => {
                proof {
                    lemma_skip_semis(t, q);
                }
                stmts_from(t, skip_semis_from(t, q), acc.push(st))
            },
            Err(e) => Err(e),
        }
    }
}

/// A statement.
pub open spec fn stmt_from(t: Seq<SpecToken>, p: nat) -> Result<(SpecStmt, nat), SpecParseError>
    decreases t.len() - p, 13nat,
    when wf_tokens(t) && p < t.len()
{
    let q = next_pos(t, p);
    match kind_at(t, p) {
        SpecTokenKind::Let => match let_from(t, p) {
            Ok(((name, ty, value), q2)) => Ok((SpecStmt::Let { name, ty, value }, q2)),
            Err(e) => Err(e),
        },
        SpecTokenKind::Ptr => match ident_from(t, q) {
            Ok((name, q1)) => match expect_from(t, q1, SpecTokenKind::Assign) {
                Ok(q2) => if p < q2 {
                    match expr_from(t, q2) {
                        Ok((e, q3)) => Ok((SpecStmt::PtrDecl { name, expr: e }, q3)),
                        Err(err) => Err(err),
                    }
                } else {
                    Err(SpecParseError::Stuck)
                },
                Err(err) => Err(err),
            },
            Err(err) => Err(err),
        },
        SpecTokenKind::Return => if at_kind(t, q, SpecTokenKind::RBrace) || at_kind(t, q, SpecTokenKind::Semicolon)
            || at_kind(t, q, SpecTokenKind::EOF) {
            Ok((SpecStmt::Return(None), q))
        } else {
            match expr_from(t, q) {
                Ok((e, q2)) => Ok((SpecStmt::Return(Some(e)), q2)),
                Err(err) => Err(err),
            }
        },
        SpecTokenKind::If => match advanced(t, q, expr_from(t, q)) {
            Ok((cond, q1)) => match advanced(t, q1, block_from(t, q1)) {
                Ok((then_body, q2)) => if {
                proof {
                    lemma_skip_semis(t, q2);
                }
                at_kind(t, skip_semis_from(t, q2), SpecTokenKind::Else)
            } {
                    let q3 = next_pos(t, skip_semis_from(t, q2));
                    if q2 < q3 {
                        if at_kind(t, q3, SpecTokenKind::If) {
                            match stmt_from(t, q3) {
                                Ok((s2, q4)) => Ok((SpecStmt::If { cond, then_body, else_body: Some(seq![s2]) }, q4)),
                                Err(err) => Err(err),
                            }
                        } else {
                            match block_from(t, q3) {
                                Ok((eb, q4)) => Ok((SpecStmt::If { cond, then_body, else_body: Some(eb) }, q4)),
                                Err(err) => Err(err),
                            }
                        }
                    } else {
                        Err(SpecParseError::Stuck)
                    }
                } else {
                    Ok((SpecStmt::If { cond, then_body, else_body: None }, q2))
                },
                Err(err) => Err(err),
            },
            Err(err) => Err(err),
        },
        SpecTokenKind::While => match advanced(t, q, expr_from(t, q)) {
            Ok((cond, q1)) => match block_from(t, q1) {
                Ok((body, q2)) => Ok((SpecStmt::While { cond, body }, q2)),
                Err(err) => Err(err),
            },
            Err(err) => Err(err),
        },
        SpecTokenKind::Loop => match ident_from(t, q) {
            Ok((var, q1)) => match expect_from(t, q1, SpecTokenKind::In) {
                Ok(q2) => if p < q2 {
                    match advanced(t, q2, expr_from(t, q2)) {
                        Ok((range, q3)) => match block_from(t, q3) {
                            Ok((body, q4)) => Ok((SpecStmt::Loop { var, range, body }, q4)),
                            Err(err) => Err(err),
                        },
                        Err(err) => Err(err),
                    }
                } else {
                    Err(SpecParseError::Stuck)
                },
                Err(err) => Err(err),
            },
            Err(err) => Err(err),
        },
        SpecTokenKind::Exec => match expr_from(t, q) {
            Ok((e, q1)) => Ok((SpecStmt::Exec(e), q1)),
            Err(err) => Err(err),
        },
        SpecTokenKind::Print => if at_kind(t, q, SpecTokenKind::LParen) {
            let q1 = next_pos(t, q);
            match kept(t, q1, list_from(t, q1, SpecTokenKind::RParen, Seq::empty())) {
                Ok((args, q2)) => match expect_from(t, q2, SpecTokenKind::RParen) {
                    Ok(q3) => Ok((SpecStmt::Print(args), q3)),
                    Err(err) => Err(err),
                },
                Err(err) => Err(err),
            }
        } else {
            match expr_from(t, q) {
                Ok((e, q1)) => Ok((SpecStmt::Print(seq![e]), q1)),
                Err(err) => Err(err),
            }
        },
        SpecTokenKind::Go => match primary_from(t, q) {
            Ok((e, q1)) => Ok((SpecStmt::Go(e), q1)),
            Err(err) => Err(err),
        },
        SpecTokenKind::Send => match expect_from(t, q, SpecTokenKind::LParen) {
            Ok(q1) => if p < q1 {
                match advanced(t, q1, expr_from(t, q1)) {
                    Ok((chan, q2)) => match expect_from(t, q2, SpecTokenKind::Comma) {
                        Ok(q3) => if q2 < q3 {
                            match advanced(t, q3, expr_from(t, q3)) {
                                Ok((value, q4)) => match expect_from(t, q4, SpecTokenKind::RParen) {
                                    Ok(q5) => Ok((SpecStmt::Send { chan, value }, q5)),
                                    Err(err) => Err(err),
                                },
                                Err(err) => Err(err),
                            }
                        } else {
                            Err(SpecParseError::Stuck)
                        },
                        Err(err) => Err(err),
                    },
                    Err(err) => Err(err),
                }
            } else {
                Err(SpecParseError::Stuck)
            },
            Err(err) => Err(err),
        },
        SpecTokenKind::Asm => match expect_from(t, q, SpecTokenKind::LBrace) {
            Ok(q1) => {
                let (raw, q2) = match kind_at(t, q1) {
                    SpecTokenKind::Str(s) => (s, next_pos(t, q1)),
                    _ => (Seq::empty(), q1),
                };
                match expect_from(t, q2, SpecTokenKind::RBrace) {
                    Ok(q3) => Ok((SpecStmt::Asm(raw), q3)),
                    Err(err) => Err(err),
                }
            },
            Err(err) => Err(err),
        },
        SpecTokenKind::Break => Ok((SpecStmt::Break, q)),
        SpecTokenKind::Continue => Ok((SpecStmt::Continue, q)),
        _ => match advanced(t, p, expr_from(t, p)) {
            Ok((e, q1)) => if at_kind(t, q1, SpecTokenKind::Assign) {
                match expr_from(t, next_pos(t, q1)) {
                    Ok((value, q2)) => Ok((SpecStmt::Assign { target: e, value }, q2)),
                    Err(err) => Err(err),
                }
            } else {
                Ok((SpecStmt::Expr(e), q1))
            },
            Err(err) => Err(err),
        },
    }
}

// ── Top level ────────────────────────────────────────────────────────────────

/// `name: T` parameters separated by commas, up to (not past) `)`.
pub open spec fn params_from(t: Seq<SpecToken>, p: nat, acc: Seq<SpecParam>) -> Result<(Seq<SpecParam>, nat), SpecParseError>
    decreases t.len() - p,
    when wf_tokens(t) && p < t.len()
{
    if at_kind(t, p, SpecTokenKind::RParen) {
        Ok((acc, p))
    } else {
        match ident_from(t, p) {
            Ok((name, q1)) => match expect_from(t, q1, SpecTokenKind::Colon) {
                Ok(q2) => match advanced(t, q2, type_from(t, q2)) {
                    Ok((ty, q3)) => {
                        let acc2 = acc.push(SpecParam { name, ty });
                        if at_kind(t, q3, SpecTokenKind::Comma) && p < q3 {
                            params_from(t, next_pos(t, q3), acc2)
                        } else {
                            Ok((acc2, q3))
                        }
                    },
                    Err(e) => Err(e),
                },
                Err(e) => Err(e),
            },
            Err(e) => Err(e),
        }
    }
}

/// `name(params) [-> T] { body }` from the name at `p`: a function or method.
pub open spec fn signature_from(t: Seq<SpecToken>, p: nat, is_pub: bool) -> Result<(SpecFunctionDecl, nat), SpecParseError>
    recommends
        wf_tokens(t),
        p < t.len(),
{
    match ident_from(t, p) {
        Ok((name, q1)) => match expect_from(t, q1, SpecTokenKind::LParen) {
            Ok(q2) => match kept(t, q2, params_from(t, q2, Seq::empty())) {
                Ok((params, q3)) => match expect_from(t, q3, SpecTokenKind::RParen) {
                    Ok(q4) => {
                        let ret = if at_kind(t, q4, SpecTokenKind::Arrow) {
                            match type_from(t, next_pos(t, q4)) {
                                Ok((ty, q5)) => Ok((Some(ty), q5)),
                                Err(e) => Err(e),
                            }
                        } else {
                            Ok((None, q4))
                        };
                        match ret {
                            Ok((ret_type, q5)) => match block_from(t, q5) {
                                Ok((body, q6)) => Ok((SpecFunctionDecl { name, params, ret_type, body, is_pub }, q6)),
                                Err(e) => Err(e),
                            },
                            Err(e) => Err(e),
                        }
                    },
                    Err(e) => Err(e),
                },
                Err(e) => Err(e),
            },
            Err(e) => Err(e),
        },
        Err(e) => Err(e),
    }
}

/// `fn name(params) [-> T] { body }`.
pub open spec fn fn_from(t: Seq<SpecToken>, p: nat, is_pub: bool) -> Result<(SpecFunctionDecl, nat), SpecParseError> {
    match expect_from(t, p, SpecTokenKind::Fn) {
        Ok(q) => signature_from(t, q, is_pub),
        Err(e) => Err(e),
    }
}

/// The `name: T` fields of a struct declaration up to (not past) `}`,
/// separated by commas or line ends.
pub open spec fn fields_from(t: Seq<SpecToken>, p: nat, acc: Seq<(Seq<char>, SpecType)>) -> Result<(Seq<(Seq<char>, SpecType)>, nat), SpecParseError>
    decreases t.len() - p,
    when wf_tokens(t) && p < t.len()
{
    let p1 = skip_semis_from(t, p);
    proof {
        lemma_skip_semis(t, p);
    }
    if at_kind(t, p1, SpecTokenKind::RBrace) {
        Ok((acc, p1))
    } else {
        match ident_from(t, p1) {
            Ok((fname, q1)) => match expect_from(t, q1, SpecTokenKind::Colon) {
                Ok(q2) => match advanced(t, q2, type_from(t, q2)) {
                    Ok((fty, q3)) => {
                        let q4 = if at_kind(t, q3, SpecTokenKind::Comma) {
                            next_pos(t, q3)
                        } else {
                            skip_semis_from(t, q3)
                        };
                        proof {
                            lemma_skip_semis(t, q3);
                        }
                        if p < q4 {
                            fields_from(t, q4, acc.push((fname, fty)))
                        } else {
                            Err(SpecParseError::Stuck)
                        }
                    },
                    Err(e) => Err(e),
                },
                Err(e) => Err(e),
            },
            Err(e) => Err(e),
        }
    }
}

/// `struct Name { fields }`.
pub open spec fn struct_from(t: Seq<SpecToken>, p: nat, is_pub: bool) -> Result<(SpecStructDecl, nat), SpecParseError> {
    match expect_from(t, p, SpecTokenKind::Struct) {
        Ok(q) => match ident_from(t, q) {
            Ok((name, q1)) => match expect_from(t, q1, SpecTokenKind::LBrace) {
                Ok(q2) => match kept(t, q2, fields_from(t, q2, Seq::empty())) {
                    Ok((fields, q3)) => match expect_from(t, q3, SpecTokenKind::RBrace) {
                        Ok(q4) => Ok((SpecStructDecl { name, fields, is_pub }, q4)),
                        Err(e) => Err(e),
                    },
                    Err(e) => Err(e),
                },
                Err(e) => Err(e),
            },
            Err(e) => Err(e),
        },
        Err(e) => Err(e),
    }
}

/// The `[pub] fn` methods of an `impl` up to (not past) `}`.
pub open spec fn methods_from(t: Seq<SpecToken>, p: nat, acc: Seq<SpecFunctionDecl>) -> Result<(Seq<SpecFunctionDecl>, nat), SpecParseError>
    decreases t.len() - p,
    when wf_tokens(t) && p < t.len()
{
    let p1 = skip_semis_from(t, p);
    proof {
        lemma_skip_semis(t, p);
    }
    if at_kind(t, p1, SpecTokenKind::RBrace) {
        Ok((acc, p1))
    } else {
        let is_pub = at_kind(t, p1, SpecTokenKind::Pub);
        let q0 = if is_pub { next_pos(t, p1) } else { p1 };
        match expect_from(t, q0, SpecTokenKind::Fn) {
            Ok(q1) => match advanced(t, p1, signature_from(t, q1, is_pub)) {
                Ok((m, q2)) => methods_from(t, q2, acc.push(m)),
                Err(e) => Err(e),
            },
            Err(e) => Err(e),
        }
    }
}

/// `impl Target { methods }`.
pub open spec fn impl_from(t: Seq<SpecToken>, p: nat) -> Result<(SpecImplDecl, nat), SpecParseError> {
    match expect_from(t, p, SpecTokenKind::Impl) {
        Ok(q) => match ident_from(t, q) {
            Ok((target, q1)) => match expect_from(t, q1, SpecTokenKind::LBrace) {
                Ok(q2) => match kept(t, q2, methods_from(t, q2, Seq::empty())) {
                    Ok((methods, q3)) => match expect_from(t, q3, SpecTokenKind::RBrace) {
                        Ok(q4) => Ok((SpecImplDecl { target, methods }, q4)),
                        Err(e) => Err(e),
                    },
                    Err(e) => Err(e),
                },
                Err(e) => Err(e),
            },
            Err(e) => Err(e),
        },
        Err(e) => Err(e),
    }
}

/// A top-level item: `[pub]` function, struct or impl, `use name`, or a
/// global `let name[: T] = value` / `name = value`.
pub open spec fn top_level_from(t: Seq<SpecToken>, p: nat) -> Result<(SpecTopLevel, nat), SpecParseError> {
    let is_pub = at_kind(t, p, SpecTokenKind::Pub);
    let q = if is_pub { next_pos(t, p) } else { p };
    match kind_at(t, q) {
        SpecTokenKind::Fn => match fn_from(t, q, is_pub) {
            Ok((f, q2)) => Ok((SpecTopLevel::Function(f), q2)),
            Err(e) => Err(e),
        },
        SpecTokenKind::Struct => match struct_from(t, q, is_pub) {
            Ok((s, q2)) => Ok((SpecTopLevel::Struct(s), q2)),
            Err(e) => Err(e),
        },
        SpecTokenKind::Impl => match impl_from(t, q) {
            Ok((i, q2)) => Ok((SpecTopLevel::Impl(i), q2)),
            Err(e) => Err(e),
        },
        SpecTokenKind::Use => match ident_from(t, next_pos(t, q)) {
            Ok((path, q2)) => Ok((SpecTopLevel::Use(path), q2)),
            Err(e) => Err(e),
        },
        SpecTokenKind::Let => match let_from(t, q) {
            Ok(((name, ty, value), q2)) => Ok((SpecTopLevel::GlobalVar { name, ty, value }, q2)),
            Err(e) => Err(e),
        },
        SpecTokenKind::Ident(_) => match ident_from(t, q) {
            Ok((name, q1)) => if at_kind(t, q1, SpecTokenKind::Assign) {
                match expr_from(t, next_pos(t, q1)) {
                    Ok((value, q2)) => Ok((SpecTopLevel::GlobalVar { name, ty: None, value }, q2)),
                    Err(e) => Err(e),
                }
            } else {
                Err(SpecParseError::TopLevelIdent { name, line: line_at(t, q1) })
            },
            Err(e) => Err(e),
        },
        _ => Err(SpecParseError::TopLevelToken { got: kind_at(t, q), line: line_at(t, q) }),
    }
}

/// The top-level items from `p` to the end, after those in `acc`.
pub open spec fn items_from(t: Seq<SpecToken>, p: nat, acc: Seq<SpecTopLevel>) -> Result<Seq<SpecTopLevel>, SpecParseError>
    decreases t.len() - p,
    when wf_tokens(t) && p < t.len()
{
    if at_kind(t, p, SpecTokenKind::EOF) {
        Ok(acc)
    } else {
        let p1 = skip_semis_from(t, p);
        proof {
            lemma_skip_semis(t, p);
        }
        if at_kind(t, p1, SpecTokenKind::EOF) {
            Ok(acc)
        } else {
            match advanced(t, p1, top_level_from(t, p1)) {
                Ok((item, q)) => {
                    proof {
                        lemma_skip_semis(t, q);
                    }
                    items_from(t, skip_semis_from(t, q), acc.push(item))
                },
                Err(e) => Err(e),
            }
        }
    }
}

/// The program that the tokens `t` write, from position `p`.
pub open spec fn program_from(t: Seq<SpecToken>, p: nat) -> Result<SpecProgram, SpecParseError> {
    match items_from(t, p, Seq::empty()) {
        Ok(items) => Ok(SpecProgram { items }),
        Err(e) => Err(e),
    }
}


// ── The parser ───────────────────────────────────────────────────────────────

/// What a parse gives, in the model: the value and the position after it.
pub open spec fn expr_outcome(r: Result<Expr, ParseError>, p: usize) -> Result<(SpecExpr, nat), SpecParseError> {
    match r {
        Ok(e) => Ok((e@, p as nat)),
        Err(err) => Err(err@),
    }
}

pub open spec fn expr_outcome_at(r: Result<Expr, ParseError>, p: nat) -> Result<(SpecExpr, nat), SpecParseError> {
    match r {
        Ok(e) => Ok((e@, p)),
        Err(err) => Err(err@),
    }
}

pub open spec fn exprs_outcome(r: Result<Vec<Expr>, ParseError>, p: usize) -> Result<(Seq<SpecExpr>, nat), SpecParseError> {
    match r {
        Ok(v) => Ok((exprs_view(v@), p as nat)),
        Err(err) => Err(err@),
    }
}

pub open spec fn stmt_outcome(r: Result<Stmt, ParseError>, p: usize) -> Result<(SpecStmt, nat), SpecParseError> {
    match r {
        Ok(x) => Ok((x@, p as nat)),
        Err(err) => Err(err@),
    }
}

pub open spec fn stmts_outcome(r: Result<Vec<Stmt>, ParseError>, p: usize) -> Result<(Seq<SpecStmt>, nat), SpecParseError> {
    match r {
        Ok(v) => Ok((stmts_view(v@), p as nat)),
        Err(err) => Err(err@),
    }
}

pub open spec fn type_outcome(r: Result<Type, ParseError>, p: usize) -> Result<(SpecType, nat), SpecParseError> {
    match r {
        Ok(ty) => Ok((ty@, p as nat)),
        Err(err) => Err(err@),
    }
}

/// A recursive-descent parser over a token sequence.
pub struct Parser {
    tokens: Vec<Token>,
    pos: usize,
}

impl Parser {
    /// The tokens being parsed.
    pub closed spec fn model(&self) -> Seq<SpecToken> {
        tokens_view(self.tokens@)
    }

    /// The position of the next token.
    pub closed spec fn position(&self) -> nat {
        self.pos as nat
    }

    /// The parser's invariant: the tokens end with `EOF` and the position is
    /// one of them.
    pub closed spec fn wf(&self) -> bool {
        wf_tokens(self.model()) && self.pos < self.tokens@.len()
    }

    /// A parser at the first of `tokens`.
    pub fn new(tokens: Vec<Token>) -> (r: Self)
        ensures
            r.model() == tokens_view(tokens@),
            r.position() == 0,
            r.wf() <==> wf_tokens(tokens_view(tokens@)),
    {
        Parser { tokens, pos: 0 }
    }

    fn cur(&self) -> (r: &Token)
        requires
            self.wf(),
        ensures
            r@ == self.model()[self.pos as int],
    {
        &self.tokens[self.pos]
    }

    fn peek_kind(&self) -> (r: &TokenKind)
        requires
            self.wf(),
        ensures
            r@ == kind_at(self.model(), self.pos as nat),
    {
        &self.cur().kind
    }

    fn advance(&mut self)
        requires
            old(self).wf(),
        ensures
            final(self).wf(),
            final(self).model() == old(self).model(),
            final(self).pos == next_pos(old(self).model(), old(self).pos as nat),
    {
        if self.pos < self.tokens.len() - 1 {
            self.pos = self.pos + 1;
        }
    }

    fn expect(&mut self, kind: &TokenKind) -> (r: Result<(), ParseError>)
        requires
            old(self).wf(),
        ensures
            final(self).wf(),
            final(self).model() == old(self).model(),
            match expect_from(old(self).model(), old(self).pos as nat, kind@) {
                Ok(q) => r is Ok && final(self).pos == q,
                Err(e) => r matches Err(er) && er@ == e && final(self).pos == old(self).pos,
            },
    {
        if self.peek_kind().tag() == kind.tag() {
            self.advance();
            Ok(())
        } else {
            Err(
                ParseError::Expected {
                    expected: kind.duplicate(),
                    got: self.peek_kind().duplicate(),
                    line: self.cur().line,
                },
            )
        }
    }

    fn expect_ident(&mut self) -> (r: Result<String, ParseError>)
        requires
            old(self).wf(),
        ensures
            final(self).wf(),
            final(self).model() == old(self).model(),
            match ident_from(old(self).model(), old(self).pos as nat) {
                Ok((n, q)) => r matches Ok(s) && s@ == n && final(self).pos == q,
                Err(e) => r matches Err(er) && er@ == e && final(self).pos == old(self).pos,
            },
    {
        if let TokenKind::Ident(name) = self.peek_kind() {
            let name = name.clone();
            self.advance();
            Ok(name)
        } else {
            Err(ParseError::ExpectedIdent { got: self.peek_kind().duplicate(), line: self.cur().line })
        }
    }

    fn check(&self, kind: &TokenKind) -> (r: bool)
        requires
            self.wf(),
        ensures
            r == at_kind(self.model(), self.pos as nat, kind@),
    {
        self.peek_kind().tag() == kind.tag()
    }

    fn eat(&mut self, kind: &TokenKind) -> (r: bool)
        requires
            old(self).wf(),
        ensures
            final(self).wf(),
            final(self).model() == old(self).model(),
            r == at_kind(old(self).model(), old(self).pos as nat, kind@),
            final(self).pos == if r { next_pos(old(self).model(), old(self).pos as nat) } else { old(self).pos as nat },
    {
        if self.check(kind) {
            self.advance();
            true
        } else {
            false
        }
    }

    fn skip_semis(&mut self)
        requires
            old(self).wf(),
        ensures
            final(self).wf(),
            final(self).model() == old(self).model(),
            final(self).pos == skip_semis_from(old(self).model(), old(self).pos as nat),
    {
        let ghost t = self.model();
        let ghost p0 = self.pos as nat;
        proof {
            lemma_skip_semis(t, p0);
        }
        loop
            invariant
                self.wf(),
                self.model() == t,
                skip_semis_from(t, p0) == skip_semis_from(t, self.pos as nat),
            ensures
                self.pos == skip_semis_from(t, p0),
            decreases self.tokens@.len() - self.pos,
        {
            if !self.eat(&TokenKind::Semicolon) {
                break;
            }
        }
    }
}


impl Parser {
    /// Parses `<T>`, the `<` at the cursor.
    fn parse_angled(&mut self) -> (r: Result<Type, ParseError>)
        requires
            old(self).wf(),
            kind_at(old(self).model(), old(self).pos as nat) is Lt,
        ensures
            final(self).wf(),
            final(self).model() == old(self).model(),
            type_outcome(r, final(self).pos) == angled_from(old(self).model(), old(self).pos as nat),
            r is Ok ==> old(self).pos < final(self).pos,
        decreases old(self).model().len() - old(self).position(), 1nat,
    {
        self.advance();
        let inner = self.parse_type()?;
        self.expect(&TokenKind::Gt)?;
        Ok(inner)
    }

    /// Parses a type.
    fn parse_type(&mut self) -> (r: Result<Type, ParseError>)
        requires
            old(self).wf(),
        ensures
            final(self).wf(),
            final(self).model() == old(self).model(),
            type_outcome(r, final(self).pos) == type_from(old(self).model(), old(self).pos as nat),
            r is Ok ==> old(self).pos < final(self).pos,
        decreases old(self).model().len() - old(self).position(), 2nat,
    {
        match self.peek_kind() {
            TokenKind::Ident(name) => {
                let name = name.clone();
                self.advance();
                if chars_are(&name, "chan") && self.check(&TokenKind::Lt) {
                    let inner = self.parse_angled()?;
                    return Ok(Type::Chan(Box::new(inner)));
                }
                let ty = if chars_are(&name, "int") {
                    Type::Int
                } else if chars_are(&name, "float") {
                    Type::Float
                } else if chars_are(&name, "str") {
                    Type::Str
                } else if chars_are(&name, "bool") {
                    Type::Bool
                } else if chars_are(&name, "void") {
                    Type::Void
                } else {
                    Type::Custom(name)
                };
                Ok(ty)
            },
            TokenKind::Ptr => {
                self.advance();
                let inner = if self.check(&TokenKind::Lt) {
                    self.parse_angled()?
                } else {
                    self.parse_type()?
                };
                Ok(Type::Ptr(Box::new(inner)))
            },
            TokenKind::Star => {
                self.advance();
                let inner = self.parse_type()?;
                Ok(Type::Ptr(Box::new(inner)))
            },
            TokenKind::LBracket => {
                self.advance();
                let inner = self.parse_type()?;
                let sz = if self.eat(&TokenKind::Semicolon) {
                    if let TokenKind::Int(n) = self.peek_kind() {
                        let n = *n;
                        self.advance();
                        Some(n as usize)
                    } else {
                        None
                    }
                } else {
                    None
                };
                self.expect(&TokenKind::RBracket)?;
                Ok(Type::Array(Box::new(inner), sz))
            },
            _ => Err(ParseError::ExpectedType { got: self.peek_kind().duplicate(), line: self.cur().line }),
        }
    }

    /// Parses an expression.
    pub fn parse_expr(&mut self) -> (r: Result<Expr, ParseError>)
        requires
            old(self).wf(),
        ensures
            final(self).wf(),
            final(self).model() == old(self).model(),
            expr_outcome_at(r, final(self).position()) == expr_from(old(self).model(), old(self).position()),
            r is Ok ==> old(self).position() < final(self).position(),
        decreases old(self).model().len() - old(self).position(), 11nat,
    {
        self.parse_or()
    }

    fn parse_or(&mut self) -> (r: Result<Expr, ParseError>)
        requires
            old(self).wf(),
        ensures
            final(self).wf(),
            final(self).model() == old(self).model(),
            expr_outcome(r, final(self).pos) == binary_from(old(self).model(), old(self).pos as nat, 6),
            r is Ok ==> old(self).pos < final(self).pos,
        decreases old(self).model().len() - old(self).position(), 10nat,
    {
        let ghost t = self.model();
        let ghost p0 = self.pos as nat;
        let mut left = self.parse_and()?;
        loop
            invariant
                self.wf(),
                self.model() == t,
                t == old(self).model(),
                p0 == old(self).pos,
                p0 < self.pos,
                p0 < t.len(),
                binary_from(t, p0, 6) == binary_tail(t, left@, self.pos as nat, 6),
            ensures
                p0 < self.pos,
                binary_from(t, p0, 6) == Ok::<(SpecExpr, nat), SpecParseError>((left@, self.pos as nat)),
            decreases self.tokens@.len() - self.pos,
        {
            let op = match self.peek_kind() {
                TokenKind::Or => BinOp::Or,
                _ => break,
            };
            self.advance();
            let right = self.parse_and()?;
            left = Expr::Binary { op, left: Box::new(left), right: Box::new(right) };
        }
        Ok(left)
    }

    fn parse_and(&mut self) -> (r: Result<Expr, ParseError>)
        requires
            old(self).wf(),
        ensures
            final(self).wf(),
            final(self).model() == old(self).model(),
            expr_outcome(r, final(self).pos) == binary_from(old(self).model(), old(self).pos as nat, 5),
            r is Ok ==> old(self).pos < final(self).pos,
        decreases old(self).model().len() - old(self).position(), 9nat,
    {
        let ghost t = self.model();
        let ghost p0 = self.pos as nat;
        let mut left = self.parse_eq()?;
        loop
            invariant
                self.wf(),
                self.model() == t,
                t == old(self).model(),
                p0 == old(self).pos,
                p0 < self.pos,
                p0 < t.len(),
                binary_from(t, p0, 5) == binary_tail(t, left@, self.pos as nat, 5),
            ensures
                p0 < self.pos,
                binary_from(t, p0, 5) == Ok::<(SpecExpr, nat), SpecParseError>((left@, self.pos as nat)),
            decreases self.tokens@.len() - self.pos,
        {
            let op = match self.peek_kind() {
                TokenKind::And => BinOp::And,
                _ => break,
            };
            self.advance();
            let right = self.parse_eq()?;
            left = Expr::Binary { op, left: Box::new(left), right: Box::new(right) };
        }
        Ok(left)
    }

    fn parse_eq(&mut self) -> (r: Result<Expr, ParseError>)
        requires
            old(self).wf(),
        ensures
            final(self).wf(),
            final(self).model() == old(self).model(),
            expr_outcome(r, final(self).pos) == binary_from(old(self).model(), old(self).pos as nat, 4),
            r is Ok ==> old(self).pos < final(self).pos,
        decreases old(self).model().len() - old(self).position(), 8nat,
    {
        let ghost t = self.model();
        let ghost p0 = self.pos as nat;
        let mut left = self.parse_comparison()?;
        loop
            invariant
                self.wf(),
                self.model() == t,
                t == old(self).model(),
                p0 == old(self).pos,
                p0 < self.pos,
                p0 < t.len(),
                binary_from(t, p0, 4) == binary_tail(t, left@, self.pos as nat, 4),
            ensures
                p0 < self.pos,
                binary_from(t, p0, 4) == Ok::<(SpecExpr, nat), SpecParseError>((left@, self.pos as nat)),
            decreases self.tokens@.len() - self.pos,
        {
            let op = match self.peek_kind() {
                TokenKind::Eq => BinOp::Eq,
                TokenKind::Ne => BinOp::Ne,
                _ => break,
            };
            self.advance();
            let right = self.parse_comparison()?;
            left = Expr::Binary { op, left: Box::new(left), right: Box::new(right) };
        }
        Ok(left)
    }

    fn parse_comparison(&mut self) -> (r: Result<Expr, ParseError>)
        requires
            old(self).wf(),
        ensures
            final(self).wf(),
            final(self).model() == old(self).model(),
            expr_outcome(r, final(self).pos) == binary_from(old(self).model(), old(self).pos as nat, 3),
            r is Ok ==> old(self).pos < final(self).pos,
        decreases old(self).model().len() - old(self).position(), 7nat,
    {
        let ghost t = self.model();
        let ghost p0 = self.pos as nat;
        let mut left = self.parse_add()?;
        loop
            invariant
                self.wf(),
                self.model() == t,
                t == old(self).model(),
                p0 == old(self).pos,
                p0 < self.pos,
                p0 < t.len(),
                binary_from(t, p0, 3) == binary_tail(t, left@, self.pos as nat, 3),
            ensures
                p0 < self.pos,
                binary_from(t, p0, 3) == Ok::<(SpecExpr, nat), SpecParseError>((left@, self.pos as nat)),
            decreases self.tokens@.len() - self.pos,
        {
            let op = match self.peek_kind() {
                TokenKind::Lt => BinOp::Lt,
                TokenKind::Gt => BinOp::Gt,
                TokenKind::Le => BinOp::Le,
                TokenKind::Ge => BinOp::Ge,
                _ => break,
            };
            self.advance();
            let right = self.parse_add()?;
            left = Expr::Binary { op, left: Box::new(left), right: Box::new(right) };
        }
        Ok(left)
    }

    fn parse_add(&mut self) -> (r: Result<Expr, ParseError>)
        requires
            old(self).wf(),
        ensures
            final(self).wf(),
            final(self).model() == old(self).model(),
            expr_outcome(r, final(self).pos) == binary_from(old(self).model(), old(self).pos as nat, 2),
            r is Ok ==> old(self).pos < final(self).pos,
        decreases old(self).model().len() - old(self).position(), 6nat,
    {
        let ghost t = self.model();
        let ghost p0 = self.pos as nat;
        let mut left = self.parse_mul()?;
        loop
            invariant
                self.wf(),
                self.model() == t,
                t == old(self).model(),
                p0 == old(self).pos,
                p0 < self.pos,
                p0 < t.len(),
                binary_from(t, p0, 2) == binary_tail(t, left@, self.pos as nat, 2),
            ensures
                p0 < self.pos,
                binary_from(t, p0, 2) == Ok::<(SpecExpr, nat), SpecParseError>((left@, self.pos as nat)),
            decreases self.tokens@.len() - self.pos,
        {
            let op = match self.peek_kind() {
                TokenKind::Plus => BinOp::Add,
                TokenKind::Minus => BinOp::Sub,
                _ => break,
            };
            self.advance();
            let right = self.parse_mul()?;
            left = Expr::Binary { op, left: Box::new(left), right: Box::new(right) };
        }
        Ok(left)
    }

    fn parse_mul(&mut self) -> (r: Result<Expr, ParseError>)
        requires
            old(self).wf(),
        ensures
            final(self).wf(),
            final(self).model() == old(self).model(),
            expr_outcome(r, final(self).pos) == binary_from(old(self).model(), old(self).pos as nat, 1),
            r is Ok ==> old(self).pos < final(self).pos,
        decreases old(self).model().len() - old(self).position(), 5nat,
    {
        let ghost t = self.model();
        let ghost p0 = self.pos as nat;
        let mut left = self.parse_unary()?;
        loop
            invariant
                self.wf(),
                self.model() == t,
                t == old(self).model(),
                p0 == old(self).pos,
                p0 < self.pos,
                p0 < t.len(),
                binary_from(t, p0, 1) == binary_tail(t, left@, self.pos as nat, 1),
            ensures
                p0 < self.pos,
                binary_from(t, p0, 1) == Ok::<(SpecExpr, nat), SpecParseError>((left@, self.pos as nat)),
            decreases self.tokens@.len() - self.pos,
        {
            let op = match self.peek_kind() {
                TokenKind::Star => BinOp::Mul,
                TokenKind::Slash => BinOp::Div,
                TokenKind::Percent => BinOp::Mod,
                _ => break,
            };
            self.advance();
            let right = self.parse_unary()?;
            left = Expr::Binary { op, left: Box::new(left), right: Box::new(right) };
        }
        Ok(left)
    }

    fn parse_unary(&mut self) -> (r: Result<Expr, ParseError>)
        requires
            old(self).wf(),
        ensures
            final(self).wf(),
            final(self).model() == old(self).model(),
            expr_outcome(r, final(self).pos) == unary_from(old(self).model(), old(self).pos as nat),
            r is Ok ==> old(self).pos < final(self).pos,
        decreases old(self).model().len() - old(self).position(), 4nat,
    {
        match self.peek_kind() {
            TokenKind::Not => {
                self.advance();
                let e = self.parse_unary()?;
                Ok(Expr::Unary { op: UnOp::Not, expr: Box::new(e) })
            },
            TokenKind::Minus => {
                self.advance();
                let e = self.parse_unary()?;
                Ok(Expr::Unary { op: UnOp::Neg, expr: Box::new(e) })
            },
            TokenKind::Amp => {
                self.advance();
                let e = self.parse_unary()?;
                Ok(Expr::Ref(Box::new(e)))
            },
            TokenKind::Star => {
                self.advance();
                let e = self.parse_unary()?;
                Ok(Expr::Deref(Box::new(e)))
            },
            // <-ch  receive
            TokenKind::ChanRecv => {
                self.advance();
                let e = self.parse_primary()?;
                Ok(Expr::ChanRecv(Box::new(e)))
            },
            _ => self.parse_range(),
        }
    }

    fn parse_range(&mut self) -> (r: Result<Expr, ParseError>)
        requires
            old(self).wf(),
        ensures
            final(self).wf(),
            final(self).model() == old(self).model(),
            expr_outcome(r, final(self).pos) == range_from(old(self).model(), old(self).pos as nat),
            r is Ok ==> old(self).pos < final(self).pos,
        decreases old(self).model().len() - old(self).position(), 3nat,
    {
        let left = self.parse_postfix()?;
        if self.eat(&TokenKind::DotDot) {
            let right = self.parse_postfix()?;
            return Ok(Expr::Range { start: Box::new(left), end: Box::new(right) });
        }
        Ok(left)
    }

    #[verifier::rlimit(60)]
    fn parse_postfix(&mut self) -> (r: Result<Expr, ParseError>)
        requires
            old(self).wf(),
        ensures
            final(self).wf(),
            final(self).model() == old(self).model(),
            expr_outcome(r, final(self).pos) == postfix_from(old(self).model(), old(self).pos as nat),
            r is Ok ==> old(self).pos < final(self).pos,
        decreases old(self).model().len() - old(self).position(), 2nat,
    {
        let ghost t = self.model();
        let ghost p0 = self.pos as nat;
        let mut expr = self.parse_primary()?;
        loop
            invariant
                self.wf(),
                self.model() == t,
                t == old(self).model(),
                p0 == old(self).pos,
                p0 < self.pos,
                p0 < t.len(),
                postfix_from(t, p0) == postfix_tail(t, expr@, self.pos as nat),
            ensures
                p0 < self.pos,
                postfix_from(t, p0) == expr_outcome(Ok(expr), self.pos),
            decreases self.tokens@.len() - self.pos,
        {
            let ghost q = self.pos as nat;
            if self.check(&TokenKind::Dot) {
                self.advance();
                let field = self.expect_ident()?;
                // method call?
                if self.eat(&TokenKind::LParen) {
                    let ghost q3 = self.pos as nat;
                    let mut first: Vec<Expr> = Vec::new();
                    first.push(expr);
                    proof {
                        assert(exprs_view(Seq::<Expr>::empty()) =~= Seq::<SpecExpr>::empty());
                        assert(exprs_view(first@) =~= seq![expr@]) by {
                            lemma_exprs_view_push(Seq::empty(), expr);
                            assert(first@ =~= Seq::<Expr>::empty().push(expr));
                        }
                    }
                    let args = self.parse_list(&TokenKind::RParen, first)?;
                    self.expect(&TokenKind::RParen)?;
                    expr = Expr::Call { name: field, args };
                } else {
                    expr = Expr::Field { object: Box::new(expr), field };
                }
            } else if self.check(&TokenKind::LBracket) {
                self.advance();
                let idx = self.parse_expr()?;
                self.expect(&TokenKind::RBracket)?;
                expr = Expr::Index { array: Box::new(expr), index: Box::new(idx) };
            } else {
                break;
            }
        }
        Ok(expr)
    }

    /// Parses expressions separated by commas up to (not past) a token of
    /// the kind of `close`, after those in `acc`.
    fn parse_list(&mut self, close: &TokenKind, acc: Vec<Expr>) -> (r: Result<Vec<Expr>, ParseError>)
        requires
            old(self).wf(),
        ensures
            final(self).wf(),
            final(self).model() == old(self).model(),
            exprs_outcome(r, final(self).pos) == list_from(old(self).model(), old(self).pos as nat, close@, exprs_view(acc@)),
            r is Ok ==> old(self).pos <= final(self).pos,
        decreases old(self).model().len() - old(self).position(), 12nat,
    {
        let ghost t = self.model();
        let ghost p0 = self.pos as nat;
        let mut items = acc;
        loop
            invariant_except_break
                list_from(t, p0, close@, exprs_view(acc@)) == list_from(t, self.pos as nat, close@, exprs_view(items@)),
            invariant
                self.wf(),
                self.model() == t,
                t == old(self).model(),
                p0 == old(self).pos,
                p0 <= self.pos,
                p0 < t.len(),
            ensures
                p0 <= self.pos,
                list_from(t, p0, close@, exprs_view(acc@)) == exprs_outcome(Ok(items), self.pos),
            decreases self.tokens@.len() - self.pos,
        {
            if self.check(close) {
                break;
            }
            let e = self.parse_expr()?;
            proof {
                lemma_exprs_view_push(items@, e);
            }
            items.push(e);
            if !self.eat(&TokenKind::Comma) {
                break;
            }
        }
        Ok(items)
    }

    /// Parses the `name: value` fields of a struct literal up to (not past) `}`.
    fn parse_inits(&mut self) -> (r: Result<Vec<(String, Expr)>, ParseError>)
        requires
            old(self).wf(),
        ensures
            final(self).wf(),
            final(self).model() == old(self).model(),
            match r {
                Ok(v) => inits_from(old(self).model(), old(self).pos as nat, Seq::empty())
                    == Ok::<(Seq<(Seq<char>, SpecExpr)>, nat), SpecParseError>((field_inits_view(v@), final(self).pos as nat)),
                Err(e) => inits_from(old(self).model(), old(self).pos as nat, Seq::empty()) == Err::<(Seq<(Seq<char>, SpecExpr)>, nat), SpecParseError>(e@),
            },
            r is Ok ==> old(self).pos <= final(self).pos,
        decreases old(self).model().len() - old(self).position(), 12nat,
    {
        let ghost t = self.model();
        let ghost p0 = self.pos as nat;
        let mut fields: Vec<(String, Expr)> = Vec::new();
        loop
            invariant
                self.wf(),
                self.model() == t,
                t == old(self).model(),
                p0 == old(self).pos,
                p0 <= self.pos,
                p0 < t.len(),
                inits_from(t, p0, Seq::empty()) == inits_from(t, self.pos as nat, field_inits_view(fields@)),
            ensures
                p0 <= self.pos,
                inits_from(t, p0, Seq::empty()) == Ok::<(Seq<(Seq<char>, SpecExpr)>, nat), SpecParseError>((field_inits_view(fields@), self.pos as nat)),
            decreases self.tokens@.len() - self.pos,
        {
            let ghost q = self.pos as nat;
            proof {
                lemma_skip_semis(t, q);
            }
            self.skip_semis();
            if self.check(&TokenKind::RBrace) {
                break;
            }
            let fname = self.expect_ident()?;
            self.expect(&TokenKind::Colon)?;
            let fval = self.parse_expr()?;
            let ghost q3 = self.pos as nat;
            let f = (fname, fval);
            proof {
                lemma_field_inits_view_push(fields@, f);
                lemma_skip_semis(t, q3);
            }
            fields.push(f);
            if !self.eat(&TokenKind::Comma) {
                self.skip_semis();
            }
        }
        Ok(fields)
    }

    /// `( e )` after the keyword at the cursor.
    fn parse_paren_arg(&mut self) -> (r: Result<Expr, ParseError>)
        requires
            old(self).wf(),
        ensures
            final(self).wf(),
            final(self).model() == old(self).model(),
            expr_outcome(r, final(self).pos) == paren_arg_from(old(self).model(), old(self).pos as nat),
            r is Ok ==> old(self).pos < final(self).pos,
        decreases old(self).model().len() - old(self).position(), 0nat,
    {
        self.advance();
        self.expect(&TokenKind::LParen)?;
        let e = self.parse_expr()?;
        self.expect(&TokenKind::RParen)?;
        Ok(e)
    }

    fn parse_primary(&mut self) -> (r: Result<Expr, ParseError>)
        requires
            old(self).wf(),
        ensures
            final(self).wf(),
            final(self).model() == old(self).model(),
            expr_outcome(r, final(self).pos) == primary_from(old(self).model(), old(self).pos as nat),
            r is Ok ==> old(self).pos < final(self).pos,
        decreases old(self).model().len() - old(self).position(), 1nat,
    {
        let ghost t = self.model();
        let ghost p0 = self.pos as nat;
        match self.peek_kind().duplicate() {
            TokenKind::Int(n) => {
                self.advance();
                Ok(Expr::Int(n))
            },
            TokenKind::Float(f) => {
                self.advance();
                Ok(Expr::Float(f))
            },
            TokenKind::Str(s) => {
                self.advance();
                Ok(Expr::Str(s))
            },
            TokenKind::Bool(b) => {
                self.advance();
                Ok(Expr::Bool(b))
            },
            TokenKind::Nil => {
                self.advance();
                Ok(Expr::Nil)
            },
            // Grouped expression
            TokenKind::LParen => {
                self.advance();
                let e = self.parse_expr()?;
                self.expect(&TokenKind::RParen)?;
                Ok(e)
            },
            // Array literal
            TokenKind::LBracket => {
                self.advance();
                let items = self.parse_list(&TokenKind::RBracket, Vec::new());
                proof {
                    assert(exprs_view(Seq::<Expr>::empty()) =~= Seq::<SpecExpr>::empty());
                }
                let items = items?;
                self.expect(&TokenKind::RBracket)?;
                Ok(Expr::Array(items))
            },
            // raw_mem(addr)
            TokenKind::RawMem => {
                let addr = self.parse_paren_arg()?;
                Ok(Expr::RawMem(Box::new(addr)))
            },
            // make_chan()  or  make_chan<type>()
            TokenKind::MakeChan => self.parse_make_chan(),
            // exec("cmd") as expression — returns captured output
            TokenKind::Exec => {
                let arg = self.parse_paren_arg()?;
                let mut args: Vec<Expr> = Vec::new();
                args.push(arg);
                proof {
                    lemma_exprs_view_push(Seq::empty(), arg);
                    assert(args@ =~= Seq::<Expr>::empty().push(arg));
                    assert(exprs_view(Seq::<Expr>::empty()) =~= Seq::<SpecExpr>::empty());
                    assert(exprs_view(args@) =~= seq![arg@]);
                }
                Ok(Expr::Call { name: string_of("exec"), args })
            },
            // recv(ch) as expression
            TokenKind::Recv => {
                let ch = self.parse_paren_arg()?;
                Ok(Expr::ChanRecv(Box::new(ch)))
            },
            // Identifier — may be a call or struct init
            TokenKind::Ident(name) => self.parse_name_expr(name),
            _ => Err(ParseError::ExprToken { got: self.peek_kind().duplicate(), line: self.cur().line }),
        }
    }
    /// `make_chan`, `make_chan<T>` or either followed by `()`.
    fn parse_make_chan(&mut self) -> (r: Result<Expr, ParseError>)
        requires
            old(self).wf(),
            kind_at(old(self).model(), old(self).pos as nat) is MakeChan,
        ensures
            final(self).wf(),
            final(self).model() == old(self).model(),
            expr_outcome(r, final(self).pos) == primary_from(old(self).model(), old(self).pos as nat),
            r is Ok ==> old(self).pos < final(self).pos,
    {
                self.advance();
                let ty = if self.eat(&TokenKind::Lt) {
                    let ty = self.parse_type()?;
                    self.expect(&TokenKind::Gt)?;
                    ty
                } else {
                    Type::Int
                };
                if self.eat(&TokenKind::LParen) {
                    self.expect(&TokenKind::RParen)?;
                }
                Ok(Expr::MakeChan(ty))
    }

    /// After a name `first`, reads `::name` where it follows (as in
    /// `Point::distance`) and gives the whole name.
    fn parse_path_rest(&mut self, first: String) -> (r: String)
        requires
            old(self).wf(),
        ensures
            final(self).wf(),
            final(self).model() == old(self).model(),
            (r@, final(self).pos as nat) == path_name_from(old(self).model(), old(self).pos as nat, first@),
    {
        let ghost t = self.model();
        let ghost q = self.pos as nat;
        let save = self.pos;
        let mut name = first;
        if self.eat(&TokenKind::Colon) {
            if self.eat(&TokenKind::Colon) {
                match self.peek_kind() {
                    TokenKind::Ident(m) => {
                        let m = m.clone();
                        self.advance();
                        push_text(&mut name, "::");
                        push_text(&mut name, m.as_str());
                        return name;
                    },
                    _ => {},
                }
            }
        }
        self.pos = save;
        name
    }

    /// A name at the cursor: a call `name(args)`, a struct literal
    /// `Name { fields }` (uppercase names only), or the name itself.
    fn parse_name_expr(&mut self, name: String) -> (r: Result<Expr, ParseError>)
        requires
            old(self).wf(),
            kind_at(old(self).model(), old(self).pos as nat) == SpecTokenKind::Ident(name@),
        ensures
            final(self).wf(),
            final(self).model() == old(self).model(),
            expr_outcome(r, final(self).pos) == primary_from(old(self).model(), old(self).pos as nat),
            r is Ok ==> old(self).pos < final(self).pos,
        decreases old(self).model().len() - old(self).position(), 0nat,
    {
                self.advance();
                let name = self.parse_path_rest(name);
                if self.eat(&TokenKind::LParen) {
                    // Function call
                    let args = self.parse_list(&TokenKind::RParen, Vec::new());
                    proof {
                        assert(exprs_view(Seq::<Expr>::empty()) =~= Seq::<SpecExpr>::empty());
                    }
                    let args = args?;
                    self.expect(&TokenKind::RParen)?;
                    Ok(Expr::Call { name, args })
                } else if first_is_uppercase(name.as_str()) && self.eat(&TokenKind::LBrace) {
                    // Struct initialiser: Name { field: val, … }  (uppercase only)
                    let fields = self.parse_inits()?;
                    self.expect(&TokenKind::RBrace)?;
                    Ok(Expr::StructInit { name, fields })
                } else {
                    Ok(Expr::Ident(name))
                }
    }

    /// A block `{ statements }`.
    fn parse_block(&mut self) -> (r: Result<Vec<Stmt>, ParseError>)
        requires
            old(self).wf(),
        ensures
            final(self).wf(),
            final(self).model() == old(self).model(),
            stmts_outcome(r, final(self).pos) == block_from(old(self).model(), old(self).pos as nat),
            r is Ok ==> old(self).pos < final(self).pos,
        decreases old(self).model().len() - old(self).position(), 15nat,
    {
        self.expect(&TokenKind::LBrace)?;
        let stmts = self.parse_stmts()?;
        self.expect(&TokenKind::RBrace)?;
        Ok(stmts)
    }

    /// The statements of a block up to (not past) `}` or the end.
    fn parse_stmts(&mut self) -> (r: Result<Vec<Stmt>, ParseError>)
        requires
            old(self).wf(),
        ensures
            final(self).wf(),
            final(self).model() == old(self).model(),
            stmts_outcome(r, final(self).pos) == stmts_from(old(self).model(), old(self).pos as nat, Seq::empty()),
            r is Ok ==> old(self).pos <= final(self).pos,
        decreases old(self).model().len() - old(self).position(), 14nat,
    {
        let ghost t = self.model();
        let ghost p0 = self.pos as nat;
        let mut stmts: Vec<Stmt> = Vec::new();
        proof {
            assert(stmts_view(Seq::<Stmt>::empty()) =~= Seq::<SpecStmt>::empty());
        }
        loop
            invariant
                self.wf(),
                self.model() == t,
                t == old(self).model(),
                p0 == old(self).pos,
                p0 <= self.pos,
                p0 < t.len(),
                stmts_from(t, p0, Seq::empty()) == stmts_from(t, self.pos as nat, stmts_view(stmts@)),
            ensures
                p0 <= self.pos,
                stmts_from(t, p0, Seq::empty()) == stmts_outcome(Ok(stmts), self.pos),
            decreases self.tokens@.len() - self.pos,
        {
            let ghost q = self.pos as nat;
            proof {
                lemma_skip_semis(t, q);
            }
            self.skip_semis();
            if self.check(&TokenKind::RBrace) || self.check(&TokenKind::EOF) {
                break;
            }
            let ghost q1 = self.pos as nat;
            let st = self.parse_stmt()?;
            let ghost q2 = self.pos as nat;
            proof {
                lemma_stmts_view_push(stmts@, st);
                lemma_skip_semis(t, q2);
                assert(stmts_from(t, q, stmts_view(stmts@)) == stmts_from(
                    t,
                    skip_semis_from(t, q2),
                    stmts_view(stmts@).push(st@),
                ));
            }
            stmts.push(st);
            self.skip_semis();
        }
        Ok(stmts)
    }

    /// `let name[: T] = value` from the keyword at the cursor.
    fn parse_let_parts(&mut self) -> (r: Result<(String, Option<Type>, Expr), ParseError>)
        requires
            old(self).wf(),
        ensures
            final(self).wf(),
            final(self).model() == old(self).model(),
            match r {
                Ok((name, ty, value)) => let_from(old(self).model(), old(self).pos as nat)
                    == Ok::<((Seq<char>, Option<SpecType>, SpecExpr), nat), SpecParseError>(((name@, opt_type_view(ty), value@), final(self).pos as nat)),
                Err(e) => let_from(old(self).model(), old(self).pos as nat)
                    == Err::<((Seq<char>, Option<SpecType>, SpecExpr), nat), SpecParseError>(e@),
            },
            r is Ok ==> old(self).pos < final(self).pos,
        decreases old(self).model().len() - old(self).position(), 0nat,
    {
        self.advance();
        let name = self.expect_ident()?;
        let ty = if self.eat(&TokenKind::Colon) {
            Some(self.parse_type()?)
        } else {
            None
        };
        self.expect(&TokenKind::Assign)?;
        let value = self.parse_expr()?;
        Ok((name, ty, value))
    }

    /// Parses a statement.
    #[verifier::rlimit(60)]
    fn parse_stmt(&mut self) -> (r: Result<Stmt, ParseError>)
        requires
            old(self).wf(),
        ensures
            final(self).wf(),
            final(self).model() == old(self).model(),
            stmt_outcome(r, final(self).pos) == stmt_from(old(self).model(), old(self).pos as nat),
            r is Ok ==> old(self).pos < final(self).pos,
        decreases old(self).model().len() - old(self).position(), 13nat,
    {
        match self.peek_kind() {
            // let name[: type] = value
            TokenKind::Let => {
                let (name, ty, value) = self.parse_let_parts()?;
                Ok(Stmt::Let { name, ty, value })
            },
            // ptr name = &expr
            TokenKind::Ptr => {
                self.advance();
                let name = self.expect_ident()?;
                self.expect(&TokenKind::Assign)?;
                let expr = self.parse_expr()?;
                Ok(Stmt::PtrDecl { name, expr })
            },
            // return [expr]
            TokenKind::Return => {
                self.advance();
                let expr = if self.check(&TokenKind::RBrace) || self.check(&TokenKind::Semicolon) || self.check(
                    &TokenKind::EOF,
                ) {
                    None
                } else {
                    Some(self.parse_expr()?)
                };
                Ok(Stmt::Return(expr))
            },
            // if cond { } [else { }]
            TokenKind::If => self.parse_if(),
            // while cond { }
            TokenKind::While => {
                self.advance();
                let cond = self.parse_expr()?;
                let body = self.parse_block()?;
                Ok(Stmt::While { cond, body })
            },
            // loop var in range { }
            TokenKind::Loop => {
                self.advance();
                let var = self.expect_ident()?;
                self.expect(&TokenKind::In)?;
                let range = self.parse_expr()?;
                let body = self.parse_block()?;
                Ok(Stmt::Loop { var, range, body })
            },
            // exec "cmd"
            TokenKind::Exec => {
                self.advance();
                let cmd = self.parse_expr()?;
                Ok(Stmt::Exec(cmd))
            },
            // print(args…)  OR  print "string"
            TokenKind::Print => self.parse_print(),
            // go fn_call
            TokenKind::Go => {
                self.advance();
                let call = self.parse_primary()?;
                Ok(Stmt::Go(call))
            },
            // send(ch, val)
            TokenKind::Send => {
                self.advance();
                self.expect(&TokenKind::LParen)?;
                let chan = self.parse_expr()?;
                self.expect(&TokenKind::Comma)?;
                let value = self.parse_expr()?;
                self.expect(&TokenKind::RParen)?;
                Ok(Stmt::Send { chan, value })
            },
            // asm { "raw" }
            TokenKind::Asm => {
                self.advance();
                self.expect(&TokenKind::LBrace)?;
                let raw = if let TokenKind::Str(s) = self.peek_kind() {
                    let s = s.clone();
                    self.advance();
                    s
                } else {
                    String::new()
                };
                self.expect(&TokenKind::RBrace)?;
                Ok(Stmt::Asm(raw))
            },
            TokenKind::Break => {
                self.advance();
                Ok(Stmt::Break)
            },
            TokenKind::Continue => {
                self.advance();
                Ok(Stmt::Continue)
            },
            // Shell-style: name = expr  OR  function call
            _ => {
                let expr = self.parse_expr()?;
                // Check for assignment  (target = value)
                if self.eat(&TokenKind::Assign) {
                    let value = self.parse_expr()?;
                    Ok(Stmt::Assign { target: expr, value })
                } else {
                    Ok(Stmt::Expr(expr))
                }
            },
        }
    }

    /// `if cond { … } [else if … | else { … }]` from the keyword at the cursor.
    /// Moves past an `else`, which may stand after `;` tokens (as after
    /// the `;` inserted where a line ends with `}`); elsewhere stays put.
    fn eat_else(&mut self) -> (r: bool)
        requires
            old(self).wf(),
        ensures
            final(self).wf(),
            final(self).model() == old(self).model(),
            r == at_kind(old(self).model(), skip_semis_from(old(self).model(), old(self).pos as nat), SpecTokenKind::Else),
            final(self).pos == if r {
                next_pos(old(self).model(), skip_semis_from(old(self).model(), old(self).pos as nat))
            } else {
                old(self).pos as nat
            },
    {
        let save = self.pos;
        self.skip_semis();
        if self.eat(&TokenKind::Else) {
            true
        } else {
            self.pos = save;
            false
        }
    }

    #[verifier::spinoff_prover]
    #[verifier::rlimit(80)]
    fn parse_if(&mut self) -> (r: Result<Stmt, ParseError>)
        requires
            old(self).wf(),
            kind_at(old(self).model(), old(self).pos as nat) is If,
        ensures
            final(self).wf(),
            final(self).model() == old(self).model(),
            stmt_outcome(r, final(self).pos) == stmt_from(old(self).model(), old(self).pos as nat),
            r is Ok ==> old(self).pos < final(self).pos,
        decreases old(self).model().len() - old(self).position(), 12nat,
    {
        self.advance();
        let cond = self.parse_expr()?;
        let then_body = self.parse_block()?;
        proof {
            lemma_skip_semis(self.model(), self.pos as nat);
        }
        let else_body = if self.eat_else() {
            if self.check(&TokenKind::If) {
                let inner = self.parse_stmt()?;
                let v = vec![inner];
                proof {
                    lemma_stmts_view_push(Seq::empty(), inner);
                    assert(v@ =~= Seq::<Stmt>::empty().push(inner));
                    assert(stmts_view(Seq::<Stmt>::empty()) =~= Seq::<SpecStmt>::empty());
                    assert(stmts_view(v@) =~= seq![inner@]);
                }
                Some(v)
            } else {
                Some(self.parse_block()?)
            }
        } else {
            None
        };
        Ok(Stmt::If { cond, then_body, else_body })
    }

    /// `print(args…)` or `print expr` from the keyword at the cursor.
    fn parse_print(&mut self) -> (r: Result<Stmt, ParseError>)
        requires
            old(self).wf(),
            kind_at(old(self).model(), old(self).pos as nat) is Print,
        ensures
            final(self).wf(),
            final(self).model() == old(self).model(),
            stmt_outcome(r, final(self).pos) == stmt_from(old(self).model(), old(self).pos as nat),
            r is Ok ==> old(self).pos < final(self).pos,
        decreases old(self).model().len() - old(self).position(), 12nat,
    {
        self.advance();
        let args = if self.eat(&TokenKind::LParen) {
            let a = self.parse_list(&TokenKind::RParen, Vec::new());
            proof {
                assert(exprs_view(Seq::<Expr>::empty()) =~= Seq::<SpecExpr>::empty());
            }
            let a = a?;
            self.expect(&TokenKind::RParen)?;
            a
        } else {
            let e = self.parse_expr()?;
            let v = vec![e];
            proof {
                lemma_exprs_view_push(Seq::empty(), e);
                assert(v@ =~= Seq::<Expr>::empty().push(e));
                assert(exprs_view(Seq::<Expr>::empty()) =~= Seq::<SpecExpr>::empty());
                assert(exprs_view(v@) =~= seq![e@]);
            }
            v
        };
        Ok(Stmt::Print(args))
    }

    /// `name: T` parameters separated by commas, up to (not past) `)`.
    fn parse_params(&mut self) -> (r: Result<Vec<Param>, ParseError>)
        requires
            old(self).wf(),
        ensures
            final(self).wf(),
            final(self).model() == old(self).model(),
            match r {
                Ok(v) => params_from(old(self).model(), old(self).pos as nat, Seq::empty())
                    == Ok::<(Seq<SpecParam>, nat), SpecParseError>((params_view(v@), final(self).pos as nat)),
                Err(e) => params_from(old(self).model(), old(self).pos as nat, Seq::empty()) == Err::<(Seq<SpecParam>, nat), SpecParseError>(e@),
            },
            r is Ok ==> old(self).pos <= final(self).pos,
    {
        let ghost t = self.model();
        let ghost p0 = self.pos as nat;
        let mut params: Vec<Param> = Vec::new();
        proof {
            assert(params_view(Seq::<Param>::empty()) =~= Seq::<SpecParam>::empty());
        }
        loop
            invariant_except_break
                params_from(t, p0, Seq::empty()) == params_from(t, self.pos as nat, params_view(params@)),
            invariant
                self.wf(),
                self.model() == t,
                t == old(self).model(),
                p0 == old(self).pos,
                p0 <= self.pos,
            ensures
                p0 <= self.pos,
                params_from(t, p0, Seq::empty()) == Ok::<(Seq<SpecParam>, nat), SpecParseError>((params_view(params@), self.pos as nat)),
            decreases self.tokens@.len() - self.pos,
        {
            if self.check(&TokenKind::RParen) {
                break;
            }
            let ghost q = self.pos as nat;
            let name = self.expect_ident()?;
            self.expect(&TokenKind::Colon)?;
            let ty = self.parse_type()?;
            let param = Param { name, ty };
            proof {
                assert(params_view(params@.push(param)) =~= params_view(params@).push(param@));
            }
            params.push(param);
            if !self.eat(&TokenKind::Comma) {
                break;
            }
        }
        Ok(params)
    }

    /// `name(params) [-> T] { body }` from the name at the cursor.
    fn parse_signature(&mut self, is_pub: bool) -> (r: Result<FunctionDecl, ParseError>)
        requires
            old(self).wf(),
        ensures
            final(self).wf(),
            final(self).model() == old(self).model(),
            match r {
                Ok(f) => signature_from(old(self).model(), old(self).pos as nat, is_pub)
                    == Ok::<(SpecFunctionDecl, nat), SpecParseError>((f@, final(self).pos as nat)),
                Err(e) => signature_from(old(self).model(), old(self).pos as nat, is_pub) == Err::<(SpecFunctionDecl, nat), SpecParseError>(e@),
            },
            r is Ok ==> old(self).pos < final(self).pos,
    {
        let name = self.expect_ident()?;
        self.expect(&TokenKind::LParen)?;
        let params = self.parse_params()?;
        self.expect(&TokenKind::RParen)?;
        let ret_type = if self.eat(&TokenKind::Arrow) {
            Some(self.parse_type()?)
        } else {
            None
        };
        let body = self.parse_block()?;
        Ok(FunctionDecl { name, params, ret_type, body, is_pub })
    }

    /// `fn name(params) [-> T] { body }`.
    fn parse_fn(&mut self, is_pub: bool) -> (r: Result<FunctionDecl, ParseError>)
        requires
            old(self).wf(),
        ensures
            final(self).wf(),
            final(self).model() == old(self).model(),
            match r {
                Ok(f) => fn_from(old(self).model(), old(self).pos as nat, is_pub)
                    == Ok::<(SpecFunctionDecl, nat), SpecParseError>((f@, final(self).pos as nat)),
                Err(e) => fn_from(old(self).model(), old(self).pos as nat, is_pub) == Err::<(SpecFunctionDecl, nat), SpecParseError>(e@),
            },
            r is Ok ==> old(self).pos < final(self).pos,
    {
        self.expect(&TokenKind::Fn)?;
        self.parse_signature(is_pub)
    }

    /// `struct Name { fields }`.
    fn parse_struct(&mut self, is_pub: bool) -> (r: Result<StructDecl, ParseError>)
        requires
            old(self).wf(),
        ensures
            final(self).wf(),
            final(self).model() == old(self).model(),
            match r {
                Ok(sd) => struct_from(old(self).model(), old(self).pos as nat, is_pub)
                    == Ok::<(SpecStructDecl, nat), SpecParseError>((sd@, final(self).pos as nat)),
                Err(e) => struct_from(old(self).model(), old(self).pos as nat, is_pub) == Err::<(SpecStructDecl, nat), SpecParseError>(e@),
            },
            r is Ok ==> old(self).pos < final(self).pos,
    {
        self.expect(&TokenKind::Struct)?;
        let name = self.expect_ident()?;
        self.expect(&TokenKind::LBrace)?;
        let fields = self.parse_fields()?;
        self.expect(&TokenKind::RBrace)?;
        Ok(StructDecl { name, fields, is_pub })
    }

    /// The `name: T` fields of a struct declaration up to (not past) `}`.
    fn parse_fields(&mut self) -> (r: Result<Vec<(String, Type)>, ParseError>)
        requires
            old(self).wf(),
        ensures
            final(self).wf(),
            final(self).model() == old(self).model(),
            match r {
                Ok(v) => fields_from(old(self).model(), old(self).pos as nat, Seq::empty())
                    == Ok::<(Seq<(Seq<char>, SpecType)>, nat), SpecParseError>((field_types_view(v@), final(self).pos as nat)),
                Err(e) => fields_from(old(self).model(), old(self).pos as nat, Seq::empty())
                    == Err::<(Seq<(Seq<char>, SpecType)>, nat), SpecParseError>(e@),
            },
            r is Ok ==> old(self).pos <= final(self).pos,
    {
        let ghost t = self.model();
        let ghost p0 = self.pos as nat;
        let mut fields: Vec<(String, Type)> = Vec::new();
        proof {
            assert(field_types_view(Seq::<(String, Type)>::empty()) =~= Seq::<(Seq<char>, SpecType)>::empty());
        }
        loop
            invariant
                self.wf(),
                self.model() == t,
                t == old(self).model(),
                p0 == old(self).pos,
                p0 <= self.pos,
                p0 < t.len(),
                fields_from(t, p0, Seq::empty()) == fields_from(t, self.pos as nat, field_types_view(fields@)),
            ensures
                p0 <= self.pos,
                fields_from(t, p0, Seq::empty()) == Ok::<(Seq<(Seq<char>, SpecType)>, nat), SpecParseError>((field_types_view(fields@), self.pos as nat)),
            decreases self.tokens@.len() - self.pos,
        {
            let ghost q = self.pos as nat;
            proof {
                lemma_skip_semis(t, q);
            }
            self.skip_semis();
            if self.check(&TokenKind::RBrace) {
                break;
            }
            let fname = self.expect_ident()?;
            self.expect(&TokenKind::Colon)?;
            let ftype = self.parse_type()?;
            let ghost q3 = self.pos as nat;
            let f = (fname, ftype);
            proof {
                assert(field_types_view(fields@.push(f)) =~= field_types_view(fields@).push((f.0@, f.1@)));
                lemma_skip_semis(t, q3);
            }
            fields.push(f);
            if !self.eat(&TokenKind::Comma) {
                self.skip_semis();
            }
        }
        Ok(fields)
    }

    /// `impl Target { methods }`.
    fn parse_impl(&mut self) -> (r: Result<ImplDecl, ParseError>)
        requires
            old(self).wf(),
        ensures
            final(self).wf(),
            final(self).model() == old(self).model(),
            match r {
                Ok(i) => impl_from(old(self).model(), old(self).pos as nat)
                    == Ok::<(SpecImplDecl, nat), SpecParseError>((i@, final(self).pos as nat)),
                Err(e) => impl_from(old(self).model(), old(self).pos as nat) == Err::<(SpecImplDecl, nat), SpecParseError>(e@),
            },
            r is Ok ==> old(self).pos < final(self).pos,
    {
        self.expect(&TokenKind::Impl)?;
        let target = self.expect_ident()?;
        self.expect(&TokenKind::LBrace)?;
        let methods = self.parse_methods()?;
        self.expect(&TokenKind::RBrace)?;
        Ok(ImplDecl { target, methods })
    }

    /// The `[pub] fn` methods of an `impl` up to (not past) `}`.
    fn parse_methods(&mut self) -> (r: Result<Vec<FunctionDecl>, ParseError>)
        requires
            old(self).wf(),
        ensures
            final(self).wf(),
            final(self).model() == old(self).model(),
            match r {
                Ok(v) => methods_from(old(self).model(), old(self).pos as nat, Seq::empty())
                    == Ok::<(Seq<SpecFunctionDecl>, nat), SpecParseError>((v@.map_values(|m: FunctionDecl| m@), final(self).pos as nat)),
                Err(e) => methods_from(old(self).model(), old(self).pos as nat, Seq::empty())
                    == Err::<(Seq<SpecFunctionDecl>, nat), SpecParseError>(e@),
            },
            r is Ok ==> old(self).pos <= final(self).pos,
    {
        let ghost t = self.model();
        let ghost p0 = self.pos as nat;
        let mut methods: Vec<FunctionDecl> = Vec::new();
        proof {
            assert(methods@.map_values(|m: FunctionDecl| m@) =~= Seq::<SpecFunctionDecl>::empty());
        }
        loop
            invariant
                self.wf(),
                self.model() == t,
                t == old(self).model(),
                p0 == old(self).pos,
                p0 <= self.pos,
                p0 < t.len(),
                methods_from(t, p0, Seq::empty()) == methods_from(t, self.pos as nat, methods@.map_values(|m: FunctionDecl| m@)),
            ensures
                p0 <= self.pos,
                methods_from(t, p0, Seq::empty()) == Ok::<(Seq<SpecFunctionDecl>, nat), SpecParseError>((methods@.map_values(|m: FunctionDecl| m@), self.pos as nat)),
            decreases self.tokens@.len() - self.pos,
        {
            let ghost q = self.pos as nat;
            proof {
                lemma_skip_semis(t, q);
            }
            self.skip_semis();
            if self.check(&TokenKind::RBrace) {
                break;
            }
            let is_pub = self.eat(&TokenKind::Pub);
            self.expect(&TokenKind::Fn)?;
            let m = self.parse_signature(is_pub)?;
            proof {
                assert(methods@.push(m).map_values(|m: FunctionDecl| m@) =~= methods@.map_values(|m: FunctionDecl| m@).push(m@));
            }
            methods.push(m);
        }
        Ok(methods)
    }

    /// Parses a top-level item.
    fn parse_top_level(&mut self) -> (r: Result<TopLevel, ParseError>)
        requires
            old(self).wf(),
        ensures
            final(self).wf(),
            final(self).model() == old(self).model(),
            match r {
                Ok(item) => top_level_from(old(self).model(), old(self).pos as nat)
                    == Ok::<(SpecTopLevel, nat), SpecParseError>((item@, final(self).pos as nat)),
                Err(e) => top_level_from(old(self).model(), old(self).pos as nat) == Err::<(SpecTopLevel, nat), SpecParseError>(e@),
            },
            r is Ok ==> old(self).pos < final(self).pos,
    {
        let is_pub = self.eat(&TokenKind::Pub);
        match self.peek_kind() {
            TokenKind::Fn => Ok(TopLevel::Function(self.parse_fn(is_pub)?)),
            TokenKind::Struct => Ok(TopLevel::Struct(self.parse_struct(is_pub)?)),
            TokenKind::Impl => Ok(TopLevel::Impl(self.parse_impl()?)),
            TokenKind::Use => {
                self.advance();
                let path = self.expect_ident()?;
                Ok(TopLevel::Use(path))
            },
            TokenKind::Let => {
                let (name, ty, value) = self.parse_let_parts()?;
                Ok(TopLevel::GlobalVar { name, ty, value })
            },
            TokenKind::Ident(_) => {
                // Shell-style: name = expr  (global var)
                let name = self.expect_ident()?;
                if self.eat(&TokenKind::Assign) {
                    let value = self.parse_expr()?;
                    Ok(TopLevel::GlobalVar { name, ty: None, value })
                } else {
                    Err(ParseError::TopLevelIdent { name, line: self.cur().line })
                }
            },
            _ => Err(ParseError::TopLevelToken { got: self.peek_kind().duplicate(), line: self.cur().line }),
        }
    }

    /// Parses the whole token sequence, from the position, as a program.
    pub fn parse(&mut self) -> (r: Result<Program, ParseError>)
        requires
            old(self).wf(),
        ensures
            match r {
                Ok(prog) => program_from(old(self).model(), old(self).position()) == Ok::<SpecProgram, SpecParseError>(prog@),
                Err(e) => program_from(old(self).model(), old(self).position()) == Err::<SpecProgram, SpecParseError>(e@),
            },
    {
        let ghost t = self.model();
        let ghost p0 = self.pos as nat;
        let mut items: Vec<TopLevel> = Vec::new();
        proof {
            assert(items@.map_values(|i: TopLevel| i@) =~= Seq::<SpecTopLevel>::empty());
        }
        loop
            invariant_except_break
                items_from(t, p0, Seq::empty()) == items_from(t, self.pos as nat, items@.map_values(|i: TopLevel| i@)),
            invariant
                self.wf(),
                self.model() == t,
                t == old(self).model(),
                p0 == old(self).pos,
            ensures
                items_from(t, p0, Seq::empty()) == Ok::<Seq<SpecTopLevel>, SpecParseError>(items@.map_values(|i: TopLevel| i@)),
            decreases self.tokens@.len() - self.pos,
        {
            if self.check(&TokenKind::EOF) {
                break;
            }
            let ghost q = self.pos as nat;
            proof {
                lemma_skip_semis(t, q);
            }
            self.skip_semis();
            if self.check(&TokenKind::EOF) {
                break;
            }
            let item = self.parse_top_level()?;
            let ghost q2 = self.pos as nat;
            proof {
                assert(items@.push(item).map_values(|i: TopLevel| i@) =~= items@.map_values(|i: TopLevel| i@).push(item@));
                lemma_skip_semis(t, q2);
            }
            items.push(item);
            self.skip_semis();
        }
        Ok(Program { items })
    }
}

} // verus!
