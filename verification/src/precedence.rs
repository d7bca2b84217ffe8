//! Operator precedence and associativity of the expression grammar.
use vstd::prelude::*;
use crate::ast::{BinOp, SpecExpr};
use crate::lexer::{SpecToken, SpecTokenKind};
use crate::parser::{
    binary_from, binary_tail, expr_from, level_op, postfix_from, postfix_tail, primary_from,
    range_from, unary_from, wf_tokens, SpecParseError,
};

verus! {

/// The precedence level of a binary operator token, as the language's table
/// gives it: 1 for `*` `/` `%` (binds tightest), 2 for `+` `-`, 3 for `<`
/// `>` `<=` `>=`, 4 for `==` `!=`, 5 for `&&`, 6 for `||`; 0 for a token that
/// is no binary operator.
pub open spec fn op_level(k: SpecTokenKind) -> nat {
    if level_op(1, k) is Some {
        1
    } else if level_op(2, k) is Some {
        2
    } else if level_op(3, k) is Some {
        3
    } else if level_op(4, k) is Some {
        4
    } else if level_op(5, k) is Some {
        5
    } else if level_op(6, k) is Some {
        6
    } else {
        0
    }
}

/// The operator that a binary operator token stands for.
pub open spec fn op_of(k: SpecTokenKind) -> BinOp {
    level_op(op_level(k), k)->0
}

pub open spec fn int_expr(v: i64) -> SpecExpr {
    SpecExpr::Int(v)
}

pub open spec fn bin(op: BinOp, l: SpecExpr, r: SpecExpr) -> SpecExpr {
    SpecExpr::Binary { op, left: Box::new(l), right: Box::new(r) }
}

/// The tokens of `a k1 b k2 c` followed by the end: three integer literals
/// joined by two binary operators.
pub open spec fn operand_chain(t: Seq<SpecToken>, a: i64, b: i64, c: i64, k1: SpecTokenKind, k2: SpecTokenKind) -> bool {
    &&& t.len() == 6
    &&& t[0].kind == SpecTokenKind::Int(a)
    &&& t[1].kind == k1
    &&& op_level(k1) > 0
    &&& t[2].kind == SpecTokenKind::Int(b)
    &&& t[3].kind == k2
    &&& op_level(k2) > 0
    &&& t[4].kind == SpecTokenKind::Int(c)
    &&& t[5].kind is EOF
}

proof fn lemma_level_op(l: nat, k: SpecTokenKind)
    requires
        1 <= l <= 6,
    ensures
        (level_op(l, k) is Some) <==> op_level(k) == l,
        op_level(k) == l ==> level_op(l, k) == Some(op_of(k)),
{
}

/// An integer literal followed by an operator or the end is a whole operand.
proof fn lemma_atom(t: Seq<SpecToken>, p: nat, v: i64)
    requires
        wf_tokens(t),
        p + 1 < t.len(),
        t[p as int].kind == SpecTokenKind::Int(v),
        op_level(t[p + 1int].kind) > 0 || t[p + 1int].kind is EOF,
    ensures
        unary_from(t, p) == Ok::<(SpecExpr, nat), SpecParseError>((int_expr(v), (p + 1) as nat)),
{
    let q = (p + 1) as nat;
    assert(primary_from(t, p) == Ok::<(SpecExpr, nat), SpecParseError>((int_expr(v), q)));
    assert(postfix_tail(t, int_expr(v), q) == Ok::<(SpecExpr, nat), SpecParseError>((int_expr(v), q)));
    assert(postfix_from(t, p) == Ok::<(SpecExpr, nat), SpecParseError>((int_expr(v), q)));
    assert(range_from(t, p) == Ok::<(SpecExpr, nat), SpecParseError>((int_expr(v), q)));
}

/// At the end no operator continues an operand.
proof fn lemma_tail_at_end(t: Seq<SpecToken>, e: SpecExpr, l: nat)
    requires
        wf_tokens(t),
        1 <= l <= 6,
    ensures
        binary_tail(t, e, (t.len() - 1) as nat, l) == Ok::<(SpecExpr, nat), SpecParseError>((e, (t.len() - 1) as nat)),
{
    lemma_level_op(l, t[t.len() - 1].kind);
}

proof fn lemma_last_operand(t: Seq<SpecToken>, a: i64, b: i64, c: i64, k1: SpecTokenKind, k2: SpecTokenKind, l: nat)
    requires
        operand_chain(t, a, b, c, k1, k2),
        1 <= l <= 6,
    ensures
        binary_from(t, 4, l) == Ok::<(SpecExpr, nat), SpecParseError>((int_expr(c), 5nat)),
    decreases l,
{
    lemma_tail_at_end(t, int_expr(c), l);
    if l == 1 {
        lemma_atom(t, 4, c);
    } else {
        lemma_last_operand(t, a, b, c, k1, k2, (l - 1) as nat);
    }
}

proof fn lemma_tail_second(t: Seq<SpecToken>, a: i64, b: i64, c: i64, k1: SpecTokenKind, k2: SpecTokenKind, e: SpecExpr, l: nat)
    requires
        operand_chain(t, a, b, c, k1, k2),
        1 <= l <= 6,
    ensures
        binary_tail(t, e, 3, l) == (if op_level(k2) == l {
            Ok::<(SpecExpr, nat), SpecParseError>((bin(op_of(k2), e, int_expr(c)), 5nat))
        } else {
            Ok::<(SpecExpr, nat), SpecParseError>((e, 3nat))
        }),
{
    lemma_level_op(l, k2);
    if op_level(k2) == l {
        if l == 1 {
            lemma_atom(t, 4, c);
        } else {
            lemma_last_operand(t, a, b, c, k1, k2, (l - 1) as nat);
        }
        lemma_tail_at_end(t, bin(op_of(k2), e, int_expr(c)), l);
    }
}

proof fn lemma_middle(t: Seq<SpecToken>, a: i64, b: i64, c: i64, k1: SpecTokenKind, k2: SpecTokenKind, l: nat)
    requires
        operand_chain(t, a, b, c, k1, k2),
        1 <= l <= 6,
    ensures
        binary_from(t, 2, l) == (if op_level(k2) <= l {
            Ok::<(SpecExpr, nat), SpecParseError>((bin(op_of(k2), int_expr(b), int_expr(c)), 5nat))
        } else {
            Ok::<(SpecExpr, nat), SpecParseError>((int_expr(b), 3nat))
        }),
    decreases l,
{
    if l == 1 {
        lemma_atom(t, 2, b);
        lemma_tail_second(t, a, b, c, k1, k2, int_expr(b), l);
    } else {
        lemma_middle(t, a, b, c, k1, k2, (l - 1) as nat);
        if op_level(k2) <= l - 1 {
            lemma_tail_at_end(t, bin(op_of(k2), int_expr(b), int_expr(c)), l);
        } else {
            lemma_tail_second(t, a, b, c, k1, k2, int_expr(b), l);
        }
    }
}

proof fn lemma_tail_first(t: Seq<SpecToken>, a: i64, b: i64, c: i64, k1: SpecTokenKind, k2: SpecTokenKind, l: nat)
    requires
        operand_chain(t, a, b, c, k1, k2),
        1 <= l <= 6,
    ensures
        binary_tail(t, int_expr(a), 1, l) == (if op_level(k1) != l {
            Ok::<(SpecExpr, nat), SpecParseError>((int_expr(a), 1nat))
        } else if op_level(k2) < l {
            Ok((bin(op_of(k1), int_expr(a), bin(op_of(k2), int_expr(b), int_expr(c))), 5nat))
        } else if op_level(k2) == l {
            Ok((bin(op_of(k2), bin(op_of(k1), int_expr(a), int_expr(b)), int_expr(c)), 5nat))
        } else {
            Ok((bin(op_of(k1), int_expr(a), int_expr(b)), 3nat))
        }),
{
    lemma_level_op(l, k1);
    if op_level(k1) == l {
        let ab = bin(op_of(k1), int_expr(a), int_expr(b));
        if l == 1 {
            lemma_atom(t, 2, b);
            lemma_tail_second(t, a, b, c, k1, k2, ab, l);
        } else {
            lemma_middle(t, a, b, c, k1, k2, (l - 1) as nat);
            if op_level(k2) <= l - 1 {
                lemma_tail_at_end(t, bin(op_of(k1), int_expr(a), bin(op_of(k2), int_expr(b), int_expr(c))), l);
            } else {
                lemma_tail_second(t, a, b, c, k1, k2, ab, l);
            }
        }
    }
}

/// What an operand of level `l` read from the start of `a k1 b k2 c` is.
pub open spec fn chain_at_level(a: i64, b: i64, c: i64, k1: SpecTokenKind, k2: SpecTokenKind, l: nat) -> Result<(SpecExpr, nat), SpecParseError> {
    let l1 = op_level(k1);
    let l2 = op_level(k2);
    if l < l1 {
        Ok((int_expr(a), 1nat))
    } else if l2 < l1 {
        Ok((bin(op_of(k1), int_expr(a), bin(op_of(k2), int_expr(b), int_expr(c))), 5nat))
    } else if l2 <= l {
        Ok((bin(op_of(k2), bin(op_of(k1), int_expr(a), int_expr(b)), int_expr(c)), 5nat))
    } else {
        Ok((bin(op_of(k1), int_expr(a), int_expr(b)), 3nat))
    }
}

proof fn lemma_whole(t: Seq<SpecToken>, a: i64, b: i64, c: i64, k1: SpecTokenKind, k2: SpecTokenKind, l: nat)
    requires
        operand_chain(t, a, b, c, k1, k2),
        1 <= l <= 6,
    ensures
        binary_from(t, 0, l) == chain_at_level(a, b, c, k1, k2, l),
    decreases l,
{
    if l == 1 {
        lemma_atom(t, 0, a);
        lemma_tail_first(t, a, b, c, k1, k2, l);
    } else {
        let prev = (l - 1) as nat;
        lemma_whole(t, a, b, c, k1, k2, prev);
        let l1 = op_level(k1);
        let l2 = op_level(k2);
        if prev < l1 {
            lemma_tail_first(t, a, b, c, k1, k2, l);
        } else if l2 < l1 {
            lemma_tail_at_end(t, bin(op_of(k1), int_expr(a), bin(op_of(k2), int_expr(b), int_expr(c))), l);
        } else if l2 <= prev {
            lemma_tail_at_end(t, bin(op_of(k2), bin(op_of(k1), int_expr(a), int_expr(b)), int_expr(c)), l);
        } else {
            lemma_tail_second(t, a, b, c, k1, k2, bin(op_of(k1), int_expr(a), int_expr(b)), l);
        }
    }
}

/// Precedence and associativity: in `a k1 b k2 c`, where `k2` binds tighter
/// than `k1` the middle operand goes with `k2`, as in `a + (b * c)`;
/// otherwise it goes with `k1`, as in `(a * b) + c` and, for two operators of
/// one level, `(a - b) - c` (left to right).
pub proof fn law_operator_precedence(t: Seq<SpecToken>, a: i64, b: i64, c: i64, k1: SpecTokenKind, k2: SpecTokenKind)
    requires
        operand_chain(t, a, b, c, k1, k2),
    ensures
        expr_from(t, 0) == (if op_level(k2) < op_level(k1) {
            Ok::<(SpecExpr, nat), SpecParseError>((bin(op_of(k1), int_expr(a), bin(op_of(k2), int_expr(b), int_expr(c))), 5nat))
        } else {
            Ok::<(SpecExpr, nat), SpecParseError>((bin(op_of(k2), bin(op_of(k1), int_expr(a), int_expr(b)), int_expr(c)), 5nat))
        }),
{
    lemma_whole(t, a, b, c, k1, k2, 6);
}


/// The language's precedence table, entry by entry: `*` `/` `%` bind
/// tightest (1), then `+` `-` (2), `<` `>` `<=` `>=` (3), `==` `!=` (4),
/// `&&` (5), `||` (6); each token stands for its own operator.
pub proof fn law_precedence_table()
    ensures
        op_level(SpecTokenKind::Star) == 1 && op_of(SpecTokenKind::Star) == BinOp::Mul,
        op_level(SpecTokenKind::Slash) == 1 && op_of(SpecTokenKind::Slash) == BinOp::Div,
        op_level(SpecTokenKind::Percent) == 1 && op_of(SpecTokenKind::Percent) == BinOp::Mod,
        op_level(SpecTokenKind::Plus) == 2 && op_of(SpecTokenKind::Plus) == BinOp::Add,
        op_level(SpecTokenKind::Minus) == 2 && op_of(SpecTokenKind::Minus) == BinOp::Sub,
        op_level(SpecTokenKind::Lt) == 3 && op_of(SpecTokenKind::Lt) == BinOp::Lt,
        op_level(SpecTokenKind::Gt) == 3 && op_of(SpecTokenKind::Gt) == BinOp::Gt,
        op_level(SpecTokenKind::Le) == 3 && op_of(SpecTokenKind::Le) == BinOp::Le,
        op_level(SpecTokenKind::Ge) == 3 && op_of(SpecTokenKind::Ge) == BinOp::Ge,
        op_level(SpecTokenKind::Eq) == 4 && op_of(SpecTokenKind::Eq) == BinOp::Eq,
        op_level(SpecTokenKind::Ne) == 4 && op_of(SpecTokenKind::Ne) == BinOp::Ne,
        op_level(SpecTokenKind::And) == 5 && op_of(SpecTokenKind::And) == BinOp::And,
        op_level(SpecTokenKind::Or) == 6 && op_of(SpecTokenKind::Or) == BinOp::Or,
{
}

/// `a - b * c` reads as `a - (b * c)`: the product is taken first.
pub proof fn law_product_inside_difference(t: Seq<SpecToken>, a: i64, b: i64, c: i64)
    requires
        t.len() == 6,
        t[0].kind == SpecTokenKind::Int(a),
        t[1].kind is Minus,
        t[2].kind == SpecTokenKind::Int(b),
        t[3].kind is Star,
        t[4].kind == SpecTokenKind::Int(c),
        t[5].kind is EOF,
    ensures
        expr_from(t, 0) == Ok::<(SpecExpr, nat), SpecParseError>((
            SpecExpr::Binary {
                op: BinOp::Sub,
                left: Box::new(SpecExpr::Int(a)),
                right: Box::new(SpecExpr::Binary { op: BinOp::Mul, left: Box::new(SpecExpr::Int(b)), right: Box::new(SpecExpr::Int(c)) }),
            },
            5nat,
        )),
{
    law_precedence_table();
    assert(operand_chain(t, a, b, c, t[1].kind, t[3].kind));
    law_operator_precedence(t, a, b, c, t[1].kind, t[3].kind);
}

/// `a * b - c` reads as `(a * b) - c`.
pub proof fn law_product_before_difference(t: Seq<SpecToken>, a: i64, b: i64, c: i64)
    requires
        t.len() == 6,
        t[0].kind == SpecTokenKind::Int(a),
        t[1].kind is Star,
        t[2].kind == SpecTokenKind::Int(b),
        t[3].kind is Minus,
        t[4].kind == SpecTokenKind::Int(c),
        t[5].kind is EOF,
    ensures
        expr_from(t, 0) == Ok::<(SpecExpr, nat), SpecParseError>((
            SpecExpr::Binary {
                op: BinOp::Sub,
                left: Box::new(SpecExpr::Binary { op: BinOp::Mul, left: Box::new(SpecExpr::Int(a)), right: Box::new(SpecExpr::Int(b)) }),
                right: Box::new(SpecExpr::Int(c)),
            },
            5nat,
        )),
{
    law_precedence_table();
    assert(operand_chain(t, a, b, c, t[1].kind, t[3].kind));
    law_operator_precedence(t, a, b, c, t[1].kind, t[3].kind);
}

/// `a - b + c` reads as `(a - b) + c`: `+` and `-` share a level and group
/// from the left.
pub proof fn law_difference_then_sum(t: Seq<SpecToken>, a: i64, b: i64, c: i64)
    requires
        t.len() == 6,
        t[0].kind == SpecTokenKind::Int(a),
        t[1].kind is Minus,
        t[2].kind == SpecTokenKind::Int(b),
        t[3].kind is Plus,
        t[4].kind == SpecTokenKind::Int(c),
        t[5].kind is EOF,
    ensures
        expr_from(t, 0) == Ok::<(SpecExpr, nat), SpecParseError>((
            SpecExpr::Binary {
                op: BinOp::Add,
                left: Box::new(SpecExpr::Binary { op: BinOp::Sub, left: Box::new(SpecExpr::Int(a)), right: Box::new(SpecExpr::Int(b)) }),
                right: Box::new(SpecExpr::Int(c)),
            },
            5nat,
        )),
{
    law_precedence_table();
    assert(operand_chain(t, a, b, c, t[1].kind, t[3].kind));
    law_operator_precedence(t, a, b, c, t[1].kind, t[3].kind);
}

} // verus!
