//! The tokens that write a type, and the law that they read back as it.
use vstd::prelude::*;
use crate::ast::SpecType;
use crate::lexer::{SpecToken, SpecTokenKind};
use crate::parser::{angled_from, type_from, type_named, wf_tokens, SpecParseError};

verus! {

/// The tokens that write a type as `Type::to_text` writes it: `int`,
/// `ptr<T>`, `chan<T>`, `[T]`, `[T; n]`, a name.
pub open spec fn type_tokens(ty: SpecType) -> Seq<SpecTokenKind>
    decreases ty,
{
    match ty {
        SpecType::Int => seq![SpecTokenKind::Ident("int"@)],
        SpecType::Float => seq![SpecTokenKind::Ident("float"@)],
        SpecType::Str => seq![SpecTokenKind::Ident("str"@)],
        SpecType::Bool => seq![SpecTokenKind::Ident("bool"@)],
        SpecType::Void => seq![SpecTokenKind::Ident("void"@)],
        SpecType::Ptr(inner) => seq![SpecTokenKind::Ptr, SpecTokenKind::Lt] + type_tokens(*inner) + seq![SpecTokenKind::Gt],
        SpecType::Chan(inner) => seq![SpecTokenKind::Ident("chan"@), SpecTokenKind::Lt] + type_tokens(*inner)
            + seq![SpecTokenKind::Gt],
        SpecType::Array(inner, size) => match size {
            None => seq![SpecTokenKind::LBracket] + type_tokens(*inner) + seq![SpecTokenKind::RBracket],
            Some(n) => seq![SpecTokenKind::LBracket] + type_tokens(*inner)
                + seq![SpecTokenKind::Semicolon, SpecTokenKind::Int(n as i64), SpecTokenKind::RBracket],
        },
        SpecType::Custom(name) => seq![SpecTokenKind::Ident(name)],
    }
}

/// A type that its tokens can write: array sizes fit in an `i64`, and a
/// custom name is none of the built-in type names.
pub open spec fn writable(ty: SpecType) -> bool
    decreases ty,
{
    match ty {
        SpecType::Ptr(inner) => writable(*inner),
        SpecType::Chan(inner) => writable(*inner),
        SpecType::Array(inner, size) => writable(*inner) && match size {
            Some(n) => n <= i64::MAX,
            None => true,
        },
        SpecType::Custom(name) => type_named(name) == SpecType::Custom(name),
        _ => true,
    }
}

/// The tokens from position `p` of `t` are `ks`.
pub open spec fn tokens_at(t: Seq<SpecToken>, p: nat, ks: Seq<SpecTokenKind>) -> bool {
    &&& p + ks.len() <= t.len()
    &&& forall|i: int| 0 <= i < ks.len() ==> #[trigger] t[p + i].kind == ks[i]
}

proof fn lemma_tokens_at_inner(t: Seq<SpecToken>, p: nat, a: Seq<SpecTokenKind>, b: Seq<SpecTokenKind>, c: Seq<SpecTokenKind>)
    requires
        tokens_at(t, p, a + b + c),
    ensures
        tokens_at(t, p + a.len(), b),
        tokens_at(t, p + a.len() + b.len(), c),
        tokens_at(t, p, a),
{
    let all = a + b + c;
    assert forall|i: int| 0 <= i < b.len() implies #[trigger] t[(p + a.len()) + i].kind == b[i] by {
        assert(all[a.len() + i] == b[i]);
        assert(t[p + (a.len() + i)].kind == all[a.len() + i]);
    }
    assert forall|i: int| 0 <= i < c.len() implies #[trigger] t[(p + a.len() + b.len()) + i].kind == c[i] by {
        assert(all[a.len() + b.len() + i] == c[i]);
        assert(t[p + (a.len() + b.len() + i)].kind == all[a.len() + b.len() + i]);
    }
    assert forall|i: int| 0 <= i < a.len() implies #[trigger] t[p + i].kind == a[i] by {
        assert(all[i] == a[i]);
    }
}

/// The tokens that write a type read back as that type, whatever follows
/// them (but `<`, which would make a following `chan` a channel type).
pub proof fn law_type_tokens_read_back(t: Seq<SpecToken>, p: nat, ty: SpecType)
    requires
        wf_tokens(t),
        writable(ty),
        tokens_at(t, p, type_tokens(ty)),
        p + type_tokens(ty).len() < t.len(),
        !(t[p as int + type_tokens(ty).len()].kind is Lt),
    ensures
        type_from(t, p) == Ok::<(SpecType, nat), SpecParseError>((ty, p + type_tokens(ty).len())),
    decreases ty,
{
    let ks = type_tokens(ty);
    assert(t[p as int + 0].kind == ks[0]);
    match ty {
        SpecType::Ptr(inner) => {
            let a = seq![SpecTokenKind::Ptr, SpecTokenKind::Lt];
            let b = type_tokens(*inner);
            let c = seq![SpecTokenKind::Gt];
            lemma_tokens_at_inner(t, p, a, b, c);
            assert(t[p as int + 1].kind == a[1]);
            assert(t[(p as int + 2 + b.len()) + 0].kind == c[0]);
            law_type_tokens_read_back(t, p + 2, *inner);
            assert(angled_from(t, p + 1) == Ok::<(SpecType, nat), SpecParseError>((*inner, p + 3 + b.len())));
            assert(ks.len() == 3 + b.len());
            assert(type_from(t, p) == Ok::<(SpecType, nat), SpecParseError>((ty, p + ks.len())));
        },
        SpecType::Chan(inner) => {
            let a = seq![SpecTokenKind::Ident("chan"@), SpecTokenKind::Lt];
            let b = type_tokens(*inner);
            let c = seq![SpecTokenKind::Gt];
            lemma_tokens_at_inner(t, p, a, b, c);
            assert(t[p as int + 1].kind == a[1]);
            assert(t[(p as int + 2 + b.len()) + 0].kind == c[0]);
            law_type_tokens_read_back(t, p + 2, *inner);
            assert(angled_from(t, p + 1) == Ok::<(SpecType, nat), SpecParseError>((*inner, p + 3 + b.len())));
        },
        SpecType::Array(inner, size) => {
            let a = seq![SpecTokenKind::LBracket];
            let b = type_tokens(*inner);
            match size {
                None => {
                    let c = seq![SpecTokenKind::RBracket];
                    lemma_tokens_at_inner(t, p, a, b, c);
                    assert(t[(p as int + 1 + b.len()) + 0].kind == c[0]);
                    law_type_tokens_read_back(t, p + 1, *inner);
                    assert(type_from(t, p) == Ok::<(SpecType, nat), SpecParseError>((ty, p + ks.len())));
                },
                Some(n) => {
                    let c = seq![SpecTokenKind::Semicolon, SpecTokenKind::Int(n as i64), SpecTokenKind::RBracket];
                    lemma_tokens_at_inner(t, p, a, b, c);
                    assert(t[(p as int + 1 + b.len()) + 0].kind == c[0]);
                    assert(t[(p as int + 1 + b.len()) + 1].kind == c[1]);
                    assert(t[(p as int + 1 + b.len()) + 2].kind == c[2]);
                    law_type_tokens_read_back(t, p + 1, *inner);
                    assert((n as i64) as usize == n);
                    assert(type_from(t, p) == Ok::<(SpecType, nat), SpecParseError>((ty, p + ks.len())));
                },
            }
        },
        SpecType::Custom(name) => {
            assert(name != "chan"@ || !(t[p as int + 1].kind is Lt));
            assert(type_from(t, p) == Ok::<(SpecType, nat), SpecParseError>((ty, p + ks.len())));
        },
        _ => {
            reveal_strlit("int");
            reveal_strlit("float");
            reveal_strlit("str");
            reveal_strlit("bool");
            reveal_strlit("void");
            assert("float"@ != "int"@) by { assert("float"@.len() != "int"@.len()); }
            assert("str"@ != "int"@) by { assert("str"@[0] != "int"@[0]); }
            assert("str"@ != "float"@) by { assert("str"@.len() != "float"@.len()); }
            assert("bool"@ != "int"@) by { assert("bool"@.len() != "int"@.len()); }
            assert("bool"@ != "float"@) by { assert("bool"@.len() != "float"@.len()); }
            assert("bool"@ != "str"@) by { assert("bool"@.len() != "str"@.len()); }
            assert("void"@ != "int"@) by { assert("void"@.len() != "int"@.len()); }
            assert("void"@ != "float"@) by { assert("void"@.len() != "float"@.len()); }
            assert("void"@ != "str"@) by { assert("void"@.len() != "str"@.len()); }
            assert("void"@ != "bool"@) by { assert("void"@[0] != "bool"@[0]); }
            assert(!(t[p as int + 1].kind is Lt));
        },
    }
}

} // verus!
