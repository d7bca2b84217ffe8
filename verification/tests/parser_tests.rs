use rnf::ast::{BinOp, Expr, Program, Stmt, TopLevel, Type, UnOp};
use rnf::lexer::{Lexer, TokenKind};
use rnf::parser::{ParseError, Parser};
use rnf::source::{parse_source, stem_of, SourceError};

fn parser_for(src: &str) -> Parser {
    let mut l = Lexer::new(src);
    Parser::new(l.tokenize().expect("lexes"))
}

fn expr(src: &str) -> Expr {
    parser_for(src).parse_expr().expect("parses")
}

fn program(src: &str) -> Program {
    parser_for(src).parse().expect("parses")
}

fn parse_err(src: &str) -> ParseError {
    parser_for(src).parse().expect_err("is refused")
}

fn is_ident(e: &Expr, n: &str) -> bool {
    matches!(e, Expr::Ident(x) if x == n)
}

fn is_int(e: &Expr, v: i64) -> bool {
    matches!(e, Expr::Int(x) if *x == v)
}

fn binary(e: &Expr) -> (BinOp, &Expr, &Expr) {
    match e {
        Expr::Binary { op, left, right } => (*op, left, right),
        other => panic!("not a binary expression: {:?}", other),
    }
}

#[test]
fn multiplication_binds_tighter_than_addition() {
    let e = expr("1 + 2 * 3");
    let (op, l, r) = binary(&e);
    assert_eq!(op, BinOp::Add);
    assert!(is_int(l, 1));
    let (op2, l2, r2) = binary(r);
    assert_eq!(op2, BinOp::Mul);
    assert!(is_int(l2, 2) && is_int(r2, 3));
}

#[test]
fn subtraction_associates_to_the_left() {
    let e = expr("a - b - c");
    let (op, l, r) = binary(&e);
    assert_eq!(op, BinOp::Sub);
    assert!(is_ident(r, "c"));
    let (op2, l2, r2) = binary(l);
    assert_eq!(op2, BinOp::Sub);
    assert!(is_ident(l2, "a") && is_ident(r2, "b"));
}

#[test]
fn precedence_levels_from_comparison_to_or() {
    // a < b == c  parses as (a < b) == c
    let e = expr("a < b == c");
    let (op, l, _) = binary(&e);
    assert_eq!(op, BinOp::Eq);
    assert_eq!(binary(l).0, BinOp::Lt);
    // a || b && c  parses as a || (b && c)
    let e = expr("a || b && c");
    let (op, _, r) = binary(&e);
    assert_eq!(op, BinOp::Or);
    assert_eq!(binary(r).0, BinOp::And);
    // x % 2 == 0 && y >= 1
    let e = expr("x % 2 == 0 && y >= 1");
    let (op, l, r) = binary(&e);
    assert_eq!(op, BinOp::And);
    assert_eq!(binary(l).0, BinOp::Eq);
    assert_eq!(binary(binary(l).1).0, BinOp::Mod);
    assert_eq!(binary(r).0, BinOp::Ge);
}

#[test]
fn unary_operators_bind_tightest() {
    let e = expr("-x * y");
    let (op, l, r) = binary(&e);
    assert_eq!(op, BinOp::Mul);
    assert!(matches!(l, Expr::Unary { op: UnOp::Neg, expr } if is_ident(expr, "x")));
    assert!(is_ident(r, "y"));
    assert!(matches!(expr("!ok"), Expr::Unary { op: UnOp::Not, .. }));
    assert!(matches!(expr("&x"), Expr::Ref(inner) if is_ident(&inner, "x")));
    assert!(matches!(expr("*p"), Expr::Deref(inner) if is_ident(&inner, "p")));
    assert!(matches!(expr("<-ch"), Expr::ChanRecv(inner) if is_ident(&inner, "ch")));
}

#[test]
fn parentheses_group() {
    let e = expr("(1 + 2) * 3");
    let (op, l, r) = binary(&e);
    assert_eq!(op, BinOp::Mul);
    assert_eq!(binary(l).0, BinOp::Add);
    assert!(is_int(r, 3));
}

#[test]
fn ranges_calls_fields_and_indexes() {
    assert!(matches!(expr("0..10"), Expr::Range { start, end } if is_int(&start, 0) && is_int(&end, 10)));
    match expr("f(1, x)") {
        Expr::Call { name, args } => {
            assert_eq!(name, "f");
            assert_eq!(args.len(), 2);
            assert!(is_int(&args[0], 1) && is_ident(&args[1], "x"));
        }
        other => panic!("{:?}", other),
    }
    match expr("a.b[2]") {
        Expr::Index { array, index } => {
            assert!(is_int(&index, 2));
            assert!(matches!(*array, Expr::Field { object, field } if is_ident(&object, "a") && field == "b"));
        }
        other => panic!("{:?}", other),
    }
    // A method call puts the receiver first among the arguments.
    match expr("s.len()") {
        Expr::Call { name, args } => {
            assert_eq!(name, "len");
            assert_eq!(args.len(), 1);
            assert!(is_ident(&args[0], "s"));
        }
        other => panic!("{:?}", other),
    }
}

#[test]
fn literals_and_arrays() {
    assert!(matches!(expr("\"hi\""), Expr::Str(s) if s == "hi"));
    assert!(matches!(expr("true"), Expr::Bool(true)));
    assert!(matches!(expr("nil"), Expr::Nil));
    assert!(matches!(expr("2.5"), Expr::Float(s) if s == "2.5"));
    match expr("[1, 2, 3]") {
        Expr::Array(items) => assert_eq!(items.len(), 3),
        other => panic!("{:?}", other),
    }
    match expr("[]") {
        Expr::Array(items) => assert!(items.is_empty()),
        other => panic!("{:?}", other),
    }
}

#[test]
fn struct_init_needs_an_uppercase_name() {
    match expr("Point { x: 1, y: 2 }") {
        Expr::StructInit { name, fields } => {
            assert_eq!(name, "Point");
            assert_eq!(fields.len(), 2);
            assert_eq!(fields[0].0, "x");
            assert_eq!(fields[1].0, "y");
        }
        other => panic!("{:?}", other),
    }
    // A lowercase name before `{` is a plain identifier (as in `if ok { }`).
    assert!(is_ident(&expr("ok { }"), "ok"));
}

#[test]
fn make_chan_exec_recv_raw_mem() {
    assert!(matches!(expr("make_chan<str>()"), Expr::MakeChan(Type::Str)));
    assert!(matches!(expr("make_chan()"), Expr::MakeChan(Type::Int)));
    assert!(matches!(expr("make_chan"), Expr::MakeChan(Type::Int)));
    match expr("exec(\"ls\")") {
        Expr::Call { name, args } => {
            assert_eq!(name, "exec");
            assert_eq!(args.len(), 1);
        }
        other => panic!("{:?}", other),
    }
    assert!(matches!(expr("recv(ch)"), Expr::ChanRecv(inner) if is_ident(&inner, "ch")));
    assert!(matches!(expr("raw_mem(0x10)"), Expr::RawMem(inner) if is_int(&inner, 16)));
}

#[test]
fn functions_with_params_and_return_type() {
    let p = program("fn add(a: int, b: [str; 4]) -> *int {\n    return a + b\n}\n");
    assert_eq!(p.items.len(), 1);
    match &p.items[0] {
        TopLevel::Function(f) => {
            assert_eq!(f.name, "add");
            assert!(!f.is_pub);
            assert_eq!(f.params.len(), 2);
            assert_eq!(f.params[0].name, "a");
            assert_eq!(f.params[0].ty, Type::Int);
            assert_eq!(f.params[1].ty, Type::Array(Box::new(Type::Str), Some(4)));
            assert_eq!(f.ret_type, Some(Type::Ptr(Box::new(Type::Int))));
            assert_eq!(f.body.len(), 1);
            assert!(matches!(&f.body[0], Stmt::Return(Some(_))));
        }
        other => panic!("{:?}", other),
    }
}

#[test]
fn pointer_types_and_type_text() {
    let p = program("fn f(p: *int, q: [bool], c: Point) {}");
    match &p.items[0] {
        TopLevel::Function(f) => {
            assert_eq!(f.params[0].ty, Type::Ptr(Box::new(Type::Int)));
            assert_eq!(f.params[1].ty, Type::Array(Box::new(Type::Bool), None));
            assert_eq!(f.params[2].ty, Type::Custom("Point".to_string()));
            assert_eq!(f.params[0].ty.to_text(), "ptr<int>");
            assert_eq!(f.params[1].ty.to_text(), "[bool]");
            assert_eq!(f.params[2].ty.to_text(), "Point");
        }
        other => panic!("{:?}", other),
    }
    assert_eq!(Type::Array(Box::new(Type::Float), Some(16)).to_text(), "[float; 16]");
    assert_eq!(Type::Chan(Box::new(Type::Void)).to_text(), "chan<void>");
}

#[test]
fn top_level_items() {
    let src = "use net\nlet limit: int = 10\ncount = 0\npub struct Server { host: str; port: int }\nimpl Server {\n  pub fn start(s: Server) { print(s.host) }\n  fn stop(s: Server) {}\n}\n";
    let p = program(src);
    assert_eq!(p.items.len(), 5);
    assert!(matches!(&p.items[0], TopLevel::Use(m) if m == "net"));
    assert!(matches!(&p.items[1], TopLevel::GlobalVar { name, ty: Some(Type::Int), value } if name == "limit" && is_int(value, 10)));
    assert!(matches!(&p.items[2], TopLevel::GlobalVar { name, ty: None, .. } if name == "count"));
    match &p.items[3] {
        TopLevel::Struct(s) => {
            assert_eq!(s.name, "Server");
            assert!(s.is_pub);
            assert_eq!(s.fields.len(), 2);
            assert_eq!(s.fields[1], ("port".to_string(), Type::Int));
        }
        other => panic!("{:?}", other),
    }
    match &p.items[4] {
        TopLevel::Impl(i) => {
            assert_eq!(i.target, "Server");
            assert_eq!(i.methods.len(), 2);
            assert!(i.methods[0].is_pub);
            assert!(!i.methods[1].is_pub);
            assert_eq!(i.methods[1].name, "stop");
        }
        other => panic!("{:?}", other),
    }
}

#[test]
fn statements() {
    let src = "fn main() {\n  let x: int = 1\n  ptr p = &x\n  *p = 2\n  while x < 3 { x = x + 1 }\n  loop i in 0..3 { if i == 1 { continue } else { break } }\n  exec \"ls\"\n  print(\"a\", x)\n  print \"b\"\n  go worker(1)\n  send(ch, 42)\n  asm { \"nop\" }\n  asm { }\n  return\n}\n";
    let p = program(src);
    let body = match &p.items[0] {
        TopLevel::Function(f) => &f.body,
        other => panic!("{:?}", other),
    };
    assert_eq!(body.len(), 13);
    assert!(matches!(&body[0], Stmt::Let { name, ty: Some(Type::Int), .. } if name == "x"));
    assert!(matches!(&body[1], Stmt::PtrDecl { name, expr: Expr::Ref(_) } if name == "p"));
    assert!(matches!(&body[2], Stmt::Assign { target: Expr::Deref(_), value } if is_int(value, 2)));
    assert!(matches!(&body[3], Stmt::While { body, .. } if body.len() == 1));
    match &body[4] {
        Stmt::Loop { var, range, body } => {
            assert_eq!(var, "i");
            assert!(matches!(range, Expr::Range { .. }));
            assert!(matches!(&body[0], Stmt::If { then_body, else_body: Some(e), .. }
                if matches!(then_body[0], Stmt::Continue) && matches!(e[0], Stmt::Break)));
        }
        other => panic!("{:?}", other),
    }
    assert!(matches!(&body[5], Stmt::Exec(Expr::Str(s)) if s == "ls"));
    assert!(matches!(&body[6], Stmt::Print(args) if args.len() == 2));
    assert!(matches!(&body[7], Stmt::Print(args) if args.len() == 1));
    assert!(matches!(&body[8], Stmt::Go(Expr::Call { name, .. }) if name == "worker"));
    assert!(matches!(&body[9], Stmt::Send { value, .. } if is_int(value, 42)));
    assert!(matches!(&body[10], Stmt::Asm(s) if s == "nop"));
    assert!(matches!(&body[11], Stmt::Asm(s) if s.is_empty()));
    assert!(matches!(&body[12], Stmt::Return(None)));
}

#[test]
fn else_if_chains_nest() {
    let p = program("fn f() { if a { x } else if b { y } else { z } }");
    let body = match &p.items[0] {
        TopLevel::Function(f) => &f.body,
        other => panic!("{:?}", other),
    };
    match &body[0] {
        Stmt::If { else_body: Some(e), .. } => {
            assert_eq!(e.len(), 1);
            assert!(matches!(&e[0], Stmt::If { else_body: Some(z), .. } if z.len() == 1));
        }
        other => panic!("{:?}", other),
    }
}

#[test]
fn parse_errors() {
    assert!(matches!(parse_err("fn (") , ParseError::ExpectedIdent { got: TokenKind::LParen, line: 1 }));
    assert!(matches!(parse_err("fn f {}"), ParseError::Expected { expected: TokenKind::LParen, got: TokenKind::LBrace, line: 1 }));
    assert!(matches!(parse_err("x\ny = 1"), ParseError::TopLevelIdent { name, line: 2 } if name == "x"));
    assert!(matches!(parse_err("\n\n42"), ParseError::TopLevelToken { got: TokenKind::Int(42), line: 3 }));
    assert!(matches!(parse_err("fn f(a: 1) {}"), ParseError::ExpectedType { got: TokenKind::Int(1), line: 1 }));
    assert!(matches!(parse_err("x = )"), ParseError::ExprToken { got: TokenKind::RParen, line: 1 }));
}

#[test]
fn empty_and_semicolon_only_programs() {
    assert!(program("").items.is_empty());
    assert!(program(";;\n;").items.is_empty());
}

#[test]
fn parse_source_reports_each_stage() {
    let p = parse_source("fn main() -> int {\n  return 0\n}\n").expect("parses");
    assert_eq!(p.items.len(), 1);
    assert!(matches!(parse_source("x = $"), Err(SourceError::Lex(_))));
    assert!(matches!(parse_source("fn"), Err(SourceError::Parse(ParseError::ExpectedIdent { got: TokenKind::EOF, .. }))));
}

#[test]
fn stems_of_paths() {
    assert_eq!(stem_of("main"), "main");
    assert_eq!(stem_of("main.rnf"), "main");
    assert_eq!(stem_of("archive.tar.gz"), "archive.tar");
    assert_eq!(stem_of(".hidden"), ".hidden");
    assert_eq!(stem_of(".."), "");
    assert_eq!(stem_of("examples/hello.rnf"), "hello");
}

#[test]
fn else_on_the_next_line_belongs_to_the_if() {
    let p = program("fn f() {\n  if x > 0 { print(\"positif\") }\n  else      { print(\"negatif\") }\n}\n");
    let body = match &p.items[0] {
        TopLevel::Function(f) => &f.body,
        other => panic!("{:?}", other),
    };
    assert_eq!(body.len(), 1);
    match &body[0] {
        Stmt::If { then_body, else_body: Some(e), .. } => {
            assert_eq!(then_body.len(), 1);
            assert!(matches!(&e[0], Stmt::Print(args) if matches!(&args[0], Expr::Str(s) if s == "negatif")));
        }
        other => panic!("{:?}", other),
    }
    // Without an `else`, the statement after the `if` stays a statement.
    let p = program("fn g() {\n  if a { x }\n  y\n}\n");
    match &p.items[0] {
        TopLevel::Function(f) => {
            assert_eq!(f.body.len(), 2);
            assert!(matches!(&f.body[0], Stmt::If { else_body: None, .. }));
        }
        other => panic!("{:?}", other),
    }
}

#[test]
fn qualified_names_call_methods() {
    match expr("Point::distance(p)") {
        Expr::Call { name, args } => {
            assert_eq!(name, "Point::distance");
            assert_eq!(args.len(), 1);
            assert!(is_ident(&args[0], "p"));
        }
        other => panic!("{:?}", other),
    }
    let p = program("fn main() -> int {\n  d = Point::distance(p)\n  return 0\n}\n");
    match &p.items[0] {
        TopLevel::Function(f) => assert!(matches!(&f.body[0], Stmt::Assign { value: Expr::Call { name, .. }, .. } if name == "Point::distance")),
        other => panic!("{:?}", other),
    }
}

#[test]
fn channel_and_pointer_types() {
    let p = program("fn worker(id: int, ch: chan<int>, p: ptr<str>, q: ptr int, r: chan) {}");
    match &p.items[0] {
        TopLevel::Function(f) => {
            assert_eq!(f.params[1].ty, Type::Chan(Box::new(Type::Int)));
            assert_eq!(f.params[2].ty, Type::Ptr(Box::new(Type::Str)));
            assert_eq!(f.params[3].ty, Type::Ptr(Box::new(Type::Int)));
            assert_eq!(f.params[4].ty, Type::Custom("chan".to_string()));
            assert_eq!(f.params[1].ty.to_text(), "chan<int>");
            assert_eq!(f.params[2].ty.to_text(), "ptr<str>");
        }
        other => panic!("{:?}", other),
    }
}

#[test]
fn written_types_read_back() {
    for t in [
        Type::Int,
        Type::Chan(Box::new(Type::Int)),
        Type::Ptr(Box::new(Type::Array(Box::new(Type::Str), Some(3)))),
        Type::Array(Box::new(Type::Array(Box::new(Type::Int), None)), Some(4)),
        Type::Custom("Point".to_string()),
    ] {
        let src = format!("fn f(x: {}) {{}}", t.to_text());
        match &program(&src).items[0] {
            TopLevel::Function(f) => assert_eq!(f.params[0].ty, t),
            other => panic!("{:?}", other),
        }
    }
}
