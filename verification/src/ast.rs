//! The syntax tree of RNF programs, and its mathematical model.
use vstd::prelude::*;
use crate::runtime::{nat_text, push_nat_text};
use crate::text::push_text;

verus! {

// ── Types ────────────────────────────────────────────────────────────────────

/// A type written in a program.
#[derive(Debug, PartialEq)]
pub enum Type {
    Int,
    Float,
    Str,
    Bool,
    Void,
    Ptr(Box<Type>),
    Chan(Box<Type>),
    Array(Box<Type>, Option<usize>),
    Custom(String),
}

/// How a type is written: `int`, `ptr<int>`, `[int; 4]`, `[str]`, a name.
pub open spec fn type_text(t: SpecType) -> Seq<char>
    decreases t,
{
    match t {
        SpecType::Int => "int"@,
        SpecType::Float => "float"@,
        SpecType::Str => "str"@,
        SpecType::Bool => "bool"@,
        SpecType::Void => "void"@,
        SpecType::Ptr(inner) => "ptr<"@ + type_text(*inner) + ">"@,
        SpecType::Chan(inner) => "chan<"@ + type_text(*inner) + ">"@,
        SpecType::Array(inner, size) => match size {
            Some(n) => "["@ + type_text(*inner) + "; "@ + nat_text(n as nat) + "]"@,
            None => "["@ + type_text(*inner) + "]"@,
        },
        SpecType::Custom(name) => name,
    }
}

impl Type {
    /// The type as it is written in a program.
    pub fn to_text(&self) -> (r: String)
        ensures
            r@ == type_text(type_view(*self)),
        decreases self,
    {
        let mut out = String::new();
        match self {
            Type::Int => push_text(&mut out, "int"),
            Type::Float => push_text(&mut out, "float"),
            Type::Str => push_text(&mut out, "str"),
            Type::Bool => push_text(&mut out, "bool"),
            Type::Void => push_text(&mut out, "void"),
            Type::Ptr(inner) => {
                push_text(&mut out, "ptr<");
                let t = inner.to_text();
                push_text(&mut out, t.as_str());
                push_text(&mut out, ">");
            },
            Type::Chan(inner) => {
                push_text(&mut out, "chan<");
                let t = inner.to_text();
                push_text(&mut out, t.as_str());
                push_text(&mut out, ">");
            },
            Type::Array(inner, size) => {
                push_text(&mut out, "[");
                let t = inner.to_text();
                push_text(&mut out, t.as_str());
                match size {
                    Some(n) => {
                        push_text(&mut out, "; ");
                        push_nat_text(&mut out, *n as u64);
                    },
                    None => {},
                }
                push_text(&mut out, "]");
            },
            Type::Custom(name) => push_text(&mut out, name.as_str()),
        }
        proof {
            assert(out@ =~= type_text(type_view(*self)));
        }
        out
    }
}

/// A function parameter.
#[derive(Debug, Clone)]
pub struct Param {
    pub name: String,
    pub ty: Type,
}

/// Binary operators.
#[derive(Debug, Clone, Copy, PartialEq, Eq, Structural)]
pub enum BinOp {
    Add,
    Sub,
    Mul,
    Div,
    Mod,
    Eq,
    Ne,
    Lt,
    Gt,
    Le,
    Ge,
    And,
    Or,
}

/// Unary operators.
#[derive(Debug, Clone, Copy, PartialEq, Eq, Structural)]
pub enum UnOp {
    Neg,
    Not,
}

// ── Expressions ──────────────────────────────────────────────────────────────

/// An expression. `Float` holds the literal's source text.
#[derive(Debug)]
pub enum Expr {
    /// 42
    Int(i64),
    /// 3.14
    Float(String),
    /// "hello"
    Str(String),
    /// true / false
    Bool(bool),
    /// nil
    Nil,
    /// variable_name
    Ident(String),
    /// left op right
    Binary { op: BinOp, left: Box<Expr>, right: Box<Expr> },
    /// op expr
    Unary { op: UnOp, expr: Box<Expr> },
    /// func(args...)
    Call { name: String, args: Vec<Expr> },
    /// arr[idx]
    Index { array: Box<Expr>, index: Box<Expr> },
    /// obj.field
    Field { object: Box<Expr>, field: String },
    /// &expr  (address-of)
    Ref(Box<Expr>),
    /// *expr  (dereference)
    Deref(Box<Expr>),
    /// raw_mem(0xDEAD)
    RawMem(Box<Expr>),
    /// make_chan()
    MakeChan(Type),
    /// <-ch  (receive from channel)
    ChanRecv(Box<Expr>),
    /// Struct { field: val, … }
    StructInit { name: String, fields: Vec<(String, Expr)> },
    /// start..end
    Range { start: Box<Expr>, end: Box<Expr> },
    /// [a, b, c]
    Array(Vec<Expr>),
    /// (expr as Type)
    Cast { expr: Box<Expr>, to: Type },
}

// ── Statements ───────────────────────────────────────────────────────────────

/// A statement.
#[derive(Debug)]
pub enum Stmt {
    /// Standalone expression (function call, assignment, etc.)
    Expr(Expr),
    /// let name[: type] = value
    Let { name: String, ty: Option<Type>, value: Expr },
    /// target = value
    Assign { target: Expr, value: Expr },
    /// if cond { … } else { … }
    If { cond: Expr, then_body: Vec<Stmt>, else_body: Option<Vec<Stmt>> },
    /// while cond { … }
    While { cond: Expr, body: Vec<Stmt> },
    /// loop var in range { … }
    Loop { var: String, range: Expr, body: Vec<Stmt> },
    /// return [expr]
    Return(Option<Expr>),
    /// exec "system command"
    Exec(Expr),
    /// print(args…)
    Print(Vec<Expr>),
    /// go fn_call
    Go(Expr),
    /// send(ch, val)
    Send { chan: Expr, value: Expr },
    /// asm { "raw asm" }
    Asm(String),
    /// ptr name = &expr
    PtrDecl { name: String, expr: Expr },
    /// break
    Break,
    /// continue
    Continue,
}

// ── Top-level declarations ───────────────────────────────────────────────────

/// A function, or a method inside an `impl`.
#[derive(Debug, Clone)]
pub struct FunctionDecl {
    pub name: String,
    pub params: Vec<Param>,
    pub ret_type: Option<Type>,
    pub body: Vec<Stmt>,
    pub is_pub: bool,
}

/// A struct declaration.
#[derive(Debug, Clone)]
pub struct StructDecl {
    pub name: String,
    pub fields: Vec<(String, Type)>,
    pub is_pub: bool,
}

/// The methods of a type.
#[derive(Debug, Clone)]
pub struct ImplDecl {
    pub target: String,
    pub methods: Vec<FunctionDecl>,
}

/// A top-level item.
#[derive(Debug, Clone)]
pub enum TopLevel {
    Function(FunctionDecl),
    Struct(StructDecl),
    Impl(ImplDecl),
    Use(String),
    GlobalVar { name: String, ty: Option<Type>, value: Expr },
}

/// A whole program.
#[derive(Debug, Clone)]
pub struct Program {
    pub items: Vec<TopLevel>,
}

// ── The model ────────────────────────────────────────────────────────────────

pub enum SpecType {
    Int,
    Float,
    Str,
    Bool,
    Void,
    Ptr(Box<SpecType>),
    Chan(Box<SpecType>),
    Array(Box<SpecType>, Option<usize>),
    Custom(Seq<char>),
}

pub struct SpecParam {
    pub name: Seq<char>,
    pub ty: SpecType,
}

pub enum SpecExpr {
    Int(i64),
    Float(Seq<char>),
    Str(Seq<char>),
    Bool(bool),
    Nil,
    Ident(Seq<char>),
    Binary { op: BinOp, left: Box<SpecExpr>, right: Box<SpecExpr> },
    Unary { op: UnOp, expr: Box<SpecExpr> },
    Call { name: Seq<char>, args: Seq<SpecExpr> },
    Index { array: Box<SpecExpr>, index: Box<SpecExpr> },
    Field { object: Box<SpecExpr>, field: Seq<char> },
    Ref(Box<SpecExpr>),
    Deref(Box<SpecExpr>),
    RawMem(Box<SpecExpr>),
    MakeChan(SpecType),
    ChanRecv(Box<SpecExpr>),
    StructInit { name: Seq<char>, fields: Seq<(Seq<char>, SpecExpr)> },
    Range { start: Box<SpecExpr>, end: Box<SpecExpr> },
    Array(Seq<SpecExpr>),
    Cast { expr: Box<SpecExpr>, to: SpecType },
}

pub enum SpecStmt {
    Expr(SpecExpr),
    Let { name: Seq<char>, ty: Option<SpecType>, value: SpecExpr },
    Assign { target: SpecExpr, value: SpecExpr },
    If { cond: SpecExpr, then_body: Seq<SpecStmt>, else_body: Option<Seq<SpecStmt>> },
    While { cond: SpecExpr, body: Seq<SpecStmt> },
    Loop { var: Seq<char>, range: SpecExpr, body: Seq<SpecStmt> },
    Return(Option<SpecExpr>),
    Exec(SpecExpr),
    Print(Seq<SpecExpr>),
    Go(SpecExpr),
    Send { chan: SpecExpr, value: SpecExpr },
    Asm(Seq<char>),
    PtrDecl { name: Seq<char>, expr: SpecExpr },
    Break,
    Continue,
}

pub struct SpecFunctionDecl {
    pub name: Seq<char>,
    pub params: Seq<SpecParam>,
    pub ret_type: Option<SpecType>,
    pub body: Seq<SpecStmt>,
    pub is_pub: bool,
}

pub struct SpecStructDecl {
    pub name: Seq<char>,
    pub fields: Seq<(Seq<char>, SpecType)>,
    pub is_pub: bool,
}

pub struct SpecImplDecl {
    pub target: Seq<char>,
    pub methods: Seq<SpecFunctionDecl>,
}

pub enum SpecTopLevel {
    Function(SpecFunctionDecl),
    Struct(SpecStructDecl),
    Impl(SpecImplDecl),
    Use(Seq<char>),
    GlobalVar { name: Seq<char>, ty: Option<SpecType>, value: SpecExpr },
}

pub struct SpecProgram {
    pub items: Seq<SpecTopLevel>,
}

pub open spec fn type_view(t: Type) -> SpecType
    decreases t,
{
    match t {
        Type::Int => SpecType::Int,
        Type::Float => SpecType::Float,
        Type::Str => SpecType::Str,
        Type::Bool => SpecType::Bool,
        Type::Void => SpecType::Void,
        Type::Ptr(inner) => SpecType::Ptr(Box::new(type_view(*inner))),
        Type::Chan(inner) => SpecType::Chan(Box::new(type_view(*inner))),
        Type::Array(inner, n) => SpecType::Array(Box::new(type_view(*inner)), n),
        Type::Custom(name) => SpecType::Custom(name@),
    }
}

impl View for Type {
    type V = SpecType;

    open spec fn view(&self) -> SpecType {
        type_view(*self)
    }
}

pub open spec fn opt_type_view(t: Option<Type>) -> Option<SpecType> {
    match t {
        Some(ty) => Some(ty@),
        None => None,
    }
}

impl View for Param {
    type V = SpecParam;

    open spec fn view(&self) -> SpecParam {
        SpecParam { name: self.name@, ty: self.ty@ }
    }
}

pub open spec fn params_view(s: Seq<Param>) -> Seq<SpecParam> {
    s.map_values(|p: Param| p@)
}

pub open spec fn field_types_view(s: Seq<(String, Type)>) -> Seq<(Seq<char>, SpecType)> {
    s.map_values(|f: (String, Type)| (f.0@, f.1@))
}

pub open spec fn expr_view(e: Expr) -> SpecExpr
    decreases e,
{
    match e {
        Expr::Int(n) => SpecExpr::Int(n),
        Expr::Float(s) => SpecExpr::Float(s@),
        Expr::Str(s) => SpecExpr::Str(s@),
        Expr::Bool(b) => SpecExpr::Bool(b),
        Expr::Nil => SpecExpr::Nil,
        Expr::Ident(s) => SpecExpr::Ident(s@),
        Expr::Binary { op, left, right } => SpecExpr::Binary {
            op,
            left: Box::new(expr_view(*left)),
            right: Box::new(expr_view(*right)),
        },
        Expr::Unary { op, expr } => SpecExpr::Unary { op, expr: Box::new(expr_view(*expr)) },
        Expr::Call { name, args } => SpecExpr::Call { name: name@, args: exprs_view(args@) },
        Expr::Index { array, index } => SpecExpr::Index {
            array: Box::new(expr_view(*array)),
            index: Box::new(expr_view(*index)),
        },
        Expr::Field { object, field } => SpecExpr::Field { object: Box::new(expr_view(*object)), field: field@ },
        Expr::Ref(x) => SpecExpr::Ref(Box::new(expr_view(*x))),
        Expr::Deref(x) => SpecExpr::Deref(Box::new(expr_view(*x))),
        Expr::RawMem(x) => SpecExpr::RawMem(Box::new(expr_view(*x))),
        Expr::MakeChan(t) => SpecExpr::MakeChan(t@),
        Expr::ChanRecv(x) => SpecExpr::ChanRecv(Box::new(expr_view(*x))),
        Expr::StructInit { name, fields } => SpecExpr::StructInit { name: name@, fields: field_inits_view(fields@) },
        Expr::Range { start, end } => SpecExpr::Range {
            start: Box::new(expr_view(*start)),
            end: Box::new(expr_view(*end)),
        },
        Expr::Array(items) => SpecExpr::Array(exprs_view(items@)),
        Expr::Cast { expr, to } => SpecExpr::Cast { expr: Box::new(expr_view(*expr)), to: to@ },
    }
}

pub open spec fn exprs_view(s: Seq<Expr>) -> Seq<SpecExpr>
    decreases s,
{
    if s.len() == 0 {
        Seq::empty()
    } else {
        exprs_view(s.subrange(0, s.len() - 1)).push(expr_view(s[s.len() - 1]))
    }
}

pub open spec fn field_inits_view(s: Seq<(String, Expr)>) -> Seq<(Seq<char>, SpecExpr)>
    decreases s,
{
    if s.len() == 0 {
        Seq::empty()
    } else {
        field_inits_view(s.subrange(0, s.len() - 1)).push(
            (s[s.len() - 1].0@, expr_view(s[s.len() - 1].1)),
        )
    }
}

impl View for Expr {
    type V = SpecExpr;

    open spec fn view(&self) -> SpecExpr {
        expr_view(*self)
    }
}

pub open spec fn opt_expr_view(e: Option<Expr>) -> Option<SpecExpr> {
    match e {
        Some(x) => Some(x@),
        None => None,
    }
}

pub open spec fn stmt_view(s: Stmt) -> SpecStmt
    decreases s,
{
    match s {
        Stmt::Expr(e) => SpecStmt::Expr(e@),
        Stmt::Let { name, ty, value } => SpecStmt::Let { name: name@, ty: opt_type_view(ty), value: value@ },
        Stmt::Assign { target, value } => SpecStmt::Assign { target: target@, value: value@ },
        Stmt::If { cond, then_body, else_body } => SpecStmt::If {
            cond: cond@,
            then_body: stmts_view(then_body@),
            else_body: match else_body {
                Some(b) => Some(stmts_view(b@)),
                None => None,
            },
        },
        Stmt::While { cond, body } => SpecStmt::While { cond: cond@, body: stmts_view(body@) },
        Stmt::Loop { var, range, body } => SpecStmt::Loop { var: var@, range: range@, body: stmts_view(body@) },
        Stmt::Return(e) => SpecStmt::Return(opt_expr_view(e)),
        Stmt::Exec(e) => SpecStmt::Exec(e@),
        Stmt::Print(args) => SpecStmt::Print(exprs_view(args@)),
        Stmt::Go(e) => SpecStmt::Go(e@),
        Stmt::Send { chan, value } => SpecStmt::Send { chan: chan@, value: value@ },
        Stmt::Asm(s) => SpecStmt::Asm(s@),
        Stmt::PtrDecl { name, expr } => SpecStmt::PtrDecl { name: name@, expr: expr@ },
        Stmt::Break => SpecStmt::Break,
        Stmt::Continue => SpecStmt::Continue,
    }
}

pub open spec fn stmts_view(s: Seq<Stmt>) -> Seq<SpecStmt>
    decreases s,
{
    if s.len() == 0 {
        Seq::empty()
    } else {
        stmts_view(s.subrange(0, s.len() - 1)).push(stmt_view(s[s.len() - 1]))
    }
}

impl View for Stmt {
    type V = SpecStmt;

    open spec fn view(&self) -> SpecStmt {
        stmt_view(*self)
    }
}

impl View for FunctionDecl {
    type V = SpecFunctionDecl;

    open spec fn view(&self) -> SpecFunctionDecl {
        SpecFunctionDecl {
            name: self.name@,
            params: params_view(self.params@),
            ret_type: opt_type_view(self.ret_type),
            body: stmts_view(self.body@),
            is_pub: self.is_pub,
        }
    }
}

impl View for StructDecl {
    type V = SpecStructDecl;

    open spec fn view(&self) -> SpecStructDecl {
        SpecStructDecl { name: self.name@, fields: field_types_view(self.fields@), is_pub: self.is_pub }
    }
}

impl View for ImplDecl {
    type V = SpecImplDecl;

    open spec fn view(&self) -> SpecImplDecl {
        SpecImplDecl { target: self.target@, methods: self.methods@.map_values(|m: FunctionDecl| m@) }
    }
}

impl View for TopLevel {
    type V = SpecTopLevel;

    open spec fn view(&self) -> SpecTopLevel {
        match self {
            TopLevel::Function(f) => SpecTopLevel::Function(f@),
            TopLevel::Struct(s) => SpecTopLevel::Struct(s@),
            TopLevel::Impl(i) => SpecTopLevel::Impl(i@),
            TopLevel::Use(s) => SpecTopLevel::Use(s@),
            TopLevel::GlobalVar { name, ty, value } => SpecTopLevel::GlobalVar {
                name: name@,
                ty: opt_type_view(*ty),
                value: value@,
            },
        }
    }
}

impl View for Program {
    type V = SpecProgram;

    open spec fn view(&self) -> SpecProgram {
        SpecProgram { items: self.items@.map_values(|i: TopLevel| i@) }
    }
}


// ── Copies ───────────────────────────────────────────────────────────────────

/// A copy of a type.
pub fn clone_type(t: &Type) -> (r: Type)
    ensures
        r@ == t@,
    decreases t,
{
    match t {
        Type::Int => Type::Int,
        Type::Float => Type::Float,
        Type::Str => Type::Str,
        Type::Bool => Type::Bool,
        Type::Void => Type::Void,
        Type::Ptr(inner) => Type::Ptr(Box::new(clone_type(inner))),
        Type::Chan(inner) => Type::Chan(Box::new(clone_type(inner))),
        Type::Array(inner, n) => Type::Array(Box::new(clone_type(inner)), *n),
        Type::Custom(name) => Type::Custom(name.clone()),
    }
}

impl Clone for Type {
    fn clone(&self) -> (r: Self)
        ensures
            r@ == self@,
    {
        clone_type(self)
    }
}


pub proof fn lemma_exprs_view_push(s: Seq<Expr>, e: Expr)
    ensures
        exprs_view(s.push(e)) == exprs_view(s).push(e@),
{
    assert(s.push(e).subrange(0, s.len() as int) =~= s);
}

pub proof fn lemma_stmts_view_push(s: Seq<Stmt>, x: Stmt)
    ensures
        stmts_view(s.push(x)) == stmts_view(s).push(x@),
{
    assert(s.push(x).subrange(0, s.len() as int) =~= s);
}

pub proof fn lemma_field_inits_view_push(s: Seq<(String, Expr)>, f: (String, Expr))
    ensures
        field_inits_view(s.push(f)) == field_inits_view(s).push((f.0@, f.1@)),
{
    assert(s.push(f).subrange(0, s.len() as int) =~= s);
}

pub proof fn lemma_exprs_view_len(s: Seq<Expr>)
    ensures
        exprs_view(s).len() == s.len(),
    decreases s.len(),
{
    if s.len() > 0 {
        lemma_exprs_view_len(s.subrange(0, s.len() - 1));
    }
}

pub proof fn lemma_stmts_view_len(s: Seq<Stmt>)
    ensures
        stmts_view(s).len() == s.len(),
    decreases s.len(),
{
    if s.len() > 0 {
        lemma_stmts_view_len(s.subrange(0, s.len() - 1));
    }
}

/// A copy of an expression.
pub fn clone_expr(e: &Expr) -> (r: Expr)
    ensures
        r@ == e@,
    decreases e,
{
    match e {
        Expr::Int(n) => Expr::Int(*n),
        Expr::Float(s) => Expr::Float(s.clone()),
        Expr::Str(s) => Expr::Str(s.clone()),
        Expr::Bool(b) => Expr::Bool(*b),
        Expr::Nil => Expr::Nil,
        Expr::Ident(s) => Expr::Ident(s.clone()),
        Expr::Binary { op, left, right } => Expr::Binary {
            op: *op,
            left: Box::new(clone_expr(left)),
            right: Box::new(clone_expr(right)),
        },
        Expr::Unary { op, expr } => Expr::Unary { op: *op, expr: Box::new(clone_expr(expr)) },
        Expr::Call { name, args } => Expr::Call { name: name.clone(), args: clone_exprs(args) },
        Expr::Index { array, index } => Expr::Index {
            array: Box::new(clone_expr(array)),
            index: Box::new(clone_expr(index)),
        },
        Expr::Field { object, field } => Expr::Field { object: Box::new(clone_expr(object)), field: field.clone() },
        Expr::Ref(x) => Expr::Ref(Box::new(clone_expr(x))),
        Expr::Deref(x) => Expr::Deref(Box::new(clone_expr(x))),
        Expr::RawMem(x) => Expr::RawMem(Box::new(clone_expr(x))),
        Expr::MakeChan(t) => Expr::MakeChan(clone_type(t)),
        Expr::ChanRecv(x) => Expr::ChanRecv(Box::new(clone_expr(x))),
        Expr::StructInit { name, fields } => Expr::StructInit { name: name.clone(), fields: clone_field_inits(fields) },
        Expr::Range { start, end } => Expr::Range {
            start: Box::new(clone_expr(start)),
            end: Box::new(clone_expr(end)),
        },
        Expr::Array(items) => Expr::Array(clone_exprs(items)),
        Expr::Cast { expr, to } => Expr::Cast { expr: Box::new(clone_expr(expr)), to: clone_type(to) },
    }
}

/// A copy of a list of expressions.
pub fn clone_exprs(v: &Vec<Expr>) -> (r: Vec<Expr>)
    ensures
        exprs_view(r@) == exprs_view(v@),
    decreases v,
{
    let mut r: Vec<Expr> = Vec::new();
    let mut i: usize = 0;
    while i < v.len()
        invariant
            i <= v.len(),
            exprs_view(r@) == exprs_view(v@.take(i as int)),
        decreases v.len() - i,
    {
        let e = clone_expr(&v[i]);
        proof {
            lemma_exprs_view_push(r@, e);
            assert(v@.take(i + 1).subrange(0, i as int) =~= v@.take(i as int));
        }
        r.push(e);
        i = i + 1;
    }
    assert(v@.take(v.len() as int) =~= v@);
    r
}

/// A copy of the field initialisers of a struct literal.
pub fn clone_field_inits(v: &Vec<(String, Expr)>) -> (r: Vec<(String, Expr)>)
    ensures
        field_inits_view(r@) == field_inits_view(v@),
    decreases v,
{
    let mut r: Vec<(String, Expr)> = Vec::new();
    let mut i: usize = 0;
    while i < v.len()
        invariant
            i <= v.len(),
            field_inits_view(r@) == field_inits_view(v@.take(i as int)),
        decreases v.len() - i,
    {
        let f = (v[i].0.clone(), clone_expr(&v[i].1));
        proof {
            lemma_field_inits_view_push(r@, f);
            assert(v@.take(i + 1).subrange(0, i as int) =~= v@.take(i as int));
        }
        r.push(f);
        i = i + 1;
    }
    assert(v@.take(v.len() as int) =~= v@);
    r
}

impl Clone for Expr {
    fn clone(&self) -> (r: Self)
        ensures
            r@ == self@,
    {
        clone_expr(self)
    }
}

/// A copy of a statement.
pub fn clone_stmt(s: &Stmt) -> (r: Stmt)
    ensures
        r@ == s@,
    decreases s,
{
    match s {
        Stmt::Expr(e) => Stmt::Expr(clone_expr(e)),
        Stmt::Let { name, ty, value } => Stmt::Let {
            name: name.clone(),
            ty: match ty {
                Some(t) => Some(clone_type(t)),
                None => None,
            },
            value: clone_expr(value),
        },
        Stmt::Assign { target, value } => Stmt::Assign { target: clone_expr(target), value: clone_expr(value) },
        Stmt::If { cond, then_body, else_body } => Stmt::If {
            cond: clone_expr(cond),
            then_body: clone_stmts(then_body),
            else_body: match else_body {
                Some(b) => Some(clone_stmts(b)),
                None => None,
            },
        },
        Stmt::While { cond, body } => Stmt::While { cond: clone_expr(cond), body: clone_stmts(body) },
        Stmt::Loop { var, range, body } => Stmt::Loop {
            var: var.clone(),
            range: clone_expr(range),
            body: clone_stmts(body),
        },
        Stmt::Return(e) => Stmt::Return(
            match e {
                Some(x) => Some(clone_expr(x)),
                None => None,
            },
        ),
        Stmt::Exec(e) => Stmt::Exec(clone_expr(e)),
        Stmt::Print(args) => Stmt::Print(clone_exprs(args)),
        Stmt::Go(e) => Stmt::Go(clone_expr(e)),
        Stmt::Send { chan, value } => Stmt::Send { chan: clone_expr(chan), value: clone_expr(value) },
        Stmt::Asm(raw) => Stmt::Asm(raw.clone()),
        Stmt::PtrDecl { name, expr } => Stmt::PtrDecl { name: name.clone(), expr: clone_expr(expr) },
        Stmt::Break => Stmt::Break,
        Stmt::Continue => Stmt::Continue,
    }
}

/// A copy of a list of statements.
pub fn clone_stmts(v: &Vec<Stmt>) -> (r: Vec<Stmt>)
    ensures
        stmts_view(r@) == stmts_view(v@),
    decreases v,
{
    let mut r: Vec<Stmt> = Vec::new();
    let mut i: usize = 0;
    while i < v.len()
        invariant
            i <= v.len(),
            stmts_view(r@) == stmts_view(v@.take(i as int)),
        decreases v.len() - i,
    {
        let x = clone_stmt(&v[i]);
        proof {
            lemma_stmts_view_push(r@, x);
            assert(v@.take(i + 1).subrange(0, i as int) =~= v@.take(i as int));
        }
        r.push(x);
        i = i + 1;
    }
    assert(v@.take(v.len() as int) =~= v@);
    r
}

impl Clone for Stmt {
    fn clone(&self) -> (r: Self)
        ensures
            r@ == self@,
    {
        clone_stmt(self)
    }
}

} // verus!
