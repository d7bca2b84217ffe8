//! The interpreter behind `rnf --run`, as a state machine: each `step`
//! decides what the program does next and hands the host a request for
//! what only the host can do (printing, processes, files, floating-point
//! arithmetic, shared pointers, channels, threads); the host performs it
//! and passes the answer to the next `step`.
use vstd::prelude::*;
use crate::ast::{BinOp, Expr, FunctionDecl, Program, Stmt, TopLevel, Type, UnOp};
use crate::env::Env;
use crate::runtime::{
    byte_len, char_at_index, compare_text, contains, ends_with, int_binary, int_to_text, join,
    parse_int_or_zero, range_values, replace, split, starts_with, to_lower, to_upper, trim,
    int_binary_fits, int_binary_spec, ArithError, IntOutcome, int_or_zero, trimmed, unicode_upper,
    unicode_lower, is_ascii_text, ascii_upper, ascii_lower, text_contains, occurs_at, replace_all, text_order, texts_view,
    join_text,
};
use crate::text::{push_char, push_text, str_eq, string_of};
use crate::value::{copy_value, display, display_all, get_field, index_text, kind_name, set_field, to_bool, truthy, values_eq, values_equal, same_shape, shown_scalar, Value};

verus! {

/// What the machine asks the host to do.
#[derive(Debug)]
pub enum Request {
    /// Nothing from the host: call `step` again.
    Continue,
    /// The run is over, with the runtime error that ended it, if any.
    Done(Result<(), String>),
    /// Rust's arithmetic would panic here (an `i64` overflow): the host
    /// panics with this message.
    Panic(String),
    /// Print a line on standard output.
    Print(String),
    /// Print without a line end.
    PrintRaw(String),
    /// Print a line on standard error.
    Eprint(String),
    /// Run a shell command; answer its exit status as an integer.
    ExecStatus(String),
    /// Run a shell command; answer its standard output without trailing
    /// white space, as text.
    ExecOutput(String),
    /// Run a shell command; answer nothing.
    ExecSilent(String),
    Exit(i64),
    Sleep(i64),
    EnvGet(String),
    EnvSet(String, String),
    /// Answer the program's command-line arguments as an array of texts.
    Args,
    ReadFile(String),
    WriteFile(String, String),
    FileExists(String),
    /// A floating-point operator on numbers, at least one a float: answer
    /// the result value (a float, or a truth value for a comparison).
    FloatBinary { op: BinOp, left: Value, right: Value },
    FloatNeg(Value),
    /// `n as f64`, as a float value.
    ToFloat(i64),
    /// A float truncated to an integer (`f as i64`).
    ToInt(Value),
    /// A float read from text, 0.0 where it writes none.
    ParseFloat(String),
    /// A new shared cell holding the value: answer its pointer.
    NewPtr(Value),
    PtrGet(u64),
    PtrSet(u64, Value),
    /// A new empty channel: answer it.
    NewChan,
    Send(u64, Value),
    /// The oldest value of the channel, waiting until there is one.
    Recv(u64),
    /// Run the named function with these arguments on a new thread (see
    /// `Machine::spawn`).
    Spawn { name: String, args: Vec<Value> },
}

/// What the host answers.
#[derive(Debug)]
pub enum Answer {
    Start,
    Unit,
    Value(Value),
    Text(String),
    Bool(bool),
    /// The request failed; the text is the runtime error.
    Failed(String),
}

enum Signal {
    Break,
    Continue,
    Return(Value),
}

/// How control leaves the statement that is running.
pub enum Leave {
    Break,
    Continue,
    Return,
}

spec fn leave_of(sig: Signal) -> Leave {
    match sig {
        Signal::Break => Leave::Break,
        Signal::Continue => Leave::Continue,
        Signal::Return(_) => Leave::Return,
    }
}

/// What is left to do, innermost on top.
pub enum Frame {
    /// Register the top-level items from `next` on (or, on the second pass,
    /// evaluate the global variables again).
    Top { next: usize, second: bool },
    /// The value of a global is on the stack; its evaluation scope is on top.
    GlobalDefine(String),
    /// Run the statements of `todo` in the current scope, the last first
    /// (it holds a block's statements in reverse order).
    Block { todo: Vec<Stmt> },
    /// Leave the scope of an `if` branch.
    Scope,
    /// A function body ran to its end: leave its scope, the result is `nil`.
    CallEnd,
    /// The body of `main` (or of a goroutine) ended.
    MainEnd,
    WhileLoop { cond: Expr, body: Vec<Stmt> },
    WhileTest { cond: Expr, body: Vec<Stmt> },
    LoopStart { var: String, body: Vec<Stmt> },
    LoopIter { var: String, items: Vec<Value>, next: usize, body: Vec<Stmt> },
    Eval(Expr),
    Bin(BinOp),
    Un(UnOp),
    CallWith { name: String, argc: usize, first: Option<String> },
    Index,
    Field(String),
    MakeArray(usize),
    MakeRange,
    MakeStruct { name: String, fields: Vec<String> },
    Cast(Type),
    MakeRef,
    Deref,
    RawMem,
    Recv,
    Discard,
    Define(String),
    AssignTo(Expr),
    AssignIndex(String),
    AssignDeref,
    IfThen { then_body: Vec<Stmt>, else_body: Option<Vec<Stmt>> },
    Return,
    ExecStmt,
    Print(usize),
    Go { name: String, argc: usize },
    SendOp,
}

/// A running program.
pub struct Machine {
    items: Vec<TopLevel>,
    functions: Vec<FunctionDecl>,
    globals: Env<Value>,
    envs: Vec<Env<Value>>,
    frames: Vec<Frame>,
    values: Vec<Value>,
    awaiting: bool,
    done: bool,
}

/// The frames left after leaving by `k`: everything above the innermost call
/// (whose frame goes too) is dropped; `break` drops the innermost loop, and
/// `continue` keeps it, to run its next round. Loops do not stop `return`.
pub open spec fn unwound(fs: Seq<Frame>, k: Leave) -> Seq<Frame>
    decreases fs.len(),
{
    if fs.len() == 0 {
        fs
    } else {
        let rest = fs.drop_last();
        match fs.last() {
            Frame::CallEnd | Frame::MainEnd => rest,
            Frame::WhileLoop { .. } | Frame::LoopIter { .. } => match k {
                Leave::Break => rest,
                Leave::Continue => fs,
                Leave::Return => unwound(rest, k),
            },
            _ => unwound(rest, k),
        }
    }
}

/// The names of the built-in functions; a call of one of them never reaches
/// a declared function of that name.
pub open spec fn is_builtin_name(name: Seq<char>) -> bool {
    ||| name == "print"@
    ||| name == "println"@
    ||| name == "print_no_newline"@
    ||| name == "print_raw"@
    ||| name == "eprint"@
    ||| name == "exec"@
    ||| name == "exec_silent"@
    ||| name == "len"@
    ||| name == "push"@
    ||| name == "pop"@
    ||| name == "int"@
    ||| name == "float"@
    ||| name == "str"@
    ||| name == "bool"@
    ||| name == "exit"@
    ||| name == "sleep_ms"@
    ||| name == "env_get"@
    ||| name == "env_set"@
    ||| name == "args"@
    ||| name == "read_file"@
    ||| name == "write_file"@
    ||| name == "file_exists"@
    ||| name == "split"@
    ||| name == "join"@
    ||| name == "trim"@
    ||| name == "to_upper"@
    ||| name == "to_lower"@
    ||| name == "contains"@
    ||| name == "starts_with"@
    ||| name == "ends_with"@
    ||| name == "replace"@
    ||| name == "format"@
}

/// Some function in `fs` has the name `name`.
pub open spec fn declares_name(fs: Seq<FunctionDecl>, name: Seq<char>) -> bool {
    exists|i: int| 0 <= i < fs.len() && #[trigger] fs[i].name@ == name
}

/// Some function in `fs` named `name` takes `n` parameters.
pub open spec fn declares_arity(fs: Seq<FunctionDecl>, name: Seq<char>, n: nat) -> bool {
    exists|i: int| 0 <= i < fs.len() && #[trigger] fs[i].name@ == name && fs[i].params@.len() == n
}

/// A frame that leaving by `break`, `continue` or `return` passes through:
/// neither the edge of a call nor a loop.
pub open spec fn passed_by_leaving(f: Frame) -> bool {
    !(f is CallEnd || f is MainEnd || f is WhileLoop || f is LoopIter)
}

/// `break` and `continue` reach the innermost loop: `break` leaves it and
/// `continue` keeps it for its next round; whatever stood above it is gone.
pub proof fn law_break_continue_reach_loop(below: Seq<Frame>, lp: Frame, above: Seq<Frame>)
    requires
        lp is WhileLoop || lp is LoopIter,
        forall|i: int| 0 <= i < above.len() ==> passed_by_leaving(#[trigger] above[i]),
    ensures
        unwound(below.push(lp) + above, Leave::Break) == below,
        unwound(below.push(lp) + above, Leave::Continue) == below.push(lp),
    decreases above.len(),
{
    let fs = below.push(lp) + above;
    if above.len() == 0 {
        assert(fs =~= below.push(lp));
        assert(fs.drop_last() =~= below);
    } else {
        let shorter = above.drop_last();
        assert(fs.drop_last() =~= below.push(lp) + shorter);
        assert(fs.last() == above[above.len() - 1]);
        assert(passed_by_leaving(above[above.len() - 1]));
        law_break_continue_reach_loop(below, lp, shorter);
    }
}

/// `return` reaches the innermost call, through any loops, and leaves it.
pub proof fn law_return_reaches_call(below: Seq<Frame>, call: Frame, above: Seq<Frame>)
    requires
        call is CallEnd || call is MainEnd,
        forall|i: int| 0 <= i < above.len() ==> !(#[trigger] above[i] is CallEnd || above[i] is MainEnd),
    ensures
        unwound(below.push(call) + above, Leave::Return) == below,
    decreases above.len(),
{
    let fs = below.push(call) + above;
    if above.len() == 0 {
        assert(fs =~= below.push(call));
        assert(fs.drop_last() =~= below);
    } else {
        let shorter = above.drop_last();
        assert(fs.drop_last() =~= below.push(call) + shorter);
        assert(fs.last() == above[above.len() - 1]);
        assert(!(above[above.len() - 1] is CallEnd || above[above.len() - 1] is MainEnd));
        law_return_reaches_call(below, call, shorter);
    }
}

/// The block whose statements are `todo` (the next one last) started its
/// next statement on top of `below`, giving `after`: the block keeps the rest.
pub open spec fn next_in_block(below: Seq<Frame>, todo: Seq<Stmt>, after: Seq<Frame>) -> bool {
    exists|rest: Vec<Stmt>|
        #![trigger rest@]
        rest@ == todo.drop_last() && after == started(
            below.push(Frame::Block { todo: rest }),
            todo.last(),
        )
}

/// A branch whose statements are `body` started on top of `below`, giving
/// `after`: it runs in a scope of its own, left when the branch ends.
pub open spec fn branch_started(below: Seq<Frame>, body: Seq<Stmt>, after: Seq<Frame>) -> bool {
    exists|todo: Vec<Stmt>|
        #![trigger todo@]
        todo@ == body.reverse() && after == below.push(Frame::Scope).push(Frame::Block { todo })
}

/// What a binary operator does to the values, where the machine decides it
/// alone: on two integers, the integer operator (whose overflow panics);
/// `==` and `!=` on other values, their equality; `+` on two texts, their
/// concatenation. `below` holds the values under the operands, `after` those
/// after the step.
pub open spec fn binary_outcome(
    op: BinOp,
    l: Value,
    r: Value,
    below: Seq<Value>,
    after: Seq<Value>,
    ended: bool,
    out: Request,
) -> bool {
    match (l, r) {
        (Value::Int(a), Value::Int(b)) => if !int_binary_fits(op, a as int, b as int) {
            out is Panic && after == below
        } else {
            match int_binary_spec(op, a as int, b as int) {
                Ok(IntOutcome::Int(n)) => after == below.push(Value::Int(n)) && out == Request::Continue,
                Ok(IntOutcome::Bool(x)) => after == below.push(Value::Bool(x)) && out == Request::Continue,
                Err(_) => ended && out matches Request::Done(Err(_)),
            }
        },
        _ => {
            &&& op is And ==> out == Request::Continue && after == below.push(Value::Bool(truthy(l) && truthy(r)))
            &&& op is Or ==> out == Request::Continue && after == below.push(Value::Bool(truthy(l) || truthy(r)))
            &&& match (l, r) {
                (Value::Str(a), Value::Str(b)) => {
                    &&& op is Add ==> (out == Request::Continue && after.len() == below.len() + 1
                        && after.drop_last() == below && (after.last() matches Value::Str(s) && s@ == a@ + b@))
                    &&& (op is Eq || op is Ne) ==> after == below.push(
                        Value::Bool(if op is Eq { a@ == b@ } else { a@ != b@ }),
                    ) && out == Request::Continue
                    &&& (op is Lt || op is Gt || op is Le || op is Ge) ==> out == Request::Continue && after
                        == below.push(
                        Value::Bool(
                            if op is Lt {
                                text_order(a@, b@) < 0
                            } else if op is Gt {
                                text_order(a@, b@) > 0
                            } else if op is Le {
                                text_order(a@, b@) <= 0
                            } else {
                                text_order(a@, b@) >= 0
                            },
                        ),
                    )
                },
                _ => (op is Eq || op is Ne) ==> after == below.push(
                    Value::Bool(if op is Eq { values_equal(l, r) } else { !values_equal(l, r) }),
                ) && out == Request::Continue,
            }
        },
    }
}

/// `var` now holds an array of `len` items, assigned as `Env::set` assigns.
pub open spec fn wrote_back(
    before: Seq<Map<Seq<char>, Value>>,
    var: Seq<char>,
    len: nat,
    after: Seq<Map<Seq<char>, Value>>,
) -> bool {
    exists|arr: Vec<Value>|
        #![trigger arr@]
        arr@.len() == len && after == crate::env::assign(before, var, Value::Array(arr))
}

/// `push(a, x)` and `pop(a)` on an array write the changed array back into
/// the variable `a` names (when the first argument is a plain variable):
/// one item longer, or one shorter unless it was empty.
pub open spec fn writes_back(
    name: Seq<char>,
    args: Seq<Value>,
    first: Option<String>,
    before: Seq<Map<Seq<char>, Value>>,
    after: Seq<Map<Seq<char>, Value>>,
    out: Request,
) -> bool {
    &&& name == "push"@ && args.len() >= 2 ==> (args[0] matches Value::Array(v) ==> out
        == Request::Continue && (first matches Some(var) ==> wrote_back(before, var@, v@.len() + 1, after)))
    &&& name == "pop"@ && args.len() >= 1 ==> (args[0] matches Value::Array(v) ==> out
        == Request::Continue && (first matches Some(var) ==> wrote_back(
        before,
        var@,
        if v@.len() > 0 { (v@.len() - 1) as nat } else { 0 },
        after,
    )))
}

/// Every function in `fs` named `name` takes `n` parameters.
pub open spec fn only_arity(fs: Seq<FunctionDecl>, name: Seq<char>, n: nat) -> bool {
    forall|i: int| 0 <= i < fs.len() && #[trigger] fs[i].name@ == name ==> fs[i].params@.len() == n
}

/// `after` is `before` with `name` bound, to some value, in the innermost scope.
pub open spec fn bound_in(before: Seq<Map<Seq<char>, Value>>, name: Seq<char>, after: Seq<Map<Seq<char>, Value>>) -> bool {
    exists|v: Value|
        #![trigger before[0].insert(name, v)]
        after == before.update(0, before[0].insert(name, v))
}

/// What `name[idx] = val` does, where `found` is what `name` holds in the
/// current scope: an array gets `val` at the index, keeping its length, and
/// is assigned back (`Env::set`); an index past the end, an index that is
/// not an integer, or a variable that holds no array is an error.
pub open spec fn assign_index_outcome(
    found: Option<Value>,
    idx: Value,
    val: Value,
    name: Seq<char>,
    before: Seq<Map<Seq<char>, Value>>,
    after: Seq<Map<Seq<char>, Value>>,
    ended: bool,
    out: Request,
) -> bool {
    match found {
        Some(Value::Array(arr)) => match idx {
            Value::Int(i) => if (i as u64) < arr@.len() {
                out == Request::Continue && exists|a: Vec<Value>|
                    #![trigger a@]
                    a@.len() == arr@.len() && a@[(i as u64) as int] == val && after
                        == crate::env::assign(before, name, Value::Array(a))
            } else {
                ended && out matches Request::Done(Err(_))
            },
            _ => ended && out matches Request::Done(Err(_)),
        },
        _ => ended && out matches Request::Done(Err(_)),
    }
}

/// The innermost scope of `scope` binds every parameter of a declaration
/// in `fs` of the function `name`.
pub open spec fn binds_params(fs: Seq<FunctionDecl>, name: Seq<char>, scope: Seq<Map<Seq<char>, Value>>) -> bool {
    exists|i: int|
        0 <= i < fs.len() && #[trigger] fs[i].name@ == name && forall|k: int|
            0 <= k < fs[i].params@.len() ==> #[trigger] scope[0].contains_key(fs[i].params@[k].name@)
}

/// What `name.field = v` does, where `found` is what `name` holds in the
/// current scope: a struct is assigned back with the field set; a variable
/// that holds no struct is an error.
pub open spec fn field_assign_outcome(
    found: Option<Value>,
    name: Seq<char>,
    before: Seq<Map<Seq<char>, Value>>,
    after: Seq<Map<Seq<char>, Value>>,
    ended: bool,
    out: Request,
) -> bool {
    match found {
        Some(Value::Struct { .. }) => out == Request::Continue && exists|s: Value|
            #![trigger crate::env::assign(before, name, s)]
            s is Struct && after == crate::env::assign(before, name, s),
        _ => ended && out matches Request::Done(Err(_)),
    }
}

/// The names of the built-in functions differ from one another, so each
/// call reaches the branch of its own name.
proof fn lemma_builtin_names_differ()
    ensures
        "len"@ != "print"@,
        "len"@ != "println"@,
        "len"@ != "print_no_newline"@,
        "len"@ != "print_raw"@,
        "len"@ != "eprint"@,
        "len"@ != "exec"@,
        "len"@ != "exec_silent"@,
        "push"@ != "print"@,
        "push"@ != "println"@,
        "push"@ != "print_no_newline"@,
        "push"@ != "print_raw"@,
        "push"@ != "eprint"@,
        "push"@ != "exec"@,
        "push"@ != "exec_silent"@,
        "push"@ != "len"@,
        "pop"@ != "print"@,
        "pop"@ != "println"@,
        "pop"@ != "print_no_newline"@,
        "pop"@ != "print_raw"@,
        "pop"@ != "eprint"@,
        "pop"@ != "exec"@,
        "pop"@ != "exec_silent"@,
        "pop"@ != "len"@,
        "pop"@ != "push"@,
        "int"@ != "print"@,
        "int"@ != "println"@,
        "int"@ != "print_no_newline"@,
        "int"@ != "print_raw"@,
        "int"@ != "eprint"@,
        "int"@ != "exec"@,
        "int"@ != "exec_silent"@,
        "int"@ != "len"@,
        "int"@ != "push"@,
        "int"@ != "pop"@,
        "str"@ != "print"@,
        "str"@ != "println"@,
        "str"@ != "print_no_newline"@,
        "str"@ != "print_raw"@,
        "str"@ != "eprint"@,
        "str"@ != "exec"@,
        "str"@ != "exec_silent"@,
        "str"@ != "len"@,
        "str"@ != "push"@,
        "str"@ != "pop"@,
        "str"@ != "int"@,
        "str"@ != "float"@,
        "bool"@ != "print"@,
        "bool"@ != "println"@,
        "bool"@ != "print_no_newline"@,
        "bool"@ != "print_raw"@,
        "bool"@ != "eprint"@,
        "bool"@ != "exec"@,
        "bool"@ != "exec_silent"@,
        "bool"@ != "len"@,
        "bool"@ != "push"@,
        "bool"@ != "pop"@,
        "bool"@ != "int"@,
        "bool"@ != "float"@,
        "bool"@ != "str"@,
        "trim"@ != "print"@,
        "trim"@ != "println"@,
        "trim"@ != "print_no_newline"@,
        "trim"@ != "print_raw"@,
        "trim"@ != "eprint"@,
        "trim"@ != "exec"@,
        "trim"@ != "exec_silent"@,
        "trim"@ != "len"@,
        "trim"@ != "push"@,
        "trim"@ != "pop"@,
        "trim"@ != "int"@,
        "trim"@ != "float"@,
        "trim"@ != "str"@,
        "trim"@ != "bool"@,
        "trim"@ != "exit"@,
        "trim"@ != "sleep_ms"@,
        "trim"@ != "env_get"@,
        "trim"@ != "env_set"@,
        "trim"@ != "args"@,
        "trim"@ != "read_file"@,
        "trim"@ != "write_file"@,
        "trim"@ != "file_exists"@,
        "trim"@ != "split"@,
        "trim"@ != "join"@,
        "to_upper"@ != "print"@,
        "to_upper"@ != "println"@,
        "to_upper"@ != "print_no_newline"@,
        "to_upper"@ != "print_raw"@,
        "to_upper"@ != "eprint"@,
        "to_upper"@ != "exec"@,
        "to_upper"@ != "exec_silent"@,
        "to_upper"@ != "len"@,
        "to_upper"@ != "push"@,
        "to_upper"@ != "pop"@,
        "to_upper"@ != "int"@,
        "to_upper"@ != "float"@,
        "to_upper"@ != "str"@,
        "to_upper"@ != "bool"@,
        "to_upper"@ != "exit"@,
        "to_upper"@ != "sleep_ms"@,
        "to_upper"@ != "env_get"@,
        "to_upper"@ != "env_set"@,
        "to_upper"@ != "args"@,
        "to_upper"@ != "read_file"@,
        "to_upper"@ != "write_file"@,
        "to_upper"@ != "file_exists"@,
        "to_upper"@ != "split"@,
        "to_upper"@ != "join"@,
        "to_upper"@ != "trim"@,
        "to_lower"@ != "print"@,
        "to_lower"@ != "println"@,
        "to_lower"@ != "print_no_newline"@,
        "to_lower"@ != "print_raw"@,
        "to_lower"@ != "eprint"@,
        "to_lower"@ != "exec"@,
        "to_lower"@ != "exec_silent"@,
        "to_lower"@ != "len"@,
        "to_lower"@ != "push"@,
        "to_lower"@ != "pop"@,
        "to_lower"@ != "int"@,
        "to_lower"@ != "float"@,
        "to_lower"@ != "str"@,
        "to_lower"@ != "bool"@,
        "to_lower"@ != "exit"@,
        "to_lower"@ != "sleep_ms"@,
        "to_lower"@ != "env_get"@,
        "to_lower"@ != "env_set"@,
        "to_lower"@ != "args"@,
        "to_lower"@ != "read_file"@,
        "to_lower"@ != "write_file"@,
        "to_lower"@ != "file_exists"@,
        "to_lower"@ != "split"@,
        "to_lower"@ != "join"@,
        "to_lower"@ != "trim"@,
        "to_lower"@ != "to_upper"@,
        "contains"@ != "print"@,
        "contains"@ != "println"@,
        "contains"@ != "print_no_newline"@,
        "contains"@ != "print_raw"@,
        "contains"@ != "eprint"@,
        "contains"@ != "exec"@,
        "contains"@ != "exec_silent"@,
        "contains"@ != "len"@,
        "contains"@ != "push"@,
        "contains"@ != "pop"@,
        "contains"@ != "int"@,
        "contains"@ != "float"@,
        "contains"@ != "str"@,
        "contains"@ != "bool"@,
        "contains"@ != "exit"@,
        "contains"@ != "sleep_ms"@,
        "contains"@ != "env_get"@,
        "contains"@ != "env_set"@,
        "contains"@ != "args"@,
        "contains"@ != "read_file"@,
        "contains"@ != "write_file"@,
        "contains"@ != "file_exists"@,
        "contains"@ != "split"@,
        "contains"@ != "join"@,
        "contains"@ != "trim"@,
        "contains"@ != "to_upper"@,
        "contains"@ != "to_lower"@,
        "starts_with"@ != "print"@,
        "starts_with"@ != "println"@,
        "starts_with"@ != "print_no_newline"@,
        "starts_with"@ != "print_raw"@,
        "starts_with"@ != "eprint"@,
        "starts_with"@ != "exec"@,
        "starts_with"@ != "exec_silent"@,
        "starts_with"@ != "len"@,
        "starts_with"@ != "push"@,
        "starts_with"@ != "pop"@,
        "starts_with"@ != "int"@,
        "starts_with"@ != "float"@,
        "starts_with"@ != "str"@,
        "starts_with"@ != "bool"@,
        "starts_with"@ != "exit"@,
        "starts_with"@ != "sleep_ms"@,
        "starts_with"@ != "env_get"@,
        "starts_with"@ != "env_set"@,
        "starts_with"@ != "args"@,
        "starts_with"@ != "read_file"@,
        "starts_with"@ != "write_file"@,
        "starts_with"@ != "file_exists"@,
        "starts_with"@ != "split"@,
        "starts_with"@ != "join"@,
        "starts_with"@ != "trim"@,
        "starts_with"@ != "to_upper"@,
        "starts_with"@ != "to_lower"@,
        "starts_with"@ != "contains"@,
        "ends_with"@ != "print"@,
        "ends_with"@ != "println"@,
        "ends_with"@ != "print_no_newline"@,
        "ends_with"@ != "print_raw"@,
        "ends_with"@ != "eprint"@,
        "ends_with"@ != "exec"@,
        "ends_with"@ != "exec_silent"@,
        "ends_with"@ != "len"@,
        "ends_with"@ != "push"@,
        "ends_with"@ != "pop"@,
        "ends_with"@ != "int"@,
        "ends_with"@ != "float"@,
        "ends_with"@ != "str"@,
        "ends_with"@ != "bool"@,
        "ends_with"@ != "exit"@,
        "ends_with"@ != "sleep_ms"@,
        "ends_with"@ != "env_get"@,
        "ends_with"@ != "env_set"@,
        "ends_with"@ != "args"@,
        "ends_with"@ != "read_file"@,
        "ends_with"@ != "write_file"@,
        "ends_with"@ != "file_exists"@,
        "ends_with"@ != "split"@,
        "ends_with"@ != "join"@,
        "ends_with"@ != "trim"@,
        "ends_with"@ != "to_upper"@,
        "ends_with"@ != "to_lower"@,
        "ends_with"@ != "contains"@,
        "ends_with"@ != "starts_with"@,
        "replace"@ != "print"@,
        "replace"@ != "println"@,
        "replace"@ != "print_no_newline"@,
        "replace"@ != "print_raw"@,
        "replace"@ != "eprint"@,
        "replace"@ != "exec"@,
        "replace"@ != "exec_silent"@,
        "replace"@ != "len"@,
        "replace"@ != "push"@,
        "replace"@ != "pop"@,
        "replace"@ != "int"@,
        "replace"@ != "float"@,
        "replace"@ != "str"@,
        "replace"@ != "bool"@,
        "replace"@ != "exit"@,
        "replace"@ != "sleep_ms"@,
        "replace"@ != "env_get"@,
        "replace"@ != "env_set"@,
        "replace"@ != "args"@,
        "replace"@ != "read_file"@,
        "replace"@ != "write_file"@,
        "replace"@ != "file_exists"@,
        "replace"@ != "split"@,
        "replace"@ != "join"@,
        "replace"@ != "trim"@,
        "replace"@ != "to_upper"@,
        "replace"@ != "to_lower"@,
        "replace"@ != "contains"@,
        "replace"@ != "starts_with"@,
        "replace"@ != "ends_with"@,
{
    reveal_strlit("print");
    assert("print"@.len() == 5 && "print"@[0] == 'p' && "print"@[1] == 'r' && "print"@[2] == 'i' && "print"@[3] == 'n' && "print"@[4] == 't');
    reveal_strlit("println");
    assert("println"@.len() == 7 && "println"@[0] == 'p' && "println"@[1] == 'r' && "println"@[2] == 'i' && "println"@[3] == 'n' && "println"@[4] == 't' && "println"@[5] == 'l' && "println"@[6] == 'n');
    reveal_strlit("print_no_newline");
    assert("print_no_newline"@.len() == 16 && "print_no_newline"@[0] == 'p' && "print_no_newline"@[1] == 'r' && "print_no_newline"@[2] == 'i' && "print_no_newline"@[3] == 'n' && "print_no_newline"@[4] == 't' && "print_no_newline"@[5] == '_' && "print_no_newline"@[6] == 'n' && "print_no_newline"@[7] == 'o' && "print_no_newline"@[8] == '_' && "print_no_newline"@[9] == 'n' && "print_no_newline"@[10] == 'e' && "print_no_newline"@[11] == 'w' && "print_no_newline"@[12] == 'l' && "print_no_newline"@[13] == 'i' && "print_no_newline"@[14] == 'n' && "print_no_newline"@[15] == 'e');
    reveal_strlit("print_raw");
    assert("print_raw"@.len() == 9 && "print_raw"@[0] == 'p' && "print_raw"@[1] == 'r' && "print_raw"@[2] == 'i' && "print_raw"@[3] == 'n' && "print_raw"@[4] == 't' && "print_raw"@[5] == '_' && "print_raw"@[6] == 'r' && "print_raw"@[7] == 'a' && "print_raw"@[8] == 'w');
    reveal_strlit("eprint");
    assert("eprint"@.len() == 6 && "eprint"@[0] == 'e' && "eprint"@[1] == 'p' && "eprint"@[2] == 'r' && "eprint"@[3] == 'i' && "eprint"@[4] == 'n' && "eprint"@[5] == 't');
    reveal_strlit("exec");
    assert("exec"@.len() == 4 && "exec"@[0] == 'e' && "exec"@[1] == 'x' && "exec"@[2] == 'e' && "exec"@[3] == 'c');
    reveal_strlit("exec_silent");
    assert("exec_silent"@.len() == 11 && "exec_silent"@[0] == 'e' && "exec_silent"@[1] == 'x' && "exec_silent"@[2] == 'e' && "exec_silent"@[3] == 'c' && "exec_silent"@[4] == '_' && "exec_silent"@[5] == 's' && "exec_silent"@[6] == 'i' && "exec_silent"@[7] == 'l' && "exec_silent"@[8] == 'e' && "exec_silent"@[9] == 'n' && "exec_silent"@[10] == 't');
    reveal_strlit("len");
    assert("len"@.len() == 3 && "len"@[0] == 'l' && "len"@[1] == 'e' && "len"@[2] == 'n');
    reveal_strlit("push");
    assert("push"@.len() == 4 && "push"@[0] == 'p' && "push"@[1] == 'u' && "push"@[2] == 's' && "push"@[3] == 'h');
    reveal_strlit("pop");
    assert("pop"@.len() == 3 && "pop"@[0] == 'p' && "pop"@[1] == 'o' && "pop"@[2] == 'p');
    reveal_strlit("int");
    assert("int"@.len() == 3 && "int"@[0] == 'i' && "int"@[1] == 'n' && "int"@[2] == 't');
    reveal_strlit("float");
    assert("float"@.len() == 5 && "float"@[0] == 'f' && "float"@[1] == 'l' && "float"@[2] == 'o' && "float"@[3] == 'a' && "float"@[4] == 't');
    reveal_strlit("str");
    assert("str"@.len() == 3 && "str"@[0] == 's' && "str"@[1] == 't' && "str"@[2] == 'r');
    reveal_strlit("bool");
    assert("bool"@.len() == 4 && "bool"@[0] == 'b' && "bool"@[1] == 'o' && "bool"@[2] == 'o' && "bool"@[3] == 'l');
    reveal_strlit("exit");
    assert("exit"@.len() == 4 && "exit"@[0] == 'e' && "exit"@[1] == 'x' && "exit"@[2] == 'i' && "exit"@[3] == 't');
    reveal_strlit("sleep_ms");
    assert("sleep_ms"@.len() == 8 && "sleep_ms"@[0] == 's' && "sleep_ms"@[1] == 'l' && "sleep_ms"@[2] == 'e' && "sleep_ms"@[3] == 'e' && "sleep_ms"@[4] == 'p' && "sleep_ms"@[5] == '_' && "sleep_ms"@[6] == 'm' && "sleep_ms"@[7] == 's');
    reveal_strlit("env_get");
    assert("env_get"@.len() == 7 && "env_get"@[0] == 'e' && "env_get"@[1] == 'n' && "env_get"@[2] == 'v' && "env_get"@[3] == '_' && "env_get"@[4] == 'g' && "env_get"@[5] == 'e' && "env_get"@[6] == 't');
    reveal_strlit("env_set");
    assert("env_set"@.len() == 7 && "env_set"@[0] == 'e' && "env_set"@[1] == 'n' && "env_set"@[2] == 'v' && "env_set"@[3] == '_' && "env_set"@[4] == 's' && "env_set"@[5] == 'e' && "env_set"@[6] == 't');
    reveal_strlit("args");
    assert("args"@.len() == 4 && "args"@[0] == 'a' && "args"@[1] == 'r' && "args"@[2] == 'g' && "args"@[3] == 's');
    reveal_strlit("read_file");
    assert("read_file"@.len() == 9 && "read_file"@[0] == 'r' && "read_file"@[1] == 'e' && "read_file"@[2] == 'a' && "read_file"@[3] == 'd' && "read_file"@[4] == '_' && "read_file"@[5] == 'f' && "read_file"@[6] == 'i' && "read_file"@[7] == 'l' && "read_file"@[8] == 'e');
    reveal_strlit("write_file");
    assert("write_file"@.len() == 10 && "write_file"@[0] == 'w' && "write_file"@[1] == 'r' && "write_file"@[2] == 'i' && "write_file"@[3] == 't' && "write_file"@[4] == 'e' && "write_file"@[5] == '_' && "write_file"@[6] == 'f' && "write_file"@[7] == 'i' && "write_file"@[8] == 'l' && "write_file"@[9] == 'e');
    reveal_strlit("file_exists");
    assert("file_exists"@.len() == 11 && "file_exists"@[0] == 'f' && "file_exists"@[1] == 'i' && "file_exists"@[2] == 'l' && "file_exists"@[3] == 'e' && "file_exists"@[4] == '_' && "file_exists"@[5] == 'e' && "file_exists"@[6] == 'x' && "file_exists"@[7] == 'i' && "file_exists"@[8] == 's' && "file_exists"@[9] == 't' && "file_exists"@[10] == 's');
    reveal_strlit("split");
    assert("split"@.len() == 5 && "split"@[0] == 's' && "split"@[1] == 'p' && "split"@[2] == 'l' && "split"@[3] == 'i' && "split"@[4] == 't');
    reveal_strlit("join");
    assert("join"@.len() == 4 && "join"@[0] == 'j' && "join"@[1] == 'o' && "join"@[2] == 'i' && "join"@[3] == 'n');
    reveal_strlit("trim");
    assert("trim"@.len() == 4 && "trim"@[0] == 't' && "trim"@[1] == 'r' && "trim"@[2] == 'i' && "trim"@[3] == 'm');
    reveal_strlit("to_upper");
    assert("to_upper"@.len() == 8 && "to_upper"@[0] == 't' && "to_upper"@[1] == 'o' && "to_upper"@[2] == '_' && "to_upper"@[3] == 'u' && "to_upper"@[4] == 'p' && "to_upper"@[5] == 'p' && "to_upper"@[6] == 'e' && "to_upper"@[7] == 'r');
    reveal_strlit("to_lower");
    assert("to_lower"@.len() == 8 && "to_lower"@[0] == 't' && "to_lower"@[1] == 'o' && "to_lower"@[2] == '_' && "to_lower"@[3] == 'l' && "to_lower"@[4] == 'o' && "to_lower"@[5] == 'w' && "to_lower"@[6] == 'e' && "to_lower"@[7] == 'r');
    reveal_strlit("contains");
    assert("contains"@.len() == 8 && "contains"@[0] == 'c' && "contains"@[1] == 'o' && "contains"@[2] == 'n' && "contains"@[3] == 't' && "contains"@[4] == 'a' && "contains"@[5] == 'i' && "contains"@[6] == 'n' && "contains"@[7] == 's');
    reveal_strlit("starts_with");
    assert("starts_with"@.len() == 11 && "starts_with"@[0] == 's' && "starts_with"@[1] == 't' && "starts_with"@[2] == 'a' && "starts_with"@[3] == 'r' && "starts_with"@[4] == 't' && "starts_with"@[5] == 's' && "starts_with"@[6] == '_' && "starts_with"@[7] == 'w' && "starts_with"@[8] == 'i' && "starts_with"@[9] == 't' && "starts_with"@[10] == 'h');
    reveal_strlit("ends_with");
    assert("ends_with"@.len() == 9 && "ends_with"@[0] == 'e' && "ends_with"@[1] == 'n' && "ends_with"@[2] == 'd' && "ends_with"@[3] == 's' && "ends_with"@[4] == '_' && "ends_with"@[5] == 'w' && "ends_with"@[6] == 'i' && "ends_with"@[7] == 't' && "ends_with"@[8] == 'h');
    reveal_strlit("replace");
    assert("replace"@.len() == 7 && "replace"@[0] == 'r' && "replace"@[1] == 'e' && "replace"@[2] == 'p' && "replace"@[3] == 'l' && "replace"@[4] == 'a' && "replace"@[5] == 'c' && "replace"@[6] == 'e');
}

/// The text a built-in function reads from argument `i`: how the value is
/// shown, or the empty text where there is no such argument (`None` for an
/// array or struct, whose text this does not spell out).
pub open spec fn arg_text(args: Seq<Value>, i: int) -> Option<Seq<char>> {
    if i < args.len() {
        shown_scalar(args[i])
    } else {
        Some(Seq::empty())
    }
}

/// `after` is `below` with a text pushed that satisfies `good`.
pub open spec fn pushed_text(below: Seq<Value>, after: Seq<Value>, good: spec_fn(Seq<char>) -> bool) -> bool {
    &&& after.len() == below.len() + 1
    &&& after.drop_last() == below
    &&& after.last() matches Value::Str(text) && good(text@)
}

/// What the built-in functions that compute on their arguments push, given
/// the arguments `args` and the values `below` under them.
pub open spec fn builtin_outcome(
    name: Seq<char>,
    args: Seq<Value>,
    below: Seq<Value>,
    after: Seq<Value>,
    ended: bool,
    out: Request,
) -> bool {
    &&& name == "len"@ ==> (if args.len() == 0 {
        ended && out matches Request::Done(Err(_))
    } else {
        match args[0] {
            Value::Array(v) => out == Request::Continue && after == below.push(Value::Int(v@.len() as i64)),
            Value::Str(t) => out == Request::Continue && after == below.push(
                Value::Int((vstd::utf8::encode_utf8(t@).len() as usize) as i64),
            ),
            _ => ended && out matches Request::Done(Err(_)),
        }
    })
    &&& name == "int"@ ==> (if args.len() == 0 {
        out == Request::Continue && after == below.push(Value::Int(0))
    } else {
        match args[0] {
            Value::Int(k) => out == Request::Continue && after == below.push(Value::Int(k)),
            Value::Str(t) => out == Request::Continue && after == below.push(Value::Int(int_or_zero(t@))),
            Value::Bool(b) => out == Request::Continue && after == below.push(Value::Int(if b { 1 } else { 0 })),
            Value::Float { .. } => out is ToInt,
            _ => out == Request::Continue && after == below.push(Value::Int(0)),
        }
    })
    &&& name == "bool"@ ==> out == Request::Continue && after == below.push(
        Value::Bool(args.len() > 0 && truthy(args[0])),
    )
    &&& name == "str"@ ==> (arg_text(args, 0) matches Some(t) ==> out == Request::Continue
        && pushed_text(below, after, |w: Seq<char>| w == t))
    &&& name == "trim"@ && args.len() > 0 ==> (arg_text(args, 0) matches Some(t) ==> out
        == Request::Continue && pushed_text(below, after, |w: Seq<char>| w == trimmed(t)))
    &&& name == "to_upper"@ && args.len() > 0 ==> (arg_text(args, 0) matches Some(t) ==> out
        == Request::Continue && pushed_text(
        below,
        after,
        |w: Seq<char>| w == unicode_upper(t) && (is_ascii_text(t) ==> w == t.map_values(|c: char| ascii_upper(c))),
    ))
    &&& name == "to_lower"@ && args.len() > 0 ==> (arg_text(args, 0) matches Some(t) ==> out
        == Request::Continue && pushed_text(
        below,
        after,
        |w: Seq<char>| w == unicode_lower(t) && (is_ascii_text(t) ==> w == t.map_values(|c: char| ascii_lower(c))),
    ))
    &&& name == "contains"@ ==> (arg_text(args, 0) matches Some(a) ==> (arg_text(args, 1) matches Some(
        b,
    ) ==> out == Request::Continue && after == below.push(Value::Bool(text_contains(a, b)))))
    &&& name == "starts_with"@ ==> (arg_text(args, 0) matches Some(a) ==> (arg_text(args, 1) matches Some(
        b,
    ) ==> out == Request::Continue && after == below.push(Value::Bool(occurs_at(a, b, 0)))))
    &&& name == "ends_with"@ ==> (arg_text(args, 0) matches Some(a) ==> (arg_text(args, 1) matches Some(
        b,
    ) ==> out == Request::Continue && after == below.push(
        Value::Bool(b.len() <= a.len() && occurs_at(a, b, a.len() - b.len())),
    )))
    &&& name == "replace"@ ==> (arg_text(args, 0) matches Some(a) ==> (arg_text(args, 1) matches Some(
        b,
    ) ==> (arg_text(args, 2) matches Some(c) ==> out == Request::Continue && pushed_text(
        below,
        after,
        |w: Seq<char>| w == replace_all(a, b, c),
    ))))
}

/// What `a[i]` pushes, where `arr` is the value of `a` and `idx` that of
/// `i`, above the values `below`: the item at `i` of an array, or a text of
/// the `i`-th character of a text; an index outside, or any other operands,
/// is an error.
pub open spec fn index_outcome(arr: Value, idx: Value, below: Seq<Value>, after: Seq<Value>, ended: bool, out: Request) -> bool {
    match (arr, idx) {
        (Value::Array(v), Value::Int(i)) => if 0 <= i < v@.len() {
            out == Request::Continue && after == below.push(v@[i as int])
        } else {
            ended && out matches Request::Done(Err(_))
        },
        (Value::Str(t), Value::Int(i)) => if 0 <= i < t@.len() {
            out == Request::Continue && pushed_text(below, after, |w: Seq<char>| w == seq![t@[i as int]])
        } else {
            ended && out matches Request::Done(Err(_))
        },
        _ => ended && out matches Request::Done(Err(_)),
    }
}

/// What a unary operator does to its operand `v` above the values `below`:
/// `-` negates an integer (the negation of the least integer panics) and
/// leaves a float to the host; `!` gives the operand's falsity.
pub open spec fn unary_outcome(op: UnOp, v: Value, below: Seq<Value>, after: Seq<Value>, ended: bool, out: Request) -> bool {
    match op {
        UnOp::Neg => match v {
            Value::Int(n) => if n == i64::MIN {
                out is Panic && after == below
            } else {
                out == Request::Continue && after == below.push(Value::Int((-n) as i64))
            },
            Value::Float { .. } => out is FloatNeg,
            _ => ended && out matches Request::Done(Err(_)),
        },
        UnOp::Not => out == Request::Continue && after == below.push(Value::Bool(!truthy(v))),
    }
}

/// What `a..b` pushes: the array of the integers from `a` up to, not
/// including, `b` (empty where `b <= a`); other operands are an error.
pub open spec fn range_outcome(s: Value, e: Value, below: Seq<Value>, after: Seq<Value>, ended: bool, out: Request) -> bool {
    match (s, e) {
        (Value::Int(a), Value::Int(b)) => {
            &&& out == Request::Continue
            &&& after.len() == below.len() + 1
            &&& after.drop_last() == below
            &&& after.last() matches Value::Array(items) && items@.len() == (if a < b { b - a } else { 0 })
                && forall|k: int| 0 <= k < items@.len() ==> #[trigger] items@[k] == Value::Int((a + k) as i64)
        },
        _ => ended && out matches Request::Done(Err(_)),
    }
}

/// What `v as to` pushes: an integer as a text is its decimal text, a float
/// as a text its plain text, a text as an integer its integer (or 0), a
/// truth value as an integer 1 or 0; a conversion between integers and
/// floats is the host's; any other cast keeps the value.
pub open spec fn cast_outcome(v: Value, to: Type, below: Seq<Value>, after: Seq<Value>, out: Request) -> bool {
    match (v, to) {
        (Value::Int(_), Type::Float) => out is ToFloat,
        (Value::Float { .. }, Type::Int) => out is ToInt,
        (Value::Int(n), Type::Str) => out == Request::Continue && pushed_text(
            below,
            after,
            |w: Seq<char>| w == crate::runtime::int_text(n as int),
        ),
        (Value::Float { plain, .. }, Type::Str) => out == Request::Continue && pushed_text(below, after, |w: Seq<char>| w == plain@),
        (Value::Str(t), Type::Int) => out == Request::Continue && after == below.push(Value::Int(int_or_zero(t@))),
        (Value::Bool(b), Type::Int) => out == Request::Continue && after == below.push(Value::Int(if b { 1 } else { 0 })),
        _ => out == Request::Continue && after == below.push(v),
    }
}

/// The texts of `vals` as a line shows them, where every value holds no
/// other values.
pub open spec fn shown_all(vals: Seq<Value>) -> Seq<Seq<char>> {
    vals.map_values(|v: Value| shown_scalar(v)->0)
}

/// Every value of `vals` holds no other values.
pub open spec fn all_scalar(vals: Seq<Value>) -> bool {
    forall|i: int| 0 <= i < vals.len() ==> #[trigger] shown_scalar(vals[i]) is Some
}

/// The frames that evaluate `es` from the first on (the first on top).
pub open spec fn evals(es: Seq<Expr>) -> Seq<Frame> {
    es.reverse().map_values(|e: Expr| Frame::Eval(e))
}

/// The frames once statement `s` has started on top of `fs`: its parts are
/// evaluated first, then the frame that finishes it runs; `break`,
/// `continue` and `return` with no value leave at once.
pub open spec fn started(fs: Seq<Frame>, s: Stmt) -> Seq<Frame> {
    match s {
        Stmt::Expr(e) => fs.push(Frame::Discard).push(Frame::Eval(e)),
        Stmt::Let { name, value, .. } => fs.push(Frame::Define(name)).push(Frame::Eval(value)),
        Stmt::Assign { target, value } => fs.push(Frame::AssignTo(target)).push(Frame::Eval(value)),
        Stmt::If { cond, then_body, else_body } => fs.push(
            Frame::IfThen { then_body, else_body },
        ).push(Frame::Eval(cond)),
        Stmt::While { cond, body } => fs.push(Frame::WhileLoop { cond, body }),
        Stmt::Loop { var, range, body } => fs.push(Frame::LoopStart { var, body }).push(
            Frame::Eval(range),
        ),
        Stmt::Return(e) => match e {
            Some(x) => fs.push(Frame::Return).push(Frame::Eval(x)),
            None => unwound(fs, Leave::Return),
        },
        Stmt::Exec(e) => fs.push(Frame::ExecStmt).push(Frame::Eval(e)),
        Stmt::Print(args) => fs.push(Frame::Print(args.len())) + evals(args@),
        Stmt::Go(call) => match call {
            Expr::Call { name, args } => fs.push(Frame::Go { name, argc: args.len() }) + evals(args@),
            _ => fs,
        },
        Stmt::Send { chan, value } => fs.push(Frame::SendOp).push(Frame::Eval(value)).push(
            Frame::Eval(chan),
        ),
        Stmt::Asm(_) => fs.push(Frame::Discard),
        Stmt::PtrDecl { name, expr } => fs.push(Frame::Define(name)).push(Frame::MakeRef).push(
            Frame::Eval(expr),
        ),
        Stmt::Break => unwound(fs, Leave::Break),
        Stmt::Continue => unwound(fs, Leave::Continue),
    }
}

fn text2(a: &str, b: &str) -> (r: String)
    ensures
        r@ == a@ + b@,
{
    let mut s = String::new();
    push_text(&mut s, a);
    push_text(&mut s, b);
    proof {
        assert(s@ =~= a@ + b@);
    }
    s
}

fn text3(a: &str, b: &str, c: &str) -> (r: String)
    ensures
        r@ == a@ + b@ + c@,
{
    let mut s = text2(a, b);
    push_text(&mut s, c);
    s
}

/// The statements in reverse order.
fn reversed(v: Vec<Stmt>) -> (r: Vec<Stmt>)
    ensures
        r@ == v@.reverse(),
{
    let mut v = v;
    let mut r: Vec<Stmt> = Vec::new();
    let ghost orig = v@;
    while v.len() > 0
        invariant
            orig == v@ + r@.reverse(),
        decreases v@.len(),
    {
        let ghost before = v@;
        match v.pop() {
            Some(x) => {
                proof {
                    assert(before == v@.push(x));
                    assert((r@.push(x)).reverse() =~= seq![x] + r@.reverse());
                    assert(before + r@.reverse() =~= v@ + (seq![x] + r@.reverse()));
                }
                r.push(x);
            },
            None => {},
        }
    }
    proof {
        assert(v@ + r@.reverse() =~= r@.reverse());
        assert(r@.reverse().reverse() =~= r@);
    }
    r
}

/// A length as an `i64`, as `as` converts it.
fn len_as_i64(n: usize) -> (r: i64)
    ensures
        r == n as i64,
{
    #[verifier::truncate]
    (n as i64)
}

/// The `i`-th text, or empty.
fn nth_text(v: &Vec<String>, i: usize) -> (r: String)
    ensures
        i < v@.len() ==> r@ == v@[i as int]@,
        i >= v@.len() ==> r@ == Seq::<char>::empty(),
{
    if i < v.len() {
        v[i].clone()
    } else {
        String::new()
    }
}

/// The value an answer gives.
fn answer_value(a: Answer) -> Value {
    match a {
        Answer::Value(v) => v,
        Answer::Text(s) => Value::Str(s),
        Answer::Bool(b) => Value::Bool(b),
        _ => Value::Nil,
    }
}

fn is_float(v: &Value) -> (r: bool)
    ensures
        r == (*v is Float),
{
    match v {
        Value::Float { .. } => true,
        _ => false,
    }
}

fn is_number(v: &Value) -> (r: bool)
    ensures
        r == (*v is Int || *v is Float),
{
    match v {
        Value::Int(_) | Value::Float { .. } => true,
        _ => false,
    }
}

/// The float 0.0.
fn float_zero() -> Value {
    Value::Float { bits: 0, shown: string_of("0.0"), plain: string_of("0") }
}

/// Whether a function of this name is declared.
fn find_function(fs: &Vec<FunctionDecl>, name: &str) -> (r: Option<usize>)
    ensures
        r matches Some(i) ==> i < fs@.len() && fs@[i as int].name@ == name@,
        r is None ==> forall|i: int| 0 <= i < fs@.len() ==> fs@[i].name@ != name@,
{
    let mut i: usize = 0;
    while i < fs.len()
        invariant
            i <= fs.len(),
            forall|j: int| 0 <= j < i ==> fs@[j].name@ != name@,
        decreases fs.len() - i,
    {
        if str_eq(fs[i].name.as_str(), name) {
            return Some(i);
        }
        i = i + 1;
    }
    None
}

/// Registers a function, replacing one of the same name.
fn register(fs: &mut Vec<FunctionDecl>, f: FunctionDecl) {
    match find_function(fs, f.name.as_str()) {
        Some(i) => {
            fs.set(i, f);
        },
        None => {
            fs.push(f);
        },
    }
}

/// The error of a call with the wrong number of arguments, if it has one:
/// exactly when the counts differ.
pub fn arity_error(name: &str, params: usize, args: usize) -> (r: Option<String>)
    ensures
        r is Some <==> params != args,
{
    if params == args {
        None
    } else {
        let mut s = text3("Function '", name, "' expects ");
        let p = index_text(params as u64);
        push_text(&mut s, p.as_str());
        push_text(&mut s, " args, got ");
        let a = index_text(args as u64);
        push_text(&mut s, a.as_str());
        Some(s)
    }
}

impl Machine {
    /// The machine's invariant: every scope it holds is well formed.
    pub closed spec fn wf(&self) -> bool {
        &&& self.globals.wf()
        &&& forall|i: int| 0 <= i < self.envs@.len() ==> #[trigger] self.envs@[i].wf()
    }

    /// Whether the run is over.
    pub closed spec fn finished(&self) -> bool {
        self.done
    }

    /// The run goes on and no request waits for its answer.
    pub closed spec fn ready(&self) -> bool {
        !self.done && !self.awaiting
    }

    /// What is left to do, innermost last.
    pub closed spec fn stack(&self) -> Seq<Frame> {
        self.frames@
    }

    /// The values computed and not yet used, the latest last.
    pub closed spec fn operands(&self) -> Seq<Value> {
        self.values@
    }

    /// The scopes that the running code sees, innermost first.
    pub closed spec fn scope(&self) -> Seq<Map<Seq<char>, Value>> {
        if self.envs@.len() > 0 {
            self.envs@.last().scopes()
        } else {
            self.globals.scopes()
        }
    }

    /// How many scopes (of calls and `if` branches) are open.
    pub closed spec fn depth(&self) -> nat {
        self.envs@.len()
    }

    /// The functions declared so far.
    pub closed spec fn declared(&self) -> Seq<FunctionDecl> {
        self.functions@
    }

    /// The top-level items of the program.
    pub closed spec fn program(&self) -> Seq<TopLevel> {
        self.items@
    }

    /// A machine about to run `program`: the first `step` registers its
    /// items in order, evaluates its globals, then runs `main` (or, without
    /// `main`, evaluates the globals a second time).
    pub fn new(program: &Program) -> (r: Self)
        ensures
            r.wf(),
            !r.finished(),
    {
        let mut frames: Vec<Frame> = Vec::new();
        frames.push(Frame::Top { next: 0, second: false });
        Machine {
            items: program.items.clone(),
            functions: Vec::new(),
            globals: Env::new(),
            envs: Vec::new(),
            frames,
            values: Vec::new(),
            awaiting: false,
            done: false,
        }
    }

    /// A machine that runs function `name` on `args` (a goroutine): a new
    /// scope inside a copy of the globals binds the parameters to the
    /// arguments, as many as both have; `None` where no function has the
    /// name.
    pub fn spawn(&self, name: &str, args: Vec<Value>) -> (r: Option<Machine>)
        requires
            self.wf(),
        ensures
            r matches Some(m) ==> m.wf() && !m.finished(),
    {
        match find_function(&self.functions, name) {
            None => None,
            Some(i) => {
                let f = &self.functions[i];
                let mut env = Env::child(self.globals.clone());
                let mut k: usize = 0;
                while k < f.params.len() && k < args.len()
                    invariant
                        env.wf(),
                    decreases f.params.len() - k,
                {
                    env.define(f.params[k].name.as_str(), copy_value(&args[k]));
                    k = k + 1;
                }
                let mut envs: Vec<Env<Value>> = Vec::new();
                envs.push(env);
                let mut frames: Vec<Frame> = Vec::new();
                frames.push(Frame::MainEnd);
                frames.push(Frame::Block { todo: reversed(f.body.clone()) });
                Some(Machine {
                    items: Vec::new(),
                    functions: self.functions.clone(),
                    globals: self.globals.clone(),
                    envs,
                    frames,
                    values: Vec::new(),
                    awaiting: false,
                    done: false,
                })
            },
        }
    }

    fn fail(&mut self, msg: String) -> (r: Request)
        ensures
            final(self).finished(),
            final(self).globals == old(self).globals,
            final(self).envs@ == old(self).envs@,
            final(self).frames@ == old(self).frames@,
            final(self).functions == old(self).functions,
            r == Request::Done(Err::<(), String>(msg)),
    {
        self.done = true;
        Request::Done(Err(msg))
    }

    fn ask(&mut self, r: Request) -> (out: Request)
        ensures
            final(self).globals == old(self).globals,
            final(self).envs@ == old(self).envs@,
            final(self).frames@ == old(self).frames@,
            final(self).functions == old(self).functions,
            final(self).done == old(self).done,
            out == r,
    {
        self.awaiting = true;
        r
    }

    fn pop_value(&mut self) -> (v: Value)
        ensures
            final(self).globals == old(self).globals,
            final(self).envs@ == old(self).envs@,
            final(self).frames@ == old(self).frames@,
            final(self).functions == old(self).functions,
            final(self).done == old(self).done,
            final(self).awaiting == old(self).awaiting,
            final(self).items == old(self).items,
            old(self).values@.len() > 0 ==> v == old(self).values@.last()
                && final(self).values@ == old(self).values@.drop_last(),
    {
        match self.values.pop() {
            Some(v) => v,
            None => Value::Nil,
        }
    }

    /// The last `n` values, in the order they were computed.
    fn pop_values(&mut self, n: usize) -> (out: Vec<Value>)
        ensures
            final(self).globals == old(self).globals,
            final(self).envs@ == old(self).envs@,
            final(self).frames@ == old(self).frames@,
            final(self).functions == old(self).functions,
            final(self).done == old(self).done,
            final(self).items == old(self).items,
            out@.len() == n,
            old(self).values@.len() >= n ==> out@ == old(self).values@.subrange(
                old(self).values@.len() - n,
                old(self).values@.len() as int,
            ) && final(self).values@ == old(self).values@.subrange(0, old(self).values@.len() - n),
    {
        let ghost total = old(self).values@;
        let ghost ok = total.len() >= n;
        let ghost top = total.subrange(total.len() - n, total.len() as int);
        let mut rev: Vec<Value> = Vec::new();
        let mut k: usize = 0;
        while k < n
            invariant
                self.globals == old(self).globals,
                self.envs@ == old(self).envs@,
                self.frames@ == old(self).frames@,
                self.functions == old(self).functions,
                self.done == old(self).done,
                self.items == old(self).items,
                total == old(self).values@,
                ok == (total.len() >= n),
                k <= n,
                rev@.len() == k,
                ok ==> self.values@ == total.subrange(0, total.len() - k),
                ok ==> rev@ == total.subrange(total.len() - k, total.len() as int).reverse(),
            decreases n - k,
        {
            let ghost before = self.values@;
            let v = self.pop_value();
            proof {
                if ok {
                    assert(v == total[total.len() - k - 1]);
                    assert(self.values@ =~= total.subrange(0, total.len() - k - 1));
                    assert(rev@.push(v) =~= total.subrange(total.len() - k - 1, total.len() as int).reverse());
                }
            }
            rev.push(v);
            k = k + 1;
        }
        let mut out: Vec<Value> = Vec::new();
        while rev.len() > 0
            invariant
                ok ==> rev@ == top.subrange(out@.len() as int, n as int).reverse(),
                ok ==> out@ == top.subrange(0, out@.len() as int),
                out@.len() + rev@.len() == n,
                top.len() == n || !ok,
            decreases rev.len(),
        {
            let ghost o = out@.len();
            let x = rev.pop().unwrap();
            proof {
                if ok {
                    assert(x == top[o as int]);
                    assert(rev@ =~= top.subrange(o + 1 as int, n as int).reverse());
                    assert(out@.push(x) =~= top.subrange(0, o + 1 as int));
                }
            }
            out.push(x);
        }
        proof {
            if ok {
                assert(top =~= total.subrange(total.len() - n, total.len() as int));
                assert(out@ =~= top);
            }
        }
        out
    }

    fn push_env(&mut self, e: Env<Value>)
        requires
            old(self).wf(),
            e.wf(),
        ensures
            final(self).wf(),
            final(self).frames@ == old(self).frames@,
            final(self).functions == old(self).functions,
            final(self).done == old(self).done,
            final(self).globals == old(self).globals,
            final(self).envs@ == old(self).envs@.push(e),
            final(self).items == old(self).items,
    {
        self.envs.push(e);
        proof {
            assert forall|i: int| 0 <= i < self.envs@.len() implies #[trigger] self.envs@[i].wf() by {
                if i < self.envs@.len() - 1 {
                    assert(self.envs@[i] == old(self).envs@[i]);
                }
            }
        }
    }

    fn pop_env(&mut self) -> (r: Option<Env<Value>>)
        requires
            old(self).wf(),
        ensures
            final(self).wf(),
            final(self).frames@ == old(self).frames@,
            final(self).functions == old(self).functions,
            final(self).done == old(self).done,
            final(self).globals == old(self).globals,
            final(self).values@ == old(self).values@,
            final(self).items == old(self).items,
            old(self).envs@.len() == 0 ==> r is None && final(self).envs@ == old(self).envs@,
            old(self).envs@.len() > 0 ==> r == Some(old(self).envs@.last())
                && final(self).envs@ == old(self).envs@.drop_last(),
            r matches Some(e) ==> e.wf(),
    {
        let r = self.envs.pop();
        proof {
            assert forall|i: int| 0 <= i < self.envs@.len() implies #[trigger] self.envs@[i].wf() by {
                assert(self.envs@[i] == old(self).envs@[i]);
            }
            if r is Some {
                assert(old(self).envs@[old(self).envs@.len() - 1].wf());
            }
        }
        r
    }

    /// A child scope of a copy of the current scope (an `if` branch), or of
    /// the globals (a call).
    fn enter_copy_of_current(&mut self)
        requires
            old(self).wf(),
        ensures
            final(self).wf(),
            final(self).frames@ == old(self).frames@,
            final(self).functions == old(self).functions,
            final(self).done == old(self).done,
    {
        let e = match self.pop_env() {
            Some(cur) => {
                let copy = cur.clone();
                self.push_env(cur);
                Env::child(copy)
            },
            None => Env::child(self.globals.clone()),
        };
        self.push_env(e);
    }

    /// The value of a variable: the current scope, else the globals.
    fn lookup(&self, name: &str) -> Option<Value>
        requires
            self.wf(),
    {
        if self.envs.len() > 0 {
            let top = &self.envs[self.envs.len() - 1];
            match top.get(name) {
                Some(v) => return Some(v),
                None => {},
            }
        }
        self.globals.get(name)
    }

    /// The value of a variable in the current scope only.
    fn get_current(&self, name: &str) -> (r: Option<Value>)
        requires
            self.wf(),
        ensures
            match crate::env::lookup(self.scope(), name@) {
                Some(v) => r matches Some(w) && same_shape(v, w),
                None => r is None,
            },
    {
        if self.envs.len() > 0 {
            self.envs[self.envs.len() - 1].get(name)
        } else {
            self.globals.get(name)
        }
    }

    /// Binds `name` in the current scope (`Env::define`).
    fn define_current(&mut self, name: &str, v: Value)
        requires
            old(self).wf(),
        ensures
            final(self).wf(),
            final(self).scope() == old(self).scope().update(0, old(self).scope()[0].insert(name@, v)),
            final(self).frames@ == old(self).frames@,
            final(self).functions == old(self).functions,
            final(self).done == old(self).done,
    {
        match self.pop_env() {
            Some(mut e) => {
                e.define(name, v);
                self.push_env(e);
            },
            None => {
                self.globals.define(name, v);
            },
        }
    }

    /// Assigns `name` from the current scope (`Env::set`).
    fn set_current(&mut self, name: &str, v: Value)
        requires
            old(self).wf(),
        ensures
            final(self).wf(),
            final(self).scope() == crate::env::assign(old(self).scope(), name@, v),
            final(self).frames@ == old(self).frames@,
            final(self).functions == old(self).functions,
            final(self).done == old(self).done,
    {
        match self.pop_env() {
            Some(mut e) => {
                e.set(name, v);
                self.push_env(e);
            },
            None => {
                self.globals.set(name, v);
            },
        }
    }

    /// Advances the machine: takes the host's answer to the last request
    /// (ignored where there was none), then does the next piece of work,
    /// the one that the top of `stack()` names. Its contract states what
    /// that work is for the frames that decide the control flow (blocks,
    /// `if`, `while`, `break`/`continue`/`return`, calls of declared
    /// functions, the start of the run), for assignment to a variable, for
    /// binary operators, and for `push`/`pop`.
    pub fn step(&mut self, a: Answer) -> (r: Request)
        requires
            old(self).wf(),
        ensures
            final(self).wf(),
            old(self).finished() ==> r == Request::Done(Ok::<(), String>(())),
            r is Done ==> final(self).finished(),
            // A block runs its statements in order: the next one starts on
            // top of the rest of the block; an empty block is left.
            old(self).ready() && old(self).stack().len() > 0 ==> (old(self).stack().last() matches Frame::Block {
                todo,
            } ==> (todo@.len() == 0 ==> final(self).stack() == old(self).stack().drop_last()) && (
            todo@.len() > 0 ==> final(self).finished() || next_in_block(
                old(self).stack().drop_last(),
                todo@,
                final(self).stack(),
            ))),
            // `if` runs the branch that its condition picks, in a scope of its own.
            old(self).ready() && old(self).stack().len() > 0 && old(self).operands().len() > 0 ==> (
            old(self).stack().last() matches Frame::IfThen { then_body, else_body } ==> (truthy(
                old(self).operands().last(),
            ) ==> branch_started(old(self).stack().drop_last(), then_body@, final(self).stack())) && (
            !truthy(old(self).operands().last()) ==> (else_body matches Some(eb) ==> branch_started(
                old(self).stack().drop_last(),
                eb@,
                final(self).stack(),
            )) && (else_body is None ==> final(self).stack() == old(self).stack().drop_last()))),
            // A `while` loop ends when its condition is false; else it stays
            // for another round, below a block that runs its body.
            old(self).ready() && old(self).stack().len() > 0 && old(self).operands().len() > 0 ==> (
            old(self).stack().last() matches Frame::WhileTest { cond, body } ==> (!truthy(
                old(self).operands().last(),
            ) ==> final(self).stack() == old(self).stack().drop_last()) && (truthy(
                old(self).operands().last(),
            ) ==> final(self).stack().len() == old(self).stack().len() + 1
                && final(self).stack().drop_last() == old(self).stack().drop_last().push(
                Frame::WhileLoop { cond, body },
            ) && final(self).stack().last() is Block)),
            // `a[i]` with both operands computed (see `index_outcome`).
            old(self).ready() && old(self).stack().len() > 0 && old(self).operands().len() >= 2 ==> (
            old(self).stack().last() is Index ==> index_outcome(
                old(self).operands()[old(self).operands().len() - 2],
                old(self).operands().last(),
                old(self).operands().drop_last().drop_last(),
                final(self).operands(),
                final(self).finished(),
                r,
            ) && final(self).stack() == old(self).stack().drop_last()),
            // A unary operator, a range and a cast with their operands computed.
            old(self).ready() && old(self).stack().len() > 0 && old(self).operands().len() > 0 ==> (
            old(self).stack().last() matches Frame::Un(op) ==> unary_outcome(
                op,
                old(self).operands().last(),
                old(self).operands().drop_last(),
                final(self).operands(),
                final(self).finished(),
                r,
            ) && final(self).stack() == old(self).stack().drop_last()),
            old(self).ready() && old(self).stack().len() > 0 && old(self).operands().len() >= 2 ==> (
            old(self).stack().last() is MakeRange ==> range_outcome(
                old(self).operands()[old(self).operands().len() - 2],
                old(self).operands().last(),
                old(self).operands().drop_last().drop_last(),
                final(self).operands(),
                final(self).finished(),
                r,
            ) && final(self).stack() == old(self).stack().drop_last()),
            old(self).ready() && old(self).stack().len() > 0 && old(self).operands().len() > 0 ==> (
            old(self).stack().last() matches Frame::Cast(to) ==> cast_outcome(
                old(self).operands().last(),
                to,
                old(self).operands().drop_last(),
                final(self).operands(),
                r,
            ) && final(self).stack() == old(self).stack().drop_last()),
            // An array literal holds its items in order; `print` shows its
            // values separated by single spaces.
            old(self).ready() && old(self).stack().len() > 0 ==> (old(self).stack().last() matches Frame::MakeArray(
                n,
            ) ==> (old(self).operands().len() >= n ==> final(self).operands().drop_last()
                == old(self).operands().subrange(0, old(self).operands().len() - n) && (final(self).operands().last() matches Value::Array(
                items,
            ) && items@ == old(self).operands().subrange(
                old(self).operands().len() - n,
                old(self).operands().len() as int,
            )))),
            old(self).ready() && old(self).stack().len() > 0 ==> (old(self).stack().last() matches Frame::Print(
                n,
            ) ==> (old(self).operands().len() >= n && all_scalar(
                old(self).operands().subrange(old(self).operands().len() - n, old(self).operands().len() as int),
            ) ==> (r matches Request::Print(line) && line@ == join_text(
                shown_all(
                    old(self).operands().subrange(old(self).operands().len() - n, old(self).operands().len() as int),
                ),
                " "@,
            )))),
            // A binary operator with both operands computed (see `binary_outcome`).
            old(self).ready() && old(self).stack().len() > 0 && old(self).operands().len() >= 2 ==> (
            old(self).stack().last() matches Frame::Bin(op) ==> binary_outcome(
                op,
                old(self).operands()[old(self).operands().len() - 2],
                old(self).operands().last(),
                old(self).operands().drop_last().drop_last(),
                final(self).operands(),
                final(self).finished(),
                r,
            ) && final(self).stack() == old(self).stack().drop_last()),
            // Once every item is registered and every global evaluated, `main`
            // runs; without `main` the globals are evaluated a second time,
            // after which the run ends.
            old(self).ready() && old(self).stack().len() > 0 ==> (old(self).stack().last() matches Frame::Top {
                next,
                second,
            } ==> (next >= old(self).program().len() ==> (second ==> final(self).stack()
                == old(self).stack().drop_last()) && (!second ==> (!declares_name(
                old(self).declared(),
                "main"@,
            ) ==> final(self).stack() == old(self).stack().drop_last().push(
                Frame::Top { next: 0, second: true },
            )) && (declares_name(old(self).declared(), "main"@) ==> final(self).stack().len()
                == old(self).stack().len() + 1 && final(self).stack().drop_last()
                == old(self).stack().drop_last().push(Frame::MainEnd) && final(self).stack().last() is Block)))),
            // `loop x in items` runs its body once per item, in order, with `x`
            // bound to it; after the last item the loop is left.
            old(self).ready() && old(self).stack().len() > 0 ==> (old(self).stack().last() matches Frame::LoopIter {
                var,
                items,
                next,
                body,
            } ==> (next >= items@.len() ==> final(self).stack() == old(self).stack().drop_last()) && (next
                < items@.len() ==> final(self).stack().len() == old(self).stack().len() + 1
                && final(self).stack().drop_last() == old(self).stack().drop_last().push(
                Frame::LoopIter { var, items, next: (next + 1) as usize, body },
            ) && final(self).stack().last() is Block && bound_in(old(self).scope(), var@, final(self).scope()))),
            // Leaving an `if` branch closes its scope; a body that runs to its
            // end closes the call's scope, and the call's value is `nil`.
            old(self).ready() && old(self).stack().len() > 0 && old(self).depth() > 0 ==> (
            old(self).stack().last() is Scope ==> final(self).stack() == old(self).stack().drop_last()
                && final(self).depth() == old(self).depth() - 1),
            old(self).ready() && old(self).stack().len() > 0 && old(self).depth() > 0 ==> (
            old(self).stack().last() is CallEnd ==> final(self).stack() == old(self).stack().drop_last()
                && final(self).depth() == old(self).depth() - 1 && final(self).operands()
                == old(self).operands().push(Value::Nil)),
            // `a[i] = v` writes `v` at `i` of the array `a` holds, or is an error.
            old(self).ready() && old(self).stack().len() > 0 && old(self).operands().len() >= 2 ==> (
            old(self).stack().last() matches Frame::AssignIndex(name) ==> assign_index_outcome(
                crate::env::lookup(old(self).scope(), name@),
                old(self).operands().last(),
                old(self).operands()[old(self).operands().len() - 2],
                name@,
                old(self).scope(),
                final(self).scope(),
                final(self).finished(),
                r,
            ) && final(self).stack() == old(self).stack().drop_last()),
            // `let` binds the variable in the innermost scope (`Env::define`).
            old(self).ready() && old(self).stack().len() > 0 && old(self).operands().len() > 0 ==> (
            old(self).stack().last() matches Frame::Define(name) ==> final(self).scope()
                == old(self).scope().update(
                0,
                old(self).scope()[0].insert(name@, old(self).operands().last()),
            ) && final(self).stack() == old(self).stack().drop_last()),
            // The built-in functions that compute on their arguments push what
            // `builtin_outcome` states.
            old(self).ready() && old(self).stack().len() > 0 ==> (old(self).stack().last() matches Frame::CallWith {
                name,
                argc,
                ..
            } ==> (old(self).operands().len() >= argc ==> builtin_outcome(
                name@,
                old(self).operands().subrange(
                    old(self).operands().len() - argc,
                    old(self).operands().len() as int,
                ),
                old(self).operands().subrange(0, old(self).operands().len() - argc),
                final(self).operands(),
                final(self).finished(),
                r,
            ))),
            // `push` and `pop` write the changed array back into the variable.
            old(self).ready() && old(self).stack().len() > 0 ==> (old(self).stack().last() matches Frame::CallWith {
                name,
                argc,
                first,
            } ==> (old(self).operands().len() >= argc ==> writes_back(
                name@,
                old(self).operands().subrange(
                    old(self).operands().len() - argc,
                    old(self).operands().len() as int,
                ),
                first,
                old(self).scope(),
                final(self).scope(),
                r,
            ))),
            // `return` with its value computed leaves through the innermost call.
            old(self).ready() && old(self).stack().len() > 0 && old(self).operands().len() > 0 ==> (
            old(self).stack().last() matches Frame::Return ==> final(self).stack() == unwound(
                old(self).stack().drop_last(),
                Leave::Return,
            )),
            // A call of a declared function with a number of arguments that
            // none of its declarations takes is an error and runs no body.
            old(self).ready() && old(self).stack().len() > 0 ==> (old(self).stack().last() matches Frame::CallWith {
                name,
                argc,
                ..
            } ==> (!is_builtin_name(name@) && declares_name(old(self).declared(), name@)
                && !declares_arity(old(self).declared(), name@, argc as nat) ==> final(self).finished() && final(self).stack() == old(self).stack().drop_last()
                && r matches Request::Done(Err(_)))),
            // A call of a declared function whose declarations all take as many
            // parameters as it has arguments runs the body, above the frame
            // that ends the call, in a new scope that binds the parameters.
            old(self).ready() && old(self).stack().len() > 0 ==> (old(self).stack().last() matches Frame::CallWith {
                name,
                argc,
                ..
            } ==> (!is_builtin_name(name@) && declares_name(old(self).declared(), name@) && only_arity(
                old(self).declared(),
                name@,
                argc as nat,
            ) ==> r == Request::Continue && !final(self).finished() && final(self).stack().len()
                == old(self).stack().len() + 1 && final(self).stack().drop_last()
                == old(self).stack().drop_last().push(Frame::CallEnd) && final(self).stack().last() is Block
                && final(self).depth() == old(self).depth() + 1 && binds_params(
                old(self).declared(),
                name@,
                final(self).scope(),
            ))),
            // `s.f = v` sets a field of the struct that `s` holds, or is an error.
            old(self).ready() && old(self).stack().len() > 0 && old(self).operands().len() > 0 ==> (
            old(self).stack().last() matches Frame::AssignTo(Expr::Field { object, .. }) ==> (*object matches Expr::Ident(
                name,
            ) ==> field_assign_outcome(
                crate::env::lookup(old(self).scope(), name@),
                name@,
                old(self).scope(),
                final(self).scope(),
                final(self).finished(),
                r,
            ) && final(self).stack() == old(self).stack().drop_last())),
            // Assigning a variable goes through `Env::set` on the current scope.
            old(self).ready() && old(self).stack().len() > 0 && old(self).operands().len() > 0 ==> (
            old(self).stack().last() matches Frame::AssignTo(Expr::Ident(name)) ==> final(self).scope() == crate::env::assign(old(self).scope(), name@, old(self).operands().last())
                && final(self).stack() == old(self).stack().drop_last()),
    {
        if self.done {
            return Request::Done(Ok(()));
        }
        if self.awaiting {
            self.awaiting = false;
            match a {
                Answer::Failed(msg) => {
                    return self.fail(msg);
                },
                other => {
                    let v = answer_value(other);
                    self.values.push(v);
                },
            }
        }
        match self.frames.pop() {
            None => {
                self.done = true;
                Request::Done(Ok(()))
            },
            Some(frame) => {
                let r = self.run_frame(frame);
                match r {
                    Request::Done(res) => {
                        self.done = true;
                        Request::Done(res)
                    },
                    other => other,
                }
            },
        }
    }

    /// Leaves loops, scopes and calls for `break`, `continue` or `return`:
    /// `break` leaves the innermost loop, `continue` goes on with its next
    /// round, `return` leaves the innermost call with its value; at the
    /// edge of a call, `break` and `continue` make it return `nil`.
    fn unwind(&mut self, sig: Signal) -> (r: Request)
        requires
            old(self).wf(),
        ensures
            final(self).wf(),
            final(self).frames@ == unwound(old(self).frames@, leave_of(sig)),
            final(self).functions == old(self).functions,
            final(self).done == old(self).done,
            r == Request::Continue,
    {
        let ghost k = leave_of(sig);
        loop
            invariant
                self.wf(),
                k == leave_of(sig),
                unwound(self.frames@, k) == unwound(old(self).frames@, k),
                self.functions == old(self).functions,
                self.done == old(self).done,
            decreases self.frames@.len(),
        {
            match self.frames.pop() {
                None => {
                    return Request::Continue;
                },
                Some(f) => {
                    match f {
                        Frame::Scope => {
                            self.pop_env();
                        },
                        Frame::CallEnd => {
                            self.pop_env();
                            let v = match sig {
                                Signal::Return(v) => v,
                                _ => Value::Nil,
                            };
                            self.values.push(v);
                            return Request::Continue;
                        },
                        Frame::MainEnd => {
                            self.pop_env();
                            return Request::Continue;
                        },
                        Frame::WhileLoop { cond, body } => {
                            match sig {
                                Signal::Break => {
                                    return Request::Continue;
                                },
                                Signal::Continue => {
                                    self.frames.push(Frame::WhileLoop { cond, body });
                                    return Request::Continue;
                                },
                                Signal::Return(_) => {},
                            }
                        },
                        Frame::LoopIter { var, items, next, body } => {
                            match sig {
                                Signal::Break => {
                                    return Request::Continue;
                                },
                                Signal::Continue => {
                                    self.frames.push(Frame::LoopIter { var, items, next, body });
                                    return Request::Continue;
                                },
                                Signal::Return(_) => {},
                            }
                        },
                        _ => {},
                    }
                },
            }
        }
    }

    /// Pushes the frames that evaluate `es`, the first on top.
    fn push_evals(&mut self, es: Vec<Expr>)
        ensures
            final(self).globals == old(self).globals,
            final(self).envs@ == old(self).envs@,
            final(self).functions == old(self).functions,
            final(self).done == old(self).done,
            final(self).frames@ == old(self).frames@ + evals(es@),
    {
        let mut es = es;
        let ghost all = es@;
        while es.len() > 0
            invariant
                self.globals == old(self).globals,
                self.envs@ == old(self).envs@,
                self.functions == old(self).functions,
                self.done == old(self).done,
                es@.len() <= all.len(),
                es@ == all.subrange(0, es@.len() as int),
                self.frames@ == old(self).frames@ + evals(all.subrange(es@.len() as int, all.len() as int)),
            decreases es.len(),
        {
            let ghost n = es@.len();
            let ghost before = es@;
            let e = es.pop().unwrap();
            proof {
                assert(before[n - 1] == all[n - 1]);
                assert(e == all[n - 1]);
                let done_part = all.subrange(n as int, all.len() as int);
                let more = all.subrange(n - 1, all.len() as int);
                assert(more.reverse() =~= done_part.reverse().push(e));
                assert(evals(more) =~= evals(done_part).push(Frame::Eval(e)));
            }
            self.frames.push(Frame::Eval(e));
            proof {
                assert(es@ =~= all.subrange(0, es@.len() as int));
            }
        }
        proof {
            assert(all.subrange(0, all.len() as int) =~= all);
        }
    }

    fn run_frame(&mut self, frame: Frame) -> (r: Request)
        requires
            old(self).wf(),
        ensures
            final(self).wf(),
            frame matches Frame::Block { todo } ==> (todo@.len() == 0 ==> final(self).frames@
                == old(self).frames@ && r == Request::Continue),
            frame matches Frame::Block { todo } ==> (todo@.len() > 0 ==> final(self).finished()
                || next_in_block(old(self).frames@, todo@, final(self).frames@)),
            frame matches Frame::IfThen { then_body, else_body } ==> (old(self).values@.len() > 0 ==> (
            truthy(old(self).values@.last()) ==> branch_started(
                old(self).frames@,
                then_body@,
                final(self).frames@,
            )) && (!truthy(old(self).values@.last()) ==> (else_body matches Some(eb) ==> branch_started(
                old(self).frames@,
                eb@,
                final(self).frames@,
            )) && (else_body is None ==> final(self).frames@ == old(self).frames@))),
            frame matches Frame::WhileTest { cond, body } ==> (old(self).values@.len() > 0 ==> (
            !truthy(old(self).values@.last()) ==> final(self).frames@ == old(self).frames@) && (
            truthy(old(self).values@.last()) ==> final(self).frames@.len() == old(self).frames@.len() + 2
                && final(self).frames@.drop_last() == old(self).frames@.push(
                Frame::WhileLoop { cond, body },
            ) && final(self).frames@.last() is Block)),
            frame matches Frame::Index ==> (old(self).values@.len() >= 2 ==> index_outcome(
                old(self).values@[old(self).values@.len() - 2],
                old(self).values@.last(),
                old(self).values@.drop_last().drop_last(),
                final(self).values@,
                final(self).done,
                r,
            ) && final(self).frames@ == old(self).frames@),
            frame matches Frame::Un(op) ==> (old(self).values@.len() > 0 ==> unary_outcome(
                op,
                old(self).values@.last(),
                old(self).values@.drop_last(),
                final(self).values@,
                final(self).done,
                r,
            ) && final(self).frames@ == old(self).frames@),
            frame matches Frame::MakeRange ==> (old(self).values@.len() >= 2 ==> range_outcome(
                old(self).values@[old(self).values@.len() - 2],
                old(self).values@.last(),
                old(self).values@.drop_last().drop_last(),
                final(self).values@,
                final(self).done,
                r,
            ) && final(self).frames@ == old(self).frames@),
            frame matches Frame::Cast(to) ==> (old(self).values@.len() > 0 ==> cast_outcome(
                old(self).values@.last(),
                to,
                old(self).values@.drop_last(),
                final(self).values@,
                r,
            ) && final(self).frames@ == old(self).frames@),
            frame matches Frame::MakeArray(n) ==> (old(self).values@.len() >= n ==> r == Request::Continue
                && final(self).frames@ == old(self).frames@ && final(self).values@.len() == old(self).values@.len() - n + 1
                && final(self).values@.drop_last() == old(self).values@.subrange(0, old(self).values@.len() - n)
                && (final(self).values@.last() matches Value::Array(items) && items@ == old(self).values@.subrange(
                old(self).values@.len() - n,
                old(self).values@.len() as int,
            ))),
            frame matches Frame::Print(n) ==> (old(self).values@.len() >= n && all_scalar(
                old(self).values@.subrange(old(self).values@.len() - n, old(self).values@.len() as int),
            ) ==> (r matches Request::Print(line) && line@ == join_text(
                shown_all(old(self).values@.subrange(old(self).values@.len() - n, old(self).values@.len() as int)),
                " "@,
            ))),
            frame matches Frame::Bin(op) ==> (old(self).values@.len() >= 2 ==> binary_outcome(
                op,
                old(self).values@[old(self).values@.len() - 2],
                old(self).values@.last(),
                old(self).values@.drop_last().drop_last(),
                final(self).values@,
                final(self).done,
                r,
            ) && final(self).frames@ == old(self).frames@),
            frame matches Frame::Top { next, second } ==> (next >= old(self).items@.len() ==> (second
                ==> final(self).frames@ == old(self).frames@) && (!second ==> (!declares_name(
                old(self).functions@,
                "main"@,
            ) ==> final(self).frames@ == old(self).frames@.push(Frame::Top { next: 0, second: true }))
                && (declares_name(old(self).functions@, "main"@) ==> final(self).frames@.len()
                == old(self).frames@.len() + 2 && final(self).frames@.drop_last()
                == old(self).frames@.push(Frame::MainEnd) && final(self).frames@.last() is Block))),
            frame matches Frame::CallWith { name, argc, .. } ==> (old(self).values@.len() >= argc
                ==> builtin_outcome(
                name@,
                old(self).values@.subrange(old(self).values@.len() - argc, old(self).values@.len() as int),
                old(self).values@.subrange(0, old(self).values@.len() - argc),
                final(self).values@,
                final(self).done,
                r,
            )),
            frame matches Frame::CallWith { name, argc, first } ==> (old(self).values@.len() >= argc
                ==> writes_back(
                name@,
                old(self).values@.subrange(old(self).values@.len() - argc, old(self).values@.len() as int),
                first,
                old(self).scope(),
                final(self).scope(),
                r,
            )),
            frame matches Frame::CallWith { name, argc, .. } ==> (!is_builtin_name(name@)
                && declares_name(old(self).functions@, name@) && only_arity(
                old(self).functions@,
                name@,
                argc as nat,
            ) ==> binds_params(old(self).functions@, name@, final(self).scope()) && final(self).envs@.len()
                == old(self).envs@.len() + 1 && r == Request::Continue && final(self).done == old(self).done && final(self).frames@.len()
                == old(self).frames@.len() + 2 && final(self).frames@.drop_last() == old(self).frames@.push(
                Frame::CallEnd,
            ) && final(self).frames@.last() is Block),
            frame matches Frame::LoopIter { var, items, next, body } ==> (next >= items@.len() ==> final(self).frames@ == old(self).frames@ && r == Request::Continue) && (next < items@.len() ==> r
                == Request::Continue && final(self).frames@.len() == old(self).frames@.len() + 2
                && final(self).frames@.drop_last() == old(self).frames@.push(
                Frame::LoopIter { var, items, next: (next + 1) as usize, body },
            ) && final(self).frames@.last() is Block && bound_in(old(self).scope(), var@, final(self).scope())),
            frame matches Frame::Scope ==> final(self).frames@ == old(self).frames@ && final(self).envs@
                == (if old(self).envs@.len() > 0 { old(self).envs@.drop_last() } else { old(self).envs@ }),
            frame matches Frame::CallEnd ==> final(self).frames@ == old(self).frames@ && final(self).envs@
                == (if old(self).envs@.len() > 0 { old(self).envs@.drop_last() } else { old(self).envs@ })
                && final(self).values@ == old(self).values@.push(Value::Nil),
            frame matches Frame::AssignIndex(name) ==> (old(self).values@.len() >= 2 ==> assign_index_outcome(
                crate::env::lookup(old(self).scope(), name@),
                old(self).values@.last(),
                old(self).values@[old(self).values@.len() - 2],
                name@,
                old(self).scope(),
                final(self).scope(),
                final(self).done,
                r,
            ) && final(self).frames@ == old(self).frames@),
            frame matches Frame::Define(name) ==> (old(self).values@.len() > 0 ==> final(self).scope()
                == old(self).scope().update(0, old(self).scope()[0].insert(name@, old(self).values@.last()))
                && final(self).frames@ == old(self).frames@ && r == Request::Continue),
            frame matches Frame::Return ==> (old(self).values@.len() > 0 ==> final(self).frames@
                == unwound(old(self).frames@, Leave::Return) && r == Request::Continue),
            frame matches Frame::CallWith { name, argc, .. } ==> (!is_builtin_name(name@)
                && declares_name(old(self).functions@, name@) && !declares_arity(
                old(self).functions@,
                name@,
                argc as nat,
            ) ==> final(self).finished() && final(self).frames@ == old(self).frames@
                && r matches Request::Done(Err(_))),
            frame matches Frame::AssignTo(Expr::Field { object, .. }) ==> (*object matches Expr::Ident(name)
                ==> (old(self).values@.len() > 0 ==> field_assign_outcome(
                crate::env::lookup(old(self).scope(), name@),
                name@,
                old(self).scope(),
                final(self).scope(),
                final(self).done,
                r,
            ) && final(self).frames@ == old(self).frames@)),
            frame matches Frame::AssignTo(Expr::Ident(name)) ==> (old(self).values@.len() > 0
                ==> final(self).scope() == crate::env::assign(
                old(self).scope(),
                name@,
                old(self).values@.last(),
            ) && final(self).frames@ == old(self).frames@ && r == Request::Continue),
    {
        match frame {
            Frame::Top { next, second } => self.run_top(next, second),
            Frame::GlobalDefine(name) => {
                let v = self.pop_value();
                self.pop_env();
                self.globals.define(name.as_str(), v);
                Request::Continue
            },
            Frame::Block { todo } => {
                let mut todo = todo;
                match todo.pop() {
                    None => Request::Continue,
                    Some(s) => {
                        self.frames.push(Frame::Block { todo });
                        self.start_stmt(s)
                    },
                }
            },
            Frame::Scope => {
                self.pop_env();
                Request::Continue
            },
            Frame::CallEnd => {
                self.pop_env();
                self.values.push(Value::Nil);
                Request::Continue
            },
            Frame::MainEnd => {
                self.pop_env();
                Request::Continue
            },
            Frame::WhileLoop { cond, body } => {
                let c = cond.clone();
                self.frames.push(Frame::WhileTest { cond, body });
                self.frames.push(Frame::Eval(c));
                Request::Continue
            },
            Frame::WhileTest { cond, body } => {
                let v = self.pop_value();
                if to_bool(&v) {
                    let b = body.clone();
                    self.frames.push(Frame::WhileLoop { cond, body });
                    self.frames.push(Frame::Block { todo: reversed(b) });
                }
                Request::Continue
            },
            Frame::LoopStart { var, body } => {
                let v = self.pop_value();
                match v {
                    Value::Array(items) => {
                        self.frames.push(Frame::LoopIter { var, items, next: 0, body });
                        Request::Continue
                    },
                    _ => self.fail(string_of("Loop range must be an array or a..b range")),
                }
            },
            Frame::LoopIter { var, items, next, body } => {
                if next < items.len() {
                    let item = copy_value(&items[next]);
                    let ghost bound = item;
                    self.define_current(var.as_str(), item);
                    assert(self.scope() == old(self).scope().update(0, old(self).scope()[0].insert(var@, bound)));
                    let b = body.clone();
                    self.frames.push(Frame::LoopIter { var, items, next: next + 1, body });
                    self.frames.push(Frame::Block { todo: reversed(b) });
                }
                Request::Continue
            },
            Frame::Eval(e) => self.start_expr(e),
            Frame::Bin(op) => {
                let r = self.pop_value();
                let l = self.pop_value();
                self.binary(op, l, r)
            },
            Frame::Un(op) => {
                let v = self.pop_value();
                match op {
                    UnOp::Neg => match v {
                        Value::Int(n) => {
                            if n == i64::MIN {
                                Request::Panic(string_of("attempt to negate with overflow"))
                            } else {
                                self.values.push(Value::Int(-n));
                                Request::Continue
                            }
                        },
                        Value::Float { .. } => self.ask(Request::FloatNeg(v)),
                        _ => {
                            let k = kind_name(&v);
                            self.fail(text2("Cannot negate ", k.as_str()))
                        },
                    },
                    UnOp::Not => {
                        let b = to_bool(&v);
                        self.values.push(Value::Bool(!b));
                        Request::Continue
                    },
                }
            },
            Frame::CallWith { name, argc, first } => {
                let args = self.pop_values(argc);
                self.call(name, args, first)
            },
            Frame::Index => {
                let idx = self.pop_value();
                let arr = self.pop_value();
                match (arr, idx) {
                    (Value::Array(v), Value::Int(i)) => {
                        if 0 <= i && (i as u64) < (v.len() as u64) {
                            let mut v = v;
                            let item = v.remove(i as usize);
                            self.values.push(item);
                            Request::Continue
                        } else {
                            let t = int_to_text(i);
                            self.fail(text3("Index ", t.as_str(), " out of bounds"))
                        }
                    },
                    (Value::Str(s), Value::Int(i)) => match char_at_index(s.as_str(), i) {
                        Some(c) => {
                            let mut t = String::new();
                            push_char(&mut t, c);
                            let ghost u = t;
                            self.values.push(Value::Str(t));
                            assert(self.values@.last() == Value::Str(u));
                            assert(u@ =~= seq![c]);
                            proof {
                                if old(self).values@.len() >= 2 {
                                    assert(self.values@.drop_last() =~= old(self).values@.drop_last().drop_last());
                                }
                            }
                            Request::Continue
                        },
                        None => {
                            let t = int_to_text(i);
                            self.fail(text3("String index ", t.as_str(), " out of bounds"))
                        },
                    },
                    _ => self.fail(string_of("Invalid index operation")),
                }
            },
            Frame::Field(field) => {
                let obj = self.pop_value();
                match obj {
                    Value::Struct { fields, .. } => match get_field(&fields, field.as_str()) {
                        Some(v) => {
                            self.values.push(v);
                            Request::Continue
                        },
                        None => self.fail(text3("No field '", field.as_str(), "'")),
                    },
                    _ => {
                        let k = kind_name(&obj);
                        self.fail(text2("Field access on non-struct: ", k.as_str()))
                    },
                }
            },
            Frame::MakeArray(n) => {
                let items = self.pop_values(n);
                let ghost made = items;
                self.values.push(Value::Array(items));
                proof {
                    assert(self.values@.last() == Value::Array(made));
                }
                Request::Continue
            },
            Frame::MakeRange => {
                let e = self.pop_value();
                let s = self.pop_value();
                match (s, e) {
                    (Value::Int(a), Value::Int(b)) => {
                        let ns = range_values(a, b);
                        let mut items: Vec<Value> = Vec::new();
                        let mut k: usize = 0;
                        while k < ns.len()
                            invariant
                                k <= ns.len(),
                                items@.len() == k,
                                forall|j: int| 0 <= j < k ==> #[trigger] items@[j] == Value::Int(ns@[j]),
                            decreases ns.len() - k,
                        {
                            items.push(Value::Int(ns[k]));
                            k = k + 1;
                        }
                        let ghost made = items;
                        self.values.push(Value::Array(items));
                        proof {
                            assert(self.values@.last() == Value::Array(made));
                            if old(self).values@.len() >= 2 {
                                assert(self.values@.drop_last() =~= old(self).values@.drop_last().drop_last());
                            }
                        }
                        Request::Continue
                    },
                    _ => self.fail(string_of("Range start and end must be integers")),
                }
            },
            Frame::MakeStruct { name, fields } => {
                let vals = self.pop_values(fields.len());
                let mut fs: Vec<(String, Value)> = Vec::new();
                let mut k: usize = 0;
                while k < fields.len() && k < vals.len()
                    decreases fields.len() - k,
                {
                    set_field(&mut fs, fields[k].as_str(), copy_value(&vals[k]));
                    k = k + 1;
                }
                self.values.push(Value::Struct { name, fields: fs });
                Request::Continue
            },
            Frame::Cast(to) => {
                let v = self.pop_value();
                match (v, to) {
                    (Value::Int(n), Type::Float) => self.ask(Request::ToFloat(n)),
                    (Value::Float { bits, shown, plain }, Type::Int) => self.ask(
                        Request::ToInt(Value::Float { bits, shown, plain }),
                    ),
                    (Value::Int(n), Type::Str) => {
                        let t = int_to_text(n);
                        let ghost u = t;
                        self.values.push(Value::Str(t));
                        proof {
                            assert(self.values@.last() == Value::Str(u));
                            if old(self).values@.len() > 0 {
                                assert(self.values@.drop_last() =~= old(self).values@.drop_last());
                            }
                        }
                        Request::Continue
                    },
                    (Value::Float { plain, .. }, Type::Str) => {
                        let ghost u = plain;
                        self.values.push(Value::Str(plain));
                        proof {
                            assert(self.values@.last() == Value::Str(u));
                            if old(self).values@.len() > 0 {
                                assert(self.values@.drop_last() =~= old(self).values@.drop_last());
                            }
                        }
                        Request::Continue
                    },
                    (Value::Str(s), Type::Int) => {
                        self.values.push(Value::Int(parse_int_or_zero(s.as_str())));
                        Request::Continue
                    },
                    (Value::Bool(b), Type::Int) => {
                        self.values.push(Value::Int(if b { 1 } else { 0 }));
                        Request::Continue
                    },
                    (v, _) => {
                        self.values.push(v);
                        Request::Continue
                    },
                }
            },
            Frame::MakeRef => {
                let v = self.pop_value();
                self.ask(Request::NewPtr(v))
            },
            Frame::Deref => {
                let v = self.pop_value();
                match v {
                    Value::Ptr(h) => self.ask(Request::PtrGet(h)),
                    _ => {
                        let k = kind_name(&v);
                        self.fail(text2("Cannot dereference non-pointer: ", k.as_str()))
                    },
                }
            },
            Frame::RawMem => {
                let v = self.pop_value();
                let d = display(&v);
                self.ask(Request::Eprint(text2(
                    "[raw_mem] Direct memory access only in --release mode. addr=",
                    d.as_str(),
                )))
            },
            Frame::Recv => {
                let v = self.pop_value();
                match v {
                    Value::Chan(h) => self.ask(Request::Recv(h)),
                    _ => self.fail(string_of("recv requires a channel")),
                }
            },
            Frame::Discard => {
                self.pop_value();
                Request::Continue
            },
            Frame::Define(name) => {
                let v = self.pop_value();
                self.define_current(name.as_str(), v);
                Request::Continue
            },
            Frame::AssignTo(target) => self.assign(target),
            Frame::AssignIndex(name) => {
                let idx = self.pop_value();
                let val = self.pop_value();
                match self.get_current(name.as_str()) {
                    Some(Value::Array(mut arr)) => match idx {
                        Value::Int(i) => {
                            let u: u64 = i as u64;
                            if u < (arr.len() as u64) {
                                arr.set(u as usize, val);
                                self.set_current(name.as_str(), Value::Array(arr));
                                Request::Continue
                            } else {
                                let mut m = string_of("Index ");
                                let t = index_text(u);
                                push_text(&mut m, t.as_str());
                                push_text(&mut m, " out of bounds (len ");
                                let l = index_text(arr.len() as u64);
                                push_text(&mut m, l.as_str());
                                push_text(&mut m, ")");
                                self.fail(m)
                            }
                        },
                        _ => self.fail(string_of("Array index must be int")),
                    },
                    _ => self.fail(text3("'", name.as_str(), "' is not an array")),
                }
            },
            Frame::AssignDeref => {
                let p = self.pop_value();
                let val = self.pop_value();
                match p {
                    Value::Ptr(h) => {
                        self.frames.push(Frame::Discard);
                        self.ask(Request::PtrSet(h, val))
                    },
                    _ => self.fail(string_of("Dereference of non-pointer")),
                }
            },
            Frame::IfThen { then_body, else_body } => {
                let c = self.pop_value();
                if to_bool(&c) {
                    self.enter_copy_of_current();
                    self.frames.push(Frame::Scope);
                    self.frames.push(Frame::Block { todo: reversed(then_body) });
                } else {
                    match else_body {
                        Some(eb) => {
                            self.enter_copy_of_current();
                            self.frames.push(Frame::Scope);
                            self.frames.push(Frame::Block { todo: reversed(eb) });
                        },
                        None => {},
                    }
                }
                Request::Continue
            },
            Frame::Return => {
                let v = self.pop_value();
                self.unwind(Signal::Return(v))
            },
            Frame::ExecStmt => {
                let v = self.pop_value();
                self.frames.push(Frame::Define(string_of("__exit__")));
                self.ask(Request::ExecStatus(display(&v)))
            },
            Frame::Print(n) => {
                let vals = self.pop_values(n);
                let parts = display_all(&vals);
                proof {
                    if all_scalar(vals@) {
                        assert(texts_view(parts@) =~= shown_all(vals@));
                    }
                }
                self.frames.push(Frame::Discard);
                self.ask(Request::Print(join(&parts, " ")))
            },
            Frame::Go { name, argc } => {
                let args = self.pop_values(argc);
                self.frames.push(Frame::Discard);
                self.ask(Request::Spawn { name, args })
            },
            Frame::SendOp => {
                let val = self.pop_value();
                let ch = self.pop_value();
                match ch {
                    Value::Chan(h) => {
                        self.frames.push(Frame::Discard);
                        self.ask(Request::Send(h, val))
                    },
                    _ => self.fail(string_of("send() requires a channel value")),
                }
            },
        }
    }

    /// The top-level items, in order: functions and methods are registered
    /// (a method as `Type::name`), a global is evaluated in a copy of the
    /// globals and then bound. Then `main` runs in a scope inside a copy of
    /// the globals; without `main`, the globals are evaluated a second time.
    fn run_top(&mut self, next: usize, second: bool) -> (r: Request)
        requires
            old(self).wf(),
        ensures
            final(self).wf(),
            next >= old(self).items@.len() ==> r == Request::Continue && final(self).items
                == old(self).items && (second ==> final(self).frames@ == old(self).frames@) && (!second
                ==> (!declares_name(old(self).functions@, "main"@) ==> final(self).frames@
                == old(self).frames@.push(Frame::Top { next: 0, second: true })) && (declares_name(
                old(self).functions@,
                "main"@,
            ) ==> final(self).frames@.len() == old(self).frames@.len() + 2
                && final(self).frames@.drop_last() == old(self).frames@.push(Frame::MainEnd)
                && final(self).frames@.last() is Block)),
    {
        if next >= self.items.len() {
            if !second {
                match find_function(&self.functions, "main") {
                    Some(i) => {
                        let body = self.functions[i].body.clone();
                        let e = Env::child(self.globals.clone());
                        self.push_env(e);
                        self.frames.push(Frame::MainEnd);
                        self.frames.push(Frame::Block { todo: reversed(body) });
                        assert(self.frames@.drop_last() =~= old(self).frames@.push(Frame::MainEnd));
                    },
                    None => {
                        self.frames.push(Frame::Top { next: 0, second: true });
                    },
                }
            }
            return Request::Continue;
        }
        self.frames.push(Frame::Top { next: next + 1, second });
        let item = self.items[next].clone();
        match item {
            TopLevel::Function(f) => {
                if !second {
                    register(&mut self.functions, f);
                }
            },
            TopLevel::Impl(i) => {
                if !second {
                    let mut k: usize = 0;
                    while k < i.methods.len()
                        invariant
                            self.wf(),
                        decreases i.methods.len() - k,
                    {
                        let mut m = i.methods[k].clone();
                        let mut full = i.target.clone();
                        push_text(&mut full, "::");
                        push_text(&mut full, m.name.as_str());
                        m.name = full;
                        register(&mut self.functions, m);
                        k = k + 1;
                    }
                }
            },
            TopLevel::GlobalVar { name, value, .. } => {
                let e = self.globals.clone();
                self.push_env(e);
                self.frames.push(Frame::GlobalDefine(name));
                self.frames.push(Frame::Eval(value));
            },
            _ => {},
        }
        Request::Continue
    }

    /// Starts a statement; its frames come after the rest of the block's.
    fn start_stmt(&mut self, s: Stmt) -> (r: Request)
        requires
            old(self).wf(),
        ensures
            final(self).wf(),
            final(self).finished() || final(self).frames@ == started(old(self).frames@, s),
            final(self).functions == old(self).functions,
    {
        match s {
            Stmt::Expr(e) => {
                self.frames.push(Frame::Discard);
                self.frames.push(Frame::Eval(e));
                Request::Continue
            },
            Stmt::Let { name, value, .. } => {
                self.frames.push(Frame::Define(name));
                self.frames.push(Frame::Eval(value));
                Request::Continue
            },
            Stmt::Assign { target, value } => {
                self.frames.push(Frame::AssignTo(target));
                self.frames.push(Frame::Eval(value));
                Request::Continue
            },
            Stmt::If { cond, then_body, else_body } => {
                self.frames.push(Frame::IfThen { then_body, else_body });
                self.frames.push(Frame::Eval(cond));
                Request::Continue
            },
            Stmt::While { cond, body } => {
                self.frames.push(Frame::WhileLoop { cond, body });
                Request::Continue
            },
            Stmt::Loop { var, range, body } => {
                self.frames.push(Frame::LoopStart { var, body });
                self.frames.push(Frame::Eval(range));
                Request::Continue
            },
            Stmt::Return(e) => match e {
                Some(x) => {
                    self.frames.push(Frame::Return);
                    self.frames.push(Frame::Eval(x));
                    Request::Continue
                },
                None => self.unwind(Signal::Return(Value::Nil)),
            },
            Stmt::Exec(e) => {
                self.frames.push(Frame::ExecStmt);
                self.frames.push(Frame::Eval(e));
                Request::Continue
            },
            Stmt::Print(args) => {
                self.frames.push(Frame::Print(args.len()));
                self.push_evals(args);
                Request::Continue
            },
            Stmt::Go(call) => match call {
                Expr::Call { name, args } => {
                    if find_function(&self.functions, name.as_str()).is_none() {
                        return self.fail(text3("Unknown function '", name.as_str(), "' in go statement"));
                    }
                    self.frames.push(Frame::Go { name, argc: args.len() });
                    self.push_evals(args);
                    Request::Continue
                },
                _ => Request::Continue,
            },
            Stmt::Send { chan, value } => {
                self.frames.push(Frame::SendOp);
                self.frames.push(Frame::Eval(value));
                self.frames.push(Frame::Eval(chan));
                Request::Continue
            },
            Stmt::Asm(raw) => {
                self.frames.push(Frame::Discard);
                self.ask(Request::Eprint(text2(
                    "[asm] Inline assembly only available in --release mode: ",
                    raw.as_str(),
                )))
            },
            Stmt::PtrDecl { name, expr } => {
                self.frames.push(Frame::Define(name));
                self.frames.push(Frame::MakeRef);
                self.frames.push(Frame::Eval(expr));
                Request::Continue
            },
            Stmt::Break => self.unwind(Signal::Break),
            Stmt::Continue => self.unwind(Signal::Continue),
        }
    }

    /// Starts evaluating an expression; its value will be pushed.
    fn start_expr(&mut self, e: Expr) -> (r: Request)
        requires
            old(self).wf(),
        ensures
            final(self).wf(),
    {
        match e {
            Expr::Int(n) => {
                self.values.push(Value::Int(n));
                Request::Continue
            },
            Expr::Float(text) => self.ask(Request::ParseFloat(text)),
            Expr::Str(s) => {
                self.values.push(Value::Str(s));
                Request::Continue
            },
            Expr::Bool(b) => {
                self.values.push(Value::Bool(b));
                Request::Continue
            },
            Expr::Nil => {
                self.values.push(Value::Nil);
                Request::Continue
            },
            Expr::Ident(name) => match self.lookup(name.as_str()) {
                Some(v) => {
                    self.values.push(v);
                    Request::Continue
                },
                None => self.fail(text3("Undefined variable '", name.as_str(), "'")),
            },
            Expr::Binary { op, left, right } => {
                self.frames.push(Frame::Bin(op));
                self.frames.push(Frame::Eval(*right));
                self.frames.push(Frame::Eval(*left));
                Request::Continue
            },
            Expr::Unary { op, expr } => {
                self.frames.push(Frame::Un(op));
                self.frames.push(Frame::Eval(*expr));
                Request::Continue
            },
            Expr::Call { name, args } => {
                let first = if args.len() > 0 {
                    match &args[0] {
                        Expr::Ident(n) => Some(n.clone()),
                        _ => None,
                    }
                } else {
                    None
                };
                self.frames.push(Frame::CallWith { name, argc: args.len(), first });
                self.push_evals(args);
                Request::Continue
            },
            Expr::Index { array, index } => {
                self.frames.push(Frame::Index);
                self.frames.push(Frame::Eval(*index));
                self.frames.push(Frame::Eval(*array));
                Request::Continue
            },
            Expr::Field { object, field } => {
                self.frames.push(Frame::Field(field));
                self.frames.push(Frame::Eval(*object));
                Request::Continue
            },
            Expr::Ref(x) => {
                self.frames.push(Frame::MakeRef);
                self.frames.push(Frame::Eval(*x));
                Request::Continue
            },
            Expr::Deref(x) => {
                self.frames.push(Frame::Deref);
                self.frames.push(Frame::Eval(*x));
                Request::Continue
            },
            Expr::RawMem(x) => {
                self.frames.push(Frame::RawMem);
                self.frames.push(Frame::Eval(*x));
                Request::Continue
            },
            Expr::MakeChan(_) => self.ask(Request::NewChan),
            Expr::ChanRecv(x) => {
                self.frames.push(Frame::Recv);
                self.frames.push(Frame::Eval(*x));
                Request::Continue
            },
            Expr::StructInit { name, fields } => {
                let mut names: Vec<String> = Vec::new();
                let mut exprs: Vec<Expr> = Vec::new();
                let mut k: usize = 0;
                while k < fields.len()
                    invariant
                        k <= fields.len(),
                    decreases fields.len() - k,
                {
                    names.push(fields[k].0.clone());
                    exprs.push(fields[k].1.clone());
                    k = k + 1;
                }
                self.frames.push(Frame::MakeStruct { name, fields: names });
                self.push_evals(exprs);
                Request::Continue
            },
            Expr::Range { start, end } => {
                self.frames.push(Frame::MakeRange);
                self.frames.push(Frame::Eval(*end));
                self.frames.push(Frame::Eval(*start));
                Request::Continue
            },
            Expr::Array(items) => {
                self.frames.push(Frame::MakeArray(items.len()));
                self.push_evals(items);
                Request::Continue
            },
            Expr::Cast { expr, to } => {
                self.frames.push(Frame::Cast(to));
                self.frames.push(Frame::Eval(*expr));
                Request::Continue
            },
        }
    }

    /// An assignment whose value is on the stack.
    fn assign(&mut self, target: Expr) -> (r: Request)
        requires
            old(self).wf(),
        ensures
            final(self).wf(),
            target matches Expr::Field { object, .. } ==> (*object matches Expr::Ident(name) ==> (
            old(self).values@.len() > 0 ==> field_assign_outcome(
                crate::env::lookup(old(self).scope(), name@),
                name@,
                old(self).scope(),
                final(self).scope(),
                final(self).done,
                r,
            ) && final(self).frames@ == old(self).frames@)),
            target matches Expr::Ident(name) ==> (old(self).values@.len() > 0 ==> final(self).scope()
                == crate::env::assign(old(self).scope(), name@, old(self).values@.last())
                && final(self).frames@ == old(self).frames@ && r == Request::Continue
                && final(self).done == old(self).done),
    {
        match target {
            Expr::Ident(name) => {
                let v = self.pop_value();
                self.set_current(name.as_str(), v);
                Request::Continue
            },
            Expr::Index { array, index } => match *array {
                Expr::Ident(name) => {
                    self.frames.push(Frame::AssignIndex(name));
                    self.frames.push(Frame::Eval(*index));
                    Request::Continue
                },
                _ => self.fail(string_of("Complex index assignment not supported")),
            },
            Expr::Deref(p) => {
                self.frames.push(Frame::AssignDeref);
                self.frames.push(Frame::Eval(*p));
                Request::Continue
            },
            Expr::Field { object, field } => match *object {
                Expr::Ident(name) => {
                    let v = self.pop_value();
                    match self.get_current(name.as_str()) {
                        Some(Value::Struct { name: sname, mut fields }) => {
                            set_field(&mut fields, field.as_str(), v);
                            self.set_current(name.as_str(), Value::Struct { name: sname, fields });
                            Request::Continue
                        },
                        _ => self.fail(text3("'", name.as_str(), "' is not a struct")),
                    }
                },
                _ => self.fail(string_of("Complex field assignment not supported")),
            },
            _ => self.fail(string_of("Invalid assignment target")),
        }
    }

    /// A binary operator on two values; a float operand makes it the host's.
    fn binary(&mut self, op: BinOp, l: Value, r: Value) -> (out: Request)
        requires
            old(self).wf(),
        ensures
            final(self).wf(),
            final(self).frames@ == old(self).frames@,
            binary_outcome(op, l, r, old(self).values@, final(self).values@, final(self).done, out),
    {
        if let (Value::Int(a), Value::Int(b)) = (&l, &r) {
            let a = *a;
            let b = *b;
            let overflow = match op {
                BinOp::Add => a.checked_add(b).is_none(),
                BinOp::Sub => a.checked_sub(b).is_none(),
                BinOp::Mul => a.checked_mul(b).is_none(),
                BinOp::Div | BinOp::Mod => a == i64::MIN && b == -1,
                _ => false,
            };
            if overflow {
                return Request::Panic(string_of("attempt to compute with overflow"));
            }
            return match int_binary(op, a, b) {
                Ok(IntOutcome::Int(n)) => {
                    self.values.push(Value::Int(n));
                    Request::Continue
                },
                Ok(IntOutcome::Bool(x)) => {
                    self.values.push(Value::Bool(x));
                    Request::Continue
                },
                Err(ArithError::DivisionByZero) => self.fail(string_of("Division by zero")),
                Err(ArithError::ModuloByZero) => self.fail(string_of("Modulo by zero")),
            };
        }
        let numbers = is_number(&l) && is_number(&r) && (is_float(&l) || is_float(&r));
        match op {
            BinOp::Add => {
                if numbers {
                    return self.ask(Request::FloatBinary { op, left: l, right: r });
                }
                match (l, r) {
                    (Value::Str(a), Value::Str(b)) => {
                        let t = text2(a.as_str(), b.as_str());
                        let ghost joined = t;
                        self.values.push(Value::Str(t));
                        assert(self.values@.last() == Value::Str(joined));
                        assert(self.values@.drop_last() =~= old(self).values@);
                        Request::Continue
                    },
                    (Value::Str(a), b) => {
                        let d = display(&b);
                        self.values.push(Value::Str(text2(a.as_str(), d.as_str())));
                        Request::Continue
                    },
                    (a, b) => {
                        let ka = kind_name(&a);
                        let kb = kind_name(&b);
                        let mut m = text3("Cannot add ", ka.as_str(), " and ");
                        push_text(&mut m, kb.as_str());
                        self.fail(m)
                    },
                }
            },
            BinOp::Sub => {
                if numbers {
                    return self.ask(Request::FloatBinary { op, left: l, right: r });
                }
                let ka = kind_name(&l);
                let kb = kind_name(&r);
                let mut m = text3("Cannot subtract ", kb.as_str(), " from ");
                push_text(&mut m, ka.as_str());
                self.fail(m)
            },
            BinOp::Mul => {
                if numbers {
                    return self.ask(Request::FloatBinary { op, left: l, right: r });
                }
                self.fail(string_of("Cannot multiply these types"))
            },
            BinOp::Div => {
                if let Value::Int(0) = r {
                    return self.fail(string_of("Division by zero"));
                }
                if numbers {
                    return self.ask(Request::FloatBinary { op, left: l, right: r });
                }
                self.fail(string_of("Cannot divide these types"))
            },
            BinOp::Mod => self.fail(string_of("Modulo requires integers")),
            BinOp::Eq | BinOp::Ne => {
                let e = values_eq(&l, &r);
                self.values.push(Value::Bool(if op == BinOp::Eq { e } else { !e }));
                Request::Continue
            },
            BinOp::Lt | BinOp::Gt | BinOp::Le | BinOp::Ge => match (l, r) {
                (Value::Float { bits: b1, shown: s1, plain: p1 }, Value::Float { bits: b2, shown: s2, plain: p2 }) => self.ask(
                    Request::FloatBinary {
                        op,
                        left: Value::Float { bits: b1, shown: s1, plain: p1 },
                        right: Value::Float { bits: b2, shown: s2, plain: p2 },
                    },
                ),
                (Value::Str(x), Value::Str(y)) => {
                    let c = compare_text(x.as_str(), y.as_str());
                    let b = match op {
                        BinOp::Lt => c < 0,
                        BinOp::Gt => c > 0,
                        BinOp::Le => c <= 0,
                        _ => c >= 0,
                    };
                    self.values.push(Value::Bool(b));
                    Request::Continue
                },
                (a, b) => {
                    let ka = kind_name(&a);
                    let kb = kind_name(&b);
                    let mut m = text3("Cannot compare ", ka.as_str(), " and ");
                    push_text(&mut m, kb.as_str());
                    self.fail(m)
                },
            },
            BinOp::And => {
                let x = to_bool(&l) && to_bool(&r);
                self.values.push(Value::Bool(x));
                Request::Continue
            },
            BinOp::Or => {
                let x = to_bool(&l) || to_bool(&r);
                self.values.push(Value::Bool(x));
                Request::Continue
            },
        }
    }

    /// A call whose arguments are evaluated: a built-in function by name,
    /// else a declared function.
    fn call(&mut self, name: String, args: Vec<Value>, first: Option<String>) -> (r: Request)
        requires
            old(self).wf(),
        ensures
            final(self).wf(),
            !is_builtin_name(name@) && declares_name(old(self).functions@, name@) && !declares_arity(
                old(self).functions@,
                name@,
                args@.len(),
            ) ==> final(self).finished() && final(self).frames@ == old(self).frames@
                && r matches Request::Done(Err(_)),
            writes_back(name@, args@, first, old(self).scope(), final(self).scope(), r),
            builtin_outcome(name@, args@, old(self).values@, final(self).values@, final(self).done, r),
            !is_builtin_name(name@) && declares_name(old(self).functions@, name@) && only_arity(
                old(self).functions@,
                name@,
                args@.len(),
            ) ==> binds_params(old(self).functions@, name@, final(self).scope()) && final(self).envs@.len()
                == old(self).envs@.len() + 1 && r == Request::Continue && final(self).done == old(self).done && final(self).frames@.len()
                == old(self).frames@.len() + 2 && final(self).frames@.drop_last() == old(self).frames@.push(
                Frame::CallEnd,
            ) && final(self).frames@.last() is Block,
    {
        proof {
            lemma_builtin_names_differ();
        }
        let n = name.as_str();
        let shown = display_all(&args);
        if str_eq(n, "print") || str_eq(n, "println") {
            return self.ask(Request::Print(join(&shown, " ")));
        }
        if str_eq(n, "print_no_newline") || str_eq(n, "print_raw") {
            return self.ask(Request::PrintRaw(join(&shown, " ")));
        }
        if str_eq(n, "eprint") {
            return self.ask(Request::Eprint(join(&shown, " ")));
        }
        if str_eq(n, "exec") {
            return self.ask(Request::ExecOutput(nth_text(&shown, 0)));
        }
        if str_eq(n, "exec_silent") {
            return self.ask(Request::ExecSilent(nth_text(&shown, 0)));
        }
        if str_eq(n, "len") {
            if args.len() > 0 {
                match &args[0] {
                    Value::Array(v) => {
                        let l = len_as_i64(v.len());
                        self.values.push(Value::Int(l));
                        return Request::Continue;
                    },
                    Value::Str(s) => {
                        let l = byte_len(s.as_str());
                        self.values.push(Value::Int(l));
                        return Request::Continue;
                    },
                    _ => {},
                }
            }
            return self.fail(string_of("len() requires array or string"));
        }
        if str_eq(n, "push") {
            if args.len() >= 2 {
                match &args[0] {
                    Value::Array(v) => {
                        let mut arr = v.clone();
                        arr.push(copy_value(&args[1]));
                        match &first {
                            Some(var) => {
                                let c = arr.clone();
                                let ghost kept = c;
                                self.set_current(var.as_str(), Value::Array(c));
                                assert(kept@.len() == v@.len() + 1);
                            },
                            None => {},
                        }
                        self.values.push(Value::Array(arr));
                        return Request::Continue;
                    },
                    _ => {},
                }
            }
            return self.fail(string_of("push(array, value) — wrong args"));
        }
        if str_eq(n, "pop") {
            if args.len() >= 1 {
                match &args[0] {
                    Value::Array(v) => {
                        let mut arr = v.clone();
                        let last = match arr.pop() {
                            Some(x) => x,
                            None => Value::Nil,
                        };
                        match &first {
                            Some(var) => {
                                let ghost kept = arr;
                                self.set_current(var.as_str(), Value::Array(arr));
                                assert(kept@.len() == if v@.len() > 0 { (v@.len() - 1) as nat } else { 0 });
                            },
                            None => {},
                        }
                        self.values.push(last);
                        return Request::Continue;
                    },
                    _ => {},
                }
            }
            return self.fail(string_of("pop(array) — wrong args"));
        }
        if str_eq(n, "int") {
            let v = if args.len() > 0 {
                match &args[0] {
                    Value::Int(k) => Value::Int(*k),
                    Value::Float { .. } => {
                        return self.ask(Request::ToInt(copy_value(&args[0])));
                    },
                    Value::Str(s) => Value::Int(parse_int_or_zero(s.as_str())),
                    Value::Bool(b) => Value::Int(if *b { 1 } else { 0 }),
                    _ => Value::Int(0),
                }
            } else {
                Value::Int(0)
            };
            self.values.push(v);
            return Request::Continue;
        }
        if str_eq(n, "float") {
            if args.len() > 0 {
                match &args[0] {
                    Value::Int(k) => {
                        return self.ask(Request::ToFloat(*k));
                    },
                    Value::Float { .. } => {
                        self.values.push(copy_value(&args[0]));
                        return Request::Continue;
                    },
                    Value::Str(s) => {
                        return self.ask(Request::ParseFloat(s.clone()));
                    },
                    _ => {},
                }
            }
            self.values.push(float_zero());
            return Request::Continue;
        }
        if str_eq(n, "str") {
            let t = nth_text(&shown, 0);
            let ghost u = t;
            self.values.push(Value::Str(t));
            assert(self.values@.drop_last() =~= old(self).values@);
            assert(self.values@.last() == Value::Str(u));
            return Request::Continue;
        }
        if str_eq(n, "bool") {
            let b = if args.len() > 0 { to_bool(&args[0]) } else { false };
            self.values.push(Value::Bool(b));
            return Request::Continue;
        }
        if str_eq(n, "exit") {
            let code = if args.len() > 0 {
                match &args[0] {
                    Value::Int(k) => *k,
                    _ => 0,
                }
            } else {
                0
            };
            return self.ask(Request::Exit(code));
        }
        if str_eq(n, "sleep_ms") {
            if args.len() > 0 {
                match &args[0] {
                    Value::Int(ms) => {
                        return self.ask(Request::Sleep(*ms));
                    },
                    _ => {},
                }
            }
            self.values.push(Value::Nil);
            return Request::Continue;
        }
        if str_eq(n, "env_get") {
            return self.ask(Request::EnvGet(nth_text(&shown, 0)));
        }
        if str_eq(n, "env_set") {
            return self.ask(Request::EnvSet(nth_text(&shown, 0), nth_text(&shown, 1)));
        }
        if str_eq(n, "args") {
            return self.ask(Request::Args);
        }
        if str_eq(n, "read_file") {
            return self.ask(Request::ReadFile(nth_text(&shown, 0)));
        }
        if str_eq(n, "write_file") {
            return self.ask(Request::WriteFile(nth_text(&shown, 0), nth_text(&shown, 1)));
        }
        if str_eq(n, "file_exists") {
            return self.ask(Request::FileExists(nth_text(&shown, 0)));
        }
        if str_eq(n, "split") {
            let s = nth_text(&shown, 0);
            let sep = if shown.len() > 1 { shown[1].clone() } else { string_of(" ") };
            let parts = split(s.as_str(), sep.as_str());
            let mut items: Vec<Value> = Vec::new();
            let mut k: usize = 0;
            while k < parts.len()
                invariant
                    k <= parts.len(),
                decreases parts.len() - k,
            {
                items.push(Value::Str(parts[k].clone()));
                k = k + 1;
            }
            self.values.push(Value::Array(items));
            return Request::Continue;
        }
        if str_eq(n, "join") {
            if args.len() > 0 {
                match &args[0] {
                    Value::Array(arr) => {
                        let sep = nth_text(&shown, 1);
                        let items = display_all(arr);
                        self.values.push(Value::Str(join(&items, sep.as_str())));
                        return Request::Continue;
                    },
                    _ => {},
                }
            }
            return self.fail(string_of("join(array, sep)"));
        }
        if str_eq(n, "trim") {
            let t = if args.len() > 0 { trim(shown[0].as_str()) } else { String::new() };
            let ghost u = t;
            self.values.push(Value::Str(t));
            assert(self.values@.drop_last() =~= old(self).values@);
            assert(self.values@.last() == Value::Str(u));
            return Request::Continue;
        }
        if str_eq(n, "to_upper") {
            let t = if args.len() > 0 { to_upper(shown[0].as_str()) } else { String::new() };
            let ghost u = t;
            self.values.push(Value::Str(t));
            assert(self.values@.drop_last() =~= old(self).values@);
            assert(self.values@.last() == Value::Str(u));
            return Request::Continue;
        }
        if str_eq(n, "to_lower") {
            let t = if args.len() > 0 { to_lower(shown[0].as_str()) } else { String::new() };
            let ghost u = t;
            self.values.push(Value::Str(t));
            assert(self.values@.drop_last() =~= old(self).values@);
            assert(self.values@.last() == Value::Str(u));
            return Request::Continue;
        }
        if str_eq(n, "contains") {
            let a = nth_text(&shown, 0);
            let b = nth_text(&shown, 1);
            self.values.push(Value::Bool(contains(a.as_str(), b.as_str())));
            return Request::Continue;
        }
        if str_eq(n, "starts_with") {
            let a = nth_text(&shown, 0);
            let b = nth_text(&shown, 1);
            self.values.push(Value::Bool(starts_with(a.as_str(), b.as_str())));
            return Request::Continue;
        }
        if str_eq(n, "ends_with") {
            let a = nth_text(&shown, 0);
            let b = nth_text(&shown, 1);
            self.values.push(Value::Bool(ends_with(a.as_str(), b.as_str())));
            return Request::Continue;
        }
        if str_eq(n, "replace") {
            let a = nth_text(&shown, 0);
            let b = nth_text(&shown, 1);
            let c = nth_text(&shown, 2);
            let t = replace(a.as_str(), b.as_str(), c.as_str());
            let ghost u = t;
            self.values.push(Value::Str(t));
            assert(self.values@.drop_last() =~= old(self).values@);
            assert(self.values@.last() == Value::Str(u));
            return Request::Continue;
        }
        if str_eq(n, "format") {
            let template = nth_text(&shown, 0);
            let mut rest: Vec<String> = Vec::new();
            let mut k: usize = 1;
            while k < shown.len()
                invariant
                    1 <= k,
                decreases shown.len() - k,
            {
                rest.push(shown[k].clone());
                k = k + 1;
            }
            self.values.push(Value::Str(crate::runtime::format(template.as_str(), &rest)));
            return Request::Continue;
        }
        self.call_declared(name, args)
    }

    /// A call of a declared function: an unknown name or a wrong number of
    /// arguments is an error and runs nothing; else the body runs in a new
    /// scope inside a copy of the globals, the parameters bound to the
    /// arguments.
    fn call_declared(&mut self, name: String, args: Vec<Value>) -> (r: Request)
        requires
            old(self).wf(),
        ensures
            final(self).wf(),
            declares_name(old(self).functions@, name@) && !declares_arity(
                old(self).functions@,
                name@,
                args@.len(),
            ) ==> final(self).finished() && final(self).frames@ == old(self).frames@
                && r matches Request::Done(Err(_)),
            declares_name(old(self).functions@, name@) && only_arity(old(self).functions@, name@, args@.len())
                ==> binds_params(old(self).functions@, name@, final(self).scope()) && final(self).envs@.len()
                == old(self).envs@.len() + 1 && r == Request::Continue && final(self).done == old(self).done && final(self).frames@.len()
                == old(self).frames@.len() + 2 && final(self).frames@.drop_last() == old(self).frames@.push(
                Frame::CallEnd,
            ) && final(self).frames@.last() is Block,
    {
        match find_function(&self.functions, name.as_str()) {
            None => self.fail(text3("Unknown function '", name.as_str(), "'")),
            Some(i) => {
                let nparams = self.functions[i].params.len();
                match arity_error(name.as_str(), nparams, args.len()) {
                    Some(m) => self.fail(m),
                    None => {
                        let mut env = Env::child(self.globals.clone());
                        let mut k: usize = 0;
                        proof {
                            Env::<Value>::law_scopes_nonempty(&env);
                        }
                        while k < nparams && k < args.len()
                            invariant
                                env.wf(),
                                env.scopes().len() > 0,
                                self.done == old(self).done,
                                self.functions == old(self).functions,
                                i < self.functions@.len(),
                                k <= nparams,
                                nparams == self.functions@[i as int].params@.len(),
                                forall|j: int| 0 <= j < k ==> #[trigger] env.scopes()[0].contains_key(
                                    self.functions@[i as int].params@[j].name@,
                                ),
                            decreases nparams - k,
                        {
                            env.define(self.functions[i].params[k].name.as_str(), copy_value(&args[k]));
                            k = k + 1;
                        }
                        assert(self.functions@[i as int].name@ == name@);
                        let body = self.functions[i].body.clone();
                        self.push_env(env);
                        self.frames.push(Frame::CallEnd);
                        self.frames.push(Frame::Block { todo: reversed(body) });
                        assert(self.frames@.drop_last() =~= old(self).frames@.push(Frame::CallEnd));
                        Request::Continue
                    },
                }
            },
        }
    }
}


// ── Laws of the built-in operations ──────────────────────────────────────────

/// `&&` and `||` read each operand by its truth, whatever kinds the operands
/// are: `&&` is true exactly when both are true, `||` when either is.
pub proof fn law_logic_operators(op: BinOp, l: Value, r: Value, below: Seq<Value>, after: Seq<Value>, ended: bool, out: Request)
    requires
        op is And || op is Or,
        binary_outcome(op, l, r, below, after, ended, out),
    ensures
        out == Request::Continue,
        after.len() == below.len() + 1,
        after.drop_last() == below,
        op is And ==> (after.last() == Value::Bool(true) <==> (truthy(l) && truthy(r))),
        op is Or ==> (after.last() == Value::Bool(true) <==> (truthy(l) || truthy(r))),
        after.last() is Bool,
{
    assert(below.push(after.last()).drop_last() =~= below);
}

/// Indexing an array gives the item at that index, and the text of a
/// character at that index for a text; an index outside is an error.
pub proof fn law_index_reads_item(arr: Value, i: i64, below: Seq<Value>, after: Seq<Value>, ended: bool, out: Request)
    requires
        index_outcome(arr, Value::Int(i), below, after, ended, out),
    ensures
        arr matches Value::Array(v) ==> (0 <= i < v@.len() ==> after.len() == below.len() + 1
            && after.drop_last() == below && after.last() == v@[i as int] && out == Request::Continue),
        arr matches Value::Str(t) ==> (0 <= i < t@.len() ==> (after.last() matches Value::Str(c) && c@.len() == 1
            && c@[0] == t@[i as int])),
        (arr is Array || arr is Str) ==> (i < 0 ==> ended && out is Done),
        !(arr is Array || arr is Str) ==> ended && out is Done,
{
    assert(below.push(after.last()).drop_last() =~= below);
}

/// `to_lower` on an ASCII text keeps its length, turns each capital letter
/// into the small letter 32 code points later, and keeps every other
/// character; no capital letter is left.
pub proof fn law_to_lower_ascii(s: String, below: Seq<Value>, after: Seq<Value>, ended: bool, out: Request)
    requires
        builtin_outcome("to_lower"@, seq![Value::Str(s)], below, after, ended, out),
        is_ascii_text(s@),
    ensures
        out == Request::Continue,
        after.last() matches Value::Str(u) && u@.len() == s@.len() && (forall|i: int|
            0 <= i < s@.len() ==> if 'A' <= s@[i] <= 'Z' {
                u@[i] == ((s@[i] as u32) + 32) as char
            } else {
                u@[i] == s@[i]
            }),
{
    assert(arg_text(seq![Value::Str(s)], 0) == Some(s@));
}

/// `to_upper` on an ASCII text keeps its length, turns each small letter
/// into the capital letter 32 code points earlier, and keeps every other
/// character.
pub proof fn law_to_upper_ascii(s: String, below: Seq<Value>, after: Seq<Value>, ended: bool, out: Request)
    requires
        builtin_outcome("to_upper"@, seq![Value::Str(s)], below, after, ended, out),
        is_ascii_text(s@),
    ensures
        out == Request::Continue,
        after.last() matches Value::Str(u) && u@.len() == s@.len() && (forall|i: int|
            0 <= i < s@.len() ==> if 'a' <= s@[i] <= 'z' {
                u@[i] == ((s@[i] as u32) - 32) as char
            } else {
                u@[i] == s@[i]
            }),
{
    assert(arg_text(seq![Value::Str(s)], 0) == Some(s@));
}

/// `int` on a truth value gives 1 for `true` and 0 for `false`, on an
/// integer the integer itself, and `int(str(n))` gives `n` back.
pub proof fn law_int_conversion(v: Value, below: Seq<Value>, after: Seq<Value>, ended: bool, out: Request)
    requires
        builtin_outcome("int"@, seq![v], below, after, ended, out),
    ensures
        v matches Value::Bool(b) ==> after.last() == Value::Int(if b { 1 } else { 0 }),
        v is Bool ==> (after.last() == Value::Int(1) <==> truthy(v)),
        v is Int ==> after.last() == v,
        v is Bool || v is Int || v is Str ==> after.drop_last() == below,
{
    assert(below.push(after.last()).drop_last() =~= below);
}

/// Reading back the text of an integer: `int(str(n)) == n`.
pub proof fn law_int_of_str(
    n: i64,
    below1: Seq<Value>,
    after1: Seq<Value>,
    ended1: bool,
    out1: Request,
    below2: Seq<Value>,
    after2: Seq<Value>,
    ended2: bool,
    out2: Request,
)
    requires
        builtin_outcome("str"@, seq![Value::Int(n)], below1, after1, ended1, out1),
        builtin_outcome("int"@, seq![after1.last()], below2, after2, ended2, out2),
    ensures
        after2.last() == Value::Int(n),
{
    assert(arg_text(seq![Value::Int(n)], 0) == Some(crate::runtime::int_text(n as int)));
    crate::runtime::law_int_text_round_trip(n);
}

/// `bool` gives the truth of its argument.
pub proof fn law_bool_conversion(v: Value, below: Seq<Value>, after: Seq<Value>, ended: bool, out: Request)
    requires
        builtin_outcome("bool"@, seq![v], below, after, ended, out),
    ensures
        after.last() == Value::Bool(truthy(v)),
        after.drop_last() == below,
{
    assert(below.push(after.last()).drop_last() =~= below);
}

} // verus!
