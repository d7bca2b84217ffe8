use rnf::ast::BinOp;
use rnf::machine::{Answer, Machine, Request};
use rnf::source::parse_source;
use rnf::value::{ChanQueue, Value};

/// A host for tests: output is collected, goroutines run to their end at
/// once, floats are computed with `f64`.
struct TestHost {
    out: Vec<String>,
    err: Vec<String>,
    cells: Vec<Value>,
    chans: Vec<ChanQueue>,
}

fn float_value(f: f64) -> Value {
    let shown = if f.fract() == 0.0 { format!("{:.1}", f) } else { f.to_string() };
    Value::Float { bits: f.to_bits(), shown, plain: f.to_string() }
}

fn as_f64(v: &Value) -> f64 {
    match v {
        Value::Int(n) => *n as f64,
        Value::Float { bits, .. } => f64::from_bits(*bits),
        _ => 0.0,
    }
}

fn drive(m: &mut Machine, h: &mut TestHost) -> Result<(), String> {
    let mut answer = Answer::Start;
    for _ in 0..1_000_000 {
        let req = m.step(answer);
        answer = match req {
            Request::Continue => Answer::Unit,
            Request::Done(r) => return r,
            Request::Print(s) => {
                h.out.push(s);
                Answer::Unit
            }
            Request::Eprint(s) => {
                h.err.push(s);
                Answer::Unit
            }
            Request::FloatBinary { op, left, right } => {
                let (a, b) = (as_f64(&left), as_f64(&right));
                Answer::Value(match op {
                    BinOp::Add => float_value(a + b),
                    BinOp::Sub => float_value(a - b),
                    BinOp::Mul => float_value(a * b),
                    BinOp::Div => float_value(a / b),
                    BinOp::Lt => Value::Bool(a < b),
                    BinOp::Gt => Value::Bool(a > b),
                    BinOp::Le => Value::Bool(a <= b),
                    _ => Value::Bool(a >= b),
                })
            }
            Request::ParseFloat(s) => Answer::Value(float_value(s.parse().unwrap_or(0.0))),
            Request::ToFloat(n) => Answer::Value(float_value(n as f64)),
            Request::ToInt(v) => Answer::Value(Value::Int(as_f64(&v) as i64)),
            Request::FloatNeg(v) => Answer::Value(float_value(-as_f64(&v))),
            Request::NewPtr(v) => {
                h.cells.push(v);
                Answer::Value(Value::Ptr((h.cells.len() - 1) as u64))
            }
            Request::PtrGet(p) => Answer::Value(h.cells[p as usize].clone()),
            Request::PtrSet(p, v) => {
                h.cells[p as usize] = v;
                Answer::Unit
            }
            Request::NewChan => {
                h.chans.push(ChanQueue::new());
                Answer::Value(Value::Chan((h.chans.len() - 1) as u64))
            }
            Request::Send(c, v) => {
                h.chans[c as usize].send(v);
                Answer::Unit
            }
            Request::Recv(c) => match h.chans[c as usize].recv() {
                Some(v) => Answer::Value(v),
                None => return Err("recv on an empty channel".to_string()),
            },
            Request::Spawn { name, args } => {
                let mut child = m.spawn(&name, args).expect("declared");
                let _ = drive(&mut child, h);
                Answer::Unit
            }
            Request::EnvGet(_) => Answer::Text(String::new()),
            other => panic!("unexpected request {:?}", other),
        };
    }
    Err("did not finish".to_string())
}

fn run(src: &str) -> (Result<(), String>, Vec<String>) {
    let prog = parse_source(src).expect("parses");
    let mut m = Machine::new(&prog);
    let mut h = TestHost { out: Vec::new(), err: Vec::new(), cells: Vec::new(), chans: Vec::new() };
    let r = drive(&mut m, &mut h);
    (r, h.out)
}

fn output(src: &str) -> Vec<String> {
    let (r, out) = run(src);
    assert_eq!(r, Ok(()));
    out
}

#[test]
fn hello_world() {
    assert_eq!(output("fn main() {\n  print(\"hi\")\n}\n"), vec!["hi"]);
}

#[test]
fn statements_run_in_order() {
    assert_eq!(output("fn main() {\n  print(1)\n  print(2)\n  print(3)\n}\n"), vec!["1", "2", "3"]);
}

#[test]
fn loop_with_continue_and_break() {
    let src = "fn main() {\n  loop i in 0..100 {\n    if i % 2 == 0 { continue }\n    if i > 10 { break }\n    print(str(i))\n  }\n}\n";
    assert_eq!(output(src), vec!["1", "3", "5", "7", "9"]);
}

#[test]
fn while_loops_and_assignment() {
    let src = "fn main() {\n  i = 0\n  while i < 3 {\n    print(i)\n    i = i + 1\n  }\n  print(\"done\", i)\n}\n";
    assert_eq!(output(src), vec!["0", "1", "2", "done 3"]);
}

#[test]
fn return_leaves_loops_and_the_call() {
    let src = "fn first_over(n: int) -> int {\n  loop i in 0..100 {\n    while true {\n      if i > n { return i }\n      break\n    }\n  }\n  return -1\n}\nfn main() {\n  print(first_over(4))\n}\n";
    assert_eq!(output(src), vec!["5"]);
}

#[test]
fn recursion() {
    let src = "fn fact(n: int) -> int {\n  if n <= 1 { return 1 }\n  return n * fact(n - 1)\n}\nfn main() {\n  print(fact(10))\n}\n";
    assert_eq!(output(src), vec!["3628800"]);
}

#[test]
fn wrong_number_of_arguments_is_refused() {
    let src = "fn f(a: int) {\n  print(\"ran\")\n}\nfn main() {\n  f(1, 2)\n}\n";
    let (r, out) = run(src);
    assert_eq!(r, Err("Function 'f' expects 1 args, got 2".to_string()));
    assert!(out.is_empty());
}

#[test]
fn runtime_errors() {
    assert_eq!(run("fn main() {\n  print(y)\n}\n").0, Err("Undefined variable 'y'".to_string()));
    assert_eq!(run("fn main() {\n  g()\n}\n").0, Err("Unknown function 'g'".to_string()));
    assert_eq!(run("fn main() {\n  x = 1 / 0\n}\n").0, Err("Division by zero".to_string()));
    assert_eq!(run("fn main() {\n  x = 1 - \"a\"\n}\n").0, Err("Cannot subtract str from int".to_string()));
    assert_eq!(run("fn main() {\n  a = [1]\n  a[3] = 2\n}\n").0, Err("Index 3 out of bounds (len 1)".to_string()));
}

#[test]
fn an_if_branch_works_on_a_copy_of_the_scope() {
    let src = "fn main() {\n  x = 1\n  if true { x = 2 }\n  print(x)\n}\n";
    assert_eq!(output(src), vec!["1"]);
}

#[test]
fn pointers_share_a_cell() {
    let src = "fn main() {\n  x = 5\n  ptr p = &x\n  *p = 9\n  print(*p)\n}\n";
    assert_eq!(output(src), vec!["9"]);
}

#[test]
fn channels_are_first_in_first_out() {
    let src = "fn main() {\n  ch = make_chan<int>()\n  send(ch, 1)\n  send(ch, 2)\n  print(recv(ch))\n  print(<-ch)\n}\n";
    assert_eq!(output(src), vec!["1", "2"]);
}

#[test]
fn goroutines_send_on_channels() {
    let src = "fn worker(ch: chan<int>, n: int) {\n  send(ch, n * 2)\n}\nfn main() {\n  ch = make_chan<int>()\n  go worker(ch, 21)\n  print(recv(ch))\n}\n";
    assert_eq!(output(src), vec!["42"]);
}

#[test]
fn builtins_and_write_back() {
    let src = "fn main() {\n  arr = [10, 20, 30]\n  push(arr, 40)\n  print(len(arr), arr)\n  last = pop(arr)\n  print(last, arr)\n  print(format(\"Hello {}!\", \"World\"))\n  print(join(split(\"a,b,c\", \",\"), \"-\"))\n  print(len(\"hello\"), trim(\"  x  \"), to_upper(\"ab\"))\n  print(int(\"42\") + 1, bool(\"\"), str(true))\n}\n";
    assert_eq!(
        output(src),
        vec!["4 [10, 20, 30, 40]", "40 [10, 20, 30]", "Hello World!", "a-b-c", "5 x AB", "43 false true"]
    );
}

#[test]
fn structs_and_methods() {
    let src = "struct Point { x: int; y: int }\nimpl Point {\n  fn sum(p: Point) -> int {\n    return p.x + p.y\n  }\n}\nfn main() {\n  p = Point { x: 3, y: 4 }\n  p.x = 10\n  print(Point::sum(p), p)\n}\n";
    assert_eq!(output(src), vec!["14 Point { x: 10, y: 4 }"]);
}

#[test]
fn floats_go_through_the_host() {
    let src = "fn main() {\n  print(1.5 + 2, 2.0 * 3.0, float(7), int(3.9))\n  print(\"v=\" + 0.5)\n}\n";
    assert_eq!(output(src), vec!["3.5 6.0 7.0 3", "v=0.5"]);
}

#[test]
fn strings_concatenate_and_compare() {
    let src = "fn main() {\n  print(\"n=\" + 3, \"a\" < \"b\", \"x\" == \"x\", nil == nil)\n}\n";
    assert_eq!(output(src), vec!["n=3 true true true"]);
}

#[test]
fn globals_without_main() {
    let (r, out) = run("x = 1\ny = x + 1\n");
    assert_eq!(r, Ok(()));
    assert!(out.is_empty());
}

#[test]
fn globals_are_seen_by_functions() {
    let src = "limit = 3\nfn main() {\n  print(limit * 2)\n}\n";
    assert_eq!(output(src), vec!["6"]);
}

#[test]
fn break_outside_a_loop_ends_the_call_with_nil() {
    let src = "fn f() -> int {\n  break\n  return 1\n}\nfn main() {\n  print(f())\n}\n";
    assert_eq!(output(src), vec!["nil"]);
}

#[test]
fn else_branch_runs_when_the_condition_is_false() {
    let src = "fn main() {\n  x = 0\n  if x > 5 { print(\"big\") } else { print(\"small\") }\n  if x == 0 { print(\"zero\") }\n}\n";
    assert_eq!(output(src), vec!["small", "zero"]);
}

#[test]
fn a_while_loop_whose_condition_is_false_never_runs() {
    let src = "fn main() {\n  while false {\n    print(\"never\")\n  }\n  print(\"after\")\n}\n";
    assert_eq!(output(src), vec!["after"]);
}

#[test]
fn continue_in_a_while_loop_goes_on_with_the_next_round() {
    let src = "fn main() {\n  i = 0\n  while i < 5 {\n    i = i + 1\n    if i == 3 { continue }\n    print(i)\n  }\n}\n";
    assert_eq!(output(src), vec!["1", "2", "4", "5"]);
}

#[test]
fn integer_overflow_is_a_panic_request() {
    let src = "fn main() {\n  x = 9223372036854775807\n  y = x + 1\n}\n";
    let program = parse_source(src).unwrap();
    let mut m = Machine::new(&program);
    let mut answer = Answer::Start;
    let mut panicked = false;
    for _ in 0..10_000 {
        match m.step(answer) {
            Request::Panic(msg) => {
                assert_eq!(msg, "attempt to compute with overflow");
                panicked = true;
                break;
            }
            Request::Done(_) => break,
            _ => {}
        }
        answer = Answer::Unit;
    }
    assert!(panicked);
}

#[test]
fn assignment_targets_must_hold_the_right_kind() {
    assert_eq!(run("fn main() {\n  x = 1\n  x[0] = 2\n}\n").0, Err("'x' is not an array".to_string()));
    assert_eq!(run("fn main() {\n  x = 1\n  x.f = 2\n}\n").0, Err("'x' is not a struct".to_string()));
    assert_eq!(run("fn main() {\n  a = [1, 2]\n  a[\"k\"] = 2\n}\n").0, Err("Array index must be int".to_string()));
}

#[test]
fn parameters_are_bound_in_the_call_scope() {
    let src = "fn add(a: int, b: int) -> int {\n  return a + b\n}\nfn main() {\n  a = 100\n  print(add(1, 2), a)\n}\n";
    assert_eq!(output(src), vec!["3 100"]);
}
