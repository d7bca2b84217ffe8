//! The values a running RNF program computes with.
use vstd::prelude::*;
use crate::runtime::{bool_text, bool_to_text, int_text, int_to_text, join, push_nat_text};
use crate::text::{push_text, str_eq};

verus! {

/// A runtime value. A float carries its IEEE bits and the two texts the
/// language shows for it (`{:.1}`-style display and plain `to_string`),
/// which the host computes when it makes the float; pointers and channels
/// are handles to cells and queues the host keeps (they are shared between
/// goroutines).
#[derive(Debug)]
pub enum Value {
    Int(i64),
    Float { bits: u64, shown: String, plain: String },
    Str(String),
    Bool(bool),
    Nil,
    Array(Vec<Value>),
    Ptr(u64),
    Chan(u64),
    Struct { name: String, fields: Vec<(String, Value)> },
}

/// A value and its copy are of the same kind, and an array's copy has as
/// many items.
pub open spec fn same_shape(a: Value, b: Value) -> bool {
    &&& kind_name_spec(a) == kind_name_spec(b)
    &&& (a is Array <==> b is Array)
    &&& (a is Struct <==> b is Struct)
    &&& a is Int ==> b == a
    &&& (a matches Value::Array(x) ==> (b matches Value::Array(y) && y@.len() == x@.len()))
}

/// A copy of a value.
pub fn copy_value(v: &Value) -> (r: Value)
    ensures
        same_shape(*v, r),
    decreases v,
{
    match v {
        Value::Int(n) => Value::Int(*n),
        Value::Float { bits, shown, plain } => Value::Float { bits: *bits, shown: shown.clone(), plain: plain.clone() },
        Value::Str(s) => Value::Str(s.clone()),
        Value::Bool(b) => Value::Bool(*b),
        Value::Nil => Value::Nil,
        Value::Array(items) => Value::Array(copy_values(items)),
        Value::Ptr(h) => Value::Ptr(*h),
        Value::Chan(h) => Value::Chan(*h),
        Value::Struct { name, fields } => Value::Struct { name: name.clone(), fields: copy_fields(fields) },
    }
}

pub fn copy_values(v: &Vec<Value>) -> (r: Vec<Value>)
    ensures
        r@.len() == v@.len(),
    decreases v,
{
    let mut out: Vec<Value> = Vec::new();
    let mut i: usize = 0;
    while i < v.len()
        invariant
            i <= v.len(),
            out@.len() == i,
        decreases v.len() - i,
    {
        out.push(copy_value(&v[i]));
        i = i + 1;
    }
    out
}

pub fn copy_fields(v: &Vec<(String, Value)>) -> (r: Vec<(String, Value)>)
    decreases v,
{
    let mut out: Vec<(String, Value)> = Vec::new();
    let mut i: usize = 0;
    while i < v.len()
        invariant
            i <= v.len(),
        decreases v.len() - i,
    {
        out.push((v[i].0.clone(), copy_value(&v[i].1)));
        i = i + 1;
    }
    out
}

impl Clone for Value {
    fn clone(&self) -> (r: Self)
        ensures
            same_shape(*self, r),
    {
        copy_value(self)
    }
}

/// The name of a value's type, as errors show it.
pub open spec fn kind_name_spec(v: Value) -> Seq<char> {
    match v {
        Value::Int(_) => "int"@,
        Value::Float { .. } => "float"@,
        Value::Str(_) => "str"@,
        Value::Bool(_) => "bool"@,
        Value::Nil => "nil"@,
        Value::Array(_) => "array"@,
        Value::Ptr(_) => "ptr"@,
        Value::Chan(_) => "chan"@,
        Value::Struct { .. } => "struct"@,
    }
}

pub fn kind_name(v: &Value) -> (r: String)
    ensures
        r@ == kind_name_spec(*v),
{
    let mut s = String::new();
    match v {
        Value::Int(_) => push_text(&mut s, "int"),
        Value::Float { .. } => push_text(&mut s, "float"),
        Value::Str(_) => push_text(&mut s, "str"),
        Value::Bool(_) => push_text(&mut s, "bool"),
        Value::Nil => push_text(&mut s, "nil"),
        Value::Array(_) => push_text(&mut s, "array"),
        Value::Ptr(_) => push_text(&mut s, "ptr"),
        Value::Chan(_) => push_text(&mut s, "chan"),
        Value::Struct { .. } => push_text(&mut s, "struct"),
    }
    proof {
        assert(s@ =~= kind_name_spec(*v));
    }
    s
}

/// The bits of a float other than its sign.
pub open spec fn magnitude_bits(bits: u64) -> u64 {
    bits & 0x7FFF_FFFF_FFFF_FFFFu64
}

/// Whether float bits are a NaN: all exponent bits set, a non-zero fraction.
pub open spec fn is_nan_bits(bits: u64) -> bool {
    (bits & 0x7FF0_0000_0000_0000u64) == 0x7FF0_0000_0000_0000u64 && (bits & 0x000F_FFFF_FFFF_FFFFu64) != 0
}

/// A value's truth: `false`, 0, 0.0 (of either sign), `""` and `nil` are
/// false; every other value is true.
pub open spec fn truthy(v: Value) -> bool {
    match v {
        Value::Bool(b) => b,
        Value::Int(n) => n != 0,
        Value::Float { bits, .. } => magnitude_bits(bits) != 0,
        Value::Str(s) => s@.len() > 0,
        Value::Nil => false,
        _ => true,
    }
}

pub fn to_bool(v: &Value) -> (r: bool)
    ensures
        r == truthy(*v),
{
    match v {
        Value::Bool(b) => *b,
        Value::Int(n) => *n != 0,
        Value::Float { bits, .. } => (*bits & 0x7FFF_FFFF_FFFF_FFFFu64) != 0,
        Value::Str(s) => s.as_str().unicode_len() > 0,
        Value::Nil => false,
        _ => true,
    }
}

/// `==` on values: integers, texts and truth values by what they hold,
/// floats as IEEE numbers (a NaN equals nothing, 0.0 equals -0.0), `nil`
/// equals `nil`; any other pair is unequal.
pub open spec fn values_equal(a: Value, b: Value) -> bool {
    match (a, b) {
        (Value::Int(x), Value::Int(y)) => x == y,
        (Value::Float { bits: x, .. }, Value::Float { bits: y, .. }) => !is_nan_bits(x) && !is_nan_bits(y)
            && (x == y || (magnitude_bits(x) == 0 && magnitude_bits(y) == 0)),
        (Value::Str(x), Value::Str(y)) => x@ == y@,
        (Value::Bool(x), Value::Bool(y)) => x == y,
        (Value::Nil, Value::Nil) => true,
        _ => false,
    }
}

pub fn values_eq(a: &Value, b: &Value) -> (r: bool)
    ensures
        r == values_equal(*a, *b),
{
    match (a, b) {
        (Value::Int(x), Value::Int(y)) => *x == *y,
        (Value::Float { bits: x, .. }, Value::Float { bits: y, .. }) => {
            let nx = (*x & 0x7FF0_0000_0000_0000u64) == 0x7FF0_0000_0000_0000u64 && (*x & 0x000F_FFFF_FFFF_FFFFu64) != 0;
            let ny = (*y & 0x7FF0_0000_0000_0000u64) == 0x7FF0_0000_0000_0000u64 && (*y & 0x000F_FFFF_FFFF_FFFFu64) != 0;
            !nx && !ny && (*x == *y || ((*x & 0x7FFF_FFFF_FFFF_FFFFu64) == 0 && (*y & 0x7FFF_FFFF_FFFF_FFFFu64) == 0))
        },
        (Value::Str(x), Value::Str(y)) => str_eq(x.as_str(), y.as_str()),
        (Value::Bool(x), Value::Bool(y)) => *x == *y,
        (Value::Nil, Value::Nil) => true,
        _ => false,
    }
}

/// How a value that holds no other values is shown: an integer in decimal,
/// a float by its shown text, a text as itself, `true`/`false`, `nil`, and
/// `<ptr>`/`<chan>` for handles. Arrays and structs have no entry here.
pub open spec fn shown_scalar(v: Value) -> Option<Seq<char>> {
    match v {
        Value::Int(n) => Some(int_text(n as int)),
        Value::Float { shown, .. } => Some(shown@),
        Value::Str(s) => Some(s@),
        Value::Bool(b) => Some(bool_text(b)),
        Value::Nil => Some("nil"@),
        Value::Ptr(_) => Some("<ptr>"@),
        Value::Chan(_) => Some("<chan>"@),
        _ => None,
    }
}

/// How a value is shown: integers in decimal, floats by their shown text,
/// arrays as `[a, b]`, structs as `Name { field: value, ... }`.
pub fn display(v: &Value) -> (r: String)
    ensures
        shown_scalar(*v) matches Some(t) ==> r@ == t,
    decreases v,
{
    match v {
        Value::Int(n) => int_to_text(*n),
        Value::Float { shown, .. } => shown.clone(),
        Value::Str(s) => s.clone(),
        Value::Bool(b) => bool_to_text(*b),
        Value::Nil => {
            let mut s = String::new();
            push_text(&mut s, "nil");
            assert(s@ =~= "nil"@);
            s
        },
        Value::Array(items) => {
            let parts = display_all(items);
            let mut s = String::new();
            push_text(&mut s, "[");
            let inner = join(&parts, ", ");
            push_text(&mut s, inner.as_str());
            push_text(&mut s, "]");
            s
        },
        Value::Ptr(_) => {
            let mut s = String::new();
            push_text(&mut s, "<ptr>");
            assert(s@ =~= "<ptr>"@);
            s
        },
        Value::Chan(_) => {
            let mut s = String::new();
            push_text(&mut s, "<chan>");
            assert(s@ =~= "<chan>"@);
            s
        },
        Value::Struct { name, fields } => {
            let parts = display_fields(fields);
            let mut s = name.clone();
            push_text(&mut s, " { ");
            let inner = join(&parts, ", ");
            push_text(&mut s, inner.as_str());
            push_text(&mut s, " }");
            s
        },
    }
}

/// How each value of a list is shown.
pub fn display_all(v: &Vec<Value>) -> (r: Vec<String>)
    ensures
        r@.len() == v@.len(),
        forall|i: int| 0 <= i < v@.len() ==> (shown_scalar(#[trigger] v@[i]) matches Some(t) ==> r@[i]@ == t),
    decreases v,
{
    let mut parts: Vec<String> = Vec::new();
    let mut i: usize = 0;
    while i < v.len()
        invariant
            i <= v.len(),
            parts@.len() == i,
            forall|j: int| 0 <= j < i ==> (shown_scalar(#[trigger] v@[j]) matches Some(t) ==> parts@[j]@ == t),
        decreases v.len() - i,
    {
        parts.push(display(&v[i]));
        i = i + 1;
    }
    parts
}

fn display_fields(v: &Vec<(String, Value)>) -> (r: Vec<String>)
    decreases v,
{
    let mut parts: Vec<String> = Vec::new();
    let mut i: usize = 0;
    while i < v.len()
        invariant
            i <= v.len(),
        decreases v.len() - i,
    {
        let mut p = v[i].0.clone();
        push_text(&mut p, ": ");
        let shown = display(&v[i].1);
        push_text(&mut p, shown.as_str());
        parts.push(p);
        i = i + 1;
    }
    parts
}

/// The text of a `usize` index as a number (what `{}` shows for it).
pub fn index_text(i: u64) -> (r: String) {
    let mut s = String::new();
    push_nat_text(&mut s, i);
    s
}

/// Sets field `name` of a struct's fields: replaces its value where it is
/// bound, else adds it at the end.
pub fn set_field(fields: &mut Vec<(String, Value)>, name: &str, v: Value)
    ensures
        final(fields)@.len() == old(fields)@.len() || final(fields)@.len() == old(fields)@.len() + 1,
{
    let mut i: usize = 0;
    while i < fields.len()
        invariant
            i <= fields.len(),
            fields@.len() == old(fields)@.len(),
        decreases fields.len() - i,
    {
        if str_eq(fields[i].0.as_str(), name) {
            let key = fields[i].0.clone();
            fields.set(i, (key, v));
            return;
        }
        i = i + 1;
    }
    let mut key = String::new();
    push_text(&mut key, name);
    fields.push((key, v));
}

/// The value of field `name`, where the struct binds it.
pub fn get_field(fields: &Vec<(String, Value)>, name: &str) -> (r: Option<Value>)
    ensures
        r is Some <==> exists|i: int| 0 <= i < fields@.len() && #[trigger] fields@[i].0@ == name@,
{
    let mut i: usize = 0;
    while i < fields.len()
        invariant
            i <= fields.len(),
            forall|j: int| 0 <= j < i ==> fields@[j].0@ != name@,
        decreases fields.len() - i,
    {
        if str_eq(fields[i].0.as_str(), name) {
            return Some(copy_value(&fields[i].1));
        }
        i = i + 1;
    }
    None
}

// ── Channels ─────────────────────────────────────────────────────────────────

/// The values waiting in a channel, oldest first.
#[derive(Debug)]
pub struct ChanQueue {
    items: Vec<Value>,
}

impl ChanQueue {
    pub closed spec fn contents(&self) -> Seq<Value> {
        self.items@
    }

    pub fn new() -> (r: Self)
        ensures
            r.contents() == Seq::<Value>::empty(),
    {
        ChanQueue { items: Vec::new() }
    }

    /// `send`: the value joins the end of the queue.
    pub fn send(&mut self, v: Value)
        ensures
            final(self).contents() == old(self).contents().push(v),
    {
        self.items.push(v);
    }

    /// `recv`: takes the oldest value, if there is one (first in, first out).
    pub fn recv(&mut self) -> (r: Option<Value>)
        ensures
            old(self).contents().len() == 0 ==> r is None && final(self).contents() == old(self).contents(),
            old(self).contents().len() > 0 ==> r == Some(old(self).contents()[0])
                && final(self).contents() == old(self).contents().drop_first(),
    {
        if self.items.len() == 0 {
            None
        } else {
            Some(self.items.remove(0))
        }
    }
}

/// A channel hands values back first in, first out: a value sent comes back
/// after every value that waited before it and before every value sent later.
pub proof fn law_channel_first_in_first_out(waiting: Seq<Value>, v: Value, later: Seq<Value>)
    ensures
        (waiting.push(v) + later).take(waiting.len() as int) == waiting,
        (waiting.push(v) + later)[waiting.len() as int] == v,
        (waiting.push(v) + later).skip(waiting.len() + 1 as int) == later,
{
    assert((waiting.push(v) + later).take(waiting.len() as int) =~= waiting);
    assert((waiting.push(v) + later).skip(waiting.len() + 1 as int) =~= later);
}

} // verus!
