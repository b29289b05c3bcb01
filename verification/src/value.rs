//! Runtime values and their mathematical model.
//!
//! `Value` is the executable tagged union; `ValueV` is its spec-level view,
//! with byte strings abstracted to `Seq<u8>` and arena indices to `int`.
//! Tables and closures are arena indices, so cloning a `Value` shares the
//! underlying storage (reference semantics), and language equality on them
//! is identity of that storage.
use vstd::prelude::*;

use crate::ast::BinOp;

verus! {

/// Unrecoverable runtime faults.
#[derive(Clone, Copy, PartialEq, Eq, Structural, Debug)]
pub enum Fault {
    /// Coercion to an expected variant failed (calling a non-function,
    /// arithmetic or ordering on unsupported operands, assigning through a
    /// non-table, unary minus on a non-number).
    TypeMismatch,
    /// A table key expression yielded a non-primitive value.
    InvalidKey,
}

/// Why an evaluation stopped without producing a value.
#[derive(Clone, Copy, PartialEq, Eq, Structural, Debug)]
pub enum Stop {
    Fault(Fault),
    /// The fuel bound was exhausted before the program finished.
    OutOfFuel,
}

/// A runtime function: the built-in `print` or a closure (an index into the
/// closure arena of the machine state).
pub enum Function {
    Print,
    Closure(usize),
}

/// A runtime value.  `Table` holds an index into the table arena.
pub enum Value {
    Nil,
    Bool(bool),
    Number(i64),
    Str(Vec<u8>),
    Table(usize),
    Function(Function),
}

/// Spec view of `Function`.
#[verifier::ext_equal]
pub ghost enum FunV {
    Print,
    Closure(int),
}

/// Spec view of `Value`.
#[verifier::ext_equal]
pub ghost enum ValueV {
    Nil,
    Bool(bool),
    Number(i64),
    Str(Seq<u8>),
    Table(int),
    Function(FunV),
}

impl View for Value {
    type V = ValueV;

    open spec fn view(&self) -> ValueV {
        match self {
            Value::Nil => ValueV::Nil,
            Value::Bool(b) => ValueV::Bool(*b),
            Value::Number(n) => ValueV::Number(*n),
            Value::Str(s) => ValueV::Str(s@),
            Value::Table(t) => ValueV::Table(*t as int),
            Value::Function(Function::Print) => ValueV::Function(FunV::Print),
            Value::Function(Function::Closure(c)) => ValueV::Function(FunV::Closure(*c as int)),
        }
    }
}

/// View of an evaluation result.
pub open spec fn res_v(r: Result<Value, Stop>) -> Result<ValueV, Stop> {
    match r {
        Ok(v) => Ok(v@),
        Err(e) => Err(e),
    }
}

/// Truthiness: only `nil` and `false` are false; everything else, including
/// `0` and the empty string, is true.
pub open spec fn truthy(v: ValueV) -> bool {
    !(v == ValueV::Nil || v == ValueV::Bool(false))
}

/// The language's equality: same variant and equal payload; numbers by
/// numeric value, strings by contents, tables and closures by identity of
/// the shared storage they reference.
pub open spec fn lang_eq(a: ValueV, b: ValueV) -> bool {
    match (a, b) {
        (ValueV::Nil, ValueV::Nil) => true,
        (ValueV::Bool(x), ValueV::Bool(y)) => x == y,
        (ValueV::Number(x), ValueV::Number(y)) => x == y,
        (ValueV::Str(x), ValueV::Str(y)) => x == y,
        (ValueV::Table(x), ValueV::Table(y)) => x == y,
        (ValueV::Function(FunV::Print), ValueV::Function(FunV::Print)) => true,
        (ValueV::Function(FunV::Closure(x)), ValueV::Function(FunV::Closure(y))) => x == y,
        _ => false,
    }
}

/// Two's-complement wrap-around addition on `i64`.
pub open spec fn wrap_add(x: i64, y: i64) -> i64 {
    if x + y > i64::MAX {
        (x + y - 0x1_0000_0000_0000_0000) as i64
    } else if x + y < i64::MIN {
        (x + y + 0x1_0000_0000_0000_0000) as i64
    } else {
        (x + y) as i64
    }
}

/// Two's-complement wrap-around subtraction on `i64`.
pub open spec fn wrap_sub(x: i64, y: i64) -> i64 {
    if x - y > i64::MAX {
        (x - y - 0x1_0000_0000_0000_0000) as i64
    } else if x - y < i64::MIN {
        (x - y + 0x1_0000_0000_0000_0000) as i64
    } else {
        (x - y) as i64
    }
}

/// Two's-complement wrap-around multiplication on `i64`.
pub open spec fn wrap_mul(x: i64, y: i64) -> i64 {
    if (x * y) % 0x1_0000_0000_0000_0000 > i64::MAX {
        ((x * y) % 0x1_0000_0000_0000_0000 - 0x1_0000_0000_0000_0000) as i64
    } else {
        ((x * y) % 0x1_0000_0000_0000_0000) as i64
    }
}

/// Arithmetic (`+`, `-`, `*`): defined exactly when both operands are
/// numbers; any other operand is a `TypeMismatch` fault.
pub open spec fn arith_v(op: BinOp, a: ValueV, b: ValueV) -> Result<ValueV, Stop> {
    match (a, b) {
        (ValueV::Number(x), ValueV::Number(y)) => match op {
            BinOp::Addition => Ok(ValueV::Number(wrap_add(x, y))),
            BinOp::Subtraction => Ok(ValueV::Number(wrap_sub(x, y))),
            BinOp::Multiplication => Ok(ValueV::Number(wrap_mul(x, y))),
            _ => Err(Stop::Fault(Fault::TypeMismatch)),
        },
        _ => Err(Stop::Fault(Fault::TypeMismatch)),
    }
}

/// Arithmetic negation: defined exactly on numbers.
pub open spec fn neg_v(a: ValueV) -> Result<ValueV, Stop> {
    match a {
        ValueV::Number(x) => Ok(ValueV::Number(wrap_sub(0, x))),
        _ => Err(Stop::Fault(Fault::TypeMismatch)),
    }
}

/// Strict lexicographic order on byte strings.
pub open spec fn bytes_lt(a: Seq<u8>, b: Seq<u8>) -> bool
    decreases a.len(),
{
    if b.len() == 0 {
        false
    } else if a.len() == 0 {
        true
    } else if a[0] < b[0] {
        true
    } else if a[0] > b[0] {
        false
    } else {
        bytes_lt(a.skip(1), b.skip(1))
    }
}

/// Lexicographic `<=` on byte strings.
pub open spec fn bytes_le(a: Seq<u8>, b: Seq<u8>) -> bool {
    !bytes_lt(b, a)
}

/// `<`: defined only between two numbers or two strings.
pub open spec fn lt_v(a: ValueV, b: ValueV) -> Result<bool, Stop> {
    match (a, b) {
        (ValueV::Number(x), ValueV::Number(y)) => Ok(x < y),
        (ValueV::Str(x), ValueV::Str(y)) => Ok(bytes_lt(x, y)),
        _ => Err(Stop::Fault(Fault::TypeMismatch)),
    }
}

/// `<=`: defined only between two numbers or two strings.
pub open spec fn le_v(a: ValueV, b: ValueV) -> Result<bool, Stop> {
    match (a, b) {
        (ValueV::Number(x), ValueV::Number(y)) => Ok(x <= y),
        (ValueV::Str(x), ValueV::Str(y)) => Ok(bytes_le(x, y)),
        _ => Err(Stop::Fault(Fault::TypeMismatch)),
    }
}

/// Coercion of a value to a table key: primitives pass through unchanged,
/// tables and functions are an `InvalidKey` fault.
pub open spec fn as_key_v(v: ValueV) -> Result<ValueV, Stop> {
    match v {
        ValueV::Table(_) => Err(Stop::Fault(Fault::InvalidKey)),
        ValueV::Function(_) => Err(Stop::Fault(Fault::InvalidKey)),
        _ => Ok(v),
    }
}

/// Decimal digits of `n`, most significant first.
pub open spec fn dec_u(n: nat) -> Seq<u8>
    decreases n,
{
    if n < 10 {
        seq![(48 + n) as u8]
    } else {
        dec_u(n / 10).push((48 + n % 10) as u8)
    }
}

/// Decimal numeral of `n`, with a leading minus sign when negative.
pub open spec fn dec_i(n: int) -> Seq<u8> {
    if n < 0 {
        seq![45u8].add(dec_u((-n) as nat))
    } else {
        dec_u(n as nat)
    }
}

/// Rendering of one value for `print`: numbers as numerals, strings as
/// their raw text, booleans and nil as their keywords, tables and
/// functions as opaque tags.
pub open spec fn render(v: ValueV) -> Seq<u8> {
    match v {
        ValueV::Nil => seq![110u8, 105u8, 108u8],
        ValueV::Bool(b) => if b {
            seq![116u8, 114u8, 117u8, 101u8]
        } else {
            seq![102u8, 97u8, 108u8, 115u8, 101u8]
        },
        ValueV::Number(n) => dec_i(n as int),
        ValueV::Str(s) => s,
        ValueV::Table(_) => seq![116u8, 97u8, 98u8, 108u8, 101u8],
        ValueV::Function(_) => seq![102u8, 117u8, 110u8, 99u8, 116u8, 105u8, 111u8, 110u8],
    }
}

/// Renderings of the values from position `i` on, each preceded by a tab.
pub open spec fn render_rest(vs: Seq<ValueV>, i: int) -> Seq<u8>
    decreases vs.len() - i,
{
    if i < 0 || i >= vs.len() {
        Seq::empty()
    } else {
        seq![9u8].add(render(vs[i])).add(render_rest(vs, i + 1))
    }
}

/// One printed line: the renderings of the arguments, tab-joined.
pub open spec fn render_line(vs: Seq<ValueV>) -> Seq<u8> {
    if vs.len() == 0 {
        Seq::empty()
    } else {
        render(vs[0]).add(render_rest(vs, 1))
    }
}

/// Appends the decimal digits of `n` to `out`.
fn push_digits(n: u64, out: &mut Vec<u8>)
    ensures
        final(out)@ == old(out)@.add(dec_u(n as nat)),
    decreases n,
{
    if n >= 10 {
        push_digits(n / 10, out);
        out.push(48 + (n % 10) as u8);
        assert(final(out)@ =~= old(out)@.add(dec_u(n as nat)));
    } else {
        out.push(48 + n as u8);
        assert(final(out)@ =~= old(out)@.add(dec_u(n as nat)));
    }
}

/// Renders a number as a decimal numeral.
pub fn render_num(n: i64) -> (r: Vec<u8>)
    ensures
        r@ == dec_i(n as int),
{
    let mut out: Vec<u8> = Vec::new();
    if n < 0 {
        out.push(45);
        let m: u64 = ((-(n + 1)) as u64) + 1;
        assert(m as nat == (-(n as int)) as nat);
        push_digits(m, &mut out);
        assert(out@ =~= dec_i(n as int));
    } else {
        push_digits(n as u64, &mut out);
        assert(out@ =~= dec_i(n as int));
    }
    out
}

/// Renders one value for `print`.
pub fn render_value(v: &Value) -> (r: Vec<u8>)
    ensures
        r@ == render(v@),
{
    match v {
        Value::Nil => {
            let mut out: Vec<u8> = Vec::new();
            out.push(110);
            out.push(105);
            out.push(108);
            assert(out@ =~= render(v@));
            out
        },
        Value::Bool(b) => {
            let mut out: Vec<u8> = Vec::new();
            if *b {
                out.push(116);
                out.push(114);
                out.push(117);
                out.push(101);
            } else {
                out.push(102);
                out.push(97);
                out.push(108);
                out.push(115);
                out.push(101);
            }
            assert(out@ =~= render(v@));
            out
        },
        Value::Number(n) => render_num(*n),
        Value::Str(s) => clone_bytes(s),
        Value::Table(_) => {
            let mut out: Vec<u8> = Vec::new();
            out.push(116);
            out.push(97);
            out.push(98);
            out.push(108);
            out.push(101);
            assert(out@ =~= render(v@));
            out
        },
        Value::Function(_) => {
            let mut out: Vec<u8> = Vec::new();
            out.push(102);
            out.push(117);
            out.push(110);
            out.push(99);
            out.push(116);
            out.push(105);
            out.push(111);
            out.push(110);
            assert(out@ =~= render(v@));
            out
        },
    }
}

/// Appends the tab-prefixed renderings of the values from position `i` on.
fn render_rest_exec(vs: &Vec<Value>, i: usize, out: &mut Vec<u8>)
    requires
        i <= vs@.len(),
    ensures
        final(out)@ == old(out)@.add(
            render_rest(vs@.map_values(|v: Value| v@), i as int),
        ),
    decreases vs@.len() - i,
{
    if i < vs.len() {
        out.push(9);
        let mut piece = render_value(&vs[i]);
        out.append(&mut piece);
        render_rest_exec(vs, i + 1, out);
        assert(final(out)@ =~= old(out)@.add(
            render_rest(vs@.map_values(|v: Value| v@), i as int),
        ));
    } else {
        assert(final(out)@ =~= old(out)@.add(
            render_rest(vs@.map_values(|v: Value| v@), i as int),
        ));
    }
}

/// Renders one printed line: the arguments' renderings, tab-joined.
pub fn render_line_exec(vs: &Vec<Value>) -> (r: Vec<u8>)
    ensures
        r@ == render_line(vs@.map_values(|v: Value| v@)),
{
    if vs.len() == 0 {
        let out: Vec<u8> = Vec::new();
        assert(out@ =~= render_line(vs@.map_values(|v: Value| v@)));
        out
    } else {
        let mut out = render_value(&vs[0]);
        render_rest_exec(vs, 1, &mut out);
        assert(out@ =~= render_line(vs@.map_values(|v: Value| v@)));
        out
    }
}

/// Clones a byte string; the copy has the same contents.
pub fn clone_bytes(x: &Vec<u8>) -> (r: Vec<u8>)
    ensures
        r@ == x@,
{
    let r = x.clone();
    assert(r@ =~= x@);
    r
}

/// Clones a value; the copy has the same view, so tables and closures stay
/// shared (reference semantics).
pub fn clone_value(x: &Value) -> (r: Value)
    ensures
        r@ == x@,
{
    match x {
        Value::Nil => Value::Nil,
        Value::Bool(b) => Value::Bool(*b),
        Value::Number(n) => Value::Number(*n),
        Value::Str(s) => Value::Str(clone_bytes(s)),
        Value::Table(t) => Value::Table(*t),
        Value::Function(Function::Print) => Value::Function(Function::Print),
        Value::Function(Function::Closure(c)) => Value::Function(Function::Closure(*c)),
    }
}

/// Byte-string equality.
pub fn bytes_eq(x: &Vec<u8>, y: &Vec<u8>) -> (r: bool)
    ensures
        r == (x@ == y@),
{
    if x.len() != y.len() {
        return false;
    }
    let mut i: usize = 0;
    while i < x.len()
        invariant
            0 <= i <= x.len(),
            x@.len() == y@.len(),
            forall|j: int| 0 <= j < i ==> x@[j] == y@[j],
        decreases x.len() - i,
    {
        if x[i] != y[i] {
            return false;
        }
        i += 1;
    }
    assert(x@ =~= y@);
    true
}

/// Lexicographic comparison of the suffixes of two byte strings starting at
/// position `i`.
fn bytes_lt_from(x: &Vec<u8>, y: &Vec<u8>, i: usize) -> (r: bool)
    requires
        i <= x@.len(),
        i <= y@.len(),
    ensures
        r == bytes_lt(x@.skip(i as int), y@.skip(i as int)),
    decreases x@.len() - i,
{
    if i == y.len() {
        false
    } else if i == x.len() {
        true
    } else if x[i] < y[i] {
        true
    } else if x[i] > y[i] {
        false
    } else {
        let r = bytes_lt_from(x, y, i + 1);
        assert(x@.skip(i as int).skip(1) =~= x@.skip(i + 1));
        assert(y@.skip(i as int).skip(1) =~= y@.skip(i + 1));
        r
    }
}

/// Decides `bytes_lt` on two byte strings.
pub fn bytes_lt_exec(x: &Vec<u8>, y: &Vec<u8>) -> (r: bool)
    ensures
        r == bytes_lt(x@, y@),
{
    let r = bytes_lt_from(x, y, 0);
    assert(x@.skip(0) =~= x@);
    assert(y@.skip(0) =~= y@);
    r
}

/// Decides the language's equality on two values.
pub fn value_eq(x: &Value, y: &Value) -> (r: bool)
    ensures
        r == lang_eq(x@, y@),
{
    match (x, y) {
        (Value::Nil, Value::Nil) => true,
        (Value::Bool(a), Value::Bool(b)) => *a == *b,
        (Value::Number(a), Value::Number(b)) => *a == *b,
        (Value::Str(a), Value::Str(b)) => bytes_eq(a, b),
        (Value::Table(a), Value::Table(b)) => *a == *b,
        (Value::Function(Function::Print), Value::Function(Function::Print)) => true,
        (Value::Function(Function::Closure(a)), Value::Function(Function::Closure(b))) => *a == *b,
        _ => false,
    }
}

/// Decides truthiness.
pub fn is_truthy(v: &Value) -> (r: bool)
    ensures
        r == truthy(v@),
{
    match v {
        Value::Nil => false,
        Value::Bool(b) => *b,
        _ => true,
    }
}

/// Applies a binary arithmetic operator.
pub fn apply_arith(op: &BinOp, a: Value, b: Value) -> (r: Result<Value, Stop>)
    ensures
        res_v(r) == arith_v(*op, a@, b@),
{
    match (&a, &b) {
        (Value::Number(x), Value::Number(y)) => match op {
            BinOp::Addition => Ok(Value::Number(x.wrapping_add(*y))),
            BinOp::Subtraction => Ok(Value::Number(x.wrapping_sub(*y))),
            BinOp::Multiplication => Ok(Value::Number(x.wrapping_mul(*y))),
            _ => Err(Stop::Fault(Fault::TypeMismatch)),
        },
        _ => Err(Stop::Fault(Fault::TypeMismatch)),
    }
}

/// Applies arithmetic negation.
pub fn apply_neg(a: Value) -> (r: Result<Value, Stop>)
    ensures
        res_v(r) == neg_v(a@),
{
    match &a {
        Value::Number(x) => Ok(Value::Number(0i64.wrapping_sub(*x))),
        _ => Err(Stop::Fault(Fault::TypeMismatch)),
    }
}

/// Decides `<` between two values.
pub fn value_lt(a: &Value, b: &Value) -> (r: Result<bool, Stop>)
    ensures
        r == lt_v(a@, b@),
{
    match (a, b) {
        (Value::Number(x), Value::Number(y)) => Ok(*x < *y),
        (Value::Str(x), Value::Str(y)) => Ok(bytes_lt_exec(x, y)),
        _ => Err(Stop::Fault(Fault::TypeMismatch)),
    }
}

/// Decides `<=` between two values.
pub fn value_le(a: &Value, b: &Value) -> (r: Result<bool, Stop>)
    ensures
        r == le_v(a@, b@),
{
    match (a, b) {
        (Value::Number(x), Value::Number(y)) => Ok(*x <= *y),
        (Value::Str(x), Value::Str(y)) => Ok(!bytes_lt_exec(y, x)),
        _ => Err(Stop::Fault(Fault::TypeMismatch)),
    }
}

/// Coerces a value to a table key.
pub fn as_table_key(v: Value) -> (r: Result<Value, Stop>)
    ensures
        res_v(r) == as_key_v(v@),
{
    match &v {
        Value::Table(_) => Err(Stop::Fault(Fault::InvalidKey)),
        Value::Function(_) => Err(Stop::Fault(Fault::InvalidKey)),
        _ => Ok(v),
    }
}

} // verus!
