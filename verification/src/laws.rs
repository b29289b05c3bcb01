//! Laws of the language, stated against the big-step semantics and proved
//! once and for all: arithmetic totality on numbers, table identity,
//! truthiness, short-circuit evaluation, and the immunity of captured
//! environments to later bindings (lexical scoping).
use vstd::prelude::*;

use crate::ast::{Exp_, Fields, UnOp, BinOp};
use crate::value::{ValueV, Fault, Stop, truthy, lang_eq, arith_v, wrap_add, wrap_sub, wrap_mul};
use crate::machine::{StateV, FrameV, val_ok, chain_find, chain_lookup, tbl_find, tbl_get,
    tbl_insert, lemma_tbl_find_in_range};
use crate::sem::{sem_exp, sem_fields};

verus! {

/// On two numbers, `+`, `-` and `*` produce exactly the wrap-around
/// machine result.
pub proof fn lemma_arith_numbers(x: i64, y: i64)
    ensures
        arith_v(BinOp::Addition, ValueV::Number(x), ValueV::Number(y)) == Ok::<ValueV, Stop>(
            ValueV::Number(wrap_add(x, y)),
        ),
        arith_v(BinOp::Subtraction, ValueV::Number(x), ValueV::Number(y)) == Ok::<ValueV, Stop>(
            ValueV::Number(wrap_sub(x, y)),
        ),
        arith_v(BinOp::Multiplication, ValueV::Number(x), ValueV::Number(y)) == Ok::<ValueV, Stop>(
            ValueV::Number(wrap_mul(x, y)),
        ),
{
}

/// Any arithmetic operand that is not a number is a `TypeMismatch` fault.
pub proof fn lemma_arith_type_fault(op: BinOp, a: ValueV, b: ValueV)
    requires
        op == BinOp::Addition || op == BinOp::Subtraction || op == BinOp::Multiplication,
        !(a matches ValueV::Number(_)) || !(b matches ValueV::Number(_)),
    ensures
        arith_v(op, a, b) == Err::<ValueV, Stop>(Stop::Fault(Fault::TypeMismatch)),
{
}

/// At evaluator level: once both operands of an arithmetic expression
/// have evaluated, the result is exactly `arith_v` of their values in the
/// state the second operand left behind.
pub proof fn lemma_eval_arithmetic(
    s: StateV,
    h: Option<int>,
    op: BinOp,
    e1: Box<Exp_>,
    e2: Box<Exp_>,
    fuel: nat,
)
    requires
        op == BinOp::Addition || op == BinOp::Subtraction || op == BinOp::Multiplication,
    ensures
        ({
            let (sa, r1) = sem_exp(s, h, *e1, fuel);
            let (sb, r2) = sem_exp(sa, h, *e2, fuel);
            r1 matches Ok(a) ==> (r2 matches Ok(b) ==> sem_exp(
                s,
                h,
                Exp_::BinOp(op, e1, e2),
                fuel,
            ) == (sb, arith_v(op, a, b)))
        }),
{
}

/// Truthiness: only `nil` and `false` are false; `0`, the empty string
/// and `true` are all true.
pub proof fn lemma_truthiness()
    ensures
        !truthy(ValueV::Nil),
        !truthy(ValueV::Bool(false)),
        truthy(ValueV::Bool(true)),
        truthy(ValueV::Number(0)),
        truthy(ValueV::Str(Seq::empty())),
{
}

/// `not` evaluates to the boolean complement of its operand's truthiness.
pub proof fn lemma_eval_not(s: StateV, h: Option<int>, e1: Box<Exp_>, fuel: nat)
    ensures
        ({
            let (sa, r) = sem_exp(s, h, *e1, fuel);
            r matches Ok(v) ==> sem_exp(s, h, Exp_::UnOp(UnOp::Not, e1), fuel) == (
                sa,
                Ok::<ValueV, Stop>(ValueV::Bool(!truthy(v))),
            )
        }),
{
}

/// Short-circuit of `and`: when the left operand is `nil` or `false`, the
/// whole expression leaves exactly the state the left operand left — the
/// right operand's side effects do not occur.
pub proof fn lemma_and_short_circuit(
    s: StateV,
    h: Option<int>,
    e1: Box<Exp_>,
    e2: Box<Exp_>,
    fuel: nat,
)
    ensures
        ({
            let (sa, r) = sem_exp(s, h, *e1, fuel);
            &&& (r == Ok::<ValueV, Stop>(ValueV::Nil) ==> sem_exp(
                s,
                h,
                Exp_::BinOp(BinOp::LogicalAnd, e1, e2),
                fuel,
            ) == (sa, Ok::<ValueV, Stop>(ValueV::Nil)))
            &&& (r == Ok::<ValueV, Stop>(ValueV::Bool(false)) ==> sem_exp(
                s,
                h,
                Exp_::BinOp(BinOp::LogicalAnd, e1, e2),
                fuel,
            ) == (sa, Ok::<ValueV, Stop>(ValueV::Bool(false))))
        }),
{
}

/// Short-circuit of `or`: when the left operand is truthy, the whole
/// expression is that value and leaves exactly the state the left operand
/// left — the right operand's side effects do not occur.
pub proof fn lemma_or_short_circuit(
    s: StateV,
    h: Option<int>,
    e1: Box<Exp_>,
    e2: Box<Exp_>,
    fuel: nat,
)
    ensures
        ({
            let (sa, r) = sem_exp(s, h, *e1, fuel);
            r matches Ok(v) ==> (truthy(v) ==> sem_exp(
                s,
                h,
                Exp_::BinOp(BinOp::LogicalOr, e1, e2),
                fuel,
            ) == (sa, Ok::<ValueV, Stop>(v)))
        }),
{
}

/// Language equality on tables is identity of the shared storage.
pub proof fn lemma_table_eq_identity(i: int, j: int)
    ensures
        lang_eq(ValueV::Table(i), ValueV::Table(j)) <==> i == j,
{
}

/// A handle at or past the end of the table arena differs from every
/// value the state holds — so a freshly allocated table compares unequal
/// to every previously existing one, however equal their contents.
pub proof fn lemma_fresh_table_unequal(s: StateV, v: ValueV, t: int)
    requires
        val_ok(s, v),
        t >= s.tables.len(),
    ensures
        !lang_eq(ValueV::Table(t), v),
{
}

/// A table constructor yields a handle to fresh storage: its result
/// compares unequal to every table value existing when construction
/// finished, and equal to its own copies.
pub proof fn lemma_constructed_table_distinct(
    s: StateV,
    h: Option<int>,
    fs: Fields,
    fuel: nat,
    v: ValueV,
)
    requires
        ({
            let (sa, rp) = sem_fields(s, h, fs, fuel);
            rp is Ok && val_ok(sa, v)
        }),
    ensures
        ({
            let (s2, res) = sem_exp(s, h, Exp_::Table(fs), fuel);
            &&& res matches Ok(tv)
            &&& res matches Ok(tv) ==> !lang_eq(tv, v) && lang_eq(tv, tv)
        }),
{
    let (sa, rp) = sem_fields(s, h, fs, fuel);
    lemma_fresh_table_unequal(sa, v, sa.tables.len() as int);
}

/// Lexical scoping: extending the frame arena — as later declarations,
/// blocks and calls do — never changes what an existing chain handle
/// resolves, so a closure's captured environment is immune to bindings
/// created after its definition.
pub proof fn lemma_chain_immune_to_extension(
    frames: Seq<FrameV>,
    more: Seq<FrameV>,
    h: Option<int>,
    name: Seq<u8>,
)
    requires
        match h {
            Option::None => true,
            Option::Some(i) => 0 <= i < frames.len(),
        },
    ensures
        chain_find(frames.add(more), h, name) == chain_find(frames, h, name),
        chain_lookup(frames.add(more), h, name) == chain_lookup(frames, h, name),
    decreases crate::machine::chain_measure(h),
{
    match h {
        Option::None => {},
        Option::Some(i) => {
            assert(frames.add(more)[i] == frames[i]);
            if frames[i].name == name {
            } else {
                match frames[i].parent {
                    Option::None => {},
                    Option::Some(p) => {
                        if 0 <= p < i {
                            lemma_chain_immune_to_extension(
                                frames,
                                more,
                                Option::Some(p),
                                name,
                            );
                        }
                    },
                }
            }
        },
    }
}

/// The language's equality is reflexive.
pub proof fn lemma_lang_eq_refl(v: ValueV)
    ensures
        lang_eq(v, v),
{
}

/// Table aliasing: a write is read back through any alias of the same
/// table — looking up the written key finds exactly the written value.
pub proof fn lemma_insert_get(t: Seq<(ValueV, ValueV)>, k: ValueV, v: ValueV)
    ensures
        tbl_get(tbl_insert(t, k, v), k) == Option::Some(v),
{
    lemma_lang_eq_refl(k);
    lemma_tbl_find_in_range(t, k, 0);
    match tbl_find(t, k, 0) {
        Option::Some(i) => {
            let t2 = t.update(i, (t[i].0, v));
            lemma_find_stable_prefix(t, t2, k, 0, i);
        },
        Option::None => {
            let t2 = t.push((k, v));
            lemma_find_appended(t, k, v, 0);
        },
    }
}

/// When a scan is known to stop at `m` and only position `m` changed (its
/// key kept), the scan over the updated table stops at `m` too.
proof fn lemma_find_stable_prefix(
    t: Seq<(ValueV, ValueV)>,
    t2: Seq<(ValueV, ValueV)>,
    k: ValueV,
    i: int,
    m: int,
)
    requires
        0 <= i <= m < t.len(),
        t2.len() == t.len(),
        forall|j: int| 0 <= j < t.len() && j != m ==> t2[j] == t[j],
        lang_eq(t2[m].0, k),
        tbl_find(t, k, i) == Option::Some(m),
    ensures
        tbl_find(t2, k, i) == Option::Some(m),
    decreases m - i,
{
    if i < m {
        lemma_find_stable_prefix(t, t2, k, i + 1, m);
    }
}

/// When no entry from `i` on matches `k`, the scan over the table with
/// `(k, v)` appended stops exactly at the appended entry.
proof fn lemma_find_appended(t: Seq<(ValueV, ValueV)>, k: ValueV, v: ValueV, i: int)
    requires
        0 <= i <= t.len(),
        tbl_find(t, k, i) == Option::None::<int>,
        lang_eq(k, k),
    ensures
        tbl_find(t.push((k, v)), k, i) == Option::Some(t.len() as int),
    decreases t.len() - i,
{
    if i < t.len() {
        assert(t.push((k, v))[i] == t[i]);
        lemma_find_appended(t, k, v, i + 1);
    } else {
        assert(t.push((k, v))[i] == (k, v));
    }
}

} // verus!
