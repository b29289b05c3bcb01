//! Big-step semantics of the language: one spec function per syntactic
//! category, mapping a machine state and a node to the state and outcome
//! after evaluating it.  This is the specification the executable
//! evaluator in [`crate::interp`] is proved equal to.
//!
//! Evaluation is bounded by `fuel`: each loop iteration and each closure
//! call consumes one unit, and exhaustion is the distinguished outcome
//! `Stop::OutOfFuel` — a program that diverges never silently produces a
//! value.
use vstd::prelude::*;

use crate::ast::{Block, Stat_, Exp_, Var, FunctionCall, Args, Fields, UnOp, BinOp};
use crate::value::{ValueV, FunV, Fault, Stop, truthy, lang_eq, arith_v, neg_v, lt_v, le_v,
    as_key_v, render_line};
use crate::machine::{StateV, ClosureV, extend_v, assign_name_v, env_lookup, tbl_get, tbl_insert,
    tbl_acc};

verus! {

/// The name under which the built-in `print` is installed.
pub open spec fn print_name() -> Seq<u8> {
    seq![112u8, 114u8, 105u8, 110u8, 116u8]
}

/// Evaluates a block: extends the chain with the declared locals (all
/// `nil`), runs the body statement, then evaluates the result expression
/// in the same extended environment.
pub open spec fn sem_block(s: StateV, h: Option<int>, b: Block, fuel: nat) -> (StateV, Result<
    ValueV,
    Stop,
>)
    decreases fuel, b,
{
    let ext = extend_v(s.frames, h, b.locals@, Seq::empty(), 0);
    let s2 = StateV { frames: ext.0, ..s };
    let (s3, r) = sem_stat(s2, ext.1, b.body, fuel);
    match r {
        Err(e) => (s3, Err(e)),
        Ok(u) => sem_exp(s3, ext.1, b.ret, fuel),
    }
}

/// Executes a statement for effect.
pub open spec fn sem_stat(s: StateV, h: Option<int>, t: Stat_, fuel: nat) -> (StateV, Result<
    (),
    Stop,
>)
    decreases fuel, t,
{
    match t {
        Stat_::Nop => (s, Ok(())),
        Stat_::Sequence(t1, t2) => {
            let (sa, r) = sem_stat(s, h, *t1, fuel);
            match r {
                Err(e) => (sa, Err(e)),
                Ok(u) => sem_stat(sa, h, *t2, fuel),
            }
        },
        Stat_::StatFunctionCall(fc) => {
            let (sa, r) = sem_call(s, h, *fc, fuel);
            match r {
                Err(e) => (sa, Err(e)),
                Ok(v) => (sa, Ok(())),
            }
        },
        Stat_::Assign(target, e) => {
            let (sa, r) = sem_exp(s, h, *e, fuel);
            match r {
                Err(er) => (sa, Err(er)),
                Ok(val) => match target {
                    Var::Name(n) => (assign_name_v(sa, h, n@, val), Ok(())),
                    Var::IndexTable(e1, e2) => {
                        let (sb, r1) = sem_exp(sa, h, *e1, fuel);
                        match r1 {
                            Err(er) => (sb, Err(er)),
                            Ok(base) => match base {
                                ValueV::Table(ti) => {
                                    let (sc, r2) = sem_exp(sb, h, *e2, fuel);
                                    match r2 {
                                        Err(er) => (sc, Err(er)),
                                        Ok(kv) => match as_key_v(kv) {
                                            Err(er) => (sc, Err(er)),
                                            Ok(key) => if 0 <= ti < sc.tables.len() {
                                                (
                                                    StateV {
                                                        tables: sc.tables.update(
                                                            ti,
                                                            tbl_insert(sc.tables[ti], key, val),
                                                        ),
                                                        ..sc
                                                    },
                                                    Ok(()),
                                                )
                                            } else {
                                                (sc, Err(Stop::Fault(Fault::TypeMismatch)))
                                            },
                                        },
                                    }
                                },
                                _ => (sb, Err(Stop::Fault(Fault::TypeMismatch))),
                            },
                        }
                    },
                },
            }
        },
        Stat_::If(e, t1, t2) => {
            let (sa, r) = sem_exp(s, h, *e, fuel);
            match r {
                Err(er) => (sa, Err(er)),
                Ok(v) => if truthy(v) {
                    sem_stat(sa, h, *t1, fuel)
                } else {
                    sem_stat(sa, h, *t2, fuel)
                },
            }
        },
        Stat_::WhileDoEnd(e, body) => {
            let (sa, r) = sem_exp(s, h, *e, fuel);
            match r {
                Err(er) => (sa, Err(er)),
                Ok(v) => if !truthy(v) {
                    (sa, Ok(()))
                } else {
                    let (sb, r2) = sem_stat(sa, h, *body, fuel);
                    match r2 {
                        Err(er) => (sb, Err(er)),
                        Ok(u) => if fuel == 0 {
                            (sb, Err(Stop::OutOfFuel))
                        } else {
                            sem_stat(sb, h, t, (fuel - 1) as nat)
                        },
                    }
                },
            }
        },
    }
}

/// Evaluates a call: the callee first (a fault if it is not a function),
/// then every argument left to right in the caller's environment, then
/// dispatch to `print` or to the closure's body under its captured chain.
pub open spec fn sem_call(s: StateV, h: Option<int>, c: FunctionCall, fuel: nat) -> (StateV, Result<
    ValueV,
    Stop,
>)
    decreases fuel, c,
{
    let (sa, r) = sem_exp(s, h, *c.0, fuel);
    match r {
        Err(er) => (sa, Err(er)),
        Ok(fv) => match fv {
            ValueV::Function(FunV::Print) => {
                let (sb, ra) = sem_args(sa, h, c.1, fuel);
                match ra {
                    Err(er) => (sb, Err(er)),
                    Ok(vals) => (
                        StateV { output: sb.output.push(render_line(vals)), ..sb },
                        Ok(ValueV::Nil),
                    ),
                }
            },
            ValueV::Function(FunV::Closure(ci)) => {
                let (sb, ra) = sem_args(sa, h, c.1, fuel);
                match ra {
                    Err(er) => (sb, Err(er)),
                    Ok(vals) => if 0 <= ci < sb.closures.len() {
                        if fuel == 0 {
                            (sb, Err(Stop::OutOfFuel))
                        } else {
                            let cl = sb.closures[ci];
                            let ext = extend_v(sb.frames, cl.env, cl.params, vals, 0);
                            sem_block(
                                StateV { frames: ext.0, ..sb },
                                ext.1,
                                cl.body,
                                (fuel - 1) as nat,
                            )
                        }
                    } else {
                        (sb, Err(Stop::Fault(Fault::TypeMismatch)))
                    },
                }
            },
            _ => (sa, Err(Stop::Fault(Fault::TypeMismatch))),
        },
    }
}

/// Evaluates an argument list left to right.
pub open spec fn sem_args(s: StateV, h: Option<int>, a: Args, fuel: nat) -> (StateV, Result<
    Seq<ValueV>,
    Stop,
>)
    decreases fuel, a,
{
    match a {
        Args::Empty => (s, Ok(Seq::empty())),
        Args::More(e, rest) => {
            let (sa, r) = sem_exp(s, h, *e, fuel);
            match r {
                Err(er) => (sa, Err(er)),
                Ok(v) => {
                    let (sb, rr) = sem_args(sa, h, *rest, fuel);
                    match rr {
                        Err(er) => (sb, Err(er)),
                        Ok(vs) => (sb, Ok(seq![v].add(vs))),
                    }
                },
            }
        },
    }
}

/// Evaluates the `(key, value)` pairs of a table constructor in written
/// order: each key expression, its coercion to a table key, then the
/// value expression.
pub open spec fn sem_fields(s: StateV, h: Option<int>, fs: Fields, fuel: nat) -> (StateV, Result<
    Seq<(ValueV, ValueV)>,
    Stop,
>)
    decreases fuel, fs,
{
    match fs {
        Fields::Empty => (s, Ok(Seq::empty())),
        Fields::More(ke, ve, rest) => {
            let (sa, r) = sem_exp(s, h, *ke, fuel);
            match r {
                Err(er) => (sa, Err(er)),
                Ok(kv) => match as_key_v(kv) {
                    Err(er) => (sa, Err(er)),
                    Ok(k) => {
                        let (sb, r2) = sem_exp(sa, h, *ve, fuel);
                        match r2 {
                            Err(er) => (sb, Err(er)),
                            Ok(v) => {
                                let (sc, rr) = sem_fields(sb, h, *rest, fuel);
                                match rr {
                                    Err(er) => (sc, Err(er)),
                                    Ok(ps) => (sc, Ok(seq![(k, v)].add(ps))),
                                }
                            },
                        }
                    },
                },
            }
        },
    }
}

/// Evaluates an expression.
pub open spec fn sem_exp(s: StateV, h: Option<int>, e: Exp_, fuel: nat) -> (StateV, Result<
    ValueV,
    Stop,
>)
    decreases fuel, e,
{
    match e {
        Exp_::Number(n) => (s, Ok(ValueV::Number(n))),
        Exp_::LiteralString(txt) => (s, Ok(ValueV::Str(txt@))),
        Exp_::True => (s, Ok(ValueV::Bool(true))),
        Exp_::False => (s, Ok(ValueV::Bool(false))),
        Exp_::Nil => (s, Ok(ValueV::Nil)),
        Exp_::Var(target) => match target {
            Var::Name(n) => (s, Ok(env_lookup(s, h, n@))),
            Var::IndexTable(e1, e2) => {
                let (sa, r1) = sem_exp(s, h, *e1, fuel);
                match r1 {
                    Err(er) => (sa, Err(er)),
                    Ok(base) => match base {
                        ValueV::Table(ti) => {
                            let (sb, r2) = sem_exp(sa, h, *e2, fuel);
                            match r2 {
                                Err(er) => (sb, Err(er)),
                                Ok(kv) => match as_key_v(kv) {
                                    Err(er) => (sb, Err(er)),
                                    Ok(k) => if 0 <= ti < sb.tables.len() {
                                        match tbl_get(sb.tables[ti], k) {
                                            Option::Some(v) => (sb, Ok(v)),
                                            Option::None => (sb, Ok(ValueV::Nil)),
                                        }
                                    } else {
                                        (sb, Ok(ValueV::Nil))
                                    },
                                },
                            }
                        },
                        // Reading through a non-table yields nil without
                        // evaluating the key (tolerated, unlike writing).
                        _ => (sa, Ok(ValueV::Nil)),
                    },
                }
            },
        },
        Exp_::UnOp(op, e1) => {
            let (sa, r) = sem_exp(s, h, *e1, fuel);
            match r {
                Err(er) => (sa, Err(er)),
                Ok(v) => match op {
                    UnOp::Not => (sa, Ok(ValueV::Bool(!truthy(v)))),
                    UnOp::UnaryMinus => (sa, neg_v(v)),
                },
            }
        },
        // `Greater`/`GreaterEq` are the swapped-operand forms of
        // `Less`/`LessEq`, so their right operand is evaluated first; the
        // logical operators short-circuit.
        Exp_::BinOp(op, e1, e2) => match op {
            BinOp::LogicalAnd => {
                let (sa, r) = sem_exp(s, h, *e1, fuel);
                match r {
                    Err(er) => (sa, Err(er)),
                    Ok(v) => if v == ValueV::Nil {
                        (sa, Ok(ValueV::Nil))
                    } else if truthy(v) {
                        sem_exp(sa, h, *e2, fuel)
                    } else {
                        (sa, Ok(ValueV::Bool(false)))
                    },
                }
            },
            BinOp::LogicalOr => {
                let (sa, r) = sem_exp(s, h, *e1, fuel);
                match r {
                    Err(er) => (sa, Err(er)),
                    Ok(v) => if v == ValueV::Nil || v == ValueV::Bool(false) {
                        sem_exp(sa, h, *e2, fuel)
                    } else {
                        (sa, Ok(v))
                    },
                }
            },
            BinOp::Greater => {
                let (sa, r2) = sem_exp(s, h, *e2, fuel);
                match r2 {
                    Err(er) => (sa, Err(er)),
                    Ok(v2) => {
                        let (sb, r1) = sem_exp(sa, h, *e1, fuel);
                        match r1 {
                            Err(er) => (sb, Err(er)),
                            Ok(v1) => match lt_v(v2, v1) {
                                Ok(b) => (sb, Ok(ValueV::Bool(b))),
                                Err(er) => (sb, Err(er)),
                            },
                        }
                    },
                }
            },
            BinOp::GreaterEq => {
                let (sa, r2) = sem_exp(s, h, *e2, fuel);
                match r2 {
                    Err(er) => (sa, Err(er)),
                    Ok(v2) => {
                        let (sb, r1) = sem_exp(sa, h, *e1, fuel);
                        match r1 {
                            Err(er) => (sb, Err(er)),
                            Ok(v1) => match le_v(v2, v1) {
                                Ok(b) => (sb, Ok(ValueV::Bool(b))),
                                Err(er) => (sb, Err(er)),
                            },
                        }
                    },
                }
            },
            _ => {
                let (sa, r1) = sem_exp(s, h, *e1, fuel);
                match r1 {
                    Err(er) => (sa, Err(er)),
                    Ok(v1) => {
                        let (sb, r2) = sem_exp(sa, h, *e2, fuel);
                        match r2 {
                            Err(er) => (sb, Err(er)),
                            Ok(v2) => match op {
                                BinOp::Equality => (sb, Ok(ValueV::Bool(lang_eq(v1, v2)))),
                                BinOp::Inequality => (sb, Ok(ValueV::Bool(!lang_eq(v1, v2)))),
                                BinOp::Less => match lt_v(v1, v2) {
                                    Ok(b) => (sb, Ok(ValueV::Bool(b))),
                                    Err(er) => (sb, Err(er)),
                                },
                                BinOp::LessEq => match le_v(v1, v2) {
                                    Ok(b) => (sb, Ok(ValueV::Bool(b))),
                                    Err(er) => (sb, Err(er)),
                                },
                                _ => (sb, arith_v(op, v1, v2)),
                            },
                        }
                    },
                }
            },
        },
        Exp_::ExpFunctionCall(f) => sem_call(s, h, *f, fuel),
        Exp_::FunctionDef(fb) => (
            StateV {
                closures: s.closures.push(
                    ClosureV { params: fb.0@, env: h, body: fb.1 },
                ),
                ..s
            },
            Ok(ValueV::Function(FunV::Closure(s.closures.len() as int))),
        ),
        Exp_::Table(fs) => {
            let (sa, rp) = sem_fields(s, h, fs, fuel);
            match rp {
                Err(er) => (sa, Err(er)),
                Ok(pairs) => (
                    StateV { tables: sa.tables.push(tbl_acc(Seq::empty(), pairs, 0)), ..sa },
                    Ok(ValueV::Table(sa.tables.len() as int)),
                ),
            }
        },
    }
}

/// The initial machine state: empty arenas and a global map holding only
/// the built-in `print`.
pub open spec fn init_state() -> StateV {
    StateV {
        globals: seq![(print_name(), ValueV::Function(FunV::Print))],
        frames: Seq::empty(),
        tables: Seq::empty(),
        closures: Seq::empty(),
        output: Seq::empty(),
    }
}

/// A whole program run: the root block evaluated in the initial state.
pub open spec fn sem_run(b: Block, fuel: nat) -> (StateV, Result<ValueV, Stop>) {
    sem_block(init_state(), Option::None, b, fuel)
}

} // verus!
