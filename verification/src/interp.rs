//! The executable evaluator.
//!
//! Each `interp` method is proved to return exactly the value and to leave
//! exactly the machine state that the big-step semantics in [`crate::sem`]
//! prescribes, for every program, environment and fuel bound.
use vstd::prelude::*;

use crate::ast::{Block, Stat_, Exp_, Var, FunctionCall, Args, Fields, UnOp, BinOp};
use crate::value::{Value, Function, Fault, Stop, res_v, clone_bytes, is_truthy, value_eq,
    value_lt, value_le, apply_arith, apply_neg, as_table_key, render_line_exec};
use crate::machine::{Interp, StateV, opt_v, vals_v, pairs_v, state_ok, env_ok, val_ok, grows,
    lemma_val_ok_grow, lemma_tbl_acc_ok, tbl_acc_exec, tbl_acc};
use crate::sem::{sem_block, sem_stat, sem_call, sem_args, sem_fields, sem_exp};

verus! {

impl Block {
    /// Evaluates this block: extends the local chain with the declared
    /// names (all `nil`), runs the body, then evaluates and returns the
    /// result expression in the same extended environment.
    pub fn interp<'ast>(
        &'ast self,
        h: Option<usize>,
        st: &mut Interp<'ast>,
        fuel: u64,
    ) -> (r: Result<Value, Stop>)
        requires
            state_ok(old(st)@),
            env_ok(old(st)@, opt_v(h)),
        ensures
            state_ok(final(st)@),
            grows(old(st)@, final(st)@),
            ({
                let (s2, res) = sem_block(old(st)@, opt_v(h), *self, fuel as nat);
                &&& final(st)@ == s2
                &&& res_v(r) == res
            }),
            r matches Ok(v) ==> val_ok(final(st)@, v@),
        decreases fuel, *self,
    {
        let novals: Vec<Value> = Vec::new();
        assert(vals_v(novals@) =~= Seq::<crate::value::ValueV>::empty());
        let h2 = st.extend(h, &self.locals, &novals, 0);
        match self.body.interp(h2, st, fuel) {
            Err(er) => Err(er),
            Ok(_) => self.ret.interp(h2, st, fuel),
        }
    }
}

impl Stat_ {
    /// Executes this statement for effect.
    #[verifier::rlimit(100)]
    pub fn interp<'ast>(
        &'ast self,
        h: Option<usize>,
        st: &mut Interp<'ast>,
        fuel: u64,
    ) -> (r: Result<(), Stop>)
        requires
            state_ok(old(st)@),
            env_ok(old(st)@, opt_v(h)),
        ensures
            state_ok(final(st)@),
            grows(old(st)@, final(st)@),
            ({
                let (s2, res) = sem_stat(old(st)@, opt_v(h), *self, fuel as nat);
                &&& final(st)@ == s2
                &&& r == res
            }),
        decreases fuel, *self,
    {
        match self {
            Stat_::Nop => Ok(()),
            Stat_::Sequence(t1, t2) => {
                match t1.interp(h, st, fuel) {
                    Err(er) => Err(er),
                    Ok(_) => t2.interp(h, st, fuel),
                }
            },
            Stat_::StatFunctionCall(fc) => {
                match fc.interp(h, st, fuel) {
                    Err(er) => Err(er),
                    Ok(_) => Ok(()),
                }
            },
            Stat_::Assign(target, e) => {
                let val = match e.interp(h, st, fuel) {
                    Err(er) => return Err(er),
                    Ok(v) => v,
                };
                match target {
                    Var::Name(n) => {
                        st.set(h, n, val);
                        Ok(())
                    },
                    Var::IndexTable(e1, e2) => {
                        let ghost s_val = st@;
                        let base = match e1.interp(h, st, fuel) {
                            Err(er) => return Err(er),
                            Ok(v) => v,
                        };
                        match base {
                            Value::Table(ti) => {
                                let ghost s_base = st@;
                                let kv = match e2.interp(h, st, fuel) {
                                    Err(er) => return Err(er),
                                    Ok(v) => v,
                                };
                                match as_table_key(kv) {
                                    Err(er) => Err(er),
                                    Ok(key) => {
                                        proof {
                                            lemma_val_ok_grow(s_val, st@, val@);
                                            lemma_val_ok_grow(s_base, st@, base@);
                                        }
                                        st.table_set(ti, key, val);
                                        Ok(())
                                    },
                                }
                            },
                            _ => Err(Stop::Fault(Fault::TypeMismatch)),
                        }
                    },
                }
            },
            Stat_::If(e, t1, t2) => {
                let c = match e.interp(h, st, fuel) {
                    Err(er) => return Err(er),
                    Ok(v) => v,
                };
                if is_truthy(&c) {
                    t1.interp(h, st, fuel)
                } else {
                    t2.interp(h, st, fuel)
                }
            },
            Stat_::WhileDoEnd(e, body) => {
                let c = match e.interp(h, st, fuel) {
                    Err(er) => return Err(er),
                    Ok(v) => v,
                };
                if !is_truthy(&c) {
                    Ok(())
                } else {
                    match body.interp(h, st, fuel) {
                        Err(er) => return Err(er),
                        Ok(_) => {},
                    }
                    if fuel == 0 {
                        Err(Stop::OutOfFuel)
                    } else {
                        self.interp(h, st, fuel - 1)
                    }
                }
            },
        }
    }
}

impl FunctionCall {
    /// Evaluates this call: the callee first (a fault if it is not a
    /// function), then every argument left to right in the caller's
    /// environment, then dispatch to `print` or to the closure's body
    /// under its captured chain, parameters bound in order (missing ones
    /// to `nil`, surplus arguments discarded).
    #[verifier::rlimit(100)]
    pub fn interp<'ast>(
        &'ast self,
        h: Option<usize>,
        st: &mut Interp<'ast>,
        fuel: u64,
    ) -> (r: Result<Value, Stop>)
        requires
            state_ok(old(st)@),
            env_ok(old(st)@, opt_v(h)),
        ensures
            state_ok(final(st)@),
            grows(old(st)@, final(st)@),
            ({
                let (s2, res) = sem_call(old(st)@, opt_v(h), *self, fuel as nat);
                &&& final(st)@ == s2
                &&& res_v(r) == res
            }),
            r matches Ok(v) ==> val_ok(final(st)@, v@),
        decreases fuel, *self,
    {
        let fv = match self.0.interp(h, st, fuel) {
            Err(er) => return Err(er),
            Ok(v) => v,
        };
        match fv {
            Value::Function(Function::Print) => {
                let ghost s_callee = st@;
                let mut args: Vec<Value> = Vec::new();
                match self.1.interp(h, st, fuel, &mut args) {
                    Err(er) => return Err(er),
                    Ok(_) => {},
                }
                let line = render_line_exec(&args);
                proof {
                    let (sb, ra) = sem_args(s_callee, opt_v(h), self.1, fuel as nat);
                    assert(vals_v(args@) =~= ra.unwrap());
                    assert(args@.map_values(|v: Value| v@) =~= vals_v(args@));
                }
                st.push_output(line);
                Ok(Value::Nil)
            },
            Value::Function(Function::Closure(ci)) => {
                let ghost s_callee = st@;
                let mut args: Vec<Value> = Vec::new();
                match self.1.interp(h, st, fuel, &mut args) {
                    Err(er) => return Err(er),
                    Ok(_) => {},
                }
                proof {
                    lemma_val_ok_grow(s_callee, st@, fv@);
                }
                if fuel == 0 {
                    return Err(Stop::OutOfFuel);
                }
                let params = st.closures[ci].params;
                let cenv = st.closures[ci].env;
                let body = st.closures[ci].body;
                proof {
                    let (sb, ra) = sem_args(s_callee, opt_v(h), self.1, fuel as nat);
                    assert(st@.closures[ci as int] == st.closures@[ci as int]@);
                    assert(vals_v(args@) =~= ra.unwrap());
                }
                let h2 = st.extend(cenv, params, &args, 0);
                body.interp(h2, st, fuel - 1)
            },
            _ => Err(Stop::Fault(Fault::TypeMismatch)),
        }
    }
}

impl Args {
    /// Evaluates the argument list left to right, appending the values to
    /// `out`.
    pub fn interp<'ast>(
        &'ast self,
        h: Option<usize>,
        st: &mut Interp<'ast>,
        fuel: u64,
        out: &mut Vec<Value>,
    ) -> (r: Result<(), Stop>)
        requires
            state_ok(old(st)@),
            env_ok(old(st)@, opt_v(h)),
            forall|j: int|
                0 <= j < old(out)@.len() ==> val_ok(old(st)@, (#[trigger] old(out)@[j])@),
        ensures
            state_ok(final(st)@),
            grows(old(st)@, final(st)@),
            ({
                let (s2, res) = sem_args(old(st)@, opt_v(h), *self, fuel as nat);
                &&& final(st)@ == s2
                &&& match res {
                    Ok(vs) => r == Result::<(), Stop>::Ok(()) && vals_v(final(out)@) == vals_v(
                        old(out)@,
                    ).add(vs),
                    Err(er) => r == Result::<(), Stop>::Err(er),
                }
            }),
            forall|j: int|
                0 <= j < final(out)@.len() ==> val_ok(final(st)@, (#[trigger] final(out)@[j])@),
        decreases fuel, *self,
    {
        match self {
            Args::Empty => {
                assert(vals_v(out@) =~= vals_v(out@).add(Seq::<crate::value::ValueV>::empty()));
                Ok(())
            },
            Args::More(e, rest) => {
                let ghost s0 = st@;
                let ghost out0 = out@;
                let v = match e.interp(h, st, fuel) {
                    Err(er) => return Err(er),
                    Ok(v) => v,
                };
                out.push(v);
                proof {
                    assert forall|j: int| 0 <= j < out@.len() implies val_ok(
                        st@,
                        (#[trigger] out@[j])@,
                    ) by {
                        if j < out0.len() {
                            lemma_val_ok_grow(s0, st@, out0[j]@);
                        }
                    }
                }
                let ghost s1 = st@;
                let ghost out1 = out@;
                let r = rest.interp(h, st, fuel, out);
                match r {
                    Err(er) => Err(er),
                    Ok(_) => {
                        proof {
                            let (sb, rr) = sem_args(s1, opt_v(h), **rest, fuel as nat);
                            assert(vals_v(out1) =~= vals_v(out0).push(v@));
                            assert(vals_v(out@) =~= vals_v(out0).add(
                                seq![v@].add(rr.unwrap()),
                            ));
                        }
                        Ok(())
                    },
                }
            },
        }
    }
}

impl Fields {
    /// Evaluates the `(key, value)` pairs of a table constructor in
    /// written order, appending them to `out`: each key expression, its
    /// coercion to a table key, then the value expression.
    pub fn interp<'ast>(
        &'ast self,
        h: Option<usize>,
        st: &mut Interp<'ast>,
        fuel: u64,
        out: &mut Vec<(Value, Value)>,
    ) -> (r: Result<(), Stop>)
        requires
            state_ok(old(st)@),
            env_ok(old(st)@, opt_v(h)),
            forall|j: int|
                0 <= j < old(out)@.len() ==> val_ok(old(st)@, (#[trigger] old(out)@[j]).0@)
                    && val_ok(old(st)@, old(out)@[j].1@),
        ensures
            state_ok(final(st)@),
            grows(old(st)@, final(st)@),
            ({
                let (s2, res) = sem_fields(old(st)@, opt_v(h), *self, fuel as nat);
                &&& final(st)@ == s2
                &&& match res {
                    Ok(ps) => r == Result::<(), Stop>::Ok(()) && pairs_v(final(out)@) == pairs_v(
                        old(out)@,
                    ).add(ps),
                    Err(er) => r == Result::<(), Stop>::Err(er),
                }
            }),
            forall|j: int|
                0 <= j < final(out)@.len() ==> val_ok(final(st)@, (#[trigger] final(out)@[j]).0@)
                    && val_ok(final(st)@, final(out)@[j].1@),
        decreases fuel, *self,
    {
        match self {
            Fields::Empty => {
                assert(pairs_v(out@) =~= pairs_v(out@).add(
                    Seq::<(crate::value::ValueV, crate::value::ValueV)>::empty(),
                ));
                Ok(())
            },
            Fields::More(ke, ve, rest) => {
                let ghost s0 = st@;
                let ghost out0 = out@;
                let kv = match ke.interp(h, st, fuel) {
                    Err(er) => return Err(er),
                    Ok(v) => v,
                };
                let key = match as_table_key(kv) {
                    Err(er) => return Err(er),
                    Ok(k) => k,
                };
                let ghost s_key = st@;
                let v = match ve.interp(h, st, fuel) {
                    Err(er) => return Err(er),
                    Ok(v) => v,
                };
                proof {
                    lemma_val_ok_grow(s_key, st@, key@);
                }
                out.push((key, v));
                proof {
                    assert forall|j: int| 0 <= j < out@.len() implies val_ok(
                        st@,
                        (#[trigger] out@[j]).0@,
                    ) && val_ok(st@, out@[j].1@) by {
                        if j < out0.len() {
                            lemma_val_ok_grow(s0, st@, out0[j].0@);
                            lemma_val_ok_grow(s0, st@, out0[j].1@);
                        }
                    }
                }
                let ghost s1 = st@;
                let ghost out1 = out@;
                let r = rest.interp(h, st, fuel, out);
                match r {
                    Err(er) => Err(er),
                    Ok(_) => {
                        proof {
                            let (sc, rr) = sem_fields(s1, opt_v(h), **rest, fuel as nat);
                            assert(pairs_v(out1) =~= pairs_v(out0).push((key@, v@)));
                            assert(pairs_v(out@) =~= pairs_v(out0).add(
                                seq![(key@, v@)].add(rr.unwrap()),
                            ));
                        }
                        Ok(())
                    },
                }
            },
        }
    }
}

impl Exp_ {
    /// Evaluates this expression.
    #[verifier::rlimit(100)]
    pub fn interp<'ast>(
        &'ast self,
        h: Option<usize>,
        st: &mut Interp<'ast>,
        fuel: u64,
    ) -> (r: Result<Value, Stop>)
        requires
            state_ok(old(st)@),
            env_ok(old(st)@, opt_v(h)),
        ensures
            state_ok(final(st)@),
            grows(old(st)@, final(st)@),
            ({
                let (s2, res) = sem_exp(old(st)@, opt_v(h), *self, fuel as nat);
                &&& final(st)@ == s2
                &&& res_v(r) == res
            }),
            r matches Ok(v) ==> val_ok(final(st)@, v@),
        decreases fuel, *self,
    {
        match self {
            Exp_::Number(n) => Ok(Value::Number(*n)),
            Exp_::LiteralString(txt) => Ok(Value::Str(clone_bytes(txt))),
            Exp_::True => Ok(Value::Bool(true)),
            Exp_::False => Ok(Value::Bool(false)),
            Exp_::Nil => Ok(Value::Nil),
            Exp_::Var(target) => match target {
                Var::Name(n) => Ok(st.lookup(h, n)),
                Var::IndexTable(e1, e2) => {
                    let base = match e1.interp(h, st, fuel) {
                        Err(er) => return Err(er),
                        Ok(v) => v,
                    };
                    match base {
                        Value::Table(ti) => {
                            let ghost s_base = st@;
                            let kv = match e2.interp(h, st, fuel) {
                                Err(er) => return Err(er),
                                Ok(v) => v,
                            };
                            proof {
                                lemma_val_ok_grow(s_base, st@, base@);
                            }
                            match as_table_key(kv) {
                                Err(er) => Err(er),
                                Ok(key) => match st.table_get(ti, &key) {
                                    Some(v) => Ok(v),
                                    None => Ok(Value::Nil),
                                },
                            }
                        },
                        _ => Ok(Value::Nil),
                    }
                },
            },
            Exp_::UnOp(op, e1) => {
                let v = match e1.interp(h, st, fuel) {
                    Err(er) => return Err(er),
                    Ok(v) => v,
                };
                match op {
                    UnOp::Not => Ok(Value::Bool(!is_truthy(&v))),
                    UnOp::UnaryMinus => apply_neg(v),
                }
            },
            Exp_::BinOp(op, e1, e2) => match op {
                BinOp::LogicalAnd => {
                    let v = match e1.interp(h, st, fuel) {
                        Err(er) => return Err(er),
                        Ok(v) => v,
                    };
                    match &v {
                        Value::Nil => Ok(Value::Nil),
                        _ => {
                            if is_truthy(&v) {
                                e2.interp(h, st, fuel)
                            } else {
                                Ok(Value::Bool(false))
                            }
                        },
                    }
                },
                BinOp::LogicalOr => {
                    let v = match e1.interp(h, st, fuel) {
                        Err(er) => return Err(er),
                        Ok(v) => v,
                    };
                    let take_right = match &v {
                        Value::Nil => true,
                        Value::Bool(b) => !*b,
                        _ => false,
                    };
                    if take_right {
                        e2.interp(h, st, fuel)
                    } else {
                        Ok(v)
                    }
                },
                BinOp::Greater => {
                    let v2 = match e2.interp(h, st, fuel) {
                        Err(er) => return Err(er),
                        Ok(v) => v,
                    };
                    let v1 = match e1.interp(h, st, fuel) {
                        Err(er) => return Err(er),
                        Ok(v) => v,
                    };
                    match value_lt(&v2, &v1) {
                        Ok(b) => Ok(Value::Bool(b)),
                        Err(er) => Err(er),
                    }
                },
                BinOp::GreaterEq => {
                    let v2 = match e2.interp(h, st, fuel) {
                        Err(er) => return Err(er),
                        Ok(v) => v,
                    };
                    let v1 = match e1.interp(h, st, fuel) {
                        Err(er) => return Err(er),
                        Ok(v) => v,
                    };
                    match value_le(&v2, &v1) {
                        Ok(b) => Ok(Value::Bool(b)),
                        Err(er) => Err(er),
                    }
                },
                _ => {
                    let v1 = match e1.interp(h, st, fuel) {
                        Err(er) => return Err(er),
                        Ok(v) => v,
                    };
                    let v2 = match e2.interp(h, st, fuel) {
                        Err(er) => return Err(er),
                        Ok(v) => v,
                    };
                    match op {
                        BinOp::Equality => Ok(Value::Bool(value_eq(&v1, &v2))),
                        BinOp::Inequality => Ok(Value::Bool(!value_eq(&v1, &v2))),
                        BinOp::Less => match value_lt(&v1, &v2) {
                            Ok(b) => Ok(Value::Bool(b)),
                            Err(er) => Err(er),
                        },
                        BinOp::LessEq => match value_le(&v1, &v2) {
                            Ok(b) => Ok(Value::Bool(b)),
                            Err(er) => Err(er),
                        },
                        _ => apply_arith(op, v1, v2),
                    }
                },
            },
            Exp_::ExpFunctionCall(f) => f.interp(h, st, fuel),
            Exp_::FunctionDef(fb) => {
                let ci = st.alloc_closure(&fb.0, h, &fb.1);
                Ok(Value::Function(Function::Closure(ci)))
            },
            Exp_::Table(fs) => {
                let mut pv: Vec<(Value, Value)> = Vec::new();
                match fs.interp(h, st, fuel, &mut pv) {
                    Err(er) => return Err(er),
                    Ok(_) => {},
                }
                let mut tv: Vec<(Value, Value)> = Vec::new();
                assert(pairs_v(tv@) =~= Seq::<
                    (crate::value::ValueV, crate::value::ValueV),
                >::empty());
                tbl_acc_exec(&mut tv, &pv, 0);
                proof {
                    let (sa, rp) = sem_fields(old(st)@, opt_v(h), *fs, fuel as nat);
                    assert(pairs_v(pv@) =~= rp.unwrap());
                    assert forall|j: int| 0 <= j < pv@.len() implies val_ok(
                        st@,
                        (#[trigger] pairs_v(pv@)[j]).0,
                    ) && val_ok(st@, pairs_v(pv@)[j].1) by {
                        assert(pairs_v(pv@)[j] == (pv@[j].0@, pv@[j].1@));
                    }
                    lemma_tbl_acc_ok(st@, Seq::empty(), pairs_v(pv@), 0);
                    assert(pairs_v(tv@) == tbl_acc(Seq::empty(), pairs_v(pv@), 0));
                    assert forall|j: int| 0 <= j < tv@.len() implies val_ok(
                        st@,
                        (#[trigger] tv@[j]).0@,
                    ) && val_ok(st@, tv@[j].1@) by {
                        assert(pairs_v(tv@)[j] == (tv@[j].0@, tv@[j].1@));
                    }
                }
                let ti = st.alloc_table(tv);
                Ok(Value::Table(ti))
            },
        }
    }
}

} // verus!
