//! A verified tree-walking evaluator for a small dynamically-typed
//! scripting language in the Lua family: numbers, byte strings, booleans,
//! nil, mutable associative tables, first-class closures, conditional and
//! loop control flow, short-circuit logical operators, and one built-in
//! (`print`).
//!
//! The evaluator consumes an immutable syntax tree ([`ast`]) and computes
//! by structural recursion, bounded by an explicit fuel so that every run
//! terminates: a run either completes, faults, or reports that the fuel ran
//! out.  Printed lines are collected in the machine state rather than
//! written to a sink, so the whole engine is free of I/O and fully
//! verified against the big-step semantics in [`sem`].
use vstd::prelude::*;

pub mod ast;
pub mod interp;
pub mod machine;
pub mod sem;
pub mod value;

pub mod laws;

use crate::ast::Block;
use crate::value::{Value, Function, Stop};
use crate::machine::{Interp, state_ok};
use crate::sem::{sem_run, init_state, print_name};

verus! {

/// What a whole run produced: every line `print` emitted, in program
/// order (each without its terminating newline), and `None` when the
/// program ran to completion or `Some` reason it stopped early.  Output
/// printed before a fault remains visible.
pub struct RunResult {
    pub output: Vec<Vec<u8>>,
    pub stop: Option<Stop>,
}

/// Runs a whole program: evaluates the root block in a fresh machine
/// state whose globals hold only the built-in `print`, bounded by `fuel`
/// loop iterations and closure calls.  Returns exactly the output and
/// outcome prescribed by the big-step semantics.
pub fn run(ast: &Block, fuel: u64) -> (r: RunResult)
    ensures
        ({
            let (s2, res) = sem_run(*ast, fuel as nat);
            &&& r.output@.map_values(|l: Vec<u8>| l@) == s2.output
            &&& match res {
                Ok(v) => r.stop is None,
                Err(e) => r.stop == Some(e),
            }
        }),
{
    let mut pname: Vec<u8> = Vec::new();
    pname.push(112);
    pname.push(114);
    pname.push(105);
    pname.push(110);
    pname.push(116);
    assert(pname@ =~= print_name());
    let mut globals: Vec<(Vec<u8>, Value)> = Vec::new();
    globals.push((pname, Value::Function(Function::Print)));
    let mut st = Interp {
        globals,
        frames: Vec::new(),
        tables: Vec::new(),
        closures: Vec::new(),
        output: Vec::new(),
    };
    proof {
        assert(st@ =~~= init_state());
        assert(state_ok(st@));
    }
    let res = ast.interp(None, &mut st, fuel);
    let stop = match res {
        Ok(_) => None,
        Err(e) => Some(e),
    };
    let ghost out_v = st@.output;
    let out = st.output;
    proof {
        assert(out@.map_values(|l: Vec<u8>| l@) =~= out_v);
    }
    RunResult { output: out, stop }
}

} // verus!
