//! End-to-end tests: programs are built as syntax trees, run through the
//! verified evaluator, and their printed lines and outcome checked.
use minilua::ast::{Block, Stat_, Exp_, Var, FunctionCall, FunctionBody, Args, Fields, UnOp, BinOp};
use minilua::value::{Fault, Stop};
use minilua::{run, RunResult};

fn name(s: &str) -> Vec<u8> {
    s.as_bytes().to_vec()
}

fn num(n: i64) -> Exp_ {
    Exp_::Number(n)
}

fn text(s: &str) -> Exp_ {
    Exp_::LiteralString(name(s))
}

fn var(s: &str) -> Exp_ {
    Exp_::Var(Var::Name(name(s)))
}

fn index(base: Exp_, key: Exp_) -> Exp_ {
    Exp_::Var(Var::IndexTable(Box::new(base), Box::new(key)))
}

fn binop(op: BinOp, a: Exp_, b: Exp_) -> Exp_ {
    Exp_::BinOp(op, Box::new(a), Box::new(b))
}

fn args(mut v: Vec<Exp_>) -> Args {
    let mut a = Args::Empty;
    while let Some(e) = v.pop() {
        a = Args::More(Box::new(e), Box::new(a));
    }
    a
}

fn call(f: Exp_, a: Args) -> FunctionCall {
    FunctionCall(Box::new(f), a)
}

fn call_exp(f: Exp_, a: Args) -> Exp_ {
    Exp_::ExpFunctionCall(Box::new(call(f, a)))
}

fn print_stat(v: Vec<Exp_>) -> Stat_ {
    Stat_::StatFunctionCall(Box::new(call(var("print"), args(v))))
}

fn assign(s: &str, e: Exp_) -> Stat_ {
    Stat_::Assign(Var::Name(name(s)), Box::new(e))
}

fn assign_index(base: Exp_, key: Exp_, e: Exp_) -> Stat_ {
    Stat_::Assign(Var::IndexTable(Box::new(base), Box::new(key)), Box::new(e))
}

fn stats(mut v: Vec<Stat_>) -> Stat_ {
    let mut s = Stat_::Nop;
    while let Some(t) = v.pop() {
        s = Stat_::Sequence(Box::new(t), Box::new(s));
    }
    s
}

fn lambda(params: Vec<&str>, body: Stat_, ret: Exp_) -> Exp_ {
    let ps = params.into_iter().map(name).collect::<Vec<_>>();
    Exp_::FunctionDef(Box::new(FunctionBody(ps, Block { locals: vec![], body, ret })))
}

fn fields(mut v: Vec<(Exp_, Exp_)>) -> Fields {
    let mut f = Fields::Empty;
    while let Some((k, e)) = v.pop() {
        f = Fields::More(Box::new(k), Box::new(e), Box::new(f));
    }
    f
}

fn table(v: Vec<(Exp_, Exp_)>) -> Exp_ {
    Exp_::Table(fields(v))
}

fn program(body: Stat_) -> Block {
    Block { locals: vec![], body, ret: Exp_::Nil }
}

fn lines(r: &RunResult) -> Vec<String> {
    r.output.iter().map(|l| String::from_utf8(l.clone()).unwrap()).collect()
}

fn run_ok(b: &Block) -> Vec<String> {
    let r = run(b, 100000);
    assert_eq!(r.stop, None);
    lines(&r)
}

#[test]
fn while_loop_counts_to_four() {
    // x = 1; while x < 5 do print(x); x = x + 1 end
    let p = program(stats(vec![
        assign("x", num(1)),
        Stat_::WhileDoEnd(
            Box::new(binop(BinOp::Less, var("x"), num(5))),
            Box::new(stats(vec![
                print_stat(vec![var("x")]),
                assign("x", binop(BinOp::Addition, var("x"), num(1))),
            ])),
        ),
    ]));
    assert_eq!(run_ok(&p), vec!["1", "2", "3", "4"]);
}

#[test]
fn table_mixed_keys() {
    // t = {}; t[1] = "a"; t["k"] = 2; print(t[1], t["k"], t[2])
    let p = program(stats(vec![
        assign("t", table(vec![])),
        assign_index(var("t"), num(1), text("a")),
        assign_index(var("t"), text("k"), num(2)),
        print_stat(vec![
            index(var("t"), num(1)),
            index(var("t"), text("k")),
            index(var("t"), num(2)),
        ]),
    ]));
    assert_eq!(run_ok(&p), vec!["a\t2\tnil"]);
}

#[test]
fn undefined_global_call_faults() {
    // foo() -- calling nil is a type mismatch
    let p = program(Stat_::StatFunctionCall(Box::new(call(var("foo"), args(vec![])))));
    let r = run(&p, 1000);
    assert_eq!(r.stop, Some(Stop::Fault(Fault::TypeMismatch)));
    assert!(r.output.is_empty());
}

#[test]
fn missing_argument_binds_nil_then_faults() {
    // function f(a, b) return a + b end; print(f(2))
    let p = program(stats(vec![
        assign(
            "f",
            lambda(vec!["a", "b"], Stat_::Nop, binop(BinOp::Addition, var("a"), var("b"))),
        ),
        print_stat(vec![call_exp(var("f"), args(vec![num(2)]))]),
    ]));
    let r = run(&p, 1000);
    assert_eq!(r.stop, Some(Stop::Fault(Fault::TypeMismatch)));
    assert!(r.output.is_empty());
}

#[test]
fn truthiness_of_nil_false_zero_empty() {
    // print(not nil, not false, not 0, not "")
    let p = program(print_stat(vec![
        Exp_::UnOp(UnOp::Not, Box::new(Exp_::Nil)),
        Exp_::UnOp(UnOp::Not, Box::new(Exp_::False)),
        Exp_::UnOp(UnOp::Not, Box::new(num(0))),
        Exp_::UnOp(UnOp::Not, Box::new(text(""))),
    ]));
    assert_eq!(run_ok(&p), vec!["true\ttrue\tfalse\tfalse"]);
}

#[test]
fn and_short_circuit_skips_side_effects() {
    // x = nil and print("skipped"); y = false and print("skipped"); print(2)
    let p = program(stats(vec![
        assign(
            "x",
            binop(BinOp::LogicalAnd, Exp_::Nil, call_exp(var("print"), args(vec![text("skipped")]))),
        ),
        assign(
            "y",
            binop(
                BinOp::LogicalAnd,
                Exp_::False,
                call_exp(var("print"), args(vec![text("skipped")])),
            ),
        ),
        print_stat(vec![var("x"), var("y")]),
    ]));
    assert_eq!(run_ok(&p), vec!["nil\tfalse"]);
}

#[test]
fn or_short_circuit_skips_side_effects() {
    // x = 1 or print("skipped"); print(x)
    let p = program(stats(vec![
        assign(
            "x",
            binop(BinOp::LogicalOr, num(1), call_exp(var("print"), args(vec![text("skipped")]))),
        ),
        print_stat(vec![var("x")]),
    ]));
    assert_eq!(run_ok(&p), vec!["1"]);
}

#[test]
fn and_with_truthy_left_takes_right() {
    // z = 1 and 2; w = nil or 3; print(z, w)
    let p = program(stats(vec![
        assign("z", binop(BinOp::LogicalAnd, num(1), num(2))),
        assign("w", binop(BinOp::LogicalOr, Exp_::Nil, num(3))),
        print_stat(vec![var("z"), var("w")]),
    ]));
    assert_eq!(run_ok(&p), vec!["2\t3"]);
}

#[test]
fn closures_are_lexical_not_dynamic() {
    // f = function() return x end
    // g = function(x) return f() end
    // print(g(99)) -- lexical scoping: f does not see g's x
    let p = program(stats(vec![
        assign("f", lambda(vec![], Stat_::Nop, var("x"))),
        assign("g", lambda(vec!["x"], Stat_::Nop, call_exp(var("f"), args(vec![])))),
        print_stat(vec![call_exp(var("g"), args(vec![num(99)]))]),
    ]));
    assert_eq!(run_ok(&p), vec!["nil"]);
}

#[test]
fn closure_captures_definition_environment() {
    // h = function(y) return function() return y end end
    // c = h(7); print(c())
    let p = program(stats(vec![
        assign(
            "h",
            lambda(vec!["y"], Stat_::Nop, lambda(vec![], Stat_::Nop, var("y"))),
        ),
        assign("c", call_exp(var("h"), args(vec![num(7)]))),
        print_stat(vec![call_exp(var("c"), args(vec![]))]),
    ]));
    assert_eq!(run_ok(&p), vec!["7"]);
}

#[test]
fn tables_compare_by_identity() {
    // t1 = {}; t2 = {}; u = t1; print(t1 == t2, t1 == u, t1 ~= t2)
    let p = program(stats(vec![
        assign("t1", table(vec![])),
        assign("t2", table(vec![])),
        assign("u", var("t1")),
        print_stat(vec![
            binop(BinOp::Equality, var("t1"), var("t2")),
            binop(BinOp::Equality, var("t1"), var("u")),
            binop(BinOp::Inequality, var("t1"), var("t2")),
        ]),
    ]));
    assert_eq!(run_ok(&p), vec!["false\ttrue\ttrue"]);
}

#[test]
fn table_write_visible_through_alias() {
    // t = {}; u = t; t[1] = "v"; print(u[1])
    let p = program(stats(vec![
        assign("t", table(vec![])),
        assign("u", var("t")),
        assign_index(var("t"), num(1), text("v")),
        print_stat(vec![index(var("u"), num(1))]),
    ]));
    assert_eq!(run_ok(&p), vec!["v"]);
}

#[test]
fn arithmetic_exact_results() {
    // print(2 + 3, 7 - 4, 6 * 7, 0 - 5)
    let p = program(print_stat(vec![
        binop(BinOp::Addition, num(2), num(3)),
        binop(BinOp::Subtraction, num(7), num(4)),
        binop(BinOp::Multiplication, num(6), num(7)),
        binop(BinOp::Subtraction, num(0), num(5)),
    ]));
    assert_eq!(run_ok(&p), vec!["5\t3\t42\t-5"]);
}

#[test]
fn arithmetic_on_non_number_faults() {
    // x = 1 + "a"
    let p = program(assign("x", binop(BinOp::Addition, num(1), text("a"))));
    let r = run(&p, 1000);
    assert_eq!(r.stop, Some(Stop::Fault(Fault::TypeMismatch)));
}

#[test]
fn unary_minus() {
    // print(-(5)); then -"a" faults
    let p = program(print_stat(vec![Exp_::UnOp(UnOp::UnaryMinus, Box::new(num(5)))]));
    assert_eq!(run_ok(&p), vec!["-5"]);
    let q = program(assign("x", Exp_::UnOp(UnOp::UnaryMinus, Box::new(text("a")))));
    let r = run(&q, 1000);
    assert_eq!(r.stop, Some(Stop::Fault(Fault::TypeMismatch)));
}

#[test]
fn ordering_numbers_and_strings() {
    // print(1 < 2, 2 <= 2, 3 > 2, "a" < "b", "b" >= "a", "ab" < "b")
    let p = program(print_stat(vec![
        binop(BinOp::Less, num(1), num(2)),
        binop(BinOp::LessEq, num(2), num(2)),
        binop(BinOp::Greater, num(3), num(2)),
        binop(BinOp::Less, text("a"), text("b")),
        binop(BinOp::GreaterEq, text("b"), text("a")),
        binop(BinOp::Less, text("ab"), text("b")),
    ]));
    assert_eq!(run_ok(&p), vec!["true\ttrue\ttrue\ttrue\ttrue\ttrue"]);
}

#[test]
fn ordering_mixed_types_faults() {
    let p = program(assign("x", binop(BinOp::Less, num(1), text("a"))));
    let r = run(&p, 1000);
    assert_eq!(r.stop, Some(Stop::Fault(Fault::TypeMismatch)));
}

#[test]
fn infinite_loop_runs_out_of_fuel() {
    // while true do end
    let p = program(Stat_::WhileDoEnd(Box::new(Exp_::True), Box::new(Stat_::Nop)));
    let r = run(&p, 10);
    assert_eq!(r.stop, Some(Stop::OutOfFuel));
}

#[test]
fn surplus_arguments_evaluated_then_dropped() {
    // g = function(a) return a end; print(g(1, print("eff")))
    let p = program(stats(vec![
        assign("g", lambda(vec!["a"], Stat_::Nop, var("a"))),
        print_stat(vec![call_exp(
            var("g"),
            args(vec![num(1), call_exp(var("print"), args(vec![text("eff")]))]),
        )]),
    ]));
    assert_eq!(run_ok(&p), vec!["eff", "1"]);
}

#[test]
fn constructor_pairs_last_write_wins() {
    // t = { [1] = "x", ["k"] = 5, [1] = "y" }; print(t[1], t["k"])
    let p = program(stats(vec![
        assign(
            "t",
            table(vec![(num(1), text("x")), (text("k"), num(5)), (num(1), text("y"))]),
        ),
        print_stat(vec![index(var("t"), num(1)), index(var("t"), text("k"))]),
    ]));
    assert_eq!(run_ok(&p), vec!["y\t5"]);
}

#[test]
fn table_as_key_is_invalid() {
    // t = {}; t[{}] = 1
    let p = program(stats(vec![
        assign("t", table(vec![])),
        assign_index(var("t"), table(vec![]), num(1)),
    ]));
    let r = run(&p, 1000);
    assert_eq!(r.stop, Some(Stop::Fault(Fault::InvalidKey)));
}

#[test]
fn constructor_key_of_table_is_invalid() {
    // t = { [{}] = 1 }
    let p = program(assign("t", table(vec![(table(vec![]), num(1))])));
    let r = run(&p, 1000);
    assert_eq!(r.stop, Some(Stop::Fault(Fault::InvalidKey)));
}

#[test]
fn reading_through_non_table_yields_nil() {
    // x = 5; print(x[1])
    let p = program(stats(vec![
        assign("x", num(5)),
        print_stat(vec![index(var("x"), num(1))]),
    ]));
    assert_eq!(run_ok(&p), vec!["nil"]);
}

#[test]
fn writing_through_non_table_faults() {
    // x = 5; x[1] = 2
    let p = program(stats(vec![
        assign("x", num(5)),
        assign_index(var("x"), num(1), num(2)),
    ]));
    let r = run(&p, 1000);
    assert_eq!(r.stop, Some(Stop::Fault(Fault::TypeMismatch)));
}

#[test]
fn zero_is_truthy_in_conditionals() {
    // if 0 then print("t") else print("f") end
    let p = program(Stat_::If(
        Box::new(num(0)),
        Box::new(print_stat(vec![text("t")])),
        Box::new(print_stat(vec![text("f")])),
    ));
    assert_eq!(run_ok(&p), vec!["t"]);
}

#[test]
fn tables_and_functions_print_as_tags() {
    // t = {}; print(t, print)
    let p = program(stats(vec![
        assign("t", table(vec![])),
        print_stat(vec![var("t"), var("print")]),
    ]));
    assert_eq!(run_ok(&p), vec!["table\tfunction"]);
}

#[test]
fn no_cross_type_equality() {
    // print(1 == "1", nil == false)
    let p = program(print_stat(vec![
        binop(BinOp::Equality, num(1), text("1")),
        binop(BinOp::Equality, Exp_::Nil, Exp_::False),
    ]));
    assert_eq!(run_ok(&p), vec!["false\tfalse"]);
}

#[test]
fn print_without_arguments_emits_empty_line() {
    let p = program(print_stat(vec![]));
    assert_eq!(run_ok(&p), vec![""]);
}

#[test]
fn block_locals_shadow_and_default_to_nil() {
    // x = 1; f = function() local x; return x end ... via a block with a local
    let p = program(stats(vec![
        assign("x", num(1)),
        assign(
            "f",
            Exp_::FunctionDef(Box::new(FunctionBody(
                vec![],
                Block {
                    locals: vec![name("x")],
                    body: Stat_::Nop,
                    ret: var("x"),
                },
            ))),
        ),
        print_stat(vec![call_exp(var("f"), args(vec![])), var("x")]),
    ]));
    assert_eq!(run_ok(&p), vec!["nil\t1"]);
}

#[test]
fn assignment_reaches_nearest_local_binding() {
    // f = function(x) x = x * 2; return x end; y = f(21); print(y, x)
    let p = program(stats(vec![
        assign(
            "f",
            lambda(
                vec!["x"],
                assign("x", binop(BinOp::Multiplication, var("x"), num(2))),
                var("x"),
            ),
        ),
        assign("y", call_exp(var("f"), args(vec![num(21)]))),
        print_stat(vec![var("y"), var("x")]),
    ]));
    assert_eq!(run_ok(&p), vec!["42\tnil"]);
}
