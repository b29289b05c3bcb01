//! Syntax tree for the interpreted language.
//!
//! The tree is built once by a parser (an external collaborator) and is
//! immutable for the whole run.  Names and string literals are byte strings.
use vstd::prelude::*;

verus! {

/// A scope unit: locally declared names, a statement body, and a trailing
/// result expression.
pub struct Block {
    pub locals: Vec<Vec<u8>>,
    pub body: Stat_,
    pub ret: Exp_,
}

/// Statements, executed for effect only.
pub enum Stat_ {
    Nop,
    Sequence(Box<Stat_>, Box<Stat_>),
    StatFunctionCall(Box<FunctionCall>),
    Assign(Var, Box<Exp_>),
    If(Box<Exp_>, Box<Stat_>, Box<Stat_>),
    WhileDoEnd(Box<Exp_>, Box<Stat_>),
}

/// Assignment / reference targets.
pub enum Var {
    Name(Vec<u8>),
    IndexTable(Box<Exp_>, Box<Exp_>),
}

/// A call: callee expression and argument list.
pub struct FunctionCall(pub Box<Exp_>, pub Args);

/// Argument list of a call, in source order.
pub enum Args {
    Empty,
    More(Box<Exp_>, Box<Args>),
}

/// `(key, value)` pairs of a table constructor, in written order.
pub enum Fields {
    Empty,
    More(Box<Exp_>, Box<Exp_>, Box<Fields>),
}

/// Parameter names and body of a function definition.
pub struct FunctionBody(pub Vec<Vec<u8>>, pub Block);

/// Expressions.
pub enum Exp_ {
    Number(i64),
    LiteralString(Vec<u8>),
    True,
    False,
    Nil,
    Var(Var),
    UnOp(UnOp, Box<Exp_>),
    BinOp(BinOp, Box<Exp_>, Box<Exp_>),
    ExpFunctionCall(Box<FunctionCall>),
    FunctionDef(Box<FunctionBody>),
    Table(Fields),
}

pub enum UnOp {
    Not,
    UnaryMinus,
}

pub enum BinOp {
    Addition,
    Subtraction,
    Multiplication,
    Equality,
    Inequality,
    Less,
    LessEq,
    Greater,
    GreaterEq,
    LogicalAnd,
    LogicalOr,
}

} // verus!
