//! The typed expression tree and the reference interpreter, the oracle
//! against which machine-code execution is cross-checked.

use vstd::prelude::*;

verus! {

/// An expression: an integer literal, or a unary increment or decrement of a
/// child expression. Each non-leaf owns exactly one child, so the tree has no
/// sharing and no cycles.
#[derive(Debug)]
pub enum Expr {
    Num(i32),
    Add1(Box<Expr>),
    Sub1(Box<Expr>),
}

/// The mathematical value of an expression: a literal is itself, `add1` adds
/// one, `sub1` subtracts one.
pub open spec fn eval(e: Expr) -> int
    decreases e,
{
    match e {
        Expr::Num(n) => n as int,
        Expr::Add1(sub) => 1 + eval(*sub),
        Expr::Sub1(sub) => eval(*sub) - 1,
    }
}

/// Whether the value of every node of the expression fits the accumulator's
/// 32-bit signed width, so that evaluation never overflows.
pub open spec fn eval_fits(e: Expr) -> bool
    decreases e,
{
    &&& i32::MIN <= eval(e) <= i32::MAX
    &&& match e {
        Expr::Num(_) => true,
        Expr::Add1(sub) => eval_fits(*sub),
        Expr::Sub1(sub) => eval_fits(*sub),
    }
}

/// The number of `add1`/`sub1` wrapper nodes in the expression.
pub open spec fn count_wrappers(e: Expr) -> nat
    decreases e,
{
    match e {
        Expr::Num(_) => 0,
        Expr::Add1(sub) => 1 + count_wrappers(*sub),
        Expr::Sub1(sub) => 1 + count_wrappers(*sub),
    }
}

/// The reference interpreter: evaluates the expression directly.
pub fn interp(e: &Expr) -> (r: i32)
    requires
        eval_fits(*e),
    ensures
        r as int == eval(*e),
    decreases *e,
{
    match e {
        Expr::Num(n) => *n,
        Expr::Add1(sub) => 1 + interp(sub),
        Expr::Sub1(sub) => interp(sub) - 1,
    }
}

/// The reference interpreter with the overflow check made at run time:
/// returns the expression's value exactly when no intermediate value leaves
/// the 32-bit signed range, and `None` otherwise.
pub fn try_interp(e: &Expr) -> (r: Option<i32>)
    ensures
        match r {
            Some(v) => eval_fits(*e) && v as int == eval(*e),
            None => !eval_fits(*e),
        },
    decreases *e,
{
    match e {
        Expr::Num(n) => Some(*n),
        Expr::Add1(sub) => match try_interp(sub) {
            Some(v) => v.checked_add(1),
            None => None,
        },
        Expr::Sub1(sub) => match try_interp(sub) {
            Some(v) => v.checked_sub(1),
            None => None,
        },
    }
}

} // verus!
