//! Evaluation of coefficients and expressions where names have values.
//!
//! The arithmetic is that of 32-bit integers: division rounds toward zero,
//! the remainder has the sign of the dividend, and a result that does not
//! fit is an error.

use crate::affine::value_of;
use crate::arith::{div_rem, trunc_div, trunc_rem};
use crate::assoc::{find_key, named};
use crate::representations::affine_expr::{AffineExpr, Coeff, CoeffModel, ExprModel};
use crate::representations::simplify::{coeff_value, expr_value, fits};
use vstd::prelude::*;

verus! {

/// Why an expression has no value.
#[derive(Debug, PartialEq)]
pub enum EvalError {
    /// A name has no value.
    UnboundVariable(String),
    /// A divisor is zero.
    DivisionByZero,
    /// A result does not fit in 32 bits.
    Overflow,
}

pub enum EvalErrorModel {
    UnboundVariable(Seq<char>),
    DivisionByZero,
    Overflow,
}

impl View for EvalError {
    type V = EvalErrorModel;

    open spec fn view(&self) -> EvalErrorModel {
        match self {
            EvalError::UnboundVariable(n) => EvalErrorModel::UnboundVariable(n@),
            EvalError::DivisionByZero => EvalErrorModel::DivisionByZero,
            EvalError::Overflow => EvalErrorModel::Overflow,
        }
    }
}

/// The value of an evaluation.
pub open spec fn eval_outcome(r: Result<i32, EvalError>) -> Result<i32, EvalErrorModel> {
    match r {
        Ok(v) => Ok(v),
        Err(e) => Err(e@),
    }
}

/// A number as a 32-bit integer, or an overflow.
pub open spec fn checked(v: int) -> Result<i32, EvalErrorModel> {
    if fits(v) {
        Ok(v as i32)
    } else {
        Err(EvalErrorModel::Overflow)
    }
}

/// The value of a name.
pub open spec fn name_value(env: Seq<(Seq<char>, i32)>, n: Seq<char>) -> Result<
    i32,
    EvalErrorModel,
> {
    match value_of(env, n) {
        Some(v) => Ok(v),
        None => Err(EvalErrorModel::UnboundVariable(n)),
    }
}

/// The value of a coefficient, its factors taken from the left; the first
/// failure is the result.
pub open spec fn coeff_eval(c: CoeffModel, env: Seq<(Seq<char>, i32)>) -> Result<
    i32,
    EvalErrorModel,
>
    decreases c,
{
    match c {
        CoeffModel::Const(v) => Ok(v),
        CoeffModel::ConstVar(n) => name_value(env, n),
        CoeffModel::Mul(a, b) => match coeff_eval(*a, env) {
            Err(e) => Err(e),
            Ok(x) => match coeff_eval(*b, env) {
                Err(e) => Err(e),
                Ok(y) => checked(x * y),
            },
        },
    }
}

/// The quotient of two numbers, or the reason why there is none.
pub open spec fn quotient(x: i32, k: i32) -> Result<i32, EvalErrorModel> {
    if k == 0 {
        Err(EvalErrorModel::DivisionByZero)
    } else {
        checked(trunc_div(x as int, k as int))
    }
}

/// The remainder of two numbers, or the reason why there is none.
pub open spec fn remainder(x: i32, k: i32) -> Result<i32, EvalErrorModel> {
    if k == 0 {
        Err(EvalErrorModel::DivisionByZero)
    } else {
        Ok(trunc_rem(x as int, k as int) as i32)
    }
}

/// The value of an expression, its operands taken in the order in which
/// they are written; the first failure is the result.
pub open spec fn expr_eval(e: ExprModel, env: Seq<(Seq<char>, i32)>) -> Result<
    i32,
    EvalErrorModel,
>
    decreases e,
{
    match e {
        ExprModel::Var(n) => name_value(env, n),
        ExprModel::Const(v) => Ok(v),
        ExprModel::Add(a, b) => match expr_eval(*a, env) {
            Err(x) => Err(x),
            Ok(x) => match expr_eval(*b, env) {
                Err(y) => Err(y),
                Ok(y) => checked(x + y),
            },
        },
        ExprModel::Sub(a, b) => match expr_eval(*a, env) {
            Err(x) => Err(x),
            Ok(x) => match expr_eval(*b, env) {
                Err(y) => Err(y),
                Ok(y) => checked(x - y),
            },
        },
        ExprModel::Mul(c, x) => match coeff_eval(c, env) {
            Err(k) => Err(k),
            Ok(k) => match expr_eval(*x, env) {
                Err(y) => Err(y),
                Ok(y) => checked(k * y),
            },
        },
        ExprModel::Div(x, c) => match expr_eval(*x, env) {
            Err(y) => Err(y),
            Ok(y) => match coeff_eval(c, env) {
                Err(k) => Err(k),
                Ok(k) => quotient(y, k),
            },
        },
        ExprModel::Mod(x, c) => match expr_eval(*x, env) {
            Err(y) => Err(y),
            Ok(y) => match coeff_eval(c, env) {
                Err(k) => Err(k),
                Ok(k) => remainder(y, k),
            },
        },
    }
}

fn lookup(vars: &Vec<(String, i32)>, name: &String) -> (r: Result<i32, EvalError>)
    ensures
        eval_outcome(r) == name_value(named(vars@), name@),
{
    match find_key(vars, name) {
        Some(i) => Ok(vars[i].1),
        None => Err(EvalError::UnboundVariable(name.clone())),
    }
}

fn checked_i64(v: i64) -> (r: Result<i32, EvalError>)
    ensures
        eval_outcome(r) == checked(v as int),
{
    if -2147483648 <= v && v <= 2147483647 {
        Ok(v as i32)
    } else {
        Err(EvalError::Overflow)
    }
}

fn product(x: i32, y: i32) -> (r: Result<i32, EvalError>)
    ensures
        eval_outcome(r) == checked(x * y),
{
    assert(-4611686018427387904 <= x * y <= 4611686018427387904) by (nonlinear_arith)
        requires
            -2147483648 <= x <= 2147483647,
            -2147483648 <= y <= 2147483647,
    ;
    checked_i64((x as i64) * (y as i64))
}

fn divide(x: i32, k: i32) -> (r: Result<i32, EvalError>)
    ensures
        eval_outcome(r) == quotient(x, k),
{
    if k == 0 {
        Err(EvalError::DivisionByZero)
    } else if x == i32::MIN && k == -1 {
        assert(trunc_div(x as int, k as int) == 2147483648);
        Err(EvalError::Overflow)
    } else {
        Ok(div_rem(x, k).0)
    }
}

fn modulo(x: i32, k: i32) -> (r: Result<i32, EvalError>)
    ensures
        eval_outcome(r) == remainder(x, k),
{
    if k == 0 {
        Err(EvalError::DivisionByZero)
    } else if k == -1 {
        assert(trunc_rem(x as int, k as int) == 0) by {
            let a = if x >= 0 {
                x as int
            } else {
                -(x as int)
            };
            assert(a % 1 == 0);
        }
        Ok(0)
    } else {
        Ok(div_rem(x, k).1)
    }
}

impl Coeff {
    /// The value of the coefficient where the names have the given values.
    pub fn evaluate(&self, vars: &Vec<(String, i32)>) -> (r: Result<i32, EvalError>)
        ensures
            eval_outcome(r) == coeff_eval(self@, named(vars@)),
        decreases self,
    {
        match self {
            Coeff::Const(v) => Ok(*v),
            Coeff::ConstVar(n) => lookup(vars, n),
            Coeff::Mul(a, b) => {
                let x = match a.evaluate(vars) {
                    Ok(x) => x,
                    Err(e) => {
                        return Err(e);
                    },
                };
                let y = match b.evaluate(vars) {
                    Ok(y) => y,
                    Err(e) => {
                        return Err(e);
                    },
                };
                product(x, y)
            },
        }
    }
}

impl AffineExpr {
    /// The value of the expression where the names have the given values.
    /// Fails with `UnboundVariable` where a name has none.
    pub fn evaluate(&self, vars: &Vec<(String, i32)>) -> (r: Result<i32, EvalError>)
        ensures
            eval_outcome(r) == expr_eval(self@, named(vars@)),
        decreases self,
    {
        match self {
            AffineExpr::Var(n) => lookup(vars, n),
            AffineExpr::Const(v) => Ok(*v),
            AffineExpr::Add(a, b) => {
                let x = match a.evaluate(vars) {
                    Ok(x) => x,
                    Err(e) => {
                        return Err(e);
                    },
                };
                let y = match b.evaluate(vars) {
                    Ok(y) => y,
                    Err(e) => {
                        return Err(e);
                    },
                };
                checked_i64((x as i64) + (y as i64))
            },
            AffineExpr::Sub(a, b) => {
                let x = match a.evaluate(vars) {
                    Ok(x) => x,
                    Err(e) => {
                        return Err(e);
                    },
                };
                let y = match b.evaluate(vars) {
                    Ok(y) => y,
                    Err(e) => {
                        return Err(e);
                    },
                };
                checked_i64((x as i64) - (y as i64))
            },
            AffineExpr::Mul(c, x) => {
                let k = match c.evaluate(vars) {
                    Ok(k) => k,
                    Err(e) => {
                        return Err(e);
                    },
                };
                let y = match x.evaluate(vars) {
                    Ok(y) => y,
                    Err(e) => {
                        return Err(e);
                    },
                };
                product(k, y)
            },
            AffineExpr::Div(x, c) => {
                let y = match x.evaluate(vars) {
                    Ok(y) => y,
                    Err(e) => {
                        return Err(e);
                    },
                };
                let k = match c.evaluate(vars) {
                    Ok(k) => k,
                    Err(e) => {
                        return Err(e);
                    },
                };
                divide(y, k)
            },
            AffineExpr::Mod(x, c) => {
                let y = match x.evaluate(vars) {
                    Ok(y) => y,
                    Err(e) => {
                        return Err(e);
                    },
                };
                let k = match c.evaluate(vars) {
                    Ok(k) => k,
                    Err(e) => {
                        return Err(e);
                    },
                };
                modulo(y, k)
            },
        }
    }
}

/// The values of the names as a map.
pub open spec fn bindings(env: Seq<(Seq<char>, i32)>) -> Map<Seq<char>, int> {
    Map::new(
        |n: Seq<char>| value_of(env, n) is Some,
        |n: Seq<char>| value_of(env, n)->0 as int,
    )
}

/// The value that the evaluation of a coefficient gives is the number that
/// the coefficient stands for.
pub proof fn lemma_coeff_eval_value(c: CoeffModel, env: Seq<(Seq<char>, i32)>)
    requires
        coeff_eval(c, env) is Ok,
    ensures
        coeff_value(c, bindings(env)) == Some(coeff_eval(c, env)->Ok_0 as int),
    decreases c,
{
    match c {
        CoeffModel::Mul(a, b) => {
            lemma_coeff_eval_value(*a, env);
            lemma_coeff_eval_value(*b, env);
        },
        _ => {},
    }
}

/// The value that the evaluation of an expression gives is the number that
/// the expression stands for.
pub proof fn lemma_expr_eval_value(e: ExprModel, env: Seq<(Seq<char>, i32)>)
    requires
        expr_eval(e, env) is Ok,
    ensures
        expr_value(e, bindings(env)) == Some(expr_eval(e, env)->Ok_0 as int),
    decreases e,
{
    match e {
        ExprModel::Add(a, b) => {
            lemma_expr_eval_value(*a, env);
            lemma_expr_eval_value(*b, env);
        },
        ExprModel::Sub(a, b) => {
            lemma_expr_eval_value(*a, env);
            lemma_expr_eval_value(*b, env);
        },
        ExprModel::Mul(c, x) => {
            lemma_coeff_eval_value(c, env);
            lemma_expr_eval_value(*x, env);
        },
        ExprModel::Div(x, c) => {
            lemma_coeff_eval_value(c, env);
            lemma_expr_eval_value(*x, env);
        },
        ExprModel::Mod(x, c) => {
            lemma_coeff_eval_value(c, env);
            lemma_expr_eval_value(*x, env);
        },
        _ => {},
    }
}

} // verus!
