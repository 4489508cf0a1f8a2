//! Simplification of coefficients and expressions: constants are folded,
//! neutral and absorbing elements removed, and constants moved to the left.
//! Every rewriting keeps the value of what it rewrites.

use crate::arith::{trunc_div, trunc_rem};
use crate::representations::affine_expr::{
    coeff_model,
    expr_model,
    AffineExpr,
    Coeff,
    CoeffModel,
    ExprModel,
};
use vstd::prelude::*;

verus! {

/// Whether a number is a 32-bit integer.
pub open spec fn fits(v: int) -> bool {
    i32::MIN <= v <= i32::MAX
}

/// The product of a constant and a simplified coefficient. A zero gives
/// zero and a one gives the coefficient; the constant is multiplied into a
/// constant, and into the constant that leads a product, where the result
/// fits; otherwise it stands to the left.
pub open spec fn coeff_times(k: i32, e: CoeffModel) -> CoeffModel
    decreases e,
{
    let plain = CoeffModel::Mul(Box::new(CoeffModel::Const(k)), Box::new(e));
    if k == 0 {
        CoeffModel::Const(0)
    } else {
        match e {
            CoeffModel::Const(j) => if fits(k * j) {
                CoeffModel::Const((k * j) as i32)
            } else {
                plain
            },
            CoeffModel::ConstVar(_) => if k == 1 {
                e
            } else {
                plain
            },
            CoeffModel::Mul(x, y) => if k == 1 {
                e
            } else {
                match *x {
                    CoeffModel::Const(j) => if fits(k * j) {
                        coeff_times((k * j) as i32, *y)
                    } else {
                        plain
                    },
                    _ => plain,
                }
            },
        }
    }
}

/// The product of two simplified coefficients: a constant factor is
/// multiplied into the other factor, from the left.
pub open spec fn coeff_product(e1: CoeffModel, e2: CoeffModel) -> CoeffModel {
    match (e1, e2) {
        (CoeffModel::Const(c1), _) => coeff_times(c1, e2),
        (_, CoeffModel::Const(c2)) => coeff_times(c2, e1),
        _ => CoeffModel::Mul(Box::new(e1), Box::new(e2)),
    }
}

/// The simplified form of a coefficient: `0 * x = 0`, `1 * x = x`,
/// `x * 3 = 3 * x`, constants multiplied, also into a nested product:
/// `3 * (3 * x) = 9 * x`, `-1 * (-1 * x) = x`.
pub open spec fn coeff_simplify(c: CoeffModel) -> CoeffModel
    decreases c,
{
    match c {
        CoeffModel::Mul(a, b) => coeff_product(coeff_simplify(*a), coeff_simplify(*b)),
        _ => c,
    }
}

/// The canonical form of a coefficient is its simplified form, in which
/// every constant stands on the left of what it multiplies.
pub open spec fn coeff_normalize(c: CoeffModel) -> CoeffModel {
    coeff_simplify(c)
}

/// The number that a coefficient stands for where `env` gives the symbolic
/// constants their values; none where one of them has no value.
pub open spec fn coeff_value(c: CoeffModel, env: Map<Seq<char>, int>) -> Option<int>
    decreases c,
{
    match c {
        CoeffModel::Const(v) => Some(v as int),
        CoeffModel::ConstVar(n) => if env.contains_key(n) {
            Some(env[n])
        } else {
            None
        },
        CoeffModel::Mul(a, b) => match (coeff_value(*a, env), coeff_value(*b, env)) {
            (Some(x), Some(y)) => Some(x * y),
            _ => None,
        },
    }
}

/// The number that an expression stands for where `env` gives the names
/// their values; none where a name has no value or a divisor is zero.
pub open spec fn expr_value(e: ExprModel, env: Map<Seq<char>, int>) -> Option<int>
    decreases e,
{
    match e {
        ExprModel::Var(n) => if env.contains_key(n) {
            Some(env[n])
        } else {
            None
        },
        ExprModel::Const(v) => Some(v as int),
        ExprModel::Add(a, b) => match (expr_value(*a, env), expr_value(*b, env)) {
            (Some(x), Some(y)) => Some(x + y),
            _ => None,
        },
        ExprModel::Sub(a, b) => match (expr_value(*a, env), expr_value(*b, env)) {
            (Some(x), Some(y)) => Some(x - y),
            _ => None,
        },
        ExprModel::Mul(c, x) => match (coeff_value(c, env), expr_value(*x, env)) {
            (Some(k), Some(y)) => Some(k * y),
            _ => None,
        },
        ExprModel::Div(x, c) => match (expr_value(*x, env), coeff_value(c, env)) {
            (Some(y), Some(k)) => if k == 0 {
                None
            } else {
                Some(trunc_div(y, k))
            },
            _ => None,
        },
        ExprModel::Mod(x, c) => match (expr_value(*x, env), coeff_value(c, env)) {
            (Some(y), Some(k)) => if k == 0 {
                None
            } else {
                Some(trunc_rem(y, k))
            },
            _ => None,
        },
    }
}

/// The difference of two simplified expressions: `e - 0 = e`, and the
/// difference of two constants is a constant where it fits.
pub open spec fn expr_difference(e1: ExprModel, e2: ExprModel) -> ExprModel {
    let plain = ExprModel::Sub(Box::new(e1), Box::new(e2));
    match (e1, e2) {
        (_, ExprModel::Const(c2)) => if c2 == 0 {
            e1
        } else {
            match e1 {
                ExprModel::Const(c1) => if fits(c1 - c2) {
                    ExprModel::Const((c1 - c2) as i32)
                } else {
                    plain
                },
                _ => plain,
            }
        },
        _ => plain,
    }
}

/// The sum of a constant and a simplified expression. A zero gives the
/// expression; the constant is added to a constant, and to the constant of
/// a sum or a difference, where the result fits: `c + (j + y) = (c + j) + y`,
/// `c + (x + j) = (c + j) + x`, `c + (j - y) = (c + j) - y`,
/// `c + (x - j) = (c - j) + x`; otherwise it stands to the left.
pub open spec fn expr_plus(c: i32, e: ExprModel) -> ExprModel
    decreases e,
{
    let plain = ExprModel::Add(Box::new(ExprModel::Const(c)), Box::new(e));
    if c == 0 {
        e
    } else {
        match e {
            ExprModel::Const(j) => if fits(c + j) {
                ExprModel::Const((c + j) as i32)
            } else {
                plain
            },
            ExprModel::Add(x, y) => match (*x, *y) {
                (ExprModel::Const(j), _) => if fits(c + j) {
                    expr_plus((c + j) as i32, *y)
                } else {
                    plain
                },
                (_, ExprModel::Const(j)) => if fits(c + j) {
                    expr_plus((c + j) as i32, *x)
                } else {
                    plain
                },
                _ => plain,
            },
            ExprModel::Sub(x, y) => match (*x, *y) {
                (ExprModel::Const(j), _) => if fits(c + j) {
                    expr_difference(ExprModel::Const((c + j) as i32), *y)
                } else {
                    plain
                },
                (_, ExprModel::Const(j)) => if fits(c - j) {
                    expr_plus((c - j) as i32, *x)
                } else {
                    plain
                },
                _ => plain,
            },
            _ => plain,
        }
    }
}

/// The sum of two simplified expressions: a constant operand is added to
/// the other operand, from the left.
pub open spec fn expr_sum(e1: ExprModel, e2: ExprModel) -> ExprModel {
    match (e1, e2) {
        (ExprModel::Const(c1), _) => expr_plus(c1, e2),
        (_, ExprModel::Const(c2)) => expr_plus(c2, e1),
        _ => ExprModel::Add(Box::new(e1), Box::new(e2)),
    }
}

/// The product of a constant and a simplified expression. A zero gives zero
/// and a one gives the expression; the constant is multiplied into a
/// constant, and into the constant of a product, where the result fits:
/// `k * (j * x) = (k * j) * x`; otherwise it stands to the left.
pub open spec fn expr_times(k: i32, e: ExprModel) -> ExprModel
    decreases e,
{
    let plain = ExprModel::Mul(CoeffModel::Const(k), Box::new(e));
    if k == 0 {
        ExprModel::Const(0)
    } else if k == 1 {
        e
    } else {
        match e {
            ExprModel::Const(j) => if fits(k * j) {
                ExprModel::Const((k * j) as i32)
            } else {
                plain
            },
            ExprModel::Mul(CoeffModel::Const(j), x) => if fits(k * j) {
                expr_times((k * j) as i32, *x)
            } else {
                plain
            },
            _ => plain,
        }
    }
}

/// The product of a canonical coefficient and a simplified expression.
pub open spec fn expr_product(c: CoeffModel, e: ExprModel) -> ExprModel {
    match c {
        CoeffModel::Const(k) => expr_times(k, e),
        _ => ExprModel::Mul(c, Box::new(e)),
    }
}

/// The simplified form of an expression. Constants of a sum are grouped on
/// its left: `1 + x + 2 = 3 + x`, and a constant that becomes zero is
/// dropped: `1 + (-1 + x) = x`. Constants of a product are multiplied:
/// `2 * (3 * x) = 6 * x`, `-1 * (-1 * x) = x`. The operands of a
/// difference, a quotient and a remainder are simplified.
pub open spec fn expr_simplify(e: ExprModel) -> ExprModel
    decreases e,
{
    match e {
        ExprModel::Add(a, b) => expr_sum(expr_simplify(*a), expr_simplify(*b)),
        ExprModel::Sub(a, b) => expr_difference(expr_simplify(*a), expr_simplify(*b)),
        ExprModel::Mul(c, x) => expr_product(coeff_normalize(c), expr_simplify(*x)),
        ExprModel::Div(x, c) => ExprModel::Div(Box::new(expr_simplify(*x)), coeff_normalize(c)),
        ExprModel::Mod(x, c) => ExprModel::Mod(Box::new(expr_simplify(*x)), coeff_normalize(c)),
        _ => e,
    }
}

fn product_fits(c1: i32, c2: i32) -> (r: Option<i32>)
    ensures
        r == if fits(c1 * c2) {
            Some((c1 * c2) as i32)
        } else {
            None
        },
{
    assert(-4611686018427387904 <= c1 * c2 <= 4611686018427387904) by (nonlinear_arith)
        requires
            -2147483648 <= c1 <= 2147483647,
            -2147483648 <= c2 <= 2147483647,
    ;
    let p: i64 = (c1 as i64) * (c2 as i64);
    if -2147483648 <= p && p <= 2147483647 {
        Some(p as i32)
    } else {
        None
    }
}

fn sum_fits(c1: i32, c2: i32) -> (r: Option<i32>)
    ensures
        r == if fits(c1 + c2) {
            Some((c1 + c2) as i32)
        } else {
            None
        },
{
    let p: i64 = (c1 as i64) + (c2 as i64);
    if -2147483648 <= p && p <= 2147483647 {
        Some(p as i32)
    } else {
        None
    }
}

fn difference_fits(c1: i32, c2: i32) -> (r: Option<i32>)
    ensures
        r == if fits(c1 - c2) {
            Some((c1 - c2) as i32)
        } else {
            None
        },
{
    let p: i64 = (c1 as i64) - (c2 as i64);
    if -2147483648 <= p && p <= 2147483647 {
        Some(p as i32)
    } else {
        None
    }
}

fn scaled(k: i32, e: Coeff) -> (r: Coeff)
    ensures
        r@ == coeff_times(k, e@),
    decreases e,
{
    proof {
        reveal_with_fuel(coeff_model, 3);
    }
    if k == 0 {
        return Coeff::Const(0);
    }
    match e {
        Coeff::Const(j) => match product_fits(k, j) {
            Some(p) => Coeff::Const(p),
            None => Coeff::Mul(Box::new(Coeff::Const(k)), Box::new(Coeff::Const(j))),
        },
        Coeff::ConstVar(n) => if k == 1 {
            Coeff::ConstVar(n)
        } else {
            Coeff::Mul(Box::new(Coeff::Const(k)), Box::new(Coeff::ConstVar(n)))
        },
        Coeff::Mul(x, y) => if k == 1 {
            Coeff::Mul(x, y)
        } else {
            match *x {
                Coeff::Const(j) => match product_fits(k, j) {
                    Some(p) => scaled(p, *y),
                    None => Coeff::Mul(
                        Box::new(Coeff::Const(k)),
                        Box::new(Coeff::Mul(Box::new(Coeff::Const(j)), y)),
                    ),
                },
                other => Coeff::Mul(
                    Box::new(Coeff::Const(k)),
                    Box::new(Coeff::Mul(Box::new(other), y)),
                ),
            }
        },
    }
}

fn product(e1: Coeff, e2: Coeff) -> (r: Coeff)
    ensures
        r@ == coeff_product(e1@, e2@),
{
    match (&e1, &e2) {
        (Coeff::Const(c1), _) => {
            let k: i32 = *c1;
            scaled(k, e2)
        },
        (_, Coeff::Const(c2)) => {
            let k: i32 = *c2;
            scaled(k, e1)
        },
        _ => Coeff::Mul(Box::new(e1), Box::new(e2)),
    }
}

impl Coeff {
    /// Simplifies the coefficient: `0 * x = 0`, `1 * x = x`, `x * 3 = 3 * x`,
    /// `3 * (3 * x) = 9 * x`.
    pub fn simplify(&self) -> (r: Coeff)
        ensures
            r@ == coeff_simplify(self@),
        decreases self,
    {
        match self {
            Coeff::Const(c) => Coeff::Const(*c),
            Coeff::ConstVar(n) => Coeff::ConstVar(n.clone()),
            Coeff::Mul(e1, e2) => {
                let e1 = e1.simplify();
                let e2 = e2.simplify();
                product(e1, e2)
            },
        }
    }

    /// Makes the coefficient canonical: simplified, with every constant on
    /// the left of what it multiplies. A canonical coefficient stays as it
    /// is.
    pub fn normalize(&self) -> (r: Coeff)
        ensures
            r@ == coeff_normalize(self@),
    {
        self.simplify()
    }
}

fn difference(e1: AffineExpr, e2: AffineExpr) -> (r: AffineExpr)
    ensures
        r@ == expr_difference(e1@, e2@),
{
    match (&e1, &e2) {
        (_, AffineExpr::Const(c2)) => {
            let j: i32 = *c2;
            if j == 0 {
                return e1;
            }
            let folded = match &e1 {
                AffineExpr::Const(c1) => difference_fits(*c1, j),
                _ => None,
            };
            match folded {
                Some(d) => AffineExpr::Const(d),
                None => AffineExpr::Sub(Box::new(e1), Box::new(e2)),
            }
        },
        _ => AffineExpr::Sub(Box::new(e1), Box::new(e2)),
    }
}

fn plus(c: i32, e: AffineExpr) -> (r: AffineExpr)
    ensures
        r@ == expr_plus(c, e@),
    decreases e,
{
    proof {
        reveal_with_fuel(expr_model, 3);
    }
    if c == 0 {
        return e;
    }
    match e {
        AffineExpr::Const(j) => match sum_fits(c, j) {
            Some(s) => AffineExpr::Const(s),
            None => AffineExpr::Add(
                Box::new(AffineExpr::Const(c)),
                Box::new(AffineExpr::Const(j)),
            ),
        },
        AffineExpr::Add(x, y) => {
            // `c` and the first constant operand of the sum, where they fit.
            let folded = match (&*x, &*y) {
                (AffineExpr::Const(j), _) => sum_fits(c, *j),
                (_, AffineExpr::Const(j)) => sum_fits(c, *j),
                _ => None,
            };
            match (folded, *x, *y) {
                (Some(s), AffineExpr::Const(_), rest) => plus(s, rest),
                (Some(s), rest, _) => plus(s, rest),
                (None, x, y) => AffineExpr::Add(
                    Box::new(AffineExpr::Const(c)),
                    Box::new(AffineExpr::Add(Box::new(x), Box::new(y))),
                ),
            }
        },
        AffineExpr::Sub(x, y) => match (*x, *y) {
            (AffineExpr::Const(j), y) => match sum_fits(c, j) {
                Some(s) => difference(AffineExpr::Const(s), y),
                None => AffineExpr::Add(
                    Box::new(AffineExpr::Const(c)),
                    Box::new(AffineExpr::Sub(Box::new(AffineExpr::Const(j)), Box::new(y))),
                ),
            },
            (x, AffineExpr::Const(j)) => match difference_fits(c, j) {
                Some(s) => plus(s, x),
                None => AffineExpr::Add(
                    Box::new(AffineExpr::Const(c)),
                    Box::new(AffineExpr::Sub(Box::new(x), Box::new(AffineExpr::Const(j)))),
                ),
            },
            (x, y) => AffineExpr::Add(
                Box::new(AffineExpr::Const(c)),
                Box::new(AffineExpr::Sub(Box::new(x), Box::new(y))),
            ),
        },
        other => AffineExpr::Add(Box::new(AffineExpr::Const(c)), Box::new(other)),
    }
}

fn sum(e1: AffineExpr, e2: AffineExpr) -> (r: AffineExpr)
    ensures
        r@ == expr_sum(e1@, e2@),
{
    match (&e1, &e2) {
        (AffineExpr::Const(c1), _) => {
            let c: i32 = *c1;
            plus(c, e2)
        },
        (_, AffineExpr::Const(c2)) => {
            let c: i32 = *c2;
            plus(c, e1)
        },
        _ => AffineExpr::Add(Box::new(e1), Box::new(e2)),
    }
}

fn multiplied(k: i32, e: AffineExpr) -> (r: AffineExpr)
    ensures
        r@ == expr_times(k, e@),
    decreases e,
{
    proof {
        reveal_with_fuel(expr_model, 3);
    }
    if k == 0 {
        return AffineExpr::Const(0);
    }
    if k == 1 {
        return e;
    }
    match e {
        AffineExpr::Const(j) => match product_fits(k, j) {
            Some(p) => AffineExpr::Const(p),
            None => AffineExpr::Mul(Coeff::Const(k), Box::new(AffineExpr::Const(j))),
        },
        AffineExpr::Mul(Coeff::Const(j), x) => match product_fits(k, j) {
            Some(p) => multiplied(p, *x),
            None => AffineExpr::Mul(
                Coeff::Const(k),
                Box::new(AffineExpr::Mul(Coeff::Const(j), x)),
            ),
        },
        other => AffineExpr::Mul(Coeff::Const(k), Box::new(other)),
    }
}

fn times(c: Coeff, e: AffineExpr) -> (r: AffineExpr)
    ensures
        r@ == expr_product(c@, e@),
{
    match c {
        Coeff::Const(k) => multiplied(k, e),
        other => AffineExpr::Mul(other, Box::new(e)),
    }
}

impl AffineExpr {
    /// Simplifies the expression by grouping constants:
    /// `1 + x + 2 = 3 + x`, `x + 1 + 2 = 3 + x`, `1 + x + 2 + y = 3 + x + y`.
    /// A simplified expression stays as it is.
    pub fn simplify(&self) -> (r: AffineExpr)
        ensures
            r@ == expr_simplify(self@),
        decreases self,
    {
        match self {
            AffineExpr::Const(c) => AffineExpr::Const(*c),
            AffineExpr::Var(n) => AffineExpr::Var(n.clone()),
            AffineExpr::Add(e1, e2) => {
                let e1 = e1.simplify();
                let e2 = e2.simplify();
                sum(e1, e2)
            },
            AffineExpr::Sub(e1, e2) => {
                let e1 = e1.simplify();
                let e2 = e2.simplify();
                difference(e1, e2)
            },
            AffineExpr::Mul(coeff, e) => {
                let coeff = coeff.normalize();
                let e = e.simplify();
                times(coeff, e)
            },
            AffineExpr::Div(e, coeff) => {
                let e = e.simplify();
                let coeff = coeff.normalize();
                AffineExpr::Div(Box::new(e), coeff)
            },
            AffineExpr::Mod(e, coeff) => {
                let e = e.simplify();
                let coeff = coeff.normalize();
                AffineExpr::Mod(Box::new(e), coeff)
            },
        }
    }
}

/// The product of a constant and a coefficient has the value of the
/// product.
pub proof fn lemma_coeff_times_value(k: i32, e: CoeffModel, env: Map<Seq<char>, int>)
    requires
        coeff_value(e, env) is Some,
    ensures
        coeff_value(coeff_times(k, e), env) == Some(k * coeff_value(e, env)->0),
    decreases e,
{
    reveal_with_fuel(coeff_value, 3);
    let v = coeff_value(e, env)->0;
    assert(0 * v == 0 && 1 * v == v) by (nonlinear_arith);
    if k != 0 && k != 1 {
        match e {
            CoeffModel::Mul(x, y) => match *x {
                CoeffModel::Const(j) => {
                    let yv = coeff_value(*y, env)->0;
                    assert(k * (j * yv) == (k * j) * yv) by (nonlinear_arith);
                    if fits(k * j) {
                        lemma_coeff_times_value((k * j) as i32, *y, env);
                    }
                },
                _ => {},
            },
            _ => {},
        }
    }
}

/// The product of two simplified coefficients has the value of the product.
pub proof fn lemma_coeff_product_value(e1: CoeffModel, e2: CoeffModel, env: Map<Seq<char>, int>)
    requires
        coeff_value(e1, env) is Some,
        coeff_value(e2, env) is Some,
    ensures
        coeff_value(coeff_product(e1, e2), env) == Some(
            coeff_value(e1, env)->0 * coeff_value(e2, env)->0,
        ),
{
    let a = coeff_value(e1, env)->0;
    let b = coeff_value(e2, env)->0;
    assert(a * b == b * a) by (nonlinear_arith);
    match (e1, e2) {
        (CoeffModel::Const(c1), _) => {
            lemma_coeff_times_value(c1, e2, env);
        },
        (_, CoeffModel::Const(c2)) => {
            lemma_coeff_times_value(c2, e1, env);
        },
        _ => {},
    }
}

/// Simplifying a coefficient keeps its value, wherever it has one.
pub proof fn lemma_coeff_simplify_value(c: CoeffModel, env: Map<Seq<char>, int>)
    requires
        coeff_value(c, env) is Some,
    ensures
        coeff_value(coeff_simplify(c), env) == coeff_value(c, env),
    decreases c,
{
    match c {
        CoeffModel::Mul(a, b) => {
            lemma_coeff_simplify_value(*a, env);
            lemma_coeff_simplify_value(*b, env);
            lemma_coeff_product_value(coeff_simplify(*a), coeff_simplify(*b), env);
        },
        _ => {},
    }
}

/// Making a coefficient canonical keeps its value, wherever it has one.
pub proof fn lemma_coeff_normalize_value(c: CoeffModel, env: Map<Seq<char>, int>)
    requires
        coeff_value(c, env) is Some,
    ensures
        coeff_value(coeff_normalize(c), env) == coeff_value(c, env),
{
    lemma_coeff_simplify_value(c, env);
}

/// The difference of two simplified expressions has the value of the
/// difference.
pub proof fn lemma_expr_difference_value(e1: ExprModel, e2: ExprModel, env: Map<Seq<char>, int>)
    requires
        expr_value(e1, env) is Some,
        expr_value(e2, env) is Some,
    ensures
        expr_value(expr_difference(e1, e2), env) == Some(
            expr_value(e1, env)->0 - expr_value(e2, env)->0,
        ),
{
}

/// The sum of a constant and an expression has the value of the sum.
pub proof fn lemma_expr_plus_value(c: i32, e: ExprModel, env: Map<Seq<char>, int>)
    requires
        expr_value(e, env) is Some,
    ensures
        expr_value(expr_plus(c, e), env) == Some(c + expr_value(e, env)->0),
    decreases e,
{
    reveal_with_fuel(expr_value, 3);
    if c != 0 {
        match e {
            ExprModel::Add(x, y) => match (*x, *y) {
                (ExprModel::Const(j), _) => {
                    if fits(c + j) {
                        lemma_expr_plus_value((c + j) as i32, *y, env);
                    }
                },
                (_, ExprModel::Const(j)) => {
                    if fits(c + j) {
                        lemma_expr_plus_value((c + j) as i32, *x, env);
                    }
                },
                _ => {},
            },
            ExprModel::Sub(x, y) => match (*x, *y) {
                (ExprModel::Const(j), _) => {
                    if fits(c + j) {
                        lemma_expr_difference_value(ExprModel::Const((c + j) as i32), *y, env);
                    }
                },
                (_, ExprModel::Const(j)) => {
                    if fits(c - j) {
                        lemma_expr_plus_value((c - j) as i32, *x, env);
                    }
                },
                _ => {},
            },
            _ => {},
        }
    }
}

/// The sum of two simplified expressions has the value of the sum.
pub proof fn lemma_expr_sum_value(e1: ExprModel, e2: ExprModel, env: Map<Seq<char>, int>)
    requires
        expr_value(e1, env) is Some,
        expr_value(e2, env) is Some,
    ensures
        expr_value(expr_sum(e1, e2), env) == Some(
            expr_value(e1, env)->0 + expr_value(e2, env)->0,
        ),
{
    match (e1, e2) {
        (ExprModel::Const(c1), _) => {
            lemma_expr_plus_value(c1, e2, env);
        },
        (_, ExprModel::Const(c2)) => {
            lemma_expr_plus_value(c2, e1, env);
        },
        _ => {},
    }
}

/// The product of a constant and an expression has the value of the
/// product.
pub proof fn lemma_expr_times_value(k: i32, e: ExprModel, env: Map<Seq<char>, int>)
    requires
        expr_value(e, env) is Some,
    ensures
        expr_value(expr_times(k, e), env) == Some(k * expr_value(e, env)->0),
    decreases e,
{
    reveal_with_fuel(expr_value, 3);
    let v = expr_value(e, env)->0;
    assert(1 * v == v && 0 * v == 0) by (nonlinear_arith);
    if k != 0 && k != 1 {
        match e {
            ExprModel::Mul(CoeffModel::Const(j), x) => {
                let xv = expr_value(*x, env)->0;
                assert(k * (j * xv) == (k * j) * xv) by (nonlinear_arith);
                if fits(k * j) {
                    lemma_expr_times_value((k * j) as i32, *x, env);
                }
            },
            _ => {},
        }
    }
}

/// The product of a coefficient and an expression has the value of the
/// product.
pub proof fn lemma_expr_product_value(c: CoeffModel, e: ExprModel, env: Map<Seq<char>, int>)
    requires
        coeff_value(c, env) is Some,
        expr_value(e, env) is Some,
    ensures
        expr_value(expr_product(c, e), env) == Some(
            coeff_value(c, env)->0 * expr_value(e, env)->0,
        ),
{
    match c {
        CoeffModel::Const(k) => {
            lemma_expr_times_value(k, e, env);
        },
        _ => {},
    }
}

/// Simplifying an expression keeps its value under every binding of its
/// names, wherever it has one.
pub proof fn lemma_expr_simplify_value(e: ExprModel, env: Map<Seq<char>, int>)
    requires
        expr_value(e, env) is Some,
    ensures
        expr_value(expr_simplify(e), env) == expr_value(e, env),
    decreases e,
{
    match e {
        ExprModel::Add(a, b) => {
            lemma_expr_simplify_value(*a, env);
            lemma_expr_simplify_value(*b, env);
            lemma_expr_sum_value(expr_simplify(*a), expr_simplify(*b), env);
        },
        ExprModel::Sub(a, b) => {
            lemma_expr_simplify_value(*a, env);
            lemma_expr_simplify_value(*b, env);
            lemma_expr_difference_value(expr_simplify(*a), expr_simplify(*b), env);
        },
        ExprModel::Mul(c, x) => {
            lemma_coeff_normalize_value(c, env);
            lemma_expr_simplify_value(*x, env);
            lemma_expr_product_value(coeff_normalize(c), expr_simplify(*x), env);
        },
        ExprModel::Div(x, c) => {
            lemma_coeff_normalize_value(c, env);
            lemma_expr_simplify_value(*x, env);
        },
        ExprModel::Mod(x, c) => {
            lemma_coeff_normalize_value(c, env);
            lemma_expr_simplify_value(*x, env);
        },
        _ => {},
    }
}

} // verus!
