//! What simplification guarantees: a canonical coefficient is a fixed
//! point, and a simplified expression evaluates to what the expression
//! evaluated to.

use crate::representations::affine_expr::{CoeffModel, ExprModel};
use crate::representations::evaluate::{coeff_eval, expr_eval, EvalErrorModel};
use crate::representations::simplify::{
    coeff_normalize,
    coeff_product,
    coeff_simplify,
    coeff_times,
    expr_difference,
    expr_plus,
    expr_product,
    expr_simplify,
    expr_sum,
    expr_times,
    fits,
};
use vstd::prelude::*;

verus! {

/// Whether a coefficient is canonical: no product has a constant on its
/// right and something else on its left, no constant factor is zero or one,
/// and no constant stands before a constant, or before a product led by a
/// constant, with which its product would fit.
pub open spec fn coeff_canonical(c: CoeffModel) -> bool
    decreases c,
{
    match c {
        CoeffModel::Mul(a, b) => coeff_canonical(*a) && coeff_canonical(*b) && match (*a, *b) {
            (CoeffModel::Const(k), CoeffModel::Const(j)) => !fits(k * j),
            (CoeffModel::Const(k), CoeffModel::ConstVar(_)) => k != 0 && k != 1,
            (CoeffModel::Const(k), CoeffModel::Mul(x, _)) => k != 0 && k != 1 && match *x {
                CoeffModel::Const(j) => !fits(k * j),
                _ => true,
            },
            (_, CoeffModel::Const(_)) => false,
            _ => true,
        },
        _ => true,
    }
}

/// Whether no product of the coefficient has a constant on its right and
/// something else on its left.
pub open spec fn constants_on_left(c: CoeffModel) -> bool
    decreases c,
{
    match c {
        CoeffModel::Mul(a, b) => constants_on_left(*a) && constants_on_left(*b) && (*b is Const
            ==> *a is Const),
        _ => true,
    }
}

/// The product of a constant and a canonical coefficient is canonical.
pub proof fn lemma_times_canonical(k: i32, e: CoeffModel)
    requires
        coeff_canonical(e),
    ensures
        coeff_canonical(coeff_times(k, e)),
    decreases e,
{
    reveal_with_fuel(coeff_canonical, 3);
    if k != 0 && k != 1 {
        match e {
            CoeffModel::Mul(x, y) => match *x {
                CoeffModel::Const(j) => {
                    if fits(k * j) {
                        lemma_times_canonical((k * j) as i32, *y);
                    }
                },
                _ => {},
            },
            _ => {},
        }
    } else if k == 1 {
        match e {
            CoeffModel::Const(j) => {
                assert(fits(1 * j));
            },
            _ => {},
        }
    }
}

/// The product of two canonical coefficients is canonical.
pub proof fn lemma_product_canonical(e1: CoeffModel, e2: CoeffModel)
    requires
        coeff_canonical(e1),
        coeff_canonical(e2),
    ensures
        coeff_canonical(coeff_product(e1, e2)),
{
    match (e1, e2) {
        (CoeffModel::Const(c1), _) => {
            lemma_times_canonical(c1, e2);
        },
        (_, CoeffModel::Const(c2)) => {
            lemma_times_canonical(c2, e1);
        },
        _ => {},
    }
}

/// A simplified coefficient is canonical.
pub proof fn lemma_simplify_canonical(c: CoeffModel)
    ensures
        coeff_canonical(coeff_simplify(c)),
    decreases c,
{
    match c {
        CoeffModel::Mul(a, b) => {
            lemma_simplify_canonical(*a);
            lemma_simplify_canonical(*b);
            lemma_product_canonical(coeff_simplify(*a), coeff_simplify(*b));
        },
        _ => {},
    }
}

/// Simplifying a canonical coefficient gives the coefficient.
pub proof fn lemma_canonical_fixed(c: CoeffModel)
    requires
        coeff_canonical(c),
    ensures
        coeff_simplify(c) == c,
    decreases c,
{
    reveal_with_fuel(coeff_times, 2);
    match c {
        CoeffModel::Mul(a, b) => {
            lemma_canonical_fixed(*a);
            lemma_canonical_fixed(*b);
            match (*a, *b) {
                (CoeffModel::Const(k), CoeffModel::Const(j)) => {
                    assert(k != 0) by (nonlinear_arith)
                        requires
                            !fits(k * j),
                    ;
                },
                _ => {},
            }
            assert(coeff_product(*a, *b) == c);
        },
        _ => {},
    }
}

/// A canonical coefficient has its constants on the left.
pub proof fn lemma_canonical_constants_on_left(c: CoeffModel)
    requires
        coeff_canonical(c),
    ensures
        constants_on_left(c),
    decreases c,
{
    match c {
        CoeffModel::Mul(a, b) => {
            lemma_canonical_constants_on_left(*a);
            lemma_canonical_constants_on_left(*b);
        },
        _ => {},
    }
}

/// Making a coefficient canonical a second time changes nothing.
pub proof fn lemma_normalize_idempotent(c: CoeffModel)
    ensures
        coeff_normalize(coeff_normalize(c)) == coeff_normalize(c),
{
    lemma_simplify_canonical(c);
    lemma_canonical_fixed(coeff_simplify(c));
}

/// In the canonical form of a coefficient, a product with a constant on
/// its right has a constant on its left too.
pub proof fn lemma_normalize_constants_on_left(c: CoeffModel)
    ensures
        constants_on_left(coeff_normalize(c)),
{
    lemma_simplify_canonical(c);
    lemma_canonical_constants_on_left(coeff_simplify(c));
}

/// Where a coefficient evaluates to `v` and `k * v` fits, the product of
/// `k` and the coefficient evaluates to `k * v`.
pub proof fn lemma_coeff_times_eval(k: i32, e: CoeffModel, env: Seq<(Seq<char>, i32)>)
    requires
        coeff_eval(e, env) is Ok,
        fits(k * coeff_eval(e, env)->Ok_0),
    ensures
        coeff_eval(coeff_times(k, e), env) == Ok::<i32, EvalErrorModel>(
            (k * coeff_eval(e, env)->Ok_0) as i32,
        ),
    decreases e,
{
    reveal_with_fuel(coeff_eval, 3);
    let v = coeff_eval(e, env)->Ok_0;
    assert(0 * v == 0 && 1 * v == v) by (nonlinear_arith);
    if k != 0 && k != 1 {
        match e {
            CoeffModel::Mul(x, y) => match *x {
                CoeffModel::Const(j) => {
                    let yv = coeff_eval(*y, env)->Ok_0;
                    assert(k * (j * yv) == (k * j) * yv) by (nonlinear_arith);
                    if fits(k * j) {
                        lemma_coeff_times_eval((k * j) as i32, *y, env);
                    }
                },
                _ => {},
            },
            _ => {},
        }
    }
}

/// Where the product of two coefficients evaluates to a number, the
/// simplified product evaluates to the same.
pub proof fn lemma_coeff_product_eval(e1: CoeffModel, e2: CoeffModel, env: Seq<(Seq<char>, i32)>)
    requires
        coeff_eval(CoeffModel::Mul(Box::new(e1), Box::new(e2)), env) is Ok,
    ensures
        coeff_eval(coeff_product(e1, e2), env) == coeff_eval(
            CoeffModel::Mul(Box::new(e1), Box::new(e2)),
            env,
        ),
{
    reveal_with_fuel(coeff_eval, 2);
    let a = coeff_eval(e1, env)->Ok_0;
    let b = coeff_eval(e2, env)->Ok_0;
    assert(a * b == b * a) by (nonlinear_arith);
    match (e1, e2) {
        (CoeffModel::Const(c1), _) => {
            lemma_coeff_times_eval(c1, e2, env);
        },
        (_, CoeffModel::Const(c2)) => {
            lemma_coeff_times_eval(c2, e1, env);
        },
        _ => {},
    }
}

/// Where a coefficient evaluates to a number, its simplified form evaluates
/// to the same number.
pub proof fn lemma_coeff_simplify_eval(c: CoeffModel, env: Seq<(Seq<char>, i32)>)
    requires
        coeff_eval(c, env) is Ok,
    ensures
        coeff_eval(coeff_simplify(c), env) == coeff_eval(c, env),
    decreases c,
{
    match c {
        CoeffModel::Mul(a, b) => {
            lemma_coeff_simplify_eval(*a, env);
            lemma_coeff_simplify_eval(*b, env);
            lemma_coeff_product_eval(coeff_simplify(*a), coeff_simplify(*b), env);
        },
        _ => {},
    }
}

/// Where a coefficient evaluates to a number, its canonical form evaluates
/// to the same number.
pub proof fn lemma_coeff_normalize_eval(c: CoeffModel, env: Seq<(Seq<char>, i32)>)
    requires
        coeff_eval(c, env) is Ok,
    ensures
        coeff_eval(coeff_normalize(c), env) == coeff_eval(c, env),
{
    lemma_coeff_simplify_eval(c, env);
}

/// Where the difference of two expressions evaluates to a number, the
/// simplified difference evaluates to the same.
pub proof fn lemma_expr_difference_eval(e1: ExprModel, e2: ExprModel, env: Seq<(Seq<char>, i32)>)
    requires
        expr_eval(ExprModel::Sub(Box::new(e1), Box::new(e2)), env) is Ok,
    ensures
        expr_eval(expr_difference(e1, e2), env) == expr_eval(
            ExprModel::Sub(Box::new(e1), Box::new(e2)),
            env,
        ),
{
    reveal_with_fuel(expr_eval, 2);
}

/// Where an expression evaluates to `v` and `c + v` fits, the sum of `c`
/// and the expression evaluates to `c + v`.
pub proof fn lemma_expr_plus_eval(c: i32, e: ExprModel, env: Seq<(Seq<char>, i32)>)
    requires
        expr_eval(e, env) is Ok,
        fits(c + expr_eval(e, env)->Ok_0),
    ensures
        expr_eval(expr_plus(c, e), env) == Ok::<i32, EvalErrorModel>(
            (c + expr_eval(e, env)->Ok_0) as i32,
        ),
    decreases e,
{
    reveal_with_fuel(expr_eval, 3);
    if c != 0 {
        match e {
            ExprModel::Add(x, y) => match (*x, *y) {
                (ExprModel::Const(j), _) => {
                    if fits(c + j) {
                        lemma_expr_plus_eval((c + j) as i32, *y, env);
                    }
                },
                (_, ExprModel::Const(j)) => {
                    if fits(c + j) {
                        lemma_expr_plus_eval((c + j) as i32, *x, env);
                    }
                },
                _ => {},
            },
            ExprModel::Sub(x, y) => match (*x, *y) {
                (ExprModel::Const(j), _) => {
                    if fits(c + j) {
                        lemma_expr_difference_eval(ExprModel::Const((c + j) as i32), *y, env);
                    }
                },
                (_, ExprModel::Const(j)) => {
                    if fits(c - j) {
                        lemma_expr_plus_eval((c - j) as i32, *x, env);
                    }
                },
                _ => {},
            },
            _ => {},
        }
    }
}

/// Where the sum of two expressions evaluates to a number, the simplified
/// sum evaluates to the same.
pub proof fn lemma_expr_sum_eval(e1: ExprModel, e2: ExprModel, env: Seq<(Seq<char>, i32)>)
    requires
        expr_eval(ExprModel::Add(Box::new(e1), Box::new(e2)), env) is Ok,
    ensures
        expr_eval(expr_sum(e1, e2), env) == expr_eval(
            ExprModel::Add(Box::new(e1), Box::new(e2)),
            env,
        ),
{
    reveal_with_fuel(expr_eval, 2);
    match (e1, e2) {
        (ExprModel::Const(c1), _) => {
            lemma_expr_plus_eval(c1, e2, env);
        },
        (_, ExprModel::Const(c2)) => {
            lemma_expr_plus_eval(c2, e1, env);
        },
        _ => {},
    }
}

/// Where an expression evaluates to `v` and `k * v` fits, the product of
/// `k` and the expression evaluates to `k * v`.
pub proof fn lemma_expr_times_eval(k: i32, e: ExprModel, env: Seq<(Seq<char>, i32)>)
    requires
        expr_eval(e, env) is Ok,
        fits(k * expr_eval(e, env)->Ok_0),
    ensures
        expr_eval(expr_times(k, e), env) == Ok::<i32, EvalErrorModel>(
            (k * expr_eval(e, env)->Ok_0) as i32,
        ),
    decreases e,
{
    reveal_with_fuel(expr_eval, 3);
    let v = expr_eval(e, env)->Ok_0;
    assert(0 * v == 0 && 1 * v == v) by (nonlinear_arith);
    if k != 0 && k != 1 {
        match e {
            ExprModel::Mul(CoeffModel::Const(j), x) => {
                let xv = expr_eval(*x, env)->Ok_0;
                assert(k * (j * xv) == (k * j) * xv) by (nonlinear_arith);
                if fits(k * j) {
                    lemma_expr_times_eval((k * j) as i32, *x, env);
                }
            },
            _ => {},
        }
    }
}

/// Where the product of a coefficient and an expression evaluates to a
/// number, the simplified product evaluates to the same.
pub proof fn lemma_expr_product_eval(c: CoeffModel, e: ExprModel, env: Seq<(Seq<char>, i32)>)
    requires
        expr_eval(ExprModel::Mul(c, Box::new(e)), env) is Ok,
    ensures
        expr_eval(expr_product(c, e), env) == expr_eval(ExprModel::Mul(c, Box::new(e)), env),
{
    reveal_with_fuel(expr_eval, 2);
    match c {
        CoeffModel::Const(k) => {
            lemma_expr_times_eval(k, e, env);
        },
        _ => {},
    }
}

/// Simplification preserves evaluation: where an expression evaluates to a
/// number under a binding of its names, its simplified form evaluates to
/// the same number under that binding.
pub proof fn lemma_expr_simplify_eval(e: ExprModel, env: Seq<(Seq<char>, i32)>)
    requires
        expr_eval(e, env) is Ok,
    ensures
        expr_eval(expr_simplify(e), env) == expr_eval(e, env),
    decreases e,
{
    match e {
        ExprModel::Add(a, b) => {
            lemma_expr_simplify_eval(*a, env);
            lemma_expr_simplify_eval(*b, env);
            lemma_expr_sum_eval(expr_simplify(*a), expr_simplify(*b), env);
        },
        ExprModel::Sub(a, b) => {
            lemma_expr_simplify_eval(*a, env);
            lemma_expr_simplify_eval(*b, env);
            lemma_expr_difference_eval(expr_simplify(*a), expr_simplify(*b), env);
        },
        ExprModel::Mul(c, x) => {
            lemma_coeff_normalize_eval(c, env);
            lemma_expr_simplify_eval(*x, env);
            lemma_expr_product_eval(coeff_normalize(c), expr_simplify(*x), env);
        },
        ExprModel::Div(x, c) => {
            lemma_coeff_normalize_eval(c, env);
            lemma_expr_simplify_eval(*x, env);
        },
        ExprModel::Mod(x, c) => {
            lemma_coeff_normalize_eval(c, env);
            lemma_expr_simplify_eval(*x, env);
        },
        _ => {},
    }
}

/// Whether a sum of the constant `c` and the expression `b` is as simple
/// as it can be: `c` is not zero and cannot be added to `b`, nor to the
/// constant of `b` where `b` is a sum or a difference.
pub open spec fn sum_settled(c: i32, b: ExprModel) -> bool {
    c != 0 && match b {
        ExprModel::Const(j) => !fits(c + j),
        ExprModel::Add(x, y) => match (*x, *y) {
            (ExprModel::Const(j), _) => !fits(c + j),
            (_, ExprModel::Const(j)) => !fits(c + j),
            _ => true,
        },
        ExprModel::Sub(x, y) => match (*x, *y) {
            (ExprModel::Const(j), _) => !fits(c + j),
            (_, ExprModel::Const(j)) => !fits(c - j),
            _ => true,
        },
        _ => true,
    }
}

/// Whether a product of the constant `k` and the expression `x` is as
/// simple as it can be: `k` is neither zero nor one and cannot be
/// multiplied into `x`, nor into the constant of `x` where `x` is a
/// product.
pub open spec fn product_settled(k: i32, x: ExprModel) -> bool {
    k != 0 && k != 1 && match x {
        ExprModel::Const(j) => !fits(k * j),
        ExprModel::Mul(CoeffModel::Const(j), _) => !fits(k * j),
        _ => true,
    }
}

/// Whether an expression is simplified: its coefficients are canonical, no
/// sum has a constant on its right, no difference has a zero on its right
/// or two constants that can be subtracted, and no constant of a sum or a
/// product can be folded or dropped.
pub open spec fn expr_simplified(e: ExprModel) -> bool
    decreases e,
{
    match e {
        ExprModel::Var(_) => true,
        ExprModel::Const(_) => true,
        ExprModel::Add(a, b) => expr_simplified(*a) && expr_simplified(*b) && match (*a, *b) {
            (ExprModel::Const(c), _) => sum_settled(c, *b),
            (_, ExprModel::Const(_)) => false,
            _ => true,
        },
        ExprModel::Sub(a, b) => expr_simplified(*a) && expr_simplified(*b) && match (*a, *b) {
            (ExprModel::Const(c1), ExprModel::Const(c2)) => c2 != 0 && !fits(c1 - c2),
            (_, ExprModel::Const(c2)) => c2 != 0,
            _ => true,
        },
        ExprModel::Mul(k, x) => coeff_canonical(k) && expr_simplified(*x) && match k {
            CoeffModel::Const(c) => product_settled(c, *x),
            _ => true,
        },
        ExprModel::Div(x, k) => expr_simplified(*x) && coeff_canonical(k),
        ExprModel::Mod(x, k) => expr_simplified(*x) && coeff_canonical(k),
    }
}

/// The difference of two simplified expressions is simplified.
pub proof fn lemma_difference_simplified(e1: ExprModel, e2: ExprModel)
    requires
        expr_simplified(e1),
        expr_simplified(e2),
    ensures
        expr_simplified(expr_difference(e1, e2)),
{
}

/// The sum of a constant and a simplified expression is simplified.
pub proof fn lemma_plus_simplified(c: i32, e: ExprModel)
    requires
        expr_simplified(e),
    ensures
        expr_simplified(expr_plus(c, e)),
    decreases e,
{
    reveal_with_fuel(expr_simplified, 3);
    if c != 0 {
        match e {
            ExprModel::Add(x, y) => match (*x, *y) {
                (ExprModel::Const(j), _) => {
                    if fits(c + j) {
                        lemma_plus_simplified((c + j) as i32, *y);
                    }
                },
                (_, ExprModel::Const(j)) => {
                    if fits(c + j) {
                        lemma_plus_simplified((c + j) as i32, *x);
                    }
                },
                _ => {},
            },
            ExprModel::Sub(x, y) => match (*x, *y) {
                (ExprModel::Const(j), _) => {
                    if fits(c + j) {
                        lemma_difference_simplified(ExprModel::Const((c + j) as i32), *y);
                    }
                },
                (_, ExprModel::Const(j)) => {
                    if fits(c - j) {
                        lemma_plus_simplified((c - j) as i32, *x);
                    }
                },
                _ => {},
            },
            _ => {},
        }
    }
}

/// The sum of two simplified expressions is simplified.
pub proof fn lemma_sum_simplified(e1: ExprModel, e2: ExprModel)
    requires
        expr_simplified(e1),
        expr_simplified(e2),
    ensures
        expr_simplified(expr_sum(e1, e2)),
{
    match (e1, e2) {
        (ExprModel::Const(c1), _) => {
            lemma_plus_simplified(c1, e2);
        },
        (_, ExprModel::Const(c2)) => {
            lemma_plus_simplified(c2, e1);
        },
        _ => {},
    }
}

/// The product of a constant and a simplified expression is simplified.
pub proof fn lemma_expr_times_simplified(k: i32, e: ExprModel)
    requires
        expr_simplified(e),
    ensures
        expr_simplified(expr_times(k, e)),
    decreases e,
{
    reveal_with_fuel(expr_simplified, 2);
    if k != 0 && k != 1 {
        match e {
            ExprModel::Mul(CoeffModel::Const(j), x) => {
                if fits(k * j) {
                    lemma_expr_times_simplified((k * j) as i32, *x);
                }
            },
            _ => {},
        }
    }
}

/// The product of a canonical coefficient and a simplified expression is
/// simplified.
pub proof fn lemma_product_simplified(c: CoeffModel, e: ExprModel)
    requires
        coeff_canonical(c),
        expr_simplified(e),
    ensures
        expr_simplified(expr_product(c, e)),
{
    match c {
        CoeffModel::Const(k) => {
            lemma_expr_times_simplified(k, e);
        },
        _ => {},
    }
}

/// What simplification gives is simplified.
pub proof fn lemma_simplify_simplified(e: ExprModel)
    ensures
        expr_simplified(expr_simplify(e)),
    decreases e,
{
    match e {
        ExprModel::Add(a, b) => {
            lemma_simplify_simplified(*a);
            lemma_simplify_simplified(*b);
            lemma_sum_simplified(expr_simplify(*a), expr_simplify(*b));
        },
        ExprModel::Sub(a, b) => {
            lemma_simplify_simplified(*a);
            lemma_simplify_simplified(*b);
            lemma_difference_simplified(expr_simplify(*a), expr_simplify(*b));
        },
        ExprModel::Mul(c, x) => {
            lemma_simplify_canonical(c);
            lemma_simplify_simplified(*x);
            lemma_product_simplified(coeff_normalize(c), expr_simplify(*x));
        },
        ExprModel::Div(x, c) => {
            lemma_simplify_canonical(c);
            lemma_simplify_simplified(*x);
        },
        ExprModel::Mod(x, c) => {
            lemma_simplify_canonical(c);
            lemma_simplify_simplified(*x);
        },
        _ => {},
    }
}

/// Simplifying a simplified expression gives the expression.
pub proof fn lemma_simplified_fixed(e: ExprModel)
    requires
        expr_simplified(e),
    ensures
        expr_simplify(e) == e,
    decreases e,
{
    reveal_with_fuel(expr_plus, 2);
    reveal_with_fuel(expr_times, 2);
    match e {
        ExprModel::Add(a, b) => {
            lemma_simplified_fixed(*a);
            lemma_simplified_fixed(*b);
            assert(expr_sum(*a, *b) == e);
        },
        ExprModel::Sub(a, b) => {
            lemma_simplified_fixed(*a);
            lemma_simplified_fixed(*b);
            assert(expr_difference(*a, *b) == e);
        },
        ExprModel::Mul(c, x) => {
            lemma_canonical_fixed(c);
            lemma_simplified_fixed(*x);
            assert(expr_product(c, *x) == e);
        },
        ExprModel::Div(x, c) => {
            lemma_canonical_fixed(c);
            lemma_simplified_fixed(*x);
        },
        ExprModel::Mod(x, c) => {
            lemma_canonical_fixed(c);
            lemma_simplified_fixed(*x);
        },
        _ => {},
    }
}

/// Simplifying an expression a second time changes nothing.
pub proof fn lemma_simplify_idempotent(e: ExprModel)
    ensures
        expr_simplify(expr_simplify(e)) == expr_simplify(e),
{
    lemma_simplify_simplified(e);
    lemma_simplified_fixed(expr_simplify(e));
}

} // verus!
