//! Transformation of expressions in linear form.

use crate::affine::{add_terms, AffineExpression};
use crate::assoc::named;
use vstd::prelude::*;

verus! {

pub trait AffineTransform: Sized {
    /// The terms of what the transformation gives for an expression.
    spec fn transform_spec(&self, expr: &AffineExpression) -> Seq<(Seq<char>, i32)>;

    /// The constant of what the transformation gives for an expression.
    spec fn constant_spec(&self, expr: &AffineExpression) -> i32;

    fn transform(&self, expr: &AffineExpression) -> (r: AffineExpression)
        ensures
            named(r.vars@) == self.transform_spec(expr),
            r.constant == self.constant_spec(expr),
    ;
}

impl AffineTransform for AffineExpression {
    /// The terms of the expression, with those of the argument added.
    open spec fn transform_spec(&self, expr: &AffineExpression) -> Seq<(Seq<char>, i32)> {
        add_terms(named(self.vars@), named(expr.vars@))
    }

    open spec fn constant_spec(&self, expr: &AffineExpression) -> i32 {
        self.constant.wrapping_add(expr.constant)
    }

    fn transform(&self, expr: &AffineExpression) -> (r: AffineExpression) {
        self.duplicate().sum(expr.duplicate())
    }
}

} // verus!
