//! Affine expressions over loop iterators, with constant or symbolic
//! coefficients.

pub use crate::representations::affine_parse::parse_expr;
use crate::text::{int_text, push_int};
use vstd::string::StringExecFns;
use vstd::prelude::*;

verus! {

/// A coefficient: a constant, a symbolic constant, or a product of two.
#[derive(Debug, PartialEq)]
pub enum Coeff {
    Const(i32),
    ConstVar(String),
    Mul(Box<Coeff>, Box<Coeff>),
}

/// An affine expression: a constant, a variable, or an affine combination.
#[derive(Debug, PartialEq)]
pub enum AffineExpr {
    Var(String),
    Const(i32),
    Add(Box<AffineExpr>, Box<AffineExpr>),
    Sub(Box<AffineExpr>, Box<AffineExpr>),
    Mul(Coeff, Box<AffineExpr>),
    Div(Box<AffineExpr>, Coeff),
    Mod(Box<AffineExpr>, Coeff),
}

/// The mathematical value of a [`Coeff`]: names are character sequences.
pub enum CoeffModel {
    Const(i32),
    ConstVar(Seq<char>),
    Mul(Box<CoeffModel>, Box<CoeffModel>),
}

/// The mathematical value of an [`AffineExpr`].
pub enum ExprModel {
    Var(Seq<char>),
    Const(i32),
    Add(Box<ExprModel>, Box<ExprModel>),
    Sub(Box<ExprModel>, Box<ExprModel>),
    Mul(CoeffModel, Box<ExprModel>),
    Div(Box<ExprModel>, CoeffModel),
    Mod(Box<ExprModel>, CoeffModel),
}

/// The value of a coefficient.
pub open spec fn coeff_model(c: Coeff) -> CoeffModel
    decreases c,
{
    match c {
        Coeff::Const(v) => CoeffModel::Const(v),
        Coeff::ConstVar(n) => CoeffModel::ConstVar(n@),
        Coeff::Mul(a, b) => CoeffModel::Mul(Box::new(coeff_model(*a)), Box::new(coeff_model(*b))),
    }
}

/// The value of an expression.
pub open spec fn expr_model(e: AffineExpr) -> ExprModel
    decreases e,
{
    match e {
        AffineExpr::Var(n) => ExprModel::Var(n@),
        AffineExpr::Const(v) => ExprModel::Const(v),
        AffineExpr::Add(a, b) => ExprModel::Add(
            Box::new(expr_model(*a)),
            Box::new(expr_model(*b)),
        ),
        AffineExpr::Sub(a, b) => ExprModel::Sub(
            Box::new(expr_model(*a)),
            Box::new(expr_model(*b)),
        ),
        AffineExpr::Mul(c, x) => ExprModel::Mul(coeff_model(c), Box::new(expr_model(*x))),
        AffineExpr::Div(x, c) => ExprModel::Div(Box::new(expr_model(*x)), coeff_model(c)),
        AffineExpr::Mod(x, c) => ExprModel::Mod(Box::new(expr_model(*x)), coeff_model(c)),
    }
}

impl View for Coeff {
    type V = CoeffModel;

    open spec fn view(&self) -> CoeffModel {
        coeff_model(*self)
    }
}

impl View for AffineExpr {
    type V = ExprModel;

    open spec fn view(&self) -> ExprModel {
        expr_model(*self)
    }
}

impl Clone for Coeff {
    fn clone(&self) -> (r: Self)
        ensures
            r == *self,
        decreases self,
    {
        match self {
            Coeff::Const(c) => Coeff::Const(*c),
            Coeff::ConstVar(n) => Coeff::ConstVar(n.clone()),
            Coeff::Mul(a, b) => Coeff::Mul(Box::new((**a).clone()), Box::new((**b).clone())),
        }
    }
}

impl Clone for AffineExpr {
    fn clone(&self) -> (r: Self)
        ensures
            r == *self,
        decreases self,
    {
        match self {
            AffineExpr::Var(n) => AffineExpr::Var(n.clone()),
            AffineExpr::Const(c) => AffineExpr::Const(*c),
            AffineExpr::Add(a, b) => AffineExpr::Add(
                Box::new((**a).clone()),
                Box::new((**b).clone()),
            ),
            AffineExpr::Sub(a, b) => AffineExpr::Sub(
                Box::new((**a).clone()),
                Box::new((**b).clone()),
            ),
            AffineExpr::Mul(c, e) => AffineExpr::Mul(c.clone(), Box::new((**e).clone())),
            AffineExpr::Div(e, c) => AffineExpr::Div(Box::new((**e).clone()), c.clone()),
            AffineExpr::Mod(e, c) => AffineExpr::Mod(Box::new((**e).clone()), c.clone()),
        }
    }
}

/// An operator between its operands: a space on either side.
pub open spec fn op_text(op: char) -> Seq<char> {
    seq![' ', op, ' ']
}

/// The text of a coefficient.
pub open spec fn coeff_text(c: CoeffModel) -> Seq<char>
    decreases c,
{
    match c {
        CoeffModel::Const(v) => int_text(v as int),
        CoeffModel::ConstVar(n) => n,
        CoeffModel::Mul(a, b) => coeff_text(*a) + op_text('*') + coeff_text(*b),
    }
}

/// The text of an expression. A product shows a variable bare and any other
/// operand in parentheses.
pub open spec fn expr_text(e: ExprModel) -> Seq<char>
    decreases e,
{
    match e {
        ExprModel::Var(n) => n,
        ExprModel::Const(v) => int_text(v as int),
        ExprModel::Add(a, b) => expr_text(*a) + op_text('+') + expr_text(*b),
        ExprModel::Sub(a, b) => expr_text(*a) + op_text('-') + expr_text(*b),
        ExprModel::Mul(c, x) => if *x is Var {
            coeff_text(c) + op_text('*') + expr_text(*x)
        } else {
            coeff_text(c) + op_text('*') + seq!['('] + expr_text(*x) + seq![')']
        },
        ExprModel::Div(x, c) => expr_text(*x) + op_text('/') + coeff_text(c),
        ExprModel::Mod(x, c) => expr_text(*x) + op_text('%') + coeff_text(c),
    }
}

pub(crate) fn push_op(out: &mut String, op: char)
    ensures
        final(out)@ == old(out)@ + op_text(op),
{
    out.push(' ');
    out.push(op);
    out.push(' ');
    assert(out@ =~= old(out)@ + op_text(op));
}

/// Appends a string.
pub fn push_text(out: &mut String, t: &String)
    ensures
        final(out)@ == old(out)@ + t@,
{
    out.append(t.as_str());
}

impl Coeff {
    /// Appends the text of the coefficient.
    pub fn write(&self, out: &mut String)
        ensures
            final(out)@ == old(out)@ + coeff_text(self@),
        decreases self,
    {
        match self {
            Coeff::Const(c) => push_int(out, *c),
            Coeff::ConstVar(n) => push_text(out, n),
            Coeff::Mul(a, b) => {
                a.write(out);
                push_op(out, '*');
                b.write(out);
                assert(out@ =~= old(out)@ + coeff_text(self@));
            },
        }
    }

    /// The text of the coefficient.
    pub fn to_string(&self) -> (r: String)
        ensures
            r@ == coeff_text(self@),
    {
        let mut out = String::new();
        self.write(&mut out);
        assert(out@ =~= coeff_text(self@));
        out
    }
}

impl AffineExpr {
    /// Appends the text of the expression.
    pub fn write(&self, out: &mut String)
        ensures
            final(out)@ == old(out)@ + expr_text(self@),
        decreases self,
    {
        match self {
            AffineExpr::Var(n) => push_text(out, n),
            AffineExpr::Const(c) => push_int(out, *c),
            AffineExpr::Add(a, b) => {
                a.write(out);
                push_op(out, '+');
                b.write(out);
                assert(out@ =~= old(out)@ + expr_text(self@));
            },
            AffineExpr::Sub(a, b) => {
                a.write(out);
                push_op(out, '-');
                b.write(out);
                assert(out@ =~= old(out)@ + expr_text(self@));
            },
            AffineExpr::Mul(c, x) => {
                c.write(out);
                push_op(out, '*');
                match **x {
                    AffineExpr::Var(_) => {
                        x.write(out);
                        assert(out@ =~= old(out)@ + expr_text(self@));
                    },
                    _ => {
                        out.push('(');
                        x.write(out);
                        out.push(')');
                        assert(out@ =~= old(out)@ + expr_text(self@));
                    },
                }
            },
            AffineExpr::Div(x, c) => {
                x.write(out);
                push_op(out, '/');
                c.write(out);
                assert(out@ =~= old(out)@ + expr_text(self@));
            },
            AffineExpr::Mod(x, c) => {
                x.write(out);
                push_op(out, '%');
                c.write(out);
                assert(out@ =~= old(out)@ + expr_text(self@));
            },
        }
    }

    /// The text of the expression.
    pub fn to_string(&self) -> (r: String)
        ensures
            r@ == expr_text(self@),
    {
        let mut out = String::new();
        self.write(&mut out);
        assert(out@ =~= expr_text(self@));
        out
    }
}

/// Whether a name occurs in a coefficient.
pub open spec fn coeff_mentions(c: CoeffModel, name: Seq<char>) -> bool
    decreases c,
{
    match c {
        CoeffModel::Const(_) => false,
        CoeffModel::ConstVar(n) => n == name,
        CoeffModel::Mul(a, b) => coeff_mentions(*a, name) || coeff_mentions(*b, name),
    }
}

/// Whether a name occurs in an expression, as a variable or in a coefficient.
pub open spec fn expr_mentions(e: ExprModel, name: Seq<char>) -> bool
    decreases e,
{
    match e {
        ExprModel::Var(n) => n == name,
        ExprModel::Const(_) => false,
        ExprModel::Add(a, b) => expr_mentions(*a, name) || expr_mentions(*b, name),
        ExprModel::Sub(a, b) => expr_mentions(*a, name) || expr_mentions(*b, name),
        ExprModel::Mul(c, x) => coeff_mentions(c, name) || expr_mentions(*x, name),
        ExprModel::Div(x, c) => expr_mentions(*x, name) || coeff_mentions(c, name),
        ExprModel::Mod(x, c) => expr_mentions(*x, name) || coeff_mentions(c, name),
    }
}

} // verus!
