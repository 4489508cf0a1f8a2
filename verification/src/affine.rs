//! Affine expressions in linear form: a coefficient for each variable, and
//! a constant. The arithmetic wraps around at 32 bits.

use crate::assoc::{find_key, first_key, named};
use crate::representations::affine_expr::push_text;
use crate::text::{int_text, push_int};
use vstd::prelude::*;
use vstd::string::StringExecFns;

verus! {

/// The terms of the expression, as an association list from variable names
/// to coefficients, and the constant term.
#[derive(Debug)]
pub struct AffineExpression {
    pub vars: Vec<(String, i32)>,
    pub constant: i32,
}

/// The terms with `coeff` added to the coefficient of `var`: to the first
/// term of the variable where there is one, as a new last term otherwise.
pub open spec fn add_term(m: Seq<(Seq<char>, i32)>, var: Seq<char>, coeff: i32) -> Seq<
    (Seq<char>, i32),
> {
    let i = first_key(m, var);
    if 0 <= i < m.len() {
        m.update(i, (var, m[i].1.wrapping_add(coeff)))
    } else {
        m.push((var, coeff))
    }
}

/// The terms with each of the terms `ts` added, in order.
pub open spec fn add_terms(m: Seq<(Seq<char>, i32)>, ts: Seq<(Seq<char>, i32)>) -> Seq<
    (Seq<char>, i32),
>
    decreases ts.len(),
{
    if ts.len() == 0 {
        m
    } else {
        add_term(add_terms(m, ts.drop_last()), ts.last().0, ts.last().1)
    }
}

/// The terms with each of the terms `ts` subtracted, in order.
pub open spec fn sub_terms(m: Seq<(Seq<char>, i32)>, ts: Seq<(Seq<char>, i32)>) -> Seq<
    (Seq<char>, i32),
>
    decreases ts.len(),
{
    if ts.len() == 0 {
        m
    } else {
        add_term(sub_terms(m, ts.drop_last()), ts.last().0, 0i32.wrapping_sub(ts.last().1))
    }
}

/// The terms with each coefficient multiplied by the scalar.
pub open spec fn scale_terms(m: Seq<(Seq<char>, i32)>, scalar: i32) -> Seq<(Seq<char>, i32)> {
    m.map_values(|t: (Seq<char>, i32)| (t.0, t.1.wrapping_mul(scalar)))
}

/// The value that the values give a variable: that of the first entry for
/// it.
pub open spec fn value_of(values: Seq<(Seq<char>, i32)>, var: Seq<char>) -> Option<i32> {
    let i = first_key(values, var);
    if 0 <= i < values.len() {
        Some(values[i].1)
    } else {
        None
    }
}

/// The value of the terms added to `start`, or the name of the first
/// variable, in the order of the terms, that has no value.
pub open spec fn terms_value(
    start: i32,
    m: Seq<(Seq<char>, i32)>,
    values: Seq<(Seq<char>, i32)>,
) -> Result<i32, Seq<char>>
    decreases m.len(),
{
    if m.len() == 0 {
        Ok(start)
    } else {
        match terms_value(start, m.drop_last(), values) {
            Err(name) => Err(name),
            Ok(sum) => match value_of(values, m.last().0) {
                None => Err(m.last().0),
                Some(v) => Ok(sum.wrapping_add(m.last().1.wrapping_mul(v))),
            },
        }
    }
}

/// The text of the terms: `coeff*var` for each, with ` + ` between them.
pub open spec fn terms_text(m: Seq<(Seq<char>, i32)>) -> Seq<char>
    decreases m.len(),
{
    if m.len() == 0 {
        Seq::empty()
    } else if m.len() == 1 {
        int_text(m[0].1 as int) + "*"@ + m[0].0
    } else {
        terms_text(m.drop_last()) + " + "@ + int_text(m.last().1 as int) + "*"@ + m.last().0
    }
}

/// The text of an expression: its terms, then its constant unless that is
/// zero.
pub open spec fn expression_text(m: Seq<(Seq<char>, i32)>, constant: i32) -> Seq<char> {
    if constant == 0 {
        terms_text(m)
    } else if m.len() == 0 {
        int_text(constant as int)
    } else {
        terms_text(m) + " + "@ + int_text(constant as int)
    }
}

impl AffineExpression {
    /// The expression without terms and with the constant 0.
    pub fn new() -> (r: Self)
        ensures
            r.vars@.len() == 0,
            r.constant == 0,
    {
        AffineExpression { vars: Vec::new(), constant: 0 }
    }

    /// Adds `coeff` to the coefficient of a variable.
    pub fn add_var(self, var: &str, coeff: i32) -> (r: Self)
        ensures
            named(r.vars@) == add_term(named(self.vars@), var@, coeff),
            r.constant == self.constant,
    {
        let mut r = self;
        let key = var.to_owned();
        let ghost before = named(r.vars@);
        match find_key(&r.vars, &key) {
            Some(i) => {
                let old: i32 = r.vars[i].1;
                r.vars.set(i, (key, old.wrapping_add(coeff)));
                assert(named(r.vars@) =~= add_term(before, var@, coeff));
            },
            None => {
                r.vars.push((key, coeff));
                assert(named(r.vars@) =~= add_term(before, var@, coeff));
            },
        }
        r
    }

    /// Sets the constant term.
    pub fn set_constant(self, constant: i32) -> (r: Self)
        ensures
            r.vars == self.vars,
            r.constant == constant,
    {
        let mut r = self;
        r.constant = constant;
        r
    }

    /// The value of the expression where the variables have the given
    /// values. Fails with the name of the first variable, in the order of
    /// the terms, that has no value.
    pub fn evaluate(&self, values: &Vec<(String, i32)>) -> (r: Result<i32, String>)
        ensures
            match r {
                Ok(v) => terms_value(self.constant, named(self.vars@), named(values@)) == Ok::<
                    i32,
                    Seq<char>,
                >(v),
                Err(name) => terms_value(self.constant, named(self.vars@), named(values@)) == Err::<
                    i32,
                    Seq<char>,
                >(name@),
            },
    {
        let mut result: i32 = self.constant;
        let mut i: usize = 0;
        let ghost m = named(self.vars@);
        assert(m.take(0) =~= Seq::<(Seq<char>, i32)>::empty());
        while i < self.vars.len()
            invariant
                i <= self.vars.len(),
                m == named(self.vars@),
                terms_value(self.constant, m.take(i as int), named(values@)) == Ok::<
                    i32,
                    Seq<char>,
                >(result),
            decreases self.vars.len() - i,
        {
            proof {
                let next = m.take(i + 1);
                assert(next.drop_last() =~= m.take(i as int));
                assert(next.last() == m[i as int]);
            }
            match find_key(values, &self.vars[i].0) {
                Some(k) => {
                    let term: i32 = self.vars[i].1.wrapping_mul(values[k].1);
                    result = result.wrapping_add(term);
                },
                None => {
                    proof {
                        lemma_unbound_stays(self.constant, m, named(values@), i + 1);
                    }
                    return Err(self.vars[i].0.clone());
                },
            }
            i = i + 1;
        }
        assert(m.take(self.vars.len() as int) =~= m);
        Ok(result)
    }

    /// The sum of two expressions.
    pub fn sum(self, other: Self) -> (r: Self)
        ensures
            named(r.vars@) == add_terms(named(self.vars@), named(other.vars@)),
            r.constant == self.constant.wrapping_add(other.constant),
    {
        let mut result = AffineExpression {
            vars: self.vars,
            constant: self.constant.wrapping_add(other.constant),
        };
        let ghost ts = named(other.vars@);
        let mut i: usize = 0;
        assert(ts.take(0) =~= Seq::<(Seq<char>, i32)>::empty());
        while i < other.vars.len()
            invariant
                i <= other.vars.len(),
                ts == named(other.vars@),
                result.constant == self.constant.wrapping_add(other.constant),
                named(result.vars@) == add_terms(named(self.vars@), ts.take(i as int)),
            decreases other.vars.len() - i,
        {
            proof {
                let next = ts.take(i + 1);
                assert(next.drop_last() =~= ts.take(i as int));
                assert(next.last() == ts[i as int]);
            }
            result = result.add_var(other.vars[i].0.as_str(), other.vars[i].1);
            i = i + 1;
        }
        assert(ts.take(other.vars.len() as int) =~= ts);
        result
    }

    /// The difference of two expressions.
    pub fn difference(self, other: Self) -> (r: Self)
        ensures
            named(r.vars@) == sub_terms(named(self.vars@), named(other.vars@)),
            r.constant == self.constant.wrapping_sub(other.constant),
    {
        let mut result = AffineExpression {
            vars: self.vars,
            constant: self.constant.wrapping_sub(other.constant),
        };
        let ghost ts = named(other.vars@);
        let mut i: usize = 0;
        assert(ts.take(0) =~= Seq::<(Seq<char>, i32)>::empty());
        while i < other.vars.len()
            invariant
                i <= other.vars.len(),
                ts == named(other.vars@),
                result.constant == self.constant.wrapping_sub(other.constant),
                named(result.vars@) == sub_terms(named(self.vars@), ts.take(i as int)),
            decreases other.vars.len() - i,
        {
            proof {
                let next = ts.take(i + 1);
                assert(next.drop_last() =~= ts.take(i as int));
                assert(next.last() == ts[i as int]);
            }
            let negated: i32 = 0i32.wrapping_sub(other.vars[i].1);
            result = result.add_var(other.vars[i].0.as_str(), negated);
            i = i + 1;
        }
        assert(ts.take(other.vars.len() as int) =~= ts);
        result
    }

    /// The expression multiplied by a scalar.
    pub fn scaled(self, scalar: i32) -> (r: Self)
        ensures
            named(r.vars@) == scale_terms(named(self.vars@), scalar),
            r.constant == self.constant.wrapping_mul(scalar),
    {
        let mut vars: Vec<(String, i32)> = Vec::new();
        let mut i: usize = 0;
        while i < self.vars.len()
            invariant
                i <= self.vars.len(),
                vars@.len() == i,
                forall|j: int|
                    0 <= j < i ==> (#[trigger] named(vars@)[j]) == (
                        self.vars@[j].0@,
                        self.vars@[j].1.wrapping_mul(scalar),
                    ),
            decreases self.vars.len() - i,
        {
            let ghost before = vars@;
            vars.push((self.vars[i].0.clone(), self.vars[i].1.wrapping_mul(scalar)));
            proof {
                assert forall|j: int| 0 <= j < i + 1 implies (#[trigger] named(vars@)[j]) == (
                    self.vars@[j].0@,
                    self.vars@[j].1.wrapping_mul(scalar),
                ) by {
                    if j < i {
                        assert(named(before)[j] == (
                            self.vars@[j].0@,
                            self.vars@[j].1.wrapping_mul(scalar),
                        ));
                        assert(vars@[j] == before[j]);
                    }
                }
            }
            i = i + 1;
        }
        assert(named(vars@) =~= scale_terms(named(self.vars@), scalar));
        AffineExpression { vars: vars, constant: self.constant.wrapping_mul(scalar) }
    }

    /// A copy of the expression.
    pub fn duplicate(&self) -> (r: Self)
        ensures
            r.vars@ == self.vars@,
            r.constant == self.constant,
    {
        let mut vars: Vec<(String, i32)> = Vec::new();
        let mut i: usize = 0;
        while i < self.vars.len()
            invariant
                i <= self.vars.len(),
                vars@ == self.vars@.take(i as int),
            decreases self.vars.len() - i,
        {
            vars.push((self.vars[i].0.clone(), self.vars[i].1));
            assert(self.vars@.take(i + 1) =~= self.vars@.take(i as int).push(self.vars@[i as int]));
            i = i + 1;
        }
        assert(self.vars@.take(self.vars.len() as int) =~= self.vars@);
        AffineExpression { vars: vars, constant: self.constant }
    }

    /// The text of the expression.
    pub fn to_string(&self) -> (r: String)
        ensures
            r@ == expression_text(named(self.vars@), self.constant),
    {
        let mut out = String::new();
        let ghost m = named(self.vars@);
        let mut i: usize = 0;
        assert(m.take(0) =~= Seq::<(Seq<char>, i32)>::empty());
        assert(out@ =~= terms_text(m.take(0)));
        while i < self.vars.len()
            invariant
                i <= self.vars.len(),
                m == named(self.vars@),
                out@ == terms_text(m.take(i as int)),
            decreases self.vars.len() - i,
        {
            if i > 0 {
                out.append(" + ");
            }
            push_int(&mut out, self.vars[i].1);
            out.append("*");
            push_text(&mut out, &self.vars[i].0);
            proof {
                let next = m.take(i + 1);
                assert(next.drop_last() =~= m.take(i as int));
                assert(next.last() == m[i as int]);
                if i == 0 {
                    assert(next[0] == m[0]);
                }
                assert(out@ =~= terms_text(next));
            }
            i = i + 1;
        }
        assert(m.take(self.vars.len() as int) =~= m);
        if self.constant != 0 {
            if self.vars.len() > 0 {
                out.append(" + ");
            }
            push_int(&mut out, self.constant);
        }
        assert(out@ =~= expression_text(m, self.constant));
        out
    }
}

impl core::ops::Add for AffineExpression {
    type Output = Self;

    fn add(self, other: Self) -> (r: Self)
        ensures
            named(r.vars@) == add_terms(named(self.vars@), named(other.vars@)),
            r.constant == self.constant.wrapping_add(other.constant),
    {
        self.sum(other)
    }
}

impl vstd::std_specs::ops::AddSpecImpl for AffineExpression {
    open spec fn obeys_add_spec() -> bool {
        false
    }

    open spec fn add_req(self, rhs: Self) -> bool {
        true
    }

    open spec fn add_spec(self, rhs: Self) -> Self {
        self
    }
}

impl core::ops::Sub for AffineExpression {
    type Output = Self;

    fn sub(self, other: Self) -> (r: Self)
        ensures
            named(r.vars@) == sub_terms(named(self.vars@), named(other.vars@)),
            r.constant == self.constant.wrapping_sub(other.constant),
    {
        self.difference(other)
    }
}

impl vstd::std_specs::ops::SubSpecImpl for AffineExpression {
    open spec fn obeys_sub_spec() -> bool {
        false
    }

    open spec fn sub_req(self, rhs: Self) -> bool {
        true
    }

    open spec fn sub_spec(self, rhs: Self) -> Self {
        self
    }
}

impl core::ops::Mul<i32> for AffineExpression {
    type Output = Self;

    fn mul(self, scalar: i32) -> (r: Self)
        ensures
            named(r.vars@) == scale_terms(named(self.vars@), scalar),
            r.constant == self.constant.wrapping_mul(scalar),
    {
        self.scaled(scalar)
    }
}

impl vstd::std_specs::ops::MulSpecImpl<i32> for AffineExpression {
    open spec fn obeys_mul_spec() -> bool {
        false
    }

    open spec fn mul_req(self, rhs: i32) -> bool {
        true
    }

    open spec fn mul_spec(self, rhs: i32) -> Self {
        self
    }
}

/// Once a variable without a value is met, the evaluation has failed with
/// its name however many terms follow.
pub proof fn lemma_unbound_stays(
    start: i32,
    m: Seq<(Seq<char>, i32)>,
    values: Seq<(Seq<char>, i32)>,
    k: int,
)
    requires
        0 <= k <= m.len(),
        terms_value(start, m.take(k), values) is Err,
    ensures
        terms_value(start, m, values) == terms_value(start, m.take(k), values),
    decreases m.len() - k,
{
    if k < m.len() {
        assert(m.take(k + 1).drop_last() =~= m.take(k));
        lemma_unbound_stays(start, m, values, k + 1);
    } else {
        assert(m.take(k) =~= m);
    }
}

} // verus!
