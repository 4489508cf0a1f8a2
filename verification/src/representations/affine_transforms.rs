//! Affine transformations: output variables as affine expressions of the
//! input variables.

use crate::assoc::named;
use crate::representations::affine_expr::{AffineExpr, ExprModel};
use crate::representations::evaluate::{expr_eval, EvalError, EvalErrorModel};
use vstd::prelude::*;

verus! {

/// For each output variable, in order, the expression that gives its value.
pub struct AffineTransform {
    pub mapping: Vec<(String, AffineExpr)>,
}

/// The outputs of a transformation, in order: each output variable with the
/// value of its expression. The first failure is the result.
pub open spec fn outputs(
    mapping: Seq<(Seq<char>, ExprModel)>,
    env: Seq<(Seq<char>, i32)>,
) -> Result<Seq<(Seq<char>, i32)>, EvalErrorModel>
    decreases mapping.len(),
{
    if mapping.len() == 0 {
        Ok(Seq::empty())
    } else {
        match outputs(mapping.drop_last(), env) {
            Err(e) => Err(e),
            Ok(p) => match expr_eval(mapping.last().1, env) {
                Err(e) => Err(e),
                Ok(v) => Ok(p.push((mapping.last().0, v))),
            },
        }
    }
}

/// The entries of a transformation as values.
pub open spec fn mapping_model(m: Seq<(String, AffineExpr)>) -> Seq<(Seq<char>, ExprModel)> {
    m.map_values(|e: (String, AffineExpr)| (e.0@, e.1@))
}

/// Outputs of which a first part fails fail as a whole, with the same
/// error.
pub proof fn lemma_outputs_failure_stays(
    mapping: Seq<(Seq<char>, ExprModel)>,
    env: Seq<(Seq<char>, i32)>,
    k: int,
)
    requires
        0 <= k <= mapping.len(),
        outputs(mapping.take(k), env) is Err,
    ensures
        outputs(mapping, env) == outputs(mapping.take(k), env),
    decreases mapping.len() - k,
{
    if k < mapping.len() {
        assert(mapping.take(k + 1).drop_last() =~= mapping.take(k));
        lemma_outputs_failure_stays(mapping, env, k + 1);
    } else {
        assert(mapping.take(k) =~= mapping);
    }
}

impl AffineTransform {
    /// Applies the transformation to the values of the input variables.
    pub fn apply(&self, input_vars: &Vec<(String, i32)>) -> (r: Result<
        Vec<(String, i32)>,
        EvalError,
    >)
        ensures
            match r {
                Ok(out) => outputs(mapping_model(self.mapping@), named(input_vars@)) == Ok::<
                    Seq<(Seq<char>, i32)>,
                    EvalErrorModel,
                >(named(out@)),
                Err(e) => outputs(mapping_model(self.mapping@), named(input_vars@)) == Err::<
                    Seq<(Seq<char>, i32)>,
                    EvalErrorModel,
                >(e@),
            },
    {
        let mut output_vars: Vec<(String, i32)> = Vec::new();
        let ghost m = mapping_model(self.mapping@);
        let ghost env = named(input_vars@);
        let mut i: usize = 0;
        assert(m.take(0) =~= Seq::<(Seq<char>, ExprModel)>::empty());
        assert(named(output_vars@) =~= Seq::<(Seq<char>, i32)>::empty());
        while i < self.mapping.len()
            invariant
                i <= self.mapping.len(),
                m == mapping_model(self.mapping@),
                env == named(input_vars@),
                outputs(m.take(i as int), env) == Ok::<Seq<(Seq<char>, i32)>, EvalErrorModel>(
                    named(output_vars@),
                ),
            decreases self.mapping.len() - i,
        {
            proof {
                let next = m.take(i + 1);
                assert(next.drop_last() =~= m.take(i as int));
                assert(next.last() == m[i as int]);
            }
            match self.mapping[i].1.evaluate(input_vars) {
                Ok(value) => {
                    let ghost before = named(output_vars@);
                    output_vars.push((self.mapping[i].0.clone(), value));
                    assert(named(output_vars@) =~= before.push((self.mapping@[i as int].0@, value)));
                },
                Err(e) => {
                    proof {
                        lemma_outputs_failure_stays(m, env, i + 1);
                    }
                    return Err(e);
                },
            }
            i = i + 1;
        }
        assert(m.take(self.mapping.len() as int) =~= m);
        Ok(output_vars)
    }
}

} // verus!
