//! A reordering moves iterators and nothing else, and undoes itself.

use crate::passes::closed_laws::lemma_first_named_found;
use crate::passes::transform_pass::{
    body_apply,
    coeff_apply,
    expr_apply,
    exprs_apply,
    first_named,
    inst_apply,
    iters_apply,
    nest_apply,
};
use crate::representations::affine_expr::{CoeffModel, ExprModel};
use crate::representations::instruction::InstructionModel;
use crate::representations::loops::{LoopIterModel, LoopNestModel};
use crate::representations::transforms::{TransformErrorModel, TransformModel};
use vstd::prelude::*;

verus! {

/// Whether no two of the iterators have the same name.
pub open spec fn names_differ(s: Seq<LoopIterModel>) -> bool {
    forall|i: int, j: int|
        0 <= i < j < s.len() ==> (#[trigger] s[i]).iter_name != (#[trigger] s[j]).iter_name
}

/// A reordering leaves a coefficient as it is.
pub proof fn lemma_reorder_coeff(c: CoeffModel, a: Seq<char>, b: Seq<char>)
    ensures
        coeff_apply(c, TransformModel::Reorder(a, b)) == Ok::<CoeffModel, TransformErrorModel>(c),
    decreases c,
{
    match c {
        CoeffModel::Mul(l, r) => {
            lemma_reorder_coeff(*l, a, b);
            lemma_reorder_coeff(*r, a, b);
        },
        _ => {},
    }
}

/// A reordering leaves an expression as it is.
pub proof fn lemma_reorder_expr(e: ExprModel, a: Seq<char>, b: Seq<char>)
    ensures
        expr_apply(e, TransformModel::Reorder(a, b)) == Ok::<ExprModel, TransformErrorModel>(e),
    decreases e,
{
    match e {
        ExprModel::Add(l, r) => {
            lemma_reorder_expr(*l, a, b);
            lemma_reorder_expr(*r, a, b);
        },
        ExprModel::Sub(l, r) => {
            lemma_reorder_expr(*l, a, b);
            lemma_reorder_expr(*r, a, b);
        },
        ExprModel::Mul(c, x) => {
            lemma_reorder_coeff(c, a, b);
            lemma_reorder_expr(*x, a, b);
        },
        ExprModel::Div(x, c) => {
            lemma_reorder_coeff(c, a, b);
            lemma_reorder_expr(*x, a, b);
        },
        ExprModel::Mod(x, c) => {
            lemma_reorder_coeff(c, a, b);
            lemma_reorder_expr(*x, a, b);
        },
        _ => {},
    }
}

/// A reordering leaves the indices of an access as they are.
pub proof fn lemma_reorder_exprs(s: Seq<ExprModel>, a: Seq<char>, b: Seq<char>)
    ensures
        exprs_apply(s, TransformModel::Reorder(a, b)) == Ok::<Seq<ExprModel>, TransformErrorModel>(
            s,
        ),
    decreases s.len(),
{
    if s.len() > 0 {
        lemma_reorder_exprs(s.drop_last(), a, b);
        lemma_reorder_expr(s.last(), a, b);
        assert(s.drop_last().push(s.last()) =~= s);
    } else {
        assert(s =~= Seq::empty());
    }
}

/// A reordering leaves an instruction as it is.
pub proof fn lemma_reorder_inst(i: InstructionModel, a: Seq<char>, b: Seq<char>)
    ensures
        inst_apply(i, TransformModel::Reorder(a, b)) == Ok::<InstructionModel, TransformErrorModel>(
            i,
        ),
{
    match i {
        InstructionModel::DataLoad(x) => {
            lemma_reorder_exprs(x.addr, a, b);
        },
        InstructionModel::DataStore(x) => {
            lemma_reorder_exprs(x.addr, a, b);
        },
        InstructionModel::Compute(_) => {},
    }
}

/// A reordering leaves the body of a nest as it is.
pub proof fn lemma_reorder_body(s: Seq<InstructionModel>, a: Seq<char>, b: Seq<char>)
    ensures
        body_apply(s, TransformModel::Reorder(a, b)) == Ok::<
            Seq<InstructionModel>,
            TransformErrorModel,
        >(s),
    decreases s.len(),
{
    if s.len() > 0 {
        lemma_reorder_body(s.drop_last(), a, b);
        lemma_reorder_inst(s.last(), a, b);
        assert(s.drop_last().push(s.last()) =~= s);
    } else {
        assert(s =~= Seq::empty());
    }
}

/// A reordering leaves each iterator as it is.
pub proof fn lemma_reorder_iters(s: Seq<LoopIterModel>, a: Seq<char>, b: Seq<char>)
    ensures
        iters_apply(s, TransformModel::Reorder(a, b)) == Ok::<
            Seq<LoopIterModel>,
            TransformErrorModel,
        >(s),
    decreases s.len(),
{
    if s.len() > 0 {
        lemma_reorder_iters(s.drop_last(), a, b);
        assert(s.drop_last().push(s.last()) =~= s);
    } else {
        assert(s =~= Seq::empty());
    }
}

/// Where no two iterators have the same name, the first iterator of a name
/// is the only one.
pub proof fn lemma_first_named_is(s: Seq<LoopIterModel>, name: Seq<char>, k: int)
    requires
        names_differ(s),
        0 <= k < s.len(),
        s[k].iter_name == name,
    ensures
        first_named(s, name) == k,
{
    lemma_first_named_found(s, name);
    let f = first_named(s, name);
    assert(f < s.len());
    if f < k {
        assert(s[f].iter_name != s[k].iter_name);
    }
    if k < f {
        assert(s[k].iter_name != s[f].iter_name);
    }
}

/// What a reordering gives: the nest with the first iterators of the two
/// names in each other's places, or the name that no iterator has.
pub proof fn lemma_reorder_swaps(n: LoopNestModel, a: Seq<char>, b: Seq<char>)
    ensures
        ({
            let i = first_named(n.iters, a);
            let j = first_named(n.iters, b);
            nest_apply(n, TransformModel::Reorder(a, b)) == if i >= n.iters.len() {
                Err::<LoopNestModel, TransformErrorModel>(TransformErrorModel::IterNotFound(a))
            } else if j >= n.iters.len() {
                Err::<LoopNestModel, TransformErrorModel>(TransformErrorModel::IterNotFound(b))
            } else {
                Ok::<LoopNestModel, TransformErrorModel>(
                    LoopNestModel {
                        iters: n.iters.update(i, n.iters[j]).update(j, n.iters[i]),
                        body: n.body,
                        properties: n.properties,
                    },
                )
            }
        }),
{
    lemma_reorder_iters(n.iters, a, b);
    lemma_reorder_body(n.body, a, b);
}

/// Reordering the same two iterators twice gives the nest back, where no
/// two iterators of the nest have the same name.
pub proof fn lemma_reorder_twice(n: LoopNestModel, a: Seq<char>, b: Seq<char>)
    requires
        names_differ(n.iters),
        nest_apply(n, TransformModel::Reorder(a, b)) is Ok,
    ensures
        nest_apply(
            nest_apply(n, TransformModel::Reorder(a, b))->Ok_0,
            TransformModel::Reorder(a, b),
        ) == Ok::<LoopNestModel, TransformErrorModel>(n),
{
    let t = TransformModel::Reorder(a, b);
    let i = first_named(n.iters, a);
    let j = first_named(n.iters, b);
    lemma_reorder_swaps(n, a, b);
    lemma_first_named_found(n.iters, a);
    lemma_first_named_found(n.iters, b);
    let r = nest_apply(n, t)->Ok_0;
    assert(r.iters.len() == n.iters.len());
    assert(r.iters[j] == n.iters[i]);
    assert(r.iters[i] == n.iters[j]);
    assert(names_differ(r.iters)) by {
        assert forall|p: int, q: int| 0 <= p < q < r.iters.len() implies (#[trigger] r.iters[p]).iter_name
            != (#[trigger] r.iters[q]).iter_name by {
            let sp = if p == i {
                j
            } else if p == j {
                i
            } else {
                p
            };
            let sq = if q == i {
                j
            } else if q == j {
                i
            } else {
                q
            };
            assert(r.iters[p] == n.iters[sp]);
            assert(r.iters[q] == n.iters[sq]);
            if sp < sq {
                assert(n.iters[sp].iter_name != n.iters[sq].iter_name);
            } else {
                assert(n.iters[sq].iter_name != n.iters[sp].iter_name);
            }
        }
    }
    lemma_first_named_is(r.iters, a, j);
    lemma_first_named_is(r.iters, b, i);
    lemma_reorder_swaps(r, a, b);
    let back = r.iters.update(j, r.iters[i]).update(i, r.iters[j]);
    assert(back =~= n.iters);
}

} // verus!
