//! What holds of every application of a transform.

use crate::passes::transform_pass::{
    access_apply,
    apply_all_spec,
    coeff_apply,
    expr_apply,
    exprs_apply,
    inst_apply,
    iter_apply,
    TransformAction,
};
use crate::representations::affine_expr::{coeff_mentions, expr_mentions, CoeffModel, ExprModel};
use crate::arith::trunc_div;
use crate::representations::instruction::{inst_wf, DataAccessModel, InstructionModel};
use crate::representations::loops::{iter_wf, LoopIterModel};
use crate::representations::transforms::{TransformErrorModel, TransformModel};
use vstd::prelude::*;

verus! {

/// Whether `name` is an iterator that the transform refers to.
pub open spec fn targets(t: TransformModel, name: Seq<char>) -> bool {
    match t {
        TransformModel::MapSpatial(i) => name == i,
        TransformModel::MapTemporal(i) => name == i,
        TransformModel::Tiling(old, _, _) => name == old,
        TransformModel::Renaming(old, _) => name == old,
        TransformModel::Reorder(a, b) => name == a || name == b,
    }
}

/// Whether some index of an access mentions the name.
pub open spec fn access_mentions(a: DataAccessModel, name: Seq<char>) -> bool {
    exists|i: int| 0 <= i < a.addr.len() && expr_mentions(#[trigger] a.addr[i], name)
}

/// Whether an instruction mentions the name in an address.
pub open spec fn inst_mentions(i: InstructionModel, name: Seq<char>) -> bool {
    match i {
        InstructionModel::DataLoad(a) => access_mentions(a, name),
        InstructionModel::DataStore(a) => access_mentions(a, name),
        InstructionModel::Compute(_) => false,
    }
}

/// The empty script changes nothing.
pub proof fn lemma_apply_all_empty<T: TransformAction>(v: T::V)
    ensures
        apply_all_spec::<T>(v, Seq::empty()) == Ok::<T::V, TransformErrorModel>(v),
{
}

/// A script acts as a left fold: with one more transform at its end, it acts
/// as that transform on what the script gave before, and fails as the script
/// did where it failed.
pub proof fn lemma_apply_all_push<T: TransformAction>(
    v: T::V,
    ts: Seq<TransformModel>,
    t: TransformModel,
)
    ensures
        apply_all_spec::<T>(v, ts.push(t)) == match apply_all_spec::<T>(v, ts) {
            Ok(x) => T::apply_spec(x, t),
            Err(e) => Err(e),
        },
{
    assert(ts.push(t).drop_last() =~= ts);
}

/// A script of one transform acts as the transform.
pub proof fn lemma_apply_all_single<T: TransformAction>(v: T::V, t: TransformModel)
    ensures
        apply_all_spec::<T>(v, seq![t]) == T::apply_spec(v, t),
{
    let one = seq![t];
    assert(one.drop_last() =~= Seq::<TransformModel>::empty());
    assert(one.last() == t);
    assert(apply_all_spec::<T>(v, one.drop_last()) == Ok::<T::V, TransformErrorModel>(v));
}

/// A transform leaves a coefficient as it is where the coefficient mentions
/// no iterator that the transform refers to.
pub proof fn lemma_coeff_untouched(c: CoeffModel, t: TransformModel)
    requires
        forall|n: Seq<char>| targets(t, n) ==> !coeff_mentions(c, n),
    ensures
        coeff_apply(c, t) == Ok::<CoeffModel, TransformErrorModel>(c),
    decreases c,
{
    match c {
        CoeffModel::Const(_) => {},
        CoeffModel::ConstVar(v) => {
            assert(targets(t, v) ==> !coeff_mentions(c, v));
        },
        CoeffModel::Mul(a, b) => {
            assert forall|n: Seq<char>| targets(t, n) implies !coeff_mentions(*a, n)
                && !coeff_mentions(*b, n) by {
                assert(!coeff_mentions(c, n));
            }
            lemma_coeff_untouched(*a, t);
            lemma_coeff_untouched(*b, t);
        },
    }
}

/// A transform leaves an expression as it is where the expression mentions
/// no iterator that the transform refers to.
pub proof fn lemma_expr_untouched(e: ExprModel, t: TransformModel)
    requires
        forall|n: Seq<char>| targets(t, n) ==> !expr_mentions(e, n),
    ensures
        expr_apply(e, t) == Ok::<ExprModel, TransformErrorModel>(e),
    decreases e,
{
    match e {
        ExprModel::Var(v) => {
            assert(targets(t, v) ==> !expr_mentions(e, v));
        },
        ExprModel::Const(_) => {},
        ExprModel::Add(a, b) => {
            assert forall|n: Seq<char>| targets(t, n) implies !expr_mentions(*a, n)
                && !expr_mentions(*b, n) by {
                assert(!expr_mentions(e, n));
            }
            lemma_expr_untouched(*a, t);
            lemma_expr_untouched(*b, t);
        },
        ExprModel::Sub(a, b) => {
            assert forall|n: Seq<char>| targets(t, n) implies !expr_mentions(*a, n)
                && !expr_mentions(*b, n) by {
                assert(!expr_mentions(e, n));
            }
            lemma_expr_untouched(*a, t);
            lemma_expr_untouched(*b, t);
        },
        ExprModel::Mul(c, x) => {
            assert forall|n: Seq<char>| targets(t, n) implies !coeff_mentions(c, n)
                && !expr_mentions(*x, n) by {
                assert(!expr_mentions(e, n));
            }
            lemma_coeff_untouched(c, t);
            lemma_expr_untouched(*x, t);
        },
        ExprModel::Div(x, c) => {
            assert forall|n: Seq<char>| targets(t, n) implies !coeff_mentions(c, n)
                && !expr_mentions(*x, n) by {
                assert(!expr_mentions(e, n));
            }
            lemma_coeff_untouched(c, t);
            lemma_expr_untouched(*x, t);
        },
        ExprModel::Mod(x, c) => {
            assert forall|n: Seq<char>| targets(t, n) implies !coeff_mentions(c, n)
                && !expr_mentions(*x, n) by {
                assert(!expr_mentions(e, n));
            }
            lemma_coeff_untouched(c, t);
            lemma_expr_untouched(*x, t);
        },
    }
}

/// A transform leaves a list of indices as it is where none of them mentions
/// an iterator that the transform refers to.
pub proof fn lemma_exprs_untouched(s: Seq<ExprModel>, t: TransformModel)
    requires
        forall|i: int, n: Seq<char>|
            0 <= i < s.len() && targets(t, n) ==> !#[trigger] expr_mentions(s[i], n),
    ensures
        exprs_apply(s, t) == Ok::<Seq<ExprModel>, TransformErrorModel>(s),
    decreases s.len(),
{
    if s.len() > 0 {
        let p = s.drop_last();
        assert forall|i: int, n: Seq<char>| 0 <= i < p.len() && targets(t, n) implies !#[trigger] expr_mentions(
            p[i],
            n,
        ) by {
            assert(p[i] == s[i]);
            assert(!expr_mentions(s[i], n));
        }
        lemma_exprs_untouched(p, t);
        assert forall|n: Seq<char>| targets(t, n) implies !expr_mentions(s.last(), n) by {
            assert(s.last() == s[s.len() - 1]);
            assert(!expr_mentions(s[s.len() - 1], n));
        }
        lemma_expr_untouched(s.last(), t);
        assert(p.push(s.last()) =~= s);
    } else {
        assert(s =~= Seq::<ExprModel>::empty());
    }
}

/// A transform leaves an access as it is where no index of the access
/// mentions an iterator that the transform refers to.
pub proof fn lemma_access_untouched(a: DataAccessModel, t: TransformModel)
    requires
        forall|n: Seq<char>| targets(t, n) ==> !access_mentions(a, n),
    ensures
        access_apply(a, t) == Ok::<DataAccessModel, TransformErrorModel>(a),
{
    assert forall|i: int, n: Seq<char>| 0 <= i < a.addr.len() && targets(t, n) implies !#[trigger] expr_mentions(
        a.addr[i],
        n,
    ) by {
        assert(!access_mentions(a, n));
    }
    lemma_exprs_untouched(a.addr, t);
}

/// A transform leaves an instruction as it is where no address of the
/// instruction mentions an iterator that the transform refers to. A
/// computation is left as it is by every transform.
pub proof fn lemma_inst_untouched(i: InstructionModel, t: TransformModel)
    requires
        forall|n: Seq<char>| targets(t, n) ==> !inst_mentions(i, n),
    ensures
        inst_apply(i, t) == Ok::<InstructionModel, TransformErrorModel>(i),
{
    match i {
        InstructionModel::DataLoad(a) => {
            assert forall|n: Seq<char>| targets(t, n) implies !access_mentions(a, n) by {
                assert(!inst_mentions(i, n));
            }
            lemma_access_untouched(a, t);
        },
        InstructionModel::DataStore(a) => {
            assert forall|n: Seq<char>| targets(t, n) implies !access_mentions(a, n) by {
                assert(!inst_mentions(i, n));
            }
            lemma_access_untouched(a, t);
        },
        InstructionModel::Compute(_) => {},
    }
}

/// A transform leaves an iterator as it is where the transform does not
/// refer to it.
pub proof fn lemma_iter_untouched(it: LoopIterModel, t: TransformModel)
    requires
        !targets(t, it.iter_name),
    ensures
        iter_apply(it, t) == Ok::<LoopIterModel, TransformErrorModel>(it),
{
}

/// A transform keeps the lower bound and the step of an iterator, and but
/// for a tiling of the iterator its upper bound too. A tiled iterator has
/// its bounds in order if and only if its lower bound is at most the
/// quotient of its upper bound by the factor.
pub proof fn lemma_iter_apply_wf(it: LoopIterModel, t: TransformModel, r: LoopIterModel)
    requires
        iter_apply(it, t) == Ok::<LoopIterModel, TransformErrorModel>(r),
    ensures
        r.step == it.step,
        r.bounds.0 == it.bounds.0,
        !(t is Tiling && t->Tiling_0 == it.iter_name) ==> r.bounds == it.bounds,
        t is Tiling && t->Tiling_0 == it.iter_name ==> r.bounds.1 == trunc_div(
            it.bounds.1 as int,
            t->Tiling_2 as int,
        ),
        iter_wf(it) && !(t is Tiling && t->Tiling_0 == it.iter_name) ==> iter_wf(r),
{
    match t {
        TransformModel::Tiling(old, _, factor) => {
            if it.iter_name == old {
                let hi = it.bounds.1 as int;
                let f = factor as int;
                assert(i32::MIN <= trunc_div(hi, f) <= i32::MAX) by (nonlinear_arith)
                    requires
                        f > 0,
                        i32::MIN <= hi <= i32::MAX,
                {
                    if hi >= 0 {
                        assert(0 <= hi / f <= hi);
                    } else {
                        assert(0 <= (-hi) / f <= -hi);
                    }
                }
            }
        },
        _ => {},
    }
}

/// A transform keeps the condition of an instruction whole.
pub proof fn lemma_inst_apply_wf(i: InstructionModel, t: TransformModel, r: InstructionModel)
    requires
        inst_wf(i),
        inst_apply(i, t) == Ok::<InstructionModel, TransformErrorModel>(r),
    ensures
        inst_wf(r),
{
}

} // verus!
