//! Transforms keep a nest closed: where every variable of every address is
//! an iterator of the nest, the same holds of what a transform gives.

use crate::passes::free_dim_analysis::{contains_name, iter_names};
use crate::passes::mem_access_analysis::{accessed_dims, addr_vars, expr_vars, MemAccessAnalysis};
use crate::passes::passes::names_model;
use crate::passes::transform_pass::{
    body_apply,
    expr_apply,
    exprs_apply,
    first_named,
    inst_apply,
    iter_apply,
    iters_apply,
    nest_apply,
};
use crate::representations::affine_expr::ExprModel;
use crate::representations::instruction::InstructionModel;
use crate::representations::loops::{iters_model, LoopIter, LoopIterModel, LoopNest, LoopNestModel};
use crate::representations::transforms::{TransformErrorModel, TransformModel};
use vstd::prelude::*;

verus! {

/// Whether an iterator of that name is among the iterators.
pub open spec fn has_iter(iters: Seq<LoopIterModel>, name: Seq<char>) -> bool {
    exists|i: int| 0 <= i < iters.len() && (#[trigger] iters[i]).iter_name == name
}

/// Whether every variable of every address of the body is an iterator of
/// the nest.
pub open spec fn nest_closed(n: LoopNestModel) -> bool {
    forall|i: int, v: Seq<char>|
        0 <= i < n.body.len() && #[trigger] accessed_dims(n.body[i]).contains(v) ==> has_iter(
            n.iters,
            v,
        )
}

/// Where a variable of what a transform gives comes from: it was there
/// before and is not renamed, or it is the new name of a tiling or a
/// renaming whose old name was there.
pub open spec fn var_source(t: TransformModel, v: Seq<char>, before: Seq<Seq<char>>) -> bool {
    match t {
        TransformModel::Tiling(old, new, _) => before.contains(v) || (v == new && before.contains(
            old,
        )),
        TransformModel::Renaming(old, new) => (before.contains(v) && v != old) || (v == new
            && before.contains(old)),
        _ => before.contains(v),
    }
}

/// A variable of one of two lists is a variable of the two put together,
/// and the other way round.
pub proof fn lemma_contains_concat(a: Seq<Seq<char>>, b: Seq<Seq<char>>, v: Seq<char>)
    ensures
        (a + b).contains(v) <==> a.contains(v) || b.contains(v),
{
    if a.contains(v) {
        let i = choose|i: int| 0 <= i < a.len() && a[i] == v;
        assert((a + b)[i] == v);
    }
    if b.contains(v) {
        let i = choose|i: int| 0 <= i < b.len() && b[i] == v;
        assert((a + b)[a.len() + i] == v);
    }
    if (a + b).contains(v) {
        let i = choose|i: int| 0 <= i < (a + b).len() && (a + b)[i] == v;
        if i < a.len() {
            assert(a[i] == v);
        } else {
            assert(b[i - a.len()] == v);
        }
    }
}

/// A source among part of the variables is a source among all of them.
pub proof fn lemma_source_concat(
    t: TransformModel,
    v: Seq<char>,
    a: Seq<Seq<char>>,
    b: Seq<Seq<char>>,
)
    requires
        var_source(t, v, a) || var_source(t, v, b),
    ensures
        var_source(t, v, a + b),
{
    lemma_contains_concat(a, b, v);
    match t {
        TransformModel::Tiling(old, _, _) => {
            lemma_contains_concat(a, b, old);
        },
        TransformModel::Renaming(old, _) => {
            lemma_contains_concat(a, b, old);
        },
        _ => {},
    }
}

/// Every variable of what a transform gives for an expression has its
/// source among the variables of the expression.
pub proof fn lemma_expr_vars_source(e: ExprModel, t: TransformModel, r: ExprModel, v: Seq<char>)
    requires
        expr_apply(e, t) == Ok::<ExprModel, TransformErrorModel>(r),
        expr_vars(r).contains(v),
    ensures
        var_source(t, v, expr_vars(e)),
    decreases e,
{
    match e {
        ExprModel::Var(n) => {
            reveal_with_fuel(expr_vars, 3);
            assert(expr_vars(e)[0] == n);
            match t {
                TransformModel::Tiling(old, new, factor) => {
                    if n == old {
                        let tiled = expr_vars(r);
                        assert(tiled =~= seq![new] + seq![old]);
                        lemma_contains_concat(seq![new], seq![old], v);
                        if seq![new].contains(v) {
                            assert(v == new);
                        } else {
                            assert(seq![old].contains(v));
                            assert(v == old);
                        }
                    }
                },
                TransformModel::Renaming(old, new) => {
                    if n == old {
                        assert(expr_vars(r) =~= seq![new]);
                        assert(v == new);
                    } else {
                        assert(expr_vars(r) =~= seq![n]);
                        assert(v == n);
                    }
                },
                _ => {},
            }
        },
        ExprModel::Const(_) => {},
        ExprModel::Add(a, b) => {
            let ra = expr_apply(*a, t)->Ok_0;
            let rb = expr_apply(*b, t)->Ok_0;
            lemma_contains_concat(expr_vars(ra), expr_vars(rb), v);
            if expr_vars(ra).contains(v) {
                lemma_expr_vars_source(*a, t, ra, v);
            } else {
                lemma_expr_vars_source(*b, t, rb, v);
            }
            lemma_source_concat(t, v, expr_vars(*a), expr_vars(*b));
        },
        ExprModel::Sub(a, b) => {
            let ra = expr_apply(*a, t)->Ok_0;
            let rb = expr_apply(*b, t)->Ok_0;
            lemma_contains_concat(expr_vars(ra), expr_vars(rb), v);
            if expr_vars(ra).contains(v) {
                lemma_expr_vars_source(*a, t, ra, v);
            } else {
                lemma_expr_vars_source(*b, t, rb, v);
            }
            lemma_source_concat(t, v, expr_vars(*a), expr_vars(*b));
        },
        ExprModel::Mul(_, x) => {
            lemma_expr_vars_source(*x, t, expr_apply(*x, t)->Ok_0, v);
        },
        ExprModel::Div(x, _) => {
            lemma_expr_vars_source(*x, t, expr_apply(*x, t)->Ok_0, v);
        },
        ExprModel::Mod(x, _) => {
            lemma_expr_vars_source(*x, t, expr_apply(*x, t)->Ok_0, v);
        },
    }
}

/// Every variable of what a transform gives for the indices of an access
/// has its source among the variables of the indices.
pub proof fn lemma_addr_vars_source(
    s: Seq<ExprModel>,
    t: TransformModel,
    r: Seq<ExprModel>,
    v: Seq<char>,
)
    requires
        exprs_apply(s, t) == Ok::<Seq<ExprModel>, TransformErrorModel>(r),
        addr_vars(r).contains(v),
    ensures
        var_source(t, v, addr_vars(s)),
    decreases s.len(),
{
    if s.len() > 0 {
        let p = exprs_apply(s.drop_last(), t)->Ok_0;
        let x = expr_apply(s.last(), t)->Ok_0;
        assert(r == p.push(x));
        assert(r.drop_last() =~= p);
        assert(r.last() == x);
        lemma_contains_concat(addr_vars(p), expr_vars(x), v);
        if addr_vars(p).contains(v) {
            lemma_addr_vars_source(s.drop_last(), t, p, v);
        } else {
            lemma_expr_vars_source(s.last(), t, x, v);
        }
        lemma_source_concat(t, v, addr_vars(s.drop_last()), expr_vars(s.last()));
    }
}

/// Every dimension that an instruction accesses after a transform has its
/// source among the dimensions that it accessed before.
pub proof fn lemma_inst_vars_source(
    i: InstructionModel,
    t: TransformModel,
    r: InstructionModel,
    v: Seq<char>,
)
    requires
        inst_apply(i, t) == Ok::<InstructionModel, TransformErrorModel>(r),
        accessed_dims(r).contains(v),
    ensures
        var_source(t, v, accessed_dims(i)),
{
    match i {
        InstructionModel::DataLoad(a) => {
            lemma_addr_vars_source(a.addr, t, exprs_apply(a.addr, t)->Ok_0, v);
        },
        InstructionModel::DataStore(a) => {
            lemma_addr_vars_source(a.addr, t, exprs_apply(a.addr, t)->Ok_0, v);
        },
        InstructionModel::Compute(_) => {},
    }
}

/// What a transform gives for a body, instruction by instruction.
pub proof fn lemma_body_apply_each(
    s: Seq<InstructionModel>,
    t: TransformModel,
    r: Seq<InstructionModel>,
)
    requires
        body_apply(s, t) == Ok::<Seq<InstructionModel>, TransformErrorModel>(r),
    ensures
        r.len() == s.len(),
        forall|i: int|
            0 <= i < s.len() ==> inst_apply(#[trigger] s[i], t) == Ok::<
                InstructionModel,
                TransformErrorModel,
            >(r[i]),
    decreases s.len(),
{
    if s.len() > 0 {
        let p = body_apply(s.drop_last(), t)->Ok_0;
        lemma_body_apply_each(s.drop_last(), t, p);
        assert forall|i: int| 0 <= i < s.len() implies inst_apply(#[trigger] s[i], t) == Ok::<
            InstructionModel,
            TransformErrorModel,
        >(r[i]) by {
            if i < s.len() - 1 {
                assert(s[i] == s.drop_last()[i]);
                assert(r[i] == p[i]);
            } else {
                assert(s[i] == s.last());
            }
        }
    }
}

/// What a transform gives for the iterators, iterator by iterator.
pub proof fn lemma_iters_apply_each(s: Seq<LoopIterModel>, t: TransformModel, r: Seq<LoopIterModel>)
    requires
        iters_apply(s, t) == Ok::<Seq<LoopIterModel>, TransformErrorModel>(r),
    ensures
        r.len() == s.len(),
        forall|i: int|
            0 <= i < s.len() ==> iter_apply(#[trigger] s[i], t) == Ok::<
                LoopIterModel,
                TransformErrorModel,
            >(r[i]),
    decreases s.len(),
{
    if s.len() > 0 {
        let p = iters_apply(s.drop_last(), t)->Ok_0;
        lemma_iters_apply_each(s.drop_last(), t, p);
        assert forall|i: int| 0 <= i < s.len() implies iter_apply(#[trigger] s[i], t) == Ok::<
            LoopIterModel,
            TransformErrorModel,
        >(r[i]) by {
            if i < s.len() - 1 {
                assert(s[i] == s.drop_last()[i]);
                assert(r[i] == p[i]);
            } else {
                assert(s[i] == s.last());
            }
        }
    }
}

/// Where an iterator of a name is the first, there is one.
pub proof fn lemma_first_named_found(s: Seq<LoopIterModel>, name: Seq<char>)
    ensures
        0 <= first_named(s, name) <= s.len(),
        first_named(s, name) < s.len() ==> s[first_named(s, name)].iter_name == name,
        first_named(s, name) < s.len() <==> has_iter(s, name),
    decreases s.len(),
{
    if s.len() > 0 {
        if s[0].iter_name != name {
            let rest = s.drop_first();
            lemma_first_named_found(rest, name);
            if has_iter(s, name) {
                let i = choose|i: int| 0 <= i < s.len() && (#[trigger] s[i]).iter_name == name;
                assert(rest[i - 1].iter_name == name);
            }
            if has_iter(rest, name) {
                let i = choose|i: int|
                    0 <= i < rest.len() && (#[trigger] rest[i]).iter_name == name;
                assert(s[i + 1].iter_name == name);
            }
        }
    }
}

/// The iterators that a transform gives a nest hold every source of a
/// variable among the iterators from which the variable may come.
pub proof fn lemma_iters_hold_source(
    n: LoopNestModel,
    t: TransformModel,
    r: LoopNestModel,
    v: Seq<char>,
)
    requires
        nest_apply(n, t) == Ok::<LoopNestModel, TransformErrorModel>(r),
        match t {
            TransformModel::Tiling(old, new, _) => has_iter(n.iters, v) || v == new,
            TransformModel::Renaming(old, new) => (has_iter(n.iters, v) && v != old) || (v == new
                && has_iter(n.iters, old)),
            _ => has_iter(n.iters, v),
        },
    ensures
        has_iter(r.iters, v),
{
    let mapped = iters_apply(n.iters, t)->Ok_0;
    lemma_iters_apply_each(n.iters, t, mapped);
    match t {
        TransformModel::Tiling(old, new, factor) => {
            let at = first_named(n.iters, old);
            lemma_first_named_found(n.iters, old);
            let added = LoopIterModel {
                iter_name: new,
                bounds: (0, factor),
                step: n.iters[at].step,
            };
            assert(r.iters == mapped.insert(at + 1, added));
            if v == new {
                assert(r.iters[at + 1].iter_name == v);
            } else {
                let i = choose|i: int|
                    0 <= i < n.iters.len() && (#[trigger] n.iters[i]).iter_name == v;
                assert(mapped[i].iter_name == v);
                if i <= at {
                    assert(r.iters[i].iter_name == v);
                } else {
                    assert(r.iters[i + 1].iter_name == v);
                }
            }
        },
        TransformModel::Renaming(old, new) => {
            if has_iter(n.iters, v) && v != old {
                let i = choose|i: int|
                    0 <= i < n.iters.len() && (#[trigger] n.iters[i]).iter_name == v;
                assert(r.iters[i].iter_name == v);
            } else {
                let i = choose|i: int|
                    0 <= i < n.iters.len() && (#[trigger] n.iters[i]).iter_name == old;
                assert(r.iters[i].iter_name == v);
            }
        },
        TransformModel::Reorder(a, b) => {
            let i = first_named(n.iters, a);
            let j = first_named(n.iters, b);
            lemma_first_named_found(n.iters, a);
            lemma_first_named_found(n.iters, b);
            let k = choose|k: int|
                0 <= k < n.iters.len() && (#[trigger] n.iters[k]).iter_name == v;
            assert(mapped[k].iter_name == v);
            assert(r.iters == mapped.update(i, mapped[j]).update(j, mapped[i]));
            if k == i {
                assert(r.iters[j].iter_name == v);
            } else if k == j {
                assert(r.iters[i].iter_name == v);
            } else {
                assert(r.iters[k].iter_name == v);
            }
        },
        _ => {
            let k = choose|k: int|
                0 <= k < n.iters.len() && (#[trigger] n.iters[k]).iter_name == v;
            assert(r.iters[k].iter_name == v);
        },
    }
}

/// A transform keeps a nest closed: where every variable of every address
/// is an iterator of the nest, the same holds of the nest that the
/// transform gives.
pub proof fn lemma_apply_keeps_closed(n: LoopNestModel, t: TransformModel, r: LoopNestModel)
    requires
        nest_closed(n),
        nest_apply(n, t) == Ok::<LoopNestModel, TransformErrorModel>(r),
    ensures
        nest_closed(r),
{
    let body = body_apply(n.body, t)->Ok_0;
    lemma_body_apply_each(n.body, t, body);
    assert(r.body == body);
    assert forall|i: int, v: Seq<char>|
        0 <= i < r.body.len() && #[trigger] accessed_dims(r.body[i]).contains(v) implies has_iter(
        r.iters,
        v,
    ) by {
        let before = accessed_dims(n.body[i]);
        lemma_inst_vars_source(n.body[i], t, r.body[i], v);
        match t {
            TransformModel::Tiling(old, new, _) => {
                if before.contains(v) {
                    assert(has_iter(n.iters, v));
                }
            },
            TransformModel::Renaming(old, new) => {
                if before.contains(v) && v != old {
                    assert(has_iter(n.iters, v));
                } else {
                    assert(before.contains(old));
                    assert(has_iter(n.iters, old));
                }
            },
            _ => {
                assert(has_iter(n.iters, v));
            },
        }
        lemma_iters_hold_source(n, t, r, v);
    }
}

/// An iterator of a name is among the iterators if and only if the name is
/// among their names.
pub proof fn lemma_has_iter_names(iters: Seq<LoopIterModel>, name: Seq<char>)
    ensures
        has_iter(iters, name) <==> iter_names(iters).contains(name),
{
    let names = iter_names(iters);
    if has_iter(iters, name) {
        let i = choose|i: int| 0 <= i < iters.len() && (#[trigger] iters[i]).iter_name == name;
        assert(names[i] == name);
    }
    if names.contains(name) {
        let i = choose|i: int| 0 <= i < names.len() && names[i] == name;
        assert(iters[i].iter_name == name);
    }
}

/// The names of the iterators.
fn names_of(iters: &Vec<LoopIter>) -> (r: Vec<String>)
    ensures
        names_model(r@) == iter_names(iters_model(iters@)),
{
    let mut r: Vec<String> = Vec::new();
    let mut i: usize = 0;
    while i < iters.len()
        invariant
            i <= iters.len(),
            r@.len() == i,
            forall|k: int| 0 <= k < i ==> (#[trigger] r@[k])@ == iters@[k].iter_name@,
        decreases iters.len() - i,
    {
        r.push(iters[i].iter_name.clone());
        i = i + 1;
    }
    assert(names_model(r@) =~= iter_names(iters_model(iters@)));
    r
}

impl LoopNest {
    /// Whether every variable of every address of the body is an iterator
    /// of the nest.
    pub fn is_closed(&self) -> (b: bool)
        ensures
            b == nest_closed(self@),
    {
        let names = names_of(&self.iters);
        let ghost n = self@;
        let mut i: usize = 0;
        while i < self.body.len()
            invariant
                i <= self.body.len(),
                n == self@,
                names_model(names@) == iter_names(n.iters),
                forall|k: int, v: Seq<char>|
                    0 <= k < i && #[trigger] accessed_dims(n.body[k]).contains(v) ==> has_iter(
                        n.iters,
                        v,
                    ),
            decreases self.body.len() - i,
        {
            let dims = MemAccessAnalysis::accessed_dims(&self.body[i]);
            assert(n.body[i as int] == self.body@[i as int]@);
            let mut j: usize = 0;
            while j < dims.len()
                invariant
                    j <= dims.len(),
                    i < self.body.len(),
                    n == self@,
                    names_model(names@) == iter_names(n.iters),
                    names_model(dims@) == accessed_dims(n.body[i as int]),
                    forall|k: int|
                        0 <= k < j ==> has_iter(n.iters, #[trigger] names_model(dims@)[k]),
                decreases dims.len() - j,
            {
                if !contains_name(&names, &dims[j]) {
                    proof {
                        let v = dims@[j as int]@;
                        lemma_has_iter_names(n.iters, v);
                        assert(names_model(dims@)[j as int] == v);
                        assert(accessed_dims(n.body[i as int]).contains(v));
                    }
                    return false;
                }
                proof {
                    lemma_has_iter_names(n.iters, dims@[j as int]@);
                }
                j = j + 1;
            }
            proof {
                assert forall|k: int, v: Seq<char>|
                    0 <= k < i + 1 && #[trigger] accessed_dims(n.body[k]).contains(
                        v,
                    ) implies has_iter(n.iters, v) by {
                    if k == i {
                        let at = choose|at: int|
                            0 <= at < accessed_dims(n.body[k]).len() && accessed_dims(
                                n.body[k],
                            )[at] == v;
                        assert(names_model(dims@)[at] == v);
                    }
                }
            }
            i = i + 1;
        }
        true
    }
}

} // verus!
