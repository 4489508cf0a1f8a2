//! The action of a transform on every node of the representation.

use crate::arith::{div_rem, trunc_div, trunc_rem};
use crate::representations::affine_expr::{
    expr_model,
    AffineExpr,
    Coeff,
    CoeffModel,
    ExprModel,
};
use crate::representations::instruction::{
    clone_name,
    exprs_model,
    Compute,
    ComputeModel,
    DataAccess,
    DataAccessModel,
    Instruction,
    InstructionModel,
};
use crate::representations::loops::{
    body_model,
    clone_properties,
    iters_model,
    properties_model,
    LoopIter,
    LoopIterModel,
    LoopNest,
    LoopNestModel,
    LoopProperties,
    LoopPropertiesModel,
};
use crate::representations::mapping::{bind, with_entry, MappingType, MappingTypeModel};
use crate::representations::transforms::{
    Transform,
    TransformError,
    TransformErrorModel,
    TransformModel,
    Transforms,
};
use vstd::prelude::*;

verus! {

/// The value of the outcome of an application.
pub open spec fn outcome<T: View>(r: Result<T, TransformError>) -> Result<
    T::V,
    TransformErrorModel,
> {
    match r {
        Ok(v) => Ok(v@),
        Err(e) => Err(e@),
    }
}

/// The action of one transform on the value of a node.
pub trait TransformAction: View {
    spec fn apply_spec(v: Self::V, t: TransformModel) -> Result<Self::V, TransformErrorModel>;
}

/// What can be transformed. `apply` is defined on every node of the
/// representation; on a node that the transform does not touch it is the
/// identity.
pub trait Transforming: Sized + TransformAction {
    fn apply(&self, transform: &Transform) -> (r: Result<Self, TransformError>)
        ensures
            outcome(r) == Self::apply_spec(self@, transform@),
    ;

    /// A copy with the same value.
    fn duplicate(&self) -> (r: Self)
        ensures
            r@ == self@,
    ;

    /// Applies the transforms of a script in order. The first failure ends
    /// the script and is the result.
    fn apply_all(&self, transforms: &Transforms) -> (r: Result<Self, TransformError>)
        ensures
            outcome(r) == apply_all_spec::<Self>(self@, transforms@),
    {
        let mut new_self = self.duplicate();
        let mut i: usize = 0;
        assert(transforms@.take(0) =~= Seq::<TransformModel>::empty());
        while i < transforms.transforms.len()
            invariant
                i <= transforms.transforms.len(),
                Ok::<Self::V, TransformErrorModel>(new_self@) == apply_all_spec::<Self>(
                    self@,
                    transforms@.take(i as int),
                ),
            decreases transforms.transforms.len() - i,
        {
            proof {
                let next = transforms@.take(i + 1);
                assert(next.drop_last() =~= transforms@.take(i as int));
                assert(next.last() == transforms.transforms@[i as int]@);
            }
            match new_self.apply(&transforms.transforms[i]) {
                Ok(next) => {
                    new_self = next;
                },
                Err(e) => {
                    proof {
                        lemma_failure_stays::<Self>(self@, transforms@, i + 1);
                    }
                    return Err(e);
                },
            }
            i = i + 1;
        }
        assert(transforms@.take(transforms.transforms.len() as int) =~= transforms@);
        Ok(new_self)
    }
}

/// The action of a script: that of its last transform on what the
/// transforms before it gave.
pub open spec fn apply_all_spec<T: TransformAction>(v: T::V, ts: Seq<TransformModel>) -> Result<
    T::V,
    TransformErrorModel,
>
    decreases ts.len(),
{
    if ts.len() == 0 {
        Ok(v)
    } else {
        match apply_all_spec::<T>(v, ts.drop_last()) {
            Ok(x) => T::apply_spec(x, ts.last()),
            Err(e) => Err(e),
        }
    }
}

/// A script that fails after some of its transforms fails as a whole, with
/// the same error.
pub proof fn lemma_failure_stays<T: TransformAction>(v: T::V, ts: Seq<TransformModel>, k: int)
    requires
        0 <= k <= ts.len(),
        apply_all_spec::<T>(v, ts.take(k)) is Err,
    ensures
        apply_all_spec::<T>(v, ts) == apply_all_spec::<T>(v, ts.take(k)),
    decreases ts.len() - k,
{
    if k < ts.len() {
        let next = ts.take(k + 1);
        assert(next.drop_last() =~= ts.take(k));
        lemma_failure_stays::<T>(v, ts, k + 1);
    } else {
        assert(ts.take(k) =~= ts);
    }
}

/// A script of two parts acts as the second part on what the first gave.
pub proof fn lemma_apply_all_concat<T: TransformAction>(
    v: T::V,
    a: Seq<TransformModel>,
    b: Seq<TransformModel>,
)
    ensures
        apply_all_spec::<T>(v, a + b) == match apply_all_spec::<T>(v, a) {
            Ok(x) => apply_all_spec::<T>(x, b),
            Err(e) => Err(e),
        },
    decreases b.len(),
{
    if b.len() == 0 {
        assert(a + b =~= a);
    } else {
        assert((a + b).drop_last() =~= a + b.drop_last());
        assert((a + b).last() == b.last());
        lemma_apply_all_concat::<T>(v, a, b.drop_last());
    }
}

/// The action of a transform on a coefficient.
pub open spec fn coeff_apply(c: CoeffModel, t: TransformModel) -> Result<
    CoeffModel,
    TransformErrorModel,
>
    decreases c,
{
    match c {
        CoeffModel::Const(_) => Ok(c),
        CoeffModel::ConstVar(v) => match t {
            TransformModel::Tiling(old, _, _) => if v == old {
                Err(TransformErrorModel::TileOverCoeffVar(v))
            } else {
                Ok(c)
            },
            TransformModel::Renaming(old, new) => if v == old {
                Ok(CoeffModel::ConstVar(new))
            } else {
                Ok(c)
            },
            _ => Ok(c),
        },
        CoeffModel::Mul(l, r) => match coeff_apply(*l, t) {
            Err(e) => Err(e),
            Ok(nl) => match coeff_apply(*r, t) {
                Err(e) => Err(e),
                Ok(nr) => Ok(CoeffModel::Mul(Box::new(nl), Box::new(nr))),
            },
        },
    }
}

/// What a tiling puts in the place of the tiled variable: `factor * new + old`.
pub open spec fn tiled_var(old: Seq<char>, new: Seq<char>, factor: i32) -> ExprModel {
    ExprModel::Add(
        Box::new(ExprModel::Mul(CoeffModel::Const(factor), Box::new(ExprModel::Var(new)))),
        Box::new(ExprModel::Var(old)),
    )
}

/// The action of a transform on an expression.
pub open spec fn expr_apply(e: ExprModel, t: TransformModel) -> Result<
    ExprModel,
    TransformErrorModel,
>
    decreases e,
{
    match e {
        ExprModel::Var(v) => match t {
            TransformModel::Tiling(old, new, factor) => if v == old {
                Ok(tiled_var(old, new, factor))
            } else {
                Ok(e)
            },
            TransformModel::Renaming(old, new) => if v == old {
                Ok(ExprModel::Var(new))
            } else {
                Ok(e)
            },
            _ => Ok(e),
        },
        ExprModel::Const(_) => Ok(e),
        ExprModel::Add(l, r) => match expr_apply(*l, t) {
            Err(x) => Err(x),
            Ok(nl) => match expr_apply(*r, t) {
                Err(x) => Err(x),
                Ok(nr) => Ok(ExprModel::Add(Box::new(nl), Box::new(nr))),
            },
        },
        ExprModel::Sub(l, r) => match expr_apply(*l, t) {
            Err(x) => Err(x),
            Ok(nl) => match expr_apply(*r, t) {
                Err(x) => Err(x),
                Ok(nr) => Ok(ExprModel::Sub(Box::new(nl), Box::new(nr))),
            },
        },
        ExprModel::Mul(c, x) => match coeff_apply(c, t) {
            Err(x) => Err(x),
            Ok(nc) => match expr_apply(*x, t) {
                Err(x) => Err(x),
                Ok(nx) => Ok(ExprModel::Mul(nc, Box::new(nx))),
            },
        },
        ExprModel::Div(x, c) => match expr_apply(*x, t) {
            Err(x) => Err(x),
            Ok(nx) => match coeff_apply(c, t) {
                Err(x) => Err(x),
                Ok(nc) => Ok(ExprModel::Div(Box::new(nx), nc)),
            },
        },
        ExprModel::Mod(x, c) => match expr_apply(*x, t) {
            Err(x) => Err(x),
            Ok(nx) => match coeff_apply(c, t) {
                Err(x) => Err(x),
                Ok(nc) => Ok(ExprModel::Mod(Box::new(nx), nc)),
            },
        },
    }
}

/// The action of a transform on the indices of an access, in order: the
/// first failure is the result.
pub open spec fn exprs_apply(s: Seq<ExprModel>, t: TransformModel) -> Result<
    Seq<ExprModel>,
    TransformErrorModel,
>
    decreases s.len(),
{
    if s.len() == 0 {
        Ok(Seq::empty())
    } else {
        match exprs_apply(s.drop_last(), t) {
            Err(e) => Err(e),
            Ok(p) => match expr_apply(s.last(), t) {
                Err(e) => Err(e),
                Ok(x) => Ok(p.push(x)),
            },
        }
    }
}

/// The action of a transform on an access: on each of its indices.
pub open spec fn access_apply(a: DataAccessModel, t: TransformModel) -> Result<
    DataAccessModel,
    TransformErrorModel,
> {
    match exprs_apply(a.addr, t) {
        Err(e) => Err(e),
        Ok(addr) => Ok(
            DataAccessModel {
                array_name: a.array_name,
                addr: addr,
                reg: a.reg,
                cond_suffix: a.cond_suffix,
                cond: a.cond,
            },
        ),
    }
}

/// The action of a transform on an instruction. A computation stays as it is.
pub open spec fn inst_apply(i: InstructionModel, t: TransformModel) -> Result<
    InstructionModel,
    TransformErrorModel,
> {
    match i {
        InstructionModel::DataLoad(a) => match access_apply(a, t) {
            Err(e) => Err(e),
            Ok(b) => Ok(InstructionModel::DataLoad(b)),
        },
        InstructionModel::DataStore(a) => match access_apply(a, t) {
            Err(e) => Err(e),
            Ok(b) => Ok(InstructionModel::DataStore(b)),
        },
        InstructionModel::Compute(c) => Ok(i),
    }
}

/// The action of a transform on an iterator. A tiling divides the upper
/// bound of the iterator it names, which the factor must divide; the new
/// inner iterator is the nest's to add.
pub open spec fn iter_apply(it: LoopIterModel, t: TransformModel) -> Result<
    LoopIterModel,
    TransformErrorModel,
> {
    match t {
        TransformModel::Tiling(old, _, factor) => if it.iter_name == old {
            if factor <= 0 || trunc_rem(it.bounds.1 as int, factor as int) != 0 {
                Err(
                    TransformErrorModel::NonDivisibleTile {
                        iter: old,
                        bound: it.bounds.1,
                        factor: factor,
                    },
                )
            } else {
                Ok(
                    LoopIterModel {
                        iter_name: old,
                        bounds: (
                            it.bounds.0,
                            trunc_div(it.bounds.1 as int, factor as int) as i32,
                        ),
                        step: it.step,
                    },
                )
            }
        } else {
            Ok(it)
        },
        TransformModel::Renaming(old, new) => if it.iter_name == old {
            Ok(LoopIterModel { iter_name: new, bounds: it.bounds, step: it.step })
        } else {
            Ok(it)
        },
        _ => Ok(it),
    }
}

/// The action of a transform on the mapping of a nest: a mapping directive
/// binds its iterator, every other transform leaves the mapping as it is.
pub open spec fn mapping_apply(p: LoopPropertiesModel, t: TransformModel) -> LoopPropertiesModel {
    match t {
        TransformModel::MapSpatial(i) => LoopPropertiesModel {
            mapping: bind(p.mapping, i, MappingTypeModel::Spatial(i)),
        },
        TransformModel::MapTemporal(i) => LoopPropertiesModel {
            mapping: bind(p.mapping, i, MappingTypeModel::Temporal),
        },
        _ => p,
    }
}

/// The action of a transform on the optional properties of a nest. A mapping
/// directive on a nest without properties gives it properties.
pub open spec fn properties_apply(
    p: Option<LoopPropertiesModel>,
    t: TransformModel,
) -> Option<LoopPropertiesModel> {
    match t {
        TransformModel::MapSpatial(_) | TransformModel::MapTemporal(_) => match p {
            Some(q) => Some(mapping_apply(q, t)),
            None => Some(mapping_apply(LoopPropertiesModel { mapping: Seq::empty() }, t)),
        },
        _ => p,
    }
}

/// The action of a transform on the iterators of a nest, each by itself.
pub open spec fn iters_apply(s: Seq<LoopIterModel>, t: TransformModel) -> Result<
    Seq<LoopIterModel>,
    TransformErrorModel,
>
    decreases s.len(),
{
    if s.len() == 0 {
        Ok(Seq::empty())
    } else {
        match iters_apply(s.drop_last(), t) {
            Err(e) => Err(e),
            Ok(p) => match iter_apply(s.last(), t) {
                Err(e) => Err(e),
                Ok(x) => Ok(p.push(x)),
            },
        }
    }
}

/// The action of a transform on the instructions of a body, each by itself.
pub open spec fn body_apply(s: Seq<InstructionModel>, t: TransformModel) -> Result<
    Seq<InstructionModel>,
    TransformErrorModel,
>
    decreases s.len(),
{
    if s.len() == 0 {
        Ok(Seq::empty())
    } else {
        match body_apply(s.drop_last(), t) {
            Err(e) => Err(e),
            Ok(p) => match inst_apply(s.last(), t) {
                Err(e) => Err(e),
                Ok(x) => Ok(p.push(x)),
            },
        }
    }
}

/// The position of the first iterator of that name, or the length where
/// there is none.
pub open spec fn first_named(s: Seq<LoopIterModel>, name: Seq<char>) -> int
    decreases s.len(),
{
    if s.len() == 0 {
        0
    } else if s[0].iter_name == name {
        0
    } else {
        1 + first_named(s.drop_first(), name)
    }
}

/// The action of a transform on a nest. The iterators and the instructions
/// are transformed one by one, then the nest itself: a tiling adds the new
/// iterator right after the tiled one, a reordering swaps two iterators, a
/// mapping directive binds its iterator. A tiling, a renaming and a
/// reordering fail where the nest has no iterator of a name they refer to.
pub open spec fn nest_apply(n: LoopNestModel, t: TransformModel) -> Result<
    LoopNestModel,
    TransformErrorModel,
> {
    match iters_apply(n.iters, t) {
        Err(e) => Err(e),
        Ok(iters) => match body_apply(n.body, t) {
            Err(e) => Err(e),
            Ok(body) => {
                let properties = properties_apply(n.properties, t);
                match t {
                    TransformModel::Tiling(old, new, factor) => {
                        let at = first_named(n.iters, old);
                        if at >= n.iters.len() {
                            Err(TransformErrorModel::IterNotFound(old))
                        } else {
                            Ok(
                                LoopNestModel {
                                    iters: iters.insert(
                                        at + 1,
                                        LoopIterModel {
                                            iter_name: new,
                                            bounds: (0, factor),
                                            step: n.iters[at].step,
                                        },
                                    ),
                                    body: body,
                                    properties: properties,
                                },
                            )
                        }
                    },
                    TransformModel::Reorder(a, b) => {
                        let i = first_named(n.iters, a);
                        let j = first_named(n.iters, b);
                        if i >= n.iters.len() {
                            Err(TransformErrorModel::IterNotFound(a))
                        } else if j >= n.iters.len() {
                            Err(TransformErrorModel::IterNotFound(b))
                        } else {
                            Ok(
                                LoopNestModel {
                                    iters: iters.update(i, iters[j]).update(j, iters[i]),
                                    body: body,
                                    properties: properties,
                                },
                            )
                        }
                    },
                    TransformModel::Renaming(old, _) => {
                        if first_named(n.iters, old) >= n.iters.len() {
                            Err(TransformErrorModel::IterNotFound(old))
                        } else {
                            Ok(LoopNestModel { iters: iters, body: body, properties: properties })
                        }
                    },
                    _ => Ok(LoopNestModel { iters: iters, body: body, properties: properties }),
                }
            },
        },
    }
}

impl TransformAction for Coeff {
    open spec fn apply_spec(v: CoeffModel, t: TransformModel) -> Result<
        CoeffModel,
        TransformErrorModel,
    > {
        coeff_apply(v, t)
    }
}

impl Transforming for Coeff {
    fn apply(&self, transform: &Transform) -> (r: Result<Self, TransformError>)
        decreases self,
    {
        match self {
            Coeff::Const(c) => Ok(Coeff::Const(*c)),
            Coeff::ConstVar(v) => match transform {
                Transform::Tiling(t) => {
                    if *v == t.0 {
                        Err(TransformError::TileOverCoeffVar(v.clone()))
                    } else {
                        Ok(Coeff::ConstVar(v.clone()))
                    }
                },
                Transform::Renaming(t) => {
                    if *v == t.0 {
                        Ok(Coeff::ConstVar(t.1.clone()))
                    } else {
                        Ok(Coeff::ConstVar(v.clone()))
                    }
                },
                _ => Ok(Coeff::ConstVar(v.clone())),
            },
            Coeff::Mul(lhs, rhs) => {
                let new_lhs = match lhs.apply(transform) {
                    Ok(x) => x,
                    Err(e) => {
                        return Err(e);
                    },
                };
                let new_rhs = match rhs.apply(transform) {
                    Ok(x) => x,
                    Err(e) => {
                        return Err(e);
                    },
                };
                Ok(Coeff::Mul(Box::new(new_lhs), Box::new(new_rhs)))
            },
        }
    }

    fn duplicate(&self) -> (r: Self) {
        self.clone()
    }
}

impl TransformAction for AffineExpr {
    open spec fn apply_spec(v: ExprModel, t: TransformModel) -> Result<
        ExprModel,
        TransformErrorModel,
    > {
        expr_apply(v, t)
    }
}

impl Transforming for AffineExpr {
    fn apply(&self, transform: &Transform) -> (r: Result<Self, TransformError>)
        decreases self,
    {
        match self {
            AffineExpr::Var(var) => match transform {
                Transform::Tiling(t) => {
                    if *var == t.0 {
                        let inner = AffineExpr::Mul(
                            Coeff::Const(t.2),
                            Box::new(AffineExpr::Var(t.1.clone())),
                        );
                        let outer = AffineExpr::Var(var.clone());
                        let sum = AffineExpr::Add(Box::new(inner), Box::new(outer));
                        proof {
                            reveal_with_fuel(expr_model, 3);
                            assert(sum@ == tiled_var(t.0@, t.1@, t.2));
                        }
                        Ok(sum)
                    } else {
                        Ok(AffineExpr::Var(var.clone()))
                    }
                },
                Transform::Renaming(t) => {
                    if *var == t.0 {
                        Ok(AffineExpr::Var(t.1.clone()))
                    } else {
                        Ok(AffineExpr::Var(var.clone()))
                    }
                },
                _ => Ok(AffineExpr::Var(var.clone())),
            },
            AffineExpr::Const(c) => Ok(AffineExpr::Const(*c)),
            AffineExpr::Add(lhs, rhs) => {
                let new_lhs = match lhs.apply(transform) {
                    Ok(x) => x,
                    Err(e) => {
                        return Err(e);
                    },
                };
                let new_rhs = match rhs.apply(transform) {
                    Ok(x) => x,
                    Err(e) => {
                        return Err(e);
                    },
                };
                Ok(AffineExpr::Add(Box::new(new_lhs), Box::new(new_rhs)))
            },
            AffineExpr::Sub(lhs, rhs) => {
                let new_lhs = match lhs.apply(transform) {
                    Ok(x) => x,
                    Err(e) => {
                        return Err(e);
                    },
                };
                let new_rhs = match rhs.apply(transform) {
                    Ok(x) => x,
                    Err(e) => {
                        return Err(e);
                    },
                };
                Ok(AffineExpr::Sub(Box::new(new_lhs), Box::new(new_rhs)))
            },
            AffineExpr::Mul(coeff, expr) => {
                let new_coeff = match coeff.apply(transform) {
                    Ok(x) => x,
                    Err(e) => {
                        return Err(e);
                    },
                };
                let new_expr = match expr.apply(transform) {
                    Ok(x) => x,
                    Err(e) => {
                        return Err(e);
                    },
                };
                Ok(AffineExpr::Mul(new_coeff, Box::new(new_expr)))
            },
            AffineExpr::Div(expr, divisor) => {
                let new_expr = match expr.apply(transform) {
                    Ok(x) => x,
                    Err(e) => {
                        return Err(e);
                    },
                };
                let new_divisor = match divisor.apply(transform) {
                    Ok(x) => x,
                    Err(e) => {
                        return Err(e);
                    },
                };
                Ok(AffineExpr::Div(Box::new(new_expr), new_divisor))
            },
            AffineExpr::Mod(expr, modulus) => {
                let new_expr = match expr.apply(transform) {
                    Ok(x) => x,
                    Err(e) => {
                        return Err(e);
                    },
                };
                let new_modulus = match modulus.apply(transform) {
                    Ok(x) => x,
                    Err(e) => {
                        return Err(e);
                    },
                };
                Ok(AffineExpr::Mod(Box::new(new_expr), new_modulus))
            },
        }
    }

    fn duplicate(&self) -> (r: Self) {
        self.clone()
    }
}

impl TransformAction for Compute {
    open spec fn apply_spec(v: ComputeModel, t: TransformModel) -> Result<
        ComputeModel,
        TransformErrorModel,
    > {
        Ok(v)
    }
}

impl Transforming for Compute {
    /// No transform has an effect on a computation.
    fn apply(&self, _transform: &Transform) -> (r: Result<Self, TransformError>) {
        Ok(self.clone())
    }

    fn duplicate(&self) -> (r: Self) {
        self.clone()
    }
}

impl TransformAction for DataAccess {
    open spec fn apply_spec(v: DataAccessModel, t: TransformModel) -> Result<
        DataAccessModel,
        TransformErrorModel,
    > {
        access_apply(v, t)
    }
}

impl Transforming for DataAccess {
    fn apply(&self, transform: &Transform) -> (r: Result<Self, TransformError>) {
        let mut new_addr: Vec<AffineExpr> = Vec::new();
        let mut i: usize = 0;
        assert(exprs_model(new_addr@) =~= Seq::<ExprModel>::empty());
        assert(exprs_model(self.addr@).take(0) =~= Seq::<ExprModel>::empty());
        while i < self.addr.len()
            invariant
                i <= self.addr.len(),
                new_addr@.len() == i,
                Ok::<Seq<ExprModel>, TransformErrorModel>(exprs_model(new_addr@)) == exprs_apply(
                    exprs_model(self.addr@).take(i as int),
                    transform@,
                ),
            decreases self.addr.len() - i,
        {
            proof {
                let next = exprs_model(self.addr@).take(i + 1);
                assert(next.drop_last() =~= exprs_model(self.addr@).take(i as int));
                assert(next.last() == self.addr@[i as int]@);
            }
            let ghost before = new_addr@;
            match self.addr[i].apply(transform) {
                Ok(idx) => {
                    new_addr.push(idx);
                    assert(exprs_model(new_addr@) =~= exprs_model(before).push(idx@));
                },
                Err(e) => {
                    proof {
                        lemma_exprs_failure_stays(exprs_model(self.addr@), transform@, i + 1);
                    }
                    return Err(e);
                },
            }
            i = i + 1;
        }
        assert(exprs_model(self.addr@).take(self.addr.len() as int) =~= exprs_model(self.addr@));
        Ok(
            DataAccess {
                array_name: self.array_name.clone(),
                addr: new_addr,
                reg: self.reg.clone(),
                cond_suffix: self.cond_suffix,
                cond: clone_name(&self.cond),
            },
        )
    }

    fn duplicate(&self) -> (r: Self) {
        self.clone()
    }
}

/// Indices of which a first part fails fail as a whole, with the same error.
pub proof fn lemma_exprs_failure_stays(s: Seq<ExprModel>, t: TransformModel, k: int)
    requires
        0 <= k <= s.len(),
        exprs_apply(s.take(k), t) is Err,
    ensures
        exprs_apply(s, t) == exprs_apply(s.take(k), t),
    decreases s.len() - k,
{
    if k < s.len() {
        assert(s.take(k + 1).drop_last() =~= s.take(k));
        lemma_exprs_failure_stays(s, t, k + 1);
    } else {
        assert(s.take(k) =~= s);
    }
}

/// Iterators of which a first part fails fail as a whole, with the same error.
pub proof fn lemma_iters_failure_stays(s: Seq<LoopIterModel>, t: TransformModel, k: int)
    requires
        0 <= k <= s.len(),
        iters_apply(s.take(k), t) is Err,
    ensures
        iters_apply(s, t) == iters_apply(s.take(k), t),
    decreases s.len() - k,
{
    if k < s.len() {
        assert(s.take(k + 1).drop_last() =~= s.take(k));
        lemma_iters_failure_stays(s, t, k + 1);
    } else {
        assert(s.take(k) =~= s);
    }
}

/// A body of which a first part fails fails as a whole, with the same error.
pub proof fn lemma_body_failure_stays(s: Seq<InstructionModel>, t: TransformModel, k: int)
    requires
        0 <= k <= s.len(),
        body_apply(s.take(k), t) is Err,
    ensures
        body_apply(s, t) == body_apply(s.take(k), t),
    decreases s.len() - k,
{
    if k < s.len() {
        assert(s.take(k + 1).drop_last() =~= s.take(k));
        lemma_body_failure_stays(s, t, k + 1);
    } else {
        assert(s.take(k) =~= s);
    }
}

impl TransformAction for Instruction {
    open spec fn apply_spec(v: InstructionModel, t: TransformModel) -> Result<
        InstructionModel,
        TransformErrorModel,
    > {
        inst_apply(v, t)
    }
}

impl Transforming for Instruction {
    fn apply(&self, transform: &Transform) -> (r: Result<Self, TransformError>) {
        match self {
            Instruction::DataLoad(data_access) => {
                match data_access.apply(transform) {
                    Ok(new_data_access) => Ok(Instruction::DataLoad(new_data_access)),
                    Err(e) => Err(e),
                }
            },
            Instruction::DataStore(data_access) => {
                match data_access.apply(transform) {
                    Ok(new_data_access) => Ok(Instruction::DataStore(new_data_access)),
                    Err(e) => Err(e),
                }
            },
            Instruction::Compute(compute) => {
                match compute.apply(transform) {
                    Ok(new_compute) => Ok(Instruction::Compute(new_compute)),
                    Err(e) => Err(e),
                }
            },
        }
    }

    fn duplicate(&self) -> (r: Self) {
        self.clone()
    }
}

impl TransformAction for LoopIter {
    open spec fn apply_spec(v: LoopIterModel, t: TransformModel) -> Result<
        LoopIterModel,
        TransformErrorModel,
    > {
        iter_apply(v, t)
    }
}

impl Transforming for LoopIter {
    /// A tiling changes the bound of the iterator that it names; the nest
    /// adds the new iterator.
    fn apply(&self, transform: &Transform) -> (r: Result<Self, TransformError>) {
        match transform {
            Transform::Tiling(t) => {
                if self.iter_name == t.0 {
                    let factor: i32 = t.2;
                    if factor <= 0 {
                        return Err(
                            TransformError::NonDivisibleTile {
                                iter: t.0.clone(),
                                bound: self.bounds.1,
                                factor: factor,
                            },
                        );
                    }
                    let (quotient, rest) = div_rem(self.bounds.1, factor);
                    if rest != 0 {
                        return Err(
                            TransformError::NonDivisibleTile {
                                iter: t.0.clone(),
                                bound: self.bounds.1,
                                factor: factor,
                            },
                        );
                    }
                    Ok(
                        LoopIter {
                            iter_name: t.0.clone(),
                            bounds: (self.bounds.0, quotient),
                            step: self.step,
                        },
                    )
                } else {
                    Ok(self.clone())
                }
            },
            Transform::Renaming(t) => {
                if self.iter_name == t.0 {
                    Ok(LoopIter { iter_name: t.1.clone(), bounds: self.bounds, step: self.step })
                } else {
                    Ok(self.clone())
                }
            },
            _ => Ok(self.clone()),
        }
    }

    fn duplicate(&self) -> (r: Self) {
        self.clone()
    }
}

impl TransformAction for LoopProperties {
    open spec fn apply_spec(v: LoopPropertiesModel, t: TransformModel) -> Result<
        LoopPropertiesModel,
        TransformErrorModel,
    > {
        Ok(mapping_apply(v, t))
    }
}

impl Transforming for LoopProperties {
    fn apply(&self, transform: &Transform) -> (r: Result<Self, TransformError>) {
        match transform {
            Transform::MapSpatial(i) => Ok(
                LoopProperties {
                    mapping: with_entry(&self.mapping, i, MappingType::Spatial(i.clone())),
                },
            ),
            Transform::MapTemporal(i) => Ok(
                LoopProperties { mapping: with_entry(&self.mapping, i, MappingType::Temporal) },
            ),
            _ => Ok(self.clone()),
        }
    }

    fn duplicate(&self) -> (r: Self) {
        self.clone()
    }
}

/// Applies a transform to optional properties.
pub fn apply_properties(p: &Option<LoopProperties>, transform: &Transform) -> (r: Option<
    LoopProperties,
>)
    ensures
        properties_model(r) == properties_apply(properties_model(*p), transform@),
{
    match transform {
        Transform::MapSpatial(_) | Transform::MapTemporal(_) => {
            let start = match p {
                Some(q) => q.clone(),
                None => LoopProperties { mapping: Vec::new() },
            };
            assert(start@.mapping =~= match properties_model(*p) {
                Some(q) => q.mapping,
                None => Seq::empty(),
            });
            match start.apply(transform) {
                Ok(q) => Some(q),
                Err(_) => None,
            }
        },
        _ => clone_properties(p),
    }
}

/// The position of the first iterator of that name.
pub fn find_iter(iters: &Vec<LoopIter>, name: &String) -> (r: Option<usize>)
    ensures
        match r {
            Some(i) => i < iters.len() && i == first_named(iters_model(iters@), name@),
            None => first_named(iters_model(iters@), name@) >= iters.len(),
        },
{
    let mut i: usize = 0;
    while i < iters.len()
        invariant
            i <= iters.len(),
            forall|j: int| 0 <= j < i ==> (#[trigger] iters_model(iters@)[j]).iter_name != name@,
        decreases iters.len() - i,
    {
        if iters[i].iter_name == *name {
            proof {
                lemma_first_named_is(iters_model(iters@), name@, i as int);
            }
            return Some(i);
        }
        i = i + 1;
    }
    proof {
        lemma_first_named_is(iters_model(iters@), name@, iters.len() as int);
    }
    None
}

/// The first iterator of a name is the one before which no iterator has
/// the name.
pub proof fn lemma_first_named_is(s: Seq<LoopIterModel>, name: Seq<char>, i: int)
    requires
        0 <= i <= s.len(),
        forall|j: int| 0 <= j < i ==> (#[trigger] s[j]).iter_name != name,
        i < s.len() ==> s[i].iter_name == name,
    ensures
        first_named(s, name) == i,
    decreases s.len(),
{
    if s.len() > 0 && i > 0 {
        assert(s[0].iter_name != name);
        let t = s.drop_first();
        assert forall|j: int| 0 <= j < i - 1 implies (#[trigger] t[j]).iter_name != name by {
            assert(t[j] == s[j + 1]);
        }
        lemma_first_named_is(t, name, i - 1);
    }
}

/// Applies a transform to each iterator.
pub fn apply_iters(iters: &Vec<LoopIter>, transform: &Transform) -> (r: Result<
    Vec<LoopIter>,
    TransformError,
>)
    ensures
        match r {
            Ok(v) => iters_apply(iters_model(iters@), transform@) == Ok::<
                Seq<LoopIterModel>,
                TransformErrorModel,
            >(iters_model(v@)) && v@.len() == iters@.len(),
            Err(e) => iters_apply(iters_model(iters@), transform@) == Err::<
                Seq<LoopIterModel>,
                TransformErrorModel,
            >(e@),
        },
{
    let mut out: Vec<LoopIter> = Vec::new();
    let mut i: usize = 0;
    assert(iters_model(out@) =~= Seq::<LoopIterModel>::empty());
    assert(iters_model(iters@).take(0) =~= Seq::<LoopIterModel>::empty());
    while i < iters.len()
        invariant
            i <= iters.len(),
            out@.len() == i,
            Ok::<Seq<LoopIterModel>, TransformErrorModel>(iters_model(out@)) == iters_apply(
                iters_model(iters@).take(i as int),
                transform@,
            ),
        decreases iters.len() - i,
    {
        proof {
            let next = iters_model(iters@).take(i + 1);
            assert(next.drop_last() =~= iters_model(iters@).take(i as int));
            assert(next.last() == iters@[i as int]@);
        }
        let ghost before = out@;
        match iters[i].apply(transform) {
            Ok(it) => {
                out.push(it);
                assert(iters_model(out@) =~= iters_model(before).push(it@));
            },
            Err(e) => {
                proof {
                    lemma_iters_failure_stays(iters_model(iters@), transform@, i + 1);
                }
                return Err(e);
            },
        }
        i = i + 1;
    }
    assert(iters_model(iters@).take(iters.len() as int) =~= iters_model(iters@));
    Ok(out)
}

/// Applies a transform to each instruction.
pub fn apply_body(body: &Vec<Instruction>, transform: &Transform) -> (r: Result<
    Vec<Instruction>,
    TransformError,
>)
    ensures
        match r {
            Ok(v) => body_apply(body_model(body@), transform@) == Ok::<
                Seq<InstructionModel>,
                TransformErrorModel,
            >(body_model(v@)) && v@.len() == body@.len(),
            Err(e) => body_apply(body_model(body@), transform@) == Err::<
                Seq<InstructionModel>,
                TransformErrorModel,
            >(e@),
        },
{
    let mut out: Vec<Instruction> = Vec::new();
    let mut i: usize = 0;
    assert(body_model(out@) =~= Seq::<InstructionModel>::empty());
    assert(body_model(body@).take(0) =~= Seq::<InstructionModel>::empty());
    while i < body.len()
        invariant
            i <= body.len(),
            out@.len() == i,
            Ok::<Seq<InstructionModel>, TransformErrorModel>(body_model(out@)) == body_apply(
                body_model(body@).take(i as int),
                transform@,
            ),
        decreases body.len() - i,
    {
        proof {
            let next = body_model(body@).take(i + 1);
            assert(next.drop_last() =~= body_model(body@).take(i as int));
            assert(next.last() == body@[i as int]@);
        }
        let ghost before = out@;
        match body[i].apply(transform) {
            Ok(inst) => {
                out.push(inst);
                assert(body_model(out@) =~= body_model(before).push(inst@));
            },
            Err(e) => {
                proof {
                    lemma_body_failure_stays(body_model(body@), transform@, i + 1);
                }
                return Err(e);
            },
        }
        i = i + 1;
    }
    assert(body_model(body@).take(body.len() as int) =~= body_model(body@));
    Ok(out)
}

impl TransformAction for LoopNest {
    open spec fn apply_spec(v: LoopNestModel, t: TransformModel) -> Result<
        LoopNestModel,
        TransformErrorModel,
    > {
        nest_apply(v, t)
    }
}

impl Transforming for LoopNest {
    fn apply(&self, transform: &Transform) -> (r: Result<Self, TransformError>) {
        let mut new_iters = match apply_iters(&self.iters, transform) {
            Ok(v) => v,
            Err(e) => {
                return Err(e);
            },
        };
        let new_body = match apply_body(&self.body, transform) {
            Ok(v) => v,
            Err(e) => {
                return Err(e);
            },
        };
        let new_properties = apply_properties(&self.properties, transform);
        let ghost mapped = iters_model(new_iters@);
        match transform {
            Transform::Tiling(t) => {
                // The new loop has the step of the tiled one and the factor
                // as its upper bound, and stands right after the tiled one.
                let at = match find_iter(&self.iters, &t.0) {
                    Some(i) => i,
                    None => {
                        return Err(TransformError::IterNotFound(t.0.clone()));
                    },
                };
                let new_iter = LoopIter {
                    iter_name: t.1.clone(),
                    bounds: (0, t.2),
                    step: self.iters[at].step,
                };
                new_iters.insert(at + 1, new_iter);
                assert(iters_model(new_iters@) =~= mapped.insert(at + 1, new_iter@));
                Ok(LoopNest { iters: new_iters, body: new_body, properties: new_properties })
            },
            Transform::Reorder(t) => {
                let first = match find_iter(&self.iters, &t.0) {
                    Some(i) => i,
                    None => {
                        return Err(TransformError::IterNotFound(t.0.clone()));
                    },
                };
                let second = match find_iter(&self.iters, &t.1) {
                    Some(i) => i,
                    None => {
                        return Err(TransformError::IterNotFound(t.1.clone()));
                    },
                };
                let a = new_iters[first].clone();
                let b = new_iters[second].clone();
                new_iters.set(first, b);
                new_iters.set(second, a);
                assert(iters_model(new_iters@) =~= mapped.update(
                    first as int,
                    mapped[second as int],
                ).update(second as int, mapped[first as int]));
                Ok(LoopNest { iters: new_iters, body: new_body, properties: new_properties })
            },
            Transform::Renaming(t) => {
                match find_iter(&self.iters, &t.0) {
                    Some(_) => Ok(
                        LoopNest { iters: new_iters, body: new_body, properties: new_properties },
                    ),
                    None => Err(TransformError::IterNotFound(t.0.clone())),
                }
            },
            _ => Ok(LoopNest { iters: new_iters, body: new_body, properties: new_properties }),
        }
    }

    fn duplicate(&self) -> (r: Self) {
        self.clone()
    }
}

} // verus!
