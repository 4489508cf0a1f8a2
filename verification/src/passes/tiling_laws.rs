//! Tiling and text: what a tiling gives can be written and read back.
//!
//! A tiling puts the sum `factor * new + old` in the place of the variable
//! that it tiles. The text of the result determines the result where every
//! such place is one in which a sum may stand without parentheses or gets
//! them: the whole of an index, the left end of a sum or difference, or the
//! operand of a product.

use crate::arith::trunc_rem;
use crate::passes::transform_pass::{
    access_apply,
    coeff_apply,
    expr_apply,
    exprs_apply,
    inst_apply,
    iter_apply,
    tiled_var,
};
use crate::representations::affine_expr::{CoeffModel, ExprModel};
use crate::representations::affine_roundtrip::{
    canon_expr,
    canon_factor,
    canon_term,
    name_ok,
};
use crate::representations::instruction::{instruction_text, DataAccessModel, InstructionModel};
use crate::representations::instruction_parse::p_instruction;
use crate::representations::instruction_roundtrip::{
    canon_access,
    canon_inst,
    lemma_instruction_roundtrip,
};
use crate::representations::loops::{iter_text, p_loop_iter, LoopIterModel};
use crate::representations::loops_roundtrip::{lemma_iter_roundtrip, letters_ok};
use crate::representations::transforms::{TransformErrorModel, TransformModel};
use vstd::prelude::*;

verus! {

/// Whether a factor has the variable `old` only where a sum may stand.
pub open spec fn open_factor(e: ExprModel, old: Seq<char>) -> bool
    decreases e, 0int,
{
    match e {
        ExprModel::Var(n) => n != old,
        ExprModel::Mul(_, x) => match *x {
            ExprModel::Var(_) => true,
            _ => open_expr(*x, old),
        },
        _ => true,
    }
}

/// Whether a term has the variable `old` only where a sum may stand.
pub open spec fn open_term(e: ExprModel, old: Seq<char>) -> bool
    decreases e, 1int,
{
    match e {
        ExprModel::Div(x, _) => open_factor(*x, old),
        ExprModel::Mod(x, _) => open_factor(*x, old),
        _ => open_factor(e, old),
    }
}

/// Whether an expression has the variable `old` only where a sum may
/// stand: as the whole expression, at the left end of a sum or difference,
/// or as the operand of a product.
pub open spec fn open_expr(e: ExprModel, old: Seq<char>) -> bool
    decreases e, 2int,
{
    match e {
        ExprModel::Add(a, b) => open_expr(*a, old) && open_term(*b, old),
        ExprModel::Sub(a, b) => open_expr(*a, old) && open_term(*b, old),
        ExprModel::Var(_) => true,
        _ => open_term(e, old),
    }
}

/// A tiling that succeeds on a coefficient leaves it as it is.
pub proof fn lemma_tiled_coeff(c: CoeffModel, old: Seq<char>, new: Seq<char>, factor: i32)
    requires
        coeff_apply(c, TransformModel::Tiling(old, new, factor)) is Ok,
    ensures
        coeff_apply(c, TransformModel::Tiling(old, new, factor)) == Ok::<
            CoeffModel,
            TransformErrorModel,
        >(c),
    decreases c,
{
    match c {
        CoeffModel::Mul(a, b) => {
            lemma_tiled_coeff(*a, old, new, factor);
            lemma_tiled_coeff(*b, old, new, factor);
        },
        _ => {},
    }
}

/// The sum that a tiling puts in the place of a variable has the shape that
/// reading gives.
pub proof fn lemma_tiled_var_canon(old: Seq<char>, new: Seq<char>, factor: i32)
    requires
        name_ok(old),
        name_ok(new),
        factor != 1,
    ensures
        canon_expr(tiled_var(old, new, factor)),
{
    let product = ExprModel::Mul(CoeffModel::Const(factor), Box::new(ExprModel::Var(new)));
    assert(canon_factor(product));
    assert(canon_term(product));
    assert(canon_expr(product));
    assert(canon_factor(ExprModel::Var(old)));
    assert(canon_term(ExprModel::Var(old)));
}

/// A tiling keeps the shape of a factor.
pub proof fn lemma_tiled_factor(
    e: ExprModel,
    old: Seq<char>,
    new: Seq<char>,
    factor: i32,
    r: ExprModel,
)
    requires
        canon_factor(e),
        open_factor(e, old),
        name_ok(new),
        factor != 1,
        expr_apply(e, TransformModel::Tiling(old, new, factor)) == Ok::<
            ExprModel,
            TransformErrorModel,
        >(r),
    ensures
        canon_factor(r),
        e is Var == r is Var,
        e is Const == r is Const,
    decreases e, 0int,
{
    let t = TransformModel::Tiling(old, new, factor);
    match e {
        ExprModel::Mul(c, x) => {
            lemma_tiled_coeff(c, old, new, factor);
            let rx = expr_apply(*x, t)->Ok_0;
            match *x {
                ExprModel::Var(n) => {
                    if n == old {
                        lemma_tiled_var_canon(old, new, factor);
                    }
                },
                ExprModel::Const(_) => {},
                _ => {
                    lemma_tiled_expr(*x, old, new, factor, rx);
                },
            }
        },
        _ => {},
    }
}

/// A tiling keeps the shape of a term.
pub proof fn lemma_tiled_term(
    e: ExprModel,
    old: Seq<char>,
    new: Seq<char>,
    factor: i32,
    r: ExprModel,
)
    requires
        canon_term(e),
        open_term(e, old),
        name_ok(new),
        factor != 1,
        expr_apply(e, TransformModel::Tiling(old, new, factor)) == Ok::<
            ExprModel,
            TransformErrorModel,
        >(r),
    ensures
        canon_term(r),
        e is Var == r is Var,
        e is Const == r is Const,
    decreases e, 1int,
{
    let t = TransformModel::Tiling(old, new, factor);
    match e {
        ExprModel::Div(x, c) => {
            lemma_tiled_coeff(c, old, new, factor);
            lemma_tiled_factor(*x, old, new, factor, expr_apply(*x, t)->Ok_0);
        },
        ExprModel::Mod(x, c) => {
            lemma_tiled_coeff(c, old, new, factor);
            lemma_tiled_factor(*x, old, new, factor, expr_apply(*x, t)->Ok_0);
        },
        _ => {
            lemma_tiled_factor(e, old, new, factor, r);
        },
    }
}

/// A tiling keeps the shape that reading gives, where the tiled variable
/// stands only where a sum may stand.
pub proof fn lemma_tiled_expr(
    e: ExprModel,
    old: Seq<char>,
    new: Seq<char>,
    factor: i32,
    r: ExprModel,
)
    requires
        canon_expr(e),
        open_expr(e, old),
        name_ok(new),
        factor != 1,
        expr_apply(e, TransformModel::Tiling(old, new, factor)) == Ok::<
            ExprModel,
            TransformErrorModel,
        >(r),
    ensures
        canon_expr(r),
        !(e is Var) ==> !(r is Var),
        e is Const == r is Const,
    decreases e, 2int,
{
    let t = TransformModel::Tiling(old, new, factor);
    match e {
        ExprModel::Add(a, b) => {
            lemma_tiled_expr(*a, old, new, factor, expr_apply(*a, t)->Ok_0);
            lemma_tiled_term(*b, old, new, factor, expr_apply(*b, t)->Ok_0);
        },
        ExprModel::Sub(a, b) => {
            lemma_tiled_expr(*a, old, new, factor, expr_apply(*a, t)->Ok_0);
            lemma_tiled_term(*b, old, new, factor, expr_apply(*b, t)->Ok_0);
        },
        ExprModel::Var(n) => {
            assert(canon_term(e));
            assert(canon_factor(e));
            if n == old {
                lemma_tiled_var_canon(old, new, factor);
            }
        },
        _ => {
            lemma_tiled_term(e, old, new, factor, r);
        },
    }
}

/// A tiling keeps the shape of each index.
pub proof fn lemma_tiled_exprs(
    s: Seq<ExprModel>,
    old: Seq<char>,
    new: Seq<char>,
    factor: i32,
    r: Seq<ExprModel>,
)
    requires
        forall|i: int| 0 <= i < s.len() ==> canon_expr(#[trigger] s[i]),
        forall|i: int| 0 <= i < s.len() ==> open_expr(#[trigger] s[i], old),
        name_ok(new),
        factor != 1,
        exprs_apply(s, TransformModel::Tiling(old, new, factor)) == Ok::<
            Seq<ExprModel>,
            TransformErrorModel,
        >(r),
    ensures
        r.len() == s.len(),
        forall|i: int| 0 <= i < r.len() ==> canon_expr(#[trigger] r[i]),
    decreases s.len(),
{
    let t = TransformModel::Tiling(old, new, factor);
    if s.len() > 0 {
        let p = exprs_apply(s.drop_last(), t)->Ok_0;
        let x = expr_apply(s.last(), t)->Ok_0;
        assert forall|i: int| 0 <= i < s.drop_last().len() implies canon_expr(
            #[trigger] s.drop_last()[i],
        ) && open_expr(s.drop_last()[i], old) by {
            assert(s.drop_last()[i] == s[i]);
        }
        lemma_tiled_exprs(s.drop_last(), old, new, factor, p);
        assert(s.last() == s[s.len() - 1]);
        lemma_tiled_expr(s.last(), old, new, factor, x);
        assert(r == p.push(x));
        assert forall|i: int| 0 <= i < r.len() implies canon_expr(#[trigger] r[i]) by {
            if i < p.len() {
                assert(r[i] == p[i]);
            }
        }
    }
}

/// Whether each index of an access has the variable `old` only where a sum
/// may stand.
pub open spec fn open_access(a: DataAccessModel, old: Seq<char>) -> bool {
    forall|i: int| 0 <= i < a.addr.len() ==> open_expr(#[trigger] a.addr[i], old)
}

/// Whether each address of an instruction has the variable `old` only where
/// a sum may stand.
pub open spec fn open_inst(i: InstructionModel, old: Seq<char>) -> bool {
    match i {
        InstructionModel::DataLoad(a) => open_access(a, old),
        InstructionModel::DataStore(a) => open_access(a, old),
        InstructionModel::Compute(_) => true,
    }
}

/// A tiling keeps an access one that reads as what it is.
pub proof fn lemma_tiled_access(
    a: DataAccessModel,
    old: Seq<char>,
    new: Seq<char>,
    factor: i32,
    r: DataAccessModel,
)
    requires
        canon_access(a),
        open_access(a, old),
        name_ok(new),
        factor != 1,
        access_apply(a, TransformModel::Tiling(old, new, factor)) == Ok::<
            DataAccessModel,
            TransformErrorModel,
        >(r),
    ensures
        canon_access(r),
{
    let t = TransformModel::Tiling(old, new, factor);
    lemma_tiled_exprs(a.addr, old, new, factor, exprs_apply(a.addr, t)->Ok_0);
}

/// Tiling commutes with writing and reading an instruction: what a tiling
/// gives for an instruction is read back from its text, where the
/// instruction reads as what it is, the tiled variable stands only where a
/// sum may stand, the new name is a name and the factor is not 1.
pub proof fn lemma_tiling_instruction_text(
    i: InstructionModel,
    old: Seq<char>,
    new: Seq<char>,
    factor: i32,
    r: InstructionModel,
)
    requires
        canon_inst(i),
        open_inst(i, old),
        name_ok(new),
        factor != 1,
        inst_apply(i, TransformModel::Tiling(old, new, factor)) == Ok::<
            InstructionModel,
            TransformErrorModel,
        >(r),
    ensures
        p_instruction(instruction_text(r), 0) == Some((r, instruction_text(r).len() as int)),
{
    let t = TransformModel::Tiling(old, new, factor);
    match i {
        InstructionModel::DataLoad(a) => {
            lemma_tiled_access(a, old, new, factor, access_apply(a, t)->Ok_0);
        },
        InstructionModel::DataStore(a) => {
            lemma_tiled_access(a, old, new, factor, access_apply(a, t)->Ok_0);
        },
        InstructionModel::Compute(_) => {},
    }
    lemma_instruction_roundtrip(r);
}

/// Tiling an iterator succeeds if and only if the tiling names another
/// iterator or its factor is positive and divides the upper bound; it fails
/// with the name, the bound and the factor otherwise. What it gives is read
/// back from its text.
pub proof fn lemma_tiling_iterator_text(
    it: LoopIterModel,
    old: Seq<char>,
    new: Seq<char>,
    factor: i32,
)
    requires
        letters_ok(it.iter_name),
    ensures
        iter_apply(it, TransformModel::Tiling(old, new, factor)) is Ok <==> (it.iter_name != old
            || (factor > 0 && trunc_rem(it.bounds.1 as int, factor as int) == 0)),
        iter_apply(it, TransformModel::Tiling(old, new, factor)) matches Err(e) ==> e == (
        TransformErrorModel::NonDivisibleTile { iter: old, bound: it.bounds.1, factor: factor }),
        iter_apply(it, TransformModel::Tiling(old, new, factor)) matches Ok(r) ==> p_loop_iter(
            iter_text(r),
            0,
        ) == Some((r, iter_text(r).len() as int)),
{
    match iter_apply(it, TransformModel::Tiling(old, new, factor)) {
        Ok(r) => {
            lemma_iter_roundtrip(r);
        },
        Err(_) => {},
    }
}

/// The iterator that a tiling adds to a nest is read back from its text,
/// where its name is made of letters.
pub proof fn lemma_tiling_new_iterator_text(new: Seq<char>, factor: i32, step: i32)
    requires
        letters_ok(new),
    ensures
        p_loop_iter(
            iter_text(LoopIterModel { iter_name: new, bounds: (0, factor), step: step }),
            0,
        ) == Some(
            (
                LoopIterModel { iter_name: new, bounds: (0, factor), step: step },
                iter_text(LoopIterModel { iter_name: new, bounds: (0, factor), step: step }).len() as int,
            ),
        ),
{
    lemma_iter_roundtrip(LoopIterModel { iter_name: new, bounds: (0, factor), step: step });
}

} // verus!
