//! Which dimensions an instruction accesses: the variables in the address
//! expressions of a load or a store.

use crate::passes::passes::{names_model, InstPass, PassInfo, PassRun};
use crate::passes::property::{AnalysisError, Property, PropertyRecord};
use crate::passes::workspace::{attach_outcome, HookKind, Workspace};
use crate::representations::affine_expr::{push_text, AffineExpr, ExprModel};
use crate::representations::instruction::{exprs_model, Instruction, InstructionModel};
use vstd::prelude::*;
use vstd::string::StringExecFns;

verus! {

/// The variables of an expression, in the order in which they occur, each
/// as often as it occurs. Coefficients do not count.
pub open spec fn expr_vars(e: ExprModel) -> Seq<Seq<char>>
    decreases e,
{
    match e {
        ExprModel::Var(n) => seq![n],
        ExprModel::Const(_) => Seq::empty(),
        ExprModel::Add(a, b) => expr_vars(*a) + expr_vars(*b),
        ExprModel::Sub(a, b) => expr_vars(*a) + expr_vars(*b),
        ExprModel::Mul(_, x) => expr_vars(*x),
        ExprModel::Div(x, _) => expr_vars(*x),
        ExprModel::Mod(x, _) => expr_vars(*x),
    }
}

/// The variables of the indices of an access, index after index.
pub open spec fn addr_vars(addr: Seq<ExprModel>) -> Seq<Seq<char>>
    decreases addr.len(),
{
    if addr.len() == 0 {
        Seq::empty()
    } else {
        addr_vars(addr.drop_last()) + expr_vars(addr.last())
    }
}

/// The dimensions that an instruction accesses: the variables of the
/// address of a load or a store, with repetitions; none for a computation.
pub open spec fn accessed_dims(i: InstructionModel) -> Seq<Seq<char>> {
    match i {
        InstructionModel::DataLoad(a) => addr_vars(a.addr),
        InstructionModel::DataStore(a) => addr_vars(a.addr),
        InstructionModel::Compute(_) => Seq::empty(),
    }
}

/// Names with a separator between them.
pub open spec fn join_names(names: Seq<Seq<char>>, sep: Seq<char>) -> Seq<char>
    decreases names.len(),
{
    if names.len() == 0 {
        Seq::empty()
    } else if names.len() == 1 {
        names[0]
    } else {
        join_names(names.drop_last(), sep) + sep + names.last()
    }
}

/// Names in braces, after a label: `label{a, b}`.
pub open spec fn set_text(label: Seq<char>, names: Seq<Seq<char>>) -> Seq<char> {
    label + "{"@ + join_names(names, ", "@) + "}"@
}

/// Appends names with `, ` between them.
pub fn push_joined(out: &mut String, names: &Vec<String>)
    ensures
        final(out)@ == old(out)@ + join_names(names_model(names@), ", "@),
{
    let mut i: usize = 0;
    assert(names_model(names@).take(0) =~= Seq::<Seq<char>>::empty());
    assert(out@ =~= old(out)@ + join_names(names_model(names@).take(0), ", "@));
    while i < names.len()
        invariant
            i <= names.len(),
            out@ == old(out)@ + join_names(names_model(names@).take(i as int), ", "@),
        decreases names.len() - i,
    {
        if i > 0 {
            out.append(", ");
        }
        push_text(out, &names[i]);
        proof {
            let next = names_model(names@).take(i + 1);
            assert(next.drop_last() =~= names_model(names@).take(i as int));
            assert(next.last() == names@[i as int]@);
            if i == 0 {
                assert(next[0] == names@[0]@);
            }
            assert(out@ =~= old(out)@ + join_names(next, ", "@));
        }
        i = i + 1;
    }
    assert(names_model(names@).take(names.len() as int) =~= names_model(names@));
}

/// The dimensions that an instruction accesses.
pub struct MemAccessProp {
    pub accessed_dims: Vec<String>,
}

impl Property for MemAccessProp {
    open spec fn id_spec(&self) -> Seq<char> {
        "MemAccessProp"@
    }

    open spec fn text_spec(&self) -> Seq<char> {
        set_text("Accessed Dims: "@, names_model(self.accessed_dims@))
    }

    fn property_id(&self) -> (r: String) {
        String::from_str("MemAccessProp")
    }

    fn to_string(&self) -> (r: String) {
        let mut out = String::from_str("Accessed Dims: ");
        out.append("{");
        push_joined(&mut out, &self.accessed_dims);
        out.append("}");
        assert(out@ =~= self.text_spec());
        out
    }
}

pub struct MemAccessAnalysis;

impl MemAccessAnalysis {
    /// The variables of an expression, with repetitions.
    pub fn get_accesses_from_affine_expr(expr: &AffineExpr) -> (r: Vec<String>)
        ensures
            names_model(r@) == expr_vars(expr@),
        decreases expr,
    {
        match expr {
            AffineExpr::Var(var) => {
                let mut v: Vec<String> = Vec::new();
                v.push(var.clone());
                assert(names_model(v@) =~= seq![var@]);
                v
            },
            AffineExpr::Const(_) => {
                let v: Vec<String> = Vec::new();
                assert(names_model(v@) =~= Seq::<Seq<char>>::empty());
                v
            },
            AffineExpr::Add(expr1, expr2) => {
                let mut accesses = Self::get_accesses_from_affine_expr(expr1);
                let mut more = Self::get_accesses_from_affine_expr(expr2);
                let ghost first = accesses@;
                let ghost second = more@;
                accesses.append(&mut more);
                assert(names_model(accesses@) =~= names_model(first) + names_model(second));
                accesses
            },
            AffineExpr::Sub(expr1, expr2) => {
                let mut accesses = Self::get_accesses_from_affine_expr(expr1);
                let mut more = Self::get_accesses_from_affine_expr(expr2);
                let ghost first = accesses@;
                let ghost second = more@;
                accesses.append(&mut more);
                assert(names_model(accesses@) =~= names_model(first) + names_model(second));
                accesses
            },
            AffineExpr::Mul(_, expr) => Self::get_accesses_from_affine_expr(expr),
            AffineExpr::Div(expr, _) => Self::get_accesses_from_affine_expr(expr),
            AffineExpr::Mod(expr, _) => Self::get_accesses_from_affine_expr(expr),
        }
    }

    /// The dimensions that an instruction accesses.
    pub fn accessed_dims(inst: &Instruction) -> (r: Vec<String>)
        ensures
            names_model(r@) == accessed_dims(inst@),
    {
        match inst {
            Instruction::DataLoad(mem_access) | Instruction::DataStore(mem_access) => {
                let mut dims: Vec<String> = Vec::new();
                let mut i: usize = 0;
                assert(names_model(dims@) =~= Seq::<Seq<char>>::empty());
                assert(exprs_model(mem_access.addr@).take(0) =~= Seq::<ExprModel>::empty());
                while i < mem_access.addr.len()
                    invariant
                        i <= mem_access.addr.len(),
                        names_model(dims@) == addr_vars(exprs_model(mem_access.addr@).take(i as int)),
                    decreases mem_access.addr.len() - i,
                {
                    let mut more = Self::get_accesses_from_affine_expr(&mem_access.addr[i]);
                    let ghost first = dims@;
                    let ghost second = more@;
                    dims.append(&mut more);
                    proof {
                        let next = exprs_model(mem_access.addr@).take(i + 1);
                        assert(next.drop_last() =~= exprs_model(mem_access.addr@).take(i as int));
                        assert(next.last() == mem_access.addr@[i as int]@);
                        assert(names_model(dims@) =~= names_model(first) + names_model(second));
                    }
                    i = i + 1;
                }
                assert(exprs_model(mem_access.addr@).take(mem_access.addr.len() as int)
                    =~= exprs_model(mem_access.addr@));
                dims
            },
            _ => {
                let dims: Vec<String> = Vec::new();
                assert(names_model(dims@) =~= Seq::<Seq<char>>::empty());
                dims
            },
        }
    }
}

impl InstPass for MemAccessAnalysis {
    /// One property, which shows the dimensions that the instruction
    /// accesses.
    open spec fn yields(&self, inst: Instruction, properties: Seq<PropertyRecord>) -> bool {
        &&& properties.len() == 1
        &&& properties[0].id@ == "MemAccessProp"@
        &&& properties[0].text@ == set_text("Accessed Dims: "@, accessed_dims(inst@))
    }

    fn analyze_inst(&self, inst: &Instruction) -> (r: Vec<PropertyRecord>) {
        let property = MemAccessProp { accessed_dims: Self::accessed_dims(inst) };
        let mut properties: Vec<PropertyRecord> = Vec::new();
        properties.push(PropertyRecord::of(&property));
        properties
    }
}

impl PassRun for MemAccessAnalysis {
    /// For each instruction of the body, in order, the dimensions that it
    /// accesses are filed under the identity of the instruction; the
    /// features stay as they are. The run fails at the first instruction
    /// whose identity is not registered.
    open spec fn run_spec(
        &self,
        before: Workspace,
        after: Workspace,
        r: Result<(), AnalysisError>,
    ) -> bool {
        &&& after.available_features == before.available_features
        &&& exists|per: Seq<Seq<PropertyRecord>>|
            {
                &&& per.len() == before.loop_nest.body@.len()
                &&& forall|i: int|
                    0 <= i < per.len() ==> self.yields(before.loop_nest.body@[i], #[trigger] per[i])
                &&& #[trigger] attach_outcome(
                    &after.properties,
                    &before.properties,
                    HookKind::Inst,
                    per,
                    r,
                )
            }
    }

    fn run(&self, workspace: &mut Workspace) -> (r: Result<(), AnalysisError>) {
        InstPass::run(self, workspace)
    }
}

impl PassInfo for MemAccessAnalysis {
    open spec fn name_spec(&self) -> Seq<char> {
        "Memory Access Analysis"@
    }

    open spec fn required_spec(&self) -> Seq<Seq<char>> {
        Seq::empty()
    }

    open spec fn produced_spec(&self) -> Seq<Seq<char>> {
        seq!["MemAccess"@]
    }

    fn name(&self) -> (r: &str) {
        "Memory Access Analysis"
    }

    fn description(&self) -> (r: &str)
        ensures
            r@ == "Memory Access Analysis"@,
    {
        "Memory Access Analysis"
    }

    fn required_features(&self) -> (r: Vec<String>) {
        let v: Vec<String> = Vec::new();
        assert(names_model(v@) =~= Seq::<Seq<char>>::empty());
        v
    }

    fn produced_features(&self) -> (r: Vec<String>) {
        let mut v: Vec<String> = Vec::new();
        v.push(String::from_str("MemAccess"));
        assert(names_model(v@) =~= seq!["MemAccess"@]);
        v
    }
}

} // verus!
