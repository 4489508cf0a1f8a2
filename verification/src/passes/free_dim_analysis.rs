//! Which dimensions of the nest an instruction leaves free: the iterators
//! that its address does not use.

use crate::passes::mem_access_analysis::{
    accessed_dims,
    expr_vars,
    push_joined,
    set_text,
    MemAccessAnalysis,
};
use crate::passes::passes::{names_model, PassInfo, PassRun};
use crate::passes::property::{AnalysisError, Property, PropertyRecord};
use crate::passes::workspace::{attach_outcome, lists_model, HookKind, Workspace};
use crate::representations::affine_expr::AffineExpr;
use crate::representations::instruction::{Instruction, InstructionModel};
use crate::representations::loops::{iters_model, LoopIter, LoopIterModel};
use vstd::prelude::*;
use vstd::string::StringExecFns;

verus! {

/// The names of iterators, in the order of the nest.
pub open spec fn iter_names(iters: Seq<LoopIterModel>) -> Seq<Seq<char>> {
    iters.map_values(|i: LoopIterModel| i.iter_name)
}

/// The names that are not among the accessed ones, in their order.
pub open spec fn keep_free(names: Seq<Seq<char>>, accessed: Seq<Seq<char>>) -> Seq<Seq<char>>
    decreases names.len(),
{
    if names.len() == 0 {
        Seq::empty()
    } else if accessed.contains(names.last()) {
        keep_free(names.drop_last(), accessed)
    } else {
        keep_free(names.drop_last(), accessed).push(names.last())
    }
}

/// The free dimensions of an instruction in a nest: the iterators, in the
/// order of the nest, that the instruction does not access.
pub open spec fn free_dims(iters: Seq<LoopIterModel>, i: InstructionModel) -> Seq<Seq<char>> {
    keep_free(iter_names(iters), accessed_dims(i))
}

/// The dimensions that an instruction leaves free.
pub struct FreeDimProp {
    pub free_dims: Vec<String>,
}

impl Property for FreeDimProp {
    open spec fn id_spec(&self) -> Seq<char> {
        "FreeDimProp"@
    }

    open spec fn text_spec(&self) -> Seq<char> {
        set_text("Free Dims: "@, names_model(self.free_dims@))
    }

    fn property_id(&self) -> (r: String) {
        String::from_str("FreeDimProp")
    }

    fn to_string(&self) -> (r: String) {
        let mut out = String::from_str("Free Dims: ");
        out.append("{");
        push_joined(&mut out, &self.free_dims);
        out.append("}");
        assert(out@ =~= self.text_spec());
        out
    }
}

/// Whether a name is in a list of names.
pub fn contains_name(names: &Vec<String>, name: &String) -> (b: bool)
    ensures
        b == names_model(names@).contains(name@),
{
    let mut i: usize = 0;
    while i < names.len()
        invariant
            i <= names.len(),
            forall|j: int| 0 <= j < i ==> names_model(names@)[j] != name@,
        decreases names.len() - i,
    {
        if names[i] == *name {
            assert(names_model(names@)[i as int] == name@);
            return true;
        }
        i = i + 1;
    }
    false
}

/// What the analysis gives for an instruction of a nest: one property,
/// which shows the free dimensions.
pub open spec fn free_dim_yields(
    iters: Seq<LoopIter>,
    inst: Instruction,
    properties: Seq<PropertyRecord>,
) -> bool {
    &&& properties.len() == 1
    &&& properties[0].id@ == "FreeDimProp"@
    &&& properties[0].text@ == set_text("Free Dims: "@, free_dims(iters_model(iters), inst@))
}

pub struct FreeDimAnalysis;

impl FreeDimAnalysis {
    /// The variables of an expression, with repetitions.
    pub fn get_accesses_from_affine_expr(expr: &AffineExpr) -> (r: Vec<String>)
        ensures
            names_model(r@) == expr_vars(expr@),
    {
        MemAccessAnalysis::get_accesses_from_affine_expr(expr)
    }

    /// The free dimensions of an instruction in a nest with these
    /// iterators.
    pub fn free_dims(iters: &Vec<LoopIter>, inst: &Instruction) -> (r: Vec<String>)
        ensures
            names_model(r@) == free_dims(iters_model(iters@), inst@),
    {
        let accessed = MemAccessAnalysis::accessed_dims(inst);
        let mut free: Vec<String> = Vec::new();
        let mut i: usize = 0;
        let ghost names = iter_names(iters_model(iters@));
        assert(names_model(free@) =~= Seq::<Seq<char>>::empty());
        assert(names.take(0) =~= Seq::<Seq<char>>::empty());
        while i < iters.len()
            invariant
                i <= iters.len(),
                names == iter_names(iters_model(iters@)),
                names_model(accessed@) == accessed_dims(inst@),
                names_model(free@) == keep_free(names.take(i as int), accessed_dims(inst@)),
            decreases iters.len() - i,
        {
            proof {
                let next = names.take(i + 1);
                assert(next.drop_last() =~= names.take(i as int));
                assert(next.last() == iters@[i as int].iter_name@);
            }
            if !contains_name(&accessed, &iters[i].iter_name) {
                let ghost before = free@;
                free.push(iters[i].iter_name.clone());
                assert(names_model(free@) =~= names_model(before).push(iters@[i as int].iter_name@));
            }
            i = i + 1;
        }
        assert(names.take(iters.len() as int) =~= names);
        free
    }

    /// Files, for each instruction of the body, its free dimensions under
    /// the identity of the instruction.
    pub fn analyze(&self, workspace: &mut Workspace) -> (r: Result<(), AnalysisError>)
        ensures
            final(workspace).grows_from(old(workspace)),
            final(workspace).available_features == old(workspace).available_features,
            exists|per: Seq<Seq<PropertyRecord>>|
                {
                    &&& per.len() == old(workspace).loop_nest.body@.len()
                    &&& forall|i: int|
                        0 <= i < per.len() ==> free_dim_yields(
                            old(workspace).loop_nest.iters@,
                            old(workspace).loop_nest.body@[i],
                            #[trigger] per[i],
                        )
                    &&& #[trigger] attach_outcome(
                        &final(workspace).properties,
                        &old(workspace).properties,
                        HookKind::Inst,
                        per,
                        r,
                    )
                },
    {
        let mut found: Vec<Vec<PropertyRecord>> = Vec::new();
        let mut i: usize = 0;
        while i < workspace.loop_nest.body.len()
            invariant
                *workspace == *old(workspace),
                i <= workspace.loop_nest.body@.len(),
                found@.len() == i,
                forall|j: int|
                    0 <= j < i ==> free_dim_yields(
                        workspace.loop_nest.iters@,
                        workspace.loop_nest.body@[j],
                        #[trigger] lists_model(found@)[j],
                    ),
            decreases workspace.loop_nest.body@.len() - i,
        {
            let free_dims = Self::free_dims(
                &workspace.loop_nest.iters,
                &workspace.loop_nest.body[i],
            );
            let property = FreeDimProp { free_dims: free_dims };
            let mut properties: Vec<PropertyRecord> = Vec::new();
            properties.push(PropertyRecord::of(&property));
            let ghost before = found@;
            let ghost added = properties@;
            found.push(properties);
            proof {
                assert(lists_model(found@) =~= lists_model(before).push(added));
            }
            i = i + 1;
        }
        let ghost per = lists_model(found@);
        let r = workspace.attach_by_index(HookKind::Inst, found);
        assert(attach_outcome(
            &workspace.properties,
            &old(workspace).properties,
            HookKind::Inst,
            per,
            r,
        ));
        r
    }
}

impl PassRun for FreeDimAnalysis {
    /// For each instruction of the body, in order, its free dimensions are
    /// filed under the identity of the instruction; the features stay as
    /// they are. The run fails at the first instruction whose identity is
    /// not registered.
    open spec fn run_spec(
        &self,
        before: Workspace,
        after: Workspace,
        r: Result<(), AnalysisError>,
    ) -> bool {
        &&& after.available_features == before.available_features
        &&& exists|per: Seq<Seq<PropertyRecord>>|
            {
                &&& per.len() == before.loop_nest.body@.len()
                &&& forall|i: int|
                    0 <= i < per.len() ==> free_dim_yields(
                        before.loop_nest.iters@,
                        before.loop_nest.body@[i],
                        #[trigger] per[i],
                    )
                &&& #[trigger] attach_outcome(
                    &after.properties,
                    &before.properties,
                    HookKind::Inst,
                    per,
                    r,
                )
            }
    }

    fn run(&self, workspace: &mut Workspace) -> (r: Result<(), AnalysisError>) {
        self.analyze(workspace)
    }
}

impl PassInfo for FreeDimAnalysis {
    open spec fn name_spec(&self) -> Seq<char> {
        "Free Dimension Analysis"@
    }

    open spec fn required_spec(&self) -> Seq<Seq<char>> {
        Seq::empty()
    }

    open spec fn produced_spec(&self) -> Seq<Seq<char>> {
        seq!["FreeDims"@]
    }

    fn name(&self) -> (r: &str) {
        "Free Dimension Analysis"
    }

    fn description(&self) -> (r: &str)
        ensures
            r@ == "Identifies dimensions in the loop nest that are not accessed in memory operations"@,
    {
        "Identifies dimensions in the loop nest that are not accessed in memory operations"
    }

    fn required_features(&self) -> (r: Vec<String>) {
        let v: Vec<String> = Vec::new();
        assert(names_model(v@) =~= Seq::<Seq<char>>::empty());
        v
    }

    fn produced_features(&self) -> (r: Vec<String>) {
        let mut v: Vec<String> = Vec::new();
        v.push(String::from_str("FreeDims"));
        assert(names_model(v@) =~= seq!["FreeDims"@]);
        v
    }
}

} // verus!
