//! What a pass is, and the three shapes that most passes have: one analysis
//! per instruction, one per iterator, or one for the nest as a whole.

use crate::passes::property::{AnalysisError, PropertyRecord};
use crate::passes::workspace::{
    attach_outcome,
    lists_model,
    workspace_hook_id,
    HookKind,
    Workspace,
};
use crate::representations::instruction::Instruction;
use crate::representations::loops::{LoopIter, LoopNest};
use vstd::prelude::*;

verus! {

/// The names in a list of strings.
pub open spec fn names_model(v: Seq<String>) -> Seq<Seq<char>> {
    v.map_values(|s: String| s@)
}

/// What a pass says of itself.
pub trait PassInfo {
    spec fn name_spec(&self) -> Seq<char>;

    /// The features that must be available before the pass runs.
    spec fn required_spec(&self) -> Seq<Seq<char>>;

    /// The features that are available once the pass has run.
    spec fn produced_spec(&self) -> Seq<Seq<char>>;

    fn name(&self) -> (r: &str)
        ensures
            r@ == self.name_spec(),
    ;

    fn description(&self) -> &str;

    fn required_features(&self) -> (r: Vec<String>)
        ensures
            names_model(r@) == self.required_spec(),
    ;

    fn produced_features(&self) -> (r: Vec<String>)
        ensures
            names_model(r@) == self.produced_spec(),
    ;
}

/// What a pass does: it adds to the workspace and takes nothing away. That
/// a feature is missing is for the pipeline to say, not for a pass.
pub trait PassRun {
    /// Whether the pass, run on the workspace `before`, leaves the
    /// workspace `after` and gives the result `r`: what this pass files,
    /// and where.
    spec fn run_spec(&self, before: Workspace, after: Workspace, r: Result<(), AnalysisError>) -> bool;

    fn run(&self, workspace: &mut Workspace) -> (r: Result<(), AnalysisError>)
        ensures
            final(workspace).grows_from(old(workspace)),
            r matches Err(e) ==> !(e is MissingFeature),
            self.run_spec(*old(workspace), *final(workspace), r),
    ;
}

/// A pass as a pipeline holds it. Every type that says what it is and what
/// it does is a pass.
pub trait Pass {
    spec fn name_spec(&self) -> Seq<char>;

    spec fn required_spec(&self) -> Seq<Seq<char>>;

    spec fn produced_spec(&self) -> Seq<Seq<char>>;

    fn name(&self) -> (r: &str)
        ensures
            r@ == self.name_spec(),
    ;

    fn required_features(&self) -> (r: Vec<String>)
        ensures
            names_model(r@) == self.required_spec(),
    ;

    fn produced_features(&self) -> (r: Vec<String>)
        ensures
            names_model(r@) == self.produced_spec(),
    ;

    /// Whether the pass, run on the workspace `before`, leaves the
    /// workspace `after` and gives the result `r`.
    spec fn run_spec(&self, before: Workspace, after: Workspace, r: Result<(), AnalysisError>) -> bool;

    fn run(&self, workspace: &mut Workspace) -> (r: Result<(), AnalysisError>)
        ensures
            final(workspace).grows_from(old(workspace)),
            r matches Err(e) ==> !(e is MissingFeature),
            self.run_spec(*old(workspace), *final(workspace), r),
    ;
}

impl<T: PassInfo + PassRun> Pass for T {
    open spec fn name_spec(&self) -> Seq<char> {
        PassInfo::name_spec(self)
    }

    open spec fn required_spec(&self) -> Seq<Seq<char>> {
        PassInfo::required_spec(self)
    }

    open spec fn produced_spec(&self) -> Seq<Seq<char>> {
        PassInfo::produced_spec(self)
    }

    fn name(&self) -> (r: &str) {
        PassInfo::name(self)
    }

    fn required_features(&self) -> (r: Vec<String>) {
        PassInfo::required_features(self)
    }

    fn produced_features(&self) -> (r: Vec<String>) {
        PassInfo::produced_features(self)
    }

    /// The pass does as a pass what it does by itself.
    open spec fn run_spec(
        &self,
        before: Workspace,
        after: Workspace,
        r: Result<(), AnalysisError>,
    ) -> bool {
        PassRun::run_spec(self, before, after, r)
    }

    fn run(&self, workspace: &mut Workspace) -> (r: Result<(), AnalysisError>) {
        PassRun::run(self, workspace)
    }
}

/// A pass of any kind.
pub struct PassBox {
    pub pass: Box<dyn Pass>,
}

/// A pass that analyses each instruction by itself.
pub trait InstPass {
    /// Whether the properties are what the analysis gives for the
    /// instruction.
    spec fn yields(&self, inst: Instruction, properties: Seq<PropertyRecord>) -> bool;

    fn analyze_inst(&self, inst: &Instruction) -> (r: Vec<PropertyRecord>)
        ensures
            self.yields(*inst, r@),
    ;

    /// Analyses the instructions in the order of the body and files what
    /// the analysis gives for each under the identity of the instruction.
    fn run(&self, workspace: &mut Workspace) -> (r: Result<(), AnalysisError>)
        ensures
            final(workspace).grows_from(old(workspace)),
            final(workspace).available_features == old(workspace).available_features,
            exists|per: Seq<Seq<PropertyRecord>>|
                {
                    &&& per.len() == old(workspace).loop_nest.body@.len()
                    &&& forall|i: int|
                        0 <= i < per.len() ==> self.yields(
                            old(workspace).loop_nest.body@[i],
                            #[trigger] per[i],
                        )
                    &&& #[trigger] attach_outcome(
                        &final(workspace).properties,
                        &old(workspace).properties,
                        HookKind::Inst,
                        per,
                        r,
                    )
                },
    {
        let mut found: Vec<Vec<PropertyRecord>> = Vec::new();
        let mut i: usize = 0;
        while i < workspace.loop_nest.body.len()
            invariant
                *workspace == *old(workspace),
                i <= workspace.loop_nest.body@.len(),
                found@.len() == i,
                forall|j: int|
                    0 <= j < i ==> self.yields(
                        workspace.loop_nest.body@[j],
                        #[trigger] lists_model(found@)[j],
                    ),
            decreases workspace.loop_nest.body@.len() - i,
        {
            let properties = self.analyze_inst(&workspace.loop_nest.body[i]);
            let ghost before = found@;
            let ghost added = properties@;
            found.push(properties);
            proof {
                assert(lists_model(found@) =~= lists_model(before).push(added));
            }
            i = i + 1;
        }
        let ghost per = lists_model(found@);
        let r = workspace.attach_by_index(HookKind::Inst, found);
        assert(attach_outcome(
            &workspace.properties,
            &old(workspace).properties,
            HookKind::Inst,
            per,
            r,
        ));
        r
    }
}

/// A pass that analyses each iterator by itself.
pub trait IterPass {
    /// Whether the properties are what the analysis gives for the iterator.
    spec fn yields(&self, iter: LoopIter, properties: Seq<PropertyRecord>) -> bool;

    fn analyze_iter(&self, iter: &LoopIter) -> (r: Vec<PropertyRecord>)
        ensures
            self.yields(*iter, r@),
    ;

    /// Analyses the iterators in the order of the nest and files what the
    /// analysis gives for each under the identity of the iterator.
    fn run(&self, workspace: &mut Workspace) -> (r: Result<(), AnalysisError>)
        ensures
            final(workspace).grows_from(old(workspace)),
            final(workspace).available_features == old(workspace).available_features,
            exists|per: Seq<Seq<PropertyRecord>>|
                {
                    &&& per.len() == old(workspace).loop_nest.iters@.len()
                    &&& forall|i: int|
                        0 <= i < per.len() ==> self.yields(
                            old(workspace).loop_nest.iters@[i],
                            #[trigger] per[i],
                        )
                    &&& #[trigger] attach_outcome(
                        &final(workspace).properties,
                        &old(workspace).properties,
                        HookKind::Iter,
                        per,
                        r,
                    )
                },
    {
        let mut found: Vec<Vec<PropertyRecord>> = Vec::new();
        let mut i: usize = 0;
        while i < workspace.loop_nest.iters.len()
            invariant
                *workspace == *old(workspace),
                i <= workspace.loop_nest.iters@.len(),
                found@.len() == i,
                forall|j: int|
                    0 <= j < i ==> self.yields(
                        workspace.loop_nest.iters@[j],
                        #[trigger] lists_model(found@)[j],
                    ),
            decreases workspace.loop_nest.iters@.len() - i,
        {
            let properties = self.analyze_iter(&workspace.loop_nest.iters[i]);
            let ghost before = found@;
            let ghost added = properties@;
            found.push(properties);
            proof {
                assert(lists_model(found@) =~= lists_model(before).push(added));
            }
            i = i + 1;
        }
        let ghost per = lists_model(found@);
        let r = workspace.attach_by_index(HookKind::Iter, found);
        assert(attach_outcome(
            &workspace.properties,
            &old(workspace).properties,
            HookKind::Iter,
            per,
            r,
        ));
        r
    }
}

/// A pass that analyses the nest as a whole.
pub trait WorkspacePass {
    /// Whether the properties are what the analysis gives for the nest.
    spec fn yields(&self, nest: LoopNest, properties: Seq<PropertyRecord>) -> bool;

    fn analyze_loop(&self, nest: &LoopNest) -> (r: Vec<PropertyRecord>)
        ensures
            self.yields(*nest, r@),
    ;

    /// Analyses the nest once and files what the analysis gives as
    /// properties of the workspace as a whole.
    fn run(&self, workspace: &mut Workspace) -> (r: Result<(), AnalysisError>)
        ensures
            r is Ok,
            final(workspace).grows_from(old(workspace)),
            final(workspace).available_features == old(workspace).available_features,
            exists|added: Seq<PropertyRecord>|
                {
                    &&& self.yields(old(workspace).loop_nest, added)
                    &&& #[trigger] final(workspace).properties.is_with(
                        &old(workspace).properties,
                        workspace_hook_id(),
                        added,
                    )
                },
    {
        let properties = self.analyze_loop(&workspace.loop_nest);
        let ghost added = properties@;
        workspace.attach_global(properties);
        assert(workspace.properties.is_with(
            &old(workspace).properties,
            workspace_hook_id(),
            added,
        ));
        Ok(())
    }
}

} // verus!
