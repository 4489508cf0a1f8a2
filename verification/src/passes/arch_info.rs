//! The architecture as a property of the workspace.

use crate::passes::passes::{names_model, PassInfo, PassRun, WorkspacePass};
use crate::passes::property::{AnalysisError, Property, PropertyRecord};
use crate::passes::workspace::{workspace_hook_id, Workspace};
use crate::representations::arch::Arch;
use crate::representations::loops::LoopNest;
use vstd::prelude::*;
use vstd::string::StringExecFns;

verus! {

/// An architecture with the text that shows it.
pub struct ArchInfo {
    pub arch: Arch,
    /// The architecture in its serialised form.
    pub text: String,
}

impl Property for ArchInfo {
    open spec fn id_spec(&self) -> Seq<char> {
        "ArchInfo"@
    }

    open spec fn text_spec(&self) -> Seq<char> {
        self.text@
    }

    fn property_id(&self) -> (r: String) {
        String::from_str("ArchInfo")
    }

    fn to_string(&self) -> (r: String) {
        self.text.clone()
    }
}

/// The pass that attaches the architecture to the workspace.
pub struct ArchInfoBuilder {
    pub arch_info: ArchInfo,
}

impl WorkspacePass for ArchInfoBuilder {
    /// One property, which shows the architecture.
    open spec fn yields(&self, nest: LoopNest, properties: Seq<PropertyRecord>) -> bool {
        &&& properties.len() == 1
        &&& properties[0].id@ == "ArchInfo"@
        &&& properties[0].text@ == self.arch_info.text@
    }

    fn analyze_loop(&self, nest: &LoopNest) -> (r: Vec<PropertyRecord>) {
        let mut properties: Vec<PropertyRecord> = Vec::new();
        properties.push(PropertyRecord::of(&self.arch_info));
        properties
    }
}

impl PassInfo for ArchInfoBuilder {
    open spec fn name_spec(&self) -> Seq<char> {
        "ArchInfoBuilder"@
    }

    open spec fn required_spec(&self) -> Seq<Seq<char>> {
        Seq::empty()
    }

    open spec fn produced_spec(&self) -> Seq<Seq<char>> {
        seq!["ArchInfo"@]
    }

    fn name(&self) -> (r: &str) {
        "ArchInfoBuilder"
    }

    fn description(&self) -> (r: &str)
        ensures
            r@ == "Builds the architecture information"@,
    {
        "Builds the architecture information"
    }

    fn required_features(&self) -> (r: Vec<String>) {
        let v: Vec<String> = Vec::new();
        assert(names_model(v@) =~= Seq::<Seq<char>>::empty());
        v
    }

    fn produced_features(&self) -> (r: Vec<String>) {
        let mut v: Vec<String> = Vec::new();
        v.push(String::from_str("ArchInfo"));
        assert(names_model(v@) =~= seq!["ArchInfo"@]);
        v
    }
}

impl PassRun for ArchInfoBuilder {
    /// The architecture is filed as a property of the workspace as a whole,
    /// after what is filed there; the features stay as they are. The run
    /// always succeeds.
    open spec fn run_spec(
        &self,
        before: Workspace,
        after: Workspace,
        r: Result<(), AnalysisError>,
    ) -> bool {
        &&& r is Ok
        &&& after.available_features == before.available_features
        &&& exists|added: Seq<PropertyRecord>|
            {
                &&& self.yields(before.loop_nest, added)
                &&& #[trigger] after.properties.is_with(
                    &before.properties,
                    workspace_hook_id(),
                    added,
                )
            }
    }

    fn run(&self, workspace: &mut Workspace) -> (r: Result<(), AnalysisError>) {
        WorkspacePass::run(self, workspace)
    }
}

} // verus!
