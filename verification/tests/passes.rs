use loopana::passes::arch_info::{ArchInfo, ArchInfoBuilder};
use loopana::passes::feature::Feature;
use loopana::passes::free_dim_analysis::FreeDimAnalysis;
use loopana::passes::mem_access_analysis::MemAccessAnalysis;
use loopana::passes::pass_pipeline::{PassPipeline, PipelineState};
use loopana::passes::passes::{InstPass, IterPass, PassBox, PassInfo, PassRun};
use loopana::passes::property::{
    AnalysisError, Property, PropertyHook, PropertyManager, PropertyRecord,
};
use loopana::passes::workspace::{EntityHook, Workspace};
use loopana::representations::arch::{Arch, PEArch};
use loopana::representations::instruction::Instruction;
use loopana::representations::instruction_parse::parse_instruction;
use loopana::representations::loops::{parse_loop_iter, LoopIter, LoopNest};

fn nest() -> LoopNest {
    LoopNest {
        iters: ["for m in (0..100)", "for k in (0..300)", "for n in (0..200)"]
            .iter()
            .map(|t| parse_loop_iter(t).unwrap())
            .collect(),
        body: ["Ra <= A[m][k]", "cmp Rcmp Ra, $0", "Rb <= B[2 * k + k][n / 2]"]
            .iter()
            .map(|t| parse_instruction(t).unwrap())
            .collect(),
        properties: None,
    }
}

fn texts(ws: &Workspace, hook: EntityHook) -> Vec<String> {
    ws.get_properties(hook)
        .unwrap()
        .iter()
        .map(|p| p.text.clone())
        .collect()
}

fn boxed<P: loopana::passes::passes::Pass + 'static>(pass: P) -> PassBox {
    PassBox {
        pass: Box::new(pass),
    }
}

#[test]
fn mem_access_analysis_gives_the_accessed_dims() {
    let mut ws = Workspace::new(nest(), None);
    PassRun::run(&MemAccessAnalysis, &mut ws).unwrap();
    assert_eq!(texts(&ws, EntityHook::inst(0)), vec!["Accessed Dims: {m, k}"]);
    assert_eq!(texts(&ws, EntityHook::inst(1)), vec!["Accessed Dims: {}"]);
    // Repetitions are kept.
    assert_eq!(
        texts(&ws, EntityHook::inst(2)),
        vec!["Accessed Dims: {k, k, n}"]
    );
    assert_eq!(
        ws.get_properties(EntityHook::inst(0)).unwrap()[0].id,
        "MemAccessProp"
    );
    assert_eq!(
        MemAccessAnalysis::accessed_dims(&nest().body[2]),
        vec!["k", "k", "n"]
    );
    assert!(texts(&ws, EntityHook::iter(0)).is_empty());
    assert!(ws.get_properties(EntityHook::inst(3)).is_none());
}

#[test]
fn free_dim_analysis_gives_the_free_dims() {
    let mut ws = Workspace::new(nest(), None);
    PassRun::run(&FreeDimAnalysis, &mut ws).unwrap();
    assert_eq!(texts(&ws, EntityHook::inst(0)), vec!["Free Dims: {n}"]);
    assert_eq!(texts(&ws, EntityHook::inst(1)), vec!["Free Dims: {m, k, n}"]);
    assert_eq!(texts(&ws, EntityHook::inst(2)), vec!["Free Dims: {m}"]);
    assert_eq!(
        FreeDimAnalysis::free_dims(&nest().iters, &nest().body[0]),
        vec!["n"]
    );
    assert_eq!(
        ws.get_properties(EntityHook::inst(0)).unwrap()[0].id,
        "FreeDimProp"
    );
}

#[test]
fn test_passes() {
    let mut workspace = Workspace::new(nest(), None);
    let mut pass_pipeline = PassPipeline::new();
    pass_pipeline.register_pass(boxed(MemAccessAnalysis));
    pass_pipeline.register_pass(boxed(FreeDimAnalysis));
    pass_pipeline.run(&mut workspace).unwrap();
    assert_eq!(
        texts(&workspace, EntityHook::inst(0)),
        vec!["Accessed Dims: {m, k}", "Free Dims: {n}"]
    );
    assert!(workspace.feature_available_str("MemAccess"));
    assert!(workspace.feature_available(&Feature {
        name: "FreeDims".to_string()
    }));
    assert!(!workspace.feature_available_str("ArchInfo"));
    assert_eq!(workspace.available_features.len(), 2);
    let output_str = workspace.to_string();
    assert_eq!(
        output_str,
        "Problem: \n\
         for m in (0..100)\nfor k in (0..300)\nfor n in (0..200)\n\
         \x20   Ra <= A[m][k]\n    cmp Rcmp Ra, $0\n    Rb <= B[2 * k + k][n / 2]\n\
         \n\nIters: \n\
         \n - for m in (0..100)\n\t>\n\n - for k in (0..300)\n\t>\n\n - for n in (0..200)\n\t>\n\
         \nBody: \n\
         \n - Ra <= A[m][k]\n\t> Accessed Dims: {m, k}\n \t> Free Dims: {n}\n \
         \n - cmp Rcmp Ra, $0\n\t> Accessed Dims: {}\n \t> Free Dims: {m, k, n}\n \
         \n - Rb <= B[2 * k + k][n / 2]\n\t> Accessed Dims: {k, k, n}\n \t> Free Dims: {m}\n "
    );
}

struct Needs {
    feature: &'static str,
}

impl PassInfo for Needs {
    fn name_spec(&self) -> vstd::seq::Seq<char> {
        unreachable!()
    }

    fn required_spec(&self) -> vstd::seq::Seq<vstd::seq::Seq<char>> {
        unreachable!()
    }

    fn produced_spec(&self) -> vstd::seq::Seq<vstd::seq::Seq<char>> {
        unreachable!()
    }

    fn name(&self) -> &str {
        "Needs"
    }

    fn description(&self) -> &str {
        "A pass that requires a feature and marks the workspace"
    }

    fn required_features(&self) -> Vec<String> {
        vec!["MemAccess".to_string(), self.feature.to_string()]
    }

    fn produced_features(&self) -> Vec<String> {
        vec!["Marked".to_string(), "MemAccess".to_string()]
    }
}

struct Mark;

impl Property for Mark {
    fn id_spec(&self) -> vstd::seq::Seq<char> {
        unreachable!()
    }

    fn text_spec(&self) -> vstd::seq::Seq<char> {
        unreachable!()
    }

    fn property_id(&self) -> String {
        "Mark".to_string()
    }

    fn to_string(&self) -> String {
        "marked".to_string()
    }
}

impl PassRun for Needs {
    fn run_spec(&self, _: Workspace, _: Workspace, _: Result<(), AnalysisError>) -> bool {
        unreachable!()
    }

    fn run(&self, workspace: &mut Workspace) -> Result<(), AnalysisError> {
        workspace.add_global_property(PropertyRecord::of(&Mark));
        Ok(())
    }
}

#[test]
fn a_missing_feature_stops_the_pipeline_before_the_pass() {
    let mut ws = Workspace::new(nest(), None);
    let mut pipeline = PassPipeline::new();
    pipeline.register_pass(boxed(MemAccessAnalysis));
    pipeline.register_pass(boxed(Needs { feature: "FreeDims" }));
    pipeline.register_pass(boxed(FreeDimAnalysis));
    assert_eq!(
        pipeline.run(&mut ws),
        Err(AnalysisError::MissingFeature {
            pass: "Needs".to_string(),
            feature: "FreeDims".to_string()
        })
    );
    // The passes before have run, the pass itself and those after it have not.
    assert_eq!(texts(&ws, EntityHook::inst(0)), vec!["Accessed Dims: {m, k}"]);
    assert!(ws.properties.get_properties_by_id("Workspace".to_string()).is_none());
    assert!(ws.feature_available_str("MemAccess"));
    assert!(!ws.feature_available_str("Marked"));
    assert!(!ws.feature_available_str("FreeDims"));

    // With the passes in the other order the pipeline succeeds.
    let mut ws = Workspace::new(nest(), None);
    let mut pipeline = PassPipeline::new();
    pipeline.register_pass(boxed(FreeDimAnalysis));
    pipeline.register_pass(boxed(MemAccessAnalysis));
    pipeline.register_pass(boxed(Needs { feature: "FreeDims" }));
    assert_eq!(pipeline.run(&mut ws), Ok(()));
    let global = ws.properties.get_properties_by_id("Workspace".to_string()).unwrap();
    assert_eq!(global.len(), 1);
    assert_eq!(global[0].text, "marked");
    // A feature is available once, however often it is produced.
    assert_eq!(
        ws.available_features,
        vec![
            Feature { name: "FreeDims".to_string() },
            Feature { name: "MemAccess".to_string() },
            Feature { name: "Marked".to_string() }
        ]
    );
}

#[test]
fn the_pipeline_steps_through_its_states() {
    let mut ws = Workspace::new(nest(), None);
    let mut pipeline = PassPipeline::new();
    pipeline.register_pass(boxed(Needs { feature: "MemAccess" }));
    let state = pipeline.step(PipelineState::Checking(0), &mut ws);
    assert_eq!(
        state,
        PipelineState::Failed(AnalysisError::MissingFeature {
            pass: "Needs".to_string(),
            feature: "MemAccess".to_string()
        })
    );
    assert!(ws.properties.get_properties_by_id("Workspace".to_string()).is_none());
    assert_eq!(
        pipeline.step(state, &mut ws),
        PipelineState::Failed(AnalysisError::MissingFeature {
            pass: "Needs".to_string(),
            feature: "MemAccess".to_string()
        })
    );
    ws.add_feature("MemAccess".to_string());
    assert_eq!(
        pipeline.step(PipelineState::Checking(0), &mut ws),
        PipelineState::Running(0)
    );
    assert_eq!(
        pipeline.step(PipelineState::Running(0), &mut ws),
        PipelineState::Checking(1)
    );
    assert!(ws.feature_available_str("Marked"));
    assert_eq!(
        pipeline.step(PipelineState::Checking(1), &mut ws),
        PipelineState::Done
    );
    assert_eq!(pipeline.step(PipelineState::Done, &mut ws), PipelineState::Done);
    assert_eq!(
        pipeline.step(PipelineState::Running(5), &mut ws),
        PipelineState::Done
    );
}

#[test]
fn properties_are_only_added() {
    let mut ws = Workspace::new(nest(), None);
    ws.add_property(EntityHook::inst(0), PropertyRecord::of(&Mark))
        .unwrap();
    ws.add_property(EntityHook::iter(2), PropertyRecord::of(&Mark))
        .unwrap();
    let mut pipeline = PassPipeline::new();
    pipeline.register_pass(boxed(MemAccessAnalysis));
    pipeline.register_pass(boxed(FreeDimAnalysis));
    pipeline.register_pass(boxed(MemAccessAnalysis));
    pipeline.run(&mut ws).unwrap();
    assert_eq!(
        texts(&ws, EntityHook::inst(0)),
        vec![
            "marked",
            "Accessed Dims: {m, k}",
            "Free Dims: {n}",
            "Accessed Dims: {m, k}"
        ]
    );
    assert_eq!(texts(&ws, EntityHook::iter(2)), vec!["marked"]);
    assert_eq!(ws.loop_nest, nest());
}

#[test]
fn an_unknown_hook_is_an_error() {
    let mut ws = Workspace::new(nest(), None);
    assert_eq!(
        ws.add_property(EntityHook::inst(3), PropertyRecord::of(&Mark)),
        Err(AnalysisError::UnknownHook("Inst#3".to_string()))
    );
    assert_eq!(
        ws.add_property(EntityHook::iter(12), PropertyRecord::of(&Mark)),
        Err(AnalysisError::UnknownHook("Iter#12".to_string()))
    );
    assert_eq!(EntityHook::inst(10).property_hook_id(), "Inst#10");
    assert_eq!(EntityHook::iter(0).property_hook_id(), "Iter#0");
    assert_eq!(ws.property_hook_id(), "Workspace");
    // A nest that has grown since the workspace was made has entities without
    // a registered identity: the analysis files what it can and fails there.
    ws.loop_nest.body.push(parse_instruction("R9 <= Z[n]").unwrap());
    assert_eq!(
        PassRun::run(&MemAccessAnalysis, &mut ws),
        Err(AnalysisError::UnknownHook("Inst#3".to_string()))
    );
    assert_eq!(texts(&ws, EntityHook::inst(2)), vec!["Accessed Dims: {k, k, n}"]);
}

#[test]
fn the_store_files_in_order() {
    let mut store = PropertyManager::new();
    assert!(store.get_properties_by_id("a".to_string()).is_none());
    store.add_entry("a".to_string());
    store.add_entry("a".to_string());
    assert_eq!(store.get_properties_by_id("a".to_string()).unwrap().len(), 0);
    store.add_property_by_id("b".to_string(), PropertyRecord::of(&Mark));
    store.add_property_by_id(
        "b".to_string(),
        PropertyRecord {
            id: "Other".to_string(),
            text: "second".to_string(),
        },
    );
    let filed = store.get_properties_by_id("b".to_string()).unwrap();
    assert_eq!(filed[0].id, "Mark");
    assert_eq!(filed[1].text, "second");
    assert_eq!(store.entries.len(), 2);
    let from = PropertyManager::from_entries(vec!["x".to_string(), "y".to_string()]);
    assert!(from.get_properties_by_hook(EntityHook::inst(0)).is_none());
    assert!(from.get_properties_by_id("y".to_string()).unwrap().is_empty());
}

struct Bounds;

impl IterPass for Bounds {
    fn yields(&self, _: LoopIter, _: vstd::seq::Seq<PropertyRecord>) -> bool {
        unreachable!()
    }

    fn analyze_iter(&self, iter: &LoopIter) -> Vec<PropertyRecord> {
        if iter.iter_name == "k" {
            vec![]
        } else {
            vec![PropertyRecord {
                id: "Bounds".to_string(),
                text: format!("{}", iter.bounds.1 - iter.bounds.0),
            }]
        }
    }
}

struct Count;

impl InstPass for Count {
    fn yields(&self, _: Instruction, _: vstd::seq::Seq<PropertyRecord>) -> bool {
        unreachable!()
    }

    fn analyze_inst(&self, inst: &Instruction) -> Vec<PropertyRecord> {
        match inst {
            Instruction::Compute(c) => c
                .src
                .iter()
                .map(|o| PropertyRecord {
                    id: "Src".to_string(),
                    text: o.to_string(),
                })
                .collect(),
            _ => vec![],
        }
    }
}

#[test]
fn the_shapes_of_passes_file_by_entity() {
    let mut ws = Workspace::new(nest(), None);
    IterPass::run(&Bounds, &mut ws).unwrap();
    assert_eq!(texts(&ws, EntityHook::iter(0)), vec!["100"]);
    assert!(texts(&ws, EntityHook::iter(1)).is_empty());
    assert_eq!(texts(&ws, EntityHook::iter(2)), vec!["200"]);
    InstPass::run(&Count, &mut ws).unwrap();
    assert_eq!(texts(&ws, EntityHook::inst(1)), vec!["Ra", "$0"]);
    assert!(texts(&ws, EntityHook::inst(0)).is_empty());
}

#[test]
fn the_architecture_is_a_global_property() {
    let arch = Arch {
        pe_arch: PEArch {
            data_ports: vec![],
            data_width: 16,
        },
        dimensions: vec![],
    };
    let builder = ArchInfoBuilder {
        arch_info: ArchInfo {
            arch,
            text: "data_width: 16".to_string(),
        },
    };
    assert_eq!(PassInfo::name(&builder), "ArchInfoBuilder");
    assert_eq!(builder.produced_features(), vec!["ArchInfo"]);
    let mut ws = Workspace::new(nest(), None);
    let mut pipeline = PassPipeline::new();
    pipeline.register_pass(boxed(builder));
    pipeline.run(&mut ws).unwrap();
    let global = ws.properties.get_properties_by_id("Workspace".to_string()).unwrap();
    assert_eq!(global.len(), 1);
    assert_eq!(global[0].id, "ArchInfo");
    assert_eq!(global[0].text, "data_width: 16");
    assert!(ws.feature_available_str("ArchInfo"));
}

fn small_nest() -> LoopNest {
    LoopNest {
        iters: vec![
            parse_loop_iter("for m in (0..100)").unwrap(),
            parse_loop_iter("for k in (0..200)").unwrap(),
        ],
        body: vec![parse_instruction("Ra <= A[m]").unwrap()],
        properties: None,
    }
}

#[test]
fn the_workspace_shows_its_architecture() {
    let arch = Arch {
        pe_arch: PEArch {
            data_ports: vec![],
            data_width: 16,
        },
        dimensions: vec![],
    };
    let with_arch = Workspace::new(small_nest(), Some(arch));
    let shown = "Arch: \npe_arch:\n  data_width: 16\n\n";
    assert_eq!(
        with_arch.to_string_with_arch(shown),
        "Problem: \nfor m in (0..100)\nfor k in (0..200)\n    Ra <= A[m]\n\n\
         Arch: \nArch: \npe_arch:\n  data_width: 16\n\n\n\
         \nIters: \n\n - for m in (0..100)\n\t>\n\n - for k in (0..200)\n\t>\n\
         \nBody: \n\n - Ra <= A[m]\n"
    );
    // Without the text of the architecture, the rest is shown.
    assert_eq!(
        with_arch.to_string(),
        "Problem: \nfor m in (0..100)\nfor k in (0..200)\n    Ra <= A[m]\n\n\
         \nIters: \n\n - for m in (0..100)\n\t>\n\n - for k in (0..200)\n\t>\n\
         \nBody: \n\n - Ra <= A[m]\n"
    );
    // A workspace without an architecture shows none.
    let without = Workspace::new(small_nest(), None);
    assert_eq!(without.to_string_with_arch(shown), without.to_string());
}

#[test]
fn an_iterator_without_properties_shows_an_empty_mark() {
    let mut ws = Workspace::new(small_nest(), None);
    IterPass::run(&Bounds, &mut ws).unwrap();
    // `Bounds` files the upper bound of every iterator but `k`.
    assert_eq!(
        ws.to_string(),
        "Problem: \nfor m in (0..100)\nfor k in (0..200)\n    Ra <= A[m]\n\n\
         \nIters: \n\n - for m in (0..100)\n\t> 100\n \n - for k in (0..200)\n\t>\n\
         \nBody: \n\n - Ra <= A[m]\n"
    );
    // An instruction whose identity is not registered shows the mark too.
    ws.loop_nest.body.push(parse_instruction("Rb <= B[k]").unwrap());
    assert!(ws.to_string().ends_with("\n - Ra <= A[m]\n\n - Rb <= B[k]\n\t>\n"));
}

#[test]
fn a_reference_to_a_hook_is_a_hook() {
    let mut ws = Workspace::new(nest(), None);
    let hook = EntityHook::inst(1);
    ws.add_property(&hook, PropertyRecord::of(&Mark)).unwrap();
    assert_eq!(ws.get_properties(&hook).unwrap().len(), 1);
    assert_eq!((&hook).property_hook_id(), "Inst#1");
}

struct Failing;

impl PassInfo for Failing {
    fn name_spec(&self) -> vstd::seq::Seq<char> {
        unreachable!()
    }

    fn required_spec(&self) -> vstd::seq::Seq<vstd::seq::Seq<char>> {
        unreachable!()
    }

    fn produced_spec(&self) -> vstd::seq::Seq<vstd::seq::Seq<char>> {
        unreachable!()
    }

    fn name(&self) -> &str {
        "Failing"
    }

    fn description(&self) -> &str {
        "A pass that fails"
    }

    fn required_features(&self) -> Vec<String> {
        vec![]
    }

    fn produced_features(&self) -> Vec<String> {
        vec!["Never".to_string()]
    }
}

impl PassRun for Failing {
    fn run_spec(&self, _: Workspace, _: Workspace, _: Result<(), AnalysisError>) -> bool {
        unreachable!()
    }

    fn run(&self, _workspace: &mut Workspace) -> Result<(), AnalysisError> {
        Err(AnalysisError::PassFailed("no way".to_string()))
    }
}

#[test]
fn a_failing_pass_stops_the_pipeline() {
    let mut ws = Workspace::new(nest(), None);
    let mut pipeline = PassPipeline::new();
    pipeline.register_pass(boxed(MemAccessAnalysis));
    pipeline.register_pass(boxed(Failing));
    pipeline.register_pass(boxed(FreeDimAnalysis));
    assert_eq!(
        pipeline.run(&mut ws),
        Err(AnalysisError::PassFailed("no way".to_string()))
    );
    // Nothing is undone, and nothing more is done.
    assert_eq!(texts(&ws, EntityHook::inst(0)), vec!["Accessed Dims: {m, k}"]);
    assert!(ws.feature_available_str("MemAccess"));
    assert!(!ws.feature_available_str("Never"));
    assert!(!ws.feature_available_str("FreeDims"));
}
