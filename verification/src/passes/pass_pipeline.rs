//! The pipeline: passes in the order of their registration, each run once
//! the features that it requires are available.
//!
//! A run is a linear state machine: the requirements of a pass are checked,
//! the pass runs, and the next pass is checked, until no pass is left or
//! one step fails. Nothing is undone on failure.

use crate::passes::feature::{has_feature, Feature};
use crate::passes::passes::{names_model, Pass, PassBox};
use crate::passes::property::{
    lemma_extends_self,
    lemma_extends_trans,
    AnalysisError,
    AnalysisErrorModel,
};
use crate::passes::workspace::Workspace;
use vstd::prelude::*;
use vstd::string::StringExecFns;

verus! {

pub struct PassPipeline {
    pub passes: Vec<PassBox>,
}

/// Where a run of the pipeline stands.
#[derive(Debug, PartialEq)]
pub enum PipelineState {
    /// The requirements of the pass at the position are to be checked.
    Checking(usize),
    /// The pass at the position is to run.
    Running(usize),
    Done,
    Failed(AnalysisError),
}

pub enum PipelineStateModel {
    Checking(usize),
    Running(usize),
    Done,
    Failed(AnalysisErrorModel),
}

impl View for PipelineState {
    type V = PipelineStateModel;

    open spec fn view(&self) -> PipelineStateModel {
        match self {
            PipelineState::Checking(i) => PipelineStateModel::Checking(*i),
            PipelineState::Running(i) => PipelineStateModel::Running(*i),
            PipelineState::Done => PipelineStateModel::Done,
            PipelineState::Failed(e) => PipelineStateModel::Failed(e@),
        }
    }
}

/// The position of the first required feature that is not available, or
/// the number of required features where all are available.
pub open spec fn first_missing(required: Seq<Seq<char>>, features: Seq<Feature>) -> int
    decreases required.len(),
{
    if required.len() == 0 {
        0
    } else {
        let before = first_missing(required.drop_last(), features);
        if before < required.len() - 1 {
            before
        } else if !has_feature(features, required.last()) {
            required.len() - 1
        } else {
            required.len() as int
        }
    }
}

/// The first missing feature is not available, and every required feature
/// before it is.
pub proof fn lemma_first_missing(required: Seq<Seq<char>>, features: Seq<Feature>)
    ensures
        0 <= first_missing(required, features) <= required.len(),
        forall|k: int|
            0 <= k < first_missing(required, features) ==> has_feature(
                features,
                #[trigger] required[k],
            ),
        first_missing(required, features) < required.len() ==> !has_feature(
            features,
            required[first_missing(required, features)],
        ),
    decreases required.len(),
{
    if required.len() > 0 {
        lemma_first_missing(required.drop_last(), features);
        let before = first_missing(required.drop_last(), features);
        assert forall|k: int| 0 <= k < first_missing(required, features) implies has_feature(
            features,
            #[trigger] required[k],
        ) by {
            if k < required.len() - 1 {
                assert(required[k] == required.drop_last()[k]);
            }
        }
        if before < required.len() - 1 {
            assert(required[before] == required.drop_last()[before]);
        }
    }
}

/// Whether every feature that the passes before position `upto` produce is
/// among the features.
pub open spec fn produced_available(passes: Seq<PassBox>, upto: int, features: Seq<Feature>) -> bool {
    forall|i: int, k: int|
        0 <= i < upto && 0 <= k < passes[i].pass.produced_spec().len() ==> has_feature(
            features,
            #[trigger] passes[i].pass.produced_spec()[k],
        )
}

/// Whether the workspace `after` is the workspace `ran` with the produced
/// features made available: nothing else differs.
pub open spec fn with_features(ran: &Workspace, after: &Workspace, produced: Seq<Seq<char>>) -> bool {
    &&& after.properties == ran.properties
    &&& after.loop_nest == ran.loop_nest
    &&& after.arch == ran.arch
    &&& forall|n: Seq<char>| #[trigger]
        has_feature(after.available_features@, n) <==> has_feature(ran.available_features@, n)
            || produced.contains(n)
}

/// The position of the first required feature that is not available.
pub fn find_missing(required: &Vec<String>, workspace: &Workspace) -> (r: Option<usize>)
    ensures
        match r {
            Some(k) => k < required@.len() && k == first_missing(
                names_model(required@),
                workspace.available_features@,
            ),
            None => first_missing(names_model(required@), workspace.available_features@)
                == required@.len(),
        },
{
    let mut k: usize = 0;
    assert(names_model(required@).take(0) =~= Seq::<Seq<char>>::empty());
    while k < required.len()
        invariant
            k <= required.len(),
            first_missing(names_model(required@).take(k as int), workspace.available_features@)
                == k,
        decreases required.len() - k,
    {
        proof {
            let next = names_model(required@).take(k + 1);
            assert(next.drop_last() =~= names_model(required@).take(k as int));
            assert(next.last() == required@[k as int]@);
        }
        if !workspace.feature_available_str(required[k].as_str()) {
            proof {
                lemma_missing_stays(
                    names_model(required@),
                    workspace.available_features@,
                    k + 1,
                );
            }
            return Some(k);
        }
        k = k + 1;
    }
    assert(names_model(required@).take(required.len() as int) =~= names_model(required@));
    None
}

/// Once a required feature is the first that is missing, it stays the first
/// however many requirements follow.
pub proof fn lemma_missing_stays(required: Seq<Seq<char>>, features: Seq<Feature>, k: int)
    requires
        0 <= k <= required.len(),
        first_missing(required.take(k), features) < k,
    ensures
        first_missing(required, features) == first_missing(required.take(k), features),
    decreases required.len() - k,
{
    if k < required.len() {
        assert(required.take(k + 1).drop_last() =~= required.take(k));
        lemma_missing_stays(required, features, k + 1);
    } else {
        assert(required.take(k) =~= required);
    }
}

/// Whether a run of the passes from position `i` on, started on the
/// workspace `before`, leaves the workspace `after` and gives the result
/// `r`. Where no pass is left the run has succeeded and changed nothing.
/// Where a required feature of the pass at `i` is not available the run
/// has failed, before the pass is run, with the name of the pass and the
/// first such feature. Otherwise the pass runs: where it fails the run has
/// failed with its error and the workspace is as the pass left it; where
/// it succeeds the features that it produces become available and the run
/// goes on with the pass after it.
pub open spec fn runs_from(
    passes: Seq<PassBox>,
    i: int,
    before: Workspace,
    after: Workspace,
    r: Result<(), AnalysisError>,
) -> bool
    decreases passes.len() - i,
{
    if i < 0 || i >= passes.len() {
        after == before && r is Ok
    } else {
        let required = passes[i].pass.required_spec();
        let missing = first_missing(required, before.available_features@);
        if missing < required.len() {
            &&& after == before
            &&& r matches Err(e) && e@ == (AnalysisErrorModel::MissingFeature {
                pass: passes[i].pass.name_spec(),
                feature: required[missing],
            })
        } else {
            exists|ran: Workspace, done: Result<(), AnalysisError>|
                {
                    &&& #[trigger] passes[i].pass.run_spec(before, ran, done)
                    &&& done is Err ==> after == ran && r == done
                    &&& done is Ok ==> exists|next: Workspace|
                        #[trigger] with_features(&ran, &next, passes[i].pass.produced_spec())
                            && runs_from(passes, i + 1, next, after, r)
                }
        }
    }
}

/// A pass that fails ends the run with its error.
pub proof fn lemma_runs_failed(
    passes: Seq<PassBox>,
    i: int,
    before: Workspace,
    ran: Workspace,
    done: Result<(), AnalysisError>,
)
    requires
        0 <= i < passes.len(),
        first_missing(passes[i].pass.required_spec(), before.available_features@)
            >= passes[i].pass.required_spec().len(),
        passes[i].pass.run_spec(before, ran, done),
        done is Err,
    ensures
        runs_from(passes, i, before, ran, done),
{
}

/// A pass that succeeds hands the run on to the pass after it.
pub proof fn lemma_runs_on(
    passes: Seq<PassBox>,
    i: int,
    before: Workspace,
    ran: Workspace,
    done: Result<(), AnalysisError>,
    next: Workspace,
    after: Workspace,
    r: Result<(), AnalysisError>,
)
    requires
        0 <= i < passes.len(),
        first_missing(passes[i].pass.required_spec(), before.available_features@)
            >= passes[i].pass.required_spec().len(),
        passes[i].pass.run_spec(before, ran, done),
        done is Ok,
        with_features(&ran, &next, passes[i].pass.produced_spec()),
        runs_from(passes, i + 1, next, after, r),
    ensures
        runs_from(passes, i, before, after, r),
{
}

impl PassPipeline {
    /// A pipeline without passes.
    pub fn new() -> (r: Self)
        ensures
            r.passes@.len() == 0,
    {
        PassPipeline { passes: Vec::new() }
    }

    /// Adds a pass after those that are registered.
    pub fn register_pass(&mut self, pass: PassBox)
        ensures
            final(self).passes@ == old(self).passes@.push(pass),
    {
        self.passes.push(pass);
    }

    /// One step of a run.
    ///
    /// From `Checking(i)` the workspace stays as it is: the run is done
    /// where no pass is at `i`, it fails with the name of the pass and the
    /// first required feature that is not available where there is one,
    /// before the pass is run, and it goes on to `Running(i)` otherwise.
    /// From `Running(i)` the pass runs: where it succeeds the features that
    /// it produces become available, nothing else is changed after the
    /// pass, and the run goes on to `Checking(i + 1)`; where it fails the
    /// run has failed with its error and the workspace is as the pass left
    /// it.
    /// `Done` and `Failed` are final.
    pub fn step(&self, state: PipelineState, workspace: &mut Workspace) -> (next: PipelineState)
        ensures
            final(workspace).grows_from(old(workspace)),
            match state {
                PipelineState::Checking(i) => {
                    &&& *final(workspace) == *old(workspace)
                    &&& if i >= self.passes@.len() {
                        next@ == PipelineStateModel::Done
                    } else {
                        let required = self.passes@[i as int].pass.required_spec();
                        let missing = first_missing(required, old(workspace).available_features@);
                        if missing < required.len() {
                            next@ == PipelineStateModel::Failed(
                                AnalysisErrorModel::MissingFeature {
                                    pass: self.passes@[i as int].pass.name_spec(),
                                    feature: required[missing],
                                },
                            )
                        } else {
                            next@ == PipelineStateModel::Running(i)
                        }
                    }
                },
                PipelineState::Running(i) => if i >= self.passes@.len() {
                    *final(workspace) == *old(workspace) && next@ == PipelineStateModel::Done
                } else {
                    match next {
                        PipelineState::Checking(j) => {
                            &&& j == i + 1
                            &&& forall|k: int|
                                0 <= k < self.passes@[i as int].pass.produced_spec().len()
                                    ==> has_feature(
                                    final(workspace).available_features@,
                                    #[trigger] self.passes@[i as int].pass.produced_spec()[k],
                                )
                            &&& exists|ran: Workspace, done: Result<(), AnalysisError>|
                                {
                                    &&& done is Ok
                                    &&& #[trigger] self.passes@[i as int].pass.run_spec(
                                        *old(workspace),
                                        ran,
                                        done,
                                    )
                                    &&& with_features(
                                        &ran,
                                        final(workspace),
                                        self.passes@[i as int].pass.produced_spec(),
                                    )
                                }
                        },
                        PipelineState::Failed(e) => !(e is MissingFeature)
                            && self.passes@[i as int].pass.run_spec(
                            *old(workspace),
                            *final(workspace),
                            Err::<(), AnalysisError>(e),
                        ),
                        _ => false,
                    }
                },
                PipelineState::Done => *final(workspace) == *old(workspace) && next@
                    == PipelineStateModel::Done,
                PipelineState::Failed(e) => *final(workspace) == *old(workspace) && next@
                    == PipelineStateModel::Failed(e@),
            },
    {
        proof {
            lemma_extends_self(&workspace.properties);
        }
        match state {
            PipelineState::Checking(i) => {
                if i >= self.passes.len() {
                    return PipelineState::Done;
                }
                let required = self.passes[i].pass.required_features();
                match find_missing(&required, workspace) {
                    Some(k) => PipelineState::Failed(
                        AnalysisError::MissingFeature {
                            pass: String::from_str(self.passes[i].pass.name()),
                            feature: required[k].clone(),
                        },
                    ),
                    None => PipelineState::Running(i),
                }
            },
            PipelineState::Running(i) => {
                if i >= self.passes.len() {
                    return PipelineState::Done;
                }
                let result = self.passes[i].pass.run(workspace);
                match result {
                    Err(e) => PipelineState::Failed(e),
                    Ok(_) => {
                        let ghost ran = *workspace;
                        let produced = self.passes[i].pass.produced_features();
                        let mut k: usize = 0;
                        proof {
                            assert(names_model(produced@).take(0) =~= Seq::<Seq<char>>::empty());
                        }
                        while k < produced.len()
                            invariant
                                k <= produced.len(),
                                workspace.grows_from(&ran),
                                with_features(
                                    &ran,
                                    workspace,
                                    names_model(produced@).take(k as int),
                                ),
                                forall|j: int|
                                    0 <= j < k ==> has_feature(
                                        workspace.available_features@,
                                        #[trigger] names_model(produced@)[j],
                                    ),
                            decreases produced.len() - k,
                        {
                            let ghost before = *workspace;
                            workspace.add_feature(produced[k].clone());
                            proof {
                                lemma_grows_trans(&ran, &before, workspace);
                                let done = names_model(produced@).take(k as int);
                                let next = names_model(produced@).take(k + 1);
                                assert(next =~= done.push(produced@[k as int]@));
                                assert forall|n: Seq<char>| #[trigger]
                                    has_feature(workspace.available_features@, n) <==> has_feature(
                                        ran.available_features@,
                                        n,
                                    ) || next.contains(n) by {
                                    assert(has_feature(before.available_features@, n) <==> has_feature(
                                        ran.available_features@,
                                        n,
                                    ) || done.contains(n));
                                    if done.contains(n) {
                                        let at = choose|at: int| 0 <= at < done.len() && done[at] == n;
                                        assert(next[at] == n);
                                    }
                                    if n == produced@[k as int]@ {
                                        assert(next[k as int] == n);
                                    }
                                    if next.contains(n) {
                                        let at = choose|at: int| 0 <= at < next.len() && next[at] == n;
                                        if at < k {
                                            assert(done[at] == n);
                                        }
                                    }
                                }
                                assert forall|j: int| 0 <= j < k + 1 implies has_feature(
                                    workspace.available_features@,
                                    #[trigger] names_model(produced@)[j],
                                ) by {
                                    if j < k {
                                        assert(has_feature(
                                            before.available_features@,
                                            names_model(produced@)[j],
                                        ));
                                    }
                                }
                            }
                            k = k + 1;
                        }
                        proof {
                            lemma_grows_trans(old(workspace), &ran, workspace);
                            assert(names_model(produced@).take(produced@.len() as int)
                                =~= names_model(produced@));
                            assert(self.passes@[i as int].pass.run_spec(
                                *old(workspace),
                                ran,
                                result,
                            ));
                        }
                        PipelineState::Checking(i + 1)
                    },
                }
            },
            PipelineState::Done => PipelineState::Done,
            PipelineState::Failed(e) => PipelineState::Failed(e),
        }
    }

    /// Runs the passes in the order of their registration. Every property
    /// that was in the workspace is still there afterwards, where it was,
    /// and every feature is still available.
    ///
    /// The run succeeds where every pass found its required features
    /// available and succeeded; the features that the passes produce are
    /// then available. It fails with `MissingFeature` at the first pass of
    /// which a required feature is not available, before that pass is run:
    /// the feature is then not available in the workspace as the run leaves
    /// it. It fails with the error of a pass where a pass fails. Each pass
    /// runs once, on the workspace as the pass before it left it, with the
    /// produced features of that pass added.
    pub fn run(&self, workspace: &mut Workspace) -> (r: Result<(), AnalysisError>)
        ensures
            final(workspace).grows_from(old(workspace)),
            runs_from(self.passes@, 0, *old(workspace), *final(workspace), r),
            match r {
                Ok(_) => produced_available(
                    self.passes@,
                    self.passes@.len() as int,
                    final(workspace).available_features@,
                ),
                Err(e) => match e@ {
                    AnalysisErrorModel::MissingFeature { pass, feature } => exists|i: int|
                        {
                            &&& 0 <= i < self.passes@.len()
                            &&& pass == #[trigger] self.passes@[i].pass.name_spec()
                            &&& self.passes@[i].pass.required_spec().contains(feature)
                            &&& !has_feature(final(workspace).available_features@, feature)
                            &&& produced_available(
                                self.passes@,
                                i,
                                final(workspace).available_features@,
                            )
                        },
                    _ => true,
                },
            },
    {
        let mut state = PipelineState::Checking(0);
        proof {
            lemma_grows_self(workspace);
        }
        loop
            invariant
                workspace.grows_from(old(workspace)),
                forall|after: Workspace, r: Result<(), AnalysisError>| #[trigger]
                    runs_from(self.passes@, place(state), *workspace, after, r) ==> runs_from(
                        self.passes@,
                        0,
                        *old(workspace),
                        after,
                        r,
                    ),
                state matches PipelineState::Running(i) ==> first_missing(
                    self.passes@[i as int].pass.required_spec(),
                    workspace.available_features@,
                ) >= self.passes@[i as int].pass.required_spec().len(),
                match state {
                    PipelineState::Checking(i) => i <= self.passes@.len() && produced_available(
                        self.passes@,
                        i as int,
                        workspace.available_features@,
                    ),
                    PipelineState::Running(i) => i < self.passes@.len() && produced_available(
                        self.passes@,
                        i as int,
                        workspace.available_features@,
                    ),
                    _ => false,
                },
            decreases
                    match state {
                        PipelineState::Checking(i) => 2 * (self.passes@.len() - i) + 1,
                        PipelineState::Running(i) => 2 * (self.passes@.len() - i),
                        _ => 0,
                    },
        {
            let ghost before = *workspace;
            let ghost at = match state {
                PipelineState::Checking(i) => i,
                PipelineState::Running(i) => i,
                _ => 0,
            };
            let ghost checking = state is Checking;
            let ghost from = state;
            let next = self.step(state, workspace);
            proof {
                lemma_grows_trans(old(workspace), &before, workspace);
                lemma_step_runs(self.passes@, from, before, *workspace, next);
                if checking && at < self.passes@.len() {
                    lemma_first_missing(
                        self.passes@[at as int].pass.required_spec(),
                        before.available_features@,
                    );
                }
                if !checking {
                    assert forall|i: int, k: int|
                        0 <= i < at + 1 && 0 <= k < self.passes@[i].pass.produced_spec().len()
                        && next is Checking implies has_feature(
                        workspace.available_features@,
                        #[trigger] self.passes@[i].pass.produced_spec()[k],
                    ) by {
                        if i < at {
                            assert(has_feature(
                                before.available_features@,
                                self.passes@[i].pass.produced_spec()[k],
                            ));
                        }
                    }
                }
            }
            match next {
                PipelineState::Done => {
                    let r = Ok(());
                    assert(runs_from(self.passes@, place(from), before, *workspace, r));
                    return r;
                },
                PipelineState::Failed(e) => {
                    proof {
                        assert(runs_from(
                            self.passes@,
                            place(from),
                            before,
                            *workspace,
                            Err::<(), AnalysisError>(e),
                        ));
                        if checking {
                            let required = self.passes@[at as int].pass.required_spec();
                            let missing = first_missing(required, before.available_features@);
                            assert(required[missing] == required[missing]);
                            assert(required.contains(required[missing]));
                        }
                    }
                    return Err(e);
                },
                other => {
                    state = other;
                },
            }
        }
    }
}

/// The position of the pass that a state is about.
pub open spec fn place(state: PipelineState) -> int {
    match state {
        PipelineState::Checking(i) => i as int,
        PipelineState::Running(i) => i as int,
        _ => 0,
    }
}

/// What a step of the state machine means for the run as a whole: a step
/// that ends the run gives the outcome of the run from there, and every
/// outcome of the run from the state after a step that goes on is an
/// outcome of the run from the state before.
pub proof fn lemma_step_runs(
    passes: Seq<PassBox>,
    state: PipelineState,
    before: Workspace,
    now: Workspace,
    next: PipelineState,
)
    requires
        match state {
            PipelineState::Checking(i) => now == before && if i >= passes.len() {
                next@ == PipelineStateModel::Done
            } else {
                let required = passes[i as int].pass.required_spec();
                let missing = first_missing(required, before.available_features@);
                if missing < required.len() {
                    next@ == PipelineStateModel::Failed(
                        AnalysisErrorModel::MissingFeature {
                            pass: passes[i as int].pass.name_spec(),
                            feature: required[missing],
                        },
                    )
                } else {
                    next@ == PipelineStateModel::Running(i)
                }
            },
            PipelineState::Running(i) => i < passes.len() && first_missing(
                passes[i as int].pass.required_spec(),
                before.available_features@,
            ) >= passes[i as int].pass.required_spec().len() && match next {
                PipelineState::Checking(j) => j == i + 1 && exists|
                    ran: Workspace,
                    done: Result<(), AnalysisError>,
                |
                    {
                        &&& done is Ok
                        &&& #[trigger] passes[i as int].pass.run_spec(before, ran, done)
                        &&& with_features(&ran, &now, passes[i as int].pass.produced_spec())
                    },
                PipelineState::Failed(e) => passes[i as int].pass.run_spec(
                    before,
                    now,
                    Err::<(), AnalysisError>(e),
                ),
                _ => false,
            },
            _ => false,
        },
    ensures
        next is Done ==> forall|r: Result<(), AnalysisError>|
            r is Ok ==> #[trigger] runs_from(passes, place(state), before, now, r),
        next matches PipelineState::Failed(e) ==> runs_from(
            passes,
            place(state),
            before,
            now,
            Err::<(), AnalysisError>(e),
        ),
        next is Checking || next is Running ==> forall|
            after: Workspace,
            r: Result<(), AnalysisError>,
        | #[trigger]
            runs_from(passes, place(next), now, after, r) ==> runs_from(
                passes,
                place(state),
                before,
                after,
                r,
            ),
        next matches PipelineState::Running(i) ==> i < passes.len() && first_missing(
            passes[i as int].pass.required_spec(),
            now.available_features@,
        ) >= passes[i as int].pass.required_spec().len(),
{
    match state {
        PipelineState::Running(i) => {
            match next {
                PipelineState::Checking(j) => {
                    let (ran, done) = choose|ran: Workspace, done: Result<(), AnalysisError>|
                        {
                            &&& done is Ok
                            &&& #[trigger] passes[i as int].pass.run_spec(before, ran, done)
                            &&& with_features(&ran, &now, passes[i as int].pass.produced_spec())
                        };
                    assert forall|after: Workspace, r: Result<(), AnalysisError>| #[trigger]
                        runs_from(passes, place(next), now, after, r) implies runs_from(
                        passes,
                        place(state),
                        before,
                        after,
                        r,
                    ) by {
                        lemma_runs_on(passes, i as int, before, ran, done, now, after, r);
                    }
                },
                PipelineState::Failed(e) => {
                    lemma_runs_failed(passes, i as int, before, now, Err::<(), AnalysisError>(e));
                },
                _ => {},
            }
        },
        PipelineState::Checking(i) => {
            if i < passes.len() {
                lemma_first_missing(passes[i as int].pass.required_spec(), before.available_features@);
            }
        },
        _ => {},
    }
}

/// A workspace has grown from itself.
pub proof fn lemma_grows_self(a: &Workspace)
    ensures
        a.grows_from(a),
{
    lemma_extends_self(&a.properties);
}

/// Growth composes.
pub proof fn lemma_grows_trans(a: &Workspace, b: &Workspace, c: &Workspace)
    requires
        b.grows_from(a),
        c.grows_from(b),
    ensures
        c.grows_from(a),
{
    lemma_extends_trans(&a.properties, &b.properties, &c.properties);
    assert forall|name: Seq<char>| #[trigger]
        has_feature(a.available_features@, name) implies has_feature(
        c.available_features@,
        name,
    ) by {
        assert(has_feature(b.available_features@, name));
    }
}

} // verus!
