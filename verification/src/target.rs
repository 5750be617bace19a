//! The record kept for one compute target, and how pipeline observations
//! move it through its lifecycle.

use crate::bundle::BindBundle;
use crate::lifecycle::{LifecycleState, PipelineStatus, Program};
use vstd::prelude::*;

verus! {

/// The two pipeline handles of a target, as the pipeline cache returned them.
#[derive(Clone, Copy, Debug, PartialEq, Eq, Structural)]
pub struct PipelinePair {
    pub init: u64,
    pub update: u64,
}

/// The answer to one query of the pipeline cache: the status of the pipeline
/// of `program`.
#[derive(Clone, Copy, Debug, PartialEq, Eq, Structural)]
pub struct Observation {
    pub program: Program,
    pub status: PipelineStatus,
}

/// What the registry keeps for one surface.
#[derive(Clone, Copy, Debug, PartialEq, Eq, Structural)]
pub struct TargetRecord {
    /// The current bind bundle; replaced whenever the surface is supplied again.
    pub bundle: BindBundle,
    /// The pipeline handles; set when the record is created and never changed.
    pub pipelines: PipelinePair,
    /// The lifecycle state.
    pub state: LifecycleState,
    /// The program whose compilation failed, if one did. A target with a
    /// failure is neither queried nor dispatched again.
    pub failure: Option<Program>,
}

impl PipelinePair {
    /// The handle of the pipeline of `program`.
    pub open spec fn spec_handle(self, program: Program) -> u64 {
        match program {
            Program::Init => self.init,
            Program::Update => self.update,
        }
    }

    /// The handle of the pipeline of `program`.
    pub fn handle(&self, program: Program) -> (handle: u64)
        ensures
            handle == self.spec_handle(program),
    {
        match program {
            Program::Init => self.init,
            Program::Update => self.update,
        }
    }
}

impl TargetRecord {
    /// The record of a surface seen for the first time.
    pub open spec fn spec_fresh(bundle: BindBundle, pipelines: PipelinePair) -> TargetRecord {
        TargetRecord { bundle, pipelines, state: LifecycleState::Loading, failure: None }
    }

    /// This record with its bundle replaced.
    pub open spec fn spec_with_bundle(self, bundle: BindBundle) -> TargetRecord {
        TargetRecord { bundle, ..self }
    }

    /// The program whose pipeline is to be queried for this target, if any.
    pub open spec fn spec_awaited(self) -> Option<Program> {
        if self.failure is Some {
            None
        } else {
            self.state.spec_awaited()
        }
    }

    /// The program to dispatch for this target, if any.
    pub open spec fn spec_selected(self) -> Option<Program> {
        if self.failure is Some {
            None
        } else {
            self.state.spec_runs()
        }
    }

    /// The record after one observation. An observation of a program that the
    /// target does not wait for changes nothing.
    pub open spec fn spec_advance(self, seen: Observation) -> TargetRecord {
        if self.spec_awaited() == Some(seen.program) {
            match seen.status {
                PipelineStatus::Pending => self,
                PipelineStatus::Ready => TargetRecord {
                    state: self.state.spec_successor(),
                    ..self
                },
                PipelineStatus::Failed => TargetRecord { failure: Some(seen.program), ..self },
            }
        } else {
            self
        }
    }

    /// The record after the observations of `trace`, in order.
    pub open spec fn spec_run(self, trace: Seq<Observation>) -> TargetRecord
        decreases trace.len(),
    {
        if trace.len() == 0 {
            self
        } else {
            self.spec_run(trace.drop_last()).spec_advance(trace.last())
        }
    }

    /// The record of a surface seen for the first time: it is loading, nothing
    /// has failed, and it keeps the handles it is given.
    pub fn fresh(bundle: BindBundle, pipelines: PipelinePair) -> (record: TargetRecord)
        ensures
            record == Self::spec_fresh(bundle, pipelines),
    {
        TargetRecord { bundle, pipelines, state: LifecycleState::Loading, failure: None }
    }

    /// This record with a refreshed bundle. Handles, state and failure stay.
    pub fn with_bundle(&self, bundle: BindBundle) -> (record: TargetRecord)
        ensures
            record == self.spec_with_bundle(bundle),
    {
        TargetRecord {
            bundle,
            pipelines: self.pipelines,
            state: self.state,
            failure: self.failure,
        }
    }

    /// Whether a compilation of this target has failed.
    pub fn has_failed(&self) -> (failed: bool)
        ensures
            failed == (self.failure is Some),
    {
        self.failure.is_some()
    }

    /// The program whose pipeline is to be queried for this target: the one
    /// its state waits for, and none once a compilation has failed.
    pub fn awaited(&self) -> (program: Option<Program>)
        ensures
            program == self.spec_awaited(),
    {
        if self.failure.is_some() {
            None
        } else {
            self.state.awaited()
        }
    }

    /// The program to dispatch for this target: the one that runs in its
    /// state, and none once a compilation has failed.
    pub fn selected(&self) -> (program: Option<Program>)
        ensures
            program == self.spec_selected(),
    {
        if self.failure.is_some() {
            None
        } else {
            self.state.runs()
        }
    }

    /// Applies one observation. Only an observation of the awaited program
    /// counts: `Ready` moves the state one step on, `Failed` marks the target
    /// as failed, `Pending` leaves it as it is. The state never moves back, and
    /// the bundle and the handles are kept.
    pub fn advance(&self, seen: Observation) -> (record: TargetRecord)
        ensures
            record == self.spec_advance(seen),
            record.state.rank() >= self.state.rank(),
            record.bundle == self.bundle,
            record.pipelines == self.pipelines,
    {
        match self.awaited() {
            Some(program) => {
                if program == seen.program {
                    match seen.status {
                        PipelineStatus::Pending => *self,
                        PipelineStatus::Ready => TargetRecord {
                            bundle: self.bundle,
                            pipelines: self.pipelines,
                            state: self.state.successor(),
                            failure: self.failure,
                        },
                        PipelineStatus::Failed => TargetRecord {
                            bundle: self.bundle,
                            pipelines: self.pipelines,
                            state: self.state,
                            failure: Some(seen.program),
                        },
                    }
                } else {
                    *self
                }
            },
            None => *self,
        }
    }
}

impl Program {
    /// The rank of the state that waits for this program.
    pub open spec fn stage(self) -> nat {
        match self {
            Program::Init => 0,
            Program::Update => 1,
        }
    }
}

/// At step `i` of `trace`, the target that started as `start` was waiting for
/// `program`, and the pipeline of `program` was reported ready.
pub open spec fn ready_at(
    start: TargetRecord,
    trace: Seq<Observation>,
    program: Program,
    i: int,
) -> bool {
    &&& 0 <= i < trace.len()
    &&& trace[i] == Observation { program, status: PipelineStatus::Ready }
    &&& start.spec_run(trace.take(i)).spec_awaited() == Some(program)
}

/// Running a trace in two parts gives what running it whole gives.
pub proof fn lemma_run_concat(start: TargetRecord, head: Seq<Observation>, tail: Seq<Observation>)
    ensures
        start.spec_run(head + tail) == start.spec_run(head).spec_run(tail),
    decreases tail.len(),
{
    if tail.len() == 0 {
        assert(head + tail =~= head);
    } else {
        assert((head + tail).drop_last() =~= head + tail.drop_last());
        lemma_run_concat(start, head, tail.drop_last());
    }
}

/// The lifecycle state is monotonic: whatever is observed, the state never
/// moves back, and a target in `Update` stays there. The handles and the
/// bundle are not touched by observations.
pub proof fn lemma_state_never_reverts(start: TargetRecord, trace: Seq<Observation>)
    ensures
        start.spec_run(trace).state.rank() >= start.state.rank(),
        start.state == LifecycleState::Update ==> start.spec_run(trace).state
            == LifecycleState::Update,
        start.spec_run(trace).pipelines == start.pipelines,
        start.spec_run(trace).bundle == start.bundle,
    decreases trace.len(),
{
    if trace.len() > 0 {
        lemma_state_never_reverts(start, trace.drop_last());
    }
}

/// A failure is permanent: once a compilation has failed, no observation
/// changes the record, the target is never selected for dispatch, and none of
/// its pipelines is queried again.
pub proof fn lemma_failure_is_permanent(start: TargetRecord, trace: Seq<Observation>)
    requires
        start.failure is Some,
    ensures
        start.spec_run(trace) == start,
        start.spec_run(trace).spec_selected() is None,
        start.spec_run(trace).spec_awaited() is None,
    decreases trace.len(),
{
    if trace.len() > 0 {
        lemma_failure_is_permanent(start, trace.drop_last());
    }
}

/// A failed status for the awaited program takes the target out for good:
/// whatever is observed afterwards, it is not selected for dispatch and its
/// pipelines are not queried.
pub proof fn lemma_failed_status_excludes(
    start: TargetRecord,
    program: Program,
    later: Seq<Observation>,
)
    requires
        start.spec_awaited() == Some(program),
    ensures
        ({
            let failed = start.spec_advance(
                Observation { program, status: PipelineStatus::Failed },
            );
            &&& failed.failure == Some(program)
            &&& failed.spec_run(later) == failed
            &&& failed.spec_run(later).spec_selected() is None
            &&& failed.spec_run(later).spec_awaited() is None
        }),
{
    let failed = start.spec_advance(Observation { program, status: PipelineStatus::Failed });
    lemma_failure_is_permanent(failed, later);
}

/// If a run takes a target past the state that waits for `program`, then at
/// some step the target was waiting for `program` and saw it ready.
pub proof fn lemma_stage_passed_by_ready(
    start: TargetRecord,
    trace: Seq<Observation>,
    program: Program,
)
    requires
        start.state.rank() <= program.stage(),
        program.stage() < start.spec_run(trace).state.rank(),
    ensures
        exists|i: int| ready_at(start, trace, program, i),
    decreases trace.len(),
{
    if trace.len() > 0 {
        let shorter = trace.drop_last();
        let before = start.spec_run(shorter);
        if program.stage() < before.state.rank() {
            lemma_stage_passed_by_ready(start, shorter, program);
            let i = choose|i: int| ready_at(start, shorter, program, i);
            assert(trace.take(i) =~= shorter.take(i));
            assert(ready_at(start, trace, program, i));
        } else {
            let i = trace.len() - 1;
            assert(trace.take(i) =~= shorter);
            assert(ready_at(start, trace, program, i));
        }
    }
}

/// No dispatch without a ready pipeline: if, after any run of observations, a
/// target that started fresh is selected to run `program`, then at some step
/// of the run it was waiting for `program` and the pipeline of `program` was
/// reported ready.
pub proof fn lemma_dispatch_needs_ready(
    bundle: BindBundle,
    pipelines: PipelinePair,
    trace: Seq<Observation>,
    program: Program,
)
    requires
        TargetRecord::spec_fresh(bundle, pipelines).spec_run(trace).spec_selected() == Some(
            program,
        ),
    ensures
        exists|i: int| ready_at(TargetRecord::spec_fresh(bundle, pipelines), trace, program, i),
{
    lemma_stage_passed_by_ready(TargetRecord::spec_fresh(bundle, pipelines), trace, program);
}

/// A fresh target is loading; one ready init program takes it to `Init`, and
/// one ready update program from there to `Update`.
pub proof fn lemma_two_ready_reach_update(bundle: BindBundle, pipelines: PipelinePair)
    ensures
        ({
            let fresh = TargetRecord::spec_fresh(bundle, pipelines);
            let first = fresh.spec_advance(
                Observation { program: Program::Init, status: PipelineStatus::Ready },
            );
            let second = first.spec_advance(
                Observation { program: Program::Update, status: PipelineStatus::Ready },
            );
            &&& fresh.state == LifecycleState::Loading
            &&& first.state == LifecycleState::Init
            &&& second.state == LifecycleState::Update
        }),
{
}

/// A target that started fresh reaches `Update` only through two ready
/// observations: first of the init program, later of the update program, each
/// made while the target was waiting for that program.
pub proof fn lemma_update_needs_two_ready(
    bundle: BindBundle,
    pipelines: PipelinePair,
    trace: Seq<Observation>,
)
    requires
        TargetRecord::spec_fresh(bundle, pipelines).spec_run(trace).state
            == LifecycleState::Update,
    ensures
        exists|i: int, j: int|
            i < j && ready_at(
                TargetRecord::spec_fresh(bundle, pipelines),
                trace,
                Program::Init,
                i,
            ) && ready_at(TargetRecord::spec_fresh(bundle, pipelines), trace, Program::Update, j),
{
    let fresh = TargetRecord::spec_fresh(bundle, pipelines);
    lemma_stage_passed_by_ready(fresh, trace, Program::Init);
    lemma_stage_passed_by_ready(fresh, trace, Program::Update);
    let i = choose|i: int| ready_at(fresh, trace, Program::Init, i);
    let j = choose|j: int| ready_at(fresh, trace, Program::Update, j);
    if j <= i {
        let head = trace.take(j);
        let tail = trace.subrange(j, i);
        assert(trace.take(i) =~= head + tail);
        lemma_run_concat(fresh, head, tail);
        lemma_state_never_reverts(fresh.spec_run(head), tail);
        assert(false);
    }
    assert(i < j && ready_at(fresh, trace, Program::Init, i) && ready_at(
        fresh,
        trace,
        Program::Update,
        j,
    ));
}

} // verus!
