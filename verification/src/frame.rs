//! One frame of the orchestrator: which pipelines to query, how the answers
//! advance the targets, and which dispatches follow.
//!
//! The caller owns the pipeline cache and the device. Per frame it asks for
//! the queries to make, makes them, and hands the answers to `run_frame`,
//! which first advances every target and then plans the dispatches from a
//! snapshot of the advanced registry. A transition that becomes possible in a
//! frame is therefore seen by that frame's dispatch.

use crate::bundle::BindBundle;
use crate::dispatch::{plan_dispatch, spec_plan, DispatchCommand};
use crate::grid::Grid;
use crate::lifecycle::{LifecycleState, PipelineStatus, Program};
use crate::registry::{lists_targets, Registry, TargetEntry};
use crate::target::{lemma_run_concat, lemma_state_never_reverts, Observation, PipelinePair, TargetRecord};
use vstd::prelude::*;

verus! {

/// A query to make: the status of `pipeline`, which is the pipeline of
/// `program` for the target of `surface`.
#[derive(Clone, Copy, Debug, PartialEq, Eq, Structural)]
pub struct PollRequest {
    pub surface: u64,
    pub program: Program,
    pub pipeline: u64,
}

/// The answer to a query.
#[derive(Clone, Copy, Debug, PartialEq, Eq, Structural)]
pub struct PollResult {
    pub surface: u64,
    pub program: Program,
    pub status: PipelineStatus,
}

/// A compilation failure to be reported: the surface and the program whose
/// pipeline failed.
#[derive(Clone, Copy, Debug, PartialEq, Eq, Structural)]
pub struct FailureReport {
    pub surface: u64,
    pub program: Program,
}

/// What one frame produced.
#[derive(Debug)]
pub struct FrameOutcome {
    /// The targets as they were dispatched from.
    pub snapshot: Vec<TargetEntry>,
    /// The dispatches of this frame, in the order of the snapshot.
    pub commands: Vec<DispatchCommand>,
    /// The compilations that were found failed in this frame.
    pub failures: Vec<FailureReport>,
}

/// The query that a target asks for, if it asks for one: the pipeline of the
/// program it is waiting for.
pub open spec fn spec_request(entry: TargetEntry) -> Option<PollRequest> {
    match entry.record.spec_awaited() {
        Some(program) => Some(
            PollRequest {
                surface: entry.surface,
                program,
                pipeline: entry.record.pipelines.spec_handle(program),
            },
        ),
        None => None,
    }
}

/// The queries for a snapshot: one for each target that waits for a program,
/// in the order of the snapshot.
pub open spec fn spec_requests(entries: Seq<TargetEntry>) -> Seq<PollRequest>
    decreases entries.len(),
{
    if entries.len() == 0 {
        Seq::empty()
    } else {
        let earlier = spec_requests(entries.drop_last());
        match spec_request(entries.last()) {
            Some(request) => earlier.push(request),
            None => earlier,
        }
    }
}

/// The status that `results` holds for the pipeline of `program` of
/// `surface`: that of the first matching result, and `Pending` where none
/// matches.
pub open spec fn spec_status_for(
    results: Seq<PollResult>,
    surface: u64,
    program: Program,
) -> PipelineStatus
    decreases results.len(),
{
    if results.len() == 0 {
        PipelineStatus::Pending
    } else if results[0].surface == surface && results[0].program == program {
        results[0].status
    } else {
        spec_status_for(results.drop_first(), surface, program)
    }
}

/// The record of `surface` after the frame's results: advanced by what was
/// observed of the program it was waiting for, and unchanged if it was
/// waiting for none.
pub open spec fn spec_frame_record(
    record: TargetRecord,
    surface: u64,
    results: Seq<PollResult>,
) -> TargetRecord {
    match record.spec_awaited() {
        Some(program) => record.spec_advance(
            Observation { program, status: spec_status_for(results, surface, program) },
        ),
        None => record,
    }
}

/// The targets after the frame's results: the same surfaces, each record
/// advanced by its own result.
pub open spec fn spec_advance_targets(
    targets: Map<u64, TargetRecord>,
    results: Seq<PollResult>,
) -> Map<u64, TargetRecord> {
    Map::new(
        |surface: u64| targets.contains_key(surface),
        |surface: u64| spec_frame_record(targets[surface], surface, results),
    )
}

/// `reports` names exactly the targets that had no failure in `before` and
/// have one in `after`, each once, with the program that failed.
pub open spec fn reports_failures(
    reports: Seq<FailureReport>,
    before: Map<u64, TargetRecord>,
    after: Map<u64, TargetRecord>,
) -> bool {
    &&& forall|i: int, j: int|
        0 <= i < j < reports.len() ==> reports[i].surface != reports[j].surface
    &&& forall|i: int|
        0 <= i < reports.len() ==> {
            &&& before.contains_key(#[trigger] reports[i].surface)
            &&& before[reports[i].surface].failure is None
            &&& after[reports[i].surface].failure == Some(reports[i].program)
        }
    &&& forall|surface: u64|
        #![trigger before.contains_key(surface)]
        before.contains_key(surface) && before[surface].failure is None
            && after[surface].failure is Some ==> exists|i: int|
            0 <= i < reports.len() && reports[i].surface == surface
}

/// The queries to make for a snapshot: for each target that waits for a
/// program, the pipeline of that program. Targets in their last state and
/// failed targets are not queried.
pub fn poll_requests(entries: &Vec<TargetEntry>) -> (requests: Vec<PollRequest>)
    ensures
        requests@ == spec_requests(entries@),
{
    let mut requests: Vec<PollRequest> = Vec::new();
    let mut i: usize = 0;
    while i < entries.len()
        invariant
            i <= entries.len(),
            requests@ == spec_requests(entries@.take(i as int)),
        decreases entries.len() - i,
    {
        let entry = entries[i];
        proof {
            assert(entries@.take(i + 1).drop_last() =~= entries@.take(i as int));
        }
        match entry.record.awaited() {
            Some(program) => {
                requests.push(
                    PollRequest {
                        surface: entry.surface,
                        program,
                        pipeline: entry.record.pipelines.handle(program),
                    },
                );
            },
            None => {},
        }
        i += 1;
    }
    proof {
        assert(entries@.take(entries@.len() as int) =~= entries@);
    }
    requests
}

/// Looks up the status reported for the pipeline of `program` of `surface`.
/// The first matching result counts; without one the pipeline counts as
/// pending.
pub fn status_for(results: &Vec<PollResult>, surface: u64, program: Program) -> (status:
    PipelineStatus)
    ensures
        status == spec_status_for(results@, surface, program),
{
    let mut i: usize = 0;
    proof {
        assert(results@.skip(0) =~= results@);
    }
    while i < results.len()
        invariant
            i <= results.len(),
            spec_status_for(results@, surface, program) == spec_status_for(
                results@.skip(i as int),
                surface,
                program,
            ),
        decreases results.len() - i,
    {
        let result = results[i];
        proof {
            assert(results@.skip(i as int).drop_first() =~= results@.skip(i + 1));
        }
        if result.surface == surface && result.program == program {
            return result.status;
        }
        i += 1;
    }
    PipelineStatus::Pending
}

/// Advances every target of the registry by the frame's results, one step at
/// most: a target that waits for a program takes the status reported for that
/// program's pipeline. Returns the failures found in this frame.
pub fn advance_targets(registry: &mut Registry, results: &Vec<PollResult>) -> (failures: Vec<
    FailureReport,
>)
    ensures
        final(registry)@ == spec_advance_targets(old(registry)@, results@),
        reports_failures(failures@, old(registry)@, final(registry)@),
{
    let ghost before = registry@;
    let ids = registry.surfaces();
    let mut failures: Vec<FailureReport> = Vec::new();
    let ghost mut origin: Seq<int> = Seq::empty();
    let mut i: usize = 0;
    while i < ids.len()
        invariant
            i <= ids.len(),
            ids@.no_duplicates(),
            ids@.to_set() == before.dom(),
            registry@.dom() == before.dom(),
            forall|j: int|
                0 <= j < i ==> registry@[#[trigger] ids@[j]] == spec_frame_record(
                    before[ids@[j]],
                    ids@[j],
                    results@,
                ),
            forall|j: int| i <= j < ids@.len() ==> registry@[#[trigger] ids@[j]] == before[ids@[j]],
            origin.len() == failures@.len(),
            forall|k: int|
                0 <= k < origin.len() ==> 0 <= #[trigger] origin[k] < i && failures@[k].surface
                    == ids@[origin[k]],
            forall|k: int, l: int| 0 <= k < l < origin.len() ==> origin[k] < origin[l],
            forall|k: int|
                0 <= k < failures@.len() ==> before[(#[trigger] failures@[k]).surface].failure
                    is None && spec_frame_record(
                    before[failures@[k].surface],
                    failures@[k].surface,
                    results@,
                ).failure == Some(failures@[k].program),
            forall|j: int|
                0 <= j < i && before[#[trigger] ids@[j]].failure is None && spec_frame_record(
                    before[ids@[j]],
                    ids@[j],
                    results@,
                ).failure is Some ==> exists|k: int|
                    0 <= k < failures@.len() && failures@[k].surface == ids@[j],
        decreases ids.len() - i,
    {
        let surface = ids[i];
        assert(ids@.to_set().contains(ids@[i as int]));
        let ghost reported = failures@;
        match registry.get(surface) {
            Some(record) => {
                match record.awaited() {
                    Some(program) => {
                        let status = status_for(results, surface, program);
                        registry.observe(surface, Observation { program, status });
                        match status {
                            PipelineStatus::Failed => {
                                failures.push(FailureReport { surface, program });
                                proof {
                                    origin = origin.push(i as int);
                                }
                            },
                            _ => {},
                        }
                    },
                    None => {},
                }
            },
            None => {
                assert(false);
            },
        }
        proof {
            assert forall|j: int| 0 <= j < i + 1 implies registry@[#[trigger] ids@[j]]
                == spec_frame_record(before[ids@[j]], ids@[j], results@) by {
                if j < i {
                    assert(ids@[j] != ids@[i as int]);
                }
            }
            assert forall|j: int| i + 1 <= j < ids@.len() implies registry@[#[trigger] ids@[j]]
                == before[ids@[j]] by {
                assert(ids@[j] != ids@[i as int]);
            }
            assert forall|j: int|
                0 <= j < i + 1 && before[#[trigger] ids@[j]].failure is None && spec_frame_record(
                    before[ids@[j]],
                    ids@[j],
                    results@,
                ).failure is Some implies exists|k: int|
                0 <= k < failures@.len() && failures@[k].surface == ids@[j] by {
                if j < i {
                    let k = choose|k: int| 0 <= k < reported.len() && reported[k].surface == ids@[j];
                    assert(failures@[k].surface == ids@[j]);
                } else {
                    let k = failures@.len() - 1;
                    assert(failures@[k].surface == ids@[j]);
                }
            }
        }
        i += 1;
    }
    proof {
        let after = registry@;
        assert forall|surface: u64| after.contains_key(surface) implies #[trigger] after[surface]
            == spec_frame_record(before[surface], surface, results@) by {
            let j = choose|j: int| 0 <= j < ids@.len() && ids@[j] == surface;
            assert(after[ids@[j]] == spec_frame_record(before[ids@[j]], ids@[j], results@));
        }
        assert(after =~= spec_advance_targets(before, results@));
        assert forall|k: int, l: int| 0 <= k < l < failures@.len() implies failures@[k].surface
            != failures@[l].surface by {
            assert(origin[k] < origin[l]);
        }
        assert forall|k: int| 0 <= k < failures@.len() implies {
            &&& before.contains_key(#[trigger] failures@[k].surface)
            &&& before[failures@[k].surface].failure is None
            &&& after[failures@[k].surface].failure == Some(failures@[k].program)
        } by {
            assert(ids@.to_set().contains(ids@[origin[k]]));
        }
        assert forall|surface: u64|
            #![trigger before.contains_key(surface)]
            before.contains_key(surface) && before[surface].failure is None
                && after[surface].failure is Some implies exists|k: int|
            0 <= k < failures@.len() && failures@[k].surface == surface by {
            let j = choose|j: int| 0 <= j < ids@.len() && ids@[j] == surface;
            assert(before[ids@[j]].failure is None);
        }
    }
    failures
}

/// Runs one frame. Every target is advanced by the results first; then the
/// registry is copied into a snapshot, and the dispatches are planned from
/// that snapshot. The failures found in this frame are returned with them.
pub fn run_frame(registry: &mut Registry, results: &Vec<PollResult>, grid: &Grid) -> (outcome:
    FrameOutcome)
    ensures
        final(registry)@ == spec_advance_targets(old(registry)@, results@),
        lists_targets(outcome.snapshot@, final(registry)@),
        outcome.snapshot@.len() == final(registry)@.len(),
        outcome.commands@ == spec_plan(outcome.snapshot@, *grid),
        reports_failures(outcome.failures@, old(registry)@, final(registry)@),
{
    let failures = advance_targets(registry, results);
    let snapshot = registry.all();
    let commands = plan_dispatch(&snapshot, grid);
    FrameOutcome { snapshot, commands, failures }
}

/// What a target observes in one frame: the status reported for the program
/// it is waiting for, and nothing if it is waiting for none.
pub open spec fn spec_frame_trace(
    record: TargetRecord,
    surface: u64,
    results: Seq<PollResult>,
) -> Seq<Observation> {
    match record.spec_awaited() {
        Some(program) => seq![
            Observation { program, status: spec_status_for(results, surface, program) },
        ],
        None => Seq::empty(),
    }
}

/// The record of `surface` after the frames whose results are `frames`, in
/// order.
pub open spec fn spec_after_frames(
    record: TargetRecord,
    surface: u64,
    frames: Seq<Seq<PollResult>>,
) -> TargetRecord
    decreases frames.len(),
{
    if frames.len() == 0 {
        record
    } else {
        spec_frame_record(
            spec_after_frames(record, surface, frames.drop_last()),
            surface,
            frames.last(),
        )
    }
}

/// All that a target observes over the frames whose results are `frames`.
pub open spec fn spec_frames_trace(
    record: TargetRecord,
    surface: u64,
    frames: Seq<Seq<PollResult>>,
) -> Seq<Observation>
    decreases frames.len(),
{
    if frames.len() == 0 {
        Seq::empty()
    } else {
        spec_frames_trace(record, surface, frames.drop_last()) + spec_frame_trace(
            spec_after_frames(record, surface, frames.drop_last()),
            surface,
            frames.last(),
        )
    }
}

/// Frames are runs of observations: what any number of frames make of a
/// record is what the observations made in those frames make of it, one
/// observation per frame at most. So whatever holds of every run holds of
/// every sequence of frames.
pub proof fn lemma_frames_are_runs(
    record: TargetRecord,
    surface: u64,
    frames: Seq<Seq<PollResult>>,
)
    ensures
        spec_after_frames(record, surface, frames) == record.spec_run(
            spec_frames_trace(record, surface, frames),
        ),
        spec_frames_trace(record, surface, frames).len() <= frames.len(),
    decreases frames.len(),
{
    if frames.len() > 0 {
        let earlier = frames.drop_last();
        lemma_frames_are_runs(record, surface, earlier);
        let before = spec_after_frames(record, surface, earlier);
        let head = spec_frames_trace(record, surface, earlier);
        let tail = spec_frame_trace(before, surface, frames.last());
        lemma_run_concat(record, head, tail);
        if tail.len() > 0 {
            assert(tail.drop_last() =~= Seq::<Observation>::empty());
            assert(before.spec_run(Seq::<Observation>::empty()) == before);
        }
    }
}

/// Over any number of frames the state of a target never moves back, a
/// target in `Update` stays there, and its handles and its bundle are not
/// touched by the frames.
pub proof fn lemma_frames_never_revert(
    record: TargetRecord,
    surface: u64,
    frames: Seq<Seq<PollResult>>,
)
    ensures
        spec_after_frames(record, surface, frames).state.rank() >= record.state.rank(),
        record.state == LifecycleState::Update ==> spec_after_frames(
            record,
            surface,
            frames,
        ).state == LifecycleState::Update,
        spec_after_frames(record, surface, frames).pipelines == record.pipelines,
        spec_after_frames(record, surface, frames).bundle == record.bundle,
{
    lemma_frames_are_runs(record, surface, frames);
    lemma_state_never_reverts(
        record,
        spec_frames_trace(record, surface, frames),
    );
}

/// In frame `f` of `frames`, the target of `surface` that started as `start`
/// was waiting for `program`, and the frame's results reported the pipeline
/// of `program` ready.
pub open spec fn ready_in_frame(
    start: TargetRecord,
    surface: u64,
    frames: Seq<Seq<PollResult>>,
    program: Program,
    f: int,
) -> bool {
    &&& 0 <= f < frames.len()
    &&& spec_after_frames(start, surface, frames.take(f)).spec_awaited() == Some(program)
    &&& spec_status_for(frames[f], surface, program) == PipelineStatus::Ready
}

/// If the frames take a target past the state that waits for `program`, then
/// in one of them the target was waiting for `program` and its pipeline was
/// reported ready.
pub proof fn lemma_frames_pass_stage_by_ready(
    start: TargetRecord,
    surface: u64,
    frames: Seq<Seq<PollResult>>,
    program: Program,
)
    requires
        start.state.rank() <= program.stage(),
        program.stage() < spec_after_frames(start, surface, frames).state.rank(),
    ensures
        exists|f: int| ready_in_frame(start, surface, frames, program, f),
    decreases frames.len(),
{
    if frames.len() > 0 {
        let earlier = frames.drop_last();
        let before = spec_after_frames(start, surface, earlier);
        if program.stage() < before.state.rank() {
            lemma_frames_pass_stage_by_ready(start, surface, earlier, program);
            let f = choose|f: int| ready_in_frame(start, surface, earlier, program, f);
            assert(frames.take(f) =~= earlier.take(f));
            assert(ready_in_frame(start, surface, frames, program, f));
        } else {
            let f = frames.len() - 1;
            assert(frames.take(f) =~= earlier);
            assert(ready_in_frame(start, surface, frames, program, f));
        }
    }
}

/// No dispatch without a ready pipeline, frame by frame: if, after any number
/// of frames, a target that started fresh is selected to run `program`, then
/// in one of those frames the target was waiting for `program` and the
/// results reported the pipeline of `program` ready.
pub proof fn lemma_frame_dispatch_needs_ready(
    bundle: BindBundle,
    pipelines: PipelinePair,
    surface: u64,
    frames: Seq<Seq<PollResult>>,
    program: Program,
)
    requires
        spec_after_frames(
            TargetRecord::spec_fresh(bundle, pipelines),
            surface,
            frames,
        ).spec_selected() == Some(program),
    ensures
        exists|f: int|
            ready_in_frame(TargetRecord::spec_fresh(bundle, pipelines), surface, frames, program, f),
{
    lemma_frames_pass_stage_by_ready(
        TargetRecord::spec_fresh(bundle, pipelines),
        surface,
        frames,
        program,
    );
}

/// A frame keeps every surface and never moves a target back: after the
/// frame's results each target is in its old state or the next one, with the
/// handles and the bundle it had.
pub proof fn lemma_frame_keeps_order(
    targets: Map<u64, TargetRecord>,
    results: Seq<PollResult>,
    surface: u64,
)
    requires
        targets.contains_key(surface),
    ensures
        spec_advance_targets(targets, results).dom() == targets.dom(),
        spec_advance_targets(targets, results)[surface].state.rank()
            >= targets[surface].state.rank(),
        spec_advance_targets(targets, results)[surface].state.rank()
            <= targets[surface].state.rank() + 1,
        spec_advance_targets(targets, results)[surface].pipelines == targets[surface].pipelines,
        spec_advance_targets(targets, results)[surface].bundle == targets[surface].bundle,
{
}

} // verus!
