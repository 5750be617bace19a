//! What holds of a registry over its whole life.
//!
//! A registry starts empty and changes only through its own operations and
//! through frames. This module names those changes as events, defines the
//! targets that a sequence of events leaves, and proves what holds after
//! every such sequence: states never move back, handles never change, a
//! failure is permanent, and a target is only ever selected for a program
//! whose pipeline was reported ready while the target was waiting for it.

use crate::bundle::BindBundle;
use crate::frame::{spec_advance_targets, spec_status_for, PollResult};
use crate::lifecycle::{LifecycleState, PipelineStatus, Program};
use crate::registry::{spec_observe, spec_refresh, spec_upsert};
use crate::target::{Observation, PipelinePair, TargetRecord};
use vstd::prelude::*;

verus! {

/// One change of a registry.
pub enum Event {
    /// `Registry::upsert`.
    Supply { surface: u64, bundle: BindBundle, fresh: PipelinePair },
    /// `Registry::refresh`.
    Refresh { surface: u64, bundle: BindBundle },
    /// `Registry::observe`.
    Observe { surface: u64, seen: Observation },
    /// `advance_targets`, also as the first half of `run_frame`.
    Frame { results: Seq<PollResult> },
}

/// The targets after one event.
pub open spec fn spec_apply(targets: Map<u64, TargetRecord>, event: Event) -> Map<
    u64,
    TargetRecord,
> {
    match event {
        Event::Supply { surface, bundle, fresh } => spec_upsert(targets, surface, bundle, fresh),
        Event::Refresh { surface, bundle } => spec_refresh(targets, surface, bundle),
        Event::Observe { surface, seen } => spec_observe(targets, surface, seen),
        Event::Frame { results } => spec_advance_targets(targets, results),
    }
}

/// The targets of a registry that started empty and went through `events`.
pub open spec fn spec_history(events: Seq<Event>) -> Map<u64, TargetRecord>
    decreases events.len(),
{
    if events.len() == 0 {
        Map::empty()
    } else {
        spec_apply(spec_history(events.drop_last()), events.last())
    }
}

/// `event` reports the pipeline of `program` of `surface` ready, to a target
/// that is waiting for it.
pub open spec fn reports_ready(
    targets: Map<u64, TargetRecord>,
    event: Event,
    surface: u64,
    program: Program,
) -> bool {
    &&& targets.contains_key(surface)
    &&& targets[surface].spec_awaited() == Some(program)
    &&& match event {
        Event::Observe { surface: observed, seen } => observed == surface && seen
            == Observation { program, status: PipelineStatus::Ready },
        Event::Frame { results } => spec_status_for(results, surface, program)
            == PipelineStatus::Ready,
        _ => false,
    }
}

/// Event `k` of `events` reports the pipeline of `program` of `surface`
/// ready, to a target that is waiting for it.
pub open spec fn ready_at_event(events: Seq<Event>, surface: u64, program: Program, k: int) -> bool {
    &&& 0 <= k < events.len()
    &&& reports_ready(spec_history(events.take(k)), events[k], surface, program)
}

/// One event keeps every target, never moves a state back nor more than one
/// step on, never changes a handle, and never lifts a failure.
pub proof fn lemma_event_keeps_order(targets: Map<u64, TargetRecord>, event: Event, surface: u64)
    requires
        targets.contains_key(surface),
    ensures
        spec_apply(targets, event).contains_key(surface),
        spec_apply(targets, event)[surface].state.rank() >= targets[surface].state.rank(),
        spec_apply(targets, event)[surface].state.rank() <= targets[surface].state.rank() + 1,
        spec_apply(targets, event)[surface].pipelines == targets[surface].pipelines,
        targets[surface].failure is Some ==> spec_apply(targets, event)[surface].failure
            == targets[surface].failure && spec_apply(targets, event)[surface].state
            == targets[surface].state,
        spec_apply(targets, event)[surface].state.rank() > targets[surface].state.rank() ==> {
            &&& targets[surface].spec_awaited() is Some
            &&& reports_ready(targets, event, surface, targets[surface].spec_awaited()->0)
        },
{
}

/// Only a supply adds a target, and it adds it loading.
pub proof fn lemma_event_adds_loading(targets: Map<u64, TargetRecord>, event: Event, surface: u64)
    requires
        !targets.contains_key(surface),
        spec_apply(targets, event).contains_key(surface),
    ensures
        event is Supply,
        spec_apply(targets, event)[surface].state == LifecycleState::Loading,
        spec_apply(targets, event)[surface].failure is None,
{
}

/// The lifecycle state is monotonic over the whole life of a registry: a
/// target that exists after the first `k` events exists ever after, its state
/// never moves back, a target in `Update` stays there, its handles are those
/// it was created with, and a failure, once marked, stays.
pub proof fn lemma_history_never_reverts(events: Seq<Event>, k: int, surface: u64)
    requires
        0 <= k <= events.len(),
        spec_history(events.take(k)).contains_key(surface),
    ensures
        spec_history(events).contains_key(surface),
        spec_history(events)[surface].state.rank() >= spec_history(
            events.take(k),
        )[surface].state.rank(),
        spec_history(events.take(k))[surface].state == LifecycleState::Update ==> spec_history(
            events,
        )[surface].state == LifecycleState::Update,
        spec_history(events)[surface].pipelines == spec_history(events.take(k))[surface].pipelines,
        spec_history(events.take(k))[surface].failure is Some ==> {
            &&& spec_history(events)[surface].failure == spec_history(
                events.take(k),
            )[surface].failure
            &&& spec_history(events)[surface].spec_selected() is None
            &&& spec_history(events)[surface].spec_awaited() is None
        },
    decreases events.len() - k,
{
    if k == events.len() {
        assert(events.take(k) =~= events);
    } else {
        let shorter = events.drop_last();
        assert(shorter.take(k) =~= events.take(k));
        lemma_history_never_reverts(shorter, k, surface);
        lemma_event_keeps_order(spec_history(shorter), events.last(), surface);
    }
}

/// A target that is past the state that waits for `program` got there by a
/// report that the pipeline of `program` was ready, made while it waited.
pub proof fn lemma_history_stage_passed_by_ready(
    events: Seq<Event>,
    surface: u64,
    program: Program,
)
    requires
        spec_history(events).contains_key(surface),
        spec_history(events)[surface].state.rank() > program.stage(),
    ensures
        exists|k: int| ready_at_event(events, surface, program, k),
    decreases events.len(),
{
    if events.len() > 0 {
        let shorter = events.drop_last();
        let before = spec_history(shorter);
        let k = events.len() - 1;
        if !before.contains_key(surface) {
            lemma_event_adds_loading(before, events.last(), surface);
        } else if before[surface].state.rank() > program.stage() {
            lemma_history_stage_passed_by_ready(shorter, surface, program);
            let j = choose|j: int| ready_at_event(shorter, surface, program, j);
            assert(events.take(j) =~= shorter.take(j));
            assert(ready_at_event(events, surface, program, j));
        } else {
            lemma_event_keeps_order(before, events.last(), surface);
            assert(events.take(k) =~= shorter);
            assert(ready_at_event(events, surface, program, k));
        }
    }
}

/// No dispatch without a ready pipeline, over the whole life of a registry:
/// if a target is selected to run `program`, then some earlier event reported
/// the pipeline of `program` ready while the target was waiting for it.
pub proof fn lemma_selected_was_reported_ready(events: Seq<Event>, surface: u64, program: Program)
    requires
        spec_history(events).contains_key(surface),
        spec_history(events)[surface].spec_selected() == Some(program),
    ensures
        exists|k: int| ready_at_event(events, surface, program, k),
{
    lemma_history_stage_passed_by_ready(events, surface, program);
}

/// A target reaches `Update` only through two reports of a ready pipeline:
/// first of its init program, later of its update program, each made while
/// the target was waiting for that program.
pub proof fn lemma_update_was_reported_twice(events: Seq<Event>, surface: u64)
    requires
        spec_history(events).contains_key(surface),
        spec_history(events)[surface].state == LifecycleState::Update,
    ensures
        exists|i: int, j: int|
            i < j && ready_at_event(events, surface, Program::Init, i) && ready_at_event(
                events,
                surface,
                Program::Update,
                j,
            ),
{
    lemma_history_stage_passed_by_ready(events, surface, Program::Init);
    lemma_history_stage_passed_by_ready(events, surface, Program::Update);
    let i = choose|i: int| ready_at_event(events, surface, Program::Init, i);
    let j = choose|j: int| ready_at_event(events, surface, Program::Update, j);
    if j <= i {
        let upto = events.take(i);
        assert(upto.take(j) =~= events.take(j));
        lemma_history_never_reverts(upto, j, surface);
        assert(false);
    }
    assert(i < j && ready_at_event(events, surface, Program::Init, i) && ready_at_event(
        events,
        surface,
        Program::Update,
        j,
    ));
}

} // verus!
