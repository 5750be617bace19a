//! The dispatch scheduler: which dispatches a snapshot of the registry calls
//! for.
//!
//! A target in `Init` runs its init program, a target in `Update` its update
//! program, and nothing runs for a target that is loading or has failed. The
//! dispatches of different targets do not depend on each other, so their
//! order is free.

use crate::bundle::BindBundle;
use crate::grid::{Grid, GroupCounts};
use crate::lifecycle::Program;
use crate::registry::{lists_targets, TargetEntry};
use crate::target::TargetRecord;
use vstd::prelude::*;

verus! {

/// Index of the bind group that a dispatch binds its bundle to.
pub const BUNDLE_GROUP: u32 = 0;

/// One compute dispatch: bind `bundle` as bind group `BUNDLE_GROUP`, bind
/// `pipeline`, and run `groups` workgroups against the surface.
#[derive(Clone, Copy, Debug, PartialEq, Eq, Structural)]
pub struct DispatchCommand {
    pub surface: u64,
    pub bundle: BindBundle,
    pub program: Program,
    pub pipeline: u64,
    pub groups: GroupCounts,
}

/// The dispatch for a target, if it gets one: the program selected by its
/// record, on the pipeline of that program, bound to its bundle, over the
/// groups of `grid`.
pub open spec fn spec_command(entry: TargetEntry, grid: Grid) -> Option<DispatchCommand> {
    match entry.record.spec_selected() {
        Some(program) => Some(
            DispatchCommand {
                surface: entry.surface,
                bundle: entry.record.bundle,
                program,
                pipeline: entry.record.pipelines.spec_handle(program),
                groups: grid.spec_groups(),
            },
        ),
        None => None,
    }
}

/// The dispatches for a snapshot: one for each target that a program is
/// selected for, in the order of the snapshot.
pub open spec fn spec_plan(entries: Seq<TargetEntry>, grid: Grid) -> Seq<DispatchCommand>
    decreases entries.len(),
{
    if entries.len() == 0 {
        Seq::empty()
    } else {
        let earlier = spec_plan(entries.drop_last(), grid);
        match spec_command(entries.last(), grid) {
            Some(command) => earlier.push(command),
            None => earlier,
        }
    }
}

/// Plans the dispatches for a snapshot. A target gets one dispatch if a
/// program is selected for it, and none otherwise: nothing runs for a target
/// that is still loading or that has failed. The dispatch runs the selected
/// program's pipeline with the target's own bundle, over the groups of `grid`.
pub fn plan_dispatch(entries: &Vec<TargetEntry>, grid: &Grid) -> (commands: Vec<DispatchCommand>)
    ensures
        commands@ == spec_plan(entries@, *grid),
{
    let groups = grid.groups();
    let mut commands: Vec<DispatchCommand> = Vec::new();
    let mut i: usize = 0;
    while i < entries.len()
        invariant
            i <= entries.len(),
            groups == grid.spec_groups(),
            commands@ == spec_plan(entries@.take(i as int), *grid),
        decreases entries.len() - i,
    {
        let entry = entries[i];
        proof {
            assert(entries@.take(i + 1).drop_last() =~= entries@.take(i as int));
            assert(entries@.take(i + 1).last() == entry);
        }
        match entry.record.selected() {
            Some(program) => {
                commands.push(
                    DispatchCommand {
                        surface: entry.surface,
                        bundle: entry.record.bundle,
                        program,
                        pipeline: entry.record.pipelines.handle(program),
                        groups,
                    },
                );
            },
            None => {},
        }
        i += 1;
    }
    proof {
        assert(entries@.take(entries@.len() as int) =~= entries@);
    }
    commands
}

/// The plan holds exactly the dispatches of the targets that a program is
/// selected for: every command is the dispatch of some target of the
/// snapshot, and every target with a selected program has its dispatch in
/// the plan. A target that is loading or has failed has none.
pub proof fn lemma_plan_is_exact(entries: Seq<TargetEntry>, grid: Grid)
    ensures
        spec_plan(entries, grid).len() <= entries.len(),
        forall|k: int|
            0 <= k < spec_plan(entries, grid).len() ==> exists|i: int|
                0 <= i < entries.len() && spec_command(entries[i], grid) == Some(
                    #[trigger] spec_plan(entries, grid)[k],
                ),
        forall|i: int|
            0 <= i < entries.len() && spec_command(#[trigger] entries[i], grid) is Some
                ==> exists|k: int|
                0 <= k < spec_plan(entries, grid).len() && Some(spec_plan(entries, grid)[k])
                    == spec_command(entries[i], grid),
    decreases entries.len(),
{
    if entries.len() > 0 {
        let shorter = entries.drop_last();
        let earlier = spec_plan(shorter, grid);
        let plan = spec_plan(entries, grid);
        lemma_plan_is_exact(shorter, grid);
        assert forall|k: int| 0 <= k < plan.len() implies exists|i: int|
            0 <= i < entries.len() && spec_command(entries[i], grid) == Some(
                #[trigger] plan[k],
            ) by {
            if k < earlier.len() {
                let i = choose|i: int|
                    0 <= i < shorter.len() && spec_command(shorter[i], grid) == Some(earlier[k]);
                assert(entries[i] == shorter[i]);
            }
        }
        assert forall|i: int|
            0 <= i < entries.len() && spec_command(
                #[trigger] entries[i],
                grid,
            ) is Some implies exists|k: int|
            0 <= k < plan.len() && Some(plan[k]) == spec_command(entries[i], grid) by {
            if i < shorter.len() {
                let k = choose|k: int|
                    0 <= k < earlier.len() && Some(earlier[k]) == spec_command(shorter[i], grid);
                assert(plan[k] == earlier[k]);
            } else {
                assert(Some(plan[plan.len() - 1]) == spec_command(entries[i], grid));
            }
        }
    }
}

/// No dispatch without a selected program: each command of a plan belongs to
/// a target of the snapshot whose record is not failed and is in the state
/// that runs the command's program, and it carries that target's bundle and
/// the handle of that program.
pub proof fn lemma_commands_follow_state(entries: Seq<TargetEntry>, grid: Grid, k: int)
    requires
        0 <= k < spec_plan(entries, grid).len(),
    ensures
        exists|i: int|
            {
                &&& 0 <= i < entries.len()
                &&& entries[i].surface == spec_plan(entries, grid)[k].surface
                &&& #[trigger] entries[i].record.failure is None
                &&& entries[i].record.state.spec_runs() == Some(spec_plan(entries, grid)[k].program)
                &&& entries[i].record.bundle == spec_plan(entries, grid)[k].bundle
                &&& entries[i].record.pipelines.spec_handle(spec_plan(entries, grid)[k].program)
                    == spec_plan(entries, grid)[k].pipeline
                &&& spec_plan(entries, grid)[k].groups == grid.spec_groups()
            },
{
    lemma_plan_is_exact(entries, grid);
    let command = spec_plan(entries, grid)[k];
    let i = choose|i: int|
        0 <= i < entries.len() && spec_command(entries[i], grid) == Some(command);
    assert(entries[i].record.failure is None);
}

/// A plan holds at most one dispatch per surface, as long as the snapshot
/// holds each surface once.
pub proof fn lemma_plan_one_per_surface(entries: Seq<TargetEntry>, grid: Grid)
    requires
        forall|i: int, j: int|
            0 <= i < j < entries.len() ==> entries[i].surface != entries[j].surface,
    ensures
        forall|k: int, l: int|
            0 <= k < l < spec_plan(entries, grid).len() ==> spec_plan(entries, grid)[k].surface
                != spec_plan(entries, grid)[l].surface,
    decreases entries.len(),
{
    if entries.len() > 0 {
        let shorter = entries.drop_last();
        let earlier = spec_plan(shorter, grid);
        let plan = spec_plan(entries, grid);
        assert forall|i: int, j: int| 0 <= i < j < shorter.len() implies shorter[i].surface
            != shorter[j].surface by {
            assert(shorter[i] == entries[i] && shorter[j] == entries[j]);
        }
        lemma_plan_one_per_surface(shorter, grid);
        lemma_plan_is_exact(shorter, grid);
        assert forall|k: int, l: int| 0 <= k < l < plan.len() implies plan[k].surface
            != plan[l].surface by {
            if l >= earlier.len() {
                let i = choose|i: int|
                    0 <= i < shorter.len() && spec_command(shorter[i], grid) == Some(earlier[k]);
                assert(shorter[i] == entries[i]);
            }
        }
    }
}

/// What a recording device has seen so far: for each surface the pairs of
/// bundle and pipeline that were dispatched against it, in order.
pub open spec fn spec_record_dispatch(
    log: Map<u64, Seq<(BindBundle, u64)>>,
    command: DispatchCommand,
) -> Map<u64, Seq<(BindBundle, u64)>> {
    let seen = if log.contains_key(command.surface) {
        log[command.surface]
    } else {
        Seq::empty()
    };
    log.insert(command.surface, seen.push((command.bundle, command.pipeline)))
}

/// The log of a recording device after it has executed `commands` in order.
pub open spec fn spec_replay(
    log: Map<u64, Seq<(BindBundle, u64)>>,
    commands: Seq<DispatchCommand>,
) -> Map<u64, Seq<(BindBundle, u64)>>
    decreases commands.len(),
{
    if commands.len() == 0 {
        log
    } else {
        spec_record_dispatch(spec_replay(log, commands.drop_last()), commands.last())
    }
}

/// Dispatches against different surfaces commute: a recording device ends
/// with the same log whichever of the two it executes first.
pub proof fn lemma_dispatches_commute(
    log: Map<u64, Seq<(BindBundle, u64)>>,
    first: DispatchCommand,
    second: DispatchCommand,
)
    requires
        first.surface != second.surface,
    ensures
        spec_record_dispatch(spec_record_dispatch(log, first), second) == spec_record_dispatch(
            spec_record_dispatch(log, second),
            first,
        ),
{
    assert(spec_record_dispatch(spec_record_dispatch(log, first), second)
        =~= spec_record_dispatch(spec_record_dispatch(log, second), first));
}

/// What a recording device has seen of `surface` so far.
pub open spec fn spec_seen(log: Map<u64, Seq<(BindBundle, u64)>>, surface: u64) -> Seq<
    (BindBundle, u64),
> {
    if log.contains_key(surface) {
        log[surface]
    } else {
        Seq::empty()
    }
}

/// Some target of `entries` with the surface `surface` gets a dispatch.
pub open spec fn has_command(entries: Seq<TargetEntry>, grid: Grid, surface: u64) -> bool {
    exists|i: int|
        0 <= i < entries.len() && (#[trigger] entries[i]).surface == surface && spec_command(
            entries[i],
            grid,
        ) is Some
}

/// What executing a plan does to a recording device: for a target with a
/// dispatch the device has seen one more pair, the target's bundle with the
/// selected pipeline, and for every other surface it has seen what it had
/// seen before.
pub proof fn lemma_replay_of_plan(
    log: Map<u64, Seq<(BindBundle, u64)>>,
    entries: Seq<TargetEntry>,
    grid: Grid,
)
    requires
        forall|i: int, j: int|
            0 <= i < j < entries.len() ==> entries[i].surface != entries[j].surface,
    ensures
        forall|surface: u64|
            #![trigger has_command(entries, grid, surface)]
            !has_command(entries, grid, surface) ==> {
                &&& spec_replay(log, spec_plan(entries, grid)).contains_key(surface)
                    == log.contains_key(surface)
                &&& spec_replay(log, spec_plan(entries, grid))[surface] == log[surface]
            },
        forall|i: int|
            0 <= i < entries.len() && spec_command(#[trigger] entries[i], grid) is Some ==> {
                let command = spec_command(entries[i], grid)->0;
                &&& spec_replay(log, spec_plan(entries, grid)).contains_key(entries[i].surface)
                &&& spec_replay(log, spec_plan(entries, grid))[entries[i].surface] == spec_seen(
                    log,
                    entries[i].surface,
                ).push((command.bundle, command.pipeline))
            },
    decreases entries.len(),
{
    let after = spec_replay(log, spec_plan(entries, grid));
    if entries.len() > 0 {
        let shorter = entries.drop_last();
        let last = entries.last();
        let before = spec_replay(log, spec_plan(shorter, grid));
        assert forall|i: int, j: int| 0 <= i < j < shorter.len() implies shorter[i].surface
            != shorter[j].surface by {
            assert(shorter[i] == entries[i] && shorter[j] == entries[j]);
        }
        lemma_replay_of_plan(log, shorter, grid);
        assert(!has_command(shorter, grid, last.surface)) by {
            if has_command(shorter, grid, last.surface) {
                let i = choose|i: int|
                    0 <= i < shorter.len() && (#[trigger] shorter[i]).surface == last.surface
                        && spec_command(shorter[i], grid) is Some;
                assert(shorter[i] == entries[i]);
            }
        }
        if let Some(command) = spec_command(last, grid) {
            assert(spec_plan(shorter, grid).push(command).drop_last() =~= spec_plan(
                shorter,
                grid,
            ));
            assert(after == spec_record_dispatch(before, command));
        }
        assert forall|surface: u64|
            #![trigger has_command(entries, grid, surface)]
            !has_command(entries, grid, surface) implies after.contains_key(surface)
            == log.contains_key(surface) && after[surface] == log[surface] by {
            if has_command(shorter, grid, surface) {
                let i = choose|i: int|
                    0 <= i < shorter.len() && (#[trigger] shorter[i]).surface == surface
                        && spec_command(shorter[i], grid) is Some;
                assert(entries[i] == shorter[i]);
            }
        }
        assert forall|i: int|
            0 <= i < entries.len() && spec_command(#[trigger] entries[i], grid) is Some implies {
            let command = spec_command(entries[i], grid)->0;
            &&& after.contains_key(entries[i].surface)
            &&& after[entries[i].surface] == spec_seen(log, entries[i].surface).push(
                (command.bundle, command.pipeline),
            )
        } by {
            if i < shorter.len() {
                assert(entries[i] == shorter[i]);
            }
        }
    }
}

/// The order of a snapshot does not matter to the device: two snapshots of
/// the same targets, in whatever orders, lead to plans after which a
/// recording device has seen the same for every surface.
pub proof fn lemma_snapshot_order_irrelevant(
    log: Map<u64, Seq<(BindBundle, u64)>>,
    targets: Map<u64, TargetRecord>,
    first: Seq<TargetEntry>,
    second: Seq<TargetEntry>,
    grid: Grid,
)
    requires
        lists_targets(first, targets),
        lists_targets(second, targets),
    ensures
        spec_replay(log, spec_plan(first, grid)) == spec_replay(log, spec_plan(second, grid)),
{
    let after_first = spec_replay(log, spec_plan(first, grid));
    let after_second = spec_replay(log, spec_plan(second, grid));
    lemma_replay_of_plan(log, first, grid);
    lemma_replay_of_plan(log, second, grid);
    assert forall|surface: u64|
        #![trigger after_first.contains_key(surface)]
        #![trigger after_second.contains_key(surface)]
        after_first.contains_key(surface) == after_second.contains_key(surface)
            && after_first[surface] == after_second[surface] by {
        let entry = TargetEntry { surface, record: targets[surface] };
        if targets.contains_key(surface) && spec_command(entry, grid) is Some {
            let i = choose|i: int| 0 <= i < first.len() && first[i].surface == surface;
            let j = choose|j: int| 0 <= j < second.len() && second[j].surface == surface;
            assert(first[i] == entry && second[j] == entry);
        } else {
            assert(!has_command(first, grid, surface)) by {
                if has_command(first, grid, surface) {
                    let i = choose|i: int|
                        0 <= i < first.len() && (#[trigger] first[i]).surface == surface
                            && spec_command(first[i], grid) is Some;
                    assert(first[i] == entry);
                }
            }
            assert(!has_command(second, grid, surface)) by {
                if has_command(second, grid, surface) {
                    let j = choose|j: int|
                        0 <= j < second.len() && (#[trigger] second[j]).surface == surface
                            && spec_command(second[j], grid) is Some;
                    assert(second[j] == entry);
                }
            }
        }
    }
    assert(after_first =~= after_second);
}

/// The dispatches of two targets are independent of their order: whichever
/// of the two stands first in the snapshot, a recording device that executes
/// the plan ends with the same log for every surface.
pub proof fn lemma_dispatch_order_independent(
    log: Map<u64, Seq<(BindBundle, u64)>>,
    first: TargetEntry,
    second: TargetEntry,
    grid: Grid,
)
    requires
        first.surface != second.surface,
    ensures
        spec_replay(log, spec_plan(seq![first, second], grid)) == spec_replay(
            log,
            spec_plan(seq![second, first], grid),
        ),
{
    let targets = Map::<u64, TargetRecord>::empty().insert(first.surface, first.record).insert(
        second.surface,
        second.record,
    );
    let forward = seq![first, second];
    let backward = seq![second, first];
    assert(lists_targets(forward, targets));
    assert(lists_targets(backward, targets));
    lemma_snapshot_order_irrelevant(log, targets, forward, backward, grid);
}

} // verus!
