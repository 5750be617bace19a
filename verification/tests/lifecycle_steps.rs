use compute_dispatch::bundle::BindBundle;
use compute_dispatch::lifecycle::{CacheState, LifecycleState, PipelineStatus, Program};
use compute_dispatch::params::SurfaceParams;
use compute_dispatch::target::{Observation, PipelinePair, TargetRecord};

fn bundle() -> BindBundle {
    BindBundle { view: 3, params: SurfaceParams::new(10.0f64.to_bits(), 0, 0) }
}

fn handles() -> PipelinePair {
    PipelinePair { init: 11, update: 12 }
}

fn seen(program: Program, status: PipelineStatus) -> Observation {
    Observation { program, status }
}

fn run(start: TargetRecord, trace: &[Observation]) -> TargetRecord {
    let mut record = start;
    for step in trace {
        record = record.advance(*step);
    }
    record
}

#[test]
fn entry_points_are_init_and_update() {
    assert_eq!(Program::Init.entry_point(), "init");
    assert_eq!(Program::Update.entry_point(), "update");
}

#[test]
fn states_await_and_run_the_right_programs() {
    assert_eq!(LifecycleState::Loading.awaited(), Some(Program::Init));
    assert_eq!(LifecycleState::Init.awaited(), Some(Program::Update));
    assert_eq!(LifecycleState::Update.awaited(), None);
    assert_eq!(LifecycleState::Loading.runs(), None);
    assert_eq!(LifecycleState::Init.runs(), Some(Program::Init));
    assert_eq!(LifecycleState::Update.runs(), Some(Program::Update));
    assert_eq!(LifecycleState::Loading.successor(), LifecycleState::Init);
    assert_eq!(LifecycleState::Init.successor(), LifecycleState::Update);
    assert_eq!(LifecycleState::Update.successor(), LifecycleState::Update);
}

#[test]
fn fresh_target_is_loading() {
    let record = TargetRecord::fresh(bundle(), handles());
    assert_eq!(
        record,
        TargetRecord {
            bundle: bundle(),
            pipelines: handles(),
            state: LifecycleState::Loading,
            failure: None,
        }
    );
    assert_eq!(record.awaited(), Some(Program::Init));
    assert_eq!(record.selected(), None);
    assert!(!record.has_failed());
}

#[test]
fn handle_follows_the_program() {
    assert_eq!(handles().handle(Program::Init), 11);
    assert_eq!(handles().handle(Program::Update), 12);
}

#[test]
fn two_ready_observations_reach_update() {
    let fresh = TargetRecord::fresh(bundle(), handles());
    let first = fresh.advance(seen(Program::Init, PipelineStatus::Ready));
    assert_eq!(first.state, LifecycleState::Init);
    assert_eq!(first.selected(), Some(Program::Init));
    assert_eq!(first.awaited(), Some(Program::Update));
    let second = first.advance(seen(Program::Update, PipelineStatus::Ready));
    assert_eq!(second.state, LifecycleState::Update);
    assert_eq!(second.selected(), Some(Program::Update));
    assert_eq!(second.awaited(), None);
    assert_eq!(second.pipelines, handles());
    assert_eq!(second.bundle, bundle());
    assert_eq!(second.failure, None);
}

#[test]
fn one_ready_observation_is_not_enough() {
    let fresh = TargetRecord::fresh(bundle(), handles());
    let once = fresh.advance(seen(Program::Init, PipelineStatus::Ready));
    assert_ne!(once.state, LifecycleState::Update);
    let again = once.advance(seen(Program::Init, PipelineStatus::Ready));
    assert_eq!(again.state, LifecycleState::Init);
}

#[test]
fn pending_changes_nothing() {
    let fresh = TargetRecord::fresh(bundle(), handles());
    assert_eq!(fresh.advance(seen(Program::Init, PipelineStatus::Pending)), fresh);
    let init = fresh.advance(seen(Program::Init, PipelineStatus::Ready));
    assert_eq!(init.advance(seen(Program::Update, PipelineStatus::Pending)), init);
}

#[test]
fn observation_of_another_program_changes_nothing() {
    let fresh = TargetRecord::fresh(bundle(), handles());
    assert_eq!(fresh.advance(seen(Program::Update, PipelineStatus::Ready)), fresh);
    assert_eq!(fresh.advance(seen(Program::Update, PipelineStatus::Failed)), fresh);
    let init = fresh.advance(seen(Program::Init, PipelineStatus::Ready));
    assert_eq!(init.advance(seen(Program::Init, PipelineStatus::Failed)), init);
}

#[test]
fn update_is_terminal() {
    let done = run(
        TargetRecord::fresh(bundle(), handles()),
        &[seen(Program::Init, PipelineStatus::Ready), seen(Program::Update, PipelineStatus::Ready)],
    );
    for program in [Program::Init, Program::Update] {
        for status in [PipelineStatus::Pending, PipelineStatus::Ready, PipelineStatus::Failed] {
            assert_eq!(done.advance(seen(program, status)), done);
        }
    }
}

#[test]
fn state_never_moves_back() {
    let statuses = [PipelineStatus::Pending, PipelineStatus::Ready, PipelineStatus::Failed];
    let programs = [Program::Init, Program::Update];
    let rank = |state: LifecycleState| match state {
        LifecycleState::Loading => 0,
        LifecycleState::Init => 1,
        LifecycleState::Update => 2,
    };
    let mut trace = Vec::new();
    for a in 0..6 {
        for b in 0..6 {
            for c in 0..6 {
                for d in 0..6 {
                    trace.clear();
                    for code in [a, b, c, d] {
                        trace.push(seen(programs[code % 2], statuses[code / 2]));
                    }
                    let mut record = TargetRecord::fresh(bundle(), handles());
                    for step in &trace {
                        let next = record.advance(*step);
                        assert!(rank(next.state) >= rank(record.state));
                        assert_eq!(next.pipelines, handles());
                        assert_eq!(next.bundle, bundle());
                        record = next;
                    }
                }
            }
        }
    }
}

#[test]
fn failed_init_excludes_the_target_for_good() {
    let fresh = TargetRecord::fresh(bundle(), handles());
    let failed = fresh.advance(seen(Program::Init, PipelineStatus::Failed));
    assert_eq!(failed.failure, Some(Program::Init));
    assert_eq!(failed.state, LifecycleState::Loading);
    assert!(failed.has_failed());
    assert_eq!(failed.selected(), None);
    assert_eq!(failed.awaited(), None);
    assert_eq!(failed.advance(seen(Program::Init, PipelineStatus::Failed)), failed);
    assert_eq!(failed.advance(seen(Program::Init, PipelineStatus::Ready)), failed);
    assert_eq!(failed.advance(seen(Program::Update, PipelineStatus::Ready)), failed);
}

#[test]
fn failed_update_stops_a_running_target() {
    let init = TargetRecord::fresh(bundle(), handles())
        .advance(seen(Program::Init, PipelineStatus::Ready));
    assert_eq!(init.selected(), Some(Program::Init));
    let failed = init.advance(seen(Program::Update, PipelineStatus::Failed));
    assert_eq!(failed.failure, Some(Program::Update));
    assert_eq!(failed.state, LifecycleState::Init);
    assert_eq!(failed.selected(), None);
    assert_eq!(failed.awaited(), None);
    assert_eq!(failed.advance(seen(Program::Update, PipelineStatus::Ready)), failed);
}

#[test]
fn selected_program_was_seen_ready() {
    let statuses = [PipelineStatus::Pending, PipelineStatus::Ready, PipelineStatus::Failed];
    let programs = [Program::Init, Program::Update];
    for a in 0..6 {
        for b in 0..6 {
            for c in 0..6 {
                let trace: Vec<Observation> = [a, b, c]
                    .iter()
                    .map(|code| seen(programs[code % 2], statuses[code / 2]))
                    .collect();
                let last = run(TargetRecord::fresh(bundle(), handles()), &trace);
                if let Some(program) = last.selected() {
                    assert!(trace.contains(&seen(program, PipelineStatus::Ready)));
                }
                if last.state == LifecycleState::Update {
                    let init = trace
                        .iter()
                        .position(|step| *step == seen(Program::Init, PipelineStatus::Ready))
                        .expect("init was seen ready");
                    assert!(trace[init + 1..]
                        .contains(&seen(Program::Update, PipelineStatus::Ready)));
                }
            }
        }
    }
}

#[test]
fn refreshed_bundle_keeps_the_rest() {
    let init = TargetRecord::fresh(bundle(), handles())
        .advance(seen(Program::Init, PipelineStatus::Ready));
    let other = BindBundle { view: 9, params: SurfaceParams::new(1, 2, 3) };
    let refreshed = init.with_bundle(other);
    assert_eq!(refreshed.bundle, other);
    assert_eq!(refreshed.pipelines, init.pipelines);
    assert_eq!(refreshed.state, init.state);
    assert_eq!(refreshed.failure, init.failure);
}

#[test]
fn cache_states_read_as_statuses() {
    assert_eq!(PipelineStatus::of(CacheState::Compiled), PipelineStatus::Ready);
    assert_eq!(PipelineStatus::of(CacheState::Rejected), PipelineStatus::Failed);
    assert_eq!(PipelineStatus::of(CacheState::Queued), PipelineStatus::Pending);
    assert_eq!(PipelineStatus::of(CacheState::Creating), PipelineStatus::Pending);
    assert_eq!(PipelineStatus::of(CacheState::ShaderNotLoaded), PipelineStatus::Pending);
    assert_eq!(PipelineStatus::of(CacheState::ImportNotAvailable), PipelineStatus::Pending);
}
