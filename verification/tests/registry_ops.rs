use compute_dispatch::bundle::BindBundle;
use compute_dispatch::lifecycle::{LifecycleState, PipelineStatus, Program};
use compute_dispatch::params::SurfaceParams;
use compute_dispatch::registry::{Registry, TargetEntry};
use compute_dispatch::target::{Observation, PipelinePair, TargetRecord};

fn bundle_of(view: u64, scale: f64) -> BindBundle {
    BindBundle { view, params: SurfaceParams::new(scale.to_bits(), 0, 0) }
}

fn sorted(mut entries: Vec<TargetEntry>) -> Vec<TargetEntry> {
    entries.sort_by_key(|entry| entry.surface);
    entries
}

#[test]
fn new_registry_is_empty() {
    let registry = Registry::new();
    assert_eq!(registry.len(), 0);
    assert!(registry.is_empty());
    assert!(registry.all().is_empty());
    assert!(registry.surfaces().is_empty());
}

#[test]
fn unknown_surface_is_absent_not_an_error() {
    let registry = Registry::new();
    assert!(!registry.contains(1));
    assert_eq!(registry.get(1), None);
}

#[test]
fn first_upsert_creates_a_loading_target() {
    let mut registry = Registry::new();
    registry.upsert(7, bundle_of(70, 10.0), PipelinePair { init: 1, update: 2 });
    assert_eq!(registry.len(), 1);
    assert!(!registry.is_empty());
    assert!(registry.contains(7));
    assert_eq!(
        registry.get(7),
        Some(TargetRecord {
            bundle: bundle_of(70, 10.0),
            pipelines: PipelinePair { init: 1, update: 2 },
            state: LifecycleState::Loading,
            failure: None,
        })
    );
}

#[test]
fn second_upsert_updates_bundle_and_keeps_handles_and_state() {
    let mut registry = Registry::new();
    registry.upsert(7, bundle_of(70, 10.0), PipelinePair { init: 1, update: 2 });
    registry.observe(7, Observation { program: Program::Init, status: PipelineStatus::Ready });
    registry.upsert(7, bundle_of(71, 2.0), PipelinePair { init: 100, update: 200 });
    assert_eq!(registry.len(), 1);
    assert_eq!(
        registry.get(7),
        Some(TargetRecord {
            bundle: bundle_of(71, 2.0),
            pipelines: PipelinePair { init: 1, update: 2 },
            state: LifecycleState::Init,
            failure: None,
        })
    );
}

#[test]
fn upsert_keeps_a_failure_mark() {
    let mut registry = Registry::new();
    registry.upsert(7, bundle_of(70, 10.0), PipelinePair { init: 1, update: 2 });
    registry.observe(7, Observation { program: Program::Init, status: PipelineStatus::Failed });
    registry.upsert(7, bundle_of(71, 2.0), PipelinePair { init: 100, update: 200 });
    let record = registry.get(7).expect("known");
    assert_eq!(record.failure, Some(Program::Init));
    assert_eq!(record.state, LifecycleState::Loading);
    assert_eq!(record.pipelines, PipelinePair { init: 1, update: 2 });
    assert_eq!(record.bundle, bundle_of(71, 2.0));
}

#[test]
fn upsert_leaves_other_targets_alone() {
    let mut registry = Registry::new();
    registry.upsert(1, bundle_of(10, 10.0), PipelinePair { init: 1, update: 2 });
    registry.upsert(2, bundle_of(20, 2.0), PipelinePair { init: 3, update: 4 });
    let before = registry.get(1);
    registry.upsert(2, bundle_of(21, 3.0), PipelinePair { init: 5, update: 6 });
    assert_eq!(registry.get(1), before);
    assert_eq!(registry.len(), 2);
}

#[test]
fn two_targets_never_share_a_bundle() {
    let mut registry = Registry::new();
    registry.upsert(1, bundle_of(10, 10.0), PipelinePair { init: 1, update: 2 });
    registry.upsert(2, bundle_of(20, 2.0), PipelinePair { init: 3, update: 4 });
    let first = registry.get(1).expect("known");
    let second = registry.get(2).expect("known");
    assert_ne!(first.bundle, second.bundle);
    assert_eq!(first.bundle, bundle_of(10, 10.0));
    assert_eq!(second.bundle, bundle_of(20, 2.0));

    let mut reversed = Registry::new();
    reversed.upsert(2, bundle_of(20, 2.0), PipelinePair { init: 3, update: 4 });
    reversed.upsert(1, bundle_of(10, 10.0), PipelinePair { init: 1, update: 2 });
    assert_eq!(sorted(registry.all()), sorted(reversed.all()));
}

#[test]
fn refresh_updates_only_known_targets() {
    let mut registry = Registry::new();
    assert!(!registry.refresh(1, bundle_of(10, 10.0)));
    assert!(registry.is_empty());
    registry.upsert(1, bundle_of(10, 10.0), PipelinePair { init: 1, update: 2 });
    assert!(registry.refresh(1, bundle_of(11, 5.0)));
    assert_eq!(
        registry.get(1),
        Some(TargetRecord {
            bundle: bundle_of(11, 5.0),
            pipelines: PipelinePair { init: 1, update: 2 },
            state: LifecycleState::Loading,
            failure: None,
        })
    );
}

#[test]
fn observe_advances_one_target() {
    let mut registry = Registry::new();
    registry.upsert(1, bundle_of(10, 10.0), PipelinePair { init: 1, update: 2 });
    registry.upsert(2, bundle_of(20, 2.0), PipelinePair { init: 3, update: 4 });
    let ready = Observation { program: Program::Init, status: PipelineStatus::Ready };
    let advanced = registry.observe(1, ready).expect("known");
    assert_eq!(advanced.state, LifecycleState::Init);
    assert_eq!(registry.get(1), Some(advanced));
    assert_eq!(registry.get(2).expect("known").state, LifecycleState::Loading);
}

#[test]
fn observe_of_unknown_surface_does_nothing() {
    let mut registry = Registry::new();
    registry.upsert(1, bundle_of(10, 10.0), PipelinePair { init: 1, update: 2 });
    let before = registry.all();
    let ready = Observation { program: Program::Init, status: PipelineStatus::Ready };
    assert_eq!(registry.observe(5, ready), None);
    assert_eq!(registry.all(), before);
}

#[test]
fn snapshot_lists_every_target_once() {
    let mut registry = Registry::new();
    for surface in 0..20u64 {
        registry.upsert(
            surface,
            bundle_of(surface + 100, surface as f64),
            PipelinePair { init: 2 * surface, update: 2 * surface + 1 },
        );
    }
    let entries = sorted(registry.all());
    assert_eq!(entries.len(), 20);
    for (index, entry) in entries.iter().enumerate() {
        assert_eq!(entry.surface, index as u64);
        assert_eq!(Some(entry.record), registry.get(entry.surface));
    }
    let mut surfaces = registry.surfaces();
    surfaces.sort();
    assert_eq!(surfaces, (0..20u64).collect::<Vec<u64>>());
}

#[test]
fn snapshot_is_isolated_from_later_changes() {
    let mut registry = Registry::new();
    registry.upsert(1, bundle_of(10, 10.0), PipelinePair { init: 1, update: 2 });
    let snapshot = registry.all();
    registry.upsert(1, bundle_of(11, 3.0), PipelinePair { init: 1, update: 2 });
    registry.upsert(2, bundle_of(20, 2.0), PipelinePair { init: 3, update: 4 });
    registry.observe(1, Observation { program: Program::Init, status: PipelineStatus::Ready });
    assert_eq!(
        snapshot,
        vec![TargetEntry {
            surface: 1,
            record: TargetRecord {
                bundle: bundle_of(10, 10.0),
                pipelines: PipelinePair { init: 1, update: 2 },
                state: LifecycleState::Loading,
                failure: None,
            },
        }]
    );
}
