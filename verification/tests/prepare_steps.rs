use compute_dispatch::bundle::BindBundle;
use compute_dispatch::layout::{
    fixed_layout, BindingKind, LayoutEntry, LayoutMismatch,
};
use compute_dispatch::lifecycle::{LifecycleState, Program};
use compute_dispatch::params::SurfaceParams;
use compute_dispatch::prepare::{
    compile_request, compile_requests, plan_prepare, shader_path, PrepareError, PrepareStep,
    SurfaceInput,
};
use compute_dispatch::registry::Registry;
use compute_dispatch::target::PipelinePair;

fn input(surface: u64, view: Option<u64>, scale: f64) -> SurfaceInput {
    SurfaceInput { surface, view, params: SurfaceParams::new(scale.to_bits(), 0, 0) }
}

#[test]
fn shader_and_requests_are_those_of_the_two_programs() {
    assert_eq!(shader_path(), "shaders/mandel.wgsl");
    let requests = compile_requests();
    assert_eq!(requests.len(), 2);
    assert_eq!(requests[0].program, Program::Init);
    assert_eq!(requests[1].program, Program::Update);
    assert_eq!(requests[0].entry_point, "init");
    assert_eq!(requests[1].entry_point, "update");
    for request in &requests {
        assert_eq!(request.source, "shaders/mandel.wgsl");
        assert_eq!(request.entry_point, request.program.entry_point());
        assert_eq!(request.layout, fixed_layout());
    }
    let single = compile_request(Program::Update);
    assert_eq!(single.program, Program::Update);
    assert_eq!(single.entry_point, "update");
    assert_eq!(single.source, shader_path());
    assert_eq!(single.layout, fixed_layout());
}

#[test]
fn unresolved_image_is_skipped() {
    let mut registry = Registry::new();
    assert_eq!(
        plan_prepare(&registry, &input(1, None, 10.0), &fixed_layout()),
        Ok(PrepareStep::Skip)
    );
    registry.upsert(
        1,
        BindBundle { view: 5, params: SurfaceParams::new(0, 0, 0) },
        PipelinePair { init: 1, update: 2 },
    );
    assert_eq!(
        plan_prepare(&registry, &input(1, None, 10.0), &fixed_layout()),
        Ok(PrepareStep::Skip)
    );
    assert_eq!(plan_prepare(&registry, &input(1, None, 10.0), &Vec::new()), Ok(PrepareStep::Skip));
}

#[test]
fn new_surface_is_created() {
    let registry = Registry::new();
    let supplied = input(1, Some(5), 10.0);
    assert_eq!(
        plan_prepare(&registry, &supplied, &fixed_layout()),
        Ok(PrepareStep::Create { bundle: BindBundle { view: 5, params: supplied.params } })
    );
}

#[test]
fn known_surface_is_refreshed() {
    let mut registry = Registry::new();
    registry.upsert(
        1,
        BindBundle { view: 5, params: SurfaceParams::new(0, 0, 0) },
        PipelinePair { init: 1, update: 2 },
    );
    let supplied = input(1, Some(6), 2.0);
    assert_eq!(
        plan_prepare(&registry, &supplied, &fixed_layout()),
        Ok(PrepareStep::Refresh { bundle: BindBundle { view: 6, params: supplied.params } })
    );
}

#[test]
fn known_surface_is_refreshed_whatever_is_declared() {
    let mut registry = Registry::new();
    registry.upsert(
        1,
        BindBundle { view: 5, params: SurfaceParams::new(0, 0, 0) },
        PipelinePair { init: 1, update: 2 },
    );
    let supplied = input(1, Some(6), 2.0);
    assert_eq!(
        plan_prepare(&registry, &supplied, &Vec::new()),
        Ok(PrepareStep::Refresh { bundle: BindBundle { view: 6, params: supplied.params } })
    );
}

#[test]
fn mismatched_layout_aborts_creation() {
    let registry = Registry::new();
    let mut declared = fixed_layout();
    declared[1] = LayoutEntry { slot: 1, compute_only: true, kind: BindingKind::Other };
    assert_eq!(
        plan_prepare(&registry, &input(3, Some(5), 10.0), &declared),
        Err(PrepareError { surface: 3, mismatch: LayoutMismatch { index: 1, slot: 1 } })
    );
    assert!(registry.is_empty());
}

#[test]
fn prepare_then_store_runs_the_whole_pass() {
    let mut registry = Registry::new();
    let declared = fixed_layout();
    let mut next_handle = 0u64;
    let frames = [
        vec![input(1, None, 10.0), input(2, Some(20), 2.0)],
        vec![input(1, Some(10), 10.0), input(2, Some(20), 3.0)],
        vec![input(1, Some(10), 10.0), input(2, Some(21), 3.0)],
    ];
    let mut requested = 0;
    for frame in frames {
        for supplied in frame {
            match plan_prepare(&registry, &supplied, &declared).expect("layout matches") {
                PrepareStep::Skip => {}
                PrepareStep::Refresh { bundle } => {
                    assert!(registry.refresh(supplied.surface, bundle));
                }
                PrepareStep::Create { bundle } => {
                    let pair = PipelinePair { init: next_handle, update: next_handle + 1 };
                    next_handle += 2;
                    requested += compile_requests().len();
                    registry.upsert(supplied.surface, bundle, pair);
                }
            }
        }
    }
    assert_eq!(requested, 4);
    let first = registry.get(1).expect("known");
    let second = registry.get(2).expect("known");
    assert_eq!(first.pipelines, PipelinePair { init: 2, update: 3 });
    assert_eq!(second.pipelines, PipelinePair { init: 0, update: 1 });
    assert_eq!(first.bundle, BindBundle { view: 10, params: SurfaceParams::new(10.0f64.to_bits(), 0, 0) });
    assert_eq!(second.bundle, BindBundle { view: 21, params: SurfaceParams::new(3.0f64.to_bits(), 0, 0) });
    assert_eq!(first.state, LifecycleState::Loading);
    assert_eq!(second.state, LifecycleState::Loading);
}
