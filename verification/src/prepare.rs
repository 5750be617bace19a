//! The pass that prepares bundles: what to do for a surface that the
//! collaborator supplies in a frame.
//!
//! The pass decides; the caller acts. For a known surface the caller builds
//! the device objects of the new bundle and stores the bundle with
//! `Registry::refresh`. For a new surface it also requests the two pipelines
//! and stores bundle and handles with `Registry::upsert`.

use crate::bundle::BindBundle;
use crate::layout::{
    check_layout, first_mismatch, fixed_layout, mismatch_slot, spec_fixed_layout, LayoutEntry,
    LayoutMismatch,
};
use crate::lifecycle::Program;
use crate::params::SurfaceParams;
use crate::registry::Registry;
use vstd::prelude::*;

verus! {

/// A surface as the collaborator supplies it for one frame.
#[derive(Clone, Copy, Debug, PartialEq, Eq, Structural)]
pub struct SurfaceInput {
    /// The stable identifier of the surface.
    pub surface: u64,
    /// The surface's image view, once its image is resolved.
    pub view: Option<u64>,
    /// The surface's current parameters.
    pub params: SurfaceParams,
}

/// What to do for a supplied surface.
#[derive(Clone, Copy, Debug, PartialEq, Eq, Structural)]
pub enum PrepareStep {
    /// The image is not resolved yet: nothing is done in this frame.
    Skip,
    /// The surface is known: its record takes the new bundle.
    Refresh { bundle: BindBundle },
    /// The surface is new: its two pipelines are requested, and a record is
    /// created with the bundle and the handles.
    Create { bundle: BindBundle },
}

/// Why a target could not be created: the program's declared bindings differ
/// from the fixed layout.
#[derive(Clone, Copy, Debug, PartialEq, Eq, Structural)]
pub struct PrepareError {
    pub surface: u64,
    pub mismatch: LayoutMismatch,
}

/// A request to compile one program of a target, as the pipeline cache
/// takes it.
#[derive(Debug)]
pub struct CompileRequest {
    /// The program that the pipeline is for.
    pub program: Program,
    /// The path of the shader source.
    pub source: &'static str,
    /// The name of the entry point in that source.
    pub entry_point: &'static str,
    /// The binding layout of the pipeline.
    pub layout: Vec<LayoutEntry>,
}

/// The path of the shader source that both programs are compiled from.
pub fn shader_path() -> (path: &'static str)
    ensures
        path@ == "shaders/mandel.wgsl"@,
{
    "shaders/mandel.wgsl"
}

/// The request to compile `program`: the shared source, the program's own
/// entry point, and the fixed layout.
pub fn compile_request(program: Program) -> (request: CompileRequest)
    ensures
        request.program == program,
        request.source@ == "shaders/mandel.wgsl"@,
        request.entry_point@ == (match program {
            Program::Init => "init"@,
            Program::Update => "update"@,
        }),
        request.layout@ == spec_fixed_layout(),
{
    CompileRequest {
        program,
        source: shader_path(),
        entry_point: program.entry_point(),
        layout: fixed_layout(),
    }
}

/// The two compile requests of a new target: the init program, then the
/// update program. They share the source and the layout and differ in the
/// entry point.
pub fn compile_requests() -> (requests: Vec<CompileRequest>)
    ensures
        requests@.len() == 2,
        requests@[0].program == Program::Init,
        requests@[1].program == Program::Update,
        requests@[0].entry_point@ == "init"@,
        requests@[1].entry_point@ == "update"@,
        forall|i: int|
            0 <= i < 2 ==> (#[trigger] requests@[i]).source@ == "shaders/mandel.wgsl"@
                && requests@[i].layout@ == spec_fixed_layout(),
{
    let mut requests: Vec<CompileRequest> = Vec::new();
    requests.push(compile_request(Program::Init));
    requests.push(compile_request(Program::Update));
    requests
}

/// Decides what to do for a supplied surface.
///
/// A surface without a resolved image is skipped, whether known or not. A
/// known surface is refreshed with the bundle built from its view and
/// parameters. A new surface is created with that bundle, unless the bindings
/// that its program declares differ from the fixed layout: then nothing is
/// created and the difference is returned with the surface.
pub fn plan_prepare(registry: &Registry, input: &SurfaceInput, declared: &Vec<LayoutEntry>) -> (step:
    Result<PrepareStep, PrepareError>)
    ensures
        step == Ok::<PrepareStep, PrepareError>(PrepareStep::Skip) <==> input.view is None,
        step is Err <==> input.view is Some && !registry@.contains_key(input.surface)
            && declared@ != spec_fixed_layout(),
        match step {
            Ok(PrepareStep::Skip) => input.view is None,
            Ok(PrepareStep::Refresh { bundle }) => {
                &&& registry@.contains_key(input.surface)
                &&& Some(bundle) == BindBundle::spec_build(input.view, input.params)
            },
            Ok(PrepareStep::Create { bundle }) => {
                &&& !registry@.contains_key(input.surface)
                &&& declared@ == spec_fixed_layout()
                &&& Some(bundle) == BindBundle::spec_build(input.view, input.params)
            },
            Err(error) => {
                &&& input.view is Some
                &&& !registry@.contains_key(input.surface)
                &&& declared@ != spec_fixed_layout()
                &&& error.surface == input.surface
                &&& first_mismatch(declared@, error.mismatch.index as int)
                &&& error.mismatch.slot == mismatch_slot(declared@, error.mismatch.index as int)
            },
        },
{
    match BindBundle::build(input.view, input.params) {
        None => Ok(PrepareStep::Skip),
        Some(bundle) => {
            if registry.contains(input.surface) {
                Ok(PrepareStep::Refresh { bundle })
            } else {
                match check_layout(declared) {
                    Ok(()) => Ok(PrepareStep::Create { bundle }),
                    Err(mismatch) => Err(PrepareError { surface: input.surface, mismatch }),
                }
            }
        },
    }
}

} // verus!
