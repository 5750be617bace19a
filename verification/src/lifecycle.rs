//! The lifecycle of a compute target.
//!
//! A target starts in `Loading`, moves to `Init` once its init program is
//! reported compiled, and to `Update` once its update program is. `Update` is
//! terminal. In each state at most one program is queried and at most one is
//! run.

use vstd::prelude::*;

verus! {

/// One of the two compute programs of a target.
#[derive(Clone, Copy, Debug, PartialEq, Eq, Structural)]
pub enum Program {
    Init,
    Update,
}

/// What the pipeline cache answers when asked about a handle.
#[derive(Clone, Copy, Debug, PartialEq, Eq, Structural)]
pub enum PipelineStatus {
    /// Still queued or compiling.
    Pending,
    /// Compiled and usable.
    Ready,
    /// Compilation failed; asking again will not help.
    Failed,
}

/// What a pipeline cache knows of a pipeline, in the cache's own terms.
#[derive(Clone, Copy, Debug, PartialEq, Eq, Structural)]
pub enum CacheState {
    /// Waiting to be compiled.
    Queued,
    /// Being compiled.
    Creating,
    /// Compiled.
    Compiled,
    /// The shader source is not loaded yet; the cache tries again.
    ShaderNotLoaded,
    /// An import of the shader is not available yet; the cache tries again.
    ImportNotAvailable,
    /// The shader was rejected; the cache does not try again.
    Rejected,
}

/// The stage a target is in.
#[derive(Clone, Copy, Debug, PartialEq, Eq, Structural)]
pub enum LifecycleState {
    Loading,
    Init,
    Update,
}

impl Program {
    /// The name of the program's entry point in the shared shader source.
    pub fn entry_point(&self) -> (name: &'static str)
        ensures
            name@ == (match *self {
                Program::Init => "init"@,
                Program::Update => "update"@,
            }),
    {
        match self {
            Program::Init => "init",
            Program::Update => "update",
        }
    }
}

impl PipelineStatus {
    /// The status that a cache state amounts to.
    pub open spec fn spec_of(state: CacheState) -> PipelineStatus {
        match state {
            CacheState::Compiled => PipelineStatus::Ready,
            CacheState::Rejected => PipelineStatus::Failed,
            _ => PipelineStatus::Pending,
        }
    }

    /// Reads a cache state as a status. Only a compiled pipeline is ready and
    /// only a rejected shader has failed; whatever the cache is still working
    /// on, or will try again, is pending.
    pub fn of(state: CacheState) -> (status: PipelineStatus)
        ensures
            status == Self::spec_of(state),
            status == PipelineStatus::Ready <==> state == CacheState::Compiled,
            status == PipelineStatus::Failed <==> state == CacheState::Rejected,
    {
        match state {
            CacheState::Compiled => PipelineStatus::Ready,
            CacheState::Rejected => PipelineStatus::Failed,
            CacheState::Queued => PipelineStatus::Pending,
            CacheState::Creating => PipelineStatus::Pending,
            CacheState::ShaderNotLoaded => PipelineStatus::Pending,
            CacheState::ImportNotAvailable => PipelineStatus::Pending,
        }
    }
}

impl LifecycleState {
    /// Position in the order `Loading`, `Init`, `Update`.
    pub open spec fn rank(self) -> nat {
        match self {
            LifecycleState::Loading => 0,
            LifecycleState::Init => 1,
            LifecycleState::Update => 2,
        }
    }

    /// The program whose compilation this state waits for, if any.
    pub open spec fn spec_awaited(self) -> Option<Program> {
        match self {
            LifecycleState::Loading => Some(Program::Init),
            LifecycleState::Init => Some(Program::Update),
            LifecycleState::Update => None,
        }
    }

    /// The program that runs in this state, if any.
    pub open spec fn spec_runs(self) -> Option<Program> {
        match self {
            LifecycleState::Loading => None,
            LifecycleState::Init => Some(Program::Init),
            LifecycleState::Update => Some(Program::Update),
        }
    }

    /// The state that follows once the awaited program is ready.
    pub open spec fn spec_successor(self) -> LifecycleState {
        match self {
            LifecycleState::Loading => LifecycleState::Init,
            LifecycleState::Init => LifecycleState::Update,
            LifecycleState::Update => LifecycleState::Update,
        }
    }

    /// The program whose compilation this state waits for: the init program
    /// while loading, the update program during init, none at the end.
    pub fn awaited(&self) -> (program: Option<Program>)
        ensures
            program == self.spec_awaited(),
    {
        match self {
            LifecycleState::Loading => Some(Program::Init),
            LifecycleState::Init => Some(Program::Update),
            LifecycleState::Update => None,
        }
    }

    /// The program that runs in this state: none while loading.
    pub fn runs(&self) -> (program: Option<Program>)
        ensures
            program == self.spec_runs(),
    {
        match self {
            LifecycleState::Loading => None,
            LifecycleState::Init => Some(Program::Init),
            LifecycleState::Update => Some(Program::Update),
        }
    }

    /// The state that follows once the awaited program is ready. The rank
    /// grows by one, except at the end.
    pub fn successor(&self) -> (next: LifecycleState)
        ensures
            next == self.spec_successor(),
            next.rank() == if *self == LifecycleState::Update {
                2nat
            } else {
                self.rank() + 1
            },
    {
        match self {
            LifecycleState::Loading => LifecycleState::Init,
            LifecycleState::Init => LifecycleState::Update,
            LifecycleState::Update => LifecycleState::Update,
        }
    }
}

} // verus!
