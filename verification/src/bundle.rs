//! The bind bundle of a surface: what a compute program is bound to when it
//! runs against that surface.
//!
//! A bundle names the surface's image view and carries the surface's
//! parameters. On the device it becomes a bind group of two entries: the image
//! view as a read-write storage image, and a uniform buffer that holds the
//! packed parameters.

use crate::layout::{IMAGE_SLOT, UNIFORM_SLOT};
use crate::params::{be_image, le_image, SurfaceParams, UNIFORM_BLOCK_BYTES};
use vstd::prelude::*;

verus! {

/// What a bind group entry refers to.
#[derive(Clone, Copy, Debug, PartialEq, Eq, Structural)]
pub enum BoundResource {
    /// An image view, by the identifier the surface provider gave it.
    ImageView { view: u64 },
    /// The bundle's uniform buffer from `offset` on; `size` is `None` for the
    /// rest of the buffer.
    UniformBuffer { offset: u64, size: Option<u64> },
}

/// One entry of a bind group.
#[derive(Clone, Copy, Debug, PartialEq, Eq, Structural)]
pub struct BindEntry {
    pub slot: u32,
    pub resource: BoundResource,
}

/// The binding resources of one surface.
#[derive(Clone, Copy, Debug, PartialEq, Eq, Structural)]
pub struct BindBundle {
    /// The resolved image view of the surface.
    pub view: u64,
    /// The parameters that fill the uniform buffer.
    pub params: SurfaceParams,
}

impl BindBundle {
    /// The bundle for a surface whose image view is `view`, if it has one.
    pub open spec fn spec_build(view: Option<u64>, params: SurfaceParams) -> Option<BindBundle> {
        match view {
            Some(v) => Some(BindBundle { view: v, params }),
            None => None,
        }
    }

    /// The two entries of the bundle's bind group.
    pub open spec fn spec_entries(self) -> Seq<BindEntry> {
        seq![
            BindEntry { slot: IMAGE_SLOT, resource: BoundResource::ImageView { view: self.view } },
            BindEntry {
                slot: UNIFORM_SLOT,
                resource: BoundResource::UniformBuffer { offset: 0, size: None },
            },
        ]
    }

    /// Builds the bundle of a surface from its image view and its parameters.
    /// A surface whose image is not resolved yet has no view and gets no
    /// bundle: it is skipped for this frame.
    pub fn build(view: Option<u64>, params: SurfaceParams) -> (bundle: Option<BindBundle>)
        ensures
            bundle == Self::spec_build(view, params),
    {
        match view {
            Some(v) => Some(BindBundle { view: v, params }),
            None => None,
        }
    }

    /// The entries of the bind group, in slot order: the image view at slot 0,
    /// then the whole uniform buffer at slot 1, from offset 0.
    pub fn entries(&self) -> (entries: Vec<BindEntry>)
        ensures
            entries@ == self.spec_entries(),
    {
        let mut entries: Vec<BindEntry> = Vec::new();
        entries.push(
            BindEntry { slot: IMAGE_SLOT, resource: BoundResource::ImageView { view: self.view } },
        );
        entries.push(
            BindEntry {
                slot: UNIFORM_SLOT,
                resource: BoundResource::UniformBuffer { offset: 0, size: None },
            },
        );
        entries
    }

    /// The contents of the uniform buffer: the packed parameters.
    pub fn uniform_block(&self) -> (block: Vec<u8>)
        ensures
            block@.len() == UNIFORM_BLOCK_BYTES,
            block@ == le_image(self.params.words()) || block@ == be_image(self.params.words()),
            forall|j: int| 24 <= j < 32 ==> block@[j] == 0,
    {
        self.params.pack()
    }
}

/// Bundles built for different parameters, or for different image views, are
/// different bundles: two surfaces share one only if they share both.
pub proof fn lemma_bundles_differ(
    view_a: u64,
    params_a: SurfaceParams,
    view_b: u64,
    params_b: SurfaceParams,
)
    requires
        view_a != view_b || params_a != params_b,
    ensures
        BindBundle::spec_build(Some(view_a), params_a) != BindBundle::spec_build(
            Some(view_b),
            params_b,
        ),
{
}

} // verus!
