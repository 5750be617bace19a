//! The binding layout that every bundle of this crate follows, and the check
//! of a compute program's declared bindings against it.
//!
//! The layout is fixed: slot 0 is a read-write 2D storage image of format
//! RGBA8 unorm, slot 1 is a uniform buffer without dynamic offset. Both are
//! visible to the compute stage only. A program that declares anything else
//! cannot be bound to a bundle built here.

use vstd::prelude::*;

verus! {

/// Slot of the storage image.
pub const IMAGE_SLOT: u32 = 0;

/// Slot of the uniform buffer.
pub const UNIFORM_SLOT: u32 = 1;

/// How a storage image may be accessed.
#[derive(Clone, Copy, Debug, PartialEq, Eq, Structural)]
pub enum ImageAccess {
    ReadOnly,
    WriteOnly,
    ReadWrite,
}

/// The pixel format of a storage image, as far as this crate tells formats
/// apart.
#[derive(Clone, Copy, Debug, PartialEq, Eq, Structural)]
pub enum PixelFormat {
    Rgba8Unorm,
    Other,
}

/// The dimension of an image view, as far as this crate tells them apart.
#[derive(Clone, Copy, Debug, PartialEq, Eq, Structural)]
pub enum ViewDimension {
    D2,
    Other,
}

/// What a slot binds.
#[derive(Clone, Copy, Debug, PartialEq, Eq, Structural)]
pub enum BindingKind {
    StorageImage { access: ImageAccess, format: PixelFormat, dimension: ViewDimension },
    UniformBuffer { dynamic_offset: bool, min_size: Option<u64> },
    Other,
}

/// One slot of a binding layout.
#[derive(Clone, Copy, Debug, PartialEq, Eq, Structural)]
pub struct LayoutEntry {
    pub slot: u32,
    /// Whether the binding is visible to the compute stage and to no other.
    pub compute_only: bool,
    pub kind: BindingKind,
}

/// A difference between a declared layout and the fixed one.
#[derive(Clone, Copy, Debug, PartialEq, Eq, Structural)]
pub struct LayoutMismatch {
    /// Position of the first entry that differs.
    pub index: usize,
    /// The slot concerned: that of the fixed layout at this position, or, past
    /// its end, that of the declared entry.
    pub slot: u32,
}

/// The usage flags of a surface's image that matter to this crate.
#[derive(Clone, Copy, Debug, PartialEq, Eq, Structural)]
pub struct ImageUsage {
    /// The image can be the destination of a copy.
    pub copy_dst: bool,
    /// The image can be bound as a storage image.
    pub storage_binding: bool,
    /// The image can be sampled, which displaying it needs.
    pub texture_binding: bool,
}

/// The entry of the fixed layout for the storage image.
pub open spec fn spec_image_entry() -> LayoutEntry {
    LayoutEntry {
        slot: IMAGE_SLOT,
        compute_only: true,
        kind: BindingKind::StorageImage {
            access: ImageAccess::ReadWrite,
            format: PixelFormat::Rgba8Unorm,
            dimension: ViewDimension::D2,
        },
    }
}

/// The entry of the fixed layout for the uniform buffer.
pub open spec fn spec_uniform_entry() -> LayoutEntry {
    LayoutEntry {
        slot: UNIFORM_SLOT,
        compute_only: true,
        kind: BindingKind::UniformBuffer { dynamic_offset: false, min_size: None },
    }
}

/// The fixed layout.
pub open spec fn spec_fixed_layout() -> Seq<LayoutEntry> {
    seq![spec_image_entry(), spec_uniform_entry()]
}

/// `declared` and the fixed layout agree on every position before `index` and
/// differ at `index`: in the entry, or because one of them ends there.
pub open spec fn first_mismatch(declared: Seq<LayoutEntry>, index: int) -> bool {
    let fixed = spec_fixed_layout();
    &&& 0 <= index
    &&& index <= declared.len()
    &&& index <= fixed.len()
    &&& forall|j: int| 0 <= j < index ==> declared[j] == fixed[j]
    &&& if index < declared.len() && index < fixed.len() {
        declared[index] != fixed[index]
    } else {
        declared.len() != fixed.len()
    }
}

/// The slot reported for a mismatch at `index`.
pub open spec fn mismatch_slot(declared: Seq<LayoutEntry>, index: int) -> u32 {
    if index < spec_fixed_layout().len() {
        spec_fixed_layout()[index].slot
    } else {
        declared[index].slot
    }
}

/// The fixed layout, in slot order.
pub fn fixed_layout() -> (layout: Vec<LayoutEntry>)
    ensures
        layout@ == spec_fixed_layout(),
{
    let mut layout: Vec<LayoutEntry> = Vec::new();
    layout.push(
        LayoutEntry {
            slot: IMAGE_SLOT,
            compute_only: true,
            kind: BindingKind::StorageImage {
                access: ImageAccess::ReadWrite,
                format: PixelFormat::Rgba8Unorm,
                dimension: ViewDimension::D2,
            },
        },
    );
    layout.push(
        LayoutEntry {
            slot: UNIFORM_SLOT,
            compute_only: true,
            kind: BindingKind::UniformBuffer { dynamic_offset: false, min_size: None },
        },
    );
    layout
}

/// Checks the bindings that a compute program declares against the fixed
/// layout. They match if and only if they are the fixed layout, entry for
/// entry. Otherwise the first position that differs is reported, with its
/// slot.
pub fn check_layout(declared: &Vec<LayoutEntry>) -> (checked: Result<(), LayoutMismatch>)
    ensures
        checked is Ok <==> declared@ == spec_fixed_layout(),
        checked matches Err(mismatch) ==> first_mismatch(declared@, mismatch.index as int)
            && mismatch.slot == mismatch_slot(declared@, mismatch.index as int),
{
    let fixed = fixed_layout();
    let mut i: usize = 0;
    while i < fixed.len()
        invariant
            i <= fixed.len(),
            i <= declared.len(),
            fixed@ == spec_fixed_layout(),
            forall|j: int| 0 <= j < i ==> declared@[j] == fixed@[j],
        decreases fixed.len() - i,
    {
        if i >= declared.len() {
            return Err(LayoutMismatch { index: i, slot: fixed[i].slot });
        }
        if declared[i] != fixed[i] {
            return Err(LayoutMismatch { index: i, slot: fixed[i].slot });
        }
        i += 1;
    }
    if i < declared.len() {
        return Err(LayoutMismatch { index: i, slot: declared[i].slot });
    }
    assert(declared@ =~= fixed@);
    Ok(())
}

impl ImageUsage {
    /// The usage that a surface's image has to allow.
    pub open spec fn spec_required() -> ImageUsage {
        ImageUsage { copy_dst: true, storage_binding: true, texture_binding: true }
    }

    /// Whether every flag of `other` is also set in `self`.
    pub open spec fn spec_includes(self, other: ImageUsage) -> bool {
        &&& other.copy_dst ==> self.copy_dst
        &&& other.storage_binding ==> self.storage_binding
        &&& other.texture_binding ==> self.texture_binding
    }

    /// The usage that a surface's image has to allow: it is a copy
    /// destination, it is bound as a storage image, and it is sampled for
    /// display.
    pub fn required() -> (usage: ImageUsage)
        ensures
            usage == Self::spec_required(),
    {
        ImageUsage { copy_dst: true, storage_binding: true, texture_binding: true }
    }

    /// Whether every flag of `other` is also set in `self`.
    pub fn includes(&self, other: &ImageUsage) -> (included: bool)
        ensures
            included == self.spec_includes(*other),
    {
        (!other.copy_dst || self.copy_dst) && (!other.storage_binding || self.storage_binding)
            && (!other.texture_binding || self.texture_binding)
    }

    /// Whether an image with this usage can serve as a surface: it includes
    /// all that is required.
    pub fn is_bindable(&self) -> (bindable: bool)
        ensures
            bindable == (self.copy_dst && self.storage_binding && self.texture_binding),
            bindable == self.spec_includes(Self::spec_required()),
    {
        self.copy_dst && self.storage_binding && self.texture_binding
    }
}

} // verus!
