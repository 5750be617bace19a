use compute_dispatch::layout::{
    check_layout, fixed_layout, BindingKind, ImageAccess, ImageUsage, LayoutEntry, LayoutMismatch,
    PixelFormat, ViewDimension,
};

fn image_entry() -> LayoutEntry {
    LayoutEntry {
        slot: 0,
        compute_only: true,
        kind: BindingKind::StorageImage {
            access: ImageAccess::ReadWrite,
            format: PixelFormat::Rgba8Unorm,
            dimension: ViewDimension::D2,
        },
    }
}

fn uniform_entry() -> LayoutEntry {
    LayoutEntry {
        slot: 1,
        compute_only: true,
        kind: BindingKind::UniformBuffer { dynamic_offset: false, min_size: None },
    }
}

#[test]
fn fixed_layout_is_image_then_uniform() {
    assert_eq!(fixed_layout(), vec![image_entry(), uniform_entry()]);
}

#[test]
fn fixed_layout_matches_itself() {
    assert_eq!(check_layout(&fixed_layout()), Ok(()));
    assert_eq!(check_layout(&vec![image_entry(), uniform_entry()]), Ok(()));
}

#[test]
fn empty_declaration_misses_slot_0() {
    assert_eq!(check_layout(&vec![]), Err(LayoutMismatch { index: 0, slot: 0 }));
}

#[test]
fn missing_uniform_buffer_is_reported_at_slot_1() {
    assert_eq!(check_layout(&vec![image_entry()]), Err(LayoutMismatch { index: 1, slot: 1 }));
}

#[test]
fn read_only_image_is_reported_at_slot_0() {
    let mut image = image_entry();
    image.kind = BindingKind::StorageImage {
        access: ImageAccess::ReadOnly,
        format: PixelFormat::Rgba8Unorm,
        dimension: ViewDimension::D2,
    };
    assert_eq!(
        check_layout(&vec![image, uniform_entry()]),
        Err(LayoutMismatch { index: 0, slot: 0 })
    );
}

#[test]
fn other_format_or_dimension_is_reported_at_slot_0() {
    let mut image = image_entry();
    image.kind = BindingKind::StorageImage {
        access: ImageAccess::ReadWrite,
        format: PixelFormat::Other,
        dimension: ViewDimension::D2,
    };
    assert_eq!(
        check_layout(&vec![image, uniform_entry()]),
        Err(LayoutMismatch { index: 0, slot: 0 })
    );
    image.kind = BindingKind::StorageImage {
        access: ImageAccess::ReadWrite,
        format: PixelFormat::Rgba8Unorm,
        dimension: ViewDimension::Other,
    };
    assert_eq!(
        check_layout(&vec![image, uniform_entry()]),
        Err(LayoutMismatch { index: 0, slot: 0 })
    );
}

#[test]
fn dynamic_offset_is_reported_at_slot_1() {
    let mut uniform = uniform_entry();
    uniform.kind = BindingKind::UniformBuffer { dynamic_offset: true, min_size: None };
    assert_eq!(
        check_layout(&vec![image_entry(), uniform]),
        Err(LayoutMismatch { index: 1, slot: 1 })
    );
}

#[test]
fn swapped_slots_are_reported_at_the_first() {
    assert_eq!(
        check_layout(&vec![uniform_entry(), image_entry()]),
        Err(LayoutMismatch { index: 0, slot: 0 })
    );
}

#[test]
fn wrong_kind_or_visibility_is_a_mismatch() {
    let mut uniform = uniform_entry();
    uniform.kind = BindingKind::Other;
    assert_eq!(
        check_layout(&vec![image_entry(), uniform]),
        Err(LayoutMismatch { index: 1, slot: 1 })
    );
    let mut image = image_entry();
    image.compute_only = false;
    assert_eq!(
        check_layout(&vec![image, uniform_entry()]),
        Err(LayoutMismatch { index: 0, slot: 0 })
    );
}

#[test]
fn extra_binding_is_reported_with_its_own_slot() {
    let extra = LayoutEntry { slot: 5, compute_only: true, kind: BindingKind::Other };
    assert_eq!(
        check_layout(&vec![image_entry(), uniform_entry(), extra]),
        Err(LayoutMismatch { index: 2, slot: 5 })
    );
}

#[test]
fn required_usage_has_all_three_flags() {
    let required = ImageUsage::required();
    assert_eq!(
        required,
        ImageUsage { copy_dst: true, storage_binding: true, texture_binding: true }
    );
    assert!(required.is_bindable());
}

#[test]
fn usage_without_a_required_flag_is_not_bindable() {
    for missing in 0..3 {
        let usage = ImageUsage {
            copy_dst: missing != 0,
            storage_binding: missing != 1,
            texture_binding: missing != 2,
        };
        assert!(!usage.is_bindable());
        assert!(!usage.includes(&ImageUsage::required()));
        assert!(ImageUsage::required().includes(&usage));
    }
    let none = ImageUsage { copy_dst: false, storage_binding: false, texture_binding: false };
    assert!(!none.is_bindable());
    assert!(none.includes(&none));
}
