use skald_compiler::identity::ClassId;
use skald_compiler::layout::{
    array_layout, layout_class, optional_layout, BaseLayout, DataLayout, FieldLayout, TypeLayout,
    MAX_ADDRESSABLE_SIZE,
};
use skald_compiler::mir::{MirPrimitiveType, MirSharedTarget, MirType};

#[test]
fn lays_out_empty_mixed_padded_and_reordered_fields() {
    let empty = layout_class(None, &vec![]).unwrap();
    assert_eq!(empty.ty(), TypeLayout::new(1, 1));

    let mixed = layout_class(
        None,
        &vec![
            TypeLayout::new(1, 1),
            TypeLayout::new(8, 8),
            TypeLayout::new(1, 1),
        ],
    )
    .unwrap();
    assert_eq!(mixed.ty(), TypeLayout::new(24, 8));
    assert_eq!(
        mixed.fields,
        [
            FieldLayout { offset: 0 },
            FieldLayout { offset: 8 },
            FieldLayout { offset: 16 },
        ]
    );

    let reordered = layout_class(
        None,
        &vec![
            TypeLayout::new(8, 8),
            TypeLayout::new(1, 1),
            TypeLayout::new(1, 1),
        ],
    )
    .unwrap();
    assert_eq!(reordered.ty(), TypeLayout::new(16, 8));
    assert_eq!(reordered.fields[1].offset, 8);
    assert_eq!(reordered.fields[2].offset, 9);
}

#[test]
fn lays_out_the_direct_base_before_derived_fields() {
    let base = ClassId::new(0);
    let derived = layout_class(
        Some((base, TypeLayout::new(16, 8))),
        &vec![TypeLayout::new(1, 1), TypeLayout::new(8, 8)],
    )
    .unwrap();

    assert_eq!(
        derived.base(),
        Some(BaseLayout {
            class: base,
            offset: 0,
        })
    );
    assert_eq!(derived.fields[0].offset, 16);
    assert_eq!(derived.fields[1].offset, 24);
    assert_eq!(derived.ty(), TypeLayout::new(32, 8));

    let empty_base = layout_class(
        Some((base, TypeLayout::new(1, 1))),
        &vec![TypeLayout::new(8, 8)],
    )
    .unwrap();
    assert_eq!(empty_base.fields[0].offset, 8);
    assert_eq!(empty_base.ty(), TypeLayout::new(16, 8));
}

#[test]
fn defines_the_primitive_target_layout_contract() {
    let data = DataLayout {
        classes: vec![],
        arrays: vec![],
    };
    for ty in [MirType::I64, MirType::U64, MirType::F64] {
        assert_eq!(data.ty(ty).unwrap(), TypeLayout::new(8, 8));
    }
    for ty in [MirType::U8, MirType::Bool] {
        assert_eq!(data.ty(ty).unwrap(), TypeLayout::new(1, 1));
    }
    assert_eq!(
        data.ty(MirType::Shared(MirSharedTarget::Obj)).unwrap(),
        TypeLayout::new(8, 8)
    );
    assert!(data.ty(MirType::Unit).is_err());
    assert!(data.ty(MirType::Obj).is_err());
}

#[test]
fn lays_out_inline_primitive_arrays_and_checks_every_size_component() {
    for (element, expected_stride) in [(TypeLayout::new(8, 8), 8usize), (TypeLayout::new(1, 1), 1)] {
        let layout = array_layout(element).unwrap();
        assert_eq!(layout.descriptor(), TypeLayout::new(8, 8));
        assert_eq!(layout.element, element);
        assert_eq!(layout.element_offset(), 16);
        assert_eq!(layout.stride(), expected_stride);
        assert_eq!(layout.allocation_size(0), Some(None));
        assert_eq!(
            layout.allocation_size(3),
            Some(Some(16 + 3 * u64::try_from(expected_stride).unwrap()))
        );
        assert_eq!(layout.allocation_size(layout.maximum_length() + 1), None);
    }

    let wide = array_layout(TypeLayout::new(8, 8)).unwrap();
    assert_eq!(
        wide.maximum_length(),
        (u64::MAX - 16) / 8,
        "allocation arithmetic is stricter than the language length ceiling"
    );
    let byte = array_layout(TypeLayout::new(1, 1)).unwrap();
    assert_eq!(byte.maximum_length(), i64::MAX as u64);
}

#[test]
fn lays_out_primitive_optionals_with_state_before_aligned_payload() {
    for (payload, expected) in [
        (MirPrimitiveType::I64, (16, 8, 8)),
        (MirPrimitiveType::U64, (16, 8, 8)),
        (MirPrimitiveType::F64, (16, 8, 8)),
        (MirPrimitiveType::U8, (16, 8, 8)),
        (MirPrimitiveType::Bool, (16, 8, 8)),
    ] {
        let layout = optional_layout(payload).unwrap();
        assert_eq!(
            (
                layout.ty().size(),
                layout.ty().alignment(),
                layout.payload_offset()
            ),
            expected
        );
        assert_eq!(layout.state_offset(), 0);
    }
}

#[test]
fn rejects_checked_size_and_alignment_overflow() {
    assert!(layout_class(None, &vec![TypeLayout::new(usize::MAX, 1), TypeLayout::new(1, 1)]).is_none());
    assert!(layout_class(None, &vec![TypeLayout::new(usize::MAX - 3, 8)]).is_none());
    assert!(layout_class(None, &vec![TypeLayout::new(MAX_ADDRESSABLE_SIZE + 1, 1)]).is_none());
    assert!(layout_class(
        Some((ClassId::new(0), TypeLayout::new(usize::MAX, 8))),
        &vec![TypeLayout::new(1, 1)],
    )
    .is_none());
}
