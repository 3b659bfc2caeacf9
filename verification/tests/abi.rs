use skald_compiler::abi::{
    align_up, ArgumentLocation, CallLayout, ObjectLocations, ObjectOriginLocations, STACK_ALIGNMENT,
};
use skald_compiler::identity::ClassId;
use skald_compiler::machine::{Register, XmmRegister};
use skald_compiler::mir::{MirParameter, MirPrimitiveType, MirSharedTarget, MirType};

#[test]
fn integer_and_sse_register_counters_are_independent() {
    let layout = CallLayout::classify(&MirParameter::values(&vec![
        MirType::I64,
        MirType::F64,
        MirType::U8,
        MirType::F64,
    ]))
    .unwrap();

    assert_eq!(
        layout.locations(),
        [
            ArgumentLocation::IntegerRegister(Register::Rdi),
            ArgumentLocation::SseRegister(XmmRegister::Xmm0),
            ArgumentLocation::IntegerRegister(Register::Rsi),
            ArgumentLocation::SseRegister(XmmRegister::Xmm1),
        ]
    );
    assert_eq!(layout.stack_size(), 0);
}

#[test]
fn classifies_every_payload_primitive_through_one_exhaustive_boundary() {
    let layout = CallLayout::classify(&MirParameter::values(&vec![
        MirType::I64,
        MirType::U64,
        MirType::U8,
        MirType::Bool,
        MirType::F64,
    ]))
    .unwrap();

    assert_eq!(
        layout.locations(),
        [
            ArgumentLocation::IntegerRegister(Register::Rdi),
            ArgumentLocation::IntegerRegister(Register::Rsi),
            ArgumentLocation::IntegerRegister(Register::Rdx),
            ArgumentLocation::IntegerRegister(Register::Rcx),
            ArgumentLocation::SseRegister(XmmRegister::Xmm0),
        ]
    );
}

#[test]
fn classifies_shared_handles_as_one_integer_component() {
    let layout =
        CallLayout::classify(&MirParameter::values(&vec![MirType::Shared(MirSharedTarget::Obj)]))
            .unwrap();

    assert_eq!(layout.locations(), [ArgumentLocation::IntegerRegister(Register::Rdi)]);
    assert_eq!(layout.stack_size(), 0);
}

#[test]
fn classifies_optional_aggregate_addresses_as_integer_arguments() {
    let layout = CallLayout::classify_internal_call(
        &MirParameter::values(&vec![
            MirType::OptionalPrimitive(MirPrimitiveType::I64),
            MirType::OptionalPrimitive(MirPrimitiveType::F64),
        ]),
        false,
        true,
    )
    .unwrap();

    assert_eq!(
        layout.return_destination(),
        Some(ArgumentLocation::IntegerRegister(Register::Rdi))
    );
    assert_eq!(
        layout.locations(),
        [
            ArgumentLocation::IntegerRegister(Register::Rsi),
            ArgumentLocation::IntegerRegister(Register::Rdx),
        ]
    );
}

#[test]
fn independently_exhausted_classes_share_source_ordered_stack_slots() {
    let mut types = vec![MirType::I64; 6];
    types.extend([MirType::F64; 8]);
    types.extend([MirType::F64, MirType::I64, MirType::F64]);
    let layout = CallLayout::classify(&MirParameter::values(&types)).unwrap();

    assert_eq!(
        &layout.locations()[14..],
        [
            ArgumentLocation::Stack(0),
            ArgumentLocation::Stack(8),
            ArgumentLocation::Stack(16),
        ]
    );
    assert_eq!(layout.stack_size(), 32);
    assert_eq!(
        layout.locations()[14].incoming(),
        Some(ArgumentLocation::Stack(16))
    );
}

#[test]
fn rejects_payload_free_parameters_and_unrepresentable_layouts() {
    assert!(CallLayout::classify(&MirParameter::values(&vec![MirType::Unit])).is_none());
    assert_eq!(align_up(8, STACK_ALIGNMENT), Some(16));
    assert_eq!(align_up(16, STACK_ALIGNMENT), Some(16));
}

#[test]
fn hidden_receiver_carries_address_complete_object_and_metadata() {
    let layout = CallLayout::classify_with_receiver(&MirParameter::values(&vec![
        MirType::I64,
        MirType::F64,
        MirType::I64,
        MirType::F64,
    ]))
    .unwrap();

    assert_eq!(
        layout.receiver(),
        Some(ArgumentLocation::IntegerRegister(Register::Rdi))
    );
    assert_eq!(
        layout.locations(),
        [
            ArgumentLocation::IntegerRegister(Register::Rcx),
            ArgumentLocation::SseRegister(XmmRegister::Xmm0),
            ArgumentLocation::IntegerRegister(Register::R8),
            ArgumentLocation::SseRegister(XmmRegister::Xmm1),
        ]
    );
    assert_eq!(
        layout.receiver_locations(),
        Some(ObjectLocations {
            address: ArgumentLocation::IntegerRegister(Register::Rdi),
            complete: ArgumentLocation::IntegerRegister(Register::Rsi),
            metadata: ArgumentLocation::IntegerRegister(Register::Rdx),
        })
    );
}

#[test]
fn receiver_layout_preserves_independent_exhaustion_and_stack_order() {
    let mut types = vec![MirType::I64; 5];
    types.extend([MirType::F64; 8]);
    types.extend([MirType::I64, MirType::F64]);
    let layout = CallLayout::classify_with_receiver(&MirParameter::values(&types)).unwrap();

    assert_eq!(layout.locations()[13], ArgumentLocation::Stack(16));
    assert_eq!(layout.locations()[14], ArgumentLocation::Stack(24));
    assert_eq!(layout.stack_size(), 32);
}

#[test]
fn alias_addresses_and_origins_are_integer_class() {
    let class = ClassId::new(0);
    let layout = CallLayout::classify(&vec![
        MirParameter::read_only_alias(MirType::Class(class)),
        MirParameter::value(MirType::F64),
        MirParameter::mutable_alias(MirType::Class(class)),
    ])
    .unwrap();

    assert_eq!(
        layout.locations(),
        [
            ArgumentLocation::IntegerRegister(Register::Rdi),
            ArgumentLocation::SseRegister(XmmRegister::Xmm0),
            ArgumentLocation::IntegerRegister(Register::Rcx),
        ]
    );
    assert_eq!(
        layout.parameter_locations()[0].origin(),
        Some(ObjectOriginLocations {
            complete: ArgumentLocation::IntegerRegister(Register::Rsi),
            metadata: ArgumentLocation::IntegerRegister(Register::Rdx),
        })
    );
}

#[test]
fn optional_container_aliases_carry_only_the_container_address() {
    let layout = CallLayout::classify(&vec![
        MirParameter::read_only_alias(MirType::OptionalPrimitive(MirPrimitiveType::I64)),
        MirParameter::mutable_alias(MirType::OptionalClass(ClassId::new(0))),
    ])
    .unwrap();

    assert_eq!(
        layout.locations(),
        [
            ArgumentLocation::IntegerRegister(Register::Rdi),
            ArgumentLocation::IntegerRegister(Register::Rsi),
        ]
    );
    assert!(layout
        .parameter_locations()
        .iter()
        .all(|location| location.origin().is_none()));
}

#[test]
fn aliases_and_sse_values_exhaust_independently_in_source_order() {
    let class = ClassId::new(0);
    let mut parameters = vec![MirParameter::read_only_alias(MirType::Class(class)); 6];
    parameters.extend(MirParameter::values(&vec![MirType::F64; 8]));
    parameters.extend([
        MirParameter::mutable_alias(MirType::Class(class)),
        MirParameter::value(MirType::F64),
    ]);
    let layout = CallLayout::classify(&parameters).unwrap();

    assert_eq!(layout.locations()[14], ArgumentLocation::Stack(96));
    assert_eq!(layout.locations()[15], ArgumentLocation::Stack(120));
    assert_eq!(layout.stack_size(), 128);
}

#[test]
fn receiver_aliases_and_sse_values_keep_independent_counters() {
    let class = ClassId::new(0);
    let mut parameters = vec![MirParameter::read_only_alias(MirType::Class(class)); 5];
    parameters.extend(MirParameter::values(&vec![MirType::F64; 8]));
    parameters.extend([
        MirParameter::mutable_alias(MirType::Class(class)),
        MirParameter::value(MirType::F64),
    ]);
    let layout = CallLayout::classify_with_receiver(&parameters).unwrap();

    assert_eq!(
        layout.receiver(),
        Some(ArgumentLocation::IntegerRegister(Register::Rdi))
    );
    assert_eq!(layout.locations()[13], ArgumentLocation::Stack(96));
    assert_eq!(layout.locations()[14], ArgumentLocation::Stack(120));
    assert_eq!(layout.stack_size(), 128);
}

#[test]
fn align_up_rounds_to_the_next_multiple() {
    assert_eq!(align_up(0, 8), Some(0));
    assert_eq!(align_up(1, 8), Some(8));
    assert_eq!(align_up(17, 16), Some(32));
    assert_eq!(align_up(usize::MAX, 16), None);
}
