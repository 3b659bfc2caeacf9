use skald_compiler::array_legality;
use skald_compiler::body::{
    MirArrayInstruction, MirArrayOwnership, MirArrayFailure, MirArrayPositionKind, MirBlock,
    MirInstruction, MirPrimitiveCast, MirPrimitiveCastKind, MirRvalueKind, MirTerminator,
};
use skald_compiler::identity::{
    ArrayTypeId, CallableId, ClassId, FunctionId, MethodId, StorageId, ValueId,
};
use skald_compiler::legality::{abi_limit, check_member_target, primitive_cast_is_supported};
use skald_compiler::mir::{
    MirArrayType, MirCallableSignature, MirDefinition, MirMethod, MirMethodKind, MirParameter,
    MirPlace, MirPlaceBase, MirPlaceProjection, MirPrimitiveType, MirProgram, MirStorage,
    MirStorageKind, MirType,
};

fn program(array_types: Vec<MirArrayType>, definitions: Vec<MirDefinition>) -> MirProgram {
    MirProgram {
        classes: vec![],
        array_types,
        optional_types: vec![],
        virtual_families: vec![],
        interfaces: vec![],
        literal_data: vec![],
        static_fields: vec![],
        defined_methods: vec![],
        methods: vec![],
        signatures: vec![],
        definitions,
        static_lifecycle: None,
        external_functions: vec![],
    }
}

fn definition(storage: Vec<MirStorage>, instructions: Vec<MirInstruction>) -> MirDefinition {
    MirDefinition {
        callable: CallableId::Function(FunctionId::new(7)),
        has_receiver: false,
        storage,
        values: vec![MirType::U64],
        blocks: vec![MirBlock { instructions, terminator: Some(MirTerminator::Return { value: None }) }],
    }
}

fn storage(index: usize, kind: MirStorageKind, ty: MirType) -> MirStorage {
    MirStorage { id: StorageId::new(index), kind, ty }
}

fn local(index: usize) -> MirPlace {
    MirPlace { base: MirPlaceBase::Storage(StorageId::new(index)), projections: vec![] }
}

#[test]
fn rejects_array_types_with_view_elements() {
    let program = program(
        vec![
            MirArrayType { id: ArrayTypeId::new(0), element: MirType::I64 },
            MirArrayType { id: ArrayTypeId::new(1), element: MirType::Obj },
        ],
        vec![],
    );
    let error = array_legality::check(&program).unwrap_err();
    assert_eq!(error.callable(), None);
    assert_eq!(error.message(), "array 1 has an element type not supported by x86-64");
}

#[test]
fn programs_without_arrays_have_nothing_to_check() {
    let program = program(
        vec![],
        vec![definition(
            vec![storage(0, MirStorageKind::Temporary, MirType::Array(ArrayTypeId::new(0)))],
            vec![],
        )],
    );
    assert!(array_legality::check(&program).is_ok());
}

#[test]
fn rejects_array_storage_outside_the_profile() {
    let array = ArrayTypeId::new(0);
    let program = program(
        vec![MirArrayType { id: array, element: MirType::U8 }],
        vec![definition(vec![storage(0, MirStorageKind::Temporary, MirType::Array(array))], vec![])],
    );
    let error = array_legality::check(&program).unwrap_err();
    assert_eq!(error.callable(), Some(CallableId::Function(FunctionId::new(7))));
    assert_eq!(
        error.message(),
        "array storage is outside the executable inline/shared array profile"
    );
}

#[test]
fn checks_array_places_and_element_places() {
    let array = ArrayTypeId::new(0);
    let program = program(
        vec![MirArrayType { id: array, element: MirType::I64 }],
        vec![],
    );
    let definition = definition(
        vec![
            storage(0, MirStorageKind::Local, MirType::Array(array)),
            storage(1, MirStorageKind::Local, MirType::U64),
            storage(2, MirStorageKind::Local, MirType::I64),
        ],
        vec![],
    );
    assert!(array_legality::require_executable_array_place(&program, &definition, &local(0)).is_ok());
    assert!(array_legality::require_executable_array_place(&program, &definition, &local(2)).is_err());

    let element = MirPlace {
        base: MirPlaceBase::Storage(StorageId::new(0)),
        projections: vec![MirPlaceProjection::ArrayElement { array, index: StorageId::new(1) }],
    };
    assert!(array_legality::has_array_element_projection(&element));
    assert!(array_legality::require_executable_element_place(&program, &definition, &element).is_ok());
    let error = array_legality::require_executable_element_place(&program, &definition, &local(2))
        .unwrap_err();
    assert_eq!(error.message(), "only inline array element places are executable on x86-64");
    assert_eq!(
        array_legality::projected_type(&program, MirType::Array(array), &element),
        Some(MirType::I64)
    );
}

#[test]
fn rejects_array_operations_outside_the_profile() {
    let array = ArrayTypeId::new(0);
    let program = program(vec![MirArrayType { id: array, element: MirType::I64 }], vec![]);
    let definition = definition(vec![storage(0, MirStorageKind::Local, MirType::Array(array))], vec![]);
    let allowed = MirInstruction::Array(MirArrayInstruction::Allocate {
        backing: StorageId::new(0),
        array,
        length: ValueId::new(0),
        ownership: MirArrayOwnership::Inline,
        failure: MirArrayFailure::AllocationSize,
    });
    assert!(array_legality::check_instruction(&program, &definition, &allowed).is_ok());
    let rejected = MirInstruction::Array(MirArrayInstruction::Normalize {
        owner: local(0),
        kind: MirArrayPositionKind::RangeOffset,
    });
    let error = array_legality::check_instruction(&program, &definition, &rejected).unwrap_err();
    assert_eq!(
        error.message(),
        "verified array operation is outside the executable array profile"
    );
    let length = MirInstruction::Assign {
        destination: ValueId::new(0),
        rvalue: MirRvalueKind::ArrayLength { source: local(0) },
    };
    assert!(array_legality::check_instruction(&program, &definition, &length).is_ok());
}

#[test]
fn reports_member_targets_without_definitions_or_encodable_arguments() {
    let method = MethodId::new(ClassId::new(1), 2);
    let caller = CallableId::Function(FunctionId::new(0));
    let mut program = program(vec![], vec![]);
    let error = check_member_target(&program, caller, CallableId::Method(method)).unwrap_err();
    assert_eq!(error.callable(), Some(caller));
    assert_eq!(error.message(), "member call target method 1.2 has no MIR definition");

    program.methods.push(MirMethod { id: method, kind: MirMethodKind::Instance });
    program.signatures.push(MirCallableSignature {
        callable: CallableId::Method(method),
        parameters: MirParameter::values(&vec![MirType::I64]),
        return_type: MirType::Unit,
    });
    program.definitions.push(MirDefinition {
        callable: CallableId::Method(method),
        has_receiver: true,
        storage: vec![],
        values: vec![],
        blocks: vec![],
    });
    assert!(check_member_target(&program, caller, CallableId::Method(method)).is_ok());

    program.signatures[0].parameters = MirParameter::values(&vec![MirType::Unit]);
    let error = check_member_target(&program, caller, CallableId::Method(method)).unwrap_err();
    assert_eq!(error.message(), "outgoing argument area exceeds the x86-64 ABI encoding limits");
}

#[test]
fn casts_and_limits() {
    let cast = |kind| MirPrimitiveCast {
        source: MirPrimitiveType::F64,
        target: MirPrimitiveType::I64,
        kind,
    };
    assert!(primitive_cast_is_supported(cast(MirPrimitiveCastKind::ToF64)));
    assert!(primitive_cast_is_supported(cast(MirPrimitiveCastKind::BitReinterpretation)));
    assert!(!primitive_cast_is_supported(cast(MirPrimitiveCastKind::CheckedF64ToInteger)));
    let error = abi_limit(CallableId::Function(FunctionId::new(3)), "incoming argument area");
    assert_eq!(error.message(), "incoming argument area exceeds the x86-64 ABI encoding limits");
}
