use skald_compiler::abi::{ArgumentLocation, ObjectOriginLocations};
use skald_compiler::dispatch::DispatchMetadata;
use skald_compiler::emit::emit_instruction;
use skald_compiler::frame::{FrameLayout, ObjectOriginHomes};
use skald_compiler::identity::{
    ArrayTypeId, CallableId, ClassId, FieldId, FunctionId, InterfaceId, InterfaceRequirementId,
    StaticFieldId, StorageId, ValueId, VirtualSlotId,
};
use skald_compiler::machine::{Instruction, Label, Operand, Register};
use skald_compiler::mir::{MirCopyCapability, 
    MirArrayType, MirClass, MirField, MirObjectOrigin, MirPlace, MirPlaceBase, MirPlaceProjection,
    MirProgram, MirSharedTarget, MirStaticField, MirType, MirViewTarget,
};
use skald_compiler::object_abi::{
    projected_exact_object, static_exact_object,
    load_origin_metadata, select_forwarded_origin, select_interface_target,
    select_metadata_symbol, select_shared_metadata, select_virtual_target,
};
use skald_compiler::type_operations::{
    cast_match_label, emit_metadata_membership_branches, select_type_test, shared_target_view,
    type_test_label,
};
use skald_compiler::body::BlockId;
use skald_compiler::call_target::{is_call, CallTarget};
use skald_compiler::identity::MethodId;

fn frame() -> FrameLayout {
    FrameLayout {
        size: 64,
        storage_offsets: vec![-8, -16],
        object_origins: vec![Some(ObjectOriginHomes { complete: -24, metadata: -32 }), None],
        value_offsets: vec![-40],
    }
}

fn dispatch() -> DispatchMetadata {
    DispatchMetadata {
        tables: vec![vec![], vec![], vec![]],
        interface_starts: vec![0, 3],
        finalizer_displacement: 24,
    }
}

fn home(displacement: i32) -> Operand {
    Operand::Memory { base: Register::Rbp, displacement }
}

fn table(class: usize, destination: Register) -> Instruction {
    Instruction::LoadSymbolAddress {
        symbol: format!("ska_dispatch_table_{class}"),
        destination,
    }
}

fn exact(class: usize) -> MirObjectOrigin {
    MirObjectOrigin::Exact {
        complete: MirPlace { base: MirPlaceBase::Storage(StorageId::new(0)), projections: vec![] },
        dynamic_class: ClassId::new(class),
    }
}

#[test]
fn metadata_of_each_origin_kind() {
    let mut output = vec![];
    load_origin_metadata(&frame(), &dispatch(), &exact(2), Register::R11, &mut output);
    load_origin_metadata(
        &frame(),
        &dispatch(),
        &MirObjectOrigin::Forwarded { carrier: StorageId::new(0) },
        Register::R11,
        &mut output,
    );
    load_origin_metadata(
        &frame(),
        &dispatch(),
        &MirObjectOrigin::Shared { owner: StorageId::new(1) },
        Register::Rcx,
        &mut output,
    );
    assert_eq!(
        output,
        vec![
            table(2, Register::R11),
            Instruction::Move { source: home(-32), destination: Operand::Register(Register::R11) },
            Instruction::Move { source: home(-16), destination: Operand::Register(Register::Rcx) },
            Instruction::Move {
                source: Operand::Memory { base: Register::Rcx, displacement: 8 },
                destination: Operand::Register(Register::Rcx),
            },
        ]
    );
}

#[test]
fn metadata_reaches_registers_and_outgoing_stack_slots() {
    let mut output = vec![];
    select_metadata_symbol(&dispatch(), ClassId::new(1), ArgumentLocation::IntegerRegister(Register::Rdx), &mut output);
    select_metadata_symbol(&dispatch(), ClassId::new(1), ArgumentLocation::Stack(16), &mut output);
    select_shared_metadata(&frame(), StorageId::new(1), ArgumentLocation::IntegerRegister(Register::Rax), &mut output);
    select_shared_metadata(&frame(), StorageId::new(1), ArgumentLocation::IntegerRegister(Register::R8), &mut output);
    let rax = Operand::Register(Register::Rax);
    let header = Operand::Memory { base: Register::Rax, displacement: 8 };
    assert_eq!(
        output,
        vec![
            table(1, Register::Rdx),
            table(1, Register::Rax),
            Instruction::Move { source: rax, destination: Operand::Memory { base: Register::Rsp, displacement: 16 } },
            Instruction::Move { source: home(-16), destination: rax },
            Instruction::Move { source: header, destination: rax },
            Instruction::Move { source: home(-16), destination: rax },
            Instruction::Move { source: header, destination: rax },
            Instruction::Move { source: rax, destination: Operand::Register(Register::R8) },
        ]
    );
}

#[test]
fn forwarded_origins_copy_both_homes() {
    let mut output = vec![];
    select_forwarded_origin(
        &frame(),
        StorageId::new(0),
        ObjectOriginLocations::new(
            ArgumentLocation::IntegerRegister(Register::Rsi),
            ArgumentLocation::Stack(8),
        ),
        &mut output,
    );
    assert_eq!(
        output,
        vec![
            Instruction::Move { source: home(-24), destination: Operand::Register(Register::Rsi) },
            Instruction::Move { source: home(-32), destination: Operand::Register(Register::Rax) },
            Instruction::Move {
                source: Operand::Register(Register::Rax),
                destination: Operand::Memory { base: Register::Rsp, displacement: 8 },
            },
        ]
    );
}

#[test]
fn dispatch_targets_read_the_entry_through_the_metadata() {
    let mut output = vec![];
    select_virtual_target(&frame(), &dispatch(), &exact(0), VirtualSlotId::new(2), &mut output)
        .unwrap();
    select_interface_target(
        &frame(),
        &dispatch(),
        &MirObjectOrigin::Forwarded { carrier: StorageId::new(0) },
        InterfaceRequirementId::new(InterfaceId::new(1), 1),
        &mut output,
    )
    .unwrap();
    let r11 = Operand::Register(Register::R11);
    assert_eq!(
        output,
        vec![
            table(0, Register::R11),
            Instruction::Move { source: Operand::Memory { base: Register::R11, displacement: 16 }, destination: r11 },
            Instruction::Move { source: home(-32), destination: r11 },
            Instruction::Move { source: Operand::Memory { base: Register::R11, displacement: 32 }, destination: r11 },
        ]
    );
    let far = select_virtual_target(
        &frame(),
        &dispatch(),
        &exact(0),
        VirtualSlotId::new(usize::MAX / 4),
        &mut output,
    );
    assert!(far.unwrap_err().message().contains("virtual table exceeds x86-64 displacement limits"));
    assert_eq!(output.len(), 4);
}

fn class(index: usize, base: Option<usize>) -> MirClass {
    let id = ClassId::new(index);
    MirClass {
        id,
        direct_base: base.map(ClassId::new),
        fields: vec![MirField { id: FieldId::new(id, 0), ty: MirType::I64 }],
        destruction: vec![],
        conformances: vec![],
        copy_constructor: MirCopyCapability::Unavailable,
    }
}

fn program() -> MirProgram {
    MirProgram {
        classes: vec![class(0, None), class(1, Some(0)), class(2, None)],
        array_types: vec![],
        optional_types: vec![],
        virtual_families: vec![],
        interfaces: vec![],
        literal_data: vec![],
        static_fields: vec![],
        defined_methods: vec![],
        methods: vec![],
        signatures: vec![],
        definitions: vec![],
        static_lifecycle: None,
        external_functions: vec![],
    }
}

#[test]
fn membership_tests_every_class_providing_the_view() {
    let matched = Label::new(".Lmatched".into());
    let mut output = vec![];
    emit_metadata_membership_branches(&program(), &dispatch(), MirViewTarget::Class(ClassId::new(0)), &matched, &mut output);
    let test = |class| {
        vec![
            table(class, Register::Rcx),
            Instruction::Compare { source: Register::Rcx, destination: Register::R11 },
            Instruction::JumpIfEqual(matched.clone()),
        ]
    };
    assert_eq!(output, [test(0), test(1)].concat());
    let mut output = vec![];
    emit_metadata_membership_branches(&program(), &dispatch(), MirViewTarget::Obj, &matched, &mut output);
    assert_eq!(output, [test(0), test(1), test(2)].concat());
}

#[test]
fn type_tests_store_false_then_true_on_a_match() {
    let owner = CallableId::Function(FunctionId::new(3));
    let mut output = vec![];
    select_type_test(
        &program(),
        &frame(),
        &dispatch(),
        owner,
        &MirObjectOrigin::Shared { owner: StorageId::new(1) },
        MirViewTarget::Class(ClassId::new(1)),
        ValueId::new(0),
        &mut output,
    );
    let text = render_lines(&output);
    assert_eq!(
        text,
        [
            "mov rax, 0",
            "mov qword ptr [rbp - 40], rax",
            "mov r11, qword ptr [rbp - 16]",
            "mov r11, qword ptr [r11 + 8]",
            "lea rcx, [rip + ska_dispatch_table_1]",
            "cmp r11, rcx",
            "je .Lska.ska_function_3.type_test_0_matched",
            "jmp .Lska.ska_function_3.type_test_0_finished",
            ".Lska.ska_function_3.type_test_0_matched:",
            "mov rax, 1",
            "mov qword ptr [rbp - 40], rax",
            ".Lska.ska_function_3.type_test_0_finished:",
        ]
    );
}

fn render_lines(output: &[Instruction]) -> Vec<String> {
    output
        .iter()
        .map(|instruction| {
            let mut text = String::new();
            emit_instruction(&mut text, instruction);
            text.trim_end().to_string()
        })
        .collect()
}

#[test]
fn type_operation_labels_and_shared_views() {
    let owner = CallableId::Function(FunctionId::new(1));
    assert_eq!(
        type_test_label(owner, ValueId::new(4), "matched").text,
        ".Lska.ska_function_1.type_test_4_matched"
    );
    let block = BlockId { callable: owner, idx: 6 };
    assert_eq!(cast_match_label(owner, block).text, ".Lska.ska_function_1.cast_6_matched");
    assert_eq!(shared_target_view(MirSharedTarget::Obj), MirViewTarget::Obj);
    assert_eq!(
        shared_target_view(MirSharedTarget::Class(ClassId::new(2))),
        MirViewTarget::Class(ClassId::new(2))
    );
    assert_eq!(
        shared_target_view(MirSharedTarget::Interface(InterfaceId::new(0))),
        MirViewTarget::Interface(InterfaceId::new(0))
    );
}

#[test]
fn call_targets_call_symbols_or_the_dispatch_entry() {
    let mut output = vec![];
    let direct = CallTarget::direct(CallableId::Function(FunctionId::new(4)));
    assert!(!direct.is_indirect());
    assert_eq!(direct.direct_callable(), Some(CallableId::Function(FunctionId::new(4))));
    direct.select(&frame(), &dispatch(), None, &mut output).unwrap();
    let virtual_call = CallTarget::Virtual { selected: MethodId::new(ClassId::new(0), 0), slot: VirtualSlotId::new(1) };
    assert!(virtual_call.is_indirect());
    assert_eq!(virtual_call.direct_callable(), None);
    virtual_call.select(&frame(), &dispatch(), Some(&exact(2)), &mut output).unwrap();
    let interface_call =
        CallTarget::Interface(InterfaceRequirementId::new(InterfaceId::new(0), 2));
    interface_call
        .select(&frame(), &dispatch(), Some(&MirObjectOrigin::Shared { owner: StorageId::new(1) }), &mut output)
        .unwrap();
    let r11 = Operand::Register(Register::R11);
    assert_eq!(
        output,
        vec![
            Instruction::Call("ska_function_4".into()),
            table(2, Register::R11),
            Instruction::Move { source: Operand::Memory { base: Register::R11, displacement: 8 }, destination: r11 },
            Instruction::CallIndirect(Register::R11),
            Instruction::Move { source: home(-16), destination: r11 },
            Instruction::Move { source: Operand::Memory { base: Register::R11, displacement: 8 }, destination: r11 },
            Instruction::Move { source: Operand::Memory { base: Register::R11, displacement: 16 }, destination: r11 },
            Instruction::CallIndirect(Register::R11),
        ]
    );
}

#[test]
fn exact_objects_are_the_last_complete_object_a_place_reaches() {
    let mut program = program();
    program.classes[2].fields[0].ty = MirType::Class(ClassId::new(1));
    program.array_types.push(MirArrayType { id: ArrayTypeId::new(0), element: MirType::Class(ClassId::new(2)) });
    program.static_fields.push(MirStaticField { id: StaticFieldId::new(ClassId::new(0), 0), ty: MirType::Class(ClassId::new(1)) });
    program.static_fields.push(MirStaticField { id: StaticFieldId::new(ClassId::new(0), 1), ty: MirType::I64 });
    let place = MirPlace {
        base: MirPlaceBase::Storage(StorageId::new(0)),
        projections: vec![
            MirPlaceProjection::ArrayElement { array: ArrayTypeId::new(0), index: StorageId::new(1) },
            MirPlaceProjection::Field(FieldId::new(ClassId::new(2), 0)),
            MirPlaceProjection::Base(ClassId::new(0)),
        ],
    };
    let (complete, class) = projected_exact_object(&program, &place).unwrap();
    assert_eq!(class, ClassId::new(1));
    assert_eq!(complete.base, place.base);
    assert_eq!(complete.projections, place.projections[..2].to_vec());
    let root = MirPlace { base: MirPlaceBase::Storage(StorageId::new(0)), projections: vec![] };
    assert!(projected_exact_object(&program, &root).is_none());

    let in_static = MirPlace {
        base: MirPlaceBase::StaticField(StaticFieldId::new(ClassId::new(0), 0)),
        projections: vec![MirPlaceProjection::Base(ClassId::new(0))],
    };
    let (complete, class) = static_exact_object(&program, &in_static).unwrap();
    assert_eq!(class, ClassId::new(1));
    assert!(complete.projections.is_empty());
    let scalar = MirPlace { base: MirPlaceBase::StaticField(StaticFieldId::new(ClassId::new(0), 1)), projections: vec![] };
    assert!(static_exact_object(&program, &scalar).is_none());
    assert!(static_exact_object(&program, &root).is_none());
}

#[test]
fn calls_are_recognized_direct_or_indirect() {
    assert!(is_call(&Instruction::Call("f".into())));
    assert!(is_call(&Instruction::CallIndirect(Register::R11)));
    assert!(!is_call(&Instruction::Jump(Label::new("l".into()))));
}
