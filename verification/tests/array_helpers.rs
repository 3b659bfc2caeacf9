use skald_compiler::array_helpers::{
    lower_aggregate_optional_copier, lower_aggregate_optional_destroyer, lower_all, lower_clone, lower_copier, lower_destroyer,
    lower_initializer, lower_release, lower_shared_finalizer,
};
use skald_compiler::emit::emit;
use skald_compiler::identity::{ArrayTypeId, ClassId, OptionalTypeId};
use skald_compiler::layout::{array_layout, ClassLayout, DataLayout, TypeLayout};
use skald_compiler::machine::{
    AssemblyFunction, AssemblyProgram, AssemblyRuntimeTraceMetadata, Instruction, Label, Operand,
    Register,
};
use skald_compiler::mir::{
    MirArrayType, MirOptionalStorage, MirOptionalType, MirPrimitiveType, MirProgram,
    MirSharedTarget, MirType,
};

fn layouts(elements: Vec<TypeLayout>) -> DataLayout {
    DataLayout {
        classes: vec![],
        arrays: elements.into_iter().map(|element| array_layout(element).unwrap()).collect(),
    }
}

fn listing(function: AssemblyFunction) -> String {
    let text = emit(&AssemblyProgram {
        functions: vec![function],
        static_slots: vec![],
        dispatch_tables: vec![],
        literal_backings: vec![],
        panic_messages: vec![],
        runtime_trace: AssemblyRuntimeTraceMetadata {
            strings: vec![],
            contexts: vec![],
            locations: vec![],
        },
    });
    let body: Vec<&str> = text.lines().skip(5).collect();
    body[..body.len() - 3].join("\n")
}

#[test]
fn byte_initializer_stores_a_zero_byte_through_a_scaled_index() {
    let data = layouts(vec![TypeLayout::new(1, 1)]);
    let function = lower_initializer(ArrayTypeId::new(0), MirType::U8, &data).unwrap();
    assert_eq!(function.symbol, "ska_array_initialize_element_0");
    assert!(!function.exported);
    assert_eq!(
        listing(function),
        "    mov rax, 0\n    mov byte ptr [rdi + rsi*1 + 16], al\n    ret"
    );
}

#[test]
fn odd_strides_compute_the_element_address_first() {
    let data = layouts(vec![TypeLayout::new(24, 8)]);
    let function = lower_initializer(ArrayTypeId::new(0), MirType::I64, &data).unwrap();
    assert_eq!(function.instructions.len(), 8);
    assert_eq!(
        function.instructions[1],
        Instruction::MoveImmediate64 { bits: 24, destination: skald_compiler::machine::Register::R11 }
    );
}

#[test]
fn release_drops_an_owner_and_frees_the_last() {
    let text = listing(lower_release(ArrayTypeId::new(3)).unwrap());
    assert!(text.starts_with("    push rbp\n    mov rbp, rsp\n    sub rsp, 16\n    test rdi, rdi\n    je .Lska_array_3_release_complete"));
    assert!(text.contains("    call ska_array_destroy_element_3\n"));
    assert!(text.contains("    call ska_rt_free\n.Lska_array_3_release_complete:\n    leave\n    ret"));
}

#[test]
fn helpers_report_missing_layouts() {
    let data = layouts(vec![]);
    let error = lower_clone(ArrayTypeId::new(2), &data).unwrap_err();
    assert_eq!(error.message(), "array 2 has no clone layout");
    let error = lower_shared_finalizer(ArrayTypeId::new(2), &data).unwrap_err();
    assert_eq!(error.message(), "array 2 has no shared finalizer layout");
    let error = lower_destroyer(ArrayTypeId::new(2), MirType::I64, &data).unwrap_err();
    assert_eq!(error.message(), "array 2 has no destroy layout");
}

#[test]
fn shared_finalizer_adjusts_from_the_payload_to_the_inline_origin() {
    let data = layouts(vec![TypeLayout::new(8, 8)]);
    let text = listing(lower_shared_finalizer(ArrayTypeId::new(0), &data).unwrap());
    assert!(text.contains("    lea rdi, [rax - 8]\n"));
}

#[test]
fn copiers_and_destroyers_call_out_for_classes_and_reject_views() {
    let data = layouts(vec![TypeLayout::new(8, 8)]);
    let array = ArrayTypeId::new(0);
    let copier = listing(lower_copier(array, MirType::Class(ClassId::new(1)), &data).unwrap());
    assert_eq!(
        copier,
        "    push rbp\n    mov rbp, rsp\n    lea rdi, [rdi + rdx*8 + 16]\n    lea rsi, [rsi + rcx*8 + 16]\n    call ska_class_copy_1\n    leave\n    ret"
    );
    let destroyer = listing(lower_destroyer(array, MirType::I64, &data).unwrap());
    assert_eq!(destroyer, "    ret");
    let error = lower_copier(array, MirType::Obj, &data).unwrap_err();
    assert_eq!(error.message(), "array 0 has an unsupported copy element Obj");
    let error = lower_destroyer(array, MirType::Unit, &data).unwrap_err();
    assert_eq!(error.message(), "array 0 has unsupported destruction element unit");
}

#[test]
fn lower_all_generates_six_helpers_per_array_type() {
    let data = layouts(vec![TypeLayout::new(8, 8), TypeLayout::new(1, 1)]);
    let program = MirProgram {
        classes: vec![],
        array_types: vec![
            MirArrayType { id: ArrayTypeId::new(0), element: MirType::I64 },
            MirArrayType { id: ArrayTypeId::new(1), element: MirType::Bool },
        ],
        optional_types: vec![],
        virtual_families: vec![],
        interfaces: vec![],
        literal_data: vec![],
        static_fields: vec![],
        defined_methods: vec![],
        methods: vec![],
        signatures: vec![],
        definitions: vec![],
        static_lifecycle: None,
        external_functions: vec![],
    };
    let functions = lower_all(&program, &data).unwrap();
    let symbols: Vec<&str> = functions.iter().map(|f| f.symbol.as_str()).collect();
    assert_eq!(
        symbols,
        [
            "ska_array_initialize_element_0",
            "ska_array_copy_element_0",
            "ska_array_clone_0",
            "ska_array_destroy_element_0",
            "ska_array_release_0",
            "ska_shared_array_finalizer_0",
            "ska_array_initialize_element_1",
            "ska_array_copy_element_1",
            "ska_array_clone_1",
            "ska_array_destroy_element_1",
            "ska_array_release_1",
            "ska_shared_array_finalizer_1",
        ]
    );
}

fn optional_program(storages: Vec<MirOptionalStorage>) -> MirProgram {
    MirProgram {
        classes: vec![],
        array_types: vec![],
        optional_types: storages
            .into_iter()
            .enumerate()
            .map(|(index, storage)| MirOptionalType { id: OptionalTypeId::new(index), storage })
            .collect(),
        virtual_families: vec![],
        interfaces: vec![],
        literal_data: vec![],
        static_fields: vec![],
        defined_methods: vec![],
        methods: vec![],
        signatures: vec![],
        definitions: vec![],
        static_lifecycle: None,
        external_functions: vec![],
    }
}

fn at(base: Register, displacement: i32) -> Operand {
    Operand::Memory { base, displacement }
}

fn label(text: &str) -> Label {
    Label::new(text.to_owned())
}

fn presence_head(optional: usize, source: Operand, destination: Operand) -> Vec<Instruction> {
    vec![
        Instruction::Move { source, destination: Operand::Register(Register::Rax) },
        Instruction::Test(Register::Rax),
        Instruction::JumpIfNotZero(label(&format!(".Lska_array_2_copy_o{optional}_present"))),
        Instruction::Move { source: Operand::Register(Register::Rax), destination },
        Instruction::Jump(label(&format!(".Lska_array_2_copy_o{optional}_complete"))),
        Instruction::Label(label(&format!(".Lska_array_2_copy_o{optional}_present"))),
    ]
}

fn saved_present(optional: usize) -> Vec<Instruction> {
    vec![
        Instruction::Move { source: at(Register::Rsp, 0), destination: Operand::Register(Register::R11) },
        Instruction::ReleaseStack(16),
        Instruction::MoveImmediate64 { bits: 1, destination: Register::Rax },
        Instruction::Move { source: Operand::Register(Register::Rax), destination: at(Register::R11, 0) },
        Instruction::Label(label(&format!(".Lska_array_2_copy_o{optional}_complete"))),
    ]
}

fn save_destination(destination: Operand) -> Vec<Instruction> {
    vec![
        Instruction::ReserveStack(16),
        Instruction::LoadEffectiveAddress { source: destination, destination: Register::R11 },
        Instruction::Move { source: Operand::Register(Register::R11), destination: at(Register::Rsp, 0) },
    ]
}

#[test]
fn nested_optionals_copy_the_inner_optional_behind_the_outer_state() {
    let program = optional_program(vec![
        MirOptionalStorage::Scalar(MirPrimitiveType::I64),
        MirOptionalStorage::Nested(OptionalTypeId::new(0)),
    ]);
    let data = layouts(vec![]);
    let (source, destination) = (at(Register::Rsi, 0), at(Register::Rdi, 0));
    let code = lower_aggregate_optional_copier(
        &program,
        ArrayTypeId::new(2),
        OptionalTypeId::new(1),
        source,
        destination,
        &data,
    )
    .unwrap();
    let inner_source = at(Register::Rsi, 8);
    let inner_destination = at(Register::Rdi, 8);
    let expected = [
        presence_head(1, source, destination),
        save_destination(destination),
        presence_head(0, inner_source, inner_destination),
        vec![
            Instruction::Move { source: at(Register::Rsi, 16), destination: Operand::Register(Register::Rax) },
            Instruction::Move { source: Operand::Register(Register::Rax), destination: at(Register::Rdi, 16) },
            Instruction::MoveImmediate64 { bits: 1, destination: Register::Rax },
            Instruction::Move { source: Operand::Register(Register::Rax), destination: inner_destination },
            Instruction::Label(label(".Lska_array_2_copy_o0_complete")),
        ],
        saved_present(1),
    ]
    .concat();
    assert_eq!(code, expected);
}

#[test]
fn inline_array_optionals_clone_the_payload_array() {
    let program = optional_program(vec![MirOptionalStorage::InlineArray(ArrayTypeId::new(5))]);
    let data = layouts(vec![]);
    let (source, destination) = (at(Register::Rsi, 0), at(Register::Rdi, 0));
    let code = lower_aggregate_optional_copier(
        &program,
        ArrayTypeId::new(2),
        OptionalTypeId::new(0),
        source,
        destination,
        &data,
    )
    .unwrap();
    assert_eq!(code[..9].to_vec(), [presence_head(0, source, destination), save_destination(destination)].concat());
    assert!(code.contains(&Instruction::Call("ska_array_clone_5".to_owned())));
    assert!(code.contains(&Instruction::Move { source: at(Register::Rsi, 8), destination: Operand::Register(Register::Rdi) }));
    assert_eq!(code[code.len() - 5..].to_vec(), saved_present(0));
}

#[test]
fn byte_optionals_and_shared_owners_copy_by_their_kind() {
    let program = optional_program(vec![
        MirOptionalStorage::Scalar(MirPrimitiveType::Bool),
        MirOptionalStorage::SharedOwner(MirSharedTarget::Obj),
        MirOptionalStorage::InlineClass(ClassId::new(4)),
    ]);
    let data = layouts(vec![]);
    let (source, destination) = (at(Register::Rsi, 0), at(Register::Rdi, 0));
    let array = ArrayTypeId::new(2);
    let byte = lower_aggregate_optional_copier(&program, array, OptionalTypeId::new(0), source, destination, &data).unwrap();
    assert!(byte.contains(&Instruction::LoadZeroExtendByte { source: at(Register::Rsi, 8), destination: Register::Rax }));
    let shared = lower_aggregate_optional_copier(&program, array, OptionalTypeId::new(1), source, destination, &data).unwrap();
    assert!(shared.contains(&Instruction::Call(".Lska_shared_handle_retain".to_owned())));
    assert!(shared.contains(&Instruction::Test(Register::Rdi)));
    let error = lower_aggregate_optional_copier(&program, array, OptionalTypeId::new(2), source, destination, &data).unwrap_err();
    assert_eq!(error.message(), "class 4 has no target layout");
}

fn destroy_presence(optional: usize, address: Operand) -> Vec<Instruction> {
    vec![
        Instruction::Move { source: address, destination: Operand::Register(Register::Rax) },
        Instruction::Test(Register::Rax),
        Instruction::JumpIfEqual(label(&format!(".Lska_array_2_destroy_o{optional}_complete"))),
    ]
}

#[test]
fn nested_optionals_destroy_the_inner_payload_when_present() {
    let program = optional_program(vec![
        MirOptionalStorage::InlineClass(ClassId::new(0)),
        MirOptionalStorage::Nested(OptionalTypeId::new(0)),
        MirOptionalStorage::Scalar(MirPrimitiveType::F64),
    ]);
    let data = DataLayout {
        classes: vec![ClassLayout { ty: TypeLayout { size: 16, alignment: 8 }, base: None, fields: vec![] }],
        arrays: vec![],
    };
    let address = at(Register::Rdi, 0);
    let code = lower_aggregate_optional_destroyer(&program, ArrayTypeId::new(2), OptionalTypeId::new(1), address, &data)
        .unwrap();
    let expected = [
        destroy_presence(1, address),
        destroy_presence(0, at(Register::Rdi, 8)),
        vec![
            Instruction::LoadEffectiveAddress { source: at(Register::Rdi, 16), destination: Register::Rdi },
            Instruction::Call("ska_complete_finalizer_0".to_owned()),
            Instruction::Label(label(".Lska_array_2_destroy_o0_complete")),
            Instruction::Label(label(".Lska_array_2_destroy_o1_complete")),
        ],
    ]
    .concat();
    assert_eq!(code, expected);
    let scalar = lower_aggregate_optional_destroyer(&program, ArrayTypeId::new(2), OptionalTypeId::new(2), address, &data)
        .unwrap();
    assert!(scalar.is_empty());
}

#[test]
fn shared_and_array_optionals_are_released_by_their_kind() {
    let program = optional_program(vec![
        MirOptionalStorage::SharedOwner(MirSharedTarget::Obj),
        MirOptionalStorage::InlineArray(ArrayTypeId::new(5)),
        MirOptionalStorage::InlineClass(ClassId::new(4)),
    ]);
    let data = layouts(vec![]);
    let address = at(Register::Rsi, 24);
    let array = ArrayTypeId::new(2);
    let shared = lower_aggregate_optional_destroyer(&program, array, OptionalTypeId::new(0), address, &data).unwrap();
    assert_eq!(
        shared,
        vec![
            Instruction::Move { source: address, destination: Operand::Register(Register::Rdi) },
            Instruction::Test(Register::Rdi),
            Instruction::JumpIfEqual(label(".Lska_array_2_destroy_o0_complete")),
            Instruction::Call(".Lska_shared_handle_release".to_owned()),
            Instruction::Label(label(".Lska_array_2_destroy_o0_complete")),
        ]
    );
    let inline = lower_aggregate_optional_destroyer(&program, array, OptionalTypeId::new(1), address, &data).unwrap();
    assert_eq!(
        inline,
        [
            destroy_presence(1, address),
            vec![
                Instruction::Move { source: at(Register::Rsi, 32), destination: Operand::Register(Register::Rdi) },
                Instruction::Call("ska_array_release_5".to_owned()),
                Instruction::Label(label(".Lska_array_2_destroy_o1_complete")),
            ],
        ]
        .concat()
    );
    let error = lower_aggregate_optional_destroyer(&program, array, OptionalTypeId::new(2), address, &data).unwrap_err();
    assert_eq!(error.message(), "class 4 has no target layout");
}
