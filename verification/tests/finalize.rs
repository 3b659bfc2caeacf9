use skald_compiler::dispatch::DispatchMetadata;
use skald_compiler::finalize::{lower_all, lower_class};
use skald_compiler::identity::{ClassId, FieldId};
use skald_compiler::layout::DataLayout;
use skald_compiler::machine::{Instruction, Label, Operand, Register};
use skald_compiler::mir::{MirCopyCapability, MirClass, MirDestructionStep, MirField, MirProgram, MirSharedTarget, MirType};

fn class(
    index: usize,
    base: Option<usize>,
    fields: Vec<MirType>,
    destruction: Vec<MirDestructionStep>,
) -> MirClass {
    let id = ClassId::new(index);
    MirClass {
        id,
        direct_base: base.map(ClassId::new),
        fields: fields
            .into_iter()
            .enumerate()
            .map(|(field, ty)| MirField { id: FieldId::new(id, field), ty })
            .collect(),
        destruction,
        conformances: vec![],
        copy_constructor: MirCopyCapability::Unavailable,
    }
}

fn program(classes: Vec<MirClass>) -> MirProgram {
    MirProgram {
        classes,
        array_types: vec![],
        optional_types: vec![],
        virtual_families: vec![],
        interfaces: vec![],
        literal_data: vec![],
        static_fields: vec![],
        defined_methods: vec![],
        methods: vec![],
        signatures: vec![],
        definitions: vec![],
        static_lifecycle: None,
        external_functions: vec![],
    }
}

fn dispatch() -> DispatchMetadata {
    DispatchMetadata { tables: vec![], interface_starts: vec![], finalizer_displacement: 16 }
}

fn complete_home() -> Operand {
    Operand::Memory { base: Register::Rbp, displacement: -8 }
}

#[test]
fn user_body_runs_with_the_complete_object_and_its_table() {
    let program = program(vec![class(
        0,
        None,
        vec![MirType::I64],
        vec![MirDestructionStep::UserBody(ClassId::new(0))],
    )]);
    let layout = DataLayout::compute(&program).unwrap();
    let function = lower_class(&program, &layout, &dispatch(), ClassId::new(0)).unwrap();
    assert_eq!(function.symbol, "ska_complete_finalizer_0");
    assert!(!function.exported);
    assert_eq!(
        function.instructions,
        vec![
            Instruction::Push(Register::Rbp),
            Instruction::Move {
                source: Operand::Register(Register::Rsp),
                destination: Operand::Register(Register::Rbp),
            },
            Instruction::ReserveStack(16),
            Instruction::Move {
                source: Operand::Register(Register::Rdi),
                destination: complete_home(),
            },
            Instruction::Move { source: complete_home(), destination: Operand::Register(Register::Rdi) },
            Instruction::Move { source: complete_home(), destination: Operand::Register(Register::Rsi) },
            Instruction::LoadSymbolAddress {
                symbol: "ska_dispatch_table_0".into(),
                destination: Register::Rdx,
            },
            Instruction::Call("ska_destructor_0".into()),
            Instruction::Leave,
            Instruction::Return,
        ]
    );
}

#[test]
fn shared_fields_are_released_at_their_offsets_with_numbered_labels() {
    let program = program(vec![class(
        0,
        None,
        vec![MirType::I64, MirType::Shared(MirSharedTarget::Class(ClassId::new(0)))],
        vec![MirDestructionStep::SharedField(FieldId::new(ClassId::new(0), 1))],
    )]);
    let layout = DataLayout::compute(&program).unwrap();
    let function = lower_class(&program, &layout, &dispatch(), ClassId::new(0)).unwrap();
    let instructions = &function.instructions;
    assert_eq!(
        instructions[4],
        Instruction::Move { source: complete_home(), destination: Operand::Register(Register::R11) }
    );
    assert_eq!(
        instructions[5],
        Instruction::LoadEffectiveAddress {
            source: Operand::Memory { base: Register::R11, displacement: 8 },
            destination: Register::R11,
        }
    );
    // The release labels are numbered by the seven instructions before them.
    assert_eq!(
        instructions[8],
        Instruction::JumpIfEqual(Label::new(".Lska_class_0_field_0_1_release_invalid_7".into()))
    );
    assert!(instructions.contains(&Instruction::Label(Label::new(
        ".Lska_class_0_field_0_1_release_complete_7".into()
    ))));
    assert!(instructions.contains(&Instruction::Move {
        source: Operand::Memory { base: Register::R11, displacement: 16 },
        destination: Operand::Register(Register::R11),
    }));
    assert_eq!(instructions.len(), 7 + 33 + 1 + 2);
}

#[test]
fn inline_fields_and_bases_run_nested_plans_at_their_offsets() {
    let leaf = ClassId::new(0);
    let program = program(vec![
        class(0, None, vec![MirType::I64], vec![MirDestructionStep::UserBody(leaf)]),
        class(
            1,
            Some(0),
            vec![MirType::Class(leaf)],
            vec![
                MirDestructionStep::Field(FieldId::new(ClassId::new(1), 0)),
                MirDestructionStep::Base(leaf),
            ],
        ),
    ]);
    let layout = DataLayout::compute(&program).unwrap();
    let function = lower_class(&program, &layout, &dispatch(), ClassId::new(1)).unwrap();
    let calls: Vec<&Instruction> = function
        .instructions
        .iter()
        .filter(|instruction| matches!(instruction, Instruction::Call(_)))
        .collect();
    assert_eq!(calls.len(), 2);
    // The field sits after the eight-byte base, so its body gets an offset.
    assert!(function.instructions.contains(&Instruction::LoadEffectiveAddress {
        source: Operand::Memory { base: Register::Rdi, displacement: 8 },
        destination: Register::Rdi,
    }));
}

#[test]
fn plan_errors_name_the_offending_field_or_base() {
    let bad_field = program(vec![class(
        0,
        None,
        vec![MirType::I64],
        vec![MirDestructionStep::SharedField(FieldId::new(ClassId::new(0), 0))],
    )]);
    let layout = DataLayout::compute(&bad_field).unwrap();
    let error = lower_class(&bad_field, &layout, &dispatch(), ClassId::new(0)).unwrap_err();
    assert_eq!(error.message, "finalizer for 0 contains non-shared field 0.0");

    let unknown = program(vec![class(
        0,
        None,
        vec![],
        vec![MirDestructionStep::Field(FieldId::new(ClassId::new(0), 3))],
    )]);
    let layout = DataLayout::compute(&unknown).unwrap();
    let error = lower_class(&unknown, &layout, &dispatch(), ClassId::new(0)).unwrap_err();
    assert_eq!(error.message, "unknown finalizer field 0.3");

    let no_base = program(vec![
        class(0, None, vec![], vec![]),
        class(1, None, vec![], vec![MirDestructionStep::Base(ClassId::new(0))]),
    ]);
    let layout = DataLayout::compute(&no_base).unwrap();
    let error = lower_all(&no_base, &layout, &dispatch()).unwrap_err();
    assert_eq!(error.message, "class 1 has no direct base 0");
}

#[test]
fn every_class_gets_a_finalizer_in_declaration_order() {
    let program = program(vec![class(0, None, vec![], vec![]), class(1, None, vec![], vec![])]);
    let layout = DataLayout::compute(&program).unwrap();
    let functions = lower_all(&program, &layout, &dispatch()).unwrap();
    assert_eq!(functions.len(), 2);
    assert_eq!(functions[0].symbol, "ska_complete_finalizer_0");
    assert_eq!(functions[1].symbol, "ska_complete_finalizer_1");
    assert_eq!(functions[1].instructions.len(), 6);
}
