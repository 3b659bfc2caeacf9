use skald_compiler::body::MirSelectedCopyOperation;
use skald_compiler::class_copy::{lower_class_copy, lower_class_copy_helpers, required_class_copy_helpers};
use skald_compiler::identity::{ArrayTypeId, CallableId, ClassId, FieldId};
use skald_compiler::fact_projection::{begin_semantic_projection, finish_semantic_projection};
use skald_compiler::facts::{LayoutId, MethodSlot, MethodSlotFact, ObjectViewTarget};
use skald_compiler::layout::DataLayout;
use skald_compiler::machine::{Instruction, Label, Operand, Register};
use skald_compiler::mir::{
    MirArrayType, MirBaseCopy, MirClass, MirCopyCapability, MirField, MirProgram,
    MirSharedTarget, MirSynthesizedCopy, MirSynthesizedFieldCopy, MirType, MirUserCopy,
};

fn class(index: usize, base: Option<usize>, fields: Vec<MirType>, copy: MirCopyCapability) -> MirClass {
    let id = ClassId::new(index);
    MirClass {
        id,
        direct_base: base.map(ClassId::new),
        fields: fields
            .into_iter()
            .enumerate()
            .map(|(field, ty)| MirField { id: FieldId::new(id, field), ty })
            .collect(),
        destruction: vec![],
        conformances: vec![],
        copy_constructor: copy,
    }
}

fn program(classes: Vec<MirClass>, elements: Vec<MirType>) -> MirProgram {
    MirProgram {
        classes,
        array_types: elements
            .into_iter()
            .enumerate()
            .map(|(index, element)| MirArrayType { id: ArrayTypeId::new(index), element })
            .collect(),
        optional_types: vec![],
        virtual_families: vec![],
        interfaces: vec![],
        literal_data: vec![],
        static_fields: vec![],
        defined_methods: vec![],
        methods: vec![],
        signatures: vec![],
        definitions: vec![],
        static_lifecycle: None,
        external_functions: vec![],
    }
}

fn synthesized(base: Option<usize>, fields: Vec<MirSynthesizedFieldCopy>) -> MirCopyCapability {
    MirCopyCapability::Synthesized(MirSynthesizedCopy {
        base: base.map(|base| MirBaseCopy {
            base: ClassId::new(base),
            operation: MirSelectedCopyOperation::Synthesized(ClassId::new(base)),
        }),
        fields,
    })
}

fn field(class: usize, index: usize) -> FieldId {
    FieldId::new(ClassId::new(class), index)
}

fn home(home: i32, register: Register) -> Instruction {
    Instruction::Move {
        source: Operand::Memory { base: Register::Rbp, displacement: home },
        destination: Operand::Register(register),
    }
}

fn at(register: Register, offset: i32) -> Instruction {
    Instruction::LoadEffectiveAddress {
        source: Operand::Memory { base: register, displacement: offset },
        destination: register,
    }
}

fn prologue() -> Vec<Instruction> {
    vec![
        Instruction::Push(Register::Rbp),
        Instruction::Move {
            source: Operand::Register(Register::Rsp),
            destination: Operand::Register(Register::Rbp),
        },
        Instruction::ReserveStack(16),
        Instruction::Move {
            source: Operand::Register(Register::Rdi),
            destination: Operand::Memory { base: Register::Rbp, displacement: -8 },
        },
        Instruction::Move {
            source: Operand::Register(Register::Rsi),
            destination: Operand::Memory { base: Register::Rbp, displacement: -16 },
        },
    ]
}

/// 0: a base with one word; 1: derived from 0, a byte and an inline 0;
/// 2: never held by an array; 3: user copy held optionally.
fn sample() -> MirProgram {
    program(
        vec![
            class(0, None, vec![MirType::I64], synthesized(None, vec![MirSynthesizedFieldCopy::Primitive { field: field(0, 0) }])),
            class(
                1,
                Some(0),
                vec![MirType::U8, MirType::Class(ClassId::new(0))],
                synthesized(
                    Some(0),
                    vec![
                        MirSynthesizedFieldCopy::Primitive { field: field(1, 0) },
                        MirSynthesizedFieldCopy::Class {
                            field: field(1, 1),
                            operation: MirSelectedCopyOperation::Synthesized(ClassId::new(0)),
                        },
                    ],
                ),
            ),
            class(2, None, vec![MirType::I64], synthesized(None, vec![MirSynthesizedFieldCopy::Primitive { field: field(2, 0) }])),
            class(
                3,
                None,
                vec![MirType::I64],
                MirCopyCapability::User(MirUserCopy { base: None, operation: CallableId::CopyConstructor(ClassId::new(3)) }),
            ),
        ],
        vec![MirType::Class(ClassId::new(1)), MirType::I64, MirType::OptionalClass(ClassId::new(3))],
    )
}

#[test]
fn helpers_are_required_exactly_for_classes_array_copies_reach() {
    assert_eq!(required_class_copy_helpers(&sample()), vec![true, true, false, true]);
    let lone = program(
        vec![class(0, None, vec![MirType::I64], MirCopyCapability::Unavailable)],
        vec![MirType::I64],
    );
    assert_eq!(required_class_copy_helpers(&lone), vec![false]);
}

#[test]
fn synthesized_helpers_copy_the_base_then_each_field() {
    let program = sample();
    let layout = DataLayout::compute(&program).unwrap();
    let helper = lower_class_copy(&program, &layout, ClassId::new(1)).unwrap();
    assert_eq!(helper.symbol, "ska_class_copy_1");
    assert!(!helper.exported);
    let byte = Operand::Memory { base: Register::R11, displacement: 0 };
    let expected = [
        prologue(),
        vec![
            home(-8, Register::Rdi),
            home(-16, Register::Rsi),
            Instruction::Call("ska_class_copy_0".into()),
            home(-16, Register::R11),
            at(Register::R11, 8),
            Instruction::LoadZeroExtendByte { source: byte, destination: Register::Rax },
            home(-8, Register::R11),
            at(Register::R11, 8),
            Instruction::MoveByte { source: skald_compiler::machine::ByteRegister::Al, destination: byte },
            home(-8, Register::Rdi),
            at(Register::Rdi, 16),
            home(-16, Register::Rsi),
            at(Register::Rsi, 16),
            Instruction::Call("ska_class_copy_0".into()),
            Instruction::Leave,
            Instruction::Return,
        ],
    ]
    .concat();
    assert_eq!(helper.instructions, expected);
}

#[test]
fn user_copies_receive_both_objects_with_their_tables() {
    let program = sample();
    let layout = DataLayout::compute(&program).unwrap();
    let helper = lower_class_copy(&program, &layout, ClassId::new(3)).unwrap();
    let table = |destination| Instruction::LoadSymbolAddress {
        symbol: "ska_dispatch_table_3".into(),
        destination,
    };
    let expected = [
        prologue(),
        vec![
            home(-8, Register::Rdi),
            home(-8, Register::Rsi),
            table(Register::Rdx),
            home(-16, Register::Rcx),
            home(-16, Register::R8),
            table(Register::R9),
            Instruction::Call("ska_copy_constructor_3".into()),
            Instruction::Leave,
            Instruction::Return,
        ],
    ]
    .concat();
    assert_eq!(helper.instructions, expected);
}

#[test]
fn helper_generation_follows_declaration_order_and_reports_bad_bases() {
    let program = sample();
    let layout = DataLayout::compute(&program).unwrap();
    let helpers = lower_class_copy_helpers(&program, &layout).unwrap();
    let symbols: Vec<_> = helpers.iter().map(|helper| helper.symbol.clone()).collect();
    assert_eq!(symbols, ["ska_class_copy_0", "ska_class_copy_1", "ska_class_copy_3"]);

    let error = lower_class_copy(&program, &layout, ClassId::new(9)).unwrap_err();
    assert_eq!(error.message(), "unknown class copy helper target 9");
    let broken = program_with_wrong_base();
    let layout = DataLayout::compute(&broken).unwrap();
    let error = lower_class_copy(&broken, &layout, ClassId::new(1)).unwrap_err();
    assert_eq!(error.message(), "class 1 has no direct base 2");
}

fn program_with_wrong_base() -> MirProgram {
    program(
        vec![
            class(0, None, vec![MirType::I64], synthesized(None, vec![])),
            class(1, Some(0), vec![], synthesized(Some(2), vec![])),
            class(2, None, vec![], synthesized(None, vec![])),
        ],
        vec![],
    )
}

#[test]
fn shared_fields_gain_an_owner_and_absent_optionals_stay_absent() {
    let shared = program(
        vec![
            class(0, None, vec![], synthesized(None, vec![])),
            class(
                1,
                None,
                vec![
                    MirType::Shared(skald_compiler::mir::MirSharedTarget::Class(ClassId::new(0))),
                    MirType::OptionalShared(skald_compiler::mir::MirSharedTarget::Class(ClassId::new(0))),
                ],
                synthesized(
                    None,
                    vec![
                        MirSynthesizedFieldCopy::Shared { field: field(1, 0) },
                        MirSynthesizedFieldCopy::OptionalShared { field: field(1, 1) },
                    ],
                ),
            ),
        ],
        vec![MirType::Class(ClassId::new(1))],
    );
    let layout = DataLayout::compute(&shared).unwrap();
    let helper = lower_class_copy(&shared, &layout, ClassId::new(1)).unwrap();
    let absent = Label::new(".Lska_class_1_field_1_shared_copy_absent".into());
    assert!(helper.instructions.contains(&Instruction::JumpIfEqual(absent.clone())));
    assert!(helper.instructions.contains(&Instruction::Label(absent)));
    assert!(!helper
        .instructions
        .contains(&Instruction::Label(Label::new(".Lska_class_1_field_0_shared_copy_absent".into()))));
    assert_eq!(
        helper
            .instructions
            .iter()
            .filter(|instruction| **instruction == Instruction::Trap)
            .count(),
        2
    );
}

#[test]
fn inline_layout_cycles_are_rejected() {
    let cyclic = program(
        vec![
            class(0, None, vec![MirType::Class(ClassId::new(1))], MirCopyCapability::Unavailable),
            class(1, None, vec![MirType::I64, MirType::Class(ClassId::new(0))], MirCopyCapability::Unavailable),
        ],
        vec![],
    );
    let error = DataLayout::compute(&cyclic).unwrap_err();
    assert_eq!(error.message(), "recursive inline layout involving class 0");
    let own_base = program(
        vec![class(0, Some(0), vec![MirType::I64], MirCopyCapability::Unavailable)],
        vec![],
    );
    let error = DataLayout::compute(&own_base).unwrap_err();
    assert_eq!(error.message(), "recursive inline layout involving class 0");
}

#[test]
fn semantic_projection_lays_out_the_requested_types() {
    let program = sample();
    let (facts, projection) =
        begin_semantic_projection(&program, &vec![MirType::Class(ClassId::new(1)), MirType::Unit]).unwrap();
    assert_eq!(facts.len(), 2);
    assert_eq!(facts[0].size, projection.layouts.classes[1].ty.size);
    assert_eq!(facts[0].size, 24);
    assert_eq!(facts[1].size, 0);
    match begin_semantic_projection(&program, &vec![MirType::Class(ClassId::new(9))]) {
        Ok(_) => panic!("an undeclared class has no layout"),
        Err(error) => assert_eq!(error.message(), "class 9 has no target layout"),
    }
}

#[test]
fn semantic_projection_finishes_with_layouts_slots_and_views() {
    let program = sample();
    let mut pool: Vec<(MirType, LayoutId)> = Vec::new();
    for class in &program.classes {
        pool.push((MirType::Class(class.id), LayoutId { idx: pool.len() }));
        for field in &class.fields {
            pool.push((field.ty, LayoutId { idx: pool.len() }));
        }
    }
    for array in &program.array_types {
        pool.push((MirType::Array(array.id), LayoutId { idx: pool.len() }));
        pool.push((array.element, LayoutId { idx: pool.len() }));
    }
    let shared = MirType::Shared(MirSharedTarget::Class(ClassId::new(0)));
    pool.push((shared, LayoutId { idx: pool.len() }));
    let (_, projection) = begin_semantic_projection(&program, &vec![]).unwrap();
    let facts = finish_semantic_projection(projection, &program, &pool, &vec![]).unwrap();

    assert_eq!(facts.types.len(), pool.len());
    let header = facts.shared_header.unwrap();
    assert_eq!(header.handle_layout, LayoutId { idx: pool.len() - 1 });
    assert_eq!((header.owner_count_offset, header.dynamic_metadata_offset, header.header_size), (0, 8, 16));

    let derived = &facts.classes[1];
    assert_eq!(derived.class, ClassId::new(1));
    let class_one = pool.iter().position(|(ty, _)| *ty == MirType::Class(ClassId::new(1))).unwrap();
    assert_eq!(derived.exact_layout, LayoutId { idx: class_one });
    assert_eq!(derived.complete_layout, derived.exact_layout);
    assert_eq!(derived.base.unwrap().class, ClassId::new(0));
    let offsets: Vec<usize> = derived.fields.iter().map(|field| field.offset).collect();
    assert_eq!(offsets, vec![8, 16]);
    assert_eq!(derived.shared_allocation.byte_count, 40);
    assert_eq!(derived.shared_allocation.payload_offset, 16);

    assert_eq!(facts.arrays.len(), 3);
    assert_eq!(facts.arrays[1].stride, 8);
    assert_eq!(
        facts.method_slots,
        vec![MethodSlotFact { slot: MethodSlot::Finalizer, index: 0, byte_offset: 0 }]
    );
    assert_eq!(facts.object_views.len(), 5);
    assert_eq!(facts.object_views[4].target, ObjectViewTarget::Obj);
    assert_eq!(facts.object_views[4].components.len(), 3);
    assert_eq!(facts.object_views[1].target, ObjectViewTarget::Class(ClassId::new(1)));
    assert!(facts.object_views[1].members.contains(&ClassId::new(1)));
    assert_eq!(facts.dispatch_tables.len(), 4);
    assert!(facts.conformances.is_empty() && facts.interfaces.is_empty());
}
