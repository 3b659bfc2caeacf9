use skald_compiler::body::{BlockId, MirTerminator};
use skald_compiler::frame::FrameLayout;
use skald_compiler::identity::{CallableId, ClassId, FunctionId, StorageId};
use skald_compiler::layout::{ClassLayout, DataLayout, TypeLayout};
use skald_compiler::machine::{
    ByteRegister, FloatOperand, Instruction, Label, Operand, Register, XmmRegister,
};
use skald_compiler::mir::{MirDefinition, MirPrimitiveType, MirStorage, MirStorageKind, MirType};
use skald_compiler::optional_access::select_optional_terminator;
use skald_compiler::ownership::emit_retain_loaded_handle;
use skald_compiler::panic_message::emit_ownership_overflow;

fn frame() -> FrameLayout {
    FrameLayout {
        size: 64,
        storage_offsets: vec![-16, -24, -40, -48],
        object_origins: vec![None, None, None, None],
        value_offsets: vec![],
    }
}

fn home(displacement: i32) -> Operand {
    Operand::Memory { base: Register::Rbp, displacement }
}

fn block(idx: usize) -> BlockId {
    BlockId { callable: CallableId::Function(FunctionId::new(1)), idx }
}

fn block_label(idx: usize) -> Label {
    Label::new(format!(".Lska.ska_function_1.block_{idx}"))
}

fn function(source: MirType, destination: MirType) -> MirDefinition {
    let storage = |index: usize, ty| MirStorage { id: StorageId::new(index), kind: MirStorageKind::Local, ty };
    MirDefinition {
        callable: CallableId::Function(FunctionId::new(1)),
        has_receiver: false,
        storage: vec![
            storage(0, source),
            storage(1, destination),
            storage(2, MirType::OptionalClass(ClassId::new(0))),
            storage(3, MirType::OptionalClass(ClassId::new(4))),
        ],
        values: vec![],
        blocks: vec![],
    }
}

fn classes() -> DataLayout {
    DataLayout {
        classes: vec![ClassLayout { ty: TypeLayout { size: 16, alignment: 8 }, base: None, fields: vec![] }],
        arrays: vec![],
    }
}

fn present_test(source: i32, failure: usize) -> Vec<Instruction> {
    vec![
        Instruction::Move { source: home(source), destination: Operand::Register(Register::Rax) },
        Instruction::Test(Register::Rax),
        Instruction::JumpIfEqual(block_label(failure)),
    ]
}

#[test]
fn integer_unwrap_copies_the_payload_after_the_state_word() {
    let function = function(MirType::OptionalPrimitive(MirPrimitiveType::I64), MirType::I64);
    let terminator = MirTerminator::OptionalUnwrap {
        source: StorageId::new(0),
        destination: StorageId::new(1),
        success_target: block(2),
        failure_target: block(3),
    };
    let mut sequence = 5;
    let mut output = vec![Instruction::Trap];
    let selected =
        select_optional_terminator(&classes(), &function, &frame(), block(1), &terminator, &mut sequence, &mut output);
    assert_eq!(selected.unwrap(), true);
    assert_eq!(sequence, 5);
    let mut expected = vec![Instruction::Trap];
    expected.extend(present_test(-16, 3));
    expected.extend([
        Instruction::Move { source: home(-8), destination: Operand::Register(Register::Rax) },
        Instruction::Move { source: Operand::Register(Register::Rax), destination: home(-24) },
        Instruction::Jump(block_label(2)),
    ]);
    assert_eq!(output, expected);
}

#[test]
fn byte_and_float_unwraps_use_their_own_moves() {
    let byte = function(MirType::OptionalPrimitive(MirPrimitiveType::Bool), MirType::Bool);
    let terminator = MirTerminator::OptionalUnwrap {
        source: StorageId::new(0),
        destination: StorageId::new(1),
        success_target: block(2),
        failure_target: block(3),
    };
    let mut sequence = 0;
    let mut output = vec![];
    select_optional_terminator(&classes(), &byte, &frame(), block(1), &terminator, &mut sequence, &mut output)
        .unwrap();
    let mut expected = present_test(-16, 3);
    expected.extend([
        Instruction::LoadZeroExtendByte { source: home(-8), destination: Register::Rax },
        Instruction::MoveByte { source: ByteRegister::Al, destination: home(-24) },
        Instruction::Jump(block_label(2)),
    ]);
    assert_eq!(output, expected);

    let float = function(MirType::OptionalPrimitive(MirPrimitiveType::F64), MirType::F64);
    let mut output = vec![];
    select_optional_terminator(&classes(), &float, &frame(), block(1), &terminator, &mut sequence, &mut output)
        .unwrap();
    let mut expected = present_test(-16, 3);
    expected.extend([
        Instruction::MoveFloat64 {
            source: FloatOperand::Memory { base: Register::Rbp, displacement: -8 },
            destination: FloatOperand::Register(XmmRegister::Xmm14),
        },
        Instruction::MoveFloat64 {
            source: FloatOperand::Register(XmmRegister::Xmm14),
            destination: FloatOperand::Memory { base: Register::Rbp, displacement: -24 },
        },
        Instruction::Jump(block_label(2)),
    ]);
    assert_eq!(output, expected);
}

#[test]
fn unwrap_payload_beyond_the_displacement_range_is_refused() {
    let function = function(MirType::OptionalPrimitive(MirPrimitiveType::U64), MirType::U64);
    let far = FrameLayout { storage_offsets: vec![i32::MAX - 4, -24, -40, -48], ..frame() };
    let terminator = MirTerminator::OptionalUnwrap {
        source: StorageId::new(0),
        destination: StorageId::new(1),
        success_target: block(2),
        failure_target: block(3),
    };
    let mut sequence = 0;
    let mut output = vec![Instruction::Trap];
    let error = select_optional_terminator(&classes(), &function, &far, block(1), &terminator, &mut sequence, &mut output)
        .unwrap_err();
    assert_eq!(error.message(), "optional payload displacement exceeds x86-64 limits");
    assert_eq!(error.callable(), Some(CallableId::Function(FunctionId::new(1))));
    assert_eq!(output, vec![Instruction::Trap]);
}

#[test]
fn shared_unwrap_retains_the_handle_with_fresh_labels() {
    let shared = function(MirType::I64, MirType::I64);
    let terminator = MirTerminator::OptionalSharedUnwrap {
        source: StorageId::new(0),
        destination: StorageId::new(1),
        success_target: block(2),
        failure_target: block(3),
    };
    let mut sequence = 7;
    let mut output = vec![];
    select_optional_terminator(&classes(), &shared, &frame(), block(1), &terminator, &mut sequence, &mut output)
        .unwrap();
    assert_eq!(sequence, 9);
    let invalid = Label::new(".Lska_ska_function_1_optional_1_7_shared_unwrap_invalid".to_string());
    let overflow = Label::new(".Lska_ska_function_1_optional_1_8_shared_unwrap_overflow".to_string());
    let mut expected = present_test(-16, 3);
    emit_retain_loaded_handle(invalid.clone(), overflow.clone(), &mut expected);
    expected.extend([
        Instruction::Move { source: Operand::Register(Register::Rax), destination: home(-24) },
        Instruction::Jump(block_label(2)),
        Instruction::Label(overflow),
    ]);
    emit_ownership_overflow(&mut expected);
    expected.extend([Instruction::Label(invalid), Instruction::Trap]);
    assert_eq!(output, expected);
}

#[test]
fn view_guards_count_views_in_the_state_word() {
    let function = function(MirType::I64, MirType::I64);
    let begin = MirTerminator::BeginOptionalView {
        source: StorageId::new(2),
        success_target: block(4),
        absent_target: block(5),
        overflow_target: block(6),
    };
    let mut sequence = 0;
    let mut output = vec![];
    select_optional_terminator(&classes(), &function, &frame(), block(1), &begin, &mut sequence, &mut output)
        .unwrap();
    let rax = Operand::Register(Register::Rax);
    let rdx = Operand::Register(Register::Rdx);
    let mut expected = present_test(-40, 5);
    expected.extend([
        Instruction::MoveImmediate64 { bits: u64::MAX, destination: Register::Rcx },
        Instruction::Compare { source: Register::Rcx, destination: Register::Rax },
        Instruction::JumpIfEqual(block_label(6)),
        Instruction::MoveImmediate64 { bits: 1, destination: Register::Rdx },
        Instruction::Add { source: Register::Rdx, destination: Register::Rax },
        Instruction::Move { source: rax, destination: rdx },
        Instruction::Move { source: rdx, destination: rax },
        Instruction::Move { source: rax, destination: home(-40) },
        Instruction::Jump(block_label(4)),
    ]);
    assert_eq!(output, expected);

    let check = MirTerminator::CheckOptionalMutation {
        source: StorageId::new(2),
        success_target: block(4),
        failure_target: block(7),
    };
    let mut output = vec![];
    assert!(
        select_optional_terminator(&classes(), &function, &frame(), block(1), &check, &mut sequence, &mut output)
            .unwrap()
    );
    let mut expected = present_test(-40, 4);
    expected.extend([
        Instruction::MoveImmediate64 { bits: 1, destination: Register::Rcx },
        Instruction::Compare { source: Register::Rcx, destination: Register::Rax },
        Instruction::JumpIfEqual(block_label(4)),
        Instruction::Jump(block_label(7)),
    ]);
    assert_eq!(output, expected);
}

#[test]
fn view_guard_on_a_class_without_layout_is_refused() {
    let function = function(MirType::I64, MirType::I64);
    let check = MirTerminator::CheckOptionalMutation {
        source: StorageId::new(3),
        success_target: block(4),
        failure_target: block(7),
    };
    let mut sequence = 0;
    let mut output = vec![];
    let error = select_optional_terminator(&classes(), &function, &frame(), block(1), &check, &mut sequence, &mut output)
        .unwrap_err();
    assert_eq!(error.message(), "class 4 has no target layout");
    assert_eq!(error.callable(), None);
    assert!(output.is_empty());
}

#[test]
fn other_terminators_are_left_to_other_selectors() {
    let function = function(MirType::I64, MirType::I64);
    let mut sequence = 3;
    let mut output = vec![];
    let selected = select_optional_terminator(
        &classes(),
        &function,
        &frame(),
        block(1),
        &MirTerminator::Goto { target: block(2) },
        &mut sequence,
        &mut output,
    );
    assert_eq!(selected.unwrap(), false);
    assert_eq!(sequence, 3);
    assert!(output.is_empty());
}
