use skald_compiler::block_terminator::select_block_terminator;
use skald_compiler::body::{
    BlockId, MirArrayFailure, MirIntegerDivisorCheck, MirTerminationReason, MirTerminator,
};
use skald_compiler::frame::FrameLayout;
use skald_compiler::identity::{CallableId, FunctionId, StorageId, ValueId};
use skald_compiler::layout::DataLayout;
use skald_compiler::machine::{Instruction, Label, Operand, Register};
use skald_compiler::mir::{MirDefinition, MirPrimitiveType, MirStorage, MirStorageKind, MirType};
use skald_compiler::panic_message::{emit_static_panic, PanicMessage};
use skald_compiler::selection::epilogue_label;

fn frame() -> FrameLayout {
    FrameLayout {
        size: 32,
        storage_offsets: vec![-16, -24],
        object_origins: vec![None, None],
        value_offsets: vec![-32],
    }
}

fn home(displacement: i32) -> Operand {
    Operand::Memory { base: Register::Rbp, displacement }
}

fn callable() -> CallableId {
    CallableId::Function(FunctionId::new(3))
}

fn block(idx: usize) -> BlockId {
    BlockId { callable: callable(), idx }
}

fn block_label(idx: usize) -> Label {
    Label::new(format!(".Lska.ska_function_3.block_{idx}"))
}

fn function() -> MirDefinition {
    let storage = |index: usize, ty| MirStorage { id: StorageId::new(index), kind: MirStorageKind::Local, ty };
    MirDefinition {
        callable: callable(),
        has_receiver: false,
        storage: vec![storage(0, MirType::OptionalPrimitive(MirPrimitiveType::I64)), storage(1, MirType::I64)],
        values: vec![MirType::I64],
        blocks: vec![],
    }
}

fn select(terminator: MirTerminator, output: &mut Vec<Instruction>) -> Result<(), String> {
    let layout = DataLayout { classes: vec![], arrays: vec![] };
    let mut sequence = 0;
    select_block_terminator(
        &layout,
        &function(),
        &frame(),
        block(1),
        &terminator,
        MirType::I64,
        &epilogue_label(callable()),
        &mut sequence,
        output,
    )
    .map_err(|error| error.message().to_string())
}

#[test]
fn ordinary_terminators_jump_branch_and_return_through_the_epilogue() {
    let mut output = vec![];
    select(MirTerminator::Goto { target: block(4) }, &mut output).unwrap();
    assert_eq!(output, vec![Instruction::Jump(block_label(4))]);

    let mut output = vec![];
    select(MirTerminator::Return { value: Some(ValueId::new(0)) }, &mut output).unwrap();
    assert_eq!(
        output,
        vec![
            Instruction::Move { source: home(-32), destination: Operand::Register(Register::Rax) },
            Instruction::Jump(epilogue_label(callable())),
        ]
    );
}

#[test]
fn failures_report_their_fixed_message_or_are_refused() {
    let mut output = vec![];
    select(MirTerminator::Terminate { reason: MirTerminationReason::ArrayIndexOutOfBounds }, &mut output).unwrap();
    let mut expected = vec![];
    emit_static_panic(PanicMessage::ArrayIndexOutOfBounds, &mut expected);
    assert_eq!(output, expected);

    let message =
        select(MirTerminator::Terminate { reason: MirTerminationReason::IntegerDivisionByZero }, &mut vec![])
            .unwrap_err();
    assert_eq!(message, "termination reason `integer_division_by_zero` is not executable yet");
}

#[test]
fn checks_and_optional_access_reach_their_selectors() {
    let mut output = vec![];
    let divisor = MirTerminator::IntegerDivisorCheck {
        check: MirIntegerDivisorCheck { divisor: StorageId::new(1) },
        success_target: block(2),
        failure_target: block(3),
    };
    select(divisor, &mut output).unwrap();
    assert_eq!(
        output,
        vec![
            Instruction::Move { source: home(-24), destination: Operand::Register(Register::Rax) },
            Instruction::Test(Register::Rax),
            Instruction::JumpIfNotZero(block_label(2)),
            Instruction::Jump(block_label(3)),
        ]
    );

    let mut output = vec![];
    let array = MirTerminator::ArrayOperationCheck {
        failure: MirArrayFailure::AllocationSize,
        success_target: block(2),
        failure_target: block(3),
    };
    select(array, &mut output).unwrap();
    assert_eq!(
        output,
        vec![
            Instruction::Test(Register::R11),
            Instruction::JumpIfNotZero(block_label(2)),
            Instruction::Jump(block_label(3)),
        ]
    );

    let mut output = vec![];
    let unwrap = MirTerminator::OptionalUnwrap {
        source: StorageId::new(0),
        destination: StorageId::new(1),
        success_target: block(2),
        failure_target: block(3),
    };
    select(unwrap, &mut output).unwrap();
    let rax = Operand::Register(Register::Rax);
    assert_eq!(
        output,
        vec![
            Instruction::Move { source: home(-16), destination: rax },
            Instruction::Test(Register::Rax),
            Instruction::JumpIfEqual(block_label(3)),
            Instruction::Move { source: home(-8), destination: rax },
            Instruction::Move { source: rax, destination: home(-24) },
            Instruction::Jump(block_label(2)),
        ]
    );
}
