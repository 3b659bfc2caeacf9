use skald_compiler::array_selection::{
    advance_array_index, array_backing_ownership, increment_stack_home, next_array_label,
    array_for_storage, preserve_shared_element_handle, publish_preserved_class_handle,
    restore_shared_element_handle, retain_inline_array_backing, select_array_allocate, select_array_allocate_length,
    select_array_anchor_end, select_array_slice_bounds_check, select_array_terminator,
    select_equality_status, ArrayAllocationLength,
};
use skald_compiler::body::MirArrayAnchorKind;
use skald_compiler::mir::{MirDefinition, MirStorage, MirStorageKind, MirType};
use skald_compiler::body::{
    BlockId, MirArrayFailure, MirArrayInstruction, MirArrayOwnership, MirArrayPositionKind,
    MirBlock, MirInstruction, MirTerminator,
};
use skald_compiler::frame::FrameLayout;
use skald_compiler::identity::{ArrayTypeId, CallableId, ClassId, FunctionId, StorageId, ValueId};
use skald_compiler::layout::{ArrayLayout, DataLayout, TypeLayout};
use skald_compiler::machine::{Instruction, Label, Operand, Register};

fn frame() -> FrameLayout {
    FrameLayout {
        size: 48,
        storage_offsets: vec![-8, -16, -24],
        object_origins: vec![None, None, None],
        value_offsets: vec![-32],
    }
}

fn home(displacement: i32) -> Operand {
    Operand::Memory { base: Register::Rbp, displacement }
}

fn block(idx: usize) -> BlockId {
    BlockId { callable: CallableId::Function(FunctionId::new(1)), idx }
}

fn label(text: &str) -> Label {
    Label::new(format!(".Lska.ska_function_1.{text}"))
}

fn words() -> DataLayout {
    DataLayout {
        classes: vec![],
        arrays: vec![ArrayLayout {
            element: TypeLayout { size: 8, alignment: 8 },
            element_offset: 16,
            shared_element_offset: 24,
            stride: 8,
            maximum_length: 1000,
            shared_maximum_length: 999,
        }],
    }
}

fn outcomes(backing: i32, empty: &Label, failure: &Label, complete: &Label) -> Vec<Instruction> {
    let clear = [
        Instruction::MoveImmediate64 { bits: 0, destination: Register::Rax },
        Instruction::Move { source: Operand::Register(Register::Rax), destination: home(backing) },
    ];
    [
        vec![
            Instruction::MoveImmediate64 { bits: 1, destination: Register::R11 },
            Instruction::Jump(complete.clone()),
            Instruction::Label(empty.clone()),
        ],
        clear.to_vec(),
        vec![
            Instruction::MoveImmediate64 { bits: 1, destination: Register::R11 },
            Instruction::Jump(complete.clone()),
            Instruction::Label(failure.clone()),
        ],
        clear.to_vec(),
        vec![
            Instruction::MoveImmediate64 { bits: 0, destination: Register::R11 },
            Instruction::Label(complete.clone()),
        ],
    ]
    .concat()
}

#[test]
fn inline_allocation_checks_the_length_then_writes_count_and_length() {
    let mut output = vec![];
    let mut sequence = 0;
    select_array_allocate(
        &frame(),
        &words(),
        block(2),
        &mut sequence,
        StorageId::new(1),
        ArrayTypeId::new(0),
        ValueId::new(0),
        MirArrayOwnership::Inline,
        &mut output,
    )
    .unwrap();
    assert_eq!(sequence, 3);
    let empty = label("array_2_0_allocate_empty");
    let failure = label("array_2_1_allocate_failure");
    let complete = label("array_2_2_allocate_complete");
    let rax = Operand::Register(Register::Rax);
    let expected = [
        vec![
            Instruction::Move { source: home(-32), destination: rax },
            Instruction::MoveImmediate64 { bits: 1000, destination: Register::R11 },
            Instruction::Compare { source: Register::R11, destination: Register::Rax },
            Instruction::JumpIfAbove(failure.clone()),
            Instruction::Test(Register::Rax),
            Instruction::JumpIfEqual(empty.clone()),
            Instruction::MoveImmediate64 { bits: 8, destination: Register::R11 },
            Instruction::Multiply { source: Register::R11, destination: Register::Rax },
            Instruction::MoveImmediate64 { bits: 16, destination: Register::R11 },
            Instruction::Add { source: Register::R11, destination: Register::Rax },
            Instruction::Move { source: rax, destination: Operand::Register(Register::Rdi) },
            Instruction::Call("ska_rt_alloc".into()),
            Instruction::Move { source: rax, destination: home(-16) },
            Instruction::Move { source: rax, destination: Operand::Register(Register::Rdx) },
            Instruction::MoveImmediate64 { bits: 1, destination: Register::Rax },
            Instruction::Move { source: rax, destination: Operand::Memory { base: Register::Rdx, displacement: 0 } },
            Instruction::Move { source: home(-32), destination: rax },
            Instruction::Move { source: rax, destination: Operand::Memory { base: Register::Rdx, displacement: 8 } },
        ],
        outcomes(-16, &empty, &failure, &complete),
    ]
    .concat();
    assert_eq!(output, expected);
}

#[test]
fn shared_allocation_uses_the_shared_header_and_maximum() {
    let mut output = vec![];
    let mut sequence = 5;
    select_array_allocate_length(
        &frame(),
        &words(),
        block(0),
        &mut sequence,
        StorageId::new(0),
        ArrayTypeId::new(0),
        ArrayAllocationLength::Constant(3),
        MirArrayOwnership::Shared,
        &mut output,
    )
    .unwrap();
    assert_eq!(sequence, 8);
    let rax = Operand::Register(Register::Rax);
    assert_eq!(output[0], Instruction::MoveImmediate64 { bits: 3, destination: Register::Rax });
    assert_eq!(output[1], Instruction::MoveImmediate64 { bits: 999, destination: Register::R11 });
    assert_eq!(output[4], Instruction::MoveImmediate64 { bits: 8, destination: Register::R11 });
    assert_eq!(output[6], Instruction::MoveImmediate64 { bits: 24, destination: Register::R11 });
    assert_eq!(
        output[12..14],
        [
            Instruction::MoveImmediate64 { bits: 3, destination: Register::Rax },
            Instruction::Move { source: rax, destination: Operand::Memory { base: Register::Rdx, displacement: 16 } },
        ]
    );
    assert_eq!(
        output[14..],
        outcomes(
            -8,
            &label("array_0_5_allocate_empty"),
            &label("array_0_6_allocate_failure"),
            &label("array_0_7_allocate_complete")
        )[..]
    );
}

#[test]
fn allocation_without_a_layout_is_reported() {
    let mut output = vec![];
    let mut sequence = 0;
    let error = select_array_allocate(
        &frame(),
        &words(),
        block(0),
        &mut sequence,
        StorageId::new(0),
        ArrayTypeId::new(4),
        ValueId::new(0),
        MirArrayOwnership::Inline,
        &mut output,
    )
    .unwrap_err();
    assert_eq!(error.message(), "array 4 has no target layout");
    assert!(output.is_empty());
    assert_eq!(sequence, 0);
}

#[test]
fn array_terminators_branch_on_status_index_and_position() {
    let mut output = vec![];
    let check = MirTerminator::ArrayOperationCheck {
        failure: MirArrayFailure::AllocationSize,
        success_target: block(3),
        failure_target: block(4),
    };
    assert!(select_array_terminator(&frame(), &check, &mut output));
    let looping = MirTerminator::ArrayLoop {
        index: StorageId::new(0),
        length: StorageId::new(2),
        body_target: block(5),
        complete_target: block(6),
    };
    assert!(select_array_terminator(&frame(), &looping, &mut output));
    let position = MirTerminator::ArrayPositionCheck {
        position: StorageId::new(1),
        kind: MirArrayPositionKind::Element,
        success_target: block(7),
        failure_target: block(8),
    };
    assert!(select_array_terminator(&frame(), &position, &mut output));
    assert!(!select_array_terminator(&frame(), &MirTerminator::Goto { target: block(1) }, &mut output));
    let rax = Operand::Register(Register::Rax);
    assert_eq!(
        output,
        vec![
            Instruction::Test(Register::R11),
            Instruction::JumpIfNotZero(label("block_3")),
            Instruction::Jump(label("block_4")),
            Instruction::Move { source: home(-8), destination: rax },
            Instruction::Move { source: home(-24), destination: Operand::Register(Register::R11) },
            Instruction::Compare { source: Register::R11, destination: Register::Rax },
            Instruction::JumpIfBelow(label("block_5")),
            Instruction::Jump(label("block_6")),
            Instruction::Move { source: home(-16), destination: rax },
            Instruction::MoveImmediate64 { bits: u64::MAX, destination: Register::R11 },
            Instruction::Compare { source: Register::R11, destination: Register::Rax },
            Instruction::JumpIfNotZero(label("block_7")),
            Instruction::Jump(label("block_8")),
        ]
    );
}

#[test]
fn backing_ownership_comes_from_the_first_allocation() {
    let allocate = |backing: usize, ownership| {
        MirInstruction::Array(MirArrayInstruction::Allocate {
            backing: StorageId::new(backing),
            array: ArrayTypeId::new(0),
            length: ValueId::new(0),
            ownership,
            failure: MirArrayFailure::AllocationSize,
        })
    };
    let blocks = vec![
        MirBlock { instructions: vec![MirInstruction::StorageLive(StorageId::new(1))], terminator: None },
        MirBlock {
            instructions: vec![
                allocate(0, MirArrayOwnership::Inline),
                MirInstruction::Array(MirArrayInstruction::AllocateElements {
                    backing: StorageId::new(1),
                    prefix: StorageId::new(2),
                    array: ArrayTypeId::new(0),
                    length: 4,
                    ownership: MirArrayOwnership::Shared,
                    failure: MirArrayFailure::AllocationSize,
                }),
            ],
            terminator: None,
        },
        MirBlock { instructions: vec![allocate(1, MirArrayOwnership::Inline)], terminator: None },
    ];
    assert_eq!(array_backing_ownership(&blocks, StorageId::new(0)), Some(MirArrayOwnership::Inline));
    assert_eq!(array_backing_ownership(&blocks, StorageId::new(1)), Some(MirArrayOwnership::Shared));
    assert_eq!(array_backing_ownership(&blocks, StorageId::new(2)), None);
}

#[test]
fn array_indices_advance_by_one_and_labels_count() {
    let mut output = vec![];
    advance_array_index(&frame(), StorageId::new(2), &mut output);
    let rax = Operand::Register(Register::Rax);
    assert_eq!(
        output,
        vec![
            Instruction::Move { source: home(-24), destination: rax },
            Instruction::MoveImmediate64 { bits: 1, destination: Register::R11 },
            Instruction::Add { source: Register::R11, destination: Register::Rax },
            Instruction::Move { source: rax, destination: home(-24) },
        ]
    );
    let mut sequence = 9;
    assert_eq!(next_array_label(block(4), &mut sequence, "loop"), label("array_4_9_loop"));
    assert_eq!(sequence, 10);
}

#[test]
fn slice_bounds_and_equality_leave_a_status_in_r11() {
    let mut output = vec![];
    let mut sequence = 0;
    select_array_slice_bounds_check(&frame(), block(1), &mut sequence, StorageId::new(0), StorageId::new(1), &mut output);
    select_equality_status(block(1), &mut sequence, Register::Rdx, Register::Rax, "slice_length", &mut output);
    assert_eq!(sequence, 4);
    let valid = label("array_1_0_slice_bounds_valid");
    let complete = label("array_1_1_slice_bounds_complete");
    let equal = label("array_1_2_slice_length_equal");
    let done = label("array_1_3_slice_length_complete");
    assert_eq!(
        output,
        vec![
            Instruction::Move { source: home(-8), destination: Operand::Register(Register::Rax) },
            Instruction::Move { source: home(-16), destination: Operand::Register(Register::Rdx) },
            Instruction::Compare { source: Register::Rdx, destination: Register::Rax },
            Instruction::JumpIfBelow(valid.clone()),
            Instruction::JumpIfEqual(valid.clone()),
            Instruction::MoveImmediate64 { bits: 0, destination: Register::R11 },
            Instruction::Jump(complete.clone()),
            Instruction::Label(valid),
            Instruction::MoveImmediate64 { bits: 1, destination: Register::R11 },
            Instruction::Label(complete),
            Instruction::Compare { source: Register::Rdx, destination: Register::Rax },
            Instruction::JumpIfEqual(equal.clone()),
            Instruction::MoveImmediate64 { bits: 0, destination: Register::R11 },
            Instruction::Jump(done.clone()),
            Instruction::Label(equal),
            Instruction::MoveImmediate64 { bits: 1, destination: Register::R11 },
            Instruction::Label(done),
        ]
    );
    let mut output = vec![];
    increment_stack_home(8, &mut output);
    let slot = Operand::Memory { base: Register::Rsp, displacement: 8 };
    assert_eq!(
        output,
        vec![
            Instruction::Move { source: slot, destination: Operand::Register(Register::Rax) },
            Instruction::MoveImmediate64 { bits: 1, destination: Register::R11 },
            Instruction::Add { source: Register::R11, destination: Register::Rax },
            Instruction::Move { source: Operand::Register(Register::Rax), destination: slot },
        ]
    );
}

#[test]
fn inline_backings_gain_an_owner_unless_dead_or_saturated() {
    let mut output = vec![];
    let mut sequence = 0;
    retain_inline_array_backing(block(2), &mut sequence, &mut output);
    assert_eq!(sequence, 3);
    let count = Operand::Memory { base: Register::Rax, displacement: 0 };
    let empty = label("array_2_0_anchor_retain_empty");
    let failure = label("array_2_1_anchor_retain_failure");
    let complete = label("array_2_2_anchor_retain_complete");
    assert_eq!(
        output,
        vec![
            Instruction::Test(Register::Rax),
            Instruction::JumpIfEqual(empty.clone()),
            Instruction::Move { source: count, destination: Operand::Register(Register::Rcx) },
            Instruction::Test(Register::Rcx),
            Instruction::JumpIfEqual(failure.clone()),
            Instruction::MoveImmediate64 { bits: u64::MAX, destination: Register::R11 },
            Instruction::Compare { source: Register::R11, destination: Register::Rcx },
            Instruction::JumpIfEqual(failure.clone()),
            Instruction::MoveImmediate64 { bits: 1, destination: Register::R11 },
            Instruction::Add { source: Register::R11, destination: Register::Rcx },
            Instruction::Move { source: Operand::Register(Register::Rcx), destination: count },
            Instruction::Jump(complete.clone()),
            Instruction::Label(failure),
            Instruction::Trap,
            Instruction::Label(empty),
            Instruction::Label(complete),
        ]
    );
}

#[test]
fn anchor_ends_release_inline_backings_and_clear_every_anchor() {
    let storage = |index: usize, kind, ty| MirStorage { id: StorageId::new(index), kind, ty };
    let function = MirDefinition {
        callable: CallableId::Function(FunctionId::new(1)),
        has_receiver: false,
        storage: vec![
            storage(0, MirStorageKind::ArrayAnchor(MirArrayAnchorKind::InlineBacking), MirType::Array(ArrayTypeId::new(3))),
            storage(1, MirStorageKind::ArrayAnchor(MirArrayAnchorKind::StableSharedOwner), MirType::Array(ArrayTypeId::new(3))),
            storage(2, MirStorageKind::Local, MirType::I64),
        ],
        values: vec![],
        blocks: vec![],
    };
    let clear = |displacement| {
        vec![
            Instruction::MoveImmediate64 { bits: 0, destination: Register::Rax },
            Instruction::Move { source: Operand::Register(Register::Rax), destination: home(displacement) },
        ]
    };
    let mut output = vec![];
    select_array_anchor_end(&function, &frame(), StorageId::new(0), &mut output).unwrap();
    let rax = Operand::Register(Register::Rax);
    assert_eq!(
        output,
        [
            vec![
                Instruction::Move { source: home(-8), destination: rax },
                Instruction::Move { source: rax, destination: Operand::Register(Register::Rdi) },
                Instruction::Call("ska_array_release_3".into()),
            ],
            clear(-8),
        ]
        .concat()
    );
    let mut output = vec![];
    select_array_anchor_end(&function, &frame(), StorageId::new(1), &mut output).unwrap();
    assert_eq!(output, clear(-16));
    let error = select_array_anchor_end(&function, &frame(), StorageId::new(2), &mut vec![]).unwrap_err();
    assert_eq!(error.message(), "array anchor storage has no array type");
}

#[test]
fn fresh_element_handles_are_kept_published_and_restored() {
    let mut output = vec![];
    preserve_shared_element_handle(&mut output);
    publish_preserved_class_handle(ClassId::new(5), &mut output);
    restore_shared_element_handle(&mut output);
    let rax = Operand::Register(Register::Rax);
    let top = Operand::Memory { base: Register::Rsp, displacement: 0 };
    assert_eq!(
        output,
        vec![
            Instruction::ReserveStack(16),
            Instruction::Move { source: rax, destination: top },
            Instruction::Move { source: top, destination: Operand::Register(Register::R11) },
            Instruction::LoadSymbolAddress { symbol: "ska_dispatch_table_5".into(), destination: Register::Rax },
            Instruction::Move { source: rax, destination: Operand::Memory { base: Register::R11, displacement: 8 } },
            Instruction::MoveImmediate64 { bits: 1, destination: Register::Rax },
            Instruction::Move { source: rax, destination: Operand::Memory { base: Register::R11, displacement: 0 } },
            Instruction::Move { source: top, destination: rax },
            Instruction::ReleaseStack(16),
        ]
    );
}

#[test]
fn array_storage_names_its_array_type() {
    let function = MirDefinition {
        callable: CallableId::Function(FunctionId::new(0)),
        has_receiver: false,
        storage: vec![
            MirStorage { id: StorageId::new(0), kind: MirStorageKind::ArrayBacking, ty: MirType::Array(ArrayTypeId::new(2)) },
            MirStorage { id: StorageId::new(1), kind: MirStorageKind::Local, ty: MirType::U8 },
        ],
        values: vec![],
        blocks: vec![],
    };
    assert_eq!(array_for_storage(&function, StorageId::new(0)).unwrap(), ArrayTypeId::new(2));
    assert_eq!(
        array_for_storage(&function, StorageId::new(1)).unwrap_err().message(),
        "array storage has no array type"
    );
}
