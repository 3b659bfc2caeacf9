use skald_compiler::array_selection::{
    advance_array_index, clear_storage, select_array_allocate, select_array_allocate_length,
    select_array_anchor_end, select_array_instruction, select_array_slice_bounds_check,
    ArrayAllocationLength,
};
use skald_compiler::body::{
    BlockId, MirArrayAnchorKind, MirArrayFailure, MirArrayInstruction, MirArrayOwnership,
    MirArrayPositionKind,
};
use skald_compiler::frame::FrameLayout;
use skald_compiler::identity::{ArrayTypeId, CallableId, FunctionId, StorageId, ValueId};
use skald_compiler::layout::{ArrayLayout, DataLayout, TypeLayout};
use skald_compiler::machine::{Instruction, Operand, Register};
use skald_compiler::mir::{MirDefinition, MirPlace, MirPlaceBase, MirStorage, MirStorageKind, MirType};

fn frame() -> FrameLayout {
    FrameLayout {
        size: 48,
        storage_offsets: vec![-8, -16, -24, -32],
        object_origins: vec![None, None, None, None],
        value_offsets: vec![-40],
    }
}

fn home(displacement: i32) -> Operand {
    Operand::Memory { base: Register::Rbp, displacement }
}

fn block(idx: usize) -> BlockId {
    BlockId { callable: CallableId::Function(FunctionId::new(1)), idx }
}

fn words() -> DataLayout {
    DataLayout {
        classes: vec![],
        arrays: vec![ArrayLayout {
            element: TypeLayout { size: 8, alignment: 8 },
            element_offset: 16,
            shared_element_offset: 24,
            stride: 8,
            maximum_length: 1000,
            shared_maximum_length: 999,
        }],
    }
}

fn function() -> MirDefinition {
    let storage = |index: usize, kind, ty| MirStorage { id: StorageId::new(index), kind, ty };
    MirDefinition {
        callable: CallableId::Function(FunctionId::new(1)),
        has_receiver: false,
        storage: vec![
            storage(0, MirStorageKind::ArrayAnchor(MirArrayAnchorKind::InlineBacking), MirType::Array(ArrayTypeId::new(0))),
            storage(1, MirStorageKind::Local, MirType::Array(ArrayTypeId::new(0))),
            storage(2, MirStorageKind::Local, MirType::U64),
            storage(3, MirStorageKind::Local, MirType::I64),
        ],
        values: vec![],
        blocks: vec![],
    }
}

fn select(instruction: MirArrayInstruction, sequence: &mut usize, output: &mut Vec<Instruction>) -> bool {
    select_array_instruction(&function(), &frame(), &words(), block(2), &instruction, sequence, output).unwrap()
}

#[test]
fn allocations_are_selected_with_their_labels() {
    let mut sequence = 0;
    let mut output = vec![];
    let allocate = MirArrayInstruction::Allocate {
        backing: StorageId::new(1),
        array: ArrayTypeId::new(0),
        length: ValueId::new(0),
        ownership: MirArrayOwnership::Inline,
        failure: MirArrayFailure::AllocationSize,
    };
    assert!(select(allocate, &mut sequence, &mut output));
    assert_eq!(sequence, 3);
    let mut expected = vec![];
    let mut expected_sequence = 0;
    select_array_allocate(
        &frame(),
        &words(),
        block(2),
        &mut expected_sequence,
        StorageId::new(1),
        ArrayTypeId::new(0),
        ValueId::new(0),
        MirArrayOwnership::Inline,
        &mut expected,
    )
    .unwrap();
    assert_eq!(output, expected);

    let elements = MirArrayInstruction::AllocateElements {
        backing: StorageId::new(1),
        prefix: StorageId::new(2),
        array: ArrayTypeId::new(0),
        length: 4,
        ownership: MirArrayOwnership::Shared,
        failure: MirArrayFailure::AllocationSize,
    };
    let mut output = vec![];
    assert!(select(elements, &mut sequence, &mut output));
    assert_eq!(sequence, 6);
    let mut expected = vec![];
    clear_storage(&frame(), StorageId::new(2), &mut expected);
    assert_eq!(
        expected,
        vec![
            Instruction::MoveImmediate64 { bits: 0, destination: Register::Rax },
            Instruction::Move { source: Operand::Register(Register::Rax), destination: home(-24) },
        ]
    );
    select_array_allocate_length(
        &frame(),
        &words(),
        block(2),
        &mut expected_sequence,
        StorageId::new(1),
        ArrayTypeId::new(0),
        ArrayAllocationLength::Constant(4),
        MirArrayOwnership::Shared,
        &mut expected,
    )
    .unwrap();
    assert_eq!(output, expected);
}

#[test]
fn allocation_of_an_unknown_array_selects_nothing() {
    let mut sequence = 4;
    let mut output = vec![Instruction::Trap];
    let elements = MirArrayInstruction::AllocateElements {
        backing: StorageId::new(1),
        prefix: StorageId::new(2),
        array: ArrayTypeId::new(7),
        length: 4,
        ownership: MirArrayOwnership::Inline,
        failure: MirArrayFailure::AllocationSize,
    };
    let error = select_array_instruction(&function(), &frame(), &words(), block(2), &elements, &mut sequence, &mut output)
        .unwrap_err();
    assert_eq!(error.message(), "array 7 has no target layout");
    assert_eq!(error.callable(), Some(CallableId::Function(FunctionId::new(1))));
    assert_eq!(output, vec![Instruction::Trap]);
    assert_eq!(sequence, 4);
}

#[test]
fn publishing_moves_the_backing_and_clears_it() {
    let mut sequence = 0;
    let mut output = vec![];
    let publish = MirArrayInstruction::Publish {
        backing: StorageId::new(0),
        destination: StorageId::new(1),
        array: ArrayTypeId::new(0),
    };
    assert!(select(publish, &mut sequence, &mut output));
    let rax = Operand::Register(Register::Rax);
    let cleared = [
        Instruction::MoveImmediate64 { bits: 0, destination: Register::Rax },
        Instruction::Move { source: rax, destination: home(-8) },
    ];
    let mut expected = vec![
        Instruction::Move { source: home(-8), destination: rax },
        Instruction::Move { source: rax, destination: home(-16) },
    ];
    expected.extend(cleared.clone());
    assert_eq!(output, expected);

    let shared = MirArrayInstruction::PublishShared {
        backing: StorageId::new(0),
        destination: StorageId::new(1),
        array: ArrayTypeId::new(0),
    };
    let mut output = vec![];
    assert!(select(shared, &mut sequence, &mut output));
    let r11 = Operand::Register(Register::R11);
    let mut expected = vec![
        Instruction::Move { source: home(-8), destination: rax },
        Instruction::Move { source: rax, destination: r11 },
        Instruction::LoadSymbolAddress {
            symbol: "ska_shared_array_metadata_0".into(),
            destination: Register::Rax,
        },
        Instruction::Move { source: rax, destination: Operand::Memory { base: Register::R11, displacement: 8 } },
        Instruction::MoveImmediate64 { bits: 1, destination: Register::Rax },
        Instruction::Move { source: rax, destination: Operand::Memory { base: Register::R11, displacement: 0 } },
        Instruction::Move { source: r11, destination: home(-16) },
    ];
    expected.extend(cleared);
    assert_eq!(output, expected);
    assert_eq!(sequence, 0);
}

#[test]
fn prefixes_anchors_and_slice_bounds_reuse_their_selectors() {
    let mut sequence = 5;
    let mut output = vec![];
    assert!(select(MirArrayInstruction::CompleteElement { prefix: StorageId::new(2) }, &mut sequence, &mut output));
    let mut expected = vec![];
    advance_array_index(&frame(), StorageId::new(2), &mut expected);
    assert_eq!(output, expected);

    let mut output = vec![];
    assert!(select(MirArrayInstruction::AnchorEnd { anchor: StorageId::new(0) }, &mut sequence, &mut output));
    let mut expected = vec![];
    select_array_anchor_end(&function(), &frame(), StorageId::new(0), &mut expected).unwrap();
    assert_eq!(output, expected);
    assert!(output.contains(&Instruction::Call("ska_array_release_0".into())));

    let mut output = vec![];
    let check = MirArrayInstruction::SliceBoundsCheck { start: StorageId::new(2), end: StorageId::new(3) };
    assert!(select(check, &mut sequence, &mut output));
    assert_eq!(sequence, 7);
    let mut expected = vec![];
    let mut expected_sequence = 5;
    select_array_slice_bounds_check(
        &frame(),
        block(2),
        &mut expected_sequence,
        StorageId::new(2),
        StorageId::new(3),
        &mut expected,
    );
    assert_eq!(output, expected);
}

#[test]
fn anchor_without_an_array_type_is_refused() {
    let mut sequence = 0;
    let mut output = vec![];
    let error = select_array_instruction(
        &function(),
        &frame(),
        &words(),
        block(2),
        &MirArrayInstruction::AnchorEnd { anchor: StorageId::new(3) },
        &mut sequence,
        &mut output,
    )
    .unwrap_err();
    assert_eq!(error.message(), "array anchor storage has no array type");
    assert!(output.is_empty());
}

#[test]
fn range_offset_normalization_is_refused_and_places_are_left_alone() {
    let mut sequence = 0;
    let mut output = vec![];
    let owner = MirPlace { base: MirPlaceBase::Storage(StorageId::new(1)), projections: vec![] };
    let error = select_array_instruction(
        &function(),
        &frame(),
        &words(),
        block(2),
        &MirArrayInstruction::Normalize { owner: owner.clone(), kind: MirArrayPositionKind::RangeOffset },
        &mut sequence,
        &mut output,
    )
    .unwrap_err();
    assert_eq!(error.message(), "range offsets must use the unsigned offset instruction");
    assert!(output.is_empty());
    assert!(!select(MirArrayInstruction::Release { owner }, &mut sequence, &mut output));
    assert!(output.is_empty());
    assert_eq!(sequence, 0);
}
