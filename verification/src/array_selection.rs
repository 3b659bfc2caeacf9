//! Array allocation and the checks that end array blocks.
//!
//! An allocation checks the requested length against the layout's maximum
//! for the ownership kind, requests header plus elements from the runtime,
//! and writes the header; an empty inline array owns no backing. Each
//! outcome leaves a status in `r11` that the block's operation check reads.

use vstd::prelude::*;

use crate::body::{
    BlockId, MirArrayAnchorKind, MirArrayInstruction, MirArrayOwnership, MirArrayPositionKind, MirBlock,
    MirInstruction, MirTerminator,
};
use crate::emit::line_text;
use crate::error::{BackendError, Target, error_is};
use crate::frame::FrameLayout;
use crate::identity::{ArrayTypeId, CallableId, ClassId, StorageId, ValueId};
use crate::layout::{
    ARRAY_LENGTH_OFFSET, ARRAY_OWNER_COUNT_OFFSET, ArrayLayout, DataLayout,
    SHARED_ARRAY_LENGTH_OFFSET, SHARED_DYNAMIC_METADATA_OFFSET,
};
use crate::listing::{label_text_line, lemma_lines_push, lines, one_operand_line};
use crate::machine::{Instruction, Label, Operand, Register};
use crate::selection::{block_label, block_label_text, label_stem_text};
use crate::mir::{MirDefinition, MirStorageKind, MirType};
use crate::object_abi::{symbol_address_line, table_address_line};
use crate::symbol::{
    array_helper_text, array_release, callable, dispatch_table, shared_array_metadata,
    shared_array_metadata_text,
};
use crate::text::{decimal, decimal_text};
use crate::value::{
    frame_storage, load_rax, load_rax_instruction, memory, spec_memory, storage_operand, store_rax,
    store_rax_instruction, value_operand,
};

verus! {

broadcast use lemma_lines_push;

/// The element count of an allocation: a value, or a constant.
#[derive(Clone, Copy, Debug, PartialEq, Eq, Structural)]
pub enum ArrayAllocationLength {
    Value(ValueId),
    Constant(u64),
}

/// `.Lska.<stem>.array_<block>_<sequence>_<purpose>`.
pub open spec fn array_label_text(block: BlockId, sequence: nat, purpose: Seq<char>) -> Seq<char> {
    ".Lska."@ + label_stem_text(block.callable) + ".array_"@ + decimal_text(block.idx as nat)
        + "_"@ + decimal_text(sequence) + "_"@ + purpose
}

pub fn array_label(block: BlockId, sequence: usize, purpose: &str) -> (r: Label)
    ensures
        r.text@ == array_label_text(block, sequence as nat, purpose@),
{
    let mut text = String::from_str(".Lska.");
    let stem = callable(block.callable());
    text.append(stem.as_str());
    text.append(".array_");
    let block_digits = decimal(block.index() as u64);
    text.append(block_digits.as_str());
    text.append("_");
    let digits = decimal(sequence as u64);
    text.append(digits.as_str());
    text.append("_");
    text.append(purpose);
    Label::new(text)
}

/// The next array label of a block, taking the next sequence number.
pub fn next_array_label(block: BlockId, sequence: &mut usize, purpose: &str) -> (r: Label)
    requires
        *old(sequence) < usize::MAX,
    ensures
        *final(sequence) == *old(sequence) + 1,
        r.text@ == array_label_text(block, *old(sequence) as nat, purpose@),
{
    let label = array_label(block, *sequence, purpose);
    *sequence = *sequence + 1;
    label
}

/// A diagnostic of array selection in `owner`.
pub fn array_error(owner: CallableId, message: String) -> (r: BackendError)
    ensures
        error_is(r, Some(owner), message@),
{
    BackendError::new(Target::X86_64SysV, Some(owner), message)
}

/// Loads the element count of an allocation into `rax`.
pub open spec fn allocation_length_instruction(
    frame: &FrameLayout,
    length: ArrayAllocationLength,
) -> Instruction {
    match length {
        ArrayAllocationLength::Value(value) => load_rax_instruction(value_operand(frame, value)),
        ArrayAllocationLength::Constant(bits) => Instruction::MoveImmediate64 {
            bits,
            destination: Register::Rax,
        },
    }
}

/// Whether the values an allocation length reads have homes.
pub open spec fn length_ready(frame: &FrameLayout, length: ArrayAllocationLength) -> bool {
    length matches ArrayAllocationLength::Value(value) ==> value.idx < frame.value_offsets@.len()
}

pub fn load_array_allocation_length(
    frame: &FrameLayout,
    length: ArrayAllocationLength,
    output: &mut Vec<Instruction>,
)
    requires
        length_ready(frame, length),
    ensures
        final(output)@ == old(output)@.push(allocation_length_instruction(frame, length)),
{
    match length {
        ArrayAllocationLength::Value(value) => {
            load_rax(
                Operand::Memory { base: Register::Rbp, displacement: frame.value_offsets[value.index()] },
                output,
            );
        },
        ArrayAllocationLength::Constant(bits) => {
            output.push(Instruction::MoveImmediate64 { bits, destination: Register::Rax });
        },
    }
}

/// Stores zero to a storage entry.
pub open spec fn clear_storage_instructions(frame: &FrameLayout, storage: StorageId) -> Seq<
    Instruction,
> {
    seq![
        Instruction::MoveImmediate64 { bits: 0, destination: Register::Rax },
        store_rax_instruction(storage_operand(frame, storage)),
    ]
}

pub fn clear_storage(frame: &FrameLayout, storage: StorageId, output: &mut Vec<Instruction>)
    requires
        storage.idx < frame.storage_offsets@.len(),
    ensures
        final(output)@ == old(output)@ + clear_storage_instructions(frame, storage),
{
    let ghost before = output@;
    output.push(Instruction::MoveImmediate64 { bits: 0, destination: Register::Rax });
    store_rax(
        Operand::Memory { base: Register::Rbp, displacement: frame.storage_offsets[storage.index()] },
        output,
    );
    assert(output@ =~= before + clear_storage_instructions(frame, storage));
}

/// Adds one to the index held in a storage entry.
pub open spec fn advance_index_instructions(frame: &FrameLayout, index: StorageId) -> Seq<
    Instruction,
> {
    seq![
        load_rax_instruction(storage_operand(frame, index)),
        Instruction::MoveImmediate64 { bits: 1, destination: Register::R11 },
        Instruction::Add { source: Register::R11, destination: Register::Rax },
        store_rax_instruction(storage_operand(frame, index)),
    ]
}

pub fn advance_array_index(frame: &FrameLayout, index: StorageId, output: &mut Vec<Instruction>)
    requires
        index.idx < frame.storage_offsets@.len(),
    ensures
        final(output)@ == old(output)@ + advance_index_instructions(frame, index),
{
    let ghost before = output@;
    let home = Operand::Memory {
        base: Register::Rbp,
        displacement: frame.storage_offsets[index.index()],
    };
    load_rax(home, output);
    output.push(Instruction::MoveImmediate64 { bits: 1, destination: Register::R11 });
    output.push(Instruction::Add { source: Register::R11, destination: Register::Rax });
    store_rax(home, output);
    assert(output@ =~= before + advance_index_instructions(frame, index));
}

/// The runtime entry that allocates storage.
pub open spec fn runtime_alloc_text() -> Seq<char> {
    "ska_rt_alloc"@
}

/// The request of an allocation: a length above the ownership kind's
/// maximum goes to `failure`, an empty inline length to `empty`; otherwise
/// header plus `length` strides are requested and the backing stored, its
/// address kept in `rdx`.
pub open spec fn request_lines(
    frame: &FrameLayout,
    layout: ArrayLayout,
    backing: StorageId,
    length: ArrayAllocationLength,
    ownership: MirArrayOwnership,
    empty: Seq<char>,
    failure: Seq<char>,
) -> Seq<Seq<char>> {
    let inline = ownership == MirArrayOwnership::Inline;
    lines(
        seq![
            allocation_length_instruction(frame, length),
            Instruction::MoveImmediate64 {
                bits: if inline {
                    layout.maximum_length
                } else {
                    layout.shared_maximum_length
                },
                destination: Register::R11,
            },
            Instruction::Compare { source: Register::R11, destination: Register::Rax },
        ],
    ) + seq![one_operand_line("ja"@, failure)] + (if inline {
        seq![line_text(Instruction::Test(Register::Rax)), one_operand_line("je"@, empty)]
    } else {
        Seq::empty()
    }) + lines(
        seq![
            Instruction::MoveImmediate64 { bits: layout.stride as u64, destination: Register::R11 },
            Instruction::Multiply { source: Register::R11, destination: Register::Rax },
            Instruction::MoveImmediate64 {
                bits: (if inline {
                    layout.element_offset
                } else {
                    layout.shared_element_offset
                }) as u64,
                destination: Register::R11,
            },
            Instruction::Add { source: Register::R11, destination: Register::Rax },
            Instruction::Move {
                source: Operand::Register(Register::Rax),
                destination: Operand::Register(Register::Rdi),
            },
        ],
    ) + seq![one_operand_line("call"@, runtime_alloc_text())] + lines(
        seq![
            store_rax_instruction(storage_operand(frame, backing)),
            Instruction::Move {
                source: Operand::Register(Register::Rax),
                destination: Operand::Register(Register::Rdx),
            },
        ],
    )
}

/// The header of a new backing at `rdx`: an inline backing gets its owner
/// count of one, then either kind gets its length.
pub open spec fn header_instructions(
    frame: &FrameLayout,
    length: ArrayAllocationLength,
    ownership: MirArrayOwnership,
) -> Seq<Instruction> {
    if ownership == MirArrayOwnership::Inline {
        seq![
            Instruction::MoveImmediate64 { bits: 1, destination: Register::Rax },
            store_rax_instruction(spec_memory(Register::Rdx, ARRAY_OWNER_COUNT_OFFSET)),
            allocation_length_instruction(frame, length),
            store_rax_instruction(spec_memory(Register::Rdx, ARRAY_LENGTH_OFFSET)),
        ]
    } else {
        seq![
            allocation_length_instruction(frame, length),
            store_rax_instruction(spec_memory(Register::Rdx, SHARED_ARRAY_LENGTH_OFFSET)),
        ]
    }
}

/// The outcomes: success leaves status one in `r11`; an empty inline array
/// gets a null backing and status one; a failure a null backing and
/// status zero.
pub open spec fn outcome_lines(
    frame: &FrameLayout,
    backing: StorageId,
    empty: Seq<char>,
    failure: Seq<char>,
    complete: Seq<char>,
) -> Seq<Seq<char>> {
    seq![
        line_text(Instruction::MoveImmediate64 { bits: 1, destination: Register::R11 }),
        one_operand_line("jmp"@, complete),
        label_text_line(empty),
    ] + lines(clear_storage_instructions(frame, backing)) + seq![
        line_text(Instruction::MoveImmediate64 { bits: 1, destination: Register::R11 }),
        one_operand_line("jmp"@, complete),
        label_text_line(failure),
    ] + lines(clear_storage_instructions(frame, backing)) + seq![
        line_text(Instruction::MoveImmediate64 { bits: 0, destination: Register::R11 }),
        label_text_line(complete),
    ]
}

/// An allocation: its request, the header of the new backing, and the
/// outcomes.
pub open spec fn allocate_lines(
    frame: &FrameLayout,
    layout: ArrayLayout,
    backing: StorageId,
    length: ArrayAllocationLength,
    ownership: MirArrayOwnership,
    empty: Seq<char>,
    failure: Seq<char>,
    complete: Seq<char>,
) -> Seq<Seq<char>> {
    request_lines(frame, layout, backing, length, ownership, empty, failure) + lines(
        header_instructions(frame, length, ownership),
    ) + outcome_lines(frame, backing, empty, failure, complete)
}

fn emit_allocation_request(
    frame: &FrameLayout,
    layout: ArrayLayout,
    backing: StorageId,
    length: ArrayAllocationLength,
    ownership: MirArrayOwnership,
    empty: &Label,
    failure: &Label,
    output: &mut Vec<Instruction>,
)
    requires
        backing.idx < frame.storage_offsets@.len(),
        length_ready(frame, length),
    ensures
        old(output)@.len() <= final(output)@.len(),
        final(output)@.subrange(0, old(output)@.len() as int) == old(output)@,
        forall|i: int| 0 <= i < old(output)@.len() ==> #[trigger] final(output)@[i] == old(output)@[i],
        lines(final(output)@) == lines(old(output)@) + request_lines(
            frame,
            layout,
            backing,
            length,
            ownership,
            empty.text@,
            failure.text@,
        ),
{
    let ghost before = lines(output@);
    let inline = ownership == MirArrayOwnership::Inline;
    load_array_allocation_length(frame, length, output);
    output.push(
        Instruction::MoveImmediate64 {
            bits: if inline {
                layout.maximum_length()
            } else {
                layout.shared_maximum_length()
            },
            destination: Register::R11,
        },
    );
    output.push(Instruction::Compare { source: Register::R11, destination: Register::Rax });
    output.push(Instruction::JumpIfAbove(failure.duplicate()));
    if inline {
        output.push(Instruction::Test(Register::Rax));
        output.push(Instruction::JumpIfEqual(empty.duplicate()));
    }
    output.push(
        Instruction::MoveImmediate64 { bits: layout.stride() as u64, destination: Register::R11 },
    );
    output.push(Instruction::Multiply { source: Register::R11, destination: Register::Rax });
    output.push(
        Instruction::MoveImmediate64 {
            bits: if inline {
                layout.element_offset() as u64
            } else {
                layout.shared_element_offset() as u64
            },
            destination: Register::R11,
        },
    );
    output.push(Instruction::Add { source: Register::R11, destination: Register::Rax });
    output.push(
        Instruction::Move {
            source: Operand::Register(Register::Rax),
            destination: Operand::Register(Register::Rdi),
        },
    );
    output.push(Instruction::Call(String::from_str("ska_rt_alloc")));
    store_rax(
        Operand::Memory { base: Register::Rbp, displacement: frame.storage_offsets[backing.index()] },
        output,
    );
    output.push(
        Instruction::Move {
            source: Operand::Register(Register::Rax),
            destination: Operand::Register(Register::Rdx),
        },
    );
    assert(lines(output@) =~= before + request_lines(
        frame,
        layout,
        backing,
        length,
        ownership,
        empty.text@,
        failure.text@,
    ));
}

fn emit_allocation_header(
    frame: &FrameLayout,
    length: ArrayAllocationLength,
    ownership: MirArrayOwnership,
    output: &mut Vec<Instruction>,
)
    requires
        length_ready(frame, length),
    ensures
        final(output)@ == old(output)@ + header_instructions(frame, length, ownership),
{
    let ghost before = output@;
    if ownership == MirArrayOwnership::Inline {
        output.push(Instruction::MoveImmediate64 { bits: 1, destination: Register::Rax });
        store_rax(Operand::Memory { base: Register::Rdx, displacement: ARRAY_OWNER_COUNT_OFFSET }, output);
        load_array_allocation_length(frame, length, output);
        store_rax(Operand::Memory { base: Register::Rdx, displacement: ARRAY_LENGTH_OFFSET }, output);
    } else {
        load_array_allocation_length(frame, length, output);
        store_rax(
            Operand::Memory { base: Register::Rdx, displacement: SHARED_ARRAY_LENGTH_OFFSET },
            output,
        );
    }
    assert(output@ =~= before + header_instructions(frame, length, ownership));
}

fn emit_allocation_outcomes(
    frame: &FrameLayout,
    backing: StorageId,
    empty: Label,
    failure: Label,
    complete: Label,
    output: &mut Vec<Instruction>,
)
    requires
        backing.idx < frame.storage_offsets@.len(),
    ensures
        old(output)@.len() <= final(output)@.len(),
        final(output)@.subrange(0, old(output)@.len() as int) == old(output)@,
        forall|i: int| 0 <= i < old(output)@.len() ==> #[trigger] final(output)@[i] == old(output)@[i],
        lines(final(output)@) == lines(old(output)@) + outcome_lines(
            frame,
            backing,
            empty.text@,
            failure.text@,
            complete.text@,
        ),
{
    let ghost before = lines(output@);
    let ghost texts = (empty.text@, failure.text@, complete.text@);
    output.push(Instruction::MoveImmediate64 { bits: 1, destination: Register::R11 });
    output.push(Instruction::Jump(complete.duplicate()));
    output.push(Instruction::Label(empty));
    let ghost at_empty = output@;
    clear_storage(frame, backing, output);
    assert(lines(output@) =~= lines(at_empty) + lines(clear_storage_instructions(frame, backing)));
    output.push(Instruction::MoveImmediate64 { bits: 1, destination: Register::R11 });
    output.push(Instruction::Jump(complete.duplicate()));
    output.push(Instruction::Label(failure));
    let ghost at_failure = output@;
    clear_storage(frame, backing, output);
    assert(lines(output@) =~= lines(at_failure) + lines(clear_storage_instructions(frame, backing)));
    output.push(Instruction::MoveImmediate64 { bits: 0, destination: Register::R11 });
    output.push(Instruction::Label(complete));
    assert(lines(output@) =~= before + outcome_lines(frame, backing, texts.0, texts.1, texts.2));
}

/// The layout of an array, when it was laid out.
pub open spec fn array_layout(data_layout: &DataLayout, array: ArrayTypeId) -> Option<ArrayLayout> {
    if array.idx < data_layout.arrays@.len() {
        Some(data_layout.arrays@[array.idx as int])
    } else {
        None
    }
}

/// `array N has no target layout`.
pub open spec fn missing_layout_message(array: ArrayTypeId) -> Seq<char> {
    "array "@ + decimal_text(array.idx as nat) + " has no target layout"@
}

/// Selects an array allocation; an array without a target layout is an
/// error and selects nothing.
pub fn select_array_allocate_length(
    frame: &FrameLayout,
    data_layout: &DataLayout,
    block: BlockId,
    sequence: &mut usize,
    backing: StorageId,
    array: ArrayTypeId,
    length: ArrayAllocationLength,
    ownership: MirArrayOwnership,
    output: &mut Vec<Instruction>,
) -> (r: Result<(), BackendError>)
    requires
        backing.idx < frame.storage_offsets@.len(),
        length_ready(frame, length),
        *old(sequence) < usize::MAX - 3,
    ensures
        match array_layout(data_layout, array) {
            Some(layout) => r is Ok && *final(sequence) == *old(sequence) + 3 && lines(
                final(output)@,
            ) == lines(old(output)@) + allocate_lines(
                frame,
                layout,
                backing,
                length,
                ownership,
                array_label_text(block, *old(sequence) as nat, "allocate_empty"@),
                array_label_text(block, *old(sequence) as nat + 1, "allocate_failure"@),
                array_label_text(block, *old(sequence) as nat + 2, "allocate_complete"@),
            ),
            None => r matches Err(error) && error_is(
                error,
                Some(block.callable),
                missing_layout_message(array),
            ) && final(output)@ == old(output)@ && *final(sequence) == *old(sequence),
        },
{
    let layout = match data_layout.array(array) {
        Some(layout) => layout,
        None => {
            let mut message = String::from_str("array ");
            let digits = decimal(array.index() as u64);
            message.append(digits.as_str());
            message.append(" has no target layout");
            return Err(array_error(block.callable(), message));
        },
    };
    let ghost before = lines(output@);
    let empty = next_array_label(block, sequence, "allocate_empty");
    let failure = next_array_label(block, sequence, "allocate_failure");
    let complete = next_array_label(block, sequence, "allocate_complete");
    let ghost labels = (empty.text@, failure.text@, complete.text@);
    emit_allocation_request(frame, layout, backing, length, ownership, &empty, &failure, output);
    let ghost requested = output@;
    emit_allocation_header(frame, length, ownership, output);
    assert(lines(output@) =~= lines(requested) + lines(header_instructions(frame, length, ownership)));
    emit_allocation_outcomes(frame, backing, empty, failure, complete, output);
    assert(lines(output@) =~= before + allocate_lines(
        frame,
        layout,
        backing,
        length,
        ownership,
        labels.0,
        labels.1,
        labels.2,
    ));
    Ok(())
}

/// Selects the allocation of `length` elements, the length being a value.
pub fn select_array_allocate(
    frame: &FrameLayout,
    data_layout: &DataLayout,
    block: BlockId,
    sequence: &mut usize,
    backing: StorageId,
    array: ArrayTypeId,
    length: ValueId,
    ownership: MirArrayOwnership,
    output: &mut Vec<Instruction>,
) -> (r: Result<(), BackendError>)
    requires
        backing.idx < frame.storage_offsets@.len(),
        length.idx < frame.value_offsets@.len(),
        *old(sequence) < usize::MAX - 3,
    ensures
        match array_layout(data_layout, array) {
            Some(layout) => r is Ok && *final(sequence) == *old(sequence) + 3 && lines(
                final(output)@,
            ) == lines(old(output)@) + allocate_lines(
                frame,
                layout,
                backing,
                ArrayAllocationLength::Value(length),
                ownership,
                array_label_text(block, *old(sequence) as nat, "allocate_empty"@),
                array_label_text(block, *old(sequence) as nat + 1, "allocate_failure"@),
                array_label_text(block, *old(sequence) as nat + 2, "allocate_complete"@),
            ),
            None => r matches Err(error) && error_is(
                error,
                Some(block.callable),
                missing_layout_message(array),
            ) && final(output)@ == old(output)@ && *final(sequence) == *old(sequence),
        },
{
    select_array_allocate_length(
        frame,
        data_layout,
        block,
        sequence,
        backing,
        array,
        ArrayAllocationLength::Value(length),
        ownership,
        output,
    )
}

/// Whether the storage entries an array terminator reads have homes.
pub open spec fn array_terminator_ready(frame: &FrameLayout, terminator: MirTerminator) -> bool {
    match terminator {
        MirTerminator::ArrayLoop { index, length, .. } => index.idx < frame.storage_offsets@.len()
            && length.idx < frame.storage_offsets@.len(),
        MirTerminator::ArrayPositionCheck { position, .. } => position.idx
            < frame.storage_offsets@.len(),
        _ => true,
    }
}

/// The lines of an array terminator: an operation check branches on the
/// status in `r11`; a loop runs its body while the index is below the
/// length; a position check fails on the invalid position, all ones.
pub open spec fn array_terminator_lines(frame: &FrameLayout, terminator: MirTerminator) -> Seq<
    Seq<char>,
> {
    match terminator {
        MirTerminator::ArrayOperationCheck { success_target, failure_target, .. } => seq![
            line_text(Instruction::Test(Register::R11)),
            one_operand_line("jne"@, block_label_text(success_target)),
            one_operand_line("jmp"@, block_label_text(failure_target)),
        ],
        MirTerminator::ArrayLoop { index, length, body_target, complete_target } => seq![
            line_text(load_rax_instruction(storage_operand(frame, index))),
            line_text(
                Instruction::Move {
                    source: storage_operand(frame, length),
                    destination: Operand::Register(Register::R11),
                },
            ),
            line_text(Instruction::Compare { source: Register::R11, destination: Register::Rax }),
            one_operand_line("jb"@, block_label_text(body_target)),
            one_operand_line("jmp"@, block_label_text(complete_target)),
        ],
        MirTerminator::ArrayPositionCheck { position, success_target, failure_target, .. } => seq![
            line_text(load_rax_instruction(storage_operand(frame, position))),
            line_text(Instruction::MoveImmediate64 { bits: u64::MAX, destination: Register::R11 }),
            line_text(Instruction::Compare { source: Register::R11, destination: Register::Rax }),
            one_operand_line("jne"@, block_label_text(success_target)),
            one_operand_line("jmp"@, block_label_text(failure_target)),
        ],
        _ => Seq::empty(),
    }
}

/// Selects an array terminator; other terminators select nothing here.
pub fn select_array_terminator(
    frame: &FrameLayout,
    terminator: &MirTerminator,
    output: &mut Vec<Instruction>,
) -> (r: bool)
    requires
        array_terminator_ready(frame, *terminator),
    ensures
        old(output)@.len() <= final(output)@.len(),
        final(output)@.subrange(0, old(output)@.len() as int) == old(output)@,
        forall|i: int| 0 <= i < old(output)@.len() ==> #[trigger] final(output)@[i] == old(output)@[i],
        r == (*terminator is ArrayOperationCheck || *terminator is ArrayLoop
            || *terminator is ArrayPositionCheck),
        lines(final(output)@) == lines(old(output)@) + array_terminator_lines(frame, *terminator),
{
    let ghost before = lines(output@);
    match terminator {
        MirTerminator::ArrayOperationCheck { success_target, failure_target, .. } => {
            output.push(Instruction::Test(Register::R11));
            output.push(Instruction::JumpIfNotZero(block_label(*success_target)));
            output.push(Instruction::Jump(block_label(*failure_target)));
            assert(lines(output@) =~= before + array_terminator_lines(frame, *terminator));
            true
        },
        MirTerminator::ArrayLoop { index, length, body_target, complete_target } => {
            load_rax(
                Operand::Memory {
                    base: Register::Rbp,
                    displacement: frame.storage_offsets[index.index()],
                },
                output,
            );
            output.push(
                Instruction::Move {
                    source: Operand::Memory {
                        base: Register::Rbp,
                        displacement: frame.storage_offsets[length.index()],
                    },
                    destination: Operand::Register(Register::R11),
                },
            );
            output.push(Instruction::Compare { source: Register::R11, destination: Register::Rax });
            output.push(Instruction::JumpIfBelow(block_label(*body_target)));
            output.push(Instruction::Jump(block_label(*complete_target)));
            assert(lines(output@) =~= before + array_terminator_lines(frame, *terminator));
            true
        },
        MirTerminator::ArrayPositionCheck { position, success_target, failure_target, .. } => {
            load_rax(
                Operand::Memory {
                    base: Register::Rbp,
                    displacement: frame.storage_offsets[position.index()],
                },
                output,
            );
            output.push(Instruction::MoveImmediate64 { bits: u64::MAX, destination: Register::R11 });
            output.push(Instruction::Compare { source: Register::R11, destination: Register::Rax });
            output.push(Instruction::JumpIfNotZero(block_label(*success_target)));
            output.push(Instruction::Jump(block_label(*failure_target)));
            assert(lines(output@) =~= before + array_terminator_lines(frame, *terminator));
            true
        },
        _ => {
            assert(lines(output@) =~= before + array_terminator_lines(frame, *terminator));
            false
        },
    }
}

/// A slice's bounds are valid when its start is at most its end, compared
/// unsigned: status one in `r11`, else zero.
pub open spec fn slice_bounds_lines(
    frame: &FrameLayout,
    start: StorageId,
    end: StorageId,
    valid: Seq<char>,
    complete: Seq<char>,
) -> Seq<Seq<char>> {
    seq![
        line_text(load_rax_instruction(storage_operand(frame, start))),
        line_text(
            Instruction::Move {
                source: storage_operand(frame, end),
                destination: Operand::Register(Register::Rdx),
            },
        ),
        line_text(Instruction::Compare { source: Register::Rdx, destination: Register::Rax }),
        one_operand_line("jb"@, valid),
        one_operand_line("je"@, valid),
        line_text(Instruction::MoveImmediate64 { bits: 0, destination: Register::R11 }),
        one_operand_line("jmp"@, complete),
        label_text_line(valid),
        line_text(Instruction::MoveImmediate64 { bits: 1, destination: Register::R11 }),
        label_text_line(complete),
    ]
}

pub fn select_array_slice_bounds_check(
    frame: &FrameLayout,
    block: BlockId,
    sequence: &mut usize,
    start: StorageId,
    end: StorageId,
    output: &mut Vec<Instruction>,
)
    requires
        start.idx < frame.storage_offsets@.len(),
        end.idx < frame.storage_offsets@.len(),
        *old(sequence) < usize::MAX - 2,
    ensures
        old(output)@.len() <= final(output)@.len(),
        final(output)@.subrange(0, old(output)@.len() as int) == old(output)@,
        forall|i: int| 0 <= i < old(output)@.len() ==> #[trigger] final(output)@[i] == old(output)@[i],
        *final(sequence) == *old(sequence) + 2,
        lines(final(output)@) == lines(old(output)@) + slice_bounds_lines(
            frame,
            start,
            end,
            array_label_text(block, *old(sequence) as nat, "slice_bounds_valid"@),
            array_label_text(block, *old(sequence) as nat + 1, "slice_bounds_complete"@),
        ),
{
    let ghost before = lines(output@);
    let valid = next_array_label(block, sequence, "slice_bounds_valid");
    let complete = next_array_label(block, sequence, "slice_bounds_complete");
    let ghost texts = (valid.text@, complete.text@);
    load_rax(
        Operand::Memory { base: Register::Rbp, displacement: frame.storage_offsets[start.index()] },
        output,
    );
    output.push(
        Instruction::Move {
            source: Operand::Memory {
                base: Register::Rbp,
                displacement: frame.storage_offsets[end.index()],
            },
            destination: Operand::Register(Register::Rdx),
        },
    );
    output.push(Instruction::Compare { source: Register::Rdx, destination: Register::Rax });
    output.push(Instruction::JumpIfBelow(valid.duplicate()));
    output.push(Instruction::JumpIfEqual(valid.duplicate()));
    output.push(Instruction::MoveImmediate64 { bits: 0, destination: Register::R11 });
    output.push(Instruction::Jump(complete.duplicate()));
    output.push(Instruction::Label(valid));
    output.push(Instruction::MoveImmediate64 { bits: 1, destination: Register::R11 });
    output.push(Instruction::Label(complete));
    assert(lines(output@) =~= before + slice_bounds_lines(frame, start, end, texts.0, texts.1));
}

/// Status one in `r11` when `left` equals `right`, else zero.
pub open spec fn equality_status_lines(
    left: Register,
    right: Register,
    equal: Seq<char>,
    complete: Seq<char>,
) -> Seq<Seq<char>> {
    seq![
        line_text(Instruction::Compare { source: left, destination: right }),
        one_operand_line("je"@, equal),
        line_text(Instruction::MoveImmediate64 { bits: 0, destination: Register::R11 }),
        one_operand_line("jmp"@, complete),
        label_text_line(equal),
        line_text(Instruction::MoveImmediate64 { bits: 1, destination: Register::R11 }),
        label_text_line(complete),
    ]
}

pub fn select_equality_status(
    block: BlockId,
    sequence: &mut usize,
    left: Register,
    right: Register,
    purpose: &str,
    output: &mut Vec<Instruction>,
)
    requires
        *old(sequence) < usize::MAX - 2,
    ensures
        old(output)@.len() <= final(output)@.len(),
        final(output)@.subrange(0, old(output)@.len() as int) == old(output)@,
        forall|i: int| 0 <= i < old(output)@.len() ==> #[trigger] final(output)@[i] == old(output)@[i],
        *final(sequence) == *old(sequence) + 2,
        lines(final(output)@) == lines(old(output)@) + equality_status_lines(
            left,
            right,
            array_label_text(block, *old(sequence) as nat, purpose@ + "_equal"@),
            array_label_text(block, *old(sequence) as nat + 1, purpose@ + "_complete"@),
        ),
{
    let ghost before = lines(output@);
    let mut equal_purpose = String::from_str(purpose);
    equal_purpose.append("_equal");
    let mut complete_purpose = String::from_str(purpose);
    complete_purpose.append("_complete");
    let equal = next_array_label(block, sequence, equal_purpose.as_str());
    let complete = next_array_label(block, sequence, complete_purpose.as_str());
    let ghost texts = (equal.text@, complete.text@);
    output.push(Instruction::Compare { source: left, destination: right });
    output.push(Instruction::JumpIfEqual(equal.duplicate()));
    output.push(Instruction::MoveImmediate64 { bits: 0, destination: Register::R11 });
    output.push(Instruction::Jump(complete.duplicate()));
    output.push(Instruction::Label(equal));
    output.push(Instruction::MoveImmediate64 { bits: 1, destination: Register::R11 });
    output.push(Instruction::Label(complete));
    assert(lines(output@) =~= before + equality_status_lines(left, right, texts.0, texts.1));
}

/// Adds one to the word at `displacement` from `rsp`.
pub open spec fn increment_stack_home_instructions(displacement: i32) -> Seq<Instruction> {
    seq![
        load_rax_instruction(spec_memory(Register::Rsp, displacement)),
        Instruction::MoveImmediate64 { bits: 1, destination: Register::R11 },
        Instruction::Add { source: Register::R11, destination: Register::Rax },
        store_rax_instruction(spec_memory(Register::Rsp, displacement)),
    ]
}

pub fn increment_stack_home(displacement: i32, output: &mut Vec<Instruction>)
    ensures
        final(output)@ == old(output)@ + increment_stack_home_instructions(displacement),
{
    let ghost before = output@;
    load_rax(Operand::Memory { base: Register::Rsp, displacement }, output);
    output.push(Instruction::MoveImmediate64 { bits: 1, destination: Register::R11 });
    output.push(Instruction::Add { source: Register::R11, destination: Register::Rax });
    store_rax(Operand::Memory { base: Register::Rsp, displacement }, output);
    assert(output@ =~= before + increment_stack_home_instructions(displacement));
}

/// Adds an owner to the inline backing in `rax`: a null backing is left
/// alone, a dead or saturated count traps.
pub open spec fn retain_backing_lines(empty: Seq<char>, failure: Seq<char>, complete: Seq<char>) -> Seq<
    Seq<char>,
> {
    seq![
        line_text(Instruction::Test(Register::Rax)),
        one_operand_line("je"@, empty),
        line_text(
            Instruction::Move {
                source: spec_memory(Register::Rax, ARRAY_OWNER_COUNT_OFFSET),
                destination: Operand::Register(Register::Rcx),
            },
        ),
        line_text(Instruction::Test(Register::Rcx)),
        one_operand_line("je"@, failure),
        line_text(Instruction::MoveImmediate64 { bits: u64::MAX, destination: Register::R11 }),
        line_text(Instruction::Compare { source: Register::R11, destination: Register::Rcx }),
        one_operand_line("je"@, failure),
        line_text(Instruction::MoveImmediate64 { bits: 1, destination: Register::R11 }),
        line_text(Instruction::Add { source: Register::R11, destination: Register::Rcx }),
        line_text(
            Instruction::Move {
                source: Operand::Register(Register::Rcx),
                destination: spec_memory(Register::Rax, ARRAY_OWNER_COUNT_OFFSET),
            },
        ),
        one_operand_line("jmp"@, complete),
        label_text_line(failure),
        line_text(Instruction::Trap),
        label_text_line(empty),
        label_text_line(complete),
    ]
}

#[verifier::rlimit(50)]
pub fn retain_inline_array_backing(block: BlockId, sequence: &mut usize, output: &mut Vec<Instruction>)
    requires
        *old(sequence) < usize::MAX - 3,
    ensures
        old(output)@.len() <= final(output)@.len(),
        final(output)@.subrange(0, old(output)@.len() as int) == old(output)@,
        forall|i: int| 0 <= i < old(output)@.len() ==> #[trigger] final(output)@[i] == old(output)@[i],
        *final(sequence) == *old(sequence) + 3,
        lines(final(output)@) == lines(old(output)@) + retain_backing_lines(
            array_label_text(block, *old(sequence) as nat, "anchor_retain_empty"@),
            array_label_text(block, *old(sequence) as nat + 1, "anchor_retain_failure"@),
            array_label_text(block, *old(sequence) as nat + 2, "anchor_retain_complete"@),
        ),
{
    let ghost before = lines(output@);
    let empty = next_array_label(block, sequence, "anchor_retain_empty");
    let failure = next_array_label(block, sequence, "anchor_retain_failure");
    let complete = next_array_label(block, sequence, "anchor_retain_complete");
    let ghost texts = (empty.text@, failure.text@, complete.text@);
    let count = Operand::Memory { base: Register::Rax, displacement: ARRAY_OWNER_COUNT_OFFSET };
    output.push(Instruction::Test(Register::Rax));
    output.push(Instruction::JumpIfEqual(empty.duplicate()));
    output.push(Instruction::Move { source: count, destination: Operand::Register(Register::Rcx) });
    output.push(Instruction::Test(Register::Rcx));
    output.push(Instruction::JumpIfEqual(failure.duplicate()));
    output.push(Instruction::MoveImmediate64 { bits: u64::MAX, destination: Register::R11 });
    output.push(Instruction::Compare { source: Register::R11, destination: Register::Rcx });
    output.push(Instruction::JumpIfEqual(failure.duplicate()));
    assert(lines(output@) =~= before + retain_backing_lines(texts.0, texts.1, texts.2).take(8));
    output.push(Instruction::MoveImmediate64 { bits: 1, destination: Register::R11 });
    output.push(Instruction::Add { source: Register::R11, destination: Register::Rcx });
    output.push(Instruction::Move { source: Operand::Register(Register::Rcx), destination: count });
    output.push(Instruction::Jump(complete.duplicate()));
    output.push(Instruction::Label(failure));
    output.push(Instruction::Trap);
    output.push(Instruction::Label(empty));
    output.push(Instruction::Label(complete));
    assert(lines(output@) =~= before + retain_backing_lines(texts.0, texts.1, texts.2));
}

/// The end of an array anchor: an inline-backing anchor releases the owner
/// it holds; every anchor is cleared.
pub open spec fn anchor_end_lines(frame: &FrameLayout, anchor: StorageId, array: ArrayTypeId, releases: bool) -> Seq<
    Seq<char>,
> {
    (if releases {
        seq![
            line_text(load_rax_instruction(storage_operand(frame, anchor))),
            line_text(
                Instruction::Move {
                    source: Operand::Register(Register::Rax),
                    destination: Operand::Register(Register::Rdi),
                },
            ),
            one_operand_line("call"@, array_helper_text("release"@, array)),
        ]
    } else {
        Seq::empty()
    }) + lines(clear_storage_instructions(frame, anchor))
}

/// Ends an array anchor; an anchor whose storage has no array type is an
/// error and selects nothing.
pub fn select_array_anchor_end(
    function: &MirDefinition,
    frame: &FrameLayout,
    anchor: StorageId,
    output: &mut Vec<Instruction>,
) -> (r: Result<(), BackendError>)
    requires
        anchor.idx < function.storage@.len(),
        anchor.idx < frame.storage_offsets@.len(),
    ensures
        old(output)@.len() <= final(output)@.len(),
        final(output)@.subrange(0, old(output)@.len() as int) == old(output)@,
        forall|i: int| 0 <= i < old(output)@.len() ==> #[trigger] final(output)@[i] == old(output)@[i],
        match function.storage@[anchor.idx as int].ty {
            MirType::Array(array) => r is Ok && lines(final(output)@) == lines(old(output)@)
                + anchor_end_lines(
                frame,
                anchor,
                array,
                function.storage@[anchor.idx as int].kind == MirStorageKind::ArrayAnchor(
                    MirArrayAnchorKind::InlineBacking,
                ),
            ),
            _ => r matches Err(error) && error_is(
                error,
                Some(function.callable),
                "array anchor storage has no array type"@,
            ) && final(output)@ == old(output)@,
        },
{
    let storage = function.storage(anchor).unwrap();
    let array = match storage.ty {
        MirType::Array(array) => array,
        _ => {
            return Err(
                array_error(function.callable, String::from_str("array anchor storage has no array type")),
            );
        },
    };
    let ghost before = lines(output@);
    let home = Operand::Memory {
        base: Register::Rbp,
        displacement: frame.storage_offsets[anchor.index()],
    };
    let releases = storage.kind == MirStorageKind::ArrayAnchor(MirArrayAnchorKind::InlineBacking);
    if releases {
        load_rax(home, output);
        output.push(
            Instruction::Move {
                source: Operand::Register(Register::Rax),
                destination: Operand::Register(Register::Rdi),
            },
        );
        output.push(Instruction::Call(array_release(array)));
    }
    let ghost released = output@;
    clear_storage(frame, anchor, output);
    assert(lines(output@) =~= lines(released) + lines(clear_storage_instructions(frame, anchor)));
    assert(lines(output@) =~= before + anchor_end_lines(frame, anchor, array, releases));
    Ok(())
}

/// The array type of an array storage entry; another type is an error.
pub fn array_for_storage(function: &MirDefinition, storage: StorageId) -> (r: Result<
    ArrayTypeId,
    BackendError,
>)
    requires
        storage.idx < function.storage@.len(),
    ensures
        match function.storage@[storage.idx as int].ty {
            MirType::Array(array) => r == Ok::<ArrayTypeId, BackendError>(array),
            _ => r matches Err(error) && error_is(
                error,
                Some(function.callable),
                "array storage has no array type"@,
            ),
        },
{
    match function.storage(storage).unwrap().ty {
        MirType::Array(array) => Ok(array),
        _ => Err(array_error(function.callable, String::from_str("array storage has no array type"))),
    }
}

/// The stack space that keeps a fresh element handle across the calls that
/// initialize it.
pub const PRESERVED_HANDLE_SIZE: u32 = 16;

/// Keeps the handle in `rax` on the stack.
pub open spec fn preserve_handle_instructions() -> Seq<Instruction> {
    seq![
        Instruction::ReserveStack(PRESERVED_HANDLE_SIZE),
        store_rax_instruction(spec_memory(Register::Rsp, 0)),
    ]
}

pub fn preserve_shared_element_handle(output: &mut Vec<Instruction>)
    ensures
        final(output)@ == old(output)@ + preserve_handle_instructions(),
{
    let ghost before = output@;
    output.push(Instruction::ReserveStack(PRESERVED_HANDLE_SIZE));
    store_rax(Operand::Memory { base: Register::Rsp, displacement: 0 }, output);
    assert(output@ =~= before + preserve_handle_instructions());
}

/// Takes the kept handle back into `rax` and frees its stack space.
pub open spec fn restore_handle_instructions() -> Seq<Instruction> {
    seq![
        load_rax_instruction(spec_memory(Register::Rsp, 0)),
        Instruction::ReleaseStack(PRESERVED_HANDLE_SIZE),
    ]
}

pub fn restore_shared_element_handle(output: &mut Vec<Instruction>)
    ensures
        final(output)@ == old(output)@ + restore_handle_instructions(),
{
    let ghost before = output@;
    load_rax(Operand::Memory { base: Register::Rsp, displacement: 0 }, output);
    output.push(Instruction::ReleaseStack(PRESERVED_HANDLE_SIZE));
    assert(output@ =~= before + restore_handle_instructions());
}

/// Gives the allocation in `r11` its first owner.
pub open spec fn publish_count_instructions() -> Seq<Instruction> {
    seq![
        Instruction::MoveImmediate64 { bits: 1, destination: Register::Rax },
        store_rax_instruction(spec_memory(Register::R11, ARRAY_OWNER_COUNT_OFFSET)),
    ]
}

pub fn publish_preserved_count(output: &mut Vec<Instruction>)
    ensures
        final(output)@ == old(output)@ + publish_count_instructions(),
{
    let ghost before = output@;
    output.push(Instruction::MoveImmediate64 { bits: 1, destination: Register::Rax });
    store_rax(Operand::Memory { base: Register::R11, displacement: ARRAY_OWNER_COUNT_OFFSET }, output);
    assert(output@ =~= before + publish_count_instructions());
}

/// Publishes the kept class handle: its metadata is the table of `class`
/// and it gets its first owner.
pub open spec fn publish_class_lines(class: ClassId) -> Seq<Seq<char>> {
    seq![
        line_text(
            Instruction::Move {
                source: spec_memory(Register::Rsp, 0),
                destination: Operand::Register(Register::R11),
            },
        ),
        table_address_line(class, Register::Rax),
        line_text(store_rax_instruction(spec_memory(Register::R11, SHARED_DYNAMIC_METADATA_OFFSET))),
    ] + lines(publish_count_instructions())
}

pub fn publish_preserved_class_handle(class: ClassId, output: &mut Vec<Instruction>)
    ensures
        old(output)@.len() <= final(output)@.len(),
        final(output)@.subrange(0, old(output)@.len() as int) == old(output)@,
        forall|i: int| 0 <= i < old(output)@.len() ==> #[trigger] final(output)@[i] == old(output)@[i],
        lines(final(output)@) == lines(old(output)@) + publish_class_lines(class),
{
    let ghost before = lines(output@);
    output.push(
        Instruction::Move {
            source: Operand::Memory { base: Register::Rsp, displacement: 0 },
            destination: Operand::Register(Register::R11),
        },
    );
    output.push(Instruction::LoadSymbolAddress { symbol: dispatch_table(class), destination: Register::Rax });
    store_rax(
        Operand::Memory { base: Register::R11, displacement: SHARED_DYNAMIC_METADATA_OFFSET },
        output,
    );
    let ghost stored = output@;
    publish_preserved_count(output);
    assert(lines(output@) =~= lines(stored) + lines(publish_count_instructions()));
    assert(lines(output@) =~= before + publish_class_lines(class));
}

/// The ownership an instruction allocates `backing` with, if it does.
pub open spec fn allocated_ownership(instruction: MirInstruction, backing: StorageId) -> Option<
    MirArrayOwnership,
> {
    match instruction {
        MirInstruction::Array(MirArrayInstruction::Allocate { backing: candidate, ownership, .. }) =>
            if candidate == backing {
            Some(ownership)
        } else {
            None
        },
        MirInstruction::Array(
            MirArrayInstruction::AllocateElements { backing: candidate, ownership, .. },
        ) => if candidate == backing {
            Some(ownership)
        } else {
            None
        },
        _ => None,
    }
}

/// The first allocation of `backing` among instructions, in order.
pub open spec fn first_allocation(instructions: Seq<MirInstruction>, backing: StorageId) -> Option<
    MirArrayOwnership,
>
    decreases instructions.len(),
{
    if instructions.len() == 0 {
        None
    } else {
        match allocated_ownership(instructions[0], backing) {
            Some(ownership) => Some(ownership),
            None => first_allocation(instructions.drop_first(), backing),
        }
    }
}

/// The first allocation of `backing` in the blocks, in order.
pub open spec fn first_block_allocation(blocks: Seq<MirBlock>, backing: StorageId) -> Option<
    MirArrayOwnership,
>
    decreases blocks.len(),
{
    if blocks.len() == 0 {
        None
    } else {
        match first_allocation(blocks[0].instructions@, backing) {
            Some(ownership) => Some(ownership),
            None => first_block_allocation(blocks.drop_first(), backing),
        }
    }
}

fn instructions_allocation(instructions: &Vec<MirInstruction>, backing: StorageId) -> (r: Option<
    MirArrayOwnership,
>)
    ensures
        r == first_allocation(instructions@, backing),
{
    let mut i: usize = instructions.len();
    let mut found: Option<MirArrayOwnership> = None;
    while i > 0
        invariant
            i <= instructions@.len(),
            found == first_allocation(instructions@.skip(i as int), backing),
        decreases i,
    {
        i = i - 1;
        let candidate = match &instructions[i] {
            MirInstruction::Array(MirArrayInstruction::Allocate { backing: other, ownership, .. }) =>
                if *other == backing {
                Some(*ownership)
            } else {
                None
            },
            MirInstruction::Array(
                MirArrayInstruction::AllocateElements { backing: other, ownership, .. },
            ) => if *other == backing {
                Some(*ownership)
            } else {
                None
            },
            _ => None,
        };
        assert(instructions@.skip(i as int).drop_first() =~= instructions@.skip(i + 1));
        if candidate.is_some() {
            found = candidate;
        }
    }
    assert(instructions@.skip(0) =~= instructions@);
    found
}

/// The ownership that the body's first allocation of `backing` gives it.
pub fn array_backing_ownership(blocks: &Vec<MirBlock>, backing: StorageId) -> (r: Option<
    MirArrayOwnership,
>)
    ensures
        r == first_block_allocation(blocks@, backing),
{
    let mut i: usize = blocks.len();
    let mut found: Option<MirArrayOwnership> = None;
    while i > 0
        invariant
            i <= blocks@.len(),
            found == first_block_allocation(blocks@.skip(i as int), backing),
        decreases i,
    {
        i = i - 1;
        let candidate = instructions_allocation(&blocks[i].instructions, backing);
        assert(blocks@.skip(i as int).drop_first() =~= blocks@.skip(i + 1));
        if candidate.is_some() {
            found = candidate;
        }
    }
    assert(blocks@.skip(0) =~= blocks@);
    found
}

/// `range offsets must use the unsigned offset instruction`.
pub open spec fn range_offset_message() -> Seq<char> {
    "range offsets must use the unsigned offset instruction"@
}

/// The array instructions that work on frame storage alone; those that
/// address places are selected with place lowering.
pub open spec fn array_instruction_selected(instruction: MirArrayInstruction) -> bool {
    match instruction {
        MirArrayInstruction::Allocate { .. }
        | MirArrayInstruction::AllocateElements { .. }
        | MirArrayInstruction::CompleteElement { .. }
        | MirArrayInstruction::Publish { .. }
        | MirArrayInstruction::PublishShared { .. }
        | MirArrayInstruction::AnchorEnd { .. }
        | MirArrayInstruction::SliceBoundsCheck { .. } => true,
        _ => false,
    }
}

/// Every storage and value an array instruction names has a frame home.
pub open spec fn array_instruction_homed(
    function: &MirDefinition,
    frame: &FrameLayout,
    instruction: MirArrayInstruction,
) -> bool {
    let homes = frame.storage_offsets@.len();
    match instruction {
        MirArrayInstruction::Allocate { backing, length, .. } => backing.idx < homes && length.idx
            < frame.value_offsets@.len(),
        MirArrayInstruction::AllocateElements { backing, prefix, .. } => backing.idx < homes && prefix.idx
            < homes,
        MirArrayInstruction::CompleteElement { prefix } => prefix.idx < homes,
        MirArrayInstruction::Publish { backing, destination, .. } => backing.idx < homes && destination.idx
            < homes,
        MirArrayInstruction::PublishShared { backing, destination, .. } => backing.idx < homes
            && destination.idx < homes,
        MirArrayInstruction::AnchorEnd { anchor } => anchor.idx < homes && anchor.idx
            < function.storage@.len(),
        MirArrayInstruction::SliceBoundsCheck { start, end } => start.idx < homes && end.idx < homes,
        _ => true,
    }
}

/// Publishing a shared backing: its dynamic metadata and a single owner are
/// written through `r11` before the handle moves to its destination.
pub open spec fn publish_shared_lines(
    frame: &FrameLayout,
    backing: StorageId,
    destination: StorageId,
    array: ArrayTypeId,
) -> Seq<Seq<char>> {
    seq![
        line_text(load_rax_instruction(storage_operand(frame, backing))),
        line_text(
            Instruction::Move { source: Operand::Register(Register::Rax), destination: Operand::Register(Register::R11) },
        ),
        symbol_address_line(shared_array_metadata_text(array), Register::Rax),
        line_text(store_rax_instruction(spec_memory(Register::R11, SHARED_DYNAMIC_METADATA_OFFSET))),
        line_text(Instruction::MoveImmediate64 { bits: 1, destination: Register::Rax }),
        line_text(store_rax_instruction(spec_memory(Register::R11, ARRAY_OWNER_COUNT_OFFSET))),
        line_text(
            Instruction::Move {
                source: Operand::Register(Register::R11),
                destination: storage_operand(frame, destination),
            },
        ),
    ] + lines(clear_storage_instructions(frame, backing))
}

/// The lines an array instruction selects from frame storage, or the
/// diagnostic that stops it.
pub open spec fn array_instruction_lines(
    function: &MirDefinition,
    frame: &FrameLayout,
    data_layout: &DataLayout,
    block: BlockId,
    sequence: nat,
    instruction: MirArrayInstruction,
) -> Result<Seq<Seq<char>>, (Option<CallableId>, Seq<char>)> {
    let empty = array_label_text(block, sequence, "allocate_empty"@);
    let failure = array_label_text(block, sequence + 1, "allocate_failure"@);
    let complete = array_label_text(block, sequence + 2, "allocate_complete"@);
    match instruction {
        MirArrayInstruction::Allocate { backing, array, length, ownership, .. } => match array_layout(
            data_layout,
            array,
        ) {
            Some(layout) => Ok(
                allocate_lines(
                    frame,
                    layout,
                    backing,
                    ArrayAllocationLength::Value(length),
                    ownership,
                    empty,
                    failure,
                    complete,
                ),
            ),
            None => Err((Some(block.callable), missing_layout_message(array))),
        },
        MirArrayInstruction::AllocateElements { backing, prefix, array, length, ownership, .. } => match array_layout(
            data_layout,
            array,
        ) {
            Some(layout) => Ok(
                lines(clear_storage_instructions(frame, prefix)) + allocate_lines(
                    frame,
                    layout,
                    backing,
                    ArrayAllocationLength::Constant(length),
                    ownership,
                    empty,
                    failure,
                    complete,
                ),
            ),
            None => Err((Some(block.callable), missing_layout_message(array))),
        },
        MirArrayInstruction::CompleteElement { prefix } => Ok(lines(advance_index_instructions(frame, prefix))),
        MirArrayInstruction::Publish { backing, destination, .. } => Ok(
            lines(
                seq![
                    load_rax_instruction(storage_operand(frame, backing)),
                    store_rax_instruction(storage_operand(frame, destination)),
                ] + clear_storage_instructions(frame, backing),
            ),
        ),
        MirArrayInstruction::PublishShared { backing, destination, array } => Ok(
            publish_shared_lines(frame, backing, destination, array),
        ),
        MirArrayInstruction::AnchorEnd { anchor } => match function.storage@[anchor.idx as int].ty {
            MirType::Array(array) => Ok(
                anchor_end_lines(
                    frame,
                    anchor,
                    array,
                    function.storage@[anchor.idx as int].kind == MirStorageKind::ArrayAnchor(
                        MirArrayAnchorKind::InlineBacking,
                    ),
                ),
            ),
            _ => Err((Some(function.callable), "array anchor storage has no array type"@)),
        },
        MirArrayInstruction::SliceBoundsCheck { start, end } => Ok(
            slice_bounds_lines(
                frame,
                start,
                end,
                array_label_text(block, sequence, "slice_bounds_valid"@),
                array_label_text(block, sequence + 1, "slice_bounds_complete"@),
            ),
        ),
        MirArrayInstruction::Normalize { kind, .. } => if kind is RangeOffset {
            Err((Some(function.callable), range_offset_message()))
        } else {
            Ok(Seq::empty())
        },
        _ => Ok(Seq::empty()),
    }
}

/// The labels an array instruction takes from the block's sequence.
pub open spec fn array_instruction_labels(instruction: MirArrayInstruction) -> int {
    match instruction {
        MirArrayInstruction::Allocate { .. } | MirArrayInstruction::AllocateElements { .. } => 3,
        MirArrayInstruction::SliceBoundsCheck { .. } => 2,
        _ => 0,
    }
}

fn select_array_publish_shared(
    frame: &FrameLayout,
    backing: StorageId,
    destination: StorageId,
    array: ArrayTypeId,
    output: &mut Vec<Instruction>,
)
    requires
        backing.idx < frame.storage_offsets@.len(),
        destination.idx < frame.storage_offsets@.len(),
    ensures
        old(output)@.len() <= final(output)@.len(),
        forall|i: int| 0 <= i < old(output)@.len() ==> #[trigger] final(output)@[i] == old(output)@[i],
        lines(final(output)@) == lines(old(output)@) + publish_shared_lines(frame, backing, destination, array),
{
    let ghost before = lines(output@);
    load_rax(frame_storage(frame, backing), output);
    output.push(
        Instruction::Move { source: Operand::Register(Register::Rax), destination: Operand::Register(Register::R11) },
    );
    output.push(Instruction::LoadSymbolAddress { symbol: shared_array_metadata(array), destination: Register::Rax });
    store_rax(memory(Register::R11, SHARED_DYNAMIC_METADATA_OFFSET), output);
    output.push(Instruction::MoveImmediate64 { bits: 1, destination: Register::Rax });
    store_rax(memory(Register::R11, ARRAY_OWNER_COUNT_OFFSET), output);
    output.push(
        Instruction::Move { source: Operand::Register(Register::R11), destination: frame_storage(frame, destination) },
    );
    let ghost published = output@;
    clear_storage(frame, backing, output);
    assert(lines(output@) =~= lines(published) + lines(clear_storage_instructions(frame, backing)));
    assert(lines(output@) =~= before + publish_shared_lines(frame, backing, destination, array));
}

/// Selects an array instruction that works on frame storage: allocation,
/// advancing an initialized prefix, publishing a finished backing, ending
/// an anchor, and the slice bounds check. The result says whether the
/// instruction was one of these; an instruction that addresses a place is
/// left to place selection and selects nothing here. A range offset given
/// as a normalization is refused. On a diagnostic nothing is appended.
pub fn select_array_instruction(
    function: &MirDefinition,
    frame: &FrameLayout,
    data_layout: &DataLayout,
    block: BlockId,
    instruction: &MirArrayInstruction,
    sequence: &mut usize,
    output: &mut Vec<Instruction>,
) -> (r: Result<bool, BackendError>)
    requires
        array_instruction_homed(function, frame, *instruction),
        *old(sequence) < usize::MAX - 3,
    ensures
        match array_instruction_lines(function, frame, data_layout, block, *old(sequence) as nat, *instruction) {
            Ok(expected) => r == Ok::<bool, BackendError>(array_instruction_selected(*instruction))
                && lines(final(output)@) == lines(old(output)@) + expected
                && *final(sequence) == *old(sequence) + array_instruction_labels(*instruction),
            Err((owner, message)) => r matches Err(error) && error_is(error, owner, message)
                && final(output)@ == old(output)@ && *final(sequence) == *old(sequence),
        },
{
    let ghost before = lines(output@);
    match instruction {
        MirArrayInstruction::Allocate { backing, array, length, ownership, .. } => {
            match select_array_allocate(
                frame,
                data_layout,
                block,
                sequence,
                *backing,
                *array,
                *length,
                *ownership,
                output,
            ) {
                Ok(()) => Ok(true),
                Err(error) => Err(error),
            }
        },
        MirArrayInstruction::AllocateElements { backing, prefix, array, length, ownership, .. } => {
            if data_layout.array(*array).is_some() {
                let ghost start = output@;
                clear_storage(frame, *prefix, output);
                assert(lines(output@) =~= lines(start) + lines(clear_storage_instructions(frame, *prefix)));
            }
            match select_array_allocate_length(
                frame,
                data_layout,
                block,
                sequence,
                *backing,
                *array,
                ArrayAllocationLength::Constant(*length),
                *ownership,
                output,
            ) {
                Ok(()) => Ok(true),
                Err(error) => Err(error),
            }
        },
        MirArrayInstruction::CompleteElement { prefix } => {
            let ghost start = output@;
            advance_array_index(frame, *prefix, output);
            assert(lines(output@) =~= lines(start) + lines(advance_index_instructions(frame, *prefix)));
            Ok(true)
        },
        MirArrayInstruction::Publish { backing, destination, .. } => {
            let ghost start = output@;
            load_rax(frame_storage(frame, *backing), output);
            store_rax(frame_storage(frame, *destination), output);
            clear_storage(frame, *backing, output);
            assert(output@ =~= start + seq![
                load_rax_instruction(storage_operand(frame, *backing)),
                store_rax_instruction(storage_operand(frame, *destination)),
            ] + clear_storage_instructions(frame, *backing));
            assert(lines(output@) =~= lines(start) + lines(
                seq![
                    load_rax_instruction(storage_operand(frame, *backing)),
                    store_rax_instruction(storage_operand(frame, *destination)),
                ] + clear_storage_instructions(frame, *backing),
            ));
            Ok(true)
        },
        MirArrayInstruction::PublishShared { backing, destination, array } => {
            select_array_publish_shared(frame, *backing, *destination, *array, output);
            Ok(true)
        },
        MirArrayInstruction::AnchorEnd { anchor } => match select_array_anchor_end(function, frame, *anchor, output) {
            Ok(()) => Ok(true),
            Err(error) => Err(error),
        },
        MirArrayInstruction::SliceBoundsCheck { start, end } => {
            select_array_slice_bounds_check(frame, block, sequence, *start, *end, output);
            Ok(true)
        },
        MirArrayInstruction::Normalize { kind: MirArrayPositionKind::RangeOffset, .. } => Err(
            array_error(
                function.callable,
                String::from_str("range offsets must use the unsigned offset instruction"),
            ),
        ),
        _ => {
            assert(lines(output@) =~= before + Seq::<Seq<char>>::empty());
            Ok(false)
        },
    }
}

} // verus!
