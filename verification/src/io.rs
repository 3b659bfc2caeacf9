//! Standard-I/O runtime calls: arguments come from value homes, byte
//! buffers pass as a pointer and a length, and every call's result is
//! stored as an `i64` status.

use vstd::prelude::*;

use crate::body::BlockId;
use crate::emit::line_text;
use crate::frame::FrameLayout;
use crate::identity::{StorageId, ValueId};
use crate::layout::{ARRAY_LENGTH_OFFSET, ArrayLayout, SHARED_ARRAY_LENGTH_OFFSET};
use crate::listing::{label_text_line, lemma_lines_push, lines, one_operand_line};
use crate::machine::{Instruction, Label, Operand, Register};
use crate::mir::MirType;
use crate::selection::label_stem_text;
use crate::symbol::callable;
use crate::text::{decimal, decimal_text};
use crate::value::{spec_memory, storage_operand, store_canonical_rax, store_rax_instruction, value_operand};

verus! {

broadcast use lemma_lines_push;

/// `.Lska.<stem>.io_<block>_<sequence>_<purpose>`.
pub open spec fn io_label_text(block: BlockId, sequence: nat, purpose: Seq<char>) -> Seq<char> {
    ".Lska."@ + label_stem_text(block.callable) + ".io_"@ + decimal_text(block.idx as nat) + "_"@
        + decimal_text(sequence) + "_"@ + purpose
}

/// The next I/O label of a block, taking the next sequence number.
pub fn next_io_label(block: BlockId, sequence: &mut usize, purpose: &str) -> (r: Label)
    requires
        *old(sequence) < usize::MAX,
    ensures
        *final(sequence) == *old(sequence) + 1,
        r.text@ == io_label_text(block, *old(sequence) as nat, purpose@),
{
    let number = *sequence;
    *sequence = number + 1;
    let mut text = String::from_str(".Lska.");
    let stem = callable(block.callable());
    text.append(stem.as_str());
    text.append(".io_");
    let block_digits = decimal(block.index() as u64);
    text.append(block_digits.as_str());
    text.append("_");
    let digits = decimal(number as u64);
    text.append(digits.as_str());
    text.append("_");
    text.append(purpose);
    Label::new(text)
}

/// `mov destination, [value home]`.
pub open spec fn io_argument_instruction(
    frame: &FrameLayout,
    value: ValueId,
    destination: Register,
) -> Instruction {
    Instruction::Move { source: value_operand(frame, value), destination: Operand::Register(destination) }
}

pub fn load_io_argument(
    frame: &FrameLayout,
    value: ValueId,
    destination: Register,
    output: &mut Vec<Instruction>,
)
    requires
        value.idx < frame.value_offsets@.len(),
    ensures
        final(output)@ == old(output)@.push(io_argument_instruction(frame, value, destination)),
{
    output.push(
        Instruction::Move {
            source: Operand::Memory {
                base: Register::Rbp,
                displacement: frame.value_offsets[value.index()],
            },
            destination: Operand::Register(destination),
        },
    );
}

/// The runtime call, then its status stored to the result's home.
pub open spec fn io_call_lines(frame: &FrameLayout, symbol: Seq<char>, result: ValueId) -> Seq<
    Seq<char>,
> {
    seq![
        one_operand_line("call"@, symbol),
        line_text(store_rax_instruction(value_operand(frame, result))),
    ]
}

pub fn call_io_runtime(
    frame: &FrameLayout,
    symbol: &str,
    result: ValueId,
    output: &mut Vec<Instruction>,
)
    requires
        result.idx < frame.value_offsets@.len(),
    ensures
        old(output)@.len() <= final(output)@.len(),
        final(output)@.subrange(0, old(output)@.len() as int) == old(output)@,
        forall|i: int| 0 <= i < old(output)@.len() ==> #[trigger] final(output)@[i] == old(output)@[i],
        lines(final(output)@) == lines(old(output)@) + io_call_lines(frame, symbol@, result),
{
    let ghost before = lines(output@);
    output.push(Instruction::Call(String::from_str(symbol)));
    let ghost called = output@;
    let destination = Operand::Memory {
        base: Register::Rbp,
        displacement: frame.value_offsets[result.index()],
    };
    store_canonical_rax(MirType::I64, destination, output);
    assert(output@ =~= called.push(store_rax_instruction(destination)));
    assert(lines(output@) =~= before + io_call_lines(frame, symbol@, result));
}

/// Whether an array's header offsets are encodable displacements.
pub open spec fn header_encodable(layout: ArrayLayout) -> bool {
    layout.element_offset <= i32::MAX && layout.shared_element_offset <= i32::MAX
}

/// The byte range of a buffer whose array owner is in `rax`: a null owner
/// is an empty descriptor and passes a null pointer and zero length;
/// otherwise the length comes from the header and the pointer addresses
/// the first element, both moved by the offset when there is one.
pub open spec fn io_buffer_range_lines(
    frame: &FrameLayout,
    layout: ArrayLayout,
    shared: bool,
    offset: Option<StorageId>,
    pointer: Register,
    length: Register,
    empty: Seq<char>,
    complete: Seq<char>,
) -> Seq<Seq<char>> {
    let length_offset = if shared {
        SHARED_ARRAY_LENGTH_OFFSET
    } else {
        ARRAY_LENGTH_OFFSET
    };
    let element_offset = if shared {
        layout.shared_element_offset
    } else {
        layout.element_offset
    };
    seq![
        line_text(Instruction::Test(Register::Rax)),
        one_operand_line("je"@, empty),
        line_text(
            Instruction::Move {
                source: spec_memory(Register::Rax, length_offset),
                destination: Operand::Register(length),
            },
        ),
        line_text(
            Instruction::LoadEffectiveAddress {
                source: spec_memory(Register::Rax, element_offset as i32),
                destination: pointer,
            },
        ),
    ] + match offset {
        Some(offset) => seq![
            line_text(
                Instruction::Move {
                    source: storage_operand(frame, offset),
                    destination: Operand::Register(Register::R10),
                },
            ),
            line_text(Instruction::Add { source: Register::R10, destination: pointer }),
            line_text(Instruction::Subtract { source: Register::R10, destination: length }),
        ],
        None => Seq::empty(),
    } + seq![
        one_operand_line("jmp"@, complete),
        label_text_line(empty),
        line_text(Instruction::MoveImmediate64 { bits: 0, destination: pointer }),
        line_text(Instruction::MoveImmediate64 { bits: 0, destination: length }),
        label_text_line(complete),
    ]
}

/// Selects the pointer and length of an I/O buffer from its array owner,
/// already loaded into `rax`; `shared` tells whether the owner is a shared
/// array handle rather than an inline descriptor's backing.
pub fn select_io_buffer_range(
    frame: &FrameLayout,
    layout: ArrayLayout,
    shared: bool,
    offset: Option<StorageId>,
    pointer: Register,
    length: Register,
    block: BlockId,
    sequence: &mut usize,
    output: &mut Vec<Instruction>,
)
    requires
        header_encodable(layout),
        offset matches Some(offset) ==> offset.idx < frame.storage_offsets@.len(),
        *old(sequence) < usize::MAX - 2,
    ensures
        old(output)@.len() <= final(output)@.len(),
        final(output)@.subrange(0, old(output)@.len() as int) == old(output)@,
        forall|i: int| 0 <= i < old(output)@.len() ==> #[trigger] final(output)@[i] == old(output)@[i],
        *final(sequence) == *old(sequence) + 2,
        lines(final(output)@) == lines(old(output)@) + io_buffer_range_lines(
            frame,
            layout,
            shared,
            offset,
            pointer,
            length,
            io_label_text(block, *old(sequence) as nat, "range_empty"@),
            io_label_text(block, *old(sequence) as nat + 1, "range_complete"@),
        ),
{
    let ghost before = lines(output@);
    let length_offset = if shared {
        SHARED_ARRAY_LENGTH_OFFSET
    } else {
        ARRAY_LENGTH_OFFSET
    };
    let element_offset = if shared {
        layout.shared_element_offset() as i32
    } else {
        layout.element_offset() as i32
    };
    let empty = next_io_label(block, sequence, "range_empty");
    let complete = next_io_label(block, sequence, "range_complete");
    output.push(Instruction::Test(Register::Rax));
    output.push(Instruction::JumpIfEqual(empty.duplicate()));
    output.push(
        Instruction::Move {
            source: Operand::Memory { base: Register::Rax, displacement: length_offset },
            destination: Operand::Register(length),
        },
    );
    output.push(
        Instruction::LoadEffectiveAddress {
            source: Operand::Memory { base: Register::Rax, displacement: element_offset },
            destination: pointer,
        },
    );
    match offset {
        Some(offset) => {
            output.push(
                Instruction::Move {
                    source: Operand::Memory {
                        base: Register::Rbp,
                        displacement: frame.storage_offsets[offset.index()],
                    },
                    destination: Operand::Register(Register::R10),
                },
            );
            output.push(Instruction::Add { source: Register::R10, destination: pointer });
            output.push(Instruction::Subtract { source: Register::R10, destination: length });
        },
        None => {},
    }
    output.push(Instruction::Jump(complete.duplicate()));
    output.push(Instruction::Label(empty));
    output.push(Instruction::MoveImmediate64 { bits: 0, destination: pointer });
    output.push(Instruction::MoveImmediate64 { bits: 0, destination: length });
    output.push(Instruction::Label(complete));
    assert(lines(output@) =~= before + io_buffer_range_lines(
        frame,
        layout,
        shared,
        offset,
        pointer,
        length,
        io_label_text(block, *old(sequence) as nat, "range_empty"@),
        io_label_text(block, *old(sequence) as nat + 1, "range_complete"@),
    ));
}

} // verus!
