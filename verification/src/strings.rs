//! Static literal handles and the words of string descriptors.

use vstd::prelude::*;

use crate::body::MirSharedStatic;
use crate::emit::line_text;
use crate::frame::FrameLayout;
use crate::identity::FieldId;
use crate::layout::{DataLayout, FieldLayout};
use crate::listing::{lemma_lines_push, lines};
use crate::literal_data::LiteralPool;
use crate::machine::{Instruction, Operand, Register};
use crate::object_abi::symbol_address_line;
use crate::value::{spec_memory, storage_operand, store_rax, store_rax_instruction};

verus! {

broadcast use lemma_lines_push;

/// The address of the literal backing, stored as the owner's handle.
pub open spec fn shared_static_lines(
    pool: &LiteralPool,
    frame: &FrameLayout,
    static_owner: MirSharedStatic,
) -> Seq<Seq<char>> {
    seq![
        symbol_address_line(pool.spec_symbols()[static_owner.data.idx as int]@, Register::Rax),
        line_text(store_rax_instruction(storage_operand(frame, static_owner.destination))),
    ]
}

pub fn select_shared_static(
    pool: &LiteralPool,
    frame: &FrameLayout,
    static_owner: &MirSharedStatic,
    output: &mut Vec<Instruction>,
)
    requires
        static_owner.data.idx < pool.spec_symbols().len(),
        static_owner.destination.idx < frame.storage_offsets@.len(),
    ensures
        old(output)@.len() <= final(output)@.len(),
        final(output)@.subrange(0, old(output)@.len() as int) == old(output)@,
        forall|i: int| 0 <= i < old(output)@.len() ==> #[trigger] final(output)@[i] == old(output)@[i],
        lines(final(output)@) == lines(old(output)@) + shared_static_lines(
            pool,
            frame,
            *static_owner,
        ),
{
    let ghost before = lines(output@);
    output.push(
        Instruction::LoadSymbolAddress {
            symbol: String::from_str(pool.symbol(static_owner.data)),
            destination: Register::Rax,
        },
    );
    store_rax(
        Operand::Memory {
            base: Register::Rbp,
            displacement: frame.storage_offsets[static_owner.destination.index()],
        },
        output,
    );
    assert(lines(output@) =~= before + shared_static_lines(pool, frame, *static_owner));
}

/// The target layout of a field, when its class was laid out.
pub open spec fn field_layout(layout: &DataLayout, field: FieldId) -> Option<FieldLayout> {
    if field.owner.idx < layout.classes@.len() && field.idx
        < layout.classes@[field.owner.idx as int].fields@.len() {
        Some(layout.classes@[field.owner.idx as int].fields@[field.idx as int])
    } else {
        None
    }
}

/// Whether a descriptor field has a layout at an encodable displacement.
pub open spec fn descriptor_field_ready(layout: &DataLayout, field: FieldId) -> bool {
    field_layout(layout, field) matches Some(physical) && physical.offset <= i32::MAX
}

/// Stores `source` to a field of the descriptor whose address is in `rdx`.
pub open spec fn descriptor_word_instruction(
    layout: &DataLayout,
    field: FieldId,
    source: Register,
) -> Instruction {
    Instruction::Move {
        source: Operand::Register(source),
        destination: spec_memory(Register::Rdx, field_layout(layout, field).unwrap().offset as i32),
    }
}

pub fn store_descriptor_word(
    layout: &DataLayout,
    field: FieldId,
    source: Register,
    output: &mut Vec<Instruction>,
)
    requires
        descriptor_field_ready(layout, field),
    ensures
        final(output)@ == old(output)@.push(descriptor_word_instruction(layout, field, source)),
{
    let physical = layout.field(field).unwrap();
    output.push(
        Instruction::Move {
            source: Operand::Register(source),
            destination: Operand::Memory { base: Register::Rdx, displacement: physical.offset as i32 },
        },
    );
}

} // verus!
