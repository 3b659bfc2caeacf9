//! Frame homes as operands, and the transfers through `rax` and the SSE
//! registers that selected code uses to move one value word.
//!
//! Every value word lives in a frame home addressed from `rbp`. A `u8`
//! value is canonical when the bits above its low byte are zero; every
//! other value word is canonical as it stands.

use vstd::prelude::*;

use crate::frame::FrameLayout;
use crate::identity::{StorageId, ValueId};
use crate::machine::{ByteRegister, FloatOperand, Instruction, Operand, Register, XmmRegister};
use crate::mir::MirType;

verus! {

/// A memory operand at a register plus a displacement.
pub open spec fn spec_memory(base: Register, displacement: i32) -> Operand {
    Operand::Memory { base, displacement }
}

pub fn memory(base: Register, displacement: i32) -> (r: Operand)
    ensures
        r == spec_memory(base, displacement),
{
    Operand::Memory { base, displacement }
}

/// An SSE memory operand at a register plus a displacement.
pub fn float_memory(base: Register, displacement: i32) -> (r: FloatOperand)
    ensures
        r == (FloatOperand::Memory { base, displacement }),
{
    FloatOperand::Memory { base, displacement }
}

/// The home of a storage entry.
pub open spec fn storage_operand(frame: &FrameLayout, storage: StorageId) -> Operand {
    spec_memory(Register::Rbp, frame.storage_offsets@[storage.idx as int])
}

pub fn frame_storage(frame: &FrameLayout, storage: StorageId) -> (r: Operand)
    requires
        storage.idx < frame.storage_offsets@.len(),
    ensures
        r == storage_operand(frame, storage),
{
    memory(Register::Rbp, frame.storage(storage))
}

/// The home of an SSA value.
pub open spec fn value_operand(frame: &FrameLayout, value: ValueId) -> Operand {
    spec_memory(Register::Rbp, frame.value_offsets@[value.idx as int])
}

pub fn frame_value(frame: &FrameLayout, value: ValueId) -> (r: Operand)
    requires
        value.idx < frame.value_offsets@.len(),
    ensures
        r == value_operand(frame, value),
{
    memory(Register::Rbp, frame.value(value))
}

/// The same memory location as an SSE operand.
pub open spec fn spec_float_operand(operand: Operand) -> FloatOperand {
    match operand {
        Operand::Memory { base, displacement } => FloatOperand::Memory { base, displacement },
        _ => FloatOperand::Memory { base: Register::Rbp, displacement: 0 },
    }
}

pub fn float_operand(operand: Operand) -> (r: FloatOperand)
    requires
        operand is Memory,
    ensures
        r == spec_float_operand(operand),
{
    match operand {
        Operand::Memory { base, displacement } => FloatOperand::Memory { base, displacement },
        _ => FloatOperand::Memory { base: Register::Rbp, displacement: 0 },
    }
}

/// `mov rax, source`.
pub open spec fn load_rax_instruction(source: Operand) -> Instruction {
    Instruction::Move { source, destination: Operand::Register(Register::Rax) }
}

/// `mov destination, rax`.
pub open spec fn store_rax_instruction(destination: Operand) -> Instruction {
    Instruction::Move { source: Operand::Register(Register::Rax), destination }
}

pub fn load_rax(source: Operand, output: &mut Vec<Instruction>)
    ensures
        final(output)@ == old(output)@.push(load_rax_instruction(source)),
{
    output.push(Instruction::Move { source, destination: Operand::Register(Register::Rax) });
}

pub fn store_rax(destination: Operand, output: &mut Vec<Instruction>)
    ensures
        final(output)@ == old(output)@.push(store_rax_instruction(destination)),
{
    output.push(Instruction::Move { source: Operand::Register(Register::Rax), destination });
}

/// The instructions that make the value of type `ty` in `rax` canonical:
/// a `u8` keeps only its low byte.
pub open spec fn canonical_instructions(ty: MirType) -> Seq<Instruction> {
    if ty == MirType::U8 {
        seq![Instruction::ZeroExtendByte { source: ByteRegister::Al, destination: Register::Rax }]
    } else {
        Seq::empty()
    }
}

pub fn canonicalize_rax(ty: MirType, output: &mut Vec<Instruction>)
    ensures
        final(output)@ == old(output)@ + canonical_instructions(ty),
{
    let ghost before = output@;
    if ty == MirType::U8 {
        output.push(
            Instruction::ZeroExtendByte { source: ByteRegister::Al, destination: Register::Rax },
        );
    }
    assert(output@ =~= before + canonical_instructions(ty));
}

/// Stores the value of type `ty` in `rax` in canonical form.
pub fn store_canonical_rax(ty: MirType, destination: Operand, output: &mut Vec<Instruction>)
    ensures
        final(output)@ == old(output)@ + canonical_instructions(ty) + seq![
            store_rax_instruction(destination),
        ],
{
    let ghost before = output@;
    canonicalize_rax(ty, output);
    store_rax(destination, output);
    assert(output@ =~= before + canonical_instructions(ty) + seq![
        store_rax_instruction(destination),
    ]);
}

/// `movsd destination, source` into an SSE register.
pub fn load_float(source: FloatOperand, destination: XmmRegister, output: &mut Vec<Instruction>)
    ensures
        final(output)@ == old(output)@.push(
            Instruction::MoveFloat64 { source, destination: FloatOperand::Register(destination) },
        ),
{
    output.push(Instruction::MoveFloat64 { source, destination: FloatOperand::Register(destination) });
}

/// `movsd destination, source` from an SSE register.
pub fn store_float(source: XmmRegister, destination: FloatOperand, output: &mut Vec<Instruction>)
    ensures
        final(output)@ == old(output)@.push(
            Instruction::MoveFloat64 { source: FloatOperand::Register(source), destination },
        ),
{
    output.push(Instruction::MoveFloat64 { source: FloatOperand::Register(source), destination });
}

} // verus!
