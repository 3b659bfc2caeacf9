//! Instruction listings viewed line by line, as the emitter renders them.
//!
//! Generators that append to an instruction buffer state their output as
//! the rendered line of every appended instruction, in order.

use vstd::prelude::*;

use crate::emit::{line_text, unary_text};
use crate::machine::{Instruction, Operand, Register};

verus! {

/// The rendered line of every instruction, in order.
pub open spec fn lines(instructions: Seq<Instruction>) -> Seq<Seq<char>> {
    instructions.map_values(|instruction: Instruction| line_text(instruction))
}

/// Appending an instruction appends its rendered line.
pub broadcast proof fn lemma_lines_push(instructions: Seq<Instruction>, instruction: Instruction)
    ensures
        #[trigger] lines(instructions.push(instruction)) == lines(instructions).push(
            line_text(instruction),
        ),
{
    assert(lines(instructions.push(instruction)) =~= lines(instructions).push(
        line_text(instruction),
    ));
}

/// The line of a label with the given text.
pub open spec fn label_text_line(text: Seq<char>) -> Seq<char> {
    Seq::<char>::empty() + (text + ":"@) + "\n"@
}

/// An indented line with one operand, such as a jump or a call.
pub open spec fn one_operand_line(mnemonic: Seq<char>, operand: Seq<char>) -> Seq<char> {
    "    "@ + unary_text(mnemonic, operand) + "\n"@
}

pub open spec fn register_operand(register: Register) -> Operand {
    Operand::Register(register)
}

pub open spec fn memory_operand(base: Register, displacement: i32) -> Operand {
    Operand::Memory { base, displacement }
}

} // verus!
