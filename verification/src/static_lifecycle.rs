//! Eager static activation: one private coordinator calls the explicit
//! static initializer bodies in the verified activation order. Zero-default
//! activation needs no code, since zero-filled storage already holds it.

use vstd::prelude::*;

use crate::emit::line_text;
use crate::identity::CallableId;
use crate::listing::{lemma_lines_push, lines, one_operand_line, register_operand};
use crate::machine::{AssemblyFunction, Instruction, Operand, Register};
use crate::mir::{MirProgram, MirStaticActivationRegion, MirStaticActivationWork};
use crate::symbol::{callable, callable_text, program_initializer, program_initializer_text};

verus! {

broadcast use lemma_lines_push;

/// Whether the program has static initializer bodies to run.
pub open spec fn spec_has_program_initializer(program: &MirProgram) -> bool {
    program.static_lifecycle matches Some(lifecycle) && lifecycle.initializers@.len() > 0
}

pub fn has_program_initializer(program: &MirProgram) -> (r: bool)
    ensures
        r == spec_has_program_initializer(program),
{
    match &program.static_lifecycle {
        Some(lifecycle) => lifecycle.initializers().len() > 0,
        None => false,
    }
}

/// The calls of the explicit initializers among the activation regions,
/// in order.
pub open spec fn activation_calls(regions: Seq<MirStaticActivationRegion>) -> Seq<Seq<char>>
    decreases regions.len(),
{
    if regions.len() == 0 {
        Seq::empty()
    } else {
        activation_calls(regions.drop_last()) + match regions.last().work {
            MirStaticActivationWork::Explicit(class) => seq![
                one_operand_line("call"@, callable_text(CallableId::StaticInitializer(class))),
            ],
            MirStaticActivationWork::ZeroDefault => Seq::empty(),
        }
    }
}

/// The listing of the coordinator.
pub open spec fn coordinator_lines(regions: Seq<MirStaticActivationRegion>) -> Seq<Seq<char>> {
    seq![
        line_text(Instruction::Push(Register::Rbp)),
        line_text(
            Instruction::Move {
                source: register_operand(Register::Rsp),
                destination: register_operand(Register::Rbp),
            },
        ),
    ] + activation_calls(regions) + seq![
        line_text(Instruction::Leave),
        line_text(Instruction::Return),
    ]
}

/// The coordinator that runs every explicit static initializer in
/// activation order, when the program has initializer bodies.
pub fn lower_program_initializer(program: &MirProgram) -> (r: Option<AssemblyFunction>)
    ensures
        match program.static_lifecycle {
            Some(lifecycle) if lifecycle.initializers@.len() > 0 => r matches Some(function)
                && function.symbol@ == program_initializer_text() && !function.exported && lines(
                function.instructions@,
            ) == coordinator_lines(lifecycle.activation@),
            _ => r is None,
        },
{
    let coordinator = match &program.static_lifecycle {
        Some(lifecycle) => lifecycle,
        None => return None,
    };
    if coordinator.initializers().len() == 0 {
        return None;
    }
    let regions = coordinator.activation();
    let mut instructions: Vec<Instruction> = Vec::new();
    instructions.push(Instruction::Push(Register::Rbp));
    instructions.push(
        Instruction::Move {
            source: Operand::Register(Register::Rsp),
            destination: Operand::Register(Register::Rbp),
        },
    );
    let ghost prologue = lines(instructions@);
    let mut i: usize = 0;
    while i < regions.len()
        invariant
            i <= regions@.len(),
            lines(instructions@) == prologue + activation_calls(regions@.take(i as int)),
        decreases regions@.len() - i,
    {
        assert(regions@.take((i + 1) as int).drop_last() =~= regions@.take(i as int));
        match regions[i].work {
            MirStaticActivationWork::Explicit(class) => {
                instructions.push(Instruction::Call(callable(CallableId::StaticInitializer(class))));
            },
            MirStaticActivationWork::ZeroDefault => {},
        }
        assert(lines(instructions@) =~= prologue + activation_calls(regions@.take((i + 1) as int)));
        i = i + 1;
    }
    assert(regions@.take(regions@.len() as int) =~= regions@);
    instructions.push(Instruction::Leave);
    instructions.push(Instruction::Return);
    assert(lines(instructions@) =~= coordinator_lines(regions@));
    Some(
        AssemblyFunction {
            symbol: String::from_str(program_initializer()),
            exported: false,
            instructions,
        },
    )
}

} // verus!
