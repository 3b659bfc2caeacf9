//! Non-returning failures with fixed messages, and the ordinary terminators
//! that return, jump, or branch.

use vstd::prelude::*;

use crate::body::{MirTerminator, reason_mnemonic};
use crate::emit::line_text;
use crate::error::{BackendError, Target, error_is};
use crate::frame::FrameLayout;
use crate::identity::CallableId;
use crate::listing::{lemma_lines_push, lines, one_operand_line};
use crate::machine::{FloatOperand, Instruction, Label, Register, XmmRegister};
use crate::mir::MirType;
use crate::panic_message::{emit_static_panic, spec_for_reason, static_panic_lines, PanicMessage};
use crate::selection::{block_label, block_label_text};
use crate::value::{
    canonical_instructions, canonicalize_rax, float_operand, frame_storage, frame_value,
    load_float, load_rax, load_rax_instruction, spec_float_operand, storage_operand,
    value_operand,
};

verus! {

broadcast use lemma_lines_push;

pub open spec fn unexecutable_message(reason: crate::body::MirTerminationReason) -> Seq<char> {
    "termination reason `"@ + reason_mnemonic(reason) + "` is not executable yet"@
}

/// Selects a terminator that reports a fixed failure: a termination
/// reports its reason's message. Other terminators are left to the
/// dedicated selectors and select nothing here.
pub fn select_termination(
    callable: CallableId,
    terminator: &MirTerminator,
    output: &mut Vec<Instruction>,
) -> (r: Result<bool, BackendError>)
    ensures
        match *terminator {
            MirTerminator::Terminate { reason } => match spec_for_reason(reason) {
                Some(message) => r == Ok::<bool, BackendError>(true) && lines(final(output)@)
                    == lines(old(output)@) + static_panic_lines(message),
                None => r matches Err(error) && error_is(
                    error,
                    Some(callable),
                    unexecutable_message(reason),
                ),
            },
            _ => r == Ok::<bool, BackendError>(false) && final(output)@ == old(output)@,
        },
{
    match terminator {
        MirTerminator::Terminate { reason } => {
            let message = match PanicMessage::for_reason(*reason) {
                Some(message) => message,
                None => {
                    let mut text = String::from_str("termination reason `");
                    text.append(reason.mnemonic());
                    text.append("` is not executable yet");
                    return Err(BackendError::new(Target::X86_64SysV, Some(callable), text));
                },
            };
            emit_static_panic(message, output);
            Ok(true)
        },
        _ => Ok(false),
    }
}

/// Whether a terminator returns, jumps, or branches.
pub open spec fn is_ordinary(terminator: MirTerminator) -> bool {
    terminator is Return || terminator is ReturnShared || terminator is ReturnOptionalShared
        || terminator is Goto || terminator is Branch
}

/// Whether every value and storage entry a terminator reads has a home.
pub open spec fn homes_cover(terminator: MirTerminator, frame: &FrameLayout) -> bool {
    match terminator {
        MirTerminator::Return { value: Some(value) } => value.idx < frame.value_offsets@.len(),
        MirTerminator::ReturnShared { owner } => owner.idx < frame.storage_offsets@.len(),
        MirTerminator::ReturnOptionalShared { owner } => owner.idx < frame.storage_offsets@.len(),
        MirTerminator::Branch { condition, .. } => condition.idx < frame.value_offsets@.len(),
        _ => true,
    }
}

/// The lines of an ordinary terminator: a result moves to `xmm0` for `f64`
/// and to `rax`, canonical, otherwise; owners move to `rax`; then control
/// goes to the epilogue or the target blocks.
pub open spec fn ordinary_lines(
    terminator: MirTerminator,
    frame: &FrameLayout,
    return_type: MirType,
    epilogue: Seq<char>,
) -> Seq<Seq<char>> {
    match terminator {
        MirTerminator::Return { value } => (match value {
            None => Seq::empty(),
            Some(result) => if return_type == MirType::F64 {
                seq![
                    line_text(
                        Instruction::MoveFloat64 {
                            source: spec_float_operand(value_operand(frame, result)),
                            destination: FloatOperand::Register(XmmRegister::Xmm0),
                        },
                    ),
                ]
            } else {
                lines(seq![load_rax_instruction(value_operand(frame, result))]) + lines(
                    canonical_instructions(return_type),
                )
            },
        }) + seq![one_operand_line("jmp"@, epilogue)],
        MirTerminator::ReturnShared { owner } => seq![
            line_text(load_rax_instruction(storage_operand(frame, owner))),
            one_operand_line("jmp"@, epilogue),
        ],
        MirTerminator::ReturnOptionalShared { owner } => seq![
            line_text(load_rax_instruction(storage_operand(frame, owner))),
            one_operand_line("jmp"@, epilogue),
        ],
        MirTerminator::Goto { target } => seq![one_operand_line("jmp"@, block_label_text(target))],
        MirTerminator::Branch { condition, true_target, false_target } => seq![
            line_text(load_rax_instruction(value_operand(frame, condition))),
            line_text(Instruction::Test(Register::Rax)),
            one_operand_line("jne"@, block_label_text(true_target)),
            one_operand_line("jmp"@, block_label_text(false_target)),
        ],
        _ => Seq::empty(),
    }
}

/// Selects an ordinary terminator.
pub fn select(
    terminator: &MirTerminator,
    frame: &FrameLayout,
    return_type: MirType,
    epilogue: &Label,
    output: &mut Vec<Instruction>,
)
    requires
        is_ordinary(*terminator),
        homes_cover(*terminator, frame),
    ensures
        old(output)@.len() <= final(output)@.len(),
        final(output)@.subrange(0, old(output)@.len() as int) == old(output)@,
        forall|i: int| 0 <= i < old(output)@.len() ==> #[trigger] final(output)@[i] == old(output)@[i],
        lines(final(output)@) == lines(old(output)@) + ordinary_lines(
            *terminator,
            frame,
            return_type,
            epilogue.text@,
        ),
{
    let ghost before = lines(output@);
    match terminator {
        MirTerminator::Return { value } => {
            match value {
                Some(result) => {
                    let source = frame_value(frame, *result);
                    if return_type == MirType::F64 {
                        load_float(float_operand(source), XmmRegister::Xmm0, output);
                    } else {
                        let ghost start = output@;
                        load_rax(source, output);
                        canonicalize_rax(return_type, output);
                        assert(lines(output@) =~= lines(start) + lines(
                            seq![load_rax_instruction(source)],
                        ) + lines(canonical_instructions(return_type)));
                    }
                },
                None => {},
            }
            output.push(Instruction::Jump(epilogue.duplicate()));
        },
        MirTerminator::ReturnShared { owner } | MirTerminator::ReturnOptionalShared { owner } => {
            load_rax(frame_storage(frame, *owner), output);
            output.push(Instruction::Jump(epilogue.duplicate()));
        },
        MirTerminator::Goto { target } => {
            output.push(Instruction::Jump(block_label(*target)));
        },
        MirTerminator::Branch { condition, true_target, false_target } => {
            load_rax(frame_value(frame, *condition), output);
            output.push(Instruction::Test(Register::Rax));
            output.push(Instruction::JumpIfNotZero(block_label(*true_target)));
            output.push(Instruction::Jump(block_label(*false_target)));
        },
        _ => {},
    }
    assert(lines(output@) =~= before + ordinary_lines(
        *terminator,
        frame,
        return_type,
        epilogue.text@,
    ));
}

} // verus!
