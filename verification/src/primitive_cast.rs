//! Selection of verified primitive casts.
//!
//! Integer-class values live in canonical eight-byte homes, so integer
//! casts reload the word and store it canonical for the target. Casts to
//! `bool` test against zero, with every `f64` NaN true. Casts to `f64`
//! convert through the signed domain; the upper half of `u64` is halved
//! with a sticky low bit and doubled back. Checked `f64` to integer casts
//! first prove, in their terminator, that the value is a number whose
//! truncation fits the target.

use vstd::prelude::*;

use crate::arithmetic::{canonical_store, float_load, float_store};
use crate::body::{
    BlockId, MirF64ToIntegerRange, MirIntegerType, MirPrimitiveCast, MirPrimitiveCastKind,
    MirTerminator,
};
use crate::emit::line_text;
use crate::frame::FrameLayout;
use crate::identity::ValueId;
use crate::listing::{label_text_line, lemma_lines_push, lines, one_operand_line};
use crate::machine::{
    BitwiseOperation, ByteRegister, ConditionCode, FloatOperand, Instruction, Label, Operand,
    Register, ShiftOperation, XmmRegister, condition_suffix,
};
use crate::mir::{MirPrimitiveType, MirType};
use crate::selection::{
    F64IntegerBounds, TWO_TO_63_BITS, block_label, block_label_text, label_stem_text,
};
use crate::symbol::callable;
use crate::text::{decimal, decimal_text};
use crate::value::{
    float_operand, frame_storage, frame_value, load_float, load_rax, load_rax_instruction,
    spec_float_operand, storage_operand, store_canonical_rax, store_float, value_operand,
};

verus! {

broadcast use lemma_lines_push;

/// `.Lska.<stem>.primitive_cast_<block>_<sequence>_<suffix>`.
pub open spec fn cast_label_text(block: BlockId, sequence: nat, suffix: Seq<char>) -> Seq<char> {
    ".Lska."@ + label_stem_text(block.callable) + ".primitive_cast_"@ + decimal_text(
        block.idx as nat,
    ) + "_"@ + decimal_text(sequence) + "_"@ + suffix
}

/// The next cast label of a block, taking the next sequence number.
pub fn next_primitive_cast_label(block: BlockId, sequence: &mut usize, suffix: &str) -> (r: Label)
    requires
        *old(sequence) < usize::MAX,
    ensures
        *final(sequence) == *old(sequence) + 1,
        r.text@ == cast_label_text(block, *old(sequence) as nat, suffix@),
{
    let number = *sequence;
    *sequence = number + 1;
    let mut text = String::from_str(".Lska.");
    let stem = callable(block.callable());
    text.append(stem.as_str());
    text.append(".primitive_cast_");
    let block_digits = decimal(block.index() as u64);
    text.append(block_digits.as_str());
    text.append("_");
    let digits = decimal(number as u64);
    text.append(digits.as_str());
    text.append("_");
    text.append(suffix);
    Label::new(text)
}

/// A conditional jump.
pub open spec fn jump_if_line(condition: ConditionCode, target: Seq<char>) -> Seq<char> {
    one_operand_line("j"@ + condition_suffix(condition), target)
}

/// Loads `f64` bits into an SSE register through `rax`.
pub open spec fn f64_bits_instructions(bits: u64, destination: XmmRegister) -> Seq<Instruction> {
    seq![
        Instruction::MoveImmediate64 { bits, destination: Register::Rax },
        Instruction::MoveBitsToFloat { source: Register::Rax, destination },
    ]
}

fn load_f64_bits(bits: u64, destination: XmmRegister, output: &mut Vec<Instruction>)
    ensures
        final(output)@ == old(output)@ + f64_bits_instructions(bits, destination),
{
    let ghost before = output@;
    output.push(Instruction::MoveImmediate64 { bits, destination: Register::Rax });
    output.push(Instruction::MoveBitsToFloat { source: Register::Rax, destination });
    assert(output@ =~= before + f64_bits_instructions(bits, destination));
}

/// The range check of a checked `f64` to integer cast: a NaN compares
/// unordered with itself, then values at or below the lower bound and at
/// or above the upper bound fail; the rest continue at the success block.
pub open spec fn range_check_lines(frame: &FrameLayout, terminator: MirTerminator) -> Seq<
    Seq<char>,
> {
    match terminator {
        MirTerminator::PrimitiveCastRangeCheck { check, success_target, failure_target } => {
            let bounds = F64IntegerBounds::spec_for_target(check.relation.target);
            let failure = block_label_text(failure_target);
            seq![
                line_text(
                    Instruction::MoveFloat64 {
                        source: spec_float_operand(storage_operand(frame, check.source)),
                        destination: FloatOperand::Register(XmmRegister::Xmm14),
                    },
                ),
                line_text(
                    Instruction::CompareFloat64 {
                        source: XmmRegister::Xmm14,
                        destination: XmmRegister::Xmm14,
                    },
                ),
                jump_if_line(ConditionCode::Parity, failure),
            ] + lines(f64_bits_instructions(bounds.lower_bits, XmmRegister::Xmm15)) + seq![
                line_text(
                    Instruction::CompareFloat64 {
                        source: XmmRegister::Xmm15,
                        destination: XmmRegister::Xmm14,
                    },
                ),
                jump_if_line(bounds.lower_failure, failure),
            ] + lines(f64_bits_instructions(bounds.upper_bits, XmmRegister::Xmm15)) + seq![
                line_text(
                    Instruction::CompareFloat64 {
                        source: XmmRegister::Xmm15,
                        destination: XmmRegister::Xmm14,
                    },
                ),
                jump_if_line(ConditionCode::UnsignedAboveEqual, failure),
                one_operand_line("jmp"@, block_label_text(success_target)),
            ]
        },
        _ => Seq::empty(),
    }
}

/// Selects the range check of a checked cast before control can enter the
/// success-only conversion block; other terminators select nothing here.
pub fn select_primitive_cast_terminator(
    frame: &FrameLayout,
    terminator: &MirTerminator,
    output: &mut Vec<Instruction>,
) -> (r: bool)
    requires
        terminator matches MirTerminator::PrimitiveCastRangeCheck { check, .. } ==> check.source.idx
            < frame.storage_offsets@.len(),
    ensures
        old(output)@.len() <= final(output)@.len(),
        final(output)@.subrange(0, old(output)@.len() as int) == old(output)@,
        forall|i: int| 0 <= i < old(output)@.len() ==> #[trigger] final(output)@[i] == old(output)@[i],
        r == (*terminator is PrimitiveCastRangeCheck),
        r ==> lines(final(output)@) == lines(old(output)@) + range_check_lines(frame, *terminator),
        !r ==> final(output)@ == old(output)@,
{
    let ghost before = lines(output@);
    match terminator {
        MirTerminator::PrimitiveCastRangeCheck { check, success_target, failure_target } => {
            let failure = block_label(*failure_target);
            let bounds = F64IntegerBounds::for_target(check.relation.target);
            load_float(float_operand(frame_storage(frame, check.source)), XmmRegister::Xmm14, output);
            output.push(
                Instruction::CompareFloat64 {
                    source: XmmRegister::Xmm14,
                    destination: XmmRegister::Xmm14,
                },
            );
            output.push(
                Instruction::JumpIf { condition: ConditionCode::Parity, target: failure.duplicate() },
            );
            let ghost first = output@;
            load_f64_bits(bounds.lower_bits, XmmRegister::Xmm15, output);
            assert(lines(output@) =~= lines(first) + lines(
                f64_bits_instructions(bounds.lower_bits, XmmRegister::Xmm15),
            ));
            output.push(
                Instruction::CompareFloat64 {
                    source: XmmRegister::Xmm15,
                    destination: XmmRegister::Xmm14,
                },
            );
            output.push(
                Instruction::JumpIf { condition: bounds.lower_failure, target: failure.duplicate() },
            );
            let ghost second = output@;
            load_f64_bits(bounds.upper_bits, XmmRegister::Xmm15, output);
            assert(lines(output@) =~= lines(second) + lines(
                f64_bits_instructions(bounds.upper_bits, XmmRegister::Xmm15),
            ));
            output.push(
                Instruction::CompareFloat64 {
                    source: XmmRegister::Xmm15,
                    destination: XmmRegister::Xmm14,
                },
            );
            output.push(
                Instruction::JumpIf { condition: ConditionCode::UnsignedAboveEqual, target: failure },
            );
            output.push(Instruction::Jump(block_label(*success_target)));
            assert(lines(output@) =~= before + range_check_lines(frame, *terminator));
            true
        },
        _ => false,
    }
}

/// `cvttsd2si rax, xmm14`.
pub open spec fn truncate_instruction() -> Instruction {
    Instruction::ConvertFloat64ToSignedInteger {
        source: XmmRegister::Xmm14,
        destination: Register::Rax,
    }
}

/// `cvtsi2sd xmm14, rax`.
pub open spec fn convert_instruction() -> Instruction {
    Instruction::ConvertSignedIntegerToFloat64 {
        source: Register::Rax,
        destination: XmmRegister::Xmm14,
    }
}

/// Truncates a checked `f64` in `xmm14` below `2^64` to `u64` in `rax`:
/// values from `2^63` on are reduced by `2^63`, converted in the signed
/// domain, and get the high bit back.
pub open spec fn checked_u64_lines(signed_domain: Seq<char>, result_ready: Seq<char>) -> Seq<
    Seq<char>,
> {
    lines(f64_bits_instructions(TWO_TO_63_BITS, XmmRegister::Xmm15)) + seq![
        line_text(
            Instruction::CompareFloat64 { source: XmmRegister::Xmm15, destination: XmmRegister::Xmm14 },
        ),
        jump_if_line(ConditionCode::UnsignedBelow, signed_domain),
        line_text(
            Instruction::SubtractFloat64 {
                source: XmmRegister::Xmm15,
                destination: XmmRegister::Xmm14,
            },
        ),
        line_text(truncate_instruction()),
        line_text(
            Instruction::MoveImmediate64 { bits: 0x8000_0000_0000_0000, destination: Register::R11 },
        ),
        line_text(
            Instruction::Bitwise {
                operation: BitwiseOperation::Or,
                source: Register::R11,
                destination: Register::Rax,
            },
        ),
        one_operand_line("jmp"@, result_ready),
        label_text_line(signed_domain),
        line_text(truncate_instruction()),
        label_text_line(result_ready),
    ]
}

fn convert_checked_u64(block: BlockId, sequence: &mut usize, output: &mut Vec<Instruction>)
    requires
        *old(sequence) < usize::MAX - 2,
    ensures
        old(output)@.len() <= final(output)@.len(),
        final(output)@.subrange(0, old(output)@.len() as int) == old(output)@,
        forall|i: int| 0 <= i < old(output)@.len() ==> #[trigger] final(output)@[i] == old(output)@[i],
        *final(sequence) == *old(sequence) + 2,
        lines(final(output)@) == lines(old(output)@) + checked_u64_lines(
            cast_label_text(block, *old(sequence) as nat, "f64_u64_signed_domain"@),
            cast_label_text(block, *old(sequence) as nat + 1, "f64_u64_result_ready"@),
        ),
{
    let ghost before = lines(output@);
    let signed_domain = next_primitive_cast_label(block, sequence, "f64_u64_signed_domain");
    let result_ready = next_primitive_cast_label(block, sequence, "f64_u64_result_ready");
    let ghost start = output@;
    load_f64_bits(TWO_TO_63_BITS, XmmRegister::Xmm15, output);
    assert(lines(output@) =~= lines(start) + lines(
        f64_bits_instructions(TWO_TO_63_BITS, XmmRegister::Xmm15),
    ));
    output.push(
        Instruction::CompareFloat64 { source: XmmRegister::Xmm15, destination: XmmRegister::Xmm14 },
    );
    output.push(
        Instruction::JumpIf {
            condition: ConditionCode::UnsignedBelow,
            target: signed_domain.duplicate(),
        },
    );
    output.push(
        Instruction::SubtractFloat64 { source: XmmRegister::Xmm15, destination: XmmRegister::Xmm14 },
    );
    output.push(
        Instruction::ConvertFloat64ToSignedInteger {
            source: XmmRegister::Xmm14,
            destination: Register::Rax,
        },
    );
    output.push(
        Instruction::MoveImmediate64 { bits: 0x8000_0000_0000_0000, destination: Register::R11 },
    );
    output.push(
        Instruction::Bitwise {
            operation: BitwiseOperation::Or,
            source: Register::R11,
            destination: Register::Rax,
        },
    );
    output.push(Instruction::Jump(result_ready.duplicate()));
    output.push(Instruction::Label(signed_domain));
    output.push(
        Instruction::ConvertFloat64ToSignedInteger {
            source: XmmRegister::Xmm14,
            destination: Register::Rax,
        },
    );
    output.push(Instruction::Label(result_ready));
    assert(lines(output@) =~= before + checked_u64_lines(
        cast_label_text(block, *old(sequence) as nat, "f64_u64_signed_domain"@),
        cast_label_text(block, *old(sequence) as nat + 1, "f64_u64_result_ready"@),
    ));
}

/// The lines of a checked `f64` to integer conversion whose range the
/// terminator already checked.
pub open spec fn checked_conversion_lines(
    frame: &FrameLayout,
    block: BlockId,
    sequence: nat,
    relation: MirF64ToIntegerRange,
    operand: ValueId,
    ty: MirType,
    destination: Operand,
) -> Seq<Seq<char>> {
    seq![line_text(float_load(frame, operand, XmmRegister::Xmm14))] + (if relation.target
        == MirIntegerType::U64 {
        checked_u64_lines(
            cast_label_text(block, sequence, "f64_u64_signed_domain"@),
            cast_label_text(block, sequence + 1, "f64_u64_result_ready"@),
        )
    } else {
        seq![line_text(truncate_instruction())]
    }) + lines(canonical_store(ty, destination))
}

pub fn select_checked_f64_to_integer(
    frame: &FrameLayout,
    block: BlockId,
    sequence: &mut usize,
    relation: MirF64ToIntegerRange,
    operand: ValueId,
    ty: MirType,
    destination: Operand,
    output: &mut Vec<Instruction>,
)
    requires
        operand.idx < frame.value_offsets@.len(),
        *old(sequence) < usize::MAX - 2,
    ensures
        old(output)@.len() <= final(output)@.len(),
        final(output)@.subrange(0, old(output)@.len() as int) == old(output)@,
        forall|i: int| 0 <= i < old(output)@.len() ==> #[trigger] final(output)@[i] == old(output)@[i],
        *final(sequence) == *old(sequence) + (if relation.target == MirIntegerType::U64 {
            2int
        } else {
            0int
        }),
        lines(final(output)@) == lines(old(output)@) + checked_conversion_lines(
            frame,
            block,
            *old(sequence) as nat,
            relation,
            operand,
            ty,
            destination,
        ),
{
    let ghost before = lines(output@);
    load_float(float_operand(frame_value(frame, operand)), XmmRegister::Xmm14, output);
    if relation.target == MirIntegerType::U64 {
        convert_checked_u64(block, sequence, output);
    } else {
        output.push(
            Instruction::ConvertFloat64ToSignedInteger {
                source: XmmRegister::Xmm14,
                destination: Register::Rax,
            },
        );
    }
    let ghost converted = output@;
    store_canonical_rax(ty, destination, output);
    assert(lines(output@) =~= lines(converted) + lines(canonical_store(ty, destination)));
    assert(lines(output@) =~= before + checked_conversion_lines(
        frame,
        block,
        *old(sequence) as nat,
        relation,
        operand,
        ty,
        destination,
    ));
}

/// Converts the `u64` in `rax` to `f64` in `xmm14`. Values with the high
/// bit set are halved with a sticky low bit, converted, and doubled, which
/// rounds as a direct conversion would.
pub open spec fn u64_to_f64_lines(signed_domain: Seq<char>, result_ready: Seq<char>) -> Seq<
    Seq<char>,
> {
    seq![
        line_text(Instruction::Test(Register::Rax)),
        one_operand_line("jns"@, signed_domain),
        line_text(
            Instruction::Move {
                source: Operand::Register(Register::Rax),
                destination: Operand::Register(Register::Rdx),
            },
        ),
        line_text(Instruction::MoveImmediate64 { bits: 1, destination: Register::Rcx }),
        line_text(
            Instruction::Shift { operation: ShiftOperation::LogicalRight, destination: Register::Rax },
        ),
        line_text(
            Instruction::Bitwise {
                operation: BitwiseOperation::And,
                source: Register::Rcx,
                destination: Register::Rdx,
            },
        ),
        line_text(
            Instruction::Bitwise {
                operation: BitwiseOperation::Or,
                source: Register::Rdx,
                destination: Register::Rax,
            },
        ),
        line_text(convert_instruction()),
        line_text(
            Instruction::AddFloat64 { source: XmmRegister::Xmm14, destination: XmmRegister::Xmm14 },
        ),
        one_operand_line("jmp"@, result_ready),
        label_text_line(signed_domain),
        line_text(convert_instruction()),
        label_text_line(result_ready),
    ]
}

fn convert_u64_rax_to_f64(block: BlockId, sequence: &mut usize, output: &mut Vec<Instruction>)
    requires
        *old(sequence) < usize::MAX - 2,
    ensures
        old(output)@.len() <= final(output)@.len(),
        final(output)@.subrange(0, old(output)@.len() as int) == old(output)@,
        forall|i: int| 0 <= i < old(output)@.len() ==> #[trigger] final(output)@[i] == old(output)@[i],
        *final(sequence) == *old(sequence) + 2,
        lines(final(output)@) == lines(old(output)@) + u64_to_f64_lines(
            cast_label_text(block, *old(sequence) as nat, "u64_signed_domain"@),
            cast_label_text(block, *old(sequence) as nat + 1, "u64_result_ready"@),
        ),
{
    let ghost before = lines(output@);
    let signed_domain = next_primitive_cast_label(block, sequence, "u64_signed_domain");
    let result_ready = next_primitive_cast_label(block, sequence, "u64_result_ready");
    output.push(Instruction::Test(Register::Rax));
    output.push(Instruction::JumpIfNotSign(signed_domain.duplicate()));
    output.push(
        Instruction::Move {
            source: Operand::Register(Register::Rax),
            destination: Operand::Register(Register::Rdx),
        },
    );
    output.push(Instruction::MoveImmediate64 { bits: 1, destination: Register::Rcx });
    output.push(
        Instruction::Shift { operation: ShiftOperation::LogicalRight, destination: Register::Rax },
    );
    output.push(
        Instruction::Bitwise {
            operation: BitwiseOperation::And,
            source: Register::Rcx,
            destination: Register::Rdx,
        },
    );
    output.push(
        Instruction::Bitwise {
            operation: BitwiseOperation::Or,
            source: Register::Rdx,
            destination: Register::Rax,
        },
    );
    output.push(
        Instruction::ConvertSignedIntegerToFloat64 {
            source: Register::Rax,
            destination: XmmRegister::Xmm14,
        },
    );
    output.push(
        Instruction::AddFloat64 { source: XmmRegister::Xmm14, destination: XmmRegister::Xmm14 },
    );
    output.push(Instruction::Jump(result_ready.duplicate()));
    output.push(Instruction::Label(signed_domain));
    output.push(
        Instruction::ConvertSignedIntegerToFloat64 {
            source: Register::Rax,
            destination: XmmRegister::Xmm14,
        },
    );
    output.push(Instruction::Label(result_ready));
    assert(lines(output@) =~= before + u64_to_f64_lines(
        cast_label_text(block, *old(sequence) as nat, "u64_signed_domain"@),
        cast_label_text(block, *old(sequence) as nat + 1, "u64_result_ready"@),
    ));
}

/// Whether the selector handles a cast: every verified unchecked cast; bit
/// reinterpretation pairs `f64` with `u64`.
pub open spec fn selectable_cast(operation: MirPrimitiveCast) -> bool {
    &&& operation.kind != MirPrimitiveCastKind::CheckedF64ToInteger
    &&& operation.kind == MirPrimitiveCastKind::BitReinterpretation ==> ((operation.source
        == MirPrimitiveType::F64 && operation.target == MirPrimitiveType::U64) || (
    operation.source == MirPrimitiveType::U64 && operation.target == MirPrimitiveType::F64))
}

/// Sets `al` to whether `condition` holds, canonical as `bool`.
pub open spec fn boolean_tail(destination: Operand) -> Seq<Instruction> {
    seq![Instruction::ZeroExtendByte { source: ByteRegister::Al, destination: Register::Rax }]
        + canonical_store(MirType::Bool, destination)
}

/// The lines of an unchecked cast, whose labels take the sequence numbers
/// from `sequence` on.
pub open spec fn cast_lines(
    frame: &FrameLayout,
    block: BlockId,
    sequence: nat,
    operation: MirPrimitiveCast,
    operand: ValueId,
    destination: Operand,
) -> Seq<Seq<char>> {
    let load = load_rax_instruction(value_operand(frame, operand));
    let result = operation.target.spec_payload_type();
    match operation.kind {
        MirPrimitiveCastKind::Identity | MirPrimitiveCastKind::IntegerBits => if operation.source
            == MirPrimitiveType::F64 && operation.kind == MirPrimitiveCastKind::Identity {
            lines(seq![float_load(frame, operand, XmmRegister::Xmm14), float_store(destination)])
        } else {
            lines(seq![load] + canonical_store(result, destination))
        },
        MirPrimitiveCastKind::ToBool => if operation.source == MirPrimitiveType::F64 {
            lines(
                seq![
                    float_load(frame, operand, XmmRegister::Xmm14),
                    Instruction::XorFloat128 {
                        source: XmmRegister::Xmm15,
                        destination: XmmRegister::Xmm15,
                    },
                    Instruction::CompareFloat64 {
                        source: XmmRegister::Xmm15,
                        destination: XmmRegister::Xmm14,
                    },
                    Instruction::SetCondition {
                        condition: ConditionCode::NotEqual,
                        destination: ByteRegister::Al,
                    },
                    Instruction::SetCondition {
                        condition: ConditionCode::Parity,
                        destination: ByteRegister::Cl,
                    },
                    Instruction::ByteBitwise {
                        operation: BitwiseOperation::Or,
                        source: ByteRegister::Cl,
                        destination: ByteRegister::Al,
                    },
                ] + boolean_tail(destination),
            )
        } else {
            lines(
                seq![
                    load,
                    Instruction::Test(Register::Rax),
                    Instruction::SetCondition {
                        condition: ConditionCode::NotEqual,
                        destination: ByteRegister::Al,
                    },
                ] + boolean_tail(destination),
            )
        },
        MirPrimitiveCastKind::FromBool => lines(seq![load] + canonical_store(result, destination)),
        MirPrimitiveCastKind::ToF64 => if operation.source == MirPrimitiveType::Bool {
            lines(seq![load, convert_instruction(), float_store(destination)])
        } else if operation.source == MirPrimitiveType::U64 {
            seq![line_text(load)] + u64_to_f64_lines(
                cast_label_text(block, sequence, "u64_signed_domain"@),
                cast_label_text(block, sequence + 1, "u64_result_ready"@),
            ) + seq![line_text(float_store(destination))]
        } else {
            lines(seq![load, convert_instruction(), float_store(destination)])
        },
        MirPrimitiveCastKind::BitReinterpretation => if operation.source == MirPrimitiveType::F64 {
            lines(
                seq![
                    float_load(frame, operand, XmmRegister::Xmm14),
                    Instruction::MoveFloatBitsToInteger {
                        source: XmmRegister::Xmm14,
                        destination: Register::Rax,
                    },
                ] + canonical_store(MirType::U64, destination),
            )
        } else {
            lines(
                seq![
                    load,
                    Instruction::MoveBitsToFloat {
                        source: Register::Rax,
                        destination: XmmRegister::Xmm14,
                    },
                    float_store(destination),
                ],
            )
        },
        MirPrimitiveCastKind::CheckedF64ToInteger => Seq::empty(),
    }
}

/// The number of labels a cast takes.
pub open spec fn cast_label_count(operation: MirPrimitiveCast) -> int {
    if operation.kind == MirPrimitiveCastKind::ToF64 && operation.source == MirPrimitiveType::U64 {
        2
    } else {
        0
    }
}

/// Selects an unchecked primitive cast.
#[verifier::rlimit(40)]
pub fn select_primitive_cast(
    frame: &FrameLayout,
    block: BlockId,
    sequence: &mut usize,
    operation: MirPrimitiveCast,
    operand: ValueId,
    destination: Operand,
    output: &mut Vec<Instruction>,
)
    requires
        selectable_cast(operation),
        operand.idx < frame.value_offsets@.len(),
        destination is Memory,
        *old(sequence) < usize::MAX - 2,
    ensures
        old(output)@.len() <= final(output)@.len(),
        final(output)@.subrange(0, old(output)@.len() as int) == old(output)@,
        forall|i: int| 0 <= i < old(output)@.len() ==> #[trigger] final(output)@[i] == old(output)@[i],
        *final(sequence) == *old(sequence) + cast_label_count(operation),
        lines(final(output)@) == lines(old(output)@) + cast_lines(
            frame,
            block,
            *old(sequence) as nat,
            operation,
            operand,
            destination,
        ),
{
    let ghost before = output@;
    let ghost start = *sequence;
    let source = frame_value(frame, operand);
    match operation.kind() {
        MirPrimitiveCastKind::Identity | MirPrimitiveCastKind::IntegerBits => {
            if operation.source == MirPrimitiveType::F64 && matches!(
                operation.kind,
                MirPrimitiveCastKind::Identity
            ) {
                load_float(float_operand(source), XmmRegister::Xmm14, output);
                store_float(XmmRegister::Xmm14, float_operand(destination), output);
            } else {
                load_rax(source, output);
                store_canonical_rax(operation.result_type(), destination, output);
            }
        },
        MirPrimitiveCastKind::ToBool => {
            if operation.source == MirPrimitiveType::F64 {
                load_float(float_operand(source), XmmRegister::Xmm14, output);
                output.push(
                    Instruction::XorFloat128 {
                        source: XmmRegister::Xmm15,
                        destination: XmmRegister::Xmm15,
                    },
                );
                output.push(
                    Instruction::CompareFloat64 {
                        source: XmmRegister::Xmm15,
                        destination: XmmRegister::Xmm14,
                    },
                );
                output.push(
                    Instruction::SetCondition {
                        condition: ConditionCode::NotEqual,
                        destination: ByteRegister::Al,
                    },
                );
                output.push(
                    Instruction::SetCondition {
                        condition: ConditionCode::Parity,
                        destination: ByteRegister::Cl,
                    },
                );
                output.push(
                    Instruction::ByteBitwise {
                        operation: BitwiseOperation::Or,
                        source: ByteRegister::Cl,
                        destination: ByteRegister::Al,
                    },
                );
            } else {
                load_rax(source, output);
                output.push(Instruction::Test(Register::Rax));
                output.push(
                    Instruction::SetCondition {
                        condition: ConditionCode::NotEqual,
                        destination: ByteRegister::Al,
                    },
                );
            }
            output.push(
                Instruction::ZeroExtendByte { source: ByteRegister::Al, destination: Register::Rax },
            );
            store_canonical_rax(MirType::Bool, destination, output);
        },
        MirPrimitiveCastKind::FromBool => {
            load_rax(source, output);
            store_canonical_rax(operation.result_type(), destination, output);
        },
        MirPrimitiveCastKind::ToF64 => {
            load_rax(source, output);
            if operation.source == MirPrimitiveType::U64 {
                let ghost loaded = output@;
                convert_u64_rax_to_f64(block, sequence, output);
                let ghost converted = output@;
                store_float(XmmRegister::Xmm14, float_operand(destination), output);
                assert(lines(output@) =~= lines(before) + cast_lines(
                    frame,
                    block,
                    start as nat,
                    operation,
                    operand,
                    destination,
                ));
            } else {
                output.push(
                    Instruction::ConvertSignedIntegerToFloat64 {
                        source: Register::Rax,
                        destination: XmmRegister::Xmm14,
                    },
                );
                store_float(XmmRegister::Xmm14, float_operand(destination), output);
            }
        },
        MirPrimitiveCastKind::BitReinterpretation => {
            if operation.source == MirPrimitiveType::F64 {
                load_float(float_operand(source), XmmRegister::Xmm14, output);
                output.push(
                    Instruction::MoveFloatBitsToInteger {
                        source: XmmRegister::Xmm14,
                        destination: Register::Rax,
                    },
                );
                store_canonical_rax(MirType::U64, destination, output);
            } else {
                load_rax(source, output);
                output.push(
                    Instruction::MoveBitsToFloat {
                        source: Register::Rax,
                        destination: XmmRegister::Xmm14,
                    },
                );
                store_float(XmmRegister::Xmm14, float_operand(destination), output);
            }
        },
        MirPrimitiveCastKind::CheckedF64ToInteger => {},
    }
    assert(lines(output@) =~= lines(before) + cast_lines(
        frame,
        block,
        start as nat,
        operation,
        operand,
        destination,
    ));
}

} // verus!
