//! Selection of primitive rvalues: constants, unary and binary arithmetic,
//! comparisons, checked shifts, and checked floor division.
//!
//! Integer work happens in `rax` with the second operand in `rcx`; `f64`
//! work happens in `xmm14` with the second operand in `xmm15`. Every result
//! is stored to its destination home in canonical form.

use vstd::prelude::*;

use crate::body::{
    BlockId, MirBinaryOperation, MirComparisonOperand, MirComparisonPredicate,
    MirIntegerBitwiseOperation, MirIntegerDivisionKind, MirIntegerDivisionOperation,
    MirIntegerType, MirPrimitiveComparison, MirRightShiftFlavor, MirShiftDirection,
    MirShiftOperation, MirTerminator, MirUnaryOperation, spec_right_shift_flavor,
    spec_shift_width,
};
use crate::emit::line_text;
use crate::frame::FrameLayout;
use crate::listing::{label_text_line, lemma_lines_push, lines, one_operand_line};
use crate::machine::{
    BitwiseOperation, ByteRegister, ConditionCode, FloatOperand, Instruction, IntegerDivideFlavor,
    Label, Operand, Register, ShiftOperation, XmmRegister,
};
use crate::mir::MirType;
use crate::selection::{
    block_label, block_label_text, comparison_condition, floating_comparison_conditions,
    label_stem_text, single_condition_comparison, spec_comparison_condition,
};
use crate::symbol::callable;
use crate::text::{decimal, decimal_text};
use crate::value::{
    canonical_instructions, float_operand, frame_storage, frame_value, load_float, load_rax,
    load_rax_instruction, spec_float_operand, storage_operand, store_canonical_rax, store_float,
    store_rax_instruction, value_operand,
};

verus! {

broadcast use lemma_lines_push;

/// Stores `rax`, canonical for `ty`, to `destination`.
pub open spec fn canonical_store(ty: MirType, destination: Operand) -> Seq<Instruction> {
    canonical_instructions(ty) + seq![store_rax_instruction(destination)]
}

/// Stores `xmm14` to `destination`.
pub open spec fn float_store(destination: Operand) -> Instruction {
    Instruction::MoveFloat64 {
        source: FloatOperand::Register(XmmRegister::Xmm14),
        destination: spec_float_operand(destination),
    }
}

/// Loads an `f64` home into an SSE register.
pub open spec fn float_load(frame: &FrameLayout, value: crate::identity::ValueId, register: XmmRegister) -> Instruction {
    Instruction::MoveFloat64 {
        source: spec_float_operand(value_operand(frame, value)),
        destination: FloatOperand::Register(register),
    }
}

pub open spec fn integer_constant_instructions(bits: u64, ty: MirType, destination: Operand) -> Seq<
    Instruction,
> {
    seq![Instruction::MoveImmediate64 { bits, destination: Register::Rax }] + canonical_store(
        ty,
        destination,
    )
}

/// Materializes an integer or boolean constant.
pub fn select_integer_constant(
    bits: u64,
    ty: MirType,
    destination: Operand,
    output: &mut Vec<Instruction>,
)
    ensures
        final(output)@ == old(output)@ + integer_constant_instructions(bits, ty, destination),
{
    let ghost before = output@;
    output.push(Instruction::MoveImmediate64 { bits, destination: Register::Rax });
    store_canonical_rax(ty, destination, output);
    assert(output@ =~= before + integer_constant_instructions(bits, ty, destination));
}

pub open spec fn float_constant_instructions(bits: u64, destination: Operand) -> Seq<Instruction> {
    seq![
        Instruction::MoveImmediate64 { bits, destination: Register::Rax },
        Instruction::MoveBitsToFloat { source: Register::Rax, destination: XmmRegister::Xmm14 },
        float_store(destination),
    ]
}

/// Materializes an `f64` constant from its bits.
pub fn select_float_constant(bits: u64, destination: Operand, output: &mut Vec<Instruction>)
    requires
        destination is Memory,
    ensures
        final(output)@ == old(output)@ + float_constant_instructions(bits, destination),
{
    let ghost before = output@;
    output.push(Instruction::MoveImmediate64 { bits, destination: Register::Rax });
    output.push(
        Instruction::MoveBitsToFloat { source: Register::Rax, destination: XmmRegister::Xmm14 },
    );
    store_float(XmmRegister::Xmm14, float_operand(destination), output);
    assert(output@ =~= before + float_constant_instructions(bits, destination));
}

/// Materializes the flag `condition` as a boolean.
pub open spec fn condition_instructions(condition: ConditionCode, destination: Operand) -> Seq<
    Instruction,
> {
    seq![
        Instruction::SetCondition { condition, destination: ByteRegister::Al },
        Instruction::ZeroExtendByte { source: ByteRegister::Al, destination: Register::Rax },
    ] + canonical_store(MirType::Bool, destination)
}

pub fn store_condition(condition: ConditionCode, destination: Operand, output: &mut Vec<Instruction>)
    ensures
        final(output)@ == old(output)@ + condition_instructions(condition, destination),
{
    let ghost before = output@;
    output.push(Instruction::SetCondition { condition, destination: ByteRegister::Al });
    output.push(
        Instruction::ZeroExtendByte { source: ByteRegister::Al, destination: Register::Rax },
    );
    store_canonical_rax(MirType::Bool, destination, output);
    assert(output@ =~= before + condition_instructions(condition, destination));
}

/// `-x`: the sign bit flipped by an exclusive or with `1 << 63`.
pub open spec fn float_negate_instructions(
    frame: &FrameLayout,
    operand: crate::identity::ValueId,
    destination: Operand,
) -> Seq<Instruction> {
    seq![
        float_load(frame, operand, XmmRegister::Xmm14),
        Instruction::MoveImmediate64 { bits: 0x8000_0000_0000_0000, destination: Register::Rax },
        Instruction::MoveBitsToFloat { source: Register::Rax, destination: XmmRegister::Xmm15 },
        Instruction::XorFloat128 { source: XmmRegister::Xmm15, destination: XmmRegister::Xmm14 },
        float_store(destination),
    ]
}

pub fn select_float_negate(
    frame: &FrameLayout,
    operand: crate::identity::ValueId,
    destination: Operand,
    output: &mut Vec<Instruction>,
)
    requires
        operand.idx < frame.value_offsets@.len(),
        destination is Memory,
    ensures
        final(output)@ == old(output)@ + float_negate_instructions(frame, operand, destination),
{
    let ghost before = output@;
    load_float(float_operand(frame_value(frame, operand)), XmmRegister::Xmm14, output);
    output.push(
        Instruction::MoveImmediate64 { bits: 0x8000_0000_0000_0000, destination: Register::Rax },
    );
    output.push(
        Instruction::MoveBitsToFloat { source: Register::Rax, destination: XmmRegister::Xmm15 },
    );
    output.push(
        Instruction::XorFloat128 { source: XmmRegister::Xmm15, destination: XmmRegister::Xmm14 },
    );
    store_float(XmmRegister::Xmm14, float_operand(destination), output);
    assert(output@ =~= before + float_negate_instructions(frame, operand, destination));
}

pub open spec fn unary_instructions(
    frame: &FrameLayout,
    operation: MirUnaryOperation,
    operand: crate::identity::ValueId,
    ty: MirType,
    destination: Operand,
) -> Seq<Instruction> {
    let load = load_rax_instruction(value_operand(frame, operand));
    match operation {
        MirUnaryOperation::NegateI64 => seq![load, Instruction::Negate(Register::Rax)]
            + canonical_store(ty, destination),
        MirUnaryOperation::NegateF64 => float_negate_instructions(frame, operand, destination),
        MirUnaryOperation::LogicalNotBool => seq![load, Instruction::Test(Register::Rax)]
            + condition_instructions(ConditionCode::Equal, destination),
        MirUnaryOperation::BitwiseComplement(_) => seq![
            load,
            Instruction::BitwiseNot(Register::Rax),
        ] + canonical_store(ty, destination),
    }
}

/// Selects a unary operation.
pub fn select_unary(
    frame: &FrameLayout,
    operation: MirUnaryOperation,
    operand: crate::identity::ValueId,
    ty: MirType,
    destination: Operand,
    output: &mut Vec<Instruction>,
)
    requires
        operand.idx < frame.value_offsets@.len(),
        destination is Memory,
    ensures
        final(output)@ == old(output)@ + unary_instructions(frame, operation, operand, ty, destination),
{
    let ghost before = output@;
    match operation {
        MirUnaryOperation::NegateI64 => {
            load_rax(frame_value(frame, operand), output);
            output.push(Instruction::Negate(Register::Rax));
            store_canonical_rax(ty, destination, output);
        },
        MirUnaryOperation::NegateF64 => select_float_negate(frame, operand, destination, output),
        MirUnaryOperation::LogicalNotBool => {
            load_rax(frame_value(frame, operand), output);
            output.push(Instruction::Test(Register::Rax));
            store_condition(ConditionCode::Equal, destination, output);
        },
        MirUnaryOperation::BitwiseComplement(_) => {
            load_rax(frame_value(frame, operand), output);
            output.push(Instruction::BitwiseNot(Register::Rax));
            store_canonical_rax(ty, destination, output);
        },
    }
    assert(output@ =~= before + unary_instructions(frame, operation, operand, ty, destination));
}

/// The integer operations of binary arithmetic.
#[derive(Clone, Copy, Debug, PartialEq, Eq, Structural)]
pub enum IntegerBinaryOperation {
    Add,
    Subtract,
    Multiply,
    Bitwise(BitwiseOperation),
}

/// The `f64` operations of binary arithmetic.
#[derive(Clone, Copy, Debug, PartialEq, Eq, Structural)]
pub enum FloatBinaryOperation {
    Add,
    Subtract,
    Multiply,
    Divide,
}

pub open spec fn integer_operation_instruction(operation: IntegerBinaryOperation) -> Instruction {
    match operation {
        IntegerBinaryOperation::Add => Instruction::Add {
            source: Register::Rcx,
            destination: Register::Rax,
        },
        IntegerBinaryOperation::Subtract => Instruction::Subtract {
            source: Register::Rcx,
            destination: Register::Rax,
        },
        IntegerBinaryOperation::Multiply => Instruction::Multiply {
            source: Register::Rcx,
            destination: Register::Rax,
        },
        IntegerBinaryOperation::Bitwise(operation) => Instruction::Bitwise {
            operation,
            source: Register::Rcx,
            destination: Register::Rax,
        },
    }
}

/// Loads the left operand into `rax` and the right into `rcx`.
pub open spec fn integer_operands(
    frame: &FrameLayout,
    left: crate::identity::ValueId,
    right: crate::identity::ValueId,
) -> Seq<Instruction> {
    seq![
        load_rax_instruction(value_operand(frame, left)),
        Instruction::Move {
            source: value_operand(frame, right),
            destination: Operand::Register(Register::Rcx),
        },
    ]
}

pub open spec fn integer_binary_instructions(
    frame: &FrameLayout,
    operation: IntegerBinaryOperation,
    left: crate::identity::ValueId,
    right: crate::identity::ValueId,
    ty: MirType,
    destination: Operand,
) -> Seq<Instruction> {
    integer_operands(frame, left, right) + seq![integer_operation_instruction(operation)]
        + canonical_store(ty, destination)
}

fn load_integer_operands(
    frame: &FrameLayout,
    left: crate::identity::ValueId,
    right: crate::identity::ValueId,
    output: &mut Vec<Instruction>,
)
    requires
        left.idx < frame.value_offsets@.len(),
        right.idx < frame.value_offsets@.len(),
    ensures
        final(output)@ == old(output)@ + integer_operands(frame, left, right),
{
    let ghost before = output@;
    load_rax(frame_value(frame, left), output);
    output.push(
        Instruction::Move {
            source: frame_value(frame, right),
            destination: Operand::Register(Register::Rcx),
        },
    );
    assert(output@ =~= before + integer_operands(frame, left, right));
}

pub fn select_integer_binary(
    frame: &FrameLayout,
    operation: IntegerBinaryOperation,
    left: crate::identity::ValueId,
    right: crate::identity::ValueId,
    ty: MirType,
    destination: Operand,
    output: &mut Vec<Instruction>,
)
    requires
        left.idx < frame.value_offsets@.len(),
        right.idx < frame.value_offsets@.len(),
    ensures
        final(output)@ == old(output)@ + integer_binary_instructions(
            frame,
            operation,
            left,
            right,
            ty,
            destination,
        ),
{
    let ghost before = output@;
    load_integer_operands(frame, left, right, output);
    output.push(
        match operation {
            IntegerBinaryOperation::Add => Instruction::Add {
                source: Register::Rcx,
                destination: Register::Rax,
            },
            IntegerBinaryOperation::Subtract => Instruction::Subtract {
                source: Register::Rcx,
                destination: Register::Rax,
            },
            IntegerBinaryOperation::Multiply => Instruction::Multiply {
                source: Register::Rcx,
                destination: Register::Rax,
            },
            IntegerBinaryOperation::Bitwise(operation) => Instruction::Bitwise {
                operation,
                source: Register::Rcx,
                destination: Register::Rax,
            },
        },
    );
    store_canonical_rax(ty, destination, output);
    assert(output@ =~= before + integer_binary_instructions(
        frame,
        operation,
        left,
        right,
        ty,
        destination,
    ));
}

pub open spec fn float_operation_instruction(operation: FloatBinaryOperation) -> Instruction {
    match operation {
        FloatBinaryOperation::Add => Instruction::AddFloat64 {
            source: XmmRegister::Xmm15,
            destination: XmmRegister::Xmm14,
        },
        FloatBinaryOperation::Subtract => Instruction::SubtractFloat64 {
            source: XmmRegister::Xmm15,
            destination: XmmRegister::Xmm14,
        },
        FloatBinaryOperation::Multiply => Instruction::MultiplyFloat64 {
            source: XmmRegister::Xmm15,
            destination: XmmRegister::Xmm14,
        },
        FloatBinaryOperation::Divide => Instruction::DivideFloat64 {
            source: XmmRegister::Xmm15,
            destination: XmmRegister::Xmm14,
        },
    }
}

pub open spec fn float_binary_instructions(
    frame: &FrameLayout,
    operation: FloatBinaryOperation,
    left: crate::identity::ValueId,
    right: crate::identity::ValueId,
    destination: Operand,
) -> Seq<Instruction> {
    seq![
        float_load(frame, left, XmmRegister::Xmm14),
        float_load(frame, right, XmmRegister::Xmm15),
        float_operation_instruction(operation),
        float_store(destination),
    ]
}

pub fn select_float_binary(
    frame: &FrameLayout,
    operation: FloatBinaryOperation,
    left: crate::identity::ValueId,
    right: crate::identity::ValueId,
    destination: Operand,
    output: &mut Vec<Instruction>,
)
    requires
        left.idx < frame.value_offsets@.len(),
        right.idx < frame.value_offsets@.len(),
        destination is Memory,
    ensures
        final(output)@ == old(output)@ + float_binary_instructions(
            frame,
            operation,
            left,
            right,
            destination,
        ),
{
    let ghost before = output@;
    load_float(float_operand(frame_value(frame, left)), XmmRegister::Xmm14, output);
    load_float(float_operand(frame_value(frame, right)), XmmRegister::Xmm15, output);
    output.push(
        match operation {
            FloatBinaryOperation::Add => Instruction::AddFloat64 {
                source: XmmRegister::Xmm15,
                destination: XmmRegister::Xmm14,
            },
            FloatBinaryOperation::Subtract => Instruction::SubtractFloat64 {
                source: XmmRegister::Xmm15,
                destination: XmmRegister::Xmm14,
            },
            FloatBinaryOperation::Multiply => Instruction::MultiplyFloat64 {
                source: XmmRegister::Xmm15,
                destination: XmmRegister::Xmm14,
            },
            FloatBinaryOperation::Divide => Instruction::DivideFloat64 {
                source: XmmRegister::Xmm15,
                destination: XmmRegister::Xmm14,
            },
        },
    );
    store_float(XmmRegister::Xmm14, float_operand(destination), output);
    assert(output@ =~= before + float_binary_instructions(
        frame,
        operation,
        left,
        right,
        destination,
    ));
}

/// The integer or `f64` operation of a binary MIR operation: wrapping
/// addition, subtraction, and multiplication use the same instruction for
/// every integer width, the stored result being canonical for its type.
pub open spec fn binary_kind(operation: MirBinaryOperation) -> Result<
    IntegerBinaryOperation,
    FloatBinaryOperation,
> {
    match operation {
        MirBinaryOperation::AddI64 | MirBinaryOperation::AddU64 | MirBinaryOperation::AddU8 => Ok(
            IntegerBinaryOperation::Add,
        ),
        MirBinaryOperation::SubtractI64 | MirBinaryOperation::SubtractU64
        | MirBinaryOperation::SubtractU8 => Ok(IntegerBinaryOperation::Subtract),
        MirBinaryOperation::MultiplyI64 | MirBinaryOperation::MultiplyU64
        | MirBinaryOperation::MultiplyU8 => Ok(IntegerBinaryOperation::Multiply),
        MirBinaryOperation::AddF64 => Err(FloatBinaryOperation::Add),
        MirBinaryOperation::SubtractF64 => Err(FloatBinaryOperation::Subtract),
        MirBinaryOperation::MultiplyF64 => Err(FloatBinaryOperation::Multiply),
        MirBinaryOperation::DivideF64 => Err(FloatBinaryOperation::Divide),
        MirBinaryOperation::IntegerBitwise { operation, .. } => Ok(
            IntegerBinaryOperation::Bitwise(
                match operation {
                    MirIntegerBitwiseOperation::And => BitwiseOperation::And,
                    MirIntegerBitwiseOperation::Or => BitwiseOperation::Or,
                    MirIntegerBitwiseOperation::Xor => BitwiseOperation::Xor,
                },
            ),
        ),
    }
}

pub open spec fn binary_instructions(
    frame: &FrameLayout,
    operation: MirBinaryOperation,
    left: crate::identity::ValueId,
    right: crate::identity::ValueId,
    ty: MirType,
    destination: Operand,
) -> Seq<Instruction> {
    match binary_kind(operation) {
        Ok(integer) => integer_binary_instructions(frame, integer, left, right, ty, destination),
        Err(float) => float_binary_instructions(frame, float, left, right, destination),
    }
}

/// Selects a binary operation.
pub fn select_binary(
    frame: &FrameLayout,
    operation: MirBinaryOperation,
    left: crate::identity::ValueId,
    right: crate::identity::ValueId,
    ty: MirType,
    destination: Operand,
    output: &mut Vec<Instruction>,
)
    requires
        left.idx < frame.value_offsets@.len(),
        right.idx < frame.value_offsets@.len(),
        destination is Memory,
    ensures
        final(output)@ == old(output)@ + binary_instructions(
            frame,
            operation,
            left,
            right,
            ty,
            destination,
        ),
{
    match operation {
        MirBinaryOperation::AddI64 | MirBinaryOperation::AddU64 | MirBinaryOperation::AddU8 => {
            select_integer_binary(
                frame,
                IntegerBinaryOperation::Add,
                left,
                right,
                ty,
                destination,
                output,
            )
        },
        MirBinaryOperation::SubtractI64 | MirBinaryOperation::SubtractU64
        | MirBinaryOperation::SubtractU8 => select_integer_binary(
            frame,
            IntegerBinaryOperation::Subtract,
            left,
            right,
            ty,
            destination,
            output,
        ),
        MirBinaryOperation::MultiplyI64 | MirBinaryOperation::MultiplyU64
        | MirBinaryOperation::MultiplyU8 => select_integer_binary(
            frame,
            IntegerBinaryOperation::Multiply,
            left,
            right,
            ty,
            destination,
            output,
        ),
        MirBinaryOperation::AddF64 => select_float_binary(
            frame,
            FloatBinaryOperation::Add,
            left,
            right,
            destination,
            output,
        ),
        MirBinaryOperation::SubtractF64 => select_float_binary(
            frame,
            FloatBinaryOperation::Subtract,
            left,
            right,
            destination,
            output,
        ),
        MirBinaryOperation::MultiplyF64 => select_float_binary(
            frame,
            FloatBinaryOperation::Multiply,
            left,
            right,
            destination,
            output,
        ),
        MirBinaryOperation::DivideF64 => select_float_binary(
            frame,
            FloatBinaryOperation::Divide,
            left,
            right,
            destination,
            output,
        ),
        MirBinaryOperation::IntegerBitwise { operation, .. } => select_integer_binary(
            frame,
            IntegerBinaryOperation::Bitwise(
                match operation {
                    MirIntegerBitwiseOperation::And => BitwiseOperation::And,
                    MirIntegerBitwiseOperation::Or => BitwiseOperation::Or,
                    MirIntegerBitwiseOperation::Xor => BitwiseOperation::Xor,
                },
            ),
            left,
            right,
            ty,
            destination,
            output,
        ),
    }
}

/// An `f64` comparison: `ucomisd`, then the relation and the ordered
/// condition combined, so that unordered operands compare unequal and
/// fail every other predicate.
pub open spec fn float_comparison_instructions(
    frame: &FrameLayout,
    predicate: MirComparisonPredicate,
    left: crate::identity::ValueId,
    right: crate::identity::ValueId,
    destination: Operand,
    relation: ConditionCode,
    ordered: ConditionCode,
    combine: BitwiseOperation,
) -> Seq<Instruction> {
    seq![
        float_load(frame, left, XmmRegister::Xmm14),
        float_load(frame, right, XmmRegister::Xmm15),
        Instruction::CompareFloat64 { source: XmmRegister::Xmm15, destination: XmmRegister::Xmm14 },
        Instruction::SetCondition { condition: relation, destination: ByteRegister::Al },
        Instruction::SetCondition { condition: ordered, destination: ByteRegister::Cl },
        Instruction::ByteBitwise {
            operation: combine,
            source: ByteRegister::Cl,
            destination: ByteRegister::Al,
        },
        Instruction::ZeroExtendByte { source: ByteRegister::Al, destination: Register::Rax },
    ] + canonical_store(MirType::Bool, destination)
}

/// The relation, ordered condition, and combination of an `f64` predicate.
pub open spec fn float_conditions(predicate: MirComparisonPredicate) -> (
    ConditionCode,
    ConditionCode,
    BitwiseOperation,
) {
    match predicate {
        MirComparisonPredicate::Equal => (
            ConditionCode::Equal,
            ConditionCode::NotParity,
            BitwiseOperation::And,
        ),
        MirComparisonPredicate::NotEqual => (
            ConditionCode::NotEqual,
            ConditionCode::Parity,
            BitwiseOperation::Or,
        ),
        MirComparisonPredicate::LessThan => (
            ConditionCode::UnsignedBelow,
            ConditionCode::NotParity,
            BitwiseOperation::And,
        ),
        MirComparisonPredicate::LessEqual => (
            ConditionCode::UnsignedBelowEqual,
            ConditionCode::NotParity,
            BitwiseOperation::And,
        ),
        MirComparisonPredicate::GreaterThan => (
            ConditionCode::UnsignedAbove,
            ConditionCode::NotParity,
            BitwiseOperation::And,
        ),
        MirComparisonPredicate::GreaterEqual => (
            ConditionCode::UnsignedAboveEqual,
            ConditionCode::NotParity,
            BitwiseOperation::And,
        ),
    }
}

pub fn select_float_comparison(
    frame: &FrameLayout,
    predicate: MirComparisonPredicate,
    left: crate::identity::ValueId,
    right: crate::identity::ValueId,
    destination: Operand,
    output: &mut Vec<Instruction>,
)
    requires
        left.idx < frame.value_offsets@.len(),
        right.idx < frame.value_offsets@.len(),
    ensures
        final(output)@ == old(output)@ + float_comparison_instructions(
            frame,
            predicate,
            left,
            right,
            destination,
            float_conditions(predicate).0,
            float_conditions(predicate).1,
            float_conditions(predicate).2,
        ),
{
    let ghost before = output@;
    load_float(float_operand_of(frame_value(frame, left)), XmmRegister::Xmm14, output);
    load_float(float_operand_of(frame_value(frame, right)), XmmRegister::Xmm15, output);
    output.push(
        Instruction::CompareFloat64 { source: XmmRegister::Xmm15, destination: XmmRegister::Xmm14 },
    );
    let (relation, ordered, combine) = floating_comparison_conditions(predicate);
    output.push(Instruction::SetCondition { condition: relation, destination: ByteRegister::Al });
    output.push(Instruction::SetCondition { condition: ordered, destination: ByteRegister::Cl });
    output.push(
        Instruction::ByteBitwise {
            operation: combine,
            source: ByteRegister::Cl,
            destination: ByteRegister::Al,
        },
    );
    output.push(
        Instruction::ZeroExtendByte { source: ByteRegister::Al, destination: Register::Rax },
    );
    store_canonical_rax(MirType::Bool, destination, output);
    assert(output@ =~= before + float_comparison_instructions(
        frame,
        predicate,
        left,
        right,
        destination,
        relation,
        ordered,
        combine,
    ));
}

fn float_operand_of(operand: Operand) -> (r: FloatOperand)
    requires
        operand is Memory,
    ensures
        r == spec_float_operand(operand),
{
    float_operand(operand)
}

pub open spec fn comparison_instructions(
    frame: &FrameLayout,
    operation: MirPrimitiveComparison,
    left: crate::identity::ValueId,
    right: crate::identity::ValueId,
    destination: Operand,
) -> Seq<Instruction> {
    if operation.operand == MirComparisonOperand::F64 {
        let (relation, ordered, combine) = float_conditions(operation.predicate);
        float_comparison_instructions(
            frame,
            operation.predicate,
            left,
            right,
            destination,
            relation,
            ordered,
            combine,
        )
    } else {
        integer_operands(frame, left, right) + seq![
            Instruction::Compare { source: Register::Rcx, destination: Register::Rax },
        ] + condition_instructions(spec_comparison_condition(operation), destination)
    }
}

/// Selects a primitive comparison; boolean operands are compared for
/// equality only.
pub fn select_primitive_comparison(
    frame: &FrameLayout,
    operation: MirPrimitiveComparison,
    left: crate::identity::ValueId,
    right: crate::identity::ValueId,
    destination: Operand,
    output: &mut Vec<Instruction>,
)
    requires
        left.idx < frame.value_offsets@.len(),
        right.idx < frame.value_offsets@.len(),
        operation.operand is F64 || single_condition_comparison(operation),
    ensures
        final(output)@ == old(output)@ + comparison_instructions(
            frame,
            operation,
            left,
            right,
            destination,
        ),
{
    if operation.operand == MirComparisonOperand::F64 {
        select_float_comparison(frame, operation.predicate, left, right, destination, output);
        return;
    }
    let ghost before = output@;
    load_integer_operands(frame, left, right, output);
    output.push(Instruction::Compare { source: Register::Rcx, destination: Register::Rax });
    store_condition(comparison_condition(operation), destination, output);
    assert(output@ =~= before + comparison_instructions(frame, operation, left, right, destination));
}

/// The target shift of a shift operation.
pub open spec fn spec_shift_operation(operation: MirShiftOperation) -> ShiftOperation {
    match spec_right_shift_flavor(operation) {
        None => ShiftOperation::Left,
        Some(MirRightShiftFlavor::Arithmetic) => ShiftOperation::ArithmeticRight,
        Some(MirRightShiftFlavor::Logical) => ShiftOperation::LogicalRight,
    }
}

pub open spec fn shift_instructions(
    frame: &FrameLayout,
    operation: MirShiftOperation,
    left: crate::identity::ValueId,
    count: crate::identity::ValueId,
    ty: MirType,
    destination: Operand,
) -> Seq<Instruction> {
    integer_operands(frame, left, count) + seq![
        Instruction::Shift { operation: spec_shift_operation(operation), destination: Register::Rax },
    ] + canonical_store(ty, destination)
}

/// Selects a shift whose count the verified check already bounded; the
/// count reaches `cl` only here.
pub fn select_shift(
    frame: &FrameLayout,
    operation: MirShiftOperation,
    left: crate::identity::ValueId,
    count: crate::identity::ValueId,
    ty: MirType,
    destination: Operand,
    output: &mut Vec<Instruction>,
)
    requires
        left.idx < frame.value_offsets@.len(),
        count.idx < frame.value_offsets@.len(),
    ensures
        final(output)@ == old(output)@ + shift_instructions(
            frame,
            operation,
            left,
            count,
            ty,
            destination,
        ),
{
    let ghost before = output@;
    load_integer_operands(frame, left, count, output);
    let shift = match (operation.direction, operation.right_shift_flavor()) {
        (MirShiftDirection::Right, Some(MirRightShiftFlavor::Arithmetic)) => {
            ShiftOperation::ArithmeticRight
        },
        (MirShiftDirection::Right, Some(MirRightShiftFlavor::Logical)) => {
            ShiftOperation::LogicalRight
        },
        _ => ShiftOperation::Left,
    };
    output.push(Instruction::Shift { operation: shift, destination: Register::Rax });
    store_canonical_rax(ty, destination, output);
    assert(output@ =~= before + shift_instructions(frame, operation, left, count, ty, destination));
}

/// The lines of a checked terminator: the check, then a conditional jump
/// to the success block and a jump to the failure block.
pub open spec fn check_terminator_lines(
    frame: &FrameLayout,
    terminator: MirTerminator,
) -> Seq<Seq<char>> {
    match terminator {
        MirTerminator::ShiftCountCheck { check, success_target, failure_target } => seq![
            line_text(load_rax_instruction(storage_operand(frame, check.count))),
            line_text(
                Instruction::MoveImmediate64 {
                    bits: spec_shift_width(check.operation),
                    destination: Register::R11,
                },
            ),
            line_text(Instruction::Compare { source: Register::R11, destination: Register::Rax }),
            one_operand_line("jb"@, block_label_text(success_target)),
            one_operand_line("jmp"@, block_label_text(failure_target)),
        ],
        MirTerminator::IntegerDivisorCheck { check, success_target, failure_target } => seq![
            line_text(load_rax_instruction(storage_operand(frame, check.divisor))),
            line_text(Instruction::Test(Register::Rax)),
            one_operand_line("jne"@, block_label_text(success_target)),
            one_operand_line("jmp"@, block_label_text(failure_target)),
        ],
        _ => Seq::empty(),
    }
}

/// Selects the range check of a shift count without touching `rcx`; other
/// terminators select nothing here.
pub fn select_shift_terminator(
    frame: &FrameLayout,
    terminator: &MirTerminator,
    output: &mut Vec<Instruction>,
) -> (r: bool)
    requires
        terminator matches MirTerminator::ShiftCountCheck { check, .. } ==> check.count.idx
            < frame.storage_offsets@.len(),
    ensures
        old(output)@.len() <= final(output)@.len(),
        final(output)@.subrange(0, old(output)@.len() as int) == old(output)@,
        forall|i: int| 0 <= i < old(output)@.len() ==> #[trigger] final(output)@[i] == old(output)@[i],
        r == (*terminator is ShiftCountCheck),
        r ==> lines(final(output)@) == lines(old(output)@) + check_terminator_lines(
            frame,
            *terminator,
        ),
        !r ==> final(output)@ == old(output)@,
{
    let ghost before = lines(output@);
    match terminator {
        MirTerminator::ShiftCountCheck { check, success_target, failure_target } => {
            load_rax(frame_storage(frame, check.count), output);
            output.push(
                Instruction::MoveImmediate64 {
                    bits: check.operation.width(),
                    destination: Register::R11,
                },
            );
            output.push(Instruction::Compare { source: Register::R11, destination: Register::Rax });
            output.push(Instruction::JumpIfBelow(block_label(*success_target)));
            output.push(Instruction::Jump(block_label(*failure_target)));
            assert(lines(output@) =~= before + check_terminator_lines(frame, *terminator));
            true
        },
        _ => false,
    }
}

/// Selects the zero check of a divisor before the success block places it
/// in the divide registers; other terminators select nothing here.
pub fn select_integer_division_terminator(
    frame: &FrameLayout,
    terminator: &MirTerminator,
    output: &mut Vec<Instruction>,
) -> (r: bool)
    requires
        terminator matches MirTerminator::IntegerDivisorCheck { check, .. } ==> check.divisor.idx
            < frame.storage_offsets@.len(),
    ensures
        old(output)@.len() <= final(output)@.len(),
        final(output)@.subrange(0, old(output)@.len() as int) == old(output)@,
        forall|i: int| 0 <= i < old(output)@.len() ==> #[trigger] final(output)@[i] == old(output)@[i],
        r == (*terminator is IntegerDivisorCheck),
        r ==> lines(final(output)@) == lines(old(output)@) + check_terminator_lines(
            frame,
            *terminator,
        ),
        !r ==> final(output)@ == old(output)@,
{
    let ghost before = lines(output@);
    match terminator {
        MirTerminator::IntegerDivisorCheck { check, success_target, failure_target } => {
            load_rax(frame_storage(frame, check.divisor), output);
            output.push(Instruction::Test(Register::Rax));
            output.push(Instruction::JumpIfNotZero(block_label(*success_target)));
            output.push(Instruction::Jump(block_label(*failure_target)));
            assert(lines(output@) =~= before + check_terminator_lines(frame, *terminator));
            true
        },
        _ => false,
    }
}

/// `.Lska.<stem>.integer_division_<block>_<sequence>_<suffix>`.
pub open spec fn division_label_text(block: BlockId, sequence: nat, suffix: Seq<char>) -> Seq<
    char,
> {
    ".Lska."@ + label_stem_text(block.callable) + ".integer_division_"@ + decimal_text(
        block.idx as nat,
    ) + "_"@ + decimal_text(sequence) + "_"@ + suffix
}

/// The next division label of a block, taking the next sequence number.
pub fn next_integer_division_label(block: BlockId, sequence: &mut usize, suffix: &str) -> (r: Label)
    requires
        *old(sequence) < usize::MAX,
    ensures
        *final(sequence) == *old(sequence) + 1,
        r.text@ == division_label_text(block, *old(sequence) as nat, suffix@),
{
    let number = *sequence;
    *sequence = number + 1;
    let mut text = String::from_str(".Lska.");
    let stem = callable(block.callable());
    text.append(stem.as_str());
    text.append(".integer_division_");
    let block_digits = decimal(block.index() as u64);
    text.append(block_digits.as_str());
    text.append("_");
    let digits = decimal(number as u64);
    text.append(digits.as_str());
    text.append("_");
    text.append(suffix);
    Label::new(text)
}

/// The remainder moves from `rdx` to `rax`.
pub open spec fn remainder_line() -> Seq<char> {
    line_text(
        Instruction::Move {
            source: Operand::Register(Register::Rdx),
            destination: Operand::Register(Register::Rax),
        },
    )
}

/// Unsigned division of `rax` by `rcx`: `div` on a zero-extended dividend,
/// which cannot overflow.
pub open spec fn unsigned_division_lines(kind: MirIntegerDivisionKind) -> Seq<Seq<char>> {
    seq![
        line_text(
            Instruction::Bitwise {
                operation: BitwiseOperation::Xor,
                source: Register::Rdx,
                destination: Register::Rdx,
            },
        ),
        line_text(
            Instruction::IntegerDivide {
                flavor: IntegerDivideFlavor::Unsigned,
                divisor: Register::Rcx,
            },
        ),
    ] + if kind == MirIntegerDivisionKind::Remainder {
        seq![remainder_line()]
    } else {
        Seq::empty()
    }
}

/// Signed floor division of `rax` by `rcx`. The pair `i64::MIN / -1`,
/// which `idiv` traps on, yields `i64::MIN` and remainder zero directly.
/// Otherwise `idiv` truncates toward zero, and when a nonzero remainder and
/// the divisor have opposite signs the quotient decreases by one and the
/// remainder gains the divisor.
pub open spec fn signed_division_lines(
    kind: MirIntegerDivisionKind,
    ordinary: Seq<char>,
    correction_done: Seq<char>,
    result_ready: Seq<char>,
) -> Seq<Seq<char>> {
    seq![
        line_text(
            Instruction::MoveImmediate64 { bits: 0x8000_0000_0000_0000, destination: Register::R11 },
        ),
        line_text(Instruction::Compare { source: Register::R11, destination: Register::Rax }),
        one_operand_line("jne"@, ordinary),
        line_text(
            Instruction::MoveImmediate64 { bits: 0xffff_ffff_ffff_ffff, destination: Register::R11 },
        ),
        line_text(Instruction::Compare { source: Register::R11, destination: Register::Rcx }),
        one_operand_line("jne"@, ordinary),
        line_text(
            Instruction::MoveImmediate64 {
                bits: if kind == MirIntegerDivisionKind::Quotient {
                    0x8000_0000_0000_0000
                } else {
                    0
                },
                destination: Register::Rax,
            },
        ),
        one_operand_line("jmp"@, result_ready),
        label_text_line(ordinary),
        line_text(Instruction::SignExtendDividend),
        line_text(
            Instruction::IntegerDivide { flavor: IntegerDivideFlavor::Signed, divisor: Register::Rcx },
        ),
        line_text(Instruction::Test(Register::Rdx)),
        one_operand_line("je"@, correction_done),
        line_text(
            Instruction::Move {
                source: Operand::Register(Register::Rdx),
                destination: Operand::Register(Register::R11),
            },
        ),
        line_text(
            Instruction::Bitwise {
                operation: BitwiseOperation::Xor,
                source: Register::Rcx,
                destination: Register::R11,
            },
        ),
        one_operand_line("jns"@, correction_done),
        line_text(Instruction::MoveImmediate64 { bits: 1, destination: Register::R10 }),
        line_text(Instruction::Subtract { source: Register::R10, destination: Register::Rax }),
        line_text(Instruction::Add { source: Register::Rcx, destination: Register::Rdx }),
        label_text_line(correction_done),
    ] + (if kind == MirIntegerDivisionKind::Remainder {
        seq![remainder_line()]
    } else {
        Seq::empty()
    }) + seq![label_text_line(result_ready)]
}

/// The lines of a checked integer division whose labels take the sequence
/// numbers from `sequence` on.
pub open spec fn division_lines(
    frame: &FrameLayout,
    block: BlockId,
    sequence: nat,
    operation: MirIntegerDivisionOperation,
    dividend: crate::identity::ValueId,
    divisor: crate::identity::ValueId,
    ty: MirType,
    destination: Operand,
) -> Seq<Seq<char>> {
    lines(integer_operands(frame, dividend, divisor)) + (if operation.operand
        == MirIntegerType::I64 {
        signed_division_lines(
            operation.kind,
            division_label_text(block, sequence, "ordinary"@),
            division_label_text(block, sequence + 1, "correction_done"@),
            division_label_text(block, sequence + 2, "result_ready"@),
        )
    } else {
        unsigned_division_lines(operation.kind)
    }) + lines(canonical_store(ty, destination))
}

fn move_remainder_to_result(output: &mut Vec<Instruction>)
    ensures
        old(output)@.len() <= final(output)@.len(),
        final(output)@.subrange(0, old(output)@.len() as int) == old(output)@,
        forall|i: int| 0 <= i < old(output)@.len() ==> #[trigger] final(output)@[i] == old(output)@[i],
        lines(final(output)@) == lines(old(output)@).push(remainder_line()),
{
    output.push(
        Instruction::Move {
            source: Operand::Register(Register::Rdx),
            destination: Operand::Register(Register::Rax),
        },
    );
}

fn select_unsigned_integer_division(kind: MirIntegerDivisionKind, output: &mut Vec<Instruction>)
    ensures
        old(output)@.len() <= final(output)@.len(),
        final(output)@.subrange(0, old(output)@.len() as int) == old(output)@,
        forall|i: int| 0 <= i < old(output)@.len() ==> #[trigger] final(output)@[i] == old(output)@[i],
        lines(final(output)@) == lines(old(output)@) + unsigned_division_lines(kind),
{
    let ghost before = lines(output@);
    output.push(
        Instruction::Bitwise {
            operation: BitwiseOperation::Xor,
            source: Register::Rdx,
            destination: Register::Rdx,
        },
    );
    output.push(
        Instruction::IntegerDivide { flavor: IntegerDivideFlavor::Unsigned, divisor: Register::Rcx },
    );
    if kind == MirIntegerDivisionKind::Remainder {
        move_remainder_to_result(output);
    }
    assert(lines(output@) =~= before + unsigned_division_lines(kind));
}

#[verifier::rlimit(40)]
fn select_signed_integer_division(
    block: BlockId,
    sequence: &mut usize,
    kind: MirIntegerDivisionKind,
    output: &mut Vec<Instruction>,
)
    requires
        *old(sequence) < usize::MAX - 3,
    ensures
        old(output)@.len() <= final(output)@.len(),
        final(output)@.subrange(0, old(output)@.len() as int) == old(output)@,
        forall|i: int| 0 <= i < old(output)@.len() ==> #[trigger] final(output)@[i] == old(output)@[i],
        *final(sequence) == *old(sequence) + 3,
        lines(final(output)@) == lines(old(output)@) + signed_division_lines(
            kind,
            division_label_text(block, *old(sequence) as nat, "ordinary"@),
            division_label_text(block, *old(sequence) as nat + 1, "correction_done"@),
            division_label_text(block, *old(sequence) as nat + 2, "result_ready"@),
        ),
{
    let ghost before = lines(output@);
    let ordinary = next_integer_division_label(block, sequence, "ordinary");
    let correction_done = next_integer_division_label(block, sequence, "correction_done");
    let result_ready = next_integer_division_label(block, sequence, "result_ready");
    output.push(
        Instruction::MoveImmediate64 { bits: 0x8000_0000_0000_0000, destination: Register::R11 },
    );
    output.push(Instruction::Compare { source: Register::R11, destination: Register::Rax });
    output.push(Instruction::JumpIfNotZero(ordinary.duplicate()));
    output.push(
        Instruction::MoveImmediate64 { bits: 0xffff_ffff_ffff_ffff, destination: Register::R11 },
    );
    output.push(Instruction::Compare { source: Register::R11, destination: Register::Rcx });
    output.push(Instruction::JumpIfNotZero(ordinary.duplicate()));
    output.push(
        Instruction::MoveImmediate64 {
            bits: match kind {
                MirIntegerDivisionKind::Quotient => 0x8000_0000_0000_0000,
                MirIntegerDivisionKind::Remainder => 0,
            },
            destination: Register::Rax,
        },
    );
    output.push(Instruction::Jump(result_ready.duplicate()));
    output.push(Instruction::Label(ordinary));
    output.push(Instruction::SignExtendDividend);
    output.push(
        Instruction::IntegerDivide { flavor: IntegerDivideFlavor::Signed, divisor: Register::Rcx },
    );
    output.push(Instruction::Test(Register::Rdx));
    output.push(Instruction::JumpIfEqual(correction_done.duplicate()));
    output.push(
        Instruction::Move {
            source: Operand::Register(Register::Rdx),
            destination: Operand::Register(Register::R11),
        },
    );
    output.push(
        Instruction::Bitwise {
            operation: BitwiseOperation::Xor,
            source: Register::Rcx,
            destination: Register::R11,
        },
    );
    output.push(Instruction::JumpIfNotSign(correction_done.duplicate()));
    output.push(Instruction::MoveImmediate64 { bits: 1, destination: Register::R10 });
    output.push(Instruction::Subtract { source: Register::R10, destination: Register::Rax });
    output.push(Instruction::Add { source: Register::Rcx, destination: Register::Rdx });
    output.push(Instruction::Label(correction_done));
    if kind == MirIntegerDivisionKind::Remainder {
        move_remainder_to_result(output);
    }
    output.push(Instruction::Label(result_ready));
}

/// Selects a checked floor division or remainder whose divisor the
/// verified check already proved nonzero.
pub fn select_integer_division(
    frame: &FrameLayout,
    block: BlockId,
    sequence: &mut usize,
    operation: MirIntegerDivisionOperation,
    dividend: crate::identity::ValueId,
    divisor: crate::identity::ValueId,
    ty: MirType,
    destination: Operand,
    output: &mut Vec<Instruction>,
)
    requires
        dividend.idx < frame.value_offsets@.len(),
        divisor.idx < frame.value_offsets@.len(),
        *old(sequence) < usize::MAX - 3,
    ensures
        old(output)@.len() <= final(output)@.len(),
        final(output)@.subrange(0, old(output)@.len() as int) == old(output)@,
        forall|i: int| 0 <= i < old(output)@.len() ==> #[trigger] final(output)@[i] == old(output)@[i],
        *final(sequence) == *old(sequence) + (if operation.operand == MirIntegerType::I64 {
            3int
        } else {
            0int
        }),
        lines(final(output)@) == lines(old(output)@) + division_lines(
            frame,
            block,
            *old(sequence) as nat,
            operation,
            dividend,
            divisor,
            ty,
            destination,
        ),
{
    let ghost before = lines(output@);
    load_integer_operands(frame, dividend, divisor, output);
    let ghost loaded = lines(output@);
    assert(loaded =~= before + lines(integer_operands(frame, dividend, divisor)));
    match operation.operand {
        MirIntegerType::I64 => select_signed_integer_division(block, sequence, operation.kind, output),
        MirIntegerType::U64 | MirIntegerType::U8 => select_unsigned_integer_division(
            operation.kind,
            output,
        ),
    }
    let ghost divided = lines(output@);
    let ghost start = output@;
    store_canonical_rax(ty, destination, output);
    assert(output@ == start + canonical_store(ty, destination));
    assert(lines(output@) =~= divided + lines(canonical_store(ty, destination)));
}

} // verus!
