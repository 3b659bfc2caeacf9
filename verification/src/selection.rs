//! Building blocks of instruction selection: operands, address
//! arithmetic, condition codes, generated labels, and the process entry.

use vstd::prelude::*;

use crate::body::{
    BlockId, MirArrayAnchorKind, MirComparisonOperand, MirComparisonPredicate, MirIntegerType,
    MirPrimitiveComparison,
};
use crate::error::{BackendError, Target, error_is};
use crate::identity::{ArrayTypeId, CallableId, FieldId, StorageId};
use crate::layout::DataLayout;
use crate::machine::{
    AssemblyFunction, BitwiseOperation, ByteRegister, ConditionCode, Instruction, Label, Operand,
    Register,
};
use crate::mir::{
    MirDefinition, MirPlace, MirPlaceBase, MirPlaceProjection, MirProgram, MirType, spec_array_type,
    spec_field, spec_local_storage, spec_static_field, static_fields_unique,
};
use crate::symbol::{callable, callable_text};
use crate::text::{decimal, decimal_text};

verus! {

pub open spec fn runtime_abi_marker_text() -> Seq<char> {
    "ska_rt_abi_marker"@
}

/// The symbol the process entry calls first, which links the runtime
/// library whose ABI the generated code expects.
pub fn runtime_abi_marker_symbol() -> (r: &'static str)
    ensures
        r@ == runtime_abi_marker_text(),
{
    "ska_rt_abi_marker"
}

/// The frame home of the destination object in generated lifecycle code.
pub const DESTINATION_HOME: i32 = -8;

/// The frame home of the source object in generated lifecycle code.
pub const SOURCE_HOME: i32 = -16;

/// A memory operand at a register plus a displacement.
pub fn memory(base: Register, displacement: i32) -> (r: Operand)
    ensures
        r == (Operand::Memory { base, displacement }),
{
    Operand::Memory { base, displacement }
}

/// A diagnostic of a generated helper, which belongs to no callable.
pub fn helper_error(message: &str) -> (r: BackendError)
    ensures
        error_is(r, None, message@),
{
    BackendError::new(Target::X86_64SysV, None, String::from_str(message))
}

/// A diagnostic of generated lifecycle code.
pub fn lifecycle_error(message: String) -> (r: BackendError)
    ensures
        error_is(r, None, message@),
{
    BackendError::new(Target::X86_64SysV, None, message)
}

/// The displacement of an array element's storage: the element offset
/// added to a displacement, when both fit signed 32 bits.
pub fn checked_array_displacement(displacement: i32, offset: usize, callable: CallableId) -> (r:
    Result<i32, BackendError>)
    ensures
        if offset <= i32::MAX && i32::MIN <= displacement + offset <= i32::MAX {
            r == Ok::<i32, BackendError>((displacement + offset) as i32)
        } else {
            r matches Err(error) && error_is(
                error,
                Some(callable),
                "array element projection exceeds x86-64 displacement limits"@,
            )
        },
{
    if offset <= 0x7fff_ffffusize {
        let small = offset as i32;
        match displacement.checked_add(small) {
            Some(total) => return Ok(total),
            None => {},
        }
    }
    Err(
        BackendError::new(
            Target::X86_64SysV,
            Some(callable),
            String::from_str("array element projection exceeds x86-64 displacement limits"),
        ),
    )
}

/// The same memory operand moved by `offset` bytes.
pub fn offset_operand(operand: Operand, offset: i32) -> (r: Result<Operand, BackendError>)
    ensures
        match operand {
            Operand::Memory { base, displacement } => if i32::MIN <= displacement + offset
                <= i32::MAX {
                r == Ok::<Operand, BackendError>(
                    Operand::Memory { base, displacement: (displacement + offset) as i32 },
                )
            } else {
                r matches Err(error) && error_is(
                    error,
                    None,
                    "array helper displacement exceeds x86-64"@,
                )
            },
            Operand::IndexedMemory { base, index, scale, displacement } => if i32::MIN
                <= displacement + offset <= i32::MAX {
                r == Ok::<Operand, BackendError>(
                    Operand::IndexedMemory {
                        base,
                        index,
                        scale,
                        displacement: (displacement + offset) as i32,
                    },
                )
            } else {
                r matches Err(error) && error_is(
                    error,
                    None,
                    "array helper displacement exceeds x86-64"@,
                )
            },
            Operand::Register(_) => r matches Err(error) && error_is(
                error,
                None,
                "array helper cannot offset a register operand"@,
            ),
        },
{
    match operand {
        Operand::Memory { base, displacement } => match displacement.checked_add(offset) {
            Some(displacement) => Ok(Operand::Memory { base, displacement }),
            None => Err(helper_error("array helper displacement exceeds x86-64")),
        },
        Operand::IndexedMemory { base, index, scale, displacement } => match displacement.checked_add(
            offset,
        ) {
            Some(displacement) => Ok(Operand::IndexedMemory { base, index, scale, displacement }),
            None => Err(helper_error("array helper displacement exceeds x86-64")),
        },
        Operand::Register(_) => Err(helper_error("array helper cannot offset a register operand")),
    }
}

/// `register * stride` added to `target`, then the element displacement.
pub open spec fn scaled_address(index: Register, target: Register, stride: u64, displacement: i32) -> Seq<
    Instruction,
> {
    seq![
        Instruction::Move {
            source: Operand::Register(index),
            destination: Operand::Register(Register::Rax),
        },
        Instruction::MoveImmediate64 { bits: stride, destination: Register::R11 },
        Instruction::Multiply { source: Register::R11, destination: Register::Rax },
        Instruction::Add { source: Register::Rax, destination: target },
        Instruction::LoadEffectiveAddress {
            source: Operand::Memory { base: target, displacement },
            destination: target,
        },
    ]
}

fn push_scaled_address(
    output: &mut Vec<Instruction>,
    index: Register,
    target: Register,
    stride: u64,
    displacement: i32,
)
    ensures
        final(output)@ == old(output)@ + scaled_address(index, target, stride, displacement),
{
    let ghost before = output@;
    output.push(Instruction::Move { source: Operand::Register(index), destination: Operand::Register(Register::Rax) });
    output.push(Instruction::MoveImmediate64 { bits: stride, destination: Register::R11 });
    output.push(Instruction::Multiply { source: Register::R11, destination: Register::Rax });
    output.push(Instruction::Add { source: Register::Rax, destination: target });
    output.push(Instruction::LoadEffectiveAddress { source: memory(target, displacement), destination: target });
    assert(output@ =~= before + scaled_address(index, target, stride, displacement));
}

/// Element addresses of a two-array helper: destination element `rdx`
/// of the array at `rdi`, and source element `rcx` of the array at `rsi`.
pub fn materialize_helper_element_addresses(stride: usize, displacement: i32) -> (r: Vec<
    Instruction,
>)
    ensures
        r@ == scaled_address(Register::Rdx, Register::Rdi, stride as u64, displacement)
            + scaled_address(Register::Rcx, Register::Rsi, stride as u64, displacement),
{
    let mut instructions: Vec<Instruction> = Vec::new();
    push_scaled_address(&mut instructions, Register::Rdx, Register::Rdi, stride as u64, displacement);
    push_scaled_address(&mut instructions, Register::Rcx, Register::Rsi, stride as u64, displacement);
    assert(instructions@ =~= scaled_address(Register::Rdx, Register::Rdi, stride as u64, displacement)
        + scaled_address(Register::Rcx, Register::Rsi, stride as u64, displacement));
    instructions
}

/// The address of element `rsi` of the array at `rdi`.
pub fn materialize_destroy_element_address(stride: usize, displacement: i32) -> (r: Vec<
    Instruction,
>)
    ensures
        r@ == scaled_address(Register::Rsi, Register::Rdi, stride as u64, displacement),
{
    let mut instructions: Vec<Instruction> = Vec::new();
    push_scaled_address(&mut instructions, Register::Rsi, Register::Rdi, stride as u64, displacement);
    assert(instructions@ =~= scaled_address(Register::Rsi, Register::Rdi, stride as u64, displacement));
    instructions
}

/// Anchors that keep a shared owner alive, as opposed to inline storage.
pub fn is_shared_anchor(kind: MirArrayAnchorKind) -> (r: bool)
    ensures
        r == (kind is StableSharedOwner || kind is CopiedSharedOwner || kind is AdoptedSharedOwner
            || kind is SecuredOptionalSharedOwner),
{
    matches!(
        kind,
        MirArrayAnchorKind::StableSharedOwner
        | MirArrayAnchorKind::CopiedSharedOwner
        | MirArrayAnchorKind::AdoptedSharedOwner
        | MirArrayAnchorKind::SecuredOptionalSharedOwner
    )
}

/// The condition of an ordering comparison: signed for `i64`, unsigned for
/// the unsigned integers.
pub fn ordering_condition(
    operand: MirComparisonOperand,
    signed: ConditionCode,
    unsigned: ConditionCode,
) -> (r: ConditionCode)
    requires
        operand is Integer,
    ensures
        r == (if operand == MirComparisonOperand::Integer(MirIntegerType::I64) {
            signed
        } else {
            unsigned
        }),
{
    match operand {
        MirComparisonOperand::Integer(MirIntegerType::I64) => signed,
        _ => unsigned,
    }
}

/// The flag condition that holds when an integer or boolean comparison is
/// true.
pub open spec fn spec_comparison_condition(operation: MirPrimitiveComparison) -> ConditionCode {
    let signed = operation.operand == MirComparisonOperand::Integer(MirIntegerType::I64);
    match operation.predicate {
        MirComparisonPredicate::Equal => ConditionCode::Equal,
        MirComparisonPredicate::NotEqual => ConditionCode::NotEqual,
        MirComparisonPredicate::LessThan => if signed {
            ConditionCode::SignedLess
        } else {
            ConditionCode::UnsignedBelow
        },
        MirComparisonPredicate::LessEqual => if signed {
            ConditionCode::SignedLessEqual
        } else {
            ConditionCode::UnsignedBelowEqual
        },
        MirComparisonPredicate::GreaterThan => if signed {
            ConditionCode::SignedGreater
        } else {
            ConditionCode::UnsignedAbove
        },
        MirComparisonPredicate::GreaterEqual => if signed {
            ConditionCode::SignedGreaterEqual
        } else {
            ConditionCode::UnsignedAboveEqual
        },
    }
}

/// Comparisons that a single flag condition decides: equality of any
/// non-float operand, and ordering of integers.
pub open spec fn single_condition_comparison(operation: MirPrimitiveComparison) -> bool {
    !(operation.operand is F64) && (operation.predicate is Equal || operation.predicate is NotEqual
        || operation.operand is Integer)
}

pub fn comparison_condition(operation: MirPrimitiveComparison) -> (r: ConditionCode)
    requires
        single_condition_comparison(operation),
    ensures
        r == spec_comparison_condition(operation),
{
    match operation.predicate {
        MirComparisonPredicate::Equal => ConditionCode::Equal,
        MirComparisonPredicate::NotEqual => ConditionCode::NotEqual,
        MirComparisonPredicate::LessThan => ordering_condition(
            operation.operand,
            ConditionCode::SignedLess,
            ConditionCode::UnsignedBelow,
        ),
        MirComparisonPredicate::LessEqual => ordering_condition(
            operation.operand,
            ConditionCode::SignedLessEqual,
            ConditionCode::UnsignedBelowEqual,
        ),
        MirComparisonPredicate::GreaterThan => ordering_condition(
            operation.operand,
            ConditionCode::SignedGreater,
            ConditionCode::UnsignedAbove,
        ),
        MirComparisonPredicate::GreaterEqual => ordering_condition(
            operation.operand,
            ConditionCode::SignedGreaterEqual,
            ConditionCode::UnsignedAboveEqual,
        ),
    }
}

/// The two flag conditions of an `f64` comparison after `ucomisd` and how
/// they combine: an unordered result sets parity, so every predicate but
/// inequality also requires no parity, and inequality accepts it.
pub fn floating_comparison_conditions(predicate: MirComparisonPredicate) -> (r: (
    ConditionCode,
    ConditionCode,
    BitwiseOperation,
))
    ensures
        r == match predicate {
            MirComparisonPredicate::Equal => (
                ConditionCode::Equal,
                ConditionCode::NotParity,
                BitwiseOperation::And,
            ),
            MirComparisonPredicate::NotEqual => (
                ConditionCode::NotEqual,
                ConditionCode::Parity,
                BitwiseOperation::Or,
            ),
            MirComparisonPredicate::LessThan => (
                ConditionCode::UnsignedBelow,
                ConditionCode::NotParity,
                BitwiseOperation::And,
            ),
            MirComparisonPredicate::LessEqual => (
                ConditionCode::UnsignedBelowEqual,
                ConditionCode::NotParity,
                BitwiseOperation::And,
            ),
            MirComparisonPredicate::GreaterThan => (
                ConditionCode::UnsignedAbove,
                ConditionCode::NotParity,
                BitwiseOperation::And,
            ),
            MirComparisonPredicate::GreaterEqual => (
                ConditionCode::UnsignedAboveEqual,
                ConditionCode::NotParity,
                BitwiseOperation::And,
            ),
        },
{
    match predicate {
        MirComparisonPredicate::Equal => (
            ConditionCode::Equal,
            ConditionCode::NotParity,
            BitwiseOperation::And,
        ),
        MirComparisonPredicate::NotEqual => (
            ConditionCode::NotEqual,
            ConditionCode::Parity,
            BitwiseOperation::Or,
        ),
        MirComparisonPredicate::LessThan => (
            ConditionCode::UnsignedBelow,
            ConditionCode::NotParity,
            BitwiseOperation::And,
        ),
        MirComparisonPredicate::LessEqual => (
            ConditionCode::UnsignedBelowEqual,
            ConditionCode::NotParity,
            BitwiseOperation::And,
        ),
        MirComparisonPredicate::GreaterThan => (
            ConditionCode::UnsignedAbove,
            ConditionCode::NotParity,
            BitwiseOperation::And,
        ),
        MirComparisonPredicate::GreaterEqual => (
            ConditionCode::UnsignedAboveEqual,
            ConditionCode::NotParity,
            BitwiseOperation::And,
        ),
    }
}

/// `-1.0` as IEEE-754 binary64 bits.
pub const NEGATIVE_ONE_BITS: u64 = 0xbff0_0000_0000_0000;

/// `2^8` as IEEE-754 binary64 bits.
pub const TWO_TO_8_BITS: u64 = 0x4070_0000_0000_0000;

/// `2^63` as IEEE-754 binary64 bits.
pub const TWO_TO_63_BITS: u64 = 0x43e0_0000_0000_0000;

/// `-2^63` as IEEE-754 binary64 bits.
pub const NEGATIVE_TWO_TO_63_BITS: u64 = 0xc3e0_0000_0000_0000;

/// `2^64` as IEEE-754 binary64 bits.
pub const TWO_TO_64_BITS: u64 = 0x43f0_0000_0000_0000;

/// The exclusive range, as binary64 bits, that an `f64` must lie in to
/// convert to an integer type after truncation, and the flag condition of a
/// value at or below the lower bound's failure edge.
#[derive(Clone, Copy, Debug, PartialEq, Eq, Structural)]
pub struct F64IntegerBounds {
    pub lower_bits: u64,
    pub lower_failure: ConditionCode,
    pub upper_bits: u64,
}

impl F64IntegerBounds {
    /// `i64` accepts `[-2^63, 2^63)`; the unsigned types accept `(-1, 2^n)`.
    pub open spec fn spec_for_target(target: MirIntegerType) -> Self {
        match target {
            MirIntegerType::I64 => F64IntegerBounds {
                lower_bits: NEGATIVE_TWO_TO_63_BITS,
                lower_failure: ConditionCode::UnsignedBelow,
                upper_bits: TWO_TO_63_BITS,
            },
            MirIntegerType::U64 => F64IntegerBounds {
                lower_bits: NEGATIVE_ONE_BITS,
                lower_failure: ConditionCode::UnsignedBelowEqual,
                upper_bits: TWO_TO_64_BITS,
            },
            MirIntegerType::U8 => F64IntegerBounds {
                lower_bits: NEGATIVE_ONE_BITS,
                lower_failure: ConditionCode::UnsignedBelowEqual,
                upper_bits: TWO_TO_8_BITS,
            },
        }
    }

    /// The bounds of a target type.
    pub fn for_target(target: MirIntegerType) -> (r: Self)
        ensures
            r == Self::spec_for_target(target),
    {
        match target {
            MirIntegerType::I64 => F64IntegerBounds {
                lower_bits: NEGATIVE_TWO_TO_63_BITS,
                lower_failure: ConditionCode::UnsignedBelow,
                upper_bits: TWO_TO_63_BITS,
            },
            MirIntegerType::U64 => F64IntegerBounds {
                lower_bits: NEGATIVE_ONE_BITS,
                lower_failure: ConditionCode::UnsignedBelowEqual,
                upper_bits: TWO_TO_64_BITS,
            },
            MirIntegerType::U8 => F64IntegerBounds {
                lower_bits: NEGATIVE_ONE_BITS,
                lower_failure: ConditionCode::UnsignedBelowEqual,
                upper_bits: TWO_TO_8_BITS,
            },
        }
    }
}

/// Loads the address held in a frame home, moved by `offset` when nonzero.
pub open spec fn home_address(home: i32, offset: i32, register: Register) -> Seq<Instruction> {
    seq![
        Instruction::Move {
            source: Operand::Memory { base: Register::Rbp, displacement: home },
            destination: Operand::Register(register),
        },
    ] + if offset != 0 {
        seq![
            Instruction::LoadEffectiveAddress {
                source: Operand::Memory { base: register, displacement: offset },
                destination: register,
            },
        ]
    } else {
        Seq::empty()
    }
}

pub fn load_home_address(home: i32, offset: i32, register: Register, output: &mut Vec<Instruction>)
    ensures
        final(output)@ == old(output)@ + home_address(home, offset, register),
{
    let ghost before = output@;
    output.push(Instruction::Move { source: memory(Register::Rbp, home), destination: Operand::Register(register) });
    if offset != 0 {
        output.push(Instruction::LoadEffectiveAddress { source: memory(register, offset), destination: register });
    }
    assert(output@ =~= before + home_address(home, offset, register));
}

/// Copies one scalar field from the source object to the destination
/// object of a generated lifecycle helper: a byte for `u8` and `bool`, a
/// quadword for the other scalars.
pub open spec fn scalar_copy(ty: MirType, offset: i32) -> Seq<Instruction> {
    let load = Operand::Memory { base: Register::R11, displacement: 0 };
    if ty is U8 || ty is Bool {
        home_address(SOURCE_HOME, offset, Register::R11) + seq![
            Instruction::LoadZeroExtendByte { source: load, destination: Register::Rax },
        ] + home_address(DESTINATION_HOME, offset, Register::R11) + seq![
            Instruction::MoveByte { source: ByteRegister::Al, destination: load },
        ]
    } else {
        home_address(SOURCE_HOME, offset, Register::R11) + seq![
            Instruction::Move { source: load, destination: Operand::Register(Register::Rax) },
        ] + home_address(DESTINATION_HOME, offset, Register::R11) + seq![
            Instruction::Move { source: Operand::Register(Register::Rax), destination: load },
        ]
    }
}

pub fn emit_scalar_copy(ty: MirType, offset: i32, output: &mut Vec<Instruction>)
    requires
        ty is U8 || ty is Bool || ty is I64 || ty is U64 || ty is F64,
    ensures
        final(output)@ == old(output)@ + scalar_copy(ty, offset),
{
    let ghost before = output@;
    load_home_address(SOURCE_HOME, offset, Register::R11, output);
    match ty {
        MirType::U8 | MirType::Bool => {
            output.push(Instruction::LoadZeroExtendByte { source: memory(Register::R11, 0), destination: Register::Rax });
            load_home_address(DESTINATION_HOME, offset, Register::R11, output);
            output.push(Instruction::MoveByte { source: ByteRegister::Al, destination: memory(Register::R11, 0) });
        },
        _ => {
            output.push(Instruction::Move { source: memory(Register::R11, 0), destination: Operand::Register(Register::Rax) });
            load_home_address(DESTINATION_HOME, offset, Register::R11, output);
            output.push(Instruction::Move { source: Operand::Register(Register::Rax), destination: memory(Register::R11, 0) });
        },
    }
    assert(output@ =~= before + scalar_copy(ty, offset));
}

pub open spec fn field_text(field: FieldId) -> Seq<char> {
    decimal_text(field.owner.idx as nat) + "."@ + decimal_text(field.idx as nat)
}

/// The byte offset of a field in its class, when it fits a displacement.
pub fn field_offset(data_layout: &DataLayout, field: FieldId) -> (r: Result<i32, BackendError>)
    ensures
        if field.owner.idx < data_layout.classes@.len() && field.idx
            < data_layout.classes@[field.owner.idx as int].fields@.len() {
            let offset = data_layout.classes@[field.owner.idx as int].fields@[field.idx as int].offset;
            if offset <= i32::MAX {
                r == Ok::<i32, BackendError>(offset as i32)
            } else {
                r matches Err(error) && error_is(
                    error,
                    None,
                    "field "@ + field_text(field) + " offset exceeds x86-64"@,
                )
            }
        } else {
            r matches Err(error) && error_is(
                error,
                None,
                "field "@ + field_text(field) + " has no target layout"@,
            )
        },
{
    let mut name = String::from_str("field ");
    let owner = decimal(field.owner.idx as u64);
    name.append(owner.as_str());
    name.append(".");
    let index = decimal(field.idx as u64);
    name.append(index.as_str());
    assert(name@ =~= "field "@ + field_text(field));
    match data_layout.field(field) {
        Some(layout) => {
            if layout.offset <= 0x7fff_ffffusize {
                Ok(layout.offset as i32)
            } else {
                name.append(" offset exceeds x86-64");
                assert(name@ =~= "field "@ + field_text(field) + " offset exceeds x86-64"@);
                Err(lifecycle_error(name))
            }
        },
        None => {
            name.append(" has no target layout");
            assert(name@ =~= "field "@ + field_text(field) + " has no target layout"@);
            Err(lifecycle_error(name))
        },
    }
}

/// The place of element `index` of the array at `owner`.
pub fn array_element_place(owner: MirPlace, array: ArrayTypeId, index: StorageId) -> (r: MirPlace)
    ensures
        r.base == owner.base,
        r.projections@ == owner.projections@.push(MirPlaceProjection::ArrayElement { array, index }),
{
    let mut place = owner;
    place.projections.push(MirPlaceProjection::ArrayElement { array, index });
    place
}

/// The declared type of a place's root; static lifecycle destinations are
/// rooted at their static field.
pub open spec fn lowering_root_type(program: &MirProgram, function: &MirDefinition, base: MirPlaceBase) -> Option<
    MirType,
> {
    match base {
        MirPlaceBase::StaticField(field) | MirPlaceBase::StaticLifecycleDestination(field) => match spec_static_field(
            program,
            field,
        ) {
            Some(declared) => Some(declared.ty),
            None => None,
        },
        _ => match spec_local_storage(base) {
            Some(id) => if id.idx < function.storage@.len() {
                Some(function.storage@[id.idx as int].ty)
            } else {
                None
            },
            None => None,
        },
    }
}

/// The type after the projections, every step being declared.
pub open spec fn lowering_projected_type(program: &MirProgram, ty: MirType, projections: Seq<MirPlaceProjection>) -> MirType
    decreases projections.len(),
{
    if projections.len() == 0 {
        ty
    } else {
        let _ = lowering_projected_type(program, ty, projections.drop_last());
        match projections.last() {
            MirPlaceProjection::Base(class) | MirPlaceProjection::OptionalPayload(class) => MirType::Class(class),
            MirPlaceProjection::Field(field) => spec_field(program, field).unwrap().ty,
            MirPlaceProjection::ArrayElement { array, .. } => spec_array_type(program, array).unwrap().element,
        }
    }
}

/// Every field and array projection of the place is declared.
pub open spec fn projections_declared(program: &MirProgram, projections: Seq<MirPlaceProjection>) -> bool {
    forall|i: int|
        0 <= i < projections.len() ==> match #[trigger] projections[i] {
            MirPlaceProjection::Field(field) => spec_field(program, field) is Some,
            MirPlaceProjection::ArrayElement { array, .. } => spec_array_type(program, array) is Some,
            _ => true,
        }
}

/// The array type an owning place holds.
pub fn array_for_place(program: &MirProgram, function: &MirDefinition, place: &MirPlace) -> (r:
    Result<ArrayTypeId, BackendError>)
    requires
        static_fields_unique(program),
        lowering_root_type(program, function, place.base) is Some,
        projections_declared(program, place.projections@),
    ensures
        match lowering_projected_type(
            program,
            lowering_root_type(program, function, place.base).unwrap(),
            place.projections@,
        ) {
            MirType::Array(array) => r == Ok::<ArrayTypeId, BackendError>(array),
            _ => r matches Err(error) && error_is(
                error,
                Some(function.callable),
                "array destruction owner is not an inline array"@,
            ),
        },
{
    let root = match place.base {
        MirPlaceBase::StaticField(field) | MirPlaceBase::StaticLifecycleDestination(field) => {
            match program.static_field(field) {
                Some(declared) => declared.ty,
                None => {
                    assert(false);
                    MirType::Unit
                },
            }
        },
        _ => match place.base.local_storage() {
            Some(id) => match function.storage(id) {
                Some(storage) => storage.ty,
                None => {
                    assert(false);
                    MirType::Unit
                },
            },
            None => {
                assert(false);
                MirType::Unit
            },
        },
    };
    let mut ty = root;
    let mut i: usize = 0;
    while i < place.projections.len()
        invariant
            i <= place.projections@.len(),
            projections_declared(program, place.projections@),
            ty == lowering_projected_type(program, root, place.projections@.take(i as int)),
        decreases place.projections@.len() - i,
    {
        assert(place.projections@.take((i + 1) as int).drop_last() =~= place.projections@.take(
            i as int,
        ));
        assert(place.projections@.take((i + 1) as int).last() == place.projections@[i as int]);
        let projection = place.projections[i];
        ty = match projection {
            MirPlaceProjection::Base(class) | MirPlaceProjection::OptionalPayload(class) => MirType::Class(class),
            MirPlaceProjection::Field(field) => match program.field(field) {
                Some(declared) => declared.ty,
                None => {
                    assert(false);
                    MirType::Unit
                },
            },
            MirPlaceProjection::ArrayElement { array, .. } => match program.array_type(array) {
                Some(declared) => declared.element,
                None => {
                    assert(false);
                    MirType::Unit
                },
            },
        };
        i = i + 1;
    }
    assert(place.projections@.take(place.projections@.len() as int) =~= place.projections@);
    match ty {
        MirType::Array(array) => Ok(array),
        _ => Err(
            BackendError::new(
                Target::X86_64SysV,
                Some(function.callable()),
                String::from_str("array destruction owner is not an inline array"),
            ),
        ),
    }
}

/// The local label stem of a callable: its symbol.
pub open spec fn label_stem_text(target: CallableId) -> Seq<char> {
    callable_text(target)
}

pub open spec fn block_label_text(block: BlockId) -> Seq<char> {
    ".Lska."@ + label_stem_text(block.callable) + ".block_"@ + decimal_text(block.idx as nat)
}

/// The label of a basic block, unique per callable and block.
pub fn block_label(block: BlockId) -> (r: Label)
    ensures
        r.text@ == block_label_text(block),
{
    let mut text = String::from_str(".Lska.");
    let stem = callable(block.callable());
    text.append(stem.as_str());
    text.append(".block_");
    let index = decimal(block.index() as u64);
    text.append(index.as_str());
    Label::new(text)
}

pub open spec fn epilogue_label_text(target: CallableId) -> Seq<char> {
    ".Lska."@ + label_stem_text(target) + ".epilogue"@
}

/// The label of a callable's shared epilogue.
pub fn epilogue_label(target: CallableId) -> (r: Label)
    ensures
        r.text@ == epilogue_label_text(target),
{
    let mut text = String::from_str(".Lska.");
    let stem = callable(target);
    text.append(stem.as_str());
    text.append(".epilogue");
    Label::new(text)
}

/// The C-compatible process entry: it calls the runtime marker and then
/// the entry function; the entry's `i64` result in `rax` becomes `main`'s
/// `int` result, whose low eight bits are the process exit status.
pub open spec fn entry_wrapper_is(function: AssemblyFunction, entry: CallableId) -> bool {
    &&& function.symbol@ == "main"@
    &&& function.exported
    &&& function.instructions@.len() == 6
    &&& function.instructions@[0] == Instruction::Push(Register::Rbp)
    &&& function.instructions@[1] == Instruction::Move {
        source: Operand::Register(Register::Rsp),
        destination: Operand::Register(Register::Rbp),
    }
    &&& function.instructions@[2] matches Instruction::Call(marker) && marker@
        == runtime_abi_marker_text()
    &&& function.instructions@[3] matches Instruction::Call(target) && target@ == callable_text(
        entry,
    )
    &&& function.instructions@[4] == Instruction::Leave
    &&& function.instructions@[5] == Instruction::Return
}

pub fn entry_wrapper(entry: CallableId) -> (r: AssemblyFunction)
    ensures
        entry_wrapper_is(r, entry),
{
    let mut instructions: Vec<Instruction> = Vec::new();
    instructions.push(Instruction::Push(Register::Rbp));
    instructions.push(Instruction::Move { source: Operand::Register(Register::Rsp), destination: Operand::Register(Register::Rbp) });
    instructions.push(Instruction::Call(String::from_str(runtime_abi_marker_symbol())));
    instructions.push(Instruction::Call(callable(entry)));
    instructions.push(Instruction::Leave);
    instructions.push(Instruction::Return);
    AssemblyFunction { symbol: String::from_str("main"), exported: true, instructions }
}

} // verus!
