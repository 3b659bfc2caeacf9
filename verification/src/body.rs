//! The instructions and control flow of executable MIR bodies, as far as
//! target legality and selection read them.

use vstd::prelude::*;

use crate::identity::{
    ArrayTypeId, CallableId, ClassId, FunctionId, InterfaceRequirementId, MethodId, StorageId,
    ValueId, VirtualSlotId,
};
use crate::mir::{MirPlace, MirPrimitiveType, MirSharedTarget};

verus! {

/// How a primitive cast converts its operand.
#[derive(Clone, Copy, Debug, PartialEq, Eq, Structural)]
pub enum MirPrimitiveCastKind {
    Identity,
    IntegerBits,
    BitReinterpretation,
    ToBool,
    FromBool,
    ToF64,
    CheckedF64ToInteger,
}

/// A verified cast between two primitive types.
#[derive(Clone, Copy, Debug, PartialEq, Eq, Structural)]
pub struct MirPrimitiveCast {
    pub source: MirPrimitiveType,
    pub target: MirPrimitiveType,
    pub kind: MirPrimitiveCastKind,
}

impl MirPrimitiveCast {
    pub fn kind(self) -> (r: MirPrimitiveCastKind)
        ensures
            r == self.kind,
    {
        self.kind
    }

    /// The type of the cast's result.
    pub fn result_type(self) -> (r: crate::mir::MirType)
        ensures
            r == self.target.spec_payload_type(),
    {
        self.target.payload_type()
    }
}

/// The range a finite `f64` must truncate into to convert to an integer.
#[derive(Clone, Copy, Debug, PartialEq, Eq, Structural)]
pub struct MirF64ToIntegerRange {
    pub target: MirIntegerType,
}

pub open spec fn integer_type(ty: MirIntegerType) -> crate::mir::MirType {
    match ty {
        MirIntegerType::I64 => crate::mir::MirType::I64,
        MirIntegerType::U64 => crate::mir::MirType::U64,
        MirIntegerType::U8 => crate::mir::MirType::U8,
    }
}

impl MirF64ToIntegerRange {
    pub fn result_type(self) -> (r: crate::mir::MirType)
        ensures
            r == integer_type(self.target),
    {
        match self.target {
            MirIntegerType::I64 => crate::mir::MirType::I64,
            MirIntegerType::U64 => crate::mir::MirType::U64,
            MirIntegerType::U8 => crate::mir::MirType::U8,
        }
    }
}

/// The range check of a checked `f64` to integer cast of the value held in
/// `source`.
#[derive(Clone, Copy, Debug, PartialEq, Eq, Structural)]
pub struct MirPrimitiveCastRangeCheck {
    pub source: StorageId,
    pub relation: MirF64ToIntegerRange,
}

/// The value an assignment computes.
#[derive(Clone, Debug)]
pub enum MirRvalueKind {
    Copy(ValueId),
    Load(MirPlace),
    ArrayLength { source: MirPlace },
    PrimitiveCast { operation: MirPrimitiveCast, operand: ValueId },
}

/// Which copy operation a copy instruction runs.
#[derive(Clone, Copy, Debug, PartialEq, Eq, Structural)]
pub enum MirSelectedCopyOperation {
    User(CallableId),
    Synthesized(ClassId),
}

/// Who owns the storage of an array allocation.
#[derive(Clone, Copy, Debug, PartialEq, Eq, Structural)]
pub enum MirArrayOwnership {
    Inline,
    Shared,
}

/// The failure an array operation checks for.
#[derive(Clone, Copy, Debug, PartialEq, Eq, Structural)]
pub enum MirArrayFailure {
    AllocationSize,
    InvalidSliceBounds,
    SliceLengthMismatch,
}

/// What an array position is checked against.
#[derive(Clone, Copy, Debug, PartialEq, Eq, Structural)]
pub enum MirArrayPositionKind {
    Element,
    SliceBound,
    RangeOffset,
}

/// How a default array element is produced.
#[derive(Clone, Copy, Debug, PartialEq, Eq, Structural)]
pub enum MirArrayDefaultElement {
    Primitive,
    OptionalAbsent,
    Class { class: ClassId, initializer: CallableId },
    ArrayEmpty(ArrayTypeId),
    SharedClass { class: ClassId, initializer: CallableId },
    SharedArrayEmpty(ArrayTypeId),
    SharedOptionalBoxAbsent(MirPrimitiveType),
}

/// How one array element is copied.
#[derive(Clone, Copy, Debug, PartialEq, Eq, Structural)]
pub enum MirArrayCopyElement {
    Primitive,
    OptionalPrimitive,
    Class { class: ClassId, operation: MirSelectedCopyOperation },
    OptionalClass { class: ClassId, operation: MirSelectedCopyOperation },
    Array(ArrayTypeId),
    Shared(MirSharedTarget),
    OptionalShared(MirSharedTarget),
}

/// How one array element is assigned.
#[derive(Clone, Copy, Debug, PartialEq, Eq, Structural)]
pub enum MirArrayAssignElement {
    Primitive,
    OptionalPrimitive,
    Class { class: ClassId, operation: MirSelectedCopyOperation },
    OptionalClass {
        class: ClassId,
        copy_constructor: MirSelectedCopyOperation,
        copy_assignment: MirSelectedCopyOperation,
    },
    Array(ArrayTypeId),
    Shared(MirSharedTarget),
    OptionalShared(MirSharedTarget),
}

/// How one array element is destroyed.
#[derive(Clone, Copy, Debug, PartialEq, Eq, Structural)]
pub enum MirArrayDestroyElement {
    Trivial,
    Class(ClassId),
    OptionalClass(ClassId),
    Array(ArrayTypeId),
    Shared(MirSharedTarget),
    OptionalShared(MirSharedTarget),
}

/// What keeps an array's storage alive while an anchor is held.
#[derive(Clone, Copy, Debug, PartialEq, Eq, Structural)]
pub enum MirArrayAnchorKind {
    InlineOwner,
    InlineBacking,
    StableSharedOwner,
    CopiedSharedOwner,
    AdoptedSharedOwner,
    SecuredOptionalSharedOwner,
}

/// One array operation.
#[derive(Clone, Debug)]
pub enum MirArrayInstruction {
    /// Allocates a backing of `length` elements into `backing`.
    Allocate {
        backing: StorageId,
        array: ArrayTypeId,
        length: ValueId,
        ownership: MirArrayOwnership,
        failure: MirArrayFailure,
    },
    /// Allocates a backing of a constant number of elements, whose
    /// initialized prefix `prefix` counts from zero.
    AllocateElements {
        backing: StorageId,
        prefix: StorageId,
        array: ArrayTypeId,
        length: u64,
        ownership: MirArrayOwnership,
        failure: MirArrayFailure,
    },
    InitializeElement { array: ArrayTypeId },
    /// Advances the initialized prefix `prefix` past an element that was
    /// initialized in place.
    CompleteElement { prefix: StorageId },
    /// Moves the finished inline backing `backing` into `destination`.
    Publish { backing: StorageId, destination: StorageId, array: ArrayTypeId },
    /// Stamps the finished shared backing `backing` with its metadata and one
    /// owner, and moves it into `destination`.
    PublishShared { backing: StorageId, destination: StorageId, array: ArrayTypeId },
    InitializeNext { array: ArrayTypeId, operation: MirArrayDefaultElement },
    CopyNext { array: ArrayTypeId, source: MirPlace, operation: MirArrayCopyElement },
    ElementAssign { array: ArrayTypeId, destination: MirPlace, operation: MirArrayAssignElement },
    Adopt { destination: MirPlace },
    Replace { destination: MirPlace },
    Release { owner: MirPlace },
    DestroyNext { owner: MirPlace, operation: MirArrayDestroyElement },
    AnchorBegin { owner: MirPlace, kind: MirArrayAnchorKind },
    AnchorEnd { anchor: StorageId },
    AliasBind { source: MirPlace },
    Normalize { owner: MirPlace, kind: MirArrayPositionKind },
    Offset { owner: MirPlace },
    Boundary { owner: MirPlace },
    /// Checks that the slice bounds in `start` and `end` are ordered.
    SliceBoundsCheck { start: StorageId, end: StorageId },
    SliceLengthCheck { source: MirPlace },
    SliceCopy { source: MirPlace },
    SliceAssignNext { destination: MirPlace, source: MirPlace },
}

/// A method call target.
#[derive(Clone, Copy, Debug, PartialEq, Eq, Structural)]
pub enum MirMethodCallTarget {
    Direct(MethodId),
    Virtual { selected: MethodId, slot: VirtualSlotId },
}

/// What a call instruction calls.
#[derive(Clone, Copy, Debug, PartialEq, Eq, Structural)]
pub enum MirCallTarget {
    Direct(FunctionId),
    Method(MirMethodCallTarget),
    Static(MethodId),
    Interface(InterfaceRequirementId),
}

/// What a shared allocation allocates.
#[derive(Clone, Copy, Debug, PartialEq, Eq, Structural)]
pub enum MirSharedAllocationTarget {
    Class(ClassId),
    OptionalBox(MirPrimitiveType),
}

/// Where an optional initialization takes its value from.
#[derive(Clone, Debug)]
pub enum MirOptionalSource {
    Absent,
    Value(ValueId),
    Copy(MirPlace),
}

/// One MIR instruction.
#[derive(Clone, Debug)]
pub enum MirInstruction {
    StorageLive(StorageId),
    StorageDead(StorageId),
    Assign { destination: ValueId, rvalue: MirRvalueKind },
    Store { destination: MirPlace, value: ValueId },
    Initialize { target: CallableId },
    /// Allocates uninitialized shared storage and keeps its handle in
    /// `allocation`.
    SharedAllocate { target: MirSharedAllocationTarget, allocation: StorageId },
    SharedInitialize { target: CallableId },
    /// Publishes an initialized allocation: its metadata and first owner.
    SharedPublish { allocation: StorageId },
    /// Moves the handle of a published allocation into an owner.
    SharedAdopt { allocation: StorageId, destination: StorageId },
    /// Adds an owner: the copy holds the same handle.
    SharedCopy { source: StorageId, destination: StorageId },
    /// Transfers ownership without a count change.
    SharedMove { source: StorageId, destination: StorageId },
    SharedRelease(StorageId),
    Call { target: MirCallTarget },
    Cleanup(StorageId),
    CopyConstruct { operation: MirSelectedCopyOperation },
    CopyAssign { operation: MirSelectedCopyOperation },
    OptionalInitialize { source: MirOptionalSource },
    EndFullExpression,
    Array(MirArrayInstruction),
}

/// Binds a storage entry to the immortal shared handle of a static literal
/// backing.
#[derive(Clone, Copy, Debug, PartialEq, Eq, Structural)]
pub struct MirSharedStatic {
    pub data: crate::identity::LiteralDataId,
    pub destination: StorageId,
}

/// A one-operand operation on a primitive value.
#[derive(Clone, Copy, Debug, PartialEq, Eq, Structural)]
pub enum MirUnaryOperation {
    NegateI64,
    NegateF64,
    LogicalNotBool,
    BitwiseComplement(MirIntegerType),
}

/// A bitwise combination of two integers.
#[derive(Clone, Copy, Debug, PartialEq, Eq, Structural)]
pub enum MirIntegerBitwiseOperation {
    And,
    Or,
    Xor,
}

/// A two-operand wrapping arithmetic operation on primitive values.
#[derive(Clone, Copy, Debug, PartialEq, Eq, Structural)]
pub enum MirBinaryOperation {
    AddI64,
    AddU64,
    AddU8,
    SubtractI64,
    SubtractU64,
    SubtractU8,
    MultiplyI64,
    MultiplyU64,
    MultiplyU8,
    AddF64,
    SubtractF64,
    MultiplyF64,
    DivideF64,
    IntegerBitwise { operation: MirIntegerBitwiseOperation, operand: MirIntegerType },
}

#[derive(Clone, Copy, Debug, PartialEq, Eq, Structural)]
pub enum MirShiftDirection {
    Left,
    Right,
}

/// How a right shift fills the vacated high bits.
#[derive(Clone, Copy, Debug, PartialEq, Eq, Structural)]
pub enum MirRightShiftFlavor {
    /// Copies of the sign bit, for signed operands.
    Arithmetic,
    /// Zeros, for unsigned operands.
    Logical,
}

/// A checked shift of an integer operand.
#[derive(Clone, Copy, Debug, PartialEq, Eq, Structural)]
pub struct MirShiftOperation {
    pub direction: MirShiftDirection,
    pub operand: MirIntegerType,
}

pub open spec fn spec_right_shift_flavor(operation: MirShiftOperation) -> Option<
    MirRightShiftFlavor,
> {
    match operation.direction {
        MirShiftDirection::Left => None,
        MirShiftDirection::Right => Some(
            if operation.operand == MirIntegerType::I64 {
                MirRightShiftFlavor::Arithmetic
            } else {
                MirRightShiftFlavor::Logical
            },
        ),
    }
}

pub open spec fn spec_shift_width(operation: MirShiftOperation) -> u64 {
    if operation.operand == MirIntegerType::U8 {
        8
    } else {
        64
    }
}

impl MirShiftOperation {
    /// The flavor of a right shift; left shifts have none.
    pub fn right_shift_flavor(self) -> (r: Option<MirRightShiftFlavor>)
        ensures
            r == spec_right_shift_flavor(self),
    {
        match self.direction {
            MirShiftDirection::Left => None,
            MirShiftDirection::Right => Some(
                match self.operand {
                    MirIntegerType::I64 => MirRightShiftFlavor::Arithmetic,
                    _ => MirRightShiftFlavor::Logical,
                },
            ),
        }
    }

    /// The bit width of the operand: counts must stay below it.
    pub fn width(self) -> (r: u64)
        ensures
            r == spec_shift_width(self),
    {
        match self.operand {
            MirIntegerType::U8 => 8,
            _ => 64,
        }
    }
}

/// The range check of a shift count held in `count`.
#[derive(Clone, Copy, Debug, PartialEq, Eq, Structural)]
pub struct MirShiftCountCheck {
    pub count: StorageId,
    pub operation: MirShiftOperation,
}

/// Whether an integer division yields the quotient or the remainder.
#[derive(Clone, Copy, Debug, PartialEq, Eq, Structural)]
pub enum MirIntegerDivisionKind {
    Quotient,
    Remainder,
}

/// A floor division of integers with a nonzero divisor.
#[derive(Clone, Copy, Debug, PartialEq, Eq, Structural)]
pub struct MirIntegerDivisionOperation {
    pub kind: MirIntegerDivisionKind,
    pub operand: MirIntegerType,
}

/// The zero check of a divisor held in `divisor`.
#[derive(Clone, Copy, Debug, PartialEq, Eq, Structural)]
pub struct MirIntegerDivisorCheck {
    pub divisor: StorageId,
}

/// Why execution stops.
#[derive(Clone, Copy, Debug, PartialEq, Eq, Structural)]
pub enum MirTerminationReason {
    ObjectCastFailure,
    OptionalAccessFailure,
    OptionalGuardOverflow,
    OptionalPinnedMutation,
    ArrayAllocationFailure,
    ArrayIndexOutOfBounds,
    ArrayInvalidSliceBounds,
    ArraySliceLengthMismatch,
    ShiftCountOutOfRange,
    IntegerDivisionByZero,
    IntegerRemainderByZero,
}

/// The diagnostic spelling of a termination reason.
pub open spec fn reason_mnemonic(reason: MirTerminationReason) -> Seq<char> {
    match reason {
        MirTerminationReason::ObjectCastFailure => "object_cast_failure"@,
        MirTerminationReason::OptionalAccessFailure => "optional_access_failure"@,
        MirTerminationReason::OptionalGuardOverflow => "optional_guard_overflow"@,
        MirTerminationReason::OptionalPinnedMutation => "optional_pinned_mutation"@,
        MirTerminationReason::ArrayAllocationFailure => "array_allocation_failure"@,
        MirTerminationReason::ArrayIndexOutOfBounds => "array_index_out_of_bounds"@,
        MirTerminationReason::ArrayInvalidSliceBounds => "array_invalid_slice_bounds"@,
        MirTerminationReason::ArraySliceLengthMismatch => "array_slice_length_mismatch"@,
        MirTerminationReason::ShiftCountOutOfRange => "shift_count_out_of_range"@,
        MirTerminationReason::IntegerDivisionByZero => "integer_division_by_zero"@,
        MirTerminationReason::IntegerRemainderByZero => "integer_remainder_by_zero"@,
    }
}

impl MirTerminationReason {
    pub fn mnemonic(self) -> (r: &'static str)
        ensures
            r@ == reason_mnemonic(self),
    {
        match self {
            MirTerminationReason::ObjectCastFailure => "object_cast_failure",
            MirTerminationReason::OptionalAccessFailure => "optional_access_failure",
            MirTerminationReason::OptionalGuardOverflow => "optional_guard_overflow",
            MirTerminationReason::OptionalPinnedMutation => "optional_pinned_mutation",
            MirTerminationReason::ArrayAllocationFailure => "array_allocation_failure",
            MirTerminationReason::ArrayIndexOutOfBounds => "array_index_out_of_bounds",
            MirTerminationReason::ArrayInvalidSliceBounds => "array_invalid_slice_bounds",
            MirTerminationReason::ArraySliceLengthMismatch => "array_slice_length_mismatch",
            MirTerminationReason::ShiftCountOutOfRange => "shift_count_out_of_range",
            MirTerminationReason::IntegerDivisionByZero => "integer_division_by_zero",
            MirTerminationReason::IntegerRemainderByZero => "integer_remainder_by_zero",
        }
    }
}

/// How a block ends.
#[derive(Clone, Copy, Debug, PartialEq, Eq, Structural)]
pub enum MirTerminator {
    /// Returns, with the result value when the callable has one.
    Return { value: Option<ValueId> },
    /// Returns the shared owner held in `owner`.
    ReturnShared { owner: StorageId },
    /// Returns the optional shared owner held in `owner`.
    ReturnOptionalShared { owner: StorageId },
    Goto { target: BlockId },
    /// Continues at `true_target` when the boolean `condition` is nonzero.
    Branch { condition: ValueId, true_target: BlockId, false_target: BlockId },
    /// Continues at `success_target` when the count is below the width.
    ShiftCountCheck { check: MirShiftCountCheck, success_target: BlockId, failure_target: BlockId },
    /// Continues at `success_target` when the value is a number that
    /// truncates into the target range.
    PrimitiveCastRangeCheck {
        check: MirPrimitiveCastRangeCheck,
        success_target: BlockId,
        failure_target: BlockId,
    },
    /// Continues at `success_target` when the divisor is nonzero.
    IntegerDivisorCheck {
        check: MirIntegerDivisorCheck,
        success_target: BlockId,
        failure_target: BlockId,
    },
    /// Continues at `success_target` when the operation left a nonzero
    /// status in `r11`.
    ArrayOperationCheck { failure: MirArrayFailure, success_target: BlockId, failure_target: BlockId },
    /// Continues at `success_target` when the normalized position is valid.
    ArrayPositionCheck {
        position: StorageId,
        kind: MirArrayPositionKind,
        success_target: BlockId,
        failure_target: BlockId,
    },
    /// Runs `body_target` while `index` is below `length`.
    ArrayLoop { index: StorageId, length: StorageId, body_target: BlockId, complete_target: BlockId },
    Terminate { reason: MirTerminationReason },
    /// Continues at `success_target` with the present shared owner of the
    /// optional `source` retained into `destination`; an absent owner
    /// continues at `failure_target`.
    OptionalSharedUnwrap {
        source: StorageId,
        destination: StorageId,
        success_target: BlockId,
        failure_target: BlockId,
    },
    /// Continues at `success_target` with the payload of the present
    /// primitive optional `source` copied into `destination`; an absent
    /// optional continues at `failure_target`.
    OptionalUnwrap {
        source: StorageId,
        destination: StorageId,
        success_target: BlockId,
        failure_target: BlockId,
    },
    /// Begins a view of the present inline class optional `source`, counting
    /// one more view in its state; an absent optional continues at
    /// `absent_target`, a saturated count at `overflow_target`.
    BeginOptionalView {
        source: StorageId,
        success_target: BlockId,
        absent_target: BlockId,
        overflow_target: BlockId,
    },
    /// Continues at `success_target` when the inline class optional `source`
    /// is absent or present without a view, else at `failure_target`.
    CheckOptionalMutation { source: StorageId, success_target: BlockId, failure_target: BlockId },
}

/// The integer types of comparisons and checked conversions.
#[derive(Clone, Copy, Debug, PartialEq, Eq, Structural)]
pub enum MirIntegerType {
    I64,
    U64,
    U8,
}

/// The relation a primitive comparison tests.
#[derive(Clone, Copy, Debug, PartialEq, Eq, Structural)]
pub enum MirComparisonPredicate {
    Equal,
    NotEqual,
    LessThan,
    LessEqual,
    GreaterThan,
    GreaterEqual,
}

/// The operand type of a primitive comparison.
#[derive(Clone, Copy, Debug, PartialEq, Eq, Structural)]
pub enum MirComparisonOperand {
    Integer(MirIntegerType),
    F64,
    Bool,
}

/// A comparison of two primitive values.
#[derive(Clone, Copy, Debug, PartialEq, Eq, Structural)]
pub struct MirPrimitiveComparison {
    pub predicate: MirComparisonPredicate,
    pub operand: MirComparisonOperand,
}

/// A basic block of one callable.
#[derive(Clone, Copy, Debug, PartialEq, Eq, Structural)]
pub struct BlockId {
    pub callable: CallableId,
    pub idx: usize,
}

impl BlockId {
    pub fn callable(self) -> (r: CallableId)
        ensures
            r == self.callable,
    {
        self.callable
    }

    pub fn index(self) -> (r: usize)
        ensures
            r == self.idx,
    {
        self.idx
    }
}

/// A basic block.
#[derive(Clone, Debug)]
pub struct MirBlock {
    pub instructions: Vec<MirInstruction>,
    pub terminator: Option<MirTerminator>,
}

} // verus!
