//! Target-independent facts that the backend projects from its checked
//! layout and dispatch services for semantic planning.

use vstd::prelude::*;

use crate::identity::{
    ArrayTypeId, CallableId, ClassId, FieldId, InterfaceId, InterfaceRequirementId, MethodId,
    VirtualSlotId,
};
use crate::mir::MirPrimitiveType;

verus! {

/// A type as semantic planning names it.
#[derive(Clone, Copy, Debug, PartialEq, Eq, Structural)]
pub enum SemanticType {
    I64,
    U64,
    U8,
    F64,
    Bool,
    Unit,
    Obj,
    Class(ClassId),
    Interface(InterfaceId),
    Shared(SharedTarget),
    OptionalShared(SharedTarget),
    OptionalPrimitive(MirPrimitiveType),
    OptionalClass(ClassId),
    Array(ArrayTypeId),
}

/// What a shared handle points at.
#[derive(Clone, Copy, Debug, PartialEq, Eq, Structural)]
pub enum SharedTarget {
    Obj,
    Class(ClassId),
    Interface(InterfaceId),
    Array(ArrayTypeId),
    OptionalBox(MirPrimitiveType),
}

/// What an object view can be.
#[derive(Clone, Copy, Debug, PartialEq, Eq, Structural)]
pub enum ObjectViewTarget {
    Class(ClassId),
    Interface(InterfaceId),
    Obj,
}

/// Which copy operation runs.
#[derive(Clone, Copy, Debug, PartialEq, Eq, Structural)]
pub enum SelectedCopy {
    User(CallableId),
    Synthesized(ClassId),
}

/// One step of a class's destruction plan.
#[derive(Clone, Copy, Debug, PartialEq, Eq, Structural)]
pub enum DestructionStepFact {
    UserBody(ClassId),
    Field(FieldId),
    SharedField(FieldId),
    OptionalSharedField(FieldId),
    OptionalClassField(FieldId),
    Base(ClassId),
}

/// How a default array element is produced.
#[derive(Clone, Copy, Debug, PartialEq, Eq, Structural)]
pub enum ArrayDefaultElementFact {
    Primitive,
    OptionalAbsent,
    Class { class: ClassId, initializer: CallableId },
    ArrayEmpty(ArrayTypeId),
    SharedClass { class: ClassId, initializer: CallableId },
    SharedArrayEmpty(ArrayTypeId),
    SharedOptionalBoxAbsent(MirPrimitiveType),
}

/// How one array element is copied.
#[derive(Clone, Copy, Debug, PartialEq, Eq, Structural)]
pub enum ArrayCopyElementFact {
    Primitive,
    OptionalPrimitive,
    Class { class: ClassId, operation: SelectedCopy },
    OptionalClass { class: ClassId, operation: SelectedCopy },
    Array(ArrayTypeId),
    Shared(SharedTarget),
    OptionalShared(SharedTarget),
}

/// How one array element is assigned.
#[derive(Clone, Copy, Debug, PartialEq, Eq, Structural)]
pub enum ArrayAssignElementFact {
    Primitive,
    OptionalPrimitive,
    Class { class: ClassId, operation: SelectedCopy },
    OptionalClass { class: ClassId, copy_constructor: SelectedCopy, copy_assignment: SelectedCopy },
    Array(ArrayTypeId),
    Shared(SharedTarget),
    OptionalShared(SharedTarget),
}

/// How one array element is destroyed.
#[derive(Clone, Copy, Debug, PartialEq, Eq, Structural)]
pub enum ArrayDestroyElementFact {
    Trivial,
    Class(ClassId),
    OptionalClass(ClassId),
    Array(ArrayTypeId),
    Shared(SharedTarget),
    OptionalShared(SharedTarget),
}

/// Whether values of a type occupy addressable storage.
#[derive(Clone, Copy, Debug, PartialEq, Eq, Structural)]
pub enum LayoutDisposition {
    Addressable,
    ElidedUnit,
    ElidedMetadata,
}

/// The size and alignment of a type, or why it has no storage.
#[derive(Clone, Copy, Debug, PartialEq, Eq, Structural)]
pub struct LayoutFact {
    pub size: usize,
    pub alignment: usize,
    pub disposition: LayoutDisposition,
}

/// The identity of a semantic type layout in the planner's layout pool.
#[derive(Clone, Copy, Debug, PartialEq, Eq, Structural)]
pub struct LayoutId {
    pub idx: usize,
}

/// The identity of a callable signature in the planner's signature pool.
#[derive(Clone, Copy, Debug, PartialEq, Eq, Structural)]
pub struct SignatureId {
    pub idx: usize,
}

/// The pool layout of one semantic type.
#[derive(Clone, Copy, Debug, PartialEq, Eq, Structural)]
pub struct TypeLayoutBinding {
    pub ty: SemanticType,
    pub layout: LayoutId,
}

/// The layout and offset of one class field.
#[derive(Clone, Copy, Debug, PartialEq, Eq, Structural)]
pub struct FieldLayoutFact {
    pub field: FieldId,
    pub ty: SemanticType,
    pub layout: LayoutId,
    pub offset: usize,
}

/// The direct base subobject of a class and its offset.
#[derive(Clone, Copy, Debug, PartialEq, Eq, Structural)]
pub struct BaseLayoutFact {
    pub class: ClassId,
    pub offset: usize,
}

/// The size of a shared allocation and where its payload begins.
#[derive(Clone, Copy, Debug, PartialEq, Eq, Structural)]
pub struct SharedAllocationLayout {
    pub byte_count: u64,
    pub payload_offset: usize,
}

/// The layout facts of one class.
#[derive(Clone, Debug, PartialEq, Eq)]
pub struct ClassLayoutFact {
    pub class: ClassId,
    pub exact_layout: LayoutId,
    pub complete_layout: LayoutId,
    pub base: Option<BaseLayoutFact>,
    pub fields: Vec<FieldLayoutFact>,
    pub shared_allocation: SharedAllocationLayout,
    pub destruction: Vec<DestructionStepFact>,
}

/// The layout facts of one array type.
#[derive(Clone, Copy, Debug, PartialEq, Eq, Structural)]
pub struct ArrayLayoutFact {
    pub array: ArrayTypeId,
    pub descriptor_layout: LayoutId,
    pub element: SemanticType,
    pub element_layout: LayoutId,
    pub element_offset: usize,
    pub shared_element_offset: usize,
    pub stride: usize,
    pub maximum_length: u64,
    pub shared_maximum_length: u64,
}

/// One virtual family: its slot and member methods.
#[derive(Clone, Debug, PartialEq, Eq)]
pub struct VirtualFamilyFact {
    pub slot: VirtualSlotId,
    pub members: Vec<MethodId>,
}

/// One interface requirement and its signature.
#[derive(Clone, Copy, Debug, PartialEq, Eq, Structural)]
pub struct InterfaceRequirementFact {
    pub requirement: InterfaceRequirementId,
    pub signature: SignatureId,
}

/// One interface and its requirements.
#[derive(Clone, Debug, PartialEq, Eq)]
pub struct InterfaceFact {
    pub interface: InterfaceId,
    pub requirements: Vec<InterfaceRequirementFact>,
}

/// The method that implements one requirement.
#[derive(Clone, Copy, Debug, PartialEq, Eq, Structural)]
pub struct RequirementImplementationFact {
    pub requirement: InterfaceRequirementId,
    pub method: MethodId,
}

/// One class's conformance to an interface.
#[derive(Clone, Debug, PartialEq, Eq)]
pub struct ConformanceFact {
    pub class: ClassId,
    pub interface: InterfaceId,
    pub implementations: Vec<RequirementImplementationFact>,
}

/// What a dispatch table entry holds.
#[derive(Clone, Copy, Debug, PartialEq, Eq, Structural)]
pub enum MethodSlot {
    Virtual(VirtualSlotId),
    Interface(InterfaceRequirementId),
    Finalizer,
}

/// A dispatch table entry: its position and byte offset.
#[derive(Clone, Copy, Debug, PartialEq, Eq, Structural)]
pub struct MethodSlotFact {
    pub slot: MethodSlot,
    pub index: usize,
    pub byte_offset: usize,
}

/// The dispatch table entries of one class.
#[derive(Clone, Debug, PartialEq, Eq)]
pub struct ClassDispatchFact {
    pub class: ClassId,
    pub targets: Vec<Option<CallableId>>,
}

/// One part of an object view.
#[derive(Clone, Copy, Debug, PartialEq, Eq, Structural)]
pub enum ObjectComponent {
    StaticAddress,
    CompleteAddress,
    DynamicMetadata,
}

/// One object view target: its parts and the classes that provide it.
#[derive(Clone, Debug, PartialEq, Eq)]
pub struct ObjectViewFact {
    pub target: ObjectViewTarget,
    pub components: Vec<ObjectComponent>,
    pub members: Vec<ClassId>,
}

/// The header of a shared allocation.
#[derive(Clone, Copy, Debug, PartialEq, Eq, Structural)]
pub struct SharedHeaderLayout {
    pub handle_layout: LayoutId,
    pub owner_count_offset: usize,
    pub dynamic_metadata_offset: usize,
    pub header_size: usize,
}

/// Everything semantic planning reads of the target's layouts and dispatch.
#[derive(Clone, Debug, PartialEq, Eq)]
pub struct SemanticFacts {
    pub types: Vec<TypeLayoutBinding>,
    pub shared_header: Option<SharedHeaderLayout>,
    pub classes: Vec<ClassLayoutFact>,
    pub arrays: Vec<ArrayLayoutFact>,
    pub object_views: Vec<ObjectViewFact>,
    pub virtual_families: Vec<VirtualFamilyFact>,
    pub interfaces: Vec<InterfaceFact>,
    pub conformances: Vec<ConformanceFact>,
    pub method_slots: Vec<MethodSlotFact>,
    pub dispatch_tables: Vec<ClassDispatchFact>,
}

} // verus!
