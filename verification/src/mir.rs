//! The verified mid-level program model that the x86-64 backend consumes.
//!
//! Only the shape that the backend reads is modelled here: nominal types,
//! class and array declarations, dispatch families, interfaces, literal
//! backings, and the storage and places of executable definitions.

use vstd::prelude::*;

use crate::body::MirBlock;
use crate::identity::{
    ArrayTypeId, CallableId, ClassId, FieldId, FunctionId, InterfaceId, InterfaceRequirementId,
    MethodId, StaticFieldId, StorageId, VirtualSlotId,
};

verus! {

/// Scalar payloads that a primitive optional can hold.
#[derive(Clone, Copy, Debug, PartialEq, Eq, Structural)]
pub enum MirPrimitiveType {
    I64,
    U64,
    U8,
    F64,
    Bool,
}

impl MirPrimitiveType {
    pub open spec fn spec_payload_type(self) -> MirType {
        match self {
            MirPrimitiveType::I64 => MirType::I64,
            MirPrimitiveType::U64 => MirType::U64,
            MirPrimitiveType::U8 => MirType::U8,
            MirPrimitiveType::F64 => MirType::F64,
            MirPrimitiveType::Bool => MirType::Bool,
        }
    }

    /// The non-optional type of the payload.
    pub fn payload_type(self) -> (r: MirType)
        ensures
            r == self.spec_payload_type(),
    {
        match self {
            MirPrimitiveType::I64 => MirType::I64,
            MirPrimitiveType::U64 => MirType::U64,
            MirPrimitiveType::U8 => MirType::U8,
            MirPrimitiveType::F64 => MirType::F64,
            MirPrimitiveType::Bool => MirType::Bool,
        }
    }
}

/// What a shared (reference-counted) handle points at.
#[derive(Clone, Copy, Debug, PartialEq, Eq, Structural)]
pub enum MirSharedTarget {
    Obj,
    Class(ClassId),
    Interface(InterfaceId),
    Array(ArrayTypeId),
    OptionalBox(MirPrimitiveType),
}

impl MirSharedTarget {
    pub open spec fn spec_ty(self) -> MirType {
        match self {
            MirSharedTarget::Obj => MirType::Obj,
            MirSharedTarget::Class(class) => MirType::Class(class),
            MirSharedTarget::Interface(interface) => MirType::Interface(interface),
            MirSharedTarget::Array(array) => MirType::Array(array),
            MirSharedTarget::OptionalBox(payload) => MirType::OptionalPrimitive(payload),
        }
    }

    /// The type of the pointee.
    pub fn ty(self) -> (r: MirType)
        ensures
            r == self.spec_ty(),
    {
        match self {
            MirSharedTarget::Obj => MirType::Obj,
            MirSharedTarget::Class(class) => MirType::Class(class),
            MirSharedTarget::Interface(interface) => MirType::Interface(interface),
            MirSharedTarget::Array(array) => MirType::Array(array),
            MirSharedTarget::OptionalBox(payload) => MirType::OptionalPrimitive(payload),
        }
    }
}

/// The target of an object view.
#[derive(Clone, Copy, Debug, PartialEq, Eq, Structural)]
pub enum MirViewTarget {
    Class(ClassId),
    Interface(InterfaceId),
    Obj,
}

/// Every type of the verified program model.
#[derive(Clone, Copy, Debug, PartialEq, Eq, Structural)]
pub enum MirType {
    I64,
    U64,
    U8,
    F64,
    Bool,
    Unit,
    Obj,
    Class(ClassId),
    Interface(InterfaceId),
    Shared(MirSharedTarget),
    OptionalShared(MirSharedTarget),
    OptionalPrimitive(MirPrimitiveType),
    OptionalClass(ClassId),
    Array(ArrayTypeId),
}

/// How a parameter is passed.
#[derive(Clone, Copy, Debug, PartialEq, Eq, Structural)]
pub enum MirParameterMode {
    Value,
    ReadOnlyAlias,
    MutableAlias,
}

/// One declared parameter.
#[derive(Clone, Copy, Debug, PartialEq, Eq, Structural)]
pub struct MirParameter {
    pub mode: MirParameterMode,
    pub ty: MirType,
}

impl MirParameter {
    pub fn value(ty: MirType) -> (r: Self)
        ensures
            r == (MirParameter { mode: MirParameterMode::Value, ty }),
    {
        MirParameter { mode: MirParameterMode::Value, ty }
    }

    pub fn read_only_alias(ty: MirType) -> (r: Self)
        ensures
            r == (MirParameter { mode: MirParameterMode::ReadOnlyAlias, ty }),
    {
        MirParameter { mode: MirParameterMode::ReadOnlyAlias, ty }
    }

    pub fn mutable_alias(ty: MirType) -> (r: Self)
        ensures
            r == (MirParameter { mode: MirParameterMode::MutableAlias, ty }),
    {
        MirParameter { mode: MirParameterMode::MutableAlias, ty }
    }

    /// By-value parameters of the given types, in order.
    pub fn values(types: &Vec<MirType>) -> (r: Vec<MirParameter>)
        ensures
            r@.len() == types@.len(),
            forall|i: int|
                0 <= i < types@.len() ==> #[trigger] r@[i] == (MirParameter {
                    mode: MirParameterMode::Value,
                    ty: types@[i],
                }),
    {
        let mut parameters: Vec<MirParameter> = Vec::new();
        let mut i: usize = 0;
        while i < types.len()
            invariant
                i <= types@.len(),
                parameters@.len() == i,
                forall|j: int|
                    0 <= j < i ==> #[trigger] parameters@[j] == (MirParameter {
                        mode: MirParameterMode::Value,
                        ty: types@[j],
                    }),
            decreases types@.len() - i,
        {
            parameters.push(MirParameter::value(types[i]));
            i = i + 1;
        }
        parameters
    }
}

/// A declared instance field.
#[derive(Clone, Copy, Debug, PartialEq, Eq, Structural)]
pub struct MirField {
    pub id: FieldId,
    pub ty: MirType,
}

/// One step of a class's verified destruction plan.
#[derive(Clone, Copy, Debug, PartialEq, Eq, Structural)]
pub enum MirDestructionStep {
    /// The user-written destructor body of the class.
    UserBody(ClassId),
    /// Destruction of one inline field.
    Field(FieldId),
    /// Release of one shared field.
    SharedField(FieldId),
    /// Release of one optional shared field, when present.
    OptionalSharedField(FieldId),
    /// Destruction of one optional class field, when present.
    OptionalClassField(FieldId),
    /// Destruction of the direct base subobject.
    Base(ClassId),
}

/// The method that implements one interface requirement.
#[derive(Clone, Copy, Debug, PartialEq, Eq, Structural)]
pub struct MirImplementation {
    pub requirement: InterfaceRequirementId,
    pub method: MethodId,
}

/// A class's conformance to one interface.
#[derive(Clone, Debug)]
pub struct MirConformance {
    pub interface: InterfaceId,
    pub implementations: Vec<MirImplementation>,
}

/// A class declaration.
#[derive(Clone, Debug)]
pub struct MirClass {
    pub id: ClassId,
    pub direct_base: Option<ClassId>,
    pub fields: Vec<MirField>,
    pub destruction: Vec<MirDestructionStep>,
    pub conformances: Vec<MirConformance>,
    /// How an object of the class is copy-constructed.
    pub copy_constructor: MirCopyCapability,
}

/// The copy of the direct base subobject that a class copy begins with.
#[derive(Clone, Copy, Debug, PartialEq, Eq, Structural)]
pub struct MirBaseCopy {
    pub base: ClassId,
    pub operation: crate::body::MirSelectedCopyOperation,
}

/// A user-written copy constructor, after the base copy.
#[derive(Clone, Copy, Debug, PartialEq, Eq, Structural)]
pub struct MirUserCopy {
    pub base: Option<MirBaseCopy>,
    pub operation: CallableId,
}

/// How one field is copied by a synthesized copy constructor.
#[derive(Clone, Copy, Debug, PartialEq, Eq, Structural)]
pub enum MirSynthesizedFieldCopy {
    Primitive { field: FieldId },
    OptionalPrimitive { field: FieldId, payload: MirPrimitiveType },
    Class { field: FieldId, operation: crate::body::MirSelectedCopyOperation },
    OptionalClass { field: FieldId, class: ClassId, operation: crate::body::MirSelectedCopyOperation },
    Array { field: FieldId, array: ArrayTypeId },
    Shared { field: FieldId },
    OptionalShared { field: FieldId },
}

impl MirSynthesizedFieldCopy {
    pub open spec fn spec_field(self) -> FieldId {
        match self {
            MirSynthesizedFieldCopy::Primitive { field } => field,
            MirSynthesizedFieldCopy::OptionalPrimitive { field, .. } => field,
            MirSynthesizedFieldCopy::Class { field, .. } => field,
            MirSynthesizedFieldCopy::OptionalClass { field, .. } => field,
            MirSynthesizedFieldCopy::Array { field, .. } => field,
            MirSynthesizedFieldCopy::Shared { field } => field,
            MirSynthesizedFieldCopy::OptionalShared { field } => field,
        }
    }

    /// The field the step copies.
    #[verifier::when_used_as_spec(spec_field)]
    pub fn field(self) -> (r: FieldId)
        ensures
            r == self.spec_field(),
    {
        match self {
            MirSynthesizedFieldCopy::Primitive { field } => field,
            MirSynthesizedFieldCopy::OptionalPrimitive { field, .. } => field,
            MirSynthesizedFieldCopy::Class { field, .. } => field,
            MirSynthesizedFieldCopy::OptionalClass { field, .. } => field,
            MirSynthesizedFieldCopy::Array { field, .. } => field,
            MirSynthesizedFieldCopy::Shared { field } => field,
            MirSynthesizedFieldCopy::OptionalShared { field } => field,
        }
    }
}

/// A compiler-synthesized copy constructor: the base copy, then each field.
#[derive(Clone, Debug)]
pub struct MirSynthesizedCopy {
    pub base: Option<MirBaseCopy>,
    pub fields: Vec<MirSynthesizedFieldCopy>,
}

/// Whether and how a class can be copy-constructed.
#[derive(Clone, Debug)]
pub enum MirCopyCapability {
    User(MirUserCopy),
    Synthesized(MirSynthesizedCopy),
    Unavailable,
}

/// The declared field of a class with the given identity, if any.
pub open spec fn spec_class_field(class: &MirClass, id: FieldId) -> Option<MirField> {
    if exists|k: int| 0 <= k < class.fields@.len() && (#[trigger] class.fields@[k]).id == id {
        Some(
            class.fields@[choose|k: int|
                0 <= k < class.fields@.len() && (#[trigger] class.fields@[k]).id == id],
        )
    } else {
        None
    }
}

/// Field identities of a class are unique.
pub open spec fn class_fields_unique(class: &MirClass) -> bool {
    forall|i: int, j: int|
        0 <= i < class.fields@.len() && 0 <= j < class.fields@.len()
            && #[trigger] class.fields@[i].id == #[trigger] class.fields@[j].id ==> i == j
}

impl MirClass {
    /// The declared field with the given identity.
    pub fn field(&self, id: FieldId) -> (r: Option<MirField>)
        requires
            class_fields_unique(self),
        ensures
            r == spec_class_field(self, id),
    {
        let mut k: usize = 0;
        while k < self.fields.len()
            invariant
                k <= self.fields@.len(),
                class_fields_unique(self),
                forall|m: int| 0 <= m < k ==> (#[trigger] self.fields@[m]).id != id,
            decreases self.fields@.len() - k,
        {
            if self.fields[k].id == id {
                proof {
                    assert(self.fields@[k as int].id == id);
                    let m = choose|m: int|
                        0 <= m < self.fields@.len() && (#[trigger] self.fields@[m]).id == id;
                    assert(self.fields@[m].id == self.fields@[k as int].id);
                }
                return Some(self.fields[k]);
            }
            k = k + 1;
        }
        None
    }
}

/// An array type declaration.
#[derive(Clone, Copy, Debug, PartialEq, Eq, Structural)]
pub struct MirArrayType {
    pub id: ArrayTypeId,
    pub element: MirType,
}

/// The members of one virtual family, which share one table slot.
#[derive(Clone, Debug)]
pub struct MirVirtualFamily {
    pub slot: VirtualSlotId,
    pub members: Vec<MethodId>,
}

/// One requirement of an interface and its declared parameters.
#[derive(Clone, Debug)]
pub struct MirInterfaceRequirement {
    pub id: InterfaceRequirementId,
    pub parameters: Vec<MirParameter>,
}

/// An interface declaration.
#[derive(Clone, Debug)]
pub struct MirInterface {
    pub id: InterfaceId,
    pub requirements: Vec<MirInterfaceRequirement>,
}

/// The bytes of one verified literal and the array type that views them.
#[derive(Clone, Debug)]
pub struct MirLiteralData {
    pub array: ArrayTypeId,
    pub bytes: Vec<u8>,
}

/// A static field declaration.
#[derive(Clone, Copy, Debug, PartialEq, Eq, Structural)]
pub struct MirStaticField {
    pub id: StaticFieldId,
    pub ty: MirType,
}

/// The role of one storage entry of a callable body.
#[derive(Clone, Copy, Debug, PartialEq, Eq, Structural)]
pub enum MirStorageKind {
    Local,
    Temporary,
    Parameter,
    Return,
    Receiver,
    Argument,
    SharedAllocation,
    AliasParameter(usize),
    CheckedView(usize),
    ArrayBacking,
    ArrayProduced,
    ArraySlice,
    ArrayAnchor(crate::body::MirArrayAnchorKind),
    ArrayAlias(usize),
}

/// One storage entry of a callable body.
#[derive(Clone, Copy, Debug, PartialEq, Eq, Structural)]
pub struct MirStorage {
    pub id: StorageId,
    pub kind: MirStorageKind,
    pub ty: MirType,
}

/// The root of a place.
#[derive(Clone, Copy, Debug, PartialEq, Eq, Structural)]
pub enum MirPlaceBase {
    Storage(StorageId),
    AliasParameter(StorageId),
    CheckedView(StorageId),
    ArrayAlias(StorageId),
    SharedPointee(StorageId),
    SharedAllocationPayload(StorageId),
    StaticField(StaticFieldId),
    StaticLifecycleDestination(StaticFieldId),
}

pub open spec fn spec_local_storage(base: MirPlaceBase) -> Option<StorageId> {
    match base {
        MirPlaceBase::Storage(id)
        | MirPlaceBase::AliasParameter(id)
        | MirPlaceBase::CheckedView(id)
        | MirPlaceBase::ArrayAlias(id)
        | MirPlaceBase::SharedPointee(id)
        | MirPlaceBase::SharedAllocationPayload(id) => Some(id),
        MirPlaceBase::StaticField(_) | MirPlaceBase::StaticLifecycleDestination(_) => None,
    }
}

impl MirPlaceBase {
    /// The local storage entry that roots the place, unless it is static.
    pub fn local_storage(self) -> (r: Option<StorageId>)
        ensures
            r == spec_local_storage(self),
    {
        match self {
            MirPlaceBase::Storage(id)
            | MirPlaceBase::AliasParameter(id)
            | MirPlaceBase::CheckedView(id)
            | MirPlaceBase::ArrayAlias(id)
            | MirPlaceBase::SharedPointee(id)
            | MirPlaceBase::SharedAllocationPayload(id) => Some(id),
            MirPlaceBase::StaticField(_) | MirPlaceBase::StaticLifecycleDestination(_) => None,
        }
    }
}

/// One step from a place to a part of it.
#[derive(Clone, Copy, Debug, PartialEq, Eq, Structural)]
pub enum MirPlaceProjection {
    Base(ClassId),
    Field(FieldId),
    OptionalPayload(ClassId),
    ArrayElement { array: ArrayTypeId, index: StorageId },
}

/// A memory location: a root and a path of projections.
#[derive(Clone, Debug)]
pub struct MirPlace {
    pub base: MirPlaceBase,
    pub projections: Vec<MirPlaceProjection>,
}

/// Where the complete object and dynamic metadata of an object view come
/// from: an exactly known object, the origin homes of an alias carrier, or
/// the header of a shared allocation.
#[derive(Clone, Debug)]
pub enum MirObjectOrigin {
    Exact { complete: MirPlace, dynamic_class: ClassId },
    Forwarded { carrier: StorageId },
    Shared { owner: StorageId },
}

/// An executable callable body with its storage and temporaries.
#[derive(Clone, Debug)]
pub struct MirDefinition {
    pub callable: CallableId,
    pub has_receiver: bool,
    pub storage: Vec<MirStorage>,
    pub values: Vec<MirType>,
    pub blocks: Vec<MirBlock>,
}

/// The parameter storage of a body, in declaration order: owned value
/// parameters and alias parameters.
pub open spec fn parameter_storages(storage: Seq<MirStorage>) -> Seq<StorageId>
    decreases storage.len(),
{
    if storage.len() == 0 {
        Seq::empty()
    } else {
        let before = parameter_storages(storage.drop_last());
        if storage.last().kind is Parameter || storage.last().kind is AliasParameter {
            before.push(storage.last().id)
        } else {
            before
        }
    }
}

/// The first storage entry of the given kind, which is `Return` or
/// `Receiver`.
pub open spec fn first_storage_of(storage: Seq<MirStorage>, receiver: bool) -> Option<StorageId>
    decreases storage.len(),
{
    if storage.len() == 0 {
        None
    } else {
        match first_storage_of(storage.drop_last(), receiver) {
            Some(found) => Some(found),
            None => if (receiver && storage.last().kind is Receiver) || (!receiver
                && storage.last().kind is Return) {
                Some(storage.last().id)
            } else {
                None
            },
        }
    }
}

proof fn lemma_first_storage_extends(storage: Seq<MirStorage>, receiver: bool, n: int)
    requires
        0 <= n <= storage.len(),
        first_storage_of(storage.take(n), receiver) is Some,
    ensures
        first_storage_of(storage, receiver) == first_storage_of(storage.take(n), receiver),
    decreases storage.len() - n,
{
    if n < storage.len() {
        assert(storage.take(n + 1).drop_last() =~= storage.take(n));
        lemma_first_storage_extends(storage, receiver, n + 1);
    } else {
        assert(storage.take(n) =~= storage);
    }
}

/// Storage entries sit at the index their id names.
pub open spec fn definition_ids_dense(definition: &MirDefinition) -> bool {
    forall|i: int|
        0 <= i < definition.storage@.len() ==> (#[trigger] definition.storage@[i]).id.idx == i
}

impl MirDefinition {
    pub fn callable(&self) -> (r: CallableId)
        ensures
            r == self.callable,
    {
        self.callable
    }

    /// The storage of every parameter, in declaration order.
    pub fn parameters(&self) -> (r: Vec<StorageId>)
        ensures
            r@ == parameter_storages(self.storage@),
    {
        let mut result: Vec<StorageId> = Vec::new();
        let mut i: usize = 0;
        while i < self.storage.len()
            invariant
                i <= self.storage@.len(),
                result@ == parameter_storages(self.storage@.take(i as int)),
            decreases self.storage@.len() - i,
        {
            assert(self.storage@.take((i + 1) as int).drop_last() =~= self.storage@.take(i as int));
            match self.storage[i].kind {
                MirStorageKind::Parameter | MirStorageKind::AliasParameter(_) => {
                    result.push(self.storage[i].id);
                },
                _ => {},
            }
            i = i + 1;
        }
        assert(self.storage@.take(self.storage@.len() as int) =~= self.storage@);
        result
    }

    fn first_of(&self, receiver: bool) -> (r: Option<StorageId>)
        ensures
            r == first_storage_of(self.storage@, receiver),
    {
        let mut i: usize = 0;
        while i < self.storage.len()
            invariant
                i <= self.storage@.len(),
                first_storage_of(self.storage@.take(i as int), receiver) is None,
            decreases self.storage@.len() - i,
        {
            assert(self.storage@.take((i + 1) as int).drop_last() =~= self.storage@.take(i as int));
            let matched = match self.storage[i].kind {
                MirStorageKind::Receiver => receiver,
                MirStorageKind::Return => !receiver,
                _ => false,
            };
            if matched {
                proof {
                    lemma_first_storage_extends(self.storage@, receiver, i as int + 1);
                }
                return Some(self.storage[i].id);
            }
            i = i + 1;
        }
        assert(self.storage@.take(self.storage@.len() as int) =~= self.storage@);
        None
    }

    /// The storage of the hidden receiver, if the body has one.
    pub fn receiver(&self) -> (r: Option<StorageId>)
        ensures
            r == first_storage_of(self.storage@, true),
    {
        self.first_of(true)
    }

    /// The storage of the result, if the body has one.
    pub fn return_storage(&self) -> (r: Option<StorageId>)
        ensures
            r == first_storage_of(self.storage@, false),
    {
        self.first_of(false)
    }

    pub fn storage_entries(&self) -> (r: &Vec<MirStorage>)
        ensures
            r@ == self.storage@,
    {
        &self.storage
    }

    pub fn values(&self) -> (r: &Vec<MirType>)
        ensures
            r@ == self.values@,
    {
        &self.values
    }

    pub fn storage(&self, id: StorageId) -> (r: Option<MirStorage>)
        ensures
            r == (if id.idx < self.storage@.len() {
                Some(self.storage@[id.idx as int])
            } else {
                None
            }),
    {
        if id.index() < self.storage.len() {
            Some(self.storage[id.index()])
        } else {
            None
        }
    }
}

/// How an optional type holds its payload.
#[derive(Clone, Copy, Debug, PartialEq, Eq, Structural)]
pub enum MirOptionalStorage {
    /// A primitive payload beside a presence state.
    Scalar(MirPrimitiveType),
    /// An inline class object beside a presence state.
    InlineClass(ClassId),
    /// A shared owner whose null handle means absent.
    SharedOwner(MirSharedTarget),
    /// Another optional type as the payload.
    Nested(crate::identity::OptionalTypeId),
    /// An inline array descriptor as the payload.
    InlineArray(ArrayTypeId),
}

/// A declared optional type.
#[derive(Clone, Copy, Debug, PartialEq, Eq, Structural)]
pub struct MirOptionalType {
    pub id: crate::identity::OptionalTypeId,
    pub storage: MirOptionalStorage,
}

/// A verified program.
#[derive(Clone, Debug)]
pub struct MirProgram {
    pub classes: Vec<MirClass>,
    pub array_types: Vec<MirArrayType>,
    /// The declared optional types, indexed by their identity.
    pub optional_types: Vec<MirOptionalType>,
    pub virtual_families: Vec<MirVirtualFamily>,
    pub interfaces: Vec<MirInterface>,
    pub literal_data: Vec<MirLiteralData>,
    pub static_fields: Vec<MirStaticField>,
    /// Every method that has an executable MIR definition.
    pub defined_methods: Vec<MethodId>,
    pub methods: Vec<MirMethod>,
    pub signatures: Vec<MirCallableSignature>,
    pub definitions: Vec<MirDefinition>,
    /// The verified activation and shutdown of static fields, when the
    /// program has any.
    pub static_lifecycle: Option<MirStaticLifecycle>,
    /// The functions declared with external linkage, defined outside the
    /// program.
    pub external_functions: Vec<FunctionId>,
}

/// How one static value is destroyed at shutdown.
#[derive(Clone, Copy, Debug, PartialEq, Eq, Structural)]
pub enum MirStaticValueCleanup {
    /// The value owns nothing.
    Trivial,
    /// An inline class value, destroyed by its plan.
    Class(ClassId),
    /// An inline array value, released.
    Array(ArrayTypeId),
    /// A shared owner, released.
    Shared(ClassId),
    /// An optional shared owner, released when present.
    OptionalShared(ClassId),
}

/// The shutdown of one static field.
#[derive(Clone, Copy, Debug, PartialEq, Eq, Structural)]
pub struct MirStaticShutdownRegion {
    pub field: StaticFieldId,
    pub cleanup: MirStaticValueCleanup,
}

/// How one static field receives its first value.
#[derive(Clone, Copy, Debug, PartialEq, Eq, Structural)]
pub enum MirStaticActivationWork {
    /// The all-zero value that zero-filled storage already holds.
    ZeroDefault,
    /// The static initializer body of the class.
    Explicit(ClassId),
}

/// The activation of one static field.
#[derive(Clone, Copy, Debug, PartialEq, Eq, Structural)]
pub struct MirStaticActivationRegion {
    pub field: StaticFieldId,
    pub work: MirStaticActivationWork,
}

/// The verified lifecycle of a program's static fields.
#[derive(Clone, Debug)]
pub struct MirStaticLifecycle {
    /// The classes whose static initializer bodies exist.
    pub initializers: Vec<ClassId>,
    /// Static activation, in the verified order.
    pub activation: Vec<MirStaticActivationRegion>,
    pub shutdown: Vec<MirStaticShutdownRegion>,
}

impl MirStaticLifecycle {
    pub fn initializers(&self) -> (r: &Vec<ClassId>)
        ensures
            r@ == self.initializers@,
    {
        &self.initializers
    }

    pub fn activation(&self) -> (r: &Vec<MirStaticActivationRegion>)
        ensures
            r@ == self.activation@,
    {
        &self.activation
    }

    /// The shutdown regions, in shutdown order.
    pub fn shutdown(&self) -> (r: &Vec<MirStaticShutdownRegion>)
        ensures
            r@ == self.shutdown@,
    {
        &self.shutdown
    }
}

/// Whether a method takes a receiver.
#[derive(Clone, Copy, Debug, PartialEq, Eq, Structural)]
pub enum MirMethodKind {
    Instance,
    Static,
}

/// A method declaration.
#[derive(Clone, Copy, Debug, PartialEq, Eq, Structural)]
pub struct MirMethod {
    pub id: MethodId,
    pub kind: MirMethodKind,
}

/// The declared parameters and result of a callable.
#[derive(Clone, Debug)]
pub struct MirCallableSignature {
    pub callable: CallableId,
    pub parameters: Vec<MirParameter>,
    pub return_type: MirType,
}

/// The first signature declared for a callable, if any.
pub open spec fn spec_signature_index(program: &MirProgram, callable: CallableId) -> Option<int> {
    if exists|k: int|
        0 <= k < program.signatures@.len() && (#[trigger] program.signatures@[k]).callable
            == callable {
        Some(
            choose|k: int|
                0 <= k < program.signatures@.len() && (#[trigger] program.signatures@[k]).callable
                    == callable && forall|m: int|
                    0 <= m < k ==> program.signatures@[m].callable != callable,
        )
    } else {
        None
    }
}

/// The declaration of a method, if any.
pub open spec fn spec_method(program: &MirProgram, id: MethodId) -> Option<MirMethod> {
    if exists|k: int| 0 <= k < program.methods@.len() && (#[trigger] program.methods@[k]).id == id {
        Some(
            program.methods@[choose|k: int|
                0 <= k < program.methods@.len() && (#[trigger] program.methods@[k]).id == id
                    && forall|m: int| 0 <= m < k ==> program.methods@[m].id != id],
        )
    } else {
        None
    }
}

/// The declaration of an array type, if any.
pub open spec fn spec_array_type(program: &MirProgram, id: ArrayTypeId) -> Option<MirArrayType> {
    if id.idx < program.array_types@.len() {
        Some(program.array_types@[id.idx as int])
    } else {
        None
    }
}

/// The declaration of a static field, if any.
pub open spec fn spec_static_field(program: &MirProgram, id: StaticFieldId) -> Option<
    MirStaticField,
> {
    if exists|i: int|
        0 <= i < program.static_fields@.len() && (#[trigger] program.static_fields@[i]).id
            == id {
        Some(
            program.static_fields@[choose|i: int|
                0 <= i < program.static_fields@.len() && (#[trigger] program.static_fields@[i]).id
                    == id],
        )
    } else {
        None
    }
}

/// The declared type of a field, if any.
pub open spec fn spec_field(program: &MirProgram, id: FieldId) -> Option<MirField> {
    if id.owner.idx < program.classes@.len() && id.idx
        < program.classes@[id.owner.idx as int].fields@.len() {
        Some(program.classes@[id.owner.idx as int].fields@[id.idx as int])
    } else {
        None
    }
}

/// Static field identities are unique.
pub open spec fn static_fields_unique(program: &MirProgram) -> bool {
    forall|i: int, j: int|
        0 <= i < program.static_fields@.len() && 0 <= j < program.static_fields@.len()
            && #[trigger] program.static_fields@[i].id == #[trigger] program.static_fields@[j].id
            ==> i == j
}

/// `ancestor` is reached from `class` by at most `steps` direct-base links.
pub open spec fn ancestor_within(program: &MirProgram, ancestor: ClassId, class: ClassId, steps: nat) -> bool
    decreases steps,
{
    steps > 0 && class.idx < program.classes@.len() && match program.classes@[class.idx as int].direct_base {
        Some(base) => base == ancestor || ancestor_within(program, ancestor, base, (steps - 1) as nat),
        None => false,
    }
}

/// `ancestor` is a proper (direct or indirect) base of `class`.
pub open spec fn spec_is_ancestor(program: &MirProgram, ancestor: ClassId, class: ClassId) -> bool {
    ancestor_within(program, ancestor, class, program.classes@.len())
}

/// Whether `method` has an executable definition.
pub open spec fn spec_member_defined(program: &MirProgram, method: MethodId) -> bool {
    program.defined_methods@.contains(method)
}

/// Whether `class` declares a conformance to `interface`.
pub open spec fn spec_conforms(program: &MirProgram, class: ClassId, interface: InterfaceId) -> bool {
    class.idx < program.classes@.len() && exists|k: int|
        0 <= k < program.classes@[class.idx as int].conformances@.len() && (
        #[trigger] program.classes@[class.idx as int].conformances@[k]).interface == interface
}

impl MirProgram {
    /// The definitions that have executable bodies.
    pub fn executable_definitions(&self) -> (r: &Vec<MirDefinition>)
        ensures
            r@ == self.definitions@,
    {
        &self.definitions
    }

    /// The declared array type with the given identity.
    pub fn array_type(&self, id: ArrayTypeId) -> (r: Option<MirArrayType>)
        ensures
            r == spec_array_type(self, id),
    {
        if id.index() < self.array_types.len() {
            Some(self.array_types[id.index()])
        } else {
            None
        }
    }

    /// The position of the first signature of a callable.
    pub fn signature_index(&self, callable: CallableId) -> (r: Option<usize>)
        ensures
            match r {
                Some(k) => spec_signature_index(self, callable) == Some(k as int) && k < self.signatures@.len(),
                None => spec_signature_index(self, callable) is None,
            },
    {
        let mut k: usize = 0;
        while k < self.signatures.len()
            invariant
                k <= self.signatures@.len(),
                forall|m: int| 0 <= m < k ==> (#[trigger] self.signatures@[m]).callable != callable,
            decreases self.signatures@.len() - k,
        {
            if self.signatures[k].callable == callable {
                proof {
                    assert(self.signatures@[k as int].callable == callable);
                    let c = choose|c: int|
                        0 <= c < self.signatures@.len() && (#[trigger] self.signatures@[c]).callable
                            == callable && forall|m: int|
                            0 <= m < c ==> self.signatures@[m].callable != callable;
                    if c < k {
                    } else if c > k {
                        assert(self.signatures@[k as int].callable != callable);
                    }
                }
                return Some(k);
            }
            k = k + 1;
        }
        None
    }

    /// The declared signature of a callable.
    pub fn callable_signature(&self, callable: CallableId) -> (r: Option<&MirCallableSignature>)
        ensures
            match spec_signature_index(self, callable) {
                Some(k) => r == Some(&self.signatures@[k]),
                None => r is None,
            },
    {
        match self.signature_index(callable) {
            Some(k) => Some(&self.signatures[k]),
            None => None,
        }
    }

    /// The declaration of a method.
    pub fn method(&self, id: MethodId) -> (r: Option<MirMethod>)
        ensures
            r == spec_method(self, id),
    {
        let mut k: usize = 0;
        while k < self.methods.len()
            invariant
                k <= self.methods@.len(),
                forall|m: int| 0 <= m < k ==> (#[trigger] self.methods@[m]).id != id,
            decreases self.methods@.len() - k,
        {
            if self.methods[k].id == id {
                proof {
                    assert(self.methods@[k as int].id == id);
                    let c = choose|c: int|
                        0 <= c < self.methods@.len() && (#[trigger] self.methods@[c]).id == id
                            && forall|m: int| 0 <= m < c ==> self.methods@[m].id != id;
                    if c < k {
                    } else if c > k {
                        assert(self.methods@[k as int].id != id);
                    }
                }
                return Some(self.methods[k]);
            }
            k = k + 1;
        }
        None
    }
}

impl MirProgram {
    pub fn conforms_to(&self, class: ClassId, interface: InterfaceId) -> (r: bool)
        ensures
            r == spec_conforms(self, class, interface),
    {
        if class.index() >= self.classes.len() {
            return false;
        }
        let conformances = &self.classes[class.index()].conformances;
        let mut k: usize = 0;
        while k < conformances.len()
            invariant
                class.idx < self.classes@.len(),
                conformances@ == self.classes@[class.idx as int].conformances@,
                k <= conformances@.len(),
                forall|m: int| 0 <= m < k ==> (#[trigger] conformances@[m]).interface != interface,
            decreases conformances@.len() - k,
        {
            if conformances[k].interface == interface {
                assert(self.classes@[class.idx as int].conformances@[k as int].interface == interface);
                return true;
            }
            k = k + 1;
        }
        false
    }

    pub fn is_ancestor(&self, ancestor: ClassId, class: ClassId) -> (r: bool)
        ensures
            r == spec_is_ancestor(self, ancestor, class),
    {
        let steps = self.classes.len();
        let mut current = class;
        let mut remaining: usize = steps;
        while remaining > 0
            invariant
                remaining <= steps,
                steps == self.classes@.len(),
                spec_is_ancestor(self, ancestor, class) == ancestor_within(
                    self,
                    ancestor,
                    current,
                    remaining as nat,
                ),
            decreases remaining,
        {
            if current.index() >= self.classes.len() {
                return false;
            }
            match self.classes[current.index()].direct_base {
                Some(base) => {
                    if base == ancestor {
                        return true;
                    }
                    current = base;
                },
                None => return false,
            }
            remaining = remaining - 1;
        }
        false
    }

    pub fn member_definition(&self, method: MethodId) -> (r: bool)
        ensures
            r == spec_member_defined(self, method),
    {
        let mut i: usize = 0;
        while i < self.defined_methods.len()
            invariant
                i <= self.defined_methods@.len(),
                forall|k: int| 0 <= k < i ==> self.defined_methods@[k] != method,
            decreases self.defined_methods@.len() - i,
        {
            if self.defined_methods[i] == method {
                assert(self.defined_methods@[i as int] == method);
                return true;
            }
            i = i + 1;
        }
        false
    }

    pub fn static_field(&self, id: StaticFieldId) -> (r: Option<MirStaticField>)
        requires
            static_fields_unique(self),
        ensures
            r == spec_static_field(self, id),
    {
        let mut i: usize = 0;
        while i < self.static_fields.len()
            invariant
                i <= self.static_fields@.len(),
                static_fields_unique(self),
                forall|k: int| 0 <= k < i ==> (#[trigger] self.static_fields@[k]).id != id,
            decreases self.static_fields@.len() - i,
        {
            if self.static_fields[i].id == id {
                proof {
                    assert(self.static_fields@[i as int].id == id);
                    let k = choose|k: int|
                        0 <= k < self.static_fields@.len() && (
                        #[trigger] self.static_fields@[k]).id == id;
                    assert(self.static_fields@[k].id == self.static_fields@[i as int].id);
                    assert(k == i);
                }
                return Some(self.static_fields[i]);
            }
            i = i + 1;
        }
        None
    }

    pub fn field(&self, id: FieldId) -> (r: Option<MirField>)
        ensures
            r == spec_field(self, id),
    {
        if id.owner.index() < self.classes.len() {
            let class = &self.classes[id.owner.index()];
            if id.index() < class.fields.len() {
                return Some(class.fields[id.index()]);
            }
        }
        None
    }
}

/// Dense identities: every declaration sits at the index its id names.
pub open spec fn program_ids_dense(program: &MirProgram) -> bool {
    &&& forall|i: int|
        0 <= i < program.classes@.len() ==> (#[trigger] program.classes@[i]).id.idx == i
    &&& forall|i: int, j: int|
        0 <= i < program.classes@.len() && 0 <= j < program.classes@[i].fields@.len() ==> (
        #[trigger] program.classes@[i].fields@[j]).id == FieldId {
            owner: ClassId { idx: i as usize },
            idx: j as usize,
        }
    &&& forall|i: int|
        0 <= i < program.array_types@.len() ==> (#[trigger] program.array_types@[i]).id.idx
            == i
}

} // verus!
