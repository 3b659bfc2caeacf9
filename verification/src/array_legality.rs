//! Legality boundary for executable inline and shared outer arrays.
//!
//! Every array element type, array storage entry and array place of an
//! executable definition must fall inside the profile that instruction
//! selection implements; the first violation is reported.

use vstd::prelude::*;

use crate::body::{
    MirArrayAnchorKind, MirArrayAssignElement, MirArrayCopyElement, MirArrayDefaultElement,
    MirArrayDestroyElement, MirArrayFailure, MirArrayInstruction, MirArrayOwnership,
    MirArrayPositionKind, MirBlock, MirInstruction, MirRvalueKind, MirTerminator,
};
use crate::error::{BackendError, Target, error_is};
use crate::identity::CallableId;
use crate::mir::{
    MirArrayType, MirDefinition, MirPlace, MirPlaceBase, MirPlaceProjection, MirProgram,
    MirStorage, MirStorageKind, MirType, spec_array_type, spec_field, spec_local_storage,
    spec_static_field, static_fields_unique,
};
use crate::text::{decimal_text, framed_decimal};

verus! {

/// A target diagnostic for the array profile.
pub fn error(callable: Option<CallableId>, message: String) -> (r: BackendError)
    ensures
        error_is(r, callable, message@),
{
    BackendError::new(Target::X86_64SysV, callable, message)
}

/// Element types that executable arrays can hold.
pub open spec fn element_supported(ty: MirType) -> bool {
    match ty {
        MirType::I64
        | MirType::U64
        | MirType::U8
        | MirType::F64
        | MirType::Bool
        | MirType::OptionalPrimitive(_)
        | MirType::Class(_)
        | MirType::OptionalClass(_)
        | MirType::Array(_)
        | MirType::Shared(_)
        | MirType::OptionalShared(_) => true,
        _ => false,
    }
}

pub open spec fn unsupported_element_message(array: MirArrayType) -> Seq<char> {
    "array "@ + decimal_text(array.id.idx as nat) + " has an element type not supported by x86-64"@
}

/// The diagnostic of the first array type whose element is unsupported.
pub open spec fn arrays_check(arrays: Seq<MirArrayType>) -> Option<Seq<char>>
    decreases arrays.len(),
{
    if arrays.len() == 0 {
        None
    } else {
        match arrays_check(arrays.drop_last()) {
            Some(message) => Some(message),
            None => if element_supported(arrays.last().element) {
                None
            } else {
                Some(unsupported_element_message(arrays.last()))
            },
        }
    }
}

pub open spec fn array_storage_supported(kind: MirStorageKind) -> bool {
    match kind {
        MirStorageKind::Local
        | MirStorageKind::Parameter
        | MirStorageKind::Return
        | MirStorageKind::Argument
        | MirStorageKind::ArrayBacking
        | MirStorageKind::ArrayProduced
        | MirStorageKind::ArraySlice
        | MirStorageKind::ArrayAnchor(_)
        | MirStorageKind::ArrayAlias(_)
        | MirStorageKind::AliasParameter(_) => true,
        _ => false,
    }
}

/// Array-typed storage only has kinds the profile supports.
pub open spec fn storage_supported(storage: Seq<MirStorage>) -> bool {
    forall|i: int|
        0 <= i < storage.len() ==> ((#[trigger] storage[i]).ty is Array ==> array_storage_supported(
            storage[i].kind,
        ))
}

pub open spec fn storage_message() -> Seq<char> {
    "array storage is outside the executable inline/shared array profile"@
}

pub open spec fn place_message() -> Seq<char> {
    "array place is outside the executable inline/shared owning-boundary profile"@
}

pub open spec fn element_place_message() -> Seq<char> {
    "only inline array element places are executable on x86-64"@
}

pub open spec fn operation_message() -> Seq<char> {
    "verified array operation is outside the executable array profile"@
}



/// The type one projection step leads to.
pub open spec fn projection_type(program: &MirProgram, projection: MirPlaceProjection) -> Option<
    MirType,
> {
    match projection {
        MirPlaceProjection::Base(base) => Some(MirType::Class(base)),
        MirPlaceProjection::Field(field) => match spec_field(program, field) {
            Some(declared) => Some(declared.ty),
            None => None,
        },
        MirPlaceProjection::OptionalPayload(class) => Some(MirType::Class(class)),
        MirPlaceProjection::ArrayElement { array, .. } => match spec_array_type(program, array) {
            Some(declared) => Some(declared.element),
            None => None,
        },
    }
}

/// The type after following the projections from `start`.
pub open spec fn projections_type(
    program: &MirProgram,
    start: Option<MirType>,
    projections: Seq<MirPlaceProjection>,
) -> Option<MirType>
    decreases projections.len(),
{
    if projections.len() == 0 {
        start
    } else {
        match projections_type(program, start, projections.drop_last()) {
            Some(_) => projection_type(program, projections.last()),
            None => None,
        }
    }
}

/// The type a place denotes, starting from its root type; a shared
/// pointee or allocation payload first steps through its handle.
pub open spec fn spec_projected_type(program: &MirProgram, ty: MirType, place: MirPlace) -> Option<
    MirType,
> {
    let start = match place.base {
        MirPlaceBase::SharedPointee(_) | MirPlaceBase::SharedAllocationPayload(_) => match ty {
            MirType::Shared(target) => Some(target.spec_ty()),
            _ => None,
        },
        _ => Some(ty),
    };
    projections_type(program, start, place.projections@)
}

pub open spec fn direct_local_kind(kind: MirStorageKind) -> bool {
    match kind {
        MirStorageKind::Local
        | MirStorageKind::Parameter
        | MirStorageKind::Return
        | MirStorageKind::Argument
        | MirStorageKind::ArrayProduced
        | MirStorageKind::ArraySlice
        | MirStorageKind::ArrayAnchor(_)
        | MirStorageKind::ArrayAlias(_)
        | MirStorageKind::AliasParameter(_) => true,
        _ => false,
    }
}



/// The position of the last array-element projection.
pub open spec fn last_element_index(projections: Seq<MirPlaceProjection>) -> Option<int>
    decreases projections.len(),
{
    if projections.len() == 0 {
        None
    } else if projections.last() is ArrayElement {
        Some(projections.len() - 1)
    } else {
        last_element_index(projections.drop_last())
    }
}



/// The diagnostic for an element place, stated over its owning place.
pub open spec fn element_place_error(
    program: &MirProgram,
    definition: &MirDefinition,
    place: MirPlace,
) -> Option<Seq<char>> {
    match last_element_index(place.projections@) {
        None => Some(element_place_message()),
        Some(index) => owner_error(program, definition, place.base, place.projections@.take(index)),
    }
}

/// The diagnostic of an owning place given by its base and projections.
pub open spec fn owner_error(
    program: &MirProgram,
    definition: &MirDefinition,
    base: MirPlaceBase,
    projections: Seq<MirPlaceProjection>,
) -> Option<Seq<char>> {
    let root = match base {
        MirPlaceBase::StaticField(field) => match spec_static_field(program, field) {
            Some(declared) => Some(declared.ty),
            None => None,
        },
        _ => match spec_local_storage(base) {
            Some(id) => if id.idx < definition.storage@.len() {
                Some(definition.storage@[id.idx as int].ty)
            } else {
                None
            },
            None => None,
        },
    };
    let storage = match spec_local_storage(base) {
        Some(id) => if id.idx < definition.storage@.len() {
            Some(definition.storage@[id.idx as int])
        } else {
            None
        },
        None => None,
    };
    match root {
        None => Some(place_message()),
        Some(root) => {
            let direct_static = projections.len() == 0 && base is StaticField && root is Array;
            let direct_local = projections.len() == 0 && (base is Storage || base is AliasParameter
                || base is ArrayAlias) && match storage {
                Some(storage) => direct_local_kind(storage.kind) && storage.ty is Array,
                None => false,
            };
            let start = match base {
                MirPlaceBase::SharedPointee(_) | MirPlaceBase::SharedAllocationPayload(_) => match root {
                    MirType::Shared(target) => Some(target.spec_ty()),
                    _ => None,
                },
                _ => Some(root),
            };
            let projected_owner = (projections.len() != 0 || base is SharedPointee) && match projections_type(
                program,
                start,
                projections,
            ) {
                Some(ty) => ty is Array,
                None => false,
            };
            if direct_static || direct_local || projected_owner {
                None
            } else {
                Some(place_message())
            }
        },
    }
}

pub open spec fn place_error(program: &MirProgram, definition: &MirDefinition, place: MirPlace) -> Option<
    Seq<char>,
> {
    owner_error(program, definition, place.base, place.projections@)
}

pub open spec fn has_element_projection(place: MirPlace) -> bool {
    exists|i: int|
        0 <= i < place.projections@.len() && (#[trigger] place.projections@[i]) is ArrayElement
}

/// The diagnostic of one array operation.
pub open spec fn array_instruction_error(
    program: &MirProgram,
    definition: &MirDefinition,
    instruction: MirArrayInstruction,
) -> Option<Seq<char>> {
    match instruction {
        MirArrayInstruction::Allocate { failure, .. } => if failure is AllocationSize {
            None
        } else {
            Some(operation_message())
        },
        MirArrayInstruction::AllocateElements { failure, .. } => if failure is AllocationSize {
            None
        } else {
            Some(operation_message())
        },
        MirArrayInstruction::InitializeElement { .. } => None,
        MirArrayInstruction::CompleteElement { .. } => Some(operation_message()),
        MirArrayInstruction::Publish { .. } => None,
        MirArrayInstruction::PublishShared { .. } => None,
        MirArrayInstruction::InitializeNext { operation, .. } => if operation is SharedOptionalBoxAbsent {
            Some(operation_message())
        } else {
            None
        },
        MirArrayInstruction::CopyNext { source, .. } => place_error(program, definition, source),
        MirArrayInstruction::ElementAssign { destination, operation, .. } => if operation is Shared {
            element_place_error(program, definition, destination)
        } else {
            Some(operation_message())
        },
        MirArrayInstruction::Adopt { destination } => place_error(program, definition, destination),
        MirArrayInstruction::Replace { destination } => place_error(
            program,
            definition,
            destination,
        ),
        MirArrayInstruction::Release { owner } => place_error(program, definition, owner),
        MirArrayInstruction::DestroyNext { owner, .. } => place_error(program, definition, owner),
        MirArrayInstruction::AnchorBegin { owner, .. } => place_error(program, definition, owner),
        MirArrayInstruction::AnchorEnd { .. } => None,
        MirArrayInstruction::AliasBind { source } => element_place_error(
            program,
            definition,
            source,
        ),
        MirArrayInstruction::Normalize { owner, kind } => if kind is RangeOffset {
            Some(operation_message())
        } else {
            place_error(program, definition, owner)
        },
        MirArrayInstruction::Offset { owner } => place_error(program, definition, owner),
        MirArrayInstruction::Boundary { owner } => place_error(program, definition, owner),
        MirArrayInstruction::SliceBoundsCheck { .. } => None,
        MirArrayInstruction::SliceLengthCheck { source } => place_error(
            program,
            definition,
            source,
        ),
        MirArrayInstruction::SliceCopy { source } => place_error(program, definition, source),
        MirArrayInstruction::SliceAssignNext { destination, source } => match place_error(
            program,
            definition,
            destination,
        ) {
            Some(message) => Some(message),
            None => place_error(program, definition, source),
        },
    }
}

/// The diagnostic of one instruction.
pub open spec fn instruction_error(
    program: &MirProgram,
    definition: &MirDefinition,
    instruction: MirInstruction,
) -> Option<Seq<char>> {
    match instruction {
        MirInstruction::Assign { rvalue, .. } => match rvalue {
            MirRvalueKind::ArrayLength { source } => place_error(program, definition, source),
            MirRvalueKind::Load(source) => if has_element_projection(source) {
                element_place_error(program, definition, source)
            } else {
                None
            },
            _ => None,
        },
        MirInstruction::Store { destination, .. } => if has_element_projection(destination) {
            element_place_error(program, definition, destination)
        } else {
            None
        },
        MirInstruction::Array(array) => array_instruction_error(program, definition, array),
        _ => None,
    }
}

pub open spec fn instructions_error(
    program: &MirProgram,
    definition: &MirDefinition,
    instructions: Seq<MirInstruction>,
) -> Option<Seq<char>>
    decreases instructions.len(),
{
    if instructions.len() == 0 {
        None
    } else {
        match instructions_error(program, definition, instructions.drop_last()) {
            Some(message) => Some(message),
            None => instruction_error(program, definition, instructions.last()),
        }
    }
}

pub open spec fn blocks_error(
    program: &MirProgram,
    definition: &MirDefinition,
    blocks: Seq<MirBlock>,
) -> Option<Seq<char>>
    decreases blocks.len(),
{
    if blocks.len() == 0 {
        None
    } else {
        match blocks_error(program, definition, blocks.drop_last()) {
            Some(message) => Some(message),
            None => instructions_error(program, definition, blocks.last().instructions@),
        }
    }
}

/// The diagnostic of one definition: its array storage first, then its
/// blocks in order.
pub open spec fn definition_error(program: &MirProgram, definition: &MirDefinition) -> Option<
    Seq<char>,
> {
    if !storage_supported(definition.storage@) {
        Some(storage_message())
    } else {
        blocks_error(program, definition, definition.blocks@)
    }
}

pub open spec fn definitions_error(program: &MirProgram, definitions: Seq<MirDefinition>) -> Option<
    (Option<CallableId>, Seq<char>),
>
    decreases definitions.len(),
{
    if definitions.len() == 0 {
        None
    } else {
        match definitions_error(program, definitions.drop_last()) {
            Some(found) => Some(found),
            None => match definition_error(program, &definitions.last()) {
                Some(message) => Some((Some(definitions.last().callable), message)),
                None => None,
            },
        }
    }
}

/// The first diagnostic of the whole check, if any. A program without
/// array types has nothing to check.
pub open spec fn spec_check(program: &MirProgram) -> Option<(Option<CallableId>, Seq<char>)> {
    if program.array_types@.len() == 0 {
        None
    } else {
        match arrays_check(program.array_types@) {
            Some(message) => Some((None, message)),
            None => definitions_error(program, program.definitions@),
        }
    }
}

/// Every block of the definition is terminated.
pub open spec fn blocks_terminated(definition: &MirDefinition) -> bool {
    forall|b: int|
        0 <= b < definition.blocks@.len() ==> (#[trigger] definition.blocks@[b]).terminator is Some
}

/// The result agrees with an optional diagnostic for the given callable.
pub open spec fn checked(r: Result<(), BackendError>, expected: Option<Seq<char>>, callable: Option<
    CallableId,
>) -> bool {
    match expected {
        None => r is Ok,
        Some(message) => r matches Err(error) && error_is(error, callable, message),
    }
}

/// The type a place denotes, starting from a root type.
pub fn projected_type(program: &MirProgram, ty: MirType, place: &MirPlace) -> (r: Option<MirType>)
    ensures
        r == spec_projected_type(program, ty, *place),
{
    let mut current: Option<MirType> = match place.base {
        MirPlaceBase::SharedPointee(_) | MirPlaceBase::SharedAllocationPayload(_) => match ty {
            MirType::Shared(target) => Some(target.ty()),
            _ => None,
        },
        _ => Some(ty),
    };
    let ghost start = current;
    let mut i: usize = 0;
    while i < place.projections.len()
        invariant
            i <= place.projections@.len(),
            current == projections_type(program, start, place.projections@.take(i as int)),
        decreases place.projections@.len() - i,
    {
        assert(place.projections@.take((i + 1) as int).drop_last() =~= place.projections@.take(
            i as int,
        ));
        if current.is_some() {
            current = match place.projections[i] {
                MirPlaceProjection::Base(base) => Some(MirType::Class(base)),
                MirPlaceProjection::Field(field) => match program.field(field) {
                    Some(declared) => Some(declared.ty),
                    None => None,
                },
                MirPlaceProjection::OptionalPayload(class) => Some(MirType::Class(class)),
                MirPlaceProjection::ArrayElement { array, .. } => match program.array_type(array) {
                    Some(declared) => Some(declared.element),
                    None => None,
                },
            };
        }
        i = i + 1;
    }
    assert(place.projections@.take(place.projections@.len() as int) =~= place.projections@);
    current
}

/// Whether some projection of the place selects an array element.
pub fn has_array_element_projection(place: &MirPlace) -> (r: bool)
    ensures
        r == has_element_projection(*place),
{
    let mut i: usize = 0;
    while i < place.projections.len()
        invariant
            i <= place.projections@.len(),
            forall|k: int| 0 <= k < i ==> !(place.projections@[k] is ArrayElement),
        decreases place.projections@.len() - i,
    {
        if matches!(place.projections[i], MirPlaceProjection::ArrayElement { .. }) {
            assert(place.projections@[i as int] is ArrayElement);
            return true;
        }
        i = i + 1;
    }
    false
}

/// Checks that a place owns an array inside the executable profile.
pub fn require_executable_array_place(
    program: &MirProgram,
    definition: &MirDefinition,
    place: &MirPlace,
) -> (r: Result<(), BackendError>)
    requires
        static_fields_unique(program),
    ensures
        checked(r, place_error(program, definition, *place), Some(definition.callable)),
{
    require_owner(program, definition, place.base, &place.projections)
}

fn root_storage(definition: &MirDefinition, base: MirPlaceBase) -> (r: Option<MirStorage>)
    ensures
        r == match spec_local_storage(base) {
            Some(id) => if id.idx < definition.storage@.len() {
                Some(definition.storage@[id.idx as int])
            } else {
                None
            },
            None => None,
        },
{
    match base.local_storage() {
        Some(id) => definition.storage(id),
        None => None,
    }
}

fn require_owner(
    program: &MirProgram,
    definition: &MirDefinition,
    base: MirPlaceBase,
    projections: &Vec<MirPlaceProjection>,
) -> (r: Result<(), BackendError>)
    requires
        static_fields_unique(program),
    ensures
        checked(r, owner_error(program, definition, base, projections@), Some(definition.callable)),
{
    let storage = root_storage(definition, base);
    let root = match base {
        MirPlaceBase::StaticField(field) => match program.static_field(field) {
            Some(declared) => Some(declared.ty),
            None => None,
        },
        _ => match storage {
            Some(entry) => Some(entry.ty),
            None => None,
        },
    };
    let root = match root {
        Some(root) => root,
        None => {
            return Err(error(Some(definition.callable()), String::from_str(
                "array place is outside the executable inline/shared owning-boundary profile",
            )));
        },
    };
    let direct_static = projections.len() == 0 && matches!(base, MirPlaceBase::StaticField(_))
        && matches!(root, MirType::Array(_));
    let direct_local = projections.len() == 0 && matches!(
        base,
        MirPlaceBase::Storage(_) | MirPlaceBase::AliasParameter(_) | MirPlaceBase::ArrayAlias(_)
    ) && match storage {
        Some(entry) => matches!(
            entry.kind,
            MirStorageKind::Local
            | MirStorageKind::Parameter
            | MirStorageKind::Return
            | MirStorageKind::Argument
            | MirStorageKind::ArrayProduced
            | MirStorageKind::ArraySlice
            | MirStorageKind::ArrayAnchor(_)
            | MirStorageKind::ArrayAlias(_)
            | MirStorageKind::AliasParameter(_)
        ) && matches!(entry.ty, MirType::Array(_)),
        None => false,
    };
    let owner = MirPlace { base, projections: clone_projections(projections) };
    let projected_owner = (projections.len() != 0 || matches!(base, MirPlaceBase::SharedPointee(_)))
        && match projected_type(program, root, &owner) {
        Some(ty) => matches!(ty, MirType::Array(_)),
        None => false,
    };
    if direct_static || direct_local || projected_owner {
        Ok(())
    } else {
        Err(
            error(
                Some(definition.callable()),
                String::from_str(
                    "array place is outside the executable inline/shared owning-boundary profile",
                ),
            ),
        )
    }
}

fn clone_projections(projections: &Vec<MirPlaceProjection>) -> (r: Vec<MirPlaceProjection>)
    ensures
        r@ == projections@,
{
    let mut copy: Vec<MirPlaceProjection> = Vec::new();
    let mut i: usize = 0;
    while i < projections.len()
        invariant
            i <= projections@.len(),
            copy@ == projections@.take(i as int),
        decreases projections@.len() - i,
    {
        copy.push(projections[i]);
        assert(projections@.take((i + 1) as int) =~= projections@.take(i as int).push(
            projections@[i as int],
        ));
        i = i + 1;
    }
    assert(projections@.take(projections@.len() as int) =~= projections@);
    copy
}

/// Checks that an element place lies in an array owned inside the
/// executable profile.
pub fn require_executable_element_place(
    program: &MirProgram,
    definition: &MirDefinition,
    place: &MirPlace,
) -> (r: Result<(), BackendError>)
    requires
        static_fields_unique(program),
    ensures
        checked(r, element_place_error(program, definition, *place), Some(definition.callable)),
{
    let mut index: usize = place.projections.len();
    assert(place.projections@.take(place.projections@.len() as int) =~= place.projections@);
    while index > 0
        invariant
            index <= place.projections@.len(),
            last_element_index(place.projections@) == last_element_index(
                place.projections@.take(index as int),
            ),
        ensures
            index <= place.projections@.len(),
            last_element_index(place.projections@) == last_element_index(
                place.projections@.take(index as int),
            ),
            index == 0 || place.projections@[index - 1] is ArrayElement,
        decreases index,
    {
        let ghost prefix = place.projections@.take(index as int);
        assert(prefix.drop_last() =~= place.projections@.take(index - 1));
        assert(prefix.last() == place.projections@[index - 1]);
        if matches!(place.projections[index - 1], MirPlaceProjection::ArrayElement { .. }) {
            break;
        }
        index = index - 1;
    }
    if index == 0 {
        assert(place.projections@.take(0) =~= Seq::<MirPlaceProjection>::empty());
        return Err(
            error(
                Some(definition.callable()),
                String::from_str("only inline array element places are executable on x86-64"),
            ),
        );
    }
    let element_index = index - 1;
    proof {
        let prefix = place.projections@.take(index as int);
        assert(prefix.last() == place.projections@[index - 1]);
        assert(last_element_index(prefix) == Some(element_index as int));
    }
    let mut owner: Vec<MirPlaceProjection> = Vec::new();
    let mut i: usize = 0;
    while i < element_index
        invariant
            element_index < place.projections@.len(),
            i <= element_index,
            owner@ == place.projections@.take(i as int),
        decreases element_index - i,
    {
        owner.push(place.projections[i]);
        assert(place.projections@.take((i + 1) as int) =~= place.projections@.take(i as int).push(
            place.projections@[i as int],
        ));
        i = i + 1;
    }
    require_owner(program, definition, place.base, &owner)
}

/// Checks one instruction against the executable array profile.
pub fn check_instruction(
    program: &MirProgram,
    definition: &MirDefinition,
    instruction: &MirInstruction,
) -> (r: Result<(), BackendError>)
    requires
        static_fields_unique(program),
    ensures
        checked(r, instruction_error(program, definition, *instruction), Some(definition.callable)),
{
    match instruction {
        MirInstruction::Assign { rvalue, .. } => match rvalue {
            MirRvalueKind::ArrayLength { source } => require_executable_array_place(
                program,
                definition,
                source,
            ),
            MirRvalueKind::Load(source) => {
                if has_array_element_projection(source) {
                    require_executable_element_place(program, definition, source)
                } else {
                    Ok(())
                }
            },
            _ => Ok(()),
        },
        MirInstruction::Store { destination, .. } => {
            if has_array_element_projection(destination) {
                require_executable_element_place(program, definition, destination)
            } else {
                Ok(())
            }
        },
        MirInstruction::Array(array) => check_array_instruction(program, definition, array),
        _ => Ok(()),
    }
}

fn operation_error(definition: &MirDefinition) -> (r: Result<(), BackendError>)
    ensures
        checked(r, Some(operation_message()), Some(definition.callable)),
{
    Err(
        error(
            Some(definition.callable()),
            String::from_str("verified array operation is outside the executable array profile"),
        ),
    )
}

fn check_array_instruction(
    program: &MirProgram,
    definition: &MirDefinition,
    instruction: &MirArrayInstruction,
) -> (r: Result<(), BackendError>)
    requires
        static_fields_unique(program),
    ensures
        checked(
            r,
            array_instruction_error(program, definition, *instruction),
            Some(definition.callable),
        ),
{
    match instruction {
        MirArrayInstruction::Allocate { failure, .. } | MirArrayInstruction::AllocateElements {
            failure,
            ..
        } => {
            if matches!(failure, MirArrayFailure::AllocationSize) {
                Ok(())
            } else {
                operation_error(definition)
            }
        },
        MirArrayInstruction::InitializeElement { .. }
        | MirArrayInstruction::Publish { .. }
        | MirArrayInstruction::PublishShared { .. } => Ok(()),
        MirArrayInstruction::CompleteElement { .. } => operation_error(definition),
        MirArrayInstruction::InitializeNext { operation, .. } => match operation {
            MirArrayDefaultElement::SharedOptionalBoxAbsent(_) => operation_error(definition),
            _ => Ok(()),
        },
        MirArrayInstruction::CopyNext { source, .. } => require_executable_array_place(
            program,
            definition,
            source,
        ),
        MirArrayInstruction::ElementAssign { destination, operation, .. } => match operation {
            MirArrayAssignElement::Shared(_) => require_executable_element_place(
                program,
                definition,
                destination,
            ),
            _ => operation_error(definition),
        },
        MirArrayInstruction::Adopt { destination } | MirArrayInstruction::Replace {
            destination,
        } => require_executable_array_place(program, definition, destination),
        MirArrayInstruction::Release { owner }
        | MirArrayInstruction::DestroyNext { owner, .. }
        | MirArrayInstruction::AnchorBegin { owner, .. }
        | MirArrayInstruction::Offset { owner }
        | MirArrayInstruction::Boundary { owner } => require_executable_array_place(
            program,
            definition,
            owner,
        ),
        MirArrayInstruction::AnchorEnd { .. } => Ok(()),
        MirArrayInstruction::AliasBind { source } => require_executable_element_place(
            program,
            definition,
            source,
        ),
        MirArrayInstruction::Normalize { owner, kind } => match kind {
            MirArrayPositionKind::RangeOffset => operation_error(definition),
            _ => require_executable_array_place(program, definition, owner),
        },
        MirArrayInstruction::SliceBoundsCheck { .. } => Ok(()),
        MirArrayInstruction::SliceLengthCheck { source } | MirArrayInstruction::SliceCopy {
            source,
        } => require_executable_array_place(program, definition, source),
        MirArrayInstruction::SliceAssignNext { destination, source } => {
            match require_executable_array_place(program, definition, destination) {
                Ok(()) => require_executable_array_place(program, definition, source),
                Err(failure) => Err(failure),
            }
        },
    }
}

/// Checks one terminator; every verified array terminator is executable.
pub fn check_terminator(definition: &MirDefinition, terminator: &MirTerminator) -> (r: Result<
    (),
    BackendError,
>)
    ensures
        r is Ok,
{
    Ok(())
}

/// Checks every instruction of a block, then its terminator.
fn check_block(program: &MirProgram, definition: &MirDefinition, block: &MirBlock) -> (r: Result<
    (),
    BackendError,
>)
    requires
        static_fields_unique(program),
        block.terminator is Some,
    ensures
        checked(r, instructions_error(program, definition, block.instructions@), Some(definition.callable)),
{
    let mut i: usize = 0;
    while i < block.instructions.len()
        invariant
            static_fields_unique(program),
            i <= block.instructions@.len(),
            instructions_error(program, definition, block.instructions@.take(i as int)) is None,
        decreases block.instructions@.len() - i,
    {
        assert(block.instructions@.take((i + 1) as int).drop_last() =~= block.instructions@.take(
            i as int,
        ));
        assert(block.instructions@.take((i + 1) as int).last() == block.instructions@[i as int]);
        match check_instruction(program, definition, &block.instructions[i]) {
            Ok(()) => {},
            Err(failure) => {
                proof {
                    lemma_instructions_error_extends(
                        program,
                        definition,
                        block.instructions@,
                        (i + 1) as int,
                    );
                }
                return Err(failure);
            },
        }
        i = i + 1;
    }
    assert(block.instructions@.take(block.instructions@.len() as int) =~= block.instructions@);
    match &block.terminator {
        Some(terminator) => check_terminator(definition, terminator),
        None => Ok(()),
    }
}

/// Checks the array storage and then every instruction and terminator of
/// one definition.
pub fn check_definition(program: &MirProgram, definition: &MirDefinition) -> (r: Result<
    (),
    BackendError,
>)
    requires
        static_fields_unique(program),
        blocks_terminated(definition),
    ensures
        checked(r, definition_error(program, definition), Some(definition.callable)),
{
    let mut s: usize = 0;
    while s < definition.storage.len()
        invariant
            s <= definition.storage@.len(),
            forall|k: int|
                0 <= k < s ==> ((#[trigger] definition.storage@[k]).ty is Array
                    ==> array_storage_supported(definition.storage@[k].kind)),
        decreases definition.storage@.len() - s,
    {
        let storage = definition.storage[s];
        if matches!(storage.ty, MirType::Array(_)) {
            let supported = matches!(
                storage.kind,
                MirStorageKind::Local
                | MirStorageKind::Parameter
                | MirStorageKind::Return
                | MirStorageKind::Argument
                | MirStorageKind::ArrayBacking
                | MirStorageKind::ArrayProduced
                | MirStorageKind::ArraySlice
                | MirStorageKind::ArrayAnchor(_)
                | MirStorageKind::ArrayAlias(_)
                | MirStorageKind::AliasParameter(_)
            );
            if !supported {
                return Err(
                    error(
                        Some(definition.callable()),
                        String::from_str(
                            "array storage is outside the executable inline/shared array profile",
                        ),
                    ),
                );
            }
        }
        s = s + 1;
    }
    let mut b: usize = 0;
    while b < definition.blocks.len()
        invariant
            static_fields_unique(program),
            blocks_terminated(definition),
            storage_supported(definition.storage@),
            b <= definition.blocks@.len(),
            blocks_error(program, definition, definition.blocks@.take(b as int)) is None,
        decreases definition.blocks@.len() - b,
    {
        let block = &definition.blocks[b];
        assert(definition.blocks@.take((b + 1) as int).drop_last() =~= definition.blocks@.take(
            b as int,
        ));
        assert(definition.blocks@.take((b + 1) as int).last() == definition.blocks@[b as int]);
        assert(block.terminator is Some);
        match check_block(program, definition, block) {
            Ok(()) => {},
            Err(failure) => {
                proof {
                    lemma_blocks_error_extends(program, definition, definition.blocks@, b + 1);
                }
                return Err(failure);
            },
        }
        b = b + 1;
    }
    assert(definition.blocks@.take(definition.blocks@.len() as int) =~= definition.blocks@);
    Ok(())
}

proof fn lemma_instructions_error_extends(
    program: &MirProgram,
    definition: &MirDefinition,
    instructions: Seq<MirInstruction>,
    n: int,
)
    requires
        0 <= n <= instructions.len(),
    ensures
        instructions_error(program, definition, instructions.take(n)) is Some ==> instructions_error(
            program,
            definition,
            instructions,
        ) == instructions_error(program, definition, instructions.take(n)),
    decreases instructions.len() - n,
{
    if n < instructions.len() {
        lemma_instructions_error_extends(program, definition, instructions, n + 1);
        assert(instructions.take(n + 1).drop_last() =~= instructions.take(n));
    } else {
        assert(instructions.take(n) =~= instructions);
    }
}

proof fn lemma_blocks_error_extends(
    program: &MirProgram,
    definition: &MirDefinition,
    blocks: Seq<MirBlock>,
    n: int,
)
    requires
        0 <= n <= blocks.len(),
    ensures
        blocks_error(program, definition, blocks.take(n)) is Some ==> blocks_error(
            program,
            definition,
            blocks,
        ) == blocks_error(program, definition, blocks.take(n)),
    decreases blocks.len() - n,
{
    if n < blocks.len() {
        lemma_blocks_error_extends(program, definition, blocks, n + 1);
        assert(blocks.take(n + 1).drop_last() =~= blocks.take(n));
    } else {
        assert(blocks.take(n) =~= blocks);
    }
}

proof fn lemma_definitions_error_extends(
    program: &MirProgram,
    definitions: Seq<MirDefinition>,
    n: int,
)
    requires
        0 <= n <= definitions.len(),
    ensures
        definitions_error(program, definitions.take(n)) is Some ==> definitions_error(
            program,
            definitions,
        ) == definitions_error(program, definitions.take(n)),
    decreases definitions.len() - n,
{
    if n < definitions.len() {
        lemma_definitions_error_extends(program, definitions, n + 1);
        assert(definitions.take(n + 1).drop_last() =~= definitions.take(n));
    } else {
        assert(definitions.take(n) =~= definitions);
    }
}

proof fn lemma_arrays_check_extends(arrays: Seq<MirArrayType>, n: int)
    requires
        0 <= n <= arrays.len(),
    ensures
        arrays_check(arrays.take(n)) is Some ==> arrays_check(arrays) == arrays_check(
            arrays.take(n),
        ),
    decreases arrays.len() - n,
{
    if n < arrays.len() {
        lemma_arrays_check_extends(arrays, n + 1);
        assert(arrays.take(n + 1).drop_last() =~= arrays.take(n));
    } else {
        assert(arrays.take(n) =~= arrays);
    }
}

/// Every definition of the program is terminated.
pub open spec fn definitions_terminated(program: &MirProgram) -> bool {
    forall|d: int|
        0 <= d < program.definitions@.len() ==> blocks_terminated(
            &#[trigger] program.definitions@[d],
        )
}

/// Checks the array element types, then every executable definition.
pub fn check(program: &MirProgram) -> (r: Result<(), BackendError>)
    requires
        static_fields_unique(program),
        definitions_terminated(program),
    ensures
        match spec_check(program) {
            None => r is Ok,
            Some((callable, message)) => r matches Err(error) && error_is(error, callable, message),
        },
{
    if program.array_types.len() == 0 {
        return Ok(());
    }
    let mut a: usize = 0;
    while a < program.array_types.len()
        invariant
            a <= program.array_types@.len(),
            arrays_check(program.array_types@.take(a as int)) is None,
        decreases program.array_types@.len() - a,
    {
        let array = program.array_types[a];
        assert(program.array_types@.take((a + 1) as int).drop_last() =~= program.array_types@.take(
            a as int,
        ));
        let supported = matches!(
            array.element,
            MirType::I64
            | MirType::U64
            | MirType::U8
            | MirType::F64
            | MirType::Bool
            | MirType::OptionalPrimitive(_)
            | MirType::Class(_)
            | MirType::OptionalClass(_)
            | MirType::Array(_)
            | MirType::Shared(_)
            | MirType::OptionalShared(_)
        );
        if !supported {
            proof {
                lemma_arrays_check_extends(program.array_types@, (a + 1) as int);
            }
            return Err(
                error(
                    None,
                    framed_decimal(
                        "array ",
                        array.id.index() as u64,
                        " has an element type not supported by x86-64",
                    ),
                ),
            );
        }
        a = a + 1;
    }
    assert(program.array_types@.take(program.array_types@.len() as int) =~= program.array_types@);
    let definitions = program.executable_definitions();
    let mut d: usize = 0;
    while d < definitions.len()
        invariant
            static_fields_unique(program),
            definitions_terminated(program),
            definitions@ == program.definitions@,
            program.array_types@.len() != 0,
            arrays_check(program.array_types@) is None,
            d <= definitions@.len(),
            definitions_error(program, definitions@.take(d as int)) is None,
        decreases definitions@.len() - d,
    {
        assert(definitions@.take((d + 1) as int).drop_last() =~= definitions@.take(d as int));
        assert(definitions@.take((d + 1) as int).last() == definitions@[d as int]);
        assert(blocks_terminated(&definitions@[d as int]));
        match check_definition(program, &definitions[d]) {
            Ok(()) => {},
            Err(failure) => {
                proof {
                    lemma_definitions_error_extends(program, definitions@, (d + 1) as int);
                }
                return Err(failure);
            },
        }
        d = d + 1;
    }
    assert(definitions@.take(definitions@.len() as int) =~= definitions@);
    Ok(())
}

} // verus!
