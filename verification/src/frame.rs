//! Deterministic aligned fixed-stack-frame layout.
//!
//! Homes are allocated downward from the frame pointer in declaration
//! order: each storage entry, then its object-origin words when it carries
//! them, then one eight-byte home per temporary.

use vstd::prelude::*;

use crate::abi::{
    align_up, lemma_align_up, lemma_power_of_two_positive, lemma_small_powers_of_two,
    spec_align_up, STACK_ALIGNMENT,
};
use crate::error::{error_is, outcome_is, BackendError, Target};
use crate::identity::{CallableId, StaticFieldId, StorageId, ValueId};
use crate::layout::{
    data_layout_wf, lemma_optional_layout, type_layout_wf, is_layout_error, result_is, spec_data_ty, spec_optional_layout,
    spec_optional_layout_for, class_missing_message, DataLayout, SHARED_HANDLE_ALIGNMENT,
    SHARED_HANDLE_SIZE, SHARED_HEADER_SIZE,
};
use crate::mir::{
    spec_field, spec_local_storage, spec_static_field, static_fields_unique, MirDefinition,
    MirPlace, MirPlaceBase, MirPlaceProjection, MirProgram, MirStorage, MirStorageKind, MirType,
};

verus! {

pub const SCALAR_HOME_SIZE: usize = 8;
pub const SCALAR_HOME_ALIGNMENT: usize = 8;

/// How a frame place reaches its storage.
#[derive(Clone, Copy, Debug, PartialEq, Eq, Structural)]
pub enum FramePlaceBase {
    StaticField(StaticFieldId),
    Direct,
    Return { home: i32 },
    Receiver { home: i32 },
    OwnedParameter { home: i32 },
    Alias { home: i32 },
    SharedPointee { home: i32 },
}

pub open spec fn spec_pointer_home(base: FramePlaceBase) -> Option<i32> {
    match base {
        FramePlaceBase::Direct | FramePlaceBase::StaticField(_) => None,
        FramePlaceBase::Return { home }
        | FramePlaceBase::Receiver { home }
        | FramePlaceBase::OwnedParameter { home }
        | FramePlaceBase::Alias { home }
        | FramePlaceBase::SharedPointee { home } => Some(home),
    }
}

impl FramePlaceBase {
    /// The frame home of the pointer through which the place is reached.
    pub fn pointer_home(self) -> (r: Option<i32>)
        ensures
            r == spec_pointer_home(self),
    {
        match self {
            FramePlaceBase::Direct | FramePlaceBase::StaticField(_) => None,
            FramePlaceBase::Return { home }
            | FramePlaceBase::Receiver { home }
            | FramePlaceBase::OwnedParameter { home }
            | FramePlaceBase::Alias { home }
            | FramePlaceBase::SharedPointee { home } => Some(home),
        }
    }
}

/// A resolved place: a base, a byte displacement from it, and its type.
#[derive(Clone, Copy, Debug, PartialEq, Eq, Structural)]
pub struct FramePlace {
    pub base: FramePlaceBase,
    pub displacement: i32,
    pub ty: MirType,
    pub byte_access: bool,
}

pub open spec fn is_byte_type(ty: MirType) -> bool {
    ty is U8 || ty is Bool
}

impl FramePlace {
    pub fn array_element(ty: MirType) -> (r: Self)
        ensures
            r == (FramePlace {
                base: FramePlaceBase::Direct,
                displacement: 0,
                ty,
                byte_access: is_byte_type(ty),
            }),
    {
        let byte_access = match ty {
            MirType::U8 | MirType::Bool => true,
            _ => false,
        };
        FramePlace { base: FramePlaceBase::Direct, displacement: 0, ty, byte_access }
    }

    pub fn displacement(self) -> (r: i32)
        ensures
            r == self.displacement,
    {
        self.displacement
    }

    pub fn base(self) -> (r: FramePlaceBase)
        ensures
            r == self.base,
    {
        self.base
    }

    pub fn ty(self) -> (r: MirType)
        ensures
            r == self.ty,
    {
        self.ty
    }

    pub fn uses_byte_access(self) -> (r: bool)
        ensures
            r == self.byte_access,
    {
        self.byte_access
    }
}

/// The homes of the complete-object address and the dynamic metadata that
/// accompany an object alias.
#[derive(Clone, Copy, Debug, PartialEq, Eq, Structural)]
pub struct ObjectOriginHomes {
    pub complete: i32,
    pub metadata: i32,
}

impl ObjectOriginHomes {
    pub fn complete(self) -> (r: i32)
        ensures
            r == self.complete,
    {
        self.complete
    }

    pub fn metadata(self) -> (r: i32)
        ensures
            r == self.metadata,
    {
        self.metadata
    }
}

pub open spec fn frame_too_large_message() -> Seq<char> {
    "stack frame is too large for x86-64 frame-relative addressing"@
}

pub open spec fn place_address_message() -> Seq<char> {
    "projected place exceeds x86-64 displacement limits"@
}

pub open spec fn place_metadata_message() -> Seq<char> {
    "projected base has no matching x86-64 class layout"@
}

pub fn frame_too_large(callable: CallableId) -> (r: BackendError)
    ensures
        error_is(r, Some(callable), frame_too_large_message()),
{
    BackendError::new(
        Target::X86_64SysV,
        Some(callable),
        String::from_str("stack frame is too large for x86-64 frame-relative addressing"),
    )
}

pub fn place_address_error(callable: CallableId) -> (r: BackendError)
    ensures
        error_is(r, Some(callable), place_address_message()),
{
    BackendError::new(
        Target::X86_64SysV,
        Some(callable),
        String::from_str("projected place exceeds x86-64 displacement limits"),
    )
}

pub fn place_metadata_error(callable: CallableId) -> (r: BackendError)
    ensures
        error_is(r, Some(callable), place_metadata_message()),
{
    BackendError::new(
        Target::X86_64SysV,
        Some(callable),
        String::from_str("projected base has no matching x86-64 class layout"),
    )
}

/// The end of the next home after `used` bytes, when the home's far edge
/// stays addressable from the frame pointer.
pub open spec fn spec_allocate(used: int, size: int, alignment: int) -> Option<int> {
    match spec_align_up(used, alignment) {
        Some(start) => if start + size <= i32::MAX {
            Some(start + size)
        } else {
            None
        },
        None => None,
    }
}

/// The frame size: the used bytes padded to the stack alignment.
pub open spec fn spec_frame_size(used: int) -> Option<int> {
    match spec_align_up(used, STACK_ALIGNMENT as int) {
        Some(size) => if size <= i32::MAX {
            Some(size)
        } else {
            None
        },
        None => None,
    }
}

/// A downward bump allocator for frame homes.
pub struct FrameAllocator {
    pub callable: CallableId,
    pub used: usize,
}

impl FrameAllocator {
    pub fn new(function: &MirDefinition) -> (r: Self)
        ensures
            r.callable == function.callable,
            r.used == 0,
    {
        FrameAllocator { callable: function.callable(), used: 0 }
    }

    /// Allocates one home and returns its frame-pointer-relative displacement.
    pub fn allocate(&mut self, size: usize, alignment: usize) -> (r: Result<i32, BackendError>)
        requires
            crate::abi::is_power_of_two(alignment),
        ensures
            final(self).callable == old(self).callable,
            match spec_allocate(old(self).used as int, size as int, alignment as int) {
                Some(end) => r == Ok::<i32, BackendError>((-end) as i32) && final(self).used
                    == end,
                None => r matches Err(error) && error_is(
                    error,
                    Some(old(self).callable),
                    frame_too_large_message(),
                ) && final(self).used == old(self).used,
            },
    {
        let start = match align_up(self.used, alignment) {
            Some(start) => start,
            None => return Err(self.error()),
        };
        let end = match start.checked_add(size) {
            Some(end) => end,
            None => return Err(self.error()),
        };
        if end > 0x7fff_ffffusize {
            return Err(self.error());
        }
        let displacement = -(end as i32);
        self.used = end;
        Ok(displacement)
    }

    /// The frame size, padded to the stack alignment.
    pub fn finish(&self) -> (r: Result<u32, BackendError>)
        ensures
            match spec_frame_size(self.used as int) {
                Some(size) => r == Ok::<u32, BackendError>(size as u32),
                None => r matches Err(error) && error_is(
                    error,
                    Some(self.callable),
                    frame_too_large_message(),
                ),
            },
    {
        proof {
            lemma_small_powers_of_two();
        }
        let size = match align_up(self.used, STACK_ALIGNMENT) {
            Some(size) => size,
            None => return Err(self.error()),
        };
        if size > 0x7fff_ffffusize {
            return Err(self.error());
        }
        Ok(size as u32)
    }

    pub fn error(&self) -> (r: BackendError)
        ensures
            error_is(r, Some(self.callable), frame_too_large_message()),
    {
        frame_too_large(self.callable)
    }
}

/// Law: consecutive homes never overlap, each is aligned, and each lies
/// strictly below the frame pointer and inside the frame.
pub proof fn lemma_allocation_disjoint(used: int, size: int, alignment: int)
    requires
        0 <= used,
        0 < alignment,
        0 <= size,
        spec_allocate(used, size, alignment) is Some,
    ensures
        ({
            let end = spec_allocate(used, size, alignment).unwrap();
            let start = end - size;
            &&& used <= start
            &&& start % alignment == 0
            &&& end <= i32::MAX
            &&& spec_frame_size(end) is Some ==> end <= spec_frame_size(end).unwrap()
        }),
{
    lemma_align_up(used, alignment);
    let end = spec_allocate(used, size, alignment).unwrap();
    if spec_align_up(end, STACK_ALIGNMENT as int) is Some {
        lemma_align_up(end, STACK_ALIGNMENT as int);
    }
}

/// The size and alignment of the home of one storage entry: handles and
/// pointer-passed storage take one scalar word; owned classes and optionals
/// take their data layout; every other scalar takes one word.
pub open spec fn spec_storage_home(storage: MirStorage, data_layout: &DataLayout) -> Result<
    (usize, usize),
    Seq<char>,
> {
    if storage.kind is SharedAllocation || storage.ty is Shared || storage.ty is OptionalShared {
        Ok((SHARED_HANDLE_SIZE, SHARED_HANDLE_ALIGNMENT))
    } else if storage.kind is Return || storage.kind is Receiver || storage.kind is AliasParameter
        || storage.kind is CheckedView || (storage.kind is Parameter && (storage.ty is Class
        || storage.ty is OptionalPrimitive || storage.ty is OptionalClass
        || storage.ty is Array)) {
        Ok((SCALAR_HOME_SIZE, SCALAR_HOME_ALIGNMENT))
    } else {
        match storage.ty {
            MirType::Class(_) | MirType::Unit => match spec_data_ty(data_layout, storage.ty) {
                Ok(layout) => Ok((layout.size, layout.alignment)),
                Err(message) => Err(message),
            },
            MirType::OptionalPrimitive(payload) => {
                let layout = spec_optional_layout(payload).ty;
                Ok((layout.size, layout.alignment))
            },
            MirType::OptionalClass(class) => if class.idx < data_layout.classes@.len() {
                match spec_optional_layout_for(data_layout.classes@[class.idx as int].ty) {
                    Ok(optional) => Ok((optional.ty.size, optional.ty.alignment)),
                    Err(message) => Err(message),
                }
            } else {
                Err(class_missing_message(class))
            },
            _ => Ok((SCALAR_HOME_SIZE, SCALAR_HOME_ALIGNMENT)),
        }
    }
}

/// Storage that holds its value in its own frame home: neither a shared
/// allocation, nor a parameter, return slot, receiver, alias or checked
/// view, all of which may reach their value through an address.
pub open spec fn held_in_place(kind: MirStorageKind) -> bool {
    !(kind is SharedAllocation || kind is Parameter || kind is Return || kind is Receiver
        || kind is AliasParameter || kind is CheckedView)
}

/// A class object held in place gets a home of exactly its class layout's
/// size and alignment, so its fields never reach into a neighbouring home;
/// a class without a layout gets no home.
pub proof fn lemma_class_home_is_class_layout(storage: MirStorage, data_layout: &DataLayout)
    requires
        held_in_place(storage.kind),
        storage.ty is Class,
    ensures
        match storage.ty {
            MirType::Class(class) => if class.idx < data_layout.classes@.len() {
                spec_storage_home(storage, data_layout) == Ok::<(usize, usize), Seq<char>>(
                    (
                        data_layout.classes@[class.idx as int].ty.size,
                        data_layout.classes@[class.idx as int].ty.alignment,
                    ),
                )
            } else {
                spec_storage_home(storage, data_layout) is Err
            },
            _ => false,
        },
{
}

/// A home held in place is at least as large, and at least as aligned, as
/// the data layout of the value it stores; for a class or an optional it is
/// exactly that layout.
pub proof fn lemma_home_holds_value(storage: MirStorage, data_layout: &DataLayout)
    requires
        held_in_place(storage.kind),
        spec_data_ty(data_layout, storage.ty) is Ok,
    ensures
        spec_storage_home(storage, data_layout) matches Ok((size, alignment)) && {
            let layout = spec_data_ty(data_layout, storage.ty)->Ok_0;
            &&& size >= layout.size
            &&& alignment >= layout.alignment
            &&& (storage.ty is Class || storage.ty is OptionalPrimitive || storage.ty is OptionalClass)
                ==> size == layout.size && alignment == layout.alignment
        },
{
}

/// Storage that holds a shared handle, or that reaches its value through
/// an address (a return slot, receiver, alias, checked view, or a class,
/// optional or array parameter), gets a home of exactly one word.
pub proof fn lemma_address_and_handle_homes_are_one_word(storage: MirStorage, data_layout: &DataLayout)
    requires
        storage.kind is SharedAllocation || storage.ty is Shared || storage.ty is OptionalShared
            || storage.kind is Return || storage.kind is Receiver || storage.kind is AliasParameter
            || storage.kind is CheckedView || (storage.kind is Parameter && (storage.ty is Class
            || storage.ty is OptionalPrimitive || storage.ty is OptionalClass || storage.ty is Array)),
    ensures
        spec_storage_home(storage, data_layout) == Ok::<(usize, usize), Seq<char>>((8, 8)),
{
}

/// Receivers, checked views, object aliases, and class array aliases also
/// keep the complete-object address and dynamic metadata.
pub open spec fn spec_carries_origin(storage: MirStorage) -> bool {
    storage.kind is Receiver || storage.kind is CheckedView || (storage.kind is AliasParameter && (
    storage.ty is Class || storage.ty is Interface || storage.ty is Obj)) || (storage.kind is ArrayAlias
        && storage.ty is Class)
}

pub open spec fn frame_error(callable: CallableId) -> (Option<CallableId>, Seq<char>) {
    (Some(callable), frame_too_large_message())
}

/// Allocates the homes of one storage entry after `used` bytes.
pub open spec fn spec_plan_entry(
    used: int,
    storage: MirStorage,
    data_layout: &DataLayout,
    callable: CallableId,
) -> Result<(int, i32, Option<ObjectOriginHomes>), (Option<CallableId>, Seq<char>)> {
    match spec_storage_home(storage, data_layout) {
        Err(message) => Err((None, message)),
        Ok((size, alignment)) => match spec_allocate(used, size as int, alignment as int) {
            None => Err(frame_error(callable)),
            Some(end) => if spec_carries_origin(storage) {
                match spec_allocate(end, 8, 8) {
                    None => Err(frame_error(callable)),
                    Some(complete) => match spec_allocate(complete, 8, 8) {
                        None => Err(frame_error(callable)),
                        Some(metadata) => Ok(
                            (
                                metadata,
                                (-end) as i32,
                                Some(
                                    ObjectOriginHomes {
                                        complete: (-complete) as i32,
                                        metadata: (-metadata) as i32,
                                    },
                                ),
                            ),
                        ),
                    },
                }
            } else {
                Ok((end, (-end) as i32, None))
            },
        },
    }
}

/// The lowest address of the homes of one storage entry: its origin's
/// metadata word when it keeps an origin, else its own home.
pub open spec fn lowest_home(offset: i32, origin: Option<ObjectOriginHomes>) -> int {
    match origin {
        Some(homes) => homes.metadata as int,
        None => offset as int,
    }
}

/// The homes of one entry lie in `[-next, -used)`: the value home first,
/// then the origin's complete-object and metadata words below it.
pub open spec fn entry_homes_within(
    used: int,
    next: int,
    offset: i32,
    size: int,
    origin: Option<ObjectOriginHomes>,
) -> bool {
    &&& used <= next
    &&& offset + size <= -used
    &&& -next <= lowest_home(offset, origin)
    &&& match origin {
        Some(homes) => homes.complete + 8 <= offset && homes.metadata + 8 <= homes.complete,
        None => true,
    }
}

proof fn lemma_entry_homes(used: int, storage: MirStorage, data_layout: &DataLayout, callable: CallableId)
    requires
        0 <= used,
        data_layout_wf(data_layout),
        spec_plan_entry(used, storage, data_layout, callable) is Ok,
    ensures
        ({
            let (next, offset, origin) = spec_plan_entry(used, storage, data_layout, callable)->Ok_0;
            let size = spec_storage_home(storage, data_layout)->Ok_0.0 as int;
            entry_homes_within(used, next, offset, size, origin)
        }),
{
    let (size, alignment) = spec_storage_home(storage, data_layout)->Ok_0;
    lemma_home_alignment_positive(storage, data_layout);
    lemma_allocation_disjoint(used, size as int, alignment as int);
    let end = spec_allocate(used, size as int, alignment as int).unwrap();
    if spec_carries_origin(storage) {
        lemma_allocation_disjoint(end, 8, 8);
        let complete = spec_allocate(end, 8, 8).unwrap();
        lemma_allocation_disjoint(complete, 8, 8);
    }
}

/// Every home has a positive alignment.
proof fn lemma_home_alignment_positive(storage: MirStorage, data_layout: &DataLayout)
    requires
        spec_storage_home(storage, data_layout) is Ok,
        data_layout_wf(data_layout),
    ensures
        spec_storage_home(storage, data_layout)->Ok_0.1 > 0,
{
    match storage.ty {
        MirType::Class(class) => {
            if class.idx < data_layout.classes@.len() {
                let ty = data_layout.classes@[class.idx as int].ty;
                assert(type_layout_wf(ty));
                lemma_power_of_two_positive(ty.alignment);
            }
        },
        MirType::OptionalPrimitive(payload) => {
            lemma_optional_layout(payload);
        },
        _ => {},
    }
}

/// Allocates the homes of every storage entry in order.
pub open spec fn spec_plan_storage(
    entries: Seq<MirStorage>,
    data_layout: &DataLayout,
    callable: CallableId,
) -> Result<(int, Seq<i32>, Seq<Option<ObjectOriginHomes>>), (Option<CallableId>, Seq<char>)>
    decreases entries.len(),
{
    if entries.len() == 0 {
        Ok((0, Seq::empty(), Seq::empty()))
    } else {
        match spec_plan_storage(entries.drop_last(), data_layout, callable) {
            Err(error) => Err(error),
            Ok((used, offsets, origins)) => match spec_plan_entry(
                used,
                entries.last(),
                data_layout,
                callable,
            ) {
                Err(error) => Err(error),
                Ok((next, offset, origin)) => Ok((next, offsets.push(offset), origins.push(origin))),
            },
        }
    }
}

/// Allocates one scalar home for each of `count` temporaries after `used`.
pub open spec fn spec_plan_values(used: int, count: nat) -> Option<(int, Seq<i32>)>
    decreases count,
{
    if count == 0 {
        Some((used, Seq::empty()))
    } else {
        match spec_plan_values(used, (count - 1) as nat) {
            None => None,
            Some((after, offsets)) => match spec_allocate(after, 8, 8) {
                None => None,
                Some(end) => Some((end, offsets.push((-end) as i32))),
            },
        }
    }
}

/// The homes of every storage entry and temporary, and the frame size.
pub struct FrameLayoutModel {
    pub size: int,
    pub storage_offsets: Seq<i32>,
    pub object_origins: Seq<Option<ObjectOriginHomes>>,
    pub value_offsets: Seq<i32>,
}

pub open spec fn spec_frame_plan(function: &MirDefinition, data_layout: &DataLayout) -> Result<
    FrameLayoutModel,
    (Option<CallableId>, Seq<char>),
> {
    match spec_plan_storage(function.storage@, data_layout, function.callable) {
        Err(error) => Err(error),
        Ok((used, storage_offsets, object_origins)) => match spec_plan_values(
            used,
            function.values@.len(),
        ) {
            None => Err(frame_error(function.callable)),
            Some((end, value_offsets)) => match spec_frame_size(end) {
                None => Err(frame_error(function.callable)),
                Some(size) => Ok(
                    FrameLayoutModel { size, storage_offsets, object_origins, value_offsets },
                ),
            },
        },
    }
}

/// The fixed frame of one callable body.
#[derive(Clone, Debug, PartialEq, Eq)]
pub struct FrameLayout {
    pub size: u32,
    pub storage_offsets: Vec<i32>,
    pub object_origins: Vec<Option<ObjectOriginHomes>>,
    pub value_offsets: Vec<i32>,
}

impl View for FrameLayout {
    type V = FrameLayoutModel;

    open spec fn view(&self) -> FrameLayoutModel {
        FrameLayoutModel {
            size: self.size as int,
            storage_offsets: self.storage_offsets@,
            object_origins: self.object_origins@,
            value_offsets: self.value_offsets@,
        }
    }
}

/// The size of the home of a storage entry whose home is known.
pub open spec fn home_size(storage: MirStorage, data_layout: &DataLayout) -> int {
    spec_storage_home(storage, data_layout)->Ok_0.0 as int
}

/// Law: storage homes are laid out downwards in declaration order without
/// overlap: each entry's homes lie below those of every earlier entry,
/// its origin words lie below its own home, and all lie in `[-used, 0)`.
pub proof fn lemma_plan_storage_homes(
    entries: Seq<MirStorage>,
    data_layout: &DataLayout,
    callable: CallableId,
)
    requires
        data_layout_wf(data_layout),
        spec_plan_storage(entries, data_layout, callable) is Ok,
    ensures
        ({
            let (used, offsets, origins) = spec_plan_storage(entries, data_layout, callable)->Ok_0;
            &&& 0 <= used
            &&& offsets.len() == entries.len()
            &&& origins.len() == entries.len()
            &&& forall|k: int|
                0 <= k < entries.len() ==> entry_homes_within(
                    0,
                    used,
                    #[trigger] offsets[k],
                    home_size(entries[k], data_layout),
                    origins[k],
                )
            &&& forall|i: int, j: int|
                #![trigger offsets[i], offsets[j]]
                0 <= i < j < entries.len() ==> offsets[j] + home_size(entries[j], data_layout)
                    <= lowest_home(offsets[i], origins[i])
        }),
    decreases entries.len(),
{
    if entries.len() > 0 {
        let prefix = entries.drop_last();
        lemma_plan_storage_homes(prefix, data_layout, callable);
        let (used, offsets, origins) = spec_plan_storage(prefix, data_layout, callable)->Ok_0;
        lemma_entry_homes(used, entries.last(), data_layout, callable);
        let (next, offset, origin) = spec_plan_entry(
            used,
            entries.last(),
            data_layout,
            callable,
        )->Ok_0;
        let all_offsets = offsets.push(offset);
        let all_origins = origins.push(origin);
        assert forall|k: int| 0 <= k < entries.len() implies entry_homes_within(
            0,
            next,
            #[trigger] all_offsets[k],
            home_size(entries[k], data_layout),
            all_origins[k],
        ) by {
            if k < prefix.len() {
                assert(entries[k] == prefix[k]);
                assert(entry_homes_within(0, used, offsets[k], home_size(prefix[k], data_layout), origins[k]));
            }
        }
        assert forall|i: int, j: int|
            #![trigger all_offsets[i], all_offsets[j]]
            0 <= i < j < entries.len() implies all_offsets[j] + home_size(
            entries[j],
            data_layout,
        ) <= lowest_home(all_offsets[i], all_origins[i]) by {
            assert(entries[i] == prefix[i]);
            assert(entry_homes_within(0, used, offsets[i], home_size(prefix[i], data_layout), origins[i]));
            if j < prefix.len() {
                assert(entries[j] == prefix[j]);
            }
        }
    }
}

/// Law: temporaries' homes are eight-byte words laid out downwards in
/// order without overlap, all in `[-end, -used)`.
pub proof fn lemma_plan_value_homes(used: int, count: nat)
    requires
        0 <= used,
        spec_plan_values(used, count) is Some,
    ensures
        ({
            let (end, offsets) = spec_plan_values(used, count).unwrap();
            &&& used <= end
            &&& offsets.len() == count
            &&& forall|k: int|
                0 <= k < count ==> -end <= #[trigger] offsets[k] && offsets[k] + 8 <= -used
            &&& forall|i: int, j: int|
                0 <= i < j < count ==> #[trigger] offsets[j] + 8 <= #[trigger] offsets[i]
        }),
    decreases count,
{
    if count > 0 {
        lemma_plan_value_homes(used, (count - 1) as nat);
        let (after, offsets) = spec_plan_values(used, (count - 1) as nat).unwrap();
        lemma_allocation_disjoint(after, 8, 8);
    }
}

/// Law: no two homes of a planned frame overlap, and every home lies
/// inside the frame: below the frame pointer and above `-size`.
pub proof fn lemma_frame_homes_disjoint(function: &MirDefinition, data_layout: &DataLayout)
    requires
        data_layout_wf(data_layout),
        spec_frame_plan(function, data_layout) is Ok,
    ensures
        ({
            let model = spec_frame_plan(function, data_layout)->Ok_0;
            let entries = function.storage@;
            &&& forall|k: int|
                0 <= k < entries.len() ==> -model.size <= lowest_home(
                    #[trigger] model.storage_offsets[k],
                    model.object_origins[k],
                ) && model.storage_offsets[k] + home_size(entries[k], data_layout) <= 0
            &&& forall|i: int, j: int|
                #![trigger model.storage_offsets[i], model.storage_offsets[j]]
                0 <= i < j < entries.len() ==> model.storage_offsets[j] + home_size(
                    entries[j],
                    data_layout,
                ) <= lowest_home(model.storage_offsets[i], model.object_origins[i])
            &&& forall|v: int, k: int|
                0 <= v < model.value_offsets.len() && 0 <= k < entries.len()
                    ==> #[trigger] model.value_offsets[v] + 8 <= lowest_home(
                    #[trigger] model.storage_offsets[k],
                    model.object_origins[k],
                )
            &&& forall|v: int| 0 <= v < model.value_offsets.len() ==> -model.size
                <= #[trigger] model.value_offsets[v]
            &&& forall|v: int, w: int|
                0 <= v < w < model.value_offsets.len() ==> #[trigger] model.value_offsets[w] + 8
                    <= #[trigger] model.value_offsets[v]
        }),
{
    let entries = function.storage@;
    lemma_plan_storage_homes(entries, data_layout, function.callable);
    let (used, offsets, origins) = spec_plan_storage(entries, data_layout, function.callable)->Ok_0;
    lemma_plan_value_homes(used, function.values@.len());
    let (end, values) = spec_plan_values(used, function.values@.len()).unwrap();
    lemma_align_up(end, STACK_ALIGNMENT as int);
    let model = spec_frame_plan(function, data_layout)->Ok_0;
    assert forall|k: int| 0 <= k < entries.len() implies -model.size <= lowest_home(
        #[trigger] model.storage_offsets[k],
        model.object_origins[k],
    ) && model.storage_offsets[k] + home_size(entries[k], data_layout) <= 0 by {
        assert(entry_homes_within(0, used, offsets[k], home_size(entries[k], data_layout), origins[k]));
    }
    assert forall|v: int, k: int|
        0 <= v < model.value_offsets.len() && 0 <= k < entries.len() implies #[trigger] model.value_offsets[v]
        + 8 <= lowest_home(#[trigger] model.storage_offsets[k], model.object_origins[k]) by {
        assert(entry_homes_within(0, used, offsets[k], home_size(entries[k], data_layout), origins[k]));
        assert(values[v] + 8 <= -used);
    }
    assert forall|v: int| 0 <= v < model.value_offsets.len() implies -model.size
        <= #[trigger] model.value_offsets[v] by {
        assert(-end <= values[v]);
    }
}

pub proof fn lemma_plan_storage_prefix_fails(
    entries: Seq<MirStorage>,
    data_layout: &DataLayout,
    callable: CallableId,
    k: int,
)
    requires
        0 <= k <= entries.len(),
        spec_plan_storage(entries.take(k), data_layout, callable) is Err,
    ensures
        spec_plan_storage(entries, data_layout, callable) == spec_plan_storage(
            entries.take(k),
            data_layout,
            callable,
        ),
    decreases entries.len() - k,
{
    if k < entries.len() {
        assert(entries.take(k + 1).drop_last() =~= entries.take(k));
        lemma_plan_storage_prefix_fails(entries, data_layout, callable, k + 1);
    } else {
        assert(entries.take(k) =~= entries);
    }
}

pub proof fn lemma_plan_values_prefix_fails(used: int, count: nat, k: nat)
    requires
        k <= count,
        spec_plan_values(used, k) is None,
    ensures
        spec_plan_values(used, count) is None,
    decreases count - k,
{
    if k < count {
        lemma_plan_values_prefix_fails(used, count, k + 1);
    }
}

impl FrameLayout {
    /// Allocates the fixed frame of one callable body.
    pub fn plan(function: &MirDefinition, data_layout: &DataLayout) -> (r: Result<
        Self,
        BackendError,
    >)
        requires
            data_layout_wf(data_layout),
        ensures
            match spec_frame_plan(function, data_layout) {
                Ok(model) => r matches Ok(frame) && frame@ == model,
                Err((callable, message)) => r matches Err(error) && error_is(
                    error,
                    callable,
                    message,
                ),
            },
    {
        proof {
            lemma_small_powers_of_two();
        }
        let mut allocator = FrameAllocator::new(function);
        let entries = function.storage_entries();
        let mut storage_offsets: Vec<i32> = Vec::new();
        let mut object_origins: Vec<Option<ObjectOriginHomes>> = Vec::new();
        let mut i: usize = 0;
        while i < entries.len()
            invariant
                entries@ == function.storage@,
                data_layout_wf(data_layout),
                allocator.callable == function.callable,
                crate::abi::is_power_of_two(8),
                i <= entries@.len(),
                spec_plan_storage(entries@.take(i as int), data_layout, function.callable) == Ok::<
                    (int, Seq<i32>, Seq<Option<ObjectOriginHomes>>),
                    (Option<CallableId>, Seq<char>),
                >((allocator.used as int, storage_offsets@, object_origins@)),
            decreases entries@.len() - i,
        {
            let storage = entries[i];
            assert(entries@.take((i + 1) as int).drop_last() =~= entries@.take(i as int));
            assert(entries@.take((i + 1) as int).last() == storage);
            let home = storage_home(storage, data_layout);
            let (size, alignment) = match home {
                Ok(home) => home,
                Err(error) => {
                    proof {
                        lemma_plan_storage_prefix_fails(
                            function.storage@,
                            data_layout,
                            function.callable,
                            i + 1,
                        );
                    }
                    return Err(error);
                },
            };
            let offset = match allocator.allocate(size, alignment) {
                Ok(offset) => offset,
                Err(error) => {
                    proof {
                        lemma_plan_storage_prefix_fails(
                            function.storage@,
                            data_layout,
                            function.callable,
                            i + 1,
                        );
                    }
                    return Err(error);
                },
            };
            storage_offsets.push(offset);
            if carries_origin(storage) {
                let complete = match allocator.allocate(SCALAR_HOME_SIZE, SCALAR_HOME_ALIGNMENT) {
                    Ok(offset) => offset,
                    Err(error) => {
                        proof {
                            lemma_plan_storage_prefix_fails(
                                function.storage@,
                                data_layout,
                                function.callable,
                                i + 1,
                            );
                        }
                        return Err(error);
                    },
                };
                let metadata = match allocator.allocate(SCALAR_HOME_SIZE, SCALAR_HOME_ALIGNMENT) {
                    Ok(offset) => offset,
                    Err(error) => {
                        proof {
                            lemma_plan_storage_prefix_fails(
                                function.storage@,
                                data_layout,
                                function.callable,
                                i + 1,
                            );
                        }
                        return Err(error);
                    },
                };
                object_origins.push(Some(ObjectOriginHomes { complete, metadata }));
            } else {
                object_origins.push(None);
            }
            i = i + 1;
        }
        assert(entries@.take(entries@.len() as int) =~= entries@);
        let ghost after_storage = allocator.used as int;
        let values = function.values();
        let mut value_offsets: Vec<i32> = Vec::new();
        let mut v: usize = 0;
        while v < values.len()
            invariant
                values@ == function.values@,
                allocator.callable == function.callable,
                crate::abi::is_power_of_two(8),
                v <= values@.len(),
                spec_plan_storage(function.storage@, data_layout, function.callable) == Ok::<
                    (int, Seq<i32>, Seq<Option<ObjectOriginHomes>>),
                    (Option<CallableId>, Seq<char>),
                >((after_storage, storage_offsets@, object_origins@)),
                spec_plan_values(after_storage, v as nat) == Some(
                    (allocator.used as int, value_offsets@),
                ),
            decreases values@.len() - v,
        {
            let offset = match allocator.allocate(SCALAR_HOME_SIZE, SCALAR_HOME_ALIGNMENT) {
                Ok(offset) => offset,
                Err(error) => {
                    proof {
                        lemma_plan_values_prefix_fails(
                            after_storage,
                            function.values@.len(),
                            (v + 1) as nat,
                        );
                    }
                    return Err(error);
                },
            };
            value_offsets.push(offset);
            v = v + 1;
        }
        let size = match allocator.finish() {
            Ok(size) => size,
            Err(error) => return Err(error),
        };
        Ok(FrameLayout { size, storage_offsets, object_origins, value_offsets })
    }

    pub fn size(&self) -> (r: u32)
        ensures
            r == self.size,
    {
        self.size
    }

    pub fn storage(&self, id: StorageId) -> (r: i32)
        requires
            id.idx < self.storage_offsets@.len(),
        ensures
            r == self.storage_offsets@[id.idx as int],
    {
        self.storage_offsets[id.index()]
    }

    pub fn value(&self, id: ValueId) -> (r: i32)
        requires
            id.idx < self.value_offsets@.len(),
        ensures
            r == self.value_offsets@[id.idx as int],
    {
        self.value_offsets[id.index()]
    }

    pub fn object_origin(&self, id: StorageId) -> (r: Option<ObjectOriginHomes>)
        requires
            id.idx < self.object_origins@.len(),
        ensures
            r == self.object_origins@[id.idx as int],
    {
        self.object_origins[id.index()]
    }
}

pub fn storage_home(storage: MirStorage, data_layout: &DataLayout) -> (r: Result<
    (usize, usize),
    BackendError,
>)
    requires
        data_layout_wf(data_layout),
    ensures
        result_is(r, spec_storage_home(storage, data_layout)),
        r matches Ok((_, alignment)) ==> crate::abi::is_power_of_two(alignment),
{
    proof {
        lemma_small_powers_of_two();
    }
    let handle = match storage.kind {
        MirStorageKind::SharedAllocation => true,
        _ => match storage.ty {
            MirType::Shared(_) | MirType::OptionalShared(_) => true,
            _ => false,
        },
    };
    if handle {
        return Ok((SHARED_HANDLE_SIZE, SHARED_HANDLE_ALIGNMENT));
    }
    let pointer = match storage.kind {
        MirStorageKind::Return
        | MirStorageKind::Receiver
        | MirStorageKind::AliasParameter(_)
        | MirStorageKind::CheckedView(_) => true,
        MirStorageKind::Parameter => match storage.ty {
            MirType::Class(_)
            | MirType::OptionalPrimitive(_)
            | MirType::OptionalClass(_)
            | MirType::Array(_) => true,
            _ => false,
        },
        _ => false,
    };
    if pointer {
        return Ok((SCALAR_HOME_SIZE, SCALAR_HOME_ALIGNMENT));
    }
    match storage.ty {
        MirType::Class(_) | MirType::Unit => match data_layout.ty(storage.ty) {
            Ok(layout) => Ok((layout.size(), layout.alignment())),
            Err(error) => Err(error),
        },
        MirType::OptionalPrimitive(payload) => match data_layout.optional(payload) {
            Ok(layout) => Ok((layout.ty().size(), layout.ty().alignment())),
            Err(error) => Err(error),
        },
        MirType::OptionalClass(class) => match data_layout.optional_class(class) {
            Ok(layout) => Ok((layout.ty().size(), layout.ty().alignment())),
            Err(error) => Err(error),
        },
        _ => Ok((SCALAR_HOME_SIZE, SCALAR_HOME_ALIGNMENT)),
    }
}

pub fn carries_origin(storage: MirStorage) -> (r: bool)
    ensures
        r == spec_carries_origin(storage),
{
    match storage.kind {
        MirStorageKind::Receiver | MirStorageKind::CheckedView(_) => true,
        MirStorageKind::AliasParameter(_) => match storage.ty {
            MirType::Class(_) | MirType::Interface(_) | MirType::Obj => true,
            _ => false,
        },
        MirStorageKind::ArrayAlias(_) => match storage.ty {
            MirType::Class(_) => true,
            _ => false,
        },
        _ => false,
    }
}

/// One projection step: the byte offset of the part and its type.
pub open spec fn spec_project_step(
    program: &MirProgram,
    data_layout: &DataLayout,
    callable: CallableId,
    ty: MirType,
    projection: MirPlaceProjection,
) -> Result<(usize, MirType), (Option<CallableId>, Seq<char>)> {
    match projection {
        MirPlaceProjection::Base(base) => match ty {
            MirType::Class(class) => if class.idx < data_layout.classes@.len() && (
            data_layout.classes@[class.idx as int].base matches Some(layout) && layout.class
                == base) {
                Ok((data_layout.classes@[class.idx as int].base->Some_0.offset, MirType::Class(base)))
            } else {
                Err((Some(callable), place_metadata_message()))
            },
            _ => Err((Some(callable), place_metadata_message())),
        },
        MirPlaceProjection::Field(field) => Ok(
            (
                data_layout.classes@[field.owner.idx as int].fields@[field.idx as int].offset,
                spec_field(program, field)->Some_0.ty,
            ),
        ),
        MirPlaceProjection::OptionalPayload(class) => if ty != MirType::OptionalClass(class) {
            Err((Some(callable), place_metadata_message()))
        } else if class.idx < data_layout.classes@.len() {
            match spec_optional_layout_for(data_layout.classes@[class.idx as int].ty) {
                Ok(optional) => Ok((optional.payload_offset, MirType::Class(class))),
                Err(message) => Err((None, message)),
            }
        } else {
            Err((None, class_missing_message(class)))
        },
        MirPlaceProjection::ArrayElement { .. } => Err((Some(callable), place_metadata_message())),
    }
}

/// Applies projections in order, accumulating a checked 32-bit displacement.
pub open spec fn spec_projected_place(
    program: &MirProgram,
    data_layout: &DataLayout,
    callable: CallableId,
    displacement: i32,
    ty: MirType,
    projections: Seq<MirPlaceProjection>,
) -> Result<(i32, MirType), (Option<CallableId>, Seq<char>)>
    decreases projections.len(),
{
    if projections.len() == 0 {
        Ok((displacement, ty))
    } else {
        match spec_projected_place(
            program,
            data_layout,
            callable,
            displacement,
            ty,
            projections.drop_last(),
        ) {
            Err(error) => Err(error),
            Ok((current, current_ty)) => match spec_project_step(
                program,
                data_layout,
                callable,
                current_ty,
                projections.last(),
            ) {
                Err(error) => Err(error),
                Ok((offset, next_ty)) => if offset <= i32::MAX && i32::MIN <= current + offset
                    <= i32::MAX {
                    Ok(((current + offset) as i32, next_ty))
                } else {
                    Err((Some(callable), place_address_message()))
                },
            },
        }
    }
}

/// Every field a place projects through is declared and laid out, and no
/// array element is projected (array lowering selects those addresses).
pub open spec fn projections_resolvable(
    program: &MirProgram,
    data_layout: &DataLayout,
    projections: Seq<MirPlaceProjection>,
) -> bool {
    forall|i: int|
        0 <= i < projections.len() ==> match #[trigger] projections[i] {
            MirPlaceProjection::Field(field) => spec_field(program, field) is Some && field.owner.idx
                < data_layout.classes@.len() && field.idx
                < data_layout.classes@[field.owner.idx as int].fields@.len(),
            MirPlaceProjection::ArrayElement { .. } => false,
            _ => true,
        }
}

pub proof fn lemma_projected_prefix_fails(
    program: &MirProgram,
    data_layout: &DataLayout,
    callable: CallableId,
    displacement: i32,
    ty: MirType,
    projections: Seq<MirPlaceProjection>,
    k: int,
)
    requires
        0 <= k <= projections.len(),
        spec_projected_place(
            program,
            data_layout,
            callable,
            displacement,
            ty,
            projections.take(k),
        ) is Err,
    ensures
        spec_projected_place(program, data_layout, callable, displacement, ty, projections)
            == spec_projected_place(
            program,
            data_layout,
            callable,
            displacement,
            ty,
            projections.take(k),
        ),
    decreases projections.len() - k,
{
    if k < projections.len() {
        assert(projections.take(k + 1).drop_last() =~= projections.take(k));
        lemma_projected_prefix_fails(
            program,
            data_layout,
            callable,
            displacement,
            ty,
            projections,
            k + 1,
        );
    } else {
        assert(projections.take(k) =~= projections);
    }
}

pub fn projected_place(
    program: &MirProgram,
    function: &MirDefinition,
    data_layout: &DataLayout,
    displacement: i32,
    ty: MirType,
    projections: &Vec<MirPlaceProjection>,
) -> (r: Result<(i32, MirType), BackendError>)
    requires
        data_layout_wf(data_layout),
        projections_resolvable(program, data_layout, projections@),
    ensures
        outcome_is(
            r,
            spec_projected_place(
                program,
                data_layout,
                function.callable,
                displacement,
                ty,
                projections@,
            ),
        ),
{
    let callable = function.callable();
    let mut current = displacement;
    let mut current_ty = ty;
    let mut i: usize = 0;
    while i < projections.len()
        invariant
            callable == function.callable,
            data_layout_wf(data_layout),
            projections_resolvable(program, data_layout, projections@),
            i <= projections@.len(),
            spec_projected_place(
                program,
                data_layout,
                callable,
                displacement,
                ty,
                projections@.take(i as int),
            ) == Ok::<(i32, MirType), (Option<CallableId>, Seq<char>)>((current, current_ty)),
        decreases projections@.len() - i,
    {
        let projection = projections[i];
        assert(projections@.take((i + 1) as int).drop_last() =~= projections@.take(i as int));
        assert(projections@.take((i + 1) as int).last() == projection);
        let step = project_step(program, data_layout, callable, current_ty, projection);
        let (offset, next_ty) = match step {
            Ok(step) => step,
            Err(error) => {
                proof {
                    lemma_projected_prefix_fails(
                        program,
                        data_layout,
                        callable,
                        displacement,
                        ty,
                        projections@,
                        i + 1,
                    );
                }
                return Err(error);
            },
        };
        if offset > 0x7fff_ffffusize {
            proof {
                lemma_projected_prefix_fails(
                    program,
                    data_layout,
                    callable,
                    displacement,
                    ty,
                    projections@,
                    i + 1,
                );
            }
            return Err(place_address_error(callable));
        }
        current = match current.checked_add(offset as i32) {
            Some(next) => next,
            None => {
                proof {
                    lemma_projected_prefix_fails(
                        program,
                        data_layout,
                        callable,
                        displacement,
                        ty,
                        projections@,
                        i + 1,
                    );
                }
                return Err(place_address_error(callable));
            },
        };
        current_ty = next_ty;
        i = i + 1;
    }
    assert(projections@.take(projections@.len() as int) =~= projections@);
    Ok((current, current_ty))
}

pub fn project_step(
    program: &MirProgram,
    data_layout: &DataLayout,
    callable: CallableId,
    ty: MirType,
    projection: MirPlaceProjection,
) -> (r: Result<(usize, MirType), BackendError>)
    requires
        data_layout_wf(data_layout),
        match projection {
            MirPlaceProjection::Field(field) => spec_field(program, field) is Some && field.owner.idx
                < data_layout.classes@.len() && field.idx
                < data_layout.classes@[field.owner.idx as int].fields@.len(),
            MirPlaceProjection::ArrayElement { .. } => false,
            _ => true,
        },
    ensures
        outcome_is(r, spec_project_step(program, data_layout, callable, ty, projection)),
{
    match projection {
        MirPlaceProjection::Base(base) => {
            let class = match ty {
                MirType::Class(class) => class,
                _ => return Err(place_metadata_error(callable)),
            };
            match data_layout.class(class) {
                Some(layout) => match layout.base() {
                    Some(base_layout) => if base_layout.class == base {
                        Ok((base_layout.offset, MirType::Class(base)))
                    } else {
                        Err(place_metadata_error(callable))
                    },
                    None => Err(place_metadata_error(callable)),
                },
                None => Err(place_metadata_error(callable)),
            }
        },
        MirPlaceProjection::Field(field_id) => {
            let offset = match data_layout.field(field_id) {
                Some(layout) => layout.offset,
                None => 0,
            };
            let field_ty = match program.field(field_id) {
                Some(field) => field.ty,
                None => ty,
            };
            Ok((offset, field_ty))
        },
        MirPlaceProjection::OptionalPayload(class) => {
            if ty != MirType::OptionalClass(class) {
                return Err(place_metadata_error(callable));
            }
            match data_layout.optional_class(class) {
                Ok(layout) => Ok((layout.payload_offset(), MirType::Class(class))),
                Err(error) => Err(error),
            }
        },
        MirPlaceProjection::ArrayElement { .. } => Err(place_metadata_error(callable)),
    }
}

/// The base through which a local place is reached and its displacement.
pub open spec fn spec_local_base(frame: &FrameLayout, storage: MirStorage, base: MirPlaceBase, home: i32) -> (
    FramePlaceBase,
    i32,
) {
    match base {
        MirPlaceBase::Storage(_) => if storage.kind is Return && !(storage.ty is OptionalShared) {
            (FramePlaceBase::Return { home }, 0)
        } else if storage.kind is Receiver {
            (FramePlaceBase::Receiver { home }, 0)
        } else if storage.kind is Parameter && (storage.ty is Class
            || storage.ty is OptionalPrimitive || storage.ty is OptionalClass
            || storage.ty is Array) {
            (FramePlaceBase::OwnedParameter { home }, 0)
        } else {
            (FramePlaceBase::Direct, home)
        },
        MirPlaceBase::AliasParameter(_) | MirPlaceBase::CheckedView(_) | MirPlaceBase::ArrayAlias(
            _,
        ) => (FramePlaceBase::Alias { home }, 0),
        MirPlaceBase::SharedPointee(_) | MirPlaceBase::SharedAllocationPayload(_) => (
            FramePlaceBase::SharedPointee { home },
            SHARED_HEADER_SIZE as i32,
        ),
        _ => (FramePlaceBase::Direct, home),
    }
}

/// The frame-relative address of a verified place.
pub open spec fn spec_place(
    frame: &FrameLayout,
    program: &MirProgram,
    function: &MirDefinition,
    data_layout: &DataLayout,
    place: &MirPlace,
) -> Result<FramePlace, (Option<CallableId>, Seq<char>)> {
    match place.base {
        MirPlaceBase::StaticField(id) | MirPlaceBase::StaticLifecycleDestination(id) => {
            let field = spec_static_field(program, id)->Some_0;
            match spec_projected_place(
                program,
                data_layout,
                function.callable,
                0,
                field.ty,
                place.projections@,
            ) {
                Ok((displacement, ty)) => Ok(
                    FramePlace {
                        base: FramePlaceBase::StaticField(id),
                        displacement,
                        ty,
                        byte_access: is_byte_type(ty),
                    },
                ),
                Err(error) => Err(error),
            }
        },
        _ => {
            let id = spec_local_storage(place.base)->Some_0;
            let storage = function.storage@[id.idx as int];
            let (base, displacement) = spec_local_base(
                frame,
                storage,
                place.base,
                frame.storage_offsets@[id.idx as int],
            );
            let ty = match (place.base, storage.ty) {
                (MirPlaceBase::SharedPointee(_), MirType::Shared(target)) => target.spec_ty(),
                _ => storage.ty,
            };
            match spec_projected_place(
                program,
                data_layout,
                function.callable,
                displacement,
                ty,
                place.projections@,
            ) {
                Ok((displacement, ty)) => Ok(
                    FramePlace {
                        base,
                        displacement,
                        ty,
                        byte_access: place.projections@.len() > 0 && is_byte_type(ty),
                    },
                ),
                Err(error) => Err(error),
            }
        },
    }
}

/// The place is rooted in a declared static field or in a local storage
/// entry that has a frame home.
pub open spec fn place_rooted(
    frame: &FrameLayout,
    program: &MirProgram,
    function: &MirDefinition,
    place: &MirPlace,
) -> bool {
    match spec_local_storage(place.base) {
        None => match place.base {
            MirPlaceBase::StaticField(id) | MirPlaceBase::StaticLifecycleDestination(id) => spec_static_field(
                program,
                id,
            ) is Some,
            _ => false,
        },
        Some(id) => id.idx < function.storage@.len() && id.idx < frame.storage_offsets@.len(),
    }
}

impl FrameLayout {
    /// Resolves a verified semantic place into one frame-relative address.
    /// All target offset arithmetic stays at this layout boundary.
    pub fn place(
        &self,
        program: &MirProgram,
        function: &MirDefinition,
        data_layout: &DataLayout,
        place: &MirPlace,
    ) -> (r: Result<FramePlace, BackendError>)
        requires
            data_layout_wf(data_layout),
            static_fields_unique(program),
            place_rooted(self, program, function, place),
            projections_resolvable(program, data_layout, place.projections@),
        ensures
            outcome_is(r, spec_place(self, program, function, data_layout, place)),
    {
        match place.base {
            MirPlaceBase::StaticField(field_id) | MirPlaceBase::StaticLifecycleDestination(
                field_id,
            ) => {
                let root_ty = match program.static_field(field_id) {
                    Some(field) => field.ty,
                    None => MirType::Unit,
                };
                let (displacement, ty) = match projected_place(
                    program,
                    function,
                    data_layout,
                    0,
                    root_ty,
                    &place.projections,
                ) {
                    Ok(projected) => projected,
                    Err(error) => return Err(error),
                };
                let byte_access = match ty {
                    MirType::U8 | MirType::Bool => true,
                    _ => false,
                };
                return Ok(
                    FramePlace {
                        base: FramePlaceBase::StaticField(field_id),
                        displacement,
                        ty,
                        byte_access,
                    },
                );
            },
            _ => {},
        }
        let storage_id = match place.base.local_storage() {
            Some(id) => id,
            None => StorageId::new(0),
        };
        let storage = function.storage_entries()[storage_id.index()];
        let home = self.storage(storage_id);
        let (base, displacement) = match place.base {
            MirPlaceBase::Storage(_) => {
                let owned_parameter = match storage.kind {
                    MirStorageKind::Parameter => match storage.ty {
                        MirType::Class(_)
                        | MirType::OptionalPrimitive(_)
                        | MirType::OptionalClass(_)
                        | MirType::Array(_) => true,
                        _ => false,
                    },
                    _ => false,
                };
                let returned = match storage.kind {
                    MirStorageKind::Return => match storage.ty {
                        MirType::OptionalShared(_) => false,
                        _ => true,
                    },
                    _ => false,
                };
                let receiver = match storage.kind {
                    MirStorageKind::Receiver => true,
                    _ => false,
                };
                if returned {
                    (FramePlaceBase::Return { home }, 0i32)
                } else if receiver {
                    (FramePlaceBase::Receiver { home }, 0i32)
                } else if owned_parameter {
                    (FramePlaceBase::OwnedParameter { home }, 0i32)
                } else {
                    (FramePlaceBase::Direct, home)
                }
            },
            MirPlaceBase::AliasParameter(_)
            | MirPlaceBase::CheckedView(_)
            | MirPlaceBase::ArrayAlias(_) => (FramePlaceBase::Alias { home }, 0i32),
            MirPlaceBase::SharedPointee(_) | MirPlaceBase::SharedAllocationPayload(_) => (
                FramePlaceBase::SharedPointee { home },
                16i32,
            ),
            _ => (FramePlaceBase::Direct, home),
        };
        let ty = match place.base {
            MirPlaceBase::SharedPointee(_) => match storage.ty {
                MirType::Shared(target) => target.ty(),
                other => other,
            },
            _ => storage.ty,
        };
        let (displacement, ty) = match projected_place(
            program,
            function,
            data_layout,
            displacement,
            ty,
            &place.projections,
        ) {
            Ok(projected) => projected,
            Err(error) => return Err(error),
        };
        let byte_access = place.projections.len() > 0 && match ty {
            MirType::U8 | MirType::Bool => true,
            _ => false,
        };
        Ok(FramePlace { base, displacement, ty, byte_access })
    }
}

} // verus!
