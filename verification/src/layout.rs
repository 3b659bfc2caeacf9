//! Checked target data layout for inline classes, optionals, and arrays.
//!
//! The program model retains nominal identities and semantic field
//! projections. This module is the backend's sole authority for converting
//! that metadata into sizes, alignments, and byte offsets.

use vstd::prelude::*;

use crate::abi::{
    align_up, is_power_of_two, lemma_align_up, lemma_power_of_two_positive,
    lemma_small_powers_of_two, spec_align_up,
};
use crate::error::{x86_error, BackendError, Target};
use crate::identity::{ArrayTypeId, ClassId, FieldId};
use crate::mir::{MirField, MirPrimitiveType, MirProgram, MirType, program_ids_dense};
use crate::text::{decimal_text, framed_decimal};

verus! {

pub const MAX_ADDRESSABLE_SIZE: usize = 0x7fff_ffff;
pub const SHARED_HANDLE_SIZE: usize = 8;
pub const SHARED_HANDLE_ALIGNMENT: usize = 8;
pub const SHARED_DYNAMIC_METADATA_OFFSET: i32 = 8;
pub const SHARED_HEADER_SIZE: usize = 16;
pub const ARRAY_DESCRIPTOR_SIZE: usize = 8;
pub const ARRAY_DESCRIPTOR_ALIGNMENT: usize = 8;
pub const ARRAY_OWNER_COUNT_OFFSET: i32 = 0;
pub const ARRAY_LENGTH_OFFSET: i32 = 8;
pub const ARRAY_HEADER_SIZE: usize = 16;
pub const SHARED_ARRAY_LENGTH_OFFSET: i32 = 16;
pub const SHARED_ARRAY_HEADER_SIZE: usize = 24;
pub const MAX_ARRAY_LENGTH: u64 = 0x7fff_ffff_ffff_ffff;
pub const OPTIONAL_STATE_SIZE: usize = 8;
pub const OPTIONAL_STATE_ALIGNMENT: usize = 8;

/// The size and alignment of a type.
#[derive(Clone, Copy, Debug, PartialEq, Eq, Structural)]
pub struct TypeLayout {
    pub size: usize,
    pub alignment: usize,
}

pub open spec fn type_layout_wf(layout: TypeLayout) -> bool {
    is_power_of_two(layout.alignment)
}

impl TypeLayout {
    pub fn new(size: usize, alignment: usize) -> (r: Self)
        ensures
            r == (TypeLayout { size, alignment }),
    {
        TypeLayout { size, alignment }
    }

    pub fn size(self) -> (r: usize)
        ensures
            r == self.size,
    {
        self.size
    }

    pub fn alignment(self) -> (r: usize)
        ensures
            r == self.alignment,
    {
        self.alignment
    }
}

/// The layout of an optional: an eight-byte state word at offset zero and
/// the payload at its first aligned offset after the state.
#[derive(Clone, Copy, Debug, PartialEq, Eq, Structural)]
pub struct OptionalLayout {
    pub ty: TypeLayout,
    pub payload_offset: usize,
}

impl OptionalLayout {
    pub fn ty(self) -> (r: TypeLayout)
        ensures
            r == self.ty,
    {
        self.ty
    }

    pub fn state_offset(self) -> (r: usize)
        ensures
            r == 0,
    {
        0
    }

    pub fn payload_offset(self) -> (r: usize)
        ensures
            r == self.payload_offset,
    {
        self.payload_offset
    }
}

#[derive(Clone, Copy, Debug, PartialEq, Eq, Structural)]
pub struct FieldLayout {
    pub offset: usize,
}

#[derive(Clone, Copy, Debug, PartialEq, Eq, Structural)]
pub struct BaseLayout {
    pub class: ClassId,
    pub offset: usize,
}

/// The layout of one inline class.
#[derive(Clone, Debug, PartialEq, Eq)]
pub struct ClassLayout {
    pub ty: TypeLayout,
    pub base: Option<BaseLayout>,
    pub fields: Vec<FieldLayout>,
}

impl ClassLayout {
    pub fn ty(&self) -> (r: TypeLayout)
        ensures
            r == self.ty,
    {
        self.ty
    }

    pub fn base(&self) -> (r: Option<BaseLayout>)
        ensures
            r == self.base,
    {
        self.base
    }

    pub fn field(&self, field: FieldId) -> (r: Option<FieldLayout>)
        ensures
            r == (if field.idx < self.fields@.len() {
                Some(self.fields@[field.idx as int])
            } else {
                None
            }),
    {
        if field.index() < self.fields.len() {
            Some(self.fields[field.index()])
        } else {
            None
        }
    }

    pub fn fields(&self) -> (r: &Vec<FieldLayout>)
        ensures
            r@ == self.fields@,
    {
        &self.fields
    }
}

/// Places fields in declaration order after `size` bytes already used with
/// alignment `alignment`, yielding the end, the running alignment, and the
/// offset of every field.
pub open spec fn spec_place_fields(size: int, alignment: int, fields: Seq<TypeLayout>) -> Option<
    (int, int, Seq<int>),
>
    decreases fields.len(),
{
    if fields.len() == 0 {
        Some((size, alignment, Seq::empty()))
    } else {
        match spec_place_fields(size, alignment, fields.drop_last()) {
            None => None,
            Some((end, align, offsets)) => {
                let field = fields.last();
                match spec_align_up(end, field.alignment as int) {
                    None => None,
                    Some(offset) => if offset + field.size <= usize::MAX {
                        Some(
                            (
                                offset + field.size,
                                if align >= field.alignment {
                                    align
                                } else {
                                    field.alignment as int
                                },
                                offsets.push(offset),
                            ),
                        )
                    } else {
                        None
                    },
                }
            },
        }
    }
}

/// The mathematical content of a class layout.
pub struct ClassLayoutModel {
    pub ty: TypeLayout,
    pub base: Option<BaseLayout>,
    pub offsets: Seq<int>,
}

/// The direct base at offset zero, then fields in declaration order at their
/// next aligned offsets; the size is padded to the largest alignment, an
/// empty class occupies one byte, and every class stays addressable with
/// signed 32-bit displacements.
pub open spec fn spec_layout_class(
    base: Option<(ClassId, TypeLayout)>,
    fields: Seq<TypeLayout>,
) -> Option<ClassLayoutModel> {
    let start_size = match base {
        Some((_, layout)) => layout.size as int,
        None => 0,
    };
    let start_alignment = match base {
        Some((_, layout)) => layout.alignment as int,
        None => 1,
    };
    match spec_place_fields(start_size, start_alignment, fields) {
        None => None,
        Some((end, alignment, offsets)) => match spec_align_up(end, alignment) {
            None => None,
            Some(padded) => {
                let size = if base is None && fields.len() == 0 {
                    1
                } else {
                    padded
                };
                if size > MAX_ADDRESSABLE_SIZE {
                    None
                } else {
                    Some(
                        ClassLayoutModel {
                            ty: TypeLayout { size: size as usize, alignment: alignment as usize },
                            base: match base {
                                Some((class, _)) => Some(BaseLayout { class, offset: 0 }),
                                None => None,
                            },
                            offsets,
                        },
                    )
                }
            },
        },
    }
}

pub open spec fn class_layout_is(layout: ClassLayout, model: ClassLayoutModel) -> bool {
    &&& layout.ty == model.ty
    &&& layout.base == model.base
    &&& layout.fields@.len() == model.offsets.len()
    &&& forall|i: int|
        0 <= i < model.offsets.len() ==> #[trigger] layout.fields@[i].offset == model.offsets[i]
}

pub open spec fn all_type_layouts_wf(layouts: Seq<TypeLayout>) -> bool {
    forall|i: int| 0 <= i < layouts.len() ==> type_layout_wf(#[trigger] layouts[i])
}

/// Every placed field is aligned, follows the previous field, and the
/// running alignment stays one of the inputs' powers of two.
pub proof fn lemma_place_fields(size: int, alignment: int, fields: Seq<TypeLayout>)
    requires
        0 <= size <= usize::MAX,
        alignment > 0,
        is_power_of_two(alignment as usize),
        alignment <= usize::MAX,
        all_type_layouts_wf(fields),
        spec_place_fields(size, alignment, fields) is Some,
    ensures
        ({
            let (end, align, offsets) = spec_place_fields(size, alignment, fields).unwrap();
            &&& offsets.len() == fields.len()
            &&& is_power_of_two(align as usize)
            &&& align >= alignment
            &&& 0 < align <= usize::MAX
            &&& forall|i: int| 0 <= i < fields.len() ==> align >= (#[trigger] fields[i]).alignment
            &&& size <= end <= usize::MAX
            &&& forall|i: int|
                0 <= i < fields.len() ==> #[trigger] offsets[i] % (fields[i].alignment as int) == 0
            &&& forall|i: int| 0 <= i < fields.len() ==> size <= #[trigger] offsets[i]
            &&& forall|i: int|
                0 <= i < fields.len() ==> #[trigger] offsets[i] + fields[i].size <= end
            &&& forall|i: int, j: int|
                0 <= i < j < fields.len() ==> #[trigger] offsets[i] + fields[i].size
                    <= #[trigger] offsets[j]
        }),
    decreases fields.len(),
{
    if fields.len() > 0 {
        let prefix = fields.drop_last();
        assert(all_type_layouts_wf(prefix)) by {
            assert forall|i: int| 0 <= i < prefix.len() implies type_layout_wf(
                #[trigger] prefix[i],
            ) by {
                assert(prefix[i] == fields[i]);
            }
        }
        lemma_place_fields(size, alignment, prefix);
        let (end, align, offsets) = spec_place_fields(size, alignment, prefix).unwrap();
        let field = fields.last();
        assert(type_layout_wf(fields[fields.len() - 1]));
        let e = choose|exponent: nat|
            exponent < 64 && vstd::arithmetic::power2::pow2(exponent) == field.alignment;
        vstd::arithmetic::power2::lemma_pow2_pos(e);
        let offset = spec_align_up(end, field.alignment as int).unwrap();
        lemma_align_up(end, field.alignment as int);
        let (end2, align2, offsets2) = spec_place_fields(size, alignment, fields).unwrap();
        assert(offsets2 == offsets.push(offset));
        assert forall|i: int| 0 <= i < fields.len() implies align2 >= (
        #[trigger] fields[i]).alignment by {
            if i < fields.len() - 1 {
                assert(fields[i] == prefix[i]);
            }
        }
        assert forall|i: int| 0 <= i < fields.len() implies #[trigger] offsets2[i] % (
        fields[i].alignment as int) == 0 by {
            if i < fields.len() - 1 {
                assert(fields[i] == prefix[i]);
                assert(offsets2[i] == offsets[i]);
            }
        }
        assert forall|i: int| 0 <= i < fields.len() implies #[trigger] offsets2[i]
            + fields[i].size <= end2 by {
            if i < fields.len() - 1 {
                assert(fields[i] == prefix[i]);
                assert(offsets2[i] == offsets[i]);
            }
        }
        assert forall|i: int| 0 <= i < fields.len() implies size <= #[trigger] offsets2[i] by {
            if i < fields.len() - 1 {
                assert(offsets2[i] == offsets[i]);
            }
        }
        assert forall|i: int, j: int| 0 <= i < j < fields.len() implies #[trigger] offsets2[i]
            + fields[i].size <= #[trigger] offsets2[j] by {
            assert(fields[i] == prefix[i]);
            assert(offsets2[i] == offsets[i]);
            if j < fields.len() - 1 {
                assert(fields[j] == prefix[j]);
                assert(offsets2[j] == offsets[j]);
            }
        }
    }
}

/// Lays out a class from its direct base's layout and its fields' layouts.
pub fn layout_class(base: Option<(ClassId, TypeLayout)>, fields: &Vec<TypeLayout>) -> (r: Option<
    ClassLayout,
>)
    requires
        match base {
            Some((_, layout)) => type_layout_wf(layout),
            None => true,
        },
        all_type_layouts_wf(fields@),
    ensures
        match spec_layout_class(base, fields@) {
            None => r is None,
            Some(model) => r matches Some(layout) && class_layout_is(layout, model),
        },
        r matches Some(layout) ==> type_layout_wf(layout.ty),
{
    proof {
        lemma_small_powers_of_two();
    }
    let mut size: usize = match base {
        Some((_, layout)) => layout.size(),
        None => 0,
    };
    let mut alignment: usize = match base {
        Some((_, layout)) => layout.alignment(),
        None => 1,
    };
    let ghost start_size = size as int;
    let ghost start_alignment = alignment as int;
    proof {
        let e = choose|exponent: nat|
            exponent < 64 && vstd::arithmetic::power2::pow2(exponent) == start_alignment;
        vstd::arithmetic::power2::lemma_pow2_pos(e);
    }
    let mut field_layouts: Vec<FieldLayout> = Vec::new();
    let mut i: usize = 0;
    while i < fields.len()
        invariant
            i <= fields@.len(),
            all_type_layouts_wf(fields@),
            is_power_of_two(start_alignment as usize),
            0 <= start_size <= usize::MAX,
            0 < start_alignment <= usize::MAX,
            start_size == match base {
                Some((_, layout)) => layout.size as int,
                None => 0,
            },
            start_alignment == match base {
                Some((_, layout)) => layout.alignment as int,
                None => 1,
            },
            spec_place_fields(start_size, start_alignment, fields@.take(i as int)) matches Some(
                (end, align, offsets),
            ) && end == size && align == alignment && offsets.len() == field_layouts@.len()
                && forall|j: int|
                0 <= j < offsets.len() ==> #[trigger] field_layouts@[j].offset == offsets[j],
        decreases fields@.len() - i,
    {
        let field = fields[i];
        assert(fields@.take((i + 1) as int).drop_last() =~= fields@.take(i as int));
        assert(fields@.take((i + 1) as int).last() == field);
        proof {
            assert(all_type_layouts_wf(fields@.take(i as int))) by {
                assert forall|k: int| 0 <= k < i implies type_layout_wf(
                    #[trigger] fields@.take(i as int)[k],
                ) by {
                    assert(fields@.take(i as int)[k] == fields@[k]);
                }
            }
            lemma_place_fields(start_size, start_alignment, fields@.take(i as int));
            assert(type_layout_wf(fields@[i as int]));
        }
        let offset = match align_up(size, field.alignment()) {
            Some(offset) => offset,
            None => {
                proof {
                    lemma_place_fields_prefix_fails(start_size, start_alignment, fields@, i + 1);
                }
                return None;
            },
        };
        field_layouts.push(FieldLayout { offset });
        size = match offset.checked_add(field.size()) {
            Some(end) => end,
            None => {
                proof {
                    lemma_place_fields_prefix_fails(start_size, start_alignment, fields@, i + 1);
                }
                return None;
            },
        };
        if field.alignment() > alignment {
            alignment = field.alignment();
        }
        i = i + 1;
    }
    assert(fields@.take(fields@.len() as int) =~= fields@);
    proof {
        lemma_place_fields(start_size, start_alignment, fields@);
    }
    size = match align_up(size, alignment) {
        Some(padded) => padded,
        None => return None,
    };
    let empty = match base {
        Some(_) => false,
        None => fields.len() == 0,
    };
    if empty {
        size = 1;
    }
    if size > MAX_ADDRESSABLE_SIZE {
        return None;
    }
    Some(
        ClassLayout {
            ty: TypeLayout::new(size, alignment),
            base: match base {
                Some((class, _)) => Some(BaseLayout { class, offset: 0 }),
                None => None,
            },
            fields: field_layouts,
        },
    )
}

/// A failure while placing a prefix of the fields fails the whole class.
pub proof fn lemma_place_fields_prefix_fails(
    size: int,
    alignment: int,
    fields: Seq<TypeLayout>,
    k: int,
)
    requires
        0 <= k <= fields.len(),
        spec_place_fields(size, alignment, fields.take(k)) is None,
    ensures
        spec_place_fields(size, alignment, fields) is None,
    decreases fields.len() - k,
{
    if k < fields.len() {
        assert(fields.take(k + 1).drop_last() =~= fields.take(k));
        lemma_place_fields_prefix_fails(size, alignment, fields, k + 1);
    } else {
        assert(fields.take(k) =~= fields);
    }
}

/// Law: a class layout places its base at offset zero and every field at an
/// offset aligned to the field, after the base and after every earlier
/// field, ending inside the class; the class size is a multiple of the
/// class alignment, which is at least every field's alignment.
pub proof fn lemma_class_layout_sound(base: Option<(ClassId, TypeLayout)>, fields: Seq<TypeLayout>)
    requires
        match base {
            Some((_, layout)) => type_layout_wf(layout),
            None => true,
        },
        all_type_layouts_wf(fields),
        spec_layout_class(base, fields) is Some,
    ensures
        ({
            let model = spec_layout_class(base, fields).unwrap();
            let base_size = match base {
                Some((_, layout)) => layout.size as int,
                None => 0,
            };
            &&& model.offsets.len() == fields.len()
            &&& is_power_of_two(model.ty.alignment)
            &&& (model.ty.size as int) % (model.ty.alignment as int) == 0
            &&& base_size <= model.ty.size
            &&& forall|i: int|
                0 <= i < fields.len() ==> model.ty.alignment >= (#[trigger] fields[i]).alignment
            &&& forall|i: int|
                0 <= i < fields.len() ==> #[trigger] model.offsets[i] % (fields[i].alignment as int)
                    == 0
            &&& forall|i: int| 0 <= i < fields.len() ==> base_size <= #[trigger] model.offsets[i]
            &&& forall|i: int|
                0 <= i < fields.len() ==> #[trigger] model.offsets[i] + fields[i].size
                    <= model.ty.size
            &&& forall|i: int, j: int|
                0 <= i < j < fields.len() ==> #[trigger] model.offsets[i] + fields[i].size
                    <= #[trigger] model.offsets[j]
        }),
{
    lemma_small_powers_of_two();
    let start_size = match base {
        Some((_, layout)) => layout.size as int,
        None => 0,
    };
    let start_alignment = match base {
        Some((_, layout)) => layout.alignment as int,
        None => 1,
    };
    match base {
        Some((_, layout)) => {
            let e = choose|exponent: nat|
                exponent < 64 && vstd::arithmetic::power2::pow2(exponent) == layout.alignment;
            vstd::arithmetic::power2::lemma_pow2_pos(e);
        },
        None => {},
    }
    lemma_place_fields(start_size, start_alignment, fields);
    let (end, alignment, offsets) = spec_place_fields(start_size, start_alignment, fields).unwrap();
    lemma_align_up(end, alignment);
    let padded = spec_align_up(end, alignment).unwrap();
    assert(padded >= end);
    let model = spec_layout_class(base, fields).unwrap();
    assert(model.offsets == offsets);
    assert(model.ty.alignment == alignment);
    if base is None && fields.len() == 0 {
        assert(alignment == 1);
        assert(model.ty.size == 1);
    } else {
        assert(model.ty.size == padded);
    }
}

/// A diagnostic of this module: an x86-64 error without a callable.
pub open spec fn is_layout_error(error: BackendError, message: Seq<char>) -> bool {
    &&& error.target == Target::X86_64SysV
    &&& error.callable is None
    &&& error.message@ == message
}

/// The executable result agrees with a specified result or diagnostic.
pub open spec fn result_is<T>(r: Result<T, BackendError>, expected: Result<T, Seq<char>>) -> bool {
    match expected {
        Ok(value) => r == Ok::<T, BackendError>(value),
        Err(message) => r matches Err(error) && is_layout_error(error, message),
    }
}

pub fn layout_error(message: String) -> (r: BackendError)
    ensures
        is_layout_error(r, message@),
{
    BackendError::new(Target::X86_64SysV, None, message)
}

/// The target layout of the scalar primitives.
pub open spec fn spec_primitive_layout(ty: MirType) -> Option<TypeLayout> {
    match ty {
        MirType::I64 | MirType::U64 | MirType::F64 => Some(TypeLayout { size: 8, alignment: 8 }),
        MirType::U8 | MirType::Bool => Some(TypeLayout { size: 1, alignment: 1 }),
        _ => None,
    }
}

pub fn primitive_layout(ty: MirType) -> (r: Option<TypeLayout>)
    ensures
        r == spec_primitive_layout(ty),
        r matches Some(layout) ==> type_layout_wf(layout),
{
    proof {
        lemma_small_powers_of_two();
    }
    match ty {
        MirType::I64 | MirType::U64 | MirType::F64 => Some(TypeLayout::new(8, 8)),
        MirType::U8 | MirType::Bool => Some(TypeLayout::new(1, 1)),
        MirType::Class(_)
        | MirType::Array(_)
        | MirType::Interface(_)
        | MirType::Obj
        | MirType::Shared(_)
        | MirType::OptionalShared(_)
        | MirType::OptionalPrimitive(_)
        | MirType::OptionalClass(_)
        | MirType::Unit => None,
    }
}

pub open spec fn optional_offset_message() -> Seq<char> {
    "primitive optional payload offset exceeds target limits"@
}

pub open spec fn optional_size_message() -> Seq<char> {
    "primitive optional layout exceeds target limits"@
}

/// An eight-byte state word, then the payload at its aligned offset; the
/// whole is padded to the larger of the two alignments.
pub open spec fn spec_optional_layout_for(payload: TypeLayout) -> Result<OptionalLayout, Seq<char>> {
    let alignment = if payload.alignment >= OPTIONAL_STATE_ALIGNMENT {
        payload.alignment
    } else {
        OPTIONAL_STATE_ALIGNMENT
    };
    match spec_align_up(OPTIONAL_STATE_SIZE as int, payload.alignment as int) {
        None => Err(optional_offset_message()),
        Some(payload_offset) => if payload_offset + payload.size > usize::MAX {
            Err(optional_size_message())
        } else {
            match spec_align_up(payload_offset + payload.size, alignment as int) {
                Some(size) => if size <= MAX_ADDRESSABLE_SIZE {
                    Ok(
                        OptionalLayout {
                            ty: TypeLayout { size: size as usize, alignment },
                            payload_offset: payload_offset as usize,
                        },
                    )
                } else {
                    Err(optional_size_message())
                },
                None => Err(optional_size_message()),
            }
        },
    }
}

pub fn optional_layout_for(payload: TypeLayout) -> (r: Result<OptionalLayout, BackendError>)
    requires
        type_layout_wf(payload),
    ensures
        result_is(r, spec_optional_layout_for(payload)),
        r matches Ok(layout) ==> type_layout_wf(layout.ty),
{
    proof {
        lemma_small_powers_of_two();
    }
    let alignment = if payload.alignment() >= OPTIONAL_STATE_ALIGNMENT {
        payload.alignment()
    } else {
        OPTIONAL_STATE_ALIGNMENT
    };
    let payload_offset = match align_up(OPTIONAL_STATE_SIZE, payload.alignment()) {
        Some(offset) => offset,
        None => {
            return Err(
                layout_error(
                    String::from_str("primitive optional payload offset exceeds target limits"),
                ),
            )
        },
    };
    let unpadded = match payload_offset.checked_add(payload.size()) {
        Some(end) => end,
        None => {
            return Err(
                layout_error(String::from_str("primitive optional layout exceeds target limits")),
            )
        },
    };
    let size = match align_up(unpadded, alignment) {
        Some(size) => size,
        None => {
            return Err(
                layout_error(String::from_str("primitive optional layout exceeds target limits")),
            )
        },
    };
    if size > MAX_ADDRESSABLE_SIZE {
        return Err(
            layout_error(String::from_str("primitive optional layout exceeds target limits")),
        );
    }
    Ok(OptionalLayout { ty: TypeLayout::new(size, alignment), payload_offset })
}

/// The layout of a primitive optional.
pub open spec fn spec_optional_layout(payload: MirPrimitiveType) -> OptionalLayout {
    spec_optional_layout_for(spec_primitive_layout(payload.spec_payload_type()).unwrap())->Ok_0
}

pub proof fn lemma_optional_layout(payload: MirPrimitiveType)
    ensures
        spec_optional_layout_for(spec_primitive_layout(payload.spec_payload_type()).unwrap()) is Ok,
        spec_optional_layout(payload) == (OptionalLayout {
            ty: TypeLayout { size: 16, alignment: 8 },
            payload_offset: 8,
        }),
        type_layout_wf(spec_optional_layout(payload).ty),
{
    lemma_small_powers_of_two();
    lemma_align_up(8, 8);
    lemma_align_up(8, 1);
    lemma_align_up(16, 8);
    lemma_align_up(9, 8);
}

pub fn optional_layout(payload: MirPrimitiveType) -> (r: Result<OptionalLayout, BackendError>)
    ensures
        r == Ok::<OptionalLayout, BackendError>(spec_optional_layout(payload)),
        type_layout_wf(spec_optional_layout(payload).ty),
{
    proof {
        lemma_optional_layout(payload);
    }
    let layout = match primitive_layout(payload.payload_type()) {
        Some(layout) => layout,
        None => TypeLayout::new(8, 8),
    };
    optional_layout_for(layout)
}

/// The layout of inline and shared array allocations of one element type.
#[derive(Clone, Copy, Debug, PartialEq, Eq, Structural)]
pub struct ArrayLayout {
    pub element: TypeLayout,
    pub element_offset: usize,
    pub shared_element_offset: usize,
    pub stride: usize,
    pub maximum_length: u64,
    pub shared_maximum_length: u64,
}

/// Elements follow the inline (16-byte) or shared (24-byte) header at
/// their aligned offset, one aligned stride apart; a length is admissible
/// when the language ceiling allows it and the allocation size fits `u64`.
pub open spec fn spec_array_layout(element: TypeLayout) -> Option<ArrayLayout> {
    match (
        spec_align_up(ARRAY_HEADER_SIZE as int, element.alignment as int),
        spec_align_up(SHARED_ARRAY_HEADER_SIZE as int, element.alignment as int),
        spec_align_up(element.size as int, element.alignment as int),
    ) {
        (Some(element_offset), Some(shared_element_offset), Some(stride)) => {
            let limit = (u64::MAX - element_offset) / stride;
            let shared_limit = (u64::MAX - shared_element_offset) / stride;
            Some(
                ArrayLayout {
                    element,
                    element_offset: element_offset as usize,
                    shared_element_offset: shared_element_offset as usize,
                    stride: stride as usize,
                    maximum_length: if limit < MAX_ARRAY_LENGTH {
                        limit as u64
                    } else {
                        MAX_ARRAY_LENGTH
                    },
                    shared_maximum_length: if shared_limit < MAX_ARRAY_LENGTH {
                        shared_limit as u64
                    } else {
                        MAX_ARRAY_LENGTH
                    },
                },
            )
        },
        _ => None,
    }
}

pub fn array_layout(element: TypeLayout) -> (r: Option<ArrayLayout>)
    requires
        type_layout_wf(element),
        element.size > 0,
    ensures
        r == spec_array_layout(element),
{
    proof {
        let e = choose|exponent: nat|
            exponent < 64 && vstd::arithmetic::power2::pow2(exponent) == element.alignment;
        vstd::arithmetic::power2::lemma_pow2_pos(e);
    }
    let element_offset = match align_up(ARRAY_HEADER_SIZE, element.alignment()) {
        Some(offset) => offset,
        None => return None,
    };
    let shared_element_offset = match align_up(SHARED_ARRAY_HEADER_SIZE, element.alignment()) {
        Some(offset) => offset,
        None => return None,
    };
    let stride = match align_up(element.size(), element.alignment()) {
        Some(stride) => stride,
        None => return None,
    };
    let arithmetic_limit = (u64::MAX - element_offset as u64) / stride as u64;
    let shared_arithmetic_limit = (u64::MAX - shared_element_offset as u64) / stride as u64;
    Some(
        ArrayLayout {
            element,
            element_offset,
            shared_element_offset,
            stride,
            maximum_length: if arithmetic_limit < MAX_ARRAY_LENGTH {
                arithmetic_limit
            } else {
                MAX_ARRAY_LENGTH
            },
            shared_maximum_length: if shared_arithmetic_limit < MAX_ARRAY_LENGTH {
                shared_arithmetic_limit
            } else {
                MAX_ARRAY_LENGTH
            },
        },
    )
}

/// The byte count of an inline allocation of `length` elements: `None`
/// beyond the admissible length, `Some(None)` for the allocation-free empty
/// array, else the header-and-elements size.
pub open spec fn spec_allocation_size(layout: ArrayLayout, length: u64) -> Option<Option<u64>> {
    if length > layout.maximum_length {
        None
    } else if length == 0 {
        Some(None)
    } else if layout.stride * length + layout.element_offset <= u64::MAX {
        Some(Some((layout.stride * length + layout.element_offset) as u64))
    } else {
        None
    }
}

impl ArrayLayout {
    pub fn descriptor(self) -> (r: TypeLayout)
        ensures
            r == (TypeLayout { size: ARRAY_DESCRIPTOR_SIZE, alignment: ARRAY_DESCRIPTOR_ALIGNMENT }),
    {
        TypeLayout::new(ARRAY_DESCRIPTOR_SIZE, ARRAY_DESCRIPTOR_ALIGNMENT)
    }

    pub fn element(self) -> (r: TypeLayout)
        ensures
            r == self.element,
    {
        self.element
    }

    pub fn element_offset(self) -> (r: usize)
        ensures
            r == self.element_offset,
    {
        self.element_offset
    }

    pub fn stride(self) -> (r: usize)
        ensures
            r == self.stride,
    {
        self.stride
    }

    pub fn shared_element_offset(self) -> (r: usize)
        ensures
            r == self.shared_element_offset,
    {
        self.shared_element_offset
    }

    pub fn maximum_length(self) -> (r: u64)
        ensures
            r == self.maximum_length,
    {
        self.maximum_length
    }

    pub fn shared_maximum_length(self) -> (r: u64)
        ensures
            r == self.shared_maximum_length,
    {
        self.shared_maximum_length
    }

    pub fn allocation_size(self, length: u64) -> (r: Option<Option<u64>>)
        ensures
            r == spec_allocation_size(self, length),
    {
        if length > self.maximum_length {
            return None;
        }
        if length == 0 {
            return Some(None);
        }
        let stride = self.stride as u64;
        let bytes = match stride.checked_mul(length) {
            Some(bytes) => bytes,
            None => return None,
        };
        match bytes.checked_add(self.element_offset as u64) {
            Some(total) => Some(Some(total)),
            None => None,
        }
    }
}

/// Law: every admissible non-empty length has an allocation size that
/// holds the header and every element, and no admissible inline length
/// exceeds the language ceiling.
pub proof fn lemma_admissible_lengths_allocate(element: TypeLayout, length: u64)
    requires
        type_layout_wf(element),
        element.size > 0,
        spec_array_layout(element) is Some,
        0 < length <= spec_array_layout(element).unwrap().maximum_length,
    ensures
        ({
            let layout = spec_array_layout(element).unwrap();
            &&& length <= MAX_ARRAY_LENGTH
            &&& spec_allocation_size(layout, length) == Some(
                Some((layout.stride * length + layout.element_offset) as u64),
            )
            &&& layout.element_offset >= ARRAY_HEADER_SIZE
            &&& layout.stride >= element.size
        }),
{
    let e = choose|exponent: nat|
        exponent < 64 && vstd::arithmetic::power2::pow2(exponent) == element.alignment;
    vstd::arithmetic::power2::lemma_pow2_pos(e);
    let layout = spec_array_layout(element).unwrap();
    lemma_align_up(ARRAY_HEADER_SIZE as int, element.alignment as int);
    lemma_align_up(element.size as int, element.alignment as int);
    let offset = layout.element_offset as int;
    let stride = layout.stride as int;
    let limit = (u64::MAX - offset) / stride;
    assert(length <= limit);
    vstd::arithmetic::div_mod::lemma_fundamental_div_mod(u64::MAX - offset, stride);
    vstd::arithmetic::div_mod::lemma_mod_bound(u64::MAX - offset, stride);
    vstd::arithmetic::mul::lemma_mul_inequality(length as int, limit, stride);
    vstd::arithmetic::mul::lemma_mul_is_commutative(stride, limit);
    vstd::arithmetic::mul::lemma_mul_is_commutative(stride, length as int);
}

pub open spec fn class_missing_message(class: ClassId) -> Seq<char> {
    "class "@ + decimal_text(class.idx as nat) + " has no target layout"@
}

pub fn class_missing_error(class: ClassId) -> (r: BackendError)
    ensures
        is_layout_error(r, class_missing_message(class)),
{
    layout_error(framed_decimal("class ", class.index() as u64, " has no target layout"))
}

pub open spec fn shared_handle_layout() -> TypeLayout {
    TypeLayout { size: SHARED_HANDLE_SIZE, alignment: SHARED_HANDLE_ALIGNMENT }
}

pub open spec fn array_descriptor_layout() -> TypeLayout {
    TypeLayout { size: ARRAY_DESCRIPTOR_SIZE, alignment: ARRAY_DESCRIPTOR_ALIGNMENT }
}

/// The layouts of every class and array type of a program.
#[derive(Clone, Debug, PartialEq, Eq)]
pub struct DataLayout {
    pub classes: Vec<ClassLayout>,
    pub arrays: Vec<ArrayLayout>,
}

/// Every class layout is aligned to a power of two.
pub open spec fn data_layout_wf(layout: &DataLayout) -> bool {
    forall|i: int|
        0 <= i < layout.classes@.len() ==> type_layout_wf(#[trigger] layout.classes@[i].ty)
}

/// The storage layout of a type under the computed class and array layouts.
pub open spec fn spec_data_ty(layout: &DataLayout, ty: MirType) -> Result<TypeLayout, Seq<char>> {
    match ty {
        MirType::Class(class) => if class.idx < layout.classes@.len() {
            Ok(layout.classes@[class.idx as int].ty)
        } else {
            Err(class_missing_message(class))
        },
        MirType::Obj => Err("`Obj` views have no owning storage layout"@),
        MirType::Interface(_) => Err("interface views have no owning storage layout"@),
        MirType::Shared(_) | MirType::OptionalShared(_) => Ok(shared_handle_layout()),
        MirType::Array(array) => if array.idx < layout.arrays@.len() {
            Ok(array_descriptor_layout())
        } else {
            Err("array "@ + decimal_text(array.idx as nat) + " has no target layout"@)
        },
        MirType::OptionalPrimitive(payload) => Ok(spec_optional_layout(payload).ty),
        MirType::OptionalClass(class) => if class.idx < layout.classes@.len() {
            match spec_optional_layout_for(layout.classes@[class.idx as int].ty) {
                Ok(optional) => Ok(optional.ty),
                Err(message) => Err(message),
            }
        } else {
            Err(class_missing_message(class))
        },
        MirType::Unit => Err("payload-free type `unit` has no storage layout"@),
        primitive => Ok(spec_primitive_layout(primitive).unwrap()),
    }
}

/// The allocation of a shared class object: the sixteen-byte header, then
/// the payload, which may need at most the header's alignment.
pub open spec fn spec_shared_allocation_size(layout: &DataLayout, class: ClassId) -> Result<
    u64,
    Seq<char>,
> {
    if class.idx >= layout.classes@.len() {
        Err(class_missing_message(class))
    } else {
        let payload = layout.classes@[class.idx as int].ty;
        if payload.alignment > SHARED_HANDLE_ALIGNMENT {
            Err(
                "shared payload class "@ + decimal_text(class.idx as nat)
                    + " requires unsupported alignment "@ + decimal_text(payload.alignment as nat),
            )
        } else if SHARED_HEADER_SIZE + payload.size > MAX_ADDRESSABLE_SIZE {
            Err(
                "shared allocation for class "@ + decimal_text(class.idx as nat)
                    + " exceeds target size limits"@,
            )
        } else {
            Ok((SHARED_HEADER_SIZE + payload.size) as u64)
        }
    }
}

impl DataLayout {
    pub fn compute(program: &MirProgram) -> (r: Result<Self, BackendError>)
        requires
            program_ids_dense(program),
            fields_have_storage(program),
        ensures
            r matches Ok(layout) ==> data_layout_wf(&layout) && data_layout_consistent(
                program,
                &layout,
            ),
            r matches Ok(layout) ==> forall|class: ClassId|
                class.idx < layout.classes@.len() ==> class_layout_is(
                    #[trigger] layout.classes@[class.idx as int],
                    class_model(program, class),
                ),
            r is Ok <==> spec_layouts_succeed(program),
    {
        let builder = LayoutBuilder::new(program);
        assert(forall|k: int|
            0 <= k < builder.states@.len() ==> !(#[trigger] builder.states@[k] is Visiting));
        builder.compute()
    }

    pub fn ty(&self, ty: MirType) -> (r: Result<TypeLayout, BackendError>)
        requires
            data_layout_wf(self),
        ensures
            result_is(r, spec_data_ty(self, ty)),
            r matches Ok(layout) ==> type_layout_wf(layout),
    {
        proof {
            lemma_small_powers_of_two();
        }
        match ty {
            MirType::Class(class) => match self.class(class) {
                Some(layout) => Ok(layout.ty()),
                None => Err(class_missing_error(class)),
            },
            MirType::Obj => Err(
                layout_error(String::from_str("`Obj` views have no owning storage layout")),
            ),
            MirType::Interface(_) => Err(
                layout_error(String::from_str("interface views have no owning storage layout")),
            ),
            MirType::Shared(_) | MirType::OptionalShared(_) => Ok(
                TypeLayout::new(SHARED_HANDLE_SIZE, SHARED_HANDLE_ALIGNMENT),
            ),
            MirType::Array(array) => match self.array(array) {
                Some(layout) => Ok(layout.descriptor()),
                None => Err(
                    layout_error(
                        framed_decimal("array ", array.index() as u64, " has no target layout"),
                    ),
                ),
            },
            MirType::OptionalPrimitive(payload) => match optional_layout(payload) {
                Ok(layout) => Ok(layout.ty()),
                Err(error) => Err(error),
            },
            MirType::OptionalClass(class) => {
                let payload = match self.class(class) {
                    Some(layout) => layout.ty(),
                    None => return Err(class_missing_error(class)),
                };
                match optional_layout_for(payload) {
                    Ok(layout) => Ok(layout.ty()),
                    Err(error) => Err(error),
                }
            },
            MirType::Unit => Err(
                layout_error(String::from_str("payload-free type `unit` has no storage layout")),
            ),
            primitive => match primitive_layout(primitive) {
                Some(layout) => Ok(layout),
                None => Ok(TypeLayout::new(8, 8)),
            },
        }
    }

    pub fn optional(&self, payload: MirPrimitiveType) -> (r: Result<OptionalLayout, BackendError>)
        ensures
            r == Ok::<OptionalLayout, BackendError>(spec_optional_layout(payload)),
            type_layout_wf(spec_optional_layout(payload).ty),
    {
        optional_layout(payload)
    }

    pub fn optional_class(&self, class: ClassId) -> (r: Result<OptionalLayout, BackendError>)
        requires
            data_layout_wf(self),
        ensures
            result_is(
                r,
                if class.idx < self.classes@.len() {
                    spec_optional_layout_for(self.classes@[class.idx as int].ty)
                } else {
                    Err(class_missing_message(class))
                },
            ),
            r matches Ok(layout) ==> type_layout_wf(layout.ty),
    {
        let payload = match self.class(class) {
            Some(layout) => layout.ty(),
            None => return Err(class_missing_error(class)),
        };
        optional_layout_for(payload)
    }

    pub fn class(&self, class: ClassId) -> (r: Option<&ClassLayout>)
        ensures
            r == (if class.idx < self.classes@.len() {
                Some(&self.classes@[class.idx as int])
            } else {
                None
            }),
    {
        if class.index() < self.classes.len() {
            Some(&self.classes[class.index()])
        } else {
            None
        }
    }

    pub fn array(&self, array: ArrayTypeId) -> (r: Option<ArrayLayout>)
        ensures
            r == (if array.idx < self.arrays@.len() {
                Some(self.arrays@[array.idx as int])
            } else {
                None
            }),
    {
        if array.index() < self.arrays.len() {
            Some(self.arrays[array.index()])
        } else {
            None
        }
    }

    pub fn field(&self, field: FieldId) -> (r: Option<FieldLayout>)
        ensures
            r == (if field.owner.idx < self.classes@.len() && field.idx
                < self.classes@[field.owner.idx as int].fields@.len() {
                Some(self.classes@[field.owner.idx as int].fields@[field.idx as int])
            } else {
                None
            }),
    {
        match self.class(field.class()) {
            Some(layout) => layout.field(field),
            None => None,
        }
    }

    pub fn shared_allocation_size(&self, class: ClassId) -> (r: Result<u64, BackendError>)
        ensures
            result_is(r, spec_shared_allocation_size(self, class)),
    {
        let payload = match self.class(class) {
            Some(layout) => layout.ty(),
            None => return Err(class_missing_error(class)),
        };
        if payload.alignment() > SHARED_HANDLE_ALIGNMENT {
            let mut message = framed_decimal(
                "shared payload class ",
                class.index() as u64,
                " requires unsupported alignment ",
            );
            let alignment = crate::text::decimal(payload.alignment() as u64);
            message.append(alignment.as_str());
            return Err(layout_error(message));
        }
        if payload.size() > MAX_ADDRESSABLE_SIZE - SHARED_HEADER_SIZE {
            return Err(
                layout_error(
                    framed_decimal(
                        "shared allocation for class ",
                        class.index() as u64,
                        " exceeds target size limits",
                    ),
                ),
            );
        }
        Ok((SHARED_HEADER_SIZE + payload.size()) as u64)
    }
}

/// No class field has a view type without owning storage.
pub open spec fn fields_have_storage(program: &MirProgram) -> bool {
    forall|i: int, j: int|
        0 <= i < program.classes@.len() && 0 <= j < program.classes@[i].fields@.len() ==> {
            let ty = (#[trigger] program.classes@[i].fields@[j]).ty;
            !(ty is Obj) && !(ty is Interface)
        }
}

/// Depth-first visit marks used to detect recursive inline layouts.
#[derive(Clone, Copy, Debug, PartialEq, Eq, Structural)]
pub enum VisitState {
    Unvisited,
    Visiting,
    Complete,
}

/// The type layout of a laid-out class.
pub open spec fn layout_of(layouts: Seq<Option<ClassLayout>>, class: ClassId) -> TypeLayout {
    layouts[class.idx as int]->Some_0.ty
}

/// The layout of a field type, given the layouts of the classes it embeds.
pub open spec fn spec_field_layout(
    program: &MirProgram,
    layouts: Seq<Option<ClassLayout>>,
    ty: MirType,
) -> Result<TypeLayout, Seq<char>> {
    match ty {
        MirType::Class(dependency) => Ok(layout_of(layouts, dependency)),
        MirType::OptionalClass(dependency) => match spec_optional_layout_for(
            layout_of(layouts, dependency),
        ) {
            Ok(optional) => Ok(optional.ty),
            Err(message) => Err(message),
        },
        MirType::Shared(_) | MirType::OptionalShared(_) => Ok(shared_handle_layout()),
        MirType::OptionalPrimitive(payload) => Ok(spec_optional_layout(payload).ty),
        MirType::Array(array) => if array.idx < program.array_types@.len() {
            Ok(array_descriptor_layout())
        } else {
            Err("array "@ + decimal_text(array.idx as nat) + " is not declared"@)
        },
        MirType::Unit => Err("field type `unit` has no target layout"@),
        primitive => Ok(spec_primitive_layout(primitive).unwrap()),
    }
}

/// The layouts of the fields of class `index`, in declaration order.
pub open spec fn field_layouts(
    program: &MirProgram,
    layouts: Seq<Option<ClassLayout>>,
    index: int,
) -> Seq<TypeLayout> {
    Seq::new(
        program.classes@[index].fields@.len(),
        |j: int| spec_field_layout(program, layouts, program.classes@[index].fields@[j].ty)->Ok_0,
    )
}

pub open spec fn fields_laid_out(
    program: &MirProgram,
    layouts: Seq<Option<ClassLayout>>,
    index: int,
) -> bool {
    forall|j: int|
        0 <= j < program.classes@[index].fields@.len() ==> spec_field_layout(
            program,
            layouts,
            (#[trigger] program.classes@[index].fields@[j]).ty,
        ) is Ok
}

/// The direct base of class `index` with its layout.
pub open spec fn base_input(
    program: &MirProgram,
    layouts: Seq<Option<ClassLayout>>,
    index: int,
) -> Option<(ClassId, TypeLayout)> {
    match program.classes@[index].direct_base {
        Some(base) => Some((base, layout_of(layouts, base))),
        None => None,
    }
}

/// Class `index` is laid out from its base's and its fields' layouts.
pub open spec fn class_consistent(
    program: &MirProgram,
    layouts: Seq<Option<ClassLayout>>,
    index: int,
) -> bool {
    &&& layouts[index] is Some
    &&& fields_laid_out(program, layouts, index)
    &&& (spec_layout_class(
        base_input(program, layouts, index),
        field_layouts(program, layouts, index),
    ) matches Some(model) && class_layout_is(layouts[index]->Some_0, model))
}

pub open spec fn dependency_complete(states: Seq<VisitState>, ty: MirType) -> bool {
    match ty {
        MirType::Class(dependency) | MirType::OptionalClass(dependency) => dependency.idx
            < states.len() && states[dependency.idx as int] is Complete,
        _ => true,
    }
}

/// Every class that class `index` embeds is already laid out.
pub open spec fn dependencies_complete(
    program: &MirProgram,
    states: Seq<VisitState>,
    index: int,
) -> bool {
    &&& (program.classes@[index].direct_base matches Some(base) ==> base.idx < states.len()
        && states[base.idx as int] is Complete)
    &&& forall|j: int|
        0 <= j < program.classes@[index].fields@.len() ==> dependency_complete(
            states,
            (#[trigger] program.classes@[index].fields@[j]).ty,
        )
}

pub open spec fn type_layout_sound(layout: TypeLayout) -> bool {
    type_layout_wf(layout) && layout.size > 0
}

pub open spec fn builder_wf(
    program: &MirProgram,
    states: Seq<VisitState>,
    layouts: Seq<Option<ClassLayout>>,
) -> bool {
    &&& states.len() == program.classes@.len()
    &&& layouts.len() == states.len()
    &&& forall|i: int| 0 <= i < states.len() ==> (#[trigger] states[i] is Complete) == (
    #[trigger] layouts[i] is Some)
    &&& forall|i: int|
        0 <= i < states.len() && #[trigger] states[i] is Complete ==> dependencies_complete(
            program,
            states,
            i,
        ) && class_consistent(program, layouts, i) && type_layout_sound(layouts[i]->Some_0.ty)
}

/// Completed classes stay complete with unchanged layouts, and visited
/// classes are never unvisited again.
pub open spec fn builder_progress(
    states: Seq<VisitState>,
    layouts: Seq<Option<ClassLayout>>,
    next_states: Seq<VisitState>,
    next_layouts: Seq<Option<ClassLayout>>,
) -> bool {
    &&& next_states.len() == states.len()
    &&& next_layouts.len() == layouts.len()
    &&& forall|i: int|
        0 <= i < states.len() && #[trigger] states[i] is Complete ==> next_states[i] is Complete
            && next_layouts[i] == layouts[i]
    &&& forall|i: int|
        0 <= i < states.len() && !(#[trigger] states[i] is Unvisited) ==> !(
        next_states[i] is Unvisited)
}

pub open spec fn count_unvisited(states: Seq<VisitState>) -> nat
    decreases states.len(),
{
    if states.len() == 0 {
        0
    } else {
        count_unvisited(states.drop_last()) + if states.last() is Unvisited {
            1nat
        } else {
            0nat
        }
    }
}

pub proof fn lemma_count_unvisited_monotone(states: Seq<VisitState>, next: Seq<VisitState>)
    requires
        next.len() == states.len(),
        forall|i: int|
            0 <= i < states.len() && !(#[trigger] states[i] is Unvisited) ==> !(
            next[i] is Unvisited),
    ensures
        count_unvisited(next) <= count_unvisited(states),
    decreases states.len(),
{
    if states.len() > 0 {
        let a = states.drop_last();
        let b = next.drop_last();
        assert forall|i: int| 0 <= i < a.len() && !(#[trigger] a[i] is Unvisited) implies !(
        b[i] is Unvisited) by {
            assert(a[i] == states[i]);
            assert(b[i] == next[i]);
        }
        lemma_count_unvisited_monotone(a, b);
        assert(!(states[states.len() - 1] is Unvisited) ==> !(next[next.len() - 1] is Unvisited));
    }
}

pub proof fn lemma_count_unvisited_mark(states: Seq<VisitState>, index: int)
    requires
        0 <= index < states.len(),
        states[index] is Unvisited,
    ensures
        count_unvisited(states.update(index, VisitState::Visiting)) + 1 == count_unvisited(
            states,
        ),
    decreases states.len(),
{
    let next = states.update(index, VisitState::Visiting);
    if index < states.len() - 1 {
        assert(next.drop_last() =~= states.drop_last().update(index, VisitState::Visiting));
        lemma_count_unvisited_mark(states.drop_last(), index);
    } else {
        assert(next.drop_last() =~= states.drop_last());
    }
}

/// The layouts of completed classes determine every consistency fact that
/// depends on them.
pub proof fn lemma_consistency_preserved(
    program: &MirProgram,
    states: Seq<VisitState>,
    layouts: Seq<Option<ClassLayout>>,
    next_states: Seq<VisitState>,
    next_layouts: Seq<Option<ClassLayout>>,
    index: int,
)
    requires
        builder_wf(program, states, layouts),
        builder_progress(states, layouts, next_states, next_layouts),
        0 <= index < states.len(),
        states[index] is Complete,
    ensures
        dependencies_complete(program, next_states, index),
        class_consistent(program, next_layouts, index),
        next_layouts[index] == layouts[index],
{
    let fields = program.classes@[index].fields@;
    assert forall|j: int| 0 <= j < fields.len() implies dependency_complete(
        next_states,
        (#[trigger] fields[j]).ty,
    ) by {
        assert(dependency_complete(states, fields[j].ty));
    }
    assert forall|j: int| 0 <= j < fields.len() implies spec_field_layout(
        program,
        next_layouts,
        (#[trigger] fields[j]).ty,
    ) == spec_field_layout(program, layouts, fields[j].ty) by {
        assert(dependency_complete(states, fields[j].ty));
        match fields[j].ty {
            MirType::Class(d) => {
                assert(next_layouts[d.idx as int] == layouts[d.idx as int]);
            },
            MirType::OptionalClass(d) => {
                assert(next_layouts[d.idx as int] == layouts[d.idx as int]);
            },
            _ => {},
        }
    }
    assert(field_layouts(program, next_layouts, index) =~= field_layouts(
        program,
        layouts,
        index,
    ));
    match program.classes@[index].direct_base {
        Some(base) => {
            assert(next_layouts[base.idx as int] == layouts[base.idx as int]);
        },
        None => {},
    }
    assert(base_input(program, next_layouts, index) == base_input(program, layouts, index));
}

/// Progress composes across a visit that may have failed, and the marks of
/// classes still being visited survive it.
pub proof fn lemma_failed_step(
    s0: Seq<VisitState>,
    l0: Seq<Option<ClassLayout>>,
    s1: Seq<VisitState>,
    l1: Seq<Option<ClassLayout>>,
    s2: Seq<VisitState>,
    l2: Seq<Option<ClassLayout>>,
)
    requires
        builder_progress(s0, l0, s1, l1),
        builder_progress(s1, l1, s2, l2),
        forall|i: int| 0 <= i < s0.len() && #[trigger] s0[i] is Visiting ==> s1[i] is Visiting,
        forall|i: int| 0 <= i < s1.len() && #[trigger] s1[i] is Visiting ==> s2[i] is Visiting,
    ensures
        builder_progress(s0, l0, s2, l2),
        forall|i: int| 0 <= i < s0.len() && #[trigger] s0[i] is Visiting ==> s2[i] is Visiting,
{
    lemma_progress_transitive(s0, l0, s1, l1, s2, l2);
    assert forall|i: int| 0 <= i < s0.len() && #[trigger] s0[i] is Visiting implies s2[i] is Visiting by {
        assert(s1[i] is Visiting);
    }
}

pub proof fn lemma_progress_transitive(
    s0: Seq<VisitState>,
    l0: Seq<Option<ClassLayout>>,
    s1: Seq<VisitState>,
    l1: Seq<Option<ClassLayout>>,
    s2: Seq<VisitState>,
    l2: Seq<Option<ClassLayout>>,
)
    requires
        builder_progress(s0, l0, s1, l1),
        builder_progress(s1, l1, s2, l2),
    ensures
        builder_progress(s0, l0, s2, l2),
{
    assert forall|i: int| 0 <= i < s0.len() && #[trigger] s0[i] is Complete implies s2[i] is Complete
        && l2[i] == l0[i] by {
        assert(s1[i] is Complete);
    }
    assert forall|i: int| 0 <= i < s0.len() && !(#[trigger] s0[i] is Unvisited) implies !(
    s2[i] is Unvisited) by {
        assert(!(s1[i] is Unvisited));
    }
}

/// A non-empty class, or one with a non-empty base, occupies at least one
/// byte; an empty class occupies exactly one byte.
pub proof fn lemma_class_size_positive(base: Option<(ClassId, TypeLayout)>, fields: Seq<TypeLayout>)
    requires
        match base {
            Some((_, layout)) => type_layout_sound(layout),
            None => true,
        },
        forall|i: int| 0 <= i < fields.len() ==> type_layout_sound(#[trigger] fields[i]),
        spec_layout_class(base, fields) is Some,
    ensures
        spec_layout_class(base, fields).unwrap().ty.size > 0,
{
    assert(all_type_layouts_wf(fields));
    lemma_class_layout_sound(base, fields);
    let model = spec_layout_class(base, fields).unwrap();
    if fields.len() > 0 {
        assert(type_layout_sound(fields[0]));
        assert(model.offsets[0] + fields[0].size <= model.ty.size);
    } else if base is None {
        assert(model.ty.size == 1);
    } else {
        let (_, layout) = base.unwrap();
        assert(layout.size <= model.ty.size);
    }
}

/// The class completed last is consistent with the classes it embeds.
pub proof fn lemma_new_class_consistent(
    program: &MirProgram,
    states: Seq<VisitState>,
    layouts: Seq<Option<ClassLayout>>,
    next_states: Seq<VisitState>,
    next_layouts: Seq<Option<ClassLayout>>,
    index: int,
)
    requires
        0 <= index < states.len(),
        states.len() == layouts.len(),
        !(states[index] is Complete),
        dependencies_complete(program, states, index),
        fields_laid_out(program, layouts, index),
        next_states == states.update(index, VisitState::Complete),
        next_layouts[index] is Some,
        next_layouts.len() == layouts.len(),
        forall|i: int| 0 <= i < layouts.len() && i != index ==> next_layouts[i] == layouts[i],
        spec_layout_class(base_input(program, layouts, index), field_layouts(program, layouts, index))
            matches Some(model) && class_layout_is(next_layouts[index]->Some_0, model),
        type_layout_sound(next_layouts[index]->Some_0.ty),
    ensures
        dependencies_complete(program, next_states, index),
        class_consistent(program, next_layouts, index),
        type_layout_sound(next_layouts[index]->Some_0.ty),
{
    let fields = program.classes@[index].fields@;
    assert forall|j: int| 0 <= j < fields.len() implies dependency_complete(
        next_states,
        (#[trigger] fields[j]).ty,
    ) && spec_field_layout(program, next_layouts, fields[j].ty) == spec_field_layout(
        program,
        layouts,
        fields[j].ty,
    ) by {
        assert(dependency_complete(states, fields[j].ty));
        match fields[j].ty {
            MirType::Class(d) => {
                assert(d.idx != index);
                assert(next_layouts[d.idx as int] == layouts[d.idx as int]);
            },
            MirType::OptionalClass(d) => {
                assert(d.idx != index);
                assert(next_layouts[d.idx as int] == layouts[d.idx as int]);
            },
            _ => {},
        }
    }
    assert(field_layouts(program, next_layouts, index) =~= field_layouts(
        program,
        layouts,
        index,
    ));
    match program.classes@[index].direct_base {
        Some(base) => {
            assert(base.idx != index);
            assert(next_layouts[base.idx as int] == layouts[base.idx as int]);
        },
        None => {},
    }
    assert(base_input(program, next_layouts, index) == base_input(program, layouts, index));
}

/// The layout model of `class` when its base and fields can be laid out
/// within `fuel` levels of inline embedding; `None` when a level is
/// missing (a recursive inline layout), a type has no layout, or a size
/// exceeds the target limits.
pub open spec fn spec_class_model(program: &MirProgram, class: ClassId, fuel: nat) -> Option<
    ClassLayoutModel,
>
    decreases fuel, 0nat,
{
    if fuel == 0 || class.idx >= program.classes@.len() {
        None
    } else {
        let declaration = program.classes@[class.idx as int];
        let base = match declaration.direct_base {
            None => Some(None::<(ClassId, TypeLayout)>),
            Some(base) => match spec_class_model(program, base, (fuel - 1) as nat) {
                Some(model) => Some(Some((base, model.ty))),
                None => None,
            },
        };
        match base {
            None => None,
            Some(base) => match spec_field_models(program, declaration.fields@, (fuel - 1) as nat) {
                None => None,
                Some(fields) => spec_layout_class(base, fields),
            },
        }
    }
}

/// The layout of a field type within `fuel` levels of inline embedding.
pub open spec fn spec_field_type_layout(program: &MirProgram, ty: MirType, fuel: nat) -> Option<
    TypeLayout,
>
    decreases fuel, 1nat,
{
    match ty {
        MirType::Class(dependency) => match spec_class_model(program, dependency, fuel) {
            Some(model) => Some(model.ty),
            None => None,
        },
        MirType::OptionalClass(dependency) => match spec_class_model(program, dependency, fuel) {
            Some(model) => match spec_optional_layout_for(model.ty) {
                Ok(optional) => Some(optional.ty),
                Err(_) => None,
            },
            None => None,
        },
        other => match spec_field_layout(program, Seq::empty(), other) {
            Ok(layout) => Some(layout),
            Err(_) => None,
        },
    }
}

/// The layouts of fields in order within `fuel` levels of embedding.
pub open spec fn spec_field_models(program: &MirProgram, fields: Seq<MirField>, fuel: nat) -> Option<
    Seq<TypeLayout>,
>
    decreases fuel, fields.len() + 2,
{
    if fields.len() == 0 {
        Some(Seq::empty())
    } else {
        match spec_field_models(program, fields.drop_last(), fuel) {
            None => None,
            Some(earlier) => match spec_field_type_layout(program, fields.last().ty, fuel) {
                None => None,
                Some(layout) => Some(earlier.push(layout)),
            },
        }
    }
}

/// One more level of embedding changes nothing once a class is laid out.
pub proof fn lemma_model_step(program: &MirProgram, class: ClassId, fuel: nat)
    requires
        spec_class_model(program, class, fuel) is Some,
    ensures
        spec_class_model(program, class, fuel + 1) == spec_class_model(program, class, fuel),
    decreases fuel, 0nat,
{
    let declaration = program.classes@[class.idx as int];
    match declaration.direct_base {
        Some(base) => {
            lemma_model_step(program, base, (fuel - 1) as nat);
        },
        None => {},
    }
    lemma_field_models_step(program, declaration.fields@, (fuel - 1) as nat);
    assert((fuel + 1 - 1) as nat == fuel);
}

pub proof fn lemma_field_type_step(program: &MirProgram, ty: MirType, fuel: nat)
    requires
        spec_field_type_layout(program, ty, fuel) is Some,
    ensures
        spec_field_type_layout(program, ty, fuel + 1) == spec_field_type_layout(program, ty, fuel),
    decreases fuel, 1nat,
{
    match ty {
        MirType::Class(dependency) => lemma_model_step(program, dependency, fuel),
        MirType::OptionalClass(dependency) => lemma_model_step(program, dependency, fuel),
        _ => {},
    }
}

pub proof fn lemma_field_models_step(program: &MirProgram, fields: Seq<MirField>, fuel: nat)
    requires
        spec_field_models(program, fields, fuel) is Some,
    ensures
        spec_field_models(program, fields, fuel + 1) == spec_field_models(program, fields, fuel),
    decreases fuel, fields.len() + 2,
{
    if fields.len() > 0 {
        lemma_field_models_step(program, fields.drop_last(), fuel);
        lemma_field_type_step(program, fields.last().ty, fuel);
    }
}

/// A laid-out class keeps its model at every larger fuel.
pub proof fn lemma_model_stable(program: &MirProgram, class: ClassId, fuel: nat, more: nat)
    requires
        spec_class_model(program, class, fuel) is Some,
        fuel <= more,
    ensures
        spec_class_model(program, class, more) == spec_class_model(program, class, fuel),
    decreases more - fuel,
{
    if fuel < more {
        lemma_model_step(program, class, fuel);
        lemma_model_stable(program, class, fuel + 1, more);
    }
}

/// Two fuels that both lay a class out give the same model.
pub proof fn lemma_model_unique(program: &MirProgram, class: ClassId, a: nat, b: nat)
    requires
        spec_class_model(program, class, a) is Some,
        spec_class_model(program, class, b) is Some,
    ensures
        spec_class_model(program, class, a) == spec_class_model(program, class, b),
{
    if a <= b {
        lemma_model_stable(program, class, a, b);
    } else {
        lemma_model_stable(program, class, b, a);
    }
}

/// Whether some fuel lays the class out.
pub open spec fn class_defined(program: &MirProgram, class: ClassId) -> bool {
    exists|fuel: nat| #[trigger] spec_class_model(program, class, fuel) is Some
}

/// The least fuel that lays a class out: the depth of its inline embedding.
pub open spec fn class_height(program: &MirProgram, class: ClassId) -> nat {
    choose|fuel: nat|
        #[trigger] spec_class_model(program, class, fuel) is Some && forall|less: nat|
            less < fuel ==> spec_class_model(program, class, less) is None
}

pub proof fn lemma_least_fuel(program: &MirProgram, class: ClassId, fuel: nat) -> (least: nat)
    requires
        spec_class_model(program, class, fuel) is Some,
    ensures
        least <= fuel,
        spec_class_model(program, class, least) is Some,
        forall|less: nat| less < least ==> spec_class_model(program, class, less) is None,
    decreases fuel,
{
    if fuel > 0 && spec_class_model(program, class, (fuel - 1) as nat) is Some {
        lemma_least_fuel(program, class, (fuel - 1) as nat)
    } else {
        assert forall|less: nat| less < fuel implies spec_class_model(program, class, less) is None by {
            if spec_class_model(program, class, less) is Some {
                lemma_model_stable(program, class, less, (fuel - 1) as nat);
            }
        }
        fuel
    }
}

/// A defined class has a height, which lays it out while one level less
/// does not.
pub proof fn lemma_height(program: &MirProgram, class: ClassId)
    requires
        class_defined(program, class),
    ensures
        spec_class_model(program, class, class_height(program, class)) is Some,
        class_height(program, class) > 0,
        spec_class_model(program, class, (class_height(program, class) - 1) as nat) is None,
        forall|less: nat|
            less < class_height(program, class) ==> spec_class_model(program, class, less) is None,
{
    let fuel = choose|fuel: nat| #[trigger] spec_class_model(program, class, fuel) is Some;
    let least = lemma_least_fuel(program, class, fuel);
    assert(spec_class_model(program, class, least) is Some && forall|less: nat|
        less < least ==> spec_class_model(program, class, less) is None);
    let h = class_height(program, class);
    assert(spec_class_model(program, class, h) is Some);
    assert(h > 0);
}

/// A class that some fuel lays out is declared, and its base and its fields
/// are laid out with one level less.
pub proof fn lemma_model_parts(program: &MirProgram, class: ClassId, fuel: nat)
    requires
        spec_class_model(program, class, fuel) is Some,
    ensures
        fuel > 0,
        class.idx < program.classes@.len(),
        program.classes@[class.idx as int].direct_base matches Some(base) ==> spec_class_model(
            program,
            base,
            (fuel - 1) as nat,
        ) is Some,
        spec_field_models(program, program.classes@[class.idx as int].fields@, (fuel - 1) as nat) is Some,
{
}

/// Field models that exist give each field's layout in order.
pub proof fn lemma_field_models_each(program: &MirProgram, fields: Seq<MirField>, fuel: nat)
    requires
        spec_field_models(program, fields, fuel) is Some,
    ensures
        spec_field_models(program, fields, fuel)->Some_0.len() == fields.len(),
        forall|j: int|
            0 <= j < fields.len() ==> spec_field_type_layout(program, (#[trigger] fields[j]).ty, fuel)
                == Some(spec_field_models(program, fields, fuel)->Some_0[j]),
    decreases fields.len(),
{
    if fields.len() > 0 {
        lemma_field_models_each(program, fields.drop_last(), fuel);
        assert forall|j: int| 0 <= j < fields.len() implies spec_field_type_layout(
            program,
            (#[trigger] fields[j]).ty,
            fuel,
        ) == Some(spec_field_models(program, fields, fuel)->Some_0[j]) by {
            if j < fields.len() - 1 {
                assert(fields[j] == fields.drop_last()[j]);
            }
        }
    }
}

/// Field layouts that each exist make the field models.
pub proof fn lemma_field_models_from(
    program: &MirProgram,
    fields: Seq<MirField>,
    fuel: nat,
    layouts: Seq<TypeLayout>,
)
    requires
        layouts.len() == fields.len(),
        forall|j: int|
            0 <= j < fields.len() ==> spec_field_type_layout(program, (#[trigger] fields[j]).ty, fuel)
                == Some(layouts[j]),
    ensures
        spec_field_models(program, fields, fuel) == Some(layouts),
    decreases fields.len(),
{
    if fields.len() > 0 {
        assert forall|j: int| 0 <= j < fields.drop_last().len() implies spec_field_type_layout(
            program,
            (#[trigger] fields.drop_last()[j]).ty,
            fuel,
        ) == Some(layouts.drop_last()[j]) by {
            assert(fields.drop_last()[j] == fields[j]);
        }
        lemma_field_models_from(program, fields.drop_last(), fuel, layouts.drop_last());
        assert(layouts.drop_last().push(layouts.last()) =~= layouts);
    }
}

/// The number of completed classes.
pub open spec fn count_complete(states: Seq<VisitState>) -> nat
    decreases states.len(),
{
    if states.len() == 0 {
        0
    } else {
        count_complete(states.drop_last()) + if states.last() is Complete {
            1nat
        } else {
            0nat
        }
    }
}

/// Marking a class that is not complete changes the count by one when the
/// mark is `Complete`, and not at all otherwise.
pub proof fn lemma_count_complete_update(states: Seq<VisitState>, index: int, mark: VisitState)
    requires
        0 <= index < states.len(),
        !(states[index] is Complete),
    ensures
        count_complete(states.update(index, mark)) == count_complete(states) + if mark is Complete {
            1nat
        } else {
            0nat
        },
    decreases states.len(),
{
    let next = states.update(index, mark);
    if index < states.len() - 1 {
        assert(next.drop_last() =~= states.drop_last().update(index, mark));
        lemma_count_complete_update(states.drop_last(), index, mark);
    } else {
        assert(next.drop_last() =~= states.drop_last());
    }
}

/// Every completed class has the model that as many levels of embedding as
/// there are completed classes give it.
pub open spec fn builder_heights(
    program: &MirProgram,
    states: Seq<VisitState>,
    layouts: Seq<Option<ClassLayout>>,
) -> bool {
    forall|class: ClassId|
        class.idx < states.len() && #[trigger] states[class.idx as int] is Complete ==> (spec_class_model(
            program,
            class,
            count_complete(states),
        ) matches Some(model) && class_layout_is(layouts[class.idx as int]->Some_0, model))
}

/// No class being visited can be laid out within `fuel` levels: none is
/// needed by a class of that height.
pub open spec fn visiting_above(program: &MirProgram, states: Seq<VisitState>, fuel: nat) -> bool {
    forall|class: ClassId|
        class.idx < states.len() && #[trigger] states[class.idx as int] is Visiting
            ==> spec_class_model(program, class, fuel) is None
}

/// A class that a fuel does not lay out is not laid out by less fuel.
pub proof fn lemma_none_below(program: &MirProgram, class: ClassId, fuel: nat, less: nat)
    requires
        spec_class_model(program, class, fuel) is None,
        less <= fuel,
    ensures
        spec_class_model(program, class, less) is None,
{
    if spec_class_model(program, class, less) is Some {
        lemma_model_stable(program, class, less, fuel);
    }
}

/// Field types that embed no class have the same layout whatever the class
/// layouts.
pub proof fn lemma_field_layout_free(
    program: &MirProgram,
    a: Seq<Option<ClassLayout>>,
    b: Seq<Option<ClassLayout>>,
    ty: MirType,
)
    requires
        !(ty is Class),
        !(ty is OptionalClass),
    ensures
        spec_field_layout(program, a, ty) == spec_field_layout(program, b, ty),
{
}

/// A dependency that a class of height `height` needs, visited while the
/// class itself and classes above it are being visited, is defined and
/// no class being visited is needed by it.
pub proof fn lemma_dependency_expected(
    program: &MirProgram,
    old_states: Seq<VisitState>,
    states: Seq<VisitState>,
    here: ClassId,
    height: nat,
    dependency: ClassId,
)
    requires
        height > 0,
        states.len() == old_states.len(),
        here.idx < states.len(),
        visiting_above(program, old_states, height),
        spec_class_model(program, here, (height - 1) as nat) is None,
        forall|i: int|
            0 <= i < states.len() && #[trigger] states[i] is Visiting ==> old_states[i] is Visiting
                || i == here.idx as int,
        spec_class_model(program, dependency, (height - 1) as nat) is Some,
    ensures
        class_defined(program, dependency),
        class_height(program, dependency) <= height - 1,
        visiting_above(program, states, class_height(program, dependency)),
{
    assert(spec_class_model(program, dependency, (height - 1) as nat) is Some);
    lemma_height(program, dependency);
    let h = class_height(program, dependency);
    if h > height - 1 {
        assert(spec_class_model(program, dependency, (height - 1) as nat) is None);
    }
    assert forall|class: ClassId|
        class.idx < states.len() && #[trigger] states[class.idx as int] is Visiting implies spec_class_model(
        program,
        class,
        h,
    ) is None by {
        if class.idx == here.idx {
            assert(class == here);
            lemma_none_below(program, class, (height - 1) as nat, h);
        } else {
            assert(old_states[class.idx as int] is Visiting);
            lemma_none_below(program, class, height, h);
        }
    }
}

/// Completing a class from its completed dependencies keeps every completed
/// class at the model its count of completed classes gives it.
pub proof fn lemma_completion_heights(
    program: &MirProgram,
    states: Seq<VisitState>,
    layouts: Seq<Option<ClassLayout>>,
    next_states: Seq<VisitState>,
    next_layouts: Seq<Option<ClassLayout>>,
    here: ClassId,
    base: Option<(ClassId, TypeLayout)>,
    fields: Seq<TypeLayout>,
)
    requires
        builder_wf(program, states, layouts),
        builder_heights(program, states, layouts),
        here.idx < states.len(),
        !(states[here.idx as int] is Complete),
        dependencies_complete(program, states, here.idx as int),
        base == base_input(program, layouts, here.idx as int),
        fields.len() == program.classes@[here.idx as int].fields@.len(),
        forall|k: int|
            0 <= k < fields.len() ==> spec_field_layout(
                program,
                layouts,
                (#[trigger] program.classes@[here.idx as int].fields@[k]).ty,
            ) == Ok::<TypeLayout, Seq<char>>(fields[k]),
        next_states == states.update(here.idx as int, VisitState::Complete),
        next_layouts.len() == layouts.len(),
        forall|i: int| 0 <= i < layouts.len() && i != here.idx as int ==> next_layouts[i] == layouts[i],
        spec_layout_class(base, fields) matches Some(model) && class_layout_is(
            next_layouts[here.idx as int]->Some_0,
            model,
        ),
    ensures
        builder_heights(program, next_states, next_layouts),
{
    let index = here.idx as int;
    let count = count_complete(states);
    lemma_count_complete_update(states, index, VisitState::Complete);
    let declaration = program.classes@[index];
    let fs = declaration.fields@;
    assert forall|k: int| 0 <= k < fs.len() implies spec_field_type_layout(
        program,
        (#[trigger] fs[k]).ty,
        count,
    ) == Some(fields[k]) by {
        assert(dependency_complete(states, fs[k].ty));
        match fs[k].ty {
            MirType::Class(d) => {
                assert(states[d.idx as int] is Complete);
            },
            MirType::OptionalClass(d) => {
                assert(states[d.idx as int] is Complete);
            },
            other => {
                lemma_field_layout_free(program, layouts, Seq::empty(), other);
            },
        }
    }
    lemma_field_models_from(program, fs, count, fields);
    match declaration.direct_base {
        Some(b) => {
            assert(states[b.idx as int] is Complete);
        },
        None => {},
    }
    assert(spec_class_model(program, here, count + 1) == spec_layout_class(base, fields));
    assert forall|class: ClassId|
        class.idx < next_states.len() && #[trigger] next_states[class.idx as int] is Complete implies (
    spec_class_model(program, class, count_complete(next_states)) matches Some(model)
        && class_layout_is(next_layouts[class.idx as int]->Some_0, model)) by {
        if class.idx as int == index {
            assert(class == here);
        } else {
            assert(states[class.idx as int] is Complete);
            lemma_model_step(program, class, count);
        }
    }
}

/// With every class it embeds laid out, a class is laid out as its model at
/// any fuel that defines it.
pub proof fn lemma_expected_layout(
    program: &MirProgram,
    states: Seq<VisitState>,
    layouts: Seq<Option<ClassLayout>>,
    here: ClassId,
    fuel: nat,
    base: Option<(ClassId, TypeLayout)>,
    fields: Seq<TypeLayout>,
)
    requires
        builder_wf(program, states, layouts),
        builder_heights(program, states, layouts),
        here.idx < states.len(),
        dependencies_complete(program, states, here.idx as int),
        base == base_input(program, layouts, here.idx as int),
        fields.len() == program.classes@[here.idx as int].fields@.len(),
        forall|k: int|
            0 <= k < fields.len() ==> spec_field_layout(
                program,
                layouts,
                (#[trigger] program.classes@[here.idx as int].fields@[k]).ty,
            ) == Ok::<TypeLayout, Seq<char>>(fields[k]),
        spec_class_model(program, here, fuel) is Some,
    ensures
        spec_layout_class(base, fields) == spec_class_model(program, here, fuel),
{
    let index = here.idx as int;
    let count = count_complete(states);
    let fs = program.classes@[index].fields@;
    lemma_model_parts(program, here, fuel);
    let below = (fuel - 1) as nat;
    lemma_field_models_each(program, fs, below);
    let models = spec_field_models(program, fs, below)->Some_0;
    assert forall|k: int| 0 <= k < fs.len() implies models[k] == fields[k] by {
        assert(dependency_complete(states, fs[k].ty));
        assert(spec_field_type_layout(program, fs[k].ty, below) == Some(models[k]));
        match fs[k].ty {
            MirType::Class(d) => {
                assert(states[d.idx as int] is Complete);
                lemma_model_unique(program, d, count, below);
            },
            MirType::OptionalClass(d) => {
                assert(states[d.idx as int] is Complete);
                lemma_model_unique(program, d, count, below);
            },
            other => {
                lemma_field_layout_free(program, layouts, Seq::empty(), other);
            },
        }
    }
    assert(models =~= fields);
    match program.classes@[index].direct_base {
        Some(b) => {
            assert(states[b.idx as int] is Complete);
            lemma_model_unique(program, b, count, below);
        },
        None => {},
    }
}

/// The model of a defined class, at the depth of its inline embedding.
pub open spec fn class_model(program: &MirProgram, class: ClassId) -> ClassLayoutModel {
    spec_class_model(program, class, class_height(program, class))->Some_0
}

/// The layout of an array element type under the class models.
pub open spec fn spec_element_model(program: &MirProgram, ty: MirType) -> Result<
    TypeLayout,
    Seq<char>,
> {
    match ty {
        MirType::Class(class) => if class_defined(program, class) {
            Ok(class_model(program, class).ty)
        } else {
            Err(class_missing_message(class))
        },
        MirType::OptionalClass(class) => if class_defined(program, class) {
            match spec_optional_layout_for(class_model(program, class).ty) {
                Ok(optional) => Ok(optional.ty),
                Err(message) => Err(message),
            }
        } else {
            Err(class_missing_message(class))
        },
        other => spec_element_layout(program, Seq::empty(), other),
    }
}

/// Every declared class has a finite inline layout within the target limits,
/// and every array type is laid out from the layout of its element.
pub open spec fn spec_layouts_succeed(program: &MirProgram) -> bool {
    &&& forall|class: ClassId|
        class.idx < program.classes@.len() ==> #[trigger] class_defined(program, class)
    &&& forall|a: int|
        0 <= a < program.array_types@.len() ==> (spec_element_model(
            program,
            (#[trigger] program.array_types@[a]).element,
        ) matches Ok(element) && spec_array_layout(element) is Some)
}

/// A completed class is defined and laid out as its model.
pub proof fn lemma_complete_model(
    program: &MirProgram,
    states: Seq<VisitState>,
    layouts: Seq<Option<ClassLayout>>,
    class: ClassId,
)
    requires
        builder_heights(program, states, layouts),
        class.idx < states.len(),
        states[class.idx as int] is Complete,
    ensures
        class_defined(program, class),
        class_layout_is(layouts[class.idx as int]->Some_0, class_model(program, class)),
{
    let count = count_complete(states);
    assert(spec_class_model(program, class, count) is Some);
    lemma_height(program, class);
    lemma_model_unique(program, class, count, class_height(program, class));
}

/// Once every class is complete, array elements are laid out as their
/// models.
pub proof fn lemma_element_model(
    program: &MirProgram,
    states: Seq<VisitState>,
    layouts: Seq<Option<ClassLayout>>,
    ty: MirType,
)
    requires
        builder_heights(program, states, layouts),
        states.len() == program.classes@.len(),
        layouts.len() == states.len(),
        forall|i: int| 0 <= i < states.len() ==> #[trigger] states[i] is Complete,
        forall|i: int| 0 <= i < layouts.len() ==> #[trigger] layouts[i] is Some,
    ensures
        spec_element_layout(program, layouts, ty) == spec_element_model(program, ty),
{
    match ty {
        MirType::Class(class) => {
            if class.idx < states.len() {
                assert(layouts[class.idx as int] is Some);
                lemma_complete_model(program, states, layouts, class);
            } else if class_defined(program, class) {
                lemma_height(program, class);
                lemma_model_parts(program, class, class_height(program, class));
            }
        },
        MirType::OptionalClass(class) => {
            if class.idx < states.len() {
                assert(layouts[class.idx as int] is Some);
                lemma_complete_model(program, states, layouts, class);
            } else if class_defined(program, class) {
                lemma_height(program, class);
                lemma_model_parts(program, class, class_height(program, class));
            }
        },
        _ => {},
    }
}

/// Marking an unvisited class as being visited keeps every completed class
/// at its model.
pub proof fn lemma_heights_mark_visiting(
    program: &MirProgram,
    states: Seq<VisitState>,
    layouts: Seq<Option<ClassLayout>>,
    index: int,
)
    requires
        builder_heights(program, states, layouts),
        0 <= index < states.len(),
        states[index] is Unvisited,
    ensures
        builder_heights(program, states.update(index, VisitState::Visiting), layouts),
{
    let next = states.update(index, VisitState::Visiting);
    lemma_count_complete_update(states, index, VisitState::Visiting);
    assert forall|class: ClassId|
        class.idx < next.len() && #[trigger] next[class.idx as int] is Complete implies (
    spec_class_model(program, class, count_complete(next)) matches Some(model)
        && class_layout_is(layouts[class.idx as int]->Some_0, model)) by {
        assert(states[class.idx as int] is Complete);
    }
}

/// Incremental builder for the class layouts of one program.
pub struct LayoutBuilder<'mir> {
    pub program: &'mir MirProgram,
    pub states: Vec<VisitState>,
    pub layouts: Vec<Option<ClassLayout>>,
}

pub open spec fn builder_ready(builder: &LayoutBuilder) -> bool {
    &&& program_ids_dense(builder.program)
    &&& fields_have_storage(builder.program)
    &&& builder_wf(builder.program, builder.states@, builder.layouts@)
    &&& builder_heights(builder.program, builder.states@, builder.layouts@)
}

pub open spec fn undeclared_class_message(class: ClassId) -> Seq<char> {
    "class "@ + decimal_text(class.idx as nat) + " is not declared"@
}

/// The layouts of a program's classes and arrays agree with the layout
/// rules: every class is laid out from its base's and fields' layouts and
/// every array from its element's layout.
pub open spec fn data_layout_consistent(program: &MirProgram, layout: &DataLayout) -> bool {
    let options = layout.classes@.map_values(|class: ClassLayout| Some(class));
    &&& layout.classes@.len() == program.classes@.len()
    &&& layout.arrays@.len() == program.array_types@.len()
    &&& forall|i: int| 0 <= i < layout.classes@.len() ==> class_consistent(program, options, i)
    &&& forall|a: int|
        0 <= a < layout.arrays@.len() ==> (spec_element_layout(
            program,
            options,
            (#[trigger] program.array_types@[a]).element,
        ) matches Ok(element) && spec_array_layout(element) == Some(layout.arrays@[a]))
}

/// The `Debug` spelling of the view and payload-free types.
pub open spec fn storage_free_type_text(ty: MirType) -> Seq<char> {
    match ty {
        MirType::Unit => "Unit"@,
        MirType::Obj => "Obj"@,
        MirType::Interface(interface) => "Interface(InterfaceId { idx: "@ + decimal_text(
            interface.idx as nat,
        ) + " })"@,
        _ => Seq::empty(),
    }
}

pub fn storage_free_type_string(ty: MirType) -> (r: String)
    ensures
        r@ == storage_free_type_text(ty),
{
    match ty {
        MirType::Unit => String::from_str("Unit"),
        MirType::Obj => String::from_str("Obj"),
        MirType::Interface(interface) => framed_decimal(
            "Interface(InterfaceId { idx: ",
            interface.index() as u64,
            " })",
        ),
        _ => String::new(),
    }
}

/// The layout of an array element type.
pub open spec fn spec_element_layout(
    program: &MirProgram,
    layouts: Seq<Option<ClassLayout>>,
    ty: MirType,
) -> Result<TypeLayout, Seq<char>> {
    match ty {
        MirType::Class(class) => if class.idx < layouts.len() && layouts[class.idx as int] is Some {
            Ok(layout_of(layouts, class))
        } else {
            Err(class_missing_message(class))
        },
        MirType::OptionalClass(class) => if class.idx < layouts.len()
            && layouts[class.idx as int] is Some {
            match spec_optional_layout_for(layout_of(layouts, class)) {
                Ok(optional) => Ok(optional.ty),
                Err(message) => Err(message),
            }
        } else {
            Err(class_missing_message(class))
        },
        MirType::Array(array) => if array.idx < program.array_types@.len() {
            Ok(array_descriptor_layout())
        } else {
            Err("array "@ + decimal_text(array.idx as nat) + " is not declared"@)
        },
        MirType::OptionalPrimitive(payload) => Ok(spec_optional_layout(payload).ty),
        MirType::Shared(_) | MirType::OptionalShared(_) => Ok(shared_handle_layout()),
        primitive => match spec_primitive_layout(primitive) {
            Some(layout) => Ok(layout),
            None => Err("type "@ + storage_free_type_text(primitive) + " has no array layout"@),
        },
    }
}

impl<'mir> LayoutBuilder<'mir> {
    pub fn new(program: &'mir MirProgram) -> (r: Self)
        ensures
            r.program == program,
            builder_wf(program, r.states@, r.layouts@),
            builder_heights(program, r.states@, r.layouts@),
            forall|i: int| 0 <= i < r.states@.len() ==> #[trigger] r.states@[i] is Unvisited,
    {
        let class_count = program.classes.len();
        let mut states: Vec<VisitState> = Vec::new();
        let mut layouts: Vec<Option<ClassLayout>> = Vec::new();
        let mut i: usize = 0;
        while i < class_count
            invariant
                class_count == program.classes@.len(),
                i <= class_count,
                states@.len() == i,
                layouts@.len() == i,
                forall|k: int| 0 <= k < i ==> #[trigger] states@[k] is Unvisited,
                forall|k: int| 0 <= k < i ==> #[trigger] layouts@[k] is None,
            decreases class_count - i,
        {
            states.push(VisitState::Unvisited);
            layouts.push(None);
            i = i + 1;
        }
        LayoutBuilder { program, states, layouts }
    }

    /// Lays out `class` after every class it embeds, rejecting recursive
    /// inline layouts.
    #[verifier::rlimit(100)]
    #[verifier::spinoff_prover]
    pub fn compute_class(&mut self, class: ClassId) -> (r: Result<TypeLayout, BackendError>)
        requires
            builder_ready(old(self)),
        ensures
            final(self).program == old(self).program,
            builder_progress(
                old(self).states@,
                old(self).layouts@,
                final(self).states@,
                final(self).layouts@,
            ),
            forall|i: int|
                0 <= i < old(self).states@.len() && #[trigger] old(self).states@[i] is Visiting
                    ==> final(self).states@[i] is Visiting,
            r is Ok ==> {
                &&& builder_ready(final(self))
                &&& class.idx < final(self).states@.len()
                &&& final(self).states@[class.idx as int] is Complete
                &&& r == Ok::<TypeLayout, BackendError>(layout_of(final(self).layouts@, class))
                &&& class_defined(old(self).program, class)
                &&& forall|i: int|
                    0 <= i < final(self).states@.len() && #[trigger] final(self).states@[i] is Visiting
                        ==> old(self).states@[i] is Visiting
            },
            class_defined(old(self).program, class) && visiting_above(
                old(self).program,
                old(self).states@,
                class_height(old(self).program, class),
            ) ==> r is Ok,
        decreases count_unvisited(old(self).states@),
    {
        let program = self.program;
        let index = class.index();
        let ghost height = class_height(program, class);
        let ghost expect = class_defined(program, class) && visiting_above(
            program,
            self.states@,
            height,
        );
        proof {
            if expect {
                lemma_height(program, class);
                lemma_model_parts(program, class, height);
            }
        }
        if index >= self.states.len() {
            return Err(layout_error(framed_decimal("class ", index as u64, " is not declared")));
        }
        proof {
            if expect {
                assert(!(self.states@[class.idx as int] is Visiting));
            }
        }
        match self.states[index] {
            VisitState::Complete => {
                proof {
                    assert(spec_class_model(program, class, count_complete(self.states@)) is Some);
                }
                return match &self.layouts[index] {
                    Some(layout) => Ok(layout.ty()),
                    None => Err(
                        layout_error(framed_decimal("class ", index as u64, " is not declared")),
                    ),
                };
            },
            VisitState::Visiting => {
                return Err(
                    layout_error(
                        framed_decimal("recursive inline layout involving class ", index as u64, ""),
                    ),
                );
            },
            VisitState::Unvisited => {},
        }
        let ghost old_states = self.states@;
        let ghost old_layouts = self.layouts@;
        let direct_base = program.classes[index].direct_base;
        proof {
            lemma_count_unvisited_mark(self.states@, index as int);
            lemma_heights_mark_visiting(program, self.states@, self.layouts@, index as int);
        }
        self.states.set(index, VisitState::Visiting);
        proof {
            assert forall|i: int|
                0 <= i < self.states@.len() && #[trigger] self.states@[i] is Complete implies {
                &&& dependencies_complete(program, self.states@, i)
                &&& class_consistent(program, self.layouts@, i)
            } by {
                assert(old_states[i] is Complete);
                lemma_consistency_preserved(
                    program,
                    old_states,
                    old_layouts,
                    self.states@,
                    self.layouts@,
                    i,
                );
            }
        }
        let ghost marked_states = self.states@;
        let ghost marked_layouts = self.layouts@;
        assert(builder_progress(old_states, old_layouts, marked_states, marked_layouts));
        let base = match direct_base {
            Some(base_class) => {
                proof {
                    if expect {
                        lemma_dependency_expected(
                            program,
                            old_states,
                            self.states@,
                            class,
                            height,
                            base_class,
                        );
                    }
                }
                match self.compute_class(base_class) {
                    Ok(layout) => {
                        proof {
                            lemma_count_unvisited_monotone(marked_states, self.states@);
                            assert(marked_states[index as int] is Visiting);
                            assert forall|i: int|
                                0 <= i < self.states@.len() && #[trigger] self.states@[i] is Visiting
                                    implies old_states[i] is Visiting || i == index as int by {
                                assert(marked_states[i] is Visiting);
                            }
                        }
                        Some((base_class, layout))
                    },
                    Err(error) => {
                        proof {
                            lemma_progress_transitive(
                                old_states,
                                old_layouts,
                                marked_states,
                                marked_layouts,
                                self.states@,
                                self.layouts@,
                            );
                            assert forall|i: int|
                                0 <= i < old_states.len() && #[trigger] old_states[i] is Visiting
                                    implies self.states@[i] is Visiting by {
                                assert(marked_states[i] is Visiting);
                            }
                        }
                        return Err(error);
                    },
                }
            },
            None => None,
        };
        proof {
            lemma_progress_transitive(
                old_states,
                old_layouts,
                marked_states,
                marked_layouts,
                self.states@,
                self.layouts@,
            );
            assert forall|i: int|
                0 <= i < old_states.len() && #[trigger] old_states[i] is Visiting
                    implies self.states@[i] is Visiting by {
                assert(marked_states[i] is Visiting);
            }
        }
        let fields = &program.classes[index].fields;
        let mut laid_out_fields: Vec<TypeLayout> = Vec::new();
        let mut j: usize = 0;
        while j < fields.len()
            invariant
                self.program == program,
                program == old(self).program,
                builder_ready(self),
                fields@ == program.classes@[index as int].fields@,
                j <= fields@.len(),
                index < old_states.len(),
                old_states == old(self).states@,
                old_layouts == old(self).layouts@,
                old_states[index as int] is Unvisited,
                self.states@[index as int] is Visiting,
                builder_progress(old_states, old_layouts, self.states@, self.layouts@),
                forall|i: int|
                    0 <= i < old_states.len() && #[trigger] old_states[i] is Visiting
                        ==> self.states@[i] is Visiting,
                count_unvisited(self.states@) < count_unvisited(old_states),
                class.idx == index,
                height == class_height(program, class),
                expect == (class_defined(program, class) && visiting_above(
                    program,
                    old_states,
                    height,
                )),
                expect ==> {
                    &&& height > 0
                    &&& spec_class_model(program, class, height) is Some
                    &&& spec_class_model(program, class, (height - 1) as nat) is None
                    &&& spec_field_models(program, fields@, (height - 1) as nat) is Some
                },
                forall|i: int|
                    0 <= i < self.states@.len() && #[trigger] self.states@[i] is Visiting
                        ==> old_states[i] is Visiting || i == index as int,
                direct_base == program.classes@[index as int].direct_base,
                match direct_base {
                    Some(base_class) => base_class.idx < self.states@.len()
                        && self.states@[base_class.idx as int] is Complete && base == Some(
                        (base_class, layout_of(self.layouts@, base_class)),
                    ),
                    None => base is None,
                },
                laid_out_fields@.len() == j,
                forall|k: int|
                    0 <= k < j ==> dependency_complete(self.states@, (#[trigger] fields@[k]).ty),
                forall|k: int|
                    0 <= k < j ==> spec_field_layout(program, self.layouts@, (#[trigger] fields@[k]).ty)
                        == Ok::<TypeLayout, Seq<char>>(laid_out_fields@[k]),
                forall|k: int| 0 <= k < j ==> type_layout_sound(#[trigger] laid_out_fields@[k]),
            decreases fields@.len() - j,
        {
            let ty = fields[j].ty;
            let ghost before_states = self.states@;
            let ghost before_layouts = self.layouts@;
            proof {
                if expect {
                    lemma_field_models_each(program, fields@, (height - 1) as nat);
                    assert(spec_field_type_layout(program, fields@[j as int].ty, (height - 1) as nat)
                        is Some);
                    match ty {
                        MirType::Class(d) => {
                            lemma_dependency_expected(program, old_states, self.states@, class, height, d);
                        },
                        MirType::OptionalClass(d) => {
                            lemma_dependency_expected(program, old_states, self.states@, class, height, d);
                        },
                        other => {
                            lemma_field_layout_free(program, self.layouts@, Seq::empty(), other);
                        },
                    }
                }
            }
            let layout = match ty {
                MirType::Class(dependency) => match self.compute_class(dependency) {
                    Ok(layout) => layout,
                    Err(error) => {
                        proof {
                            lemma_failed_step(
                                old_states,
                                old_layouts,
                                before_states,
                                before_layouts,
                                self.states@,
                                self.layouts@,
                            );
                        }
                        return Err(error);
                    },
                },
                MirType::OptionalClass(dependency) => match self.compute_class(dependency) {
                    Ok(payload) => match {
                        proof {
                            if expect {
                                assert(self.states@[dependency.idx as int] is Complete);
                                lemma_model_unique(
                                    program,
                                    dependency,
                                    count_complete(self.states@),
                                    (height - 1) as nat,
                                );
                            }
                        }
                        optional_layout_for(payload)
                    } {
                        Ok(optional) => {
                            proof {
                                lemma_power_of_two_positive(payload.alignment);
                                lemma_align_up(8, payload.alignment as int);
                            }
                            optional.ty()
                        },
                        Err(error) => {
                            proof {
                                lemma_failed_step(
                                    old_states,
                                    old_layouts,
                                    before_states,
                                    before_layouts,
                                    self.states@,
                                    self.layouts@,
                                );
                            }
                            return Err(error);
                        },
                    },
                    Err(error) => {
                        proof {
                            lemma_failed_step(
                                old_states,
                                old_layouts,
                                before_states,
                                before_layouts,
                                self.states@,
                                self.layouts@,
                            );
                        }
                        return Err(error);
                    },
                },
                other => {
                    proof {
                        assert(program.classes@[index as int].fields@[j as int] == fields@[j as int]);
                    }
                    match self.field(other) {
                        Ok(layout) => layout,
                        Err(error) => return Err(error),
                    }
                },
            };
            proof {
                lemma_failed_step(
                    old_states,
                    old_layouts,
                    before_states,
                    before_layouts,
                    self.states@,
                    self.layouts@,
                );
                assert(before_states[index as int] is Visiting);
                lemma_count_unvisited_monotone(before_states, self.states@);
                assert forall|i: int|
                    0 <= i < self.states@.len() && #[trigger] self.states@[i] is Visiting
                        implies old_states[i] is Visiting || i == index as int by {
                    assert(before_states[i] is Visiting);
                }
                lemma_progress_transitive(
                    old_states,
                    old_layouts,
                    before_states,
                    before_layouts,
                    self.states@,
                    self.layouts@,
                );
                assert forall|k: int| 0 <= k < j implies dependency_complete(
                    self.states@,
                    (#[trigger] fields@[k]).ty,
                ) && spec_field_layout(program, self.layouts@, fields@[k].ty) == Ok::<
                    TypeLayout,
                    Seq<char>,
                >(laid_out_fields@[k]) by {
                    assert(dependency_complete(before_states, fields@[k].ty));
                    match fields@[k].ty {
                        MirType::Class(d) => {
                            assert(before_states[d.idx as int] is Complete);
                        },
                        MirType::OptionalClass(d) => {
                            assert(before_states[d.idx as int] is Complete);
                        },
                        _ => {},
                    }
                }
                match direct_base {
                    Some(base_class) => {
                        assert(before_states[base_class.idx as int] is Complete);
                    },
                    None => {},
                }
            }
            laid_out_fields.push(layout);
            j = j + 1;
        }
        proof {
            assert(dependencies_complete(program, self.states@, index as int));
            if expect {
                lemma_expected_layout(
                    program,
                    self.states@,
                    self.layouts@,
                    class,
                    height,
                    base,
                    laid_out_fields@,
                );
            }
        }
        let layout = match layout_class(base, &laid_out_fields) {
            Some(layout) => layout,
            None => {
                return Err(
                    layout_error(
                        framed_decimal(
                            "layout of class ",
                            index as u64,
                            " exceeds target size limits",
                        ),
                    ),
                );
            },
        };
        let ty = layout.ty();
        proof {
            assert(field_layouts(program, self.layouts@, index as int) =~= laid_out_fields@);
            lemma_class_layout_sound(base, laid_out_fields@);
            lemma_class_size_positive(base, laid_out_fields@);
        }
        let ghost before_states = self.states@;
        let ghost before_layouts = self.layouts@;
        self.layouts.set(index, Some(layout));
        self.states.set(index, VisitState::Complete);
        proof {
            assert(builder_progress(before_states, before_layouts, self.states@, self.layouts@));
            assert forall|i: int|
                0 <= i < self.states@.len() && #[trigger] self.states@[i] is Complete implies {
                &&& dependencies_complete(program, self.states@, i)
                &&& class_consistent(program, self.layouts@, i)
                &&& type_layout_sound(self.layouts@[i]->Some_0.ty)
            } by {
                if i == index {
                    lemma_new_class_consistent(
                        program,
                        before_states,
                        before_layouts,
                        self.states@,
                        self.layouts@,
                        index as int,
                    );
                } else {
                    lemma_consistency_preserved(
                        program,
                        before_states,
                        before_layouts,
                        self.states@,
                        self.layouts@,
                        i,
                    );
                }
            }
            lemma_progress_transitive(
                old_states,
                old_layouts,
                before_states,
                before_layouts,
                self.states@,
                self.layouts@,
            );
            lemma_completion_heights(
                program,
                before_states,
                before_layouts,
                self.states@,
                self.layouts@,
                class,
                base,
                laid_out_fields@,
            );
            assert(spec_class_model(program, class, count_complete(self.states@)) is Some);
            assert forall|i: int|
                0 <= i < self.states@.len() && #[trigger] self.states@[i] is Visiting
                    implies old_states[i] is Visiting by {
                assert(before_states[i] is Visiting);
            }
        }
        Ok(ty)
    }

    /// Lays out every class, then every array type.
    pub fn compute(self) -> (r: Result<DataLayout, BackendError>)
        requires
            builder_ready(&self),
        ensures
            r matches Ok(layout) ==> data_layout_wf(&layout) && data_layout_consistent(
                self.program,
                &layout,
            ),
            r matches Ok(layout) ==> forall|class: ClassId|
                class.idx < layout.classes@.len() ==> class_layout_is(
                    #[trigger] layout.classes@[class.idx as int],
                    class_model(self.program, class),
                ),
            r is Ok ==> spec_layouts_succeed(self.program),
            (forall|k: int| 0 <= k < self.states@.len() ==> !(#[trigger] self.states@[k] is Visiting))
                && spec_layouts_succeed(self.program) ==> r is Ok,
    {
        let ghost calm = forall|k: int|
            0 <= k < self.states@.len() ==> !(#[trigger] self.states@[k] is Visiting);
        let ghost succeed = spec_layouts_succeed(self.program);
        let mut builder = self;
        let program = builder.program;
        let class_count = program.classes.len();
        let mut i: usize = 0;
        while i < class_count
            invariant
                builder.program == program,
                class_count == program.classes@.len(),
                builder_ready(&builder),
                i <= class_count,
                forall|k: int| 0 <= k < i ==> #[trigger] builder.states@[k] is Complete,
                succeed == spec_layouts_succeed(program),
                program == self.program,
                calm == (forall|k: int|
                    0 <= k < self.states@.len() ==> !(#[trigger] self.states@[k] is Visiting)),
                calm ==> forall|k: int|
                    0 <= k < builder.states@.len() ==> !(#[trigger] builder.states@[k] is Visiting),
            decreases class_count - i,
        {
            let id = program.classes[i].id;
            let ghost before = builder.states@;
            proof {
                if calm && succeed {
                    assert(class_defined(program, id));
                    assert(visiting_above(program, before, class_height(program, id)));
                }
            }
            match builder.compute_class(id) {
                Ok(_) => {},
                Err(error) => return Err(error),
            }
            proof {
                assert forall|k: int| 0 <= k < i + 1 implies #[trigger] builder.states@[k] is Complete by {
                    if k < i {
                        assert(before[k] is Complete);
                    }
                }
                if calm {
                    assert forall|k: int| 0 <= k < builder.states@.len() implies !(
                    #[trigger] builder.states@[k] is Visiting) by {
                        if builder.states@[k] is Visiting {
                            assert(before[k] is Visiting);
                        }
                    }
                }
            }
            i = i + 1;
        }
        let ghost all_layouts = builder.layouts@;
        proof {
            assert forall|ty: MirType| #[trigger] spec_element_layout(program, all_layouts, ty)
                == spec_element_model(program, ty) by {
                assert forall|m: int| 0 <= m < all_layouts.len() implies #[trigger] all_layouts[m]
                    is Some by {
                    assert(builder.states@[m] is Complete);
                }
                lemma_element_model(program, builder.states@, all_layouts, ty);
            }
            assert forall|class: ClassId| class.idx < class_count implies #[trigger] class_defined(
                program,
                class,
            ) && class_layout_is(all_layouts[class.idx as int]->Some_0, class_model(program, class))
                by {
                lemma_complete_model(program, builder.states@, all_layouts, class);
            }
        }
        assert forall|m: int| 0 <= m < all_layouts.len() implies #[trigger] all_layouts[m] is Some
            && class_consistent(program, all_layouts, m) by {
            assert(builder.states@[m] is Complete);
        }
        assert forall|k: int|
            0 <= k < builder.layouts@.len() && #[trigger] builder.layouts@[k] is Some implies type_layout_sound(
            builder.layouts@[k]->Some_0.ty,
        ) by {
            assert(builder.states@[k] is Complete);
        }
        let mut arrays: Vec<ArrayLayout> = Vec::new();
        let mut a: usize = 0;
        while a < program.array_types.len()
            invariant
                builder.program == program,
                builder.layouts@ == all_layouts,
                all_layouts.len() == class_count,
                class_count == program.classes@.len(),
                forall|m: int|
                    0 <= m < all_layouts.len() ==> #[trigger] all_layouts[m] is Some
                        && class_consistent(program, all_layouts, m),
                forall|k: int|
                    0 <= k < builder.layouts@.len() && #[trigger] builder.layouts@[k] is Some
                        ==> type_layout_sound(builder.layouts@[k]->Some_0.ty),
                a <= program.array_types@.len(),
                arrays@.len() == a,
                forall|k: int|
                    0 <= k < a ==> (spec_element_layout(
                        program,
                        all_layouts,
                        (#[trigger] program.array_types@[k]).element,
                    ) matches Ok(element) && spec_array_layout(element) == Some(arrays@[k])),
                program == self.program,
                forall|ty: MirType| #[trigger] spec_element_layout(program, all_layouts, ty)
                    == spec_element_model(program, ty),
                forall|class: ClassId| class.idx < class_count ==> #[trigger] class_defined(
                    program,
                    class,
                ) && class_layout_is(all_layouts[class.idx as int]->Some_0, class_model(program, class)),
            decreases program.array_types@.len() - a,
        {
            let array = program.array_types[a];
            let element = match builder.element(array.element) {
                Ok(element) => element,
                Err(error) => {
                    let mut message = framed_decimal(
                        "array ",
                        array.id.index() as u64,
                        " has no x86-64 element layout: ",
                    );
                    message.append(error.message());
                    return Err(BackendError::new(Target::X86_64SysV, error.callable(), message));
                },
            };
            let layout = match array_layout(element) {
                Some(layout) => layout,
                None => {
                    let error = layout_error(
                        framed_decimal("array ", array.id.index() as u64, " exceeds x86-64 layout limits"),
                    );
                    let mut message = framed_decimal(
                        "array ",
                        array.id.index() as u64,
                        " has no x86-64 element layout: ",
                    );
                    message.append(error.message());
                    return Err(BackendError::new(Target::X86_64SysV, error.callable(), message));
                },
            };
            arrays.push(layout);
            a = a + 1;
        }
        proof {
            assert forall|k: int| 0 <= k < program.array_types@.len() implies (spec_element_model(
                program,
                (#[trigger] program.array_types@[k]).element,
            ) matches Ok(element) && spec_array_layout(element) is Some) by {
                assert(spec_element_layout(program, all_layouts, program.array_types@[k].element)
                    == spec_element_model(program, program.array_types@[k].element));
            }
            assert(spec_layouts_succeed(program));
        }
        let mut remaining = builder.layouts;
        let mut classes: Vec<ClassLayout> = Vec::new();
        let mut k: usize = 0;
        while k < class_count
            invariant
                class_count == all_layouts.len(),
                k <= class_count,
                remaining@ == all_layouts.skip(k as int),
                classes@.len() == k,
                forall|m: int|
                    0 <= m < all_layouts.len() ==> #[trigger] all_layouts[m] is Some
                        && class_consistent(program, all_layouts, m),
                forall|m: int| 0 <= m < k ==> Some(#[trigger] classes@[m]) == all_layouts[m],
                class_count == program.classes@.len(),
                arrays@.len() == program.array_types@.len(),
                forall|m: int|
                    0 <= m < arrays@.len() ==> (spec_element_layout(
                        program,
                        all_layouts,
                        (#[trigger] program.array_types@[m]).element,
                    ) matches Ok(element) && spec_array_layout(element) == Some(arrays@[m])),
                forall|m: int|
                    0 <= m < all_layouts.len() && #[trigger] all_layouts[m] is Some
                        ==> type_layout_sound(all_layouts[m]->Some_0.ty),
                program == self.program,
                spec_layouts_succeed(program),
                forall|class: ClassId| class.idx < class_count ==> #[trigger] class_defined(
                    program,
                    class,
                ) && class_layout_is(all_layouts[class.idx as int]->Some_0, class_model(program, class)),
            decreases class_count - k,
        {
            let entry = remaining.remove(0);
            assert(entry == all_layouts[k as int]);
            match entry {
                Some(layout) => classes.push(layout),
                None => {
                    return Err(layout_error(String::from_str("every declared class is laid out")));
                },
            }
            assert(remaining@ =~= all_layouts.skip(k + 1));
            k = k + 1;
        }
        let result = DataLayout { classes, arrays };
        proof {
            let options = result.classes@.map_values(|class: ClassLayout| Some(class));
            assert(options =~= all_layouts);
            assert forall|m: int| 0 <= m < result.classes@.len() implies type_layout_wf(
                #[trigger] result.classes@[m].ty,
            ) by {
                assert(Some(result.classes@[m]) == all_layouts[m]);
            }
            assert forall|class: ClassId| class.idx < result.classes@.len() implies class_layout_is(
                #[trigger] result.classes@[class.idx as int],
                class_model(program, class),
            ) by {
                assert(Some(result.classes@[class.idx as int]) == all_layouts[class.idx as int]);
                assert(class_defined(program, class));
            }
        }
        Ok(result)
    }

    /// The layout of a field whose type embeds no class.
    pub fn field(&self, ty: MirType) -> (r: Result<TypeLayout, BackendError>)
        requires
            !(ty is Class),
            !(ty is OptionalClass),
            !(ty is Obj),
            !(ty is Interface),
        ensures
            result_is(r, spec_field_layout(self.program, self.layouts@, ty)),
            r matches Ok(layout) ==> type_layout_sound(layout),
    {
        proof {
            lemma_small_powers_of_two();
        }
        match ty {
            MirType::Shared(_) | MirType::OptionalShared(_) => Ok(
                TypeLayout::new(SHARED_HANDLE_SIZE, SHARED_HANDLE_ALIGNMENT),
            ),
            MirType::OptionalPrimitive(payload) => {
                let layout = optional_layout(payload);
                proof {
                    lemma_optional_layout(payload);
                }
                match layout {
                    Ok(layout) => Ok(layout.ty()),
                    Err(error) => Err(error),
                }
            },
            MirType::Array(array) => if array.index() < self.program.array_types.len() {
                Ok(TypeLayout::new(ARRAY_DESCRIPTOR_SIZE, ARRAY_DESCRIPTOR_ALIGNMENT))
            } else {
                Err(layout_error(framed_decimal("array ", array.index() as u64, " is not declared")))
            },
            MirType::Unit => Err(
                layout_error(String::from_str("field type `unit` has no target layout")),
            ),
            primitive => match primitive_layout(primitive) {
                Some(layout) => Ok(layout),
                None => Ok(TypeLayout::new(8, 8)),
            },
        }
    }

    /// The layout of an array element once every class is laid out.
    pub fn element(&self, ty: MirType) -> (r: Result<TypeLayout, BackendError>)
        requires
            forall|i: int|
                0 <= i < self.layouts@.len() && #[trigger] self.layouts@[i] is Some
                    ==> type_layout_sound(self.layouts@[i]->Some_0.ty),
        ensures
            result_is(r, spec_element_layout(self.program, self.layouts@, ty)),
            r matches Ok(layout) ==> type_layout_sound(layout),
        decreases if ty is OptionalClass {
            1nat
        } else {
            0nat
        },
    {
        proof {
            lemma_small_powers_of_two();
        }
        match ty {
            MirType::Class(class) => {
                if class.index() < self.layouts.len() {
                    match &self.layouts[class.index()] {
                        Some(layout) => return Ok(layout.ty()),
                        None => {},
                    }
                }
                Err(class_missing_error(class))
            },
            MirType::OptionalClass(class) => {
                let payload = match self.element(MirType::Class(class)) {
                    Ok(payload) => payload,
                    Err(error) => return Err(error),
                };
                match optional_layout_for(payload) {
                    Ok(layout) => {
                        proof {
                            lemma_power_of_two_positive(payload.alignment);
                            lemma_align_up(8, payload.alignment as int);
                        }
                        Ok(layout.ty())
                    },
                    Err(error) => Err(error),
                }
            },
            MirType::Array(array) => if array.index() < self.program.array_types.len() {
                Ok(TypeLayout::new(ARRAY_DESCRIPTOR_SIZE, ARRAY_DESCRIPTOR_ALIGNMENT))
            } else {
                Err(layout_error(framed_decimal("array ", array.index() as u64, " is not declared")))
            },
            MirType::OptionalPrimitive(payload) => {
                let layout = optional_layout(payload);
                proof {
                    lemma_optional_layout(payload);
                }
                match layout {
                    Ok(layout) => Ok(layout.ty()),
                    Err(error) => Err(error),
                }
            },
            MirType::Shared(_) | MirType::OptionalShared(_) => Ok(
                TypeLayout::new(SHARED_HANDLE_SIZE, SHARED_HANDLE_ALIGNMENT),
            ),
            primitive => match primitive_layout(primitive) {
                Some(layout) => Ok(layout),
                None => {
                    let mut message = String::from_str("type ");
                    let name = storage_free_type_string(primitive);
                    message.append(name.as_str());
                    message.append(" has no array layout");
                    Err(layout_error(message))
                },
            },
        }
    }
}

} // verus!
