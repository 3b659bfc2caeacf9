//! Narrow projection of the checked target services into planning facts;
//! no machine products escape.

use vstd::prelude::*;

use crate::body::{
    MirArrayAssignElement, MirArrayCopyElement, MirArrayDefaultElement, MirArrayDestroyElement,
    MirSelectedCopyOperation,
};
use crate::dispatch::{
    DispatchMetadata, dispatch_declarations_wf, dispatch_is, spec_classes_providing_view,
    spec_dispatch_succeeds, spec_interface_layout, spec_interface_starts,
};
use crate::error::BackendError;
use crate::facts::{
    ArrayAssignElementFact, ArrayCopyElementFact, ArrayDefaultElementFact, ArrayDestroyElementFact,
    ArrayLayoutFact, BaseLayoutFact, ClassDispatchFact, ClassLayoutFact, ConformanceFact,
    DestructionStepFact, FieldLayoutFact, InterfaceFact, InterfaceRequirementFact, LayoutDisposition,
    LayoutFact, LayoutId, MethodSlot, MethodSlotFact, ObjectComponent, ObjectViewFact,
    ObjectViewTarget, RequirementImplementationFact, SelectedCopy, SemanticFacts, SemanticType,
    SharedAllocationLayout, SharedHeaderLayout, SharedTarget, SignatureId, TypeLayoutBinding,
    VirtualFamilyFact,
};
use crate::identity::{CallableId, ClassId, InterfaceRequirementId, MethodId};
use crate::layout::{
    ArrayLayout, ClassLayout, DataLayout, FieldLayout, SHARED_DYNAMIC_METADATA_OFFSET,
    SHARED_HEADER_SIZE, class_layout_is, class_missing_error, class_model, data_layout_consistent,
    data_layout_wf, fields_have_storage, is_layout_error, spec_data_ty, spec_layouts_succeed,
    spec_optional_layout_for, spec_shared_allocation_size,
};
use crate::mir::{
    MirArrayType, MirClass, MirDestructionStep, MirField, MirImplementation, MirInterface,
    MirInterfaceRequirement, MirProgram, MirSharedTarget, MirType, MirViewTarget,
    MirVirtualFamily, program_ids_dense,
};

verus! {

pub open spec fn spec_shared_target(target: MirSharedTarget) -> SharedTarget {
    match target {
        MirSharedTarget::Obj => SharedTarget::Obj,
        MirSharedTarget::Class(id) => SharedTarget::Class(id),
        MirSharedTarget::Interface(id) => SharedTarget::Interface(id),
        MirSharedTarget::Array(id) => SharedTarget::Array(id),
        MirSharedTarget::OptionalBox(payload) => SharedTarget::OptionalBox(payload),
    }
}

/// The planning name of a shared handle's target.
pub fn shared_target(target: MirSharedTarget) -> (r: SharedTarget)
    ensures
        r == spec_shared_target(target),
{
    match target {
        MirSharedTarget::Obj => SharedTarget::Obj,
        MirSharedTarget::Class(id) => SharedTarget::Class(id),
        MirSharedTarget::Interface(id) => SharedTarget::Interface(id),
        MirSharedTarget::Array(id) => SharedTarget::Array(id),
        MirSharedTarget::OptionalBox(payload) => SharedTarget::OptionalBox(payload),
    }
}

pub open spec fn spec_semantic_type(ty: MirType) -> SemanticType {
    match ty {
        MirType::I64 => SemanticType::I64,
        MirType::U64 => SemanticType::U64,
        MirType::U8 => SemanticType::U8,
        MirType::F64 => SemanticType::F64,
        MirType::Bool => SemanticType::Bool,
        MirType::Unit => SemanticType::Unit,
        MirType::Obj => SemanticType::Obj,
        MirType::Class(id) => SemanticType::Class(id),
        MirType::Interface(id) => SemanticType::Interface(id),
        MirType::Shared(target) => SemanticType::Shared(spec_shared_target(target)),
        MirType::OptionalShared(target) => SemanticType::OptionalShared(spec_shared_target(target)),
        MirType::OptionalPrimitive(payload) => SemanticType::OptionalPrimitive(payload),
        MirType::OptionalClass(id) => SemanticType::OptionalClass(id),
        MirType::Array(id) => SemanticType::Array(id),
    }
}

/// The planning name of a MIR type.
pub fn semantic_type(ty: MirType) -> (r: SemanticType)
    ensures
        r == spec_semantic_type(ty),
{
    match ty {
        MirType::I64 => SemanticType::I64,
        MirType::U64 => SemanticType::U64,
        MirType::U8 => SemanticType::U8,
        MirType::F64 => SemanticType::F64,
        MirType::Bool => SemanticType::Bool,
        MirType::Unit => SemanticType::Unit,
        MirType::Obj => SemanticType::Obj,
        MirType::Class(id) => SemanticType::Class(id),
        MirType::Interface(id) => SemanticType::Interface(id),
        MirType::Shared(target) => SemanticType::Shared(shared_target(target)),
        MirType::OptionalShared(target) => SemanticType::OptionalShared(shared_target(target)),
        MirType::OptionalPrimitive(payload) => SemanticType::OptionalPrimitive(payload),
        MirType::OptionalClass(id) => SemanticType::OptionalClass(id),
        MirType::Array(id) => SemanticType::Array(id),
    }
}

pub open spec fn spec_object_view_target(target: MirViewTarget) -> ObjectViewTarget {
    match target {
        MirViewTarget::Class(id) => ObjectViewTarget::Class(id),
        MirViewTarget::Interface(id) => ObjectViewTarget::Interface(id),
        MirViewTarget::Obj => ObjectViewTarget::Obj,
    }
}

/// The planning name of an object view.
pub fn object_view_target(target: MirViewTarget) -> (r: ObjectViewTarget)
    ensures
        r == spec_object_view_target(target),
{
    match target {
        MirViewTarget::Class(id) => ObjectViewTarget::Class(id),
        MirViewTarget::Interface(id) => ObjectViewTarget::Interface(id),
        MirViewTarget::Obj => ObjectViewTarget::Obj,
    }
}

pub open spec fn spec_selected_copy(operation: MirSelectedCopyOperation) -> SelectedCopy {
    match operation {
        MirSelectedCopyOperation::User(id) => SelectedCopy::User(id),
        MirSelectedCopyOperation::Synthesized(class) => SelectedCopy::Synthesized(class),
    }
}

/// The planning name of a selected copy operation.
pub fn selected_copy(operation: MirSelectedCopyOperation) -> (r: SelectedCopy)
    ensures
        r == spec_selected_copy(operation),
{
    match operation {
        MirSelectedCopyOperation::User(id) => SelectedCopy::User(id),
        MirSelectedCopyOperation::Synthesized(class) => SelectedCopy::Synthesized(class),
    }
}

pub open spec fn spec_destruction_step(step: MirDestructionStep) -> DestructionStepFact {
    match step {
        MirDestructionStep::UserBody(id) => DestructionStepFact::UserBody(id),
        MirDestructionStep::Field(id) => DestructionStepFact::Field(id),
        MirDestructionStep::SharedField(id) => DestructionStepFact::SharedField(id),
        MirDestructionStep::OptionalSharedField(id) => DestructionStepFact::OptionalSharedField(id),
        MirDestructionStep::OptionalClassField(id) => DestructionStepFact::OptionalClassField(id),
        MirDestructionStep::Base(id) => DestructionStepFact::Base(id),
    }
}

/// The planning fact of one destruction step.
pub fn destruction_step(step: MirDestructionStep) -> (r: DestructionStepFact)
    ensures
        r == spec_destruction_step(step),
{
    match step {
        MirDestructionStep::UserBody(id) => DestructionStepFact::UserBody(id),
        MirDestructionStep::Field(id) => DestructionStepFact::Field(id),
        MirDestructionStep::SharedField(id) => DestructionStepFact::SharedField(id),
        MirDestructionStep::OptionalSharedField(id) => DestructionStepFact::OptionalSharedField(id),
        MirDestructionStep::OptionalClassField(id) => DestructionStepFact::OptionalClassField(id),
        MirDestructionStep::Base(id) => DestructionStepFact::Base(id),
    }
}

pub open spec fn spec_array_default(value: MirArrayDefaultElement) -> ArrayDefaultElementFact {
    match value {
        MirArrayDefaultElement::Primitive => ArrayDefaultElementFact::Primitive,
        MirArrayDefaultElement::OptionalAbsent => ArrayDefaultElementFact::OptionalAbsent,
        MirArrayDefaultElement::Class { class, initializer } => ArrayDefaultElementFact::Class {
            class,
            initializer,
        },
        MirArrayDefaultElement::ArrayEmpty(id) => ArrayDefaultElementFact::ArrayEmpty(id),
        MirArrayDefaultElement::SharedClass { class, initializer } => ArrayDefaultElementFact::SharedClass {
            class,
            initializer,
        },
        MirArrayDefaultElement::SharedArrayEmpty(id) => ArrayDefaultElementFact::SharedArrayEmpty(id),
        MirArrayDefaultElement::SharedOptionalBoxAbsent(payload) => ArrayDefaultElementFact::SharedOptionalBoxAbsent(payload),
    }
}

/// The planning fact of how a default element is produced.
pub fn array_default(value: MirArrayDefaultElement) -> (r: ArrayDefaultElementFact)
    ensures
        r == spec_array_default(value),
{
    match value {
        MirArrayDefaultElement::Primitive => ArrayDefaultElementFact::Primitive,
        MirArrayDefaultElement::OptionalAbsent => ArrayDefaultElementFact::OptionalAbsent,
        MirArrayDefaultElement::Class { class, initializer } => ArrayDefaultElementFact::Class {
            class,
            initializer,
        },
        MirArrayDefaultElement::ArrayEmpty(id) => ArrayDefaultElementFact::ArrayEmpty(id),
        MirArrayDefaultElement::SharedClass { class, initializer } => ArrayDefaultElementFact::SharedClass {
            class,
            initializer,
        },
        MirArrayDefaultElement::SharedArrayEmpty(id) => ArrayDefaultElementFact::SharedArrayEmpty(id),
        MirArrayDefaultElement::SharedOptionalBoxAbsent(payload) => ArrayDefaultElementFact::SharedOptionalBoxAbsent(payload),
    }
}

pub open spec fn spec_array_copy(value: MirArrayCopyElement) -> ArrayCopyElementFact {
    match value {
        MirArrayCopyElement::Primitive => ArrayCopyElementFact::Primitive,
        MirArrayCopyElement::OptionalPrimitive => ArrayCopyElementFact::OptionalPrimitive,
        MirArrayCopyElement::Class { class, operation } => ArrayCopyElementFact::Class {
            class,
            operation: spec_selected_copy(operation),
        },
        MirArrayCopyElement::OptionalClass { class, operation } => ArrayCopyElementFact::OptionalClass {
            class,
            operation: spec_selected_copy(operation),
        },
        MirArrayCopyElement::Array(id) => ArrayCopyElementFact::Array(id),
        MirArrayCopyElement::Shared(target) => ArrayCopyElementFact::Shared(spec_shared_target(target)),
        MirArrayCopyElement::OptionalShared(target) => ArrayCopyElementFact::OptionalShared(
            spec_shared_target(target),
        ),
    }
}

/// The planning fact of how an element is copied.
pub fn array_copy(value: MirArrayCopyElement) -> (r: ArrayCopyElementFact)
    ensures
        r == spec_array_copy(value),
{
    match value {
        MirArrayCopyElement::Primitive => ArrayCopyElementFact::Primitive,
        MirArrayCopyElement::OptionalPrimitive => ArrayCopyElementFact::OptionalPrimitive,
        MirArrayCopyElement::Class { class, operation } => ArrayCopyElementFact::Class {
            class,
            operation: selected_copy(operation),
        },
        MirArrayCopyElement::OptionalClass { class, operation } => ArrayCopyElementFact::OptionalClass {
            class,
            operation: selected_copy(operation),
        },
        MirArrayCopyElement::Array(id) => ArrayCopyElementFact::Array(id),
        MirArrayCopyElement::Shared(target) => ArrayCopyElementFact::Shared(shared_target(target)),
        MirArrayCopyElement::OptionalShared(target) => ArrayCopyElementFact::OptionalShared(
            shared_target(target),
        ),
    }
}

pub open spec fn spec_array_assignment(value: MirArrayAssignElement) -> ArrayAssignElementFact {
    match value {
        MirArrayAssignElement::Primitive => ArrayAssignElementFact::Primitive,
        MirArrayAssignElement::OptionalPrimitive => ArrayAssignElementFact::OptionalPrimitive,
        MirArrayAssignElement::Class { class, operation } => ArrayAssignElementFact::Class {
            class,
            operation: spec_selected_copy(operation),
        },
        MirArrayAssignElement::OptionalClass { class, copy_constructor, copy_assignment } => ArrayAssignElementFact::OptionalClass {
            class,
            copy_constructor: spec_selected_copy(copy_constructor),
            copy_assignment: spec_selected_copy(copy_assignment),
        },
        MirArrayAssignElement::Array(id) => ArrayAssignElementFact::Array(id),
        MirArrayAssignElement::Shared(target) => ArrayAssignElementFact::Shared(
            spec_shared_target(target),
        ),
        MirArrayAssignElement::OptionalShared(target) => ArrayAssignElementFact::OptionalShared(
            spec_shared_target(target),
        ),
    }
}

/// The planning fact of how an element is assigned.
pub fn array_assignment(value: MirArrayAssignElement) -> (r: ArrayAssignElementFact)
    ensures
        r == spec_array_assignment(value),
{
    match value {
        MirArrayAssignElement::Primitive => ArrayAssignElementFact::Primitive,
        MirArrayAssignElement::OptionalPrimitive => ArrayAssignElementFact::OptionalPrimitive,
        MirArrayAssignElement::Class { class, operation } => ArrayAssignElementFact::Class {
            class,
            operation: selected_copy(operation),
        },
        MirArrayAssignElement::OptionalClass { class, copy_constructor, copy_assignment } => ArrayAssignElementFact::OptionalClass {
            class,
            copy_constructor: selected_copy(copy_constructor),
            copy_assignment: selected_copy(copy_assignment),
        },
        MirArrayAssignElement::Array(id) => ArrayAssignElementFact::Array(id),
        MirArrayAssignElement::Shared(target) => ArrayAssignElementFact::Shared(
            shared_target(target),
        ),
        MirArrayAssignElement::OptionalShared(target) => ArrayAssignElementFact::OptionalShared(
            shared_target(target),
        ),
    }
}

pub open spec fn spec_array_destruction(value: MirArrayDestroyElement) -> ArrayDestroyElementFact {
    match value {
        MirArrayDestroyElement::Trivial => ArrayDestroyElementFact::Trivial,
        MirArrayDestroyElement::Class(id) => ArrayDestroyElementFact::Class(id),
        MirArrayDestroyElement::OptionalClass(id) => ArrayDestroyElementFact::OptionalClass(id),
        MirArrayDestroyElement::Array(id) => ArrayDestroyElementFact::Array(id),
        MirArrayDestroyElement::Shared(target) => ArrayDestroyElementFact::Shared(
            spec_shared_target(target),
        ),
        MirArrayDestroyElement::OptionalShared(target) => ArrayDestroyElementFact::OptionalShared(
            spec_shared_target(target),
        ),
    }
}

/// The planning fact of how an element is destroyed.
pub fn array_destruction(value: MirArrayDestroyElement) -> (r: ArrayDestroyElementFact)
    ensures
        r == spec_array_destruction(value),
{
    match value {
        MirArrayDestroyElement::Trivial => ArrayDestroyElementFact::Trivial,
        MirArrayDestroyElement::Class(id) => ArrayDestroyElementFact::Class(id),
        MirArrayDestroyElement::OptionalClass(id) => ArrayDestroyElementFact::OptionalClass(id),
        MirArrayDestroyElement::Array(id) => ArrayDestroyElementFact::Array(id),
        MirArrayDestroyElement::Shared(target) => ArrayDestroyElementFact::Shared(
            shared_target(target),
        ),
        MirArrayDestroyElement::OptionalShared(target) => ArrayDestroyElementFact::OptionalShared(
            shared_target(target),
        ),
    }
}

/// The layout fact of a type: payload-free and metadata-only types occupy
/// no storage; every other type has its target layout.
pub open spec fn spec_layout_fact(layouts: &DataLayout, ty: MirType) -> Result<LayoutFact, Seq<char>> {
    match ty {
        MirType::Unit => Ok(
            LayoutFact { size: 0, alignment: 1, disposition: LayoutDisposition::ElidedUnit },
        ),
        MirType::Obj | MirType::Interface(_) => Ok(
            LayoutFact { size: 0, alignment: 1, disposition: LayoutDisposition::ElidedMetadata },
        ),
        _ => match spec_data_ty(layouts, ty) {
            Ok(layout) => Ok(
                LayoutFact {
                    size: layout.size,
                    alignment: layout.alignment,
                    disposition: LayoutDisposition::Addressable,
                },
            ),
            Err(message) => Err(message),
        },
    }
}

/// The layout facts of the types, or the diagnostic of the first type
/// without a layout.
pub open spec fn spec_layout_facts(layouts: &DataLayout, types: Seq<MirType>) -> Result<
    Seq<LayoutFact>,
    Seq<char>,
>
    decreases types.len(),
{
    if types.len() == 0 {
        Ok(Seq::empty())
    } else {
        match spec_layout_facts(layouts, types.drop_last()) {
            Err(message) => Err(message),
            Ok(facts) => match spec_layout_fact(layouts, types.last()) {
                Ok(fact) => Ok(facts.push(fact)),
                Err(message) => Err(message),
            },
        }
    }
}

/// Projects the layout of every type.
pub fn project_layouts(layouts: &DataLayout, types: &Vec<MirType>) -> (r: Result<
    Vec<LayoutFact>,
    BackendError,
>)
    requires
        data_layout_wf(layouts),
    ensures
        match spec_layout_facts(layouts, types@) {
            Ok(facts) => r matches Ok(projected) && projected@ == facts,
            Err(message) => r matches Err(error) && is_layout_error(error, message),
        },
{
    let mut projected: Vec<LayoutFact> = Vec::new();
    let mut i: usize = 0;
    while i < types.len()
        invariant
            data_layout_wf(layouts),
            i <= types@.len(),
            spec_layout_facts(layouts, types@.take(i as int)) == Ok::<Seq<LayoutFact>, Seq<char>>(
                projected@,
            ),
        decreases types@.len() - i,
    {
        assert(types@.take((i + 1) as int).drop_last() =~= types@.take(i as int));
        assert(types@.take((i + 1) as int).last() == types@[i as int]);
        let ty = types[i];
        let fact = match ty {
            MirType::Unit => LayoutFact {
                size: 0,
                alignment: 1,
                disposition: LayoutDisposition::ElidedUnit,
            },
            MirType::Obj | MirType::Interface(_) => LayoutFact {
                size: 0,
                alignment: 1,
                disposition: LayoutDisposition::ElidedMetadata,
            },
            _ => match layouts.ty(ty) {
                Ok(layout) => LayoutFact {
                    size: layout.size(),
                    alignment: layout.alignment(),
                    disposition: LayoutDisposition::Addressable,
                },
                Err(failure) => {
                    proof {
                        lemma_layout_facts_stop(layouts, types@, (i + 1) as int);
                    }
                    return Err(failure);
                },
            },
        };
        projected.push(fact);
        i = i + 1;
    }
    assert(types@.take(types@.len() as int) =~= types@);
    Ok(projected)
}

proof fn lemma_layout_facts_stop(layouts: &DataLayout, types: Seq<MirType>, n: int)
    requires
        0 <= n <= types.len(),
    ensures
        spec_layout_facts(layouts, types.take(n)) is Err ==> spec_layout_facts(layouts, types)
            == spec_layout_facts(layouts, types.take(n)),
    decreases types.len() - n,
{
    if n < types.len() {
        lemma_layout_facts_stop(layouts, types, n + 1);
        assert(types.take(n + 1).drop_last() =~= types.take(n));
    } else {
        assert(types.take(n) =~= types);
    }
}

/// Whether the class models of the program give a type its layout fact.
pub open spec fn spec_fact_defined(program: &MirProgram, ty: MirType) -> bool {
    match ty {
        MirType::Class(class) => class.idx < program.classes@.len(),
        MirType::OptionalClass(class) => class.idx < program.classes@.len()
            && spec_optional_layout_for(class_model(program, class).ty) is Ok,
        MirType::Array(array) => array.idx < program.array_types@.len(),
        _ => true,
    }
}

/// Under layouts that give every class its model's size, a type has a
/// layout fact exactly when the models give it one.
proof fn lemma_layout_fact_defined(program: &MirProgram, layouts: &DataLayout, ty: MirType)
    requires
        layouts.classes@.len() == program.classes@.len(),
        layouts.arrays@.len() == program.array_types@.len(),
        forall|class: ClassId|
            class.idx < layouts.classes@.len() ==> (#[trigger] layouts.classes@[class.idx as int]).ty
                == class_model(program, class).ty,
    ensures
        spec_layout_fact(layouts, ty) is Ok <==> spec_fact_defined(program, ty),
{
    match ty {
        MirType::OptionalClass(class) => {
            if class.idx < layouts.classes@.len() {
                assert(layouts.classes@[class.idx as int].ty == class_model(program, class).ty);
            }
        },
        _ => {},
    }
}

/// Under layouts that give every class its model's size, the layout facts
/// of the types exist exactly when the models give each type its fact.
proof fn lemma_layout_facts_defined(program: &MirProgram, layouts: &DataLayout, types: Seq<MirType>)
    requires
        layouts.classes@.len() == program.classes@.len(),
        layouts.arrays@.len() == program.array_types@.len(),
        forall|class: ClassId|
            class.idx < layouts.classes@.len() ==> (#[trigger] layouts.classes@[class.idx as int]).ty
                == class_model(program, class).ty,
    ensures
        spec_layout_facts(layouts, types) is Ok <==> forall|i: int|
            0 <= i < types.len() ==> spec_fact_defined(program, #[trigger] types[i]),
    decreases types.len(),
{
    if types.len() > 0 {
        let earlier = types.drop_last();
        lemma_layout_facts_defined(program, layouts, earlier);
        lemma_layout_fact_defined(program, layouts, types.last());
        if forall|i: int| 0 <= i < types.len() ==> spec_fact_defined(program, #[trigger] types[i]) {
            assert forall|i: int| 0 <= i < earlier.len() implies spec_fact_defined(
                program,
                #[trigger] earlier[i],
            ) by {
                assert(earlier[i] == types[i]);
            }
            assert(spec_fact_defined(program, types[types.len() - 1]));
        } else {
            let i = choose|i: int|
                0 <= i < types.len() && !spec_fact_defined(program, #[trigger] types[i]);
            if i < types.len() - 1 {
                assert(earlier[i] == types[i]);
            }
        }
    }
}

/// The checked layout and dispatch services that later projections read.
pub struct SemanticProjection {
    pub layouts: DataLayout,
    pub dispatch: DispatchMetadata,
}

/// Computes the data layout, projects the layout of every requested type,
/// and computes the dispatch tables.
pub fn begin_semantic_projection(program: &MirProgram, types: &Vec<MirType>) -> (r: Result<
    (Vec<LayoutFact>, SemanticProjection),
    BackendError,
>)
    requires
        program_ids_dense(program),
        fields_have_storage(program),
        dispatch_declarations_wf(program),
    ensures
        !spec_dispatch_succeeds(program) ==> r is Err,
        r is Ok <==> spec_layouts_succeed(program) && spec_dispatch_succeeds(program) && forall|i: int|
            0 <= i < types@.len() ==> spec_fact_defined(program, #[trigger] types@[i]),
        r matches Ok((facts, projection)) ==> {
            &&& data_layout_wf(&projection.layouts)
            &&& data_layout_consistent(program, &projection.layouts)
            &&& spec_layout_facts(&projection.layouts, types@) == Ok::<Seq<LayoutFact>, Seq<char>>(
                facts@,
            )
            &&& dispatch_is(&projection.dispatch, program)
        },
{
    let layouts = match DataLayout::compute(program) {
        Ok(layouts) => layouts,
        Err(failure) => return Err(failure),
    };
    proof {
        assert forall|class: ClassId| class.idx < layouts.classes@.len() implies (
        #[trigger] layouts.classes@[class.idx as int]).ty == class_model(program, class).ty by {
            assert(class_layout_is(layouts.classes@[class.idx as int], class_model(program, class)));
        }
        lemma_layout_facts_defined(program, &layouts, types@);
    }
    let projected = match project_layouts(&layouts, types) {
        Ok(projected) => projected,
        Err(failure) => return Err(failure),
    };
    let dispatch = match DispatchMetadata::compute(program) {
        Ok(dispatch) => dispatch,
        Err(failure) => return Err(failure),
    };
    Ok((projected, SemanticProjection { layouts, dispatch }))
}

/// The value paired with the first occurrence of `key`.
pub open spec fn first_match<K, V>(pool: Seq<(K, V)>, key: K) -> Option<V>
    decreases pool.len(),
{
    if pool.len() == 0 {
        None
    } else {
        match first_match(pool.drop_last(), key) {
            Some(value) => Some(value),
            None => if pool.last().0 == key {
                Some(pool.last().1)
            } else {
                None
            },
        }
    }
}

proof fn lemma_first_match_at<K, V>(pool: Seq<(K, V)>, key: K, k: int)
    requires
        0 <= k < pool.len(),
        first_match(pool.take(k), key) is None,
        pool[k].0 == key,
    ensures
        first_match(pool, key) == Some(pool[k].1),
    decreases pool.len(),
{
    if k == pool.len() - 1 {
        assert(pool.drop_last() =~= pool.take(k));
    } else {
        assert(pool.drop_last().take(k) =~= pool.take(k));
        lemma_first_match_at(pool.drop_last(), key, k);
    }
}

proof fn lemma_first_match_step<K, V>(pool: Seq<(K, V)>, key: K, k: int)
    requires
        0 <= k < pool.len(),
        first_match(pool.take(k), key) is None,
        pool[k].0 != key,
    ensures
        first_match(pool.take(k + 1), key) is None,
{
    assert(pool.take(k + 1).drop_last() =~= pool.take(k));
}

/// The layout the pool gives a type: its first binding.
pub open spec fn spec_layout_id(pool: Seq<(MirType, LayoutId)>, ty: MirType) -> Option<LayoutId> {
    first_match(pool, ty)
}

fn find_layout(pool: &Vec<(MirType, LayoutId)>, ty: MirType) -> (r: Option<LayoutId>)
    ensures
        r == spec_layout_id(pool@, ty),
{
    let mut k: usize = 0;
    while k < pool.len()
        invariant
            k <= pool@.len(),
            first_match(pool@.take(k as int), ty) is None,
        decreases pool@.len() - k,
    {
        if pool[k].0 == ty {
            proof {
                lemma_first_match_at(pool@, ty, k as int);
            }
            return Some(pool[k].1);
        }
        proof {
            lemma_first_match_step(pool@, ty, k as int);
        }
        k = k + 1;
    }
    assert(pool@.take(k as int) =~= pool@);
    None
}

fn find_signature(pairs: &Vec<(InterfaceRequirementId, SignatureId)>, id: InterfaceRequirementId) -> (r:
    Option<SignatureId>)
    ensures
        r == first_match(pairs@, id),
{
    let mut k: usize = 0;
    while k < pairs.len()
        invariant
            k <= pairs@.len(),
            first_match(pairs@.take(k as int), id) is None,
        decreases pairs@.len() - k,
    {
        if pairs[k].0 == id {
            proof {
                lemma_first_match_at(pairs@, id, k as int);
            }
            return Some(pairs[k].1);
        }
        proof {
            lemma_first_match_step(pairs@, id, k as int);
        }
        k = k + 1;
    }
    assert(pairs@.take(k as int) =~= pairs@);
    None
}

/// The layout of the first shared handle type in the pool.
pub open spec fn spec_shared_handle(pool: Seq<(MirType, LayoutId)>) -> Option<LayoutId>
    decreases pool.len(),
{
    if pool.len() == 0 {
        None
    } else {
        match spec_shared_handle(pool.drop_last()) {
            Some(value) => Some(value),
            None => if pool.last().0 is Shared {
                Some(pool.last().1)
            } else {
                None
            },
        }
    }
}

proof fn lemma_shared_handle_at(pool: Seq<(MirType, LayoutId)>, k: int)
    requires
        0 <= k < pool.len(),
        spec_shared_handle(pool.take(k)) is None,
        pool[k].0 is Shared,
    ensures
        spec_shared_handle(pool) == Some(pool[k].1),
    decreases pool.len(),
{
    if k == pool.len() - 1 {
        assert(pool.drop_last() =~= pool.take(k));
    } else {
        assert(pool.drop_last().take(k) =~= pool.take(k));
        lemma_shared_handle_at(pool.drop_last(), k);
    }
}

fn find_shared_handle(pool: &Vec<(MirType, LayoutId)>) -> (r: Option<LayoutId>)
    ensures
        r == spec_shared_handle(pool@),
{
    let mut k: usize = 0;
    while k < pool.len()
        invariant
            k <= pool@.len(),
            spec_shared_handle(pool@.take(k as int)) is None,
        decreases pool@.len() - k,
    {
        if let MirType::Shared(_) = pool[k].0 {
            proof {
                lemma_shared_handle_at(pool@, k as int);
            }
            return Some(pool[k].1);
        }
        assert(pool@.take(k + 1).drop_last() =~= pool@.take(k as int));
        k = k + 1;
    }
    assert(pool@.take(k as int) =~= pool@);
    None
}

/// The pool binding of one type.
pub open spec fn spec_binding(entry: (MirType, LayoutId)) -> TypeLayoutBinding {
    TypeLayoutBinding { ty: spec_semantic_type(entry.0), layout: entry.1 }
}

/// The method slot kinds in table order: the virtual families, then the
/// requirements of the first `count` interfaces.
pub open spec fn spec_requirement_slots(program: &MirProgram, count: int) -> Seq<MethodSlot>
    decreases count,
{
    if count <= 0 {
        Seq::empty()
    } else {
        spec_requirement_slots(program, count - 1) + program.interfaces@[count - 1].requirements@.map_values(
            |requirement: MirInterfaceRequirement| MethodSlot::Interface(requirement.id),
        )
    }
}

pub open spec fn spec_slot_kinds(program: &MirProgram) -> Seq<MethodSlot> {
    program.virtual_families@.map_values(|family: MirVirtualFamily| MethodSlot::Virtual(family.slot))
        + spec_requirement_slots(program, program.interfaces@.len() as int)
}

/// The method slots: each table entry with its index and byte offset, then
/// the finalizer entry after them.
pub open spec fn spec_method_slots(program: &MirProgram) -> Seq<MethodSlotFact> {
    let kinds = spec_slot_kinds(program);
    Seq::new(
        kinds.len(),
        |i: int| MethodSlotFact { slot: kinds[i], index: i as usize, byte_offset: (i * 8) as usize },
    ).push(
        MethodSlotFact {
            slot: MethodSlot::Finalizer,
            index: kinds.len() as usize,
            byte_offset: (kinds.len() * 8) as usize,
        },
    )
}

proof fn lemma_slot_count(program: &MirProgram, count: int)
    requires
        0 <= count <= program.interfaces@.len(),
        spec_interface_starts(program, count) is Some,
    ensures
        program.virtual_families@.len() + spec_requirement_slots(program, count).len()
            == spec_interface_starts(program, count)->Some_0.1,
    decreases count,
{
    if count > 0 {
        lemma_slot_count(program, count - 1);
    }
}

/// The object view targets: every class, every interface, then `Obj`.
pub open spec fn spec_view_targets(program: &MirProgram) -> Seq<MirViewTarget> {
    program.classes@.map_values(|class: MirClass| MirViewTarget::Class(class.id))
        + program.interfaces@.map_values(|interface: MirInterface| MirViewTarget::Interface(interface.id))
        + seq![MirViewTarget::Obj]
}

pub open spec fn view_fact_is(fact: ObjectViewFact, program: &MirProgram, target: MirViewTarget) -> bool {
    &&& fact.target == spec_object_view_target(target)
    &&& fact.components@ == seq![
        ObjectComponent::StaticAddress,
        ObjectComponent::CompleteAddress,
        ObjectComponent::DynamicMetadata,
    ]
    &&& fact.members@ == spec_classes_providing_view(program, program.classes@, target)
}

pub open spec fn family_fact_is(fact: VirtualFamilyFact, family: MirVirtualFamily) -> bool {
    &&& fact.slot == family.slot
    &&& fact.members@ == family.members@
}

pub open spec fn interface_fact_is(
    fact: InterfaceFact,
    interface: MirInterface,
    signatures: Seq<(InterfaceRequirementId, SignatureId)>,
) -> bool {
    &&& fact.interface == interface.id
    &&& fact.requirements@ == interface.requirements@.map_values(
        |requirement: MirInterfaceRequirement|
            InterfaceRequirementFact {
                requirement: requirement.id,
                signature: first_match(signatures, requirement.id)->Some_0,
            },
    )
}

/// The (class, conformance) positions of the first `count` classes, in
/// order.
pub open spec fn spec_conformance_keys(program: &MirProgram, count: int) -> Seq<(int, int)>
    decreases count,
{
    if count <= 0 {
        Seq::empty()
    } else {
        spec_conformance_keys(program, count - 1) + Seq::new(
            program.classes@[count - 1].conformances@.len(),
            |k: int| (count - 1, k),
        )
    }
}

pub open spec fn conformance_fact_is(fact: ConformanceFact, program: &MirProgram, key: (int, int)) -> bool {
    let conformance = program.classes@[key.0].conformances@[key.1];
    &&& fact.class == program.classes@[key.0].id
    &&& fact.interface == conformance.interface
    &&& fact.implementations@ == conformance.implementations@.map_values(
        |implementation: MirImplementation|
            RequirementImplementationFact {
                requirement: implementation.requirement,
                method: implementation.method,
            },
    )
}

pub open spec fn dispatch_fact_is(fact: ClassDispatchFact, class: ClassId, table: Seq<Option<MethodId>>) -> bool {
    &&& fact.class == class
    &&& fact.targets@ == table.map_values(
        |entry: Option<MethodId>|
            match entry {
                Some(method) => Some(CallableId::Method(method)),
                None => None,
            },
    )
}

pub open spec fn array_fact_is(
    fact: ArrayLayoutFact,
    array: MirArrayType,
    layout: ArrayLayout,
    pool: Seq<(MirType, LayoutId)>,
) -> bool {
    fact == ArrayLayoutFact {
        array: array.id,
        descriptor_layout: spec_layout_id(pool, MirType::Array(array.id))->Some_0,
        element: spec_semantic_type(array.element),
        element_layout: spec_layout_id(pool, array.element)->Some_0,
        element_offset: layout.element_offset,
        shared_element_offset: layout.shared_element_offset,
        stride: layout.stride,
        maximum_length: layout.maximum_length,
        shared_maximum_length: layout.shared_maximum_length,
    }
}

pub open spec fn field_fact(
    field: MirField,
    layout: FieldLayout,
    pool: Seq<(MirType, LayoutId)>,
) -> FieldLayoutFact {
    FieldLayoutFact {
        field: field.id,
        ty: spec_semantic_type(field.ty),
        layout: spec_layout_id(pool, field.ty)->Some_0,
        offset: layout.offset,
    }
}

pub open spec fn class_fact_is(
    fact: ClassLayoutFact,
    class: MirClass,
    layout: ClassLayout,
    byte_count: u64,
    pool: Seq<(MirType, LayoutId)>,
) -> bool {
    let count = if class.fields@.len() <= layout.fields@.len() {
        class.fields@.len()
    } else {
        layout.fields@.len()
    };
    &&& fact.class == class.id
    &&& fact.exact_layout == spec_layout_id(pool, MirType::Class(class.id))->Some_0
    &&& fact.complete_layout == fact.exact_layout
    &&& fact.base == match layout.base {
        Some(base) => Some(BaseLayoutFact { class: base.class, offset: base.offset }),
        None => None,
    }
    &&& fact.fields@ == Seq::new(
        count,
        |j: int| field_fact(class.fields@[j], layout.fields@[j], pool),
    )
    &&& fact.shared_allocation == SharedAllocationLayout {
        byte_count,
        payload_offset: SHARED_HEADER_SIZE,
    }
    &&& fact.destruction@ == class.destruction@.map_values(
        |step: MirDestructionStep| spec_destruction_step(step),
    )
}

/// The diagnostic of the first class, among the first `count`, whose shared
/// allocation has no layout.
pub open spec fn spec_allocation_error(layouts: &DataLayout, program: &MirProgram, count: int) -> Option<
    Seq<char>,
>
    decreases count,
{
    if count <= 0 {
        None
    } else {
        match spec_allocation_error(layouts, program, count - 1) {
            Some(message) => Some(message),
            None => match spec_shared_allocation_size(layouts, program.classes@[count - 1].id) {
                Err(message) => Some(message),
                Ok(_) => None,
            },
        }
    }
}

proof fn lemma_allocation_error_stops(layouts: &DataLayout, program: &MirProgram, count: int, total: int)
    requires
        0 <= count <= total,
        spec_allocation_error(layouts, program, count) is Some,
    ensures
        spec_allocation_error(layouts, program, total) == spec_allocation_error(layouts, program, count),
    decreases total - count,
{
    if count < total {
        lemma_allocation_error_stops(layouts, program, count, total - 1);
    }
}

/// Every type the facts name has a pool layout, the pool holds a shared
/// handle, and every interface requirement has a signature.
pub open spec fn pools_complete(
    program: &MirProgram,
    pool: Seq<(MirType, LayoutId)>,
    signatures: Seq<(InterfaceRequirementId, SignatureId)>,
) -> bool {
    &&& spec_shared_handle(pool) is Some
    &&& forall|c: int|
        0 <= c < program.classes@.len() ==> spec_layout_id(
            pool,
            MirType::Class(#[trigger] program.classes@[c].id),
        ) is Some
    &&& forall|c: int, j: int|
        0 <= c < program.classes@.len() && 0 <= j < program.classes@[c].fields@.len()
            ==> spec_layout_id(pool, (#[trigger] program.classes@[c].fields@[j]).ty) is Some
    &&& forall|a: int|
        0 <= a < program.array_types@.len() ==> spec_layout_id(
            pool,
            MirType::Array((#[trigger] program.array_types@[a]).id),
        ) is Some && spec_layout_id(pool, program.array_types@[a].element) is Some
    &&& forall|i: int, k: int|
        0 <= i < program.interfaces@.len() && 0 <= k < program.interfaces@[i].requirements@.len()
            ==> first_match(signatures, (#[trigger] program.interfaces@[i].requirements@[k]).id)
            is Some
}

fn project_types(pool: &Vec<(MirType, LayoutId)>) -> (r: Vec<TypeLayoutBinding>)
    ensures
        r@ == pool@.map_values(|entry: (MirType, LayoutId)| spec_binding(entry)),
{
    let mut out: Vec<TypeLayoutBinding> = Vec::new();
    let mut k: usize = 0;
    while k < pool.len()
        invariant
            k <= pool@.len(),
            out@ == pool@.take(k as int).map_values(|entry: (MirType, LayoutId)| spec_binding(entry)),
        decreases pool@.len() - k,
    {
        let (ty, layout) = pool[k];
        out.push(TypeLayoutBinding { ty: semantic_type(ty), layout });
        assert(out@ =~= pool@.take(k + 1).map_values(
            |entry: (MirType, LayoutId)| spec_binding(entry),
        ));
        k = k + 1;
    }
    assert(pool@.take(k as int) =~= pool@);
    out
}

fn copy_methods(methods: &Vec<MethodId>) -> (r: Vec<MethodId>)
    ensures
        r@ == methods@,
{
    let mut out: Vec<MethodId> = Vec::new();
    let mut k: usize = 0;
    while k < methods.len()
        invariant
            k <= methods@.len(),
            out@ == methods@.take(k as int),
        decreases methods@.len() - k,
    {
        out.push(methods[k]);
        assert(out@ =~= methods@.take(k + 1));
        k = k + 1;
    }
    assert(methods@.take(k as int) =~= methods@);
    out
}

fn project_families(program: &MirProgram) -> (r: Vec<VirtualFamilyFact>)
    ensures
        r@.len() == program.virtual_families@.len(),
        forall|i: int|
            0 <= i < r@.len() ==> family_fact_is(#[trigger] r@[i], program.virtual_families@[i]),
{
    let mut out: Vec<VirtualFamilyFact> = Vec::new();
    let mut k: usize = 0;
    while k < program.virtual_families.len()
        invariant
            k <= program.virtual_families@.len(),
            out@.len() == k,
            forall|i: int| 0 <= i < k ==> family_fact_is(#[trigger] out@[i], program.virtual_families@[i]),
        decreases program.virtual_families@.len() - k,
    {
        let family = &program.virtual_families[k];
        let members = copy_methods(&family.members);
        out.push(VirtualFamilyFact { slot: family.slot, members });
        k = k + 1;
    }
    out
}

fn project_interfaces(
    program: &MirProgram,
    signatures: &Vec<(InterfaceRequirementId, SignatureId)>,
) -> (r: Vec<InterfaceFact>)
    requires
        forall|i: int, k: int|
            0 <= i < program.interfaces@.len() && 0 <= k < program.interfaces@[i].requirements@.len()
                ==> first_match(signatures@, (#[trigger] program.interfaces@[i].requirements@[k]).id)
                is Some,
    ensures
        r@.len() == program.interfaces@.len(),
        forall|i: int|
            0 <= i < r@.len() ==> interface_fact_is(
                #[trigger] r@[i],
                program.interfaces@[i],
                signatures@,
            ),
{
    let mut out: Vec<InterfaceFact> = Vec::new();
    let mut i: usize = 0;
    while i < program.interfaces.len()
        invariant
            i <= program.interfaces@.len(),
            out@.len() == i,
            forall|m: int|
                0 <= m < i ==> interface_fact_is(#[trigger] out@[m], program.interfaces@[m], signatures@),
            forall|m: int, k: int|
                0 <= m < program.interfaces@.len() && 0 <= k < program.interfaces@[m].requirements@.len()
                    ==> first_match(signatures@, (#[trigger] program.interfaces@[m].requirements@[k]).id)
                    is Some,
        decreases program.interfaces@.len() - i,
    {
        let interface = &program.interfaces[i];
        let mut requirements: Vec<InterfaceRequirementFact> = Vec::new();
        let mut k: usize = 0;
        while k < interface.requirements.len()
            invariant
                i < program.interfaces@.len(),
                *interface == program.interfaces@[i as int],
                k <= interface.requirements@.len(),
                forall|j: int|
                    0 <= j < interface.requirements@.len() ==> first_match(
                        signatures@,
                        (#[trigger] program.interfaces@[i as int].requirements@[j]).id,
                    ) is Some,
                requirements@ == interface.requirements@.take(k as int).map_values(
                    |requirement: MirInterfaceRequirement|
                        InterfaceRequirementFact {
                            requirement: requirement.id,
                            signature: first_match(signatures@, requirement.id)->Some_0,
                        },
                ),
            decreases interface.requirements@.len() - k,
        {
            let id = interface.requirements[k].id;
            assert(first_match(signatures@, program.interfaces@[i as int].requirements@[k as int].id)
                is Some);
            let signature = match find_signature(signatures, id) {
                Some(signature) => signature,
                None => {
                    assert(false);
                    SignatureId { idx: 0 }
                },
            };
            requirements.push(InterfaceRequirementFact { requirement: id, signature });
            assert(requirements@ =~= interface.requirements@.take(k + 1).map_values(
                |requirement: MirInterfaceRequirement|
                    InterfaceRequirementFact {
                        requirement: requirement.id,
                        signature: first_match(signatures@, requirement.id)->Some_0,
                    },
            ));
            k = k + 1;
        }
        assert(interface.requirements@.take(k as int) =~= interface.requirements@);
        out.push(InterfaceFact { interface: interface.id, requirements });
        i = i + 1;
    }
    out
}

fn project_conformances(program: &MirProgram) -> (r: Vec<ConformanceFact>)
    ensures
        r@.len() == spec_conformance_keys(program, program.classes@.len() as int).len(),
        forall|j: int|
            0 <= j < r@.len() ==> conformance_fact_is(
                #[trigger] r@[j],
                program,
                spec_conformance_keys(program, program.classes@.len() as int)[j],
            ),
{
    let mut out: Vec<ConformanceFact> = Vec::new();
    let mut c: usize = 0;
    while c < program.classes.len()
        invariant
            c <= program.classes@.len(),
            out@.len() == spec_conformance_keys(program, c as int).len(),
            forall|j: int|
                0 <= j < out@.len() ==> conformance_fact_is(
                    #[trigger] out@[j],
                    program,
                    spec_conformance_keys(program, c as int)[j],
                ),
        decreases program.classes@.len() - c,
    {
        let class = &program.classes[c];
        let ghost before = spec_conformance_keys(program, c as int);
        let ghost start = out@.len();
        let mut k: usize = 0;
        while k < class.conformances.len()
            invariant
                c < program.classes@.len(),
                *class == program.classes@[c as int],
                before == spec_conformance_keys(program, c as int),
                start == before.len(),
                k <= class.conformances@.len(),
                out@.len() == start + k,
                forall|j: int|
                    0 <= j < start ==> conformance_fact_is(#[trigger] out@[j], program, before[j]),
                forall|j: int|
                    start <= j < start + k ==> conformance_fact_is(
                        #[trigger] out@[j],
                        program,
                        (c as int, j - start),
                    ),
            decreases class.conformances@.len() - k,
        {
            let conformance = &class.conformances[k];
            let mut implementations: Vec<RequirementImplementationFact> = Vec::new();
            let mut m: usize = 0;
            while m < conformance.implementations.len()
                invariant
                    m <= conformance.implementations@.len(),
                    implementations@ == conformance.implementations@.take(m as int).map_values(
                        |implementation: MirImplementation|
                            RequirementImplementationFact {
                                requirement: implementation.requirement,
                                method: implementation.method,
                            },
                    ),
                decreases conformance.implementations@.len() - m,
            {
                let implementation = conformance.implementations[m];
                implementations.push(
                    RequirementImplementationFact {
                        requirement: implementation.requirement,
                        method: implementation.method,
                    },
                );
                assert(implementations@ =~= conformance.implementations@.take(m + 1).map_values(
                    |implementation: MirImplementation|
                        RequirementImplementationFact {
                            requirement: implementation.requirement,
                            method: implementation.method,
                        },
                ));
                m = m + 1;
            }
            assert(conformance.implementations@.take(m as int) =~= conformance.implementations@);
            out.push(
                ConformanceFact { class: class.id, interface: conformance.interface, implementations },
            );
            k = k + 1;
        }
        proof {
            let after = spec_conformance_keys(program, c + 1);
            assert(after =~= before + Seq::new(
                program.classes@[c as int].conformances@.len(),
                |k: int| (c as int, k),
            ));
            assert forall|j: int| 0 <= j < out@.len() implies conformance_fact_is(
                #[trigger] out@[j],
                program,
                after[j],
            ) by {
                if j < start {
                    assert(after[j] == before[j]);
                } else {
                    assert(after[j] == (c as int, j - start));
                }
            }
        }
        c = c + 1;
    }
    out
}

fn project_method_slots(program: &MirProgram, finalizer: usize) -> (r: Vec<MethodSlotFact>)
    requires
        spec_slot_kinds(program).len() == finalizer,
        finalizer * 8 <= usize::MAX,
    ensures
        r@ == spec_method_slots(program),
{
    let ghost kinds = spec_slot_kinds(program);
    let mut out: Vec<MethodSlotFact> = Vec::new();
    let mut f: usize = 0;
    while f < program.virtual_families.len()
        invariant
            kinds == spec_slot_kinds(program),
            kinds.len() == finalizer,
            finalizer * 8 <= usize::MAX,
            f <= program.virtual_families@.len(),
            out@ == Seq::new(
                f as nat,
                |i: int| MethodSlotFact { slot: kinds[i], index: i as usize, byte_offset: (i * 8) as usize },
            ),
        decreases program.virtual_families@.len() - f,
    {
        assert(kinds[f as int] == MethodSlot::Virtual(program.virtual_families@[f as int].slot));
        out.push(
            MethodSlotFact {
                slot: MethodSlot::Virtual(program.virtual_families[f].slot),
                index: f,
                byte_offset: f * 8,
            },
        );
        assert(out@ =~= Seq::new(
            (f + 1) as nat,
            |i: int| MethodSlotFact { slot: kinds[i], index: i as usize, byte_offset: (i * 8) as usize },
        ));
        f = f + 1;
    }
    let mut index: usize = f;
    let mut i: usize = 0;
    while i < program.interfaces.len()
        invariant
            kinds == spec_slot_kinds(program),
            kinds.len() == finalizer,
            finalizer * 8 <= usize::MAX,
            i <= program.interfaces@.len(),
            index == program.virtual_families@.len() + spec_requirement_slots(program, i as int).len(),
            out@ == Seq::new(
                index as nat,
                |n: int| MethodSlotFact { slot: kinds[n], index: n as usize, byte_offset: (n * 8) as usize },
            ),
        decreases program.interfaces@.len() - i,
    {
        proof {
            lemma_requirement_slots_prefix(program, i as int + 1);
        }
        let requirements = &program.interfaces[i].requirements;
        let ghost base = index;
        let mut k: usize = 0;
        while k < requirements.len()
            invariant
                kinds == spec_slot_kinds(program),
                kinds.len() == finalizer,
                finalizer * 8 <= usize::MAX,
                i < program.interfaces@.len(),
                *requirements == program.interfaces@[i as int].requirements,
                base == program.virtual_families@.len() + spec_requirement_slots(program, i as int).len(),
                base + requirements@.len() <= kinds.len(),
                forall|j: int|
                    0 <= j < requirements@.len() ==> kinds[base + j] == MethodSlot::Interface(
                        (#[trigger] requirements@[j]).id,
                    ),
                k <= requirements@.len(),
                index == base + k,
                out@ == Seq::new(
                    index as nat,
                    |n: int| MethodSlotFact { slot: kinds[n], index: n as usize, byte_offset: (n * 8) as usize },
                ),
            decreases requirements@.len() - k,
        {
            assert(kinds[base + k] == MethodSlot::Interface(requirements@[k as int].id));
            out.push(
                MethodSlotFact {
                    slot: MethodSlot::Interface(requirements[k].id),
                    index,
                    byte_offset: index * 8,
                },
            );
            assert(out@ =~= Seq::new(
                (index + 1) as nat,
                |n: int| MethodSlotFact { slot: kinds[n], index: n as usize, byte_offset: (n * 8) as usize },
            ));
            index = index + 1;
            k = k + 1;
        }
        i = i + 1;
    }
    out.push(MethodSlotFact { slot: MethodSlot::Finalizer, index: finalizer, byte_offset: finalizer * 8 });
    out
}

proof fn lemma_requirement_slots_prefix(program: &MirProgram, count: int)
    requires
        0 < count <= program.interfaces@.len(),
    ensures
        ({
            let kinds = spec_slot_kinds(program);
            let base = program.virtual_families@.len() + spec_requirement_slots(program, count - 1).len();
            let requirements = program.interfaces@[count - 1].requirements@;
            &&& base + requirements.len() <= kinds.len()
            &&& forall|j: int|
                0 <= j < requirements.len() ==> kinds[base + j] == MethodSlot::Interface(
                    (#[trigger] requirements[j]).id,
                )
        }),
{
    let total = program.interfaces@.len() as int;
    lemma_requirement_slots_extend(program, count, total);
    let prefix = spec_requirement_slots(program, count);
    let whole = spec_requirement_slots(program, total);
    let families = program.virtual_families@.map_values(
        |family: MirVirtualFamily| MethodSlot::Virtual(family.slot),
    );
    let kinds = spec_slot_kinds(program);
    let before = spec_requirement_slots(program, count - 1);
    let requirements = program.interfaces@[count - 1].requirements@;
    assert forall|j: int| 0 <= j < requirements.len() implies kinds[families.len() + before.len() + j]
        == MethodSlot::Interface((#[trigger] requirements[j]).id) by {
        assert(prefix[before.len() + j] == MethodSlot::Interface(requirements[j].id));
        assert(whole[before.len() + j] == prefix[before.len() + j]);
        assert(kinds[families.len() + before.len() + j] == whole[before.len() + j]);
    }
}

proof fn lemma_requirement_slots_extend(program: &MirProgram, count: int, total: int)
    requires
        0 <= count <= total <= program.interfaces@.len(),
    ensures
        spec_requirement_slots(program, count).len() <= spec_requirement_slots(program, total).len(),
        forall|j: int|
            0 <= j < spec_requirement_slots(program, count).len() ==> spec_requirement_slots(
                program,
                total,
            )[j] == #[trigger] spec_requirement_slots(program, count)[j],
    decreases total - count,
{
    if count < total {
        lemma_requirement_slots_extend(program, count, total - 1);
    }
}

fn project_dispatch_tables(program: &MirProgram, dispatch: &DispatchMetadata) -> (r: Vec<
    ClassDispatchFact,
>)
    requires
        dispatch.tables@.len() == program.classes@.len(),
    ensures
        r@.len() == program.classes@.len(),
        forall|c: int|
            0 <= c < r@.len() ==> dispatch_fact_is(
                #[trigger] r@[c],
                program.classes@[c].id,
                dispatch.tables@[c]@,
            ),
{
    let mut out: Vec<ClassDispatchFact> = Vec::new();
    let mut c: usize = 0;
    while c < program.classes.len()
        invariant
            dispatch.tables@.len() == program.classes@.len(),
            c <= program.classes@.len(),
            out@.len() == c,
            forall|m: int|
                0 <= m < c ==> dispatch_fact_is(
                    #[trigger] out@[m],
                    program.classes@[m].id,
                    dispatch.tables@[m]@,
                ),
        decreases program.classes@.len() - c,
    {
        let table = &dispatch.tables[c];
        let mut targets: Vec<Option<CallableId>> = Vec::new();
        let mut e: usize = 0;
        while e < table.len()
            invariant
                e <= table@.len(),
                targets@ == table@.take(e as int).map_values(
                    |entry: Option<MethodId>|
                        match entry {
                            Some(method) => Some(CallableId::Method(method)),
                            None => None,
                        },
                ),
            decreases table@.len() - e,
        {
            let target = match table[e] {
                Some(method) => Some(CallableId::Method(method)),
                None => None,
            };
            targets.push(target);
            assert(targets@ =~= table@.take(e + 1).map_values(
                |entry: Option<MethodId>|
                    match entry {
                        Some(method) => Some(CallableId::Method(method)),
                        None => None,
                    },
            ));
            e = e + 1;
        }
        assert(table@.take(e as int) =~= table@);
        out.push(ClassDispatchFact { class: program.classes[c].id, targets });
        c = c + 1;
    }
    out
}

fn view_fact(program: &MirProgram, dispatch: &DispatchMetadata, target: MirViewTarget) -> (r:
    ObjectViewFact)
    ensures
        view_fact_is(r, program, target),
{
    let mut components: Vec<ObjectComponent> = Vec::new();
    components.push(ObjectComponent::StaticAddress);
    components.push(ObjectComponent::CompleteAddress);
    components.push(ObjectComponent::DynamicMetadata);
    assert(components@ =~= seq![
        ObjectComponent::StaticAddress,
        ObjectComponent::CompleteAddress,
        ObjectComponent::DynamicMetadata,
    ]);
    ObjectViewFact {
        target: object_view_target(target),
        components,
        members: dispatch.classes_providing_view(program, target),
    }
}

fn project_object_views(program: &MirProgram, dispatch: &DispatchMetadata) -> (r: Vec<ObjectViewFact>)
    ensures
        r@.len() == spec_view_targets(program).len(),
        forall|v: int|
            0 <= v < r@.len() ==> view_fact_is(#[trigger] r@[v], program, spec_view_targets(program)[v]),
{
    let ghost targets = spec_view_targets(program);
    let ghost classes = program.classes@.len();
    let mut out: Vec<ObjectViewFact> = Vec::new();
    let mut c: usize = 0;
    while c < program.classes.len()
        invariant
            targets == spec_view_targets(program),
            c <= program.classes@.len(),
            out@.len() == c,
            forall|v: int| 0 <= v < c ==> view_fact_is(#[trigger] out@[v], program, targets[v]),
        decreases program.classes@.len() - c,
    {
        let target = MirViewTarget::Class(program.classes[c].id);
        assert(targets[c as int] == target);
        out.push(view_fact(program, dispatch, target));
        c = c + 1;
    }
    let mut i: usize = 0;
    while i < program.interfaces.len()
        invariant
            targets == spec_view_targets(program),
            i <= program.interfaces@.len(),
            out@.len() == program.classes@.len() + i,
            forall|v: int|
                0 <= v < program.classes@.len() + i ==> view_fact_is(#[trigger] out@[v], program, targets[v]),
        decreases program.interfaces@.len() - i,
    {
        let target = MirViewTarget::Interface(program.interfaces[i].id);
        assert(targets[(program.classes@.len() + i) as int] == target);
        out.push(view_fact(program, dispatch, target));
        i = i + 1;
    }
    assert(targets[(program.classes@.len() + program.interfaces@.len()) as int] == MirViewTarget::Obj);
    out.push(view_fact(program, dispatch, MirViewTarget::Obj));
    out
}

fn project_arrays(program: &MirProgram, layouts: &DataLayout, pool: &Vec<(MirType, LayoutId)>) -> (r: Vec<
    ArrayLayoutFact,
>)
    requires
        program_ids_dense(program),
        layouts.arrays@.len() == program.array_types@.len(),
        forall|a: int|
            0 <= a < program.array_types@.len() ==> spec_layout_id(
                pool@,
                MirType::Array((#[trigger] program.array_types@[a]).id),
            ) is Some && spec_layout_id(pool@, program.array_types@[a].element) is Some,
    ensures
        r@.len() == program.array_types@.len(),
        forall|a: int|
            0 <= a < r@.len() ==> array_fact_is(
                #[trigger] r@[a],
                program.array_types@[a],
                layouts.arrays@[a],
                pool@,
            ),
{
    let mut out: Vec<ArrayLayoutFact> = Vec::new();
    let mut a: usize = 0;
    while a < program.array_types.len()
        invariant
            program_ids_dense(program),
            layouts.arrays@.len() == program.array_types@.len(),
            forall|m: int|
                0 <= m < program.array_types@.len() ==> spec_layout_id(
                    pool@,
                    MirType::Array((#[trigger] program.array_types@[m]).id),
                ) is Some && spec_layout_id(pool@, program.array_types@[m].element) is Some,
            a <= program.array_types@.len(),
            out@.len() == a,
            forall|m: int|
                0 <= m < a ==> array_fact_is(
                    #[trigger] out@[m],
                    program.array_types@[m],
                    layouts.arrays@[m],
                    pool@,
                ),
        decreases program.array_types@.len() - a,
    {
        let array = program.array_types[a];
        assert(program.array_types@[a as int].id.idx == a);
        let layout = match layouts.array(array.id) {
            Some(layout) => layout,
            None => {
                assert(false);
                return out;
            },
        };
        assert(spec_layout_id(pool@, MirType::Array(array.id)) is Some);
        let descriptor_layout = match find_layout(pool, MirType::Array(array.id)) {
            Some(id) => id,
            None => {
                assert(false);
                return out;
            },
        };
        let element_layout = match find_layout(pool, array.element) {
            Some(id) => id,
            None => {
                assert(false);
                return out;
            },
        };
        out.push(
            ArrayLayoutFact {
                array: array.id,
                descriptor_layout,
                element: semantic_type(array.element),
                element_layout,
                element_offset: layout.element_offset,
                shared_element_offset: layout.shared_element_offset,
                stride: layout.stride,
                maximum_length: layout.maximum_length,
                shared_maximum_length: layout.shared_maximum_length,
            },
        );
        a = a + 1;
    }
    out
}

fn project_destruction(steps: &Vec<MirDestructionStep>) -> (r: Vec<DestructionStepFact>)
    ensures
        r@ == steps@.map_values(|step: MirDestructionStep| spec_destruction_step(step)),
{
    let mut out: Vec<DestructionStepFact> = Vec::new();
    let mut k: usize = 0;
    while k < steps.len()
        invariant
            k <= steps@.len(),
            out@ == steps@.take(k as int).map_values(
                |step: MirDestructionStep| spec_destruction_step(step),
            ),
        decreases steps@.len() - k,
    {
        out.push(destruction_step(steps[k]));
        assert(out@ =~= steps@.take(k + 1).map_values(
            |step: MirDestructionStep| spec_destruction_step(step),
        ));
        k = k + 1;
    }
    assert(steps@.take(k as int) =~= steps@);
    out
}

fn class_fact(
    class: &MirClass,
    layout: &ClassLayout,
    byte_count: u64,
    pool: &Vec<(MirType, LayoutId)>,
) -> (r: ClassLayoutFact)
    requires
        spec_layout_id(pool@, MirType::Class(class.id)) is Some,
        forall|j: int|
            0 <= j < class.fields@.len() ==> spec_layout_id(pool@, (#[trigger] class.fields@[j]).ty)
                is Some,
    ensures
        class_fact_is(r, *class, *layout, byte_count, pool@),
{
    let count = if class.fields.len() <= layout.fields.len() {
        class.fields.len()
    } else {
        layout.fields.len()
    };
    let mut fields: Vec<FieldLayoutFact> = Vec::new();
    let mut j: usize = 0;
    while j < count
        invariant
            count <= class.fields@.len(),
            count <= layout.fields@.len(),
            j <= count,
            forall|m: int|
                0 <= m < class.fields@.len() ==> spec_layout_id(pool@, (#[trigger] class.fields@[m]).ty)
                    is Some,
            fields@ == Seq::new(
                j as nat,
                |m: int| field_fact(class.fields@[m], layout.fields@[m], pool@),
            ),
        decreases count - j,
    {
        let field = class.fields[j];
        assert(spec_layout_id(pool@, class.fields@[j as int].ty) is Some);
        let id = match find_layout(pool, field.ty) {
            Some(id) => id,
            None => {
                assert(false);
                LayoutId { idx: 0 }
            },
        };
        fields.push(
            FieldLayoutFact {
                field: field.id,
                ty: semantic_type(field.ty),
                layout: id,
                offset: layout.fields[j].offset,
            },
        );
        assert(fields@ =~= Seq::new(
            (j + 1) as nat,
            |m: int| field_fact(class.fields@[m], layout.fields@[m], pool@),
        ));
        j = j + 1;
    }
    let exact = match find_layout(pool, MirType::Class(class.id)) {
        Some(id) => id,
        None => {
            assert(false);
            LayoutId { idx: 0 }
        },
    };
    let base = match layout.base {
        Some(base) => Some(BaseLayoutFact { class: base.class, offset: base.offset }),
        None => None,
    };
    ClassLayoutFact {
        class: class.id,
        exact_layout: exact,
        complete_layout: exact,
        base,
        fields,
        shared_allocation: SharedAllocationLayout { byte_count, payload_offset: SHARED_HEADER_SIZE },
        destruction: project_destruction(&class.destruction),
    }
}

fn project_classes(program: &MirProgram, layouts: &DataLayout, pool: &Vec<(MirType, LayoutId)>) -> (r:
    Result<Vec<ClassLayoutFact>, BackendError>)
    requires
        program_ids_dense(program),
        layouts.classes@.len() == program.classes@.len(),
        forall|c: int|
            0 <= c < program.classes@.len() ==> spec_layout_id(
                pool@,
                MirType::Class(#[trigger] program.classes@[c].id),
            ) is Some,
        forall|c: int, j: int|
            0 <= c < program.classes@.len() && 0 <= j < program.classes@[c].fields@.len()
                ==> spec_layout_id(pool@, (#[trigger] program.classes@[c].fields@[j]).ty) is Some,
    ensures
        match spec_allocation_error(layouts, program, program.classes@.len() as int) {
            Some(message) => r matches Err(error) && is_layout_error(error, message),
            None => r matches Ok(facts) && facts@.len() == program.classes@.len() && forall|c: int|
                0 <= c < facts@.len() ==> class_fact_is(
                    #[trigger] facts@[c],
                    program.classes@[c],
                    layouts.classes@[c],
                    spec_shared_allocation_size(layouts, program.classes@[c].id)->Ok_0,
                    pool@,
                ),
        },
{
    let mut out: Vec<ClassLayoutFact> = Vec::new();
    let mut c: usize = 0;
    while c < program.classes.len()
        invariant
            program_ids_dense(program),
            layouts.classes@.len() == program.classes@.len(),
            forall|m: int|
                0 <= m < program.classes@.len() ==> spec_layout_id(
                    pool@,
                    MirType::Class(#[trigger] program.classes@[m].id),
                ) is Some,
            forall|m: int, j: int|
                0 <= m < program.classes@.len() && 0 <= j < program.classes@[m].fields@.len()
                    ==> spec_layout_id(pool@, (#[trigger] program.classes@[m].fields@[j]).ty) is Some,
            c <= program.classes@.len(),
            spec_allocation_error(layouts, program, c as int) is None,
            out@.len() == c,
            forall|m: int|
                0 <= m < c ==> class_fact_is(
                    #[trigger] out@[m],
                    program.classes@[m],
                    layouts.classes@[m],
                    spec_shared_allocation_size(layouts, program.classes@[m].id)->Ok_0,
                    pool@,
                ),
        decreases program.classes@.len() - c,
    {
        let class = &program.classes[c];
        assert(class.id.idx == c);
        let byte_count = match layouts.shared_allocation_size(class.id) {
            Ok(byte_count) => byte_count,
            Err(error) => {
                proof {
                    lemma_allocation_error_stops(
                        layouts,
                        program,
                        c + 1,
                        program.classes@.len() as int,
                    );
                }
                return Err(error);
            },
        };
        let layout = match layouts.class(class.id) {
            Some(layout) => layout,
            None => {
                assert(false);
                return Err(class_missing_error(class.id));
            },
        };
        assert(spec_layout_id(pool@, MirType::Class(program.classes@[c as int].id)) is Some);
        assert forall|j: int| 0 <= j < class.fields@.len() implies spec_layout_id(
            pool@,
            (#[trigger] class.fields@[j]).ty,
        ) is Some by {
            assert(class.fields@[j] == program.classes@[c as int].fields@[j]);
        }
        out.push(class_fact(class, layout, byte_count, pool));
        c = c + 1;
    }
    Ok(out)
}

/// Projects the checked layouts and dispatch tables into the facts that
/// semantic planning reads: type layouts, the shared header, class and array
/// layouts, object views, virtual families, interfaces, conformances, method
/// slots and dispatch tables.
pub fn finish_semantic_projection(
    projection: SemanticProjection,
    program: &MirProgram,
    type_layouts: &Vec<(MirType, LayoutId)>,
    requirement_signatures: &Vec<(InterfaceRequirementId, SignatureId)>,
) -> (r: Result<SemanticFacts, BackendError>)
    requires
        program_ids_dense(program),
        data_layout_consistent(program, &projection.layouts),
        dispatch_is(&projection.dispatch, program),
        pools_complete(program, type_layouts@, requirement_signatures@),
    ensures
        match spec_allocation_error(&projection.layouts, program, program.classes@.len() as int) {
            Some(message) => r matches Err(error) && is_layout_error(error, message),
            None => r is Ok,
        },
        r matches Ok(facts) ==> {
            &&& facts.types@ == type_layouts@.map_values(
                |entry: (MirType, LayoutId)| spec_binding(entry),
            )
            &&& facts.shared_header == Some(
                SharedHeaderLayout {
                    handle_layout: spec_shared_handle(type_layouts@)->Some_0,
                    owner_count_offset: 0,
                    dynamic_metadata_offset: SHARED_DYNAMIC_METADATA_OFFSET as usize,
                    header_size: SHARED_HEADER_SIZE,
                },
            )
            &&& facts.classes@.len() == program.classes@.len()
            &&& forall|c: int|
                0 <= c < facts.classes@.len() ==> class_fact_is(
                    #[trigger] facts.classes@[c],
                    program.classes@[c],
                    projection.layouts.classes@[c],
                    spec_shared_allocation_size(&projection.layouts, program.classes@[c].id)->Ok_0,
                    type_layouts@,
                )
            &&& facts.arrays@.len() == program.array_types@.len()
            &&& forall|a: int|
                0 <= a < facts.arrays@.len() ==> array_fact_is(
                    #[trigger] facts.arrays@[a],
                    program.array_types@[a],
                    projection.layouts.arrays@[a],
                    type_layouts@,
                )
            &&& facts.object_views@.len() == spec_view_targets(program).len()
            &&& forall|v: int|
                0 <= v < facts.object_views@.len() ==> view_fact_is(
                    #[trigger] facts.object_views@[v],
                    program,
                    spec_view_targets(program)[v],
                )
            &&& facts.virtual_families@.len() == program.virtual_families@.len()
            &&& forall|i: int|
                0 <= i < facts.virtual_families@.len() ==> family_fact_is(
                    #[trigger] facts.virtual_families@[i],
                    program.virtual_families@[i],
                )
            &&& facts.interfaces@.len() == program.interfaces@.len()
            &&& forall|i: int|
                0 <= i < facts.interfaces@.len() ==> interface_fact_is(
                    #[trigger] facts.interfaces@[i],
                    program.interfaces@[i],
                    requirement_signatures@,
                )
            &&& facts.conformances@.len() == spec_conformance_keys(
                program,
                program.classes@.len() as int,
            ).len()
            &&& forall|j: int|
                0 <= j < facts.conformances@.len() ==> conformance_fact_is(
                    #[trigger] facts.conformances@[j],
                    program,
                    spec_conformance_keys(program, program.classes@.len() as int)[j],
                )
            &&& facts.method_slots@ == spec_method_slots(program)
            &&& facts.dispatch_tables@.len() == program.classes@.len()
            &&& forall|c: int|
                0 <= c < facts.dispatch_tables@.len() ==> dispatch_fact_is(
                    #[trigger] facts.dispatch_tables@[c],
                    program.classes@[c].id,
                    projection.dispatch.tables@[c]@,
                )
        },
{
    let layouts = &projection.layouts;
    let dispatch = &projection.dispatch;
    let types = project_types(type_layouts);
    let handle = match find_shared_handle(type_layouts) {
        Some(handle) => handle,
        None => {
            assert(false);
            LayoutId { idx: 0 }
        },
    };
    let classes = match project_classes(program, layouts, type_layouts) {
        Ok(classes) => classes,
        Err(error) => return Err(error),
    };
    let arrays = project_arrays(program, layouts, type_layouts);
    let virtual_families = project_families(program);
    let interfaces = project_interfaces(program, requirement_signatures);
    let conformances = project_conformances(program);
    let ghost entry_count = spec_interface_layout(program)->Ok_0.1;
    proof {
        lemma_slot_count(program, program.interfaces@.len() as int);
    }
    assert(dispatch.finalizer_displacement == entry_count * 8);
    let finalizer = (dispatch.finalizer_displacement / 8) as usize;
    let method_slots = project_method_slots(program, finalizer);
    let dispatch_tables = project_dispatch_tables(program, dispatch);
    let object_views = project_object_views(program, dispatch);
    Ok(
        SemanticFacts {
            types,
            shared_header: Some(
                SharedHeaderLayout {
                    handle_layout: handle,
                    owner_count_offset: 0,
                    dynamic_metadata_offset: SHARED_DYNAMIC_METADATA_OFFSET as usize,
                    header_size: SHARED_HEADER_SIZE,
                },
            ),
            classes,
            arrays,
            object_views,
            virtual_families,
            interfaces,
            conformances,
            method_slots,
            dispatch_tables,
        },
    )
}

} // verus!
