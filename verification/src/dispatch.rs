//! Deterministic target-side dynamic-dispatch analysis.
//!
//! Each class table holds the canonical virtual slots, then every
//! interface's requirements in identity order; the complete-object
//! finalizer follows the last entry.

use vstd::prelude::*;

use crate::error::{error_is, x86_error, BackendError, Target};
use crate::identity::{ClassId, InterfaceRequirementId, MethodId, VirtualSlotId};
use crate::machine::AssemblyDispatchTable;
use crate::mir::{
    ancestor_within, program_ids_dense, spec_conforms, spec_is_ancestor, spec_member_defined, MirConformance,
    MirImplementation, MirProgram, MirViewTarget, MirVirtualFamily,
};
use crate::symbol::{
    callable, callable_text, complete_finalizer, complete_finalizer_text, dispatch_table,
    dispatch_table_text, shared_array_finalizer, shared_array_finalizer_text,
    shared_array_metadata, shared_array_metadata_text,
};
use crate::text::{decimal, decimal_text, framed_decimal};

verus! {

pub const DISPATCH_ENTRY_SIZE: usize = 8;

pub open spec fn displacement_message(table: Seq<char>) -> Seq<char> {
    table + " exceeds x86-64 displacement limits"@
}

pub fn displacement_error(table: &str) -> (r: BackendError)
    ensures
        error_is(r, None, displacement_message(table@)),
{
    let mut message = String::from_str(table);
    message.append(" exceeds x86-64 displacement limits");
    BackendError::new(Target::X86_64SysV, None, message)
}

/// The byte displacement of table entry `index`.
pub open spec fn spec_entry_displacement(index: int) -> Option<i32> {
    if index * 8 <= i32::MAX {
        Some((index * 8) as i32)
    } else {
        None
    }
}

pub fn entry_displacement(index: usize, table: &str) -> (r: Result<i32, BackendError>)
    ensures
        match spec_entry_displacement(index as int) {
            Some(displacement) => r == Ok::<i32, BackendError>(displacement),
            None => r matches Err(error) && error_is(error, None, displacement_message(table@)),
        },
{
    match index.checked_mul(DISPATCH_ENTRY_SIZE) {
        Some(offset) => if offset <= 0x7fff_ffffusize {
            Ok(offset as i32)
        } else {
            Err(displacement_error(table))
        },
        None => Err(displacement_error(table)),
    }
}

/// The first table entry of each interface, after the virtual slots, and
/// the entry count, over the first `count` interfaces.
pub open spec fn spec_interface_starts(program: &MirProgram, count: int) -> Option<(Seq<usize>, int)>
    decreases count,
{
    if count <= 0 {
        Some((Seq::empty(), program.virtual_families@.len() as int))
    } else {
        match spec_interface_starts(program, count - 1) {
            None => None,
            Some((starts, entries)) => {
                let next = entries + program.interfaces@[count - 1].requirements@.len();
                if next <= usize::MAX {
                    Some((starts.push(entries as usize), next))
                } else {
                    None
                }
            },
        }
    }
}

pub open spec fn spec_interface_layout(program: &MirProgram) -> Result<
    (Seq<usize>, int),
    Seq<char>,
> {
    match spec_interface_starts(program, program.interfaces@.len() as int) {
        None => Err(displacement_message("interface witness table"@)),
        Some((starts, entries)) => if entries != 0 && spec_entry_displacement(entries - 1) is None {
            Err(displacement_message("class dispatch table"@))
        } else {
            Ok((starts, entries))
        },
    }
}

pub fn interface_layout(program: &MirProgram) -> (r: Result<(Vec<usize>, usize), BackendError>)
    ensures
        match spec_interface_layout(program) {
            Ok((starts, entries)) => r matches Ok((s, e)) && s@ == starts && e == entries,
            Err(message) => r matches Err(error) && error_is(error, None, message),
        },
{
    let mut starts: Vec<usize> = Vec::new();
    let mut entry_count = program.virtual_families.len();
    let mut i: usize = 0;
    while i < program.interfaces.len()
        invariant
            i <= program.interfaces@.len(),
            spec_interface_starts(program, i as int) == Some((starts@, entry_count as int)),
        decreases program.interfaces@.len() - i,
    {
        starts.push(entry_count);
        entry_count = match entry_count.checked_add(program.interfaces[i].requirements.len()) {
            Some(next) => next,
            None => {
                proof {
                    lemma_interface_starts_fail(program, i as int + 1);
                }
                return Err(displacement_error("interface witness table"));
            },
        };
        i = i + 1;
    }
    if entry_count != 0 {
        match entry_displacement(entry_count - 1, "class dispatch table") {
            Ok(_) => {},
            Err(error) => return Err(error),
        }
    }
    Ok((starts, entry_count))
}

pub proof fn lemma_interface_starts_fail(program: &MirProgram, count: int)
    requires
        0 <= count <= program.interfaces@.len(),
        spec_interface_starts(program, count) is None,
    ensures
        spec_interface_starts(program, program.interfaces@.len() as int) is None,
    decreases program.interfaces@.len() - count,
{
    if count < program.interfaces@.len() {
        lemma_interface_starts_fail(program, count + 1);
    }
}

/// The family member that `class` dispatches to: the member declared by
/// the class or its nearest declaring ancestor.
pub open spec fn spec_select_for_class(
    program: &MirProgram,
    members: Seq<MethodId>,
    class: ClassId,
) -> Option<MethodId>
    decreases members.len(),
{
    if members.len() == 0 {
        None
    } else {
        let selected = spec_select_for_class(program, members.drop_last(), class);
        let method = members.last();
        let owner = method.owner;
        if owner != class && !spec_is_ancestor(program, owner, class) {
            selected
        } else {
            match selected {
                Some(current) => if !spec_is_ancestor(program, current.owner, owner) {
                    Some(current)
                } else {
                    Some(method)
                },
                None => Some(method),
            }
        }
    }
}

/// Whatever a class dispatches to is a member of the family that the class
/// itself or one of its ancestors declares.
pub proof fn lemma_selection_applies(program: &MirProgram, members: Seq<MethodId>, class: ClassId)
    ensures
        spec_select_for_class(program, members, class) matches Some(method) ==> members.contains(
            method,
        ) && (method.owner == class || spec_is_ancestor(program, method.owner, class)),
    decreases members.len(),
{
    if members.len() > 0 {
        lemma_selection_applies(program, members.drop_last(), class);
        match spec_select_for_class(program, members.drop_last(), class) {
            Some(current) => {
                let k = choose|k: int| 0 <= k < members.drop_last().len() && members.drop_last()[k]
                    == current;
                assert(members[k] == current);
            },
            None => {},
        }
        assert(members[members.len() - 1] == members.last());
    }
}

/// No class is an ancestor of one of its own ancestors: inheritance is
/// acyclic.
pub open spec fn hierarchy_acyclic(program: &MirProgram) -> bool {
    forall|a: ClassId, b: ClassId|
        !(#[trigger] spec_is_ancestor(program, a, b) && #[trigger] spec_is_ancestor(program, b, a))
}

/// In an acyclic hierarchy, a class that declares a member of a family
/// dispatches to a member it declares itself: its override wins over
/// every inherited one.
pub proof fn lemma_own_member_selected(
    program: &MirProgram,
    members: Seq<MethodId>,
    class: ClassId,
)
    requires
        hierarchy_acyclic(program),
        exists|k: int| 0 <= k < members.len() && (#[trigger] members[k]).owner == class,
    ensures
        spec_select_for_class(program, members, class) matches Some(method) && method.owner
            == class,
    decreases members.len(),
{
    let last = members.last();
    let rest = members.drop_last();
    assert(!spec_is_ancestor(program, class, class));
    if exists|k: int| 0 <= k < rest.len() && (#[trigger] rest[k]).owner == class {
        lemma_own_member_selected(program, rest, class);
        let current = spec_select_for_class(program, rest, class).unwrap();
        if last.owner == class {
        } else if spec_is_ancestor(program, last.owner, class) {
            assert(!spec_is_ancestor(program, class, last.owner));
        }
    } else {
        let k = choose|k: int| 0 <= k < members.len() && (#[trigger] members[k]).owner == class;
        if k < members.len() - 1 {
            assert(rest[k] == members[k]);
        }
        assert(last.owner == class);
        lemma_selection_applies(program, rest, class);
        match spec_select_for_class(program, rest, class) {
            Some(current) => {
                if current.owner == class {
                    let j = choose|j: int| 0 <= j < rest.len() && rest[j] == current;
                    assert(rest[j].owner == class);
                }
                assert(spec_is_ancestor(program, current.owner, class));
            },
            None => {},
        }
    }
}

/// Inheritance is transitive: an ancestor of an ancestor is an ancestor.
pub open spec fn ancestry_transitive(program: &MirProgram) -> bool {
    forall|a: ClassId, b: ClassId, c: ClassId|
        #[trigger] spec_is_ancestor(program, a, b) && #[trigger] spec_is_ancestor(program, b, c)
            ==> spec_is_ancestor(program, a, c)
}

/// The class `steps` declared bases above `class`, if the chain of bases
/// reaches that far.
pub open spec fn nth_base(program: &MirProgram, class: ClassId, steps: nat) -> Option<ClassId>
    decreases steps,
{
    if steps == 0 {
        Some(class)
    } else if class.idx < program.classes@.len() {
        match program.classes@[class.idx as int].direct_base {
            Some(base) => nth_base(program, base, (steps - 1) as nat),
            None => None,
        }
    } else {
        None
    }
}

proof fn lemma_within_is_some_base(program: &MirProgram, ancestor: ClassId, class: ClassId, steps: nat)
    ensures
        ancestor_within(program, ancestor, class, steps) <==> exists|j: nat|
            1 <= j <= steps && #[trigger] nth_base(program, class, j) == Some(ancestor),
    decreases steps,
{
    if steps > 0 && class.idx < program.classes@.len() {
        match program.classes@[class.idx as int].direct_base {
            Some(base) => {
                lemma_within_is_some_base(program, ancestor, base, (steps - 1) as nat);
                if ancestor_within(program, ancestor, class, steps) {
                    if base == ancestor {
                        assert(nth_base(program, base, 0) == Some(base));
                        assert(nth_base(program, class, 1) == Some(ancestor));
                    } else {
                        let j = choose|j: nat|
                            1 <= j <= steps - 1 && #[trigger] nth_base(program, base, j) == Some(ancestor);
                        assert(nth_base(program, class, j + 1) == nth_base(program, base, j));
                    }
                }
                if exists|j: nat| 1 <= j <= steps && #[trigger] nth_base(program, class, j) == Some(ancestor) {
                    let j = choose|j: nat| 1 <= j <= steps && #[trigger] nth_base(program, class, j) == Some(ancestor);
                    assert(nth_base(program, class, j) == nth_base(program, base, (j - 1) as nat));
                    if j > 1 {
                        assert(nth_base(program, base, (j - 1) as nat) == Some(ancestor));
                    }
                }
            },
            None => {
                assert forall|j: nat| 1 <= j <= steps implies #[trigger] nth_base(program, class, j) is None by {}
            },
        }
    } else {
        assert forall|j: nat| 1 <= j <= steps implies #[trigger] nth_base(program, class, j) is None by {}
    }
}

proof fn lemma_nth_base_compose(program: &MirProgram, class: ClassId, first: nat, second: nat)
    ensures
        nth_base(program, class, first + second) == match nth_base(program, class, first) {
            Some(middle) => nth_base(program, middle, second),
            None => None,
        },
    decreases first,
{
    if first > 0 && class.idx < program.classes@.len() {
        match program.classes@[class.idx as int].direct_base {
            Some(base) => {
                lemma_nth_base_compose(program, base, (first - 1) as nat, second);
                assert((first + second - 1) as nat == (first - 1) as nat + second);
            },
            None => {},
        }
    }
}

proof fn lemma_nth_base_prefix(program: &MirProgram, class: ClassId, steps: nat, shorter: nat)
    requires
        nth_base(program, class, steps) is Some,
        shorter < steps,
    ensures
        nth_base(program, class, shorter) matches Some(middle) && middle.idx < program.classes@.len(),
{
    lemma_nth_base_compose(program, class, shorter, (steps - shorter) as nat);
    assert(shorter + (steps - shorter) as nat == steps);
}

proof fn lemma_distinct_indices_bounded(indices: Seq<int>, count: nat)
    requires
        indices.no_duplicates(),
        forall|i: int| 0 <= i < indices.len() ==> 0 <= #[trigger] indices[i] < count,
    ensures
        indices.len() <= count,
{
    indices.unique_seq_to_set();
    vstd::set_lib::lemma_int_range(0, count as int);
    assert(indices.to_set().subset_of(vstd::set_lib::set_int_range(0, count as int)));
    vstd::set_lib::lemma_len_subset(indices.to_set(), vstd::set_lib::set_int_range(0, count as int));
}

/// In an acyclic hierarchy a chain of bases never repeats a class, so every
/// class on it is within as many steps as there are classes.
proof fn lemma_base_chain_is_ancestry(program: &MirProgram, class: ClassId, steps: nat, ancestor: ClassId)
    requires
        hierarchy_acyclic(program),
        steps >= 1,
        nth_base(program, class, steps) == Some(ancestor),
    ensures
        spec_is_ancestor(program, ancestor, class),
{
    let count = program.classes@.len();
    if steps <= count {
        lemma_within_is_some_base(program, ancestor, class, count);
    } else {
        let indices = Seq::new(count + 1, |i: int| nth_base(program, class, i as nat)->Some_0.idx as int);
        assert forall|i: int| 0 <= i < indices.len() implies 0 <= #[trigger] indices[i] < count by {
            lemma_nth_base_prefix(program, class, steps, i as nat);
        }
        if indices.no_duplicates() {
            lemma_distinct_indices_bounded(indices, count);
        }
        let (p, q) = choose|p: int, q: int|
            0 <= p < indices.len() && 0 <= q < indices.len() && p != q && indices[p] == indices[q];
        let (low, high) = if p < q {
            (p, q)
        } else {
            (q, p)
        };
        lemma_nth_base_prefix(program, class, steps, low as nat);
        lemma_nth_base_prefix(program, class, steps, high as nat);
        let repeated = nth_base(program, class, low as nat)->Some_0;
        lemma_nth_base_compose(program, class, low as nat, (high - low) as nat);
        assert(low as nat + (high - low) as nat == high as nat);
        assert(nth_base(program, repeated, (high - low) as nat) == Some(repeated));
        lemma_within_is_some_base(program, repeated, repeated, count);
        assert(spec_is_ancestor(program, repeated, repeated));
        assert(!(spec_is_ancestor(program, repeated, repeated) && spec_is_ancestor(program, repeated, repeated)));
    }
}

/// In an acyclic hierarchy an ancestor of an ancestor is an ancestor.
pub proof fn lemma_ancestry_transitive(program: &MirProgram)
    requires
        hierarchy_acyclic(program),
    ensures
        ancestry_transitive(program),
{
    let count = program.classes@.len();
    assert forall|a: ClassId, b: ClassId, c: ClassId|
        #[trigger] spec_is_ancestor(program, a, b) && #[trigger] spec_is_ancestor(program, b, c) implies spec_is_ancestor(
            program,
            a,
            c,
        ) by {
        lemma_within_is_some_base(program, a, b, count);
        lemma_within_is_some_base(program, b, c, count);
        let first = choose|j: nat| 1 <= j <= count && #[trigger] nth_base(program, c, j) == Some(b);
        let second = choose|j: nat| 1 <= j <= count && #[trigger] nth_base(program, b, j) == Some(a);
        lemma_nth_base_compose(program, c, first, second);
        lemma_base_chain_is_ancestry(program, c, first + second, a);
    }
}

/// `owner` is `class` itself or one of its ancestors, so a member it
/// declares is visible to `class`.
pub open spec fn declared_for(program: &MirProgram, owner: ClassId, class: ClassId) -> bool {
    owner == class || spec_is_ancestor(program, owner, class)
}

/// Dispatch picks the nearest declaration: a class gets a family member
/// that it or one of its ancestors declares, exactly when there is one, and
/// no other member visible to the class is declared by a class strictly
/// more derived than the one picked. An override therefore always hides
/// what it overrides.
pub proof fn lemma_selection_is_nearest(program: &MirProgram, members: Seq<MethodId>, class: ClassId)
    requires
        hierarchy_acyclic(program),
    ensures
        match spec_select_for_class(program, members, class) {
            None => forall|k: int|
                0 <= k < members.len() ==> !declared_for(program, (#[trigger] members[k]).owner, class),
            Some(selected) => {
                &&& members.contains(selected)
                &&& declared_for(program, selected.owner, class)
                &&& forall|k: int|
                    0 <= k < members.len() && declared_for(program, (#[trigger] members[k]).owner, class)
                        ==> !spec_is_ancestor(program, selected.owner, members[k].owner)
            },
        },
    decreases members.len(),
{
    lemma_ancestry_transitive(program);
    if members.len() > 0 {
        let rest = members.drop_last();
        let last = members.last();
        lemma_selection_is_nearest(program, rest, class);
        lemma_selection_applies(program, members, class);
        assert(!spec_is_ancestor(program, last.owner, last.owner));
        assert forall|k: int| 0 <= k < rest.len() implies #[trigger] members[k] == rest[k] by {}
        match spec_select_for_class(program, rest, class) {
            Some(current) => {
                if declared_for(program, last.owner, class) && spec_is_ancestor(
                    program,
                    current.owner,
                    last.owner,
                ) {
                    assert forall|k: int|
                        0 <= k < members.len() && declared_for(program, (#[trigger] members[k]).owner, class)
                            implies !spec_is_ancestor(program, last.owner, members[k].owner) by {
                        if k < rest.len() {
                            assert(rest[k] == members[k]);
                            if spec_is_ancestor(program, last.owner, members[k].owner) {
                                assert(spec_is_ancestor(program, current.owner, members[k].owner));
                            }
                        }
                    }
                } else {
                    assert forall|k: int|
                        0 <= k < members.len() && declared_for(program, (#[trigger] members[k]).owner, class)
                            implies !spec_is_ancestor(program, current.owner, members[k].owner) by {
                        if k < rest.len() {
                            assert(rest[k] == members[k]);
                        }
                    }
                }
            },
            None => {
                assert forall|k: int|
                    0 <= k < members.len() && declared_for(program, (#[trigger] members[k]).owner, class)
                        implies !spec_is_ancestor(program, last.owner, members[k].owner) by {
                    if k < rest.len() {
                        assert(rest[k] == members[k]);
                    }
                }
            },
        }
    }
}

pub fn select_for_class(program: &MirProgram, family: &MirVirtualFamily, class: ClassId) -> (r:
    Option<MethodId>)
    ensures
        r == spec_select_for_class(program, family.members@, class),
{
    let members = &family.members;
    let mut selected: Option<MethodId> = None;
    let mut i: usize = 0;
    while i < members.len()
        invariant
            i <= members@.len(),
            selected == spec_select_for_class(program, members@.take(i as int), class),
        decreases members@.len() - i,
    {
        let method = members[i];
        assert(members@.take((i + 1) as int).drop_last() =~= members@.take(i as int));
        assert(members@.take((i + 1) as int).last() == method);
        let owner = method.class();
        if owner != class && !program.is_ancestor(owner, class) {
        } else {
            selected = match selected {
                Some(current) => if !program.is_ancestor(current.class(), owner) {
                    Some(current)
                } else {
                    Some(method)
                },
                None => Some(method),
            };
        }
        i = i + 1;
    }
    assert(members@.take(members@.len() as int) =~= members@);
    selected
}

pub open spec fn method_text(method: MethodId) -> Seq<char> {
    decimal_text(method.owner.idx as nat) + "."@ + decimal_text(method.idx as nat)
}

pub open spec fn unselectable_message(table: Seq<char>, class: ClassId, method: MethodId) -> Seq<
    char,
> {
    table + " for class "@ + decimal_text(class.idx as nat) + " selects method "@ + method_text(
        method,
    ) + " without a MIR definition"@
}

/// A selected method must have an executable definition.
pub fn verify_executable_selection(
    program: &MirProgram,
    class: ClassId,
    table: &str,
    selected: Option<MethodId>,
) -> (r: Result<(), BackendError>)
    ensures
        match selected {
            Some(method) => if spec_member_defined(program, method) {
                r is Ok
            } else {
                r matches Err(error) && error_is(
                    error,
                    None,
                    unselectable_message(table@, class, method),
                )
            },
            None => r is Ok,
        },
{
    if let Some(method) = selected {
        if !program.member_definition(method) {
            let mut message = String::from_str(table);
            let middle = framed_decimal(" for class ", class.index() as u64, " selects method ");
            message.append(middle.as_str());
            let owner = decimal(method.owner.idx as u64);
            message.append(owner.as_str());
            let index = framed_decimal(".", method.idx as u64, " without a MIR definition");
            message.append(index.as_str());
            assert(message@ =~= unselectable_message(table@, class, method));
            return Err(BackendError::new(Target::X86_64SysV, None, message));
        }
    }
    Ok(())
}

/// Writes every family's selection for `class` into its slot.
pub open spec fn spec_family_entries(
    program: &MirProgram,
    families: Seq<MirVirtualFamily>,
    class: ClassId,
    entries: Seq<Option<MethodId>>,
) -> Seq<Option<MethodId>>
    decreases families.len(),
{
    if families.len() == 0 {
        entries
    } else {
        let family = families.last();
        spec_family_entries(program, families.drop_last(), class, entries).update(
            family.slot.idx as int,
            spec_select_for_class(program, family.members@, class),
        )
    }
}

/// Writes the implementations of one conformance at the interface's start.
pub open spec fn spec_implementation_entries(
    start: int,
    implementations: Seq<MirImplementation>,
    entries: Seq<Option<MethodId>>,
) -> Seq<Option<MethodId>>
    decreases implementations.len(),
{
    if implementations.len() == 0 {
        entries
    } else {
        let implementation = implementations.last();
        spec_implementation_entries(start, implementations.drop_last(), entries).update(
            start + implementation.requirement.idx,
            Some(implementation.method),
        )
    }
}

pub open spec fn spec_conformance_entries(
    starts: Seq<usize>,
    conformances: Seq<MirConformance>,
    entries: Seq<Option<MethodId>>,
) -> Seq<Option<MethodId>>
    decreases conformances.len(),
{
    if conformances.len() == 0 {
        entries
    } else {
        let conformance = conformances.last();
        spec_implementation_entries(
            starts[conformance.interface.idx as int] as int,
            conformance.implementations@,
            spec_conformance_entries(starts, conformances.drop_last(), entries),
        )
    }
}

/// The dispatch table of class `index`.
pub open spec fn spec_class_table(
    program: &MirProgram,
    starts: Seq<usize>,
    entry_count: int,
    index: int,
) -> Seq<Option<MethodId>> {
    spec_conformance_entries(
        starts,
        program.classes@[index].conformances@,
        spec_family_entries(
            program,
            program.virtual_families@,
            ClassId { idx: index as usize },
            Seq::new(entry_count as nat, |k: int| None::<MethodId>),
        ),
    )
}

/// Every virtual selection and interface witness names a defined method.
pub open spec fn selections_executable(program: &MirProgram) -> bool {
    &&& forall|c: int, f: int|
        0 <= c < program.classes@.len() && 0 <= f < program.virtual_families@.len() ==> (
        spec_select_for_class(
            program,
            (#[trigger] program.virtual_families@[f]).members@,
            #[trigger] program.classes@[c].id,
        ) matches Some(method) ==> spec_member_defined(program, method))
    &&& forall|c: int, k: int, j: int|
        0 <= c < program.classes@.len() && 0 <= k < program.classes@[c].conformances@.len() && 0
            <= j < program.classes@[c].conformances@[k].implementations@.len() ==> spec_member_defined(
            program,
            (#[trigger] program.classes@[c].conformances@[k].implementations@[j]).method,
        )
}

/// Slots and interface requirements name existing table entries.
pub open spec fn dispatch_declarations_wf(program: &MirProgram) -> bool {
    &&& program_ids_dense(program)
    &&& forall|f: int|
        0 <= f < program.virtual_families@.len() ==> (
        #[trigger] program.virtual_families@[f]).slot.idx < program.virtual_families@.len()
    &&& forall|c: int, k: int|
        0 <= c < program.classes@.len() && 0 <= k < program.classes@[c].conformances@.len() ==> {
            let conformance = #[trigger] program.classes@[c].conformances@[k];
            &&& conformance.interface.idx < program.interfaces@.len()
            &&& forall|j: int|
                0 <= j < conformance.implementations@.len() ==> (
                #[trigger] conformance.implementations@[j]).requirement.idx
                    < program.interfaces@[conformance.interface.idx as int].requirements@.len()
        }
}

/// The classes whose objects can be viewed as `target`, in declaration order.
pub open spec fn spec_classes_providing_view(
    program: &MirProgram,
    classes: Seq<crate::mir::MirClass>,
    target: MirViewTarget,
) -> Seq<ClassId>
    decreases classes.len(),
{
    if classes.len() == 0 {
        Seq::empty()
    } else {
        let rest = spec_classes_providing_view(program, classes.drop_last(), target);
        let id = classes.last().id;
        let provides = match target {
            MirViewTarget::Class(view) => id == view || spec_is_ancestor(program, view, id),
            MirViewTarget::Interface(interface) => spec_conforms(program, id, interface),
            MirViewTarget::Obj => true,
        };
        if provides {
            rest.push(id)
        } else {
            rest
        }
    }
}

/// An object of class `id` can be viewed as `target`: as its own class or
/// one of its ancestors, as an interface the class declares a conformance
/// to, and always as `Obj`.
pub open spec fn view_provided(program: &MirProgram, id: ClassId, target: MirViewTarget) -> bool {
    match target {
        MirViewTarget::Class(view) => id == view || spec_is_ancestor(program, view, id),
        MirViewTarget::Interface(interface) => id.idx < program.classes@.len() && exists|k: int|
            0 <= k < program.classes@[id.idx as int].conformances@.len()
                && (#[trigger] program.classes@[id.idx as int].conformances@[k]).interface == interface,
        MirViewTarget::Obj => true,
    }
}

/// A type test or view cast accepts exactly the listed classes that can be
/// viewed as the target: a class is listed if and only if it is declared
/// and provides the view.
pub proof fn lemma_providing_view_members(
    program: &MirProgram,
    classes: Seq<crate::mir::MirClass>,
    target: MirViewTarget,
)
    ensures
        forall|id: ClassId|
            #[trigger] spec_classes_providing_view(program, classes, target).contains(id) <==> (exists|i: int|
                0 <= i < classes.len() && (#[trigger] classes[i]).id == id) && view_provided(program, id, target),
    decreases classes.len(),
{
    if classes.len() > 0 {
        let rest = classes.drop_last();
        lemma_providing_view_members(program, rest, target);
        let provided = spec_classes_providing_view(program, classes, target);
        let earlier = spec_classes_providing_view(program, rest, target);
        assert forall|id: ClassId|
            #[trigger] provided.contains(id) <==> (exists|i: int|
                0 <= i < classes.len() && (#[trigger] classes[i]).id == id) && view_provided(program, id, target) by {
            if provided.contains(id) {
                if earlier.contains(id) {
                    let i = choose|i: int| 0 <= i < rest.len() && (#[trigger] rest[i]).id == id;
                    assert(classes[i] == rest[i]);
                } else {
                    let j = choose|j: int| 0 <= j < provided.len() && provided[j] == id;
                    assert(provided == earlier.push(classes.last().id));
                    assert(j == earlier.len());
                    assert(classes[classes.len() - 1] == classes.last());
                }
            }
            if (exists|i: int| 0 <= i < classes.len() && (#[trigger] classes[i]).id == id) && view_provided(
                program,
                id,
                target,
            ) {
                let i = choose|i: int| 0 <= i < classes.len() && (#[trigger] classes[i]).id == id;
                if i < rest.len() {
                    assert(rest[i] == classes[i]);
                    assert(earlier.contains(id));
                    let j = choose|j: int| 0 <= j < earlier.len() && earlier[j] == id;
                    if provided != earlier {
                        assert(provided == earlier.push(classes.last().id));
                        assert(provided[j] == id);
                    }
                } else {
                    assert(classes[i] == classes.last());
                    assert(provided == earlier.push(id));
                    assert(provided[earlier.len() as int] == id);
                }
            }
        }
    }
}

/// The classes that provide a view are listed in declaration order, each
/// as often as it is declared: the declared class ids, filtered by
/// whether the class can be viewed as the target.
pub proof fn lemma_providing_view_in_order(
    program: &MirProgram,
    classes: Seq<crate::mir::MirClass>,
    target: MirViewTarget,
)
    ensures
        spec_classes_providing_view(program, classes, target) == classes.map_values(
            |class: crate::mir::MirClass| class.id,
        ).filter(|id: ClassId| view_provided(program, id, target)),
    decreases classes.len(),
{
    let ids = classes.map_values(|class: crate::mir::MirClass| class.id);
    let provides = |id: ClassId| view_provided(program, id, target);
    if classes.len() == 0 {
        reveal(Seq::filter);
        assert(ids =~= Seq::<ClassId>::empty());
    } else {
        let rest = classes.drop_last();
        lemma_providing_view_in_order(program, rest, target);
        let earlier = rest.map_values(|class: crate::mir::MirClass| class.id);
        assert(ids =~= earlier.push(classes.last().id));
        earlier.lemma_filter_push(classes.last().id, provides);
    }
}

/// One rendered table entry names the symbol of the selected method.
pub open spec fn entry_rendered(entry: Option<String>, method: Option<MethodId>) -> bool {
    match method {
        Some(method) => entry matches Some(symbol) && symbol@ == callable_text(
            crate::identity::CallableId::Method(method),
        ),
        None => entry is None,
    }
}

/// A class table renders every entry, then the complete-object finalizer.
pub open spec fn class_table_rendered(
    table: AssemblyDispatchTable,
    index: int,
    entries: Seq<Option<MethodId>>,
) -> bool {
    let class = ClassId { idx: index as usize };
    &&& table.symbol@ == dispatch_table_text(class)
    &&& table.entries@.len() == entries.len() + 1
    &&& forall|k: int|
        0 <= k < entries.len() ==> entry_rendered(#[trigger] table.entries@[k], entries[k])
    &&& table.entries@[entries.len() as int] matches Some(symbol) && symbol@
        == complete_finalizer_text(class)
}

/// An array metadata object places its finalizer where class tables do.
pub open spec fn array_table_rendered(
    table: AssemblyDispatchTable,
    array: crate::identity::ArrayTypeId,
    slots: int,
) -> bool {
    &&& table.symbol@ == shared_array_metadata_text(array)
    &&& table.entries@.len() == slots + 1
    &&& forall|k: int| 0 <= k < slots ==> #[trigger] table.entries@[k] is None
    &&& table.entries@[slots] matches Some(symbol) && symbol@ == shared_array_finalizer_text(array)
}

/// Per-class dispatch tables and interface table starts.
#[derive(Clone, Debug, PartialEq, Eq)]
pub struct DispatchMetadata {
    pub tables: Vec<Vec<Option<MethodId>>>,
    pub interface_starts: Vec<usize>,
    pub finalizer_displacement: i32,
}

/// The tables, starts, and finalizer displacement that compute produces.
pub open spec fn dispatch_is(metadata: &DispatchMetadata, program: &MirProgram) -> bool {
    spec_interface_layout(program) matches Ok((starts, entry_count)) && {
        &&& metadata.interface_starts@ == starts
        &&& spec_entry_displacement(entry_count) == Some(metadata.finalizer_displacement)
        &&& metadata.tables@.len() == program.classes@.len()
        &&& forall|c: int|
            0 <= c < program.classes@.len() ==> (#[trigger] metadata.tables@[c])@
                == spec_class_table(program, starts, entry_count, c)
    }
}

pub open spec fn spec_dispatch_succeeds(program: &MirProgram) -> bool {
    &&& spec_interface_layout(program) matches Ok((_, entry_count)) && spec_entry_displacement(
        entry_count,
    ) is Some
    &&& selections_executable(program)
}

/// Every interface's requirements fit between its start and the end of
/// the table, and starts are at least the virtual slot count.
pub proof fn lemma_interface_starts_bounded(program: &MirProgram, count: int)
    requires
        0 <= count <= program.interfaces@.len(),
        spec_interface_starts(program, count) is Some,
    ensures
        ({
            let (starts, entries) = spec_interface_starts(program, count).unwrap();
            &&& starts.len() == count
            &&& entries >= program.virtual_families@.len()
            &&& forall|i: int|
                0 <= i < count ==> program.virtual_families@.len() <= #[trigger] starts[i] && starts[i]
                    + program.interfaces@[i].requirements@.len() <= entries
        }),
    decreases count,
{
    if count > 0 {
        lemma_interface_starts_bounded(program, count - 1);
    }
}


/// The diagnostic of the first virtual family, from position `from` on,
/// whose selection for `class` names a method without a definition.
pub open spec fn family_error(program: &MirProgram, class: ClassId, from: int) -> Option<Seq<char>>
    decreases program.virtual_families@.len() - from,
{
    if from < 0 || from >= program.virtual_families@.len() {
        None
    } else {
        match spec_select_for_class(program, program.virtual_families@[from].members@, class) {
            Some(method) => if !spec_member_defined(program, method) {
                Some(unselectable_message("virtual table"@, class, method))
            } else {
                family_error(program, class, from + 1)
            },
            None => family_error(program, class, from + 1),
        }
    }
}

/// The diagnostic of the first implementation of conformance `k` of class
/// `c`, from position `from` on, whose method has no definition.
pub open spec fn implementation_error(program: &MirProgram, c: int, k: int, from: int) -> Option<
    Seq<char>,
>
    decreases program.classes@[c].conformances@[k].implementations@.len() - from,
{
    let implementations = program.classes@[c].conformances@[k].implementations@;
    if from < 0 || from >= implementations.len() {
        None
    } else if !spec_member_defined(program, implementations[from].method) {
        Some(
            unselectable_message(
                "interface witness"@,
                program.classes@[c].id,
                implementations[from].method,
            ),
        )
    } else {
        implementation_error(program, c, k, from + 1)
    }
}

/// The first implementation diagnostic over the conformances of class `c`
/// from position `from` on.
pub open spec fn conformance_error(program: &MirProgram, c: int, from: int) -> Option<Seq<char>>
    decreases program.classes@[c].conformances@.len() - from,
{
    if from < 0 || from >= program.classes@[c].conformances@.len() {
        None
    } else {
        match implementation_error(program, c, from, 0) {
            Some(message) => Some(message),
            None => conformance_error(program, c, from + 1),
        }
    }
}

/// The first selection diagnostic of the classes from position `from` on:
/// each class's virtual families, then its conformances.
pub open spec fn class_selection_error(program: &MirProgram, from: int) -> Option<Seq<char>>
    decreases program.classes@.len() - from,
{
    if from < 0 || from >= program.classes@.len() {
        None
    } else {
        match family_error(program, program.classes@[from].id, 0) {
            Some(message) => Some(message),
            None => match conformance_error(program, from, 0) {
                Some(message) => Some(message),
                None => class_selection_error(program, from + 1),
            },
        }
    }
}

/// The diagnostic with which computing the dispatch tables fails, if it
/// does: the interface layout, then the selections of each class, then the
/// displacement of the finalizer entry.
pub open spec fn spec_dispatch_error(program: &MirProgram) -> Option<Seq<char>> {
    match spec_interface_layout(program) {
        Err(message) => Some(message),
        Ok((_, entries)) => match class_selection_error(program, 0) {
            Some(message) => Some(message),
            None => if spec_entry_displacement(entries) is None {
                Some(displacement_message("complete finalizer table"@))
            } else {
                None
            },
        },
    }
}

proof fn lemma_family_error(program: &MirProgram, class: ClassId, from: int, p: int)
    requires
        0 <= from <= p <= program.virtual_families@.len(),
        forall|f: int|
            from <= f < p ==> (spec_select_for_class(
                program,
                (#[trigger] program.virtual_families@[f]).members@,
                class,
            ) matches Some(method) ==> spec_member_defined(program, method)),
    ensures
        p == program.virtual_families@.len() ==> family_error(program, class, from) is None,
        p < program.virtual_families@.len() ==> match spec_select_for_class(
            program,
            program.virtual_families@[p].members@,
            class,
        ) {
            Some(method) => !spec_member_defined(program, method) ==> family_error(
                program,
                class,
                from,
            ) == Some(unselectable_message("virtual table"@, class, method)),
            None => true,
        },
    decreases p - from,
{
    if from < p {
        lemma_family_error(program, class, from + 1, p);
        assert(spec_select_for_class(program, program.virtual_families@[from].members@, class)
            matches Some(method) ==> spec_member_defined(program, method));
    }
}

proof fn lemma_implementation_error(program: &MirProgram, c: int, k: int, from: int, p: int)
    requires
        0 <= c < program.classes@.len(),
        0 <= k < program.classes@[c].conformances@.len(),
        0 <= from <= p <= program.classes@[c].conformances@[k].implementations@.len(),
        forall|j: int|
            from <= j < p ==> spec_member_defined(
                program,
                (#[trigger] program.classes@[c].conformances@[k].implementations@[j]).method,
            ),
    ensures
        p == program.classes@[c].conformances@[k].implementations@.len() ==> implementation_error(
            program,
            c,
            k,
            from,
        ) is None,
        p < program.classes@[c].conformances@[k].implementations@.len() && !spec_member_defined(
            program,
            program.classes@[c].conformances@[k].implementations@[p].method,
        ) ==> implementation_error(program, c, k, from) == Some(
            unselectable_message(
                "interface witness"@,
                program.classes@[c].id,
                program.classes@[c].conformances@[k].implementations@[p].method,
            ),
        ),
    decreases p - from,
{
    if from < p {
        lemma_implementation_error(program, c, k, from + 1, p);
        assert(spec_member_defined(
            program,
            program.classes@[c].conformances@[k].implementations@[from].method,
        ));
    }
}

proof fn lemma_conformance_error(program: &MirProgram, c: int, from: int, p: int)
    requires
        0 <= c < program.classes@.len(),
        0 <= from <= p <= program.classes@[c].conformances@.len(),
        forall|m: int| from <= m < p ==> #[trigger] implementation_error(program, c, m, 0) is None,
    ensures
        p == program.classes@[c].conformances@.len() ==> conformance_error(program, c, from) is None,
        p < program.classes@[c].conformances@.len() ==> (implementation_error(program, c, p, 0)
            matches Some(message) ==> conformance_error(program, c, from) == Some(message)),
    decreases p - from,
{
    if from < p {
        lemma_conformance_error(program, c, from + 1, p);
        assert(implementation_error(program, c, from, 0) is None);
    }
}

proof fn lemma_class_selection_error(program: &MirProgram, from: int, p: int)
    requires
        0 <= from <= p <= program.classes@.len(),
        forall|c: int|
            from <= c < p ==> family_error(program, program.classes@[c].id, 0) is None
                && #[trigger] conformance_error(program, c, 0) is None,
    ensures
        p == program.classes@.len() ==> class_selection_error(program, from) is None,
        p < program.classes@.len() ==> (match family_error(program, program.classes@[p].id, 0) {
            Some(message) => class_selection_error(program, from) == Some(message),
            None => conformance_error(program, p, 0) matches Some(message) ==> class_selection_error(
                program,
                from,
            ) == Some(message),
        }),
    decreases p - from,
{
    if from < p {
        lemma_class_selection_error(program, from + 1, p);
        assert(conformance_error(program, from, 0) is None);
    }
}

/// Classes whose selections all name defined methods have no selection
/// diagnostic.
proof fn lemma_classes_fine(program: &MirProgram, count: int)
    requires
        0 <= count <= program.classes@.len(),
        forall|k: int, f: int|
            0 <= k < count && 0 <= f < program.virtual_families@.len() ==> (spec_select_for_class(
                program,
                (#[trigger] program.virtual_families@[f]).members@,
                #[trigger] program.classes@[k].id,
            ) matches Some(method) ==> spec_member_defined(program, method)),
        forall|k: int, m: int, j: int|
            0 <= k < count && 0 <= m < program.classes@[k].conformances@.len() && 0 <= j
                < program.classes@[k].conformances@[m].implementations@.len() ==> spec_member_defined(
                program,
                (#[trigger] program.classes@[k].conformances@[m].implementations@[j]).method,
            ),
    ensures
        forall|i: int|
            0 <= i < count ==> family_error(program, program.classes@[i].id, 0) is None
                && #[trigger] conformance_error(program, i, 0) is None,
{
    assert forall|i: int| 0 <= i < count implies family_error(program, program.classes@[i].id, 0)
        is None && #[trigger] conformance_error(program, i, 0) is None by {
        let class = program.classes@[i].id;
        assert forall|f: int| 0 <= f < program.virtual_families@.len() implies (spec_select_for_class(
            program,
            (#[trigger] program.virtual_families@[f]).members@,
            class,
        ) matches Some(method) ==> spec_member_defined(program, method)) by {
            assert(program.classes@[i].id == class);
        }
        lemma_family_error(program, class, 0, program.virtual_families@.len() as int);
        let conformances = program.classes@[i].conformances@;
        assert forall|m: int| 0 <= m < conformances.len() implies #[trigger] implementation_error(
            program,
            i,
            m,
            0,
        ) is None by {
            lemma_implementation_error(
                program,
                i,
                m,
                0,
                program.classes@[i].conformances@[m].implementations@.len() as int,
            );
        }
        lemma_conformance_error(program, i, 0, conformances.len() as int);
    }
}

impl DispatchMetadata {
    pub fn compute(program: &MirProgram) -> (r: Result<Self, BackendError>)
        requires
            dispatch_declarations_wf(program),
        ensures
            r is Ok <==> spec_dispatch_succeeds(program),
            match spec_dispatch_error(program) {
                None => r is Ok,
                Some(message) => r matches Err(error) && error_is(error, None, message),
            },
            r matches Ok(metadata) ==> dispatch_is(&metadata, program),
    {
        let (interface_starts, entry_count) = match interface_layout(program) {
            Ok(layout) => layout,
            Err(error) => return Err(error),
        };
        proof {
            lemma_interface_starts_bounded(program, program.interfaces@.len() as int);
        }
        let mut tables: Vec<Vec<Option<MethodId>>> = Vec::new();
        let mut c: usize = 0;
        while c < program.classes.len()
            invariant
                dispatch_declarations_wf(program),
                spec_interface_layout(program) == Ok::<(Seq<usize>, int), Seq<char>>(
                    (interface_starts@, entry_count as int),
                ),
                interface_starts@.len() == program.interfaces@.len(),
                entry_count >= program.virtual_families@.len(),
                forall|i: int|
                    0 <= i < program.interfaces@.len() ==> #[trigger] interface_starts@[i]
                        + program.interfaces@[i].requirements@.len() <= entry_count,
                c <= program.classes@.len(),
                tables@.len() == c,
                forall|k: int|
                    0 <= k < c ==> (#[trigger] tables@[k])@ == spec_class_table(
                        program,
                        interface_starts@,
                        entry_count as int,
                        k,
                    ),
                forall|k: int, f: int|
                    0 <= k < c && 0 <= f < program.virtual_families@.len() ==> (
                    spec_select_for_class(
                        program,
                        (#[trigger] program.virtual_families@[f]).members@,
                        #[trigger] program.classes@[k].id,
                    ) matches Some(method) ==> spec_member_defined(program, method)),
                forall|k: int, m: int, j: int|
                    0 <= k < c && 0 <= m < program.classes@[k].conformances@.len() && 0 <= j
                        < program.classes@[k].conformances@[m].implementations@.len()
                        ==> spec_member_defined(
                        program,
                        (#[trigger] program.classes@[k].conformances@[m].implementations@[j]).method,
                    ),
            decreases program.classes@.len() - c,
        {
            proof {
                lemma_classes_fine(program, c as int);
            }
            let class = &program.classes[c];
            let class_id = class.id;
            assert(class_id.idx == c);
            let mut entries: Vec<Option<MethodId>> = Vec::new();
            let mut e: usize = 0;
            while e < entry_count
                invariant
                    e <= entry_count,
                    entries@.len() == e,
                    forall|k: int| 0 <= k < e ==> #[trigger] entries@[k] is None,
                decreases entry_count - e,
            {
                entries.push(None);
                e = e + 1;
            }
            let ghost initial = Seq::new(entry_count as nat, |k: int| None::<MethodId>);
            assert(entries@ =~= initial);
            let families = &program.virtual_families;
            let mut f: usize = 0;
            while f < families.len()
                invariant
                    spec_interface_layout(program) == Ok::<(Seq<usize>, int), Seq<char>>(
                        (interface_starts@, entry_count as int),
                    ),
                    forall|i: int|
                        0 <= i < c ==> family_error(program, program.classes@[i].id, 0) is None
                            && #[trigger] conformance_error(program, i, 0) is None,
                    families@ == program.virtual_families@,
                    dispatch_declarations_wf(program),
                    entry_count >= program.virtual_families@.len(),
                    class_id == program.classes@[c as int].id,
                    c < program.classes@.len(),
                    f <= families@.len(),
                    entries@.len() == entry_count,
                    entries@ == spec_family_entries(program, families@.take(f as int), class_id, initial),
                    forall|g: int|
                        0 <= g < f ==> (spec_select_for_class(
                            program,
                            (#[trigger] program.virtual_families@[g]).members@,
                            program.classes@[c as int].id,
                        ) matches Some(method) ==> spec_member_defined(program, method)),
                decreases families@.len() - f,
            {
                let family = &families[f];
                assert(families@.take((f + 1) as int).drop_last() =~= families@.take(f as int));
                let selected = select_for_class(program, family, class_id);
                match verify_executable_selection(program, class_id, "virtual table", selected) {
                    Ok(()) => {},
                    Err(error) => {
                        proof {
                            assert(!selections_executable(program)) by {
                                assert(spec_select_for_class(
                                    program,
                                    program.virtual_families@[f as int].members@,
                                    program.classes@[c as int].id,
                                ) == selected);
                            }
                            lemma_family_error(program, class_id, 0, f as int);
                            lemma_class_selection_error(program, 0, c as int);
                        }
                        return Err(error);
                    },
                }
                assert(program.virtual_families@[f as int].slot.idx < program.virtual_families@.len());
                entries.set(family.slot.index(), selected);
                f = f + 1;
            }
            assert(families@.take(families@.len() as int) =~= families@);
            proof {
                lemma_family_error(program, class_id, 0, families@.len() as int);
            }
            let ghost family_entries = entries@;
            let conformances = &class.conformances;
            let mut k: usize = 0;
            while k < conformances.len()
                invariant
                    spec_interface_layout(program) == Ok::<(Seq<usize>, int), Seq<char>>(
                        (interface_starts@, entry_count as int),
                    ),
                    forall|i: int|
                        0 <= i < c ==> family_error(program, program.classes@[i].id, 0) is None
                            && #[trigger] conformance_error(program, i, 0) is None,
                    family_error(program, class_id, 0) is None,
                    forall|m: int| 0 <= m < k ==> #[trigger] implementation_error(program, c as int, m, 0) is None,
                    conformances@ == program.classes@[c as int].conformances@,
                    dispatch_declarations_wf(program),
                    c < program.classes@.len(),
                    class_id == program.classes@[c as int].id,
                    interface_starts@.len() == program.interfaces@.len(),
                    forall|i: int|
                        0 <= i < program.interfaces@.len() ==> #[trigger] interface_starts@[i]
                            + program.interfaces@[i].requirements@.len() <= entry_count,
                    k <= conformances@.len(),
                    entries@.len() == entry_count,
                    entries@ == spec_conformance_entries(
                        interface_starts@,
                        conformances@.take(k as int),
                        family_entries,
                    ),
                    forall|m: int, j: int|
                        0 <= m < k && 0 <= j < program.classes@[c as int].conformances@[m].implementations@.len()
                            ==> spec_member_defined(
                            program,
                            (#[trigger] program.classes@[c as int].conformances@[m].implementations@[j]).method,
                        ),
                decreases conformances@.len() - k,
            {
                let conformance = &conformances[k];
                assert(conformances@.take((k + 1) as int).drop_last() =~= conformances@.take(k as int));
                assert(conformance.interface.idx < program.interfaces@.len());
                let start = interface_starts[conformance.interface.index()];
                let implementations = &conformance.implementations;
                let ghost before = entries@;
                let mut j: usize = 0;
                while j < implementations.len()
                    invariant
                        spec_interface_layout(program) == Ok::<(Seq<usize>, int), Seq<char>>(
                            (interface_starts@, entry_count as int),
                        ),
                        forall|i: int|
                            0 <= i < c ==> family_error(program, program.classes@[i].id, 0) is None
                                && #[trigger] conformance_error(program, i, 0) is None,
                        family_error(program, class_id, 0) is None,
                        forall|m: int| 0 <= m < k ==> #[trigger] implementation_error(program, c as int, m, 0) is None,
                        class_id == program.classes@[c as int].id,
                        c < program.classes@.len(),
                        k < program.classes@[c as int].conformances@.len(),
                        implementations@ == program.classes@[c as int].conformances@[k as int].implementations@,
                        conformance.interface.idx < program.interfaces@.len(),
                        start == interface_starts@[conformance.interface.idx as int],
                        start + program.interfaces@[conformance.interface.idx as int].requirements@.len() <= entry_count,
                        forall|m: int|
                            0 <= m < implementations@.len() ==> (#[trigger] implementations@[m]).requirement.idx
                                < program.interfaces@[conformance.interface.idx as int].requirements@.len(),
                        j <= implementations@.len(),
                        entries@.len() == entry_count,
                        entries@ == spec_implementation_entries(
                            start as int,
                            implementations@.take(j as int),
                            before,
                        ),
                        forall|m: int|
                            0 <= m < j ==> spec_member_defined(
                                program,
                                (#[trigger] implementations@[m]).method,
                            ),
                    decreases implementations@.len() - j,
                {
                    let implementation = implementations[j];
                    assert(implementations@.take((j + 1) as int).drop_last() =~= implementations@.take(j as int));
                    match verify_executable_selection(
                        program,
                        class_id,
                        "interface witness",
                        Some(implementation.method),
                    ) {
                        Ok(()) => {},
                        Err(error) => {
                            proof {
                                assert(!selections_executable(program)) by {
                                    assert(program.classes@[c as int].conformances@[k as int].implementations@[j as int]
                                        == implementation);
                                }
                                lemma_implementation_error(program, c as int, k as int, 0, j as int);
                                lemma_conformance_error(program, c as int, 0, k as int);
                                lemma_class_selection_error(program, 0, c as int);
                            }
                            return Err(error);
                        },
                    }
                    entries.set(start + implementation.requirement.index(), Some(implementation.method));
                    j = j + 1;
                }
                assert(implementations@.take(implementations@.len() as int) =~= implementations@);
                proof {
                    lemma_implementation_error(
                        program,
                        c as int,
                        k as int,
                        0,
                        implementations@.len() as int,
                    );
                }
                k = k + 1;
            }
            assert(conformances@.take(conformances@.len() as int) =~= conformances@);
            tables.push(entries);
            proof {
                assert(tables@[c as int]@ == spec_class_table(
                    program,
                    interface_starts@,
                    entry_count as int,
                    c as int,
                ));
            }
            c = c + 1;
        }
        proof {
            lemma_classes_fine(program, program.classes@.len() as int);
            lemma_class_selection_error(program, 0, program.classes@.len() as int);
        }
        let finalizer_displacement = match entry_displacement(entry_count, "complete finalizer table") {
            Ok(displacement) => displacement,
            Err(error) => return Err(error),
        };
        Ok(DispatchMetadata { tables, interface_starts, finalizer_displacement })
    }

    pub fn table_symbol(&self, class: ClassId) -> (r: String)
        requires
            class.idx < self.tables@.len(),
        ensures
            r@ == dispatch_table_text(class),
    {
        dispatch_table(class)
    }

    pub fn slot_displacement(slot: VirtualSlotId) -> (r: Result<i32, BackendError>)
        ensures
            match spec_entry_displacement(slot.idx as int) {
                Some(displacement) => r == Ok::<i32, BackendError>(displacement),
                None => r matches Err(error) && error_is(
                    error,
                    None,
                    displacement_message("virtual table"@),
                ),
            },
    {
        entry_displacement(slot.index(), "virtual table")
    }

    pub fn requirement_displacement(&self, requirement: InterfaceRequirementId) -> (r: Result<
        i32,
        BackendError,
    >)
        requires
            requirement.owner.idx < self.interface_starts@.len(),
        ensures
            ({
                let index = self.interface_starts@[requirement.owner.idx as int] + requirement.idx;
                if index <= usize::MAX && spec_entry_displacement(index) is Some {
                    r == Ok::<i32, BackendError>(spec_entry_displacement(index).unwrap())
                } else {
                    r matches Err(error) && error_is(
                        error,
                        None,
                        displacement_message("interface witness table"@),
                    )
                }
            }),
    {
        let index = match self.interface_starts[requirement.interface().index()].checked_add(
            requirement.index(),
        ) {
            Some(index) => index,
            None => return Err(displacement_error("interface witness table")),
        };
        entry_displacement(index, "interface witness table")
    }

    pub fn classes_providing_view(&self, program: &MirProgram, target: MirViewTarget) -> (r: Vec<
        ClassId,
    >)
        ensures
            r@ == spec_classes_providing_view(program, program.classes@, target),
    {
        let classes = &program.classes;
        let mut result: Vec<ClassId> = Vec::new();
        let mut i: usize = 0;
        while i < classes.len()
            invariant
                classes@ == program.classes@,
                i <= classes@.len(),
                result@ == spec_classes_providing_view(program, classes@.take(i as int), target),
            decreases classes@.len() - i,
        {
            let id = classes[i].id;
            assert(classes@.take((i + 1) as int).drop_last() =~= classes@.take(i as int));
            assert(classes@.take((i + 1) as int).last().id == id);
            let provides = match target {
                MirViewTarget::Class(view) => id == view || program.is_ancestor(view, id),
                MirViewTarget::Interface(interface) => program.conforms_to(id, interface),
                MirViewTarget::Obj => true,
            };
            if provides {
                result.push(id);
            }
            i = i + 1;
        }
        assert(classes@.take(classes@.len() as int) =~= classes@);
        result
    }

    pub fn assembly_tables(&self, program: &MirProgram) -> (r: Vec<AssemblyDispatchTable>)
        requires
            self.finalizer_displacement >= 0,
        ensures
            r@.len() == self.tables@.len() + program.array_types@.len(),
            forall|i: int|
                0 <= i < self.tables@.len() ==> class_table_rendered(
                    #[trigger] r@[i],
                    i,
                    self.tables@[i]@,
                ),
            forall|a: int|
                0 <= a < program.array_types@.len() ==> array_table_rendered(
                    #[trigger] r@[self.tables@.len() + a],
                    program.array_types@[a].id,
                    self.finalizer_displacement as int / 8,
                ),
    {
        let mut result: Vec<AssemblyDispatchTable> = Vec::new();
        let mut i: usize = 0;
        while i < self.tables.len()
            invariant
                i <= self.tables@.len(),
                result@.len() == i,
                forall|k: int|
                    0 <= k < i ==> class_table_rendered(#[trigger] result@[k], k, self.tables@[k]@),
            decreases self.tables@.len() - i,
        {
            let class = ClassId::new(i);
            let table = &self.tables[i];
            let mut entries: Vec<Option<String>> = Vec::new();
            let mut k: usize = 0;
            while k < table.len()
                invariant
                    k <= table@.len(),
                    entries@.len() == k,
                    forall|m: int|
                        0 <= m < k ==> entry_rendered(#[trigger] entries@[m], table@[m]),
                decreases table@.len() - k,
            {
                let entry = match table[k] {
                    Some(method) => Some(callable(crate::identity::CallableId::Method(method))),
                    None => None,
                };
                entries.push(entry);
                k = k + 1;
            }
            entries.push(Some(complete_finalizer(class)));
            result.push(AssemblyDispatchTable { symbol: dispatch_table(class), entries });
            i = i + 1;
        }
        let slots = (self.finalizer_displacement as usize) / 8;
        let mut a: usize = 0;
        while a < program.array_types.len()
            invariant
                a <= program.array_types@.len(),
                slots == self.finalizer_displacement as int / 8,
                result@.len() == self.tables@.len() + a,
                forall|k: int|
                    0 <= k < self.tables@.len() ==> class_table_rendered(
                        #[trigger] result@[k],
                        k,
                        self.tables@[k]@,
                    ),
                forall|m: int|
                    0 <= m < a ==> array_table_rendered(
                        #[trigger] result@[self.tables@.len() + m],
                        program.array_types@[m].id,
                        slots as int,
                    ),
            decreases program.array_types@.len() - a,
        {
            let array = program.array_types[a].id;
            let mut entries: Vec<Option<String>> = Vec::new();
            let mut k: usize = 0;
            while k < slots
                invariant
                    k <= slots,
                    entries@.len() == k,
                    forall|m: int| 0 <= m < k ==> #[trigger] entries@[m] is None,
                decreases slots - k,
            {
                entries.push(None);
                k = k + 1;
            }
            entries.push(Some(shared_array_finalizer(array)));
            result.push(AssemblyDispatchTable { symbol: shared_array_metadata(array), entries });
            a = a + 1;
        }
        result
    }

    pub fn finalizer_displacement(&self) -> (r: i32)
        ensures
            r == self.finalizer_displacement,
    {
        self.finalizer_displacement
    }
}

} // verus!
