//! Destruction-plan queries: whether destroying a class can run user code.

use vstd::prelude::*;

use crate::identity::ClassId;
use crate::mir::{
    MirDestructionStep, MirProgram, MirType, class_fields_unique, spec_class_field,
};

verus! {

/// Every class that examining `class` visits, given the classes already
/// being examined, has a plan that names only fields it declares.
pub open spec fn plans_declared_from(program: &MirProgram, class: ClassId, visiting: Seq<ClassId>) -> bool
    decreases program.classes@.len() - visiting.len(), 0nat,
{
    if visiting.contains(class) || visiting.len() >= program.classes@.len() {
        true
    } else {
        &&& class.idx < program.classes@.len()
        &&& plan_declared(program, &program.classes@[class.idx as int])
        &&& steps_declared(
            program,
            class,
            program.classes@[class.idx as int].destruction@,
            visiting.push(class),
        )
    }
}

/// Every class a plan's steps examine has a declared plan.
pub open spec fn steps_declared(
    program: &MirProgram,
    class: ClassId,
    steps: Seq<MirDestructionStep>,
    visiting: Seq<ClassId>,
) -> bool
    decreases program.classes@.len() - visiting.len(), steps.len() + 2,
{
    if steps.len() == 0 || class.idx >= program.classes@.len() {
        true
    } else {
        steps_declared(program, class, steps.drop_last(), visiting) && step_declared(
            program,
            class,
            steps.last(),
            visiting,
        )
    }
}

/// The class one step examines, if any, has a declared plan.
pub open spec fn step_declared(
    program: &MirProgram,
    class: ClassId,
    step: MirDestructionStep,
    visiting: Seq<ClassId>,
) -> bool
    decreases program.classes@.len() - visiting.len(), 1nat,
{
    if class.idx >= program.classes@.len() {
        true
    } else {
        match step {
            MirDestructionStep::Field(field) => match spec_class_field(
                &program.classes@[class.idx as int],
                field,
            ) {
                Some(declared) => match declared.ty {
                    MirType::Class(inner) => plans_declared_from(program, inner, visiting),
                    _ => true,
                },
                None => true,
            },
            MirDestructionStep::OptionalClassField(field) => match spec_class_field(
                &program.classes@[class.idx as int],
                field,
            ) {
                Some(declared) => match declared.ty {
                    MirType::OptionalClass(inner) => plans_declared_from(program, inner, visiting),
                    _ => true,
                },
                None => true,
            },
            MirDestructionStep::Base(base) => plans_declared_from(program, base, visiting),
            _ => true,
        }
    }
}

proof fn lemma_step_declared(
    program: &MirProgram,
    class: ClassId,
    steps: Seq<MirDestructionStep>,
    visiting: Seq<ClassId>,
    s: int,
)
    requires
        steps_declared(program, class, steps, visiting),
        class.idx < program.classes@.len(),
        0 <= s < steps.len(),
    ensures
        step_declared(program, class, steps[s], visiting),
    decreases steps.len(),
{
    if s < steps.len() - 1 {
        lemma_step_declared(program, class, steps.drop_last(), visiting, s);
        assert(steps.drop_last()[s] == steps[s]);
    }
}

/// The plan of one class names only fields it declares.
pub open spec fn plan_declared(program: &MirProgram, class: &crate::mir::MirClass) -> bool {
    &&& class_fields_unique(class)
    &&& forall|s: int|
        0 <= s < class.destruction@.len() ==> match #[trigger] class.destruction@[s] {
            MirDestructionStep::UserBody(_) => true,
            MirDestructionStep::Field(field) => spec_class_field(class, field) is Some,
            MirDestructionStep::SharedField(field) => spec_class_field(class, field) is Some,
            MirDestructionStep::OptionalSharedField(field) => spec_class_field(class, field) is Some,
            MirDestructionStep::OptionalClassField(field) => spec_class_field(class, field) is Some,
            MirDestructionStep::Base(base) => base.idx < program.classes@.len(),
        }
    &&& forall|f: int|
        0 <= f < class.fields@.len() ==> match #[trigger] class.fields@[f].ty {
            MirType::Class(inner) => inner.idx < program.classes@.len(),
            MirType::OptionalClass(inner) => inner.idx < program.classes@.len(),
            _ => true,
        }
}

/// Whether destroying `class` needs run-time work: it runs user code or
/// releases a shared owner (whose last release runs a finalizer), given the
/// classes whose destruction is already being examined. A class met again on that path
/// is an inline cycle, which verification rejects earlier; it contributes
/// no work.
pub open spec fn class_work(program: &MirProgram, class: ClassId, visiting: Seq<ClassId>) -> bool
    decreases program.classes@.len() - visiting.len(), 0nat,
{
    if visiting.contains(class) || class.idx >= program.classes@.len() || visiting.len()
        >= program.classes@.len() {
        false
    } else {
        steps_work(
            program,
            class,
            program.classes@[class.idx as int].destruction@,
            visiting.push(class),
        )
    }
}

/// Whether any of the steps of `class`'s plan can run user code.
pub open spec fn steps_work(
    program: &MirProgram,
    class: ClassId,
    steps: Seq<MirDestructionStep>,
    visiting: Seq<ClassId>,
) -> bool
    decreases program.classes@.len() - visiting.len(), steps.len(),
{
    if steps.len() == 0 || class.idx >= program.classes@.len() {
        false
    } else {
        steps_work(program, class, steps.drop_last(), visiting) || match steps.last() {
            MirDestructionStep::UserBody(_) => true,
            MirDestructionStep::Field(field) => match spec_class_field(
                &program.classes@[class.idx as int],
                field,
            ) {
                Some(declared) => match declared.ty {
                    MirType::Class(inner) => class_work(program, inner, visiting),
                    _ => false,
                },
                None => false,
            },
            MirDestructionStep::SharedField(_) => true,
            MirDestructionStep::OptionalSharedField(_) => true,
            MirDestructionStep::OptionalClassField(field) => match spec_class_field(
                &program.classes@[class.idx as int],
                field,
            ) {
                Some(declared) => match declared.ty {
                    MirType::OptionalClass(inner) => class_work(program, inner, visiting),
                    _ => false,
                },
                None => false,
            },
            MirDestructionStep::Base(base) => class_work(program, base, visiting),
        }
    }
}

proof fn lemma_distinct_classes_bounded(visiting: Seq<ClassId>, count: nat)
    requires
        visiting.no_duplicates(),
        forall|i: int| 0 <= i < visiting.len() ==> (#[trigger] visiting[i]).idx < count,
    ensures
        visiting.len() <= count,
{
    let indices = visiting.map_values(|c: ClassId| c.idx as int);
    assert forall|i: int, j: int|
        0 <= i < indices.len() && 0 <= j < indices.len() && i != j implies indices[i]
        != indices[j] by {
        if indices[i] == indices[j] {
            assert(visiting[i] == visiting[j]);
        }
    }
    assert(indices.no_duplicates());
    indices.unique_seq_to_set();
    vstd::set_lib::lemma_int_range(0, count as int);
    assert(indices.to_set().subset_of(vstd::set_lib::set_int_range(0, count as int)));
    vstd::set_lib::lemma_len_subset(indices.to_set(), vstd::set_lib::set_int_range(0, count as int));
}

fn is_visiting(visiting: &Vec<ClassId>, class: ClassId) -> (r: bool)
    ensures
        r == visiting@.contains(class),
{
    let mut i: usize = 0;
    while i < visiting.len()
        invariant
            i <= visiting@.len(),
            forall|k: int| 0 <= k < i ==> visiting@[k] != class,
        decreases visiting@.len() - i,
    {
        if visiting[i] == class {
            assert(visiting@[i as int] == class);
            return true;
        }
        i = i + 1;
    }
    false
}

/// Whether destroying `class` needs run-time work, skipping the classes
/// already being examined on the current path.
pub fn requires_runtime_work_inner(
    program: &MirProgram,
    class: ClassId,
    visiting: &mut Vec<ClassId>,
) -> (r: bool)
    requires
        plans_declared_from(program, class, old(visiting)@),
        class.idx < program.classes@.len(),
        old(visiting)@.no_duplicates(),
        forall|i: int| 0 <= i < old(visiting)@.len() ==> (#[trigger] old(visiting)@[i]).idx
            < program.classes@.len(),
    ensures
        final(visiting)@ == old(visiting)@,
        r == class_work(program, class, old(visiting)@),
    decreases program.classes@.len() - old(visiting)@.len(),
{
    if is_visiting(visiting, class) {
        return false;
    }
    let ghost before = visiting@;
    proof {
        assert(before.push(class).no_duplicates()) by {
            assert forall|i: int, j: int|
                0 <= i < before.len() + 1 && 0 <= j < before.len() + 1 && i != j implies before.push(
                class,
            )[i] != before.push(class)[j] by {
                if i == before.len() as int {
                    assert(before.push(class)[j] == before[j]);
                } else if j == before.len() as int {
                    assert(before.push(class)[i] == before[i]);
                }
            }
        }
        lemma_distinct_classes_bounded(before.push(class), program.classes@.len());
    }
    visiting.push(class);
    let declaration = &program.classes[class.index()];
    let steps = &declaration.destruction;
    let mut result = false;
    let mut s: usize = 0;
    while s < steps.len()
        invariant
            class.idx < program.classes@.len(),
            *declaration == program.classes@[class.idx as int],
            plan_declared(program, declaration),
            steps_declared(program, class, steps@, before.push(class)),
            steps@ == declaration.destruction@,
            visiting@ == before.push(class),
            old(visiting)@ == before,
            visiting@.no_duplicates(),
            before.len() < program.classes@.len(),
            forall|i: int| 0 <= i < visiting@.len() ==> (#[trigger] visiting@[i]).idx
                < program.classes@.len(),
            s <= steps@.len(),
            result == steps_work(program, class, steps@.take(s as int), before.push(class)),
        decreases steps@.len() - s,
    {
        let ghost taken = steps@.take((s + 1) as int);
        assert(taken.drop_last() =~= steps@.take(s as int));
        assert(taken.last() == steps@[s as int]);
        proof {
            lemma_step_declared(program, class, steps@, visiting@, s as int);
        }
        let step_work = match steps[s] {
            MirDestructionStep::UserBody(_) => true,
            MirDestructionStep::Field(field) => {
                assert(class_fields_unique(declaration));
                match declaration.field(field) {
                    Some(declared) => match declared.ty {
                        MirType::Class(inner) => {
                            proof {
                                let k = choose|k: int|
                                    0 <= k < declaration.fields@.len() && (
                                    #[trigger] declaration.fields@[k]).id == field;
                                assert(declaration.fields@[k].ty == declared.ty);
                            }
                            requires_runtime_work_inner(program, inner, visiting)
                        },
                        _ => false,
                    },
                    None => false,
                }
            },
            MirDestructionStep::SharedField(_) => true,
            MirDestructionStep::OptionalSharedField(_) => true,
            MirDestructionStep::OptionalClassField(field) => {
                assert(class_fields_unique(declaration));
                match declaration.field(field) {
                    Some(declared) => match declared.ty {
                        MirType::OptionalClass(inner) => {
                            proof {
                                let k = choose|k: int|
                                    0 <= k < declaration.fields@.len() && (
                                    #[trigger] declaration.fields@[k]).id == field;
                                assert(declaration.fields@[k].ty == declared.ty);
                            }
                            requires_runtime_work_inner(program, inner, visiting)
                        },
                        _ => false,
                    },
                    None => false,
                }
            },
            MirDestructionStep::Base(base) => requires_runtime_work_inner(program, base, visiting),
        };
        result = result || step_work;
        s = s + 1;
    }
    assert(steps@.take(steps@.len() as int) =~= steps@);
    visiting.pop();
    assert(visiting@ =~= before);
    result
}

/// Whether destroying `class` needs run-time work: some step of its plan,
/// or of a plan it runs, executes a user destructor body or releases a
/// shared owner. Cleanup of a class whose plan needs none selects no
/// machine instructions.
pub fn requires_runtime_work(program: &MirProgram, class: ClassId) -> (r: bool)
    requires
        class.idx < program.classes@.len(),
        plans_declared_from(program, class, Seq::empty()),
    ensures
        r == class_work(program, class, Seq::empty()),
{
    let mut visiting: Vec<ClassId> = Vec::new();
    requires_runtime_work_inner(program, class, &mut visiting)
}

} // verus!
