//! Checks that an input program has the shape that the target checks,
//! layouts and dispatch tables rely on.

use vstd::prelude::*;

use crate::array_legality::blocks_terminated;
use crate::body::{MirCallTarget, MirInstruction, MirMethodCallTarget, MirSelectedCopyOperation};
use crate::dispatch::dispatch_declarations_wf;
use crate::error::{BackendError, error_is, x86_error};
use crate::identity::{CallableId, ClassId, FieldId};
use crate::layout::fields_have_storage;
use crate::legality::{
    definitions_declared, has_definition, instruction_declared, instruction_member,
    member_declared,
};
use crate::mir::{
    MirConformance, MirDefinition, MirProgram, MirType, program_ids_dense, spec_signature_index,
    static_fields_unique,
};

verus! {

/// The input program is well formed for the target: static fields are
/// distinct, declarations are densely numbered and refer to declared
/// interfaces, fields have storage, and every definition is terminated and
/// refers only to declared callables.
pub open spec fn input_well_formed(program: &MirProgram) -> bool {
    &&& static_fields_unique(program)
    &&& dispatch_declarations_wf(program)
    &&& fields_have_storage(program)
    &&& definitions_declared(program)
}

pub open spec fn input_failure_message() -> Seq<char> {
    "input MIR failed verification"@
}

fn static_fields_distinct(program: &MirProgram) -> (r: bool)
    ensures
        r == static_fields_unique(program),
{
    let count = program.static_fields.len();
    let mut a: usize = 0;
    while a < count
        invariant
            count == program.static_fields@.len(),
            a <= count,
            forall|i: int, j: int|
                0 <= i < a && 0 <= j < count && #[trigger] program.static_fields@[i].id
                    == #[trigger] program.static_fields@[j].id ==> i == j,
        decreases count - a,
    {
        let mut b: usize = 0;
        while b < count
            invariant
                count == program.static_fields@.len(),
                a < count,
                b <= count,
                forall|j: int|
                    0 <= j < b && program.static_fields@[a as int].id
                        == #[trigger] program.static_fields@[j].id ==> a == j,
            decreases count - b,
        {
            if b != a && program.static_fields[a].id == program.static_fields[b].id {
                return false;
            }
            b = b + 1;
        }
        proof {
            assert forall|i: int, j: int|
                0 <= i < a + 1 && 0 <= j < count && #[trigger] program.static_fields@[i].id
                    == #[trigger] program.static_fields@[j].id implies i == j by {
                if i == a {
                    assert(program.static_fields@[a as int].id == program.static_fields@[j].id);
                } else {
                    assert(program.static_fields@[j].id == program.static_fields@[i].id);
                }
            }
        }
        a = a + 1;
    }
    true
}

fn ids_dense(program: &MirProgram) -> (r: bool)
    ensures
        r == program_ids_dense(program),
{
    let mut c: usize = 0;
    while c < program.classes.len()
        invariant
            c <= program.classes@.len(),
            forall|i: int| 0 <= i < c ==> (#[trigger] program.classes@[i]).id.idx == i,
            forall|i: int, j: int|
                0 <= i < c && 0 <= j < program.classes@[i].fields@.len() ==> (
                #[trigger] program.classes@[i].fields@[j]).id == (FieldId {
                    owner: ClassId { idx: i as usize },
                    idx: j as usize,
                }),
        decreases program.classes@.len() - c,
    {
        if program.classes[c].id.index() != c {
            return false;
        }
        let mut f: usize = 0;
        while f < program.classes[c].fields.len()
            invariant
                c < program.classes@.len(),
                f <= program.classes@[c as int].fields@.len(),
                forall|j: int|
                    0 <= j < f ==> (#[trigger] program.classes@[c as int].fields@[j]).id == (FieldId {
                        owner: ClassId { idx: c },
                        idx: j as usize,
                    }),
            decreases program.classes@[c as int].fields@.len() - f,
        {
            let expected = FieldId::new(ClassId::new(c), f);
            if program.classes[c].fields[f].id != expected {
                return false;
            }
            f = f + 1;
        }
        c = c + 1;
    }
    let mut a: usize = 0;
    while a < program.array_types.len()
        invariant
            a <= program.array_types@.len(),
            forall|i: int| 0 <= i < program.classes@.len() ==> (#[trigger] program.classes@[i]).id.idx == i,
            forall|i: int, j: int|
                0 <= i < program.classes@.len() && 0 <= j < program.classes@[i].fields@.len() ==> (
                #[trigger] program.classes@[i].fields@[j]).id == (FieldId {
                    owner: ClassId { idx: i as usize },
                    idx: j as usize,
                }),
            forall|i: int| 0 <= i < a ==> (#[trigger] program.array_types@[i]).id.idx == i,
        decreases program.array_types@.len() - a,
    {
        if program.array_types[a].id.index() != a {
            return false;
        }
        a = a + 1;
    }
    true
}

fn conformance_declared(program: &MirProgram, conformance: &MirConformance) -> (r: bool)
    ensures
        r == {
            &&& conformance.interface.idx < program.interfaces@.len()
            &&& forall|j: int|
                0 <= j < conformance.implementations@.len() ==> (
                #[trigger] conformance.implementations@[j]).requirement.idx
                    < program.interfaces@[conformance.interface.idx as int].requirements@.len()
        },
{
    let interface = conformance.interface.index();
    if interface >= program.interfaces.len() {
        return false;
    }
    let count = program.interfaces[interface].requirements.len();
    let mut j: usize = 0;
    while j < conformance.implementations.len()
        invariant
            interface == conformance.interface.idx,
            interface < program.interfaces@.len(),
            count == program.interfaces@[interface as int].requirements@.len(),
            j <= conformance.implementations@.len(),
            forall|k: int|
                0 <= k < j ==> (#[trigger] conformance.implementations@[k]).requirement.idx < count,
        decreases conformance.implementations@.len() - j,
    {
        if conformance.implementations[j].requirement.idx >= count {
            return false;
        }
        j = j + 1;
    }
    true
}

fn declarations_wf(program: &MirProgram) -> (r: bool)
    ensures
        r == dispatch_declarations_wf(program),
{
    if !ids_dense(program) {
        return false;
    }
    let families = program.virtual_families.len();
    let mut f: usize = 0;
    while f < families
        invariant
            families == program.virtual_families@.len(),
            f <= families,
            forall|i: int| 0 <= i < f ==> (#[trigger] program.virtual_families@[i]).slot.idx < families,
        decreases families - f,
    {
        if program.virtual_families[f].slot.idx >= families {
            return false;
        }
        f = f + 1;
    }
    let mut c: usize = 0;
    while c < program.classes.len()
        invariant
            program_ids_dense(program),
            families == program.virtual_families@.len(),
            forall|i: int|
                0 <= i < families ==> (#[trigger] program.virtual_families@[i]).slot.idx < families,
            c <= program.classes@.len(),
            forall|i: int, k: int|
                0 <= i < c && 0 <= k < program.classes@[i].conformances@.len() ==> {
                    let conformance = #[trigger] program.classes@[i].conformances@[k];
                    &&& conformance.interface.idx < program.interfaces@.len()
                    &&& forall|j: int|
                        0 <= j < conformance.implementations@.len() ==> (
                        #[trigger] conformance.implementations@[j]).requirement.idx
                            < program.interfaces@[conformance.interface.idx as int].requirements@.len()
                },
        decreases program.classes@.len() - c,
    {
        let mut k: usize = 0;
        while k < program.classes[c].conformances.len()
            invariant
                c < program.classes@.len(),
                k <= program.classes@[c as int].conformances@.len(),
                forall|m: int|
                    0 <= m < k ==> {
                        let conformance = #[trigger] program.classes@[c as int].conformances@[m];
                        &&& conformance.interface.idx < program.interfaces@.len()
                        &&& forall|j: int|
                            0 <= j < conformance.implementations@.len() ==> (
                            #[trigger] conformance.implementations@[j]).requirement.idx
                                < program.interfaces@[conformance.interface.idx as int].requirements@.len()
                    },
            decreases program.classes@[c as int].conformances@.len() - k,
        {
            if !conformance_declared(program, &program.classes[c].conformances[k]) {
                return false;
            }
            k = k + 1;
        }
        c = c + 1;
    }
    true
}

fn fields_stored(program: &MirProgram) -> (r: bool)
    ensures
        r == fields_have_storage(program),
{
    let mut c: usize = 0;
    while c < program.classes.len()
        invariant
            c <= program.classes@.len(),
            forall|i: int, j: int|
                0 <= i < c && 0 <= j < program.classes@[i].fields@.len() ==> {
                    let ty = (#[trigger] program.classes@[i].fields@[j]).ty;
                    !(ty is Obj) && !(ty is Interface)
                },
        decreases program.classes@.len() - c,
    {
        let mut f: usize = 0;
        while f < program.classes[c].fields.len()
            invariant
                c < program.classes@.len(),
                f <= program.classes@[c as int].fields@.len(),
                forall|j: int|
                    0 <= j < f ==> {
                        let ty = (#[trigger] program.classes@[c as int].fields@[j]).ty;
                        !(ty is Obj) && !(ty is Interface)
                    },
            decreases program.classes@[c as int].fields@.len() - f,
        {
            match program.classes[c].fields[f].ty {
                MirType::Obj | MirType::Interface(_) => {
                    return false;
                },
                _ => {},
            }
            f = f + 1;
        }
        c = c + 1;
    }
    true
}

fn member_of(instruction: &MirInstruction) -> (r: Option<CallableId>)
    ensures
        r == instruction_member(*instruction),
{
    match instruction {
        MirInstruction::Initialize { target } => Some(*target),
        MirInstruction::SharedInitialize { target } => Some(*target),
        MirInstruction::Call { target } => match target {
            MirCallTarget::Method(MirMethodCallTarget::Direct(method)) => Some(
                CallableId::Method(*method),
            ),
            MirCallTarget::Method(MirMethodCallTarget::Virtual { selected, .. }) => Some(
                CallableId::Method(*selected),
            ),
            MirCallTarget::Static(method) => Some(CallableId::Method(*method)),
            _ => None,
        },
        MirInstruction::CopyConstruct { operation } => match operation {
            MirSelectedCopyOperation::User(target) => Some(*target),
            _ => None,
        },
        MirInstruction::CopyAssign { operation } => match operation {
            MirSelectedCopyOperation::User(target) => Some(*target),
            _ => None,
        },
        _ => None,
    }
}

fn target_declared(program: &MirProgram, target: CallableId) -> (r: bool)
    ensures
        r == member_declared(program, target),
{
    match target {
        CallableId::Function(_) | CallableId::StaticInitializer(_) => false,
        _ => !has_definition(program, target) || program.signature_index(target).is_some(),
    }
}

fn instruction_ok(program: &MirProgram, instruction: &MirInstruction) -> (r: bool)
    ensures
        r == instruction_declared(program, *instruction),
{
    reveal(instruction_declared);
    match member_of(instruction) {
        Some(target) => {
            if !target_declared(program, target) {
                return false;
            }
        },
        None => {},
    }
    match instruction {
        MirInstruction::Call { target: MirCallTarget::Direct(function) } => program.signature_index(
            CallableId::Function(*function),
        ).is_some(),
        MirInstruction::Call { target: MirCallTarget::Interface(requirement) } => {
            let owner = requirement.owner.index();
            owner < program.interfaces.len() && requirement.idx
                < program.interfaces[owner].requirements.len()
        },
        _ => true,
    }
}

fn definition_ok(program: &MirProgram, definition: &MirDefinition) -> (r: bool)
    ensures
        r == {
            &&& blocks_terminated(definition)
            &&& spec_signature_index(program, definition.callable) is Some
            &&& forall|b: int, i: int|
                0 <= b < definition.blocks@.len() && 0 <= i
                    < definition.blocks@[b].instructions@.len() ==> instruction_declared(
                    program,
                    #[trigger] definition.blocks@[b].instructions@[i],
                )
        },
{
    if program.signature_index(definition.callable).is_none() {
        return false;
    }
    let mut b: usize = 0;
    while b < definition.blocks.len()
        invariant
            b <= definition.blocks@.len(),
            spec_signature_index(program, definition.callable) is Some,
            forall|k: int| 0 <= k < b ==> (#[trigger] definition.blocks@[k]).terminator is Some,
            forall|k: int, i: int|
                0 <= k < b && 0 <= i < definition.blocks@[k].instructions@.len()
                    ==> instruction_declared(
                    program,
                    #[trigger] definition.blocks@[k].instructions@[i],
                ),
        decreases definition.blocks@.len() - b,
    {
        if definition.blocks[b].terminator.is_none() {
            return false;
        }
        let mut i: usize = 0;
        while i < definition.blocks[b].instructions.len()
            invariant
                b < definition.blocks@.len(),
                i <= definition.blocks@[b as int].instructions@.len(),
                forall|m: int|
                    0 <= m < i ==> instruction_declared(
                        program,
                        #[trigger] definition.blocks@[b as int].instructions@[m],
                    ),
            decreases definition.blocks@[b as int].instructions@.len() - i,
        {
            if !instruction_ok(program, &definition.blocks[b].instructions[i]) {
                return false;
            }
            i = i + 1;
        }
        b = b + 1;
    }
    true
}

fn definitions_ok(program: &MirProgram) -> (r: bool)
    ensures
        r == definitions_declared(program),
{
    let definitions = program.executable_definitions();
    let mut d: usize = 0;
    while d < definitions.len()
        invariant
            definitions@ == program.definitions@,
            d <= definitions@.len(),
            forall|k: int| 0 <= k < d ==> blocks_terminated(&#[trigger] program.definitions@[k]),
            forall|k: int|
                #![trigger program.definitions@[k]]
                0 <= k < d ==> {
                    let definition = program.definitions@[k];
                    &&& spec_signature_index(program, definition.callable) is Some
                    &&& forall|b: int, i: int|
                        0 <= b < definition.blocks@.len() && 0 <= i
                            < definition.blocks@[b].instructions@.len() ==> instruction_declared(
                            program,
                            #[trigger] definition.blocks@[b].instructions@[i],
                        )
                },
        decreases definitions@.len() - d,
    {
        if !definition_ok(program, &definitions[d]) {
            return false;
        }
        d = d + 1;
    }
    true
}

/// Checks the input program's well-formedness, reporting a failure as the
/// target's input diagnostic.
pub fn verify_input(program: &MirProgram) -> (r: Result<(), BackendError>)
    ensures
        r is Ok <==> input_well_formed(program),
        r matches Err(error) ==> error_is(error, None, input_failure_message()),
{
    if static_fields_distinct(program) && declarations_wf(program) && fields_stored(program)
        && definitions_ok(program) {
        Ok(())
    } else {
        Err(x86_error(None, "input MIR failed verification"))
    }
}

} // verus!
