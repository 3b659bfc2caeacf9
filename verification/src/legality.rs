//! Target legality checks performed before instruction selection.
//!
//! A program is selectable when its arrays are inside the executable
//! profile, its dispatch tables and data layout exist, and every call,
//! allocation, copy and cast of every definition fits the x86-64 ABI and
//! the operations this target implements.

use vstd::prelude::*;

use crate::abi::{CallLayout, layout_matches, spec_call_layout};
use crate::array_legality::{definitions_terminated, spec_check};
use crate::input_check::{input_failure_message, input_well_formed, verify_input};
use crate::body::{
    MirBlock, MirCallTarget, MirInstruction, MirMethodCallTarget, MirOptionalSource,
    MirPrimitiveCast, MirPrimitiveCastKind, MirRvalueKind, MirSelectedCopyOperation,
    MirSharedAllocationTarget,
};
use crate::dispatch::{
    DispatchMetadata, dispatch_declarations_wf, dispatch_is, spec_dispatch_error, spec_dispatch_succeeds,
};
use crate::error::{BackendError, Target, error_is};
use crate::identity::{CallableId, ClassId, InterfaceRequirementId};
use crate::layout::{
    DataLayout, class_layout_is, class_model, data_layout_consistent, data_layout_wf,
    fields_have_storage, spec_layouts_succeed, spec_shared_allocation_size,
};
use crate::mir::{
    MirCallableSignature, MirDefinition, MirInterfaceRequirement, MirMethodKind, MirParameter,
    MirPlaceBase, MirPrimitiveType, MirProgram, MirSharedTarget, MirType, program_ids_dense,
    spec_method, spec_signature_index, static_fields_unique,
};
use crate::text::{decimal, decimal_text};

verus! {

/// The diagnostic text of an argument area that the ABI cannot encode.
pub open spec fn abi_limit_message(area: Seq<char>) -> Seq<char> {
    area + " exceeds the x86-64 ABI encoding limits"@
}

/// A diagnostic for an argument area beyond the ABI's encoding limits.
pub fn abi_limit(function: CallableId, area: &str) -> (r: BackendError)
    ensures
        error_is(r, Some(function), abi_limit_message(area@)),
{
    let mut message = String::from_str(area);
    message.append(" exceeds the x86-64 ABI encoding limits");
    BackendError::new(Target::X86_64SysV, Some(function), message)
}

/// Classifies a parameter list, with or without a hidden receiver.
pub fn classify(parameters: &Vec<MirParameter>, has_receiver: bool) -> (r: Option<CallLayout>)
    ensures
        layout_matches(r, spec_call_layout(parameters@, has_receiver, false)),
{
    if has_receiver {
        CallLayout::classify_with_receiver(parameters)
    } else {
        CallLayout::classify(parameters)
    }
}

/// Whether the target implements a primitive cast: every kind but the
/// checked float-to-integer conversion.
pub fn primitive_cast_is_supported(operation: MirPrimitiveCast) -> (r: bool)
    ensures
        r == !(operation.kind is CheckedF64ToInteger),
{
    match operation.kind() {
        MirPrimitiveCastKind::Identity
        | MirPrimitiveCastKind::IntegerBits
        | MirPrimitiveCastKind::BitReinterpretation => true,
        MirPrimitiveCastKind::ToBool | MirPrimitiveCastKind::FromBool => true,
        MirPrimitiveCastKind::ToF64 => true,
        MirPrimitiveCastKind::CheckedF64ToInteger => false,
    }
}

pub open spec fn primitive_name_text(ty: MirPrimitiveType) -> Seq<char> {
    match ty {
        MirPrimitiveType::I64 => "i64"@,
        MirPrimitiveType::U64 => "u64"@,
        MirPrimitiveType::U8 => "u8"@,
        MirPrimitiveType::F64 => "f64"@,
        MirPrimitiveType::Bool => "bool"@,
    }
}

fn primitive_name(ty: MirPrimitiveType) -> (r: &'static str)
    ensures
        r@ == primitive_name_text(ty),
{
    match ty {
        MirPrimitiveType::I64 => "i64",
        MirPrimitiveType::U64 => "u64",
        MirPrimitiveType::U8 => "u8",
        MirPrimitiveType::F64 => "f64",
        MirPrimitiveType::Bool => "bool",
    }
}

pub open spec fn cast_message(operation: MirPrimitiveCast) -> Seq<char> {
    "primitive cast `"@ + primitive_name_text(operation.source) + " -> "@ + primitive_name_text(
        operation.target,
    ) + "` is not yet supported by this target"@
}

/// The diagnostic spelling of a callable.
pub open spec fn callable_display_text(callable: CallableId) -> Seq<char> {
    match callable {
        CallableId::Function(function) => "function "@ + decimal_text(function.idx as nat),
        CallableId::Method(method) => "method "@ + decimal_text(method.owner.idx as nat) + "."@
            + decimal_text(method.idx as nat),
        CallableId::Initializer(class, index) => "initializer "@ + decimal_text(class.idx as nat)
            + "."@ + decimal_text(index as nat),
        CallableId::CopyConstructor(class) => "copy constructor "@ + decimal_text(
            class.idx as nat,
        ),
        CallableId::CopyAssignment(class) => "copy assignment "@ + decimal_text(class.idx as nat),
        CallableId::Destructor(class) => "destructor "@ + decimal_text(class.idx as nat),
        CallableId::StaticInitializer(class) => "static initializer "@ + decimal_text(
            class.idx as nat,
        ),
    }
}

fn labelled(label: &str, value: usize) -> (r: String)
    ensures
        r@ == label@ + decimal_text(value as nat),
{
    let mut text = String::from_str(label);
    let digits = decimal(value as u64);
    text.append(digits.as_str());
    text
}

fn labelled_pair(label: &str, first: usize, second: usize) -> (r: String)
    ensures
        r@ == label@ + decimal_text(first as nat) + "."@ + decimal_text(second as nat),
{
    let mut text = labelled(label, first);
    text.append(".");
    let digits = decimal(second as u64);
    text.append(digits.as_str());
    text
}

fn callable_display(callable: CallableId) -> (r: String)
    ensures
        r@ == callable_display_text(callable),
{
    match callable {
        CallableId::Function(function) => labelled("function ", function.idx),
        CallableId::Method(method) => labelled_pair("method ", method.owner.idx, method.idx),
        CallableId::Initializer(class, index) => labelled_pair("initializer ", class.idx, index),
        CallableId::CopyConstructor(class) => labelled("copy constructor ", class.idx),
        CallableId::CopyAssignment(class) => labelled("copy assignment ", class.idx),
        CallableId::Destructor(class) => labelled("destructor ", class.idx),
        CallableId::StaticInitializer(class) => labelled("static initializer ", class.idx),
    }
}

/// Some definition has the given callable.
pub open spec fn spec_has_definition(program: &MirProgram, callable: CallableId) -> bool {
    exists|k: int|
        0 <= k < program.definitions@.len() && (#[trigger] program.definitions@[k]).callable
            == callable
}

/// The declared parameters of a callable with a signature.
pub open spec fn spec_parameters(program: &MirProgram, callable: CallableId) -> Seq<MirParameter> {
    program.signatures@[spec_signature_index(program, callable).unwrap()].parameters@
}

/// Whether calling a member passes a hidden receiver.
pub open spec fn member_has_receiver(program: &MirProgram, target: CallableId) -> bool {
    match target {
        CallableId::Method(method) => match spec_method(program, method) {
            Some(declared) => declared.kind is Instance,
            None => false,
        },
        _ => true,
    }
}

/// A member call target: a method or a receiver-taking class callable.
pub open spec fn is_member(target: CallableId) -> bool {
    !(target is Function) && !(target is StaticInitializer)
}

pub open spec fn missing_definition_message(target: CallableId) -> Seq<char> {
    "member call target "@ + callable_display_text(target) + " has no MIR definition"@
}

/// The diagnostic of a call to a member target, if any.
pub open spec fn member_error(program: &MirProgram, caller: CallableId, target: CallableId) -> Option<
    (Option<CallableId>, Seq<char>),
> {
    if !spec_has_definition(program, target) {
        Some((Some(caller), missing_definition_message(target)))
    } else if spec_call_layout(
        spec_parameters(program, target),
        member_has_receiver(program, target),
        false,
    ) is None {
        Some((Some(caller), abi_limit_message("outgoing argument area"@)))
    } else {
        None
    }
}

/// Targets that are checked have declarations: members are never free
/// functions, and a defined member has a signature.
pub open spec fn member_declared(program: &MirProgram, target: CallableId) -> bool {
    &&& is_member(target)
    &&& spec_has_definition(program, target) ==> spec_signature_index(program, target) is Some
}

/// The declared requirement with the given identity, if any.
pub open spec fn spec_requirement(program: &MirProgram, id: InterfaceRequirementId) -> Option<
    MirInterfaceRequirement,
> {
    if id.owner.idx < program.interfaces@.len() && id.idx < program.interfaces@[id.owner.idx as int].requirements@.len() {
        Some(program.interfaces@[id.owner.idx as int].requirements@[id.idx as int])
    } else {
        None
    }
}

/// The member callable a call reaches, if it calls a member.
pub open spec fn call_member(target: MirCallTarget) -> Option<CallableId> {
    match target {
        MirCallTarget::Method(MirMethodCallTarget::Direct(method)) => Some(
            CallableId::Method(method),
        ),
        MirCallTarget::Method(MirMethodCallTarget::Virtual { selected, .. }) => Some(
            CallableId::Method(selected),
        ),
        MirCallTarget::Static(method) => Some(CallableId::Method(method)),
        _ => None,
    }
}

/// The member callable an instruction reaches, if any.
pub open spec fn instruction_member(instruction: MirInstruction) -> Option<CallableId> {
    match instruction {
        MirInstruction::Initialize { target } => Some(target),
        MirInstruction::SharedInitialize { target } => Some(target),
        MirInstruction::Call { target } => call_member(target),
        MirInstruction::CopyConstruct { operation } => match operation {
            MirSelectedCopyOperation::User(target) => Some(target),
            _ => None,
        },
        MirInstruction::CopyAssign { operation } => match operation {
            MirSelectedCopyOperation::User(target) => Some(target),
            _ => None,
        },
        _ => None,
    }
}

/// Everything an instruction's check looks up is declared.
#[verifier::opaque]
pub open spec fn instruction_declared(program: &MirProgram, instruction: MirInstruction) -> bool {
    &&& match instruction_member(instruction) {
        Some(target) => member_declared(program, target),
        None => true,
    }
    &&& match instruction {
        MirInstruction::Call { target: MirCallTarget::Direct(function) } => spec_signature_index(
            program,
            CallableId::Function(function),
        ) is Some,
        MirInstruction::Call { target: MirCallTarget::Interface(requirement) } => spec_requirement(
            program,
            requirement,
        ) is Some,
        _ => true,
    }
}

/// Every definition has a signature, every block a terminator, and every
/// instruction's targets are declared.
pub open spec fn definitions_declared(program: &MirProgram) -> bool {
    &&& definitions_terminated(program)
    &&& forall|d: int|
        #![trigger program.definitions@[d]]
        0 <= d < program.definitions@.len() ==> {
            let definition = program.definitions@[d];
            &&& spec_signature_index(program, definition.callable) is Some
            &&& forall|b: int, i: int|
                0 <= b < definition.blocks@.len() && 0 <= i
                    < definition.blocks@[b].instructions@.len() ==> instruction_declared(
                    program,
                    #[trigger] definition.blocks@[b].instructions@[i],
                )
        }
}

pub open spec fn pointee_message() -> Seq<char> {
    "shared optional-box pointee access is not yet supported by this target"@
}

/// Copying out of the pointee of a shared optional box is not selectable.
pub open spec fn pointee_copy_rejected(definition: &MirDefinition, instruction: MirInstruction) -> bool {
    match instruction {
        MirInstruction::OptionalInitialize { source: MirOptionalSource::Copy(place) } => match place.base {
            MirPlaceBase::SharedPointee(owner) => owner.idx < definition.storage@.len() && definition.storage@[owner.idx as int].ty is Shared && match definition.storage@[owner.idx as int].ty {
                MirType::Shared(target) => target is OptionalBox,
                _ => false,
            },
            _ => false,
        },
        _ => false,
    }
}

/// Rejects copies out of a shared optional box's pointee.
pub fn reject_optional_box_pointee_copy(
    definition: &MirDefinition,
    instruction: &MirInstruction,
) -> (r: Result<(), BackendError>)
    ensures
        if pointee_copy_rejected(definition, *instruction) {
            r matches Err(error) && error_is(error, Some(definition.callable), pointee_message())
        } else {
            r is Ok
        },
{
    let source = match instruction {
        MirInstruction::OptionalInitialize { source: MirOptionalSource::Copy(source) } => source,
        _ => return Ok(()),
    };
    let owner = match source.base {
        MirPlaceBase::SharedPointee(owner) => owner,
        _ => return Ok(()),
    };
    let rejected = match definition.storage(owner) {
        Some(storage) => matches!(storage.ty, MirType::Shared(MirSharedTarget::OptionalBox(_))),
        None => false,
    };
    if rejected {
        return Err(
            BackendError::new(
                Target::X86_64SysV,
                Some(definition.callable()),
                String::from_str(
                    "shared optional-box pointee access is not yet supported by this target",
                ),
            ),
        );
    }
    Ok(())
}

pub fn has_definition(program: &MirProgram, callable: CallableId) -> (r: bool)
    ensures
        r == spec_has_definition(program, callable),
{
    let definitions = program.executable_definitions();
    let mut k: usize = 0;
    while k < definitions.len()
        invariant
            definitions@ == program.definitions@,
            k <= definitions@.len(),
            forall|m: int| 0 <= m < k ==> (#[trigger] definitions@[m]).callable != callable,
        decreases definitions@.len() - k,
    {
        if definitions[k].callable() == callable {
            assert(program.definitions@[k as int].callable == callable);
            return true;
        }
        k = k + 1;
    }
    false
}

/// Checks a call to a member target: it has a definition and its
/// arguments, with the hidden receiver where it takes one, fit the ABI.
pub fn check_member_target(program: &MirProgram, caller: CallableId, target: CallableId) -> (r:
    Result<(), BackendError>)
    requires
        member_declared(program, target),
    ensures
        match member_error(program, caller, target) {
            None => r is Ok,
            Some((callable, message)) => r matches Err(error) && error_is(error, callable, message),
        },
{
    if !has_definition(program, target) {
        let mut message = String::from_str("member call target ");
        let name = callable_display(target);
        message.append(name.as_str());
        message.append(" has no MIR definition");
        return Err(BackendError::new(Target::X86_64SysV, Some(caller), message));
    }
    let signature = match program.callable_signature(target) {
        Some(signature) => signature,
        None => {
            assert(false);
            return Ok(());
        },
    };
    let has_receiver = match target {
        CallableId::Method(method) => match program.method(method) {
            Some(declared) => matches!(declared.kind, MirMethodKind::Instance),
            None => false,
        },
        _ => true,
    };
    if classify(&signature.parameters, has_receiver).is_none() {
        return Err(abi_limit(caller, "outgoing argument area"));
    }
    Ok(())
}

/// The diagnostic of one instruction of `definition`, given the data
/// layout.
#[verifier::opaque]
pub open spec fn instruction_legality_error(
    program: &MirProgram,
    layout: &DataLayout,
    definition: &MirDefinition,
    instruction: MirInstruction,
) -> Option<(Option<CallableId>, Seq<char>)> {
    let caller = definition.callable;
    if pointee_copy_rejected(definition, instruction) {
        Some((Some(caller), pointee_message()))
    } else {
        match instruction {
            MirInstruction::SharedAllocate { target, .. } => match target {
                MirSharedAllocationTarget::Class(class) => match spec_shared_allocation_size(
                    layout,
                    class,
                ) {
                    Ok(_) => None,
                    Err(message) => Some((None, message)),
                },
                MirSharedAllocationTarget::OptionalBox(_) => None,
            },
            MirInstruction::Call { target: MirCallTarget::Direct(function) } => if spec_call_layout(
                spec_parameters(program, CallableId::Function(function)),
                false,
                false,
            ) is None {
                Some((Some(caller), abi_limit_message("outgoing argument area"@)))
            } else {
                None
            },
            MirInstruction::Call { target: MirCallTarget::Interface(requirement) } => if spec_call_layout(
                spec_requirement(program, requirement).unwrap().parameters@,
                true,
                false,
            ) is None {
                Some((Some(caller), abi_limit_message("outgoing interface argument area"@)))
            } else {
                None
            },
            MirInstruction::Assign { rvalue: MirRvalueKind::PrimitiveCast { operation, .. }, .. } => if operation.kind is CheckedF64ToInteger {
                Some((Some(caller), cast_message(operation)))
            } else {
                None
            },
            _ => match instruction_member(instruction) {
                Some(target) => member_error(program, caller, target),
                None => None,
            },
        }
    }
}

pub open spec fn instructions_legality_error(
    program: &MirProgram,
    layout: &DataLayout,
    definition: &MirDefinition,
    instructions: Seq<MirInstruction>,
) -> Option<(Option<CallableId>, Seq<char>)>
    decreases instructions.len(),
{
    if instructions.len() == 0 {
        None
    } else {
        match instructions_legality_error(program, layout, definition, instructions.drop_last()) {
            Some(found) => Some(found),
            None => instruction_legality_error(program, layout, definition, instructions.last()),
        }
    }
}

pub open spec fn blocks_legality_error(
    program: &MirProgram,
    layout: &DataLayout,
    definition: &MirDefinition,
    blocks: Seq<MirBlock>,
) -> Option<(Option<CallableId>, Seq<char>)>
    decreases blocks.len(),
{
    if blocks.len() == 0 {
        None
    } else {
        match blocks_legality_error(program, layout, definition, blocks.drop_last()) {
            Some(found) => Some(found),
            None => instructions_legality_error(
                program,
                layout,
                definition,
                blocks.last().instructions@,
            ),
        }
    }
}

/// The diagnostic of one definition: its incoming argument area, then its
/// instructions in order.
#[verifier::opaque]
pub open spec fn definition_legality_error(
    program: &MirProgram,
    layout: &DataLayout,
    definition: &MirDefinition,
) -> Option<(Option<CallableId>, Seq<char>)> {
    if spec_call_layout(
        spec_parameters(program, definition.callable),
        definition.has_receiver,
        false,
    ) is None {
        Some((Some(definition.callable), abi_limit_message("incoming argument area"@)))
    } else {
        blocks_legality_error(program, layout, definition, definition.blocks@)
    }
}

pub open spec fn definitions_legality_error(
    program: &MirProgram,
    layout: &DataLayout,
    definitions: Seq<MirDefinition>,
) -> Option<(Option<CallableId>, Seq<char>)>
    decreases definitions.len(),
{
    if definitions.len() == 0 {
        None
    } else {
        match definitions_legality_error(program, layout, definitions.drop_last()) {
            Some(found) => Some(found),
            None => definition_legality_error(program, layout, &definitions.last()),
        }
    }
}

fn check_instruction_legality(
    program: &MirProgram,
    layout: &DataLayout,
    definition: &MirDefinition,
    instruction: &MirInstruction,
) -> (r: Result<(), BackendError>)
    requires
        instruction_declared(program, *instruction),
    ensures
        match instruction_legality_error(program, layout, definition, *instruction) {
            None => r is Ok,
            Some((callable, message)) => r matches Err(error) && error_is(error, callable, message),
        },
{
    reveal(instruction_legality_error);
    reveal(instruction_declared);
    match reject_optional_box_pointee_copy(definition, instruction) {
        Ok(()) => {},
        Err(failure) => return Err(failure),
    }
    let caller = definition.callable();
    match instruction {
        MirInstruction::Initialize { target } | MirInstruction::SharedInitialize { target } => {
            check_member_target(program, caller, *target)
        },
        MirInstruction::SharedAllocate { target, .. } => match target {
            MirSharedAllocationTarget::Class(class) => match layout.shared_allocation_size(*class) {
                Ok(_) => Ok(()),
                Err(failure) => Err(failure),
            },
            MirSharedAllocationTarget::OptionalBox(payload) => match layout.optional(*payload) {
                Ok(_) => Ok(()),
                Err(failure) => Err(failure),
            },
        },
        MirInstruction::Call { target } => match target {
            MirCallTarget::Method(MirMethodCallTarget::Direct(method)) => check_member_target(
                program,
                caller,
                CallableId::Method(*method),
            ),
            MirCallTarget::Method(MirMethodCallTarget::Virtual { selected, .. }) => check_member_target(
                program,
                caller,
                CallableId::Method(*selected),
            ),
            MirCallTarget::Static(method) => check_member_target(
                program,
                caller,
                CallableId::Method(*method),
            ),
            MirCallTarget::Direct(function) => {
                let signature = match program.callable_signature(CallableId::Function(*function)) {
                    Some(signature) => signature,
                    None => {
                        assert(false);
                        return Ok(());
                    },
                };
                if classify(&signature.parameters, false).is_none() {
                    return Err(abi_limit(caller, "outgoing argument area"));
                }
                Ok(())
            },
            MirCallTarget::Interface(requirement) => {
                let declared = match interface_requirement(program, *requirement) {
                    Some(declared) => declared,
                    None => {
                        assert(false);
                        return Ok(());
                    },
                };
                if classify(&declared.parameters, true).is_none() {
                    return Err(abi_limit(caller, "outgoing interface argument area"));
                }
                Ok(())
            },
        },
        MirInstruction::CopyConstruct { operation } | MirInstruction::CopyAssign { operation } => {
            match operation {
                MirSelectedCopyOperation::User(target) => check_member_target(
                    program,
                    caller,
                    *target,
                ),
                MirSelectedCopyOperation::Synthesized(_) => Ok(()),
            }
        },
        MirInstruction::Assign { rvalue, .. } => match rvalue {
            MirRvalueKind::PrimitiveCast { operation, .. } => {
                if !primitive_cast_is_supported(*operation) {
                    let mut message = String::from_str("primitive cast `");
                    message.append(primitive_name(operation.source));
                    message.append(" -> ");
                    message.append(primitive_name(operation.target));
                    message.append("` is not yet supported by this target");
                    return Err(BackendError::new(Target::X86_64SysV, Some(caller), message));
                }
                Ok(())
            },
            _ => Ok(()),
        },
        _ => Ok(()),
    }
}

/// The declared requirement with the given identity.
fn interface_requirement(program: &MirProgram, id: InterfaceRequirementId) -> (r: Option<
    &MirInterfaceRequirement,
>)
    ensures
        match spec_requirement(program, id) {
            Some(declared) => r == Some(&declared),
            None => r is None,
        },
{
    if id.owner.index() < program.interfaces.len() {
        let interface = &program.interfaces[id.owner.index()];
        if id.index() < interface.requirements.len() {
            return Some(&interface.requirements[id.index()]);
        }
    }
    None
}

fn check_block_legality(
    program: &MirProgram,
    layout: &DataLayout,
    definition: &MirDefinition,
    block: &MirBlock,
) -> (r: Result<(), BackendError>)
    requires
        forall|k: int|
            0 <= k < block.instructions@.len() ==> instruction_declared(
                program,
                #[trigger] block.instructions@[k],
            ),
    ensures
        match instructions_legality_error(program, layout, definition, block.instructions@) {
            None => r is Ok,
            Some((callable, message)) => r matches Err(error) && error_is(error, callable, message),
        },
{
    let mut i: usize = 0;
    while i < block.instructions.len()
        invariant
            forall|k: int|
                0 <= k < block.instructions@.len() ==> instruction_declared(
                    program,
                    #[trigger] block.instructions@[k],
                ),
            i <= block.instructions@.len(),
            instructions_legality_error(program, layout, definition, block.instructions@.take(i as int))
                is None,
        decreases block.instructions@.len() - i,
    {
        assert(block.instructions@.take((i + 1) as int).drop_last() =~= block.instructions@.take(
            i as int,
        ));
        assert(block.instructions@.take((i + 1) as int).last() == block.instructions@[i as int]);
        match check_instruction_legality(program, layout, definition, &block.instructions[i]) {
            Ok(()) => {},
            Err(failure) => {
                proof {
                    lemma_instructions_extend(
                        program,
                        layout,
                        definition,
                        block.instructions@,
                        (i + 1) as int,
                    );
                }
                return Err(failure);
            },
        }
        i = i + 1;
    }
    assert(block.instructions@.take(block.instructions@.len() as int) =~= block.instructions@);
    Ok(())
}

fn check_definition_legality(
    program: &MirProgram,
    layout: &DataLayout,
    definition: &MirDefinition,
) -> (r: Result<(), BackendError>)
    requires
        spec_signature_index(program, definition.callable) is Some,
        forall|b: int, i: int|
            0 <= b < definition.blocks@.len() && 0 <= i < definition.blocks@[b].instructions@.len()
                ==> instruction_declared(program, #[trigger] definition.blocks@[b].instructions@[i]),
    ensures
        match definition_legality_error(program, layout, definition) {
            None => r is Ok,
            Some((callable, message)) => r matches Err(error) && error_is(error, callable, message),
        },
{
    reveal(definition_legality_error);
    let signature = match program.callable_signature(definition.callable()) {
        Some(signature) => signature,
        None => {
            assert(false);
            return Ok(());
        },
    };
    if classify(&signature.parameters, definition.has_receiver).is_none() {
        return Err(abi_limit(definition.callable(), "incoming argument area"));
    }
    assert(spec_call_layout(
        spec_parameters(program, definition.callable),
        definition.has_receiver,
        false,
    ) is Some);
    let mut b: usize = 0;
    while b < definition.blocks.len()
        invariant
            spec_call_layout(
                spec_parameters(program, definition.callable),
                definition.has_receiver,
                false,
            ) is Some,
            forall|bb: int, i: int|
                0 <= bb < definition.blocks@.len() && 0 <= i
                    < definition.blocks@[bb].instructions@.len() ==> instruction_declared(
                    program,
                    #[trigger] definition.blocks@[bb].instructions@[i],
                ),
            b <= definition.blocks@.len(),
            blocks_legality_error(program, layout, definition, definition.blocks@.take(b as int))
                is None,
        decreases definition.blocks@.len() - b,
    {
        let block = &definition.blocks[b];
        assert(definition.blocks@.take((b + 1) as int).drop_last() =~= definition.blocks@.take(
            b as int,
        ));
        assert(definition.blocks@.take((b + 1) as int).last() == definition.blocks@[b as int]);
        assert(forall|k: int|
            0 <= k < block.instructions@.len() ==> instruction_declared(
                program,
                #[trigger] block.instructions@[k],
            )) by {
            assert forall|k: int| 0 <= k < block.instructions@.len() implies instruction_declared(
                program,
                #[trigger] block.instructions@[k],
            ) by {
                assert(block.instructions@[k] == definition.blocks@[b as int].instructions@[k]);
            }
        }
        match check_block_legality(program, layout, definition, block) {
            Ok(()) => {},
            Err(failure) => {
                proof {
                    reveal(definition_legality_error);
                    lemma_blocks_extend(
                        program,
                        layout,
                        definition,
                        definition.blocks@,
                        (b + 1) as int,
                    );
                }
                return Err(failure);
            },
        }
        b = b + 1;
    }
    assert(definition.blocks@.take(definition.blocks@.len() as int) =~= definition.blocks@);
    proof {
        reveal(definition_legality_error);
    }
    Ok(())
}

proof fn lemma_instructions_extend(
    program: &MirProgram,
    layout: &DataLayout,
    definition: &MirDefinition,
    instructions: Seq<MirInstruction>,
    n: int,
)
    requires
        0 <= n <= instructions.len(),
    ensures
        instructions_legality_error(program, layout, definition, instructions.take(n)) is Some
            ==> instructions_legality_error(program, layout, definition, instructions)
            == instructions_legality_error(program, layout, definition, instructions.take(n)),
    decreases instructions.len() - n,
{
    if n < instructions.len() {
        lemma_instructions_extend(program, layout, definition, instructions, n + 1);
        assert(instructions.take(n + 1).drop_last() =~= instructions.take(n));
    } else {
        assert(instructions.take(n) =~= instructions);
    }
}

proof fn lemma_blocks_extend(
    program: &MirProgram,
    layout: &DataLayout,
    definition: &MirDefinition,
    blocks: Seq<MirBlock>,
    n: int,
)
    requires
        0 <= n <= blocks.len(),
    ensures
        blocks_legality_error(program, layout, definition, blocks.take(n)) is Some
            ==> blocks_legality_error(program, layout, definition, blocks)
            == blocks_legality_error(program, layout, definition, blocks.take(n)),
    decreases blocks.len() - n,
{
    if n < blocks.len() {
        lemma_blocks_extend(program, layout, definition, blocks, n + 1);
        assert(blocks.take(n + 1).drop_last() =~= blocks.take(n));
    } else {
        assert(blocks.take(n) =~= blocks);
    }
}

proof fn lemma_definitions_extend(
    program: &MirProgram,
    layout: &DataLayout,
    definitions: Seq<MirDefinition>,
    n: int,
)
    requires
        0 <= n <= definitions.len(),
    ensures
        definitions_legality_error(program, layout, definitions.take(n)) is Some
            ==> definitions_legality_error(program, layout, definitions)
            == definitions_legality_error(program, layout, definitions.take(n)),
    decreases definitions.len() - n,
{
    if n < definitions.len() {
        lemma_definitions_extend(program, layout, definitions, n + 1);
        assert(definitions.take(n + 1).drop_last() =~= definitions.take(n));
    } else {
        assert(definitions.take(n) =~= definitions);
    }
}

/// Checks every executable definition against a computed data layout.
#[verifier::rlimit(30)]
pub fn check_definitions(program: &MirProgram, layout: &DataLayout) -> (r: Result<(), BackendError>)
    requires
        definitions_declared(program),
    ensures
        match definitions_legality_error(program, layout, program.definitions@) {
            None => r is Ok,
            Some((callable, message)) => r matches Err(error) && error_is(error, callable, message),
        },
{
    let definitions = program.executable_definitions();
    let mut d: usize = 0;
    while d < definitions.len()
        invariant
            definitions_declared(program),
            definitions@ == program.definitions@,
            d <= definitions@.len(),
            definitions_legality_error(program, layout, definitions@.take(d as int)) is None,
        decreases definitions@.len() - d,
    {
        assert(definitions@.take((d + 1) as int).drop_last() =~= definitions@.take(d as int));
        assert(definitions@.take((d + 1) as int).last() == definitions@[d as int]);
        let ghost definition = program.definitions@[d as int];
        assert(spec_signature_index(program, definition.callable) is Some);
        match check_definition_legality(program, layout, &definitions[d]) {
            Ok(()) => {},
            Err(failure) => {
                proof {
                    lemma_definitions_extend(program, layout, definitions@, (d + 1) as int);
                }
                return Err(failure);
            },
        }
        d = d + 1;
    }
    assert(definitions@.take(definitions@.len() as int) =~= definitions@);
    Ok(())
}

/// What checking a program gives: the first array legality diagnostic,
/// failure when dispatch or layout cannot be computed, and otherwise the
/// program's dispatch tables and data layout once every definition passes.
pub open spec fn check_outcome(
    program: &MirProgram,
    r: Result<(DataLayout, DispatchMetadata), BackendError>,
) -> bool {
    &&& (spec_check(program) matches Some((callable, message)) ==> r matches Err(error)
        && error_is(error, callable, message))
    &&& (spec_check(program) is None && !spec_dispatch_succeeds(program) ==> r is Err)
    &&& (spec_check(program) is None && spec_dispatch_error(program) is Some ==> (r matches Err(
        error,
    ) && error_is(error, None, spec_dispatch_error(program)->Some_0)))
    &&& (spec_check(program) is None && !spec_layouts_succeed(program) ==> r is Err)
    &&& (spec_check(program) is None && spec_dispatch_succeeds(program) && spec_layouts_succeed(
        program,
    ) && (forall|layout: DataLayout|
        #![trigger definitions_legality_error(program, &layout, program.definitions@)]
        data_layout_consistent(program, &layout) && (forall|class: ClassId|
            class.idx < layout.classes@.len() ==> class_layout_is(
                #[trigger] layout.classes@[class.idx as int],
                class_model(program, class),
            )) ==> definitions_legality_error(program, &layout, program.definitions@) is None)
        ==> r is Ok)
    &&& (r matches Ok((layout, dispatch)) ==> {
        &&& spec_check(program) is None
        &&& spec_dispatch_succeeds(program)
        &&& spec_layouts_succeed(program)
        &&& dispatch_is(&dispatch, program)
        &&& data_layout_wf(&layout)
        &&& data_layout_consistent(program, &layout)
        &&& forall|class: ClassId|
            class.idx < layout.classes@.len() ==> class_layout_is(
                #[trigger] layout.classes@[class.idx as int],
                class_model(program, class),
            )
        &&& definitions_legality_error(program, &layout, program.definitions@) is None
    })
}

/// Checks a program against the target: its well-formedness first, then
/// the array profile, the dispatch tables, the data layout, and every
/// definition.
pub fn check(program: &MirProgram) -> (r: Result<(DataLayout, DispatchMetadata), BackendError>)
    ensures
        !input_well_formed(program) ==> (r matches Err(error) && error_is(
            error,
            None,
            input_failure_message(),
        )),
        input_well_formed(program) ==> check_outcome(program, r),
{
    match verify_input(program) {
        Ok(()) => check_well_formed(program),
        Err(failure) => Err(failure),
    }
}

/// Checks a well-formed program against the target: the array profile, the
/// dispatch tables, the data layout, and then every definition.
fn check_well_formed(program: &MirProgram) -> (r: Result<(DataLayout, DispatchMetadata), BackendError>)
    requires
        static_fields_unique(program),
        dispatch_declarations_wf(program),
        fields_have_storage(program),
        definitions_declared(program),
    ensures
        check_outcome(program, r),
{
    match crate::array_legality::check(program) {
        Ok(()) => {},
        Err(failure) => return Err(failure),
    }
    let dispatch = match DispatchMetadata::compute(program) {
        Ok(dispatch) => dispatch,
        Err(failure) => return Err(failure),
    };
    let data_layout = match DataLayout::compute(program) {
        Ok(layout) => layout,
        Err(failure) => return Err(failure),
    };
    match check_definitions(program, &data_layout) {
        Ok(()) => Ok((data_layout, dispatch)),
        Err(failure) => Err(failure),
    }
}

} // verus!
