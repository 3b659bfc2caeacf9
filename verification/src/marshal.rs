//! Incoming System V argument marshaling: a body's prologue stores every
//! incoming argument word in its frame home.

use vstd::prelude::*;

use crate::abi::{
    ArgumentLocation, CallLayout, CallLayoutModel, ObjectLocations, ParameterLocations, ScalarClass, Classifier,
    spec_alias_carries_object_origin, spec_call_layout, spec_classify, spec_classify_parameter,
    spec_classify_parameters, spec_classify_receiver, spec_incoming, spec_object_incoming,
    spec_origin_incoming, spec_parameter_class, spec_parameter_incoming,
    spec_stack_area, initial_classifier,
};
use crate::error::{BackendError, Target, error_is};
use crate::frame::FrameLayout;
use crate::identity::{CallableId, FunctionId, StorageId, ValueId};
use crate::machine::{ByteRegister, FloatOperand, Instruction, Operand, Register, XmmRegister};
use crate::mir::{
    MirCallableSignature, MirDefinition, MirParameter, MirParameterMode, MirProgram, MirType,
    first_storage_of, parameter_storages,
};
use crate::value::{
    canonical_instructions, canonicalize_rax, float_memory, float_operand, frame_storage,
    load_float, load_rax, load_rax_instruction, memory, spec_float_operand, spec_memory,
    storage_operand, store_canonical_rax, store_float, store_rax, store_rax_instruction,
    frame_value, value_operand,
};

verus! {

/// Whether a body returns its result through a caller-provided destination:
/// its result is an inline object, optional, or array.
pub open spec fn returns_through_destination(function: &MirDefinition) -> bool {
    match first_storage_of(function.storage@, false) {
        Some(storage) => storage.idx < function.storage@.len() && {
            let ty = function.storage@[storage.idx as int].ty;
            ty is Class || ty is OptionalPrimitive || ty is OptionalClass || ty is Array
        },
        None => false,
    }
}

/// Whether a location is a general-purpose register or a stack word.
pub open spec fn integer_location(location: ArgumentLocation) -> bool {
    !(location is SseRegister)
}

/// The frame facts that the prologue relies on: homes for every storage
/// entry, and object-origin homes for the receiver and every object alias.
pub open spec fn spill_ready(
    signature: &MirCallableSignature,
    function: &MirDefinition,
    frame: &FrameLayout,
) -> bool {
    let storages = parameter_storages(function.storage@);
    &&& frame.storage_offsets@.len() == function.storage@.len()
    &&& frame.object_origins@.len() == function.storage@.len()
    &&& forall|i: int| 0 <= i < storages.len() ==> (#[trigger] storages[i]).idx < function.storage@.len()
    &&& first_storage_of(function.storage@, false) matches Some(result) ==> result.idx
        < function.storage@.len()
    &&& first_storage_of(function.storage@, true) matches Some(receiver) ==> receiver.idx
        < function.storage@.len() && frame.object_origins@[receiver.idx as int] is Some
    &&& forall|i: int|
        0 <= i < storages.len() && i < signature.parameters@.len()
            && spec_alias_carries_object_origin(#[trigger] signature.parameters@[i])
            ==> frame.object_origins@[storages[i].idx as int] is Some
}

pub open spec fn area_message() -> Seq<char> {
    "incoming argument area exceeds the x86-64 ABI encoding limits"@
}

/// Moves one integer-class word to `destination`.
pub open spec fn integer_spill(location: ArgumentLocation, destination: Operand) -> Seq<Instruction> {
    match location {
        ArgumentLocation::IntegerRegister(register) => seq![
            Instruction::Move { source: Operand::Register(register), destination },
        ],
        ArgumentLocation::Stack(displacement) => seq![
            load_rax_instruction(spec_memory(Register::Rbp, displacement)),
            store_rax_instruction(destination),
        ],
        ArgumentLocation::SseRegister(_) => Seq::empty(),
    }
}

/// Moves the value word of one parameter to its home; a `u8` value passed
/// in a register, and every value passed on the stack, is canonicalized.
pub open spec fn value_spill(
    location: ArgumentLocation,
    parameter: MirParameter,
    destination: Operand,
) -> Seq<Instruction> {
    match location {
        ArgumentLocation::IntegerRegister(register) => if parameter.mode == MirParameterMode::Value
            && parameter.ty == MirType::U8 {
            seq![load_rax_instruction(Operand::Register(register))] + canonical_instructions(
                parameter.ty,
            ) + seq![store_rax_instruction(destination)]
        } else {
            seq![Instruction::Move { source: Operand::Register(register), destination }]
        },
        ArgumentLocation::SseRegister(register) => seq![
            Instruction::MoveFloat64 {
                source: FloatOperand::Register(register),
                destination: spec_float_operand(destination),
            },
        ],
        ArgumentLocation::Stack(displacement) => if parameter.mode == MirParameterMode::Value
            && parameter.ty == MirType::F64 {
            seq![
                Instruction::MoveFloat64 {
                    source: FloatOperand::Memory { base: Register::Rbp, displacement },
                    destination: FloatOperand::Register(XmmRegister::Xmm14),
                },
                Instruction::MoveFloat64 {
                    source: FloatOperand::Register(XmmRegister::Xmm14),
                    destination: spec_float_operand(destination),
                },
            ]
        } else {
            seq![load_rax_instruction(spec_memory(Register::Rbp, displacement))] + (
            if parameter.mode == MirParameterMode::Value {
                canonical_instructions(parameter.ty)
            } else {
                Seq::empty()
            }) + seq![store_rax_instruction(destination)]
        },
    }
}

/// The spill of the first `count` parameters, or the diagnostic of the
/// first whose incoming words are unaddressable.
pub open spec fn parameters_spill(
    locations: Seq<ParameterLocations>,
    parameters: Seq<MirParameter>,
    storages: Seq<StorageId>,
    frame: &FrameLayout,
    count: nat,
) -> Result<Seq<Instruction>, Seq<char>>
    decreases count,
{
    if count == 0 {
        Ok(Seq::empty())
    } else {
        match parameters_spill(locations, parameters, storages, frame, (count - 1) as nat) {
            Err(message) => Err(message),
            Ok(before) => {
                let k = count - 1;
                match spec_parameter_incoming(locations[k]) {
                    None => Err(area_message()),
                    Some(incoming) => {
                        let value = value_spill(
                            incoming.value,
                            parameters[k],
                            storage_operand(frame, storages[k]),
                        );
                        let origin = match incoming.origin {
                            None => Seq::empty(),
                            Some(origin) => {
                                let homes = frame.object_origins@[storages[k].idx as int]->Some_0;
                                integer_spill(
                                    origin.complete,
                                    spec_memory(Register::Rbp, homes.complete),
                                ) + integer_spill(
                                    origin.metadata,
                                    spec_memory(Register::Rbp, homes.metadata),
                                )
                            },
                        };
                        Ok(before + value + origin)
                    },
                }
            },
        }
    }
}

/// The spill of the return destination, when the body has one.
pub open spec fn return_spill(
    function: &MirDefinition,
    frame: &FrameLayout,
    layout: CallLayoutModel,
) -> Result<Seq<Instruction>, Seq<char>> {
    if returns_through_destination(function) {
        match spec_incoming(layout.return_destination->Some_0) {
            None => Err("incoming return destination exceeds x86-64 limits"@),
            Some(incoming) => Ok(
                integer_spill(
                    incoming,
                    storage_operand(frame, first_storage_of(function.storage@, false)->Some_0),
                ),
            ),
        }
    } else {
        Ok(Seq::empty())
    }
}

/// The spill of the three receiver words, when the body has a receiver.
pub open spec fn receiver_spill(
    function: &MirDefinition,
    frame: &FrameLayout,
    layout: CallLayoutModel,
) -> Result<Seq<Instruction>, Seq<char>> {
    match first_storage_of(function.storage@, true) {
        None => Ok(Seq::empty()),
        Some(storage) => match spec_object_incoming(layout.receiver->Some_0) {
            None => Err("incoming receiver area exceeds x86-64 limits"@),
            Some(incoming) => {
                let homes = frame.object_origins@[storage.idx as int]->Some_0;
                Ok(
                    integer_spill(incoming.address, storage_operand(frame, storage)) + integer_spill(
                        incoming.complete,
                        spec_memory(Register::Rbp, homes.complete),
                    ) + integer_spill(incoming.metadata, spec_memory(Register::Rbp, homes.metadata)),
                )
            },
        },
    }
}

/// The number of parameters that have both storage and a declaration.
pub open spec fn spilled_count(signature: &MirCallableSignature, function: &MirDefinition) -> nat {
    let storages = parameter_storages(function.storage@);
    if storages.len() < signature.parameters@.len() {
        storages.len()
    } else {
        signature.parameters@.len()
    }
}

/// The prologue instructions that store every incoming argument word of
/// `function` in its frame home: the return destination, the three words
/// of the receiver, then each parameter's value word and, for object
/// aliases, its origin words. Or the diagnostic of the first component
/// whose incoming words are unaddressable.
pub open spec fn spill_instructions(
    signature: &MirCallableSignature,
    function: &MirDefinition,
    frame: &FrameLayout,
) -> Result<Seq<Instruction>, Seq<char>> {
    match spec_call_layout(
        signature.parameters@,
        first_storage_of(function.storage@, true) is Some,
        returns_through_destination(function),
    ) {
        None => Err(area_message()),
        Some(layout) => match return_spill(function, frame, layout) {
            Err(message) => Err(message),
            Ok(first) => match receiver_spill(function, frame, layout) {
                Err(message) => Err(message),
                Ok(second) => match parameters_spill(
                    layout.locations,
                    signature.parameters@,
                    parameter_storages(function.storage@),
                    frame,
                    spilled_count(signature, function),
                ) {
                    Err(message) => Err(message),
                    Ok(third) => Ok(first + second + third),
                },
            },
        },
    }
}

proof fn lemma_integer_classification(state: Classifier)
    ensures
        spec_classify(state, ScalarClass::Integer) matches Some((location, _)) ==> integer_location(
            location,
        ),
{
}

proof fn lemma_incoming_keeps_class(location: ArgumentLocation)
    ensures
        spec_incoming(location) matches Some(moved) ==> (integer_location(moved)
            <==> integer_location(location)),
{
}

/// Classified parameters keep their order: one location per parameter,
/// origin words exactly for object aliases, and those in integer class.
proof fn lemma_parameter_locations(state: Classifier, parameters: Seq<MirParameter>)
    ensures
        spec_classify_parameters(state, parameters) matches Some((locations, _)) ==> {
            &&& locations.len() == parameters.len()
            &&& forall|i: int|
                0 <= i < locations.len() ==> ((#[trigger] locations[i]).origin is Some
                    <==> spec_alias_carries_object_origin(parameters[i]))
            &&& forall|i: int|
                0 <= i < locations.len() ==> ((#[trigger] locations[i]).origin matches Some(
                    origin,
                ) ==> integer_location(origin.complete) && integer_location(origin.metadata))
        },
    decreases parameters.len(),
{
    if parameters.len() > 0 {
        lemma_parameter_locations(state, parameters.drop_last());
        match spec_classify_parameters(state, parameters.drop_last()) {
            None => {},
            Some((locations, after)) => {
                match spec_classify(after, spec_parameter_class(parameters.last())->Some_0) {
                    None => {},
                    Some((_, after_value)) => {
                        lemma_integer_classification(after_value);
                        match spec_classify(after_value, ScalarClass::Integer) {
                            None => {},
                            Some((_, after_complete)) => {
                                lemma_integer_classification(after_complete);
                            },
                        }
                    },
                }
                match spec_classify_parameters(state, parameters) {
                    None => {},
                    Some((all, _)) => {
                        assert(all.drop_last() =~= locations);
                        assert forall|i: int| 0 <= i < all.len() implies ((#[trigger] all[i]).origin
                            is Some <==> spec_alias_carries_object_origin(parameters[i])) by {
                            if i < all.len() - 1 {
                                assert(all[i] == locations[i]);
                                assert(parameters[i] == parameters.drop_last()[i]);
                            }
                        }
                        assert forall|i: int| 0 <= i < all.len() implies ((#[trigger] all[i]).origin
                            matches Some(origin) ==> integer_location(origin.complete)
                            && integer_location(origin.metadata)) by {
                            if i < all.len() - 1 {
                                assert(all[i] == locations[i]);
                            }
                        }
                    },
                }
            },
        }
    }
}

/// The facts of a classified call layout that the prologue relies on.
proof fn lemma_layout_shape(
    parameters: Seq<MirParameter>,
    has_receiver: bool,
    has_return_destination: bool,
)
    ensures
        spec_call_layout(parameters, has_receiver, has_return_destination) matches Some(layout) ==> {
            &&& layout.locations.len() == parameters.len()
            &&& has_return_destination ==> layout.return_destination == Some(
                ArgumentLocation::IntegerRegister(Register::Rdi),
            )
            &&& has_receiver ==> (layout.receiver matches Some(receiver) && integer_location(
                receiver.address,
            ) && integer_location(receiver.complete) && integer_location(receiver.metadata))
            &&& forall|i: int|
                0 <= i < layout.locations.len() ==> ((#[trigger] layout.locations[i]).origin
                    is Some <==> spec_alias_carries_object_origin(parameters[i]))
            &&& forall|i: int|
                0 <= i < layout.locations.len() ==> ((#[trigger] layout.locations[i]).origin
                    matches Some(origin) ==> integer_location(origin.complete) && integer_location(
                    origin.metadata,
                ))
        },
{
    let state = initial_classifier(has_return_destination);
    lemma_integer_classification(state);
    match spec_classify(state, ScalarClass::Integer) {
        None => {},
        Some((_, s1)) => {
            lemma_integer_classification(s1);
            match spec_classify(s1, ScalarClass::Integer) {
                None => {},
                Some((_, s2)) => {
                    lemma_integer_classification(s2);
                },
            }
        },
    }
    match spec_classify_receiver(state, has_receiver) {
        None => {},
        Some((_, after)) => {
            lemma_parameter_locations(after, parameters);
        },
    }
}

fn argument_area_error(function: &MirDefinition, message: &str) -> (r: BackendError)
    ensures
        error_is(r, Some(function.callable), message@),
{
    BackendError::new(Target::X86_64SysV, Some(function.callable()), String::from_str(message))
}

/// Moves one integer-class word to `destination`.
fn spill_integer(location: ArgumentLocation, destination: Operand, output: &mut Vec<Instruction>)
    requires
        integer_location(location),
    ensures
        final(output)@ == old(output)@ + integer_spill(location, destination),
{
    let ghost before = output@;
    match location {
        ArgumentLocation::IntegerRegister(register) => {
            output.push(Instruction::Move { source: Operand::Register(register), destination });
        },
        ArgumentLocation::Stack(displacement) => {
            load_rax(memory(Register::Rbp, displacement), output);
            store_rax(destination, output);
        },
        ArgumentLocation::SseRegister(_) => {},
    }
    assert(output@ =~= before + integer_spill(location, destination));
}

fn spill_value(
    location: ArgumentLocation,
    parameter: MirParameter,
    destination: Operand,
    output: &mut Vec<Instruction>,
)
    requires
        destination is Memory,
    ensures
        final(output)@ == old(output)@ + value_spill(location, parameter, destination),
{
    let ghost before = output@;
    match location {
        ArgumentLocation::IntegerRegister(register) => {
            if parameter.mode == MirParameterMode::Value && parameter.ty == MirType::U8 {
                load_rax(Operand::Register(register), output);
                store_canonical_rax(parameter.ty, destination, output);
            } else {
                output.push(Instruction::Move { source: Operand::Register(register), destination });
            }
        },
        ArgumentLocation::SseRegister(register) => {
            store_float(register, float_operand(destination), output);
        },
        ArgumentLocation::Stack(displacement) => {
            if parameter.mode == MirParameterMode::Value && parameter.ty == MirType::F64 {
                load_float(float_memory(Register::Rbp, displacement), XmmRegister::Xmm14, output);
                store_float(XmmRegister::Xmm14, float_operand(destination), output);
            } else {
                load_rax(memory(Register::Rbp, displacement), output);
                if parameter.mode == MirParameterMode::Value {
                    canonicalize_rax(parameter.ty, output);
                }
                store_rax(destination, output);
            }
        },
    }
    assert(output@ =~= before + value_spill(location, parameter, destination));
}

fn spill_return_destination(
    function: &MirDefinition,
    frame: &FrameLayout,
    layout: &CallLayout,
    output: &mut Vec<Instruction>,
) -> (r: Result<(), BackendError>)
    requires
        frame.storage_offsets@.len() == function.storage@.len(),
        first_storage_of(function.storage@, false) matches Some(result) ==> result.idx
            < function.storage@.len(),
        returns_through_destination(function) ==> layout@.return_destination == Some(
            ArgumentLocation::IntegerRegister(Register::Rdi),
        ),
    ensures
        match return_spill(function, frame, layout@) {
            Ok(instructions) => r is Ok && final(output)@ == old(output)@ + instructions,
            Err(message) => r matches Err(error) && error_is(
                error,
                Some(function.callable),
                message,
            ),
        },
{
    let return_storage = function.return_storage();
    let has_return_destination = match return_storage {
        Some(storage) => match function.storage(storage) {
            Some(entry) => matches!(
                entry.ty,
                MirType::Class(_) | MirType::OptionalPrimitive(_) | MirType::OptionalClass(_)
                    | MirType::Array(_)
            ),
            None => false,
        },
        None => false,
    };
    if has_return_destination {
        let storage = match return_storage {
            Some(storage) => storage,
            None => vstd::pervasive::unreached(),
        };
        let destination = match layout.return_destination() {
            Some(destination) => destination,
            None => vstd::pervasive::unreached(),
        };
        let incoming = match destination.incoming() {
            Some(incoming) => incoming,
            None => return Err(
                argument_area_error(function, "incoming return destination exceeds x86-64 limits"),
            ),
        };
        spill_integer(incoming, frame_storage(frame, storage), output);
    } else {
        assert(output@ =~= output@ + Seq::<Instruction>::empty());
    }
    Ok(())
}

fn spill_receiver(
    function: &MirDefinition,
    frame: &FrameLayout,
    layout: &CallLayout,
    output: &mut Vec<Instruction>,
) -> (r: Result<(), BackendError>)
    requires
        frame.storage_offsets@.len() == function.storage@.len(),
        frame.object_origins@.len() == function.storage@.len(),
        first_storage_of(function.storage@, true) matches Some(receiver) ==> receiver.idx
            < function.storage@.len() && frame.object_origins@[receiver.idx as int] is Some
            && (layout@.receiver matches Some(locations) && integer_location(locations.address)
            && integer_location(locations.complete) && integer_location(locations.metadata)),
    ensures
        match receiver_spill(function, frame, layout@) {
            Ok(instructions) => r is Ok && final(output)@ == old(output)@ + instructions,
            Err(message) => r matches Err(error) && error_is(
                error,
                Some(function.callable),
                message,
            ),
        },
{
    let ghost before = output@;
    match function.receiver() {
        Some(storage) => {
            let locations = match layout.receiver_locations() {
                Some(locations) => locations,
                None => vstd::pervasive::unreached(),
            };
            let incoming = match locations.incoming() {
                Some(incoming) => incoming,
                None => return Err(
                    argument_area_error(function, "incoming receiver area exceeds x86-64 limits"),
                ),
            };
            spill_integer(incoming.address(), frame_storage(frame, storage), output);
            let homes = match frame.object_origin(storage) {
                Some(homes) => homes,
                None => vstd::pervasive::unreached(),
            };
            spill_integer(incoming.complete(), memory(Register::Rbp, homes.complete()), output);
            spill_integer(incoming.metadata(), memory(Register::Rbp, homes.metadata()), output);
            assert(output@ =~= before + receiver_spill(function, frame, layout@)->Ok_0);
        },
        None => {
            assert(output@ =~= before + Seq::<Instruction>::empty());
        },
    }
    Ok(())
}

fn spill_parameter_words(
    signature: &MirCallableSignature,
    function: &MirDefinition,
    frame: &FrameLayout,
    locations: &Vec<ParameterLocations>,
    output: &mut Vec<Instruction>,
) -> (r: Result<(), BackendError>)
    requires
        spill_ready(signature, function, frame),
        locations@.len() == signature.parameters@.len(),
        forall|i: int|
            0 <= i < locations@.len() ==> ((#[trigger] locations@[i]).origin is Some
                <==> spec_alias_carries_object_origin(signature.parameters@[i])),
        forall|i: int|
            0 <= i < locations@.len() ==> ((#[trigger] locations@[i]).origin matches Some(origin)
                ==> integer_location(origin.complete) && integer_location(origin.metadata)),
    ensures
        match parameters_spill(
            locations@,
            signature.parameters@,
            parameter_storages(function.storage@),
            frame,
            spilled_count(signature, function),
        ) {
            Ok(instructions) => r is Ok && final(output)@ == old(output)@ + instructions,
            Err(message) => r matches Err(error) && error_is(
                error,
                Some(function.callable),
                message,
            ),
        },
{
    let ghost start = output@;
    let storages = function.parameters();
    let count = if storages.len() < signature.parameters.len() {
        storages.len()
    } else {
        signature.parameters.len()
    };
    let mut k: usize = 0;
    while k < count
        invariant
            spill_ready(signature, function, frame),
            storages@ == parameter_storages(function.storage@),
            locations@.len() == signature.parameters@.len(),
            count == spilled_count(signature, function),
            count <= storages@.len(),
            count <= signature.parameters@.len(),
            k <= count,
            forall|i: int|
                0 <= i < locations@.len() ==> ((#[trigger] locations@[i]).origin is Some
                    <==> spec_alias_carries_object_origin(signature.parameters@[i])),
            forall|i: int|
                0 <= i < locations@.len() ==> ((#[trigger] locations@[i]).origin matches Some(
                    origin,
                ) ==> integer_location(origin.complete) && integer_location(origin.metadata)),
            parameters_spill(locations@, signature.parameters@, storages@, frame, k as nat)
                matches Ok(done) && output@ == start + done,
        decreases count - k,
    {
        let incoming = match locations[k].incoming() {
            Some(incoming) => incoming,
            None => {
                proof {
                    lemma_spill_prefix_fails(
                        locations@,
                        signature.parameters@,
                        storages@,
                        frame,
                        (k + 1) as nat,
                        count as nat,
                    );
                }
                return Err(argument_area_error(function, "incoming argument area exceeds the x86-64 ABI encoding limits"));
            },
        };
        let storage = storages[k];
        let parameter = signature.parameters[k];
        assert(storages@[k as int].idx < function.storage@.len());
        spill_value(incoming.value(), parameter, frame_storage(frame, storage), output);
        match incoming.origin() {
            Some(origin) => {
                proof {
                    assert(locations@[k as int].origin is Some);
                    assert(spec_alias_carries_object_origin(signature.parameters@[k as int]));
                }
                let homes = match frame.object_origin(storage) {
                    Some(homes) => homes,
                    None => vstd::pervasive::unreached(),
                };
                spill_integer(origin.complete(), memory(Register::Rbp, homes.complete()), output);
                spill_integer(origin.metadata(), memory(Register::Rbp, homes.metadata()), output);
            },
            None => {},
        }
        proof {
            let expected = parameters_spill(
                locations@,
                signature.parameters@,
                storages@,
                frame,
                (k + 1) as nat,
            )->Ok_0;
            assert(output@ =~= start + expected);
        }
        k = k + 1;
    }
    Ok(())
}

/// Stores every incoming argument word of `function` in its frame home.
pub fn spill_parameters(
    signature: &MirCallableSignature,
    function: &MirDefinition,
    frame: &FrameLayout,
    output: &mut Vec<Instruction>,
) -> (r: Result<(), BackendError>)
    requires
        spill_ready(signature, function, frame),
    ensures
        match spill_instructions(signature, function, frame) {
            Ok(instructions) => r is Ok && final(output)@ == old(output)@ + instructions,
            Err(message) => r matches Err(error) && error_is(
                error,
                Some(function.callable),
                message,
            ),
        },
{
    let ghost start = output@;
    let return_storage = function.return_storage();
    let has_return_destination = match return_storage {
        Some(storage) => match function.storage(storage) {
            Some(entry) => matches!(
                entry.ty,
                MirType::Class(_) | MirType::OptionalPrimitive(_) | MirType::OptionalClass(_)
                    | MirType::Array(_)
            ),
            None => false,
        },
        None => false,
    };
    let receiver = function.receiver();
    let layout = match CallLayout::classify_internal_call(
        &signature.parameters,
        receiver.is_some(),
        has_return_destination,
    ) {
        Some(layout) => layout,
        None => return Err(argument_area_error(function, "incoming argument area exceeds the x86-64 ABI encoding limits")),
    };
    proof {
        lemma_layout_shape(signature.parameters@, receiver is Some, has_return_destination);
    }
    match spill_return_destination(function, frame, &layout, output) {
        Ok(()) => {},
        Err(error) => return Err(error),
    }
    match spill_receiver(function, frame, &layout, output) {
        Ok(()) => {},
        Err(error) => return Err(error),
    }
    match spill_parameter_words(signature, function, frame, layout.parameter_locations(), output) {
        Ok(()) => {},
        Err(error) => return Err(error),
    }
    assert(output@ =~= start + spill_instructions(signature, function, frame)->Ok_0);
    Ok(())
}

proof fn lemma_spill_prefix_fails(
    locations: Seq<ParameterLocations>,
    parameters: Seq<MirParameter>,
    storages: Seq<StorageId>,
    frame: &FrameLayout,
    n: nat,
    count: nat,
)
    requires
        n <= count,
        parameters_spill(locations, parameters, storages, frame, n) is Err,
    ensures
        parameters_spill(locations, parameters, storages, frame, count) == parameters_spill(
            locations,
            parameters,
            storages,
            frame,
            n,
        ),
    decreases count - n,
{
    if n < count {
        lemma_spill_prefix_fails(locations, parameters, storages, frame, n, (count - 1) as nat);
    }
}


/// Moves one value argument to its outgoing location: integer words by
/// `mov`, `f64` words by `movsd`, stack words through `rax` or `xmm14` to
/// the outgoing area at `rsp`.
pub open spec fn value_argument_instructions(
    frame: &FrameLayout,
    argument: ValueId,
    ty: MirType,
    location: ArgumentLocation,
) -> Seq<Instruction> {
    let source = value_operand(frame, argument);
    match location {
        ArgumentLocation::IntegerRegister(register) => seq![
            Instruction::Move { source, destination: Operand::Register(register) },
        ],
        ArgumentLocation::SseRegister(register) => seq![
            Instruction::MoveFloat64 {
                source: spec_float_operand(source),
                destination: FloatOperand::Register(register),
            },
        ],
        ArgumentLocation::Stack(displacement) => if ty == MirType::F64 {
            seq![
                Instruction::MoveFloat64 {
                    source: spec_float_operand(source),
                    destination: FloatOperand::Register(XmmRegister::Xmm14),
                },
                Instruction::MoveFloat64 {
                    source: FloatOperand::Register(XmmRegister::Xmm14),
                    destination: FloatOperand::Memory { base: Register::Rsp, displacement },
                },
            ]
        } else {
            seq![
                load_rax_instruction(source),
                store_rax_instruction(spec_memory(Register::Rsp, displacement)),
            ]
        },
    }
}

pub fn marshal_value_argument(
    frame: &FrameLayout,
    argument: ValueId,
    ty: MirType,
    location: ArgumentLocation,
    output: &mut Vec<Instruction>,
)
    requires
        argument.idx < frame.value_offsets@.len(),
    ensures
        final(output)@ == old(output)@ + value_argument_instructions(frame, argument, ty, location),
{
    let ghost before = output@;
    let source = frame_value(frame, argument);
    match location {
        ArgumentLocation::IntegerRegister(register) => {
            output.push(Instruction::Move { source, destination: Operand::Register(register) });
        },
        ArgumentLocation::SseRegister(register) => {
            load_float(float_operand(source), register, output);
        },
        ArgumentLocation::Stack(displacement) => {
            if ty == MirType::F64 {
                load_float(float_operand(source), XmmRegister::Xmm14, output);
                store_float(XmmRegister::Xmm14, float_memory(Register::Rsp, displacement), output);
            } else {
                load_rax(source, output);
                store_rax(memory(Register::Rsp, displacement), output);
            }
        },
    }
    assert(output@ =~= before + value_argument_instructions(frame, argument, ty, location));
}

/// Passes the shared owner held in `owner` by handle.
pub open spec fn shared_owner_instructions(
    frame: &FrameLayout,
    owner: StorageId,
    location: ArgumentLocation,
) -> Seq<Instruction> {
    let source = storage_operand(frame, owner);
    match location {
        ArgumentLocation::IntegerRegister(register) => seq![
            Instruction::Move { source, destination: Operand::Register(register) },
        ],
        ArgumentLocation::Stack(displacement) => seq![
            load_rax_instruction(source),
            store_rax_instruction(spec_memory(Register::Rsp, displacement)),
        ],
        ArgumentLocation::SseRegister(_) => Seq::empty(),
    }
}

pub fn marshal_shared_owner(
    frame: &FrameLayout,
    owner: StorageId,
    location: ArgumentLocation,
    output: &mut Vec<Instruction>,
)
    requires
        owner.idx < frame.storage_offsets@.len(),
        integer_location(location),
    ensures
        final(output)@ == old(output)@ + shared_owner_instructions(frame, owner, location),
{
    let ghost before = output@;
    let source = frame_storage(frame, owner);
    match location {
        ArgumentLocation::IntegerRegister(register) => {
            output.push(Instruction::Move { source, destination: Operand::Register(register) });
        },
        ArgumentLocation::Stack(displacement) => {
            load_rax(source, output);
            store_rax(memory(Register::Rsp, displacement), output);
        },
        ArgumentLocation::SseRegister(_) => {},
    }
    assert(output@ =~= before + shared_owner_instructions(frame, owner, location));
}

/// Stores a call's result: `f64` from `xmm0`, every other type from
/// `rax` in canonical form.
pub open spec fn call_result_instructions(
    frame: &FrameLayout,
    ty: MirType,
    result: ValueId,
) -> Seq<Instruction> {
    let destination = value_operand(frame, result);
    if ty == MirType::F64 {
        seq![
            Instruction::MoveFloat64 {
                source: FloatOperand::Register(XmmRegister::Xmm0),
                destination: spec_float_operand(destination),
            },
        ]
    } else {
        canonical_instructions(ty) + seq![store_rax_instruction(destination)]
    }
}

pub fn store_call_result(
    frame: &FrameLayout,
    ty: MirType,
    result: ValueId,
    output: &mut Vec<Instruction>,
)
    requires
        result.idx < frame.value_offsets@.len(),
    ensures
        final(output)@ == old(output)@ + call_result_instructions(frame, ty, result),
{
    let ghost before = output@;
    let destination = frame_value(frame, result);
    if ty == MirType::F64 {
        store_float(XmmRegister::Xmm0, float_operand(destination), output);
    } else {
        store_canonical_rax(ty, destination, output);
    }
    assert(output@ =~= before + call_result_instructions(frame, ty, result));
}

/// Passes the payload address of the shared allocation whose handle is
/// `handle`: the handle plus the header size, built in the target register
/// or in `rax` and stored to the outgoing stack word.
pub open spec fn payload_address_instructions(handle: Operand, location: ArgumentLocation) -> Seq<
    Instruction,
> {
    let register = match location {
        ArgumentLocation::IntegerRegister(register) => register,
        _ => Register::Rax,
    };
    seq![
        Instruction::Move { source: handle, destination: Operand::Register(register) },
        Instruction::LoadEffectiveAddress {
            source: spec_memory(register, crate::layout::SHARED_HEADER_SIZE as i32),
            destination: register,
        },
    ] + match location {
        ArgumentLocation::Stack(displacement) => seq![
            store_rax_instruction(spec_memory(Register::Rsp, displacement)),
        ],
        _ => Seq::empty(),
    }
}

pub fn select_shared_payload_address(
    handle: Operand,
    location: ArgumentLocation,
    output: &mut Vec<Instruction>,
)
    requires
        integer_location(location),
    ensures
        final(output)@ == old(output)@ + payload_address_instructions(handle, location),
{
    let ghost before = output@;
    let destination = match location {
        ArgumentLocation::IntegerRegister(register) => register,
        _ => Register::Rax,
    };
    output.push(Instruction::Move { source: handle, destination: Operand::Register(destination) });
    output.push(
        Instruction::LoadEffectiveAddress {
            source: memory(destination, crate::layout::SHARED_HEADER_SIZE as i32),
            destination,
        },
    );
    match location {
        ArgumentLocation::Stack(displacement) => {
            store_rax(memory(Register::Rsp, displacement), output);
        },
        _ => {},
    }
    assert(output@ =~= before + payload_address_instructions(handle, location));
}

/// Whether a direct call target is a function with external linkage.
pub open spec fn calls_external(program: &MirProgram, direct_target: Option<CallableId>) -> bool {
    direct_target matches Some(CallableId::Function(function)) && program.external_functions@.contains(
        function,
    )
}

fn is_external_function(program: &MirProgram, function: FunctionId) -> (r: bool)
    ensures
        r == program.external_functions@.contains(function),
{
    let mut k: usize = 0;
    while k < program.external_functions.len()
        invariant
            k <= program.external_functions@.len(),
            forall|j: int| 0 <= j < k ==> program.external_functions@[j] != function,
        decreases program.external_functions@.len() - k,
    {
        if program.external_functions[k] == function {
            assert(program.external_functions@[k as int] == function);
            return true;
        }
        k = k + 1;
    }
    false
}

/// An external `bool` result is only defined in `al`: it is widened before
/// use; other results are used as returned.
pub open spec fn bool_normalization(
    program: &MirProgram,
    direct_target: Option<CallableId>,
    return_type: MirType,
) -> Seq<Instruction> {
    if return_type == MirType::Bool && calls_external(program, direct_target) {
        seq![Instruction::ZeroExtendByte { source: ByteRegister::Al, destination: Register::Rax }]
    } else {
        Seq::empty()
    }
}

pub fn normalize_external_bool_result(
    program: &MirProgram,
    direct_target: Option<CallableId>,
    return_type: MirType,
    output: &mut Vec<Instruction>,
)
    ensures
        final(output)@ == old(output)@ + bool_normalization(program, direct_target, return_type),
{
    let ghost before = output@;
    let external = match direct_target {
        Some(CallableId::Function(function)) => is_external_function(program, function),
        _ => false,
    };
    if return_type == MirType::Bool && external {
        output.push(Instruction::ZeroExtendByte { source: ByteRegister::Al, destination: Register::Rax });
    }
    assert(output@ =~= before + bool_normalization(program, direct_target, return_type));
}

/// After a call: the outgoing argument area is released, an external
/// `bool` is widened, and the result is stored to its value home or its
/// shared owner.
pub open spec fn finish_call_instructions(
    program: &MirProgram,
    frame: &FrameLayout,
    stack_size: u32,
    direct_target: Option<CallableId>,
    return_type: MirType,
    result: Option<ValueId>,
    shared_result: Option<StorageId>,
) -> Seq<Instruction> {
    (if stack_size != 0 {
        seq![Instruction::ReleaseStack(stack_size)]
    } else {
        Seq::empty()
    }) + bool_normalization(program, direct_target, return_type) + match result {
        Some(result) => call_result_instructions(frame, return_type, result),
        None => Seq::empty(),
    } + match shared_result {
        Some(owner) => seq![store_rax_instruction(storage_operand(frame, owner))],
        None => Seq::empty(),
    }
}

pub fn finish_call(
    program: &MirProgram,
    frame: &FrameLayout,
    layout: &CallLayout,
    direct_target: Option<CallableId>,
    return_type: MirType,
    result: Option<ValueId>,
    shared_result: Option<StorageId>,
    output: &mut Vec<Instruction>,
)
    requires
        result matches Some(result) ==> result.idx < frame.value_offsets@.len(),
        shared_result matches Some(owner) ==> owner.idx < frame.storage_offsets@.len(),
    ensures
        final(output)@ == old(output)@ + finish_call_instructions(
            program,
            frame,
            layout.stack_size,
            direct_target,
            return_type,
            result,
            shared_result,
        ),
{
    let ghost before = output@;
    if layout.stack_size() != 0 {
        output.push(Instruction::ReleaseStack(layout.stack_size()));
    }
    normalize_external_bool_result(program, direct_target, return_type, output);
    match result {
        Some(result) => store_call_result(frame, return_type, result, output),
        None => {},
    }
    match shared_result {
        Some(owner) => store_rax(frame_storage(frame, owner), output),
        None => {},
    }
    assert(output@ =~= before + finish_call_instructions(
        program,
        frame,
        layout.stack_size,
        direct_target,
        return_type,
        result,
        shared_result,
    ));
}

} // verus!
