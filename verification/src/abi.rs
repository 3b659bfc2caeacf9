//! System V AMD64 scalar argument classification used by this backend.
//!
//! Integer-class and SSE-class arguments consume their own register files
//! independently; once a class is exhausted its arguments take consecutive
//! eight-byte slots of one shared, source-ordered outgoing stack area.

use vstd::prelude::*;

use crate::machine::{Register, XmmRegister};
use crate::mir::{MirParameter, MirParameterMode, MirType};

verus! {

pub const INTEGER_ARGUMENT_REGISTER_COUNT: usize = 6;
pub const SSE_ARGUMENT_REGISTER_COUNT: usize = 8;
pub const STACK_ALIGNMENT: usize = 16;
pub const STACK_SLOT_SIZE: usize = 8;
pub const INCOMING_STACK_BASE: i32 = 16;

/// The `index`-th System V integer argument register.
pub open spec fn spec_integer_argument_register(index: int) -> Register {
    if index == 0 {
        Register::Rdi
    } else if index == 1 {
        Register::Rsi
    } else if index == 2 {
        Register::Rdx
    } else if index == 3 {
        Register::Rcx
    } else if index == 4 {
        Register::R8
    } else {
        Register::R9
    }
}

/// The `index`-th System V SSE argument register.
pub open spec fn spec_sse_argument_register(index: int) -> XmmRegister {
    if index == 0 {
        XmmRegister::Xmm0
    } else if index == 1 {
        XmmRegister::Xmm1
    } else if index == 2 {
        XmmRegister::Xmm2
    } else if index == 3 {
        XmmRegister::Xmm3
    } else if index == 4 {
        XmmRegister::Xmm4
    } else if index == 5 {
        XmmRegister::Xmm5
    } else if index == 6 {
        XmmRegister::Xmm6
    } else {
        XmmRegister::Xmm7
    }
}

pub fn integer_argument_register(index: usize) -> (r: Register)
    requires
        index < INTEGER_ARGUMENT_REGISTER_COUNT,
    ensures
        r == spec_integer_argument_register(index as int),
{
    match index {
        0 => Register::Rdi,
        1 => Register::Rsi,
        2 => Register::Rdx,
        3 => Register::Rcx,
        4 => Register::R8,
        _ => Register::R9,
    }
}

pub fn sse_argument_register(index: usize) -> (r: XmmRegister)
    requires
        index < SSE_ARGUMENT_REGISTER_COUNT,
    ensures
        r == spec_sse_argument_register(index as int),
{
    match index {
        0 => XmmRegister::Xmm0,
        1 => XmmRegister::Xmm1,
        2 => XmmRegister::Xmm2,
        3 => XmmRegister::Xmm3,
        4 => XmmRegister::Xmm4,
        5 => XmmRegister::Xmm5,
        6 => XmmRegister::Xmm6,
        _ => XmmRegister::Xmm7,
    }
}

/// Where one eight-byte argument component travels.
#[derive(Clone, Copy, Debug, PartialEq, Eq, Structural)]
pub enum ArgumentLocation {
    IntegerRegister(Register),
    SseRegister(XmmRegister),
    /// Byte offset in the caller's outgoing argument area.
    Stack(i32),
}

/// The location as seen by the callee after `call` and the frame-pointer
/// push: stack offsets move up by the return address and saved `rbp`.
pub open spec fn spec_incoming(location: ArgumentLocation) -> Option<ArgumentLocation> {
    match location {
        ArgumentLocation::Stack(offset) => if offset + INCOMING_STACK_BASE <= i32::MAX {
            Some(ArgumentLocation::Stack((offset + INCOMING_STACK_BASE) as i32))
        } else {
            None
        },
        register => Some(register),
    }
}

impl ArgumentLocation {
    pub fn incoming(self) -> (r: Option<Self>)
        ensures
            r == spec_incoming(self),
    {
        match self {
            ArgumentLocation::Stack(offset) => match offset.checked_add(INCOMING_STACK_BASE) {
                Some(moved) => Some(ArgumentLocation::Stack(moved)),
                None => None,
            },
            register => Some(register),
        }
    }
}

/// The three words of a hidden object receiver.
#[derive(Clone, Copy, Debug, PartialEq, Eq, Structural)]
pub struct ObjectLocations {
    pub address: ArgumentLocation,
    pub complete: ArgumentLocation,
    pub metadata: ArgumentLocation,
}

pub open spec fn spec_object_incoming(locations: ObjectLocations) -> Option<ObjectLocations> {
    match (
        spec_incoming(locations.address),
        spec_incoming(locations.complete),
        spec_incoming(locations.metadata),
    ) {
        (Some(address), Some(complete), Some(metadata)) => Some(
            ObjectLocations { address, complete, metadata },
        ),
        _ => None,
    }
}

impl ObjectLocations {
    pub fn address(self) -> (r: ArgumentLocation)
        ensures
            r == self.address,
    {
        self.address
    }

    pub fn complete(self) -> (r: ArgumentLocation)
        ensures
            r == self.complete,
    {
        self.complete
    }

    pub fn metadata(self) -> (r: ArgumentLocation)
        ensures
            r == self.metadata,
    {
        self.metadata
    }

    pub fn incoming(self) -> (r: Option<Self>)
        ensures
            r == spec_object_incoming(self),
    {
        let address = match self.address.incoming() {
            Some(location) => location,
            None => return None,
        };
        let complete = match self.complete.incoming() {
            Some(location) => location,
            None => return None,
        };
        let metadata = match self.metadata.incoming() {
            Some(location) => location,
            None => return None,
        };
        Some(ObjectLocations { address, complete, metadata })
    }
}

/// The complete-object address and dynamic metadata that accompany an
/// object alias.
#[derive(Clone, Copy, Debug, PartialEq, Eq, Structural)]
pub struct ObjectOriginLocations {
    pub complete: ArgumentLocation,
    pub metadata: ArgumentLocation,
}

pub open spec fn spec_origin_incoming(origin: ObjectOriginLocations) -> Option<
    ObjectOriginLocations,
> {
    match (spec_incoming(origin.complete), spec_incoming(origin.metadata)) {
        (Some(complete), Some(metadata)) => Some(ObjectOriginLocations { complete, metadata }),
        _ => None,
    }
}

impl ObjectOriginLocations {
    pub fn new(complete: ArgumentLocation, metadata: ArgumentLocation) -> (r: Self)
        ensures
            r == (ObjectOriginLocations { complete, metadata }),
    {
        ObjectOriginLocations { complete, metadata }
    }

    pub fn complete(self) -> (r: ArgumentLocation)
        ensures
            r == self.complete,
    {
        self.complete
    }

    pub fn metadata(self) -> (r: ArgumentLocation)
        ensures
            r == self.metadata,
    {
        self.metadata
    }

    pub fn incoming(self) -> (r: Option<Self>)
        ensures
            r == spec_origin_incoming(self),
    {
        let complete = match self.complete.incoming() {
            Some(location) => location,
            None => return None,
        };
        let metadata = match self.metadata.incoming() {
            Some(location) => location,
            None => return None,
        };
        Some(ObjectOriginLocations { complete, metadata })
    }
}

/// The value word of one parameter and, for object aliases, its origin words.
#[derive(Clone, Copy, Debug, PartialEq, Eq, Structural)]
pub struct ParameterLocations {
    pub value: ArgumentLocation,
    pub origin: Option<ObjectOriginLocations>,
}

pub open spec fn spec_parameter_incoming(locations: ParameterLocations) -> Option<
    ParameterLocations,
> {
    match spec_incoming(locations.value) {
        None => None,
        Some(value) => match locations.origin {
            None => Some(ParameterLocations { value, origin: None }),
            Some(origin) => match spec_origin_incoming(origin) {
                None => None,
                Some(moved) => Some(ParameterLocations { value, origin: Some(moved) }),
            },
        },
    }
}

impl ParameterLocations {
    pub fn value(self) -> (r: ArgumentLocation)
        ensures
            r == self.value,
    {
        self.value
    }

    pub fn origin(self) -> (r: Option<ObjectOriginLocations>)
        ensures
            r == self.origin,
    {
        self.origin
    }

    pub fn incoming(self) -> (r: Option<Self>)
        ensures
            r == spec_parameter_incoming(self),
    {
        let value = match self.value.incoming() {
            Some(location) => location,
            None => return None,
        };
        let origin = match self.origin {
            Some(origin) => match origin.incoming() {
                Some(moved) => Some(moved),
                None => return None,
            },
            None => None,
        };
        Some(ParameterLocations { value, origin })
    }
}

/// The register file that an eight-byte component belongs to.
#[derive(Clone, Copy, Debug, PartialEq, Eq, Structural)]
pub enum ScalarClass {
    Integer,
    Sse,
}

/// The class of a parameter's value word; `None` for payload-free types.
pub open spec fn spec_parameter_class(parameter: MirParameter) -> Option<ScalarClass> {
    match parameter.mode {
        MirParameterMode::ReadOnlyAlias | MirParameterMode::MutableAlias => Some(
            ScalarClass::Integer,
        ),
        MirParameterMode::Value => match parameter.ty {
            MirType::F64 => Some(ScalarClass::Sse),
            MirType::Interface(_) | MirType::Obj | MirType::Unit => None,
            _ => Some(ScalarClass::Integer),
        },
    }
}

/// Classifies every MIR type supported by this scalar ABI profile.
pub fn parameter_class(parameter: MirParameter) -> (r: Option<ScalarClass>)
    ensures
        r == spec_parameter_class(parameter),
{
    match parameter.mode {
        MirParameterMode::ReadOnlyAlias | MirParameterMode::MutableAlias => Some(
            ScalarClass::Integer,
        ),
        MirParameterMode::Value => match parameter.ty {
            MirType::I64
            | MirType::U64
            | MirType::U8
            | MirType::Bool
            | MirType::Class(_)
            | MirType::Shared(_)
            | MirType::OptionalShared(_)
            | MirType::OptionalPrimitive(_)
            | MirType::OptionalClass(_)
            | MirType::Array(_) => Some(ScalarClass::Integer),
            MirType::F64 => Some(ScalarClass::Sse),
            MirType::Interface(_) | MirType::Obj | MirType::Unit => None,
        },
    }
}

/// Aliases of object views also pass the complete object and its metadata.
pub open spec fn spec_alias_carries_object_origin(parameter: MirParameter) -> bool {
    (parameter.mode == MirParameterMode::ReadOnlyAlias || parameter.mode
        == MirParameterMode::MutableAlias) && (parameter.ty is Class || parameter.ty is Interface
        || parameter.ty is Obj)
}

pub fn alias_carries_object_origin(parameter: MirParameter) -> (r: bool)
    ensures
        r == spec_alias_carries_object_origin(parameter),
{
    let alias = match parameter.mode {
        MirParameterMode::ReadOnlyAlias | MirParameterMode::MutableAlias => true,
        MirParameterMode::Value => false,
    };
    let object = match parameter.ty {
        MirType::Class(_) | MirType::Interface(_) | MirType::Obj => true,
        _ => false,
    };
    alias && object
}

/// Running register and stack-slot counters of one classification.
#[derive(Clone, Copy, Debug, PartialEq, Eq, Structural)]
pub struct Classifier {
    pub integer_index: usize,
    pub sse_index: usize,
    pub stack_count: usize,
}

/// The outgoing stack slot with the given index, when its byte offset is
/// representable as a signed 32-bit displacement.
pub open spec fn spec_stack_location(index: int) -> Option<ArgumentLocation> {
    if index * 8 <= i32::MAX {
        Some(ArgumentLocation::Stack((index * 8) as i32))
    } else {
        None
    }
}

pub fn stack_location(index: usize) -> (r: Option<ArgumentLocation>)
    ensures
        r == spec_stack_location(index as int),
{
    match index.checked_mul(STACK_SLOT_SIZE) {
        Some(offset) => if offset <= 0x7fff_ffffusize {
            Some(ArgumentLocation::Stack(offset as i32))
        } else {
            None
        },
        None => None,
    }
}

/// One classification step: the next register of the class, or else the
/// next shared stack slot.
pub open spec fn spec_classify(state: Classifier, class: ScalarClass) -> Option<
    (ArgumentLocation, Classifier),
> {
    let stack = match spec_stack_location(state.stack_count as int) {
        Some(location) => Some(
            (
                location,
                Classifier {
                    integer_index: state.integer_index,
                    sse_index: state.sse_index,
                    stack_count: (state.stack_count + 1) as usize,
                },
            ),
        ),
        None => None,
    };
    match class {
        ScalarClass::Sse => if state.sse_index < SSE_ARGUMENT_REGISTER_COUNT {
            Some(
                (
                    ArgumentLocation::SseRegister(
                        spec_sse_argument_register(state.sse_index as int),
                    ),
                    Classifier {
                        integer_index: state.integer_index,
                        sse_index: (state.sse_index + 1) as usize,
                        stack_count: state.stack_count,
                    },
                ),
            )
        } else {
            stack
        },
        ScalarClass::Integer => if state.integer_index < INTEGER_ARGUMENT_REGISTER_COUNT {
            Some(
                (
                    ArgumentLocation::IntegerRegister(
                        spec_integer_argument_register(state.integer_index as int),
                    ),
                    Classifier {
                        integer_index: (state.integer_index + 1) as usize,
                        sse_index: state.sse_index,
                        stack_count: state.stack_count,
                    },
                ),
            )
        } else {
            stack
        },
    }
}

/// The counters stay inside their register files and the stack area stays
/// addressable.
pub open spec fn classifier_wf(state: Classifier) -> bool {
    &&& state.integer_index <= INTEGER_ARGUMENT_REGISTER_COUNT
    &&& state.sse_index <= SSE_ARGUMENT_REGISTER_COUNT
    &&& state.stack_count * 8 <= i32::MAX + 8
}

impl Classifier {
    pub fn classify(&mut self, class: ScalarClass) -> (r: Option<ArgumentLocation>)
        requires
            classifier_wf(*old(self)),
        ensures
            classifier_wf(*final(self)),
            match spec_classify(*old(self), class) {
                Some((location, next)) => r == Some(location) && *final(self) == next,
                None => r is None,
            },
    {
        let location = match class {
            ScalarClass::Sse => if self.sse_index < SSE_ARGUMENT_REGISTER_COUNT {
                let register = sse_argument_register(self.sse_index);
                self.sse_index = self.sse_index + 1;
                ArgumentLocation::SseRegister(register)
            } else {
                match stack_location(self.stack_count) {
                    Some(location) => location,
                    None => return None,
                }
            },
            ScalarClass::Integer => if self.integer_index < INTEGER_ARGUMENT_REGISTER_COUNT {
                let register = integer_argument_register(self.integer_index);
                self.integer_index = self.integer_index + 1;
                ArgumentLocation::IntegerRegister(register)
            } else {
                match stack_location(self.stack_count) {
                    Some(location) => location,
                    None => return None,
                }
            },
        };
        if let ArgumentLocation::Stack(_) = location {
            self.stack_count = self.stack_count + 1;
        }
        Some(location)
    }
}

/// A failure on a prefix of the parameters fails the whole classification.
pub proof fn lemma_classify_prefix_fails(state: Classifier, parameters: Seq<MirParameter>, k: int)
    requires
        0 <= k <= parameters.len(),
        spec_classify_parameters(state, parameters.take(k)) is None,
    ensures
        spec_classify_parameters(state, parameters) is None,
    decreases parameters.len() - k,
{
    if k < parameters.len() {
        assert(parameters.take(k + 1).drop_last() =~= parameters.take(k));
        lemma_classify_prefix_fails(state, parameters, k + 1);
    } else {
        assert(parameters.take(k) =~= parameters);
    }
}

/// The position of an integer argument register in the argument order.
pub open spec fn integer_register_position(register: Register) -> int {
    match register {
        Register::Rdi => 0,
        Register::Rsi => 1,
        Register::Rdx => 2,
        Register::Rcx => 3,
        Register::R8 => 4,
        Register::R9 => 5,
        _ => -1,
    }
}

/// The position of an SSE argument register in the argument order.
pub open spec fn sse_register_position(register: XmmRegister) -> int {
    match register {
        XmmRegister::Xmm0 => 0,
        XmmRegister::Xmm1 => 1,
        XmmRegister::Xmm2 => 2,
        XmmRegister::Xmm3 => 3,
        XmmRegister::Xmm4 => 4,
        XmmRegister::Xmm5 => 5,
        XmmRegister::Xmm6 => 6,
        XmmRegister::Xmm7 => 7,
        _ => -1,
    }
}

/// A location that the counters have already handed out.
pub open spec fn handed_out(location: ArgumentLocation, state: Classifier) -> bool {
    match location {
        ArgumentLocation::IntegerRegister(register) => 0 <= integer_register_position(register)
            < state.integer_index,
        ArgumentLocation::SseRegister(register) => 0 <= sse_register_position(register)
            < state.sse_index,
        ArgumentLocation::Stack(offset) => offset % 8 == 0 && 0 <= offset / 8 < state.stack_count,
    }
}

/// The words of one parameter: its value, then its origin words.
pub open spec fn parameter_words(location: ParameterLocations) -> Seq<ArgumentLocation> {
    match location.origin {
        Some(origin) => seq![location.value, origin.complete, origin.metadata],
        None => seq![location.value],
    }
}

pub open spec fn parameters_words(locations: Seq<ParameterLocations>) -> Seq<ArgumentLocation>
    decreases locations.len(),
{
    if locations.len() == 0 {
        Seq::empty()
    } else {
        parameters_words(locations.drop_last()) + parameter_words(locations.last())
    }
}

pub open spec fn receiver_words(receiver: Option<ObjectLocations>) -> Seq<ArgumentLocation> {
    match receiver {
        Some(object) => seq![object.address, object.complete, object.metadata],
        None => Seq::empty(),
    }
}

/// Every word a call passes, in order: the return destination, the
/// receiver's words, then each parameter's words.
pub open spec fn call_words(model: CallLayoutModel) -> Seq<ArgumentLocation> {
    (match model.return_destination {
        Some(location) => seq![location],
        None => Seq::empty(),
    }) + receiver_words(model.receiver) + parameters_words(model.locations)
}

/// The words are distinct, were free before `before`, and are handed out
/// by `after`, which hands out everything `before` did.
pub open spec fn fresh_words(words: Seq<ArgumentLocation>, before: Classifier, after: Classifier) -> bool {
    &&& words.no_duplicates()
    &&& forall|i: int| 0 <= i < words.len() ==> !handed_out(#[trigger] words[i], before)
    &&& forall|i: int| 0 <= i < words.len() ==> handed_out(#[trigger] words[i], after)
    &&& forall|location: ArgumentLocation| #[trigger]
        handed_out(location, before) ==> handed_out(location, after)
    &&& after.integer_index <= INTEGER_ARGUMENT_REGISTER_COUNT
    &&& after.sse_index <= SSE_ARGUMENT_REGISTER_COUNT
}

proof fn lemma_classify_fresh(state: Classifier, class: ScalarClass)
    requires
        state.integer_index <= INTEGER_ARGUMENT_REGISTER_COUNT,
        state.sse_index <= SSE_ARGUMENT_REGISTER_COUNT,
        spec_classify(state, class) is Some,
    ensures
        fresh_words(
            seq![spec_classify(state, class).unwrap().0],
            state,
            spec_classify(state, class).unwrap().1,
        ),
{
    let (location, next) = spec_classify(state, class).unwrap();
    assert(seq![location][0] == location);
    match location {
        ArgumentLocation::Stack(offset) => {
            assert(offset == state.stack_count * 8);
            assert(offset % 8 == 0 && offset / 8 == state.stack_count) by (nonlinear_arith)
                requires
                    offset == state.stack_count * 8,
            ;
        },
        _ => {},
    }
}

proof fn lemma_fresh_concat(
    first: Seq<ArgumentLocation>,
    second: Seq<ArgumentLocation>,
    s0: Classifier,
    s1: Classifier,
    s2: Classifier,
)
    requires
        fresh_words(first, s0, s1),
        fresh_words(second, s1, s2),
    ensures
        fresh_words(first + second, s0, s2),
{
    let words = first + second;
    assert forall|i: int, j: int| 0 <= i < j < words.len() implies words[i] != words[j] by {
        if j < first.len() {
            assert(first[i] != first[j]);
        } else if i >= first.len() {
            assert(second[i - first.len()] != second[j - first.len()]);
        } else {
            assert(handed_out(first[i], s1));
            assert(!handed_out(second[j - first.len()], s1));
        }
    }
    assert forall|i: int| 0 <= i < words.len() implies !handed_out(#[trigger] words[i], s0) && handed_out(
        words[i],
        s2,
    ) by {
        if i < first.len() {
            assert(words[i] == first[i]);
        } else {
            assert(words[i] == second[i - first.len()]);
            if handed_out(second[i - first.len()], s0) {
                assert(handed_out(second[i - first.len()], s1));
            }
        }
    }
}

proof fn lemma_parameter_fresh(state: Classifier, parameter: MirParameter)
    requires
        state.integer_index <= INTEGER_ARGUMENT_REGISTER_COUNT,
        state.sse_index <= SSE_ARGUMENT_REGISTER_COUNT,
        spec_classify_parameter(state, parameter) is Some,
    ensures
        fresh_words(
            parameter_words(spec_classify_parameter(state, parameter).unwrap().0),
            state,
            spec_classify_parameter(state, parameter).unwrap().1,
        ),
{
    let class = spec_parameter_class(parameter).unwrap();
    let (value, s1) = spec_classify(state, class).unwrap();
    lemma_classify_fresh(state, class);
    if spec_alias_carries_object_origin(parameter) {
        let (complete, s2) = spec_classify(s1, ScalarClass::Integer).unwrap();
        lemma_classify_fresh(s1, ScalarClass::Integer);
        let (metadata, s3) = spec_classify(s2, ScalarClass::Integer).unwrap();
        lemma_classify_fresh(s2, ScalarClass::Integer);
        lemma_fresh_concat(seq![value], seq![complete], state, s1, s2);
        lemma_fresh_concat(seq![value] + seq![complete], seq![metadata], state, s2, s3);
        assert(seq![value] + seq![complete] + seq![metadata] =~= seq![value, complete, metadata]);
    }
}

proof fn lemma_parameters_fresh(state: Classifier, parameters: Seq<MirParameter>)
    requires
        state.integer_index <= INTEGER_ARGUMENT_REGISTER_COUNT,
        state.sse_index <= SSE_ARGUMENT_REGISTER_COUNT,
        spec_classify_parameters(state, parameters) is Some,
    ensures
        fresh_words(
            parameters_words(spec_classify_parameters(state, parameters).unwrap().0),
            state,
            spec_classify_parameters(state, parameters).unwrap().1,
        ),
    decreases parameters.len(),
{
    if parameters.len() == 0 {
        assert(parameters_words(Seq::<ParameterLocations>::empty()) =~= Seq::<ArgumentLocation>::empty());
    } else {
        lemma_parameters_fresh(state, parameters.drop_last());
        let (locations, after) = spec_classify_parameters(state, parameters.drop_last()).unwrap();
        lemma_parameter_fresh(after, parameters.last());
        let (location, next) = spec_classify_parameter(after, parameters.last()).unwrap();
        assert(locations.push(location).drop_last() =~= locations);
        lemma_fresh_concat(parameters_words(locations), parameter_words(location), state, after, next);
    }
}

/// No two words of a call share a location: the return destination, the
/// receiver's words and every parameter's words are pairwise distinct,
/// because each register file and the stack area are handed out in order
/// and never twice.
pub proof fn lemma_call_words_distinct(
    parameters: Seq<MirParameter>,
    has_receiver: bool,
    has_return_destination: bool,
)
    requires
        spec_call_layout(parameters, has_receiver, has_return_destination) is Some,
    ensures
        call_words(spec_call_layout(parameters, has_receiver, has_return_destination).unwrap()).no_duplicates(),
{
    let model = spec_call_layout(parameters, has_receiver, has_return_destination).unwrap();
    let s0 = initial_classifier(has_return_destination);
    let (receiver, s1) = spec_classify_receiver(s0, has_receiver).unwrap();
    let (locations, s2) = spec_classify_parameters(s1, parameters).unwrap();
    if has_receiver {
        let (address, a1) = spec_classify(s0, ScalarClass::Integer).unwrap();
        lemma_classify_fresh(s0, ScalarClass::Integer);
        let (complete, a2) = spec_classify(a1, ScalarClass::Integer).unwrap();
        lemma_classify_fresh(a1, ScalarClass::Integer);
        let (metadata, a3) = spec_classify(a2, ScalarClass::Integer).unwrap();
        lemma_classify_fresh(a2, ScalarClass::Integer);
        lemma_fresh_concat(seq![address], seq![complete], s0, a1, a2);
        lemma_fresh_concat(seq![address] + seq![complete], seq![metadata], s0, a2, a3);
        assert(seq![address] + seq![complete] + seq![metadata] =~= receiver_words(receiver));
    } else {
        assert(receiver_words(receiver) =~= Seq::<ArgumentLocation>::empty());
        assert(fresh_words(receiver_words(receiver), s0, s1));
    }
    lemma_parameters_fresh(s1, parameters);
    lemma_fresh_concat(receiver_words(receiver), parameters_words(locations), s0, s1, s2);
    let rest = receiver_words(receiver) + parameters_words(locations);
    if has_return_destination {
        let first = seq![ArgumentLocation::IntegerRegister(Register::Rdi)];
        assert(handed_out(ArgumentLocation::IntegerRegister(Register::Rdi), s0));
        let words = first + rest;
        assert forall|i: int, j: int| 0 <= i < j < words.len() implies words[i] != words[j] by {
            if i == 0 {
                assert(words[j] == rest[j - 1]);
                assert(!handed_out(rest[j - 1], s0));
            } else {
                assert(rest[i - 1] != rest[j - 1]);
            }
        }
        assert(call_words(model) == words);
    } else {
        assert(call_words(model) =~= rest);
    }
}

/// Classifies one parameter: its value word, then its origin words.
pub open spec fn spec_classify_parameter(state: Classifier, parameter: MirParameter) -> Option<
    (ParameterLocations, Classifier),
> {
    match spec_parameter_class(parameter) {
        None => None,
        Some(class) => match spec_classify(state, class) {
            None => None,
            Some((value, after_value)) => if spec_alias_carries_object_origin(parameter) {
                match spec_classify(after_value, ScalarClass::Integer) {
                    None => None,
                    Some((complete, after_complete)) => match spec_classify(
                        after_complete,
                        ScalarClass::Integer,
                    ) {
                        None => None,
                        Some((metadata, after_metadata)) => Some(
                            (
                                ParameterLocations {
                                    value,
                                    origin: Some(ObjectOriginLocations { complete, metadata }),
                                },
                                after_metadata,
                            ),
                        ),
                    },
                }
            } else {
                Some((ParameterLocations { value, origin: None }, after_value))
            },
        },
    }
}

impl Classifier {
    pub fn classify_parameter(&mut self, parameter: MirParameter) -> (r: Option<
        ParameterLocations,
    >)
        requires
            classifier_wf(*old(self)),
        ensures
            classifier_wf(*final(self)),
            match spec_classify_parameter(*old(self), parameter) {
                Some((location, next)) => r == Some(location) && *final(self) == next,
                None => r is None,
            },
    {
        let class = match parameter_class(parameter) {
            Some(class) => class,
            None => return None,
        };
        let value = match self.classify(class) {
            Some(location) => location,
            None => return None,
        };
        let origin = if alias_carries_object_origin(parameter) {
            let complete = match self.classify(ScalarClass::Integer) {
                Some(location) => location,
                None => return None,
            };
            let metadata = match self.classify(ScalarClass::Integer) {
                Some(location) => location,
                None => return None,
            };
            Some(ObjectOriginLocations { complete, metadata })
        } else {
            None
        };
        Some(ParameterLocations { value, origin })
    }
}

/// Classifies parameters in source order.
pub open spec fn spec_classify_parameters(state: Classifier, parameters: Seq<MirParameter>) -> Option<
    (Seq<ParameterLocations>, Classifier),
>
    decreases parameters.len(),
{
    if parameters.len() == 0 {
        Some((Seq::empty(), state))
    } else {
        match spec_classify_parameters(state, parameters.drop_last()) {
            None => None,
            Some((locations, after)) => match spec_classify_parameter(after, parameters.last()) {
                None => None,
                Some((location, next)) => Some((locations.push(location), next)),
            },
        }
    }
}

/// The hidden receiver, when present, takes three integer words first.
pub open spec fn spec_classify_receiver(state: Classifier, has_receiver: bool) -> Option<
    (Option<ObjectLocations>, Classifier),
> {
    if !has_receiver {
        Some((None, state))
    } else {
        match spec_classify(state, ScalarClass::Integer) {
            None => None,
            Some((address, s1)) => match spec_classify(s1, ScalarClass::Integer) {
                None => None,
                Some((complete, s2)) => match spec_classify(s2, ScalarClass::Integer) {
                    None => None,
                    Some((metadata, s3)) => Some(
                        (Some(ObjectLocations { address, complete, metadata }), s3),
                    ),
                },
            },
        }
    }
}

/// `value` rounded up to a multiple of `alignment`, when that fits in `usize`.
pub open spec fn spec_align_up(value: int, alignment: int) -> Option<int> {
    if value + alignment - 1 <= usize::MAX {
        Some((value + alignment - 1) - (value + alignment - 1) % alignment)
    } else {
        None
    }
}

/// The rounded value is the least multiple of `alignment` not below `value`.
pub proof fn lemma_align_up(value: int, alignment: int)
    requires
        0 <= value,
        0 < alignment,
        spec_align_up(value, alignment) is Some,
    ensures
        ({
            let aligned = spec_align_up(value, alignment).unwrap();
            &&& aligned % alignment == 0
            &&& value <= aligned < value + alignment
            &&& aligned <= usize::MAX
        }),
{
    let rounded = value + alignment - 1;
    let quotient = rounded / alignment;
    vstd::arithmetic::div_mod::lemma_fundamental_div_mod(rounded, alignment);
    vstd::arithmetic::div_mod::lemma_mod_bound(rounded, alignment);
    vstd::arithmetic::mul::lemma_mul_is_commutative(alignment, quotient);
    vstd::arithmetic::div_mod::lemma_mod_multiples_basic(quotient, alignment);
    assert(rounded - rounded % alignment == quotient * alignment);
}

pub open spec fn is_power_of_two(value: usize) -> bool {
    exists|exponent: nat| exponent < 64 && vstd::arithmetic::power2::pow2(exponent) == value
}

pub proof fn lemma_power_of_two_positive(value: usize)
    requires
        is_power_of_two(value),
    ensures
        value > 0,
{
    let e = choose|exponent: nat|
        exponent < 64 && vstd::arithmetic::power2::pow2(exponent) == value;
    vstd::arithmetic::power2::lemma_pow2_pos(e);
}

pub proof fn lemma_small_powers_of_two()
    ensures
        is_power_of_two(1),
        is_power_of_two(8),
        is_power_of_two(16),
{
    vstd::arithmetic::power2::lemma2_to64();
    assert(vstd::arithmetic::power2::pow2(0) == 1);
    assert(vstd::arithmetic::power2::pow2(3) == 8);
    assert(vstd::arithmetic::power2::pow2(4) == 16);
}

/// Rounds `value` up to the power-of-two `alignment`, failing on overflow.
pub fn align_up(value: usize, alignment: usize) -> (r: Option<usize>)
    requires
        is_power_of_two(alignment),
    ensures
        match spec_align_up(value as int, alignment as int) {
            Some(aligned) => r == Some(aligned as usize),
            None => r is None,
        },
        r matches Some(aligned) ==> value <= aligned < value + alignment && aligned % alignment
            == 0,
{
    proof {
        let e = choose|exponent: nat|
            exponent < 64 && vstd::arithmetic::power2::pow2(exponent) == alignment;
        vstd::arithmetic::power2::lemma_pow2_pos(e);
    }
    match value.checked_add(alignment - 1) {
        Some(rounded) => {
            proof {
                lemma_align_up(value as int, alignment as int);
            }
            Some(rounded - rounded % alignment)
        },
        None => None,
    }
}

/// The complete argument layout of one call.
#[derive(Clone, Debug, PartialEq, Eq)]
pub struct CallLayout {
    pub return_destination: Option<ArgumentLocation>,
    pub receiver: Option<ObjectLocations>,
    pub locations: Vec<ParameterLocations>,
    pub stack_size: u32,
}

/// The mathematical content of a call layout.
pub struct CallLayoutModel {
    pub return_destination: Option<ArgumentLocation>,
    pub receiver: Option<ObjectLocations>,
    pub locations: Seq<ParameterLocations>,
    pub stack_size: int,
}

impl View for CallLayout {
    type V = CallLayoutModel;

    open spec fn view(&self) -> CallLayoutModel {
        CallLayoutModel {
            return_destination: self.return_destination,
            receiver: self.receiver,
            locations: self.locations@,
            stack_size: self.stack_size as int,
        }
    }
}

pub open spec fn initial_classifier(has_return_destination: bool) -> Classifier {
    Classifier {
        integer_index: if has_return_destination {
            1
        } else {
            0
        },
        sse_index: 0,
        stack_count: 0,
    }
}

/// The stack area, padded to the ABI stack alignment, when it stays
/// addressable with signed 32-bit displacements.
pub open spec fn spec_stack_area(stack_count: int) -> Option<int> {
    let aligned = (stack_count * 8 + 15) - (stack_count * 8 + 15) % 16;
    if aligned <= i32::MAX {
        Some(aligned)
    } else {
        None
    }
}

/// The layout that System V classification assigns to a call, or `None`
/// when a parameter carries no payload or the stack area is unaddressable.
pub open spec fn spec_call_layout(
    parameters: Seq<MirParameter>,
    has_receiver: bool,
    has_return_destination: bool,
) -> Option<CallLayoutModel> {
    match spec_classify_receiver(initial_classifier(has_return_destination), has_receiver) {
        None => None,
        Some((receiver, after_receiver)) => match spec_classify_parameters(
            after_receiver,
            parameters,
        ) {
            None => None,
            Some((locations, last)) => match spec_stack_area(last.stack_count as int) {
                None => None,
                Some(stack_size) => Some(
                    CallLayoutModel {
                        return_destination: if has_return_destination {
                            Some(ArgumentLocation::IntegerRegister(Register::Rdi))
                        } else {
                            None
                        },
                        receiver,
                        locations,
                        stack_size,
                    },
                ),
            },
        },
    }
}

pub open spec fn layout_matches(r: Option<CallLayout>, expected: Option<CallLayoutModel>) -> bool {
    match expected {
        None => r is None,
        Some(model) => r matches Some(layout) && layout@ == model,
    }
}

impl CallLayout {
    pub fn classify(parameters: &Vec<MirParameter>) -> (r: Option<Self>)
        ensures
            layout_matches(r, spec_call_layout(parameters@, false, false)),
    {
        Self::classify_internal(parameters, false, false)
    }

    pub fn classify_with_receiver(parameters: &Vec<MirParameter>) -> (r: Option<Self>)
        ensures
            layout_matches(r, spec_call_layout(parameters@, true, false)),
    {
        Self::classify_internal(parameters, true, false)
    }

    pub fn classify_internal_call(
        parameters: &Vec<MirParameter>,
        has_receiver: bool,
        has_return_destination: bool,
    ) -> (r: Option<Self>)
        ensures
            layout_matches(
                r,
                spec_call_layout(parameters@, has_receiver, has_return_destination),
            ),
    {
        Self::classify_internal(parameters, has_receiver, has_return_destination)
    }

    pub fn classify_internal(
        parameters: &Vec<MirParameter>,
        has_receiver: bool,
        has_return_destination: bool,
    ) -> (r: Option<Self>)
        ensures
            layout_matches(
                r,
                spec_call_layout(parameters@, has_receiver, has_return_destination),
            ),
    {
        let return_destination = if has_return_destination {
            Some(ArgumentLocation::IntegerRegister(integer_argument_register(0)))
        } else {
            None
        };
        let mut classifier = Classifier {
            integer_index: if has_return_destination {
                1
            } else {
                0
            },
            sse_index: 0,
            stack_count: 0,
        };
        let receiver = if has_receiver {
            let address = match classifier.classify(ScalarClass::Integer) {
                Some(location) => location,
                None => return None,
            };
            let complete = match classifier.classify(ScalarClass::Integer) {
                Some(location) => location,
                None => return None,
            };
            let metadata = match classifier.classify(ScalarClass::Integer) {
                Some(location) => location,
                None => return None,
            };
            Some(ObjectLocations { address, complete, metadata })
        } else {
            None
        };
        let ghost after_receiver = classifier;
        assert(spec_classify_receiver(initial_classifier(has_return_destination), has_receiver)
            == Some((receiver, after_receiver)));
        let mut locations: Vec<ParameterLocations> = Vec::new();
        let mut i: usize = 0;
        while i < parameters.len()
            invariant
                i <= parameters@.len(),
                classifier_wf(classifier),
                spec_classify_receiver(initial_classifier(has_return_destination), has_receiver)
                    == Some((receiver, after_receiver)),
                spec_classify_parameters(after_receiver, parameters@.take(i as int)) == Some(
                    (locations@, classifier),
                ),
            decreases parameters@.len() - i,
        {
            let parameter = parameters[i];
            assert(parameters@.take((i + 1) as int).drop_last() =~= parameters@.take(i as int));
            assert(parameters@.take((i + 1) as int).last() == parameter);
            let location = match classifier.classify_parameter(parameter) {
                Some(location) => location,
                None => {
                    proof {
                        lemma_classify_prefix_fails(after_receiver, parameters@, i + 1);
                    }
                    return None;
                },
            };
            locations.push(location);
            i = i + 1;
        }
        assert(parameters@.take(parameters@.len() as int) =~= parameters@);
        let bytes = match classifier.stack_count.checked_mul(STACK_SLOT_SIZE) {
            Some(bytes) => bytes,
            None => return None,
        };
        proof {
            lemma_small_powers_of_two();
        }
        let aligned = match align_up(bytes, STACK_ALIGNMENT) {
            Some(aligned) => aligned,
            None => return None,
        };
        if aligned <= 0x7fff_ffffusize {
            Some(
                CallLayout {
                    return_destination,
                    receiver,
                    locations,
                    stack_size: aligned as u32,
                },
            )
        } else {
            None
        }
    }

    pub fn return_destination(&self) -> (r: Option<ArgumentLocation>)
        ensures
            r == self.return_destination,
    {
        self.return_destination
    }

    /// The address word of the hidden receiver.
    pub fn receiver(&self) -> (r: Option<ArgumentLocation>)
        ensures
            r == match self.receiver {
                Some(receiver) => Some(receiver.address),
                None => None,
            },
    {
        match self.receiver {
            Some(receiver) => Some(receiver.address()),
            None => None,
        }
    }

    pub fn receiver_locations(&self) -> (r: Option<ObjectLocations>)
        ensures
            r == self.receiver,
    {
        self.receiver
    }

    /// The value word of every parameter, in source order.
    pub fn locations(&self) -> (r: Vec<ArgumentLocation>)
        ensures
            r@.len() == self.locations@.len(),
            forall|i: int| 0 <= i < r@.len() ==> #[trigger] r@[i] == self.locations@[i].value,
    {
        let mut values: Vec<ArgumentLocation> = Vec::new();
        let mut i: usize = 0;
        while i < self.locations.len()
            invariant
                i <= self.locations@.len(),
                values@.len() == i,
                forall|j: int| 0 <= j < i ==> #[trigger] values@[j] == self.locations@[j].value,
            decreases self.locations@.len() - i,
        {
            values.push(self.locations[i].value());
            i = i + 1;
        }
        values
    }

    pub fn parameter_locations(&self) -> (r: &Vec<ParameterLocations>)
        ensures
            r@ == self.locations@,
    {
        &self.locations
    }

    pub fn stack_size(&self) -> (r: u32)
        ensures
            r == self.stack_size,
    {
        self.stack_size
    }
}

} // verus!
