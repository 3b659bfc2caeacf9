//! Statically known runtime failure messages and their data objects.
//!
//! Every non-returning failure that needs no dynamic text reports one of a
//! fixed set of messages. A program carries the data object of exactly the
//! messages its functions load.

use vstd::prelude::*;

use vstd::string::StrSliceExecFns;
use vstd::utf8::encode_utf8;

use crate::body::MirTerminationReason;
use crate::emit::{binary_text, line_text, rip_relative_text};
use crate::listing::{lemma_lines_push, lines, one_operand_line};
use crate::machine::{AssemblyFunction, AssemblyPanicMessage, Instruction, Register, register_name};

verus! {

broadcast use lemma_lines_push;

/// A fixed runtime failure message.
#[derive(Clone, Copy, Debug, PartialEq, Eq, Structural)]
pub enum PanicMessage {
    ObjectCastFailure,
    OptionalAccessFailure,
    OptionalGuardOverflow,
    OptionalPinnedMutation,
    ArrayAllocationFailure,
    ArrayIndexOutOfBounds,
    ArrayInvalidSliceBounds,
    ArraySliceLengthMismatch,
    OwnershipCountOverflow,
    ShiftCountOutOfRange,
}

/// The number of fixed messages.
pub const PANIC_MESSAGE_COUNT: usize = 10;

/// The position of a message in the fixed order.
pub open spec fn message_index(message: PanicMessage) -> nat {
    match message {
        PanicMessage::ObjectCastFailure => 0,
        PanicMessage::OptionalAccessFailure => 1,
        PanicMessage::OptionalGuardOverflow => 2,
        PanicMessage::OptionalPinnedMutation => 3,
        PanicMessage::ArrayAllocationFailure => 4,
        PanicMessage::ArrayIndexOutOfBounds => 5,
        PanicMessage::ArrayInvalidSliceBounds => 6,
        PanicMessage::ArraySliceLengthMismatch => 7,
        PanicMessage::OwnershipCountOverflow => 8,
        PanicMessage::ShiftCountOutOfRange => 9,
    }
}

/// The message at a position of the fixed order.
pub open spec fn message_at(index: int) -> PanicMessage {
    if index == 0 {
        PanicMessage::ObjectCastFailure
    } else if index == 1 {
        PanicMessage::OptionalAccessFailure
    } else if index == 2 {
        PanicMessage::OptionalGuardOverflow
    } else if index == 3 {
        PanicMessage::OptionalPinnedMutation
    } else if index == 4 {
        PanicMessage::ArrayAllocationFailure
    } else if index == 5 {
        PanicMessage::ArrayIndexOutOfBounds
    } else if index == 6 {
        PanicMessage::ArrayInvalidSliceBounds
    } else if index == 7 {
        PanicMessage::ArraySliceLengthMismatch
    } else if index == 8 {
        PanicMessage::OwnershipCountOverflow
    } else {
        PanicMessage::ShiftCountOutOfRange
    }
}

/// The text a message reports.
pub open spec fn message_text(message: PanicMessage) -> Seq<char> {
    match message {
        PanicMessage::ObjectCastFailure => "checked object cast failed"@,
        PanicMessage::OptionalAccessFailure => "optional value is absent"@,
        PanicMessage::OptionalGuardOverflow => "optional presence guard overflow"@,
        PanicMessage::OptionalPinnedMutation => "cannot mutate a guarded optional value"@,
        PanicMessage::ArrayAllocationFailure => "array allocation failed"@,
        PanicMessage::ArrayIndexOutOfBounds => "array index out of bounds"@,
        PanicMessage::ArrayInvalidSliceBounds => "array slice bounds are invalid"@,
        PanicMessage::ArraySliceLengthMismatch => "array slice length mismatch"@,
        PanicMessage::OwnershipCountOverflow => "ownership count overflow"@,
        PanicMessage::ShiftCountOutOfRange => "shift count out of range"@,
    }
}

/// The local symbol of a message's data object.
pub open spec fn message_symbol_text(message: PanicMessage) -> Seq<char> {
    match message {
        PanicMessage::ObjectCastFailure => ".Lska_panic_message_0"@,
        PanicMessage::OptionalAccessFailure => ".Lska_panic_message_1"@,
        PanicMessage::OptionalGuardOverflow => ".Lska_panic_message_2"@,
        PanicMessage::OptionalPinnedMutation => ".Lska_panic_message_3"@,
        PanicMessage::ArrayAllocationFailure => ".Lska_panic_message_4"@,
        PanicMessage::ArrayIndexOutOfBounds => ".Lska_panic_message_5"@,
        PanicMessage::ArrayInvalidSliceBounds => ".Lska_panic_message_6"@,
        PanicMessage::ArraySliceLengthMismatch => ".Lska_panic_message_7"@,
        PanicMessage::OwnershipCountOverflow => ".Lska_panic_message_8"@,
        PanicMessage::ShiftCountOutOfRange => ".Lska_panic_message_9"@,
    }
}

/// The fixed message of a termination reason; division failures report
/// through their own dedicated sequences.
pub open spec fn spec_for_reason(reason: MirTerminationReason) -> Option<PanicMessage> {
    match reason {
        MirTerminationReason::ObjectCastFailure => Some(PanicMessage::ObjectCastFailure),
        MirTerminationReason::OptionalAccessFailure => Some(PanicMessage::OptionalAccessFailure),
        MirTerminationReason::OptionalGuardOverflow => Some(PanicMessage::OptionalGuardOverflow),
        MirTerminationReason::OptionalPinnedMutation => Some(PanicMessage::OptionalPinnedMutation),
        MirTerminationReason::ArrayAllocationFailure => Some(PanicMessage::ArrayAllocationFailure),
        MirTerminationReason::ArrayIndexOutOfBounds => Some(PanicMessage::ArrayIndexOutOfBounds),
        MirTerminationReason::ArrayInvalidSliceBounds => Some(
            PanicMessage::ArrayInvalidSliceBounds,
        ),
        MirTerminationReason::ArraySliceLengthMismatch => Some(
            PanicMessage::ArraySliceLengthMismatch,
        ),
        MirTerminationReason::ShiftCountOutOfRange => Some(PanicMessage::ShiftCountOutOfRange),
        MirTerminationReason::IntegerDivisionByZero => None,
        MirTerminationReason::IntegerRemainderByZero => None,
    }
}

impl PanicMessage {
    /// Every message, in the fixed order.
    pub fn all() -> (r: Vec<PanicMessage>)
        ensures
            r@.len() == PANIC_MESSAGE_COUNT,
            forall|i: int| 0 <= i < PANIC_MESSAGE_COUNT ==> r@[i] == message_at(i),
    {
        let r = vec![
            PanicMessage::ObjectCastFailure,
            PanicMessage::OptionalAccessFailure,
            PanicMessage::OptionalGuardOverflow,
            PanicMessage::OptionalPinnedMutation,
            PanicMessage::ArrayAllocationFailure,
            PanicMessage::ArrayIndexOutOfBounds,
            PanicMessage::ArrayInvalidSliceBounds,
            PanicMessage::ArraySliceLengthMismatch,
            PanicMessage::OwnershipCountOverflow,
            PanicMessage::ShiftCountOutOfRange,
        ];
        r
    }

    pub fn for_reason(reason: MirTerminationReason) -> (r: Option<PanicMessage>)
        ensures
            r == spec_for_reason(reason),
    {
        match reason {
            MirTerminationReason::ObjectCastFailure => Some(PanicMessage::ObjectCastFailure),
            MirTerminationReason::OptionalAccessFailure => Some(
                PanicMessage::OptionalAccessFailure,
            ),
            MirTerminationReason::OptionalGuardOverflow => Some(
                PanicMessage::OptionalGuardOverflow,
            ),
            MirTerminationReason::OptionalPinnedMutation => Some(
                PanicMessage::OptionalPinnedMutation,
            ),
            MirTerminationReason::ArrayAllocationFailure => Some(
                PanicMessage::ArrayAllocationFailure,
            ),
            MirTerminationReason::ArrayIndexOutOfBounds => Some(
                PanicMessage::ArrayIndexOutOfBounds,
            ),
            MirTerminationReason::ArrayInvalidSliceBounds => Some(
                PanicMessage::ArrayInvalidSliceBounds,
            ),
            MirTerminationReason::ArraySliceLengthMismatch => Some(
                PanicMessage::ArraySliceLengthMismatch,
            ),
            MirTerminationReason::ShiftCountOutOfRange => Some(PanicMessage::ShiftCountOutOfRange),
            MirTerminationReason::IntegerDivisionByZero => None,
            MirTerminationReason::IntegerRemainderByZero => None,
        }
    }

    pub fn index(self) -> (r: usize)
        ensures
            r == message_index(self),
    {
        match self {
            PanicMessage::ObjectCastFailure => 0,
            PanicMessage::OptionalAccessFailure => 1,
            PanicMessage::OptionalGuardOverflow => 2,
            PanicMessage::OptionalPinnedMutation => 3,
            PanicMessage::ArrayAllocationFailure => 4,
            PanicMessage::ArrayIndexOutOfBounds => 5,
            PanicMessage::ArrayInvalidSliceBounds => 6,
            PanicMessage::ArraySliceLengthMismatch => 7,
            PanicMessage::OwnershipCountOverflow => 8,
            PanicMessage::ShiftCountOutOfRange => 9,
        }
    }

    pub fn text(self) -> (r: &'static str)
        ensures
            r@ == message_text(self),
    {
        match self {
            PanicMessage::ObjectCastFailure => "checked object cast failed",
            PanicMessage::OptionalAccessFailure => "optional value is absent",
            PanicMessage::OptionalGuardOverflow => "optional presence guard overflow",
            PanicMessage::OptionalPinnedMutation => "cannot mutate a guarded optional value",
            PanicMessage::ArrayAllocationFailure => "array allocation failed",
            PanicMessage::ArrayIndexOutOfBounds => "array index out of bounds",
            PanicMessage::ArrayInvalidSliceBounds => "array slice bounds are invalid",
            PanicMessage::ArraySliceLengthMismatch => "array slice length mismatch",
            PanicMessage::OwnershipCountOverflow => "ownership count overflow",
            PanicMessage::ShiftCountOutOfRange => "shift count out of range",
        }
    }

    /// The encoded bytes of the message text.
    pub fn bytes(self) -> (r: Vec<u8>)
        ensures
            r@ == encode_utf8(message_text(self)),
    {
        self.text().as_bytes_vec()
    }

    pub fn symbol(self) -> (r: &'static str)
        ensures
            r@ == message_symbol_text(self),
    {
        match self {
            PanicMessage::ObjectCastFailure => ".Lska_panic_message_0",
            PanicMessage::OptionalAccessFailure => ".Lska_panic_message_1",
            PanicMessage::OptionalGuardOverflow => ".Lska_panic_message_2",
            PanicMessage::OptionalPinnedMutation => ".Lska_panic_message_3",
            PanicMessage::ArrayAllocationFailure => ".Lska_panic_message_4",
            PanicMessage::ArrayIndexOutOfBounds => ".Lska_panic_message_5",
            PanicMessage::ArrayInvalidSliceBounds => ".Lska_panic_message_6",
            PanicMessage::ArraySliceLengthMismatch => ".Lska_panic_message_7",
            PanicMessage::OwnershipCountOverflow => ".Lska_panic_message_8",
            PanicMessage::ShiftCountOutOfRange => ".Lska_panic_message_9",
        }
    }
}

/// Whether some function loads the address of `symbol`.
pub open spec fn loads_symbol(functions: Seq<AssemblyFunction>, symbol: Seq<char>) -> bool {
    exists|f: int, k: int|
        0 <= f < functions.len() && 0 <= k < functions[f].instructions@.len() && (
        #[trigger] functions[f].instructions@[k] matches Instruction::LoadSymbolAddress {
            symbol: loaded,
            ..
        } && loaded@ == symbol)
}

/// Which fixed messages a program's functions use.
pub struct PanicMessagePool {
    used: Vec<bool>,
}

impl PanicMessagePool {
    /// Whether the message at each position is used.
    pub closed spec fn spec_used(&self) -> Seq<bool> {
        self.used@
    }

    /// Marks exactly the messages whose data object some function loads.
    pub fn build(functions: &[AssemblyFunction]) -> (r: Self)
        ensures
            r.spec_used().len() == PANIC_MESSAGE_COUNT,
            forall|i: int|
                0 <= i < PANIC_MESSAGE_COUNT ==> r.spec_used()[i] == loads_symbol(
                    functions@,
                    message_symbol_text(message_at(i)),
                ),
    {
        let all = PanicMessage::all();
        let mut used: Vec<bool> = Vec::new();
        let mut m: usize = 0;
        while m < PANIC_MESSAGE_COUNT
            invariant
                m <= PANIC_MESSAGE_COUNT,
                used@.len() == m,
                all@.len() == PANIC_MESSAGE_COUNT,
                forall|i: int| 0 <= i < PANIC_MESSAGE_COUNT ==> all@[i] == message_at(i),
                forall|i: int|
                    0 <= i < m ==> used@[i] == loads_symbol(
                        functions@,
                        message_symbol_text(message_at(i)),
                    ),
            decreases PANIC_MESSAGE_COUNT - m,
        {
            let wanted = String::from_str(all[m].symbol());
            let mut found = false;
            let mut f: usize = 0;
            while f < functions.len() && !found
                invariant
                    f <= functions@.len(),
                    wanted@ == message_symbol_text(message_at(m as int)),
                    found ==> loads_symbol(functions@, wanted@),
                    !found ==> forall|g: int, k: int|
                        0 <= g < f && 0 <= k < functions@[g].instructions@.len() ==> !(
                        #[trigger] functions@[g].instructions@[k] matches Instruction::LoadSymbolAddress {
                            symbol: loaded,
                            ..
                        } && loaded@ == wanted@),
                decreases functions@.len() - f, (if found { 0int } else { 1int }),
            {
                let instructions = &functions[f].instructions;
                let mut k: usize = 0;
                while k < instructions.len() && !found
                    invariant
                        f < functions@.len(),
                        *instructions == functions@[f as int].instructions,
                        k <= instructions@.len(),
                        found ==> loads_symbol(functions@, wanted@),
                        !found ==> forall|j: int|
                            0 <= j < k ==> !(#[trigger] instructions@[j] matches Instruction::LoadSymbolAddress {
                                symbol: loaded,
                                ..
                            } && loaded@ == wanted@),
                    decreases instructions@.len() - k, (if found { 0int } else { 1int }),
                {
                    match &instructions[k] {
                        Instruction::LoadSymbolAddress { symbol, .. } => {
                            if *symbol == wanted {
                                assert(functions@[f as int].instructions@[k as int]
                                    matches Instruction::LoadSymbolAddress { symbol: loaded, .. }
                                    && loaded@ == wanted@);
                                found = true;
                            }
                        },
                        _ => {},
                    }
                    if !found {
                        k = k + 1;
                    }
                }
                if !found {
                    assert forall|g: int, j: int|
                        0 <= g < f + 1 && 0 <= j < functions@[g].instructions@.len() implies !(
                        #[trigger] functions@[g].instructions@[j] matches Instruction::LoadSymbolAddress {
                            symbol: loaded,
                            ..
                        } && loaded@ == wanted@) by {
                        if g == f as int {
                            assert(instructions@[j] == functions@[g].instructions@[j]);
                        }
                    }
                    f = f + 1;
                }
            }
            proof {
                if !found {
                    assert(!loads_symbol(functions@, wanted@));
                }
            }
            used.push(found);
            m = m + 1;
        }
        PanicMessagePool { used }
    }

    /// The data objects of the used messages, in the fixed order.
    pub fn into_assembly(self) -> (r: Vec<AssemblyPanicMessage>)
        requires
            self.spec_used().len() == PANIC_MESSAGE_COUNT,
        ensures
            r@.len() == used_messages(self.spec_used(), PANIC_MESSAGE_COUNT as nat).len(),
            forall|i: int|
                0 <= i < r@.len() ==> {
                    let message = #[trigger] used_messages(
                        self.spec_used(),
                        PANIC_MESSAGE_COUNT as nat,
                    )[i];
                    &&& r@[i].symbol@ == message_symbol_text(message)
                    &&& r@[i].bytes@ == encode_utf8(message_text(message))
                },
    {
        let all = PanicMessage::all();
        let mut result: Vec<AssemblyPanicMessage> = Vec::new();
        let mut m: usize = 0;
        while m < PANIC_MESSAGE_COUNT
            invariant
                m <= PANIC_MESSAGE_COUNT,
                self.used@.len() == PANIC_MESSAGE_COUNT,
                all@.len() == PANIC_MESSAGE_COUNT,
                forall|i: int| 0 <= i < PANIC_MESSAGE_COUNT ==> all@[i] == message_at(i),
                result@.len() == used_messages(self.used@, m as nat).len(),
                forall|i: int|
                    0 <= i < result@.len() ==> {
                        let message = #[trigger] used_messages(self.used@, m as nat)[i];
                        &&& result@[i].symbol@ == message_symbol_text(message)
                        &&& result@[i].bytes@ == encode_utf8(message_text(message))
                    },
            decreases PANIC_MESSAGE_COUNT - m,
        {
            let ghost before = used_messages(self.used@, m as nat);
            assert(used_messages(self.used@, (m + 1) as nat) == if self.used@[m as int] {
                before.push(message_at(m as int))
            } else {
                before
            });
            if self.used[m] {
                let message = all[m];
                result.push(
                    AssemblyPanicMessage {
                        symbol: String::from_str(message.symbol()),
                        bytes: message.bytes(),
                    },
                );
            }
            m = m + 1;
        }
        result
    }
}

/// The used messages among the first `count` positions, in order.
pub open spec fn used_messages(used: Seq<bool>, count: nat) -> Seq<PanicMessage>
    decreases count,
{
    if count == 0 {
        Seq::empty()
    } else {
        let before = used_messages(used, (count - 1) as nat);
        if used[count - 1] {
            before.push(message_at(count - 1))
        } else {
            before
        }
    }
}

proof fn lemma_message_positions(message: PanicMessage)
    ensures
        message_index(message) < PANIC_MESSAGE_COUNT,
        message_at(message_index(message) as int) == message,
{
}

proof fn lemma_used_prefix(used: Seq<bool>, count: nat)
    requires
        count <= PANIC_MESSAGE_COUNT,
        used.len() == PANIC_MESSAGE_COUNT,
    ensures
        forall|m: PanicMessage|
            #![trigger used_messages(used, count).contains(m)]
            used_messages(used, count).contains(m) <==> (message_index(m) < count
                && used[message_index(m) as int]),
        forall|j: int, k: int|
            0 <= j < k < used_messages(used, count).len() ==> message_index(
                #[trigger] used_messages(used, count)[j],
            ) < message_index(#[trigger] used_messages(used, count)[k]),
        forall|j: int|
            0 <= j < used_messages(used, count).len() ==> message_index(
                #[trigger] used_messages(used, count)[j],
            ) < count,
    decreases count,
{
    if count > 0 {
        lemma_used_prefix(used, (count - 1) as nat);
        let before = used_messages(used, (count - 1) as nat);
        let added = message_at(count - 1);
        assert(message_index(added) == count - 1);
        assert forall|m: PanicMessage| #![trigger used_messages(used, count).contains(m)]
            used_messages(used, count).contains(m) <==> (message_index(m) < count
            && used[message_index(m) as int]) by {
            lemma_message_positions(m);
            if used[count - 1] {
                assert(used_messages(used, count) == before.push(added));
                if m == added {
                    assert(before.push(added)[before.len() as int] == m);
                } else {
                    if before.push(added).contains(m) {
                        let w = choose|w: int| 0 <= w < before.push(added).len()
                            && before.push(added)[w] == m;
                        assert(w < before.len());
                        assert(before[w] == m);
                    }
                    if before.contains(m) {
                        let w = choose|w: int| 0 <= w < before.len() && before[w] == m;
                        assert(before.push(added)[w] == m);
                    }
                }
            }
        }
    }
}

/// Law: a pool built from some functions yields the data object of a
/// message exactly when some function loads that message's address, each
/// such message once, in the fixed message order.
pub proof fn lemma_pool_exact(functions: Seq<AssemblyFunction>, used: Seq<bool>)
    requires
        used.len() == PANIC_MESSAGE_COUNT,
        forall|i: int|
            0 <= i < PANIC_MESSAGE_COUNT ==> used[i] == loads_symbol(
                functions,
                message_symbol_text(message_at(i)),
            ),
    ensures
        forall|m: PanicMessage|
            #![trigger used_messages(used, PANIC_MESSAGE_COUNT as nat).contains(m)]
            used_messages(used, PANIC_MESSAGE_COUNT as nat).contains(m) <==> loads_symbol(
                functions,
                message_symbol_text(m),
            ),
        forall|j: int, k: int|
            0 <= j < k < used_messages(used, PANIC_MESSAGE_COUNT as nat).len() ==> message_index(
                #[trigger] used_messages(used, PANIC_MESSAGE_COUNT as nat)[j],
            ) < message_index(#[trigger] used_messages(used, PANIC_MESSAGE_COUNT as nat)[k]),
{
    lemma_used_prefix(used, PANIC_MESSAGE_COUNT as nat);
    assert forall|m: PanicMessage|
        #![trigger used_messages(used, PANIC_MESSAGE_COUNT as nat).contains(m)]
        used_messages(used, PANIC_MESSAGE_COUNT as nat).contains(m) <==> loads_symbol(
            functions,
            message_symbol_text(m),
        ) by {
        lemma_message_positions(m);
        assert(used[message_index(m) as int] == loads_symbol(
            functions,
            message_symbol_text(message_at(message_index(m) as int)),
        ));
    }
}

/// The call of the runtime failure reporter.
pub open spec fn reporter_line() -> Seq<char> {
    one_operand_line("call"@, "ska_rt_panic"@)
}

/// The lines that report a fixed message: its address and length, then
/// the reporter call.
pub open spec fn static_panic_lines(message: PanicMessage) -> Seq<Seq<char>> {
    seq![
        "    "@ + binary_text(
            "lea"@,
            register_name(Register::Rdi),
            rip_relative_text(message_symbol_text(message)),
        ) + "\n"@,
        line_text(
            Instruction::MoveImmediate64 {
                bits: encode_utf8(message_text(message)).len() as u64,
                destination: Register::Rsi,
            },
        ),
        reporter_line(),
    ]
}

fn emit_reporter_call(output: &mut Vec<Instruction>)
    ensures
        old(output)@.len() <= final(output)@.len(),
        final(output)@.subrange(0, old(output)@.len() as int) == old(output)@,
        forall|i: int| 0 <= i < old(output)@.len() ==> #[trigger] final(output)@[i] == old(output)@[i],
        lines(final(output)@) == lines(old(output)@).push(reporter_line()),
{
    output.push(Instruction::Call(String::from_str("ska_rt_panic")));
}

/// Reports a fixed message.
pub fn emit_static_panic(message: PanicMessage, output: &mut Vec<Instruction>)
    ensures
        old(output)@.len() <= final(output)@.len(),
        final(output)@.subrange(0, old(output)@.len() as int) == old(output)@,
        forall|i: int| 0 <= i < old(output)@.len() ==> #[trigger] final(output)@[i] == old(output)@[i],
        lines(final(output)@) == lines(old(output)@) + static_panic_lines(message),
{
    let ghost before = lines(output@);
    output.push(
        Instruction::LoadSymbolAddress {
            symbol: String::from_str(message.symbol()),
            destination: Register::Rdi,
        },
    );
    let bytes = message.bytes();
    output.push(
        Instruction::MoveImmediate64 { bits: bytes.len() as u64, destination: Register::Rsi },
    );
    emit_reporter_call(output);
    assert(lines(output@) =~= before + static_panic_lines(message));
}

/// Reports that a shared ownership count would overflow.
pub fn emit_ownership_overflow(output: &mut Vec<Instruction>)
    ensures
        old(output)@.len() <= final(output)@.len(),
        final(output)@.subrange(0, old(output)@.len() as int) == old(output)@,
        forall|i: int| 0 <= i < old(output)@.len() ==> #[trigger] final(output)@[i] == old(output)@[i],
        lines(final(output)@) == lines(old(output)@) + static_panic_lines(
            PanicMessage::OwnershipCountOverflow,
        ),
{
    emit_static_panic(PanicMessage::OwnershipCountOverflow, output);
}

} // verus!
