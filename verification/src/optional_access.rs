//! Optional presence tests, checked access, and view guards that end a
//! block.
//!
//! An optional's state word comes first: zero when absent. A primitive
//! unwrap copies the payload that follows the state; a shared unwrap retains
//! the non-null handle; an inline class optional counts its active views in
//! the state, one meaning present without a view.

use vstd::prelude::*;

use crate::body::{BlockId, MirTerminator};
use crate::emit::line_text;
use crate::error::{BackendError, error_is, x86_error};
use crate::frame::FrameLayout;
use crate::identity::{CallableId, StorageId};
use crate::layout::{
    DataLayout, class_missing_message, data_layout_wf, spec_optional_layout,
    spec_optional_layout_for,
};
use crate::listing::{label_text_line, lemma_lines_push, lines, one_operand_line};
use crate::machine::{ByteRegister, FloatOperand, Instruction, Label, Operand, Register, XmmRegister};
use crate::mir::{MirDefinition, MirPrimitiveType, MirType};
use crate::ownership::{emit_retain_loaded_handle, retain_lines};
use crate::panic_message::{PanicMessage, emit_ownership_overflow, static_panic_lines};
use crate::selection::{block_label, block_label_text, label_stem_text};
use crate::symbol::callable;
use crate::text::{decimal, decimal_text};
use crate::value::{
    float_operand, frame_storage, load_float, load_rax, load_rax_instruction, spec_float_operand,
    storage_operand, store_float, store_rax, store_rax_instruction,
};

verus! {

broadcast use lemma_lines_push;

/// `.Lska_<stem>_optional_<block>_<sequence>_<suffix>`.
pub open spec fn optional_label_text(block: BlockId, sequence: nat, suffix: Seq<char>) -> Seq<char> {
    ".Lska_"@ + label_stem_text(block.callable) + "_optional_"@ + decimal_text(block.idx as nat)
        + "_"@ + decimal_text(sequence) + "_"@ + suffix
}

/// The next optional label of a block, taking the next sequence number.
pub fn next_optional_label(block: BlockId, sequence: &mut usize, suffix: &str) -> (r: Label)
    requires
        *old(sequence) < usize::MAX,
    ensures
        *final(sequence) == *old(sequence) + 1,
        r.text@ == optional_label_text(block, *old(sequence) as nat, suffix@),
{
    let mut text = String::from_str(".Lska_");
    let stem = callable(block.callable());
    text.append(stem.as_str());
    text.append("_optional_");
    let block_digits = decimal(block.index() as u64);
    text.append(block_digits.as_str());
    text.append("_");
    let digits = decimal(*sequence as u64);
    text.append(digits.as_str());
    text.append("_");
    text.append(suffix);
    *sequence = *sequence + 1;
    Label::new(text)
}

pub open spec fn is_optional_terminator(terminator: MirTerminator) -> bool {
    ||| terminator is OptionalSharedUnwrap
    ||| terminator is OptionalUnwrap
    ||| terminator is BeginOptionalView
    ||| terminator is CheckOptionalMutation
}

pub open spec fn storage_type(function: &MirDefinition, storage: StorageId) -> MirType {
    function.storage@[storage.idx as int].ty
}

pub open spec fn homed(function: &MirDefinition, frame: &FrameLayout, storage: StorageId) -> bool {
    storage.idx < frame.storage_offsets@.len() && storage.idx < function.storage@.len()
}

/// The storage an optional terminator reads has a home, and is an optional
/// of the kind the terminator tests.
pub open spec fn optional_terminator_ready(
    function: &MirDefinition,
    frame: &FrameLayout,
    terminator: MirTerminator,
) -> bool {
    match terminator {
        MirTerminator::OptionalSharedUnwrap { source, destination, .. } => homed(function, frame, source)
            && homed(function, frame, destination),
        MirTerminator::OptionalUnwrap { source, destination, .. } => homed(function, frame, source)
            && homed(function, frame, destination) && storage_type(function, source) is OptionalPrimitive,
        MirTerminator::BeginOptionalView { source, .. } => homed(function, frame, source)
            && storage_type(function, source) is OptionalClass,
        MirTerminator::CheckOptionalMutation { source, .. } => homed(function, frame, source)
            && storage_type(function, source) is OptionalClass,
        _ => true,
    }
}

pub open spec fn payload_message() -> Seq<char> {
    "optional payload displacement exceeds x86-64 limits"@
}

/// An operand moved by an optional's payload offset, or why it cannot be.
pub open spec fn spec_payload_operand(operand: Operand, offset: int, owner: CallableId) -> Result<
    Operand,
    (Option<CallableId>, Seq<char>),
> {
    match operand {
        Operand::Memory { base, displacement } => if displacement + offset <= i32::MAX {
            Ok(Operand::Memory { base, displacement: (displacement + offset) as i32 })
        } else {
            Err((Some(owner), payload_message()))
        },
        _ => Err((Some(owner), payload_message())),
    }
}

/// The state word of an inline class optional: the optional's storage,
/// whose layout must exist.
pub open spec fn class_state_operand(
    data_layout: &DataLayout,
    function: &MirDefinition,
    frame: &FrameLayout,
    source: StorageId,
) -> Result<Operand, (Option<CallableId>, Seq<char>)> {
    match storage_type(function, source) {
        MirType::OptionalClass(class) => if class.idx < data_layout.classes@.len() {
            match spec_optional_layout_for(data_layout.classes@[class.idx as int].ty) {
                Ok(_) => Ok(storage_operand(frame, source)),
                Err(message) => Err((None, message)),
            }
        } else {
            Err((None, class_missing_message(class)))
        },
        _ => Err((None, Seq::empty())),
    }
}

/// The lines that copy a primitive optional's payload into a destination.
pub open spec fn payload_copy_lines(payload: MirPrimitiveType, source: Operand, destination: Operand) -> Seq<
    Seq<char>,
> {
    match payload {
        MirPrimitiveType::F64 => seq![
            line_text(
                Instruction::MoveFloat64 {
                    source: spec_float_operand(source),
                    destination: FloatOperand::Register(XmmRegister::Xmm14),
                },
            ),
            line_text(
                Instruction::MoveFloat64 {
                    source: FloatOperand::Register(XmmRegister::Xmm14),
                    destination: spec_float_operand(destination),
                },
            ),
        ],
        MirPrimitiveType::U8 | MirPrimitiveType::Bool => seq![
            line_text(Instruction::LoadZeroExtendByte { source, destination: Register::Rax }),
            line_text(Instruction::MoveByte { source: ByteRegister::Al, destination }),
        ],
        _ => seq![
            line_text(load_rax_instruction(source)),
            line_text(store_rax_instruction(destination)),
        ],
    }
}

/// A shared unwrap: a null handle branches to the failure block; otherwise
/// the handle is retained and stored.
pub open spec fn shared_unwrap_lines(
    frame: &FrameLayout,
    block: BlockId,
    sequence: nat,
    source: StorageId,
    destination: StorageId,
    success_target: BlockId,
    failure_target: BlockId,
) -> Seq<Seq<char>> {
    let invalid = optional_label_text(block, sequence, "shared_unwrap_invalid"@);
    let overflow = optional_label_text(block, sequence + 1, "shared_unwrap_overflow"@);
    seq![
        line_text(load_rax_instruction(storage_operand(frame, source))),
        line_text(Instruction::Test(Register::Rax)),
        one_operand_line("je"@, block_label_text(failure_target)),
    ] + retain_lines(invalid, overflow) + seq![
        line_text(store_rax_instruction(storage_operand(frame, destination))),
        one_operand_line("jmp"@, block_label_text(success_target)),
        label_text_line(overflow),
    ] + static_panic_lines(PanicMessage::OwnershipCountOverflow) + seq![
        label_text_line(invalid),
        line_text(Instruction::Trap),
    ]
}

/// A primitive unwrap: an absent state branches to the failure block;
/// otherwise the payload is copied.
pub open spec fn unwrap_lines(
    frame: &FrameLayout,
    payload: MirPrimitiveType,
    payload_operand: Operand,
    source: StorageId,
    destination: StorageId,
    success_target: BlockId,
    failure_target: BlockId,
) -> Seq<Seq<char>> {
    seq![
        line_text(load_rax_instruction(storage_operand(frame, source))),
        line_text(Instruction::Test(Register::Rax)),
        one_operand_line("je"@, block_label_text(failure_target)),
    ] + payload_copy_lines(payload, payload_operand, storage_operand(frame, destination))
        + seq![one_operand_line("jmp"@, block_label_text(success_target))]
}

/// Beginning a view: absent goes to one block, a saturated view count to
/// another; otherwise the count rises by one.
pub open spec fn view_begin_lines(
    state: Operand,
    success_target: BlockId,
    absent_target: BlockId,
    overflow_target: BlockId,
) -> Seq<Seq<char>> {
    seq![
        line_text(load_rax_instruction(state)),
        line_text(Instruction::Test(Register::Rax)),
        one_operand_line("je"@, block_label_text(absent_target)),
        line_text(Instruction::MoveImmediate64 { bits: u64::MAX, destination: Register::Rcx }),
        line_text(Instruction::Compare { source: Register::Rcx, destination: Register::Rax }),
        one_operand_line("je"@, block_label_text(overflow_target)),
        line_text(Instruction::MoveImmediate64 { bits: 1, destination: Register::Rdx }),
        line_text(Instruction::Add { source: Register::Rdx, destination: Register::Rax }),
        line_text(
            Instruction::Move {
                source: Operand::Register(Register::Rax),
                destination: Operand::Register(Register::Rdx),
            },
        ),
        line_text(
            Instruction::Move {
                source: Operand::Register(Register::Rdx),
                destination: Operand::Register(Register::Rax),
            },
        ),
        line_text(store_rax_instruction(state)),
        one_operand_line("jmp"@, block_label_text(success_target)),
    ]
}

/// A mutation check: absent or present without a view succeeds; an active
/// view fails.
pub open spec fn mutation_check_lines(state: Operand, success_target: BlockId, failure_target: BlockId) -> Seq<
    Seq<char>,
> {
    seq![
        line_text(load_rax_instruction(state)),
        line_text(Instruction::Test(Register::Rax)),
        one_operand_line("je"@, block_label_text(success_target)),
        line_text(Instruction::MoveImmediate64 { bits: 1, destination: Register::Rcx }),
        line_text(Instruction::Compare { source: Register::Rcx, destination: Register::Rax }),
        one_operand_line("je"@, block_label_text(success_target)),
        one_operand_line("jmp"@, block_label_text(failure_target)),
    ]
}

/// The lines an optional terminator selects, or the diagnostic that stops
/// it; other terminators select nothing here.
pub open spec fn optional_terminator_lines(
    data_layout: &DataLayout,
    function: &MirDefinition,
    frame: &FrameLayout,
    block: BlockId,
    sequence: nat,
    terminator: MirTerminator,
) -> Result<Seq<Seq<char>>, (Option<CallableId>, Seq<char>)> {
    match terminator {
        MirTerminator::OptionalSharedUnwrap { source, destination, success_target, failure_target } => Ok(
            shared_unwrap_lines(frame, block, sequence, source, destination, success_target, failure_target),
        ),
        MirTerminator::OptionalUnwrap { source, destination, success_target, failure_target } => {
            let payload = storage_type(function, source)->OptionalPrimitive_0;
            match spec_payload_operand(
                storage_operand(frame, source),
                spec_optional_layout(payload).payload_offset as int,
                function.callable,
            ) {
                Err(error) => Err(error),
                Ok(moved) => Ok(
                    unwrap_lines(frame, payload, moved, source, destination, success_target, failure_target),
                ),
            }
        },
        MirTerminator::BeginOptionalView { source, success_target, absent_target, overflow_target } => {
            match class_state_operand(data_layout, function, frame, source) {
                Err(error) => Err(error),
                Ok(state) => Ok(view_begin_lines(state, success_target, absent_target, overflow_target)),
            }
        },
        MirTerminator::CheckOptionalMutation { source, success_target, failure_target } => {
            match class_state_operand(data_layout, function, frame, source) {
                Err(error) => Err(error),
                Ok(state) => Ok(mutation_check_lines(state, success_target, failure_target)),
            }
        },
        _ => Ok(Seq::empty()),
    }
}

fn class_state(
    data_layout: &DataLayout,
    function: &MirDefinition,
    frame: &FrameLayout,
    source: StorageId,
) -> (r: Result<Operand, BackendError>)
    requires
        data_layout_wf(data_layout),
        homed(function, frame, source),
        storage_type(function, source) is OptionalClass,
    ensures
        match class_state_operand(data_layout, function, frame, source) {
            Ok(state) => r == Ok::<Operand, BackendError>(state),
            Err((owner, message)) => r matches Err(error) && error_is(error, owner, message),
        },
{
    match function.storage[source.index()].ty {
        MirType::OptionalClass(class) => match data_layout.optional_class(class) {
            Ok(_) => Ok(frame_storage(frame, source)),
            Err(failure) => Err(failure),
        },
        _ => Err(x86_error(None, "")),
    }
}

fn payload_operand(operand: Operand, offset: usize, owner: CallableId) -> (r: Result<Operand, BackendError>)
    ensures
        match spec_payload_operand(operand, offset as int, owner) {
            Ok(moved) => r == Ok::<Operand, BackendError>(moved),
            Err((callable, message)) => r matches Err(error) && error_is(error, callable, message),
        },
{
    match operand {
        Operand::Memory { base, displacement } => {
            let wide: i128 = displacement as i128 + offset as i128;
            if wide <= 0x7fff_ffffi128 {
                let moved: i32 = wide as i32;
                Ok(Operand::Memory { base, displacement: moved })
            } else {
                Err(x86_error(Some(owner), "optional payload displacement exceeds x86-64 limits"))
            }
        },
        _ => Err(x86_error(Some(owner), "optional payload displacement exceeds x86-64 limits")),
    }
}

fn copy_payload(payload: MirPrimitiveType, source: Operand, destination: Operand, output: &mut Vec<Instruction>)
    requires
        source is Memory,
        destination is Memory,
    ensures
        old(output)@.len() <= final(output)@.len(),
        forall|i: int| 0 <= i < old(output)@.len() ==> #[trigger] final(output)@[i] == old(output)@[i],
        lines(final(output)@) == lines(old(output)@) + payload_copy_lines(payload, source, destination),
{
    let ghost before = lines(output@);
    match payload {
        MirPrimitiveType::F64 => {
            load_float(float_operand(source), XmmRegister::Xmm14, output);
            store_float(XmmRegister::Xmm14, float_operand(destination), output);
        },
        MirPrimitiveType::U8 | MirPrimitiveType::Bool => {
            output.push(Instruction::LoadZeroExtendByte { source, destination: Register::Rax });
            output.push(Instruction::MoveByte { source: ByteRegister::Al, destination });
        },
        _ => {
            load_rax(source, output);
            store_rax(destination, output);
        },
    }
    assert(lines(output@) =~= before + payload_copy_lines(payload, source, destination));
}

#[verifier::rlimit(60)]
fn select_shared_unwrap(
    frame: &FrameLayout,
    block: BlockId,
    source: StorageId,
    destination: StorageId,
    success_target: BlockId,
    failure_target: BlockId,
    sequence: &mut usize,
    output: &mut Vec<Instruction>,
)
    requires
        source.idx < frame.storage_offsets@.len(),
        destination.idx < frame.storage_offsets@.len(),
        *old(sequence) < usize::MAX - 2,
    ensures
        old(output)@.len() <= final(output)@.len(),
        forall|i: int| 0 <= i < old(output)@.len() ==> #[trigger] final(output)@[i] == old(output)@[i],
        lines(final(output)@) == lines(old(output)@) + shared_unwrap_lines(
            frame,
            block,
            *old(sequence) as nat,
            source,
            destination,
            success_target,
            failure_target,
        ),
        *final(sequence) == *old(sequence) + 2,
{
    let ghost before = lines(output@);
    load_rax(frame_storage(frame, source), output);
    output.push(Instruction::Test(Register::Rax));
    output.push(Instruction::JumpIfEqual(block_label(failure_target)));
    let ghost head = lines(output@);
    assert(head =~= before + seq![
        line_text(load_rax_instruction(storage_operand(frame, source))),
        line_text(Instruction::Test(Register::Rax)),
        one_operand_line("je"@, block_label_text(failure_target)),
    ]);
    let invalid = next_optional_label(block, sequence, "shared_unwrap_invalid");
    let overflow = next_optional_label(block, sequence, "shared_unwrap_overflow");
    let ghost texts = (invalid.text@, overflow.text@);
    let overflow_mark = overflow.duplicate();
    let invalid_mark = invalid.duplicate();
    emit_retain_loaded_handle(invalid, overflow, output);
    store_rax(frame_storage(frame, destination), output);
    output.push(Instruction::Jump(block_label(success_target)));
    output.push(Instruction::Label(overflow_mark));
    let ghost retained = lines(output@);
    assert(retained =~= head + retain_lines(texts.0, texts.1) + seq![
        line_text(store_rax_instruction(storage_operand(frame, destination))),
        one_operand_line("jmp"@, block_label_text(success_target)),
        label_text_line(texts.1),
    ]);
    emit_ownership_overflow(output);
    output.push(Instruction::Label(invalid_mark));
    output.push(Instruction::Trap);
    assert(lines(output@) =~= retained + static_panic_lines(PanicMessage::OwnershipCountOverflow) + seq![
        label_text_line(texts.0),
        line_text(Instruction::Trap),
    ]);
}

fn select_unwrap(
    frame: &FrameLayout,
    payload: MirPrimitiveType,
    moved: Operand,
    source: StorageId,
    destination: StorageId,
    success_target: BlockId,
    failure_target: BlockId,
    output: &mut Vec<Instruction>,
)
    requires
        source.idx < frame.storage_offsets@.len(),
        destination.idx < frame.storage_offsets@.len(),
        moved is Memory,
    ensures
        old(output)@.len() <= final(output)@.len(),
        forall|i: int| 0 <= i < old(output)@.len() ==> #[trigger] final(output)@[i] == old(output)@[i],
        lines(final(output)@) == lines(old(output)@) + unwrap_lines(
            frame,
            payload,
            moved,
            source,
            destination,
            success_target,
            failure_target,
        ),
{
    load_rax(frame_storage(frame, source), output);
    output.push(Instruction::Test(Register::Rax));
    output.push(Instruction::JumpIfEqual(block_label(failure_target)));
    copy_payload(payload, moved, frame_storage(frame, destination), output);
    output.push(Instruction::Jump(block_label(success_target)));
}

fn select_view_begin(
    state: Operand,
    success_target: BlockId,
    absent_target: BlockId,
    overflow_target: BlockId,
    output: &mut Vec<Instruction>,
)
    requires
        state is Memory,
    ensures
        old(output)@.len() <= final(output)@.len(),
        forall|i: int| 0 <= i < old(output)@.len() ==> #[trigger] final(output)@[i] == old(output)@[i],
        lines(final(output)@) == lines(old(output)@) + view_begin_lines(
            state,
            success_target,
            absent_target,
            overflow_target,
        ),
{
    load_rax(state, output);
    output.push(Instruction::Test(Register::Rax));
    output.push(Instruction::JumpIfEqual(block_label(absent_target)));
    output.push(Instruction::MoveImmediate64 { bits: u64::MAX, destination: Register::Rcx });
    output.push(Instruction::Compare { source: Register::Rcx, destination: Register::Rax });
    output.push(Instruction::JumpIfEqual(block_label(overflow_target)));
    output.push(Instruction::MoveImmediate64 { bits: 1, destination: Register::Rdx });
    output.push(Instruction::Add { source: Register::Rdx, destination: Register::Rax });
    output.push(
        Instruction::Move {
            source: Operand::Register(Register::Rax),
            destination: Operand::Register(Register::Rdx),
        },
    );
    output.push(
        Instruction::Move {
            source: Operand::Register(Register::Rdx),
            destination: Operand::Register(Register::Rax),
        },
    );
    store_rax(state, output);
    output.push(Instruction::Jump(block_label(success_target)));
}

fn select_mutation_check(
    state: Operand,
    success_target: BlockId,
    failure_target: BlockId,
    output: &mut Vec<Instruction>,
)
    requires
        state is Memory,
    ensures
        old(output)@.len() <= final(output)@.len(),
        forall|i: int| 0 <= i < old(output)@.len() ==> #[trigger] final(output)@[i] == old(output)@[i],
        lines(final(output)@) == lines(old(output)@) + mutation_check_lines(
            state,
            success_target,
            failure_target,
        ),
{
    load_rax(state, output);
    output.push(Instruction::Test(Register::Rax));
    output.push(Instruction::JumpIfEqual(block_label(success_target)));
    output.push(Instruction::MoveImmediate64 { bits: 1, destination: Register::Rcx });
    output.push(Instruction::Compare { source: Register::Rcx, destination: Register::Rax });
    output.push(Instruction::JumpIfEqual(block_label(success_target)));
    output.push(Instruction::Jump(block_label(failure_target)));
}

/// Selects an optional terminator: presence tests, checked unwraps, and the
/// view guards of inline class optionals. Other terminators select nothing
/// here, and the result says whether the terminator was one of these. On a
/// diagnostic nothing is appended.
pub fn select_optional_terminator(
    data_layout: &DataLayout,
    function: &MirDefinition,
    frame: &FrameLayout,
    block: BlockId,
    terminator: &MirTerminator,
    sequence: &mut usize,
    output: &mut Vec<Instruction>,
) -> (r: Result<bool, BackendError>)
    requires
        data_layout_wf(data_layout),
        optional_terminator_ready(function, frame, *terminator),
        *old(sequence) < usize::MAX - 2,
    ensures
        old(output)@.len() <= final(output)@.len(),
        forall|i: int| 0 <= i < old(output)@.len() ==> #[trigger] final(output)@[i] == old(output)@[i],
        match optional_terminator_lines(data_layout, function, frame, block, *old(sequence) as nat, *terminator) {
            Ok(expected) => r == Ok::<bool, BackendError>(is_optional_terminator(*terminator))
                && lines(final(output)@) == lines(old(output)@) + expected,
            Err((owner, message)) => r matches Err(error) && error_is(error, owner, message)
                && final(output)@ == old(output)@,
        },
        *final(sequence) == *old(sequence) + if *terminator is OptionalSharedUnwrap {
            2int
        } else {
            0int
        },
{
    match terminator {
        MirTerminator::OptionalSharedUnwrap { source, destination, success_target, failure_target } => {
            select_shared_unwrap(
                frame,
                block,
                *source,
                *destination,
                *success_target,
                *failure_target,
                sequence,
                output,
            );
            Ok(true)
        },
        MirTerminator::OptionalUnwrap { source, destination, success_target, failure_target } => {
            let payload = match function.storage[source.index()].ty {
                MirType::OptionalPrimitive(payload) => payload,
                _ => {
                    assert(false);
                    return Ok(true);
                },
            };
            let offset = match data_layout.optional(payload) {
                Ok(layout) => layout.payload_offset(),
                Err(failure) => return Err(failure),
            };
            let moved = match payload_operand(frame_storage(frame, *source), offset, function.callable) {
                Ok(moved) => moved,
                Err(failure) => return Err(failure),
            };
            select_unwrap(frame, payload, moved, *source, *destination, *success_target, *failure_target, output);
            Ok(true)
        },
        MirTerminator::BeginOptionalView { source, success_target, absent_target, overflow_target } => {
            let state = match class_state(data_layout, function, frame, *source) {
                Ok(state) => state,
                Err(failure) => return Err(failure),
            };
            select_view_begin(state, *success_target, *absent_target, *overflow_target, output);
            Ok(true)
        },
        MirTerminator::CheckOptionalMutation { source, success_target, failure_target } => {
            let state = match class_state(data_layout, function, frame, *source) {
                Ok(state) => state,
                Err(failure) => return Err(failure),
            };
            select_mutation_check(state, *success_target, *failure_target, output);
            Ok(true)
        },
        _ => {
            assert(lines(output@) =~= lines(output@) + Seq::<Seq<char>>::empty());
            Ok(false)
        },
    }
}

} // verus!
