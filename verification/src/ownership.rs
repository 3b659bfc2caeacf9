//! Checked strong-count transitions of shared owners.
//!
//! A shared allocation starts with a sixteen-byte header: the strong count,
//! then the dynamic class metadata. The count `u64::MAX` marks an immortal
//! object that is never counted; a retain that would reach it traps with the
//! ownership-overflow failure. Dropping the last owner runs the finalizer
//! named by the metadata on the payload, then frees the allocation.

use vstd::prelude::*;

use crate::dispatch::DispatchMetadata;
use crate::emit::{binary_text, line_text, rip_relative_text};
use crate::error::{BackendError, Target, error_is};
use crate::frame::FrameLayout;
use crate::identity::{CallableId, ClassId, StorageId};
use crate::layout::{DataLayout, is_layout_error, spec_shared_allocation_size};
use crate::machine::register_name;
use crate::mir::MirDefinition;
use crate::selection::label_stem_text;
use crate::symbol::{dispatch_table, dispatch_table_text};
use crate::text::{decimal, decimal_text};
use crate::value::{
    frame_storage, load_rax, load_rax_instruction, storage_operand, store_rax,
    store_rax_instruction,
};
use crate::layout::{SHARED_DYNAMIC_METADATA_OFFSET, SHARED_HEADER_SIZE};
use crate::listing::{
    label_text_line, lemma_lines_push, lines, memory_operand, one_operand_line, register_operand,
};
use crate::machine::{AssemblyFunction, Instruction, Label, Register};
use crate::mir::{MirProgram, MirStaticValueCleanup, MirType};
use crate::panic_message::{emit_ownership_overflow, static_panic_lines, PanicMessage};
use crate::symbol::{
    shared_handle_release, shared_handle_release_text, shared_handle_retain,
    shared_handle_retain_text,
};

verus! {

broadcast use lemma_lines_push;

/// The offset of the strong count in the allocation header.
pub const STRONG_COUNT_OFFSET: i32 = 0;

/// The stack reserved to preserve one handle across a call.
pub const PRESERVED_HANDLE_STACK_SIZE: u32 = 16;

/// The count of an immortal object.
pub const IMMORTAL_COUNT: u64 = 0xffff_ffff_ffff_ffff;

/// The runtime entry that frees an allocation.
pub open spec fn runtime_free_text() -> Seq<char> {
    "ska_rt_free"@
}

/// The lines that add one owner to the handle in `rax`. A null handle or a
/// zero count jumps to `invalid`; a count one below immortal jumps to
/// `overflow`; an immortal count is left unchanged.
pub open spec fn retain_lines(invalid: Seq<char>, overflow: Seq<char>) -> Seq<Seq<char>> {
    let immortal = overflow + "_immortal"@;
    seq![
        line_text(Instruction::Test(Register::Rax)),
        one_operand_line("je"@, invalid),
        line_text(
            Instruction::Move {
                source: memory_operand(Register::Rax, STRONG_COUNT_OFFSET),
                destination: register_operand(Register::Rcx),
            },
        ),
        line_text(Instruction::Test(Register::Rcx)),
        one_operand_line("je"@, invalid),
        line_text(Instruction::MoveImmediate64 { bits: IMMORTAL_COUNT, destination: Register::R11 }),
        line_text(Instruction::Compare { source: Register::R11, destination: Register::Rcx }),
        one_operand_line("je"@, immortal),
        line_text(
            Instruction::MoveImmediate64 { bits: (IMMORTAL_COUNT - 1) as u64, destination: Register::R11 },
        ),
        line_text(Instruction::Compare { source: Register::R11, destination: Register::Rcx }),
        one_operand_line("je"@, overflow),
        line_text(Instruction::MoveImmediate64 { bits: 1, destination: Register::R11 }),
        line_text(Instruction::Add { source: Register::R11, destination: Register::Rcx }),
        line_text(
            Instruction::Move {
                source: register_operand(Register::Rcx),
                destination: memory_operand(Register::Rax, STRONG_COUNT_OFFSET),
            },
        ),
        label_text_line(immortal),
    ]
}

fn suffixed(text: &str, suffix: &str) -> (r: String)
    ensures
        r@ == text@ + suffix@,
{
    let mut result = String::from_str(text);
    result.append(suffix);
    result
}

/// Adds one owner to the handle loaded in `rax`.
pub fn emit_retain_loaded_handle(invalid: Label, overflow: Label, output: &mut Vec<Instruction>)
    ensures
        old(output)@.len() <= final(output)@.len(),
        final(output)@.subrange(0, old(output)@.len() as int) == old(output)@,
        forall|i: int| 0 <= i < old(output)@.len() ==> #[trigger] final(output)@[i] == old(output)@[i],
        lines(final(output)@) == lines(old(output)@) + retain_lines(
            invalid.text@,
            overflow.text@,
        ),
{
    let ghost before = lines(output@);
    let immortal = Label::new(suffixed(overflow.name(), "_immortal"));
    output.push(Instruction::Test(Register::Rax));
    output.push(Instruction::JumpIfEqual(invalid.duplicate()));
    output.push(
        Instruction::Move {
            source: crate::machine::Operand::Memory {
                base: Register::Rax,
                displacement: STRONG_COUNT_OFFSET,
            },
            destination: crate::machine::Operand::Register(Register::Rcx),
        },
    );
    output.push(Instruction::Test(Register::Rcx));
    output.push(Instruction::JumpIfEqual(invalid));
    output.push(Instruction::MoveImmediate64 { bits: IMMORTAL_COUNT, destination: Register::R11 });
    output.push(Instruction::Compare { source: Register::R11, destination: Register::Rcx });
    output.push(Instruction::JumpIfEqual(immortal.duplicate()));
    output.push(
        Instruction::MoveImmediate64 { bits: IMMORTAL_COUNT - 1, destination: Register::R11 },
    );
    output.push(Instruction::Compare { source: Register::R11, destination: Register::Rcx });
    output.push(Instruction::JumpIfEqual(overflow));
    output.push(Instruction::MoveImmediate64 { bits: 1, destination: Register::R11 });
    output.push(Instruction::Add { source: Register::R11, destination: Register::Rcx });
    output.push(
        Instruction::Move {
            source: crate::machine::Operand::Register(Register::Rcx),
            destination: crate::machine::Operand::Memory {
                base: Register::Rax,
                displacement: STRONG_COUNT_OFFSET,
            },
        },
    );
    output.push(Instruction::Label(immortal));
    assert(lines(output@) =~= before + retain_lines(invalid.text@, overflow.text@));
}

/// The lines that drop one owner of the handle in `rax`. An immortal count
/// is left unchanged; a count above one is decremented; the last owner
/// zeroes the count, runs the finalizer that the dynamic metadata names at
/// `finalizer_displacement` on the payload, and frees the allocation. A
/// null handle, a zero count, or missing metadata or finalizer traps.
pub open spec fn release_lines(
    failure: Seq<char>,
    last: Seq<char>,
    complete: Seq<char>,
    finalizer_displacement: i32,
) -> Seq<Seq<char>> {
    seq![
        line_text(Instruction::Test(Register::Rax)),
        one_operand_line("je"@, failure),
        line_text(
            Instruction::Move {
                source: memory_operand(Register::Rax, STRONG_COUNT_OFFSET),
                destination: register_operand(Register::Rcx),
            },
        ),
        line_text(Instruction::Test(Register::Rcx)),
        one_operand_line("je"@, failure),
        line_text(Instruction::MoveImmediate64 { bits: IMMORTAL_COUNT, destination: Register::R11 }),
        line_text(Instruction::Compare { source: Register::R11, destination: Register::Rcx }),
        one_operand_line("je"@, complete),
        line_text(Instruction::MoveImmediate64 { bits: 1, destination: Register::R11 }),
        line_text(Instruction::Compare { source: Register::R11, destination: Register::Rcx }),
        one_operand_line("je"@, last),
        line_text(Instruction::Subtract { source: Register::R11, destination: Register::Rcx }),
        line_text(
            Instruction::Move {
                source: register_operand(Register::Rcx),
                destination: memory_operand(Register::Rax, STRONG_COUNT_OFFSET),
            },
        ),
        one_operand_line("jmp"@, complete),
        label_text_line(last),
        line_text(Instruction::MoveImmediate64 { bits: 0, destination: Register::R11 }),
        line_text(
            Instruction::Move {
                source: register_operand(Register::R11),
                destination: memory_operand(Register::Rax, STRONG_COUNT_OFFSET),
            },
        ),
        line_text(
            Instruction::Move {
                source: memory_operand(Register::Rax, SHARED_DYNAMIC_METADATA_OFFSET),
                destination: register_operand(Register::R11),
            },
        ),
        line_text(Instruction::Test(Register::R11)),
        one_operand_line("je"@, failure),
        line_text(
            Instruction::Move {
                source: memory_operand(Register::R11, finalizer_displacement),
                destination: register_operand(Register::R11),
            },
        ),
        line_text(Instruction::Test(Register::R11)),
        one_operand_line("je"@, failure),
        line_text(Instruction::ReserveStack(PRESERVED_HANDLE_STACK_SIZE)),
        line_text(
            Instruction::Move {
                source: register_operand(Register::Rax),
                destination: memory_operand(Register::Rsp, 0),
            },
        ),
        line_text(
            Instruction::LoadEffectiveAddress {
                source: memory_operand(Register::Rax, SHARED_HEADER_SIZE as i32),
                destination: Register::Rdi,
            },
        ),
        line_text(Instruction::CallIndirect(Register::R11)),
        line_text(
            Instruction::Move {
                source: memory_operand(Register::Rsp, 0),
                destination: register_operand(Register::Rdi),
            },
        ),
        line_text(Instruction::ReleaseStack(PRESERVED_HANDLE_STACK_SIZE)),
        one_operand_line("call"@, runtime_free_text()),
        one_operand_line("jmp"@, complete),
        label_text_line(failure),
        line_text(Instruction::Trap),
    ]
}

fn stack_handle() -> (r: crate::machine::Operand)
    ensures
        r == memory_operand(Register::Rsp, 0),
{
    crate::machine::Operand::Memory { base: Register::Rsp, displacement: 0 }
}

fn memory(base: Register, displacement: i32) -> (r: crate::machine::Operand)
    ensures
        r == memory_operand(base, displacement),
{
    crate::machine::Operand::Memory { base, displacement }
}

fn register(value: Register) -> (r: crate::machine::Operand)
    ensures
        r == register_operand(value),
{
    crate::machine::Operand::Register(value)
}

/// Drops one owner of the handle loaded in `rax`.
#[verifier::rlimit(60)]
pub fn emit_release_loaded_handle(
    failure: Label,
    last: Label,
    complete: Label,
    finalizer_displacement: i32,
    output: &mut Vec<Instruction>,
)
    ensures
        old(output)@.len() <= final(output)@.len(),
        final(output)@.subrange(0, old(output)@.len() as int) == old(output)@,
        forall|i: int| 0 <= i < old(output)@.len() ==> #[trigger] final(output)@[i] == old(output)@[i],
        lines(final(output)@) == lines(old(output)@) + release_lines(
            failure.text@,
            last.text@,
            complete.text@,
            finalizer_displacement,
        ),
{
    let ghost before = lines(output@);
    let ghost texts = (failure.text@, last.text@, complete.text@);
    output.push(Instruction::Test(Register::Rax));
    output.push(Instruction::JumpIfEqual(failure.duplicate()));
    output.push(
        Instruction::Move {
            source: memory(Register::Rax, STRONG_COUNT_OFFSET),
            destination: register(Register::Rcx),
        },
    );
    output.push(Instruction::Test(Register::Rcx));
    output.push(Instruction::JumpIfEqual(failure.duplicate()));
    output.push(Instruction::MoveImmediate64 { bits: IMMORTAL_COUNT, destination: Register::R11 });
    output.push(Instruction::Compare { source: Register::R11, destination: Register::Rcx });
    output.push(Instruction::JumpIfEqual(complete.duplicate()));
    output.push(Instruction::MoveImmediate64 { bits: 1, destination: Register::R11 });
    output.push(Instruction::Compare { source: Register::R11, destination: Register::Rcx });
    output.push(Instruction::JumpIfEqual(last.duplicate()));
    output.push(Instruction::Subtract { source: Register::R11, destination: Register::Rcx });
    output.push(
        Instruction::Move {
            source: register(Register::Rcx),
            destination: memory(Register::Rax, STRONG_COUNT_OFFSET),
        },
    );
    output.push(Instruction::Jump(complete.duplicate()));
    let ghost middle = lines(output@);
    assert(middle =~= before + release_lines(
        texts.0,
        texts.1,
        texts.2,
        finalizer_displacement,
    ).take(14));

    output.push(Instruction::Label(last));
    output.push(Instruction::MoveImmediate64 { bits: 0, destination: Register::R11 });
    output.push(
        Instruction::Move {
            source: register(Register::R11),
            destination: memory(Register::Rax, STRONG_COUNT_OFFSET),
        },
    );
    output.push(
        Instruction::Move {
            source: memory(Register::Rax, SHARED_DYNAMIC_METADATA_OFFSET),
            destination: register(Register::R11),
        },
    );
    output.push(Instruction::Test(Register::R11));
    output.push(Instruction::JumpIfEqual(failure.duplicate()));
    output.push(
        Instruction::Move {
            source: memory(Register::R11, finalizer_displacement),
            destination: register(Register::R11),
        },
    );
    output.push(Instruction::Test(Register::R11));
    output.push(Instruction::JumpIfEqual(failure.duplicate()));
    let ghost middle2 = lines(output@);
    assert(middle2 =~= before + release_lines(
        texts.0,
        texts.1,
        texts.2,
        finalizer_displacement,
    ).take(23));

    output.push(Instruction::ReserveStack(PRESERVED_HANDLE_STACK_SIZE));
    output.push(Instruction::Move { source: register(Register::Rax), destination: stack_handle() });
    output.push(
        Instruction::LoadEffectiveAddress {
            source: memory(Register::Rax, SHARED_HEADER_SIZE as i32),
            destination: Register::Rdi,
        },
    );
    output.push(Instruction::CallIndirect(Register::R11));
    output.push(Instruction::Move { source: stack_handle(), destination: register(Register::Rdi) });
    output.push(Instruction::ReleaseStack(PRESERVED_HANDLE_STACK_SIZE));
    output.push(Instruction::Call(String::from_str("ska_rt_free")));
    output.push(Instruction::Jump(complete));
    output.push(Instruction::Label(failure));
    output.push(Instruction::Trap);
    assert(lines(output@) =~= before + release_lines(
        texts.0,
        texts.1,
        texts.2,
        finalizer_displacement,
    ));
}

/// The lines after a retain: skip to `complete`, then the overflow failure
/// and the invalid-owner trap.
pub open spec fn retain_outcome_lines(
    invalid: Seq<char>,
    overflow: Seq<char>,
    complete: Seq<char>,
) -> Seq<Seq<char>> {
    seq![one_operand_line("jmp"@, complete), label_text_line(overflow)] + static_panic_lines(
        PanicMessage::OwnershipCountOverflow,
    ) + seq![label_text_line(invalid), line_text(Instruction::Trap)]
}

/// The failure blocks of a retain, skipped on success.
pub fn emit_retain_outcome_blocks(
    invalid: Label,
    overflow: Label,
    complete: Label,
    output: &mut Vec<Instruction>,
)
    ensures
        old(output)@.len() <= final(output)@.len(),
        final(output)@.subrange(0, old(output)@.len() as int) == old(output)@,
        forall|i: int| 0 <= i < old(output)@.len() ==> #[trigger] final(output)@[i] == old(output)@[i],
        lines(final(output)@) == lines(old(output)@) + retain_outcome_lines(
            invalid.text@,
            overflow.text@,
            complete.text@,
        ),
{
    let ghost before = lines(output@);
    let ghost texts = (invalid.text@, overflow.text@, complete.text@);
    output.push(Instruction::Jump(complete));
    output.push(Instruction::Label(overflow));
    emit_ownership_overflow(output);
    output.push(Instruction::Label(invalid));
    output.push(Instruction::Trap);
    assert(lines(output@) =~= before + retain_outcome_lines(texts.0, texts.1, texts.2));
}

/// The label texts of the shared retain helper.
pub open spec fn retain_helper_invalid() -> Seq<char> {
    ".Lska_shared_handle_retain_invalid"@
}

pub open spec fn retain_helper_overflow() -> Seq<char> {
    ".Lska_shared_handle_retain_overflow"@
}

/// The stack adjustment that restores call alignment in a function that
/// runs without a frame.
pub const FRAMELESS_CALL_ALIGNMENT: u32 = 8;

/// The listing of the retain helper: add an owner to the handle in `rdi`
/// and return it in `rax`. The helper has no frame, so its failure path
/// first realigns the stack for the reporter call.
pub open spec fn retain_helper_lines() -> Seq<Seq<char>> {
    seq![
        line_text(
            Instruction::Move {
                source: register_operand(Register::Rdi),
                destination: register_operand(Register::Rax),
            },
        ),
    ] + retain_lines(retain_helper_invalid(), retain_helper_overflow()) + seq![
        line_text(Instruction::Return),
        label_text_line(retain_helper_overflow()),
        line_text(Instruction::ReserveStack(FRAMELESS_CALL_ALIGNMENT)),
    ] + static_panic_lines(PanicMessage::OwnershipCountOverflow) + seq![
        label_text_line(retain_helper_invalid()),
        line_text(Instruction::Trap),
    ]
}

/// Whether `function` is the generated shared retain helper.
pub open spec fn is_retain_helper(function: AssemblyFunction) -> bool {
    &&& function.symbol@ == shared_handle_retain_text()
    &&& !function.exported
    &&& lines(function.instructions@) == retain_helper_lines()
}

/// The generated helper that adds an owner to the shared handle in `rdi`.
pub fn lower_retain() -> (r: AssemblyFunction)
    ensures
        is_retain_helper(r),
{
    let invalid = Label::new(String::from_str(".Lska_shared_handle_retain_invalid"));
    let overflow = Label::new(String::from_str(".Lska_shared_handle_retain_overflow"));
    let mut instructions: Vec<Instruction> = Vec::new();
    instructions.push(
        Instruction::Move { source: register(Register::Rdi), destination: register(Register::Rax) },
    );
    emit_retain_loaded_handle(invalid.duplicate(), overflow.duplicate(), &mut instructions);
    instructions.push(Instruction::Return);
    instructions.push(Instruction::Label(overflow));
    instructions.push(Instruction::ReserveStack(FRAMELESS_CALL_ALIGNMENT));
    emit_ownership_overflow(&mut instructions);
    instructions.push(Instruction::Label(invalid));
    instructions.push(Instruction::Trap);
    assert(lines(instructions@) =~= retain_helper_lines());
    AssemblyFunction {
        symbol: String::from_str(shared_handle_retain()),
        exported: false,
        instructions,
    }
}

pub open spec fn release_helper_failure() -> Seq<char> {
    ".Lska_shared_handle_release_invalid"@
}

pub open spec fn release_helper_last() -> Seq<char> {
    ".Lska_shared_handle_release_last"@
}

pub open spec fn release_helper_complete() -> Seq<char> {
    ".Lska_shared_handle_release_complete"@
}

/// The listing of the release helper: drop one owner of the handle in
/// `rdi` inside a frame of its own.
pub open spec fn release_helper_lines(finalizer_displacement: i32) -> Seq<Seq<char>> {
    seq![
        line_text(Instruction::Push(Register::Rbp)),
        line_text(
            Instruction::Move {
                source: register_operand(Register::Rsp),
                destination: register_operand(Register::Rbp),
            },
        ),
        line_text(
            Instruction::Move {
                source: register_operand(Register::Rdi),
                destination: register_operand(Register::Rax),
            },
        ),
    ] + release_lines(
        release_helper_failure(),
        release_helper_last(),
        release_helper_complete(),
        finalizer_displacement,
    ) + seq![
        label_text_line(release_helper_complete()),
        line_text(Instruction::Leave),
        line_text(Instruction::Return),
    ]
}

/// Whether `function` is the generated shared release helper.
pub open spec fn is_release_helper(function: AssemblyFunction, finalizer_displacement: i32) -> bool {
    &&& function.symbol@ == shared_handle_release_text()
    &&& !function.exported
    &&& lines(function.instructions@) == release_helper_lines(finalizer_displacement)
}

/// The generated helper that drops one owner of the shared handle in `rdi`.
pub fn lower_release(dispatch: &DispatchMetadata) -> (r: AssemblyFunction)
    ensures
        is_release_helper(r, dispatch.finalizer_displacement),
{
    let failure = Label::new(String::from_str(".Lska_shared_handle_release_invalid"));
    let last = Label::new(String::from_str(".Lska_shared_handle_release_last"));
    let complete = Label::new(String::from_str(".Lska_shared_handle_release_complete"));
    let mut instructions: Vec<Instruction> = Vec::new();
    instructions.push(Instruction::Push(Register::Rbp));
    instructions.push(
        Instruction::Move { source: register(Register::Rsp), destination: register(Register::Rbp) },
    );
    instructions.push(
        Instruction::Move { source: register(Register::Rdi), destination: register(Register::Rax) },
    );
    emit_release_loaded_handle(
        failure,
        last,
        complete.duplicate(),
        dispatch.finalizer_displacement(),
        &mut instructions,
    );
    instructions.push(Instruction::Label(complete));
    instructions.push(Instruction::Leave);
    instructions.push(Instruction::Return);
    assert(lines(instructions@) =~= release_helper_lines(dispatch.finalizer_displacement));
    AssemblyFunction {
        symbol: String::from_str(shared_handle_release()),
        exported: false,
        instructions,
    }
}

/// Whether values of the type are shared or optional shared owners.
pub open spec fn is_shared_owner(ty: MirType) -> bool {
    ty is Shared || ty is OptionalShared
}

/// Whether a static cleanup releases a shared or optional shared owner.
pub open spec fn releases_shared_owner(cleanup: MirStaticValueCleanup) -> bool {
    cleanup is Shared || cleanup is OptionalShared
}

/// Whether some array type holds shared or optional shared elements.
pub open spec fn arrays_hold_shared(program: &MirProgram) -> bool {
    exists|i: int|
        0 <= i < program.array_types@.len() && is_shared_owner(
            (#[trigger] program.array_types@[i]).element,
        )
}

/// Whether some static shutdown releases a shared or optional shared owner.
pub open spec fn statics_release_shared(program: &MirProgram) -> bool {
    program.static_lifecycle matches Some(lifecycle) && exists|i: int|
        0 <= i < lifecycle.shutdown@.len() && releases_shared_owner(
            (#[trigger] lifecycle.shutdown@[i]).cleanup,
        )
}

fn arrays_need_helpers(program: &MirProgram) -> (r: bool)
    ensures
        r == arrays_hold_shared(program),
{
    let mut i: usize = 0;
    while i < program.array_types.len()
        invariant
            i <= program.array_types@.len(),
            forall|k: int|
                0 <= k < i ==> !is_shared_owner(#[trigger] program.array_types@[k].element),
        decreases program.array_types@.len() - i,
    {
        match program.array_types[i].element {
            MirType::Shared(_) | MirType::OptionalShared(_) => {
                assert(is_shared_owner(program.array_types@[i as int].element));
                return true;
            },
            _ => {},
        }
        i = i + 1;
    }
    false
}

fn statics_need_helpers(program: &MirProgram) -> (r: bool)
    ensures
        r == statics_release_shared(program),
{
    match &program.static_lifecycle {
        None => false,
        Some(lifecycle) => {
            let shutdown = lifecycle.shutdown();
            let mut i: usize = 0;
            while i < shutdown.len()
                invariant
                    program.static_lifecycle == Some(*lifecycle),
                    shutdown@ == lifecycle.shutdown@,
                    i <= shutdown@.len(),
                    forall|k: int|
                        0 <= k < i ==> !releases_shared_owner(#[trigger] shutdown@[k].cleanup),
                decreases shutdown@.len() - i,
            {
                match shutdown[i].cleanup {
                    MirStaticValueCleanup::Shared(_) | MirStaticValueCleanup::OptionalShared(_) => {
                        assert(releases_shared_owner(shutdown@[i as int].cleanup));
                        return true;
                    },
                    _ => {},
                }
                i = i + 1;
            }
            false
        },
    }
}

/// The private shared-handle helpers that generated lifecycle functions
/// call: the retain helper when some array holds shared elements, then the
/// release helper when such an array exists or some static shutdown
/// releases a shared owner.
pub fn lower_helpers(program: &MirProgram, dispatch: &DispatchMetadata) -> (r: Vec<AssemblyFunction>)
    ensures
        r@.len() == (if arrays_hold_shared(program) {
            1int
        } else {
            0int
        }) + (if arrays_hold_shared(program) || statics_release_shared(program) {
            1int
        } else {
            0int
        }),
        arrays_hold_shared(program) ==> is_retain_helper(r@[0]),
        arrays_hold_shared(program) || statics_release_shared(program) ==> is_release_helper(
            r@[r@.len() - 1],
            dispatch.finalizer_displacement,
        ),
{
    let arrays = arrays_need_helpers(program);
    let statics = statics_need_helpers(program);
    let mut helpers: Vec<AssemblyFunction> = Vec::new();
    if arrays {
        helpers.push(lower_retain());
    }
    if arrays || statics {
        helpers.push(lower_release(dispatch));
    }
    helpers
}


/// The runtime entry that allocates shared storage.
pub open spec fn runtime_alloc_text() -> Seq<char> {
    "ska_rt_alloc"@
}

/// A label of a shared-owner operation in the body of `callable`, numbered
/// by the instruction count.
pub open spec fn ownership_label_text(callable: CallableId, purpose: Seq<char>, index: nat) -> Seq<
    char,
> {
    ".Lska_"@ + label_stem_text(callable) + "_ownership_"@ + purpose + "_"@ + decimal_text(index)
}

pub fn ownership_label(callable: CallableId, purpose: &str, index: usize) -> (r: Label)
    ensures
        r.text@ == ownership_label_text(callable, purpose@, index as nat),
{
    let mut text = String::from_str(".Lska_");
    let stem = crate::symbol::callable(callable);
    text.append(stem.as_str());
    text.append("_ownership_");
    text.append(purpose);
    text.append("_");
    let digits = decimal(index as u64);
    text.append(digits.as_str());
    Label::new(text)
}

fn purpose_label(callable: CallableId, operation: &str, role: &str, index: usize) -> (r: Label)
    ensures
        r.text@ == ownership_label_text(callable, operation@ + role@, index as nat),
{
    let purpose = suffixed(operation, role);
    ownership_label(callable, purpose.as_str(), index)
}

/// The invalid-owner and completion labels of an operation.
pub fn ownership_labels(callable: CallableId, operation: &str, index: usize) -> (r: (Label, Label))
    ensures
        r.0.text@ == ownership_label_text(callable, operation@ + "_invalid"@, index as nat),
        r.1.text@ == ownership_label_text(callable, operation@ + "_complete"@, index as nat),
{
    (
        purpose_label(callable, operation, "_invalid", index),
        purpose_label(callable, operation, "_complete", index),
    )
}

/// The invalid-owner, overflow, and completion labels of a retain.
pub fn retain_labels(callable: CallableId, operation: &str, index: usize) -> (r: (
    Label,
    Label,
    Label,
))
    ensures
        r.0.text@ == ownership_label_text(callable, operation@ + "_invalid"@, index as nat),
        r.1.text@ == ownership_label_text(callable, operation@ + "_overflow"@, index as nat),
        r.2.text@ == ownership_label_text(callable, operation@ + "_complete"@, index as nat),
{
    (
        purpose_label(callable, operation, "_invalid", index),
        purpose_label(callable, operation, "_overflow", index),
        purpose_label(callable, operation, "_complete", index),
    )
}

/// Loads the handle held in `storage` into `destination`.
pub fn load_shared_handle(
    frame: &FrameLayout,
    storage: StorageId,
    destination: Register,
    output: &mut Vec<Instruction>,
)
    requires
        storage.idx < frame.storage_offsets@.len(),
    ensures
        final(output)@ == old(output)@.push(
            Instruction::Move {
                source: storage_operand(frame, storage),
                destination: register_operand(destination),
            },
        ),
{
    output.push(
        Instruction::Move { source: frame_storage(frame, storage), destination: register(destination) },
    );
}

/// Allocates the header and payload of a shared object of `class` and
/// keeps the handle in `allocation`.
pub fn select_shared_allocate(
    data_layout: &DataLayout,
    frame: &FrameLayout,
    class: ClassId,
    allocation: StorageId,
    output: &mut Vec<Instruction>,
) -> (r: Result<(), BackendError>)
    requires
        allocation.idx < frame.storage_offsets@.len(),
    ensures
        old(output)@.len() <= final(output)@.len(),
        final(output)@.subrange(0, old(output)@.len() as int) == old(output)@,
        forall|i: int| 0 <= i < old(output)@.len() ==> #[trigger] final(output)@[i] == old(output)@[i],
        match spec_shared_allocation_size(data_layout, class) {
            Ok(byte_count) => r is Ok && lines(final(output)@) == lines(old(output)@) + seq![
                line_text(Instruction::MoveImmediate64 { bits: byte_count, destination: Register::Rdi }),
                one_operand_line("call"@, runtime_alloc_text()),
                line_text(store_rax_instruction(storage_operand(frame, allocation))),
            ],
            Err(message) => r matches Err(error) && is_layout_error(error, message),
        },
{
    let ghost before = lines(output@);
    let byte_count = match data_layout.shared_allocation_size(class) {
        Ok(byte_count) => byte_count,
        Err(error) => return Err(error),
    };
    output.push(Instruction::MoveImmediate64 { bits: byte_count, destination: Register::Rdi });
    output.push(Instruction::Call(String::from_str("ska_rt_alloc")));
    store_rax(frame_storage(frame, allocation), output);
    assert(lines(output@) =~= before + seq![
        line_text(Instruction::MoveImmediate64 { bits: byte_count, destination: Register::Rdi }),
        one_operand_line("call"@, runtime_alloc_text()),
        line_text(store_rax_instruction(storage_operand(frame, allocation))),
    ]);
    Ok(())
}

pub open spec fn publication_message() -> Seq<char> {
    "shared publication storage has no exact dynamic class"@
}

/// The lines that publish an initialized allocation of `class`: the
/// dispatch table becomes its dynamic metadata and the count becomes one.
pub open spec fn publish_lines(frame: &FrameLayout, allocation: StorageId, class: ClassId) -> Seq<
    Seq<char>,
> {
    seq![
        line_text(
            Instruction::Move {
                source: storage_operand(frame, allocation),
                destination: register_operand(Register::R11),
            },
        ),
        "    "@ + binary_text(
            "lea"@,
            register_name(Register::Rax),
            rip_relative_text(dispatch_table_text(class)),
        ) + "\n"@,
        line_text(
            store_rax_instruction(memory_operand(Register::R11, SHARED_DYNAMIC_METADATA_OFFSET)),
        ),
        line_text(Instruction::MoveImmediate64 { bits: 1, destination: Register::Rax }),
        line_text(store_rax_instruction(memory_operand(Register::R11, STRONG_COUNT_OFFSET))),
    ]
}

/// Publishes the allocation held in `allocation`, whose storage must have
/// an exact class type.
pub fn select_shared_publish(
    function: &MirDefinition,
    frame: &FrameLayout,
    allocation: StorageId,
    output: &mut Vec<Instruction>,
) -> (r: Result<(), BackendError>)
    requires
        allocation.idx < function.storage@.len(),
        allocation.idx < frame.storage_offsets@.len(),
    ensures
        old(output)@.len() <= final(output)@.len(),
        final(output)@.subrange(0, old(output)@.len() as int) == old(output)@,
        forall|i: int| 0 <= i < old(output)@.len() ==> #[trigger] final(output)@[i] == old(output)@[i],
        match function.storage@[allocation.idx as int].ty {
            MirType::Class(class) => r is Ok && lines(final(output)@) == lines(old(output)@)
                + publish_lines(frame, allocation, class),
            _ => r matches Err(error) && error_is(
                error,
                Some(function.callable),
                publication_message(),
            ),
        },
{
    let ghost before = lines(output@);
    let class = match function.storage(allocation) {
        Some(entry) => match entry.ty {
            MirType::Class(class) => class,
            _ => return Err(
                BackendError::new(
                    Target::X86_64SysV,
                    Some(function.callable()),
                    String::from_str("shared publication storage has no exact dynamic class"),
                ),
            ),
        },
        None => vstd::pervasive::unreached(),
    };
    load_shared_handle(frame, allocation, Register::R11, output);
    output.push(Instruction::LoadSymbolAddress { symbol: dispatch_table(class), destination: Register::Rax });
    store_rax(memory(Register::R11, SHARED_DYNAMIC_METADATA_OFFSET), output);
    output.push(Instruction::MoveImmediate64 { bits: 1, destination: Register::Rax });
    store_rax(memory(Register::R11, STRONG_COUNT_OFFSET), output);
    assert(lines(output@) =~= before + publish_lines(frame, allocation, class));
    Ok(())
}

/// Moves a handle between owners without changing its count.
fn transfer_handle(
    frame: &FrameLayout,
    source: StorageId,
    destination: StorageId,
    output: &mut Vec<Instruction>,
)
    requires
        source.idx < frame.storage_offsets@.len(),
        destination.idx < frame.storage_offsets@.len(),
    ensures
        final(output)@ == old(output)@ + seq![
            load_rax_instruction(storage_operand(frame, source)),
            store_rax_instruction(storage_operand(frame, destination)),
        ],
{
    let ghost before = output@;
    load_rax(frame_storage(frame, source), output);
    store_rax(frame_storage(frame, destination), output);
    assert(output@ =~= before + seq![
        load_rax_instruction(storage_operand(frame, source)),
        store_rax_instruction(storage_operand(frame, destination)),
    ]);
}

/// Adopts a published allocation: its handle moves to the owner.
pub fn select_shared_adopt(
    frame: &FrameLayout,
    allocation: StorageId,
    destination: StorageId,
    output: &mut Vec<Instruction>,
)
    requires
        allocation.idx < frame.storage_offsets@.len(),
        destination.idx < frame.storage_offsets@.len(),
    ensures
        final(output)@ == old(output)@ + seq![
            load_rax_instruction(storage_operand(frame, allocation)),
            store_rax_instruction(storage_operand(frame, destination)),
        ],
{
    transfer_handle(frame, allocation, destination, output);
}

/// Moves a handle from one owner to another; the count is unchanged.
pub fn select_shared_move(
    frame: &FrameLayout,
    source: StorageId,
    destination: StorageId,
    output: &mut Vec<Instruction>,
)
    requires
        source.idx < frame.storage_offsets@.len(),
        destination.idx < frame.storage_offsets@.len(),
    ensures
        final(output)@ == old(output)@ + seq![
            load_rax_instruction(storage_operand(frame, source)),
            store_rax_instruction(storage_operand(frame, destination)),
        ],
{
    transfer_handle(frame, source, destination, output);
}

/// The lines of a shared copy: the source handle gains an owner and is
/// stored in the destination.
pub open spec fn copy_lines(
    callable: CallableId,
    frame: &FrameLayout,
    source: StorageId,
    destination: StorageId,
    index: nat,
) -> Seq<Seq<char>> {
    let invalid = ownership_label_text(callable, "retain"@ + "_invalid"@, index);
    let overflow = ownership_label_text(callable, "retain"@ + "_overflow"@, index);
    let complete = ownership_label_text(callable, "retain"@ + "_complete"@, index);
    seq![
        line_text(
            Instruction::Move {
                source: storage_operand(frame, source),
                destination: register_operand(Register::Rax),
            },
        ),
    ] + retain_lines(invalid, overflow) + seq![
        line_text(store_rax_instruction(storage_operand(frame, destination))),
    ] + retain_outcome_lines(invalid, overflow, complete) + seq![label_text_line(complete)]
}

/// Copies a shared owner: one more owner of the same handle.
pub fn select_shared_copy(
    callable: CallableId,
    frame: &FrameLayout,
    source: StorageId,
    destination: StorageId,
    output: &mut Vec<Instruction>,
)
    requires
        source.idx < frame.storage_offsets@.len(),
        destination.idx < frame.storage_offsets@.len(),
    ensures
        old(output)@.len() <= final(output)@.len(),
        final(output)@.subrange(0, old(output)@.len() as int) == old(output)@,
        forall|i: int| 0 <= i < old(output)@.len() ==> #[trigger] final(output)@[i] == old(output)@[i],
        lines(final(output)@) == lines(old(output)@) + copy_lines(
            callable,
            frame,
            source,
            destination,
            old(output)@.len(),
        ),
{
    let ghost before = lines(output@);
    let (invalid, overflow, complete) = retain_labels(callable, "retain", output.len());
    load_shared_handle(frame, source, Register::Rax, output);
    emit_retain_loaded_handle(invalid.duplicate(), overflow.duplicate(), output);
    store_rax(frame_storage(frame, destination), output);
    emit_retain_outcome_blocks(invalid, overflow, complete.duplicate(), output);
    output.push(Instruction::Label(complete));
    assert(lines(output@) =~= before + copy_lines(
        callable,
        frame,
        source,
        destination,
        old(output)@.len() as nat,
    ));
}

/// The lines of a shared release of the owner held in `owner`.
pub open spec fn owner_release_lines(
    callable: CallableId,
    frame: &FrameLayout,
    owner: StorageId,
    finalizer_displacement: i32,
    index: nat,
) -> Seq<Seq<char>> {
    let complete = ownership_label_text(callable, "release"@ + "_complete"@, index);
    seq![
        line_text(
            Instruction::Move {
                source: storage_operand(frame, owner),
                destination: register_operand(Register::Rax),
            },
        ),
    ] + release_lines(
        ownership_label_text(callable, "release"@ + "_invalid"@, index),
        ownership_label_text(callable, "release_last"@, index),
        complete,
        finalizer_displacement,
    ) + seq![label_text_line(complete)]
}

/// Drops the owner held in `owner`.
#[verifier::rlimit(60)]
pub fn select_shared_release(
    callable: CallableId,
    frame: &FrameLayout,
    finalizer_displacement: i32,
    owner: StorageId,
    output: &mut Vec<Instruction>,
)
    requires
        owner.idx < frame.storage_offsets@.len(),
    ensures
        old(output)@.len() <= final(output)@.len(),
        final(output)@.subrange(0, old(output)@.len() as int) == old(output)@,
        forall|i: int| 0 <= i < old(output)@.len() ==> #[trigger] final(output)@[i] == old(output)@[i],
        lines(final(output)@) == lines(old(output)@) + owner_release_lines(
            callable,
            frame,
            owner,
            finalizer_displacement,
            old(output)@.len(),
        ),
{
    let ghost before = lines(output@);
    let index = output.len();
    let (failure, complete) = ownership_labels(callable, "release", index);
    let last = ownership_label(callable, "release_last", index);
    load_shared_handle(frame, owner, Register::Rax, output);
    emit_release_loaded_handle(failure, last, complete.duplicate(), finalizer_displacement, output);
    output.push(Instruction::Label(complete));
    assert(lines(output@) =~= before + owner_release_lines(
        callable,
        frame,
        owner,
        finalizer_displacement,
        index as nat,
    ));
}

} // verus!
