//! Deterministic inline-array helpers specialized by array type.
//!
//! Every array type gets six generated functions: element initialization,
//! element copy, whole-array clone, element destruction, backing release,
//! and shared finalization. Each generator's contract states the exact
//! assembly listing its function renders to.

use vstd::prelude::*;

use crate::emit::{body_text, line_text, unary_text};
use crate::error::{BackendError, Target, error_is};
use crate::identity::ArrayTypeId;
use crate::identity::{ClassId, OptionalTypeId};
use crate::abi::lemma_small_powers_of_two;
use crate::layout::{
    ARRAY_DESCRIPTOR_ALIGNMENT, ARRAY_DESCRIPTOR_SIZE, ARRAY_LENGTH_OFFSET,
    ARRAY_OWNER_COUNT_OFFSET, ArrayLayout, DataLayout, OptionalLayout, SHARED_HANDLE_ALIGNMENT,
    SHARED_HANDLE_SIZE, SHARED_HEADER_SIZE, TypeLayout, array_descriptor_layout,
    class_missing_message, data_layout_wf, optional_layout, optional_layout_for,
    shared_handle_layout, spec_optional_layout, spec_optional_layout_for, type_layout_wf,
};
use crate::selection::{materialize_helper_element_addresses, offset_operand};
use crate::symbol::{
    class_copy_helper, class_copy_helper_text, complete_finalizer, complete_finalizer_text,
    shared_handle_release, shared_handle_release_text, shared_handle_retain,
    shared_handle_retain_text,
};
use crate::machine::{AssemblyFunction, ByteRegister, Instruction, Label, Operand, Register};
use crate::mir::{MirArrayType, MirOptionalStorage, MirPrimitiveType, MirProgram, MirType};
use crate::selection::{materialize_destroy_element_address, scaled_address};
use crate::symbol::{
    array_clone, array_copy_element, array_destroy_element, array_helper_text,
    array_initialize_element, array_release, shared_array_finalizer,
    shared_array_finalizer_text,
};
use crate::text::{decimal, decimal_text, framed_decimal};

verus! {

/// A label line of a listing.
pub open spec fn label_line(text: Seq<char>) -> Seq<char> {
    Seq::<char>::empty() + (text + ":"@) + "\n"@
}

/// An indented line with one operand, such as a jump or a call.
pub open spec fn operand_line(mnemonic: Seq<char>, operand: Seq<char>) -> Seq<char> {
    "    "@ + unary_text(mnemonic, operand) + "\n"@
}

/// The kinds of jumps that generated helpers use.
pub enum JumpKind {
    Always,
    IfNotZero,
    IfEqual,
    IfBelow,
}

pub open spec fn jump_mnemonic(kind: JumpKind) -> Seq<char> {
    match kind {
        JumpKind::Always => "jmp"@,
        JumpKind::IfNotZero => "jne"@,
        JumpKind::IfEqual => "je"@,
        JumpKind::IfBelow => "jb"@,
    }
}

fn push_plain(output: &mut Vec<Instruction>, instruction: Instruction)
    ensures
        body_text(final(output)@) == body_text(old(output)@) + line_text(instruction),
{
    let ghost before = output@;
    output.push(instruction);
    assert(output@.drop_last() =~= before);
}

fn push_label(output: &mut Vec<Instruction>, text: String)
    ensures
        body_text(final(output)@) == body_text(old(output)@) + label_line(text@),
{
    let ghost before = output@;
    output.push(Instruction::Label(Label::new(text)));
    assert(output@.drop_last() =~= before);
}

fn push_jump(output: &mut Vec<Instruction>, kind: JumpKind, text: String)
    ensures
        body_text(final(output)@) == body_text(old(output)@) + operand_line(
            jump_mnemonic(kind),
            text@,
        ),
{
    let ghost before = output@;
    let label = Label::new(text);
    match kind {
        JumpKind::Always => output.push(Instruction::Jump(label)),
        JumpKind::IfNotZero => output.push(Instruction::JumpIfNotZero(label)),
        JumpKind::IfEqual => output.push(Instruction::JumpIfEqual(label)),
        JumpKind::IfBelow => output.push(Instruction::JumpIfBelow(label)),
    }
    assert(output@.drop_last() =~= before);
}

fn push_call(output: &mut Vec<Instruction>, symbol: String)
    ensures
        body_text(final(output)@) == body_text(old(output)@) + operand_line("call"@, symbol@),
{
    let ghost before = output@;
    output.push(Instruction::Call(symbol));
    assert(output@.drop_last() =~= before);
}

/// `.Lska_array_N_role`, the stem of a helper's local labels.
pub open spec fn stem_text(array: ArrayTypeId, role: Seq<char>) -> Seq<char> {
    ".Lska_array_"@ + decimal_text(array.idx as nat) + role
}

fn stem(array: ArrayTypeId, role: &str) -> (r: String)
    ensures
        r@ == stem_text(array, role@),
{
    let mut text = String::from_str(".Lska_array_");
    let digits = decimal(array.index() as u64);
    text.append(digits.as_str());
    text.append(role);
    text
}

fn suffixed(stem: &String, suffix: &str) -> (r: String)
    ensures
        r@ == stem@ + suffix@,
{
    let mut text = String::from_str(stem.as_str());
    text.append(suffix);
    text
}

pub open spec fn reg(register: Register) -> Operand {
    Operand::Register(register)
}

pub open spec fn mem(base: Register, displacement: i32) -> Operand {
    Operand::Memory { base, displacement }
}

/// The runtime entry that frees a backing allocation.
pub open spec fn runtime_free_text() -> Seq<char> {
    "ska_rt_free"@
}

/// The listing of the release helper: drop one owner of the backing in
/// `rdi`; when it was the last, destroy every element from the last to
/// the first and free the backing.
pub open spec fn release_listing(array: ArrayTypeId) -> Seq<char> {
    let stem = stem_text(array, "_release"@);
    Seq::<char>::empty() + line_text(Instruction::Push(Register::Rbp)) + line_text(
        Instruction::Move { source: reg(Register::Rsp), destination: reg(Register::Rbp) },
    ) + line_text(Instruction::ReserveStack(16)) + line_text(Instruction::Test(Register::Rdi))
        + operand_line("je"@, stem + "_complete"@) + line_text(
        Instruction::Move { source: reg(Register::Rdi), destination: mem(Register::Rbp, -8i32) },
    ) + line_text(
        Instruction::Move {
            source: mem(Register::Rdi, ARRAY_OWNER_COUNT_OFFSET),
            destination: reg(Register::Rax),
        },
    ) + line_text(Instruction::MoveImmediate64 { bits: 1, destination: Register::R11 })
        + line_text(Instruction::Subtract { source: Register::R11, destination: Register::Rax })
        + line_text(
        Instruction::Move {
            source: reg(Register::Rax),
            destination: mem(Register::Rdi, ARRAY_OWNER_COUNT_OFFSET),
        },
    ) + line_text(Instruction::Test(Register::Rax)) + operand_line(
        "jne"@,
        stem + "_complete"@,
    ) + line_text(
        Instruction::Move {
            source: mem(Register::Rdi, ARRAY_LENGTH_OFFSET),
            destination: reg(Register::Rax),
        },
    ) + line_text(
        Instruction::Move { source: reg(Register::Rax), destination: mem(Register::Rbp, -16i32) },
    ) + label_line(stem + "_destroy_header"@) + line_text(
        Instruction::Move { source: mem(Register::Rbp, -16i32), destination: reg(Register::Rax) },
    ) + line_text(Instruction::Test(Register::Rax)) + operand_line(
        "jne"@,
        stem + "_destroy_body"@,
    ) + operand_line("jmp"@, stem + "_free"@) + label_line(stem + "_destroy_body"@) + line_text(
        Instruction::MoveImmediate64 { bits: 1, destination: Register::R11 },
    ) + line_text(Instruction::Subtract { source: Register::R11, destination: Register::Rax })
        + line_text(
        Instruction::Move { source: reg(Register::Rax), destination: mem(Register::Rbp, -16i32) },
    ) + line_text(
        Instruction::Move { source: mem(Register::Rbp, -8i32), destination: reg(Register::Rdi) },
    ) + line_text(Instruction::Move { source: reg(Register::Rax), destination: reg(Register::Rsi) })
        + operand_line("call"@, array_helper_text("destroy_element"@, array)) + operand_line(
        "jmp"@,
        stem + "_destroy_header"@,
    ) + label_line(stem + "_free"@) + line_text(
        Instruction::Move { source: mem(Register::Rbp, -8i32), destination: reg(Register::Rdi) },
    ) + operand_line("call"@, runtime_free_text()) + label_line(stem + "_complete"@) + line_text(
        Instruction::Leave,
    ) + line_text(Instruction::Return)
}

/// The helper that releases one owner of an inline array backing.
pub fn lower_release(array: ArrayTypeId) -> (r: Result<AssemblyFunction, BackendError>)
    ensures
        r matches Ok(function) && function.symbol@ == array_helper_text("release"@, array)
            && !function.exported && body_text(function.instructions@) == release_listing(array),
{
    let stem = stem(array, "_release");
    let mut out: Vec<Instruction> = Vec::new();
    push_plain(&mut out, Instruction::Push(Register::Rbp));
    push_plain(&mut out, Instruction::Move { source: Operand::Register(Register::Rsp), destination: Operand::Register(Register::Rbp) });
    push_plain(&mut out, Instruction::ReserveStack(16));
    push_plain(&mut out, Instruction::Test(Register::Rdi));
    push_jump(&mut out, JumpKind::IfEqual, suffixed(&stem, "_complete"));
    push_plain(&mut out, Instruction::Move { source: Operand::Register(Register::Rdi), destination: Operand::Memory { base: Register::Rbp, displacement: -8 } });
    push_plain(&mut out, Instruction::Move { source: Operand::Memory { base: Register::Rdi, displacement: ARRAY_OWNER_COUNT_OFFSET }, destination: Operand::Register(Register::Rax) });
    push_plain(&mut out, Instruction::MoveImmediate64 { bits: 1, destination: Register::R11 });
    push_plain(&mut out, Instruction::Subtract { source: Register::R11, destination: Register::Rax });
    push_plain(&mut out, Instruction::Move { source: Operand::Register(Register::Rax), destination: Operand::Memory { base: Register::Rdi, displacement: ARRAY_OWNER_COUNT_OFFSET } });
    push_plain(&mut out, Instruction::Test(Register::Rax));
    push_jump(&mut out, JumpKind::IfNotZero, suffixed(&stem, "_complete"));
    push_plain(&mut out, Instruction::Move { source: Operand::Memory { base: Register::Rdi, displacement: ARRAY_LENGTH_OFFSET }, destination: Operand::Register(Register::Rax) });
    push_plain(&mut out, Instruction::Move { source: Operand::Register(Register::Rax), destination: Operand::Memory { base: Register::Rbp, displacement: -16 } });
    push_label(&mut out, suffixed(&stem, "_destroy_header"));
    push_plain(&mut out, Instruction::Move { source: Operand::Memory { base: Register::Rbp, displacement: -16 }, destination: Operand::Register(Register::Rax) });
    push_plain(&mut out, Instruction::Test(Register::Rax));
    push_jump(&mut out, JumpKind::IfNotZero, suffixed(&stem, "_destroy_body"));
    push_jump(&mut out, JumpKind::Always, suffixed(&stem, "_free"));
    push_label(&mut out, suffixed(&stem, "_destroy_body"));
    push_plain(&mut out, Instruction::MoveImmediate64 { bits: 1, destination: Register::R11 });
    push_plain(&mut out, Instruction::Subtract { source: Register::R11, destination: Register::Rax });
    push_plain(&mut out, Instruction::Move { source: Operand::Register(Register::Rax), destination: Operand::Memory { base: Register::Rbp, displacement: -16 } });
    push_plain(&mut out, Instruction::Move { source: Operand::Memory { base: Register::Rbp, displacement: -8 }, destination: Operand::Register(Register::Rdi) });
    push_plain(&mut out, Instruction::Move { source: Operand::Register(Register::Rax), destination: Operand::Register(Register::Rsi) });
    push_call(&mut out, array_destroy_element(array));
    push_jump(&mut out, JumpKind::Always, suffixed(&stem, "_destroy_header"));
    push_label(&mut out, suffixed(&stem, "_free"));
    push_plain(&mut out, Instruction::Move { source: Operand::Memory { base: Register::Rbp, displacement: -8 }, destination: Operand::Register(Register::Rdi) });
    push_call(&mut out, String::from_str("ska_rt_free"));
    push_label(&mut out, suffixed(&stem, "_complete"));
    push_plain(&mut out, Instruction::Leave);
    push_plain(&mut out, Instruction::Return);
    assert(body_text(Seq::<Instruction>::empty()) == Seq::<char>::empty());
    Ok(AssemblyFunction { symbol: array_release(array), exported: false, instructions: out })
}

/// Rendering a concatenation renders each part in turn.
pub proof fn lemma_body_text_concat(first: Seq<Instruction>, second: Seq<Instruction>)
    ensures
        body_text(first + second) == body_text(first) + body_text(second),
    decreases second.len(),
{
    if second.len() == 0 {
        assert(first + second =~= first);
    } else {
        lemma_body_text_concat(first, second.drop_last());
        assert((first + second).drop_last() =~= first + second.drop_last());
        assert((first + second).last() == second.last());
    }
}

fn array_layout_of(data_layout: &DataLayout, array: ArrayTypeId, role: &str) -> (r: Result<
    ArrayLayout,
    BackendError,
>)
    ensures
        if array.idx < data_layout.arrays@.len() {
            r == Ok::<ArrayLayout, BackendError>(data_layout.arrays@[array.idx as int])
        } else {
            r matches Err(error) && error_is(error, None, missing_layout_message(array, role@))
        },
{
    match data_layout.array(array) {
        Some(layout) => Ok(layout),
        None => {
            let mut message = framed_decimal("array ", array.index() as u64, " has no ");
            message.append(role);
            message.append(" layout");
            Err(BackendError::new(Target::X86_64SysV, None, message))
        },
    }
}

pub open spec fn missing_layout_message(array: ArrayTypeId, role: Seq<char>) -> Seq<char> {
    "array "@ + decimal_text(array.idx as nat) + " has no "@ + role + " layout"@
}

pub open spec fn finalizer_offset_message() -> Seq<char> {
    "shared array finalizer offset cannot be encoded"@
}

/// The displacement from a shared payload address to the address that the
/// inline element destroyer expects, when it is encodable.
pub open spec fn finalizer_adjustment(layout: ArrayLayout) -> Option<i32> {
    let shared = layout.shared_element_offset as int;
    let inline = layout.element_offset as int;
    let adjustment = shared - SHARED_HEADER_SIZE - inline;
    if shared <= i64::MAX && inline <= i64::MAX && i32::MIN <= adjustment <= i32::MAX {
        Some(adjustment as i32)
    } else {
        None
    }
}

/// The listing of the shared finalizer: destroy every element of the
/// shared array whose payload address is in `rdi`, from the last to the
/// first.
pub open spec fn shared_finalizer_listing(array: ArrayTypeId, adjustment: i32) -> Seq<char> {
    let stem = stem_text(array, "_finalize_shared"@);
    Seq::<char>::empty() + line_text(Instruction::Push(Register::Rbp)) + line_text(
        Instruction::Move { source: reg(Register::Rsp), destination: reg(Register::Rbp) },
    ) + line_text(Instruction::ReserveStack(16)) + line_text(
        Instruction::Move { source: reg(Register::Rdi), destination: mem(Register::Rbp, -8i32) },
    ) + line_text(
        Instruction::Move { source: mem(Register::Rdi, 0i32), destination: reg(Register::Rax) },
    ) + line_text(
        Instruction::Move { source: reg(Register::Rax), destination: mem(Register::Rbp, -16i32) },
    ) + label_line(stem + "_header"@) + line_text(
        Instruction::Move { source: mem(Register::Rbp, -16i32), destination: reg(Register::Rax) },
    ) + line_text(Instruction::Test(Register::Rax)) + operand_line("je"@, stem + "_complete"@)
        + line_text(Instruction::MoveImmediate64 { bits: 1, destination: Register::R11 })
        + line_text(Instruction::Subtract { source: Register::R11, destination: Register::Rax })
        + line_text(
        Instruction::Move { source: reg(Register::Rax), destination: mem(Register::Rbp, -16i32) },
    ) + operand_line("jmp"@, stem + "_body"@) + label_line(stem + "_body"@) + line_text(
        Instruction::Move { source: mem(Register::Rbp, -8i32), destination: reg(Register::Rax) },
    ) + line_text(
        Instruction::LoadEffectiveAddress {
            source: mem(Register::Rax, adjustment),
            destination: Register::Rdi,
        },
    ) + line_text(
        Instruction::Move { source: mem(Register::Rbp, -16i32), destination: reg(Register::Rsi) },
    ) + operand_line("call"@, array_helper_text("destroy_element"@, array)) + operand_line(
        "jmp"@,
        stem + "_header"@,
    ) + label_line(stem + "_complete"@) + line_text(Instruction::Leave) + line_text(
        Instruction::Return,
    )
}

/// The finalizer that the generic shared release calls for shared arrays
/// of the type.
pub fn lower_shared_finalizer(array: ArrayTypeId, data_layout: &DataLayout) -> (r: Result<
    AssemblyFunction,
    BackendError,
>)
    ensures
        if array.idx >= data_layout.arrays@.len() {
            r matches Err(error) && error_is(
                error,
                None,
                missing_layout_message(array, "shared finalizer"@),
            )
        } else {
            match finalizer_adjustment(data_layout.arrays@[array.idx as int]) {
                None => r matches Err(error) && error_is(error, None, finalizer_offset_message()),
                Some(adjustment) => r matches Ok(function) && function.symbol@
                    == shared_array_finalizer_text(array) && !function.exported && body_text(
                    function.instructions@,
                ) == shared_finalizer_listing(array, adjustment),
            }
        },
{
    let layout = match array_layout_of(data_layout, array, "shared finalizer") {
        Ok(layout) => layout,
        Err(failure) => return Err(failure),
    };
    let shared = layout.shared_element_offset();
    let inline = layout.element_offset();
    if shared as u64 > 0x7fff_ffff_ffff_ffffu64 || inline as u64 > 0x7fff_ffff_ffff_ffffu64 {
        return Err(
            BackendError::new(
                Target::X86_64SysV,
                None,
                String::from_str("shared array finalizer offset cannot be encoded"),
            ),
        );
    }
    let shared_signed = shared as i64;
    let inline_signed = inline as i64;
    assert(shared_signed == shared && inline_signed == inline);
    let difference: i64 = match (shared_signed - 16i64).checked_sub(inline_signed) {
        Some(difference) => difference,
        None => {
            return Err(
                BackendError::new(
                    Target::X86_64SysV,
                    None,
                    String::from_str("shared array finalizer offset cannot be encoded"),
                ),
            );
        },
    };
    if difference < -0x8000_0000i64 || difference > 0x7fff_ffffi64 {
        return Err(
            BackendError::new(
                Target::X86_64SysV,
                None,
                String::from_str("shared array finalizer offset cannot be encoded"),
            ),
        );
    }
    let adjustment = difference as i32;
    let stem = stem(array, "_finalize_shared");
    let mut out: Vec<Instruction> = Vec::new();
    push_plain(&mut out, Instruction::Push(Register::Rbp));
    push_plain(&mut out, Instruction::Move { source: Operand::Register(Register::Rsp), destination: Operand::Register(Register::Rbp) });
    push_plain(&mut out, Instruction::ReserveStack(16));
    push_plain(&mut out, Instruction::Move { source: Operand::Register(Register::Rdi), destination: Operand::Memory { base: Register::Rbp, displacement: -8 } });
    push_plain(&mut out, Instruction::Move { source: Operand::Memory { base: Register::Rdi, displacement: 0 }, destination: Operand::Register(Register::Rax) });
    push_plain(&mut out, Instruction::Move { source: Operand::Register(Register::Rax), destination: Operand::Memory { base: Register::Rbp, displacement: -16 } });
    push_label(&mut out, suffixed(&stem, "_header"));
    push_plain(&mut out, Instruction::Move { source: Operand::Memory { base: Register::Rbp, displacement: -16 }, destination: Operand::Register(Register::Rax) });
    push_plain(&mut out, Instruction::Test(Register::Rax));
    push_jump(&mut out, JumpKind::IfEqual, suffixed(&stem, "_complete"));
    push_plain(&mut out, Instruction::MoveImmediate64 { bits: 1, destination: Register::R11 });
    push_plain(&mut out, Instruction::Subtract { source: Register::R11, destination: Register::Rax });
    push_plain(&mut out, Instruction::Move { source: Operand::Register(Register::Rax), destination: Operand::Memory { base: Register::Rbp, displacement: -16 } });
    push_jump(&mut out, JumpKind::Always, suffixed(&stem, "_body"));
    push_label(&mut out, suffixed(&stem, "_body"));
    push_plain(&mut out, Instruction::Move { source: Operand::Memory { base: Register::Rbp, displacement: -8 }, destination: Operand::Register(Register::Rax) });
    push_plain(&mut out, Instruction::LoadEffectiveAddress { source: Operand::Memory { base: Register::Rax, displacement: adjustment }, destination: Register::Rdi });
    push_plain(&mut out, Instruction::Move { source: Operand::Memory { base: Register::Rbp, displacement: -16 }, destination: Operand::Register(Register::Rsi) });
    push_call(&mut out, array_destroy_element(array));
    push_jump(&mut out, JumpKind::Always, suffixed(&stem, "_header"));
    push_label(&mut out, suffixed(&stem, "_complete"));
    push_plain(&mut out, Instruction::Leave);
    push_plain(&mut out, Instruction::Return);
    assert(body_text(Seq::<Instruction>::empty()) == Seq::<char>::empty());
    Ok(AssemblyFunction { symbol: shared_array_finalizer(array), exported: false, instructions: out })
}

/// Strides that an indexed operand can scale by.
pub open spec fn scalable(stride: usize) -> bool {
    stride == 1 || stride == 2 || stride == 4 || stride == 8
}

/// The operand of element `index` of the array at `base`, and the code
/// that must first compute its address when the stride cannot be scaled.
pub open spec fn element_slot(stride: usize, displacement: i32, base: Register, index: Register) -> (
    Operand,
    Seq<Instruction>,
) {
    if scalable(stride) {
        (
            Operand::IndexedMemory { base, index, scale: stride as u8, displacement },
            Seq::empty(),
        )
    } else {
        (Operand::Memory { base, displacement: 0 }, scaled_address(index, base, stride as u64, displacement))
    }
}

pub open spec fn element_offset_message(array: ArrayTypeId) -> Seq<char> {
    "array "@ + decimal_text(array.idx as nat) + " element offset cannot be encoded"@
}

fn element_offset_error(array: ArrayTypeId) -> (r: BackendError)
    ensures
        error_is(r, None, element_offset_message(array)),
{
    BackendError::new(
        Target::X86_64SysV,
        None,
        framed_decimal("array ", array.index() as u64, " element offset cannot be encoded"),
    )
}

/// The listing of the element initializer: zero element `rsi` of the
/// array at `rdi`, with a byte store for byte-sized elements.
pub open spec fn initializer_listing(layout: ArrayLayout, element: MirType) -> Seq<char> {
    let (destination, setup) = element_slot(
        layout.stride,
        layout.element_offset as i32,
        Register::Rdi,
        Register::Rsi,
    );
    body_text(setup) + line_text(Instruction::MoveImmediate64 { bits: 0, destination: Register::Rax })
        + line_text(
        if element is U8 || element is Bool {
            Instruction::MoveByte { source: ByteRegister::Al, destination }
        } else {
            Instruction::Move { source: reg(Register::Rax), destination }
        },
    ) + line_text(Instruction::Return)
}

/// The helper that default-initializes one element of the array type.
pub fn lower_initializer(array: ArrayTypeId, element: MirType, data_layout: &DataLayout) -> (r:
    Result<AssemblyFunction, BackendError>)
    ensures
        if array.idx >= data_layout.arrays@.len() {
            r matches Err(error) && error_is(error, None, missing_layout_message(array, "helper"@))
        } else if data_layout.arrays@[array.idx as int].element_offset > i32::MAX {
            r matches Err(error) && error_is(error, None, element_offset_message(array))
        } else {
            r matches Ok(function) && function.symbol@ == array_helper_text(
                "initialize_element"@,
                array,
            ) && !function.exported && body_text(function.instructions@) == initializer_listing(
                data_layout.arrays@[array.idx as int],
                element,
            )
        },
{
    let layout = match array_layout_of(data_layout, array, "helper") {
        Ok(layout) => layout,
        Err(failure) => return Err(failure),
    };
    if layout.element_offset() > 0x7fff_ffffusize {
        return Err(element_offset_error(array));
    }
    let displacement = layout.element_offset() as i32;
    let stride = layout.stride();
    let scaled = stride == 1 || stride == 2 || stride == 4 || stride == 8;
    let (destination, mut out) = if scaled {
        (
            Operand::IndexedMemory {
                base: Register::Rdi,
                index: Register::Rsi,
                scale: stride as u8,
                displacement,
            },
            Vec::new(),
        )
    } else {
        (
            Operand::Memory { base: Register::Rdi, displacement: 0 },
            materialize_destroy_element_address(stride, displacement),
        )
    };
    assert(body_text(Seq::<Instruction>::empty()) == Seq::<char>::empty());
    push_plain(&mut out, Instruction::MoveImmediate64 { bits: 0, destination: Register::Rax });
    if matches!(element, MirType::U8 | MirType::Bool) {
        push_plain(&mut out, Instruction::MoveByte { source: ByteRegister::Al, destination });
    } else {
        push_plain(&mut out, Instruction::Move { source: Operand::Register(Register::Rax), destination });
    }
    push_plain(&mut out, Instruction::Return);
    Ok(AssemblyFunction { symbol: array_initialize_element(array), exported: false, instructions: out })
}

/// The listing of the clone helper: allocate a fresh backing with one
/// owner and the source's length, copy every element in order, and return
/// it; a null source clones to null.
pub open spec fn clone_listing(array: ArrayTypeId, layout: ArrayLayout) -> Seq<char> {
    let stem = stem_text(array, "_clone"@);
    Seq::<char>::empty() + line_text(Instruction::Push(Register::Rbp)) + line_text(
        Instruction::Move { source: reg(Register::Rsp), destination: reg(Register::Rbp) },
    ) + line_text(Instruction::ReserveStack(32)) + line_text(Instruction::Test(Register::Rdi))
        + operand_line("je"@, stem + "_empty"@) + line_text(
        Instruction::Move { source: reg(Register::Rdi), destination: mem(Register::Rbp, -8i32) },
    ) + line_text(
        Instruction::Move {
            source: mem(Register::Rdi, ARRAY_LENGTH_OFFSET),
            destination: reg(Register::Rax),
        },
    ) + line_text(
        Instruction::Move { source: reg(Register::Rax), destination: mem(Register::Rbp, -16i32) },
    ) + line_text(
        Instruction::MoveImmediate64 { bits: layout.stride as u64, destination: Register::R11 },
    ) + line_text(Instruction::Multiply { source: Register::R11, destination: Register::Rax })
        + line_text(
        Instruction::MoveImmediate64 {
            bits: layout.element_offset as u64,
            destination: Register::R11,
        },
    ) + line_text(Instruction::Add { source: Register::R11, destination: Register::Rax })
        + line_text(
        Instruction::Move { source: reg(Register::Rax), destination: reg(Register::Rdi) },
    ) + operand_line("call"@, "ska_rt_alloc"@) + line_text(
        Instruction::Move { source: reg(Register::Rax), destination: mem(Register::Rbp, -24i32) },
    ) + line_text(Instruction::Move { source: reg(Register::Rax), destination: reg(Register::Rdx) })
        + line_text(Instruction::MoveImmediate64 { bits: 1, destination: Register::Rax })
        + line_text(
        Instruction::Move {
            source: reg(Register::Rax),
            destination: mem(Register::Rdx, ARRAY_OWNER_COUNT_OFFSET),
        },
    ) + line_text(
        Instruction::Move { source: mem(Register::Rbp, -16i32), destination: reg(Register::Rax) },
    ) + line_text(
        Instruction::Move {
            source: reg(Register::Rax),
            destination: mem(Register::Rdx, ARRAY_LENGTH_OFFSET),
        },
    ) + line_text(Instruction::MoveImmediate64 { bits: 0, destination: Register::Rcx })
        + label_line(stem + "_header"@) + line_text(
        Instruction::Move { source: mem(Register::Rbp, -16i32), destination: reg(Register::R11) },
    ) + line_text(Instruction::Compare { source: Register::R11, destination: Register::Rcx })
        + operand_line("jb"@, stem + "_body"@) + operand_line("jmp"@, stem + "_complete"@)
        + label_line(stem + "_body"@) + line_text(
        Instruction::Move { source: mem(Register::Rbp, -8i32), destination: reg(Register::Rsi) },
    ) + line_text(
        Instruction::Move { source: mem(Register::Rbp, -24i32), destination: reg(Register::Rdi) },
    ) + line_text(Instruction::Move { source: reg(Register::Rcx), destination: reg(Register::Rdx) })
        + line_text(
        Instruction::Move { source: reg(Register::Rcx), destination: mem(Register::Rbp, -32i32) },
    ) + operand_line("call"@, array_helper_text("copy_element"@, array)) + line_text(
        Instruction::Move { source: mem(Register::Rbp, -32i32), destination: reg(Register::Rcx) },
    ) + line_text(Instruction::MoveImmediate64 { bits: 1, destination: Register::R11 })
        + line_text(Instruction::Add { source: Register::R11, destination: Register::Rcx })
        + operand_line("jmp"@, stem + "_header"@) + label_line(stem + "_complete"@) + line_text(
        Instruction::Move { source: mem(Register::Rbp, -24i32), destination: reg(Register::Rax) },
    ) + line_text(Instruction::Leave) + line_text(Instruction::Return) + label_line(
        stem + "_empty"@,
    ) + line_text(Instruction::MoveImmediate64 { bits: 0, destination: Register::Rax })
        + line_text(Instruction::Leave) + line_text(Instruction::Return)
}

/// The helper that clones a whole inline array backing.
pub fn lower_clone(array: ArrayTypeId, data_layout: &DataLayout) -> (r: Result<
    AssemblyFunction,
    BackendError,
>)
    ensures
        if array.idx >= data_layout.arrays@.len() {
            r matches Err(error) && error_is(error, None, missing_layout_message(array, "clone"@))
        } else {
            r matches Ok(function) && function.symbol@ == array_helper_text("clone"@, array)
                && !function.exported && body_text(function.instructions@) == clone_listing(
                array,
                data_layout.arrays@[array.idx as int],
            )
        },
{
    let layout = match array_layout_of(data_layout, array, "clone") {
        Ok(layout) => layout,
        Err(failure) => return Err(failure),
    };
    let stem = stem(array, "_clone");
    let mut out: Vec<Instruction> = Vec::new();
    push_plain(&mut out, Instruction::Push(Register::Rbp));
    push_plain(&mut out, Instruction::Move { source: Operand::Register(Register::Rsp), destination: Operand::Register(Register::Rbp) });
    push_plain(&mut out, Instruction::ReserveStack(32));
    push_plain(&mut out, Instruction::Test(Register::Rdi));
    push_jump(&mut out, JumpKind::IfEqual, suffixed(&stem, "_empty"));
    push_plain(&mut out, Instruction::Move { source: Operand::Register(Register::Rdi), destination: Operand::Memory { base: Register::Rbp, displacement: -8 } });
    push_plain(&mut out, Instruction::Move { source: Operand::Memory { base: Register::Rdi, displacement: ARRAY_LENGTH_OFFSET }, destination: Operand::Register(Register::Rax) });
    push_plain(&mut out, Instruction::Move { source: Operand::Register(Register::Rax), destination: Operand::Memory { base: Register::Rbp, displacement: -16 } });
    push_plain(&mut out, Instruction::MoveImmediate64 { bits: layout.stride() as u64, destination: Register::R11 });
    push_plain(&mut out, Instruction::Multiply { source: Register::R11, destination: Register::Rax });
    push_plain(&mut out, Instruction::MoveImmediate64 { bits: layout.element_offset() as u64, destination: Register::R11 });
    push_plain(&mut out, Instruction::Add { source: Register::R11, destination: Register::Rax });
    push_plain(&mut out, Instruction::Move { source: Operand::Register(Register::Rax), destination: Operand::Register(Register::Rdi) });
    push_call(&mut out, String::from_str("ska_rt_alloc"));
    push_plain(&mut out, Instruction::Move { source: Operand::Register(Register::Rax), destination: Operand::Memory { base: Register::Rbp, displacement: -24 } });
    push_plain(&mut out, Instruction::Move { source: Operand::Register(Register::Rax), destination: Operand::Register(Register::Rdx) });
    push_plain(&mut out, Instruction::MoveImmediate64 { bits: 1, destination: Register::Rax });
    push_plain(&mut out, Instruction::Move { source: Operand::Register(Register::Rax), destination: Operand::Memory { base: Register::Rdx, displacement: ARRAY_OWNER_COUNT_OFFSET } });
    push_plain(&mut out, Instruction::Move { source: Operand::Memory { base: Register::Rbp, displacement: -16 }, destination: Operand::Register(Register::Rax) });
    push_plain(&mut out, Instruction::Move { source: Operand::Register(Register::Rax), destination: Operand::Memory { base: Register::Rdx, displacement: ARRAY_LENGTH_OFFSET } });
    push_plain(&mut out, Instruction::MoveImmediate64 { bits: 0, destination: Register::Rcx });
    push_label(&mut out, suffixed(&stem, "_header"));
    push_plain(&mut out, Instruction::Move { source: Operand::Memory { base: Register::Rbp, displacement: -16 }, destination: Operand::Register(Register::R11) });
    push_plain(&mut out, Instruction::Compare { source: Register::R11, destination: Register::Rcx });
    push_jump(&mut out, JumpKind::IfBelow, suffixed(&stem, "_body"));
    push_jump(&mut out, JumpKind::Always, suffixed(&stem, "_complete"));
    push_label(&mut out, suffixed(&stem, "_body"));
    push_plain(&mut out, Instruction::Move { source: Operand::Memory { base: Register::Rbp, displacement: -8 }, destination: Operand::Register(Register::Rsi) });
    push_plain(&mut out, Instruction::Move { source: Operand::Memory { base: Register::Rbp, displacement: -24 }, destination: Operand::Register(Register::Rdi) });
    push_plain(&mut out, Instruction::Move { source: Operand::Register(Register::Rcx), destination: Operand::Register(Register::Rdx) });
    push_plain(&mut out, Instruction::Move { source: Operand::Register(Register::Rcx), destination: Operand::Memory { base: Register::Rbp, displacement: -32 } });
    push_call(&mut out, array_copy_element(array));
    push_plain(&mut out, Instruction::Move { source: Operand::Memory { base: Register::Rbp, displacement: -32 }, destination: Operand::Register(Register::Rcx) });
    push_plain(&mut out, Instruction::MoveImmediate64 { bits: 1, destination: Register::R11 });
    push_plain(&mut out, Instruction::Add { source: Register::R11, destination: Register::Rcx });
    push_jump(&mut out, JumpKind::Always, suffixed(&stem, "_header"));
    push_label(&mut out, suffixed(&stem, "_complete"));
    push_plain(&mut out, Instruction::Move { source: Operand::Memory { base: Register::Rbp, displacement: -24 }, destination: Operand::Register(Register::Rax) });
    push_plain(&mut out, Instruction::Leave);
    push_plain(&mut out, Instruction::Return);
    push_label(&mut out, suffixed(&stem, "_empty"));
    push_plain(&mut out, Instruction::MoveImmediate64 { bits: 0, destination: Register::Rax });
    push_plain(&mut out, Instruction::Leave);
    push_plain(&mut out, Instruction::Return);
    assert(body_text(Seq::<Instruction>::empty()) == Seq::<char>::empty());
    Ok(AssemblyFunction { symbol: array_clone(array), exported: false, instructions: out })
}

/// The payload offset of the optional of a class, or why it has none.
pub open spec fn optional_class_payload(data_layout: &DataLayout, class: ClassId) -> Result<
    usize,
    Seq<char>,
> {
    if class.idx < data_layout.classes@.len() {
        match spec_optional_layout_for(data_layout.classes@[class.idx as int].ty) {
            Ok(layout) => Ok(layout.payload_offset),
            Err(message) => Err(message),
        }
    } else {
        Err(class_missing_message(class))
    }
}

/// A memory operand moved by `offset`, or why it cannot be.
pub open spec fn spec_offset_operand(operand: Operand, offset: i32) -> Result<Operand, Seq<char>> {
    match operand {
        Operand::Memory { base, displacement } => if i32::MIN <= displacement + offset
            <= i32::MAX {
            Ok(Operand::Memory { base, displacement: (displacement + offset) as i32 })
        } else {
            Err("array helper displacement exceeds x86-64"@)
        },
        Operand::IndexedMemory { base, index, scale, displacement } => if i32::MIN <= displacement
            + offset <= i32::MAX {
            Ok(
                Operand::IndexedMemory {
                    base,
                    index,
                    scale,
                    displacement: (displacement + offset) as i32,
                },
            )
        } else {
            Err("array helper displacement exceeds x86-64"@)
        },
        Operand::Register(_) => Err("array helper cannot offset a register operand"@),
    }
}

fn moved(operand: Operand, offset: i32) -> (r: Result<Operand, BackendError>)
    ensures
        match spec_offset_operand(operand, offset) {
            Ok(moved) => r == Ok::<Operand, BackendError>(moved),
            Err(message) => r matches Err(error) && error_is(error, None, message),
        },
{
    offset_operand(operand, offset)
}

fn payload_offset(data_layout: &DataLayout, class: ClassId, message: &str) -> (r: Result<
    i32,
    BackendError,
>)
    requires
        data_layout_wf(data_layout),
    ensures
        match optional_class_payload(data_layout, class) {
            Ok(offset) => if offset <= i32::MAX {
                r == Ok::<i32, BackendError>(offset as i32)
            } else {
                r matches Err(error) && error_is(error, None, message@)
            },
            Err(failure) => r matches Err(error) && error_is(error, None, failure),
        },
{
    let layout = match data_layout.optional_class(class) {
        Ok(layout) => layout,
        Err(failure) => return Err(failure),
    };
    if layout.payload_offset() > 0x7fff_ffffusize {
        return Err(BackendError::new(Target::X86_64SysV, None, String::from_str(message)));
    }
    Ok(layout.payload_offset() as i32)
}

fn append_all(output: &mut Vec<Instruction>, more: Vec<Instruction>)
    ensures
        body_text(final(output)@) == body_text(old(output)@) + body_text(more@),
{
    let ghost before = output@;
    let ghost added = more@;
    let mut more = more;
    output.append(&mut more);
    proof {
        lemma_body_text_concat(before, added);
    }
}

/// Element types whose destruction or copy calls out of the helper.
pub open spec fn element_calls(element: MirType) -> bool {
    element is Class || element is OptionalClass || element is OptionalShared || element is Array
        || element is Shared
}

/// The diagnostic spelling of the element types that arrays cannot hold.
pub open spec fn unsupported_element_text(element: MirType) -> Seq<char> {
    match element {
        MirType::Interface(interface) => "interface "@ + decimal_text(interface.idx as nat),
        MirType::Obj => "Obj"@,
        _ => "unit"@,
    }
}

fn unsupported_element(element: MirType) -> (r: String)
    ensures
        r@ == unsupported_element_text(element),
{
    match element {
        MirType::Interface(interface) => {
            let mut text = String::from_str("interface ");
            let digits = decimal(interface.index() as u64);
            text.append(digits.as_str());
            text
        },
        MirType::Obj => String::from_str("Obj"),
        _ => String::from_str("unit"),
    }
}

pub open spec fn view_element(element: MirType) -> bool {
    element is Interface || element is Obj || element is Unit
}

/// Wraps a body that calls out in a frame; a leaf body only returns.
pub open spec fn framed_text(body: Seq<char>, calls: bool) -> Seq<char> {
    if calls {
        Seq::<char>::empty() + line_text(Instruction::Push(Register::Rbp)) + line_text(
            Instruction::Move { source: reg(Register::Rsp), destination: reg(Register::Rbp) },
        ) + body + line_text(Instruction::Leave) + line_text(Instruction::Return)
    } else {
        body + line_text(Instruction::Return)
    }
}

fn framed(body: Vec<Instruction>, calls: bool) -> (r: Vec<Instruction>)
    ensures
        body_text(r@) == framed_text(body_text(body@), calls),
{
    let mut out: Vec<Instruction> = Vec::new();
    assert(body_text(Seq::<Instruction>::empty()) == Seq::<char>::empty());
    if calls {
        push_plain(&mut out, Instruction::Push(Register::Rbp));
        push_plain(&mut out, Instruction::Move { source: Operand::Register(Register::Rsp), destination: Operand::Register(Register::Rbp) });
        append_all(&mut out, body);
        push_plain(&mut out, Instruction::Leave);
        push_plain(&mut out, Instruction::Return);
    } else {
        append_all(&mut out, body);
        push_plain(&mut out, Instruction::Return);
        assert(Seq::<char>::empty() + body_text(body@) =~= body_text(body@));
    }
    out
}

/// The listing of destroying one element at `slot`, or why the element
/// type cannot be destroyed.
pub open spec fn destroy_body(
    array: ArrayTypeId,
    element: MirType,
    slot: Operand,
    data_layout: &DataLayout,
) -> Result<Seq<char>, Seq<char>> {
    match element {
        MirType::Class(class) => Ok(
            Seq::<char>::empty() + line_text(
                Instruction::LoadEffectiveAddress { source: slot, destination: Register::Rdi },
            ) + operand_line("call"@, complete_finalizer_text(class)),
        ),
        MirType::OptionalClass(class) => match optional_class_payload(data_layout, class) {
            Err(message) => Err(message),
            Ok(offset) => if offset > i32::MAX {
                Err("optional class payload offset exceeds x86-64"@)
            } else {
                match spec_offset_operand(slot, offset as i32) {
                    Err(message) => Err(message),
                    Ok(payload) => {
                        let stem = stem_text(array, "_destroy_optional"@);
                        Ok(
                            Seq::<char>::empty() + line_text(
                                Instruction::Move { source: slot, destination: reg(Register::Rax) },
                            ) + line_text(Instruction::Test(Register::Rax)) + operand_line(
                                "jne"@,
                                stem + "_present"@,
                            ) + operand_line("jmp"@, stem + "_complete"@) + label_line(
                                stem + "_present"@,
                            ) + line_text(
                                Instruction::LoadEffectiveAddress {
                                    source: payload,
                                    destination: Register::Rdi,
                                },
                            ) + operand_line("call"@, complete_finalizer_text(class)) + label_line(
                                stem + "_complete"@,
                            ),
                        )
                    },
                }
            }
        },
        MirType::OptionalShared(_) => {
            let complete = stem_text(array, "_destroy_optional_shared_complete"@);
            Ok(
                Seq::<char>::empty() + line_text(
                    Instruction::Move { source: slot, destination: reg(Register::Rdi) },
                ) + line_text(Instruction::Test(Register::Rdi)) + operand_line("je"@, complete)
                    + operand_line("call"@, shared_handle_release_text()) + label_line(complete),
            )
        },
        MirType::Array(inner) => Ok(
            Seq::<char>::empty() + line_text(
                Instruction::Move { source: slot, destination: reg(Register::Rdi) },
            ) + operand_line("call"@, array_helper_text("release"@, inner)),
        ),
        MirType::Shared(_) => Ok(
            Seq::<char>::empty() + line_text(
                Instruction::Move { source: slot, destination: reg(Register::Rdi) },
            ) + operand_line("call"@, shared_handle_release_text()),
        ),
        MirType::Interface(_) | MirType::Obj | MirType::Unit => Err(
            "array "@ + decimal_text(array.idx as nat) + " has unsupported destruction element "@
                + unsupported_element_text(element),
        ),
        _ => Ok(Seq::empty()),
    }
}

fn destroy_body_code(
    array: ArrayTypeId,
    element: MirType,
    slot: Operand,
    data_layout: &DataLayout,
) -> (r: Result<Vec<Instruction>, BackendError>)
    requires
        data_layout_wf(data_layout),
    ensures
        match destroy_body(array, element, slot, data_layout) {
            Ok(text) => r matches Ok(code) && body_text(code@) == text,
            Err(message) => r matches Err(error) && error_is(error, None, message),
        },
{
    let mut out: Vec<Instruction> = Vec::new();
    assert(body_text(Seq::<Instruction>::empty()) == Seq::<char>::empty());
    match element {
        MirType::Class(class) => {
            push_plain(&mut out, Instruction::LoadEffectiveAddress { source: slot, destination: Register::Rdi });
            push_call(&mut out, complete_finalizer(class));
        },
        MirType::OptionalClass(class) => {
            let offset = match payload_offset(data_layout, class, "optional class payload offset exceeds x86-64") {
                Ok(offset) => offset,
                Err(failure) => return Err(failure),
            };
            let payload = match moved(slot, offset) {
                Ok(payload) => payload,
                Err(failure) => return Err(failure),
            };
            let stem = stem(array, "_destroy_optional");
            push_plain(&mut out, Instruction::Move { source: slot, destination: Operand::Register(Register::Rax) });
            push_plain(&mut out, Instruction::Test(Register::Rax));
            push_jump(&mut out, JumpKind::IfNotZero, suffixed(&stem, "_present"));
            push_jump(&mut out, JumpKind::Always, suffixed(&stem, "_complete"));
            push_label(&mut out, suffixed(&stem, "_present"));
            push_plain(&mut out, Instruction::LoadEffectiveAddress { source: payload, destination: Register::Rdi });
            push_call(&mut out, complete_finalizer(class));
            push_label(&mut out, suffixed(&stem, "_complete"));
        },
        MirType::OptionalShared(_) => {
            push_plain(&mut out, Instruction::Move { source: slot, destination: Operand::Register(Register::Rdi) });
            push_plain(&mut out, Instruction::Test(Register::Rdi));
            push_jump(&mut out, JumpKind::IfEqual, stem(array, "_destroy_optional_shared_complete"));
            push_call(&mut out, String::from_str(shared_handle_release()));
            push_label(&mut out, stem(array, "_destroy_optional_shared_complete"));
        },
        MirType::Array(inner) => {
            push_plain(&mut out, Instruction::Move { source: slot, destination: Operand::Register(Register::Rdi) });
            push_call(&mut out, array_release(inner));
        },
        MirType::Shared(_) => {
            push_plain(&mut out, Instruction::Move { source: slot, destination: Operand::Register(Register::Rdi) });
            push_call(&mut out, String::from_str(shared_handle_release()));
        },
        MirType::Interface(_) | MirType::Obj | MirType::Unit => {
            let mut message = framed_decimal(
                "array ",
                array.index() as u64,
                " has unsupported destruction element ",
            );
            let name = unsupported_element(element);
            message.append(name.as_str());
            return Err(BackendError::new(Target::X86_64SysV, None, message));
        },
        _ => {},
    }
    Ok(out)
}

/// The listing of the element destroyer, or why it cannot be generated.
pub open spec fn destroyer_listing(array: ArrayTypeId, element: MirType, data_layout: &DataLayout) -> Result<
    Seq<char>,
    Seq<char>,
> {
    if array.idx >= data_layout.arrays@.len() {
        Err(missing_layout_message(array, "destroy"@))
    } else {
        let layout = data_layout.arrays@[array.idx as int];
        if layout.element_offset > i32::MAX {
            Err(element_offset_message(array))
        } else {
            let (slot, setup) = element_slot(
                layout.stride,
                layout.element_offset as i32,
                Register::Rdi,
                Register::Rsi,
            );
            match destroy_body(array, element, slot, data_layout) {
                Err(message) => Err(message),
                Ok(body) => Ok(body_text(setup) + framed_text(body, element_calls(element))),
            }
        }
    }
}

/// The helper that destroys one element of the array type.
pub fn lower_destroyer(array: ArrayTypeId, element: MirType, data_layout: &DataLayout) -> (r:
    Result<AssemblyFunction, BackendError>)
    requires
        data_layout_wf(data_layout),
    ensures
        match destroyer_listing(array, element, data_layout) {
            Ok(listing) => r matches Ok(function) && function.symbol@ == array_helper_text(
                "destroy_element"@,
                array,
            ) && !function.exported && body_text(function.instructions@) == listing,
            Err(message) => r matches Err(error) && error_is(error, None, message),
        },
{
    let layout = match array_layout_of(data_layout, array, "destroy") {
        Ok(layout) => layout,
        Err(failure) => return Err(failure),
    };
    if layout.element_offset() > 0x7fff_ffffusize {
        return Err(element_offset_error(array));
    }
    let displacement = layout.element_offset() as i32;
    let stride = layout.stride();
    let scaled = stride == 1 || stride == 2 || stride == 4 || stride == 8;
    let (slot, mut out) = if scaled {
        (
            Operand::IndexedMemory {
                base: Register::Rdi,
                index: Register::Rsi,
                scale: stride as u8,
                displacement,
            },
            Vec::new(),
        )
    } else {
        (
            Operand::Memory { base: Register::Rdi, displacement: 0 },
            materialize_destroy_element_address(stride, displacement),
        )
    };
    let body = match destroy_body_code(array, element, slot, data_layout) {
        Ok(body) => body,
        Err(failure) => return Err(failure),
    };
    let calls = matches!(
        element,
        MirType::Class(_) | MirType::OptionalClass(_) | MirType::OptionalShared(_)
        | MirType::Array(_) | MirType::Shared(_)
    );
    let code = framed(body, calls);
    append_all(&mut out, code);
    Ok(AssemblyFunction { symbol: array_destroy_element(array), exported: false, instructions: out })
}

/// The listing that clones a nested array element: the clone of the
/// source backing is stored into the destination slot.
pub open spec fn nested_array_copy_text(inner: ArrayTypeId, source: Operand, destination: Operand) -> Seq<
    char,
> {
    Seq::<char>::empty() + line_text(Instruction::ReserveStack(16)) + line_text(
        Instruction::LoadEffectiveAddress { source: destination, destination: Register::R11 },
    ) + line_text(
        Instruction::Move { source: reg(Register::R11), destination: mem(Register::Rsp, 0i32) },
    ) + line_text(Instruction::Move { source, destination: reg(Register::Rdi) }) + operand_line(
        "call"@,
        array_helper_text("clone"@, inner),
    ) + line_text(
        Instruction::Move { source: mem(Register::Rsp, 0i32), destination: reg(Register::R11) },
    ) + line_text(Instruction::ReleaseStack(16)) + line_text(
        Instruction::Move { source: reg(Register::Rax), destination: mem(Register::R11, 0i32) },
    )
}

pub fn lower_nested_array_copier(
    array: ArrayTypeId,
    inner: ArrayTypeId,
    source: Operand,
    destination: Operand,
) -> (r: Vec<Instruction>)
    ensures
        body_text(r@) == nested_array_copy_text(inner, source, destination),
{
    let mut out: Vec<Instruction> = Vec::new();
    assert(body_text(Seq::<Instruction>::empty()) == Seq::<char>::empty());
    push_plain(&mut out, Instruction::ReserveStack(16));
    push_plain(&mut out, Instruction::LoadEffectiveAddress { source: destination, destination: Register::R11 });
    push_plain(&mut out, Instruction::Move { source: Operand::Register(Register::R11), destination: Operand::Memory { base: Register::Rsp, displacement: 0 } });
    push_plain(&mut out, Instruction::Move { source, destination: Operand::Register(Register::Rdi) });
    push_call(&mut out, array_clone(inner));
    push_plain(&mut out, Instruction::Move { source: Operand::Memory { base: Register::Rsp, displacement: 0 }, destination: Operand::Register(Register::R11) });
    push_plain(&mut out, Instruction::ReleaseStack(16));
    push_plain(&mut out, Instruction::Move { source: Operand::Register(Register::Rax), destination: Operand::Memory { base: Register::R11, displacement: 0 } });
    out
}

/// The listing that copies a shared handle element: retain the source
/// handle and store it; an absent optional handle copies as absent.
pub open spec fn shared_copy_text(array: ArrayTypeId, source: Operand, destination: Operand, optional: bool) -> Seq<
    char,
> {
    let absent = stem_text(array, "_copy_shared_absent"@);
    let complete = stem_text(array, "_copy_shared_complete"@);
    let start = Seq::<char>::empty() + line_text(Instruction::ReserveStack(16)) + line_text(
        Instruction::LoadEffectiveAddress { source: destination, destination: Register::R11 },
    ) + line_text(
        Instruction::Move { source: reg(Register::R11), destination: mem(Register::Rsp, 0i32) },
    ) + line_text(Instruction::Move { source, destination: reg(Register::Rdi) });
    let checked = if optional {
        start + line_text(Instruction::Test(Register::Rdi)) + operand_line("je"@, absent)
    } else {
        start
    };
    let retained = checked + operand_line("call"@, shared_handle_retain_text()) + line_text(
        Instruction::Move { source: mem(Register::Rsp, 0i32), destination: reg(Register::R11) },
    ) + line_text(Instruction::ReleaseStack(16)) + line_text(
        Instruction::Move { source: reg(Register::Rax), destination: mem(Register::R11, 0i32) },
    );
    if optional {
        retained + operand_line("jmp"@, complete) + label_line(absent) + line_text(
            Instruction::Move { source: mem(Register::Rsp, 0i32), destination: reg(Register::R11) },
        ) + line_text(Instruction::ReleaseStack(16)) + line_text(
            Instruction::MoveImmediate64 { bits: 0, destination: Register::Rax },
        ) + line_text(
            Instruction::Move { source: reg(Register::Rax), destination: mem(Register::R11, 0i32) },
        ) + label_line(complete)
    } else {
        retained
    }
}

pub fn lower_shared_copier(
    array: ArrayTypeId,
    source: Operand,
    destination: Operand,
    optional: bool,
) -> (r: Vec<Instruction>)
    ensures
        body_text(r@) == shared_copy_text(array, source, destination, optional),
{
    let mut out: Vec<Instruction> = Vec::new();
    assert(body_text(Seq::<Instruction>::empty()) == Seq::<char>::empty());
    push_plain(&mut out, Instruction::ReserveStack(16));
    push_plain(&mut out, Instruction::LoadEffectiveAddress { source: destination, destination: Register::R11 });
    push_plain(&mut out, Instruction::Move { source: Operand::Register(Register::R11), destination: Operand::Memory { base: Register::Rsp, displacement: 0 } });
    push_plain(&mut out, Instruction::Move { source, destination: Operand::Register(Register::Rdi) });
    if optional {
        push_plain(&mut out, Instruction::Test(Register::Rdi));
        push_jump(&mut out, JumpKind::IfEqual, stem(array, "_copy_shared_absent"));
    }
    push_call(&mut out, String::from_str(shared_handle_retain()));
    push_plain(&mut out, Instruction::Move { source: Operand::Memory { base: Register::Rsp, displacement: 0 }, destination: Operand::Register(Register::R11) });
    push_plain(&mut out, Instruction::ReleaseStack(16));
    push_plain(&mut out, Instruction::Move { source: Operand::Register(Register::Rax), destination: Operand::Memory { base: Register::R11, displacement: 0 } });
    if optional {
        push_jump(&mut out, JumpKind::Always, stem(array, "_copy_shared_complete"));
        push_label(&mut out, stem(array, "_copy_shared_absent"));
        push_plain(&mut out, Instruction::Move { source: Operand::Memory { base: Register::Rsp, displacement: 0 }, destination: Operand::Register(Register::R11) });
        push_plain(&mut out, Instruction::ReleaseStack(16));
        push_plain(&mut out, Instruction::MoveImmediate64 { bits: 0, destination: Register::Rax });
        push_plain(&mut out, Instruction::Move { source: Operand::Register(Register::Rax), destination: Operand::Memory { base: Register::R11, displacement: 0 } });
        push_label(&mut out, stem(array, "_copy_shared_complete"));
    }
    out
}

/// The listing that copies a present optional class element by its copy
/// helper, or why the payload cannot be addressed.
pub open spec fn optional_class_copy_text(
    array: ArrayTypeId,
    class: ClassId,
    source: Operand,
    destination: Operand,
    data_layout: &DataLayout,
) -> Result<Seq<char>, Seq<char>> {
    match optional_class_payload(data_layout, class) {
        Err(message) => Err(message),
        Ok(offset) => if offset > i32::MAX {
            Err("optional class payload offset exceeds x86-64"@)
        } else {
            match spec_offset_operand(source, offset as i32) {
                Err(message) => Err(message),
                Ok(source_payload) => match spec_offset_operand(destination, offset as i32) {
                    Err(message) => Err(message),
                    Ok(destination_payload) => {
                        let stem = stem_text(array, "_copy_optional_class"@);
                        Ok(
                            Seq::<char>::empty() + line_text(
                                Instruction::Move { source, destination: reg(Register::Rax) },
                            ) + line_text(Instruction::Test(Register::Rax)) + operand_line(
                                "jne"@,
                                stem + "_present"@,
                            ) + line_text(
                                Instruction::Move { source: reg(Register::Rax), destination },
                            ) + operand_line("jmp"@, stem + "_complete"@) + label_line(
                                stem + "_present"@,
                            ) + line_text(Instruction::ReserveStack(16)) + line_text(
                                Instruction::LoadEffectiveAddress {
                                    source: destination,
                                    destination: Register::R11,
                                },
                            ) + line_text(
                                Instruction::Move {
                                    source: reg(Register::R11),
                                    destination: mem(Register::Rsp, 0i32),
                                },
                            ) + line_text(
                                Instruction::LoadEffectiveAddress {
                                    source: destination_payload,
                                    destination: Register::Rdi,
                                },
                            ) + line_text(
                                Instruction::LoadEffectiveAddress {
                                    source: source_payload,
                                    destination: Register::Rsi,
                                },
                            ) + operand_line("call"@, class_copy_helper_text(class)) + line_text(
                                Instruction::Move {
                                    source: mem(Register::Rsp, 0i32),
                                    destination: reg(Register::R11),
                                },
                            ) + line_text(Instruction::ReleaseStack(16)) + line_text(
                                Instruction::MoveImmediate64 { bits: 1, destination: Register::Rax },
                            ) + line_text(
                                Instruction::Move {
                                    source: reg(Register::Rax),
                                    destination: mem(Register::R11, 0i32),
                                },
                            ) + label_line(stem + "_complete"@),
                        )
                    },
                },
            }
        },
    }
}

pub fn lower_optional_class_copier(
    array: ArrayTypeId,
    class: ClassId,
    source: Operand,
    destination: Operand,
    data_layout: &DataLayout,
) -> (r: Result<Vec<Instruction>, BackendError>)
    requires
        data_layout_wf(data_layout),
    ensures
        match optional_class_copy_text(array, class, source, destination, data_layout) {
            Ok(text) => r matches Ok(code) && body_text(code@) == text,
            Err(message) => r matches Err(error) && error_is(error, None, message),
        },
{
    let offset = match payload_offset(data_layout, class, "optional class payload offset exceeds x86-64") {
        Ok(offset) => offset,
        Err(failure) => return Err(failure),
    };
    let source_payload = match moved(source, offset) {
        Ok(operand) => operand,
        Err(failure) => return Err(failure),
    };
    let destination_payload = match moved(destination, offset) {
        Ok(operand) => operand,
        Err(failure) => return Err(failure),
    };
    let stem = stem(array, "_copy_optional_class");
    let mut out: Vec<Instruction> = Vec::new();
    assert(body_text(Seq::<Instruction>::empty()) == Seq::<char>::empty());
    push_plain(&mut out, Instruction::Move { source, destination: Operand::Register(Register::Rax) });
    push_plain(&mut out, Instruction::Test(Register::Rax));
    push_jump(&mut out, JumpKind::IfNotZero, suffixed(&stem, "_present"));
    push_plain(&mut out, Instruction::Move { source: Operand::Register(Register::Rax), destination });
    push_jump(&mut out, JumpKind::Always, suffixed(&stem, "_complete"));
    push_label(&mut out, suffixed(&stem, "_present"));
    push_plain(&mut out, Instruction::ReserveStack(16));
    push_plain(&mut out, Instruction::LoadEffectiveAddress { source: destination, destination: Register::R11 });
    push_plain(&mut out, Instruction::Move { source: Operand::Register(Register::R11), destination: Operand::Memory { base: Register::Rsp, displacement: 0 } });
    push_plain(&mut out, Instruction::LoadEffectiveAddress { source: destination_payload, destination: Register::Rdi });
    push_plain(&mut out, Instruction::LoadEffectiveAddress { source: source_payload, destination: Register::Rsi });
    push_call(&mut out, class_copy_helper(class));
    push_plain(&mut out, Instruction::Move { source: Operand::Memory { base: Register::Rsp, displacement: 0 }, destination: Operand::Register(Register::R11) });
    push_plain(&mut out, Instruction::ReleaseStack(16));
    push_plain(&mut out, Instruction::MoveImmediate64 { bits: 1, destination: Register::Rax });
    push_plain(&mut out, Instruction::Move { source: Operand::Register(Register::Rax), destination: Operand::Memory { base: Register::R11, displacement: 0 } });
    push_label(&mut out, suffixed(&stem, "_complete"));
    Ok(out)
}

/// The listing that copies a primitive optional element: an absent state
/// copies as absent; a present payload is copied and the state set.
pub open spec fn optional_primitive_copy_text(
    array: ArrayTypeId,
    payload: MirPrimitiveType,
    source: Operand,
    destination: Operand,
) -> Result<Seq<char>, Seq<char>> {
    let offset = spec_optional_layout(payload).payload_offset;
    if offset > i32::MAX {
        Err("optional payload offset exceeds x86-64"@)
    } else {
        match spec_offset_operand(source, offset as i32) {
            Err(message) => Err(message),
            Ok(source_payload) => match spec_offset_operand(destination, offset as i32) {
                Err(message) => Err(message),
                Ok(destination_payload) => {
                    let stem = stem_text(array, "_copy_optional"@);
                    let start = Seq::<char>::empty() + line_text(
                        Instruction::Move { source, destination: reg(Register::Rax) },
                    ) + line_text(Instruction::Test(Register::Rax)) + operand_line(
                        "jne"@,
                        stem + "_present"@,
                    ) + line_text(Instruction::Move { source: reg(Register::Rax), destination })
                        + operand_line("jmp"@, stem + "_complete"@) + label_line(
                        stem + "_present"@,
                    );
                    let copied = if payload is U8 || payload is Bool {
                        start + line_text(
                            Instruction::LoadZeroExtendByte {
                                source: source_payload,
                                destination: Register::Rax,
                            },
                        ) + line_text(
                            Instruction::MoveByte {
                                source: ByteRegister::Al,
                                destination: destination_payload,
                            },
                        )
                    } else {
                        start + line_text(
                            Instruction::Move {
                                source: source_payload,
                                destination: reg(Register::Rax),
                            },
                        ) + line_text(
                            Instruction::Move {
                                source: reg(Register::Rax),
                                destination: destination_payload,
                            },
                        )
                    };
                    Ok(
                        copied + line_text(
                            Instruction::MoveImmediate64 { bits: 1, destination: Register::Rax },
                        ) + line_text(Instruction::Move { source: reg(Register::Rax), destination })
                            + label_line(stem + "_complete"@),
                    )
                },
            },
        }
    }
}

fn optional_primitive_copy_code(
    array: ArrayTypeId,
    payload: MirPrimitiveType,
    source: Operand,
    destination: Operand,
    data_layout: &DataLayout,
) -> (r: Result<Vec<Instruction>, BackendError>)
    ensures
        match optional_primitive_copy_text(array, payload, source, destination) {
            Ok(text) => r matches Ok(code) && body_text(code@) == text,
            Err(message) => r matches Err(error) && error_is(error, None, message),
        },
{
    let layout = match data_layout.optional(payload) {
        Ok(layout) => layout,
        Err(failure) => return Err(failure),
    };
    if layout.payload_offset() > 0x7fff_ffffusize {
        return Err(
            BackendError::new(
                Target::X86_64SysV,
                None,
                String::from_str("optional payload offset exceeds x86-64"),
            ),
        );
    }
    let offset = layout.payload_offset() as i32;
    let source_payload = match moved(source, offset) {
        Ok(operand) => operand,
        Err(failure) => return Err(failure),
    };
    let destination_payload = match moved(destination, offset) {
        Ok(operand) => operand,
        Err(failure) => return Err(failure),
    };
    let stem = stem(array, "_copy_optional");
    let mut out: Vec<Instruction> = Vec::new();
    assert(body_text(Seq::<Instruction>::empty()) == Seq::<char>::empty());
    push_plain(&mut out, Instruction::Move { source, destination: Operand::Register(Register::Rax) });
    push_plain(&mut out, Instruction::Test(Register::Rax));
    push_jump(&mut out, JumpKind::IfNotZero, suffixed(&stem, "_present"));
    push_plain(&mut out, Instruction::Move { source: Operand::Register(Register::Rax), destination });
    push_jump(&mut out, JumpKind::Always, suffixed(&stem, "_complete"));
    push_label(&mut out, suffixed(&stem, "_present"));
    if matches!(payload, MirPrimitiveType::U8 | MirPrimitiveType::Bool) {
        push_plain(&mut out, Instruction::LoadZeroExtendByte { source: source_payload, destination: Register::Rax });
        push_plain(&mut out, Instruction::MoveByte { source: ByteRegister::Al, destination: destination_payload });
    } else {
        push_plain(&mut out, Instruction::Move { source: source_payload, destination: Operand::Register(Register::Rax) });
        push_plain(&mut out, Instruction::Move { source: Operand::Register(Register::Rax), destination: destination_payload });
    }
    push_plain(&mut out, Instruction::MoveImmediate64 { bits: 1, destination: Register::Rax });
    push_plain(&mut out, Instruction::Move { source: Operand::Register(Register::Rax), destination });
    push_label(&mut out, suffixed(&stem, "_complete"));
    Ok(out)
}

/// The listing that copies one element from `source` to `destination`, or
/// why the element type cannot be copied.
pub open spec fn copy_body(
    array: ArrayTypeId,
    element: MirType,
    source: Operand,
    destination: Operand,
    data_layout: &DataLayout,
) -> Result<Seq<char>, Seq<char>> {
    match element {
        MirType::U8 | MirType::Bool => Ok(
            Seq::<char>::empty() + line_text(
                Instruction::LoadZeroExtendByte { source, destination: Register::Rax },
            ) + line_text(Instruction::MoveByte { source: ByteRegister::Al, destination }),
        ),
        MirType::I64 | MirType::U64 | MirType::F64 => Ok(
            Seq::<char>::empty() + line_text(
                Instruction::Move { source, destination: reg(Register::Rax) },
            ) + line_text(Instruction::Move { source: reg(Register::Rax), destination }),
        ),
        MirType::OptionalClass(class) => optional_class_copy_text(
            array,
            class,
            source,
            destination,
            data_layout,
        ),
        MirType::OptionalShared(_) => Ok(shared_copy_text(array, source, destination, true)),
        MirType::OptionalPrimitive(payload) => optional_primitive_copy_text(
            array,
            payload,
            source,
            destination,
        ),
        MirType::Class(class) => Ok(
            Seq::<char>::empty() + line_text(
                Instruction::LoadEffectiveAddress { source: destination, destination: Register::Rdi },
            ) + line_text(Instruction::LoadEffectiveAddress { source, destination: Register::Rsi })
                + operand_line("call"@, class_copy_helper_text(class)),
        ),
        MirType::Array(inner) => Ok(nested_array_copy_text(inner, source, destination)),
        MirType::Shared(_) => Ok(shared_copy_text(array, source, destination, false)),
        _ => Err(
            "array "@ + decimal_text(array.idx as nat) + " has an unsupported copy element "@
                + unsupported_element_text(element),
        ),
    }
}

fn copy_body_code(
    array: ArrayTypeId,
    element: MirType,
    source: Operand,
    destination: Operand,
    data_layout: &DataLayout,
) -> (r: Result<Vec<Instruction>, BackendError>)
    requires
        data_layout_wf(data_layout),
    ensures
        match copy_body(array, element, source, destination, data_layout) {
            Ok(text) => r matches Ok(code) && body_text(code@) == text,
            Err(message) => r matches Err(error) && error_is(error, None, message),
        },
{
    let mut out: Vec<Instruction> = Vec::new();
    assert(body_text(Seq::<Instruction>::empty()) == Seq::<char>::empty());
    match element {
        MirType::U8 | MirType::Bool => {
            push_plain(&mut out, Instruction::LoadZeroExtendByte { source, destination: Register::Rax });
            push_plain(&mut out, Instruction::MoveByte { source: ByteRegister::Al, destination });
            Ok(out)
        },
        MirType::I64 | MirType::U64 | MirType::F64 => {
            push_plain(&mut out, Instruction::Move { source, destination: Operand::Register(Register::Rax) });
            push_plain(&mut out, Instruction::Move { source: Operand::Register(Register::Rax), destination });
            Ok(out)
        },
        MirType::OptionalClass(class) => lower_optional_class_copier(
            array,
            class,
            source,
            destination,
            data_layout,
        ),
        MirType::OptionalShared(_) => Ok(lower_shared_copier(array, source, destination, true)),
        MirType::OptionalPrimitive(payload) => optional_primitive_copy_code(
            array,
            payload,
            source,
            destination,
            data_layout,
        ),
        MirType::Class(class) => {
            push_plain(&mut out, Instruction::LoadEffectiveAddress { source: destination, destination: Register::Rdi });
            push_plain(&mut out, Instruction::LoadEffectiveAddress { source, destination: Register::Rsi });
            push_call(&mut out, class_copy_helper(class));
            Ok(out)
        },
        MirType::Array(inner) => Ok(lower_nested_array_copier(array, inner, source, destination)),
        MirType::Shared(_) => Ok(lower_shared_copier(array, source, destination, false)),
        _ => {
            let mut message = framed_decimal(
                "array ",
                array.index() as u64,
                " has an unsupported copy element ",
            );
            let name = unsupported_element(element);
            message.append(name.as_str());
            Err(BackendError::new(Target::X86_64SysV, None, message))
        },
    }
}

/// The source and destination element operands of a two-array helper and
/// the code that must first compute their addresses.
pub open spec fn copy_slots(stride: usize, displacement: i32) -> (Operand, Operand, Seq<Instruction>) {
    if scalable(stride) {
        (
            Operand::IndexedMemory {
                base: Register::Rsi,
                index: Register::Rcx,
                scale: stride as u8,
                displacement,
            },
            Operand::IndexedMemory {
                base: Register::Rdi,
                index: Register::Rdx,
                scale: stride as u8,
                displacement,
            },
            Seq::empty(),
        )
    } else {
        (
            Operand::Memory { base: Register::Rsi, displacement: 0 },
            Operand::Memory { base: Register::Rdi, displacement: 0 },
            scaled_address(Register::Rdx, Register::Rdi, stride as u64, displacement)
                + scaled_address(Register::Rcx, Register::Rsi, stride as u64, displacement),
        )
    }
}

/// The listing of the element copier, or why it cannot be generated.
pub open spec fn copier_listing(array: ArrayTypeId, element: MirType, data_layout: &DataLayout) -> Result<
    Seq<char>,
    Seq<char>,
> {
    if array.idx >= data_layout.arrays@.len() {
        Err(missing_layout_message(array, "helper"@))
    } else {
        let layout = data_layout.arrays@[array.idx as int];
        if layout.element_offset > i32::MAX {
            Err(element_offset_message(array))
        } else {
            let (source, destination, setup) = copy_slots(
                layout.stride,
                layout.element_offset as i32,
            );
            match copy_body(array, element, source, destination, data_layout) {
                Err(message) => Err(message),
                Ok(body) => Ok(body_text(setup) + framed_text(body, element_calls(element))),
            }
        }
    }
}

/// The helper that copies element `rcx` of the array at `rsi` into element
/// `rdx` of the array at `rdi`.
pub fn lower_copier(array: ArrayTypeId, element: MirType, data_layout: &DataLayout) -> (r: Result<
    AssemblyFunction,
    BackendError,
>)
    requires
        data_layout_wf(data_layout),
    ensures
        match copier_listing(array, element, data_layout) {
            Ok(listing) => r matches Ok(function) && function.symbol@ == array_helper_text(
                "copy_element"@,
                array,
            ) && !function.exported && body_text(function.instructions@) == listing,
            Err(message) => r matches Err(error) && error_is(error, None, message),
        },
{
    let layout = match array_layout_of(data_layout, array, "helper") {
        Ok(layout) => layout,
        Err(failure) => return Err(failure),
    };
    if layout.element_offset() > 0x7fff_ffffusize {
        return Err(element_offset_error(array));
    }
    let displacement = layout.element_offset() as i32;
    let stride = layout.stride();
    let scaled = stride == 1 || stride == 2 || stride == 4 || stride == 8;
    let (source, destination, mut out) = if scaled {
        (
            Operand::IndexedMemory {
                base: Register::Rsi,
                index: Register::Rcx,
                scale: stride as u8,
                displacement,
            },
            Operand::IndexedMemory {
                base: Register::Rdi,
                index: Register::Rdx,
                scale: stride as u8,
                displacement,
            },
            Vec::new(),
        )
    } else {
        (
            Operand::Memory { base: Register::Rsi, displacement: 0 },
            Operand::Memory { base: Register::Rdi, displacement: 0 },
            materialize_helper_element_addresses(stride, displacement),
        )
    };
    let body = match copy_body_code(array, element, source, destination, data_layout) {
        Ok(body) => body,
        Err(failure) => return Err(failure),
    };
    let calls = matches!(
        element,
        MirType::Class(_) | MirType::OptionalClass(_) | MirType::OptionalShared(_)
        | MirType::Array(_) | MirType::Shared(_)
    );
    let code = framed(body, calls);
    append_all(&mut out, code);
    Ok(AssemblyFunction { symbol: array_copy_element(array), exported: false, instructions: out })
}

/// The symbol and listing of one of the six helpers of an array type, in
/// generation order, or why it cannot be generated.
#[verifier::opaque]
pub open spec fn helper_result(
    kind: int,
    array: ArrayTypeId,
    element: MirType,
    data_layout: &DataLayout,
) -> Result<(Seq<char>, Seq<char>), Seq<char>> {
    let missing = array.idx >= data_layout.arrays@.len();
    let layout = data_layout.arrays@[array.idx as int];
    if kind == 0 {
        if missing {
            Err(missing_layout_message(array, "helper"@))
        } else if layout.element_offset > i32::MAX {
            Err(element_offset_message(array))
        } else {
            Ok(
                (
                    array_helper_text("initialize_element"@, array),
                    initializer_listing(layout, element),
                ),
            )
        }
    } else if kind == 1 {
        match copier_listing(array, element, data_layout) {
            Ok(listing) => Ok((array_helper_text("copy_element"@, array), listing)),
            Err(message) => Err(message),
        }
    } else if kind == 2 {
        if missing {
            Err(missing_layout_message(array, "clone"@))
        } else {
            Ok((array_helper_text("clone"@, array), clone_listing(array, layout)))
        }
    } else if kind == 3 {
        match destroyer_listing(array, element, data_layout) {
            Ok(listing) => Ok((array_helper_text("destroy_element"@, array), listing)),
            Err(message) => Err(message),
        }
    } else if kind == 4 {
        Ok((array_helper_text("release"@, array), release_listing(array)))
    } else if missing {
        Err(missing_layout_message(array, "shared finalizer"@))
    } else {
        match finalizer_adjustment(layout) {
            None => Err(finalizer_offset_message()),
            Some(adjustment) => Ok(
                (shared_array_finalizer_text(array), shared_finalizer_listing(array, adjustment)),
            ),
        }
    }
}

/// The helpers of the first `count` kinds of one array type.
pub open spec fn array_type_helpers(array: MirArrayType, data_layout: &DataLayout, count: int) -> Result<
    Seq<(Seq<char>, Seq<char>)>,
    Seq<char>,
>
    decreases count,
{
    if count <= 0 {
        Ok(Seq::empty())
    } else {
        match array_type_helpers(array, data_layout, count - 1) {
            Err(message) => Err(message),
            Ok(done) => match helper_result(count - 1, array.id, array.element, data_layout) {
                Err(message) => Err(message),
                Ok(helper) => Ok(done.push(helper)),
            },
        }
    }
}

/// The helpers of every array type in declaration order, or the first
/// reason one cannot be generated.
pub open spec fn all_helpers(arrays: Seq<MirArrayType>, data_layout: &DataLayout) -> Result<
    Seq<(Seq<char>, Seq<char>)>,
    Seq<char>,
>
    decreases arrays.len(),
{
    if arrays.len() == 0 {
        Ok(Seq::empty())
    } else {
        match all_helpers(arrays.drop_last(), data_layout) {
            Err(message) => Err(message),
            Ok(done) => match array_type_helpers(arrays.last(), data_layout, 6) {
                Err(message) => Err(message),
                Ok(helpers) => Ok(done + helpers),
            },
        }
    }
}

/// The generated functions match the expected symbols and listings.
pub open spec fn functions_match(
    functions: Seq<AssemblyFunction>,
    expected: Seq<(Seq<char>, Seq<char>)>,
) -> bool {
    &&& functions.len() == expected.len()
    &&& forall|i: int|
        0 <= i < functions.len() ==> (#[trigger] functions[i]).symbol@ == expected[i].0
            && !functions[i].exported && body_text(functions[i].instructions@) == expected[i].1
}

fn helper(kind: usize, array: ArrayTypeId, element: MirType, data_layout: &DataLayout) -> (r:
    Result<AssemblyFunction, BackendError>)
    requires
        data_layout_wf(data_layout),
        kind < 6,
    ensures
        match helper_result(kind as int, array, element, data_layout) {
            Ok((symbol, listing)) => r matches Ok(function) && function.symbol@ == symbol
                && !function.exported && body_text(function.instructions@) == listing,
            Err(message) => r matches Err(error) && error_is(error, None, message),
        },
{
    reveal(helper_result);
    if kind == 0 {
        lower_initializer(array, element, data_layout)
    } else if kind == 1 {
        lower_copier(array, element, data_layout)
    } else if kind == 2 {
        lower_clone(array, data_layout)
    } else if kind == 3 {
        lower_destroyer(array, element, data_layout)
    } else if kind == 4 {
        lower_release(array)
    } else {
        lower_shared_finalizer(array, data_layout)
    }
}

/// Generates the six helpers of every array type, stopping at the first
/// that cannot be generated.
pub fn lower_all(program: &MirProgram, data_layout: &DataLayout) -> (r: Result<
    Vec<AssemblyFunction>,
    BackendError,
>)
    requires
        data_layout_wf(data_layout),
    ensures
        match all_helpers(program.array_types@, data_layout) {
            Ok(expected) => r matches Ok(functions) && functions_match(functions@, expected),
            Err(message) => r matches Err(error) && error_is(error, None, message),
        },
{
    let arrays = &program.array_types;
    let mut functions: Vec<AssemblyFunction> = Vec::new();
    let mut a: usize = 0;
    while a < arrays.len()
        invariant
            data_layout_wf(data_layout),
            arrays@ == program.array_types@,
            a <= arrays@.len(),
            all_helpers(arrays@.take(a as int), data_layout) matches Ok(done) && functions_match(
                functions@,
                done,
            ),
        decreases arrays@.len() - a,
    {
        let array = arrays[a];
        let ghost prefix = arrays@.take(a as int);
        let ghost done = all_helpers(prefix, data_layout)->Ok_0;
        let ghost before = functions@;
        assert(arrays@.take((a + 1) as int).drop_last() =~= prefix);
        assert(arrays@.take((a + 1) as int).last() == array);
        let mut kind: usize = 0;
        while kind < 6
            invariant
                data_layout_wf(data_layout),
                arrays@ == program.array_types@,
                a < arrays@.len(),
                array == arrays@[a as int],
                arrays@.take((a + 1) as int).drop_last() == prefix,
                arrays@.take((a + 1) as int).last() == array,
                all_helpers(prefix, data_layout) == Ok::<Seq<(Seq<char>, Seq<char>)>, Seq<char>>(done),
                kind <= 6,
                functions@.len() == before.len() + kind,
                forall|i: int| 0 <= i < before.len() ==> functions@[i] == before[i],
                array_type_helpers(array, data_layout, kind as int) matches Ok(helpers)
                    && functions_match(functions@.subrange(before.len() as int, functions@.len() as int), helpers),
            decreases 6 - kind,
        {
            let ghost done_kinds = array_type_helpers(array, data_layout, kind as int)->Ok_0;
            let ghost previous = functions@;
            match helper(kind, array.id, array.element, data_layout) {
                Ok(function) => {
                    functions.push(function);
                    proof {
                        let next = array_type_helpers(array, data_layout, kind + 1)->Ok_0;
                        assert(next == done_kinds.push(
                            helper_result(kind as int, array.id, array.element, data_layout)->Ok_0,
                        ));
                        assert(functions@.subrange(before.len() as int, functions@.len() as int)
                            =~= previous.subrange(before.len() as int, previous.len() as int).push(
                            functions@[functions@.len() - 1],
                        ));
                    }
                },
                Err(failure) => {
                    proof {
                        assert(array_type_helpers(array, data_layout, kind as int + 1) is Err);
                        lemma_kinds_fail(array, data_layout, kind as int + 1);
                        assert(all_helpers(arrays@.take((a + 1) as int), data_layout) == array_type_helpers(
                            array,
                            data_layout,
                            6,
                        ));
                        lemma_helpers_fail(arrays@, data_layout, a as int + 1);
                    }
                    return Err(failure);
                },
            }
            kind = kind + 1;
        }
        proof {
            let helpers = array_type_helpers(array, data_layout, 6)->Ok_0;
            assert(all_helpers(arrays@.take((a + 1) as int), data_layout) == Ok::<
                Seq<(Seq<char>, Seq<char>)>,
                Seq<char>,
            >(done + helpers));
            assert(functions@ =~= before + functions@.subrange(before.len() as int, functions@.len() as int));
            assert forall|i: int| 0 <= i < functions@.len() implies (#[trigger] functions@[i]).symbol@
                == (done + helpers)[i].0 && !functions@[i].exported && body_text(
                functions@[i].instructions@,
            ) == (done + helpers)[i].1 by {
                if i < before.len() {
                    assert(functions@[i] == before[i]);
                } else {
                    assert(functions@[i] == functions@.subrange(
                        before.len() as int,
                        functions@.len() as int,
                    )[i - before.len()]);
                }
            }
        }
        a = a + 1;
    }
    assert(arrays@.take(arrays@.len() as int) =~= arrays@);
    Ok(functions)
}

proof fn lemma_kinds_fail(array: MirArrayType, data_layout: &DataLayout, count: int)
    requires
        1 <= count <= 6,
    ensures
        array_type_helpers(array, data_layout, count) is Err ==> array_type_helpers(
            array,
            data_layout,
            6,
        ) == array_type_helpers(array, data_layout, count),
    decreases 6 - count,
{
    if count < 6 {
        lemma_kinds_fail(array, data_layout, count + 1);
    }
}

proof fn lemma_helpers_fail(arrays: Seq<MirArrayType>, data_layout: &DataLayout, n: int)
    requires
        0 <= n <= arrays.len(),
    ensures
        all_helpers(arrays.take(n), data_layout) is Err ==> all_helpers(arrays, data_layout)
            == all_helpers(arrays.take(n), data_layout),
    decreases arrays.len() - n,
{
    if n < arrays.len() {
        lemma_helpers_fail(arrays, data_layout, n + 1);
        assert(arrays.take(n + 1).drop_last() =~= arrays.take(n));
    } else {
        assert(arrays.take(n) =~= arrays);
    }
}

/// The declared storage of an optional type.
pub open spec fn optional_storage(program: &MirProgram, optional: OptionalTypeId) -> MirOptionalStorage {
    program.optional_types@[optional.idx as int].storage
}

/// The optional type is declared, and so is every optional type nested in
/// it, within `depth` levels.
pub open spec fn nesting_fits(program: &MirProgram, optional: OptionalTypeId, depth: nat) -> bool
    decreases depth,
{
    depth > 0 && optional.idx < program.optional_types@.len() && match optional_storage(
        program,
        optional,
    ) {
        MirOptionalStorage::Nested(nested) => nesting_fits(program, nested, (depth - 1) as nat),
        _ => true,
    }
}

/// The layout of an optional type: a primitive or inline payload laid out
/// beside a presence state, a shared owner whose null handle means absent.
pub open spec fn spec_optional_type_layout(
    program: &MirProgram,
    data_layout: &DataLayout,
    optional: OptionalTypeId,
    depth: nat,
) -> Result<OptionalLayout, Seq<char>>
    decreases depth,
{
    if depth == 0 {
        Err(Seq::empty())
    } else {
        match optional_storage(program, optional) {
            MirOptionalStorage::Scalar(payload) => Ok(spec_optional_layout(payload)),
            MirOptionalStorage::InlineClass(class) => if class.idx < data_layout.classes@.len() {
                spec_optional_layout_for(data_layout.classes@[class.idx as int].ty)
            } else {
                Err(class_missing_message(class))
            },
            MirOptionalStorage::SharedOwner(_) => Ok(
                OptionalLayout { ty: shared_handle_layout(), payload_offset: 0 },
            ),
            MirOptionalStorage::Nested(nested) => match spec_optional_type_layout(
                program,
                data_layout,
                nested,
                (depth - 1) as nat,
            ) {
                Ok(inner) => spec_optional_layout_for(inner.ty),
                Err(message) => Err(message),
            },
            MirOptionalStorage::InlineArray(_) => spec_optional_layout_for(array_descriptor_layout()),
        }
    }
}

fn optional_type_layout(
    program: &MirProgram,
    data_layout: &DataLayout,
    optional: OptionalTypeId,
    Ghost(depth): Ghost<nat>,
) -> (r: Result<OptionalLayout, BackendError>)
    requires
        data_layout_wf(data_layout),
        nesting_fits(program, optional, depth),
    ensures
        match spec_optional_type_layout(program, data_layout, optional, depth) {
            Ok(layout) => r == Ok::<OptionalLayout, BackendError>(layout),
            Err(message) => r matches Err(error) && error_is(error, None, message),
        },
        r matches Ok(layout) ==> type_layout_wf(layout.ty),
    decreases depth,
{
    proof {
        lemma_small_powers_of_two();
    }
    match program.optional_types[optional.index()].storage {
        MirOptionalStorage::Scalar(payload) => optional_layout(payload),
        MirOptionalStorage::InlineClass(class) => data_layout.optional_class(class),
        MirOptionalStorage::SharedOwner(_) => Ok(
            OptionalLayout {
                ty: TypeLayout::new(SHARED_HANDLE_SIZE, SHARED_HANDLE_ALIGNMENT),
                payload_offset: 0,
            },
        ),
        MirOptionalStorage::Nested(nested) => {
            let inner = match optional_type_layout(program, data_layout, nested, Ghost((depth - 1) as nat)) {
                Ok(inner) => inner,
                Err(failure) => return Err(failure),
            };
            optional_layout_for(inner.ty)
        },
        MirOptionalStorage::InlineArray(_) => optional_layout_for(
            TypeLayout::new(ARRAY_DESCRIPTOR_SIZE, ARRAY_DESCRIPTOR_ALIGNMENT),
        ),
    }
}

/// The local label of an aggregate optional copy: `.Lska_array_N_copy_oM`
/// and a suffix.
pub open spec fn optional_copy_label_text(array: ArrayTypeId, optional: OptionalTypeId, suffix: Seq<char>) -> Seq<
    char,
> {
    stem_text(array, "_copy_o"@) + decimal_text(optional.idx as nat) + suffix
}

fn optional_copy_label(array: ArrayTypeId, optional: OptionalTypeId, suffix: &str) -> (r: String)
    ensures
        r@ == optional_copy_label_text(array, optional, suffix@),
{
    let mut text = stem(array, "_copy_o");
    let digits = decimal(optional.index() as u64);
    text.append(digits.as_str());
    text.append(suffix);
    text
}

/// The presence test that begins every aggregate optional copy: an absent
/// state is copied as is.
pub open spec fn presence_head_text(
    array: ArrayTypeId,
    optional: OptionalTypeId,
    source: Operand,
    destination: Operand,
) -> Seq<char> {
    Seq::<char>::empty() + line_text(Instruction::Move { source, destination: reg(Register::Rax) })
        + line_text(Instruction::Test(Register::Rax)) + operand_line(
        "jne"@,
        optional_copy_label_text(array, optional, "_present"@),
    ) + line_text(Instruction::Move { source: reg(Register::Rax), destination }) + operand_line(
        "jmp"@,
        optional_copy_label_text(array, optional, "_complete"@),
    ) + label_line(optional_copy_label_text(array, optional, "_present"@))
}

/// Saving the destination's address before copying an aggregate payload.
pub open spec fn save_destination_text(destination: Operand) -> Seq<char> {
    line_text(Instruction::ReserveStack(16)) + line_text(
        Instruction::LoadEffectiveAddress { source: destination, destination: Register::R11 },
    ) + line_text(Instruction::Move { source: reg(Register::R11), destination: mem(Register::Rsp, 0i32) })
}

/// Marking the saved destination present after an aggregate payload copy.
pub open spec fn mark_saved_present_text(array: ArrayTypeId, optional: OptionalTypeId) -> Seq<char> {
    line_text(Instruction::Move { source: mem(Register::Rsp, 0i32), destination: reg(Register::R11) })
        + line_text(Instruction::ReleaseStack(16)) + line_text(
        Instruction::MoveImmediate64 { bits: 1, destination: Register::Rax },
    ) + line_text(Instruction::Move { source: reg(Register::Rax), destination: mem(Register::R11, 0i32) })
        + label_line(optional_copy_label_text(array, optional, "_complete"@))
}

/// The payload offset of an optional type's layout as a displacement, or
/// why there is none.
pub open spec fn optional_payload_displacement(
    program: &MirProgram,
    data_layout: &DataLayout,
    optional: OptionalTypeId,
    depth: nat,
    message: Seq<char>,
) -> Result<i32, Seq<char>> {
    match spec_optional_type_layout(program, data_layout, optional, depth) {
        Err(failure) => Err(failure),
        Ok(layout) => if layout.payload_offset > i32::MAX {
            Err(message)
        } else {
            Ok(layout.payload_offset as i32)
        },
    }
}

/// The listing that copies an element of an optional type held in an
/// aggregate way, or why it cannot be produced.
pub open spec fn aggregate_optional_copy_text(
    program: &MirProgram,
    array: ArrayTypeId,
    optional: OptionalTypeId,
    source: Operand,
    destination: Operand,
    data_layout: &DataLayout,
    depth: nat,
) -> Result<Seq<char>, Seq<char>>
    decreases depth,
{
    if depth == 0 {
        Err(Seq::empty())
    } else {
        match optional_storage(program, optional) {
            MirOptionalStorage::Scalar(payload) => match optional_payload_displacement(
                program,
                data_layout,
                optional,
                depth,
                "optional payload offset exceeds x86-64"@,
            ) {
                Err(message) => Err(message),
                Ok(offset) => match spec_offset_operand(source, offset) {
                    Err(message) => Err(message),
                    Ok(source_payload) => match spec_offset_operand(destination, offset) {
                        Err(message) => Err(message),
                        Ok(destination_payload) => {
                            let copied = if payload is U8 || payload is Bool {
                                line_text(
                                    Instruction::LoadZeroExtendByte {
                                        source: source_payload,
                                        destination: Register::Rax,
                                    },
                                ) + line_text(
                                    Instruction::MoveByte {
                                        source: ByteRegister::Al,
                                        destination: destination_payload,
                                    },
                                )
                            } else {
                                line_text(
                                    Instruction::Move {
                                        source: source_payload,
                                        destination: reg(Register::Rax),
                                    },
                                ) + line_text(
                                    Instruction::Move {
                                        source: reg(Register::Rax),
                                        destination: destination_payload,
                                    },
                                )
                            };
                            Ok(
                                presence_head_text(array, optional, source, destination) + copied
                                    + line_text(
                                    Instruction::MoveImmediate64 { bits: 1, destination: Register::Rax },
                                ) + line_text(Instruction::Move { source: reg(Register::Rax), destination })
                                    + label_line(optional_copy_label_text(array, optional, "_complete"@)),
                            )
                        },
                    },
                },
            },
            MirOptionalStorage::InlineClass(class) => optional_class_copy_text(
                array,
                class,
                source,
                destination,
                data_layout,
            ),
            MirOptionalStorage::SharedOwner(_) => Ok(shared_copy_text(array, source, destination, true)),
            MirOptionalStorage::Nested(nested) => match optional_payload_displacement(
                program,
                data_layout,
                optional,
                depth,
                "nested optional payload offset exceeds x86-64"@,
            ) {
                Err(message) => Err(message),
                Ok(offset) => match spec_offset_operand(source, offset) {
                    Err(message) => Err(message),
                    Ok(source_payload) => match spec_offset_operand(destination, offset) {
                        Err(message) => Err(message),
                        Ok(destination_payload) => match aggregate_optional_copy_text(
                            program,
                            array,
                            nested,
                            source_payload,
                            destination_payload,
                            data_layout,
                            (depth - 1) as nat,
                        ) {
                            Err(message) => Err(message),
                            Ok(inner) => Ok(
                                presence_head_text(array, optional, source, destination)
                                    + save_destination_text(destination) + inner
                                    + mark_saved_present_text(array, optional),
                            ),
                        },
                    },
                },
            },
            MirOptionalStorage::InlineArray(inner) => match optional_payload_displacement(
                program,
                data_layout,
                optional,
                depth,
                "optional array payload offset exceeds x86-64"@,
            ) {
                Err(message) => Err(message),
                Ok(offset) => match spec_offset_operand(source, offset) {
                    Err(message) => Err(message),
                    Ok(source_payload) => match spec_offset_operand(destination, offset) {
                        Err(message) => Err(message),
                        Ok(destination_payload) => Ok(
                            presence_head_text(array, optional, source, destination)
                                + save_destination_text(destination) + nested_array_copy_text(
                                inner,
                                source_payload,
                                destination_payload,
                            ) + mark_saved_present_text(array, optional),
                        ),
                    },
                },
            },
        }
    }
}

fn payload_displacement(
    program: &MirProgram,
    data_layout: &DataLayout,
    optional: OptionalTypeId,
    Ghost(depth): Ghost<nat>,
    message: &str,
) -> (r: Result<i32, BackendError>)
    requires
        data_layout_wf(data_layout),
        nesting_fits(program, optional, depth),
    ensures
        match optional_payload_displacement(program, data_layout, optional, depth, message@) {
            Ok(offset) => r == Ok::<i32, BackendError>(offset),
            Err(failure) => r matches Err(error) && error_is(error, None, failure),
        },
{
    let layout = match optional_type_layout(program, data_layout, optional, Ghost(depth)) {
        Ok(layout) => layout,
        Err(failure) => return Err(failure),
    };
    if layout.payload_offset > 0x7fff_ffffusize {
        return Err(BackendError::new(Target::X86_64SysV, None, String::from_str(message)));
    }
    Ok(layout.payload_offset as i32)
}

fn push_presence_head(
    output: &mut Vec<Instruction>,
    array: ArrayTypeId,
    optional: OptionalTypeId,
    source: Operand,
    destination: Operand,
)
    ensures
        body_text(final(output)@) == body_text(old(output)@) + presence_head_text(
            array,
            optional,
            source,
            destination,
        ),
{
    let ghost start = body_text(output@);
    push_plain(output, Instruction::Move { source, destination: Operand::Register(Register::Rax) });
    push_plain(output, Instruction::Test(Register::Rax));
    push_jump(output, JumpKind::IfNotZero, optional_copy_label(array, optional, "_present"));
    push_plain(output, Instruction::Move { source: Operand::Register(Register::Rax), destination });
    push_jump(output, JumpKind::Always, optional_copy_label(array, optional, "_complete"));
    push_label(output, optional_copy_label(array, optional, "_present"));
    assert(body_text(output@) =~= start + presence_head_text(array, optional, source, destination));
}

fn push_save_destination(output: &mut Vec<Instruction>, destination: Operand)
    ensures
        body_text(final(output)@) == body_text(old(output)@) + save_destination_text(destination),
{
    let ghost start = body_text(output@);
    push_plain(output, Instruction::ReserveStack(16));
    push_plain(output, Instruction::LoadEffectiveAddress { source: destination, destination: Register::R11 });
    push_plain(
        output,
        Instruction::Move {
            source: Operand::Register(Register::R11),
            destination: Operand::Memory { base: Register::Rsp, displacement: 0 },
        },
    );
    assert(body_text(output@) =~= start + save_destination_text(destination));
}

fn push_mark_saved_present(output: &mut Vec<Instruction>, array: ArrayTypeId, optional: OptionalTypeId)
    ensures
        body_text(final(output)@) == body_text(old(output)@) + mark_saved_present_text(array, optional),
{
    let ghost start = body_text(output@);
    push_plain(
        output,
        Instruction::Move {
            source: Operand::Memory { base: Register::Rsp, displacement: 0 },
            destination: Operand::Register(Register::R11),
        },
    );
    push_plain(output, Instruction::ReleaseStack(16));
    push_plain(output, Instruction::MoveImmediate64 { bits: 1, destination: Register::Rax });
    push_plain(
        output,
        Instruction::Move {
            source: Operand::Register(Register::Rax),
            destination: Operand::Memory { base: Register::R11, displacement: 0 },
        },
    );
    push_label(output, optional_copy_label(array, optional, "_complete"));
    assert(body_text(output@) =~= start + mark_saved_present_text(array, optional));
}

fn aggregate_optional_copy(
    program: &MirProgram,
    array: ArrayTypeId,
    optional: OptionalTypeId,
    source: Operand,
    destination: Operand,
    data_layout: &DataLayout,
    Ghost(depth): Ghost<nat>,
) -> (r: Result<Vec<Instruction>, BackendError>)
    requires
        data_layout_wf(data_layout),
        nesting_fits(program, optional, depth),
    ensures
        match aggregate_optional_copy_text(program, array, optional, source, destination, data_layout, depth) {
            Ok(text) => r matches Ok(code) && body_text(code@) == text,
            Err(message) => r matches Err(error) && error_is(error, None, message),
        },
    decreases depth,
{
    let mut out: Vec<Instruction> = Vec::new();
    assert(body_text(Seq::<Instruction>::empty()) == Seq::<char>::empty());
    match program.optional_types[optional.index()].storage {
        MirOptionalStorage::Scalar(payload) => {
            let offset = match payload_displacement(
                program,
                data_layout,
                optional,
                Ghost(depth),
                "optional payload offset exceeds x86-64",
            ) {
                Ok(offset) => offset,
                Err(failure) => return Err(failure),
            };
            let source_payload = match moved(source, offset) {
                Ok(operand) => operand,
                Err(failure) => return Err(failure),
            };
            let destination_payload = match moved(destination, offset) {
                Ok(operand) => operand,
                Err(failure) => return Err(failure),
            };
            push_presence_head(&mut out, array, optional, source, destination);
            match payload {
                MirPrimitiveType::U8 | MirPrimitiveType::Bool => {
                    push_plain(
                        &mut out,
                        Instruction::LoadZeroExtendByte { source: source_payload, destination: Register::Rax },
                    );
                    push_plain(
                        &mut out,
                        Instruction::MoveByte { source: ByteRegister::Al, destination: destination_payload },
                    );
                },
                _ => {
                    push_plain(
                        &mut out,
                        Instruction::Move { source: source_payload, destination: Operand::Register(Register::Rax) },
                    );
                    push_plain(
                        &mut out,
                        Instruction::Move { source: Operand::Register(Register::Rax), destination: destination_payload },
                    );
                },
            }
            push_plain(&mut out, Instruction::MoveImmediate64 { bits: 1, destination: Register::Rax });
            push_plain(&mut out, Instruction::Move { source: Operand::Register(Register::Rax), destination });
            push_label(&mut out, optional_copy_label(array, optional, "_complete"));
            Ok(out)
        },
        MirOptionalStorage::InlineClass(class) => lower_optional_class_copier(
            array,
            class,
            source,
            destination,
            data_layout,
        ),
        MirOptionalStorage::SharedOwner(_) => Ok(lower_shared_copier(array, source, destination, true)),
        MirOptionalStorage::Nested(nested) => {
            let offset = match payload_displacement(
                program,
                data_layout,
                optional,
                Ghost(depth),
                "nested optional payload offset exceeds x86-64",
            ) {
                Ok(offset) => offset,
                Err(failure) => return Err(failure),
            };
            let source_payload = match moved(source, offset) {
                Ok(operand) => operand,
                Err(failure) => return Err(failure),
            };
            let destination_payload = match moved(destination, offset) {
                Ok(operand) => operand,
                Err(failure) => return Err(failure),
            };
            let inner = match aggregate_optional_copy(
                program,
                array,
                nested,
                source_payload,
                destination_payload,
                data_layout,
                Ghost((depth - 1) as nat),
            ) {
                Ok(inner) => inner,
                Err(failure) => return Err(failure),
            };
            push_presence_head(&mut out, array, optional, source, destination);
            push_save_destination(&mut out, destination);
            append_all(&mut out, inner);
            push_mark_saved_present(&mut out, array, optional);
            Ok(out)
        },
        MirOptionalStorage::InlineArray(inner) => {
            let offset = match payload_displacement(
                program,
                data_layout,
                optional,
                Ghost(depth),
                "optional array payload offset exceeds x86-64",
            ) {
                Ok(offset) => offset,
                Err(failure) => return Err(failure),
            };
            let source_payload = match moved(source, offset) {
                Ok(operand) => operand,
                Err(failure) => return Err(failure),
            };
            let destination_payload = match moved(destination, offset) {
                Ok(operand) => operand,
                Err(failure) => return Err(failure),
            };
            push_presence_head(&mut out, array, optional, source, destination);
            push_save_destination(&mut out, destination);
            let copied = lower_nested_array_copier(array, inner, source_payload, destination_payload);
            append_all(&mut out, copied);
            push_mark_saved_present(&mut out, array, optional);
            Ok(out)
        },
    }
}

/// Copies one element of an optional type held in an aggregate way: a
/// primitive or inline class payload, a shared owner, a nested optional, or
/// an inline array. An absent source is copied as absent; a present payload
/// is copied by its own kind and the destination marked present.
pub fn lower_aggregate_optional_copier(
    program: &MirProgram,
    array: ArrayTypeId,
    optional: OptionalTypeId,
    source: Operand,
    destination: Operand,
    data_layout: &DataLayout,
) -> (r: Result<Vec<Instruction>, BackendError>)
    requires
        data_layout_wf(data_layout),
        exists|depth: nat| nesting_fits(program, optional, depth),
    ensures
        match aggregate_optional_copy_text(
            program,
            array,
            optional,
            source,
            destination,
            data_layout,
            choose|depth: nat| nesting_fits(program, optional, depth),
        ) {
            Ok(text) => r matches Ok(code) && body_text(code@) == text,
            Err(message) => r matches Err(error) && error_is(error, None, message),
        },
{
    let ghost depth = choose|depth: nat| nesting_fits(program, optional, depth);
    aggregate_optional_copy(program, array, optional, source, destination, data_layout, Ghost(depth))
}

/// The local label that ends an aggregate optional destruction:
/// `.Lska_array_N_destroy_oM_complete`.
pub open spec fn optional_destroy_complete_text(array: ArrayTypeId, optional: OptionalTypeId) -> Seq<char> {
    stem_text(array, "_destroy_o"@) + decimal_text(optional.idx as nat) + "_complete"@
}

fn optional_destroy_complete(array: ArrayTypeId, optional: OptionalTypeId) -> (r: String)
    ensures
        r@ == optional_destroy_complete_text(array, optional),
{
    let mut text = stem(array, "_destroy_o");
    let digits = decimal(optional.index() as u64);
    text.append(digits.as_str());
    text.append("_complete");
    text
}

/// The presence test that begins destroying a present payload: the state
/// word is loaded and an absent optional skips to the end.
pub open spec fn destroy_presence_text(array: ArrayTypeId, optional: OptionalTypeId, address: Operand) -> Seq<
    char,
> {
    Seq::<char>::empty() + line_text(Instruction::Move { source: address, destination: reg(Register::Rax) })
        + line_text(Instruction::Test(Register::Rax)) + operand_line(
        "je"@,
        optional_destroy_complete_text(array, optional),
    )
}

/// The listing that destroys an element of an optional type held in an
/// aggregate way, or why it cannot be produced: a scalar payload needs
/// nothing; a shared owner is released when not null; a present inline
/// class is finalized, a nested optional destroyed in turn, and an inline
/// array released.
pub open spec fn aggregate_optional_destroy_text(
    program: &MirProgram,
    array: ArrayTypeId,
    optional: OptionalTypeId,
    address: Operand,
    data_layout: &DataLayout,
    depth: nat,
) -> Result<Seq<char>, Seq<char>>
    decreases depth,
{
    let complete = optional_destroy_complete_text(array, optional);
    if depth == 0 {
        Err(Seq::empty())
    } else {
        match optional_storage(program, optional) {
            MirOptionalStorage::Scalar(_) => Ok(Seq::empty()),
            MirOptionalStorage::SharedOwner(_) => Ok(
                Seq::<char>::empty() + line_text(Instruction::Move { source: address, destination: reg(Register::Rdi) })
                    + line_text(Instruction::Test(Register::Rdi)) + operand_line("je"@, complete)
                    + operand_line("call"@, shared_handle_release_text()) + label_line(complete),
            ),
            MirOptionalStorage::InlineClass(class) => match optional_payload_displacement(
                program,
                data_layout,
                optional,
                depth,
                "optional payload offset exceeds x86-64"@,
            ) {
                Err(message) => Err(message),
                Ok(offset) => match spec_offset_operand(address, offset) {
                    Err(message) => Err(message),
                    Ok(payload) => Ok(
                        destroy_presence_text(array, optional, address) + line_text(
                            Instruction::LoadEffectiveAddress { source: payload, destination: Register::Rdi },
                        ) + operand_line("call"@, complete_finalizer_text(class)) + label_line(complete),
                    ),
                },
            },
            MirOptionalStorage::Nested(nested) => match optional_payload_displacement(
                program,
                data_layout,
                optional,
                depth,
                "nested optional payload offset exceeds x86-64"@,
            ) {
                Err(message) => Err(message),
                Ok(offset) => match spec_offset_operand(address, offset) {
                    Err(message) => Err(message),
                    Ok(payload) => match aggregate_optional_destroy_text(
                        program,
                        array,
                        nested,
                        payload,
                        data_layout,
                        (depth - 1) as nat,
                    ) {
                        Err(message) => Err(message),
                        Ok(inner) => Ok(destroy_presence_text(array, optional, address) + inner + label_line(complete)),
                    },
                },
            },
            MirOptionalStorage::InlineArray(inner) => match optional_payload_displacement(
                program,
                data_layout,
                optional,
                depth,
                "optional array payload offset exceeds x86-64"@,
            ) {
                Err(message) => Err(message),
                Ok(offset) => match spec_offset_operand(address, offset) {
                    Err(message) => Err(message),
                    Ok(payload) => Ok(
                        destroy_presence_text(array, optional, address) + line_text(
                            Instruction::Move { source: payload, destination: reg(Register::Rdi) },
                        ) + operand_line("call"@, array_helper_text("release"@, inner)) + label_line(complete),
                    ),
                },
            },
        }
    }
}

fn push_destroy_presence(output: &mut Vec<Instruction>, array: ArrayTypeId, optional: OptionalTypeId, address: Operand)
    ensures
        body_text(final(output)@) == body_text(old(output)@) + destroy_presence_text(array, optional, address),
{
    let ghost start = body_text(output@);
    push_plain(output, Instruction::Move { source: address, destination: Operand::Register(Register::Rax) });
    push_plain(output, Instruction::Test(Register::Rax));
    push_jump(output, JumpKind::IfEqual, optional_destroy_complete(array, optional));
    assert(body_text(output@) =~= start + destroy_presence_text(array, optional, address));
}

fn aggregate_optional_destroy(
    program: &MirProgram,
    array: ArrayTypeId,
    optional: OptionalTypeId,
    address: Operand,
    data_layout: &DataLayout,
    Ghost(depth): Ghost<nat>,
) -> (r: Result<Vec<Instruction>, BackendError>)
    requires
        data_layout_wf(data_layout),
        nesting_fits(program, optional, depth),
    ensures
        match aggregate_optional_destroy_text(program, array, optional, address, data_layout, depth) {
            Ok(text) => r matches Ok(code) && body_text(code@) == text,
            Err(message) => r matches Err(error) && error_is(error, None, message),
        },
    decreases depth,
{
    let mut out: Vec<Instruction> = Vec::new();
    assert(body_text(Seq::<Instruction>::empty()) == Seq::<char>::empty());
    match program.optional_types[optional.index()].storage {
        MirOptionalStorage::Scalar(_) => Ok(out),
        MirOptionalStorage::SharedOwner(_) => {
            push_plain(&mut out, Instruction::Move { source: address, destination: Operand::Register(Register::Rdi) });
            push_plain(&mut out, Instruction::Test(Register::Rdi));
            push_jump(&mut out, JumpKind::IfEqual, optional_destroy_complete(array, optional));
            push_call(&mut out, String::from_str(shared_handle_release()));
            push_label(&mut out, optional_destroy_complete(array, optional));
            Ok(out)
        },
        MirOptionalStorage::InlineClass(class) => {
            let offset = match payload_displacement(
                program,
                data_layout,
                optional,
                Ghost(depth),
                "optional payload offset exceeds x86-64",
            ) {
                Ok(offset) => offset,
                Err(failure) => return Err(failure),
            };
            let payload = match moved(address, offset) {
                Ok(operand) => operand,
                Err(failure) => return Err(failure),
            };
            push_destroy_presence(&mut out, array, optional, address);
            push_plain(&mut out, Instruction::LoadEffectiveAddress { source: payload, destination: Register::Rdi });
            push_call(&mut out, complete_finalizer(class));
            push_label(&mut out, optional_destroy_complete(array, optional));
            Ok(out)
        },
        MirOptionalStorage::Nested(nested) => {
            let offset = match payload_displacement(
                program,
                data_layout,
                optional,
                Ghost(depth),
                "nested optional payload offset exceeds x86-64",
            ) {
                Ok(offset) => offset,
                Err(failure) => return Err(failure),
            };
            let payload = match moved(address, offset) {
                Ok(operand) => operand,
                Err(failure) => return Err(failure),
            };
            let inner = match aggregate_optional_destroy(
                program,
                array,
                nested,
                payload,
                data_layout,
                Ghost((depth - 1) as nat),
            ) {
                Ok(inner) => inner,
                Err(failure) => return Err(failure),
            };
            push_destroy_presence(&mut out, array, optional, address);
            append_all(&mut out, inner);
            push_label(&mut out, optional_destroy_complete(array, optional));
            Ok(out)
        },
        MirOptionalStorage::InlineArray(inner) => {
            let offset = match payload_displacement(
                program,
                data_layout,
                optional,
                Ghost(depth),
                "optional array payload offset exceeds x86-64",
            ) {
                Ok(offset) => offset,
                Err(failure) => return Err(failure),
            };
            let payload = match moved(address, offset) {
                Ok(operand) => operand,
                Err(failure) => return Err(failure),
            };
            push_destroy_presence(&mut out, array, optional, address);
            push_plain(&mut out, Instruction::Move { source: payload, destination: Operand::Register(Register::Rdi) });
            push_call(&mut out, array_release(inner));
            push_label(&mut out, optional_destroy_complete(array, optional));
            Ok(out)
        },
    }
}

/// Destroys one element of an optional type held in an aggregate way, at
/// `address`: nothing for a scalar payload; otherwise a present payload is
/// released or finalized by its own kind, a nested optional in turn.
pub fn lower_aggregate_optional_destroyer(
    program: &MirProgram,
    array: ArrayTypeId,
    optional: OptionalTypeId,
    address: Operand,
    data_layout: &DataLayout,
) -> (r: Result<Vec<Instruction>, BackendError>)
    requires
        data_layout_wf(data_layout),
        exists|depth: nat| nesting_fits(program, optional, depth),
    ensures
        match aggregate_optional_destroy_text(
            program,
            array,
            optional,
            address,
            data_layout,
            choose|depth: nat| nesting_fits(program, optional, depth),
        ) {
            Ok(text) => r matches Ok(code) && body_text(code@) == text,
            Err(message) => r matches Err(error) && error_is(error, None, message),
        },
{
    let ghost depth = choose|depth: nat| nesting_fits(program, optional, depth);
    aggregate_optional_destroy(program, array, optional, address, data_layout, Ghost(depth))
}

} // verus!
