//! Address-based class copy helpers for generated array copy loops.
//!
//! Array clone helpers receive element addresses rather than places, so
//! every copyable class that an array element can hold, directly or through
//! the copies it makes, gets one private helper: it takes the destination
//! in `rdi` and the source in `rsi`, keeps both in its frame, and copies the
//! base, then each field, or calls the user copy constructor. Calls between
//! helpers break recursive class and array graphs.

use vstd::prelude::*;

use crate::artifacts::{lemma_mark_decreases, unmarked};
use crate::emit::line_text;
use crate::error::{BackendError, error_is};
use crate::finalize::class_text;
use crate::identity::{ArrayTypeId, CallableId, ClassId, FieldId};
use crate::layout::{
    DataLayout, class_missing_message, data_layout_wf, spec_optional_layout,
    spec_optional_layout_for, OptionalLayout,
};
use crate::listing::{label_text_line, lemma_lines_push, lines, one_operand_line};
use crate::machine::{AssemblyFunction, Instruction, Label, Operand, Register};
use crate::mir::{
    MirArrayType, MirClass, MirBaseCopy, MirCopyCapability, MirProgram, MirSynthesizedFieldCopy, MirType, program_ids_dense,
    spec_field,
};
use crate::object_abi::table_address_line;
use crate::ownership::{emit_retain_loaded_handle, retain_lines};
use crate::panic_message::{PanicMessage, emit_ownership_overflow, static_panic_lines};
use crate::selection::{
    DESTINATION_HOME, SOURCE_HOME, emit_scalar_copy, field_offset, field_text, home_address,
    lifecycle_error, load_home_address, scalar_copy,
};
use crate::symbol::{
    array_clone, array_helper_text, callable, callable_text, class_copy_helper,
    class_copy_helper_text, dispatch_table,
};
use crate::text::{decimal, decimal_text};
use crate::value::{load_rax_instruction, spec_memory, store_rax_instruction};

verus! {

broadcast use lemma_lines_push;

/// The frame of a copy helper: the destination and source addresses.
pub const COPY_FRAME_SIZE: u32 = 16;

/// A type a synthesized field copies word or byte for word or byte.
pub open spec fn is_scalar(ty: MirType) -> bool {
    ty is U8 || ty is Bool || ty is I64 || ty is U64 || ty is F64
}

/// `mov rax, [r11]` and `mov [r11], rax` around the frame homes.
pub open spec fn word_at_r11() -> Operand {
    spec_memory(Register::R11, 0)
}

/// Calls the helper of `class` on the subobjects at the given offsets.
pub open spec fn helper_call_lines(class: ClassId, destination_offset: i32, source_offset: i32) -> Seq<
    Seq<char>,
> {
    lines(
        home_address(DESTINATION_HOME, destination_offset, Register::Rdi) + home_address(
            SOURCE_HOME,
            source_offset,
            Register::Rsi,
        ),
    ) + seq![one_operand_line("call"@, class_copy_helper_text(class))]
}

pub fn emit_helper_call_at(
    class: ClassId,
    destination_offset: i32,
    source_offset: i32,
    output: &mut Vec<Instruction>,
)
    ensures
        old(output)@.len() <= final(output)@.len(),
        final(output)@.subrange(0, old(output)@.len() as int) == old(output)@,
        forall|i: int| 0 <= i < old(output)@.len() ==> #[trigger] final(output)@[i] == old(output)@[i],
        lines(final(output)@) == lines(old(output)@) + helper_call_lines(
            class,
            destination_offset,
            source_offset,
        ),
{
    let ghost before = output@;
    load_home_address(DESTINATION_HOME, destination_offset, Register::Rdi, output);
    load_home_address(SOURCE_HOME, source_offset, Register::Rsi, output);
    let ghost loaded = output@;
    assert(loaded =~= before + home_address(DESTINATION_HOME, destination_offset, Register::Rdi)
        + home_address(SOURCE_HOME, source_offset, Register::Rsi));
    output.push(Instruction::Call(class_copy_helper(class)));
    assert(lines(loaded) =~= lines(before) + lines(
        home_address(DESTINATION_HOME, destination_offset, Register::Rdi) + home_address(
            SOURCE_HOME,
            source_offset,
            Register::Rsi,
        ),
    ));
}

/// `.Lska_class_<owner>_field_<field>_<kind>`.
pub open spec fn copy_stem_text(owner: ClassId, field: FieldId, kind: Seq<char>) -> Seq<char> {
    ".Lska_class_"@ + decimal_text(owner.idx as nat) + "_field_"@ + decimal_text(field.idx as nat)
        + "_"@ + kind
}

fn copy_label(owner: ClassId, field: FieldId, kind: &str, suffix: &str) -> (r: Label)
    ensures
        r.text@ == copy_stem_text(owner, field, kind@) + suffix@,
{
    let mut text = String::from_str(".Lska_class_");
    let owner_digits = decimal(owner.index() as u64);
    text.append(owner_digits.as_str());
    text.append("_field_");
    let field_digits = decimal(field.index() as u64);
    text.append(field_digits.as_str());
    text.append("_");
    text.append(kind);
    text.append(suffix);
    Label::new(text)
}

/// Reads the state word of an optional field; an absent source stores the
/// zero state and finishes.
pub open spec fn optional_head_lines(offset: i32, present: Seq<char>, complete: Seq<char>) -> Seq<
    Seq<char>,
> {
    lines(
        home_address(SOURCE_HOME, offset, Register::R11) + seq![
            load_rax_instruction(word_at_r11()),
            Instruction::Test(Register::Rax),
        ],
    ) + seq![one_operand_line("jne"@, present)] + lines(
        home_address(DESTINATION_HOME, offset, Register::R11) + seq![
            store_rax_instruction(word_at_r11()),
        ],
    ) + seq![one_operand_line("jmp"@, complete), label_text_line(present)]
}

/// Marks the destination present and finishes.
pub open spec fn optional_tail_lines(offset: i32, complete: Seq<char>) -> Seq<Seq<char>> {
    lines(
        home_address(DESTINATION_HOME, offset, Register::R11) + seq![
            Instruction::MoveImmediate64 { bits: 1, destination: Register::Rax },
            store_rax_instruction(word_at_r11()),
        ],
    ) + seq![label_text_line(complete)]
}

fn emit_optional_head(
    offset: i32,
    present: &Label,
    complete: &Label,
    output: &mut Vec<Instruction>,
)
    ensures
        old(output)@.len() <= final(output)@.len(),
        final(output)@.subrange(0, old(output)@.len() as int) == old(output)@,
        forall|i: int| 0 <= i < old(output)@.len() ==> #[trigger] final(output)@[i] == old(output)@[i],
        lines(final(output)@) == lines(old(output)@) + optional_head_lines(
            offset,
            present.text@,
            complete.text@,
        ),
{
    let ghost before = lines(output@);
    let ghost start = output@;
    load_home_address(SOURCE_HOME, offset, Register::R11, output);
    output.push(
        Instruction::Move {
            source: Operand::Memory { base: Register::R11, displacement: 0 },
            destination: Operand::Register(Register::Rax),
        },
    );
    output.push(Instruction::Test(Register::Rax));
    assert(lines(output@) =~= before + lines(
        home_address(SOURCE_HOME, offset, Register::R11) + seq![
            load_rax_instruction(word_at_r11()),
            Instruction::Test(Register::Rax),
        ],
    ));
    output.push(Instruction::JumpIfNotZero(present.duplicate()));
    let ghost jumped = lines(output@);
    load_home_address(DESTINATION_HOME, offset, Register::R11, output);
    output.push(
        Instruction::Move {
            source: Operand::Register(Register::Rax),
            destination: Operand::Memory { base: Register::R11, displacement: 0 },
        },
    );
    assert(lines(output@) =~= jumped + lines(
        home_address(DESTINATION_HOME, offset, Register::R11) + seq![
            store_rax_instruction(word_at_r11()),
        ],
    ));
    output.push(Instruction::Jump(complete.duplicate()));
    output.push(Instruction::Label(present.duplicate()));
    assert(lines(output@) =~= before + optional_head_lines(offset, present.text@, complete.text@));
}

fn emit_optional_tail(offset: i32, complete: Label, output: &mut Vec<Instruction>)
    ensures
        old(output)@.len() <= final(output)@.len(),
        final(output)@.subrange(0, old(output)@.len() as int) == old(output)@,
        forall|i: int| 0 <= i < old(output)@.len() ==> #[trigger] final(output)@[i] == old(output)@[i],
        lines(final(output)@) == lines(old(output)@) + optional_tail_lines(offset, complete.text@),
{
    let ghost before = lines(output@);
    load_home_address(DESTINATION_HOME, offset, Register::R11, output);
    output.push(Instruction::MoveImmediate64 { bits: 1, destination: Register::Rax });
    output.push(
        Instruction::Move {
            source: Operand::Register(Register::Rax),
            destination: Operand::Memory { base: Register::R11, displacement: 0 },
        },
    );
    assert(lines(output@) =~= before + lines(
        home_address(DESTINATION_HOME, offset, Register::R11) + seq![
            Instruction::MoveImmediate64 { bits: 1, destination: Register::Rax },
            store_rax_instruction(word_at_r11()),
        ],
    ));
    let ghost text = complete.text@;
    output.push(Instruction::Label(complete));
    assert(lines(output@) =~= before + optional_tail_lines(offset, text));
}

/// An optional primitive field: the state word, then the payload when
/// present.
pub open spec fn optional_copy_lines(
    owner: ClassId,
    field: FieldId,
    offset: i32,
    payload_offset: i32,
    payload: MirType,
) -> Seq<Seq<char>> {
    let stem = copy_stem_text(owner, field, "optional_copy"@);
    optional_head_lines(offset, stem + "_present"@, stem + "_complete"@) + lines(
        scalar_copy(payload, (offset + payload_offset) as i32),
    ) + optional_tail_lines(offset, stem + "_complete"@)
}

pub fn emit_optional_copy(
    owner: ClassId,
    field: FieldId,
    offset: i32,
    payload_offset: i32,
    payload: MirType,
    output: &mut Vec<Instruction>,
)
    requires
        is_scalar(payload),
        i32::MIN <= offset + payload_offset <= i32::MAX,
    ensures
        old(output)@.len() <= final(output)@.len(),
        final(output)@.subrange(0, old(output)@.len() as int) == old(output)@,
        forall|i: int| 0 <= i < old(output)@.len() ==> #[trigger] final(output)@[i] == old(output)@[i],
        lines(final(output)@) == lines(old(output)@) + optional_copy_lines(
            owner,
            field,
            offset,
            payload_offset,
            payload,
        ),
{
    let ghost before = lines(output@);
    let present = copy_label(owner, field, "optional_copy", "_present");
    let complete = copy_label(owner, field, "optional_copy", "_complete");
    emit_optional_head(offset, &present, &complete, output);
    let ghost headed = output@;
    emit_scalar_copy(payload, offset + payload_offset, output);
    assert(lines(output@) =~= lines(headed) + lines(scalar_copy(payload, (offset + payload_offset) as i32)));
    emit_optional_tail(offset, complete, output);
    assert(lines(output@) =~= before + optional_copy_lines(owner, field, offset, payload_offset, payload));
}

/// An optional class field: the state word, then the class helper on the
/// payload when present.
pub open spec fn optional_class_copy_lines(
    owner: ClassId,
    field: FieldId,
    class: ClassId,
    offset: i32,
    payload_offset: i32,
) -> Seq<Seq<char>> {
    let stem = copy_stem_text(owner, field, "optional_copy"@);
    let payload = (offset + payload_offset) as i32;
    optional_head_lines(offset, stem + "_present"@, stem + "_complete"@) + helper_call_lines(
        class,
        payload,
        payload,
    ) + optional_tail_lines(offset, stem + "_complete"@)
}

pub fn emit_optional_class_copy(
    owner: ClassId,
    field: FieldId,
    class: ClassId,
    offset: i32,
    payload_offset: i32,
    output: &mut Vec<Instruction>,
)
    requires
        i32::MIN <= offset + payload_offset <= i32::MAX,
    ensures
        old(output)@.len() <= final(output)@.len(),
        final(output)@.subrange(0, old(output)@.len() as int) == old(output)@,
        forall|i: int| 0 <= i < old(output)@.len() ==> #[trigger] final(output)@[i] == old(output)@[i],
        lines(final(output)@) == lines(old(output)@) + optional_class_copy_lines(
            owner,
            field,
            class,
            offset,
            payload_offset,
        ),
{
    let ghost before = lines(output@);
    let present = copy_label(owner, field, "optional_copy", "_present");
    let complete = copy_label(owner, field, "optional_copy", "_complete");
    emit_optional_head(offset, &present, &complete, output);
    let payload = offset + payload_offset;
    emit_helper_call_at(class, payload, payload, output);
    emit_optional_tail(offset, complete, output);
    assert(lines(output@) =~= before + optional_class_copy_lines(
        owner,
        field,
        class,
        offset,
        payload_offset,
    ));
}

/// Stores `rax` to the destination field.
pub open spec fn destination_store_lines(offset: i32) -> Seq<Seq<char>> {
    lines(
        home_address(DESTINATION_HOME, offset, Register::R11) + seq![
            store_rax_instruction(word_at_r11()),
        ],
    )
}

fn emit_destination_store(offset: i32, output: &mut Vec<Instruction>)
    ensures
        old(output)@.len() <= final(output)@.len(),
        final(output)@.subrange(0, old(output)@.len() as int) == old(output)@,
        forall|i: int| 0 <= i < old(output)@.len() ==> #[trigger] final(output)@[i] == old(output)@[i],
        lines(final(output)@) == lines(old(output)@) + destination_store_lines(offset),
{
    let ghost before = lines(output@);
    load_home_address(DESTINATION_HOME, offset, Register::R11, output);
    output.push(
        Instruction::Move {
            source: Operand::Register(Register::Rax),
            destination: Operand::Memory { base: Register::R11, displacement: 0 },
        },
    );
    assert(lines(output@) =~= before + destination_store_lines(offset));
}

/// Loads the source handle; an absent optional source skips to `absent`.
pub open spec fn shared_head_lines(offset: i32, optional: bool, absent: Seq<char>) -> Seq<Seq<char>> {
    lines(home_address(SOURCE_HOME, offset, Register::R11) + seq![load_rax_instruction(word_at_r11())])
        + (if optional {
        seq![line_text(Instruction::Test(Register::Rax)), one_operand_line("je"@, absent)]
    } else {
        Seq::empty()
    })
}

/// Stores an absent optional handle as is.
pub open spec fn shared_absent_lines(offset: i32, optional: bool, absent: Seq<char>, complete: Seq<char>) -> Seq<
    Seq<char>,
> {
    if optional {
        seq![label_text_line(absent)] + destination_store_lines(offset) + seq![
            one_operand_line("jmp"@, complete),
        ]
    } else {
        Seq::empty()
    }
}

/// The failure blocks: an overflowing count reports, a dead handle traps.
pub open spec fn shared_failure_lines(overflow: Seq<char>, invalid: Seq<char>, complete: Seq<char>) -> Seq<
    Seq<char>,
> {
    seq![label_text_line(overflow)] + static_panic_lines(PanicMessage::OwnershipCountOverflow) + seq![
        label_text_line(invalid),
        line_text(Instruction::Trap),
        label_text_line(complete),
    ]
}

/// A shared (or optional shared) field: the source handle gains an owner
/// and is stored; an absent optional is stored as is; an overflowing count
/// reports, and a dead handle traps.
pub open spec fn shared_copy_lines(owner: ClassId, field: FieldId, offset: i32, optional: bool) -> Seq<
    Seq<char>,
> {
    let stem = copy_stem_text(owner, field, "shared_copy"@);
    let absent = stem + "_absent"@;
    let invalid = stem + "_invalid"@;
    let overflow = stem + "_overflow"@;
    let complete = stem + "_complete"@;
    shared_head_lines(offset, optional, absent) + retain_lines(invalid, overflow)
        + destination_store_lines(offset) + seq![one_operand_line("jmp"@, complete)]
        + shared_absent_lines(offset, optional, absent, complete) + shared_failure_lines(
        overflow,
        invalid,
        complete,
    )
}

fn emit_shared_head(offset: i32, optional: bool, absent: &Label, output: &mut Vec<Instruction>)
    ensures
        old(output)@.len() <= final(output)@.len(),
        final(output)@.subrange(0, old(output)@.len() as int) == old(output)@,
        forall|i: int| 0 <= i < old(output)@.len() ==> #[trigger] final(output)@[i] == old(output)@[i],
        lines(final(output)@) == lines(old(output)@) + shared_head_lines(offset, optional, absent.text@),
{
    let ghost before = lines(output@);
    load_home_address(SOURCE_HOME, offset, Register::R11, output);
    output.push(
        Instruction::Move {
            source: Operand::Memory { base: Register::R11, displacement: 0 },
            destination: Operand::Register(Register::Rax),
        },
    );
    assert(lines(output@) =~= before + lines(
        home_address(SOURCE_HOME, offset, Register::R11) + seq![load_rax_instruction(word_at_r11())],
    ));
    if optional {
        output.push(Instruction::Test(Register::Rax));
        output.push(Instruction::JumpIfEqual(absent.duplicate()));
    }
    assert(lines(output@) =~= before + shared_head_lines(offset, optional, absent.text@));
}

fn emit_shared_failures(overflow: Label, invalid: Label, complete: Label, output: &mut Vec<Instruction>)
    ensures
        old(output)@.len() <= final(output)@.len(),
        final(output)@.subrange(0, old(output)@.len() as int) == old(output)@,
        forall|i: int| 0 <= i < old(output)@.len() ==> #[trigger] final(output)@[i] == old(output)@[i],
        lines(final(output)@) == lines(old(output)@) + shared_failure_lines(
            overflow.text@,
            invalid.text@,
            complete.text@,
        ),
{
    let ghost before = lines(output@);
    let ghost texts = (overflow.text@, invalid.text@, complete.text@);
    output.push(Instruction::Label(overflow));
    emit_ownership_overflow(output);
    output.push(Instruction::Label(invalid));
    output.push(Instruction::Trap);
    output.push(Instruction::Label(complete));
    assert(lines(output@) =~= before + shared_failure_lines(texts.0, texts.1, texts.2));
}

pub fn emit_shared_copy(
    owner: ClassId,
    field: FieldId,
    offset: i32,
    optional: bool,
    output: &mut Vec<Instruction>,
)
    ensures
        old(output)@.len() <= final(output)@.len(),
        final(output)@.subrange(0, old(output)@.len() as int) == old(output)@,
        forall|i: int| 0 <= i < old(output)@.len() ==> #[trigger] final(output)@[i] == old(output)@[i],
        lines(final(output)@) == lines(old(output)@) + shared_copy_lines(owner, field, offset, optional),
{
    let ghost before = lines(output@);
    let absent = copy_label(owner, field, "shared_copy", "_absent");
    let invalid = copy_label(owner, field, "shared_copy", "_invalid");
    let overflow = copy_label(owner, field, "shared_copy", "_overflow");
    let complete = copy_label(owner, field, "shared_copy", "_complete");
    let ghost texts = (absent.text@, invalid.text@, overflow.text@, complete.text@);
    emit_shared_head(offset, optional, &absent, output);
    let ghost headed = lines(output@);
    emit_retain_loaded_handle(invalid.duplicate(), overflow.duplicate(), output);
    emit_destination_store(offset, output);
    output.push(Instruction::Jump(complete.duplicate()));
    let ghost stored = lines(output@);
    assert(stored =~= headed + retain_lines(texts.1, texts.2) + destination_store_lines(offset) + seq![
        one_operand_line("jmp"@, texts.3),
    ]);
    if optional {
        output.push(Instruction::Label(absent));
        emit_destination_store(offset, output);
        output.push(Instruction::Jump(complete.duplicate()));
    }
    let ghost finished = lines(output@);
    assert(finished =~= stored + shared_absent_lines(offset, optional, texts.0, texts.3));
    emit_shared_failures(overflow, invalid, complete, output);
    assert(lines(output@) =~= before + shared_copy_lines(owner, field, offset, optional));
}

/// An array field: the inline backing is cloned and the clone stored.
pub open spec fn array_copy_lines(array: ArrayTypeId, offset: i32) -> Seq<Seq<char>> {
    lines(
        home_address(SOURCE_HOME, offset, Register::R11) + seq![
            Instruction::Move {
                source: word_at_r11(),
                destination: Operand::Register(Register::Rdi),
            },
        ],
    ) + seq![one_operand_line("call"@, array_helper_text("clone"@, array))]
        + destination_store_lines(offset)
}

fn emit_array_copy(array: ArrayTypeId, offset: i32, output: &mut Vec<Instruction>)
    ensures
        old(output)@.len() <= final(output)@.len(),
        final(output)@.subrange(0, old(output)@.len() as int) == old(output)@,
        forall|i: int| 0 <= i < old(output)@.len() ==> #[trigger] final(output)@[i] == old(output)@[i],
        lines(final(output)@) == lines(old(output)@) + array_copy_lines(array, offset),
{
    let ghost before = lines(output@);
    load_home_address(SOURCE_HOME, offset, Register::R11, output);
    output.push(
        Instruction::Move {
            source: Operand::Memory { base: Register::R11, displacement: 0 },
            destination: Operand::Register(Register::Rdi),
        },
    );
    assert(lines(output@) =~= before + lines(
        home_address(SOURCE_HOME, offset, Register::R11) + seq![
            Instruction::Move {
                source: word_at_r11(),
                destination: Operand::Register(Register::Rdi),
            },
        ],
    ));
    output.push(Instruction::Call(array_clone(array)));
    emit_destination_store(offset, output);
    assert(lines(output@) =~= before + array_copy_lines(array, offset));
}

/// The offset of a field in its class layout, if laid out.
pub open spec fn field_layout_offset(layout: &DataLayout, field: FieldId) -> Option<usize> {
    if field.owner.idx < layout.classes@.len() && field.idx
        < layout.classes@[field.owner.idx as int].fields@.len() {
        Some(layout.classes@[field.owner.idx as int].fields@[field.idx as int].offset)
    } else {
        None
    }
}

/// The layout of an optional holding a class, as the data layout gives it.
pub open spec fn optional_class_layout(layout: &DataLayout, class: ClassId) -> Result<
    OptionalLayout,
    Seq<char>,
> {
    if class.idx < layout.classes@.len() {
        spec_optional_layout_for(layout.classes@[class.idx as int].ty)
    } else {
        Err(class_missing_message(class))
    }
}

/// Whether a field step meets what verified programs guarantee: primitive
/// steps copy scalars, class steps copy classes, and payload offsets stay
/// addressable.
pub open spec fn field_copy_ready(
    program: &MirProgram,
    layout: &DataLayout,
    copy: MirSynthesizedFieldCopy,
) -> bool {
    match copy {
        MirSynthesizedFieldCopy::Primitive { field } => spec_field(program, field) matches Some(
            declared,
        ) ==> is_scalar(declared.ty),
        MirSynthesizedFieldCopy::Class { field, .. } => spec_field(program, field) matches Some(
            declared,
        ) ==> declared.ty is Class,
        MirSynthesizedFieldCopy::OptionalPrimitive { field, payload } => field_layout_offset(
            layout,
            field,
        ) matches Some(offset) ==> offset + spec_optional_layout(payload).payload_offset
            <= i32::MAX,
        MirSynthesizedFieldCopy::OptionalClass { field, class, .. } => field_layout_offset(
            layout,
            field,
        ) matches Some(offset) ==> (optional_class_layout(layout, class) matches Ok(optional)
            ==> offset + optional.payload_offset <= i32::MAX),
        _ => true,
    }
}

/// The lines of one field step of `owner`'s helper, or the diagnostic.
pub open spec fn field_copy_result(
    program: &MirProgram,
    layout: &DataLayout,
    owner: ClassId,
    copy: MirSynthesizedFieldCopy,
) -> Result<Seq<Seq<char>>, Seq<char>> {
    let field = copy.spec_field();
    match field_layout_offset(layout, field) {
        None => Err("field "@ + field_text(field) + " has no target layout"@),
        Some(offset) => if offset > i32::MAX {
            Err("field "@ + field_text(field) + " offset exceeds x86-64"@)
        } else {
            match spec_field(program, field) {
                None => Err("unknown synthesized field "@ + field_text(field)),
                Some(declared) => {
                    let offset = offset as i32;
                    match copy {
                        MirSynthesizedFieldCopy::Primitive { .. } => Ok(
                            lines(scalar_copy(declared.ty, offset)),
                        ),
                        MirSynthesizedFieldCopy::OptionalPrimitive { payload, .. } => {
                            let payload_offset = spec_optional_layout(payload).payload_offset;
                            if payload_offset > i32::MAX {
                                Err("optional payload offset exceeds x86-64"@)
                            } else {
                                Ok(
                                    optional_copy_lines(
                                        owner,
                                        field,
                                        offset,
                                        payload_offset as i32,
                                        payload.spec_payload_type(),
                                    ),
                                )
                            }
                        },
                        MirSynthesizedFieldCopy::Class { .. } => Ok(
                            helper_call_lines(declared.ty->Class_0, offset, offset),
                        ),
                        MirSynthesizedFieldCopy::OptionalClass { class, .. } => match optional_class_layout(
                            layout,
                            class,
                        ) {
                            Err(message) => Err(message),
                            Ok(optional) => if optional.payload_offset > i32::MAX {
                                Err("optional class payload offset exceeds x86-64"@)
                            } else {
                                Ok(
                                    optional_class_copy_lines(
                                        owner,
                                        field,
                                        class,
                                        offset,
                                        optional.payload_offset as i32,
                                    ),
                                )
                            },
                        },
                        MirSynthesizedFieldCopy::Array { array, .. } => Ok(
                            array_copy_lines(array, offset),
                        ),
                        MirSynthesizedFieldCopy::Shared { .. } => Ok(
                            shared_copy_lines(owner, field, offset, false),
                        ),
                        MirSynthesizedFieldCopy::OptionalShared { .. } => Ok(
                            shared_copy_lines(owner, field, offset, true),
                        ),
                    }
                },
            }
        },
    }
}

/// Emits one field step of `owner`'s helper.
pub fn emit_field_copy(
    program: &MirProgram,
    data_layout: &DataLayout,
    owner: ClassId,
    copy: MirSynthesizedFieldCopy,
    output: &mut Vec<Instruction>,
) -> (r: Result<(), BackendError>)
    requires
        data_layout_wf(data_layout),
        field_copy_ready(program, data_layout, copy),
    ensures
        old(output)@.len() <= final(output)@.len(),
        final(output)@.subrange(0, old(output)@.len() as int) == old(output)@,
        forall|i: int| 0 <= i < old(output)@.len() ==> #[trigger] final(output)@[i] == old(output)@[i],
        match field_copy_result(program, data_layout, owner, copy) {
            Ok(copied) => r is Ok && lines(final(output)@) == lines(old(output)@) + copied,
            Err(message) => r matches Err(error) && error_is(error, None, message),
        },
{
    let field = copy.field();
    let offset = match field_offset(data_layout, field) {
        Ok(offset) => offset,
        Err(error) => return Err(error),
    };
    let declared = match program.field(field) {
        Some(declared) => declared,
        None => {
            let mut message = String::from_str("unknown synthesized field ");
            let owner_digits = decimal(field.owner.idx as u64);
            message.append(owner_digits.as_str());
            message.append(".");
            let digits = decimal(field.idx as u64);
            message.append(digits.as_str());
            assert(message@ =~= "unknown synthesized field "@ + field_text(field));
            return Err(lifecycle_error(message));
        },
    };
    let ghost before = output@;
    match copy {
        MirSynthesizedFieldCopy::Primitive { .. } => {
            emit_scalar_copy(declared.ty, offset, output);
            assert(lines(output@) =~= lines(before) + lines(scalar_copy(declared.ty, offset)));
        },
        MirSynthesizedFieldCopy::OptionalPrimitive { payload, .. } => {
            let layout = match data_layout.optional(payload) {
                Ok(layout) => layout,
                Err(error) => return Err(error),
            };
            if layout.payload_offset() > 0x7fff_ffffusize {
                return Err(lifecycle_error(String::from_str("optional payload offset exceeds x86-64")));
            }
            proof {
                crate::layout::lemma_optional_layout(payload);
            }
            emit_optional_copy(
                owner,
                field,
                offset,
                layout.payload_offset() as i32,
                payload.payload_type(),
                output,
            );
        },
        MirSynthesizedFieldCopy::Class { .. } => {
            let class = match declared.ty {
                MirType::Class(class) => class,
                _ => ClassId::new(0),
            };
            emit_helper_call_at(class, offset, offset, output);
        },
        MirSynthesizedFieldCopy::OptionalClass { class, .. } => {
            let layout = match data_layout.optional_class(class) {
                Ok(layout) => layout,
                Err(error) => return Err(error),
            };
            if layout.payload_offset() > 0x7fff_ffffusize {
                return Err(
                    lifecycle_error(String::from_str("optional class payload offset exceeds x86-64")),
                );
            }
            emit_optional_class_copy(owner, field, class, offset, layout.payload_offset() as i32, output);
        },
        MirSynthesizedFieldCopy::Array { array, .. } => {
            emit_array_copy(array, offset, output);
        },
        MirSynthesizedFieldCopy::Shared { .. } => {
            emit_shared_copy(owner, field, offset, false, output);
        },
        MirSynthesizedFieldCopy::OptionalShared { .. } => {
            emit_shared_copy(owner, field, offset, true, output);
        },
    }
    Ok(())
}

/// The frame of a copy helper, with the destination and source addresses
/// kept in their homes.
pub open spec fn copy_prologue() -> Seq<Instruction> {
    seq![
        Instruction::Push(Register::Rbp),
        Instruction::Move {
            source: Operand::Register(Register::Rsp),
            destination: Operand::Register(Register::Rbp),
        },
        Instruction::ReserveStack(COPY_FRAME_SIZE),
        Instruction::Move {
            source: Operand::Register(Register::Rdi),
            destination: spec_memory(Register::Rbp, DESTINATION_HOME),
        },
        Instruction::Move {
            source: Operand::Register(Register::Rsi),
            destination: spec_memory(Register::Rbp, SOURCE_HOME),
        },
    ]
}

/// The call of the direct base's helper on the base subobjects, or the
/// diagnostic when the layout has no such base at an addressable offset.
pub open spec fn base_call_result(layout: &DataLayout, owner: ClassId, base: ClassId) -> Result<
    Seq<Seq<char>>,
    Seq<char>,
> {
    if owner.idx < layout.classes@.len() && layout.classes@[owner.idx as int].base is Some
        && layout.classes@[owner.idx as int].base.unwrap().class == base {
        let physical = layout.classes@[owner.idx as int].base.unwrap();
        if physical.offset <= i32::MAX {
            Ok(helper_call_lines(base, physical.offset as i32, physical.offset as i32))
        } else {
            Err("base copy offset exceeds x86-64"@)
        }
    } else {
        Err("class "@ + class_text(owner) + " has no direct base "@ + class_text(base))
    }
}

pub fn emit_class_helper_call(
    data_layout: &DataLayout,
    owner: ClassId,
    class: ClassId,
    output: &mut Vec<Instruction>,
) -> (r: Result<(), BackendError>)
    ensures
        old(output)@.len() <= final(output)@.len(),
        final(output)@.subrange(0, old(output)@.len() as int) == old(output)@,
        forall|i: int| 0 <= i < old(output)@.len() ==> #[trigger] final(output)@[i] == old(output)@[i],
        match base_call_result(data_layout, owner, class) {
            Ok(called) => r is Ok && lines(final(output)@) == lines(old(output)@) + called,
            Err(message) => r matches Err(error) && error_is(error, None, message),
        },
{
    let physical = match data_layout.class(owner) {
        Some(layout) => match layout.base() {
            Some(base) => if base.class == class {
                Some(base)
            } else {
                None
            },
            None => None,
        },
        None => None,
    };
    match physical {
        Some(base) => {
            if base.offset > 0x7fff_ffffusize {
                return Err(lifecycle_error(String::from_str("base copy offset exceeds x86-64")));
            }
            emit_helper_call_at(class, base.offset as i32, base.offset as i32, output);
            Ok(())
        },
        None => {
            let mut message = String::from_str("class ");
            let owner_digits = decimal(owner.index() as u64);
            message.append(owner_digits.as_str());
            message.append(" has no direct base ");
            let digits = decimal(class.index() as u64);
            message.append(digits.as_str());
            assert(message@ =~= "class "@ + class_text(owner) + " has no direct base "@ + class_text(
                class,
            ));
            Err(lifecycle_error(message))
        },
    }
}

/// The lines of the base copy that a class copy begins with, if any.
pub open spec fn base_copy_result(layout: &DataLayout, owner: ClassId, base: Option<MirBaseCopy>) -> Result<
    Seq<Seq<char>>,
    Seq<char>,
> {
    match base {
        None => Ok(Seq::empty()),
        Some(copy) => base_call_result(layout, owner, copy.base),
    }
}

/// The lines of the field steps in order; the first failing step's
/// diagnostic otherwise.
pub open spec fn fields_copy_result(
    program: &MirProgram,
    layout: &DataLayout,
    owner: ClassId,
    fields: Seq<MirSynthesizedFieldCopy>,
) -> Result<Seq<Seq<char>>, Seq<char>>
    decreases fields.len(),
{
    if fields.len() == 0 {
        Ok(Seq::empty())
    } else {
        match fields_copy_result(program, layout, owner, fields.drop_last()) {
            Err(message) => Err(message),
            Ok(earlier) => match field_copy_result(program, layout, owner, fields.last()) {
                Err(message) => Err(message),
                Ok(last) => Ok(earlier + last),
            },
        }
    }
}

/// A user copy constructor called with the destination and source as
/// complete objects of `class`.
pub open spec fn user_copy_lines(class: ClassId, operation: CallableId) -> Seq<Seq<char>> {
    lines(
        home_address(DESTINATION_HOME, 0, Register::Rdi) + home_address(
            DESTINATION_HOME,
            0,
            Register::Rsi,
        ),
    ) + seq![table_address_line(class, Register::Rdx)] + lines(
        home_address(SOURCE_HOME, 0, Register::Rcx) + home_address(SOURCE_HOME, 0, Register::R8),
    ) + seq![
        table_address_line(class, Register::R9),
        one_operand_line("call"@, callable_text(operation)),
    ]
}

/// Whether a class's copy meets what verified programs guarantee: a helper
/// target is copyable and its field steps are ready.
pub open spec fn class_copy_ready(program: &MirProgram, layout: &DataLayout, class: ClassId) -> bool {
    class.idx < program.classes@.len() ==> match program.classes@[class.idx as int].copy_constructor {
        MirCopyCapability::Unavailable => false,
        MirCopyCapability::User(_) => true,
        MirCopyCapability::Synthesized(copy) => forall|k: int|
            0 <= k < copy.fields@.len() ==> field_copy_ready(program, layout, #[trigger] copy.fields@[k]),
    }
}

/// The copying between the prologue and epilogue of the helper of a
/// declared class, or the diagnostic.
pub open spec fn copy_body_result(program: &MirProgram, layout: &DataLayout, class: ClassId) -> Result<
    Seq<Seq<char>>,
    Seq<char>,
> {
    match program.classes@[class.idx as int].copy_constructor {
        MirCopyCapability::User(copy) => match base_copy_result(layout, class, copy.base) {
            Err(message) => Err(message),
            Ok(base) => Ok(base + user_copy_lines(class, copy.operation)),
        },
        MirCopyCapability::Synthesized(copy) => match base_copy_result(layout, class, copy.base) {
            Err(message) => Err(message),
            Ok(base) => match fields_copy_result(program, layout, class, copy.fields@) {
                Err(message) => Err(message),
                Ok(fields) => Ok(base + fields),
            },
        },
        MirCopyCapability::Unavailable => Ok(Seq::empty()),
    }
}

/// The body of the copy helper of `class`, or the diagnostic.
pub open spec fn class_copy_result(program: &MirProgram, layout: &DataLayout, class: ClassId) -> Result<
    Seq<Seq<char>>,
    Seq<char>,
> {
    if class.idx >= program.classes@.len() {
        Err("unknown class copy helper target "@ + class_text(class))
    } else {
        match copy_body_result(program, layout, class) {
            Err(message) => Err(message),
            Ok(body) => Ok(
                lines(copy_prologue()) + body + lines(seq![Instruction::Leave, Instruction::Return]),
            ),
        }
    }
}

fn emit_copy_body(
    program: &MirProgram,
    data_layout: &DataLayout,
    class: ClassId,
    output: &mut Vec<Instruction>,
) -> (r: Result<(), BackendError>)
    requires
        data_layout_wf(data_layout),
        class.idx < program.classes@.len(),
        class_copy_ready(program, data_layout, class),
    ensures
        old(output)@.len() <= final(output)@.len(),
        final(output)@.subrange(0, old(output)@.len() as int) == old(output)@,
        forall|i: int| 0 <= i < old(output)@.len() ==> #[trigger] final(output)@[i] == old(output)@[i],
        match copy_body_result(program, data_layout, class) {
            Ok(body) => r is Ok && lines(final(output)@) == lines(old(output)@) + body,
            Err(message) => r matches Err(error) && error_is(error, None, message),
        },
{
    let ghost before = lines(output@);
    match &program.classes[class.index()].copy_constructor {
        MirCopyCapability::User(copy) => {
            match emit_base_copy(data_layout, class, copy.base, output) {
                Ok(()) => {},
                Err(error) => return Err(error),
            }
            emit_user_copy(class, copy.operation, output);
        },
        MirCopyCapability::Synthesized(copy) => {
            match emit_base_copy(data_layout, class, copy.base, output) {
                Ok(()) => {},
                Err(error) => return Err(error),
            }
            match emit_fields_copy(program, data_layout, class, &copy.fields, output) {
                Ok(()) => {},
                Err(error) => return Err(error),
            }
        },
        MirCopyCapability::Unavailable => {
            assert(lines(output@) =~= before + Seq::<Seq<char>>::empty());
        },
    }
    Ok(())
}

fn emit_user_copy(class: ClassId, operation: CallableId, output: &mut Vec<Instruction>)
    ensures
        old(output)@.len() <= final(output)@.len(),
        final(output)@.subrange(0, old(output)@.len() as int) == old(output)@,
        forall|i: int| 0 <= i < old(output)@.len() ==> #[trigger] final(output)@[i] == old(output)@[i],
        lines(final(output)@) == lines(old(output)@) + user_copy_lines(class, operation),
{
    let ghost before = output@;
    load_home_address(DESTINATION_HOME, 0, Register::Rdi, output);
    load_home_address(DESTINATION_HOME, 0, Register::Rsi, output);
    assert(lines(output@) =~= lines(before) + lines(
        home_address(DESTINATION_HOME, 0, Register::Rdi) + home_address(
            DESTINATION_HOME,
            0,
            Register::Rsi,
        ),
    ));
    output.push(Instruction::LoadSymbolAddress { symbol: dispatch_table(class), destination: Register::Rdx });
    let ghost tabled = output@;
    load_home_address(SOURCE_HOME, 0, Register::Rcx, output);
    load_home_address(SOURCE_HOME, 0, Register::R8, output);
    assert(lines(output@) =~= lines(tabled) + lines(
        home_address(SOURCE_HOME, 0, Register::Rcx) + home_address(SOURCE_HOME, 0, Register::R8),
    ));
    output.push(Instruction::LoadSymbolAddress { symbol: dispatch_table(class), destination: Register::R9 });
    output.push(Instruction::Call(callable(operation)));
    assert(lines(output@) =~= lines(before) + user_copy_lines(class, operation));
}

fn emit_base_copy(
    data_layout: &DataLayout,
    owner: ClassId,
    base: Option<MirBaseCopy>,
    output: &mut Vec<Instruction>,
) -> (r: Result<(), BackendError>)
    ensures
        old(output)@.len() <= final(output)@.len(),
        final(output)@.subrange(0, old(output)@.len() as int) == old(output)@,
        forall|i: int| 0 <= i < old(output)@.len() ==> #[trigger] final(output)@[i] == old(output)@[i],
        match base_copy_result(data_layout, owner, base) {
            Ok(copied) => r is Ok && lines(final(output)@) == lines(old(output)@) + copied,
            Err(message) => r matches Err(error) && error_is(error, None, message),
        },
{
    match base {
        Some(copy) => emit_class_helper_call(data_layout, owner, copy.base, output),
        None => {
            assert(lines(output@) =~= lines(output@) + Seq::<Seq<char>>::empty());
            Ok(())
        },
    }
}

fn emit_fields_copy(
    program: &MirProgram,
    data_layout: &DataLayout,
    owner: ClassId,
    fields: &Vec<MirSynthesizedFieldCopy>,
    output: &mut Vec<Instruction>,
) -> (r: Result<(), BackendError>)
    requires
        data_layout_wf(data_layout),
        forall|k: int| 0 <= k < fields@.len() ==> field_copy_ready(program, data_layout, #[trigger] fields@[k]),
    ensures
        old(output)@.len() <= final(output)@.len(),
        final(output)@.subrange(0, old(output)@.len() as int) == old(output)@,
        forall|i: int| 0 <= i < old(output)@.len() ==> #[trigger] final(output)@[i] == old(output)@[i],
        match fields_copy_result(program, data_layout, owner, fields@) {
            Ok(copied) => r is Ok && lines(final(output)@) == lines(old(output)@) + copied,
            Err(message) => r matches Err(error) && error_is(error, None, message),
        },
{
    let ghost before = lines(output@);
    let mut k: usize = 0;
    while k < fields.len()
        invariant
            old(output)@.len() <= output@.len(),
            forall|i: int| 0 <= i < old(output)@.len() ==> #[trigger] output@[i] == old(output)@[i],
            data_layout_wf(data_layout),
            forall|j: int| 0 <= j < fields@.len() ==> field_copy_ready(program, data_layout, #[trigger] fields@[j]),
            k <= fields@.len(),
            fields_copy_result(program, data_layout, owner, fields@.take(k as int)) matches Ok(copied)
                && lines(output@) == before + copied,
        decreases fields@.len() - k,
    {
        let ghost earlier = fields_copy_result(program, data_layout, owner, fields@.take(k as int))->Ok_0;
        assert(fields@.take(k + 1).drop_last() =~= fields@.take(k as int));
        assert(fields@.take(k + 1).last() == fields@[k as int]);
        match emit_field_copy(program, data_layout, owner, fields[k], output) {
            Ok(()) => {},
            Err(error) => {
                proof {
                    lemma_fields_error_persists(program, data_layout, owner, fields@, k as int + 1);
                }
                return Err(error);
            },
        }
        k = k + 1;
    }
    assert(fields@.take(fields@.len() as int) =~= fields@);
    Ok(())
}

/// A field step that fails makes every longer prefix fail the same way.
pub proof fn lemma_fields_error_persists(
    program: &MirProgram,
    layout: &DataLayout,
    owner: ClassId,
    fields: Seq<MirSynthesizedFieldCopy>,
    k: int,
)
    requires
        0 <= k <= fields.len(),
        fields_copy_result(program, layout, owner, fields.take(k)) is Err,
    ensures
        fields_copy_result(program, layout, owner, fields) == fields_copy_result(
            program,
            layout,
            owner,
            fields.take(k),
        ),
    decreases fields.len() - k,
{
    if k < fields.len() {
        assert(fields.take(k + 1).drop_last() =~= fields.take(k));
        lemma_fields_error_persists(program, layout, owner, fields, k + 1);
    } else {
        assert(fields.take(k) =~= fields);
    }
}

/// Generates the copy helper of `class`.
pub fn lower_class_copy(program: &MirProgram, data_layout: &DataLayout, class: ClassId) -> (r: Result<
    AssemblyFunction,
    BackendError,
>)
    requires
        data_layout_wf(data_layout),
        class_copy_ready(program, data_layout, class),
    ensures
        match class_copy_result(program, data_layout, class) {
            Ok(body) => r matches Ok(function) && function.symbol@ == class_copy_helper_text(class)
                && !function.exported && lines(function.instructions@) == body,
            Err(message) => r matches Err(error) && error_is(error, None, message),
        },
{
    let mut output: Vec<Instruction> = Vec::new();
    output.push(Instruction::Push(Register::Rbp));
    output.push(
        Instruction::Move {
            source: Operand::Register(Register::Rsp),
            destination: Operand::Register(Register::Rbp),
        },
    );
    output.push(Instruction::ReserveStack(COPY_FRAME_SIZE));
    output.push(
        Instruction::Move {
            source: Operand::Register(Register::Rdi),
            destination: Operand::Memory { base: Register::Rbp, displacement: DESTINATION_HOME },
        },
    );
    output.push(
        Instruction::Move {
            source: Operand::Register(Register::Rsi),
            destination: Operand::Memory { base: Register::Rbp, displacement: SOURCE_HOME },
        },
    );
    assert(output@ =~= copy_prologue());
    if class.index() >= program.classes.len() {
        let mut message = String::from_str("unknown class copy helper target ");
        let digits = decimal(class.index() as u64);
        message.append(digits.as_str());
        assert(message@ =~= "unknown class copy helper target "@ + class_text(class));
        return Err(lifecycle_error(message));
    }
    match emit_copy_body(program, data_layout, class, &mut output) {
        Ok(()) => {},
        Err(error) => return Err(error),
    }
    let ghost copied = output@;
    output.push(Instruction::Leave);
    output.push(Instruction::Return);
    assert(lines(output@) =~= lines(copied) + lines(seq![Instruction::Leave, Instruction::Return]));
    Ok(AssemblyFunction { symbol: class_copy_helper(class), exported: false, instructions: output })
}

/// The classes an array element copy starts from: element classes and the
/// payload classes of optional elements, in array order.
pub open spec fn copy_roots(arrays: Seq<MirArrayType>) -> Seq<ClassId>
    decreases arrays.len(),
{
    if arrays.len() == 0 {
        Seq::empty()
    } else {
        copy_roots(arrays.drop_last()) + match arrays.last().element {
            MirType::Class(class) => seq![class],
            MirType::OptionalClass(class) => seq![class],
            _ => Seq::empty(),
        }
    }
}

/// The class a copied field leads to, by its declared type.
pub open spec fn field_edge(program: &MirProgram, copy: MirSynthesizedFieldCopy) -> Seq<ClassId> {
    match spec_field(program, copy.spec_field()) {
        Some(declared) => match declared.ty {
            MirType::Class(class) => seq![class],
            MirType::OptionalClass(class) => seq![class],
            _ => Seq::empty(),
        },
        None => Seq::empty(),
    }
}

/// The classes the field steps lead to, in order.
pub open spec fn field_edges(program: &MirProgram, fields: Seq<MirSynthesizedFieldCopy>) -> Seq<ClassId>
    decreases fields.len(),
{
    if fields.len() == 0 {
        Seq::empty()
    } else {
        field_edges(program, fields.drop_last()) + field_edge(program, fields.last())
    }
}

pub open spec fn base_edge(base: Option<MirBaseCopy>) -> Seq<ClassId> {
    match base {
        Some(copy) => seq![copy.base],
        None => Seq::empty(),
    }
}

/// The classes whose helpers the helper of the class at index `i` needs:
/// its base, and the classes of its class-typed fields when synthesized.
pub open spec fn copy_edges(program: &MirProgram, i: int) -> Seq<ClassId> {
    match program.classes@[i].copy_constructor {
        MirCopyCapability::User(copy) => base_edge(copy.base),
        MirCopyCapability::Synthesized(copy) => base_edge(copy.base) + field_edges(
            program,
            copy.fields@,
        ),
        MirCopyCapability::Unavailable => Seq::empty(),
    }
}

/// The helper of `source` needs the helper of `class`.
pub open spec fn copy_step(program: &MirProgram, source: ClassId, class: ClassId) -> bool {
    source.idx < program.classes@.len() && copy_edges(program, source.idx as int).contains(class)
}

/// Reached from an array element class in at most `steps` helper calls.
pub open spec fn copy_reached_within(program: &MirProgram, class: ClassId, steps: nat) -> bool
    decreases steps,
{
    if steps == 0 {
        copy_roots(program.array_types@).contains(class)
    } else {
        copy_reached_within(program, class, (steps - 1) as nat) || exists|source: ClassId|
            #[trigger] copy_step(program, source, class) && copy_reached_within(
                program,
                source,
                (steps - 1) as nat,
            )
    }
}

/// Whether generated array copies can need the helper of `class`.
pub open spec fn copy_reachable(program: &MirProgram, class: ClassId) -> bool {
    exists|steps: nat| #[trigger] copy_reached_within(program, class, steps)
}

/// What a helper needs is needed too.
pub proof fn lemma_edges_reachable(program: &MirProgram, source: ClassId, class: ClassId)
    requires
        source.idx < program.classes@.len(),
        copy_reachable(program, source),
        copy_edges(program, source.idx as int).contains(class),
    ensures
        copy_reachable(program, class),
{
    let steps = choose|steps: nat| #[trigger] copy_reached_within(program, source, steps);
    assert(copy_step(program, source, class));
    assert(copy_reached_within(program, class, steps + 1));
}

/// A set of flags that holds every root and is closed under the edges holds
/// every reachable class.
pub proof fn lemma_closed_flags_hold_reachable(
    program: &MirProgram,
    flags: Seq<bool>,
    class: ClassId,
    steps: nat,
)
    requires
        flags.len() == program.classes@.len(),
        forall|k: int|
            0 <= k < copy_roots(program.array_types@).len() ==> (#[trigger] copy_roots(
                program.array_types@,
            )[k]).idx < flags.len() && flags[copy_roots(program.array_types@)[k].idx as int],
        forall|i: int, k: int|
            0 <= i < flags.len() && flags[i] && 0 <= k < copy_edges(program, i).len() ==> (
            #[trigger] copy_edges(program, i)[k]).idx < flags.len() && flags[copy_edges(
                program,
                i,
            )[k].idx as int],
        copy_reached_within(program, class, steps),
    ensures
        class.idx < flags.len() && flags[class.idx as int],
    decreases steps,
{
    if steps == 0 {
        let k = copy_roots(program.array_types@).index_of(class);
        assert(copy_roots(program.array_types@)[k] == class);
    } else if copy_reached_within(program, class, (steps - 1) as nat) {
        lemma_closed_flags_hold_reachable(program, flags, class, (steps - 1) as nat);
    } else {
        let source = choose|source: ClassId|
            #[trigger] copy_step(program, source, class) && copy_reached_within(
                program,
                source,
                (steps - 1) as nat,
            );
        let i = source.idx as int;
        lemma_closed_flags_hold_reachable(program, flags, source, (steps - 1) as nat);
        assert(flags[i]);
        let k = copy_edges(program, i).index_of(class);
        assert(copy_edges(program, i)[k] == class);
        assert(flags[copy_edges(program, i)[k].idx as int]);
    }
}

/// What verified programs guarantee of the classes whose helpers array
/// copies need: each is declared and copyable, and its synthesized field
/// steps name declared fields.
pub open spec fn copy_graph_ready(program: &MirProgram) -> bool {
    forall|class: ClassId|
        #[trigger] copy_reachable(program, class) ==> {
            &&& class.idx < program.classes@.len()
            &&& !(program.classes@[class.idx as int].copy_constructor is Unavailable)
            &&& program.classes@[class.idx as int].copy_constructor matches MirCopyCapability::Synthesized(
                copy,
            ) ==> forall|k: int|
                0 <= k < copy.fields@.len() ==> spec_field(
                    program,
                    (#[trigger] copy.fields@[k]).spec_field(),
                ) is Some
        }
}

fn push_copy_roots(program: &MirProgram, pending: &mut Vec<ClassId>)
    ensures
        final(pending)@ == old(pending)@ + copy_roots(program.array_types@),
{
    let ghost start = pending@;
    let mut j: usize = 0;
    while j < program.array_types.len()
        invariant
            j <= program.array_types@.len(),
            pending@ == start + copy_roots(program.array_types@.take(j as int)),
        decreases program.array_types@.len() - j,
    {
        assert(program.array_types@.take(j + 1).drop_last() =~= program.array_types@.take(j as int));
        match program.array_types[j].element {
            MirType::Class(class) => pending.push(class),
            MirType::OptionalClass(class) => pending.push(class),
            _ => {},
        }
        assert(pending@ =~= start + copy_roots(program.array_types@.take(j + 1)));
        j = j + 1;
    }
    assert(program.array_types@.take(program.array_types@.len() as int) =~= program.array_types@);
}

fn push_copy_edges(program: &MirProgram, class: ClassId, pending: &mut Vec<ClassId>)
    requires
        class.idx < program.classes@.len(),
    ensures
        final(pending)@ == old(pending)@ + copy_edges(program, class.idx as int),
{
    let ghost start = pending@;
    match &program.classes[class.index()].copy_constructor {
        MirCopyCapability::User(copy) => {
            if let Some(base) = copy.base {
                pending.push(base.base);
            }
            assert(pending@ =~= start + copy_edges(program, class.idx as int));
        },
        MirCopyCapability::Synthesized(copy) => {
            if let Some(base) = copy.base {
                pending.push(base.base);
            }
            let ghost based = pending@;
            assert(based =~= start + base_edge(copy.base));
            let mut j: usize = 0;
            while j < copy.fields.len()
                invariant
                    j <= copy.fields@.len(),
                    pending@ == based + field_edges(program, copy.fields@.take(j as int)),
                decreases copy.fields@.len() - j,
            {
                assert(copy.fields@.take(j + 1).drop_last() =~= copy.fields@.take(j as int));
                let step = copy.fields[j];
                match program.field(step.field()) {
                    Some(declared) => match declared.ty {
                        MirType::Class(target) => pending.push(target),
                        MirType::OptionalClass(target) => pending.push(target),
                        _ => {},
                    },
                    None => {},
                }
                assert(pending@ =~= based + field_edges(program, copy.fields@.take(j + 1)));
                j = j + 1;
            }
            assert(copy.fields@.take(copy.fields@.len() as int) =~= copy.fields@);
            assert(pending@ =~= start + copy_edges(program, class.idx as int));
        },
        MirCopyCapability::Unavailable => {
            assert(pending@ =~= start + copy_edges(program, class.idx as int));
        },
    }
}

/// For each class, whether generated array copies need its helper: the
/// classes reachable from array element classes through the copies their
/// helpers make.
pub fn required_class_copy_helpers(program: &MirProgram) -> (r: Vec<bool>)
    requires
        copy_graph_ready(program),
    ensures
        r@.len() == program.classes@.len(),
        forall|class: ClassId|
            class.idx < r@.len() ==> (r@[class.idx as int] <==> #[trigger] copy_reachable(
                program,
                class,
            )),
{
    let n = program.classes.len();
    let mut required: Vec<bool> = Vec::new();
    let mut i: usize = 0;
    while i < n
        invariant
            n == program.classes@.len(),
            i <= n,
            required@.len() == i,
            forall|k: int| 0 <= k < i ==> !(#[trigger] required@[k]),
        decreases n - i,
    {
        required.push(false);
        i = i + 1;
    }
    let mut pending: Vec<ClassId> = Vec::new();
    push_copy_roots(program, &mut pending);
    proof {
        assert forall|k: int| 0 <= k < pending@.len() implies copy_reachable(
            program,
            #[trigger] pending@[k],
        ) by {
            assert(copy_reached_within(program, pending@[k], 0));
        }
        assert(pending@ =~= copy_roots(program.array_types@));
    }
    while pending.len() > 0
        invariant
            copy_graph_ready(program),
            n == program.classes@.len(),
            required@.len() == n,
            forall|k: int| 0 <= k < pending@.len() ==> copy_reachable(program, #[trigger] pending@[k]),
            forall|class: ClassId|
                class.idx < n && #[trigger] required@[class.idx as int] ==> copy_reachable(
                    program,
                    class,
                ),
            forall|j: int, k: int|
                0 <= j < n && required@[j] && 0 <= k < copy_edges(program, j).len() ==> ((
                #[trigger] copy_edges(program, j)[k]).idx < n && required@[copy_edges(
                    program,
                    j,
                )[k].idx as int]) || pending@.contains(copy_edges(program, j)[k]),
            forall|k: int|
                0 <= k < copy_roots(program.array_types@).len() ==> ((#[trigger] copy_roots(
                    program.array_types@,
                )[k]).idx < n && required@[copy_roots(program.array_types@)[k].idx as int])
                    || pending@.contains(copy_roots(program.array_types@)[k]),
        decreases unmarked(required@), pending@.len(),
    {
        let ghost before = pending@;
        let class = pending.pop().unwrap();
        assert(before =~= pending@.push(class));
        assert(copy_reachable(program, before[before.len() - 1]));
        assert(class.idx < n);
        if required[class.index()] {
            assert forall|e: ClassId| #[trigger] before.contains(e) implies (e.idx < n
                && required@[e.idx as int]) || pending@.contains(e) by {
                let k = before.index_of(e);
                if k < pending@.len() {
                    assert(pending@[k] == e);
                }
            }
        } else {
            let ghost marked = required@;
            proof {
                lemma_mark_decreases(required@, class.idx as int);
            }
            required.set(class.index(), true);
            let ghost popped = pending@;
            push_copy_edges(program, class, &mut pending);
            proof {
                assert forall|k: int| 0 <= k < pending@.len() implies copy_reachable(
                    program,
                    #[trigger] pending@[k],
                ) by {
                    if k >= popped.len() {
                        assert(copy_edges(program, class.idx as int)[k - popped.len()] == pending@[k]);
                        assert(copy_edges(program, class.idx as int).contains(pending@[k]));
                        lemma_edges_reachable(program, class, pending@[k]);
                    } else {
                        assert(pending@[k] == before[k]);
                    }
                }
                assert forall|e: ClassId| #[trigger] before.contains(e) implies (e.idx < n
                    && required@[e.idx as int]) || pending@.contains(e) by {
                    let k = before.index_of(e);
                    if k < popped.len() {
                        assert(pending@[k] == e);
                    }
                }
                assert forall|k: int| 0 <= k < copy_edges(program, class.idx as int).len() implies pending@.contains(
                    #[trigger] copy_edges(program, class.idx as int)[k],
                ) by {
                    assert(pending@[popped.len() + k] == copy_edges(program, class.idx as int)[k]);
                }
            }
        }
    }
    proof {
        assert forall|class: ClassId| class.idx < required@.len() && #[trigger] copy_reachable(
            program,
            class,
        ) implies required@[class.idx as int] by {
            let steps = choose|steps: nat| #[trigger] copy_reached_within(program, class, steps);
            lemma_closed_flags_hold_reachable(program, required@, class, steps);
        }
    }
    required
}

/// What verified programs guarantee of every class a helper is needed
/// for: the copy graph is ready and each helper's field steps are ready.
pub open spec fn copy_helpers_ready(program: &MirProgram, layout: &DataLayout) -> bool {
    &&& copy_graph_ready(program)
    &&& forall|class: ClassId|
        #[trigger] copy_reachable(program, class) ==> class_copy_ready(program, layout, class)
}

/// The classes whose helpers are needed, in declaration order.
pub open spec fn needed_classes(program: &MirProgram, classes: Seq<MirClass>) -> Seq<ClassId>
    decreases classes.len(),
{
    if classes.len() == 0 {
        Seq::empty()
    } else {
        needed_classes(program, classes.drop_last()) + if copy_reachable(program, classes.last().id) {
            seq![classes.last().id]
        } else {
            Seq::empty()
        }
    }
}

/// The helper bodies of `classes` in order, or the first diagnostic.
pub open spec fn helper_bodies(program: &MirProgram, layout: &DataLayout, classes: Seq<ClassId>) -> Result<
    Seq<Seq<Seq<char>>>,
    Seq<char>,
>
    decreases classes.len(),
{
    if classes.len() == 0 {
        Ok(Seq::empty())
    } else {
        match helper_bodies(program, layout, classes.drop_last()) {
            Err(message) => Err(message),
            Ok(bodies) => match class_copy_result(program, layout, classes.last()) {
                Err(message) => Err(message),
                Ok(body) => Ok(bodies.push(body)),
            },
        }
    }
}

/// Each class has one body.
pub proof fn lemma_bodies_len(program: &MirProgram, layout: &DataLayout, classes: Seq<ClassId>)
    requires
        helper_bodies(program, layout, classes) is Ok,
    ensures
        helper_bodies(program, layout, classes)->Ok_0.len() == classes.len(),
    decreases classes.len(),
{
    if classes.len() > 0 {
        lemma_bodies_len(program, layout, classes.drop_last());
    }
}

/// A failing prefix makes the whole list fail the same way.
pub proof fn lemma_bodies_error_persists(
    program: &MirProgram,
    layout: &DataLayout,
    classes: Seq<ClassId>,
    k: int,
)
    requires
        0 <= k <= classes.len(),
        helper_bodies(program, layout, classes.take(k)) is Err,
    ensures
        helper_bodies(program, layout, classes) == helper_bodies(program, layout, classes.take(k)),
    decreases classes.len() - k,
{
    if k < classes.len() {
        assert(classes.take(k + 1).drop_last() =~= classes.take(k));
        lemma_bodies_error_persists(program, layout, classes, k + 1);
    } else {
        assert(classes.take(k) =~= classes);
    }
}

/// Generates the copy helper of every class that generated array copies
/// need, in declaration order.
#[verifier::rlimit(60)]
pub fn lower_class_copy_helpers(program: &MirProgram, data_layout: &DataLayout) -> (r: Result<
    Vec<AssemblyFunction>,
    BackendError,
>)
    requires
        data_layout_wf(data_layout),
        program_ids_dense(program),
        copy_helpers_ready(program, data_layout),
    ensures
        ({
            let needed = needed_classes(program, program.classes@);
            match helper_bodies(program, data_layout, needed) {
                Ok(bodies) => r matches Ok(functions) && functions@.len() == needed.len()
                    && forall|k: int|
                    0 <= k < needed.len() ==> {
                        &&& (#[trigger] functions@[k]).symbol@ == class_copy_helper_text(needed[k])
                        &&& !functions@[k].exported
                        &&& lines(functions@[k].instructions@) == bodies[k]
                    },
                Err(message) => r matches Err(error) && error_is(error, None, message),
            }
        }),
{
    let required = required_class_copy_helpers(program);
    let mut functions: Vec<AssemblyFunction> = Vec::new();
    let ghost mut needed: Seq<ClassId> = Seq::empty();
    let mut i: usize = 0;
    while i < program.classes.len()
        invariant
            data_layout_wf(data_layout),
            program_ids_dense(program),
            copy_helpers_ready(program, data_layout),
            required@.len() == program.classes@.len(),
            forall|class: ClassId|
                class.idx < required@.len() ==> (required@[class.idx as int] <==> #[trigger] copy_reachable(
                    program,
                    class,
                )),
            i <= program.classes@.len(),
            needed == needed_classes(program, program.classes@.take(i as int)),
            helper_bodies(program, data_layout, needed) matches Ok(bodies) && functions@.len()
                == needed.len() && forall|k: int|
                0 <= k < needed.len() ==> {
                    &&& (#[trigger] functions@[k]).symbol@ == class_copy_helper_text(needed[k])
                    &&& !functions@[k].exported
                    &&& lines(functions@[k].instructions@) == bodies[k]
                },
        decreases program.classes@.len() - i,
    {
        let ghost bodies = helper_bodies(program, data_layout, needed)->Ok_0;
        proof {
            lemma_bodies_len(program, data_layout, needed);
        }
        assert(program.classes@.take(i + 1).drop_last() =~= program.classes@.take(i as int));
        assert(program.classes@.take(i + 1).last() == program.classes@[i as int]);
        let class = program.classes[i].id;
        assert(class.idx == i);
        assert(required@[class.idx as int] == copy_reachable(program, class));
        if required[class.index()] {
            assert(copy_reachable(program, class));
            let ghost extended = needed.push(class);
            assert(needed_classes(program, program.classes@.take(i + 1)) == extended);
            assert(extended.drop_last() =~= needed);
            match lower_class_copy(program, data_layout, class) {
                Ok(function) => {
                    let ghost previous = functions@;
                    let ghost old_needed = needed;
                    functions.push(function);
                    proof {
                        needed = extended;
                    }
                    let ghost grown = bodies.push(class_copy_result(program, data_layout, class)->Ok_0);
                    assert(helper_bodies(program, data_layout, needed) == Ok::<
                        Seq<Seq<Seq<char>>>,
                        Seq<char>,
                    >(grown));
                    assert forall|k: int| 0 <= k < needed.len() implies {
                        &&& (#[trigger] functions@[k]).symbol@ == class_copy_helper_text(needed[k])
                        &&& !functions@[k].exported
                        &&& lines(functions@[k].instructions@) == grown[k]
                    } by {
                        if k < previous.len() {
                            assert(functions@[k] == previous[k]);
                            assert(needed[k] == old_needed[k]);
                            assert(grown[k] == bodies[k]);
                            assert(previous[k].symbol@ == class_copy_helper_text(old_needed[k]));
                        } else {
                            assert(needed[k] == class);
                        }
                    }
                },
                Err(error) => {
                    proof {
                        assert(helper_bodies(program, data_layout, extended) is Err);
                        lemma_needed_prefix(program, program.classes@, i as int + 1);
                        lemma_bodies_error_persists(
                            program,
                            data_layout,
                            needed_classes(program, program.classes@),
                            extended.len() as int,
                        );
                    }
                    return Err(error);
                },
            }
        } else {
            assert(needed_classes(program, program.classes@.take(i + 1)) == needed);
        }
        i = i + 1;
    }
    assert(program.classes@.take(program.classes@.len() as int) =~= program.classes@);
    Ok(functions)
}

/// The needed classes of a prefix of the classes are a prefix of the
/// needed classes.
pub proof fn lemma_needed_prefix(program: &MirProgram, classes: Seq<MirClass>, k: int)
    requires
        0 <= k <= classes.len(),
    ensures
        needed_classes(program, classes.take(k)) == needed_classes(program, classes).take(
            needed_classes(program, classes.take(k)).len() as int,
        ),
        needed_classes(program, classes.take(k)).len() <= needed_classes(program, classes).len(),
    decreases classes.len() - k,
{
    if k < classes.len() {
        lemma_needed_prefix(program, classes, k + 1);
        assert(classes.take(k + 1).drop_last() =~= classes.take(k));
        let shorter = needed_classes(program, classes.take(k));
        let longer = needed_classes(program, classes.take(k + 1));
        assert(shorter =~= longer.take(shorter.len() as int));
        assert(shorter =~= needed_classes(program, classes).take(shorter.len() as int));
    } else {
        assert(classes.take(k) =~= classes);
        assert(needed_classes(program, classes) =~= needed_classes(program, classes).take(
            needed_classes(program, classes).len() as int,
        ));
    }
}

} // verus!
