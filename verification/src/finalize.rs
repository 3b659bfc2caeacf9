//! Compiler-generated complete-object finalizers.
//!
//! A finalizer receives the complete payload address in `rdi` and keeps it
//! in its frame. It runs the verified destruction plan of the class: user
//! destructor bodies, nested inline fields and bases at their offsets,
//! releases of shared fields, and present optional fields. It knows nothing
//! about the allocation header: the last-owner release frees that after the
//! finalizer returns.

use vstd::prelude::*;

use crate::dispatch::DispatchMetadata;
use crate::emit::{binary_text, line_text, rip_relative_text};
use crate::error::{BackendError, Target, error_is};
use crate::identity::{CallableId, ClassId, FieldId};
use crate::layout::{DataLayout, class_missing_message, data_layout_wf, spec_optional_layout_for};
use crate::listing::{
    label_text_line, lemma_lines_push, lines, memory_operand, one_operand_line, register_operand,
};
use crate::machine::{AssemblyFunction, Instruction, Label, Operand, Register, register_name};
use crate::mir::{MirDestructionStep, MirProgram, MirType, spec_field};
use crate::ownership::{emit_release_loaded_handle, release_lines};
use crate::selection::field_text;
use crate::symbol::{
    callable, callable_text, complete_finalizer, complete_finalizer_text, dispatch_table,
    dispatch_table_text,
};
use crate::text::{decimal, decimal_text};

verus! {

broadcast use lemma_lines_push;

/// The frame slot that keeps the complete payload address.
pub const COMPLETE_HOME: i32 = -8;

/// The frame of a finalizer.
pub const FINALIZER_FRAME_SIZE: u32 = 16;

/// `base + offset` when the offset and the sum fit a displacement.
pub open spec fn displaced(base: i32, offset: int) -> Option<i32> {
    if 0 <= offset <= i32::MAX && i32::MIN <= base + offset <= i32::MAX {
        Some((base + offset) as i32)
    } else {
        None
    }
}

fn displace(base: i32, offset: usize) -> (r: Option<i32>)
    ensures
        r == displaced(base, offset as int),
{
    if offset > 0x7fff_ffff {
        None
    } else {
        base.checked_add(offset as i32)
    }
}

/// The lines that load the address `offset` bytes into the complete
/// payload into `destination`.
pub open spec fn complete_address_lines(offset: i32, destination: Register) -> Seq<Seq<char>> {
    seq![
        line_text(
            Instruction::Move {
                source: memory_operand(Register::Rbp, COMPLETE_HOME),
                destination: register_operand(destination),
            },
        ),
    ] + if offset != 0 {
        seq![
            line_text(
                Instruction::LoadEffectiveAddress {
                    source: memory_operand(destination, offset),
                    destination,
                },
            ),
        ]
    } else {
        Seq::empty()
    }
}

fn load_complete_address(offset: i32, destination: Register, output: &mut Vec<Instruction>)
    ensures
        old(output)@.len() <= final(output)@.len(),
        final(output)@.subrange(0, old(output)@.len() as int) == old(output)@,
        forall|i: int| 0 <= i < old(output)@.len() ==> #[trigger] final(output)@[i] == old(output)@[i],
        lines(final(output)@) == lines(old(output)@) + complete_address_lines(offset, destination),
{
    let ghost before = lines(output@);
    output.push(
        Instruction::Move {
            source: Operand::Memory { base: Register::Rbp, displacement: COMPLETE_HOME },
            destination: Operand::Register(destination),
        },
    );
    if offset != 0 {
        output.push(
            Instruction::LoadEffectiveAddress {
                source: Operand::Memory { base: destination, displacement: offset },
                destination,
            },
        );
    }
    assert(lines(output@) =~= before + complete_address_lines(offset, destination));
}

/// `mov rax, qword ptr [r11]`: the word at the loaded field address.
pub open spec fn load_field_word_line() -> Seq<char> {
    line_text(
        Instruction::Move {
            source: memory_operand(Register::R11, 0),
            destination: register_operand(Register::Rax),
        },
    )
}

/// The stem of the labels that release a shared field of `complete`.
pub open spec fn release_stem_text(complete: ClassId, field: FieldId) -> Seq<char> {
    ".Lska_class_"@ + decimal_text(complete.idx as nat) + "_field_"@ + decimal_text(
        field.owner.idx as nat,
    ) + "_"@ + decimal_text(field.idx as nat) + "_release"@
}

/// The labels of one field release, numbered by the instruction count.
pub open spec fn release_label_text(
    complete: ClassId,
    field: FieldId,
    role: Seq<char>,
    index: nat,
) -> Seq<char> {
    release_stem_text(complete, field) + role + decimal_text(index)
}

/// The lines that release the shared handle loaded in `rax`, with labels
/// numbered `index`, followed by the completion label.
pub open spec fn field_release_lines(
    complete: ClassId,
    field: FieldId,
    index: nat,
    displacement: i32,
) -> Seq<Seq<char>> {
    release_lines(
        release_label_text(complete, field, "_invalid_"@, index),
        release_label_text(complete, field, "_last_"@, index),
        release_label_text(complete, field, "_complete_"@, index),
        displacement,
    ) + seq![label_text_line(release_label_text(complete, field, "_complete_"@, index))]
}

/// The label after an optional field's cleanup.
pub open spec fn finished_label_text(
    prefix: Seq<char>,
    complete: ClassId,
    field: FieldId,
    index: nat,
) -> Seq<char> {
    prefix + decimal_text(complete.idx as nat) + "_"@ + decimal_text(field.idx as nat) + "_"@
        + decimal_text(index)
}

/// The lines that test the state word of an optional field and skip to
/// `finished` when it is absent.
pub open spec fn presence_lines(address: i32, finished: Seq<char>) -> Seq<Seq<char>> {
    complete_address_lines(address, Register::R11) + seq![
        load_field_word_line(),
        line_text(Instruction::Test(Register::Rax)),
        one_operand_line("je"@, finished),
    ]
}

pub open spec fn class_text(class: ClassId) -> Seq<char> {
    decimal_text(class.idx as nat)
}

pub open spec fn unknown_field_message(field: FieldId) -> Seq<char> {
    "unknown finalizer field "@ + field_text(field)
}

pub open spec fn field_kind_message(class: ClassId, kind: Seq<char>, field: FieldId) -> Seq<char> {
    "finalizer for "@ + class_text(class) + " contains "@ + kind + " field "@ + field_text(field)
}

pub open spec fn field_layout_message(field: FieldId) -> Seq<char> {
    "field "@ + field_text(field) + " has no target layout"@
}

/// The offset of a field in its class layout, if laid out.
pub open spec fn laid_out_offset(layout: &DataLayout, field: FieldId) -> Option<usize> {
    if field.owner.idx < layout.classes@.len() && field.idx
        < layout.classes@[field.owner.idx as int].fields@.len() {
        Some(layout.classes@[field.owner.idx as int].fields@[field.idx as int].offset)
    } else {
        None
    }
}

/// The address of a field of `kind`, `offset` bytes into the complete
/// payload: its declaration must have a type that `accepts`.
pub open spec fn field_address(
    program: &MirProgram,
    layout: &DataLayout,
    class: ClassId,
    offset: i32,
    field: FieldId,
    kind: Seq<char>,
    accepts: bool,
    overflow: Seq<char>,
) -> Result<i32, Seq<char>> {
    match spec_field(program, field) {
        None => Err(unknown_field_message(field)),
        Some(_) => if !accepts {
            Err(field_kind_message(class, kind, field))
        } else {
            match laid_out_offset(layout, field) {
                None => Err(field_layout_message(field)),
                Some(field_offset) => match displaced(offset, field_offset as int) {
                    None => Err(overflow),
                    Some(address) => Ok(address),
                },
            }
        },
    }
}

/// The type of a declared field.
pub open spec fn declared_type(program: &MirProgram, field: FieldId) -> MirType {
    spec_field(program, field).unwrap().ty
}

/// The class whose plan a step runs, when its declaration names one.
pub open spec fn nested_class(program: &MirProgram, step: MirDestructionStep) -> Option<ClassId> {
    match step {
        MirDestructionStep::Field(field) => match spec_field(program, field) {
            Some(declared) => match declared.ty {
                MirType::Class(inner) => Some(inner),
                _ => None,
            },
            None => None,
        },
        MirDestructionStep::OptionalClassField(field) => match spec_field(program, field) {
            Some(declared) => match declared.ty {
                MirType::OptionalClass(inner) => Some(inner),
                _ => None,
            },
            None => None,
        },
        MirDestructionStep::Base(base) => Some(base),
        _ => None,
    }
}

/// The plan of `class` and every plan it runs nest at most `depth` deep.
pub open spec fn plan_fits(program: &MirProgram, class: ClassId, depth: nat) -> bool
    decreases depth,
{
    depth > 0 && (class.idx < program.classes@.len() ==> forall|s: int|
        0 <= s < program.classes@[class.idx as int].destruction@.len() ==> match nested_class(
            program,
            #[trigger] program.classes@[class.idx as int].destruction@[s],
        ) {
            Some(inner) => plan_fits(program, inner, (depth - 1) as nat),
            None => true,
        })
}

/// The lines that run the plan of `class`, whose object lies `offset`
/// bytes into the complete payload of `complete`, when `at` instructions
/// precede them; or the diagnostic of the first step that cannot be
/// lowered.
pub open spec fn plan_lines(
    program: &MirProgram,
    layout: &DataLayout,
    displacement: i32,
    complete: ClassId,
    class: ClassId,
    offset: i32,
    at: nat,
    depth: nat,
) -> Result<Seq<Seq<char>>, Seq<char>>
    decreases depth, 0nat, 0nat,
{
    if depth == 0 {
        Err(Seq::empty())
    } else if class.idx >= program.classes@.len() {
        Err("unknown finalizer class "@ + class_text(class))
    } else {
        steps_lines(
            program,
            layout,
            displacement,
            complete,
            class,
            offset,
            program.classes@[class.idx as int].destruction@,
            at,
            (depth - 1) as nat,
        )
    }
}

/// The lines of a sequence of steps, each lowered after those before it.
pub open spec fn steps_lines(
    program: &MirProgram,
    layout: &DataLayout,
    displacement: i32,
    complete: ClassId,
    class: ClassId,
    offset: i32,
    steps: Seq<MirDestructionStep>,
    at: nat,
    depth: nat,
) -> Result<Seq<Seq<char>>, Seq<char>>
    decreases depth, 3nat, steps.len(),
{
    if steps.len() == 0 {
        Ok(Seq::empty())
    } else {
        match steps_lines(
            program,
            layout,
            displacement,
            complete,
            class,
            offset,
            steps.drop_last(),
            at,
            depth,
        ) {
            Err(message) => Err(message),
            Ok(before) => match step_lines(
                program,
                layout,
                displacement,
                complete,
                class,
                offset,
                steps.last(),
                at + before.len(),
                depth,
            ) {
                Err(message) => Err(message),
                Ok(step) => Ok(before + step),
            },
        }
    }
}

/// The lines of one step of the plan of `class`.
pub open spec fn step_lines(
    program: &MirProgram,
    layout: &DataLayout,
    displacement: i32,
    complete: ClassId,
    class: ClassId,
    offset: i32,
    step: MirDestructionStep,
    at: nat,
    depth: nat,
) -> Result<Seq<Seq<char>>, Seq<char>>
    decreases depth, 2nat, 0nat,
{
    match step {
        MirDestructionStep::UserBody(destructor) => Ok(user_body_lines(class, offset, destructor)),
        MirDestructionStep::Field(field) => field_step_lines(
            program,
            layout,
            displacement,
            complete,
            class,
            offset,
            field,
            at,
            depth,
        ),
        MirDestructionStep::SharedField(field) => shared_field_lines(
            program,
            layout,
            displacement,
            complete,
            class,
            offset,
            field,
            at,
        ),
        MirDestructionStep::OptionalSharedField(field) => optional_shared_field_lines(
            program,
            layout,
            displacement,
            complete,
            class,
            offset,
            field,
            at,
        ),
        MirDestructionStep::OptionalClassField(field) => optional_class_field_lines(
            program,
            layout,
            displacement,
            complete,
            class,
            offset,
            field,
            at,
            depth,
        ),
        MirDestructionStep::Base(base) => base_step_lines(
            program,
            layout,
            displacement,
            complete,
            class,
            offset,
            base,
            at,
            depth,
        ),
    }
}

/// A user destructor body: called with the object's address as receiver
/// and complete object, and the dispatch table of `class`.
pub open spec fn user_body_lines(class: ClassId, offset: i32, destructor: ClassId) -> Seq<
    Seq<char>,
> {
    complete_address_lines(offset, Register::Rdi) + complete_address_lines(offset, Register::Rsi)
        + seq![
        "    "@ + binary_text(
            "lea"@,
            register_name(Register::Rdx),
            rip_relative_text(dispatch_table_text(class)),
        ) + "\n"@,
        one_operand_line("call"@, callable_text(CallableId::Destructor(destructor))),
    ]
}

/// An inline class field: the plan of its class at the field's address.
pub open spec fn field_step_lines(
    program: &MirProgram,
    layout: &DataLayout,
    displacement: i32,
    complete: ClassId,
    class: ClassId,
    offset: i32,
    field: FieldId,
    at: nat,
    depth: nat,
) -> Result<Seq<Seq<char>>, Seq<char>>
    decreases depth, 1nat, 0nat,
{
    match field_address(
        program,
        layout,
        class,
        offset,
        field,
        "non-inline"@,
        declared_type(program, field) is Class,
        "finalizer field address exceeds target limits"@,
    ) {
        Err(message) => Err(message),
        Ok(address) => plan_lines(
            program,
            layout,
            displacement,
            complete,
            declared_type(program, field)->Class_0,
            address,
            at,
            depth,
        ),
    }
}

/// A shared field: its handle released.
pub open spec fn shared_field_lines(
    program: &MirProgram,
    layout: &DataLayout,
    displacement: i32,
    complete: ClassId,
    class: ClassId,
    offset: i32,
    field: FieldId,
    at: nat,
) -> Result<Seq<Seq<char>>, Seq<char>> {
    match field_address(
        program,
        layout,
        class,
        offset,
        field,
        "non-shared"@,
        declared_type(program, field) is Shared,
        "finalizer shared-field address exceeds target limits"@,
    ) {
        Err(message) => Err(message),
        Ok(address) => {
            let load = complete_address_lines(address, Register::R11) + seq![
                load_field_word_line(),
            ];
            Ok(load + field_release_lines(complete, field, at + load.len(), displacement))
        },
    }
}

/// An optional shared field: its handle released when present.
pub open spec fn optional_shared_field_lines(
    program: &MirProgram,
    layout: &DataLayout,
    displacement: i32,
    complete: ClassId,
    class: ClassId,
    offset: i32,
    field: FieldId,
    at: nat,
) -> Result<Seq<Seq<char>>, Seq<char>> {
    match field_address(
        program,
        layout,
        class,
        offset,
        field,
        "non-optional-shared"@,
        declared_type(program, field) is OptionalShared,
        "finalizer optional-shared-field address exceeds target limits"@,
    ) {
        Err(message) => Err(message),
        Ok(address) => {
            let finished = finished_label_text("finalize_optional_shared_"@, complete, field, at);
            let test = presence_lines(address, finished);
            Ok(
                test + field_release_lines(complete, field, at + test.len(), displacement)
                    + seq![label_text_line(finished)],
            )
        },
    }
}

/// The optional layout whose payload is an inline object of `class`.
pub open spec fn optional_class_layout(layout: &DataLayout, class: ClassId) -> Result<
    crate::layout::OptionalLayout,
    Seq<char>,
> {
    if class.idx < layout.classes@.len() {
        spec_optional_layout_for(layout.classes@[class.idx as int].ty)
    } else {
        Err(class_missing_message(class))
    }
}

/// An optional class field: the plan of its class at the payload, when
/// present.
pub open spec fn optional_class_field_lines(
    program: &MirProgram,
    layout: &DataLayout,
    displacement: i32,
    complete: ClassId,
    class: ClassId,
    offset: i32,
    field: FieldId,
    at: nat,
    depth: nat,
) -> Result<Seq<Seq<char>>, Seq<char>>
    decreases depth, 1nat, 0nat,
{
    match field_address(
        program,
        layout,
        class,
        offset,
        field,
        "non-optional-class"@,
        declared_type(program, field) is OptionalClass,
        "finalizer optional-field address exceeds target limits"@,
    ) {
        Err(message) => Err(message),
        Ok(address) => {
            let inner = declared_type(program, field)->OptionalClass_0;
            let finished = finished_label_text("finalize_optional_"@, complete, field, at);
            let test = presence_lines(address, finished);
            match optional_class_layout(layout, inner) {
                Err(message) => Err(message),
                Ok(optional_layout) => if optional_layout.payload_offset > i32::MAX {
                    Err("optional payload offset exceeds target limits"@)
                } else {
                    match displaced(address, optional_layout.payload_offset as int) {
                        None => Err("finalizer optional payload exceeds target limits"@),
                        Some(payload) => match plan_lines(
                            program,
                            layout,
                            displacement,
                            complete,
                            inner,
                            payload,
                            at + test.len(),
                            depth,
                        ) {
                            Err(message) => Err(message),
                            Ok(nested) => Ok(test + nested + seq![label_text_line(finished)]),
                        },
                    }
                },
            }
        },
    }
}

pub open spec fn no_direct_base_message(class: ClassId, base: ClassId) -> Seq<char> {
    "class "@ + class_text(class) + " has no direct base "@ + class_text(base)
}

/// The direct base subobject: the plan of the base at its offset.
pub open spec fn base_step_lines(
    program: &MirProgram,
    layout: &DataLayout,
    displacement: i32,
    complete: ClassId,
    class: ClassId,
    offset: i32,
    base: ClassId,
    at: nat,
    depth: nat,
) -> Result<Seq<Seq<char>>, Seq<char>>
    decreases depth, 1nat, 0nat,
{
    let direct = if class.idx < layout.classes@.len() {
        layout.classes@[class.idx as int].base
    } else {
        None
    };
    match direct {
        Some(base_layout) => if base_layout.class == base {
            match displaced(offset, base_layout.offset as int) {
                None => Err("finalizer base address exceeds target limits"@),
                Some(address) => plan_lines(
                    program,
                    layout,
                    displacement,
                    complete,
                    base,
                    address,
                    at,
                    depth,
                ),
            }
        } else {
            Err(no_direct_base_message(class, base))
        },
        None => Err(no_direct_base_message(class, base)),
    }
}

fn finalizer_error(message: String) -> (r: BackendError)
    ensures
        error_is(r, None, message@),
{
    BackendError::new(Target::X86_64SysV, None, message)
}

fn class_string(class: ClassId) -> (r: String)
    ensures
        r@ == class_text(class),
{
    decimal(class.index() as u64)
}

fn field_string(field: FieldId) -> (r: String)
    ensures
        r@ == field_text(field),
{
    let mut text = decimal(field.class().index() as u64);
    text.append(".");
    let index = decimal(field.index() as u64);
    text.append(index.as_str());
    text
}

fn unknown_field_error(field: FieldId) -> (r: BackendError)
    ensures
        error_is(r, None, unknown_field_message(field)),
{
    let mut text = String::from_str("unknown finalizer field ");
    let name = field_string(field);
    text.append(name.as_str());
    finalizer_error(text)
}

fn field_kind_error(class: ClassId, kind: &str, field: FieldId) -> (r: BackendError)
    ensures
        error_is(r, None, field_kind_message(class, kind@, field)),
{
    let mut text = String::from_str("finalizer for ");
    let name = class_string(class);
    text.append(name.as_str());
    text.append(" contains ");
    text.append(kind);
    text.append(" field ");
    let field_name = field_string(field);
    text.append(field_name.as_str());
    finalizer_error(text)
}

fn field_layout_error(field: FieldId) -> (r: BackendError)
    ensures
        error_is(r, None, field_layout_message(field)),
{
    let mut text = String::from_str("field ");
    let name = field_string(field);
    text.append(name.as_str());
    text.append(" has no target layout");
    finalizer_error(text)
}

/// The address of a field, or its diagnostic; `accepted` tells whether the
/// declared type is of the step's kind.
fn locate_field(
    program: &MirProgram,
    layout: &DataLayout,
    class: ClassId,
    offset: i32,
    field: FieldId,
    kind: &str,
    accepted: bool,
    overflow: &str,
) -> (r: Result<i32, BackendError>)
    ensures
        match field_address(program, layout, class, offset, field, kind@, accepted, overflow@) {
            Ok(address) => r == Ok::<i32, BackendError>(address),
            Err(message) => r matches Err(error) && error_is(error, None, message),
        },
{
    if program.field(field).is_none() {
        return Err(unknown_field_error(field));
    }
    if !accepted {
        return Err(field_kind_error(class, kind, field));
    }
    match layout.field(field) {
        None => Err(field_layout_error(field)),
        Some(field_layout) => match displace(offset, field_layout.offset) {
            None => Err(finalizer_error(String::from_str(overflow))),
            Some(address) => Ok(address),
        },
    }
}

/// A label `prefix` + text + `suffix` + index.
fn indexed_label(text: &String, suffix: &str, index: usize) -> (r: Label)
    ensures
        r.text@ == text@ + suffix@ + decimal_text(index as nat),
{
    let mut label = String::from_str(text.as_str());
    label.append(suffix);
    let digits = decimal(index as u64);
    label.append(digits.as_str());
    Label::new(label)
}

fn release_stem(complete: ClassId, field: FieldId) -> (r: String)
    ensures
        r@ == release_stem_text(complete, field),
{
    let mut text = String::from_str(".Lska_class_");
    let complete_name = decimal(complete.index() as u64);
    text.append(complete_name.as_str());
    text.append("_field_");
    let owner = decimal(field.class().index() as u64);
    text.append(owner.as_str());
    text.append("_");
    let index = decimal(field.index() as u64);
    text.append(index.as_str());
    text.append("_release");
    text
}

/// Releases the shared handle loaded in `rax` and places the completion
/// label.
fn release_field_handle(
    complete: ClassId,
    field: FieldId,
    displacement: i32,
    output: &mut Vec<Instruction>,
)
    ensures
        old(output)@.len() <= final(output)@.len(),
        final(output)@.subrange(0, old(output)@.len() as int) == old(output)@,
        forall|i: int| 0 <= i < old(output)@.len() ==> #[trigger] final(output)@[i] == old(output)@[i],
        lines(final(output)@) == lines(old(output)@) + field_release_lines(
            complete,
            field,
            old(output)@.len(),
            displacement,
        ),
{
    let ghost before = lines(output@);
    let index = output.len();
    let stem = release_stem(complete, field);
    let failure = indexed_label(&stem, "_invalid_", index);
    let last = indexed_label(&stem, "_last_", index);
    let completed = indexed_label(&stem, "_complete_", index);
    emit_release_loaded_handle(failure, last, completed.duplicate(), displacement, output);
    output.push(Instruction::Label(completed));
    assert(lines(output@) =~= before + field_release_lines(
        complete,
        field,
        index as nat,
        displacement,
    ));
}

fn finished_label(prefix: &str, complete: ClassId, field: FieldId, index: usize) -> (r: Label)
    ensures
        r.text@ == finished_label_text(prefix@, complete, field, index as nat),
{
    let mut text = String::from_str(prefix);
    let complete_name = decimal(complete.index() as u64);
    text.append(complete_name.as_str());
    text.append("_");
    let field_index = decimal(field.index() as u64);
    text.append(field_index.as_str());
    text.append("_");
    let digits = decimal(index as u64);
    text.append(digits.as_str());
    Label::new(text)
}

/// Tests the state word of the optional field at `address` and skips to
/// `finished` when it is absent.
fn test_presence(address: i32, finished: &Label, output: &mut Vec<Instruction>)
    ensures
        old(output)@.len() <= final(output)@.len(),
        final(output)@.subrange(0, old(output)@.len() as int) == old(output)@,
        forall|i: int| 0 <= i < old(output)@.len() ==> #[trigger] final(output)@[i] == old(output)@[i],
        lines(final(output)@) == lines(old(output)@) + presence_lines(address, finished.text@),
{
    let ghost before = lines(output@);
    load_complete_address(address, Register::R11, output);
    output.push(
        Instruction::Move {
            source: Operand::Memory { base: Register::R11, displacement: 0 },
            destination: Operand::Register(Register::Rax),
        },
    );
    output.push(Instruction::Test(Register::Rax));
    output.push(Instruction::JumpIfEqual(finished.duplicate()));
    assert(lines(output@) =~= before + presence_lines(address, finished.text@));
}

fn select_user_body(
    class: ClassId,
    offset: i32,
    destructor: ClassId,
    output: &mut Vec<Instruction>,
)
    ensures
        old(output)@.len() <= final(output)@.len(),
        final(output)@.subrange(0, old(output)@.len() as int) == old(output)@,
        forall|i: int| 0 <= i < old(output)@.len() ==> #[trigger] final(output)@[i] == old(output)@[i],
        lines(final(output)@) == lines(old(output)@) + user_body_lines(class, offset, destructor),
{
    let ghost before = lines(output@);
    load_complete_address(offset, Register::Rdi, output);
    load_complete_address(offset, Register::Rsi, output);
    output.push(
        Instruction::LoadSymbolAddress { symbol: dispatch_table(class), destination: Register::Rdx },
    );
    output.push(Instruction::Call(callable(CallableId::Destructor(destructor))));
    assert(lines(output@) =~= before + user_body_lines(class, offset, destructor));
}

fn select_field_step(
    program: &MirProgram,
    data_layout: &DataLayout,
    displacement: i32,
    complete: ClassId,
    class: ClassId,
    offset: i32,
    field: FieldId,
    output: &mut Vec<Instruction>,
    Ghost(depth): Ghost<nat>,
) -> (r: Result<(), BackendError>)
    requires
        data_layout_wf(data_layout),
        nested_class(program, MirDestructionStep::Field(field)) matches Some(inner) ==> plan_fits(
            program,
            inner,
            depth,
        ),
    ensures
        old(output)@.len() <= final(output)@.len(),
        final(output)@.subrange(0, old(output)@.len() as int) == old(output)@,
        forall|i: int| 0 <= i < old(output)@.len() ==> #[trigger] final(output)@[i] == old(output)@[i],
        match field_step_lines(
            program,
            data_layout,
            displacement,
            complete,
            class,
            offset,
            field,
            old(output)@.len(),
            depth,
        ) {
            Ok(expected) => r is Ok && lines(final(output)@) == lines(old(output)@) + expected,
            Err(message) => r matches Err(error) && error_is(error, None, message),
        },
    decreases depth, 1nat,
{
    let accepted = match program.field(field) {
        Some(declared) => matches!(declared.ty, MirType::Class(_)),
        None => false,
    };
    let address = match locate_field(
        program,
        data_layout,
        class,
        offset,
        field,
        "non-inline",
        accepted,
        "finalizer field address exceeds target limits",
    ) {
        Ok(address) => address,
        Err(error) => return Err(error),
    };
    let inner = match program.field(field) {
        Some(declared) => match declared.ty {
            MirType::Class(inner) => inner,
            _ => return Err(field_kind_error(class, "non-inline", field)),
        },
        None => return Err(unknown_field_error(field)),
    };
    select_plan(program, data_layout, displacement, complete, inner, address, output, Ghost(depth))
}

fn select_shared_field(
    program: &MirProgram,
    data_layout: &DataLayout,
    displacement: i32,
    complete: ClassId,
    class: ClassId,
    offset: i32,
    field: FieldId,
    output: &mut Vec<Instruction>,
) -> (r: Result<(), BackendError>)
    ensures
        old(output)@.len() <= final(output)@.len(),
        final(output)@.subrange(0, old(output)@.len() as int) == old(output)@,
        forall|i: int| 0 <= i < old(output)@.len() ==> #[trigger] final(output)@[i] == old(output)@[i],
        match shared_field_lines(
            program,
            data_layout,
            displacement,
            complete,
            class,
            offset,
            field,
            old(output)@.len(),
        ) {
            Ok(expected) => r is Ok && lines(final(output)@) == lines(old(output)@) + expected,
            Err(message) => r matches Err(error) && error_is(error, None, message),
        },
{
    let ghost before = lines(output@);
    let ghost at = output@.len();
    let accepted = match program.field(field) {
        Some(declared) => matches!(declared.ty, MirType::Shared(_)),
        None => false,
    };
    let address = match locate_field(
        program,
        data_layout,
        class,
        offset,
        field,
        "non-shared",
        accepted,
        "finalizer shared-field address exceeds target limits",
    ) {
        Ok(address) => address,
        Err(error) => return Err(error),
    };
    load_complete_address(address, Register::R11, output);
    output.push(
        Instruction::Move {
            source: Operand::Memory { base: Register::R11, displacement: 0 },
            destination: Operand::Register(Register::Rax),
        },
    );
    assert(output@.len() == lines(output@).len());
    release_field_handle(complete, field, displacement, output);
    assert(lines(output@) =~= before + shared_field_lines(
        program,
        data_layout,
        displacement,
        complete,
        class,
        offset,
        field,
        at,
    )->Ok_0);
    Ok(())
}

fn select_optional_shared_field(
    program: &MirProgram,
    data_layout: &DataLayout,
    displacement: i32,
    complete: ClassId,
    class: ClassId,
    offset: i32,
    field: FieldId,
    output: &mut Vec<Instruction>,
) -> (r: Result<(), BackendError>)
    ensures
        old(output)@.len() <= final(output)@.len(),
        final(output)@.subrange(0, old(output)@.len() as int) == old(output)@,
        forall|i: int| 0 <= i < old(output)@.len() ==> #[trigger] final(output)@[i] == old(output)@[i],
        match optional_shared_field_lines(
            program,
            data_layout,
            displacement,
            complete,
            class,
            offset,
            field,
            old(output)@.len(),
        ) {
            Ok(expected) => r is Ok && lines(final(output)@) == lines(old(output)@) + expected,
            Err(message) => r matches Err(error) && error_is(error, None, message),
        },
{
    let ghost before = lines(output@);
    let ghost at = output@.len();
    let accepted = match program.field(field) {
        Some(declared) => matches!(declared.ty, MirType::OptionalShared(_)),
        None => false,
    };
    let address = match locate_field(
        program,
        data_layout,
        class,
        offset,
        field,
        "non-optional-shared",
        accepted,
        "finalizer optional-shared-field address exceeds target limits",
    ) {
        Ok(address) => address,
        Err(error) => return Err(error),
    };
    let finished = finished_label("finalize_optional_shared_", complete, field, output.len());
    test_presence(address, &finished, output);
    assert(output@.len() == lines(output@).len());
    release_field_handle(complete, field, displacement, output);
    output.push(Instruction::Label(finished));
    assert(lines(output@) =~= before + optional_shared_field_lines(
        program,
        data_layout,
        displacement,
        complete,
        class,
        offset,
        field,
        at,
    )->Ok_0);
    Ok(())
}

#[verifier::rlimit(60)]
fn select_optional_class_field(
    program: &MirProgram,
    data_layout: &DataLayout,
    displacement: i32,
    complete: ClassId,
    class: ClassId,
    offset: i32,
    field: FieldId,
    output: &mut Vec<Instruction>,
    Ghost(depth): Ghost<nat>,
) -> (r: Result<(), BackendError>)
    requires
        data_layout_wf(data_layout),
        nested_class(program, MirDestructionStep::OptionalClassField(field)) matches Some(inner)
            ==> plan_fits(program, inner, depth),
    ensures
        old(output)@.len() <= final(output)@.len(),
        final(output)@.subrange(0, old(output)@.len() as int) == old(output)@,
        forall|i: int| 0 <= i < old(output)@.len() ==> #[trigger] final(output)@[i] == old(output)@[i],
        match optional_class_field_lines(
            program,
            data_layout,
            displacement,
            complete,
            class,
            offset,
            field,
            old(output)@.len(),
            depth,
        ) {
            Ok(expected) => r is Ok && lines(final(output)@) == lines(old(output)@) + expected,
            Err(message) => r matches Err(error) && error_is(error, None, message),
        },
    decreases depth, 1nat,
{
    let ghost before = lines(output@);
    let ghost at = output@.len();
    let accepted = match program.field(field) {
        Some(declared) => matches!(declared.ty, MirType::OptionalClass(_)),
        None => false,
    };
    let address = match locate_field(
        program,
        data_layout,
        class,
        offset,
        field,
        "non-optional-class",
        accepted,
        "finalizer optional-field address exceeds target limits",
    ) {
        Ok(address) => address,
        Err(error) => return Err(error),
    };
    let inner = match program.field(field) {
        Some(declared) => match declared.ty {
            MirType::OptionalClass(inner) => inner,
            _ => return Err(field_kind_error(class, "non-optional-class", field)),
        },
        None => return Err(unknown_field_error(field)),
    };
    let finished = finished_label("finalize_optional_", complete, field, output.len());
    test_presence(address, &finished, output);
    let ghost tested = lines(output@);
    assert(output@.len() == tested.len());
    let optional_layout = match data_layout.optional_class(inner) {
        Ok(optional_layout) => optional_layout,
        Err(error) => return Err(error),
    };
    if optional_layout.payload_offset() > 0x7fff_ffff {
        return Err(
            finalizer_error(String::from_str("optional payload offset exceeds target limits")),
        );
    }
    let payload = match displace(address, optional_layout.payload_offset()) {
        Some(payload) => payload,
        None => return Err(
            finalizer_error(String::from_str("finalizer optional payload exceeds target limits")),
        ),
    };
    match select_plan(
        program,
        data_layout,
        displacement,
        complete,
        inner,
        payload,
        output,
        Ghost(depth),
    ) {
        Ok(()) => {},
        Err(error) => return Err(error),
    }
    output.push(Instruction::Label(finished));
    assert(lines(output@) =~= before + optional_class_field_lines(
        program,
        data_layout,
        displacement,
        complete,
        class,
        offset,
        field,
        at,
        depth,
    )->Ok_0);
    Ok(())
}

fn select_base_step(
    program: &MirProgram,
    data_layout: &DataLayout,
    displacement: i32,
    complete: ClassId,
    class: ClassId,
    offset: i32,
    base: ClassId,
    output: &mut Vec<Instruction>,
    Ghost(depth): Ghost<nat>,
) -> (r: Result<(), BackendError>)
    requires
        data_layout_wf(data_layout),
        plan_fits(program, base, depth),
    ensures
        old(output)@.len() <= final(output)@.len(),
        final(output)@.subrange(0, old(output)@.len() as int) == old(output)@,
        forall|i: int| 0 <= i < old(output)@.len() ==> #[trigger] final(output)@[i] == old(output)@[i],
        match base_step_lines(
            program,
            data_layout,
            displacement,
            complete,
            class,
            offset,
            base,
            old(output)@.len(),
            depth,
        ) {
            Ok(expected) => r is Ok && lines(final(output)@) == lines(old(output)@) + expected,
            Err(message) => r matches Err(error) && error_is(error, None, message),
        },
    decreases depth, 1nat,
{
    let direct = match data_layout.class(class) {
        Some(class_layout) => class_layout.base(),
        None => None,
    };
    let base_offset = match direct {
        Some(base_layout) => if base_layout.class == base {
            base_layout.offset
        } else {
            return Err(no_direct_base_error(class, base));
        },
        None => return Err(no_direct_base_error(class, base)),
    };
    let address = match displace(offset, base_offset) {
        Some(address) => address,
        None => return Err(
            finalizer_error(String::from_str("finalizer base address exceeds target limits")),
        ),
    };
    select_plan(program, data_layout, displacement, complete, base, address, output, Ghost(depth))
}

/// The lowering of one destruction step of `class`.
fn select_step(
    program: &MirProgram,
    data_layout: &DataLayout,
    displacement: i32,
    complete: ClassId,
    class: ClassId,
    offset: i32,
    step: MirDestructionStep,
    output: &mut Vec<Instruction>,
    Ghost(depth): Ghost<nat>,
) -> (r: Result<(), BackendError>)
    requires
        data_layout_wf(data_layout),
        nested_class(program, step) matches Some(inner) ==> plan_fits(program, inner, depth),
    ensures
        old(output)@.len() <= final(output)@.len(),
        final(output)@.subrange(0, old(output)@.len() as int) == old(output)@,
        forall|i: int| 0 <= i < old(output)@.len() ==> #[trigger] final(output)@[i] == old(output)@[i],
        match step_lines(
            program,
            data_layout,
            displacement,
            complete,
            class,
            offset,
            step,
            old(output)@.len(),
            depth,
        ) {
            Ok(expected) => r is Ok && lines(final(output)@) == lines(old(output)@) + expected,
            Err(message) => r matches Err(error) && error_is(error, None, message),
        },
    decreases depth, 2nat,
{
    match step {
        MirDestructionStep::UserBody(destructor) => {
            select_user_body(class, offset, destructor, output);
            Ok(())
        },
        MirDestructionStep::Field(field) => select_field_step(
            program,
            data_layout,
            displacement,
            complete,
            class,
            offset,
            field,
            output,
            Ghost(depth),
        ),
        MirDestructionStep::SharedField(field) => select_shared_field(
            program,
            data_layout,
            displacement,
            complete,
            class,
            offset,
            field,
            output,
        ),
        MirDestructionStep::OptionalSharedField(field) => select_optional_shared_field(
            program,
            data_layout,
            displacement,
            complete,
            class,
            offset,
            field,
            output,
        ),
        MirDestructionStep::OptionalClassField(field) => select_optional_class_field(
            program,
            data_layout,
            displacement,
            complete,
            class,
            offset,
            field,
            output,
            Ghost(depth),
        ),
        MirDestructionStep::Base(base) => select_base_step(
            program,
            data_layout,
            displacement,
            complete,
            class,
            offset,
            base,
            output,
            Ghost(depth),
        ),
    }
}

fn no_direct_base_error(class: ClassId, base: ClassId) -> (r: BackendError)
    ensures
        error_is(r, None, no_direct_base_message(class, base)),
{
    let mut text = String::from_str("class ");
    let name = class_string(class);
    text.append(name.as_str());
    text.append(" has no direct base ");
    let base_name = class_string(base);
    text.append(base_name.as_str());
    finalizer_error(text)
}

/// Appends the lowering of the plan of `class`, whose object lies `offset`
/// bytes into the complete payload of `complete`.
#[verifier::rlimit(60)]
pub fn select_plan(
    program: &MirProgram,
    data_layout: &DataLayout,
    displacement: i32,
    complete: ClassId,
    class: ClassId,
    offset: i32,
    output: &mut Vec<Instruction>,
    Ghost(depth): Ghost<nat>,
) -> (r: Result<(), BackendError>)
    requires
        data_layout_wf(data_layout),
        plan_fits(program, class, depth),
    ensures
        old(output)@.len() <= final(output)@.len(),
        final(output)@.subrange(0, old(output)@.len() as int) == old(output)@,
        forall|i: int| 0 <= i < old(output)@.len() ==> #[trigger] final(output)@[i] == old(output)@[i],
        match plan_lines(
            program,
            data_layout,
            displacement,
            complete,
            class,
            offset,
            old(output)@.len(),
            depth,
        ) {
            Ok(expected) => r is Ok && lines(final(output)@) == lines(old(output)@) + expected,
            Err(message) => r matches Err(error) && error_is(error, None, message),
        },
    decreases depth, 0nat,
{
    if class.index() >= program.classes.len() {
        let mut text = String::from_str("unknown finalizer class ");
        let name = class_string(class);
        text.append(name.as_str());
        return Err(finalizer_error(text));
    }
    let ghost start = lines(output@);
    let ghost at = output@.len();
    let steps = &program.classes[class.index()].destruction;
    let ghost inner_depth = (depth - 1) as nat;
    let ghost mut done: Seq<Seq<char>> = Seq::empty();
    proof {
        assert(steps@.take(0) =~= Seq::<MirDestructionStep>::empty());
        assert(lines(output@) =~= start + done);
        assert forall|k: int| 0 <= k < steps@.len() implies (nested_class(program, #[trigger] steps@[k])
            matches Some(inner) ==> plan_fits(program, inner, inner_depth)) by {
            assert(program.classes@[class.idx as int].destruction@[k] == steps@[k]);
        }
    }
    let mut s: usize = 0;
    while s < steps.len()
        invariant
            old(output)@.len() <= output@.len(),
            forall|i: int| 0 <= i < old(output)@.len() ==> #[trigger] output@[i] == old(output)@[i],
            data_layout_wf(data_layout),
            depth > 0,
            inner_depth == depth - 1,
            class.idx < program.classes@.len(),
            steps@ == program.classes@[class.idx as int].destruction@,
            at == old(output)@.len(),
            start == lines(old(output)@),
            forall|k: int|
                0 <= k < steps@.len() ==> (nested_class(program, #[trigger] steps@[k]) matches Some(
                    inner,
                ) ==> plan_fits(program, inner, inner_depth)),
            s <= steps@.len(),
            steps_lines(
                program,
                data_layout,
                displacement,
                complete,
                class,
                offset,
                steps@.take(s as int),
                at,
                inner_depth,
            ) == Ok::<Seq<Seq<char>>, Seq<char>>(done),
            lines(output@) == start + done,
            output@.len() == at + done.len(),
        decreases steps@.len() - s,
    {
        proof {
            lemma_steps_next(
                program,
                data_layout,
                displacement,
                complete,
                class,
                offset,
                steps@,
                at,
                inner_depth,
                s as int,
            );
        }
        match select_step(
            program,
            data_layout,
            displacement,
            complete,
            class,
            offset,
            steps[s],
            output,
            Ghost(inner_depth),
        ) {
            Ok(()) => {},
            Err(error) => {
                proof {
                    lemma_steps_extend(
                        program,
                        data_layout,
                        displacement,
                        complete,
                        class,
                        offset,
                        steps@,
                        at,
                        inner_depth,
                        (s + 1) as int,
                    );
                }
                return Err(error);
            },
        }
        proof {
            let step = step_lines(
                program,
                data_layout,
                displacement,
                complete,
                class,
                offset,
                steps@[s as int],
                at + done.len(),
                inner_depth,
            )->Ok_0;
            assert(lines(output@) =~= start + (done + step));
            done = done + step;
        }
        s = s + 1;
    }
    assert(steps@.take(steps@.len() as int) =~= steps@);
    Ok(())
}

proof fn lemma_steps_next(
    program: &MirProgram,
    layout: &DataLayout,
    displacement: i32,
    complete: ClassId,
    class: ClassId,
    offset: i32,
    steps: Seq<MirDestructionStep>,
    at: nat,
    depth: nat,
    s: int,
)
    requires
        0 <= s < steps.len(),
    ensures
        steps_lines(
            program,
            layout,
            displacement,
            complete,
            class,
            offset,
            steps.take(s + 1),
            at,
            depth,
        ) == match steps_lines(
            program,
            layout,
            displacement,
            complete,
            class,
            offset,
            steps.take(s),
            at,
            depth,
        ) {
            Err(message) => Err(message),
            Ok(done) => match step_lines(
                program,
                layout,
                displacement,
                complete,
                class,
                offset,
                steps[s],
                at + done.len(),
                depth,
            ) {
                Err(message) => Err(message),
                Ok(step) => Ok(done + step),
            },
        },
{
    assert(steps.take(s + 1).drop_last() =~= steps.take(s));
    assert(steps.take(s + 1).last() == steps[s]);
}

proof fn lemma_steps_extend(
    program: &MirProgram,
    layout: &DataLayout,
    displacement: i32,
    complete: ClassId,
    class: ClassId,
    offset: i32,
    steps: Seq<MirDestructionStep>,
    at: nat,
    depth: nat,
    n: int,
)
    requires
        0 <= n <= steps.len(),
        steps_lines(
            program,
            layout,
            displacement,
            complete,
            class,
            offset,
            steps.take(n),
            at,
            depth,
        ) is Err,
    ensures
        steps_lines(program, layout, displacement, complete, class, offset, steps, at, depth)
            == steps_lines(
            program,
            layout,
            displacement,
            complete,
            class,
            offset,
            steps.take(n),
            at,
            depth,
        ),
    decreases steps.len() - n,
{
    if n < steps.len() {
        assert(steps.take(n + 1).drop_last() =~= steps.take(n));
        lemma_steps_extend(
            program,
            layout,
            displacement,
            complete,
            class,
            offset,
            steps,
            at,
            depth,
            n + 1,
        );
    } else {
        assert(steps.take(n) =~= steps);
    }
}

/// The first lines of every finalizer: a frame that keeps the complete
/// payload address from `rdi`.
pub open spec fn finalizer_prologue() -> Seq<Seq<char>> {
    seq![
        line_text(Instruction::Push(Register::Rbp)),
        line_text(
            Instruction::Move {
                source: register_operand(Register::Rsp),
                destination: register_operand(Register::Rbp),
            },
        ),
        line_text(Instruction::ReserveStack(FINALIZER_FRAME_SIZE)),
        line_text(
            Instruction::Move {
                source: register_operand(Register::Rdi),
                destination: memory_operand(Register::Rbp, COMPLETE_HOME),
            },
        ),
    ]
}

/// The plan of `class` as its finalizer runs it: at offset zero of the
/// complete object, after the four prologue instructions.
#[verifier::opaque]
pub open spec fn finalizer_plan(
    program: &MirProgram,
    layout: &DataLayout,
    displacement: i32,
    class: ClassId,
) -> Result<Seq<Seq<char>>, Seq<char>> {
    plan_lines(program, layout, displacement, class, class, 0, 4, program.classes@.len())
}

/// The listing of the finalizer of `class`, or the diagnostic that stops
/// its lowering.
pub open spec fn finalizer_lines(
    program: &MirProgram,
    layout: &DataLayout,
    displacement: i32,
    class: ClassId,
) -> Result<Seq<Seq<char>>, Seq<char>> {
    match finalizer_plan(program, layout, displacement, class) {
        Err(message) => Err(message),
        Ok(plan) => Ok(
            finalizer_prologue() + plan + seq![
                line_text(Instruction::Leave),
                line_text(Instruction::Return),
            ],
        ),
    }
}

/// Whether `function` is the finalizer of `class`.
pub open spec fn is_finalizer(
    function: AssemblyFunction,
    program: &MirProgram,
    layout: &DataLayout,
    displacement: i32,
    class: ClassId,
) -> bool {
    &&& finalizer_lines(program, layout, displacement, class) matches Ok(body)
    &&& function.symbol@ == complete_finalizer_text(class)
    &&& !function.exported
    &&& lines(function.instructions@) == body
}

/// The plans of every class nest no deeper than the number of classes,
/// as they do when no class contains itself inline.
pub open spec fn finalizer_plans_nest(program: &MirProgram) -> bool {
    forall|i: int|
        0 <= i < program.classes@.len() ==> plan_fits(
            program,
            #[trigger] program.classes@[i].id,
            program.classes@.len(),
        )
}

/// The finalizer of one class.
#[verifier::rlimit(100)]
pub fn lower_class(
    program: &MirProgram,
    data_layout: &DataLayout,
    dispatch: &DispatchMetadata,
    class: ClassId,
) -> (r: Result<AssemblyFunction, BackendError>)
    requires
        data_layout_wf(data_layout),
        plan_fits(program, class, program.classes@.len()),
    ensures
        match finalizer_lines(program, data_layout, dispatch.finalizer_displacement, class) {
            Ok(_) => r matches Ok(function) && is_finalizer(
                function,
                program,
                data_layout,
                dispatch.finalizer_displacement,
                class,
            ),
            Err(message) => r matches Err(error) && error_is(error, None, message),
        },
{
    let mut instructions: Vec<Instruction> = Vec::new();
    instructions.push(Instruction::Push(Register::Rbp));
    instructions.push(
        Instruction::Move {
            source: Operand::Register(Register::Rsp),
            destination: Operand::Register(Register::Rbp),
        },
    );
    instructions.push(Instruction::ReserveStack(FINALIZER_FRAME_SIZE));
    instructions.push(
        Instruction::Move {
            source: Operand::Register(Register::Rdi),
            destination: Operand::Memory { base: Register::Rbp, displacement: COMPLETE_HOME },
        },
    );
    assert(lines(instructions@) =~= finalizer_prologue());
    proof {
        reveal(finalizer_plan);
    }
    let ghost expected = finalizer_plan(program, data_layout, dispatch.finalizer_displacement, class);
    match select_plan(
        program,
        data_layout,
        dispatch.finalizer_displacement(),
        class,
        class,
        0,
        &mut instructions,
        Ghost(program.classes@.len()),
    ) {
        Ok(()) => {},
        Err(error) => return Err(error),
    }
    let ghost planned = lines(instructions@);
    assert(planned == finalizer_prologue() + expected->Ok_0);
    instructions.push(Instruction::Leave);
    instructions.push(Instruction::Return);
    assert(lines(instructions@) =~= finalizer_prologue() + expected->Ok_0 + seq![
        line_text(Instruction::Leave),
        line_text(Instruction::Return),
    ]);
    Ok(AssemblyFunction { symbol: complete_finalizer(class), exported: false, instructions })
}

/// The diagnostic of the first of the first `count` classes whose
/// finalizer cannot be lowered.
pub open spec fn first_finalizer_error(
    program: &MirProgram,
    layout: &DataLayout,
    displacement: i32,
    count: nat,
) -> Option<Seq<char>>
    decreases count,
{
    if count == 0 {
        None
    } else {
        match first_finalizer_error(program, layout, displacement, (count - 1) as nat) {
            Some(message) => Some(message),
            None => match finalizer_lines(
                program,
                layout,
                displacement,
                program.classes@[count - 1].id,
            ) {
                Err(message) => Some(message),
                Ok(_) => None,
            },
        }
    }
}

proof fn lemma_first_error_extends(
    program: &MirProgram,
    layout: &DataLayout,
    displacement: i32,
    n: nat,
    count: nat,
)
    requires
        n <= count,
        first_finalizer_error(program, layout, displacement, n) is Some,
    ensures
        first_finalizer_error(program, layout, displacement, count) == first_finalizer_error(
            program,
            layout,
            displacement,
            n,
        ),
    decreases count - n,
{
    if n < count {
        lemma_first_error_extends(program, layout, displacement, n, (count - 1) as nat);
    }
}

/// The finalizer of every class, in declaration order; or the diagnostic
/// of the first class whose finalizer cannot be lowered.
pub fn lower_all(
    program: &MirProgram,
    data_layout: &DataLayout,
    dispatch: &DispatchMetadata,
) -> (r: Result<Vec<AssemblyFunction>, BackendError>)
    requires
        data_layout_wf(data_layout),
        finalizer_plans_nest(program),
    ensures
        match first_finalizer_error(
            program,
            data_layout,
            dispatch.finalizer_displacement,
            program.classes@.len(),
        ) {
            None => r matches Ok(functions) && functions@.len() == program.classes@.len() && forall|
                i: int,
            |
                0 <= i < program.classes@.len() ==> is_finalizer(
                    #[trigger] functions@[i],
                    program,
                    data_layout,
                    dispatch.finalizer_displacement,
                    program.classes@[i].id,
                ),
            Some(message) => r matches Err(error) && error_is(error, None, message),
        },
{
    let mut functions: Vec<AssemblyFunction> = Vec::new();
    let mut i: usize = 0;
    while i < program.classes.len()
        invariant
            data_layout_wf(data_layout),
            finalizer_plans_nest(program),
            i <= program.classes@.len(),
            functions@.len() == i,
            first_finalizer_error(program, data_layout, dispatch.finalizer_displacement, i as nat)
                is None,
            forall|k: int|
                0 <= k < i ==> is_finalizer(
                    #[trigger] functions@[k],
                    program,
                    data_layout,
                    dispatch.finalizer_displacement,
                    program.classes@[k].id,
                ),
        decreases program.classes@.len() - i,
    {
        let class = program.classes[i].id;
        assert(plan_fits(program, program.classes@[i as int].id, program.classes@.len()));
        match lower_class(program, data_layout, dispatch, class) {
            Ok(function) => {
                functions.push(function);
            },
            Err(error) => {
                proof {
                    lemma_first_error_extends(
                        program,
                        data_layout,
                        dispatch.finalizer_displacement,
                        (i + 1) as nat,
                        program.classes@.len(),
                    );
                }
                return Err(error);
            },
        }
        i = i + 1;
    }
    Ok(functions)
}

} // verus!
