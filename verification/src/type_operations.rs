//! Runtime type tests: an object's dynamic metadata is compared with the
//! dispatch table of every class that provides the tested view.

use vstd::prelude::*;

use crate::body::BlockId;
use crate::dispatch::{DispatchMetadata, spec_classes_providing_view};
use crate::emit::line_text;
use crate::frame::FrameLayout;
use crate::identity::{CallableId, ClassId, ValueId};
use crate::listing::{label_text_line, lemma_lines_push, lines, one_operand_line};
use crate::machine::{Instruction, Label, Operand, Register};
use crate::mir::{MirClass, MirObjectOrigin, MirProgram, MirSharedTarget, MirType, MirViewTarget};
use crate::object_abi::{
    load_origin_metadata, load_table_address, origin_metadata_lines, origin_metadata_ready,
    table_address_line,
};
use crate::selection::label_stem_text;
use crate::symbol::callable;
use crate::text::{decimal, decimal_text};
use crate::value::{store_canonical_rax, store_rax_instruction, value_operand};

verus! {

broadcast use lemma_lines_push;

/// `.Lska.<stem>.type_test_<value>_<suffix>`.
pub open spec fn type_test_label_text(owner: CallableId, result: ValueId, suffix: Seq<char>) -> Seq<
    char,
> {
    ".Lska."@ + label_stem_text(owner) + ".type_test_"@ + decimal_text(result.idx as nat) + "_"@
        + suffix
}

/// The label of a type test's outcome; `owner` is the callable the result
/// value belongs to.
pub fn type_test_label(owner: CallableId, result: ValueId, suffix: &str) -> (r: Label)
    ensures
        r.text@ == type_test_label_text(owner, result, suffix@),
{
    let mut text = String::from_str(".Lska.");
    let stem = callable(owner);
    text.append(stem.as_str());
    text.append(".type_test_");
    let digits = decimal(result.index() as u64);
    text.append(digits.as_str());
    text.append("_");
    text.append(suffix);
    Label::new(text)
}

/// `.Lska.<stem>.cast_<block>_matched`.
pub open spec fn cast_match_label_text(owner: CallableId, block: BlockId) -> Seq<char> {
    ".Lska."@ + label_stem_text(owner) + ".cast_"@ + decimal_text(block.idx as nat) + "_matched"@
}

/// The label a checked cast continues at when the object matches.
pub fn cast_match_label(owner: CallableId, block: BlockId) -> (r: Label)
    ensures
        r.text@ == cast_match_label_text(owner, block),
{
    let mut text = String::from_str(".Lska.");
    let stem = callable(owner);
    text.append(stem.as_str());
    text.append(".cast_");
    let digits = decimal(block.index() as u64);
    text.append(digits.as_str());
    text.append("_matched");
    Label::new(text)
}

/// The view a shared cast target tests for; arrays and boxes have no
/// class view.
pub open spec fn spec_shared_target_view(target: MirSharedTarget) -> MirViewTarget {
    match target {
        MirSharedTarget::Class(class) => MirViewTarget::Class(class),
        MirSharedTarget::Interface(interface) => MirViewTarget::Interface(interface),
        _ => MirViewTarget::Obj,
    }
}

pub fn shared_target_view(target: MirSharedTarget) -> (r: MirViewTarget)
    requires
        target is Obj || target is Class || target is Interface,
    ensures
        r == spec_shared_target_view(target),
{
    match target {
        MirSharedTarget::Class(class) => MirViewTarget::Class(class),
        MirSharedTarget::Interface(interface) => MirViewTarget::Interface(interface),
        _ => MirViewTarget::Obj,
    }
}

/// One comparison of the metadata in `r11` with the table of `class`,
/// taken to `matched` on equality.
pub open spec fn membership_test_lines(class: ClassId, matched: Seq<char>) -> Seq<Seq<char>> {
    seq![
        table_address_line(class, Register::Rcx),
        line_text(Instruction::Compare { source: Register::Rcx, destination: Register::R11 }),
        one_operand_line("je"@, matched),
    ]
}

/// The comparisons of the metadata in `r11` with each class in order.
pub open spec fn membership_lines(classes: Seq<ClassId>, matched: Seq<char>) -> Seq<Seq<char>>
    decreases classes.len(),
{
    if classes.len() == 0 {
        Seq::empty()
    } else {
        membership_lines(classes.drop_last(), matched) + membership_test_lines(
            classes.last(),
            matched,
        )
    }
}

/// Every class of the program has a dispatch table.
pub open spec fn tables_cover(program: &MirProgram, dispatch: &DispatchMetadata) -> bool {
    forall|c: int|
        0 <= c < program.classes@.len() ==> (#[trigger] program.classes@[c]).id.idx
            < dispatch.tables@.len()
}

/// Whether `id` names one of `classes`.
pub open spec fn declared(classes: Seq<MirClass>, id: ClassId) -> bool {
    exists|c: int| 0 <= c < classes.len() && (#[trigger] classes[c]).id == id
}

/// The classes that provide a view are classes of the program.
pub proof fn lemma_providing_classes_declared(
    program: &MirProgram,
    classes: Seq<MirClass>,
    target: MirViewTarget,
)
    ensures
        forall|k: int|
            0 <= k < spec_classes_providing_view(program, classes, target).len() ==> declared(
                classes,
                #[trigger] spec_classes_providing_view(program, classes, target)[k],
            ),
    decreases classes.len(),
{
    if classes.len() > 0 {
        lemma_providing_classes_declared(program, classes.drop_last(), target);
        let found = spec_classes_providing_view(program, classes, target);
        let rest = spec_classes_providing_view(program, classes.drop_last(), target);
        assert forall|k: int| 0 <= k < found.len() implies declared(classes, #[trigger] found[k]) by {
            if k < rest.len() {
                assert(declared(classes.drop_last(), rest[k]));
                let c = choose|c: int|
                    0 <= c < classes.drop_last().len() && (#[trigger] classes.drop_last()[c]).id
                        == rest[k];
                assert(classes[c] == classes.drop_last()[c]);
            } else {
                assert(classes[classes.len() - 1].id == found[k]);
            }
        }
    }
}

/// Compares the metadata in `r11` with the table of every class that
/// provides `target`, jumping to `matched` at the first equal one.
pub fn emit_metadata_membership_branches(
    program: &MirProgram,
    dispatch: &DispatchMetadata,
    target: MirViewTarget,
    matched: &Label,
    output: &mut Vec<Instruction>,
)
    requires
        tables_cover(program, dispatch),
    ensures
        old(output)@.len() <= final(output)@.len(),
        final(output)@.subrange(0, old(output)@.len() as int) == old(output)@,
        forall|i: int| 0 <= i < old(output)@.len() ==> #[trigger] final(output)@[i] == old(output)@[i],
        lines(final(output)@) == lines(old(output)@) + membership_lines(
            spec_classes_providing_view(program, program.classes@, target),
            matched.text@,
        ),
{
    let classes = dispatch.classes_providing_view(program, target);
    proof {
        lemma_providing_classes_declared(program, program.classes@, target);
    }
    let ghost before = lines(output@);
    let mut i: usize = 0;
    while i < classes.len()
        invariant
            old(output)@.len() <= output@.len(),
            forall|i: int| 0 <= i < old(output)@.len() ==> #[trigger] output@[i] == old(output)@[i],
            classes@ == spec_classes_providing_view(program, program.classes@, target),
            tables_cover(program, dispatch),
            forall|k: int| 0 <= k < classes@.len() ==> declared(program.classes@, #[trigger] classes@[k]),
            i <= classes@.len(),
            lines(output@) == before + membership_lines(classes@.take(i as int), matched.text@),
        decreases classes@.len() - i,
    {
        let class = classes[i];
        assert(declared(program.classes@, classes@[i as int]));
        let ghost c = choose|c: int|
            0 <= c < program.classes@.len() && (#[trigger] program.classes@[c]).id == classes@[i as int];
        assert(program.classes@[c].id.idx < dispatch.tables@.len());
        let ghost start = lines(output@);
        load_table_address(dispatch, class, Register::Rcx, output);
        output.push(Instruction::Compare { source: Register::Rcx, destination: Register::R11 });
        output.push(Instruction::JumpIfEqual(matched.duplicate()));
        assert(classes@.take(i + 1).drop_last() =~= classes@.take(i as int));
        assert(lines(output@) =~= start + membership_test_lines(class, matched.text@));
        i = i + 1;
    }
    assert(classes@.take(classes@.len() as int) =~= classes@);
}

/// The metadata of an origin in `r11`, then the comparisons for `target`.
pub open spec fn membership_branch_lines(
    program: &MirProgram,
    frame: &FrameLayout,
    origin: MirObjectOrigin,
    target: MirViewTarget,
    matched: Seq<char>,
) -> Seq<Seq<char>> {
    origin_metadata_lines(frame, origin, Register::R11) + membership_lines(
        spec_classes_providing_view(program, program.classes@, target),
        matched,
    )
}

pub fn emit_membership_branches(
    program: &MirProgram,
    frame: &FrameLayout,
    dispatch: &DispatchMetadata,
    origin: &MirObjectOrigin,
    target: MirViewTarget,
    matched: &Label,
    output: &mut Vec<Instruction>,
)
    requires
        tables_cover(program, dispatch),
        origin_metadata_ready(frame, dispatch, *origin),
    ensures
        old(output)@.len() <= final(output)@.len(),
        final(output)@.subrange(0, old(output)@.len() as int) == old(output)@,
        forall|i: int| 0 <= i < old(output)@.len() ==> #[trigger] final(output)@[i] == old(output)@[i],
        lines(final(output)@) == lines(old(output)@) + membership_branch_lines(
            program,
            frame,
            *origin,
            target,
            matched.text@,
        ),
{
    let ghost before = lines(output@);
    load_origin_metadata(frame, dispatch, origin, Register::R11, output);
    emit_metadata_membership_branches(program, dispatch, target, matched, output);
    assert(lines(output@) =~= before + membership_branch_lines(
        program,
        frame,
        *origin,
        target,
        matched.text@,
    ));
}

/// Stores the boolean in `bits` to `destination`.
pub open spec fn boolean_store_lines(bits: u64, destination: Operand) -> Seq<Seq<char>> {
    seq![
        line_text(Instruction::MoveImmediate64 { bits, destination: Register::Rax }),
        line_text(store_rax_instruction(destination)),
    ]
}

/// A type test: the result starts false, and becomes true where the
/// object's metadata is the table of a class that provides `target`.
pub open spec fn type_test_lines(
    program: &MirProgram,
    frame: &FrameLayout,
    owner: CallableId,
    origin: MirObjectOrigin,
    target: MirViewTarget,
    result: ValueId,
) -> Seq<Seq<char>> {
    let destination = value_operand(frame, result);
    let matched = type_test_label_text(owner, result, "matched"@);
    let finished = type_test_label_text(owner, result, "finished"@);
    boolean_store_lines(0, destination) + membership_branch_lines(
        program,
        frame,
        origin,
        target,
        matched,
    ) + seq![one_operand_line("jmp"@, finished), label_text_line(matched)] + boolean_store_lines(
        1,
        destination,
    ) + seq![label_text_line(finished)]
}

pub fn select_type_test(
    program: &MirProgram,
    frame: &FrameLayout,
    dispatch: &DispatchMetadata,
    owner: CallableId,
    origin: &MirObjectOrigin,
    target: MirViewTarget,
    result: ValueId,
    output: &mut Vec<Instruction>,
)
    requires
        tables_cover(program, dispatch),
        origin_metadata_ready(frame, dispatch, *origin),
        result.idx < frame.value_offsets@.len(),
    ensures
        old(output)@.len() <= final(output)@.len(),
        final(output)@.subrange(0, old(output)@.len() as int) == old(output)@,
        forall|i: int| 0 <= i < old(output)@.len() ==> #[trigger] final(output)@[i] == old(output)@[i],
        lines(final(output)@) == lines(old(output)@) + type_test_lines(
            program,
            frame,
            owner,
            *origin,
            target,
            result,
        ),
{
    let ghost before = lines(output@);
    let destination = Operand::Memory {
        base: Register::Rbp,
        displacement: frame.value_offsets[result.index()],
    };
    assert(destination == value_operand(frame, result));
    output.push(Instruction::MoveImmediate64 { bits: 0, destination: Register::Rax });
    let ghost loaded = output@;
    store_canonical_rax(MirType::Bool, destination, output);
    assert(output@ =~= loaded.push(store_rax_instruction(destination)));
    assert(lines(output@) =~= before + boolean_store_lines(0, destination));
    let matched = type_test_label(owner, result, "matched");
    let finished = type_test_label(owner, result, "finished");
    let ghost tested = lines(output@);
    emit_membership_branches(program, frame, dispatch, origin, target, &matched, output);
    output.push(Instruction::Jump(finished.duplicate()));
    output.push(Instruction::Label(matched));
    let ghost branched = lines(output@);
    output.push(Instruction::MoveImmediate64 { bits: 1, destination: Register::Rax });
    let ghost reloaded = output@;
    store_canonical_rax(MirType::Bool, destination, output);
    assert(output@ =~= reloaded.push(store_rax_instruction(destination)));
    assert(lines(output@) =~= branched + boolean_store_lines(1, destination));
    output.push(Instruction::Label(finished));
    assert(lines(output@) =~= before + type_test_lines(
        program,
        frame,
        owner,
        *origin,
        target,
        result,
    ));
}

} // verus!
