//! Dynamic metadata of object views: the dispatch table of an exactly known
//! class, the origin homes an alias carrier was given, or the metadata word
//! in the header of a shared allocation; and the dispatch targets read
//! through that metadata.

use vstd::prelude::*;

use crate::abi::{ArgumentLocation, ObjectOriginLocations};
use crate::dispatch::{DispatchMetadata, displacement_message, spec_entry_displacement};
use crate::emit::{binary_text, line_text, rip_relative_text};
use crate::error::{BackendError, error_is};
use crate::frame::FrameLayout;
use crate::identity::{ClassId, InterfaceRequirementId, StaticFieldId, StorageId, VirtualSlotId};
use crate::layout::SHARED_DYNAMIC_METADATA_OFFSET;
use crate::listing::{lemma_lines_push, lines};
use crate::machine::{Instruction, Operand, Register, register_name};
use crate::mir::{
    MirObjectOrigin, MirPlace, MirPlaceBase, MirPlaceProjection, MirProgram, MirType, spec_array_type,
    spec_field, spec_static_field, static_fields_unique,
};
use crate::symbol::dispatch_table_text;
use crate::value::{
    load_rax_instruction, memory, spec_memory, storage_operand, store_rax,
    store_rax_instruction,
};

verus! {

broadcast use lemma_lines_push;

/// `lea destination, [rip + symbol]`.
pub open spec fn symbol_address_line(symbol: Seq<char>, destination: Register) -> Seq<char> {
    "    "@ + binary_text("lea"@, register_name(destination), rip_relative_text(symbol)) + "\n"@
}

/// Loads the dispatch table of `class`.
pub open spec fn table_address_line(class: ClassId, destination: Register) -> Seq<char> {
    symbol_address_line(dispatch_table_text(class), destination)
}

/// `mov destination, source`.
pub open spec fn move_instruction(source: Operand, destination: Register) -> Instruction {
    Instruction::Move { source, destination: Operand::Register(destination) }
}

/// Whether a location can hold an address or metadata word.
pub open spec fn integer_class(location: ArgumentLocation) -> bool {
    !(location is SseRegister)
}

/// Whether the dispatch table of `class` exists.
pub open spec fn has_table(dispatch: &DispatchMetadata, class: ClassId) -> bool {
    class.idx < dispatch.tables@.len()
}

pub fn load_table_address(
    dispatch: &DispatchMetadata,
    class: ClassId,
    destination: Register,
    output: &mut Vec<Instruction>,
)
    requires
        has_table(dispatch, class),
    ensures
        old(output)@.len() <= final(output)@.len(),
        final(output)@.subrange(0, old(output)@.len() as int) == old(output)@,
        forall|i: int| 0 <= i < old(output)@.len() ==> #[trigger] final(output)@[i] == old(output)@[i],
        lines(final(output)@) == lines(old(output)@).push(table_address_line(class, destination)),
{
    let symbol = dispatch.table_symbol(class);
    output.push(Instruction::LoadSymbolAddress { symbol, destination });
}

/// The dispatch table of `class` placed at an argument location; a stack
/// location goes through `rax`.
pub open spec fn metadata_symbol_lines(class: ClassId, location: ArgumentLocation) -> Seq<
    Seq<char>,
> {
    match location {
        ArgumentLocation::IntegerRegister(register) => seq![table_address_line(class, register)],
        ArgumentLocation::Stack(displacement) => seq![
            table_address_line(class, Register::Rax),
            line_text(store_rax_instruction(spec_memory(Register::Rsp, displacement))),
        ],
        ArgumentLocation::SseRegister(_) => Seq::empty(),
    }
}

pub fn select_metadata_symbol(
    dispatch: &DispatchMetadata,
    class: ClassId,
    location: ArgumentLocation,
    output: &mut Vec<Instruction>,
)
    requires
        has_table(dispatch, class),
        integer_class(location),
    ensures
        old(output)@.len() <= final(output)@.len(),
        final(output)@.subrange(0, old(output)@.len() as int) == old(output)@,
        forall|i: int| 0 <= i < old(output)@.len() ==> #[trigger] final(output)@[i] == old(output)@[i],
        lines(final(output)@) == lines(old(output)@) + metadata_symbol_lines(class, location),
{
    let ghost before = lines(output@);
    match location {
        ArgumentLocation::IntegerRegister(destination) => {
            load_table_address(dispatch, class, destination, output);
        },
        ArgumentLocation::Stack(displacement) => {
            load_table_address(dispatch, class, Register::Rax, output);
            store_rax(memory(Register::Rsp, displacement), output);
        },
        ArgumentLocation::SseRegister(_) => {},
    }
    assert(lines(output@) =~= before + metadata_symbol_lines(class, location));
}

/// The frame word at `home` placed at an argument location.
pub open spec fn frame_word_instructions(home: i32, location: ArgumentLocation) -> Seq<
    Instruction,
> {
    let source = spec_memory(Register::Rbp, home);
    match location {
        ArgumentLocation::IntegerRegister(register) => seq![move_instruction(source, register)],
        ArgumentLocation::Stack(displacement) => seq![
            load_rax_instruction(source),
            store_rax_instruction(spec_memory(Register::Rsp, displacement)),
        ],
        ArgumentLocation::SseRegister(_) => Seq::empty(),
    }
}

pub fn select_frame_word(home: i32, location: ArgumentLocation, output: &mut Vec<Instruction>)
    requires
        integer_class(location),
    ensures
        final(output)@ == old(output)@ + frame_word_instructions(home, location),
{
    let ghost before = output@;
    let source = memory(Register::Rbp, home);
    match location {
        ArgumentLocation::IntegerRegister(register) => {
            output.push(Instruction::Move { source, destination: Operand::Register(register) });
        },
        ArgumentLocation::Stack(displacement) => {
            output.push(Instruction::Move { source, destination: Operand::Register(Register::Rax) });
            store_rax(memory(Register::Rsp, displacement), output);
        },
        ArgumentLocation::SseRegister(_) => {},
    }
    assert(output@ =~= before + frame_word_instructions(home, location));
}

/// Whether `carrier` has origin homes in the frame.
pub open spec fn has_origin_homes(frame: &FrameLayout, carrier: StorageId) -> bool {
    carrier.idx < frame.object_origins@.len() && frame.object_origins@[carrier.idx as int] is Some
}

/// The complete-object and metadata homes of `carrier`, forwarded to the
/// locations of a callee.
pub open spec fn forwarded_origin_instructions(
    frame: &FrameLayout,
    carrier: StorageId,
    locations: ObjectOriginLocations,
) -> Seq<Instruction> {
    let homes = frame.object_origins@[carrier.idx as int].unwrap();
    frame_word_instructions(homes.complete, locations.complete) + frame_word_instructions(
        homes.metadata,
        locations.metadata,
    )
}

pub fn select_forwarded_origin(
    frame: &FrameLayout,
    carrier: StorageId,
    locations: ObjectOriginLocations,
    output: &mut Vec<Instruction>,
)
    requires
        has_origin_homes(frame, carrier),
        integer_class(locations.complete),
        integer_class(locations.metadata),
    ensures
        final(output)@ == old(output)@ + forwarded_origin_instructions(frame, carrier, locations),
{
    let ghost before = output@;
    let homes = frame.object_origins[carrier.index()].unwrap();
    select_frame_word(homes.complete(), locations.complete(), output);
    select_frame_word(homes.metadata(), locations.metadata(), output);
    assert(output@ =~= before + forwarded_origin_instructions(frame, carrier, locations));
}

/// Loads the shared handle of `owner`, then the metadata word of its
/// allocation header.
pub open spec fn shared_metadata_instructions(
    frame: &FrameLayout,
    owner: StorageId,
    destination: Register,
) -> Seq<Instruction> {
    seq![
        move_instruction(storage_operand(frame, owner), destination),
        move_instruction(spec_memory(destination, SHARED_DYNAMIC_METADATA_OFFSET), destination),
    ]
}

pub fn load_shared_metadata(
    frame: &FrameLayout,
    owner: StorageId,
    destination: Register,
    output: &mut Vec<Instruction>,
)
    requires
        owner.idx < frame.storage_offsets@.len(),
    ensures
        final(output)@ == old(output)@ + shared_metadata_instructions(frame, owner, destination),
{
    let ghost before = output@;
    output.push(
        Instruction::Move {
            source: memory(Register::Rbp, frame.storage_offsets[owner.index()]),
            destination: Operand::Register(destination),
        },
    );
    output.push(
        Instruction::Move {
            source: memory(destination, SHARED_DYNAMIC_METADATA_OFFSET),
            destination: Operand::Register(destination),
        },
    );
    assert(output@ =~= before + shared_metadata_instructions(frame, owner, destination));
}

/// The metadata of a shared allocation placed at an argument location,
/// loaded through `rax`.
pub open spec fn shared_metadata_location_instructions(
    frame: &FrameLayout,
    owner: StorageId,
    location: ArgumentLocation,
) -> Seq<Instruction> {
    shared_metadata_instructions(frame, owner, Register::Rax) + match location {
        ArgumentLocation::IntegerRegister(register) => if register != Register::Rax {
            seq![move_instruction(Operand::Register(Register::Rax), register)]
        } else {
            Seq::empty()
        },
        ArgumentLocation::Stack(displacement) => seq![
            store_rax_instruction(spec_memory(Register::Rsp, displacement)),
        ],
        ArgumentLocation::SseRegister(_) => Seq::empty(),
    }
}

pub fn select_shared_metadata(
    frame: &FrameLayout,
    owner: StorageId,
    location: ArgumentLocation,
    output: &mut Vec<Instruction>,
)
    requires
        owner.idx < frame.storage_offsets@.len(),
        integer_class(location),
    ensures
        final(output)@ == old(output)@ + shared_metadata_location_instructions(
            frame,
            owner,
            location,
        ),
{
    let ghost before = output@;
    load_shared_metadata(frame, owner, Register::Rax, output);
    match location {
        ArgumentLocation::IntegerRegister(register) => {
            if register != Register::Rax {
                output.push(
                    Instruction::Move {
                        source: Operand::Register(Register::Rax),
                        destination: Operand::Register(register),
                    },
                );
            }
        },
        ArgumentLocation::Stack(displacement) => {
            store_rax(memory(Register::Rsp, displacement), output);
        },
        ArgumentLocation::SseRegister(_) => {},
    }
    assert(output@ =~= before + shared_metadata_location_instructions(frame, owner, location));
}

/// Whether the frame and the dispatch tables hold what an origin's
/// metadata is read from.
pub open spec fn origin_metadata_ready(
    frame: &FrameLayout,
    dispatch: &DispatchMetadata,
    origin: MirObjectOrigin,
) -> bool {
    match origin {
        MirObjectOrigin::Exact { dynamic_class, .. } => has_table(dispatch, dynamic_class),
        MirObjectOrigin::Forwarded { carrier } => has_origin_homes(frame, carrier),
        MirObjectOrigin::Shared { owner } => owner.idx < frame.storage_offsets@.len(),
    }
}

/// The dynamic metadata of an origin in `destination`: the table of an
/// exact class, the metadata home of a carrier, or the header word of a
/// shared allocation.
pub open spec fn origin_metadata_lines(
    frame: &FrameLayout,
    origin: MirObjectOrigin,
    destination: Register,
) -> Seq<Seq<char>> {
    match origin {
        MirObjectOrigin::Exact { dynamic_class, .. } => seq![
            table_address_line(dynamic_class, destination),
        ],
        MirObjectOrigin::Forwarded { carrier } => seq![
            line_text(
                move_instruction(
                    spec_memory(
                        Register::Rbp,
                        frame.object_origins@[carrier.idx as int].unwrap().metadata,
                    ),
                    destination,
                ),
            ),
        ],
        MirObjectOrigin::Shared { owner } => lines(
            shared_metadata_instructions(frame, owner, destination),
        ),
    }
}

pub fn load_origin_metadata(
    frame: &FrameLayout,
    dispatch: &DispatchMetadata,
    origin: &MirObjectOrigin,
    destination: Register,
    output: &mut Vec<Instruction>,
)
    requires
        origin_metadata_ready(frame, dispatch, *origin),
    ensures
        old(output)@.len() <= final(output)@.len(),
        final(output)@.subrange(0, old(output)@.len() as int) == old(output)@,
        forall|i: int| 0 <= i < old(output)@.len() ==> #[trigger] final(output)@[i] == old(output)@[i],
        lines(final(output)@) == lines(old(output)@) + origin_metadata_lines(
            frame,
            *origin,
            destination,
        ),
{
    let ghost before = output@;
    match origin {
        MirObjectOrigin::Forwarded { carrier } => {
            let homes = frame.object_origins[carrier.index()].unwrap();
            output.push(
                Instruction::Move {
                    source: memory(Register::Rbp, homes.metadata()),
                    destination: Operand::Register(destination),
                },
            );
        },
        MirObjectOrigin::Exact { dynamic_class, .. } => {
            load_table_address(dispatch, *dynamic_class, destination, output);
        },
        MirObjectOrigin::Shared { owner } => {
            load_shared_metadata(frame, *owner, destination, output);
            assert(lines(output@) =~= lines(before) + lines(
                shared_metadata_instructions(frame, *owner, destination),
            ));
        },
    }
    assert(lines(output@) =~= lines(before) + origin_metadata_lines(frame, *origin, destination));
}

/// The code address of a dispatch entry in `r11`: the origin's metadata,
/// then the word at `displacement` in it.
pub open spec fn dispatch_target_lines(
    frame: &FrameLayout,
    origin: MirObjectOrigin,
    displacement: i32,
) -> Seq<Seq<char>> {
    origin_metadata_lines(frame, origin, Register::R11) + seq![
        line_text(move_instruction(spec_memory(Register::R11, displacement), Register::R11)),
    ]
}

pub fn select_dispatch_target(
    frame: &FrameLayout,
    dispatch: &DispatchMetadata,
    origin: &MirObjectOrigin,
    displacement: i32,
    output: &mut Vec<Instruction>,
)
    requires
        origin_metadata_ready(frame, dispatch, *origin),
    ensures
        old(output)@.len() <= final(output)@.len(),
        final(output)@.subrange(0, old(output)@.len() as int) == old(output)@,
        forall|i: int| 0 <= i < old(output)@.len() ==> #[trigger] final(output)@[i] == old(output)@[i],
        lines(final(output)@) == lines(old(output)@) + dispatch_target_lines(
            frame,
            *origin,
            displacement,
        ),
{
    let ghost before = lines(output@);
    load_origin_metadata(frame, dispatch, origin, Register::R11, output);
    output.push(
        Instruction::Move {
            source: Operand::Memory { base: Register::R11, displacement },
            destination: Operand::Register(Register::R11),
        },
    );
    assert(lines(output@) =~= before + dispatch_target_lines(frame, *origin, displacement));
}

/// Selects the virtual-table entry of `slot`; a slot whose displacement
/// does not fit the addressing mode is an error and selects nothing.
pub fn select_virtual_target(
    frame: &FrameLayout,
    dispatch: &DispatchMetadata,
    origin: &MirObjectOrigin,
    slot: VirtualSlotId,
    output: &mut Vec<Instruction>,
) -> (r: Result<(), BackendError>)
    requires
        origin_metadata_ready(frame, dispatch, *origin),
    ensures
        old(output)@.len() <= final(output)@.len(),
        final(output)@.subrange(0, old(output)@.len() as int) == old(output)@,
        forall|i: int| 0 <= i < old(output)@.len() ==> #[trigger] final(output)@[i] == old(output)@[i],
        match spec_entry_displacement(slot.idx as int) {
            Some(displacement) => r is Ok && lines(final(output)@) == lines(old(output)@)
                + dispatch_target_lines(frame, *origin, displacement),
            None => r matches Err(error) && error_is(
                error,
                None,
                displacement_message("virtual table"@),
            ) && final(output)@ == old(output)@,
        },
{
    let displacement = match DispatchMetadata::slot_displacement(slot) {
        Ok(displacement) => displacement,
        Err(error) => return Err(error),
    };
    select_dispatch_target(frame, dispatch, origin, displacement, output);
    Ok(())
}

/// The witness-table entry of an interface requirement.
pub open spec fn requirement_entry(dispatch: &DispatchMetadata, requirement: InterfaceRequirementId) -> Option<i32> {
    let index = dispatch.interface_starts@[requirement.owner.idx as int] + requirement.idx;
    if index <= usize::MAX {
        spec_entry_displacement(index)
    } else {
        None
    }
}

/// Selects the witness-table entry of an interface requirement; a
/// requirement whose displacement does not fit is an error and selects
/// nothing.
pub fn select_interface_target(
    frame: &FrameLayout,
    dispatch: &DispatchMetadata,
    origin: &MirObjectOrigin,
    requirement: InterfaceRequirementId,
    output: &mut Vec<Instruction>,
) -> (r: Result<(), BackendError>)
    requires
        origin_metadata_ready(frame, dispatch, *origin),
        requirement.owner.idx < dispatch.interface_starts@.len(),
    ensures
        old(output)@.len() <= final(output)@.len(),
        final(output)@.subrange(0, old(output)@.len() as int) == old(output)@,
        forall|i: int| 0 <= i < old(output)@.len() ==> #[trigger] final(output)@[i] == old(output)@[i],
        match requirement_entry(dispatch, requirement) {
            Some(displacement) => r is Ok && lines(final(output)@) == lines(old(output)@)
                + dispatch_target_lines(frame, *origin, displacement),
            None => r matches Err(error) && error_is(
                error,
                None,
                displacement_message("interface witness table"@),
            ) && final(output)@ == old(output)@,
        },
{
    let displacement = match dispatch.requirement_displacement(requirement) {
        Ok(displacement) => displacement,
        Err(error) => return Err(error),
    };
    select_dispatch_target(frame, dispatch, origin, displacement, output);
    Ok(())
}

/// The type a projection leads to, when what it names is declared.
pub open spec fn projection_type(program: &MirProgram, projection: MirPlaceProjection) -> Option<
    MirType,
> {
    match projection {
        MirPlaceProjection::Base(base) => Some(MirType::Class(base)),
        MirPlaceProjection::Field(field) => match spec_field(program, field) {
            Some(declared) => Some(declared.ty),
            None => None,
        },
        MirPlaceProjection::OptionalPayload(class) => Some(MirType::Class(class)),
        MirPlaceProjection::ArrayElement { array, .. } => match spec_array_type(program, array) {
            Some(declared) => Some(declared.element),
            None => None,
        },
    }
}

/// Whether every projection names a declaration.
pub open spec fn projections_typed(program: &MirProgram, projections: Seq<MirPlaceProjection>) -> bool {
    forall|k: int| 0 <= k < projections.len() ==> #[trigger] projection_type(program, projections[k]) is Some
}

/// The last projection that reaches a complete class object (any but a
/// base projection, landing on a class), with that class.
pub open spec fn last_complete_object(
    program: &MirProgram,
    projections: Seq<MirPlaceProjection>,
) -> Option<(int, ClassId)>
    decreases projections.len(),
{
    if projections.len() == 0 {
        None
    } else {
        let last = projections.last();
        match projection_type(program, last) {
            Some(MirType::Class(class)) => if !(last is Base) {
                Some(((projections.len() - 1) as int, class))
            } else {
                last_complete_object(program, projections.drop_last())
            },
            _ => last_complete_object(program, projections.drop_last()),
        }
    }
}

fn truncated_place(place: &MirPlace, length: usize) -> (r: MirPlace)
    requires
        length <= place.projections@.len(),
    ensures
        r.base == place.base,
        r.projections@ == place.projections@.take(length as int),
{
    let mut projections: Vec<MirPlaceProjection> = Vec::new();
    let mut k: usize = 0;
    while k < length
        invariant
            k <= length <= place.projections@.len(),
            projections@ == place.projections@.take(k as int),
        decreases length - k,
    {
        projections.push(place.projections[k]);
        assert(place.projections@.take(k + 1) =~= place.projections@.take(k as int).push(place.projections@[k as int]));
        k = k + 1;
    }
    MirPlace { base: place.base, projections }
}

/// The complete object that a projected place lies in, when a projection
/// reaches a class object: the place up to the last such projection.
pub fn projected_exact_object(program: &MirProgram, place: &MirPlace) -> (r: Option<(MirPlace, ClassId)>)
    requires
        projections_typed(program, place.projections@),
    ensures
        match last_complete_object(program, place.projections@) {
            Some((k, class)) => r matches Some((complete, found)) && complete.base == place.base
                && complete.projections@ == place.projections@.take(k + 1) && found == class,
            None => r is None,
        },
{
    let mut exact: Option<(usize, ClassId)> = None;
    let mut k: usize = 0;
    while k < place.projections.len()
        invariant
            k <= place.projections@.len(),
            projections_typed(program, place.projections@),
            match last_complete_object(program, place.projections@.take(k as int)) {
                Some((j, class)) => 0 <= j < k && exact == Some((j as usize, class)),
                None => exact is None,
            },
        decreases place.projections@.len() - k,
    {
        let projection = place.projections[k];
        assert(place.projections@.take(k + 1).drop_last() =~= place.projections@.take(k as int));
        assert(place.projections@.take(k + 1).last() == projection);
        assert(projection_type(program, place.projections@[k as int]) is Some);
        let ty = match projection {
            MirPlaceProjection::Base(base) => MirType::Class(base),
            MirPlaceProjection::Field(field) => program.field(field).unwrap().ty,
            MirPlaceProjection::OptionalPayload(class) => MirType::Class(class),
            MirPlaceProjection::ArrayElement { array, .. } => program.array_type(array).unwrap().element,
        };
        let establishes = match projection {
            MirPlaceProjection::Base(_) => false,
            _ => true,
        };
        if establishes {
            match ty {
                MirType::Class(class) => {
                    exact = Some((k, class));
                },
                _ => {},
            }
        }
        k = k + 1;
    }
    assert(place.projections@.take(place.projections@.len() as int) =~= place.projections@);
    match exact {
        Some((index, class)) => Some((truncated_place(place, index + 1), class)),
        None => None,
    }
}

/// The static field a place is rooted at, if any.
pub open spec fn static_root(base: MirPlaceBase) -> Option<StaticFieldId> {
    match base {
        MirPlaceBase::StaticField(field) => Some(field),
        MirPlaceBase::StaticLifecycleDestination(field) => Some(field),
        _ => None,
    }
}

/// A place rooted at a static class field lies in that field's object: the
/// root with no projections, and the field's class.
pub fn static_exact_object(program: &MirProgram, place: &MirPlace) -> (r: Option<(MirPlace, ClassId)>)
    requires
        static_fields_unique(program),
    ensures
        match static_root(place.base) {
            Some(field) => match spec_static_field(program, field) {
                Some(declared) => match declared.ty {
                    MirType::Class(class) => r matches Some((complete, found)) && complete.base
                        == place.base && complete.projections@.len() == 0 && found == class,
                    _ => r is None,
                },
                None => r is None,
            },
            None => r is None,
        },
{
    let field = match place.base {
        MirPlaceBase::StaticField(field) => field,
        MirPlaceBase::StaticLifecycleDestination(field) => field,
        _ => return None,
    };
    let declared = match program.static_field(field) {
        Some(declared) => declared,
        None => return None,
    };
    match declared.ty {
        MirType::Class(class) => Some((MirPlace { base: place.base, projections: Vec::new() }, class)),
        _ => None,
    }
}

} // verus!
