//! The terminator that ends each block of a lowered body: fixed failures,
//! the checks that guard shifts, divisions, casts and array operations,
//! optional access, and the ordinary returns, jumps and branches.

use vstd::prelude::*;

use crate::arithmetic::{
    check_terminator_lines, select_integer_division_terminator, select_shift_terminator,
};
use crate::array_selection::{array_terminator_lines, array_terminator_ready, select_array_terminator};
use crate::body::{BlockId, MirTerminator};
use crate::error::{BackendError, error_is};
use crate::frame::FrameLayout;
use crate::identity::CallableId;
use crate::layout::{DataLayout, data_layout_wf};
use crate::listing::lines;
use crate::machine::{Instruction, Label};
use crate::mir::{MirDefinition, MirType};
use crate::optional_access::{
    optional_terminator_lines, optional_terminator_ready, select_optional_terminator,
};
use crate::panic_message::{spec_for_reason, static_panic_lines};
use crate::primitive_cast::{range_check_lines, select_primitive_cast_terminator};
use crate::terminator::{homes_cover, ordinary_lines, select, select_termination, unexecutable_message};

verus! {

/// Every storage and value a terminator reads has a frame home.
pub open spec fn block_terminator_ready(
    function: &MirDefinition,
    frame: &FrameLayout,
    terminator: MirTerminator,
) -> bool {
    &&& homes_cover(terminator, frame)
    &&& array_terminator_ready(frame, terminator)
    &&& optional_terminator_ready(function, frame, terminator)
    &&& terminator matches MirTerminator::ShiftCountCheck { check, .. } ==> check.count.idx
        < frame.storage_offsets@.len()
    &&& terminator matches MirTerminator::IntegerDivisorCheck { check, .. } ==> check.divisor.idx
        < frame.storage_offsets@.len()
    &&& terminator matches MirTerminator::PrimitiveCastRangeCheck { check, .. } ==> check.source.idx
        < frame.storage_offsets@.len()
}

/// The lines that end a block, or the diagnostic that stops the body.
pub open spec fn block_terminator_lines(
    data_layout: &DataLayout,
    function: &MirDefinition,
    frame: &FrameLayout,
    block: BlockId,
    sequence: nat,
    terminator: MirTerminator,
    return_type: MirType,
    epilogue: Seq<char>,
) -> Result<Seq<Seq<char>>, (Option<CallableId>, Seq<char>)> {
    match terminator {
        MirTerminator::Terminate { reason } => match spec_for_reason(reason) {
            Some(message) => Ok(static_panic_lines(message)),
            None => Err((Some(function.callable), unexecutable_message(reason))),
        },
        MirTerminator::ShiftCountCheck { .. } | MirTerminator::IntegerDivisorCheck { .. } => Ok(
            check_terminator_lines(frame, terminator),
        ),
        MirTerminator::PrimitiveCastRangeCheck { .. } => Ok(range_check_lines(frame, terminator)),
        MirTerminator::ArrayOperationCheck { .. }
        | MirTerminator::ArrayLoop { .. }
        | MirTerminator::ArrayPositionCheck { .. } => Ok(array_terminator_lines(frame, terminator)),
        MirTerminator::OptionalSharedUnwrap { .. }
        | MirTerminator::OptionalUnwrap { .. }
        | MirTerminator::BeginOptionalView { .. }
        | MirTerminator::CheckOptionalMutation { .. } => optional_terminator_lines(
            data_layout,
            function,
            frame,
            block,
            sequence,
            terminator,
        ),
        _ => Ok(ordinary_lines(terminator, frame, return_type, epilogue)),
    }
}

/// Selects the terminator of `block`: each kind of terminator goes to its
/// selector, and returns, jumps and branches to the ordinary one, which
/// returns through `epilogue`.
pub fn select_block_terminator(
    data_layout: &DataLayout,
    function: &MirDefinition,
    frame: &FrameLayout,
    block: BlockId,
    terminator: &MirTerminator,
    return_type: MirType,
    epilogue: &Label,
    sequence: &mut usize,
    output: &mut Vec<Instruction>,
) -> (r: Result<(), BackendError>)
    requires
        data_layout_wf(data_layout),
        block_terminator_ready(function, frame, *terminator),
        *old(sequence) < usize::MAX - 2,
    ensures
        match block_terminator_lines(
            data_layout,
            function,
            frame,
            block,
            *old(sequence) as nat,
            *terminator,
            return_type,
            epilogue.text@,
        ) {
            Ok(expected) => r is Ok && lines(final(output)@) == lines(old(output)@) + expected,
            Err((owner, message)) => r matches Err(error) && error_is(error, owner, message),
        },
{
    match select_termination(function.callable, terminator, output) {
        Ok(true) => return Ok(()),
        Ok(false) => {},
        Err(error) => return Err(error),
    }
    if select_shift_terminator(frame, terminator, output) {
        return Ok(());
    }
    if select_integer_division_terminator(frame, terminator, output) {
        return Ok(());
    }
    if select_primitive_cast_terminator(frame, terminator, output) {
        return Ok(());
    }
    let ghost start = lines(output@);
    if select_array_terminator(frame, terminator, output) {
        return Ok(());
    }
    assert(lines(output@) == start + Seq::<Seq<char>>::empty());
    match select_optional_terminator(data_layout, function, frame, block, terminator, sequence, output) {
        Ok(true) => return Ok(()),
        Ok(false) => {},
        Err(error) => return Err(error),
    }
    assert(lines(output@) =~= start);
    select(terminator, frame, return_type, epilogue, output);
    Ok(())
}

} // verus!
