//! Direct and dynamic call targets: a direct call names its symbol; a
//! virtual or interface call reads its entry through the receiver's
//! dynamic metadata and calls through `r11`.

use vstd::prelude::*;

use crate::dispatch::{DispatchMetadata, displacement_message, spec_entry_displacement};
use crate::error::{BackendError, error_is};
use crate::frame::FrameLayout;
use crate::identity::{CallableId, InterfaceRequirementId, MethodId, VirtualSlotId};
use crate::listing::{lemma_lines_push, lines, one_operand_line};
use crate::machine::{Instruction, Register, register_name};
use crate::mir::MirObjectOrigin;
use crate::object_abi::{
    dispatch_target_lines, origin_metadata_ready, requirement_entry, select_interface_target,
    select_virtual_target,
};
use crate::symbol::{callable, callable_text};

verus! {

broadcast use lemma_lines_push;

/// What a call transfers control to.
#[derive(Clone, Copy, Debug, PartialEq, Eq, Structural)]
pub enum CallTarget {
    Direct(CallableId),
    Virtual { selected: MethodId, slot: VirtualSlotId },
    Interface(InterfaceRequirementId),
}

/// The displacement of a dynamic target's table entry, when it fits.
pub open spec fn target_entry(dispatch: &DispatchMetadata, target: CallTarget) -> Option<i32> {
    match target {
        CallTarget::Direct(_) => None,
        CallTarget::Virtual { slot, .. } => spec_entry_displacement(slot.idx as int),
        CallTarget::Interface(requirement) => requirement_entry(dispatch, requirement),
    }
}

/// A dynamic call: the entry in `r11`, then `call r11`.
pub open spec fn dynamic_call_lines(
    frame: &FrameLayout,
    origin: MirObjectOrigin,
    displacement: i32,
) -> Seq<Seq<char>> {
    dispatch_target_lines(frame, origin, displacement) + seq![
        one_operand_line("call"@, register_name(Register::R11)),
    ]
}

impl CallTarget {
    pub fn direct(target: CallableId) -> (r: Self)
        ensures
            r == CallTarget::Direct(target),
    {
        CallTarget::Direct(target)
    }

    /// Whether the target is read from dispatch metadata.
    pub fn is_indirect(self) -> (r: bool)
        ensures
            r == !(self is Direct),
    {
        !matches!(self, CallTarget::Direct(_))
    }

    pub fn direct_callable(self) -> (r: Option<CallableId>)
        ensures
            r == match self {
                CallTarget::Direct(target) => Some(target),
                _ => None::<CallableId>,
            },
    {
        match self {
            CallTarget::Direct(target) => Some(target),
            _ => None,
        }
    }

    /// Selects the call; a dynamic call reads its entry through the
    /// receiver's origin, and fails when the entry's displacement does not
    /// fit, having selected nothing.
    pub fn select(
        self,
        frame: &FrameLayout,
        dispatch: &DispatchMetadata,
        receiver: Option<&MirObjectOrigin>,
        output: &mut Vec<Instruction>,
    ) -> (r: Result<(), BackendError>)
        requires
            self is Direct || receiver is Some,
            receiver matches Some(origin) ==> origin_metadata_ready(frame, dispatch, *origin),
            self matches CallTarget::Interface(requirement) ==> requirement.owner.idx
                < dispatch.interface_starts@.len(),
        ensures
            old(output)@.len() <= final(output)@.len(),
            final(output)@.subrange(0, old(output)@.len() as int) == old(output)@,
            forall|i: int| 0 <= i < old(output)@.len() ==> #[trigger] final(output)@[i] == old(output)@[i],
            match self {
                CallTarget::Direct(target) => r is Ok && lines(final(output)@) == lines(
                    old(output)@,
                ).push(one_operand_line("call"@, callable_text(target))),
                _ => match target_entry(dispatch, self) {
                    Some(displacement) => r is Ok && lines(final(output)@) == lines(old(output)@)
                        + dynamic_call_lines(frame, *receiver.unwrap(), displacement),
                    None => r matches Err(error) && error_is(
                        error,
                        None,
                        displacement_message(
                            if self is Virtual {
                                "virtual table"@
                            } else {
                                "interface witness table"@
                            },
                        ),
                    ) && final(output)@ == old(output)@,
                },
            },
    {
        let ghost before = lines(output@);
        match self {
            CallTarget::Direct(target) => {
                output.push(Instruction::Call(callable(target)));
                Ok(())
            },
            CallTarget::Virtual { slot, .. } => {
                let origin = receiver.unwrap();
                match select_virtual_target(frame, dispatch, origin, slot, output) {
                    Ok(()) => {},
                    Err(error) => return Err(error),
                }
                output.push(Instruction::CallIndirect(Register::R11));
                assert(lines(output@) =~= before + dynamic_call_lines(
                    frame,
                    *origin,
                    spec_entry_displacement(slot.idx as int).unwrap(),
                ));
                Ok(())
            },
            CallTarget::Interface(requirement) => {
                let origin = receiver.unwrap();
                match select_interface_target(frame, dispatch, origin, requirement, output) {
                    Ok(()) => {},
                    Err(error) => return Err(error),
                }
                output.push(Instruction::CallIndirect(Register::R11));
                assert(lines(output@) =~= before + dynamic_call_lines(
                    frame,
                    *origin,
                    requirement_entry(dispatch, requirement).unwrap(),
                ));
                Ok(())
            },
        }
    }
}

/// Whether an instruction transfers control to a callee.
pub fn is_call(instruction: &Instruction) -> (r: bool)
    ensures
        r == (*instruction is Call || *instruction is CallIndirect),
{
    match instruction {
        Instruction::Call(_) => true,
        Instruction::CallIndirect(_) => true,
        _ => false,
    }
}

} // verus!
