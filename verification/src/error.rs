//! Backend diagnostics.

use vstd::prelude::*;

use crate::identity::CallableId;

verus! {

/// The code-generation target that reports a diagnostic.
#[derive(Clone, Copy, Debug, PartialEq, Eq, Structural)]
pub enum Target {
    X86_64SysV,
}

/// A target limit or unsupported construct found while generating code.
#[derive(Clone, Debug, PartialEq, Eq)]
pub struct BackendError {
    pub target: Target,
    pub callable: Option<CallableId>,
    pub message: String,
}

impl BackendError {
    pub fn new(target: Target, callable: Option<CallableId>, message: String) -> (r: Self)
        ensures
            r.target == target,
            r.callable == callable,
            r.message@ == message@,
    {
        BackendError { target, callable, message }
    }

    pub fn target(&self) -> (r: Target)
        ensures
            r == self.target,
    {
        self.target
    }

    pub fn callable(&self) -> (r: Option<CallableId>)
        ensures
            r == self.callable,
    {
        self.callable
    }

    pub fn message(&self) -> (r: &str)
        ensures
            r@ == self.message@,
    {
        self.message.as_str()
    }
}

/// An x86-64 diagnostic with the given fixed text.
pub fn x86_error(callable: Option<CallableId>, message: &str) -> (r: BackendError)
    ensures
        r.target == Target::X86_64SysV,
        r.callable == callable,
        r.message@ == message@,
{
    BackendError::new(Target::X86_64SysV, callable, String::from_str(message))
}

/// The diagnostic has the given callable and text on the x86-64 target.
pub open spec fn error_is(error: BackendError, callable: Option<CallableId>, message: Seq<char>) -> bool {
    &&& error.target == Target::X86_64SysV
    &&& error.callable == callable
    &&& error.message@ == message
}

/// The executable result agrees with a specified value or diagnostic.
pub open spec fn outcome_is<T>(
    r: Result<T, BackendError>,
    expected: Result<T, (Option<CallableId>, Seq<char>)>,
) -> bool {
    match expected {
        Ok(value) => r == Ok::<T, BackendError>(value),
        Err((callable, message)) => r matches Err(error) && error_is(error, callable, message),
    }
}

} // verus!
