//! Errors of the control plane.
use vstd::prelude::*;

verus! {

/// Why the control plane refuses a call.
#[derive(Clone, Copy, Debug, PartialEq, Eq)]
pub enum HttpControlError {
    Busy,
    InvalidConfig,
    ResponseTooLarge,
    InvalidParams(&'static str),
    Unsupported(&'static str),
    /// A task specification was refused, by the number of the reason.
    TaskSpec(u16),
    OptionPatchRejected(u16),
    Other(u16),
}

} // verus!
