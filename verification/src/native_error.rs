//! Errors of the embedding interface.
use vstd::prelude::*;
use crate::control::HttpControlError;
use crate::rpc_budget::RpcBudgetError;
use crate::rpc_events::RpcEventError;

verus! {

/// Why a call of the embedding interface fails.
#[derive(Debug)]
pub enum NativeApiError {
    InvalidConfiguration(&'static str),
    Bootstrap(String),
    Control(HttpControlError),
    InvalidResponse(&'static str),
    Event(RpcEventError),
    Shutdown(String),
}

impl NativeApiError {
    /// The message; that of the control plane's error is given.
    pub open spec fn spec_message(self, control: Seq<char>) -> Seq<char> {
        match self {
            NativeApiError::InvalidConfiguration(message) => message@,
            NativeApiError::Bootstrap(message) => "engine bootstrap failed: "@ + message@,
            NativeApiError::Control(_) => control,
            NativeApiError::InvalidResponse(message) => message@,
            NativeApiError::Event(error) => error.spec_message(),
            NativeApiError::Shutdown(message) => "engine shutdown failed: "@ + message@,
        }
    }

    pub fn message(&self, control: &str) -> (r: String)
        ensures
            r@ == self.spec_message(control@),
    {
        match self {
            NativeApiError::InvalidConfiguration(message) => (*message).to_owned(),
            NativeApiError::Bootstrap(message) => {
                let mut r = "engine bootstrap failed: ".to_owned();
                r.append(message.as_str());
                r
            },
            NativeApiError::Control(_) => control.to_owned(),
            NativeApiError::InvalidResponse(message) => (*message).to_owned(),
            NativeApiError::Event(error) => error.message().to_owned(),
            NativeApiError::Shutdown(message) => {
                let mut r = "engine shutdown failed: ".to_owned();
                r.append(message.as_str());
                r
            },
        }
    }
}

/// A budget that is used up makes the engine busy.
pub fn native_budget_error(error: RpcBudgetError) -> (r: NativeApiError)
    ensures
        r == NativeApiError::Control(HttpControlError::Busy),
{
    NativeApiError::Control(HttpControlError::Busy)
}

} // verus!
