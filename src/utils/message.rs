use vstd::prelude::*;

use crate::state::{UserId, SDP};

verus! {

/// Messages exchanged with the relay.
#[derive(Clone, Debug, PartialEq)]
pub enum CCMessage {
    SetClientId(UserId),
    CallRequest(UserId),
    CallAnswer(bool, Option<SDP>),
    CallReply(SDP),
    CallRequestFailure,
}

/// Errors that the relay reports.
#[derive(Clone, Copy, Debug, PartialEq, Eq, Structural)]
pub enum CCErrors {
    CallRequestFailure,
    NoError,
}

impl CCErrors {
    /// No error.
    pub fn default() -> (r: Self)
        ensures
            r == CCErrors::NoError,
    {
        Self::NoError
    }
}

} // verus!
