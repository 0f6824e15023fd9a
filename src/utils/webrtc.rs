use vstd::prelude::*;

use crate::state::ChaosMessage;
use crate::utils::message::CCMessage;

verus! {

/// What can be handed to the direct peer channel.
#[derive(Clone, Debug, PartialEq)]
pub enum CommunicationType {
    MakeConnection(String),
    SendMessage(ChaosMessage),
    SetClientSDP(String),
    SendCCMessage(CCMessage),
}

} // verus!
