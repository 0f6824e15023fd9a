//! Peer-to-peer call set-up: the connection table, the command vocabulary that
//! links the components, and the decisions of the command router, the
//! signaling adapter and the negotiation orchestrator.

pub mod state;
pub mod scheduler;
pub mod protocol;
pub mod utils;
pub mod coupler;
pub mod peer;
