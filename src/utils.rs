use vstd::prelude::*;

use crate::scheduler::ThreadTypes;

pub mod crypto;
pub mod message;
pub mod webrtc;

verus! {

/// A component that can be linked to another through a channel attachment.
pub trait Attach<T> {
    fn attach(&mut self, channel_attachment: T, thread: Option<ThreadTypes>);
}

/// A component that runs as its own task.
pub trait ChaosThread {
    fn start();
}

} // verus!
