//! The signaling adapter's decisions: which scheduler command a message read
//! from the relay becomes, and which scheduler commands are written to it.
use vstd::prelude::*;

use crate::scheduler::{Command, StateCommand, WSCommand};
use crate::state::ConnectionProgress;

verus! {

/// The scheduler command for a message read from the relay: an assigned
/// identifier and a call request update the table; answers, replies and
/// failures are forwarded as they are, for the scheduler to route.
pub open spec fn inbound(msg: WSCommand) -> Command {
    match msg {
        WSCommand::SetClientId(id) => Command::State(StateCommand::SetClientId(id)),
        WSCommand::CallRequest(r) => Command::State(
            StateCommand::SetProgress(r, ConnectionProgress::CallRequestReceived),
        ),
        other => Command::WS(other),
    }
}

/// The commands for a stream of messages read from the relay, in order; a
/// message that could not be decoded (`None`) gives none.
pub open spec fn inbound_all(msgs: Seq<Option<WSCommand>>) -> Seq<Command>
    decreases msgs.len(),
{
    if msgs.len() == 0 {
        Seq::empty()
    } else {
        inbound_all(msgs.drop_last()) + match msgs.last() {
            Some(m) => seq![inbound(m)],
            None => Seq::empty(),
        }
    }
}

/// The scheduler command for one message read from the relay; `None` where
/// the message could not be decoded, which is dropped.
pub fn inbound_command(msg: Option<WSCommand>) -> (c: Option<Command>)
    ensures
        c == match msg {
            Some(m) => Some(inbound(m)),
            None => None,
        },
{
    match msg {
        None => None,
        Some(WSCommand::SetClientId(id)) => Some(Command::State(StateCommand::SetClientId(id))),
        Some(WSCommand::CallRequest(r)) => Some(
            Command::State(StateCommand::SetProgress(r, ConnectionProgress::CallRequestReceived)),
        ),
        Some(other) => Some(Command::WS(other)),
    }
}

/// The scheduler commands for messages read from the relay, in order.
pub fn inbound_commands(msgs: Vec<Option<WSCommand>>) -> (cs: Vec<Command>)
    ensures
        cs@ == inbound_all(msgs@),
{
    let ghost all = msgs@;
    let mut msgs = msgs;
    let mut out: Vec<Command> = Vec::new();
    let n = msgs.len();
    let mut k: usize = 0;
    while k < n
        invariant
            n == all.len(),
            k <= n,
            msgs@ == all.subrange(k as int, n as int),
            out@ == inbound_all(all.subrange(0, k as int)),
        decreases n - k,
    {
        let m = msgs.remove(0);
        proof {
            let prefix = all.subrange(0, k + 1);
            assert(prefix.drop_last() =~= all.subrange(0, k as int));
            assert(prefix.last() == m);
        }
        match inbound_command(m) {
            Some(c) => {
                out.push(c);
            },
            None => {},
        }
        assert(out@ =~= inbound_all(all.subrange(0, k + 1)));
        k = k + 1;
        assert(msgs@ =~= all.subrange(k as int, n as int));
    }
    assert(all.subrange(0, n as int) =~= all);
    out
}

/// A message that could not be decoded gives no command and does not keep the
/// next message from being handled.
pub proof fn lemma_malformed_message_skipped(before: Seq<Option<WSCommand>>, next: WSCommand)
    ensures
        inbound_all(before.push(None).push(Some(next))) == inbound_all(before) + seq![
            inbound(next),
        ],
{
    assert(before.push(None).push(Some(next)).drop_last() =~= before.push(None));
    assert(before.push(None).drop_last() =~= before);
    assert(inbound_all(before.push(None)) =~= inbound_all(before));
}

/// The wire message to write to the relay for a scheduler command, if it is
/// one.
pub fn outbound_message(command: Command) -> (m: Option<WSCommand>)
    ensures
        m == match command {
            Command::WS(w) => Some(w),
            _ => None,
        },
{
    match command {
        Command::WS(w) => Some(w),
        _ => None,
    }
}

} // verus!
