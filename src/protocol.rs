//! Facts about the handshake as the scheduler drives it.
use vstd::prelude::*;

use crate::coupler::inbound;
use crate::scheduler::{
    negotiating, run, step, Command, Effect, GUICommand, PeerCommand, StateCommand, ThreadTypes,
    WSCommand,
};
use crate::state::{
    any_at, has_id, ids_unique, lemma_move_all, lemma_upsert, progress_of, upsert, ConnectionProgress,
    StateView, UserId, SDP,
};

verus! {

/// Setting a connection to the progress that it already has changes nothing.
proof fn lemma_upsert_same(cs: Seq<crate::state::ConnectionView>, r: Seq<char>, p: ConnectionProgress)
    requires
        ids_unique(cs),
        progress_of(cs, r) == Some(p),
    ensures
        upsert(cs, r, p) == cs,
{
    let k = choose|k: int| 0 <= k < cs.len() && cs[k].id == r;
    assert forall|i: int| 0 <= i < cs.len() && cs[i].id == r implies cs[i].progress == p by {
        if i < k {
            assert(cs[i].id != cs[k].id);
        } else if i > k {
            assert(cs[k].id != cs[i].id);
        }
    }
    assert(upsert(cs, r, p) =~= cs);
}

/// No command leaves two connections with the same remote identifier.
pub proof fn lemma_step_keeps_ids_unique(s: StateView, c: Command)
    requires
        ids_unique(s.connections),
    ensures
        ids_unique(step(s, c).0.connections),
{
    let cs = s.connections;
    match c {
        Command::GUI(GUICommand::CallRequest(r)) => {
            lemma_upsert(cs, r@, ConnectionProgress::CallRequestSent);
        },
        Command::GUI(GUICommand::CallAnswer(accepted, r)) => {
            lemma_upsert(cs, r@, ConnectionProgress::CallAnswerSent);
            lemma_upsert(cs, r@, ConnectionProgress::Closed);
        },
        Command::State(StateCommand::SetProgress(r, p)) => {
            lemma_upsert(cs, r@, p);
        },
        _ => {
            let sent = ConnectionProgress::CallRequestSent;
            let a = ConnectionProgress::CallAnswerSent;
            let b = ConnectionProgress::CallAnswerReceived;
            lemma_move_all(cs, sent, sent, ConnectionProgress::Closed);
            lemma_move_all(cs, sent, sent, ConnectionProgress::CallAnswerReceived);
            lemma_move_all(cs, a, b, ConnectionProgress::Established);
            lemma_move_all(cs, a, b, ConnectionProgress::Closed);
        },
    }
}

/// However many commands arrive, in whatever order, and however often one is
/// replayed, the table never holds two connections with the same remote
/// identifier.
pub proof fn lemma_run_keeps_ids_unique(s: StateView, cs: Seq<Command>)
    requires
        ids_unique(s.connections),
    ensures
        ids_unique(run(s, cs).0.connections),
    decreases cs.len(),
{
    if cs.len() > 0 {
        lemma_run_keeps_ids_unique(s, cs.drop_last());
        lemma_step_keeps_ids_unique(run(s, cs.drop_last()).0, cs.last());
    }
}

/// A progress update for a remote identifier creates its connection only
/// where there was none, sets it to the reported progress, and replaying the
/// same update changes nothing more.
pub proof fn lemma_replayed_update_single_entry(s: StateView, r: UserId, p: ConnectionProgress)
    requires
        ids_unique(s.connections),
        p != ConnectionProgress::Established,
    ensures
        ({
            let c = Command::State(StateCommand::SetProgress(r, p));
            let t = step(s, c).0;
            &&& ids_unique(t.connections)
            &&& has_id(t.connections, r@)
            &&& progress_of(t.connections, r@) == Some(p)
            &&& t.connections.len() == if has_id(s.connections, r@) {
                s.connections.len()
            } else {
                s.connections.len() + 1
            }
            &&& step(t, c).0 == t
        }),
{
    let t = step(s, Command::State(StateCommand::SetProgress(r, p))).0;
    lemma_upsert(s.connections, r@, p);
    lemma_upsert_same(t.connections, r@, p);
}

/// A call request read from the relay for a peer not yet in the table
/// creates exactly one connection for it, at `CallRequestReceived`; read again,
/// it adds none.
pub proof fn lemma_replayed_call_request_single_entry(s: StateView, r: UserId)
    requires
        ids_unique(s.connections),
        !has_id(s.connections, r@),
    ensures
        ({
            let c = inbound(WSCommand::CallRequest(r));
            let t = step(s, c).0;
            &&& ids_unique(t.connections)
            &&& t.connections.len() == s.connections.len() + 1
            &&& progress_of(t.connections, r@) == Some(ConnectionProgress::CallRequestReceived)
            &&& step(t, c).0 == t
        }),
{
    lemma_replayed_update_single_entry(s, r, ConnectionProgress::CallRequestReceived);
}

/// Commands sent one after the other take effect in that order: the state
/// after three commands is the state after the first, then the second, then
/// the third, and what is sent comes out in the same order.
pub proof fn lemma_commands_apply_in_order(s: StateView, c1: Command, c2: Command, c3: Command)
    ensures
        run(s, seq![c1, c2, c3]).0 == step(step(step(s, c1).0, c2).0, c3).0,
        run(s, seq![c1, c2, c3]).1 == step(s, c1).1 + step(step(s, c1).0, c2).1 + step(
            step(step(s, c1).0, c2).0,
            c3,
        ).1,
{
    let cs = seq![c1, c2, c3];
    assert(cs.drop_last() =~= seq![c1, c2]);
    assert(seq![c1, c2].drop_last() =~= seq![c1]);
    assert(seq![c1].drop_last() =~= Seq::<Command>::empty());
    reveal_with_fuel(run, 4);
    assert(run(s, seq![c1]).1 =~= step(s, c1).1);
}

/// Rejecting a received call request closes the connection and tells the
/// requester, through the relay, that the call was not accepted.
pub proof fn lemma_rejection_closes(s: StateView, r: UserId)
    requires
        ids_unique(s.connections),
        progress_of(s.connections, r@) == Some(ConnectionProgress::CallRequestReceived),
    ensures
        ({
            let (t, out) = step(s, Command::GUI(GUICommand::CallAnswer(false, r)));
            &&& progress_of(t.connections, r@) == Some(ConnectionProgress::Closed)
            &&& out == seq![
                Effect::Snapshot(t),
                Effect::Send(ThreadTypes::Coupler, Command::WS(WSCommand::CallAnswer(false, None))),
            ]
        }),
{
    lemma_upsert(s.connections, r@, ConnectionProgress::Closed);
}

/// On the side that requests a call which the remote peer accepts, the
/// connection goes from closed to `CallRequestSent`, advances to
/// `CallAnswerReceived` on the answer (handing its descriptor to the
/// negotiation orchestrator), keeps that progress while the reply is sent, and
/// is `Established` once the channel opens.
pub proof fn lemma_requester_path(s: StateView, r: UserId, answer: SDP, reply: SDP)
    requires
        ids_unique(s.connections),
        progress_of(s.connections, r@) is None || progress_of(s.connections, r@) == Some(
            ConnectionProgress::Closed,
        ),
    ensures
        ({
            let (s1, o1) = step(s, Command::GUI(GUICommand::CallRequest(r)));
            let (s2, o2) = step(s1, Command::WS(WSCommand::CallAnswer(true, Some(answer))));
            let (s3, o3) = step(s2, Command::Peer(PeerCommand::CallReply(reply)));
            let (s4, o4) = step(s3, Command::Peer(PeerCommand::ChannelOpen));
            &&& progress_of(s1.connections, r@) == Some(ConnectionProgress::CallRequestSent)
            &&& o1[1] == Effect::Send(ThreadTypes::Coupler, Command::WS(WSCommand::CallRequest(r)))
            &&& progress_of(s2.connections, r@) == Some(ConnectionProgress::CallAnswerReceived)
            &&& o2[1] == Effect::Send(
                ThreadTypes::Peer,
                Command::Peer(PeerCommand::EstablishConnection(answer, false)),
            )
            &&& progress_of(s3.connections, r@) == Some(ConnectionProgress::CallAnswerReceived)
            &&& o3 == seq![
                Effect::Send(ThreadTypes::Coupler, Command::WS(WSCommand::CallReply(reply))),
            ]
            &&& progress_of(s4.connections, r@) == Some(ConnectionProgress::Established)
        }),
{
    let cs = s.connections;
    let sent = ConnectionProgress::CallRequestSent;
    let a = ConnectionProgress::CallAnswerSent;
    let b = ConnectionProgress::CallAnswerReceived;
    lemma_upsert(cs, r@, sent);
    let s1 = step(s, Command::GUI(GUICommand::CallRequest(r))).0;
    lemma_move_all(s1.connections, sent, sent, b);
    let s2 = step(s1, Command::WS(WSCommand::CallAnswer(true, Some(answer)))).0;
    assert(any_at(s1.connections, sent, sent));
    assert(any_at(s2.connections, a, b));
    lemma_move_all(s2.connections, a, b, ConnectionProgress::Established);
}

/// On the side that accepts a call, the connection goes from
/// `CallRequestReceived` to `CallAnswerSent` (opening an engine session), keeps
/// that progress while the answer goes out and the reply comes back (the reply
/// is handed on as final), and is `Established` once the channel opens.
pub proof fn lemma_acceptor_path(s: StateView, r: UserId, answer: SDP, reply: SDP)
    requires
        ids_unique(s.connections),
    ensures
        ({
            let (s1, o1) = step(
                s,
                Command::State(
                    StateCommand::SetProgress(r, ConnectionProgress::CallRequestReceived),
                ),
            );
            let (s2, o2) = step(s1, Command::GUI(GUICommand::CallAnswer(true, r)));
            let (s3, o3) = step(s2, Command::Peer(PeerCommand::CallAnswer(answer)));
            let (s4, o4) = step(s3, Command::WS(WSCommand::CallReply(reply)));
            let (s5, o5) = step(s4, Command::Peer(PeerCommand::ChannelOpen));
            &&& progress_of(s1.connections, r@) == Some(ConnectionProgress::CallRequestReceived)
            &&& progress_of(s2.connections, r@) == Some(ConnectionProgress::CallAnswerSent)
            &&& o2[1] == Effect::Send(
                ThreadTypes::Peer,
                Command::Peer(PeerCommand::NewPeerConnection(r)),
            )
            &&& progress_of(s3.connections, r@) == Some(ConnectionProgress::CallAnswerSent)
            &&& o3 == seq![
                Effect::Send(
                    ThreadTypes::Coupler,
                    Command::WS(WSCommand::CallAnswer(true, Some(answer))),
                ),
            ]
            &&& progress_of(s4.connections, r@) == Some(ConnectionProgress::CallAnswerSent)
            &&& o4 == seq![
                Effect::Send(
                    ThreadTypes::Peer,
                    Command::Peer(PeerCommand::EstablishConnection(reply, true)),
                ),
            ]
            &&& progress_of(s5.connections, r@) == Some(ConnectionProgress::Established)
        }),
{
    let a = ConnectionProgress::CallAnswerSent;
    let b = ConnectionProgress::CallAnswerReceived;
    lemma_upsert(s.connections, r@, ConnectionProgress::CallRequestReceived);
    let s1 = step(
        s,
        Command::State(StateCommand::SetProgress(r, ConnectionProgress::CallRequestReceived)),
    ).0;
    lemma_upsert(s1.connections, r@, a);
    let s2 = step(s1, Command::GUI(GUICommand::CallAnswer(true, r))).0;
    assert(any_at(s2.connections, a, b));
    lemma_move_all(s2.connections, a, b, ConnectionProgress::Established);
}

/// A connection becomes `Established` only from a handshake whose engine
/// session is open on this side (`CallAnswerSent` or `CallAnswerReceived`):
/// no command skips there from an earlier stage.
pub proof fn lemma_established_only_after_negotiation(s: StateView, c: Command, r: Seq<char>)
    requires
        ids_unique(s.connections),
        progress_of(step(s, c).0.connections, r) == Some(ConnectionProgress::Established),
        progress_of(s.connections, r) != Some(ConnectionProgress::Established),
    ensures
        match progress_of(s.connections, r) {
            Some(q) => negotiating(q),
            None => false,
        },
{
    let cs = s.connections;
    let sent = ConnectionProgress::CallRequestSent;
    let a = ConnectionProgress::CallAnswerSent;
    let b = ConnectionProgress::CallAnswerReceived;
    match c {
        Command::GUI(GUICommand::CallRequest(x)) => {
            lemma_upsert(cs, x@, sent);
        },
        Command::GUI(GUICommand::CallAnswer(accepted, x)) => {
            lemma_upsert(cs, x@, a);
            lemma_upsert(cs, x@, ConnectionProgress::Closed);
        },
        Command::State(StateCommand::SetProgress(x, p)) => {
            lemma_upsert(cs, x@, p);
        },
        _ => {
            lemma_move_all(cs, sent, sent, ConnectionProgress::Closed);
            lemma_move_all(cs, sent, sent, b);
            lemma_move_all(cs, a, b, ConnectionProgress::Established);
            lemma_move_all(cs, a, b, ConnectionProgress::Closed);
        },
    }
}

} // verus!
