use vstd::prelude::*;

use crate::state::{
    any_at, ids_unique, move_all, progress_of, upsert, ConnectionProgress, IndependentState, StateView, UserId,
    SDP,
};

verus! {

/// Commands between the presentation layer and the scheduler.
#[derive(Clone, Debug, PartialEq)]
pub enum GUICommand {
    CallRequest(UserId),
    CallAnswer(bool, UserId),
    UpdateState(IndependentState),
}

/// Messages of the signaling wire protocol.
#[derive(Clone, Debug, PartialEq)]
pub enum WSCommand {
    SetClientId(UserId),
    CallRequest(UserId),
    CallRequestFailure,
    CallAnswer(bool, Option<SDP>),
    CallReply(SDP),
}

/// Commands between the scheduler and the negotiation orchestrator.
#[derive(Clone, Debug, PartialEq)]
pub enum PeerCommand {
    NewPeerConnection(UserId),
    CallAnswer(SDP),
    EstablishConnection(SDP, bool),
    CallReply(SDP),
    /// The negotiation engine opened the direct channel.
    ChannelOpen,
    /// The negotiation engine reported its connection as failed.
    ConnectionFailed,
}

/// Updates of the connection table.
#[derive(Clone, Debug, PartialEq)]
pub enum StateCommand {
    SetClientId(UserId),
    SetProgress(UserId, ConnectionProgress),
}

/// Every command that passes through the scheduler, by vocabulary.
#[derive(Clone, Debug, PartialEq)]
pub enum Command {
    GUI(GUICommand),
    WS(WSCommand),
    State(StateCommand),
    Peer(PeerCommand),
}

/// The components that attach to the scheduler.
#[derive(Clone, Copy, Debug, PartialEq, Eq, Structural, Hash)]
pub enum ThreadTypes {
    Coupler,
    Datachannel,
    GUI,
    Scheduler,
    Peer,
}

/// A command addressed to one component.
#[derive(Clone, Debug, PartialEq)]
pub struct Routed {
    pub to: ThreadTypes,
    pub command: Command,
}

/// What the scheduler sends after a command: a snapshot of the table to the
/// presentation layer, or a command to a component.
pub enum Effect {
    Snapshot(StateView),
    Send(ThreadTypes, Command),
}

/// `r` carries out `e`.
pub open spec fn realizes_one(r: Routed, e: Effect) -> bool {
    match e {
        Effect::Snapshot(v) => r.to == ThreadTypes::GUI && match r.command {
            Command::GUI(GUICommand::UpdateState(st)) => st@ == v,
            _ => false,
        },
        Effect::Send(t, c) => r.to == t && r.command == c,
    }
}

/// `rs` carries out `es`, one for one and in order.
pub open spec fn realizes(rs: Seq<Routed>, es: Seq<Effect>) -> bool {
    &&& rs.len() == es.len()
    &&& forall|i: int| 0 <= i < rs.len() ==> realizes_one(#[trigger] rs[i], es[i])
}

/// A handshake whose engine session has been opened on this side: the
/// acceptor has sent its answer, or the requester has received one.
pub open spec fn negotiating(p: ConnectionProgress) -> bool {
    p == ConnectionProgress::CallAnswerSent || p == ConnectionProgress::CallAnswerReceived
}

/// `s` with the connection table replaced by `cs`.
pub open spec fn with_table(s: StateView, cs: Seq<crate::state::ConnectionView>) -> StateView {
    StateView { local_id: s.local_id, connections: cs }
}

/// The new table, followed by a snapshot of it.
pub open spec fn changed(t: StateView) -> (StateView, Seq<Effect>) {
    (t, seq![Effect::Snapshot(t)])
}

/// The new table, followed by a snapshot of it and one command to `to`.
pub open spec fn changed_and_send(t: StateView, to: ThreadTypes, c: Command) -> (
    StateView,
    Seq<Effect>,
) {
    (t, seq![Effect::Snapshot(t), Effect::Send(to, c)])
}

/// The command is dropped: nothing changes and nothing is sent.
pub open spec fn dropped(s: StateView) -> (StateView, Seq<Effect>) {
    (s, Seq::empty())
}

/// What the scheduler does with command `c` in state `s`: the next state and
/// what it sends, in order. A command that the current progress does not
/// allow is dropped. The relay's answers carry no identifier, so they apply to
/// the pending requests (`CallRequestSent`); a rejection and a failed request
/// both close them and are passed on to the presentation layer as they came,
/// so that it can tell one from the other.
pub open spec fn step(s: StateView, c: Command) -> (StateView, Seq<Effect>) {
    let cs = s.connections;
    match c {
        Command::GUI(g) => match g {
            GUICommand::CallRequest(r) => {
                let p = progress_of(cs, r@);
                if p is None || p == Some(ConnectionProgress::Closed) {
                    changed_and_send(
                        with_table(s, upsert(cs, r@, ConnectionProgress::CallRequestSent)),
                        ThreadTypes::Coupler,
                        Command::WS(WSCommand::CallRequest(r)),
                    )
                } else {
                    dropped(s)
                }
            },
            GUICommand::CallAnswer(accepted, r) => {
                if progress_of(cs, r@) == Some(ConnectionProgress::CallRequestReceived) {
                    if accepted {
                        changed_and_send(
                            with_table(s, upsert(cs, r@, ConnectionProgress::CallAnswerSent)),
                            ThreadTypes::Peer,
                            Command::Peer(PeerCommand::NewPeerConnection(r)),
                        )
                    } else {
                        changed_and_send(
                            with_table(s, upsert(cs, r@, ConnectionProgress::Closed)),
                            ThreadTypes::Coupler,
                            Command::WS(WSCommand::CallAnswer(false, None)),
                        )
                    }
                } else {
                    dropped(s)
                }
            },
            GUICommand::UpdateState(_) => dropped(s),
        },
        Command::State(st) => match st {
            StateCommand::SetClientId(id) => changed(StateView { local_id: id@, connections: cs }),
            StateCommand::SetProgress(r, p) => {
                if p == ConnectionProgress::Established && !(match progress_of(cs, r@) {
                    Some(q) => negotiating(q),
                    None => false,
                }) {
                    dropped(s)
                } else {
                    changed(with_table(s, upsert(cs, r@, p)))
                }
            },
        },
        Command::WS(w) => match w {
            WSCommand::CallAnswer(accepted, d) => {
                let sent = ConnectionProgress::CallRequestSent;
                if !any_at(cs, sent, sent) {
                    dropped(s)
                } else if !accepted {
                    changed_and_send(
                        with_table(s, move_all(cs, sent, sent, ConnectionProgress::Closed)),
                        ThreadTypes::GUI,
                        Command::WS(WSCommand::CallAnswer(false, d)),
                    )
                } else {
                    match d {
                        Some(d) => changed_and_send(
                            with_table(
                                s,
                                move_all(cs, sent, sent, ConnectionProgress::CallAnswerReceived),
                            ),
                            ThreadTypes::Peer,
                            Command::Peer(PeerCommand::EstablishConnection(d, false)),
                        ),
                        None => dropped(s),
                    }
                }
            },
            WSCommand::CallRequestFailure => {
                let sent = ConnectionProgress::CallRequestSent;
                if any_at(cs, sent, sent) {
                    changed_and_send(
                        with_table(s, move_all(cs, sent, sent, ConnectionProgress::Closed)),
                        ThreadTypes::GUI,
                        Command::WS(WSCommand::CallRequestFailure),
                    )
                } else {
                    dropped(s)
                }
            },
            WSCommand::CallReply(d) => {
                let answered = ConnectionProgress::CallAnswerSent;
                if any_at(cs, answered, answered) {
                    (
                        s,
                        seq![
                            Effect::Send(
                                ThreadTypes::Peer,
                                Command::Peer(PeerCommand::EstablishConnection(d, true)),
                            ),
                        ],
                    )
                } else {
                    dropped(s)
                }
            },
            WSCommand::SetClientId(_) => dropped(s),
            WSCommand::CallRequest(_) => dropped(s),
        },
        Command::Peer(pc) => match pc {
            PeerCommand::CallAnswer(d) => (
                s,
                seq![
                    Effect::Send(
                        ThreadTypes::Coupler,
                        Command::WS(WSCommand::CallAnswer(true, Some(d))),
                    ),
                ],
            ),
            PeerCommand::CallReply(d) => (
                s,
                seq![Effect::Send(ThreadTypes::Coupler, Command::WS(WSCommand::CallReply(d)))],
            ),
            PeerCommand::ChannelOpen => {
                let a = ConnectionProgress::CallAnswerSent;
                let b = ConnectionProgress::CallAnswerReceived;
                if any_at(cs, a, b) {
                    changed(with_table(s, move_all(cs, a, b, ConnectionProgress::Established)))
                } else {
                    dropped(s)
                }
            },
            PeerCommand::ConnectionFailed => {
                let a = ConnectionProgress::CallAnswerSent;
                let b = ConnectionProgress::CallAnswerReceived;
                if any_at(cs, a, b) {
                    changed(with_table(s, move_all(cs, a, b, ConnectionProgress::Closed)))
                } else {
                    dropped(s)
                }
            },
            PeerCommand::NewPeerConnection(_) => dropped(s),
            PeerCommand::EstablishConnection(_, _) => dropped(s),
        },
    }
}

/// The state after commands `cs`, taken in order from `s`, and all that is
/// sent meanwhile, in order.
pub open spec fn run(s: StateView, cs: Seq<Command>) -> (StateView, Seq<Effect>)
    decreases cs.len(),
{
    if cs.len() == 0 {
        (s, Seq::empty())
    } else {
        let before = run(s, cs.drop_last());
        let last = step(before.0, cs.last());
        (last.0, before.1 + last.1)
    }
}

proof fn lemma_realizes_concat(rs1: Seq<Routed>, es1: Seq<Effect>, rs2: Seq<Routed>, es2: Seq<Effect>)
    requires
        realizes(rs1, es1),
        realizes(rs2, es2),
    ensures
        realizes(rs1 + rs2, es1 + es2),
{
    assert forall|i: int| 0 <= i < rs1.len() + rs2.len() implies realizes_one(
        #[trigger] (rs1 + rs2)[i],
        (es1 + es2)[i],
    ) by {
        if i < rs1.len() {
            assert(realizes_one(rs1[i], es1[i]));
        } else {
            assert(realizes_one(rs2[i - rs1.len()], es2[i - rs1.len()]));
        }
    }
}

/// The command router: sole owner of the connection table.
pub struct Scheduler {
    independent_state: IndependentState,
}

impl Scheduler {
    /// The table holds no two connections with the same remote identifier.
    pub open spec fn wf(&self) -> bool {
        ids_unique(self.table().connections)
    }

    /// The connection table that the scheduler owns.
    pub closed spec fn table(&self) -> StateView {
        self.independent_state@
    }

    /// A scheduler that owns `state`.
    pub fn new(state: IndependentState) -> (r: Self)
        requires
            state.wf(),
        ensures
            r.wf(),
            r.table() == state@,
    {
        Scheduler { independent_state: state }
    }

    /// The connection table.
    pub fn state(&self) -> (r: &IndependentState)
        ensures
            r@ == self.table(),
            r.wf() == self.wf(),
    {
        &self.independent_state
    }

    fn snapshot(&self) -> (r: Routed)
        ensures
            realizes_one(r, Effect::Snapshot(self.table())),
    {
        Routed {
            to: ThreadTypes::GUI,
            command: Command::GUI(GUICommand::UpdateState(self.independent_state.snapshot())),
        }
    }

    fn snapshot_and_send(&self, to: ThreadTypes, command: Command) -> (r: Vec<Routed>)
        ensures
            realizes(r@, seq![Effect::Snapshot(self.table()), Effect::Send(to, command)]),
    {
        let mut out: Vec<Routed> = Vec::new();
        out.push(self.snapshot());
        out.push(Routed { to, command });
        out
    }

    fn snapshot_only(&self) -> (r: Vec<Routed>)
        ensures
            realizes(r@, seq![Effect::Snapshot(self.table())]),
    {
        let mut out: Vec<Routed> = Vec::new();
        out.push(self.snapshot());
        out
    }

    fn send_only(to: ThreadTypes, command: Command) -> (r: Vec<Routed>)
        ensures
            realizes(r@, seq![Effect::Send(to, command)]),
    {
        let mut out: Vec<Routed> = Vec::new();
        out.push(Routed { to, command });
        out
    }

    /// Applies one command to the table and returns what is to be sent, in
    /// order.
    pub fn handle(&mut self, command: Command) -> (out: Vec<Routed>)
        requires
            old(self).wf(),
        ensures
            final(self).wf(),
            final(self).table() == step(old(self).table(), command).0,
            realizes(out@, step(old(self).table(), command).1),
    {
        let sent = ConnectionProgress::CallRequestSent;
        match command {
            Command::GUI(g) => match g {
                GUICommand::CallRequest(r) => {
                    let p = self.independent_state.progress_of(&r);
                    if p.is_none() || p == Some(ConnectionProgress::Closed) {
                        self.independent_state.upsert(&r, ConnectionProgress::CallRequestSent);
                        self.snapshot_and_send(
                            ThreadTypes::Coupler,
                            Command::WS(WSCommand::CallRequest(r)),
                        )
                    } else {
                        Vec::new()
                    }
                },
                GUICommand::CallAnswer(accepted, r) => {
                    let p = self.independent_state.progress_of(&r);
                    if p == Some(ConnectionProgress::CallRequestReceived) {
                        if accepted {
                            self.independent_state.upsert(&r, ConnectionProgress::CallAnswerSent);
                            self.snapshot_and_send(
                                ThreadTypes::Peer,
                                Command::Peer(PeerCommand::NewPeerConnection(r)),
                            )
                        } else {
                            self.independent_state.upsert(&r, ConnectionProgress::Closed);
                            self.snapshot_and_send(
                                ThreadTypes::Coupler,
                                Command::WS(WSCommand::CallAnswer(false, None)),
                            )
                        }
                    } else {
                        Vec::new()
                    }
                },
                GUICommand::UpdateState(_) => Vec::new(),
            },
            Command::State(st) => match st {
                StateCommand::SetClientId(id) => {
                    self.independent_state.connection_details.id = id;
                    self.snapshot_only()
                },
                StateCommand::SetProgress(r, p) => {
                    let allowed = if p == ConnectionProgress::Established {
                        match self.independent_state.progress_of(&r) {
                            Some(q) => q == ConnectionProgress::CallAnswerSent || q
                                == ConnectionProgress::CallAnswerReceived,
                            None => false,
                        }
                    } else {
                        true
                    };
                    if allowed {
                        self.independent_state.upsert(&r, p);
                        self.snapshot_only()
                    } else {
                        Vec::new()
                    }
                },
            },
            Command::WS(w) => match w {
                WSCommand::CallAnswer(accepted, d) => {
                    if !self.independent_state.any_at(sent, sent) {
                        Vec::new()
                    } else if !accepted {
                        self.independent_state.move_all(sent, sent, ConnectionProgress::Closed);
                        self.snapshot_and_send(
                            ThreadTypes::GUI,
                            Command::WS(WSCommand::CallAnswer(false, d)),
                        )
                    } else {
                        match d {
                            Some(d) => {
                                self.independent_state.move_all(
                                    sent,
                                    sent,
                                    ConnectionProgress::CallAnswerReceived,
                                );
                                self.snapshot_and_send(
                                    ThreadTypes::Peer,
                                    Command::Peer(PeerCommand::EstablishConnection(d, false)),
                                )
                            },
                            None => Vec::new(),
                        }
                    }
                },
                WSCommand::CallRequestFailure => {
                    if self.independent_state.any_at(sent, sent) {
                        self.independent_state.move_all(sent, sent, ConnectionProgress::Closed);
                        self.snapshot_and_send(
                            ThreadTypes::GUI,
                            Command::WS(WSCommand::CallRequestFailure),
                        )
                    } else {
                        Vec::new()
                    }
                },
                WSCommand::CallReply(d) => {
                    let answered = ConnectionProgress::CallAnswerSent;
                    if self.independent_state.any_at(answered, answered) {
                        Self::send_only(
                            ThreadTypes::Peer,
                            Command::Peer(PeerCommand::EstablishConnection(d, true)),
                        )
                    } else {
                        Vec::new()
                    }
                },
                WSCommand::SetClientId(_) => Vec::new(),
                WSCommand::CallRequest(_) => Vec::new(),
            },
            Command::Peer(pc) => match pc {
                PeerCommand::CallAnswer(d) => Self::send_only(
                    ThreadTypes::Coupler,
                    Command::WS(WSCommand::CallAnswer(true, Some(d))),
                ),
                PeerCommand::CallReply(d) => Self::send_only(
                    ThreadTypes::Coupler,
                    Command::WS(WSCommand::CallReply(d)),
                ),
                PeerCommand::ChannelOpen => {
                    let a = ConnectionProgress::CallAnswerSent;
                    let b = ConnectionProgress::CallAnswerReceived;
                    if self.independent_state.any_at(a, b) {
                        self.independent_state.move_all(a, b, ConnectionProgress::Established);
                        self.snapshot_only()
                    } else {
                        Vec::new()
                    }
                },
                PeerCommand::ConnectionFailed => {
                    let a = ConnectionProgress::CallAnswerSent;
                    let b = ConnectionProgress::CallAnswerReceived;
                    if self.independent_state.any_at(a, b) {
                        self.independent_state.move_all(a, b, ConnectionProgress::Closed);
                        self.snapshot_only()
                    } else {
                        Vec::new()
                    }
                },
                PeerCommand::NewPeerConnection(_) => Vec::new(),
                PeerCommand::EstablishConnection(_, _) => Vec::new(),
            },
        }
    }

    /// Applies `commands` one after the other, in the order given, and returns
    /// all that is to be sent, in order.
    pub fn handle_all(&mut self, commands: Vec<Command>) -> (out: Vec<Routed>)
        requires
            old(self).wf(),
        ensures
            final(self).wf(),
            final(self).table() == run(old(self).table(), commands@).0,
            realizes(out@, run(old(self).table(), commands@).1),
    {
        let ghost s0 = self.table();
        let ghost all = commands@;
        let mut commands = commands;
        let mut out: Vec<Routed> = Vec::new();
        let n = commands.len();
        let mut k: usize = 0;
        while k < n
            invariant
                self.wf(),
                n == all.len(),
                k <= n,
                commands@ == all.subrange(k as int, n as int),
                self.table() == run(s0, all.subrange(0, k as int)).0,
                realizes(out@, run(s0, all.subrange(0, k as int)).1),
            decreases n - k,
        {
            let c = commands.remove(0);
            assert(c == all[k as int]);
            let mut more = self.handle(c);
            proof {
                let prefix = all.subrange(0, k + 1);
                assert(prefix.drop_last() =~= all.subrange(0, k as int));
                assert(prefix.last() == all[k as int]);
                lemma_realizes_concat(out@, run(s0, all.subrange(0, k as int)).1, more@, step(run(s0, all.subrange(0, k as int)).0, c).1);
            }
            out.append(&mut more);
            k = k + 1;
            assert(commands@ =~= all.subrange(k as int, n as int));
        }
        assert(all.subrange(0, n as int) =~= all);
        out
    }
}

} // verus!
