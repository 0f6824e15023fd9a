use chaos::scheduler::{
    Command, GUICommand, PeerCommand, Routed, Scheduler, StateCommand, ThreadTypes, WSCommand,
};
use chaos::state::{ConnectionProgress, IndependentState};

fn progress(s: &Scheduler, r: &str) -> Option<ConnectionProgress> {
    s.state().progress_of(&r.to_string())
}

fn set_progress(r: &str, p: ConnectionProgress) -> Command {
    Command::State(StateCommand::SetProgress(r.to_string(), p))
}

fn is_snapshot_of(r: &Routed, s: &Scheduler) -> bool {
    r.to == ThreadTypes::GUI && r.command == Command::GUI(GUICommand::UpdateState(s.state().clone()))
}

#[test]
fn set_client_id_updates_and_snapshots() {
    let mut s = Scheduler::new(IndependentState::default());
    let out = s.handle(Command::State(StateCommand::SetClientId("me".to_string())));
    assert_eq!(s.state().connection_details.id, "me");
    assert_eq!(out.len(), 1);
    assert!(is_snapshot_of(&out[0], &s));
}

#[test]
fn call_request_sends_wire_request() {
    let mut s = Scheduler::new(IndependentState::default());
    let out = s.handle(Command::GUI(GUICommand::CallRequest("bob".to_string())));
    assert_eq!(progress(&s, "bob"), Some(ConnectionProgress::CallRequestSent));
    assert_eq!(out.len(), 2);
    assert!(is_snapshot_of(&out[0], &s));
    assert_eq!(
        out[1],
        Routed {
            to: ThreadTypes::Coupler,
            command: Command::WS(WSCommand::CallRequest("bob".to_string())),
        }
    );
}

#[test]
fn call_request_mid_handshake_is_dropped() {
    let mut s = Scheduler::new(IndependentState::default());
    s.handle(set_progress("bob", ConnectionProgress::CallRequestReceived));
    let out = s.handle(Command::GUI(GUICommand::CallRequest("bob".to_string())));
    assert!(out.is_empty());
    assert_eq!(progress(&s, "bob"), Some(ConnectionProgress::CallRequestReceived));
}

#[test]
fn accept_opens_peer_connection() {
    let mut s = Scheduler::new(IndependentState::default());
    s.handle(set_progress("bob", ConnectionProgress::CallRequestReceived));
    let out = s.handle(Command::GUI(GUICommand::CallAnswer(true, "bob".to_string())));
    assert_eq!(progress(&s, "bob"), Some(ConnectionProgress::CallAnswerSent));
    assert_eq!(out.len(), 2);
    assert!(is_snapshot_of(&out[0], &s));
    assert_eq!(
        out[1],
        Routed {
            to: ThreadTypes::Peer,
            command: Command::Peer(PeerCommand::NewPeerConnection("bob".to_string())),
        }
    );
}

#[test]
fn rejection_resets_to_closed() {
    let mut s = Scheduler::new(IndependentState::default());
    s.handle(set_progress("bob", ConnectionProgress::CallRequestReceived));
    let out = s.handle(Command::GUI(GUICommand::CallAnswer(false, "bob".to_string())));
    assert_eq!(progress(&s, "bob"), Some(ConnectionProgress::Closed));
    assert_eq!(out.len(), 2);
    assert!(is_snapshot_of(&out[0], &s));
    assert_eq!(
        out[1],
        Routed {
            to: ThreadTypes::Coupler,
            command: Command::WS(WSCommand::CallAnswer(false, None)),
        }
    );
}

#[test]
fn answer_without_request_is_dropped() {
    let mut s = Scheduler::new(IndependentState::default());
    let out = s.handle(Command::GUI(GUICommand::CallAnswer(true, "bob".to_string())));
    assert!(out.is_empty());
    assert_eq!(progress(&s, "bob"), None);
}

#[test]
fn replayed_request_keeps_one_entry() {
    let mut s = Scheduler::new(IndependentState::default());
    for _ in 0..3 {
        s.handle(set_progress("bob", ConnectionProgress::CallRequestReceived));
    }
    assert_eq!(s.state().connections.len(), 1);
    s.handle(Command::GUI(GUICommand::CallAnswer(true, "bob".to_string())));
    s.handle(set_progress("bob", ConnectionProgress::CallRequestReceived));
    assert_eq!(s.state().connections.len(), 1);
    assert_eq!(progress(&s, "bob"), Some(ConnectionProgress::CallRequestReceived));
    s.handle(set_progress("carol", ConnectionProgress::CallRequestReceived));
    assert_eq!(s.state().connections.len(), 2);
}

#[test]
fn commands_take_effect_in_order() {
    let mut s = Scheduler::new(IndependentState::default());
    let out = s.handle_all(vec![
        set_progress("bob", ConnectionProgress::CallRequestReceived),
        Command::GUI(GUICommand::CallAnswer(true, "bob".to_string())),
        Command::Peer(PeerCommand::CallAnswer("d".to_string())),
    ]);
    assert_eq!(progress(&s, "bob"), Some(ConnectionProgress::CallAnswerSent));
    assert_eq!(out.len(), 4);
    assert_eq!(out[0].to, ThreadTypes::GUI);
    assert_eq!(out[1].to, ThreadTypes::GUI);
    assert_eq!(
        out[2].command,
        Command::Peer(PeerCommand::NewPeerConnection("bob".to_string()))
    );
    assert_eq!(
        out[3].command,
        Command::WS(WSCommand::CallAnswer(true, Some("d".to_string())))
    );

    let mut t = Scheduler::new(IndependentState::default());
    let out = t.handle_all(vec![
        Command::GUI(GUICommand::CallAnswer(true, "bob".to_string())),
        set_progress("bob", ConnectionProgress::CallRequestReceived),
        Command::Peer(PeerCommand::CallAnswer("d".to_string())),
    ]);
    assert_eq!(progress(&t, "bob"), Some(ConnectionProgress::CallRequestReceived));
    assert_eq!(out.len(), 2);
}

#[test]
fn wire_answer_advances_pending_request() {
    let mut s = Scheduler::new(IndependentState::default());
    s.handle(Command::GUI(GUICommand::CallRequest("bob".to_string())));
    let out = s.handle(Command::WS(WSCommand::CallAnswer(true, Some("d".to_string()))));
    assert_eq!(progress(&s, "bob"), Some(ConnectionProgress::CallAnswerReceived));
    assert_eq!(out.len(), 2);
    assert_eq!(
        out[1],
        Routed {
            to: ThreadTypes::Peer,
            command: Command::Peer(PeerCommand::EstablishConnection("d".to_string(), false)),
        }
    );
}

#[test]
fn wire_rejection_closes_pending_request() {
    let mut s = Scheduler::new(IndependentState::default());
    s.handle(Command::GUI(GUICommand::CallRequest("bob".to_string())));
    let out = s.handle(Command::WS(WSCommand::CallAnswer(false, None)));
    assert_eq!(progress(&s, "bob"), Some(ConnectionProgress::Closed));
    assert_eq!(out.len(), 2);
    assert!(is_snapshot_of(&out[0], &s));
    assert_eq!(
        out[1],
        Routed {
            to: ThreadTypes::GUI,
            command: Command::WS(WSCommand::CallAnswer(false, None)),
        }
    );
}

#[test]
fn request_failure_closes_pending_request() {
    let mut s = Scheduler::new(IndependentState::default());
    s.handle(Command::GUI(GUICommand::CallRequest("bob".to_string())));
    let out = s.handle(Command::WS(WSCommand::CallRequestFailure));
    assert_eq!(progress(&s, "bob"), Some(ConnectionProgress::Closed));
    assert_eq!(out.len(), 2);
    assert_eq!(
        out[1],
        Routed {
            to: ThreadTypes::GUI,
            command: Command::WS(WSCommand::CallRequestFailure),
        }
    );
}

#[test]
fn stray_answer_is_dropped() {
    let mut s = Scheduler::new(IndependentState::default());
    let out = s.handle(Command::WS(WSCommand::CallAnswer(true, Some("d".to_string()))));
    assert!(out.is_empty());
    assert!(s.state().connections.is_empty());
}

#[test]
fn established_cannot_be_skipped_to() {
    let mut s = Scheduler::new(IndependentState::default());
    s.handle(set_progress("bob", ConnectionProgress::CallRequestReceived));
    let out = s.handle(set_progress("bob", ConnectionProgress::Established));
    assert!(out.is_empty());
    assert_eq!(progress(&s, "bob"), Some(ConnectionProgress::CallRequestReceived));
    s.handle(Command::GUI(GUICommand::CallAnswer(true, "bob".to_string())));
    s.handle(set_progress("bob", ConnectionProgress::Established));
    assert_eq!(progress(&s, "bob"), Some(ConnectionProgress::Established));
}

#[test]
fn engine_failure_closes_negotiation() {
    let mut s = Scheduler::new(IndependentState::default());
    s.handle(set_progress("bob", ConnectionProgress::CallRequestReceived));
    s.handle(Command::GUI(GUICommand::CallAnswer(true, "bob".to_string())));
    let out = s.handle(Command::Peer(PeerCommand::ConnectionFailed));
    assert_eq!(progress(&s, "bob"), Some(ConnectionProgress::Closed));
    assert_eq!(out.len(), 1);
}

#[test]
fn peer_descriptors_go_to_the_relay() {
    let mut s = Scheduler::new(IndependentState::default());
    let out = s.handle(Command::Peer(PeerCommand::CallReply("r".to_string())));
    assert_eq!(
        out,
        vec![Routed {
            to: ThreadTypes::Coupler,
            command: Command::WS(WSCommand::CallReply("r".to_string())),
        }]
    );
}
