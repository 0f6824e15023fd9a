use chaos::coupler::{inbound_command, inbound_commands, outbound_message};
use chaos::scheduler::{Command, GUICommand, PeerCommand, StateCommand, WSCommand};
use chaos::state::ConnectionProgress;

#[test]
fn inbound_maps_each_message() {
    assert_eq!(
        inbound_command(Some(WSCommand::SetClientId("me".to_string()))),
        Some(Command::State(StateCommand::SetClientId("me".to_string())))
    );
    assert_eq!(
        inbound_command(Some(WSCommand::CallRequest("bob".to_string()))),
        Some(Command::State(StateCommand::SetProgress(
            "bob".to_string(),
            ConnectionProgress::CallRequestReceived
        )))
    );
    assert_eq!(
        inbound_command(Some(WSCommand::CallAnswer(true, Some("d".to_string())))),
        Some(Command::WS(WSCommand::CallAnswer(true, Some("d".to_string()))))
    );
    assert_eq!(
        inbound_command(Some(WSCommand::CallReply("d".to_string()))),
        Some(Command::WS(WSCommand::CallReply("d".to_string())))
    );
    assert_eq!(
        inbound_command(Some(WSCommand::CallRequestFailure)),
        Some(Command::WS(WSCommand::CallRequestFailure))
    );
    assert_eq!(inbound_command(None), None);
}

#[test]
fn malformed_message_does_not_stop_the_next() {
    let msgs = vec![
        Some(WSCommand::SetClientId("me".to_string())),
        None,
        Some(WSCommand::CallRequest("bob".to_string())),
    ];
    assert_eq!(
        inbound_commands(msgs),
        vec![
            Command::State(StateCommand::SetClientId("me".to_string())),
            Command::State(StateCommand::SetProgress(
                "bob".to_string(),
                ConnectionProgress::CallRequestReceived
            )),
        ]
    );
}

#[test]
fn outbound_writes_only_wire_commands() {
    assert_eq!(
        outbound_message(Command::WS(WSCommand::CallReply("d".to_string()))),
        Some(WSCommand::CallReply("d".to_string()))
    );
    assert_eq!(outbound_message(Command::Peer(PeerCommand::ChannelOpen)), None);
    assert_eq!(
        outbound_message(Command::GUI(GUICommand::CallRequest("bob".to_string()))),
        None
    );
}
