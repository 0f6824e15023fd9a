use chaos::state::{Connection, ConnectionProgress, GUIState, IndependentState, SidebarButton};
use chaos::utils::message::CCErrors;

#[test]
fn new_connection_is_closed() {
    let c = Connection::new("bob".to_string());
    assert_eq!(c.progress, ConnectionProgress::Closed);
    assert_eq!(c.remote_id(), "bob");
}

#[test]
fn set_progress_replaces_progress() {
    let mut c = Connection::new("bob".to_string());
    c.set_progress(ConnectionProgress::CallAnswerSent);
    assert_eq!(c.progress, ConnectionProgress::CallAnswerSent);
    assert_eq!(c.remote_id(), "bob");
}

#[test]
fn default_state_is_empty() {
    let s = IndependentState::default();
    assert_eq!(s.connection_details.id, "");
    assert!(s.connections.is_empty());
    assert!(s.is_well_formed());
}

#[test]
fn upsert_creates_once_and_updates() {
    let mut s = IndependentState::default();
    let bob = "bob".to_string();
    s.upsert(&bob, ConnectionProgress::CallRequestReceived);
    s.upsert(&bob, ConnectionProgress::CallRequestReceived);
    assert_eq!(s.connections.len(), 1);
    s.upsert(&bob, ConnectionProgress::CallAnswerSent);
    assert_eq!(s.connections.len(), 1);
    assert_eq!(s.progress_of(&bob), Some(ConnectionProgress::CallAnswerSent));
    assert_eq!(s.progress_of(&"carol".to_string()), None);
}

#[test]
fn duplicate_ids_are_not_well_formed() {
    let mut s = IndependentState::default();
    s.connections.push(Connection::new("bob".to_string()));
    s.connections.push(Connection::new("bob".to_string()));
    assert!(!s.is_well_formed());
}

#[test]
fn move_all_moves_only_matching() {
    let mut s = IndependentState::default();
    s.upsert(&"a".to_string(), ConnectionProgress::CallRequestSent);
    s.upsert(&"b".to_string(), ConnectionProgress::CallAnswerSent);
    assert!(s.any_at(ConnectionProgress::CallRequestSent, ConnectionProgress::CallRequestSent));
    s.move_all(
        ConnectionProgress::CallRequestSent,
        ConnectionProgress::CallRequestSent,
        ConnectionProgress::Closed,
    );
    assert_eq!(s.progress_of(&"a".to_string()), Some(ConnectionProgress::Closed));
    assert_eq!(s.progress_of(&"b".to_string()), Some(ConnectionProgress::CallAnswerSent));
    assert!(!s.any_at(ConnectionProgress::CallRequestSent, ConnectionProgress::CallRequestSent));
}

#[test]
fn snapshot_equals_original() {
    let mut s = IndependentState::default();
    s.connection_details.id = "me".to_string();
    s.upsert(&"bob".to_string(), ConnectionProgress::CallRequestSent);
    assert_eq!(s.snapshot(), s);
}

#[test]
fn gui_state_default() {
    let g = GUIState::default();
    assert_eq!(g.current_sidebar_button, SidebarButton::NewConnection);
    assert!(g.display_state.connections.is_empty());
}

#[test]
fn cc_errors_default_is_no_error() {
    assert_eq!(CCErrors::default(), CCErrors::NoError);
}
