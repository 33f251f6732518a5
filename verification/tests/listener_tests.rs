use relay::handler::{create_screen_stream_handler, create_pointer_stream_handler};
use relay::listener::{
    AcceptAction, AcceptEvent, BindOutcome, BindResult, BindState, Listener,
};
use relay::message::Message;
use relay::session::{ReadEvent, SessionStatus};

#[test]
fn binding_a_free_address_reports_success() {
    let mut l = Listener::new(String::from("127.0.0.1:9001"));
    let report = l.on_bind(BindOutcome::Bound);
    assert_eq!(report, BindResult::Success);
    assert_eq!(l.state, BindState::Bound);
}

#[test]
fn binding_an_occupied_address_reports_the_failure() {
    let mut l = Listener::new(String::from("127.0.0.1:9001"));
    let report = l.on_bind(BindOutcome::BindFailed(String::from("address in use")));
    assert_eq!(report, BindResult::Failure(String::from("address in use")));
    assert_eq!(l.state, BindState::Failed);
}

#[test]
fn accepted_connection_spawns_a_session() {
    let mut l = Listener::new(String::from("a"));
    l.on_bind(BindOutcome::Bound);
    let action = l.on_accept(&AcceptEvent::Accepted);
    assert_eq!(action, AcceptAction::SpawnSession);
}

#[test]
fn failed_accept_is_skipped_not_fatal() {
    let mut l = Listener::new(String::from("a"));
    l.on_bind(BindOutcome::Bound);
    let action = l.on_accept(&AcceptEvent::AcceptFailed(String::from("bad handshake")));
    assert_eq!(action, AcceptAction::Skip);
    // the listener still accepts afterwards
    let action = l.on_accept(&AcceptEvent::Accepted);
    assert_eq!(action, AcceptAction::SpawnSession);
}

#[test]
fn accept_loop_spawns_one_session_per_accepted_connection() {
    let mut l = Listener::new(String::from("a"));
    l.on_bind(BindOutcome::Bound);
    let events = vec![
        AcceptEvent::Accepted,
        AcceptEvent::AcceptFailed(String::from("x")),
        AcceptEvent::Accepted,
        AcceptEvent::Accepted,
    ];
    let spawned = l.run_accept_loop(&events);
    assert_eq!(spawned, 3);
}

#[test]
fn each_accepted_connection_gets_its_own_fresh_handler() {
    let mut l = Listener::new(String::from("a"));
    l.on_bind(BindOutcome::Bound);
    let s1 = l.accept_connection(create_pointer_stream_handler());
    let s2 = l.accept_connection(create_pointer_stream_handler());
    assert_eq!(s1.status, SessionStatus::Active);
    assert_eq!(s2.status, SessionStatus::Active);
    assert!(s1.handler.device.log.is_empty());
    assert!(s2.handler.device.log.is_empty());
}

#[test]
fn screen_endpoint_works_without_pointer_endpoint_activity() {
    // a client connects to the screen endpoint alone and sends one request
    let mut screen = Listener::new(String::from("0.0.0.0:9002"));
    screen.on_bind(BindOutcome::Bound);
    let mut session = screen.accept_connection(create_screen_stream_handler());
    let more = session.step(&ReadEvent::Msg(Message::Binary(vec![0])));
    assert!(more);
    // the server responded with a frame, no pointer endpoint involved
    assert_eq!(session.outbox, vec![Message::Binary(vec![])]);
}
