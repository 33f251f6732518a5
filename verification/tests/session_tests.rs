use relay::handler::create_pointer_stream_handler;
use relay::message::Message;
use relay::session::{run_session, ConnectionSession, ReadEvent, SessionStatus};

#[test]
fn close_message_ends_session_after_processing_it() {
    let h = create_pointer_stream_handler();
    let mut s = ConnectionSession::new(h);
    let more = s.step(&ReadEvent::Msg(Message::Binary(vec![1])));
    assert!(more);
    let more = s.step(&ReadEvent::Msg(Message::Close));
    assert!(!more);
    assert!(!s.is_active());
    assert_eq!(s.status, SessionStatus::Closed);
    // the close frame itself was processed but carried no command
    assert_eq!(s.handler.device.log, vec![Message::Binary(vec![1])]);
}

#[test]
fn read_error_ends_session_without_processing() {
    let h = create_pointer_stream_handler();
    let mut s = ConnectionSession::new(h);
    s.step(&ReadEvent::Msg(Message::Binary(vec![1])));
    let more = s.step(&ReadEvent::ReadError(String::from("connection reset")));
    assert!(!more);
    assert_eq!(s.status, SessionStatus::Failed);
    // the failed read reached the handler in no way
    assert_eq!(s.handler.device.log, vec![Message::Binary(vec![1])]);
    assert!(s.outbox.is_empty());
}

#[test]
fn session_reads_nothing_after_close() {
    let h = create_pointer_stream_handler();
    let events = vec![
        ReadEvent::Msg(Message::Binary(vec![1])),
        ReadEvent::Msg(Message::Text(String::from("tap"))),
        ReadEvent::Msg(Message::Close),
        ReadEvent::Msg(Message::Binary(vec![9])),
    ];
    let (s, n) = run_session(h, &events);
    assert_eq!(n, 3);
    assert_eq!(s.status, SessionStatus::Closed);
    assert_eq!(
        s.handler.device.log,
        vec![
            Message::Binary(vec![1]),
            Message::Text(String::from("tap")),
        ]
    );
}

#[test]
fn session_stops_at_first_read_error() {
    let h = create_pointer_stream_handler();
    let events = vec![
        ReadEvent::Msg(Message::Binary(vec![1])),
        ReadEvent::ReadError(String::from("broken pipe")),
        ReadEvent::Msg(Message::Binary(vec![2])),
    ];
    let (s, n) = run_session(h, &events);
    assert_eq!(n, 2);
    assert_eq!(s.status, SessionStatus::Failed);
    assert_eq!(s.handler.device.log, vec![Message::Binary(vec![1])]);
}

#[test]
fn session_survives_a_quiet_stream_end() {
    let h = create_pointer_stream_handler();
    let events = vec![
        ReadEvent::Msg(Message::Ping(vec![])),
        ReadEvent::Msg(Message::Binary(vec![3])),
    ];
    let (s, n) = run_session(h, &events);
    assert_eq!(n, 2);
    assert_eq!(s.status, SessionStatus::Active);
    assert_eq!(s.handler.device.log, vec![Message::Binary(vec![3])]);
}

#[test]
fn two_sessions_never_interleave_state() {
    let mut one = ConnectionSession::new(create_pointer_stream_handler());
    let mut two = ConnectionSession::new(create_pointer_stream_handler());
    one.step(&ReadEvent::Msg(Message::Binary(vec![1])));
    two.step(&ReadEvent::Msg(Message::Binary(vec![2])));
    one.step(&ReadEvent::Msg(Message::Text(String::from("a"))));
    two.step(&ReadEvent::ReadError(String::from("gone")));
    assert_eq!(
        one.handler.device.log,
        vec![Message::Binary(vec![1]), Message::Text(String::from("a"))]
    );
    assert_eq!(two.handler.device.log, vec![Message::Binary(vec![2])]);
    assert!(one.is_active());
    assert_eq!(two.status, SessionStatus::Failed);
}
