use relay::handler::{
    create_pointer_stream_handler, create_screen_stream_handler, PointerDeviceModel,
    PointerStreamHandler, ScreenStreamHandler, StreamHandler,
};
use relay::message::Message;

#[test]
fn fresh_pointer_handler_has_untouched_device() {
    let h = create_pointer_stream_handler();
    assert!(h.device.log.is_empty());
}

#[test]
fn pointer_handler_forwards_data_messages_in_order() {
    let mut h = create_pointer_stream_handler();
    let mut sink: Vec<Message> = Vec::new();
    h.process(&mut sink, &Message::Binary(vec![1, 2, 3]));
    h.process(&mut sink, &Message::Text(String::from("move 4 5")));
    assert_eq!(
        h.device.log,
        vec![
            Message::Binary(vec![1, 2, 3]),
            Message::Text(String::from("move 4 5")),
        ]
    );
}

#[test]
fn pointer_handler_ignores_control_frames() {
    let mut h = create_pointer_stream_handler();
    let mut sink: Vec<Message> = Vec::new();
    h.process(&mut sink, &Message::Ping(vec![1]));
    h.process(&mut sink, &Message::Pong(vec![2]));
    h.process(&mut sink, &Message::Close);
    assert!(h.device.log.is_empty());
}

#[test]
fn pointer_handler_writes_nothing_back() {
    let mut h = create_pointer_stream_handler();
    let mut sink: Vec<Message> = Vec::new();
    h.process(&mut sink, &Message::Binary(vec![1]));
    h.process(&mut sink, &Message::Ping(vec![]));
    assert!(sink.is_empty());
}

#[test]
fn pointer_handler_accepts_every_tag() {
    let mut h = PointerStreamHandler::new(PointerDeviceModel::new());
    let mut sink: Vec<Message> = Vec::new();
    h.process(&mut sink, &Message::Binary(vec![]));
    h.process(&mut sink, &Message::Text(String::new()));
    h.process(&mut sink, &Message::Ping(vec![9]));
    h.process(&mut sink, &Message::Pong(vec![9]));
    h.process(&mut sink, &Message::Close);
    assert_eq!(h.device.log.len(), 2);
}

#[test]
fn screen_handler_streams_frames_in_order() {
    let mut h = ScreenStreamHandler::with_frames(vec![vec![10, 11], vec![12]]);
    let mut sink: Vec<Message> = Vec::new();
    h.process(&mut sink, &Message::Text(String::from("next")));
    h.process(&mut sink, &Message::Binary(vec![0]));
    assert_eq!(
        sink,
        vec![Message::Binary(vec![10, 11]), Message::Binary(vec![12])]
    );
}

#[test]
fn screen_handler_answers_empty_once_exhausted() {
    let mut h = ScreenStreamHandler::with_frames(vec![vec![1]]);
    let mut sink: Vec<Message> = Vec::new();
    h.process(&mut sink, &Message::Binary(vec![0]));
    h.process(&mut sink, &Message::Binary(vec![0]));
    h.process(&mut sink, &Message::Binary(vec![0]));
    assert_eq!(
        sink,
        vec![
            Message::Binary(vec![1]),
            Message::Binary(vec![]),
            Message::Binary(vec![]),
        ]
    );
}

#[test]
fn screen_handler_ignores_control_frames() {
    let mut h = ScreenStreamHandler::with_frames(vec![vec![1]]);
    let mut sink: Vec<Message> = Vec::new();
    h.process(&mut sink, &Message::Ping(vec![]));
    h.process(&mut sink, &Message::Pong(vec![]));
    h.process(&mut sink, &Message::Close);
    assert!(sink.is_empty());
    assert_eq!(h.next_frame, 0);
}

#[test]
fn fresh_screen_handler_has_no_content() {
    let mut h = create_screen_stream_handler();
    let mut sink: Vec<Message> = Vec::new();
    h.process(&mut sink, &Message::Binary(vec![7]));
    assert_eq!(sink, vec![Message::Binary(vec![])]);
}
