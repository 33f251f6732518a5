//! The wire-message model: every frame a connection delivers is one of five
//! tagged variants, and the session machinery only ever inspects the tag.

use vstd::prelude::*;

verus! {

/// Mathematical model of a wire message: the tag and the payload as a
/// sequence of plain values.
pub enum MessageView {
    Binary(Seq<u8>),
    Text(Seq<char>),
    Ping(Seq<u8>),
    Pong(Seq<u8>),
    Close,
}

impl MessageView {
    /// A close-tagged message ends its session's read loop.
    pub open spec fn is_close(self) -> bool {
        self is Close
    }

    /// Data-tagged messages are the ones that carry application content:
    /// pointer commands or screen-content requests. Ping, pong and close
    /// are transport control frames.
    pub open spec fn is_data(self) -> bool {
        self is Binary || self is Text
    }
}

/// A message as it arrives from or goes out to a connection.
#[derive(Debug, PartialEq, Eq)]
pub enum Message {
    Binary(Vec<u8>),
    Text(String),
    Ping(Vec<u8>),
    Pong(Vec<u8>),
    Close,
}

impl View for Message {
    type V = MessageView;

    open spec fn view(&self) -> MessageView {
        match self {
            Message::Binary(b) => MessageView::Binary(b@),
            Message::Text(t) => MessageView::Text(t@),
            Message::Ping(b) => MessageView::Ping(b@),
            Message::Pong(b) => MessageView::Pong(b@),
            Message::Close => MessageView::Close,
        }
    }
}

impl Message {
    /// Tag test that the session loop uses to decide whether to stop reading.
    pub fn is_close(&self) -> (r: bool)
        ensures
            r == self@.is_close(),
    {
        match self {
            Message::Close => true,
            _ => false,
        }
    }

    /// Tag test for the variants that carry application content.
    pub fn is_data(&self) -> (r: bool)
        ensures
            r == self@.is_data(),
    {
        match self {
            Message::Binary(_) => true,
            Message::Text(_) => true,
            _ => false,
        }
    }
}

impl Clone for Message {
    fn clone(&self) -> (r: Self)
        ensures
            r@ == self@,
    {
        match self {
            Message::Binary(b) => Message::Binary(copy_bytes(b)),
            Message::Text(t) => Message::Text(t.clone()),
            Message::Ping(b) => Message::Ping(copy_bytes(b)),
            Message::Pong(b) => Message::Pong(copy_bytes(b)),
            Message::Close => Message::Close,
        }
    }
}

/// The views of a sequence of messages, element by element.
pub open spec fn msg_views(s: Seq<Message>) -> Seq<MessageView> {
    s.map_values(|m: Message| m@)
}

/// Appending a message appends its view.
pub proof fn lemma_msg_views_push(s: Seq<Message>, m: Message)
    ensures
        msg_views(s.push(m)) == msg_views(s).push(m@),
{
    let a = msg_views(s.push(m));
    let b = msg_views(s).push(m@);
    assert forall|i: int| 0 <= i < a.len() implies a[i] == b[i] by {
        assert(s.push(m)[i] == (if i < s.len() { s[i] } else { m }));
    }
    assert(a =~= b);
}

/// An exact copy of a byte payload.
pub fn copy_bytes(b: &Vec<u8>) -> (r: Vec<u8>)
    ensures
        r@ == b@,
{
    let mut r: Vec<u8> = Vec::new();
    let mut i: usize = 0;
    while i < b.len()
        invariant
            i <= b.len(),
            r@ == b@.take(i as int),
        decreases b.len() - i,
    {
        r.push(b[i]);
        assert(b@.take(i as int).push(b@[i as int]) =~= b@.take(i as int + 1));
        i += 1;
    }
    assert(b@.take(b@.len() as int) =~= b@);
    r
}

} // verus!
