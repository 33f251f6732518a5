//! One accepted connection's lifetime: a session owns exactly one stream
//! handler and pumps inbound read events into it until the first
//! close-tagged message or the first transport read error. Sessions are
//! single-use: once ended, nothing more is read.

use vstd::prelude::*;

use crate::handler::StreamHandler;
use crate::message::{msg_views, Message, MessageView};

verus! {

/// Model of one attempt to fetch the next inbound message.
pub enum ReadEventView {
    Msg(MessageView),
    ReadError(Seq<char>),
}

/// One attempt to fetch the next inbound message: the next frame, or the
/// transport error that ended the stream.
#[derive(Debug, PartialEq, Eq)]
pub enum ReadEvent {
    Msg(Message),
    ReadError(String),
}

impl View for ReadEvent {
    type V = ReadEventView;

    open spec fn view(&self) -> ReadEventView {
        match self {
            ReadEvent::Msg(m) => ReadEventView::Msg(m@),
            ReadEvent::ReadError(e) => ReadEventView::ReadError(e@),
        }
    }
}

/// The views of a sequence of read events, element by element.
pub open spec fn event_views(s: Seq<ReadEvent>) -> Seq<ReadEventView> {
    s.map_values(|e: ReadEvent| e@)
}

/// Where a session stands: still reading, ended cleanly by a close-tagged
/// message, or ended by a transport read error.
#[derive(Debug, PartialEq, Eq)]
pub enum SessionStatus {
    Active,
    Closed,
    Failed,
}

/// A read event that does not end the session: a message that is not
/// close-tagged.
pub open spec fn benign(e: ReadEventView) -> bool {
    e matches ReadEventView::Msg(m) && !m.is_close()
}

/// The messages a session processes when fed `events` in order: everything
/// up to and including the first close-tagged message, and nothing from the
/// first read error on.
pub open spec fn pump(events: Seq<ReadEventView>) -> Seq<MessageView>
    decreases events.len(),
{
    if events.len() == 0 {
        Seq::empty()
    } else {
        match events[0] {
            ReadEventView::ReadError(_) => Seq::empty(),
            ReadEventView::Msg(m) => if m.is_close() {
                seq![m]
            } else {
                seq![m] + pump(events.skip(1))
            },
        }
    }
}

/// How many of `events` a session reads before it stops: a close-tagged
/// message and a read error each count as the last read.
pub open spec fn consumed(events: Seq<ReadEventView>) -> int
    decreases events.len(),
{
    if events.len() == 0 {
        0
    } else {
        match events[0] {
            ReadEventView::ReadError(_) => 1,
            ReadEventView::Msg(m) => if m.is_close() {
                1
            } else {
                1 + consumed(events.skip(1))
            },
        }
    }
}

/// The status a session ends in after `events`: `Active` when the stream
/// ran out without a terminator.
pub open spec fn end_status(events: Seq<ReadEventView>) -> SessionStatus
    decreases events.len(),
{
    if events.len() == 0 {
        SessionStatus::Active
    } else {
        match events[0] {
            ReadEventView::ReadError(_) => SessionStatus::Failed,
            ReadEventView::Msg(m) => if m.is_close() {
                SessionStatus::Closed
            } else {
                end_status(events.skip(1))
            },
        }
    }
}

/// Everything a handler of type `H` writes back over one session: the
/// concatenation of what it emits for each processed message.
pub open spec fn out_pump<H: StreamHandler>(
    source: Seq<Seq<u8>>,
    inbox: Seq<MessageView>,
    events: Seq<ReadEventView>,
) -> Seq<MessageView>
    decreases events.len(),
{
    if events.len() == 0 {
        Seq::empty()
    } else {
        match events[0] {
            ReadEventView::ReadError(_) => Seq::empty(),
            ReadEventView::Msg(m) => H::emits(source, inbox, m) + (if m.is_close() {
                Seq::<MessageView>::empty()
            } else {
                out_pump::<H>(source, inbox.push(m), events.skip(1))
            }),
        }
    }
}

/// One connection's session: the exclusively owned handler, the messages
/// written back but not yet flushed to the peer, and where the session
/// stands.
pub struct ConnectionSession<H: StreamHandler> {
    pub handler: H,
    pub outbox: Vec<Message>,
    pub status: SessionStatus,
}

impl<H: StreamHandler> ConnectionSession<H> {
    /// The session's handler is internally consistent.
    pub open spec fn wf(&self) -> bool {
        self.handler.wf()
    }

    /// Start a session over one freshly accepted connection, taking
    /// exclusive ownership of its one handler.
    pub fn new(handler: H) -> (s: Self)
        requires
            handler.wf(),
        ensures
            s.wf(),
            s.handler == handler,
            s.outbox@ == Seq::<Message>::empty(),
            s.status == SessionStatus::Active,
    {
        ConnectionSession { handler, outbox: Vec::new(), status: SessionStatus::Active }
    }

    /// Whether the session still reads from its connection.
    pub fn is_active(&self) -> (r: bool)
        ensures
            r == (self.status is Active),
    {
        match self.status {
            SessionStatus::Active => true,
            _ => false,
        }
    }

    /// Feed the session one read event. A message is processed by the
    /// handler, and a close-tagged one then ends the session; a read error
    /// ends the session at once, with nothing processed. Returns whether
    /// the session will read on.
    pub fn step(&mut self, event: &ReadEvent) -> (more: bool)
        requires
            old(self).status is Active,
            old(self).wf(),
        ensures
            final(self).wf(),
            final(self).handler.source() == old(self).handler.source(),
            more == (final(self).status is Active),
            (*event) matches ReadEvent::Msg(m) ==> {
                &&& final(self).handler.inbox() == old(self).handler.inbox().push(m@)
                &&& msg_views(final(self).outbox@) == msg_views(old(self).outbox@) + H::emits(
                    old(self).handler.source(),
                    old(self).handler.inbox(),
                    m@,
                )
                &&& final(self).status == (if m@.is_close() {
                    SessionStatus::Closed
                } else {
                    SessionStatus::Active
                })
            },
            (*event) matches ReadEvent::ReadError(e) ==> {
                &&& final(self).handler == old(self).handler
                &&& final(self).outbox == old(self).outbox
                &&& final(self).status == SessionStatus::Failed
            },
    {
        match event {
            ReadEvent::Msg(m) => {
                self.handler.process(&mut self.outbox, m);
                if m.is_close() {
                    self.status = SessionStatus::Closed;
                    false
                } else {
                    true
                }
            },
            ReadEvent::ReadError(_) => {
                self.status = SessionStatus::Failed;
                false
            },
        }
    }
}

/// The whole read loop of one session, over the events its connection
/// delivers in order: build the session around its one handler, then pump
/// until the first close-tagged message, the first read error, or the end
/// of the stream. Returns the ended session and how many events were read.
pub fn run_session<H: StreamHandler>(handler: H, events: &Vec<ReadEvent>) -> (r: (
    ConnectionSession<H>,
    usize,
))
    requires
        handler.wf(),
    ensures
        r.0.wf(),
        r.0.handler.source() == handler.source(),
        r.0.handler.inbox() == handler.inbox() + pump(event_views(events@)),
        msg_views(r.0.outbox@) == out_pump::<H>(
            handler.source(),
            handler.inbox(),
            event_views(events@),
        ),
        r.0.status == end_status(event_views(events@)),
        r.1 as int == consumed(event_views(events@)),
{
    let ghost evs = event_views(events@);
    let ghost src = handler.source();
    let ghost inbox0 = handler.inbox();
    let mut s = ConnectionSession::new(handler);
    let mut i: usize = 0;
    let ghost mut done: Seq<MessageView> = Seq::empty();
    proof {
        assert(evs.skip(0) =~= evs);
        assert(inbox0 + done =~= inbox0);
        assert(msg_views(s.outbox@) =~= Seq::<MessageView>::empty());
    }
    while i < events.len() && s.is_active()
        invariant
            i <= events.len(),
            evs == event_views(events@),
            evs.len() == events@.len(),
            s.wf(),
            s.handler.source() == src,
            (s.status is Active) ==> {
                &&& s.handler.inbox() == inbox0 + done
                &&& pump(evs) == done + pump(evs.skip(i as int))
                &&& out_pump::<H>(src, inbox0, evs) == msg_views(s.outbox@) + out_pump::<H>(
                    src,
                    inbox0 + done,
                    evs.skip(i as int),
                )
                &&& end_status(evs) == end_status(evs.skip(i as int))
                &&& consumed(evs) == i + consumed(evs.skip(i as int))
            },
            !(s.status is Active) ==> {
                &&& s.handler.inbox() == inbox0 + pump(evs)
                &&& msg_views(s.outbox@) == out_pump::<H>(src, inbox0, evs)
                &&& s.status == end_status(evs)
                &&& consumed(evs) == i
            },
        decreases events.len() - i,
    {
        let ev = &events[i];
        let ghost suffix = evs.skip(i as int);
        proof {
            assert(suffix[0] == evs[i as int]);
            assert(evs[i as int] == events@[i as int]@);
            assert(suffix.skip(1) =~= evs.skip(i as int + 1));
        }
        let ghost outbox_before = msg_views(s.outbox@);
        s.step(ev);
        proof {
            match events@[i as int]@ {
                ReadEventView::Msg(m) => {
                    if m.is_close() {
                        assert(pump(suffix) == seq![m]);
                        assert(done + seq![m] =~= done.push(m));
                        assert((inbox0 + done).push(m) =~= inbox0 + done.push(m));
                        assert(inbox0 + done.push(m) =~= inbox0 + pump(evs));
                        assert(out_pump::<H>(src, inbox0 + done, suffix) == H::emits(
                            src,
                            inbox0 + done,
                            m,
                        ) + Seq::<MessageView>::empty());
                        assert(outbox_before + (H::emits(src, inbox0 + done, m) + Seq::<
                            MessageView,
                        >::empty()) =~= outbox_before + H::emits(src, inbox0 + done, m));
                        assert(end_status(suffix) == SessionStatus::Closed);
                        assert(consumed(suffix) == 1);
                    } else {
                        assert(pump(suffix) == seq![m] + pump(evs.skip(i as int + 1)));
                        assert(done + (seq![m] + pump(evs.skip(i as int + 1))) =~= done.push(m)
                            + pump(evs.skip(i as int + 1)));
                        assert((inbox0 + done).push(m) =~= inbox0 + done.push(m));
                        assert(out_pump::<H>(src, inbox0 + done, suffix) == H::emits(
                            src,
                            inbox0 + done,
                            m,
                        ) + out_pump::<H>(src, (inbox0 + done).push(m), evs.skip(i as int + 1)));
                        assert(outbox_before + (H::emits(src, inbox0 + done, m) + out_pump::<H>(
                            src,
                            (inbox0 + done).push(m),
                            evs.skip(i as int + 1),
                        )) =~= (outbox_before + H::emits(src, inbox0 + done, m)) + out_pump::<H>(
                            src,
                            (inbox0 + done).push(m),
                            evs.skip(i as int + 1),
                        ));
                        assert(end_status(suffix) == end_status(evs.skip(i as int + 1)));
                        assert(consumed(suffix) == 1 + consumed(evs.skip(i as int + 1)));
                        done = done.push(m);
                    }
                },
                ReadEventView::ReadError(_) => {
                    assert(pump(suffix) == Seq::<MessageView>::empty());
                    assert(done + Seq::<MessageView>::empty() =~= done);
                    assert(out_pump::<H>(src, inbox0 + done, suffix) == Seq::<
                        MessageView,
                    >::empty());
                    assert(outbox_before + Seq::<MessageView>::empty() =~= outbox_before);
                    assert(end_status(suffix) == SessionStatus::Failed);
                    assert(consumed(suffix) == 1);
                },
            }
        }
        i = i + 1;
    }
    proof {
        if s.status is Active {
            assert(i == events.len());
            assert(evs.skip(i as int) =~= Seq::<ReadEventView>::empty());
            assert(pump(evs.skip(i as int)) == Seq::<MessageView>::empty());
            assert(done + Seq::<MessageView>::empty() =~= done);
            assert(out_pump::<H>(src, inbox0 + done, evs.skip(i as int)) == Seq::<
                MessageView,
            >::empty());
            assert(msg_views(s.outbox@) + Seq::<MessageView>::empty() =~= msg_views(s.outbox@));
            assert(consumed(evs.skip(i as int)) == 0);
            assert(end_status(evs.skip(i as int)) == SessionStatus::Active);
        }
    }
    (s, i)
}

/// Law: a close-tagged message at position `i` of an otherwise quiet stream
/// ends the session's read loop there: the close itself is the one further
/// message processed, nothing after it is read, and the session ends
/// cleanly.
pub proof fn lemma_close_ends_session(events: Seq<ReadEventView>, i: int)
    requires
        0 <= i < events.len(),
        events[i] matches ReadEventView::Msg(m) && m.is_close(),
        forall|j: int| 0 <= j < i ==> benign(#[trigger] events[j]),
    ensures
        consumed(events) == i + 1,
        end_status(events) == SessionStatus::Closed,
        pump(events).len() == i + 1,
    decreases i,
{
    if i == 0 {
        assert(events[0] matches ReadEventView::Msg(m) && m.is_close());
    } else {
        assert(benign(events[0]));
        let rest = events.skip(1);
        assert forall|j: int| 0 <= j < i - 1 implies benign(#[trigger] rest[j]) by {
            assert(rest[j] == events[j + 1]);
        }
        assert(rest[i - 1] == events[i]);
        lemma_close_ends_session(rest, i - 1);
        assert(events[0] matches ReadEventView::Msg(m) ==> pump(events) == seq![m] + pump(rest));
    }
}

/// Law: a transport read error at position `i` of an otherwise quiet stream
/// ends the session there, and the handler is never invoked on the failed
/// read: exactly the `i` messages before it were processed.
pub proof fn lemma_read_error_ends_session(events: Seq<ReadEventView>, i: int)
    requires
        0 <= i < events.len(),
        events[i] matches ReadEventView::ReadError(e),
        forall|j: int| 0 <= j < i ==> benign(#[trigger] events[j]),
    ensures
        consumed(events) == i + 1,
        end_status(events) == SessionStatus::Failed,
        pump(events).len() == i,
    decreases i,
{
    if i == 0 {
        assert(events[0] matches ReadEventView::ReadError(e));
    } else {
        assert(benign(events[0]));
        let rest = events.skip(1);
        assert forall|j: int| 0 <= j < i - 1 implies benign(#[trigger] rest[j]) by {
            assert(rest[j] == events[j + 1]);
        }
        assert(rest[i - 1] == events[i]);
        lemma_read_error_ends_session(rest, i - 1);
        assert(events[0] matches ReadEventView::Msg(m) ==> pump(events) == seq![m] + pump(rest));
    }
}

} // verus!
