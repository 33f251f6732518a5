//! The per-connection processing strategies. Each accepted connection owns
//! exactly one stream handler; the session loop feeds it every inbound
//! message through the one `process` operation and never shares it with
//! another session.

use vstd::prelude::*;

use crate::message::{copy_bytes, lemma_msg_views_push, msg_views, Message, MessageView};

verus! {

/// The data-tagged messages of `s`, in order: the ones that carry
/// application content past the transport layer.
pub open spec fn data_msgs(s: Seq<MessageView>) -> Seq<MessageView>
    decreases s.len(),
{
    if s.len() == 0 {
        Seq::empty()
    } else {
        let rest = data_msgs(s.drop_last());
        if s.last().is_data() {
            rest.push(s.last())
        } else {
            rest
        }
    }
}

/// Appending one message extends the data-tagged ones by it exactly when it
/// is data-tagged.
pub proof fn lemma_data_msgs_push(s: Seq<MessageView>, m: MessageView)
    ensures
        data_msgs(s.push(m)) == (if m.is_data() {
            data_msgs(s).push(m)
        } else {
            data_msgs(s)
        }),
{
    assert(s.push(m).drop_last() =~= s);
    assert(s.push(m).last() == m);
}

/// The views of a sequence of content frames, element by element.
pub open spec fn frame_views(s: Seq<Vec<u8>>) -> Seq<Seq<u8>> {
    s.map_values(|f: Vec<u8>| f@)
}

/// The frame a handler streams for the `i`-th content request: the `i`-th
/// frame of its source while one is left, the empty frame once the source
/// is exhausted.
pub open spec fn frame_at(source: Seq<Seq<u8>>, i: int) -> Seq<u8> {
    if 0 <= i < source.len() {
        source[i]
    } else {
        Seq::empty()
    }
}

/// The strategy a connection session pumps its inbound messages into.
/// A handler must accept any message tag and stay callable for the whole
/// session; what it does is pinned by the three spec functions below.
pub trait StreamHandler: Sized {
    /// Views of the messages this handler has processed, oldest first.
    spec fn inbox(&self) -> Seq<MessageView>;

    /// The content this handler can stream to its peer, as an abstract
    /// sequence of frames. Processing never changes it.
    spec fn source(&self) -> Seq<Seq<u8>>;

    /// Internal consistency between the handler's state and its inbox.
    spec fn wf(&self) -> bool;

    /// What one `process` call appends to the sink, as a function of the
    /// handler's source, the messages it has seen, and the new message.
    spec fn emits(source: Seq<Seq<u8>>, inbox: Seq<MessageView>, m: MessageView) -> Seq<
        MessageView,
    >;

    /// Handle one inbound message, writing any responses to `sink`.
    fn process(&mut self, sink: &mut Vec<Message>, msg: &Message)
        requires
            old(self).wf(),
        ensures
            final(self).wf(),
            final(self).inbox() == old(self).inbox().push(msg@),
            final(self).source() == old(self).source(),
            msg_views(final(sink)@) == msg_views(old(sink)@) + Self::emits(
                old(self).source(),
                old(self).inbox(),
                msg@,
            ),
    ;
}

/// A virtual input device: the external collaborator that turns decoded
/// pointer commands into synthetic input events. The relay only ever hands
/// commands to it, so its model is the sequence of commands received.
pub trait PointerDevice: Sized {
    /// Views of the commands forwarded so far, oldest first.
    spec fn commands(&self) -> Seq<MessageView>;

    /// Hand one decoded command to the device.
    fn forward(&mut self, msg: &Message)
        requires
            msg@.is_data(),
        ensures
            final(self).commands() == old(self).commands().push(msg@),
    ;
}

/// An in-memory pointer device: it records every command it is handed.
pub struct PointerDeviceModel {
    pub log: Vec<Message>,
}

impl PointerDeviceModel {
    /// A fresh device that has received nothing.
    pub fn new() -> (d: Self)
        ensures
            d.commands() == Seq::<MessageView>::empty(),
            d.log@ == Seq::<Message>::empty(),
    {
        let d = PointerDeviceModel { log: Vec::new() };
        proof {
            assert(msg_views(d.log@) =~= Seq::<MessageView>::empty());
        }
        d
    }
}

impl PointerDevice for PointerDeviceModel {
    open spec fn commands(&self) -> Seq<MessageView> {
        msg_views(self.log@)
    }

    fn forward(&mut self, msg: &Message) {
        let copy = msg.clone();
        proof {
            lemma_msg_views_push(self.log@, copy);
        }
        self.log.push(copy);
    }
}

/// Relays remote pointer input: every data-tagged message is forwarded, in
/// order, to the exclusively owned virtual input device; control frames are
/// ignored; nothing is written back to the peer.
pub struct PointerStreamHandler<D: PointerDevice> {
    pub device: D,
    pub history: Ghost<Seq<MessageView>>,
}

impl<D: PointerDevice> PointerStreamHandler<D> {
    /// Take exclusive ownership of a fresh device for one session.
    pub fn new(device: D) -> (h: Self)
        requires
            device.commands() == Seq::<MessageView>::empty(),
        ensures
            h.wf(),
            h.inbox() == Seq::<MessageView>::empty(),
            h.source() == Seq::<Seq<u8>>::empty(),
            h.device == device,
    {
        let h = PointerStreamHandler { device, history: Ghost(Seq::empty()) };
        h
    }
}

impl<D: PointerDevice> StreamHandler for PointerStreamHandler<D> {
    open spec fn inbox(&self) -> Seq<MessageView> {
        self.history@
    }

    open spec fn source(&self) -> Seq<Seq<u8>> {
        Seq::empty()
    }

    /// The device has received exactly the data-tagged messages processed.
    open spec fn wf(&self) -> bool {
        self.device.commands() == data_msgs(self.history@)
    }

    /// A pointer handler answers nothing over the wire.
    open spec fn emits(source: Seq<Seq<u8>>, inbox: Seq<MessageView>, m: MessageView) -> Seq<
        MessageView,
    > {
        Seq::empty()
    }

    fn process(&mut self, sink: &mut Vec<Message>, msg: &Message) {
        if msg.is_data() {
            self.device.forward(msg);
        }
        self.history = Ghost(self.history@.push(msg@));
        proof {
            lemma_data_msgs_push(old(self).history@, msg@);
            assert(msg_views(sink@) + Seq::<MessageView>::empty() =~= msg_views(sink@));
        }
    }
}

/// Streams screen content: each data-tagged message is a request for the
/// next frame, answered with one binary message; once the source is
/// exhausted every further request is answered with an empty frame.
/// Control frames get no response.
pub struct ScreenStreamHandler {
    pub frames: Vec<Vec<u8>>,
    pub next_frame: usize,
    pub history: Ghost<Seq<MessageView>>,
}

impl ScreenStreamHandler {
    /// A handler with nothing to stream: every request is answered with an
    /// empty frame.
    pub fn new() -> (h: Self)
        ensures
            h.wf(),
            h.inbox() == Seq::<MessageView>::empty(),
            h.source() == Seq::<Seq<u8>>::empty(),
    {
        let h = Self::with_frames(Vec::new());
        proof {
            assert(frame_views(h.frames@) =~= Seq::<Seq<u8>>::empty());
        }
        h
    }

    /// A handler owning the given captured content.
    pub fn with_frames(frames: Vec<Vec<u8>>) -> (h: Self)
        ensures
            h.wf(),
            h.inbox() == Seq::<MessageView>::empty(),
            h.source() == frame_views(frames@),
            h.next_frame == 0,
            h.frames == frames,
    {
        ScreenStreamHandler { frames, next_frame: 0, history: Ghost(Seq::empty()) }
    }
}

impl StreamHandler for ScreenStreamHandler {
    open spec fn inbox(&self) -> Seq<MessageView> {
        self.history@
    }

    open spec fn source(&self) -> Seq<Seq<u8>> {
        frame_views(self.frames@)
    }

    /// The next frame to stream is the number of requests served so far,
    /// capped at the end of the source.
    open spec fn wf(&self) -> bool {
        self.next_frame as int == (if data_msgs(self.history@).len() <= self.frames@.len() {
            data_msgs(self.history@).len() as int
        } else {
            self.frames@.len() as int
        })
    }

    /// One frame for each content request, nothing for control frames.
    open spec fn emits(source: Seq<Seq<u8>>, inbox: Seq<MessageView>, m: MessageView) -> Seq<
        MessageView,
    > {
        if m.is_data() {
            seq![MessageView::Binary(frame_at(source, data_msgs(inbox).len() as int))]
        } else {
            Seq::empty()
        }
    }

    fn process(&mut self, sink: &mut Vec<Message>, msg: &Message) {
        if msg.is_data() {
            if self.next_frame < self.frames.len() {
                let f = copy_bytes(&self.frames[self.next_frame]);
                proof {
                    assert(frame_views(self.frames@)[self.next_frame as int] == self.frames@[
                        self.next_frame as int]@);
                    lemma_msg_views_push(sink@, Message::Binary(f));
                }
                sink.push(Message::Binary(f));
                self.next_frame = self.next_frame + 1;
            } else {
                let f: Vec<u8> = Vec::new();
                proof {
                    lemma_msg_views_push(sink@, Message::Binary(f));
                }
                sink.push(Message::Binary(f));
            }
            proof {
                assert(msg_views(old(sink)@).push(
                    MessageView::Binary(
                        frame_at(
                            frame_views(old(self).frames@),
                            data_msgs(old(self).history@).len() as int,
                        ),
                    ),
                ) =~= msg_views(old(sink)@) + ScreenStreamHandler::emits(
                    frame_views(old(self).frames@),
                    old(self).history@,
                    msg@,
                ));
            }
        } else {
            proof {
                assert(msg_views(sink@) + Seq::<MessageView>::empty() =~= msg_views(sink@));
            }
        }
        self.history = Ghost(self.history@.push(msg@));
        proof {
            lemma_data_msgs_push(old(self).history@, msg@);
        }
    }
}

/// Build the handler for one freshly accepted pointer-endpoint connection:
/// one new handler owning one new device, used by no other session.
pub fn create_pointer_stream_handler() -> (h: PointerStreamHandler<PointerDeviceModel>)
    ensures
        h.wf(),
        h.inbox() == Seq::<MessageView>::empty(),
        h.device.commands() == Seq::<MessageView>::empty(),
{
    PointerStreamHandler::new(PointerDeviceModel::new())
}

/// Build the handler for one freshly accepted screen-endpoint connection.
pub fn create_screen_stream_handler() -> (h: ScreenStreamHandler)
    ensures
        h.wf(),
        h.inbox() == Seq::<MessageView>::empty(),
        h.source() == Seq::<Seq<u8>>::empty(),
{
    ScreenStreamHandler::new()
}

} // verus!
