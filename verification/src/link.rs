//! Connection state of a message-oriented transport (such as a WebSocket):
//! whether it is closed, what a send puts on the connection, and what each
//! received message means. The connection itself is driven by the caller,
//! which performs the I/O and hands every received message to `on_inbound`.

use vstd::prelude::*;

use crate::error::{IoDetail, IoErrorKind, TransportError};
use crate::frame::Frame;
use crate::wire::{
    decode_frame, encode_frame, frame_from_bytes, spec_desc_bytes, spec_encode_frame, DESC_SIZE,
};

verus! {

/// A message received from the connection, or the end of the stream.
#[derive(Debug)]
pub enum Inbound {
    /// A binary message: one encoded frame.
    Binary(Vec<u8>),
    /// A text message.
    Text,
    /// A ping.
    Ping,
    /// A pong.
    Pong,
    /// A raw protocol frame.
    RawFrame,
    /// The peer closed the connection.
    Close,
    /// The stream of messages ended.
    Ended,
    /// Receiving failed; holds a description of the failure.
    Failed(String),
}

/// What the receiver does with a message.
#[derive(Debug)]
pub enum RecvStep {
    /// Ignore the message and wait for the next one.
    Skip,
    /// Stop waiting and return this result.
    Deliver(Result<Frame, TransportError>),
}

/// State of one connection.
#[derive(Debug)]
pub struct LinkState {
    closed: bool,
}

/// The result a send produces on a link that is closed or open: refused on a
/// closed link, else the bytes of the encoded frame.
pub open spec fn send_outcome(closed: bool, frame: Frame) -> Result<Seq<u8>, TransportError> {
    if closed {
        Err(TransportError::Closed)
    } else {
        Ok(spec_encode_frame(frame))
    }
}

/// Whether the link is closed after receiving `msg` on a link whose closed
/// flag was `closed`: only a close message closes it, and nothing reopens it.
pub open spec fn closed_after(closed: bool, msg: Inbound) -> bool {
    closed || msg is Close
}

/// `step` is what the receiver does with `msg`.
pub open spec fn inbound_step(msg: Inbound, step: RecvStep) -> bool {
    match msg {
        Inbound::Binary(data) => {
            &&& step matches RecvStep::Deliver(r)
            &&& (data@.len() < DESC_SIZE ==> r == Err::<Frame, TransportError>(
                TransportError::Io(
                    IoErrorKind::InvalidData,
                    IoDetail::FrameTooSmall { len: data@.len() as usize, min: DESC_SIZE },
                ),
            ))
            &&& (data@.len() >= DESC_SIZE ==> (r matches Ok(f) && frame_from_bytes(data@, f)
                && f.readable()))
        },
        Inbound::Close => step == RecvStep::Deliver(Err(TransportError::Closed)),
        Inbound::Ended => step == RecvStep::Deliver(Err(TransportError::Closed)),
        Inbound::Failed(reason) => step == RecvStep::Deliver(
            Err(TransportError::Io(IoErrorKind::Other, IoDetail::Message(reason))),
        ),
        _ => step is Skip,
    }
}

/// The message is one that the receiver skips.
pub open spec fn is_skipped(msg: Inbound) -> bool {
    msg is Text || msg is Ping || msg is Pong || msg is RawFrame
}

/// Two receive steps have the same outcome: both skip; both deliver a frame
/// with the same descriptor, the same payload bytes and the same storage kind;
/// or both deliver the same error.
pub open spec fn same_outcome(a: RecvStep, b: RecvStep) -> bool {
    match a {
        RecvStep::Skip => b is Skip,
        RecvStep::Deliver(Ok(f)) => match b {
            RecvStep::Deliver(Ok(g)) => {
                &&& f.desc == g.desc
                &&& f.spec_payload_bytes() == g.spec_payload_bytes()
                &&& (f.payload is Inline) == (g.payload is Inline)
            },
            _ => false,
        },
        RecvStep::Deliver(Err(e)) => b == RecvStep::Deliver(Err(e)),
    }
}

/// A receive on a link whose closed flag is `closed`, handing the messages of
/// `msgs` one by one to `on_inbound`, stops with `step` and leaves the flag at
/// `closed_end`: every skipped message is passed over, and the first other
/// message decides.
pub open spec fn receives(closed: bool, msgs: Seq<Inbound>, step: RecvStep, closed_end: bool) -> bool
    decreases msgs.len(),
{
    if msgs.len() == 0 {
        false
    } else if is_skipped(msgs[0]) {
        receives(closed_after(closed, msgs[0]), msgs.drop_first(), step, closed_end)
    } else {
        &&& inbound_step(msgs[0], step)
        &&& closed_end == closed_after(closed, msgs[0])
    }
}

/// A call on a link, as the laws over call sequences name them.
pub enum LinkCall {
    /// `LinkState::close`.
    Close,
    /// `LinkState::prepare_send`.
    Send,
    /// `LinkState::begin_recv`.
    BeginRecv,
    /// `LinkState::on_inbound` with this message.
    Receive(Inbound),
}

/// The closed flag after `call` on a link whose flag was `closed`.
pub open spec fn closed_after_call(closed: bool, call: LinkCall) -> bool {
    match call {
        LinkCall::Close => true,
        LinkCall::Receive(msg) => closed_after(closed, msg),
        _ => closed,
    }
}

/// The closed flag after the calls of `calls`, in order.
pub open spec fn closed_after_calls(closed: bool, calls: Seq<LinkCall>) -> bool
    decreases calls.len(),
{
    if calls.len() == 0 {
        closed
    } else {
        closed_after_calls(closed_after_call(closed, calls[0]), calls.drop_first())
    }
}

/// The call closes the link: `close`, or receiving a close message.
pub open spec fn closing_call(call: LinkCall) -> bool {
    call is Close || (call matches LinkCall::Receive(msg) && msg is Close)
}

impl LinkState {
    /// The link is closed.
    pub closed spec fn spec_closed(&self) -> bool {
        self.closed
    }

    /// A new, open link.
    pub fn new() -> (s: Self)
        ensures
            !s.spec_closed(),
    {
        LinkState { closed: false }
    }

    /// Returns true if the link is closed.
    pub fn is_closed(&self) -> (b: bool)
        ensures
            b == self.spec_closed(),
    {
        self.closed
    }

    /// Mark the link closed.
    pub fn close(&mut self)
        ensures
            final(self).spec_closed(),
            final(self).spec_closed() == closed_after_call(old(self).spec_closed(), LinkCall::Close),
    {
        self.closed = true;
    }

    /// The bytes to send for `frame`, or `Closed` if the link is closed (the
    /// frame is then not read).
    pub fn prepare_send(&self, frame: &Frame) -> (r: Result<Vec<u8>, TransportError>)
        requires
            !self.spec_closed() ==> frame.readable(),
        ensures
            self.spec_closed() ==> r == Err::<Vec<u8>, TransportError>(TransportError::Closed),
            !self.spec_closed() ==> (r matches Ok(data) && data@ == spec_desc_bytes(frame.desc)
                + frame.spec_payload_bytes()),
            match send_outcome(self.spec_closed(), *frame) {
                Ok(bytes) => r matches Ok(data) && data@ == bytes,
                Err(e) => r == Err::<Vec<u8>, TransportError>(e),
            },
    {
        if self.closed {
            return Err(TransportError::Closed);
        }
        Ok(encode_frame(frame))
    }

    /// Whether a receive may start: refused with `Closed` on a closed link.
    pub fn begin_recv(&self) -> (r: Result<(), TransportError>)
        ensures
            self.spec_closed() ==> r == Err::<(), TransportError>(TransportError::Closed),
            !self.spec_closed() ==> r is Ok,
    {
        if self.closed {
            Err(TransportError::Closed)
        } else {
            Ok(())
        }
    }

    /// Handle one received message: a binary message is decoded into a frame,
    /// a close message closes the link, the end of the stream and a failure end
    /// the receive with an error, and any other message is skipped.
    pub fn on_inbound(&mut self, msg: Inbound) -> (step: RecvStep)
        ensures
            final(self).spec_closed() == closed_after(old(self).spec_closed(), msg),
            final(self).spec_closed() == closed_after_call(
                old(self).spec_closed(),
                LinkCall::Receive(msg),
            ),
            inbound_step(msg, step),
            (step is Skip) <==> is_skipped(msg),
            (step is Skip) <==> (msg is Text || msg is Ping || msg is Pong || msg is RawFrame),
            msg matches Inbound::Failed(reason) ==> step == RecvStep::Deliver(
                Err(TransportError::Io(IoErrorKind::Other, IoDetail::Message(reason))),
            ),
            msg is Close ==> final(self).spec_closed(),
            !(msg is Close) ==> final(self).spec_closed() == old(self).spec_closed(),
            (msg is Close || msg is Ended) ==> step == RecvStep::Deliver(
                Err(TransportError::Closed),
            ),
            msg matches Inbound::Binary(data) ==> (data@.len() >= DESC_SIZE ==> (step matches RecvStep::Deliver(r)
                && r matches Ok(f) && f.spec_payload_bytes() == data@.skip(DESC_SIZE as int))),
    {
        match msg {
            Inbound::Binary(data) => RecvStep::Deliver(decode_frame(data)),
            Inbound::Close => {
                self.closed = true;
                RecvStep::Deliver(Err(TransportError::Closed))
            },
            Inbound::Ended => RecvStep::Deliver(Err(TransportError::Closed)),
            Inbound::Failed(reason) => RecvStep::Deliver(
                Err(TransportError::Io(IoErrorKind::Other, IoDetail::Message(reason))),
            ),
            Inbound::Text => RecvStep::Skip,
            Inbound::Ping => RecvStep::Skip,
            Inbound::Pong => RecvStep::Skip,
            Inbound::RawFrame => RecvStep::Skip,
        }
    }
}

/// A closed link stays closed whatever it receives, refuses every send and
/// every receive with `Closed`.
pub proof fn lemma_closed_is_final(link: LinkState, msg: Inbound, frame: Frame)
    requires
        link.spec_closed(),
    ensures
        closed_after(link.spec_closed(), msg),
        send_outcome(link.spec_closed(), frame) == Err::<Seq<u8>, TransportError>(
            TransportError::Closed,
        ),
{
}

/// Messages other than binary ones, close messages, the end of the stream and
/// failures are skipped and leave the link as it was.
pub proof fn lemma_control_messages_skipped(closed: bool, msg: Inbound, step: RecvStep)
    requires
        msg is Text || msg is Ping || msg is Pong || msg is RawFrame,
        inbound_step(msg, step),
    ensures
        step is Skip,
        closed_after(closed, msg) == closed,
{
}

/// On an open link, a frame that is sent and then received as a binary
/// message arrives with the same payload bytes and header fields.
pub proof fn lemma_send_then_receive(frame: Frame, data: Vec<u8>, step: RecvStep)
    requires
        frame.readable(),
        send_outcome(false, frame) == Ok::<Seq<u8>, TransportError>(data@),
        inbound_step(Inbound::Binary(data), step),
    ensures
        step matches RecvStep::Deliver(r) && r matches Ok(g) && g.spec_payload_bytes()
            == frame.spec_payload_bytes() && g.desc.same_header(frame.desc),
{
    crate::wire::lemma_desc_bytes_len(frame.desc);
    crate::wire::lemma_frame_roundtrip(frame, step->Deliver_0->Ok_0);
}

/// Any two steps that `inbound_step` allows for one message have the same
/// outcome: the receive step is determined by the message.
pub proof fn lemma_inbound_step_determined(msg: Inbound, a: RecvStep, b: RecvStep)
    requires
        inbound_step(msg, a),
        inbound_step(msg, b),
    ensures
        same_outcome(a, b),
{
    if let Inbound::Binary(data) = msg {
        if data@.len() >= DESC_SIZE {
            let f = a->Deliver_0->Ok_0;
            let g = b->Deliver_0->Ok_0;
            assert(f.desc.inline_payload =~= g.desc.inline_payload);
        }
    }
}

/// Skipped messages in front of a stream do not change what a receive on it
/// returns, nor the closed flag it leaves.
pub proof fn lemma_skipped_prefix(
    closed: bool,
    pad: Seq<Inbound>,
    rest: Seq<Inbound>,
    step: RecvStep,
    closed_end: bool,
)
    requires
        forall|i: int| 0 <= i < pad.len() ==> is_skipped(#[trigger] pad[i]),
    ensures
        receives(closed, pad + rest, step, closed_end) == receives(closed, rest, step, closed_end),
    decreases pad.len(),
{
    if pad.len() > 0 {
        let tail = pad.drop_first();
        assert((pad + rest).drop_first() =~= tail + rest);
        assert((pad + rest)[0] == pad[0]);
        assert forall|i: int| 0 <= i < tail.len() implies is_skipped(#[trigger] tail[i]) by {
            assert(tail[i] == pad[i + 1]);
        }
        lemma_skipped_prefix(closed, tail, rest, step, closed_end);
    } else {
        assert(pad + rest =~= rest);
    }
}

/// Two receives on links with the same closed flag, whose streams differ only
/// in skipped messages before the first message that decides and in what
/// follows it, have the same outcome and leave the same closed flag.
pub proof fn lemma_padded_streams_agree(
    closed: bool,
    pad1: Seq<Inbound>,
    pad2: Seq<Inbound>,
    msg: Inbound,
    tail1: Seq<Inbound>,
    tail2: Seq<Inbound>,
    step1: RecvStep,
    step2: RecvStep,
    closed1: bool,
    closed2: bool,
)
    requires
        forall|i: int| 0 <= i < pad1.len() ==> is_skipped(#[trigger] pad1[i]),
        forall|i: int| 0 <= i < pad2.len() ==> is_skipped(#[trigger] pad2[i]),
        !is_skipped(msg),
        receives(closed, pad1 + (seq![msg] + tail1), step1, closed1),
        receives(closed, pad2 + (seq![msg] + tail2), step2, closed2),
    ensures
        same_outcome(step1, step2),
        closed1 == closed2,
{
    lemma_skipped_prefix(closed, pad1, seq![msg] + tail1, step1, closed1);
    lemma_skipped_prefix(closed, pad2, seq![msg] + tail2, step2, closed2);
    assert((seq![msg] + tail1)[0] == msg);
    assert((seq![msg] + tail2)[0] == msg);
    lemma_inbound_step_determined(msg, step1, step2);
}

/// After any sequence of calls, a link is closed exactly when it was closed
/// before or one of the calls closed it; ending streams, failures and sends
/// never close it.
pub proof fn lemma_closed_exactly_after_closing_call(closed: bool, calls: Seq<LinkCall>)
    ensures
        closed_after_calls(closed, calls) == (closed || exists|i: int|
            0 <= i < calls.len() && closing_call(#[trigger] calls[i])),
    decreases calls.len(),
{
    if calls.len() > 0 {
        let tail = calls.drop_first();
        let next = closed_after_call(closed, calls[0]);
        lemma_closed_exactly_after_closing_call(next, tail);
        assert(next == (closed || closing_call(calls[0])));
        if exists|i: int| 0 <= i < calls.len() && closing_call(#[trigger] calls[i]) {
            let i = choose|i: int| 0 <= i < calls.len() && closing_call(#[trigger] calls[i]);
            if i > 0 {
                assert(tail[i - 1] == calls[i]);
            }
        }
        if exists|j: int| 0 <= j < tail.len() && closing_call(#[trigger] tail[j]) {
            let j = choose|j: int| 0 <= j < tail.len() && closing_call(#[trigger] tail[j]);
            assert(calls[j + 1] == tail[j]);
        }
    }
}

/// A new link is closed after a sequence of calls exactly when one of them
/// closed it.
pub proof fn lemma_new_link_closed_iff_closing_call(calls: Seq<LinkCall>)
    ensures
        closed_after_calls(false, calls) <==> exists|i: int|
            0 <= i < calls.len() && closing_call(#[trigger] calls[i]),
{
    lemma_closed_exactly_after_closing_call(false, calls);
}

/// On an open link every readable frame is sent, as its descriptor bytes
/// followed by its payload bytes; on a closed link none is.
pub proof fn lemma_open_link_sends_every_frame(frame: Frame)
    requires
        frame.readable(),
    ensures
        send_outcome(false, frame) matches Ok(bytes) && bytes == spec_desc_bytes(frame.desc)
            + frame.spec_payload_bytes(),
        send_outcome(false, frame) matches Ok(bytes) && bytes.len() == DESC_SIZE
            + frame.spec_payload_bytes().len() && bytes.skip(DESC_SIZE as int)
            == frame.spec_payload_bytes(),
        send_outcome(true, frame) == Err::<Seq<u8>, TransportError>(TransportError::Closed),
{
    crate::wire::lemma_desc_bytes_len(frame.desc);
    let bytes = spec_desc_bytes(frame.desc) + frame.spec_payload_bytes();
    assert(bytes.skip(DESC_SIZE as int) =~= frame.spec_payload_bytes());
}

/// Every binary message of at least `DESC_SIZE` bytes is delivered as a
/// frame whose payload is the rest of the message, whatever its length
/// (an empty payload included); a shorter one is refused as invalid data.
pub proof fn lemma_binary_message_delivered(data: Vec<u8>, step: RecvStep)
    requires
        inbound_step(Inbound::Binary(data), step),
    ensures
        data@.len() >= DESC_SIZE ==> (step matches RecvStep::Deliver(r) && r matches Ok(f)
            && f.readable() && f.spec_payload_bytes() == data@.skip(DESC_SIZE as int)
            && f.desc.payload_generation == 0 && f.desc.payload_offset == 0),
        data@.len() < DESC_SIZE ==> step == RecvStep::Deliver(
            Err(
                TransportError::Io(
                    IoErrorKind::InvalidData,
                    IoDetail::FrameTooSmall { len: data@.len() as usize, min: DESC_SIZE },
                ),
            ),
        ),
{
    if data@.len() >= DESC_SIZE {
        crate::wire::lemma_decoded_frame_facts(data@, step->Deliver_0->Ok_0);
    }
}

} // verus!
