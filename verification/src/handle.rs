//! Unified transport enum, send frames and quality-of-service tags.

use vstd::prelude::*;

use crate::desc::{MsgDescHot, INLINE_PAYLOAD_SIZE, INLINE_PAYLOAD_SLOT};
use crate::frame::{fill_inline, inline_filled, Frame, Payload};

verus! {

/// Transport variants; each carries a placeholder for the concrete transport.
#[derive(Clone, Debug)]
pub enum Transport {
    /// In-process transport.
    Mem(MemTransportStub),
    /// Stream transport.
    Stream(StreamTransportStub),
    /// Shared-memory transport.
    Shm(ShmTransportStub),
    /// WebSocket transport.
    WebSocket(WebSocketTransportStub),
}

/// Placeholder for the in-process transport.
#[derive(Clone, Debug)]
pub struct MemTransportStub;

/// Placeholder for the stream transport.
#[derive(Clone, Debug)]
pub struct StreamTransportStub;

/// Placeholder for the shared-memory transport.
#[derive(Clone, Debug)]
pub struct ShmTransportStub;

/// Placeholder for the WebSocket transport.
#[derive(Clone, Debug)]
pub struct WebSocketTransportStub;

/// Frame for sending with generic payload.
#[derive(Debug, Clone)]
pub struct SendFrame<P> {
    /// The frame descriptor.
    pub desc: MsgDescHot,
    /// Optional payload (None if inline or empty).
    pub payload: Option<P>,
}

impl<P> SendFrame<P> {
    /// Create a new send frame with the given descriptor.
    pub fn new(desc: MsgDescHot) -> (f: Self)
        ensures
            f.desc == desc,
            f.payload is None,
    {
        Self { desc, payload: None }
    }
}

impl SendFrame<Vec<u8>> {
    /// The payload bytes can be read without going past the inline storage.
    pub open spec fn readable(&self) -> bool {
        self.desc.spec_is_inline() ==> self.desc.inline_len_ok()
    }

    /// The bytes this frame carries: the inline bytes when the descriptor
    /// marks the payload inline, else the external payload, else nothing.
    pub open spec fn spec_payload_bytes(&self) -> Seq<u8> {
        if self.desc.spec_is_inline() {
            self.desc.inline_bytes()
        } else {
            match self.payload {
                Some(p) => p@,
                None => Seq::empty(),
            }
        }
    }

    /// Create a frame with external payload.
    pub fn with_payload(desc: MsgDescHot, payload: Vec<u8>) -> (f: Self)
        ensures
            f.desc.same_header(desc),
            f.desc.payload_slot == 0,
            f.desc.payload_generation == desc.payload_generation,
            f.desc.payload_offset == desc.payload_offset,
            f.desc.payload_len == payload@.len() as u32,
            f.desc.inline_payload == desc.inline_payload,
            f.payload == Some(payload),
            f.readable(),
            f.spec_payload_bytes() == payload@,
    {
        let mut desc = desc;
        desc.payload_slot = 0;
        desc.payload_len = payload.len() as u32;
        Self { desc, payload: Some(payload) }
    }

    /// Get the payload bytes.
    pub fn payload_bytes(&self) -> (r: &[u8])
        requires
            self.readable(),
        ensures
            r@ == self.spec_payload_bytes(),
    {
        if self.desc.is_inline() {
            self.desc.inline_payload()
        } else {
            match &self.payload {
                Some(p) => p.as_slice(),
                None => {
                    let empty: &[u8] = &[];
                    assert(empty@ =~= Seq::<u8>::empty());
                    empty
                },
            }
        }
    }

    /// Create a frame with inline payload; `None` when the payload does not fit.
    pub fn with_inline_payload(desc: MsgDescHot, payload: &[u8]) -> (r: Option<Self>)
        ensures
            r is Some <==> payload@.len() <= INLINE_PAYLOAD_SIZE,
            r matches Some(f) ==> {
                &&& f.payload is None
                &&& inline_filled(desc, payload@, f.desc)
                &&& f.desc.msg_id == desc.msg_id
                &&& f.desc.channel_id == desc.channel_id
                &&& f.desc.method_id == desc.method_id
                &&& f.desc.flags == desc.flags
                &&& f.desc.credit_grant == desc.credit_grant
                &&& f.desc.deadline_ns == desc.deadline_ns
                &&& f.desc.payload_slot == INLINE_PAYLOAD_SLOT
                &&& f.desc.payload_generation == 0
                &&& f.desc.payload_offset == 0
                &&& f.desc.payload_len == payload@.len()
                &&& f.readable()
                &&& f.spec_payload_bytes() == payload@
            },
    {
        if payload.len() > INLINE_PAYLOAD_SIZE {
            return None;
        }
        let mut desc = desc;
        fill_inline(&mut desc, payload);
        let f = Self { desc, payload: None };
        assert(f.spec_payload_bytes() =~= payload@);
        Some(f)
    }
}

/// The send frame that carries a frame: an owned payload becomes the
/// external payload, an inline one leaves it empty.
pub open spec fn send_frame_of(frame: Frame) -> SendFrame<Vec<u8>> {
    SendFrame {
        desc: frame.desc,
        payload: match frame.payload {
            Payload::Inline => None,
            Payload::Owned(buf) => Some(buf),
        },
    }
}

/// The frame that a send frame carries: an external payload becomes an owned
/// one, none means inline.
pub open spec fn frame_of(send: SendFrame<Vec<u8>>) -> Frame {
    Frame {
        desc: send.desc,
        payload: match send.payload {
            Some(buf) => Payload::Owned(buf),
            None => Payload::Inline,
        },
    }
}

/// Convert an owned Frame to a SendFrame.
impl From<Frame> for SendFrame<Vec<u8>> {
    fn from(frame: Frame) -> (r: Self)
        ensures
            r.desc == frame.desc,
            frame.payload is Inline ==> r.payload is None,
            frame.payload matches Payload::Owned(buf) ==> r.payload == Some(buf),
    {
        let payload = match frame.payload {
            Payload::Inline => None,
            Payload::Owned(buf) => Some(buf),
        };
        Self { desc: frame.desc, payload }
    }
}

impl vstd::std_specs::convert::FromSpecImpl<Frame> for SendFrame<Vec<u8>> {
    open spec fn obeys_from_spec() -> bool {
        true
    }

    open spec fn from_spec(frame: Frame) -> Self {
        send_frame_of(frame)
    }
}

/// The send frame carries the frame's descriptor and a copy of its owned
/// payload bytes, if any.
pub open spec fn copies_frame(frame: Frame, send: SendFrame<Vec<u8>>) -> bool {
    &&& send.desc == frame.desc
    &&& match frame.payload {
        Payload::Inline => send.payload is None,
        Payload::Owned(buf) => send.payload matches Some(copy) && copy@ == buf@,
    }
}

/// Convert a borrowed Frame to a SendFrame (clones payload if present).
impl<'a> From<&'a Frame> for SendFrame<Vec<u8>> {
    fn from(frame: &'a Frame) -> (r: Self)
        ensures
            copies_frame(*frame, r),
    {
        let payload = match &frame.payload {
            Payload::Inline => None,
            Payload::Owned(buf) => {
                let copy = buf.clone();
                proof {
                    assert(copy@ =~= buf@);
                }
                Some(copy)
            },
        };
        Self { desc: frame.desc, payload }
    }
}

/// A clone is a new allocation, equal to the original only in its view, so
/// no whole-value equation is claimed for this conversion; `copies_frame`
/// states what it returns.
impl<'a> vstd::std_specs::convert::FromSpecImpl<&'a Frame> for SendFrame<Vec<u8>> {
    open spec fn obeys_from_spec() -> bool {
        false
    }

    open spec fn from_spec(frame: &'a Frame) -> Self {
        send_frame_of(*frame)
    }
}

/// Convert a SendFrame back to a Frame.
impl From<SendFrame<Vec<u8>>> for Frame {
    fn from(send_frame: SendFrame<Vec<u8>>) -> (r: Self)
        ensures
            r.desc == send_frame.desc,
            send_frame.payload is None ==> r.payload is Inline,
            send_frame.payload matches Some(buf) ==> r.payload == Payload::Owned(buf),
    {
        let payload = match send_frame.payload {
            Some(buf) => Payload::Owned(buf),
            None => Payload::Inline,
        };
        Self { desc: send_frame.desc, payload }
    }
}

impl vstd::std_specs::convert::FromSpecImpl<SendFrame<Vec<u8>>> for Frame {
    open spec fn obeys_from_spec() -> bool {
        true
    }

    open spec fn from_spec(send_frame: SendFrame<Vec<u8>>) -> Self {
        frame_of(send_frame)
    }
}

/// The conversions between frames and send frames keep the descriptor
/// unchanged and carry the payload across: an owned payload becomes the
/// external payload and back, an inline one leaves it absent and back; a
/// copy made from a borrowed frame has the same descriptor and bytes.
pub proof fn lemma_conversions_keep_descriptor(
    frame: Frame,
    send: SendFrame<Vec<u8>>,
    copy: SendFrame<Vec<u8>>,
)
    ensures
        send_frame_of(frame).desc == frame.desc,
        frame_of(send).desc == send.desc,
        frame.payload is Inline ==> send_frame_of(frame).payload is None,
        frame.payload matches Payload::Owned(buf) ==> send_frame_of(frame).payload == Some(buf),
        send.payload is None ==> frame_of(send).payload is Inline,
        send.payload matches Some(buf) ==> frame_of(send).payload == Payload::Owned(buf),
        copies_frame(frame, copy) ==> copy.desc == frame.desc,
        copies_frame(frame, copy) ==> (frame.payload matches Payload::Owned(buf) ==> (
        copy.payload matches Some(c) && c@ == buf@)),
        copies_frame(frame, copy) && frame.payload is Inline ==> copy.payload is None,
{
}

/// A frame whose descriptor marks its payload inline exactly when the payload
/// is stored inline, as every constructor of this crate leaves it.
pub open spec fn frame_consistent(frame: Frame) -> bool {
    frame.desc.spec_is_inline() <==> (frame.payload is Inline)
}

/// Converting a frame to a send frame and back gives the same frame, and a
/// send frame whose payload is absent exactly when its descriptor marks it
/// inline survives the trip the other way.
pub proof fn lemma_frame_send_frame_roundtrip(frame: Frame, send: SendFrame<Vec<u8>>)
    ensures
        frame_of(send_frame_of(frame)) == frame,
        (send.payload is None <==> send.desc.spec_is_inline()) ==> send_frame_of(frame_of(send))
            == send,
{
}

/// A consistent frame and the send frame made from it carry the same bytes.
pub proof fn lemma_send_frame_of_payload(frame: Frame)
    requires
        frame_consistent(frame),
        frame.readable(),
    ensures
        send_frame_of(frame).readable(),
        send_frame_of(frame).spec_payload_bytes() == frame.spec_payload_bytes(),
{
}

/// Quality of service class for prioritization.
#[derive(Debug, Clone, Copy, PartialEq, Eq, Structural)]
pub enum QoSClass {
    /// Control frames (ping, close, cancel) - highest priority.
    Control,
    /// High priority data.
    High,
    /// Normal priority (default).
    Normal,
    /// Bulk/background data - lowest priority.
    Bulk,
}

impl Default for QoSClass {
    fn default() -> (r: Self)
        ensures
            r == QoSClass::Normal,
    {
        QoSClass::Normal
    }
}

/// Message wrapper with QoS metadata.
#[derive(Debug, Clone)]
pub struct Prioritized<T> {
    /// The QoS class.
    pub class: QoSClass,
    /// The wrapped item.
    pub item: T,
}

impl<T> Prioritized<T> {
    /// Create a new prioritized item with Normal class.
    pub fn normal(item: T) -> (r: Self)
        ensures
            r.class == QoSClass::Normal,
            r.item == item,
    {
        Self { class: QoSClass::Normal, item }
    }

    /// Create a new prioritized item with the given class.
    pub fn with_class(class: QoSClass, item: T) -> (r: Self)
        ensures
            r.class == class,
            r.item == item,
    {
        Self { class, item }
    }
}

} // verus!
