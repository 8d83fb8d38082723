//! Unified frame representation.

use vstd::prelude::*;

use crate::desc::{MsgDescHot, INLINE_PAYLOAD_SIZE, INLINE_PAYLOAD_SLOT};

verus! {

/// Payload storage for a frame.
#[derive(Debug)]
pub enum Payload {
    /// Payload bytes live inside `MsgDescHot::inline_payload`.
    Inline,
    /// Payload bytes are owned as a heap allocation.
    Owned(Vec<u8>),
}

impl Payload {
    /// The payload can be read against `desc`: owned bytes always can, inline
    /// bytes when the recorded length fits the inline storage.
    pub open spec fn readable(&self, desc: MsgDescHot) -> bool {
        match self {
            Payload::Inline => desc.inline_len_ok(),
            Payload::Owned(_) => true,
        }
    }

    /// The payload bytes, read against `desc` when stored inline.
    pub open spec fn bytes(&self, desc: MsgDescHot) -> Seq<u8> {
        match self {
            Payload::Inline => desc.inline_bytes(),
            Payload::Owned(buf) => buf@,
        }
    }

    /// Borrow the payload as a byte slice.
    pub fn as_slice<'a>(&'a self, desc: &'a MsgDescHot) -> (r: &'a [u8])
        requires
            self.readable(*desc),
        ensures
            r@ == self.bytes(*desc),
    {
        match self {
            Payload::Inline => desc.inline_payload(),
            Payload::Owned(buf) => buf.as_slice(),
        }
    }

    /// Returns true if this payload is stored inline.
    pub fn is_inline(&self) -> (b: bool)
        ensures
            b == (self is Inline),
    {
        match self {
            Payload::Inline => true,
            Payload::Owned(_) => false,
        }
    }
}

/// `new` is `old` with the payload placed inline: slot, generation, offset and
/// length rewritten, the first bytes of the inline storage replaced by `payload`,
/// everything else kept.
pub open spec fn inline_filled(old: MsgDescHot, payload: Seq<u8>, new: MsgDescHot) -> bool {
    &&& new.same_header(old)
    &&& new.payload_slot == INLINE_PAYLOAD_SLOT
    &&& new.payload_generation == 0
    &&& new.payload_offset == 0
    &&& new.payload_len == payload.len()
    &&& new.inline_payload@ == payload + old.inline_payload@.skip(payload.len() as int)
}

/// Copy `payload` into the inline storage of `desc` and point the descriptor at it.
pub(crate) fn fill_inline(desc: &mut MsgDescHot, payload: &[u8])
    requires
        payload@.len() <= INLINE_PAYLOAD_SIZE,
    ensures
        inline_filled(*old(desc), payload@, *final(desc)),
        final(desc).msg_id == old(desc).msg_id,
        final(desc).channel_id == old(desc).channel_id,
        final(desc).method_id == old(desc).method_id,
        final(desc).flags == old(desc).flags,
        final(desc).credit_grant == old(desc).credit_grant,
        final(desc).deadline_ns == old(desc).deadline_ns,
        final(desc).payload_slot == INLINE_PAYLOAD_SLOT,
        final(desc).payload_generation == 0,
        final(desc).payload_offset == 0,
        final(desc).payload_len == payload@.len(),
        final(desc).inline_bytes() == payload@,
{
    let n = payload.len();
    desc.payload_slot = INLINE_PAYLOAD_SLOT;
    desc.payload_generation = 0;
    desc.payload_offset = 0;
    desc.payload_len = n as u32;
    let ghost before = desc.inline_payload@;
    let mut i: usize = 0;
    while i < n
        invariant
            n == payload@.len(),
            n <= INLINE_PAYLOAD_SIZE,
            i <= n,
            desc.inline_payload@.len() == INLINE_PAYLOAD_SIZE,
            before.len() == INLINE_PAYLOAD_SIZE,
            forall|k: int| 0 <= k < i ==> desc.inline_payload@[k] == payload@[k],
            forall|k: int| i <= k < INLINE_PAYLOAD_SIZE ==> desc.inline_payload@[k] == before[k],
            desc.same_header(*old(desc)),
            desc.payload_slot == INLINE_PAYLOAD_SLOT,
            desc.payload_generation == 0,
            desc.payload_offset == 0,
            desc.payload_len == n,
            before == old(desc).inline_payload@,
        decreases n - i,
    {
        desc.inline_payload[i] = payload[i];
        i = i + 1;
    }
    assert(desc.inline_payload@ =~= payload@ + before.skip(n as int));
    assert(desc.inline_bytes() =~= payload@);
}

/// Placing a payload inline keeps the message header, marks the payload
/// inline with zero generation and offset, records its length, and makes the
/// inline bytes exactly the payload.
pub proof fn lemma_inline_fill_keeps_header(old: MsgDescHot, payload: Seq<u8>, new: MsgDescHot)
    requires
        payload.len() <= INLINE_PAYLOAD_SIZE,
        inline_filled(old, payload, new),
    ensures
        new.msg_id == old.msg_id,
        new.channel_id == old.channel_id,
        new.method_id == old.method_id,
        new.flags == old.flags,
        new.credit_grant == old.credit_grant,
        new.deadline_ns == old.deadline_ns,
        new.payload_slot == INLINE_PAYLOAD_SLOT,
        new.payload_generation == 0,
        new.payload_offset == 0,
        new.payload_len == payload.len(),
        new.inline_len_ok(),
        new.inline_bytes() == payload,
{
    assert(new.inline_bytes() =~= payload);
}

/// Owned frame for sending, receiving, or routing.
#[derive(Debug)]
pub struct Frame {
    /// The frame descriptor.
    pub desc: MsgDescHot,
    /// Payload storage for this frame.
    pub payload: Payload,
}

impl Frame {
    /// The payload bytes can be read without going past the inline storage.
    pub open spec fn readable(&self) -> bool {
        self.payload.readable(self.desc)
    }

    /// The bytes this frame carries.
    pub open spec fn spec_payload_bytes(&self) -> Seq<u8> {
        self.payload.bytes(self.desc)
    }

    /// Create a new frame with no payload (inline empty): the descriptor is
    /// kept except that its payload length becomes 0.
    pub fn new(desc: MsgDescHot) -> (f: Self)
        ensures
            f.desc == (MsgDescHot { payload_len: 0, ..desc }),
            f.payload is Inline,
            f.readable(),
            f.spec_payload_bytes() == Seq::<u8>::empty(),
    {
        let mut desc = desc;
        desc.payload_len = 0;
        let f = Self { desc, payload: Payload::Inline };
        assert(f.spec_payload_bytes() =~= Seq::<u8>::empty());
        f
    }

    /// Create a frame with inline payload; `None` when the payload does not fit.
    pub fn with_inline_payload(desc: MsgDescHot, payload: &[u8]) -> (r: Option<Self>)
        ensures
            r is Some <==> payload@.len() <= INLINE_PAYLOAD_SIZE,
            r matches Some(f) ==> {
                &&& f.payload is Inline
                &&& inline_filled(desc, payload@, f.desc)
                &&& f.desc.msg_id == desc.msg_id
                &&& f.desc.channel_id == desc.channel_id
                &&& f.desc.method_id == desc.method_id
                &&& f.desc.flags == desc.flags
                &&& f.desc.credit_grant == desc.credit_grant
                &&& f.desc.deadline_ns == desc.deadline_ns
                &&& f.desc.payload_slot == INLINE_PAYLOAD_SLOT
                &&& f.desc.payload_generation == 0
                &&& f.desc.payload_offset == 0
                &&& f.desc.payload_len == payload@.len()
                &&& f.readable()
                &&& f.spec_payload_bytes() == payload@
            },
    {
        if payload.len() > INLINE_PAYLOAD_SIZE {
            return None;
        }
        let mut desc = desc;
        fill_inline(&mut desc, payload);
        let f = Self { desc, payload: Payload::Inline };
        assert(f.spec_payload_bytes() =~= payload@);
        Some(f)
    }

    /// Create a frame with an owned payload allocation.
    pub fn with_payload(desc: MsgDescHot, payload: Vec<u8>) -> (f: Self)
        ensures
            f.desc.same_header(desc),
            f.desc.payload_slot == 0,
            f.desc.payload_generation == 0,
            f.desc.payload_offset == 0,
            f.desc.payload_len == payload@.len() as u32,
            f.desc.inline_payload == desc.inline_payload,
            f.payload == Payload::Owned(payload),
            f.readable(),
            f.spec_payload_bytes() == payload@,
    {
        let mut desc = desc;
        desc.payload_slot = 0;
        desc.payload_generation = 0;
        desc.payload_offset = 0;
        desc.payload_len = payload.len() as u32;
        Self { desc, payload: Payload::Owned(payload) }
    }

    /// Borrow the payload as bytes.
    pub fn payload_bytes(&self) -> (r: &[u8])
        requires
            self.readable(),
        ensures
            r@ == self.spec_payload_bytes(),
    {
        self.payload.as_slice(&self.desc)
    }
}

} // verus!
