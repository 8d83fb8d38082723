//! The hot message descriptor that heads every frame.

use vstd::prelude::*;

verus! {

/// Number of payload bytes that fit inside the descriptor itself.
pub const INLINE_PAYLOAD_SIZE: usize = 16;

/// Slot number that marks a payload stored inline in the descriptor.
pub const INLINE_PAYLOAD_SLOT: u32 = 0xffff_ffff;

/// Deadline value meaning that the message has no deadline.
pub const NO_DEADLINE: u64 = 0xffff_ffff_ffff_ffff;

/// Fixed-size frame descriptor (64 bytes on the wire).
#[derive(Clone, Copy, Debug, PartialEq, Eq)]
pub struct MsgDescHot {
    /// Message identifier.
    pub msg_id: u64,
    /// Channel the message belongs to.
    pub channel_id: u32,
    /// Method being invoked.
    pub method_id: u32,
    /// Shared-memory slot of the payload, or `INLINE_PAYLOAD_SLOT`.
    pub payload_slot: u32,
    /// Generation counter of the payload slot.
    pub payload_generation: u32,
    /// Offset of the payload inside its slot.
    pub payload_offset: u32,
    /// Length of the payload in bytes.
    pub payload_len: u32,
    /// Frame flags.
    pub flags: u32,
    /// Flow-control credit granted to the peer.
    pub credit_grant: u32,
    /// Deadline in nanoseconds.
    pub deadline_ns: u64,
    /// Storage for small payloads.
    pub inline_payload: [u8; INLINE_PAYLOAD_SIZE],
}

impl MsgDescHot {
    /// The descriptor marks its payload as inline.
    pub open spec fn spec_is_inline(&self) -> bool {
        self.payload_slot == INLINE_PAYLOAD_SLOT
    }

    /// The recorded payload length fits in the inline storage.
    pub open spec fn inline_len_ok(&self) -> bool {
        self.payload_len <= INLINE_PAYLOAD_SIZE
    }

    /// The inline payload: the first `payload_len` bytes of the inline storage.
    pub open spec fn inline_bytes(&self) -> Seq<u8> {
        self.inline_payload@.take(self.payload_len as int)
    }

    /// The fields that describe the message rather than where its payload lives
    /// are the same in both descriptors.
    pub open spec fn same_header(&self, other: MsgDescHot) -> bool {
        &&& self.msg_id == other.msg_id
        &&& self.channel_id == other.channel_id
        &&& self.method_id == other.method_id
        &&& self.flags == other.flags
        &&& self.credit_grant == other.credit_grant
        &&& self.deadline_ns == other.deadline_ns
    }

    /// A descriptor with every field zero, no flags and no deadline.
    pub fn new() -> (d: Self)
        ensures
            d.msg_id == 0,
            d.channel_id == 0,
            d.method_id == 0,
            d.payload_slot == 0,
            d.payload_generation == 0,
            d.payload_offset == 0,
            d.payload_len == 0,
            d.flags == 0,
            d.credit_grant == 0,
            d.deadline_ns == NO_DEADLINE,
            d.inline_payload@ == Seq::new(INLINE_PAYLOAD_SIZE as nat, |i: int| 0u8),
    {
        let d = MsgDescHot {
            msg_id: 0,
            channel_id: 0,
            method_id: 0,
            payload_slot: 0,
            payload_generation: 0,
            payload_offset: 0,
            payload_len: 0,
            flags: 0,
            credit_grant: 0,
            deadline_ns: NO_DEADLINE,
            inline_payload: [0u8; INLINE_PAYLOAD_SIZE],
        };
        assert(d.inline_payload@ =~= Seq::new(INLINE_PAYLOAD_SIZE as nat, |i: int| 0u8));
        d
    }

    /// Returns true if the payload is stored inline in the descriptor.
    #[verifier::when_used_as_spec(spec_is_inline)]
    pub fn is_inline(&self) -> (b: bool)
        ensures
            b == self.spec_is_inline(),
    {
        self.payload_slot == INLINE_PAYLOAD_SLOT
    }

    /// Borrow the inline payload bytes.
    pub fn inline_payload(&self) -> (r: &[u8])
        requires
            self.inline_len_ok(),
        ensures
            r@ == self.inline_bytes(),
    {
        let len = self.payload_len as usize;
        let all: &[u8] = self.inline_payload.as_slice();
        vstd::slice::slice_subrange(all, 0, len)
    }
}

} // verus!
