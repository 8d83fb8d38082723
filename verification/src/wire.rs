//! Byte layout of frames on a message-oriented connection: the 64-byte
//! descriptor in little-endian field order, followed by the payload.

use vstd::prelude::*;
use vstd::bytes::*;

use crate::desc::{MsgDescHot, INLINE_PAYLOAD_SIZE, INLINE_PAYLOAD_SLOT};
use crate::error::{IoDetail, IoErrorKind, TransportError};
use crate::frame::{fill_inline, inline_filled, Frame, Payload};

verus! {

/// Size of an encoded `MsgDescHot` in bytes.
pub const DESC_SIZE: usize = 64;

/// The encoding of a descriptor: each field in declaration order, integers
/// little-endian, then the inline storage.
pub open spec fn spec_desc_bytes(d: MsgDescHot) -> Seq<u8> {
    spec_u64_to_le_bytes(d.msg_id) + spec_u32_to_le_bytes(d.channel_id) + spec_u32_to_le_bytes(
        d.method_id,
    ) + spec_u32_to_le_bytes(d.payload_slot) + spec_u32_to_le_bytes(d.payload_generation)
        + spec_u32_to_le_bytes(d.payload_offset) + spec_u32_to_le_bytes(d.payload_len)
        + spec_u32_to_le_bytes(d.flags) + spec_u32_to_le_bytes(d.credit_grant)
        + spec_u64_to_le_bytes(d.deadline_ns) + d.inline_payload@
}

/// The header fields of `d` are the ones encoded in the 64 bytes `s`.
pub open spec fn header_from_bytes(s: Seq<u8>, d: MsgDescHot) -> bool {
    &&& d.msg_id == spec_u64_from_le_bytes(s.subrange(0, 8))
    &&& d.channel_id == spec_u32_from_le_bytes(s.subrange(8, 12))
    &&& d.method_id == spec_u32_from_le_bytes(s.subrange(12, 16))
    &&& d.flags == spec_u32_from_le_bytes(s.subrange(32, 36))
    &&& d.credit_grant == spec_u32_from_le_bytes(s.subrange(36, 40))
    &&& d.deadline_ns == spec_u64_from_le_bytes(s.subrange(40, 48))
}

/// `d` is the descriptor encoded in the 64 bytes `s`.
pub open spec fn desc_from_bytes(s: Seq<u8>, d: MsgDescHot) -> bool {
    &&& header_from_bytes(s, d)
    &&& d.payload_slot == spec_u32_from_le_bytes(s.subrange(16, 20))
    &&& d.payload_generation == spec_u32_from_le_bytes(s.subrange(20, 24))
    &&& d.payload_offset == spec_u32_from_le_bytes(s.subrange(24, 28))
    &&& d.payload_len == spec_u32_from_le_bytes(s.subrange(28, 32))
    &&& d.inline_payload@ == s.subrange(48, 64)
}

/// The bytes sent for a frame: its descriptor, then its payload.
pub open spec fn spec_encode_frame(f: Frame) -> Seq<u8> {
    spec_desc_bytes(f.desc) + f.spec_payload_bytes()
}

/// `f` is the frame received as the message `s` (of at least `DESC_SIZE` bytes):
/// the header comes from the descriptor bytes, the payload is the rest of the
/// message, kept inline when it fits and owned otherwise.
pub open spec fn frame_from_bytes(s: Seq<u8>, f: Frame) -> bool {
    let wire = s.take(DESC_SIZE as int);
    let payload = s.skip(DESC_SIZE as int);
    &&& header_from_bytes(wire, f.desc)
    &&& f.desc.payload_generation == 0
    &&& f.desc.payload_offset == 0
    &&& f.desc.payload_len == payload.len() as u32
    &&& if payload.len() <= INLINE_PAYLOAD_SIZE {
        &&& f.payload is Inline
        &&& f.desc.payload_slot == INLINE_PAYLOAD_SLOT
        &&& f.desc.inline_payload@ == payload + wire.subrange(48 + payload.len() as int, 64)
    } else {
        &&& f.payload matches Payload::Owned(buf) && buf@ == payload
        &&& f.desc.payload_slot == 0
        &&& f.desc.inline_payload@ == wire.subrange(48, 64)
    }
}

fn push_bytes(out: &mut Vec<u8>, bytes: &[u8])
    ensures
        final(out)@ == old(out)@ + bytes@,
{
    let mut i: usize = 0;
    while i < bytes.len()
        invariant
            i <= bytes@.len(),
            out@ == old(out)@ + bytes@.take(i as int),
        decreases bytes@.len() - i,
    {
        out.push(bytes[i]);
        i = i + 1;
        assert(out@ =~= old(out)@ + bytes@.take(i as int));
    }
    assert(bytes@.take(i as int) =~= bytes@);
}

pub(crate) proof fn lemma_desc_bytes_len(d: MsgDescHot)
    ensures
        spec_desc_bytes(d).len() == DESC_SIZE,
{
    lemma_auto_spec_u32_to_from_le_bytes();
    lemma_auto_spec_u64_to_from_le_bytes();
    assert(spec_u64_to_le_bytes(d.msg_id).len() == 8);
    assert(spec_u64_to_le_bytes(d.deadline_ns).len() == 8);
}

/// Encode a descriptor into its 64 wire bytes.
pub fn desc_to_bytes(desc: &MsgDescHot) -> (r: Vec<u8>)
    ensures
        r@ == spec_desc_bytes(*desc),
        r@.len() == DESC_SIZE,
{
    proof {
        lemma_desc_bytes_len(*desc);
    }
    let mut out: Vec<u8> = Vec::with_capacity(DESC_SIZE);
    push_bytes(&mut out, u64_to_le_bytes(desc.msg_id).as_slice());
    push_bytes(&mut out, u32_to_le_bytes(desc.channel_id).as_slice());
    push_bytes(&mut out, u32_to_le_bytes(desc.method_id).as_slice());
    push_bytes(&mut out, u32_to_le_bytes(desc.payload_slot).as_slice());
    push_bytes(&mut out, u32_to_le_bytes(desc.payload_generation).as_slice());
    push_bytes(&mut out, u32_to_le_bytes(desc.payload_offset).as_slice());
    push_bytes(&mut out, u32_to_le_bytes(desc.payload_len).as_slice());
    push_bytes(&mut out, u32_to_le_bytes(desc.flags).as_slice());
    push_bytes(&mut out, u32_to_le_bytes(desc.credit_grant).as_slice());
    push_bytes(&mut out, u64_to_le_bytes(desc.deadline_ns).as_slice());
    push_bytes(&mut out, desc.inline_payload.as_slice());
    assert(out@ =~= spec_desc_bytes(*desc));
    out
}

/// Decode a descriptor from its 64 wire bytes.
pub fn bytes_to_desc(bytes: &[u8]) -> (d: MsgDescHot)
    requires
        bytes@.len() == DESC_SIZE,
    ensures
        desc_from_bytes(bytes@, d),
{
    let mut inline_payload = [0u8; INLINE_PAYLOAD_SIZE];
    let mut i: usize = 0;
    while i < INLINE_PAYLOAD_SIZE
        invariant
            i <= INLINE_PAYLOAD_SIZE,
            bytes@.len() == DESC_SIZE,
            inline_payload@.len() == INLINE_PAYLOAD_SIZE,
            forall|k: int| 0 <= k < i ==> inline_payload@[k] == bytes@[48 + k],
        decreases INLINE_PAYLOAD_SIZE - i,
    {
        inline_payload[i] = bytes[48 + i];
        i = i + 1;
    }
    assert(inline_payload@ =~= bytes@.subrange(48, 64));
    MsgDescHot {
        msg_id: u64_from_le_bytes(vstd::slice::slice_subrange(bytes, 0, 8)),
        channel_id: u32_from_le_bytes(vstd::slice::slice_subrange(bytes, 8, 12)),
        method_id: u32_from_le_bytes(vstd::slice::slice_subrange(bytes, 12, 16)),
        payload_slot: u32_from_le_bytes(vstd::slice::slice_subrange(bytes, 16, 20)),
        payload_generation: u32_from_le_bytes(vstd::slice::slice_subrange(bytes, 20, 24)),
        payload_offset: u32_from_le_bytes(vstd::slice::slice_subrange(bytes, 24, 28)),
        payload_len: u32_from_le_bytes(vstd::slice::slice_subrange(bytes, 28, 32)),
        flags: u32_from_le_bytes(vstd::slice::slice_subrange(bytes, 32, 36)),
        credit_grant: u32_from_le_bytes(vstd::slice::slice_subrange(bytes, 36, 40)),
        deadline_ns: u64_from_le_bytes(vstd::slice::slice_subrange(bytes, 40, 48)),
        inline_payload,
    }
}


/// The encoding places each field of the descriptor, little-endian, at its
/// fixed offset: the message id at 0, channel 8, method 12, slot 16,
/// generation 20, offset 24, length 28, flags 32, credit 36, deadline 40, and
/// the inline storage at 48, for 64 bytes in all.
pub proof fn lemma_desc_bytes_pieces(d: MsgDescHot)
    ensures
        spec_desc_bytes(d).len() == DESC_SIZE,
        spec_desc_bytes(d).subrange(0, 8) == spec_u64_to_le_bytes(d.msg_id),
        spec_desc_bytes(d).subrange(8, 12) == spec_u32_to_le_bytes(d.channel_id),
        spec_desc_bytes(d).subrange(12, 16) == spec_u32_to_le_bytes(d.method_id),
        spec_desc_bytes(d).subrange(16, 20) == spec_u32_to_le_bytes(d.payload_slot),
        spec_desc_bytes(d).subrange(20, 24) == spec_u32_to_le_bytes(d.payload_generation),
        spec_desc_bytes(d).subrange(24, 28) == spec_u32_to_le_bytes(d.payload_offset),
        spec_desc_bytes(d).subrange(28, 32) == spec_u32_to_le_bytes(d.payload_len),
        spec_desc_bytes(d).subrange(32, 36) == spec_u32_to_le_bytes(d.flags),
        spec_desc_bytes(d).subrange(36, 40) == spec_u32_to_le_bytes(d.credit_grant),
        spec_desc_bytes(d).subrange(40, 48) == spec_u64_to_le_bytes(d.deadline_ns),
        spec_desc_bytes(d).subrange(48, 64) == d.inline_payload@,
{
    lemma_desc_bytes_len(d);
    lemma_auto_spec_u32_to_from_le_bytes();
    lemma_auto_spec_u64_to_from_le_bytes();
    let s = spec_desc_bytes(d);
    assert(s.subrange(0, 8) =~= spec_u64_to_le_bytes(d.msg_id));
    assert(s.subrange(8, 12) =~= spec_u32_to_le_bytes(d.channel_id));
    assert(s.subrange(12, 16) =~= spec_u32_to_le_bytes(d.method_id));
    assert(s.subrange(16, 20) =~= spec_u32_to_le_bytes(d.payload_slot));
    assert(s.subrange(20, 24) =~= spec_u32_to_le_bytes(d.payload_generation));
    assert(s.subrange(24, 28) =~= spec_u32_to_le_bytes(d.payload_offset));
    assert(s.subrange(28, 32) =~= spec_u32_to_le_bytes(d.payload_len));
    assert(s.subrange(32, 36) =~= spec_u32_to_le_bytes(d.flags));
    assert(s.subrange(36, 40) =~= spec_u32_to_le_bytes(d.credit_grant));
    assert(s.subrange(40, 48) =~= spec_u64_to_le_bytes(d.deadline_ns));
    assert(s.subrange(48, 64) =~= d.inline_payload@);
}

proof fn lemma_header_from_own_bytes(d: MsgDescHot, e: MsgDescHot)
    requires
        header_from_bytes(spec_desc_bytes(d), e),
    ensures
        e.same_header(d),
{
    lemma_desc_bytes_pieces(d);
    lemma_auto_spec_u32_to_from_le_bytes();
    lemma_auto_spec_u64_to_from_le_bytes();
}

/// Decoding the bytes of an encoded descriptor gives back that descriptor,
/// and nothing else.
pub proof fn lemma_desc_roundtrip(d: MsgDescHot, e: MsgDescHot)
    ensures
        desc_from_bytes(spec_desc_bytes(d), e) <==> e == d,
{
    lemma_desc_bytes_pieces(d);
    lemma_auto_spec_u32_to_from_le_bytes();
    lemma_auto_spec_u64_to_from_le_bytes();
    if desc_from_bytes(spec_desc_bytes(d), e) {
        assert(e.inline_payload =~= d.inline_payload);
    }
}

/// Encoding the descriptor decoded from 64 bytes gives back those bytes.
pub proof fn lemma_bytes_roundtrip(s: Seq<u8>, d: MsgDescHot)
    requires
        s.len() == DESC_SIZE,
        desc_from_bytes(s, d),
    ensures
        spec_desc_bytes(d) == s,
{
    lemma_desc_bytes_pieces(d);
    lemma_auto_spec_u32_to_from_le_bytes();
    lemma_auto_spec_u64_to_from_le_bytes();
    let e = spec_desc_bytes(d);
    assert(spec_u64_to_le_bytes(d.msg_id) == s.subrange(0, 8));
    assert(spec_u32_to_le_bytes(d.channel_id) == s.subrange(8, 12));
    assert(spec_u32_to_le_bytes(d.method_id) == s.subrange(12, 16));
    assert(spec_u32_to_le_bytes(d.payload_slot) == s.subrange(16, 20));
    assert(spec_u32_to_le_bytes(d.payload_generation) == s.subrange(20, 24));
    assert(spec_u32_to_le_bytes(d.payload_offset) == s.subrange(24, 28));
    assert(spec_u32_to_le_bytes(d.payload_len) == s.subrange(28, 32));
    assert(spec_u32_to_le_bytes(d.flags) == s.subrange(32, 36));
    assert(spec_u32_to_le_bytes(d.credit_grant) == s.subrange(36, 40));
    assert(spec_u64_to_le_bytes(d.deadline_ns) == s.subrange(40, 48));
    assert forall|i: int| 0 <= i < DESC_SIZE implies e[i] == s[i] by {
        if i < 8 {
            assert(e.subrange(0, 8)[i] == s.subrange(0, 8)[i]);
        } else if i < 12 {
            assert(e.subrange(8, 12)[i - 8] == s.subrange(8, 12)[i - 8]);
        } else if i < 16 {
            assert(e.subrange(12, 16)[i - 12] == s.subrange(12, 16)[i - 12]);
        } else if i < 20 {
            assert(e.subrange(16, 20)[i - 16] == s.subrange(16, 20)[i - 16]);
        } else if i < 24 {
            assert(e.subrange(20, 24)[i - 20] == s.subrange(20, 24)[i - 20]);
        } else if i < 28 {
            assert(e.subrange(24, 28)[i - 24] == s.subrange(24, 28)[i - 24]);
        } else if i < 32 {
            assert(e.subrange(28, 32)[i - 28] == s.subrange(28, 32)[i - 28]);
        } else if i < 36 {
            assert(e.subrange(32, 36)[i - 32] == s.subrange(32, 36)[i - 32]);
        } else if i < 40 {
            assert(e.subrange(36, 40)[i - 36] == s.subrange(36, 40)[i - 36]);
        } else if i < 48 {
            assert(e.subrange(40, 48)[i - 40] == s.subrange(40, 48)[i - 40]);
        } else {
            assert(e.subrange(48, 64)[i - 48] == s.subrange(48, 64)[i - 48]);
        }
    }
    assert(e =~= s);
}

/// Encode a frame as one message: the descriptor bytes, then the payload.
pub fn encode_frame(frame: &Frame) -> (r: Vec<u8>)
    requires
        frame.readable(),
    ensures
        r@ == spec_encode_frame(*frame),
        r@ == spec_desc_bytes(frame.desc) + frame.spec_payload_bytes(),
        r@.len() == DESC_SIZE + frame.spec_payload_bytes().len(),
{
    proof {
        lemma_desc_bytes_len(frame.desc);
    }
    let mut data = desc_to_bytes(&frame.desc);
    push_bytes(&mut data, frame.payload_bytes());
    data
}

/// Decode a frame from one received message. Messages shorter than a
/// descriptor are refused as invalid data; a payload of at most `INLINE_PAYLOAD_SIZE` bytes is
/// stored inline, a longer one is kept as an owned allocation.
pub fn decode_frame(data: Vec<u8>) -> (r: Result<Frame, TransportError>)
    ensures
        data@.len() < DESC_SIZE ==> r == Err::<Frame, TransportError>(
            TransportError::Io(
                IoErrorKind::InvalidData,
                IoDetail::FrameTooSmall { len: data@.len() as usize, min: DESC_SIZE },
            ),
        ),
        data@.len() >= DESC_SIZE ==> r is Ok,
        r matches Ok(f) ==> frame_from_bytes(data@, f) && f.readable(),
        r matches Ok(f) ==> {
            &&& f.desc.payload_generation == 0
            &&& f.desc.payload_offset == 0
            &&& f.desc.payload_len == (data@.len() - DESC_SIZE) as u32
            &&& f.spec_payload_bytes() == data@.skip(DESC_SIZE as int)
            &&& (f.payload is Inline) == (data@.len() - DESC_SIZE <= INLINE_PAYLOAD_SIZE)
            &&& f.desc.payload_slot == (if f.payload is Inline {
                INLINE_PAYLOAD_SLOT
            } else {
                0u32
            })
        },
{
    let len = data.len();
    if len < DESC_SIZE {
        return Err(
            TransportError::Io(
                IoErrorKind::InvalidData,
                IoDetail::FrameTooSmall { len, min: DESC_SIZE },
            ),
        );
    }
    let ghost all = data@;
    let mut head = data;
    let payload = head.split_off(DESC_SIZE);
    assert(head@ =~= all.take(DESC_SIZE as int));
    assert(payload@ =~= all.skip(DESC_SIZE as int));
    let mut desc = bytes_to_desc(head.as_slice());
    let payload_len = payload.len();
    desc.payload_len = payload_len as u32;
    if payload_len <= INLINE_PAYLOAD_SIZE {
        let ghost before = desc;
        fill_inline(&mut desc, payload.as_slice());
        proof {
            assert(before.inline_payload@.skip(payload_len as int) =~= all.take(
                DESC_SIZE as int,
            ).subrange(48 + payload_len as int, 64));
        }
        let f = Frame { desc, payload: Payload::Inline };
        assert(f.spec_payload_bytes() =~= all.skip(DESC_SIZE as int));
        return Ok(f);
    }
    desc.payload_slot = 0;
    desc.payload_generation = 0;
    desc.payload_offset = 0;
    Ok(Frame { desc, payload: Payload::Owned(payload) })
}

/// A frame decoded from a message of at least `DESC_SIZE` bytes carries the
/// rest of the message as its payload, with the payload-location fields reset:
/// generation and offset zero, the length of the rest as its length, inline
/// (slot `INLINE_PAYLOAD_SLOT`) exactly when it fits the inline storage and
/// owned (slot 0) otherwise; its header fields are the encoded ones.
pub proof fn lemma_decoded_frame_facts(s: Seq<u8>, f: Frame)
    requires
        s.len() >= DESC_SIZE,
        frame_from_bytes(s, f),
    ensures
        f.desc.payload_generation == 0,
        f.desc.payload_offset == 0,
        f.desc.payload_len == (s.len() - DESC_SIZE) as u32,
        f.readable(),
        f.spec_payload_bytes() == s.skip(DESC_SIZE as int),
        (f.payload is Inline) <==> s.len() - DESC_SIZE <= INLINE_PAYLOAD_SIZE,
        f.payload is Inline ==> f.desc.payload_slot == INLINE_PAYLOAD_SLOT,
        !(f.payload is Inline) ==> f.desc.payload_slot == 0,
        f.desc.msg_id == spec_u64_from_le_bytes(s.subrange(0, 8)),
        f.desc.channel_id == spec_u32_from_le_bytes(s.subrange(8, 12)),
        f.desc.method_id == spec_u32_from_le_bytes(s.subrange(12, 16)),
{
    let p = s.skip(DESC_SIZE as int);
    if p.len() <= INLINE_PAYLOAD_SIZE {
        assert(f.desc.inline_bytes() =~= p);
    }
    assert(s.take(DESC_SIZE as int).subrange(0, 8) =~= s.subrange(0, 8));
    assert(s.take(DESC_SIZE as int).subrange(8, 12) =~= s.subrange(8, 12));
    assert(s.take(DESC_SIZE as int).subrange(12, 16) =~= s.subrange(12, 16));
}

/// Every encoded frame is long enough to be decoded, and decoding it gives
/// back the same payload bytes and the same header fields; the payload is
/// then inline exactly when it fits the inline storage.
pub proof fn lemma_frame_roundtrip(f: Frame, g: Frame)
    requires
        f.readable(),
        frame_from_bytes(spec_encode_frame(f), g),
    ensures
        spec_encode_frame(f).len() >= DESC_SIZE,
        g.readable(),
        g.spec_payload_bytes() == f.spec_payload_bytes(),
        g.desc.same_header(f.desc),
        (g.payload is Inline) <==> f.spec_payload_bytes().len() <= INLINE_PAYLOAD_SIZE,
{
    let d = spec_desc_bytes(f.desc);
    let p = f.spec_payload_bytes();
    let s = spec_encode_frame(f);
    lemma_desc_bytes_len(f.desc);
    assert(s.take(DESC_SIZE as int) =~= d);
    assert(s.skip(DESC_SIZE as int) =~= p);
    lemma_header_from_own_bytes(f.desc, g.desc);
    if p.len() <= INLINE_PAYLOAD_SIZE {
        assert(g.desc.inline_bytes() =~= p);
    }
}

} // verus!
