use rapace_core::{
    IoDetail, IoErrorKind, NO_DEADLINE,
    bytes_to_desc, decode_frame, desc_to_bytes, encode_frame, Frame, MsgDescHot, Payload,
    Prioritized, QoSClass, SendFrame, TransportError, DESC_SIZE, INLINE_PAYLOAD_SIZE,
    INLINE_PAYLOAD_SLOT,
};

fn sample_desc() -> MsgDescHot {
    MsgDescHot {
        msg_id: 0x0102_0304_0506_0708,
        channel_id: 7,
        method_id: 0xdead_beef,
        payload_slot: 3,
        payload_generation: 9,
        payload_offset: 11,
        payload_len: 4,
        flags: 0x10,
        credit_grant: 1000,
        deadline_ns: 0xffff_0000_1234_5678,
        inline_payload: [0xaa; INLINE_PAYLOAD_SIZE],
    }
}

#[test]
fn new_frame_has_inline_empty_payload() {
    let desc = sample_desc();
    assert_eq!(desc.payload_len, 4);
    let f = Frame::new(desc);
    assert!(f.payload.is_inline());
    assert_eq!(f.desc.payload_len, 0);
    assert_eq!(f.payload_bytes(), &[] as &[u8]);
    let mut expected = desc;
    expected.payload_len = 0;
    assert_eq!(f.desc, expected);
}

#[test]
fn new_descriptor_is_zeroed_without_deadline() {
    let d = MsgDescHot::new();
    assert_eq!(d.msg_id, 0);
    assert_eq!(d.payload_slot, 0);
    assert_eq!(d.payload_len, 0);
    assert_eq!(d.flags, 0);
    assert_eq!(d.deadline_ns, NO_DEADLINE);
    assert_eq!(d.deadline_ns, u64::MAX);
    assert_eq!(d.inline_payload, [0u8; INLINE_PAYLOAD_SIZE]);
    assert!(!d.is_inline());
}

#[test]
fn inline_payload_is_copied_into_descriptor() {
    let f = Frame::with_inline_payload(sample_desc(), &[1, 2, 3]).unwrap();
    assert!(f.payload.is_inline());
    assert_eq!(f.desc.payload_slot, INLINE_PAYLOAD_SLOT);
    assert_eq!(f.desc.payload_generation, 0);
    assert_eq!(f.desc.payload_offset, 0);
    assert_eq!(f.desc.payload_len, 3);
    assert_eq!(f.payload_bytes(), &[1, 2, 3]);
    assert_eq!(&f.desc.inline_payload[..4], &[1, 2, 3, 0xaa]);
    assert_eq!(f.desc.msg_id, sample_desc().msg_id);
}

#[test]
fn inline_payload_of_exactly_inline_size_fits() {
    let data = [5u8; INLINE_PAYLOAD_SIZE];
    let f = Frame::with_inline_payload(sample_desc(), &data).unwrap();
    assert_eq!(f.payload_bytes(), &data);
}

#[test]
fn inline_payload_too_large_is_refused() {
    let data = [5u8; INLINE_PAYLOAD_SIZE + 1];
    assert!(Frame::with_inline_payload(sample_desc(), &data).is_none());
    assert!(SendFrame::with_inline_payload(sample_desc(), &data).is_none());
}

#[test]
fn owned_payload_resets_location_fields() {
    let f = Frame::with_payload(sample_desc(), vec![9; 40]);
    assert!(!f.payload.is_inline());
    assert_eq!(f.desc.payload_slot, 0);
    assert_eq!(f.desc.payload_generation, 0);
    assert_eq!(f.desc.payload_offset, 0);
    assert_eq!(f.desc.payload_len, 40);
    assert_eq!(f.payload_bytes(), &[9u8; 40][..]);
    assert_eq!(f.desc.channel_id, 7);
}

#[test]
fn payload_as_slice_reads_inline_or_owned() {
    let desc = Frame::with_inline_payload(sample_desc(), &[4, 5]).unwrap().desc;
    assert_eq!(Payload::Inline.as_slice(&desc), &[4, 5]);
    let owned = Payload::Owned(vec![8, 8, 8]);
    assert_eq!(owned.as_slice(&desc), &[8, 8, 8]);
    assert!(!owned.is_inline());
}

#[test]
fn send_frame_new_has_no_payload() {
    let f: SendFrame<Vec<u8>> = SendFrame::new(sample_desc());
    assert!(f.payload.is_none());
    assert_eq!(f.desc, sample_desc());
    assert_eq!(f.payload_bytes(), &[] as &[u8]);
}

#[test]
fn send_frame_with_payload_keeps_generation_and_offset() {
    let f = SendFrame::with_payload(sample_desc(), vec![1, 2, 3, 4, 5]);
    assert_eq!(f.desc.payload_slot, 0);
    assert_eq!(f.desc.payload_len, 5);
    assert_eq!(f.desc.payload_generation, 9);
    assert_eq!(f.desc.payload_offset, 11);
    assert_eq!(f.payload_bytes(), &[1, 2, 3, 4, 5]);
}

#[test]
fn send_frame_inline_payload() {
    let f = SendFrame::with_inline_payload(sample_desc(), &[7, 7]).unwrap();
    assert!(f.payload.is_none());
    assert!(f.desc.is_inline());
    assert_eq!(f.payload_bytes(), &[7, 7]);
}

#[test]
fn frame_and_send_frame_convert_both_ways() {
    let owned = Frame::with_payload(sample_desc(), vec![1, 2, 3]);
    let send = SendFrame::from(&owned);
    assert_eq!(send.payload.as_deref(), Some(&[1u8, 2, 3][..]));
    assert_eq!(send.payload_bytes(), owned.payload_bytes());
    let send: SendFrame<Vec<u8>> = SendFrame::from(owned);
    let back = Frame::from(send);
    assert_eq!(back.payload_bytes(), &[1, 2, 3]);
    assert!(!back.payload.is_inline());

    let inline = Frame::with_inline_payload(sample_desc(), &[6]).unwrap();
    let send: SendFrame<Vec<u8>> = SendFrame::from(inline);
    assert!(send.payload.is_none());
    assert_eq!(send.payload_bytes(), &[6]);
    let back = Frame::from(send);
    assert!(back.payload.is_inline());
    assert_eq!(back.payload_bytes(), &[6]);
}

#[test]
fn qos_default_is_normal() {
    assert_eq!(QoSClass::default(), QoSClass::Normal);
    let p = Prioritized::normal(5u32);
    assert_eq!(p.class, QoSClass::Normal);
    assert_eq!(p.item, 5);
    let p = Prioritized::with_class(QoSClass::Control, "ping");
    assert_eq!(p.class, QoSClass::Control);
    assert_eq!(p.item, "ping");
}

#[test]
fn descriptor_bytes_are_little_endian_fields() {
    let bytes = desc_to_bytes(&sample_desc());
    assert_eq!(bytes.len(), DESC_SIZE);
    assert_eq!(&bytes[0..8], &[8, 7, 6, 5, 4, 3, 2, 1]);
    assert_eq!(&bytes[8..12], &[7, 0, 0, 0]);
    assert_eq!(&bytes[12..16], &[0xef, 0xbe, 0xad, 0xde]);
    assert_eq!(&bytes[16..20], &[3, 0, 0, 0]);
    assert_eq!(&bytes[28..32], &[4, 0, 0, 0]);
    assert_eq!(&bytes[36..40], &[0xe8, 0x03, 0, 0]);
    assert_eq!(&bytes[40..48], &[0x78, 0x56, 0x34, 0x12, 0, 0, 0xff, 0xff]);
    assert_eq!(&bytes[48..64], &[0xaa; 16]);
}

#[test]
fn descriptor_bytes_decode_to_same_descriptor() {
    let d = sample_desc();
    assert_eq!(bytes_to_desc(&desc_to_bytes(&d)), d);
}

#[test]
fn encoded_frame_is_descriptor_then_payload() {
    let f = Frame::with_payload(sample_desc(), vec![1, 2, 3, 4, 5, 6, 7, 8, 9, 10, 11, 12, 13, 14, 15, 16, 17]);
    let data = encode_frame(&f);
    assert_eq!(data.len(), DESC_SIZE + 17);
    assert_eq!(&data[..DESC_SIZE], &desc_to_bytes(&f.desc)[..]);
    assert_eq!(&data[DESC_SIZE..], f.payload_bytes());
}

#[test]
fn small_payload_roundtrips_inline() {
    let f = Frame::with_payload(sample_desc(), vec![1, 2, 3, 4, 5]);
    let g = decode_frame(encode_frame(&f)).unwrap();
    assert!(g.payload.is_inline());
    assert_eq!(g.desc.payload_slot, INLINE_PAYLOAD_SLOT);
    assert_eq!(g.desc.payload_len, 5);
    assert_eq!(g.payload_bytes(), &[1, 2, 3, 4, 5]);
    assert_eq!(g.desc.msg_id, f.desc.msg_id);
    assert_eq!(g.desc.deadline_ns, f.desc.deadline_ns);
}

#[test]
fn large_payload_roundtrips_owned() {
    let payload: Vec<u8> = (0..100u8).collect();
    let f = Frame::with_payload(sample_desc(), payload.clone());
    let g = decode_frame(encode_frame(&f)).unwrap();
    assert!(!g.payload.is_inline());
    assert_eq!(g.desc.payload_slot, 0);
    assert_eq!(g.desc.payload_len, 100);
    assert_eq!(g.payload_bytes(), &payload[..]);
    assert_eq!(g.desc.method_id, f.desc.method_id);
}

#[test]
fn descriptor_only_message_has_empty_inline_payload() {
    let g = decode_frame(desc_to_bytes(&sample_desc())).unwrap();
    assert!(g.payload.is_inline());
    assert_eq!(g.desc.payload_len, 0);
    assert_eq!(g.payload_bytes(), &[] as &[u8]);
}

#[test]
fn short_message_is_refused() {
    let r = decode_frame(vec![0; DESC_SIZE - 1]);
    assert_eq!(
        r.unwrap_err(),
        TransportError::Io(IoErrorKind::InvalidData, IoDetail::FrameTooSmall { len: 63, min: 64 })
    );
    assert_eq!(
        decode_frame(Vec::new()).unwrap_err(),
        TransportError::Io(IoErrorKind::InvalidData, IoDetail::FrameTooSmall { len: 0, min: 64 })
    );
}
