use rapace_core::{
    IoDetail, IoErrorKind, Payload,
    encode_frame, Frame, Inbound, LinkState, MsgDescHot, RecvStep, TransportError, DESC_SIZE,
};

fn desc() -> MsgDescHot {
    MsgDescHot {
        msg_id: 42,
        channel_id: 1,
        method_id: 2,
        payload_slot: 0,
        payload_generation: 0,
        payload_offset: 0,
        payload_len: 0,
        flags: 0,
        credit_grant: 0,
        deadline_ns: 0,
        inline_payload: [0; 16],
    }
}

#[test]
fn new_link_is_open_and_close_closes_it() {
    let mut link = LinkState::new();
    assert!(!link.is_closed());
    assert!(link.begin_recv().is_ok());
    link.close();
    assert!(link.is_closed());
    assert_eq!(link.begin_recv(), Err(TransportError::Closed));
}

#[test]
fn send_on_open_link_encodes_frame() {
    let link = LinkState::new();
    let f = Frame::with_payload(desc(), vec![1, 2, 3]);
    let data = link.prepare_send(&f).unwrap();
    assert_eq!(data, encode_frame(&f));
    assert_eq!(data.len(), DESC_SIZE + 3);
}

#[test]
fn send_on_closed_link_is_refused() {
    let mut link = LinkState::new();
    link.close();
    let f = Frame::with_payload(desc(), vec![1]);
    assert_eq!(link.prepare_send(&f).unwrap_err(), TransportError::Closed);
}

#[test]
fn closed_link_refuses_unreadable_frame_without_reading_it() {
    let mut link = LinkState::new();
    link.close();
    let mut d = desc();
    d.payload_len = 100;
    let f = Frame { desc: d, payload: Payload::Inline };
    assert_eq!(link.prepare_send(&f).unwrap_err(), TransportError::Closed);
}

#[test]
fn close_message_closes_link() {
    let mut link = LinkState::new();
    match link.on_inbound(Inbound::Close) {
        RecvStep::Deliver(Err(TransportError::Closed)) => {}
        other => panic!("unexpected step {:?}", other),
    }
    assert!(link.is_closed());
}

#[test]
fn control_messages_are_skipped() {
    let mut link = LinkState::new();
    for msg in [Inbound::Ping, Inbound::Pong, Inbound::Text, Inbound::RawFrame] {
        assert!(matches!(link.on_inbound(msg), RecvStep::Skip));
    }
    assert!(!link.is_closed());
}

#[test]
fn stream_end_and_failure_end_receive_without_closing() {
    let mut link = LinkState::new();
    assert!(matches!(
        link.on_inbound(Inbound::Ended),
        RecvStep::Deliver(Err(TransportError::Closed))
    ));
    match link.on_inbound(Inbound::Failed(String::from("websocket recv: reset"))) {
        RecvStep::Deliver(Err(TransportError::Io(IoErrorKind::Other, IoDetail::Message(m)))) => {
            assert_eq!(m, "websocket recv: reset")
        }
        other => panic!("unexpected step {:?}", other),
    }
    assert!(!link.is_closed());
}

#[test]
fn binary_message_is_decoded() {
    let mut link = LinkState::new();
    let f = Frame::with_payload(desc(), vec![9; 20]);
    let data = link.prepare_send(&f).unwrap();
    match link.on_inbound(Inbound::Binary(data)) {
        RecvStep::Deliver(Ok(g)) => {
            assert_eq!(g.payload_bytes(), &[9u8; 20][..]);
            assert_eq!(g.desc.msg_id, 42);
        }
        other => panic!("unexpected step {:?}", other),
    }
}

#[test]
fn short_binary_message_is_an_error() {
    let mut link = LinkState::new();
    assert!(matches!(
        link.on_inbound(Inbound::Binary(vec![1, 2, 3])),
        RecvStep::Deliver(Err(TransportError::Io(
            IoErrorKind::InvalidData,
            IoDetail::FrameTooSmall { len: 3, min: 64 }
        )))
    ));
    assert!(!link.is_closed());
}

#[test]
fn closed_link_stays_closed() {
    let mut link = LinkState::new();
    link.close();
    let _ = link.on_inbound(Inbound::Ping);
    let _ = link.on_inbound(Inbound::Binary(vec![0; 64]));
    assert!(link.is_closed());
}

fn recv_all(link: &mut LinkState, msgs: Vec<Inbound>) -> Option<RecvStep> {
    for msg in msgs {
        match link.on_inbound(msg) {
            RecvStep::Skip => continue,
            step => return Some(step),
        }
    }
    None
}

#[test]
fn skipped_messages_do_not_change_the_receive() {
    let f = Frame::with_payload(desc(), vec![3; 30]);
    let data = encode_frame(&f);
    let mut plain = LinkState::new();
    let mut padded = LinkState::new();
    let a = recv_all(&mut plain, vec![Inbound::Binary(data.clone())]);
    let b = recv_all(
        &mut padded,
        vec![Inbound::Ping, Inbound::Text, Inbound::Pong, Inbound::RawFrame, Inbound::Binary(data)],
    );
    match (a, b) {
        (Some(RecvStep::Deliver(Ok(x))), Some(RecvStep::Deliver(Ok(y)))) => {
            assert_eq!(x.desc, y.desc);
            assert_eq!(x.payload_bytes(), y.payload_bytes());
        }
        other => panic!("unexpected steps {:?}", other),
    }
    assert_eq!(plain.is_closed(), padded.is_closed());
}

#[test]
fn only_close_calls_and_close_messages_close_the_link() {
    let mut link = LinkState::new();
    let f = Frame::with_payload(desc(), vec![1]);
    let _ = link.prepare_send(&f);
    let _ = link.begin_recv();
    let _ = link.on_inbound(Inbound::Ended);
    let _ = link.on_inbound(Inbound::Failed(String::from("boom")));
    let _ = link.on_inbound(Inbound::Binary(vec![0; 3]));
    assert!(!link.is_closed());
    let _ = link.on_inbound(Inbound::Close);
    assert!(link.is_closed());
}
