use ruiss::bytes::{
    push_u16_be, push_u16_le, push_u32_be, push_u32_le, read_u16_be, read_u16_le, read_u32_be,
    read_u32_le,
};
use ruiss::net::tcp::{
    decode_body, decode_length, encode_body, encode_frame, is_server, FrameBody, FrameError,
    IpAddr, FRAME_FILE_CHUNK, FRAME_JSON, MAX_FRAME,
};
use ruiss::net::udp::{merge_move, merge_waiting};
use ruiss::net::{
    my_address, parse_port, send_file_result, Connector, Inbox, LinkEvent, LinkStep, PeerConfig, Queue, ReadEvent,
    ReadStep, Reader, ServeEvent, ServeStep,
    PortOverrides, QueueOutcome,
};
use ruiss::protocol::{is_file_payload, Message, MsgKind, Payload};

fn ip(octets: [u8; 4]) -> IpAddr {
    IpAddr::V4(u32::from_be_bytes(octets))
}

#[test]
fn server_is_lower_address() {
    assert!(is_server(
        ip([192, 168, 1, 5]),
        5200,
        ip([192, 168, 1, 9]),
        5200
    ));
    assert!(!is_server(
        ip([192, 168, 1, 9]),
        5200,
        ip([192, 168, 1, 5]),
        5200
    ));
    assert!(is_server(
        ip([127, 0, 0, 1]),
        5200,
        ip([127, 0, 0, 1]),
        5201
    ));
    assert!(!is_server(
        ip([127, 0, 0, 1]),
        5201,
        ip([127, 0, 0, 1]),
        5200
    ));
}

#[test]
fn exactly_one_side_listens() {
    let ends = [
        (ip([10, 0, 0, 1]), 5200),
        (ip([10, 0, 0, 1]), 5201),
        (ip([9, 255, 255, 255]), 9),
        (IpAddr::V6(1), 5200),
        (IpAddr::V6(2), 1),
    ];
    for (i, a) in ends.iter().enumerate() {
        for (j, b) in ends.iter().enumerate() {
            let one = is_server(a.0, a.1, b.0, b.1);
            let other = is_server(b.0, b.1, a.0, a.1);
            assert_eq!(one ^ other, i != j);
        }
    }
    assert!(is_server(ip([255, 255, 255, 255]), 1, IpAddr::V6(0), 0));
}

#[test]
fn binary_file_chunk_round_trip() {
    let original = Message::clipboard(
        "peer",
        Payload::FileChunk {
            id: "file-1".into(),
            seq: 42,
            data: vec![0, 1, 2, 254, 255],
        },
    );
    let body = encode_body(&original, &[]).unwrap();
    assert_eq!(body[0], FRAME_FILE_CHUNK);
    let decoded = match decode_body(&body).unwrap() {
        FrameBody::Message(m) => m,
        FrameBody::Json(_) => panic!("a piece of a file is no JSON"),
    };
    assert_eq!(decoded.from, original.from);
    assert_eq!(decoded.payload, original.payload);
}

#[test]
fn json_control_frame_round_trip() {
    let original = Message::ctrl("peer", Payload::DragCancel { id: "drag-1".into() });
    let json = br#"{"kind":"ctrl","from":"peer","payload":{"type":"drag_cancel","id":"drag-1"}}"#;
    let body = encode_body(&original, json).unwrap();
    assert_eq!(body[0], FRAME_JSON);
    let decoded = match decode_body(&body).unwrap() {
        FrameBody::Json(bytes) => bytes,
        FrameBody::Message(_) => panic!("a control message is JSON"),
    };
    let value: serde_json::Value = serde_json::from_slice(&decoded).unwrap();
    assert_eq!(value["from"], original.from.as_str());
    assert_eq!(value["payload"]["type"], "drag_cancel");
    assert_eq!(
        original.payload,
        Payload::DragCancel { id: value["payload"]["id"].as_str().unwrap().to_string() }
    );
}

#[test]
fn piece_of_a_file_in_its_exact_form() {
    let m = Message::clipboard(
        "é",
        Payload::FileChunk { id: "ab".into(), seq: 0x0102_0304, data: vec![9] },
    );
    let body = encode_body(&m, b"not used").unwrap();
    assert_eq!(body, vec![1, 0, 2, 0, 2, 1, 2, 3, 4, 0xC3, 0xA9, b'a', b'b', 9]);
    assert_eq!(encode_frame(&body)[..4], [0, 0, 0, 14]);
    assert_eq!(encode_frame(&body)[4..], body[..]);
}

#[test]
fn broken_frames_are_refused() {
    assert_eq!(decode_body(&[]).unwrap_err(), FrameError::Empty);
    assert_eq!(decode_body(&[7, 1]).unwrap_err(), FrameError::UnknownTag(7));
    assert_eq!(decode_body(&[1, 0, 0]).unwrap_err(), FrameError::TruncatedHeader);
    assert_eq!(
        decode_body(&[1, 0, 2, 0, 1, 0, 0, 0, 0, b'x']).unwrap_err(),
        FrameError::TruncatedIdentifiers
    );
    assert_eq!(
        decode_body(&[1, 0, 1, 0, 0, 0, 0, 0, 0, 0xFF]).unwrap_err(),
        FrameError::NotUtf8
    );
    let long = Message::clipboard(
        "p",
        Payload::FileChunk { id: "x".repeat(65536), seq: 0, data: Vec::new() },
    );
    assert_eq!(encode_body(&long, &[]).unwrap_err(), FrameError::IdentifierTooLong);
    assert_eq!(decode_length(&[0, 0, 0, 0]).unwrap_err(), FrameError::BadLength(0));
    assert_eq!(decode_length(&[1, 0, 0, 1]).unwrap_err(), FrameError::BadLength(MAX_FRAME + 1));
    assert_eq!(decode_length(&[1, 0, 0, 0]), Ok(MAX_FRAME));
    assert_eq!(decode_length(&[0, 0, 1, 2]), Ok(258));
}

#[test]
fn numbers_round_trip() {
    for n in [0u32, 1, 255, 256, 65535, 65536, 0x0102_0304, u32::MAX] {
        let mut be = Vec::new();
        let mut le = Vec::new();
        push_u32_be(&mut be, n);
        push_u32_le(&mut le, n);
        assert_eq!((be.clone(), le.clone()), (n.to_be_bytes().to_vec(), n.to_le_bytes().to_vec()));
        assert_eq!((read_u32_be(&be, 0), read_u32_le(&le, 0)), (n, n));
        let small = n as u16;
        let (mut be, mut le) = (vec![9], vec![9]);
        push_u16_be(&mut be, small);
        push_u16_le(&mut le, small);
        assert_eq!((read_u16_be(&be, 1), read_u16_le(&le, 1)), (small, small));
    }
}

#[test]
fn relative_moves_are_accumulated() {
    let mut current = Payload::PointerMoveRelative { session: 9, seq: 1, dx: 4, dy: -2 };
    merge_move(
        &mut current,
        Payload::PointerMoveRelative { session: 9, seq: 2, dx: 3, dy: 5 },
    );
    assert_eq!(
        current,
        Payload::PointerMoveRelative { session: 9, seq: 2, dx: 7, dy: 3 }
    );
}

#[test]
fn relative_moves_from_different_sessions_are_not_merged() {
    let mut current = Payload::PointerMoveRelative {
        session: 9,
        seq: 4,
        dx: 20,
        dy: 10,
    };
    merge_move(
        &mut current,
        Payload::PointerMoveRelative {
            session: 10,
            seq: 1,
            dx: 2,
            dy: 3,
        },
    );
    assert_eq!(
        current,
        Payload::PointerMoveRelative {
            session: 10,
            seq: 1,
            dx: 2,
            dy: 3,
        }
    );
}

#[test]
fn absolute_moves_keep_latest_position() {
    let mut current = Payload::PointerMove {
        session: 9,
        seq: 1,
        x: 10,
        y: 20,
        src_w: 100,
        src_h: 100,
    };
    merge_move(
        &mut current,
        Payload::PointerMove {
            session: 9,
            seq: 2,
            x: 80,
            y: 90,
            src_w: 100,
            src_h: 100,
        },
    );
    assert_eq!(
        current,
        Payload::PointerMove {
            session: 9,
            seq: 2,
            x: 80,
            y: 90,
            src_w: 100,
            src_h: 100,
        }
    );
}

#[test]
fn waiting_frames_lose_no_distance() {
    let step = |seq: u64, dx: i32| Payload::PointerMoveRelative { session: 1, seq, dx, dy: -dx };
    let all = merge_waiting(step(1, 5), vec![step(2, -7), step(3, 30)]);
    assert_eq!(all, Payload::PointerMoveRelative { session: 1, seq: 3, dx: 28, dy: -28 });
    assert_eq!(merge_waiting(step(1, 5), Vec::new()), step(1, 5));
    let mut big = step(1, i32::MAX);
    merge_move(&mut big, step(2, 1));
    assert_eq!(
        big,
        Payload::PointerMoveRelative { session: 1, seq: 2, dx: i32::MAX, dy: i32::MIN }
    );
}

#[test]
fn file_messages_go_to_the_file_queue() {
    assert!(is_file_payload(&Payload::DragStart { id: "d".into(), roots: Vec::new() }));
    assert!(is_file_payload(&Payload::FileBatchEnd { id: "b".into() }));
    assert!(!is_file_payload(&Payload::Heartbeat { seq: 1 }));
    assert!(!is_file_payload(&Payload::ClipboardFileOffer { id: "c".into() }));
}

#[test]
fn ports_that_are_set_and_ports_that_are_not() {
    assert_eq!(parse_port("5200"), Some(5200));
    assert_eq!(parse_port("+7"), Some(7));
    assert_eq!(parse_port("65535"), Some(65535));
    for bad in ["", "+", "-1", "65536", "99999999999999999999", "12a", " 5"] {
        assert_eq!(parse_port(bad), bad.parse().ok());
        assert_eq!(parse_port(bad), None);
    }
    let none = PortOverrides { tcp: None, udp: None, peer_tcp: None, peer_udp: None };
    let c = PeerConfig::new("10.0.0.2".into(), &none);
    assert_eq!((c.tcp_port, c.udp_port, c.peer_tcp_port, c.peer_udp_port), (5200, 5300, 5200, 5300));
    let some = PortOverrides {
        tcp: Some("6000".into()),
        udp: Some("x".into()),
        peer_tcp: None,
        peer_udp: Some("7".into()),
    };
    let c = PeerConfig::new("10.0.0.2".into(), &some);
    assert_eq!((c.tcp_port, c.udp_port, c.peer_tcp_port, c.peer_udp_port), (6000, 5300, 6000, 7));
    assert_eq!(c.ip, "10.0.0.2");
}

#[test]
fn unknown_address_is_the_machine_itself() {
    assert_eq!(my_address(None), ip([127, 0, 0, 1]));
    assert_eq!(my_address(Some(ip([0, 0, 0, 0]))), ip([127, 0, 0, 1]));
    assert_eq!(my_address(Some(IpAddr::V6(0))), ip([127, 0, 0, 1]));
    assert_eq!(my_address(Some(ip([10, 1, 2, 3]))), ip([10, 1, 2, 3]));
}

#[test]
fn link_is_made_again_until_it_is_to_end() {
    let mut c = Connector::new();
    assert_eq!(c.step(LinkEvent::Due, false), LinkStep::Establish);
    assert_eq!(c.step(LinkEvent::Refused, false), LinkStep::Pause);
    assert_eq!(c.step(LinkEvent::Due, false), LinkStep::Establish);
    assert_eq!(c.step(LinkEvent::Established, false), LinkStep::Serve);
    assert!(c.connected);
    let m = c.next_heartbeat("me");
    assert_eq!((m.kind, m.from.as_str()), (MsgKind::Ctrl, "me"));
    assert_eq!(m.payload, Payload::Heartbeat { seq: 1 });
    assert_eq!(c.next_heartbeat("me").payload, Payload::Heartbeat { seq: 2 });
    assert_eq!(c.step(LinkEvent::Ended, false), LinkStep::Discard(Queue::Control));
    assert!(!c.connected);
    assert_eq!(c.step(LinkEvent::Emptied, false), LinkStep::Discard(Queue::Events));
    assert_eq!(c.step(LinkEvent::Emptied, false), LinkStep::Discard(Queue::Files));
    assert_eq!(c.step(LinkEvent::Emptied, false), LinkStep::Pause);
    assert_eq!(c.step(LinkEvent::Due, false), LinkStep::Establish);
    assert_eq!(c.step(LinkEvent::Established, false), LinkStep::Serve);
    assert_eq!(c.next_heartbeat("me").payload, Payload::Heartbeat { seq: 1 });
    c.step(LinkEvent::Ended, true);
    c.step(LinkEvent::Emptied, true);
    c.step(LinkEvent::Emptied, true);
    assert_eq!(c.step(LinkEvent::Emptied, true), LinkStep::Stop);
    assert_eq!(c.step(LinkEvent::Due, true), LinkStep::Stop);
    assert_eq!(c.step(LinkEvent::Refused, true), LinkStep::Stop);
}

#[test]
fn nothing_old_is_sent_on_a_new_connection() {
    let mut c = Connector::new();
    c.step(LinkEvent::Established, false);
    assert_eq!(c.step(LinkEvent::Ended, false), LinkStep::Discard(Queue::Control));
    for _ in 0..3 {
        assert_eq!(c.step(LinkEvent::Dropped, false), LinkStep::Discard(Queue::Control));
    }
    // No other event gets past a queue that may still hold something.
    for event in [LinkEvent::Due, LinkEvent::Established, LinkEvent::Refused, LinkEvent::Ended] {
        assert_eq!(c.step(event, false), LinkStep::Discard(Queue::Control));
    }
    assert_eq!(c.step(LinkEvent::Emptied, false), LinkStep::Discard(Queue::Events));
    assert_eq!(c.step(LinkEvent::Emptied, false), LinkStep::Discard(Queue::Files));
    assert_eq!(c.step(LinkEvent::Dropped, false), LinkStep::Discard(Queue::Files));
    assert_eq!(c.step(LinkEvent::Emptied, false), LinkStep::Pause);
    assert_eq!(c.discarding, None);
}

#[test]
fn connection_writes_until_something_ends_it() {
    for end in [ServeEvent::ReaderEnded, ServeEvent::QueueClosed, ServeEvent::WriteFailed] {
        let mut c = Connector::new();
        c.step(LinkEvent::Established, false);
        assert!(matches!(c.on_serve(ServeEvent::Begun, "me"), ServeStep::Wait));
        let m = Message::event("me", Payload::MouseWheel { dx: 0, dy: 1 });
        match c.on_serve(ServeEvent::Queued(m), "me") {
            ServeStep::Write(w) => assert_eq!(w.payload, Payload::MouseWheel { dx: 0, dy: 1 }),
            other => panic!("{other:?}"),
        }
        assert!(matches!(c.on_serve(ServeEvent::Written, "me"), ServeStep::Wait));
        match c.on_serve(ServeEvent::Quiet, "me") {
            ServeStep::Write(w) => {
                assert_eq!((w.kind, w.from.as_str()), (MsgKind::Ctrl, "me"));
                assert_eq!(w.payload, Payload::Heartbeat { seq: 1 });
            }
            other => panic!("{other:?}"),
        }
        assert!(!c.broken);
        assert!(matches!(c.on_serve(end, "me"), ServeStep::End));
        assert!(matches!(c.on_serve(ServeEvent::Written, "me"), ServeStep::End));
    }
}

#[test]
fn messages_go_to_the_inbox_of_their_payload() {
    let mut r = Reader::new();
    assert!(matches!(r.on_read(ReadEvent::Begun), ReadStep::Read));
    let file = Message::ctrl("peer", Payload::DragCommit { id: "d".into() });
    match r.on_read(ReadEvent::Frame(file)) {
        ReadStep::Deliver { inbox, message } => {
            assert_eq!(inbox, Inbox::Files);
            assert_eq!(message.payload, Payload::DragCommit { id: "d".into() });
        }
        other => panic!("{other:?}"),
    }
    assert!(matches!(r.on_read(ReadEvent::Delivered), ReadStep::Read));
    let event = Message::ctrl("peer", Payload::Heartbeat { seq: 9 });
    assert!(matches!(
        r.on_read(ReadEvent::Frame(event)),
        ReadStep::Deliver { inbox: Inbox::Events, .. }
    ));
    assert_eq!(r.received, 2);
    for end in [ReadEvent::InboxClosed, ReadEvent::Failed, ReadEvent::TimedOut] {
        let mut r = Reader::new();
        assert!(matches!(r.on_read(end), ReadStep::End));
        assert!(matches!(r.on_read(ReadEvent::Delivered), ReadStep::End));
        assert_eq!(r.received, 0);
    }
}

#[test]
fn what_the_sender_of_a_file_is_told() {
    assert_eq!(send_file_result(QueueOutcome::Queued), Ok(()));
    assert_eq!(send_file_result(QueueOutcome::NotConnected), Err("网络连接已断开".to_string()));
    assert_eq!(send_file_result(QueueOutcome::TimedOut), Err("文件发送队列等待超时".to_string()));
    assert_eq!(send_file_result(QueueOutcome::Closed), Err("网络连接已关闭".to_string()));
}
