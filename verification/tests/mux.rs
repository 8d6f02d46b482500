//! Many streams over one connection.

use runnel::auth::{AuthProof, ReplayProtector};
use runnel::failure::Failure;
use runnel::http::{TunnelPayload, TunnelRequestHead};
use runnel::mux::session::{
    check_session_answer, handle_client_connection, handle_server_open, host_from_target,
    is_private_literal_target, run_server_session, run_server_session_at, session_auth_target,
    session_failure, session_gate, session_payload, session_payload_with, ClientAction, ClientEvent, ClientMove,
    ClientSession, ClientStage, Gate, MuxClient, OpenAction, OpenEvent, OpenStage, ServerAction,
    ServerSession, SessionEvent, StreamEvent,
};
use runnel::mux::{
    read_frame, too_large, write_frame, Frame, FrameRead, FRAME_CLOSE, FRAME_DATA, FRAME_OPEN,
    FRAME_OPEN_ERR, FRAME_PONG, MAX_FRAME_PAYLOAD,
};
use runnel::proxy::remote::RemoteFault;
use runnel::proxy::route::RouteDecision;
use runnel::proxy::socks5::TargetAddr;

fn read(buf: &[u8], max: usize) -> (Frame, usize) {
    match read_frame(buf, max) {
        FrameRead::Complete { frame, used, .. } => (frame, used),
        _ => panic!("no frame"),
    }
}

#[test]
fn mux_frame_round_trip() {
    let frame = Frame::data(7, b"hello".to_vec());
    let encoded = write_frame(&frame);
    let (read, used) = read(&encoded, 64);
    assert_eq!(read.kind, FRAME_DATA);
    assert_eq!(read.stream_id, 7);
    assert_eq!(read.payload, b"hello");
    assert_eq!(used, encoded.len());
}

#[test]
fn read_frame_with_prefetched_prefix() {
    let frame = Frame::data(9, b"hello world".to_vec());
    let encoded = write_frame(&frame);

    let prefix_len = 5;
    let mut buf = encoded[..prefix_len].to_vec();
    assert!(matches!(read_frame(&buf, 64), FrameRead::Incomplete));
    buf.extend_from_slice(&encoded[prefix_len..]);

    let (read, _) = read(&buf, 64);
    assert_eq!(read.kind, FRAME_DATA);
    assert_eq!(read.stream_id, 9);
    assert_eq!(read.payload, b"hello world");
}

#[test]
fn read_frame_resynchronizes_after_garbage_prefix() {
    let frame = Frame::data(11, b"resync me".to_vec());
    let mut encoded = b"garbage-before-frame".to_vec();
    encoded.extend_from_slice(&write_frame(&frame));

    let (read, _) = read(&encoded, 64);
    assert_eq!(read.kind, FRAME_DATA);
    assert_eq!(read.stream_id, 11);
    assert_eq!(read.payload, b"resync me");
}

#[test]
fn read_frame_resynchronizes_between_frames() {
    let first = Frame::data(21, b"first".to_vec());
    let second = Frame::data(22, b"second".to_vec());
    let mut encoded = write_frame(&first);
    encoded.extend_from_slice(b"desync");
    encoded.extend_from_slice(&write_frame(&second));

    let (read_first, used) = read(&encoded, 64);
    let (read_second, _) = read(&encoded[used..], 64);

    assert_eq!(read_first.stream_id, 21);
    assert_eq!(read_first.payload, b"first");
    assert_eq!(read_second.stream_id, 22);
    assert_eq!(read_second.payload, b"second");
}

#[test]
fn large_frames_are_refused() {
    let encoded = write_frame(&Frame::data(1, vec![0; 65]));
    assert!(matches!(
        read_frame(&encoded, 64),
        FrameRead::TooLarge { kind: FRAME_DATA, stream_id: 1, payload_len: 65 }
    ));
}

#[test]
fn client_sessions_tell_their_streams() {
    let mut client = MuxClient::new();
    let mut session = ClientSession::new();
    let id = client.next_stream_id();
    let other = client.next_stream_id();
    assert_eq!((id, other), (1, 2));
    client.next = u32::MAX;
    assert_eq!(client.next_stream_id(), u32::MAX);
    assert_eq!(client.next_stream_id(), 0);
    session.add_client_stream(id);
    session.add_client_stream(other);
    session.remove_client_stream(other);
    let told = session.run_client_session(SessionEvent::Incoming(Frame::open_ok(id))).0;
    assert!(matches!(told, ClientAction::Tell(x, StreamEvent::Opened) if x == id));
    let stray = session.run_client_session(SessionEvent::Incoming(Frame::open_ok(9999))).0;
    assert!(matches!(stray, ClientAction::Nothing));
    match session.run_client_session(SessionEvent::Incoming(Frame::ping())).0 {
        ClientAction::Queue(f) => assert_eq!(f.kind, FRAME_PONG),
        _ => panic!("should answer"),
    }
    match session.run_client_session(SessionEvent::Broken(Failure::new("gone"))).0 {
        ClientAction::End(ids, Some(e)) => {
            assert_eq!(ids, vec![id]);
            assert!(e.full_text().contains("gone"));
        }
        _ => panic!("should end"),
    }
    assert!(session.is_closed());
}

#[test]
fn server_sessions_open_streams() {
    let mut session = ServerSession::new();
    let open = Frame::open(4, "example.com:80".to_owned());
    match session.run_server_io(SessionEvent::Incoming(open)).0 {
        ServerAction::Open(4, target) => assert_eq!(target, "example.com:80"),
        _ => panic!("should open"),
    }
    session.register(4);
    let data = Frame::data(4, vec![1, 2]);
    assert!(matches!(
        session.run_server_io(SessionEvent::Incoming(data)).0,
        ServerAction::Data(4, _)
    ));
    session.unregister(4);
    let late = Frame::data(4, vec![1, 2]);
    assert!(!matches!(
        session.run_server_io(SessionEvent::Incoming(late)).0,
        ServerAction::Data(_, _)
    ));
}

#[test]
fn private_targets_are_not_opened() {
    assert_eq!(host_from_target("[::1]:80").as_deref(), Some("::1"));
    assert_eq!(host_from_target("a:80").as_deref(), Some("a"));
    assert!(is_private_literal_target("10.0.0.1:80"));
    assert!(!is_private_literal_target("8.8.8.8:80"));
    let (stage, action) =
        handle_server_open(5, "127.0.0.1:80", false, OpenStage::Start, OpenEvent::Begin);
    assert!(matches!(stage, OpenStage::Done));
    match action {
        OpenAction::Refuse(f) => assert_eq!(f.kind, FRAME_OPEN_ERR),
        _ => panic!("should refuse"),
    }
    let (stage, action) =
        handle_server_open(5, "127.0.0.1:80", true, OpenStage::Start, OpenEvent::Begin);
    assert!(matches!(action, OpenAction::Connect(_)));
    let (stage, action) = handle_server_open(5, "127.0.0.1:80", true, stage, OpenEvent::Connected);
    assert!(matches!(action, OpenAction::Register(_)));
    let (stage, action) =
        handle_server_open(5, "127.0.0.1:80", true, stage, OpenEvent::Answered(true));
    assert!(matches!(action, OpenAction::Nothing));
    let (stage, action) =
        handle_server_open(5, "127.0.0.1:80", true, stage, OpenEvent::FromTarget(vec![7]));
    match action {
        OpenAction::Queue(f) => assert_eq!((f.kind, f.stream_id), (FRAME_DATA, 5)),
        _ => panic!("should pass on"),
    }
    let (_, action) = handle_server_open(5, "127.0.0.1:80", true, stage, OpenEvent::TargetClosed);
    match action {
        OpenAction::Finish(_, f, None) => assert_eq!(f.kind, FRAME_CLOSE),
        _ => panic!("should finish"),
    }
}

#[test]
fn sessions_need_a_proof() {
    let head = TunnelRequestHead { content_length: Some(10), chunked: false };
    assert!(matches!(session_gate(&head), Gate::ReadBody(10)));
    let none = TunnelRequestHead { content_length: None, chunked: false };
    assert!(matches!(session_gate(&none), Gate::Refuse(_)));
    let payload = session_payload("secret", "/mux").unwrap();
    assert_eq!(payload.target, session_auth_target());
    let copy = TunnelPayload {
        target: payload.target.clone(),
        timestamp: payload.timestamp,
        nonce: payload.nonce.clone(),
        signature: payload.signature.clone(),
    };
    let now = payload.timestamp;
    let mut replay = ReplayProtector::new(60);
    assert!(matches!(
        run_server_session(&mut replay, "secret", "/mux", Some(payload)),
        Gate::Accept(_)
    ));
    assert!(matches!(
        run_server_session_at(&mut replay, now, "secret", "/mux", Some(copy)),
        Gate::Refuse(_)
    ));
    assert!(matches!(
        run_server_session_at(&mut replay, now, "secret", "/mux", None),
        Gate::Refuse(_)
    ));
    assert!(check_session_answer(b"HTTP/1.1 200 OK\r\n\r\n").is_ok());
    assert!(check_session_answer(b"HTTP/1.1 401 No\r\n\r\n").is_err());
}

#[test]
fn clients_open_a_stream_for_a_remote_target() {
    let target = TargetAddr::Domain("example.com".to_owned(), 443);
    let (stage, action) =
        handle_client_connection(ClientStage::Handshake, ClientEvent::Accepted(target));
    assert!(matches!(action, ClientMove::Decide));
    let (stage, action) =
        handle_client_connection(stage, ClientEvent::Decided(RouteDecision::Remote));
    assert!(matches!(action, ClientMove::Join));
    let (stage, action) = handle_client_connection(stage, ClientEvent::Joined(8));
    match action {
        ClientMove::Queue(f) => {
            assert_eq!((f.kind, f.stream_id), (FRAME_OPEN, 8));
            assert_eq!(f.payload, b"example.com:443");
        }
        _ => panic!("should ask"),
    }
    let (stage, action) = handle_client_connection(stage, ClientEvent::Queued(true));
    assert!(matches!(action, ClientMove::Nothing));
    let (stage, action) =
        handle_client_connection(stage, ClientEvent::Told(Some(StreamEvent::Opened)));
    match action {
        ClientMove::Send(bytes) => assert_eq!(bytes[..2], [5, 0]),
        _ => panic!("should answer"),
    }
    assert!(matches!(stage, ClientStage::Answering(8)));
    let lost = ClientEvent::Broken(Failure::new("broken pipe"));
    match handle_client_connection(ClientStage::Answering(8), lost) {
        (ClientStage::Done, ClientMove::Fail(None, bytes, e)) => {
            assert_eq!((bytes, e.to_text()), (vec![], "broken pipe".to_owned()))
        }
        _ => panic!("should fail"),
    }
    let (stage, action) = handle_client_connection(stage, ClientEvent::Answered);
    assert!(matches!(action, ClientMove::Nothing));
    let most = vec![1; MAX_FRAME_PAYLOAD];
    let (_, action) = handle_client_connection(stage, ClientEvent::FromApp(most.clone()));
    match action {
        ClientMove::Queue(frame) => {
            assert_eq!(frame.kind, FRAME_DATA);
            let bytes = write_frame(&frame);
            let (read, used) = read(&bytes, MAX_FRAME_PAYLOAD);
            assert_eq!((read.payload, used), (most, bytes.len()));
        }
        _ => panic!("should pass on"),
    }
}

#[test]
fn frames_that_are_too_large_are_told_of() {
    let mut bytes = write_frame(&Frame { kind: 4, stream_id: 258, payload: vec![] });
    bytes[7..11].copy_from_slice(&70_000_u32.to_be_bytes());
    match read_frame(&bytes, MAX_FRAME_PAYLOAD) {
        FrameRead::TooLarge { kind, stream_id, payload_len } => {
            let failure = too_large(MAX_FRAME_PAYLOAD, kind, stream_id, payload_len as u32);
            let magic = &bytes[..2];
            let header = &bytes[2..11];
            assert_eq!(
                failure.full_text(),
                format!(
                    "mux frame exceeded 16384 bytes (kind=4 stream_id=258 payload_len=70000 raw_magic={magic:02x?} raw={header:02x?})"
                )
            );
        }
        _ => panic!("should be too large"),
    }
}

#[test]
fn texts_that_are_no_utf8_end_a_session() {
    let cause = std::str::from_utf8(&[0xff]).unwrap_err();
    let bad = |kind: u8| SessionEvent::Incoming(Frame { kind, stream_id: 1, payload: vec![0xff] });
    let (action, _) = ClientSession::new().run_client_session(bad(FRAME_OPEN_ERR));
    match action {
        ClientAction::End(_, Some(failure)) => {
            assert_eq!(failure.full_text(), format!("mux error is not valid UTF-8: {cause}"))
        }
        _ => panic!("should end"),
    }
    let (action, _) = ServerSession::new().run_server_io(bad(FRAME_OPEN));
    match action {
        ServerAction::End(_, Some(failure)) => assert_eq!(
            failure.full_text(),
            format!("mux stream target is not valid UTF-8: {cause}")
        ),
        _ => panic!("should end"),
    }
}

#[test]
fn answers_that_cannot_be_read_are_told_of() {
    assert_eq!(
        check_session_answer(b"HTTP/1.1 x OK\r\n\r\n").unwrap_err().full_text(),
        "invalid mux session response: invalid response status: invalid digit found in string"
    );
}

#[test]
fn sessions_fail_before_the_server_answers() {
    for (fault, text) in [
        (RemoteFault::ConnectTimedOut, "mux server connect timed out: deadline has elapsed"),
        (RemoteFault::HandshakeTimedOut, "mux TLS handshake timed out: deadline has elapsed"),
        (RemoteFault::ResponseTimedOut, "mux session response timed out: deadline has elapsed"),
        (RemoteFault::HandshakeFailed(Failure::new("bad certificate")), "bad certificate"),
        (RemoteFault::ResponseFailed(Failure::new("early eof")), "early eof"),
    ] {
        assert_eq!(session_failure(fault).full_text(), text);
    }
}

#[test]
fn session_payloads_tell_what_was_signed() {
    let target = session_auth_target();
    let proof = AuthProof::sign_with("s", "POST", "/mux", target, Ok(9), Ok(vec![1; 16]));
    let signature = proof.as_ref().unwrap().signature.clone();
    let payload = session_payload_with(proof).unwrap();
    assert_eq!(payload.target, target);
    assert_eq!(payload.timestamp, 9);
    assert_eq!(payload.nonce, "AQEBAQEBAQEBAQEBAQEBAQ");
    assert_eq!(payload.signature, signature);
    let none = session_payload_with(Err(Failure::new("no bytes"))).unwrap_err();
    assert_eq!(none.full_text(), "no bytes");
}
