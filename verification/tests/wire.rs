//! The ashe, baboon and czar protocols.

use runnel::czar;
use runnel::czar::{
    run_stream_bridge, BridgeAction, BridgeEvent, CzarFrame, IdPool, Session, SessionAction,
    SessionEvent,
};
use runnel::daze::baboon::{
    baboon_request, baboon_request_with, build_baboon_request, check_sync_answer, handle_server_request,
    validate_baboon_request, SyncPlan,
};
use runnel::daze::wire::{
    accept_reply, check_target_length, client_establish_ashe, open_ashe, relay_chunk, reply,
    response_failure, salt, server_accept_ashe, validate_timestamp, validate_timestamp_at,
    AsheAccept, AsheError, Rc4State,
};
use runnel::daze::{
    admit_target, handle_client_connection, handle_server_connection, run_client, run_server,
    Action, DazeProtocol, Event, ServerAction, ServerEvent, ServerStage, Stage,
};
use runnel::failure::Failure;
use runnel::http::parse_request;
use runnel::mode::ProxyMode;
use runnel::proxy::auth::auth_failure_hint;
use runnel::proxy::route::RouteDecision;
use runnel::proxy::socks5::TargetAddr;
use sha2::Digest;

#[test]
fn daze_rc4_round_trip() {
    let key = [7_u8; 32];
    let mut enc = Rc4State::new(&key);
    let mut dec = Rc4State::new(&key);
    let mut data = b"hello world".to_vec();
    enc.apply_keystream(&mut data);
    dec.apply_keystream(&mut data);
    assert_eq!(data, b"hello world");
}

#[test]
fn wire_rc4_round_trip() {
    let key = [7_u8; 32];
    let mut enc = Rc4State::new(&key);
    let mut dec = Rc4State::new(&key);
    let mut data = b"hello world".to_vec();
    enc.apply_keystream(&mut data);
    assert_ne!(data, b"hello world");
    dec.apply_keystream(&mut data);
    assert_eq!(data, b"hello world");
}

#[test]
fn the_cipher_gives_known_bytes() {
    let mut cipher = Rc4State::new(b"Key");
    let mut data = b"Plaintext".to_vec();
    cipher.apply_keystream(&mut data);
    assert_eq!(data, [0xBB, 0xF3, 0x16, 0xE8, 0xD9, 0x40, 0xAF, 0x0A, 0xD3]);
    let mut cipher = Rc4State::new(b"Wiki");
    assert_eq!(relay_chunk(&mut cipher, b"pe"), [0x10, 0x21]);
    assert_eq!(relay_chunk(&mut cipher, b"dia"), [0xBF, 0x04, 0x20]);
}

#[test]
fn ashe_password_mismatch_reports_auth_hint() {
    let opening = open_ashe(&[9_u8; 32], 1000, "client-secret", "example.com:80");
    let server_err = match server_accept_ashe(&opening.message, "server-secret", 1000) {
        AsheAccept::Refused(_, told) => told.to_text(),
        _ => panic!("wrong password should fail server handshake"),
    };
    let client_err = response_failure(Failure::new("early eof")).to_text();
    assert!(client_err.contains(auth_failure_hint()), "{client_err}");
    assert!(server_err.contains(auth_failure_hint()), "{server_err}");
}

#[test]
fn handshakes_reach_the_server() {
    let mut opening = client_establish_ashe("secret", "example.com:80").unwrap();
    let now = std::time::SystemTime::now()
        .duration_since(std::time::UNIX_EPOCH)
        .unwrap()
        .as_secs() as i64;
    for cut in 0..opening.message.len() {
        assert!(matches!(
            server_accept_ashe(&opening.message[..cut], "secret", now),
            AsheAccept::Incomplete { .. }
        ));
    }
    match server_accept_ashe(&opening.message, "secret", now) {
        AsheAccept::Accepted { target, mut upload, mut download, used } => {
            assert_eq!(target, "example.com:80");
            assert_eq!(used, opening.message.len());
            let code = reply(&mut download, 0);
            assert!(accept_reply(&mut opening.download, code).is_ok());
            let sent = relay_chunk(&mut opening.upload, b"ping");
            assert_eq!(relay_chunk(&mut upload, &sent), b"ping");
        }
        _ => panic!("handshake should be accepted"),
    }
    let other = client_establish_ashe("secret", "example.com:80").unwrap();
    assert_ne!(opening.message[..32], other.message[..32]);
}

/// What the server does with a connection that has sent nothing yet.
fn started(event: ServerEvent) -> (ServerStage, ServerAction) {
    let stage = ServerStage::Handshake(Vec::new(), None);
    handle_server_connection(DazeProtocol::Ashe, "secret", false, stage, event, 1000)
}

#[test]
fn servers_take_a_connection_step_by_step() {
    let mut opening = open_ashe(&[5_u8; 32], 1000, "secret", "example.com:80");
    let (mut stage, mut action) = started(ServerEvent::Received(Vec::new()));
    let mut sent = 0;
    let mut reads = Vec::new();
    while let ServerAction::Read(missing) = action {
        reads.push(missing);
        let bytes = opening.message[sent..sent + missing].to_vec();
        sent += missing;
        let event = ServerEvent::Received(bytes);
        // The time counts once the timestamp is there, and no later.
        let now = if sent > 40 { 9000 } else { 1000 };
        (stage, action) =
            handle_server_connection(DazeProtocol::Ashe, "secret", false, stage, event, now);
    }
    assert_eq!(reads, [32, 8, 2, 14]);
    assert_eq!(sent, opening.message.len());
    assert!(matches!(action, ServerAction::Connect(target) if target == "example.com:80"));
    let (stage, action) = handle_server_connection(
        DazeProtocol::Ashe,
        "secret",
        false,
        stage,
        ServerEvent::Connected,
        9000,
    );
    assert!(matches!(stage, ServerStage::Done));
    match action {
        ServerAction::Relay(code, mut upload, mut download, labels) => {
            assert!(accept_reply(&mut opening.download, code).is_ok());
            let up = relay_chunk(&mut opening.upload, b"ping");
            assert_eq!(relay_chunk(&mut upload, &up), b"ping");
            let down = relay_chunk(&mut download, b"pong");
            assert_eq!(relay_chunk(&mut opening.download, &down), b"pong");
            assert_eq!(labels.target, "example.com:80");
            assert_eq!(labels.route.as_deref(), Some("remote"));
            assert_eq!(labels.mode.as_deref(), Some(DazeProtocol::Ashe.as_str()));
        }
        _ => panic!("the relay should start"),
    }
    let (_, action) = handle_server_connection(
        DazeProtocol::Ashe,
        "secret",
        false,
        ServerStage::Done,
        ServerEvent::ReadTimedOut,
        9000,
    );
    assert!(matches!(action, ServerAction::Nothing));
}

#[test]
fn servers_give_up_on_a_connection() {
    let opening = open_ashe(&[5_u8; 32], 1000, "secret", "127.0.0.1:80");
    for (cut, text) in [
        (0, "daze-ashe salt read timed out"),
        (32, "daze-ashe timestamp read timed out"),
        (40, "daze-ashe request read timed out"),
        (42, "daze-ashe address read timed out"),
    ] {
        let (stage, _) = started(ServerEvent::Received(opening.message[..cut].to_vec()));
        let (_, action) = handle_server_connection(
            DazeProtocol::Ashe,
            "secret",
            false,
            stage,
            ServerEvent::ReadTimedOut,
            1000,
        );
        assert!(matches!(action, ServerAction::Fail(None, f) if f.to_text() == text), "{text}");
    }
    let (_, action) = started(ServerEvent::Failed(Failure::new("early eof")));
    assert!(matches!(action, ServerAction::Fail(None, f) if f.to_text() == "early eof"));
    let (stage, action) = started(ServerEvent::Received(opening.message.clone()));
    assert!(matches!(stage, ServerStage::Done));
    match action {
        ServerAction::Fail(Some(code), _) => {
            let mut download = opening.download;
            assert!(matches!(accept_reply(&mut download, code), Err(AsheError::Refused)));
        }
        _ => panic!("a private target should be refused"),
    }
    let stage = ServerStage::Connecting(
        "example.com:80".to_owned(),
        Rc4State::new(b"up"),
        Rc4State::new(b"down"),
    );
    let (_, action) = handle_server_connection(
        DazeProtocol::Ashe,
        "secret",
        true,
        stage,
        ServerEvent::ConnectTimedOut,
        1000,
    );
    assert!(
        matches!(action, ServerAction::Fail(None, f) if f.full_text() == "upstream connect timed out: deadline has elapsed")
    );
}

#[test]
fn handshakes_are_refused_for_a_reason() {
    assert!(validate_timestamp_at(1000, 1120).is_ok());
    assert_eq!(validate_timestamp(0).unwrap_err().full_text(), "daze-ashe request expired");
    assert!(matches!(validate_timestamp_at(1000, 1121), Err(AsheError::Expired)));
    let opening = open_ashe(&[1_u8; 32], 1000, "s", "a:1");
    match server_accept_ashe(&opening.message, "s", 5000) {
        AsheAccept::Refused(AsheError::Expired, told) => assert_eq!(
            told.chain(),
            vec![
                format!("daze-ashe authentication failed; {}", auth_failure_hint()),
                "daze-ashe request expired".to_owned(),
            ]
        ),
        _ => panic!("should be refused"),
    }
    let mut garbled = open_ashe(&[1_u8; 32], 1000, "s", "a:1").message;
    garbled[42] ^= 0x80;
    match server_accept_ashe(&garbled, "s", 1000) {
        AsheAccept::Refused(AsheError::AddressNotUtf8, told) => assert_eq!(
            told.full_text(),
            format!(
                "daze-ashe address decode failed; {}: {}",
                auth_failure_hint(),
                std::str::from_utf8(&[0xe1, b':', b'1']).unwrap_err()
            )
        ),
        _ => panic!("should be refused"),
    }
    let mut upload = Rc4State::new(&[3_u8]);
    let code = reply(&mut upload, 0);
    let mut same = Rc4State::new(&[3_u8]);
    assert!(matches!(accept_reply(&mut same, code ^ 1), Err(AsheError::Refused)));
    assert!(check_target_length(&"a".repeat(255)).is_ok());
    assert!(matches!(check_target_length(&"a".repeat(256)), Err(AsheError::TargetTooLong)));
    assert_eq!(AsheError::TargetTooLong.message(), "destination address too long");
    assert_eq!(salt("secret"), sha2::Sha256::digest(b"secret").to_vec());
}

#[test]
fn baboon_authorization_round_trip() {
    let request = build_baboon_request("secret", "example.com:443").unwrap();
    let parsed = parse_request(request.as_bytes()).expect("request should parse");
    assert!(validate_baboon_request(&parsed, "secret"));
    assert!(!validate_baboon_request(&parsed, "wrong-secret"));
}

#[test]
fn baboon_requests_carry_a_digest() {
    let random = [5_u8; 16];
    let request = baboon_request(&random, "secret", "example.com:443");
    let parsed = parse_request(request.as_bytes()).unwrap();
    let header = runnel::http::header(&parsed.headers, "authorization").unwrap().to_owned();
    let mut salted = random.to_vec();
    salted.extend_from_slice(&salt("secret")[..16]);
    let digest = md5::compute(&salted).0;
    assert!(header.contains(&hex::encode(random)), "{header}");
    assert!(header.contains(&hex::encode(digest)), "{header}");
}

#[test]
fn baboon_servers_answer() {
    let good = build_baboon_request("secret", "a:1").unwrap();
    assert!(matches!(handle_server_request(good.as_bytes(), "secret"), SyncPlan::Accept(_)));
    match handle_server_request(b"nonsense\r\n\r\n", "secret") {
        SyncPlan::Fail(bytes, _) => assert!(bytes.starts_with(b"HTTP/1.1 404")),
        _ => panic!("should fail"),
    }
    match handle_server_request(b"GET /a HTTP/1.0\r\nHost: x\r\n\r\n", "secret") {
        SyncPlan::ServePublic(request) => {
            assert_eq!((request.method.as_str(), request.path.as_str()), ("GET", "/a"));
            assert_eq!(request.version, "HTTP/1.0");
        }
        _ => panic!("should pass on"),
    }
    match handle_server_request(&[0xff], "secret") {
        SyncPlan::Fail(_, failure) => assert_eq!(
            failure.full_text(),
            format!(
                "invalid baboon request: request is not valid UTF-8: {}",
                std::str::from_utf8(&[0xff]).unwrap_err()
            )
        ),
        _ => panic!("should fail"),
    }
    let (odd, told) = check_sync_answer(b"HTTP/1.1 99999 OK\r\n\r\n", &None).unwrap();
    assert!(!told);
    assert_eq!(
        odd.full_text(),
        "invalid baboon response: invalid response status: number too large to fit in target type"
    );
    assert!(check_sync_answer(b"HTTP/1.1 200 OK\r\n\r\n", &None).is_none());
    assert!(check_sync_answer(b"HTTP/1.1 401 Unauthorized\r\n\r\n", &None).is_some());
    assert!(check_sync_answer(b"junk\r\n\r\n", &None).is_some());
}

#[test]
fn czar_frame_round_trip() {
    let frame = CzarFrame::Data { stream_id: 7, payload: b"hello".to_vec() };
    let bytes = czar::write_frame(&frame).expect("write frame");
    match czar::read_frame(&bytes) {
        czar::FrameRead::Complete(CzarFrame::Data { stream_id, payload }, used) => {
            assert_eq!(stream_id, 7);
            assert_eq!(payload, b"hello");
            assert_eq!(used, bytes.len());
        }
        _ => panic!("unexpected frame"),
    }
}

#[test]
fn czar_frames_are_read_whole() {
    for frame in [
        CzarFrame::Open { stream_id: 3 },
        CzarFrame::Close { stream_id: 4, reply: true },
        CzarFrame::Close { stream_id: 4, reply: false },
        CzarFrame::Probe { reply: false },
        CzarFrame::Probe { reply: true },
    ] {
        let bytes = czar::write_frame(&frame).unwrap();
        assert_eq!(bytes.len(), 4);
        assert!(matches!(czar::read_frame(&bytes), czar::FrameRead::Complete(_, 4)));
        assert!(matches!(czar::read_frame(&bytes[..3]), czar::FrameRead::Incomplete));
    }
    assert!(matches!(czar::read_frame(&[9, 1, 0, 0]), czar::FrameRead::Unknown(_)));
    let long = CzarFrame::Data { stream_id: 1, payload: vec![0; 65536] };
    assert!(czar::write_frame(&long).is_err());
    let fits = CzarFrame::Data { stream_id: 1, payload: vec![0; 65535] };
    assert!(czar::write_frame(&fits).is_ok());
}

#[test]
fn stream_numbers_are_given_back() {
    let mut pool = IdPool::new();
    let mut taken = Vec::new();
    for _ in 0..256 {
        taken.push(pool.take_stream_id().unwrap());
    }
    assert!(pool.take_stream_id().is_err());
    taken.sort();
    taken.dedup();
    assert_eq!(taken.len(), 256);
    pool.give_back(17);
    assert_eq!(pool.take_stream_id().unwrap(), 17);
}

#[test]
fn czar_sessions_pass_frames_on() {
    let mut client = Session::new(false);
    client.register(5);
    let data = CzarFrame::Data { stream_id: 5, payload: vec![1] };
    assert!(matches!(
        client.run_session(SessionEvent::Incoming(data)),
        SessionAction::Tell(5, czar::StreamEvent::Data(_))
    ));
    let stray = CzarFrame::Data { stream_id: 6, payload: vec![1] };
    assert!(matches!(client.run_session(SessionEvent::Incoming(stray)), SessionAction::Nothing));
    let out = CzarFrame::Open { stream_id: 5 };
    assert!(matches!(client.run_session(SessionEvent::Outgoing(out)), SessionAction::Write(_)));
    assert!(matches!(client.run_session(SessionEvent::Heartbeat), SessionAction::Write(_)));
    match client.run_session(SessionEvent::Broken(Failure::new("gone"))) {
        SessionAction::End(ids, Some(e)) => {
            assert_eq!(ids, vec![5]);
            assert_eq!(e.full_text(), "gone");
        }
        _ => panic!("should end"),
    }
    assert!(client.closed);
    let mut server = Session::new(true);
    let open = CzarFrame::Open { stream_id: 9 };
    assert!(matches!(server.run_session(SessionEvent::Incoming(open)), SessionAction::Accept(9)));
}

#[test]
fn bridges_carry_bytes_both_ways() {
    assert!(matches!(
        run_stream_bridge(3, BridgeEvent::FromUser(vec![1, 2])),
        BridgeAction::Queue(CzarFrame::Data { stream_id: 3, .. })
    ));
    assert!(matches!(
        run_stream_bridge(3, BridgeEvent::Told(Some(czar::StreamEvent::Data(vec![4])))),
        BridgeAction::Write(_)
    ));
    assert!(matches!(
        run_stream_bridge(3, BridgeEvent::UserClosed),
        BridgeAction::Queue(CzarFrame::Close { stream_id: 3, reply: false })
    ));
    assert!(matches!(run_stream_bridge(3, BridgeEvent::WriteFailed), BridgeAction::Finish));
    assert!(matches!(run_stream_bridge(3, BridgeEvent::Told(None)), BridgeAction::Finish));
}

#[test]
fn modes_select_a_protocol() {
    assert_eq!(run_client(ProxyMode::DazeAshe).unwrap(), DazeProtocol::Ashe);
    assert_eq!(run_server(ProxyMode::DazeCzar).unwrap(), DazeProtocol::Czar);
    assert!(run_client(ProxyMode::NativeHttp).is_err());
    assert_eq!(DazeProtocol::Baboon.as_str(), "daze-baboon");
}

#[test]
fn daze_clients_connect_before_they_open() {
    let target = TargetAddr::Domain("example.com".to_owned(), 80);
    let (stage, action) =
        handle_client_connection(DazeProtocol::Ashe, Stage::Handshake, Event::Accepted(target));
    assert!(matches!(action, Action::Decide));
    let (stage, action) = handle_client_connection(
        DazeProtocol::Ashe,
        stage,
        Event::Decided(RouteDecision::Remote),
    );
    assert!(matches!(action, Action::Connect));
    let (stage, action) = handle_client_connection(DazeProtocol::Ashe, stage, Event::Connected);
    match action {
        Action::Establish(t) => assert_eq!(t, "example.com:80"),
        _ => panic!("should open"),
    }
    let (_, action) = handle_client_connection(DazeProtocol::Ashe, stage, Event::Established);
    assert!(matches!(action, Action::Relay(_, _)));
    assert!(admit_target("127.0.0.1:80", true).is_ok());
}

#[test]
fn baboon_requests_need_random_bytes() {
    let made = baboon_request_with(Ok(vec![3; 16]), "secret", "a:1").unwrap();
    assert_eq!(made, baboon_request(&[3; 16], "secret", "a:1"));
    let plan = handle_server_request(made.as_bytes(), "secret");
    assert!(matches!(plan, SyncPlan::Accept(_)));
    assert_eq!(baboon_request_with(Err("none left".to_owned()), "secret", "a:1"), None);
}
