//! Requests and responses.

use runnel::http::{
    build_error_response, build_response, build_tunnel_established, build_tunnel_request,
    content_length, empty_response, explain_request, explain_response, find_header_end,
    head_chunk_len, header, is_chunked,
    parse_request, parse_tunnel_request_head, parse_tunnel_response, read_body, read_head,
    refusal_detail, response_length, BodyRead, HeadRead, HttpError,
};

const PAYLOAD: &[u8] =
    br#"{"target":"example.com:443","timestamp":1,"nonce":"nonce","signature":"sig"}"#;

#[test]
fn parse_built_request() {
    let req = build_tunnel_request("demo.example", "/connect", PAYLOAD, "Mozilla/5.0");
    let header_end = req.windows(4).position(|window| window == b"\r\n\r\n").unwrap();
    let parsed = parse_request(&req[..header_end + 4]).unwrap();
    assert_eq!(parsed.method, "POST");
    assert_eq!(parsed.path, "/connect");
    assert_eq!(header(&parsed.headers, "content-type"), Some("application/json"));

    let value: serde_json::Value = serde_json::from_slice(&req[header_end + 4..]).unwrap();
    assert_eq!(value["target"], "example.com:443");
}

#[test]
fn parse_tunnel_request_head_fast_path() {
    let req = build_tunnel_request("demo.example", "/connect", PAYLOAD, "Mozilla/5.0");
    let header_end = req.windows(4).position(|window| window == b"\r\n\r\n").unwrap();

    let parsed = parse_tunnel_request_head(&req[..header_end + 4], "/connect").unwrap().unwrap();
    assert_eq!(parsed.content_length, Some(req.len() - (header_end + 4)));
    assert!(!parsed.chunked);
    assert!(parse_tunnel_request_head(&req[..header_end + 4], "/other").unwrap().is_none());
}

#[test]
fn read_head_preserves_prefetched_body_bytes() {
    let frame = b"HTTP/1.1 200 OK\r\nContent-Length: 5\r\n\r\nhello";
    let (head, prefix) = match read_head(Vec::new(), frame, 64).unwrap() {
        HeadRead::Complete(head, prefix) => (head, prefix),
        HeadRead::More(_) => panic!("head is there"),
    };
    assert_eq!(
        std::str::from_utf8(&head).unwrap(),
        "HTTP/1.1 200 OK\r\nContent-Length: 5\r\n\r\n"
    );
    assert_eq!(prefix, b"hello");
    match read_body(&prefix, b"", 5, 16).unwrap() {
        BodyRead::Complete(body) => assert_eq!(body, b"hello"),
        BodyRead::Missing(_) => panic!("body is there"),
    }
}

#[test]
fn heads_may_come_in_pieces() {
    let whole = b"GET / HTTP/1.1\r\nA: b\r\n\r\nrest";
    for cut in 1..whole.len() {
        let first = read_head(Vec::new(), &whole[..cut], 64).unwrap();
        let done = match first {
            HeadRead::Complete(head, _) => head,
            HeadRead::More(buf) => match read_head(buf, &whole[cut..], 64).unwrap() {
                HeadRead::Complete(head, _) => head,
                HeadRead::More(_) => panic!("head is there"),
            },
        };
        assert_eq!(done, b"GET / HTTP/1.1\r\nA: b\r\n\r\n");
    }
    assert!(matches!(
        read_head(vec![b'a'; 3], &[b'b'; 5], 8),
        Err(HttpError::HeadTooLarge(8))
    ));
    assert!(matches!(read_head(vec![b'a'; 3], &[], 8), Err(HttpError::HeadClosed)));
    assert_eq!(find_header_end(b"a\r\n\r\nb"), Some(5));
    assert_eq!(find_header_end(b"a\r\nb"), None);
    assert_eq!(head_chunk_len(0, 64), Some(64));
    assert_eq!(head_chunk_len(0, 5000), Some(1024));
    assert_eq!(head_chunk_len(64, 64), None);
}

#[test]
fn bodies_have_a_limit() {
    assert!(matches!(read_body(b"ab", b"", 5, 16).unwrap(), BodyRead::Missing(3)));
    assert!(matches!(read_body(b"", b"", 17, 16), Err(HttpError::BodyTooLarge(_))));
    assert!(matches!(read_body(b"abcdef", b"", 5, 16), Err(HttpError::PrefixTooLong)));
}

#[test]
fn requests_can_be_wrong() {
    let fail = |text: &str| parse_request(text.as_bytes()).unwrap_err().message();
    assert_eq!(fail("\r\n\r\n"), HttpError::MissingMethod.message());
    assert_eq!(fail("GET\r\n\r\n"), HttpError::MissingPath.message());
    assert_eq!(fail("GET /\r\n\r\n"), HttpError::MissingVersion.message());
    assert_eq!(fail("GET / HTTP/1.1 x\r\n\r\n"), HttpError::TooManyFields.message());
    assert_eq!(fail("GET / HTTP/1.1\r\nbroken\r\n\r\n"), HttpError::MalformedHeader.message());
    assert_eq!(
        parse_request(&[0xff, 0xfe]).unwrap_err().message(),
        HttpError::RequestNotUtf8.message()
    );
    let fine = parse_request(b"GET /x HTTP/1.1\r\nContent-Length: 12\r\nHOST:  a \r\n\r\n").unwrap();
    assert_eq!(header(&fine.headers, "host"), Some("a"));
    assert_eq!(content_length(&fine.headers).unwrap(), Some(12));
    assert!(!is_chunked(&fine.headers));
    let odd = parse_request(
        b"GET /x HTTP/1.1\r\nContent-Length: x\r\nTransfer-Encoding: gzip, Chunked\r\n\r\n",
    )
    .unwrap();
    assert!(content_length(&odd.headers).is_err());
    assert!(is_chunked(&odd.headers));
}

#[test]
fn causes_are_told() {
    let head = b"POST /c HTTP/1.1\r\nContent-Length: 3\r\nContent-Length: +x\r\n\r\n";
    let e = parse_tunnel_request_head(head, "/c").unwrap_err();
    assert_eq!(e, HttpError::InvalidContentLength);
    assert_eq!(
        explain_request(head, e).full_text(),
        "invalid content-length header: invalid digit found in string"
    );
    let head = b"GET\r\n\r\n";
    let e = parse_request(head).unwrap_err();
    assert_eq!(explain_request(head, e).full_text(), "missing request path");
    let cut = [b'G', 0xe2, 0x82];
    let cause = std::str::from_utf8(&cut).unwrap_err().to_string();
    let e = parse_request(&cut).unwrap_err();
    assert_eq!(explain_request(&cut, e).full_text(), format!("request is not valid UTF-8: {cause}"));
    let e = parse_tunnel_response(&cut).unwrap_err();
    assert_eq!(explain_response(&cut, e).full_text(), format!("response is not valid UTF-8: {cause}"));
    let head = b"HTTP/1.1 2x0 OK\r\n\r\n";
    let e = parse_tunnel_response(head).unwrap_err();
    assert_eq!(
        explain_response(head, e).full_text(),
        "invalid response status: invalid digit found in string"
    );
}

#[test]
fn responses_are_read_back() {
    let (ok, status, reason) = parse_tunnel_response(&build_tunnel_established()).unwrap();
    assert!(ok);
    assert_eq!(status, 200);
    assert!(!reason.is_empty());
    let (ok, status, reason) =
        parse_tunnel_response(&build_error_response(403, "Forbidden", "no")).unwrap();
    assert!(ok);
    assert_eq!(status, 403);
    assert_eq!(reason, "Forbidden");
    assert!(!parse_tunnel_response(b"HTTP/2 200 OK\r\n\r\n").unwrap().0);
    assert!(parse_tunnel_response(b"HTTP/1.1\r\n\r\n").is_err());
    assert!(parse_tunnel_response(b"HTTP/1.1 abc OK\r\n\r\n").is_err());
    assert!(empty_response(204, "No Content").starts_with(b"HTTP/1.1 204 No Content\r\n"));
    let made = build_response(200, "OK", &vec![("A".to_owned(), "b".to_owned())], b"xyz");
    let text = String::from_utf8(made).unwrap();
    assert!(text.contains("A: b\r\n"), "{text}");
    assert!(text.ends_with("\r\n\r\nxyz"), "{text}");
}

#[test]
fn refusals_tell_why() {
    let head = b"HTTP/1.1 403 Forbidden\r\nContent-Length: 12\r\n\r\n";
    assert_eq!(response_length(head), Some(12));
    assert_eq!(response_length(b"HTTP/1.1 403 Forbidden\r\n\r\n"), None);
    assert_eq!(response_length(b"HTTP/1.1 403 Forbidden\r\nContent-Length: x\r\n\r\n"), None);
    assert_eq!(response_length(&[0xff]), None);
    assert_eq!(refusal_detail(b" not today\r\n").as_deref(), Some("not today"));
    assert_eq!(refusal_detail(b" \r\n"), None);
    assert_eq!(refusal_detail(&[0xff]), None);
}
