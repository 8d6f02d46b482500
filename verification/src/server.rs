//! The server: its settings, and what it does for each connection.

use vstd::prelude::*;
use crate::auth::{
    in_window, kept, knows, remembered, signature_text, verdict, AuthProof, ReplayProtector,
};
use crate::crypto::{base64url_stands_for, hmac_sha256_of};
use crate::failure::Failure;
use crate::http::{
    build_error_response, build_tunnel_established, build_tunnel_request, crlf,
    empty_response_text, error_response_text, explain_request, head_lines, headers_of,
    parse_request, parse_tunnel_request_head, request_error, request_fault, response_reads_back,
    responses_start_with_a_status_line, start_words, status_line_text, tunnel_head,
    tunnel_request_head_text, tunnel_request_reads_back, HttpError, HttpRequest, TunnelPayload,
    TunnelRequestHead,
};
use crate::ip::{
    ip_value, is_link_local_v4, is_link_local_v6, is_loopback, is_private_range,
    is_unique_local_v6, is_unspecified, link_local_v4, link_local_v6, loopback, parse_ip,
    private_v4, unique_local_v6, unspecified, IpAddr,
};
use crate::mode::ProxyMode;
use crate::mux::session::{host_from_target, host_of, payload_proof, payload_tag, response_parts};
use crate::proxy::remote::establish_remote_tunnel;
use crate::text::{bytes_of, cat, contains, is_word, utf8};
use crate::wg::WgServerArgs;

verus! {

/// Settings of a server.
#[derive(Debug)]
pub struct ServerArgs {
    pub listen: String,
    pub cert: Option<String>,
    pub key: Option<String>,
    pub mode: ProxyMode,
    pub password: String,
    pub path: String,
    pub mux_path: String,
    pub auth_window_secs: u64,
    pub handshake_timeout_secs: u64,
    pub connect_timeout_secs: u64,
    pub max_header_size: usize,
    pub max_tunnel_body_size: usize,
    pub allow_private_targets: bool,
    pub fallback_url: String,
    pub fallback_timeout_secs: u64,
    pub max_fallback_body_size: usize,
    pub wg: WgServerArgs,
}

/// Whether an address is one that tunnels are not opened to by default.
pub open spec fn private_ip(ip: IpAddr) -> bool {
    match ip {
        IpAddr::V4(n) => private_v4(n) || loopback(ip) || link_local_v4(n) || unspecified(ip),
        IpAddr::V6(n) => loopback(ip) || unique_local_v6(n) || link_local_v6(n) || unspecified(ip),
    }
}

/// Whether a target is written as such an address.
pub open spec fn private_literal(target: Seq<char>) -> bool {
    match host_of(target) {
        Some(host) => match ip_value(host) {
            Some(ip) => private_ip(ip),
            None => false,
        },
        None => false,
    }
}

/// Whether a target is written as an address that tunnels are not opened to by
/// default.
pub fn is_private_literal_target(target: &str) -> (r: bool)
    ensures
        r == private_literal(target@),
{
    match host_from_target(target) {
        None => false,
        Some(host) => match parse_ip(host.as_str()) {
            None => false,
            Some(ip) => match ip {
                IpAddr::V4(n) => is_private_range(n) || is_loopback(ip) || is_link_local_v4(n)
                    || is_unspecified(ip),
                IpAddr::V6(n) => is_loopback(ip) || is_unique_local_v6(n) || is_link_local_v6(n)
                    || is_unspecified(ip),
            },
        },
    }
}

// ---------------------------------------------------------------------------
// Tunnel requests

/// The target that a payload may be connected to, if its proof is valid.
pub open spec fn authorized(
    memory: Seq<(Seq<char>, int)>,
    ttl: int,
    now: int,
    password: Seq<char>,
    path: Seq<char>,
    payload: Option<TunnelPayload>,
) -> Option<Seq<char>> {
    match payload {
        Some(p) => if verdict(
            memory,
            ttl,
            now,
            payload_tag(password, path, p.target@, p),
            payload_proof(p),
        ) is None {
            Some(p.target@)
        } else {
            None
        },
        None => None,
    }
}

/// What is remembered of nonces after a payload was looked at.
pub open spec fn memory_after_payload(
    memory: Seq<(Seq<char>, int)>,
    ttl: int,
    now: int,
    password: Seq<char>,
    path: Seq<char>,
    payload: Option<TunnelPayload>,
) -> Seq<(Seq<char>, int)> {
    match payload {
        Some(p) => remembered(
            memory,
            ttl,
            now,
            payload_tag(password, path, p.target@, p),
            payload_proof(p),
        ),
        None => memory,
    }
}

/// The target that the body of a tunnel request, which is no payload or one,
/// may be connected to.
pub fn authorize_tunnel_request_at(
    replay: &mut ReplayProtector,
    now: i64,
    password: &str,
    path: &str,
    payload: Option<TunnelPayload>,
) -> (r: Option<String>)
    ensures
        crate::text::opt_view(r) == authorized(
            old(replay)@,
            old(replay).ttl(),
            now as int,
            password@,
            path@,
            payload,
        ),
        final(replay)@ == memory_after_payload(
            old(replay)@,
            old(replay).ttl(),
            now as int,
            password@,
            path@,
            payload,
        ),
        final(replay).ttl() == old(replay).ttl(),
{
    match payload {
        None => None,
        Some(p) => {
            let target = p.target;
            let proof = AuthProof {
                timestamp: p.timestamp,
                nonce: p.nonce,
                signature: p.signature,
            };
            match replay.validate_at(now, password, "POST", path, target.as_str(), &proof) {
                Err(_) => None,
                Ok(_) => Some(target),
            }
        },
    }
}

/// The target that the body of a tunnel request may be connected to now.
pub fn authorize_tunnel_request(
    replay: &mut ReplayProtector,
    password: &str,
    path: &str,
    payload: Option<TunnelPayload>,
) -> (r: Option<String>)
    ensures
        ({
            ||| r is None && final(replay)@ == old(replay)@
            ||| exists|now: int|
                final(replay)@ == #[trigger] memory_after_payload(
                    old(replay)@,
                    old(replay).ttl(),
                    now,
                    password@,
                    path@,
                    payload,
                ) && crate::text::opt_view(r) == authorized(
                    old(replay)@,
                    old(replay).ttl(),
                    now,
                    password@,
                    path@,
                    payload,
                )
        }),
        final(replay).ttl() == old(replay).ttl(),
{
    match crate::crypto::unix_seconds() {
        Err(_) => None,
        Ok(now) => authorize_tunnel_request_at(replay, now, password, path, payload),
    }
}

// ---------------------------------------------------------------------------
// Connections

/// How far a connection is.
#[derive(Debug)]
pub enum Stage {
    Head,
    Body,
    Connecting(String),
    Done,
}

/// What happens to a connection.
#[derive(Debug)]
pub enum Event {
    /// The head of the request came in.
    Head(Vec<u8>),
    /// The body of a tunnel request names a target that it may be connected
    /// to, or does not.
    Authorized(Option<String>),
    /// The target was reached.
    Connected,
    /// The target could not be reached.
    ConnectFailed(String),
    /// The target was not reached in time.
    ConnectTimedOut,
}

/// What is done for a connection.
#[derive(Debug)]
pub enum Action {
    Nothing,
    /// Start a session with many streams.
    StartMux(TunnelRequestHead),
    /// Read a body of so many bytes.
    ReadBody(usize),
    /// Connect to the target.
    Connect(String),
    /// Send the bytes, then relay.
    Relay(Vec<u8>),
    /// Send the bytes, and end the connection.
    Answer(Vec<u8>),
    /// Pass the request on to another server.
    ServePublic(HttpRequest),
    /// Send the bytes, then fail.
    Fail(Vec<u8>, Failure),
}

/// The answer to what is not there.
pub open spec fn not_found() -> Seq<u8> {
    bytes_of(error_response_text(404, "Not Found"@, "not found\n"@))
}

/// The answer to what is not there.
pub fn send_not_found() -> (r: Vec<u8>)
    ensures
        r@ == not_found(),
{
    build_error_response(404, "Not Found", "not found\n")
}

/// Whether an action sends a plain text answer.
pub open spec fn answers(action: Action, status: nat, reason: Seq<char>, body: Seq<char>) -> bool {
    action matches Action::Answer(b) && b@ == bytes_of(error_response_text(status, reason, body))
}

/// Whether an action ends a connection with a failure.
pub open spec fn fails(action: Action, bytes: Seq<u8>, failure: Seq<Seq<char>>) -> bool {
    action matches Action::Fail(b, e) && b@ == bytes && e@ == failure
}

/// Whether an action passes on the request that a head makes.
pub open spec fn passes_on(action: Action, head: Seq<u8>) -> bool {
    &&& action matches Action::ServePublic(q)
    &&& request_error(head) is None
    &&& q.method@ == start_words(utf8(head)->0)[0]
    &&& q.path@ == start_words(utf8(head)->0)[1]
    &&& q.version@ == start_words(utf8(head)->0)[2]
    &&& Some(q.headers@) == headers_of(head_lines(utf8(head)->0).skip(1))
}

/// What is done about the head of a request: one for a session starts it, one
/// for a tunnel is read on, and any other is passed on.
pub open spec fn after_head(
    head: Seq<u8>,
    mux_path: Seq<char>,
    path: Seq<char>,
    r: (Stage, Action),
) -> bool {
    match (tunnel_head(head, mux_path), tunnel_head(head, path)) {
        (Err(e), _) => r.0 is Done && fails(r.1, seq![], request_fault(head, e)),
        (Ok(Some(h)), _) => r == (Stage::Done, Action::StartMux(h)),
        (Ok(None), Err(e)) => r.0 is Done && fails(r.1, seq![], request_fault(head, e)),
        (Ok(None), Ok(Some(h))) => if h.chunked || h.content_length is None {
            r.0 is Done && answers(r.1, 404, "Not Found"@, "not found\n"@)
        } else {
            r == (Stage::Body, Action::ReadBody(h.content_length->0))
        },
        (Ok(None), Ok(None)) => match request_error(head) {
            Some(e) => r.0 is Done && fails(
                r.1,
                not_found(),
                seq!["invalid HTTP request"@] + request_fault(head, e),
            ),
            None => r.0 is Done && passes_on(r.1, head),
        },
    }
}

fn take_head(head: &[u8], mux_path: &str, path: &str) -> (r: (Stage, Action))
    ensures
        after_head(head@, mux_path@, path@, r),
{
    match parse_tunnel_request_head(head, mux_path) {
        Err(e) => {
            return (
                Stage::Done,
                Action::Fail(Vec::new(), explain_request(head, e)),
            );
        },
        Ok(Some(h)) => {
            return (Stage::Done, Action::StartMux(h));
        },
        Ok(None) => {},
    }
    match parse_tunnel_request_head(head, path) {
        Err(e) => {
            return (
                Stage::Done,
                Action::Fail(Vec::new(), explain_request(head, e)),
            );
        },
        Ok(Some(h)) => {
            if h.chunked {
                return (Stage::Done, Action::Answer(send_not_found()));
            }
            return match h.content_length {
                Some(n) => (Stage::Body, Action::ReadBody(n)),
                None => (Stage::Done, Action::Answer(send_not_found())),
            };
        },
        Ok(None) => {},
    }
    match parse_request(head) {
        Err(e) => {
            let f = explain_request(head, e).context("invalid HTTP request");
            (Stage::Done, Action::Fail(send_not_found(), f))
        },
        Ok(request) => (Stage::Done, Action::ServePublic(request)),
    }
}

/// What the server does for a connection when something happens to it, and how
/// far the connection is then.
pub fn handle_connection(
    mux_path: &str,
    path: &str,
    allow_private_targets: bool,
    stage: Stage,
    event: Event,
) -> (r: (Stage, Action))
    ensures
        event matches Event::Head(head) ==> stage is Head ==> ((tunnel_head(head@, mux_path@) matches Ok(
            Some(_),
        )) <==> r.1 is StartMux),
        event matches Event::Head(head) ==> stage is Head ==> (tunnel_head(head@, mux_path@) matches Ok(
            Some(h),
        ) ==> r == (Stage::Done, Action::StartMux(h))),
        match (stage, event) {
            (Stage::Head, Event::Head(head)) => after_head(head@, mux_path@, path@, r),
            (Stage::Body, Event::Authorized(None)) => r.0 is Done && answers(
                r.1,
                404,
                "Not Found"@,
                "not found\n"@,
            ),
            (Stage::Body, Event::Authorized(Some(target))) => if !allow_private_targets
                && private_literal(target@) {
                r.0 is Done && answers(
                    r.1,
                    403,
                    "Forbidden"@,
                    "literal private IP targets are disabled by default\n"@,
                )
            } else {
                r == (Stage::Connecting(target), Action::Connect(target))
            },
            (Stage::Connecting(_), Event::Connected) => r.0 is Done && (r.1 matches Action::Relay(b)
                && b@ == bytes_of(empty_response_text(200, "Connection Established"@))),
            (Stage::Connecting(_), Event::ConnectFailed(e)) => r.0 is Done && answers(
                r.1,
                502,
                "Bad Gateway"@,
                e@ + "\n"@,
            ),
            (Stage::Connecting(_), Event::ConnectTimedOut) => r.0 is Done && answers(
                r.1,
                504,
                "Gateway Timeout"@,
                "upstream connect timed out\n"@,
            ),
            _ => r == (stage, Action::Nothing),
        },
{
    match stage {
        Stage::Head => match event {
            Event::Head(head) => take_head(head.as_slice(), mux_path, path),
            _ => (Stage::Head, Action::Nothing),
        },
        Stage::Body => match event {
            Event::Authorized(None) => (Stage::Done, Action::Answer(send_not_found())),
            Event::Authorized(Some(target)) => {
                if !allow_private_targets && is_private_literal_target(target.as_str()) {
                    return (
                        Stage::Done,
                        Action::Answer(
                            build_error_response(
                                403,
                                "Forbidden",
                                "literal private IP targets are disabled by default\n",
                            ),
                        ),
                    );
                }
                let copy = target.clone();
                (Stage::Connecting(target), Action::Connect(copy))
            },
            _ => (Stage::Body, Action::Nothing),
        },
        Stage::Connecting(target) => match event {
            Event::Connected => (Stage::Done, Action::Relay(build_tunnel_established())),
            Event::ConnectFailed(e) => (
                Stage::Done,
                Action::Answer(
                    build_error_response(502, "Bad Gateway", cat(e.as_str(), "\n").as_str()),
                ),
            ),
            Event::ConnectTimedOut => (
                Stage::Done,
                Action::Answer(
                    build_error_response(504, "Gateway Timeout", "upstream connect timed out\n"),
                ),
            ),
            _ => (Stage::Connecting(target), Action::Nothing),
        },
        Stage::Done => (Stage::Done, Action::Nothing),
    }
}

// ---------------------------------------------------------------------------
// Laws

/// A payload that was accepted is not accepted again.
pub proof fn tunnels_open_once(
    memory: Seq<(Seq<char>, int)>,
    ttl: int,
    now: int,
    password: Seq<char>,
    path: Seq<char>,
    payload: TunnelPayload,
    later: int,
)
    requires
        authorized(memory, ttl, now, password, path, Some(payload)) is Some,
    ensures
        authorized(
            memory_after_payload(memory, ttl, now, password, path, Some(payload)),
            ttl,
            later,
            password,
            path,
            Some(payload),
        ) is None,
{
    let proof_view = payload_proof(payload);
    let m = memory_after_payload(memory, ttl, now, password, path, Some(payload));
    assert(m.last() == (proof_view.nonce, proof_view.timestamp));
    let k = kept(m, later - ttl);
    if in_window(later, proof_view.timestamp, ttl) {
        assert(k.last() == m.last());
        assert(knows(k, proof_view.nonce)) by {
            assert(k[k.len() - 1].0 == proof_view.nonce);
        }
    }
}

/// The request with which a client asks for a session starts one, and what is
/// known of its body is what the client sent.
pub proof fn session_requests_start_sessions(
    host: &str,
    mux_path: &str,
    user_agent: &str,
    body: &[u8],
    request: Vec<u8>,
    head: Vec<u8>,
    path: &str,
    allow: bool,
    r: (Stage, Action),
)
    requires
        is_word(mux_path@),
        !contains(host@, crlf()),
        !contains(user_agent@, crlf()),
        call_ensures(build_tunnel_request, (host, mux_path, body, user_agent), request),
        request@ == head@ + body@,
        call_ensures(handle_connection, (mux_path, path, allow, Stage::Head, Event::Head(head)), r),
    ensures
        r.0 is Done,
        r.1 matches Action::StartMux(h) && h.content_length == Some(body@.len() as usize)
            && !h.chunked,
{
    let text = bytes_of(tunnel_request_head_text(host@, mux_path@, user_agent@, body@.len()));
    assert(request@ == text + body@);
    assert((text + body@).len() == text.len() + body@.len());
    assert((head@ + body@).len() == head@.len() + body@.len());
    assert(head@.len() == text.len());
    assert forall|i: int| 0 <= i < text.len() implies head@[i] == text[i] by {
        assert(request@[i] == text[i]);
        assert((head@ + body@)[i] == head@[i]);
    }
    assert(head@ =~= text);
    vstd::slice::axiom_spec_len(body);
    assert(body@.len() == vstd::slice::spec_slice_len(body));
    tunnel_request_reads_back(host@, mux_path@, user_agent@, body@.len() as usize);
}

/// The request with which a client asks for a tunnel has its body read, which is as
/// long as the one that the client sent.
pub proof fn tunnel_requests_are_read_on(
    host: &str,
    path: &str,
    user_agent: &str,
    body: &[u8],
    request: Vec<u8>,
    head: Vec<u8>,
    mux_path: &str,
    allow: bool,
    r: (Stage, Action),
)
    requires
        is_word(path@),
        path@ != mux_path@,
        !contains(host@, crlf()),
        !contains(user_agent@, crlf()),
        call_ensures(build_tunnel_request, (host, path, body, user_agent), request),
        request@ == head@ + body@,
        call_ensures(handle_connection, (mux_path, path, allow, Stage::Head, Event::Head(head)), r),
    ensures
        r == (Stage::Body, Action::ReadBody(body@.len() as usize)),
{
    let text = bytes_of(tunnel_request_head_text(host@, path@, user_agent@, body@.len()));
    assert(request@ == text + body@);
    assert((text + body@).len() == text.len() + body@.len());
    assert((head@ + body@).len() == head@.len() + body@.len());
    assert(head@.len() == text.len());
    assert forall|i: int| 0 <= i < text.len() implies head@[i] == text[i] by {
        assert(request@[i] == text[i]);
        assert((head@ + body@)[i] == head@[i]);
    }
    assert(head@ =~= text);
    vstd::slice::axiom_spec_len(body);
    assert(body@.len() == vstd::slice::spec_slice_len(body));
    tunnel_request_reads_back(host@, path@, user_agent@, body@.len() as usize);
}

/// A head starts a session just where it is read as a request at the path of
/// sessions, has a body read just where it is read as one at the path of tunnels
/// that announces a length, and is passed on just where it is a request and neither.
pub proof fn heads_are_told_apart(
    head: Vec<u8>,
    bytes: &[u8],
    mux_path: &str,
    path: &str,
    allow: bool,
    session: Result<Option<TunnelRequestHead>, HttpError>,
    tunnel: Result<Option<TunnelRequestHead>, HttpError>,
    request: Result<HttpRequest, HttpError>,
    r: (Stage, Action),
)
    requires
        bytes@ == head@,
        call_ensures(parse_tunnel_request_head, (bytes, mux_path), session),
        call_ensures(parse_tunnel_request_head, (bytes, path), tunnel),
        call_ensures(parse_request, (bytes,), request),
        call_ensures(handle_connection, (mux_path, path, allow, Stage::Head, Event::Head(head)), r),
    ensures
        forall|h: TunnelRequestHead|
            r.1 == Action::StartMux(h) <==> session == Ok::<_, HttpError>(Some(h)),
        r.1 is StartMux <==> (session matches Ok(o) && o is Some),
        forall|n: usize|
            r.1 == Action::ReadBody(n) <==> session == Ok::<Option<TunnelRequestHead>, HttpError>(
                None,
            ) && (tunnel matches Ok(Some(h)) && !h.chunked && h.content_length == Some(n)),
        r.1 is ServePublic <==> (session matches Ok(None)) && (tunnel matches Ok(None)) && request
            is Ok,
        r.1 matches Action::ServePublic(q) ==> q.method@ == (request->Ok_0).method@ && q.path@ == (
        request->Ok_0).path@ && q.version@ == (request->Ok_0).version@ && q.headers@ == (
        request->Ok_0).headers@,
        r.1 is Fail <==> session is Err || (session matches Ok(None) && (tunnel is Err || (
        tunnel matches Ok(None) && request is Err))),
        !(r.1 is Connect) && !(r.1 is Relay) && !(r.1 is Nothing),
        r.0 is Body <==> r.1 is ReadBody,
{
}

/// A target whose proof is valid is connected to, unless it is written as an
/// address out of bounds, which is refused.
pub proof fn authorized_targets_are_connected_to(
    mux_path: &str,
    path: &str,
    allow: bool,
    target: String,
    text: &str,
    private: bool,
    r: (Stage, Action),
)
    requires
        text@ == target@,
        call_ensures(is_private_literal_target, (text,), private),
        call_ensures(
            handle_connection,
            (mux_path, path, allow, Stage::Body, Event::Authorized(Some(target))),
            r,
        ),
    ensures
        allow || !private ==> r == (Stage::Connecting(target), Action::Connect(target)),
        !allow && private ==> r.0 is Done && r.1 is Answer,
{
}

/// The answer when the target was reached opens the tunnel of the client, and no
/// other answer does.
pub proof fn only_reached_targets_open_tunnels(
    mux_path: &str,
    path: &str,
    allow: bool,
    stage: Stage,
    event: Event,
    r: (Stage, Action),
    head: &[u8],
    opened: Result<(), Failure>,
)
    requires
        !(stage is Head),
        call_ensures(handle_connection, (mux_path, path, allow, stage, event), r),
        r.1 matches Action::Relay(b) ==> b@ == head@,
        r.1 matches Action::Answer(b) ==> b@ == head@,
        call_ensures(establish_remote_tunnel, (head, &None), opened),
    ensures
        stage is Connecting && event is Connected ==> r.1 is Relay,
        r.1 is Relay ==> stage is Connecting && event is Connected && opened is Ok,
        r.1 is Answer ==> opened is Err,
        stage is Connecting && (event is ConnectFailed || event is ConnectTimedOut) ==> r.1
            is Answer && r.0 is Done,
{
    reveal_strlit("Connection Established");
    if r.1 is Relay {
        lemma_answer_status(200, "Connection Established"@, ""@);
    }
    reveal_strlit("Not Found");
    reveal_strlit("Forbidden");
    reveal_strlit("Bad Gateway");
    reveal_strlit("Gateway Timeout");
    lemma_answer_status(404, "Not Found"@, "not found\n"@);
    lemma_answer_status(
        403,
        "Forbidden"@,
        "literal private IP targets are disabled by default\n"@,
    );
    if let Event::ConnectFailed(e) = event {
        lemma_answer_status(502, "Bad Gateway"@, e@ + "\n"@);
    }
    lemma_answer_status(504, "Gateway Timeout"@, "upstream connect timed out\n"@);
}

/// The status of an answer is read back.
pub(crate) proof fn lemma_answer_status(status: u16, reason: Seq<char>, body: Seq<char>)
    requires
        !contains(reason, crlf()),
    ensures
        response_parts(bytes_of(error_response_text(status as nat, reason, body))) matches Ok(p)
            && p.0 && p.1 == status,
        response_parts(bytes_of(empty_response_text(status as nat, reason))) matches Ok(p) && p.0
            && p.1 == status,
{
    let none = Seq::<(String, String)>::empty();
    responses_start_with_a_status_line(status, reason, body, none, 0);
    let line = status_line_text(status as nat, reason);
    let a = choose|rest: Seq<char>|
        empty_response_text(status as nat, reason) == line + crlf() + rest;
    let b = choose|rest: Seq<char>|
        error_response_text(status as nat, reason, body) == line + crlf() + rest;
    response_reads_back(status, reason, a);
    response_reads_back(status, reason, b);
}

/// What a client signs for a target is accepted by a server with the same password
/// and path, which gives the target back, while the time is in the window and the
/// nonce is new.
pub proof fn signed_payloads_are_authorized(
    password: &str,
    path: &str,
    target: &str,
    timestamp: i64,
    nonce: String,
    signed: AuthProof,
    replay: &mut ReplayProtector,
    now: i64,
    payload: TunnelPayload,
    r: Option<String>,
)
    requires
        call_ensures(AuthProof::sign_at, (password, "POST", path, target, timestamp, nonce), signed),
        payload.target@ == target@,
        payload.timestamp == signed.timestamp,
        payload.nonce@ == signed.nonce@,
        payload.signature@ == signed.signature@,
        -old(replay).ttl() <= now - timestamp <= old(replay).ttl(),
        forall|i: int| 0 <= i < old(replay)@.len() ==> (#[trigger] old(replay)@[i]).0 != nonce@,
        call_ensures(
            authorize_tunnel_request_at,
            (replay, now, password, path, Some(payload)),
            r,
        ),
    ensures
        r matches Some(t) && t@ == target@,
        exists|i: int| 0 <= i < final(replay)@.len() && (#[trigger] final(replay)@[i]).0 == nonce@,
{
    let m = old(replay)@;
    let k = kept(m, now - old(replay).ttl());
    lemma_kept_within(m, now - old(replay).ttl());
    assert(!knows(k, nonce@));
    let after = final(replay)@;
    assert(after.last().0 == nonce@);
    assert(after[after.len() - 1].0 == nonce@);
}

proof fn lemma_kept_within(m: Seq<(Seq<char>, int)>, oldest: int)
    ensures
        forall|i: int|
            0 <= i < kept(m, oldest).len() ==> m.contains(#[trigger] kept(m, oldest)[i]),
    decreases m.len(),
{
    if m.len() > 0 {
        lemma_kept_within(m.drop_last(), oldest);
        let k = kept(m, oldest);
        let rest = kept(m.drop_last(), oldest);
        assert forall|i: int| 0 <= i < k.len() implies m.contains(#[trigger] k[i]) by {
            if i < rest.len() {
                assert(k[i] == rest[i]);
                assert(m.drop_last().contains(rest[i]));
                let j = choose|j: int| 0 <= j < m.drop_last().len() && m.drop_last()[j] == rest[i];
                assert(m[j] == rest[i]);
            } else {
                assert(m[m.len() - 1] == k[i]);
            }
        }
    }
}

/// A payload is authorized only with a signature that stands for the tag of its own
/// target under the password, and a timestamp in the window; none without a payload.
pub proof fn unsigned_payloads_are_not_authorized(
    replay: &mut ReplayProtector,
    now: i64,
    password: &str,
    path: &str,
    payload: Option<TunnelPayload>,
    r: Option<String>,
)
    requires
        call_ensures(authorize_tunnel_request_at, (replay, now, password, path, payload), r),
    ensures
        r matches Some(t) ==> {
            &&& payload matches Some(p)
            &&& t@ == p.target@
            &&& -old(replay).ttl() <= now - p.timestamp <= old(replay).ttl()
            &&& base64url_stands_for(
                bytes_of(p.signature@),
                hmac_sha256_of(
                    bytes_of(password@),
                    bytes_of(
                        signature_text("POST"@, path@, p.target@, p.timestamp as int, p.nonce@),
                    ),
                ),
            )
        },
{
}

/// The addresses of the local host and of private networks are out of bounds, and
/// so is the address of no host; others are not.
pub proof fn private_addresses_are_out_of_bounds(n: u32, m: u128)
    ensures
        private_ip(IpAddr::V4(n)) <==> 0x0a00_0000 <= n <= 0x0aff_ffff || 0x7f00_0000 <= n
            <= 0x7fff_ffff || 0xa9fe_0000 <= n <= 0xa9fe_ffff || 0xac10_0000 <= n <= 0xac1f_ffff
            || 0xc0a8_0000 <= n <= 0xc0a8_ffff || n == 0,
        private_ip(IpAddr::V6(m)) <==> m <= 1 || 0xfc00_0000_0000_0000_0000_0000_0000_0000 <= m
            <= 0xfdff_ffff_ffff_ffff_ffff_ffff_ffff_ffff
            || 0xfe80_0000_0000_0000_0000_0000_0000_0000 <= m
            <= 0xfebf_ffff_ffff_ffff_ffff_ffff_ffff_ffff,
{
    crate::ip::lemma_group_ranges(m);
}

/// Tunnels are not opened to targets that are written as an address of the local
/// host, of a private network or of no host, and names are never taken for one.
pub proof fn private_targets_are_known(
    target: &str,
    host: Option<String>,
    text: &str,
    ip: Option<IpAddr>,
    r: bool,
)
    requires
        call_ensures(host_from_target, (target,), host),
        host matches Some(h) ==> text@ == h@,
        call_ensures(parse_ip, (text,), ip),
        call_ensures(is_private_literal_target, (target,), r),
    ensures
        r ==> host is Some && ip is Some,
        host is Some ==> (ip matches Some(IpAddr::V4(n)) ==> (r <==> 0x0a00_0000 <= n <= 0x0aff_ffff
            || 0x7f00_0000 <= n <= 0x7fff_ffff || 0xa9fe_0000 <= n <= 0xa9fe_ffff || 0xac10_0000 <= n
            <= 0xac1f_ffff || 0xc0a8_0000 <= n <= 0xc0a8_ffff || n == 0)),
        host is Some ==> (ip matches Some(IpAddr::V6(m)) ==> (r <==> m <= 1
            || 0xfc00_0000_0000_0000_0000_0000_0000_0000 <= m
            <= 0xfdff_ffff_ffff_ffff_ffff_ffff_ffff_ffff
            || 0xfe80_0000_0000_0000_0000_0000_0000_0000 <= m
            <= 0xfebf_ffff_ffff_ffff_ffff_ffff_ffff_ffff)),
{
    if let Some(IpAddr::V6(m)) = ip {
        crate::ip::lemma_group_ranges(m);
    }
}

} // verus!
