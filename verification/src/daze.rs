//! The daze protocols, and what a client and a server do for each connection in
//! them.

pub mod baboon;
pub mod wire;

use vstd::prelude::*;
use crate::daze::baboon::{check_sync_answer, sync_refusal};
use crate::daze::wire::{
    advanced, check_target_length, ciphered, handshake, is_state, reply, server_accept_ashe,
    session_state, AsheAccept, Handshake, Rc4State,
};
use crate::failure::{outcome, timed_out, Failure};
use crate::mode::ProxyMode;
use crate::mux::session::{is_private_literal_target, private_literal};
use crate::proxy::auth::auth_failure_hint;
use crate::proxy::route::RouteDecision;
use crate::proxy::socks5::{
    plain_reply, send_failure, send_success, target_text, TargetAddr, REP_GENERAL_FAILURE,
};
use crate::text::{bytes_of, cat, opt_view};
use crate::traffic::RelayLabels;

verus! {

/// A daze protocol.
#[derive(Clone, Copy, Debug, PartialEq, Eq, Structural)]
pub enum DazeProtocol {
    Ashe,
    Baboon,
    Czar,
}

/// The protocol of a mode.
pub open spec fn protocol_of(mode: ProxyMode) -> Option<DazeProtocol> {
    match mode {
        ProxyMode::DazeAshe => Some(DazeProtocol::Ashe),
        ProxyMode::DazeBaboon => Some(DazeProtocol::Baboon),
        ProxyMode::DazeCzar => Some(DazeProtocol::Czar),
        _ => None,
    }
}

fn find_protocol(mode: ProxyMode) -> (r: Option<DazeProtocol>)
    ensures
        r == protocol_of(mode),
{
    match mode {
        ProxyMode::DazeAshe => Some(DazeProtocol::Ashe),
        ProxyMode::DazeBaboon => Some(DazeProtocol::Baboon),
        ProxyMode::DazeCzar => Some(DazeProtocol::Czar),
        _ => None,
    }
}

/// The protocol that a client speaks in a mode.
pub fn run_client(mode: ProxyMode) -> (r: Result<DazeProtocol, Failure>)
    ensures
        match (outcome(r), protocol_of(mode)) {
            (Ok(p), Some(q)) => p == q,
            (Err(e), None) => e == seq!["unsupported daze client mode"@],
            _ => false,
        },
{
    match find_protocol(mode) {
        Some(p) => Ok(p),
        None => Err(Failure::new("unsupported daze client mode")),
    }
}

/// The protocol that a server speaks in a mode.
pub fn run_server(mode: ProxyMode) -> (r: Result<DazeProtocol, Failure>)
    ensures
        match (outcome(r), protocol_of(mode)) {
            (Ok(p), Some(q)) => p == q,
            (Err(e), None) => e == seq!["unsupported daze server mode"@],
            _ => false,
        },
{
    match find_protocol(mode) {
        Some(p) => Ok(p),
        None => Err(Failure::new("unsupported daze server mode")),
    }
}

impl DazeProtocol {
    /// The name of the protocol.
    pub open spec fn name(self) -> Seq<char> {
        match self {
            DazeProtocol::Ashe => "daze-ashe"@,
            DazeProtocol::Baboon => "daze-baboon"@,
            DazeProtocol::Czar => "daze-czar"@,
        }
    }

    /// The name of the protocol.
    pub fn as_str(self) -> (r: &'static str)
        ensures
            r@ == self.name(),
    {
        match self {
            DazeProtocol::Ashe => "daze-ashe",
            DazeProtocol::Baboon => "daze-baboon",
            DazeProtocol::Czar => "daze-czar",
        }
    }
}

/// How far a connection of the client is.
#[derive(Debug)]
pub enum Stage {
    Handshake,
    Routing(TargetAddr),
    Connecting(TargetAddr),
    Syncing(TargetAddr),
    Establishing(TargetAddr),
    Done,
}

/// What happens to a connection of the client.
#[derive(Debug)]
pub enum Event {
    /// The target is known.
    Accepted(TargetAddr),
    /// The application did not say in time what it wants.
    HandshakeTimedOut,
    /// A step failed.
    Failed(Failure),
    /// The route is known.
    Decided(RouteDecision),
    /// The server was reached.
    Connected,
    /// The server was not reached in time.
    ConnectTimedOut,
    /// The server answered, and its body tells something or not.
    Answered(Vec<u8>, Option<String>),
    /// The server did not answer in time.
    AnswerTimedOut,
    /// The handshake with the server is done.
    Established,
}

/// What is done for a connection of the client.
#[derive(Debug)]
pub enum Action {
    Nothing,
    /// Find the route of the target.
    Decide,
    /// Relay directly to the target.
    RelayDirect(TargetAddr),
    /// Connect to the server.
    Connect,
    /// Send the request that looks like one to a web server.
    SendSync,
    /// Do the handshake for the target.
    Establish(String),
    /// Send the bytes, then relay.
    Relay(Vec<u8>, RelayLabels),
    /// Send the bytes, then fail.
    Fail(Vec<u8>, Failure),
}

/// Whether an action ends a connection with a failure, after a reply or without.
pub open spec fn fails(action: Action, reply: bool, failure: Seq<Seq<char>>) -> bool {
    &&& action matches Action::Fail(b, e)
    &&& b@ == if reply {
        plain_reply(REP_GENERAL_FAILURE)
    } else {
        seq![]
    }
    &&& e@ == failure
}

/// Whether an action is the handshake for a target.
pub open spec fn establishes(r: (Stage, Action), target: TargetAddr) -> bool {
    r.0 == Stage::Establishing(target) && (r.1 matches Action::Establish(t) && t@ == target_text(
        target@,
    ))
}

/// What a failed handshake is told as.
pub open spec fn handshake_failure(protocol: DazeProtocol, e: Seq<Seq<char>>) -> Seq<Seq<char>> {
    match protocol {
        DazeProtocol::Ashe => seq![
            "daze-ashe handshake failed; "@ + crate::proxy::auth::failure_hint(),
        ] + e,
        DazeProtocol::Baboon => seq![
            "daze-baboon ashe handshake failed; "@ + crate::proxy::auth::failure_hint(),
        ] + e,
        DazeProtocol::Czar => e,
    }
}

/// What is done for a connection whose route is known.
pub open spec fn after_decision(target: TargetAddr, decision: RouteDecision, r: (Stage, Action)) -> bool {
    match decision {
        RouteDecision::Direct => r == (Stage::Done, Action::RelayDirect(target)),
        RouteDecision::Block => r.0 is Done && fails(
            r.1,
            true,
            seq!["target blocked by proxy control: "@ + target_text(target@)],
        ),
        RouteDecision::Remote => if bytes_of(target_text(target@)).len() > 255 {
            r.0 is Done && fails(r.1, true, seq!["destination address too long"@])
        } else {
            r == (Stage::Connecting(target), Action::Connect)
        },
    }
}

fn failed(e: Failure) -> (r: (Stage, Action))
    ensures
        r.0 is Done && fails(r.1, false, e@),
{
    (Stage::Done, Action::Fail(Vec::new(), e))
}

fn refused(e: Failure) -> (r: (Stage, Action))
    ensures
        r.0 is Done && fails(r.1, true, e@),
{
    (Stage::Done, Action::Fail(send_failure(REP_GENERAL_FAILURE), e))
}

fn establish(target: TargetAddr) -> (r: (Stage, Action))
    ensures
        establishes(r, target),
{
    let text = target.to_text();
    (Stage::Establishing(target), Action::Establish(text))
}

/// What the client does for a connection when something happens to it, and how
/// far the connection is then.
pub fn handle_client_connection(protocol: DazeProtocol, stage: Stage, event: Event) -> (r: (
    Stage,
    Action,
))
    ensures
        match (stage, event) {
            (Stage::Handshake, Event::Accepted(t)) => r == (Stage::Routing(t), Action::Decide),
            (Stage::Handshake, Event::HandshakeTimedOut) => r.0 is Done && fails(
                r.1,
                false,
                timed_out("SOCKS handshake timed out"@),
            ),
            (Stage::Routing(t), Event::Decided(d)) => after_decision(t, d, r),
            (Stage::Connecting(t), Event::Connected) => if protocol == DazeProtocol::Baboon {
                r == (Stage::Syncing(t), Action::SendSync)
            } else {
                establishes(r, t)
            },
            (Stage::Connecting(_), Event::ConnectTimedOut) => r.0 is Done && fails(
                r.1,
                false,
                if protocol == DazeProtocol::Czar {
                    timed_out("czar server connect timed out"@)
                } else {
                    timed_out("server connect timed out"@)
                },
            ),
            (Stage::Syncing(t), Event::Answered(head, detail)) => match sync_refusal(
                head@,
                opt_view(detail),
            ) {
                Some((f, told)) => r.0 is Done && fails(r.1, told, f),
                None => establishes(r, t),
            },
            (Stage::Syncing(_), Event::AnswerTimedOut) => r.0 is Done && fails(
                r.1,
                false,
                timed_out("baboon response timed out"@),
            ),
            (Stage::Establishing(t), Event::Established) => {
                &&& r.0 is Done
                &&& r.1 matches Action::Relay(b, l)
                &&& b@ == plain_reply(0)
                &&& l.target@ == target_text(t@)
                &&& opt_view(l.route) == Some("remote"@)
                &&& opt_view(l.mode) == Some(protocol.name())
            },
            (Stage::Establishing(_), Event::Failed(e)) => r.0 is Done && fails(
                r.1,
                false,
                handshake_failure(protocol, e@),
            ),
            (Stage::Done, _) => r == (stage, Action::Nothing),
            (_, Event::Failed(e)) => r.0 is Done && fails(r.1, false, e@),
            _ => r == (stage, Action::Nothing),
        },
{
    match stage {
        Stage::Handshake => match event {
            Event::Accepted(t) => (Stage::Routing(t), Action::Decide),
            Event::HandshakeTimedOut => failed(Failure::timed_out("SOCKS handshake timed out")),
            Event::Failed(e) => failed(e),
            _ => (Stage::Handshake, Action::Nothing),
        },
        Stage::Routing(t) => match event {
            Event::Failed(e) => failed(e),
            Event::Decided(d) => match d {
                RouteDecision::Direct => (Stage::Done, Action::RelayDirect(t)),
                RouteDecision::Block => refused(
                    Failure::new(
                        cat("target blocked by proxy control: ", t.to_text().as_str()).as_str(),
                    ),
                ),
                RouteDecision::Remote => {
                    match check_target_length(t.to_text().as_str()) {
                        Err(e) => {
                            return refused(Failure::new("destination address too long"));
                        },
                        Ok(_) => {},
                    }
                    (Stage::Connecting(t), Action::Connect)
                },
            },
            _ => (Stage::Routing(t), Action::Nothing),
        },
        Stage::Connecting(t) => match event {
            Event::Failed(e) => failed(e),
            Event::Connected => {
                if protocol == DazeProtocol::Baboon {
                    (Stage::Syncing(t), Action::SendSync)
                } else {
                    establish(t)
                }
            },
            Event::ConnectTimedOut => {
                if protocol == DazeProtocol::Czar {
                    failed(Failure::timed_out("czar server connect timed out"))
                } else {
                    failed(Failure::timed_out("server connect timed out"))
                }
            },
            _ => (Stage::Connecting(t), Action::Nothing),
        },
        Stage::Syncing(t) => match event {
            Event::Failed(e) => failed(e),
            Event::Answered(head, detail) => match check_sync_answer(head.as_slice(), &detail) {
                Some((f, told)) => {
                    if told {
                        refused(f)
                    } else {
                        failed(f)
                    }
                },
                None => establish(t),
            },
            Event::AnswerTimedOut => failed(Failure::timed_out("baboon response timed out")),
            _ => (Stage::Syncing(t), Action::Nothing),
        },
        Stage::Establishing(t) => match event {
            Event::Failed(e) => match protocol {
                DazeProtocol::Ashe => failed(
                    e.context(cat("daze-ashe handshake failed; ", auth_failure_hint()).as_str()),
                ),
                DazeProtocol::Baboon => failed(
                    e.context(
                        cat("daze-baboon ashe handshake failed; ", auth_failure_hint()).as_str(),
                    ),
                ),
                DazeProtocol::Czar => failed(e),
            },
            Event::Established => (
                Stage::Done,
                Action::Relay(
                    send_success(),
                    RelayLabels::new(t.to_text(), "remote", Some(protocol.as_str())),
                ),
            ),
            _ => (Stage::Establishing(t), Action::Nothing),
        },
        Stage::Done => (Stage::Done, Action::Nothing),
    }
}

/// Fails where a server must not connect to a target.
pub fn admit_target(target: &str, allow_private_targets: bool) -> (r: Result<(), Failure>)
    ensures
        match outcome(r) {
            Ok(_) => allow_private_targets || !private_literal(target@),
            Err(e) => !allow_private_targets && private_literal(target@) && e
                == seq!["literal private IP targets are disabled by default"@],
        },
{
    if !allow_private_targets && is_private_literal_target(target) {
        return Err(Failure::new("literal private IP targets are disabled by default"));
    }
    Ok(())
}

// ---------------------------------------------------------------------------
// The server

/// How far a connection of the server is.
#[derive(Debug)]
pub enum ServerStage {
    /// The bytes of the handshake so far, and the time at which its timestamp was
    /// there.
    Handshake(Vec<u8>, Option<i64>),
    /// The target, the state that reads what the client sends, and the one that
    /// writes the answers.
    Connecting(String, Rc4State, Rc4State),
    Done,
}

impl ServerStage {
    /// Whether the states of the ciphers can be gone on with.
    pub open spec fn wf(self) -> bool {
        self matches ServerStage::Connecting(_, upload, download) ==> is_state(upload@) && is_state(
            download@,
        )
    }
}

/// What happens to a connection of the server.
#[derive(Debug)]
pub enum ServerEvent {
    /// The bytes that were asked for came in.
    Received(Vec<u8>),
    /// They did not come in time.
    ReadTimedOut,
    /// The target was reached.
    Connected,
    /// The target was not reached in time.
    ConnectTimedOut,
    /// A step failed.
    Failed(Failure),
}

/// What is done for a connection of the server.
#[derive(Debug)]
pub enum ServerAction {
    Nothing,
    /// Read so many bytes.
    Read(usize),
    /// Connect to the target.
    Connect(String),
    /// Send the byte, then relay: what the client sends goes through the first
    /// cipher, what it gets through the second.
    Relay(u8, Rc4State, Rc4State, RelayLabels),
    /// Send the byte if there is one, then fail.
    Fail(Option<u8>, Failure),
}

/// What a handshake of which so many bytes are there waits for in vain.
pub open spec fn late_text(have: nat) -> Seq<char> {
    if have < 32 {
        "daze-ashe salt read timed out"@
    } else if have < 40 {
        "daze-ashe timestamp read timed out"@
    } else if have < 42 {
        "daze-ashe request read timed out"@
    } else {
        "daze-ashe address read timed out"@
    }
}

/// Whether an action of the server is a failure.
pub open spec fn server_fails(
    r: (ServerStage, ServerAction),
    code: Option<u8>,
    failure: Seq<Seq<char>>,
) -> bool {
    r.0 is Done && (r.1 matches ServerAction::Fail(c, e) && c == code && e@ == failure)
}

/// The time at which a timestamp is judged: when it was there.
pub open spec fn judged_at(since: Option<i64>, now: i64) -> i64 {
    match since {
        Some(t) => t,
        None => now,
    }
}

/// What is done about the bytes of a handshake.
pub open spec fn after_bytes(
    all: Seq<u8>,
    since: Option<i64>,
    password: Seq<char>,
    allow_private_targets: bool,
    now: i64,
    r: (ServerStage, ServerAction),
) -> bool {
    match handshake(all, password, judged_at(since, now) as int) {
        Handshake::Incomplete { missing } => {
            &&& r.0 matches ServerStage::Handshake(b, s)
            &&& b@ == all
            &&& s == if all.len() < 40 {
                since
            } else {
                Some(judged_at(since, now))
            }
            &&& r.1 matches ServerAction::Read(n)
            &&& n == missing
        },
        Handshake::Refused(_, told) => server_fails(r, None, told),
        Handshake::Accepted { target, upload, used } => {
            let answers = session_state(all.take(32), password);
            if !allow_private_targets && private_literal(target) {
                server_fails(
                    r,
                    Some(ciphered(answers, seq![1u8])[0]),
                    seq!["literal private IP targets are disabled by default"@],
                )
            } else {
                &&& r.0 matches ServerStage::Connecting(t, u, d)
                &&& t@ == target
                &&& u@ == upload
                &&& d@ == answers
                &&& r.1 matches ServerAction::Connect(to)
                &&& to@ == target
            }
        },
    }
}

fn server_failed(e: Failure) -> (r: (ServerStage, ServerAction))
    ensures
        server_fails(r, None, e@),
{
    (ServerStage::Done, ServerAction::Fail(None, e))
}

fn take_bytes(
    received: Vec<u8>,
    since: Option<i64>,
    password: &str,
    allow_private_targets: bool,
    now: i64,
) -> (r: (ServerStage, ServerAction))
    ensures
        after_bytes(received@, since, password@, allow_private_targets, now, r),
        r.0.wf(),
{
    let at: i64 = match since {
        Some(t) => t,
        None => now,
    };
    match server_accept_ashe(received.as_slice(), password, at) {
        AsheAccept::Incomplete { missing } => {
            let judged = if received.len() < 40 {
                since
            } else {
                Some(at)
            };
            (ServerStage::Handshake(received, judged), ServerAction::Read(missing))
        },
        AsheAccept::Refused(_, told) => server_failed(told),
        AsheAccept::Accepted { target, upload, download, used: _ } => {
            let mut download = download;
            match admit_target(target.as_str(), allow_private_targets) {
                Err(e) => {
                    let code: u8 = reply(&mut download, 1);
                    (ServerStage::Done, ServerAction::Fail(Some(code), e))
                },
                Ok(()) => {
                    let to = target.clone();
                    (ServerStage::Connecting(target, upload, download), ServerAction::Connect(to))
                },
            }
        },
    }
}

/// What the server does for a connection when something happens to it, and how
/// far the connection is then. A connection starts without bytes, and with none
/// received.
pub fn handle_server_connection(
    protocol: DazeProtocol,
    password: &str,
    allow_private_targets: bool,
    stage: ServerStage,
    event: ServerEvent,
    now: i64,
) -> (r: (ServerStage, ServerAction))
    requires
        stage.wf(),
    ensures
        r.0.wf(),
        match (stage, event) {
            (ServerStage::Done, _) => r == (stage, ServerAction::Nothing),
            (_, ServerEvent::Failed(e)) => server_fails(r, None, e@),
            (ServerStage::Handshake(so_far, since), ServerEvent::Received(more)) => after_bytes(
                so_far@ + more@,
                since,
                password@,
                allow_private_targets,
                now,
                r,
            ),
            (ServerStage::Handshake(so_far, _), ServerEvent::ReadTimedOut) => server_fails(
                r,
                None,
                timed_out(late_text(so_far@.len())),
            ),
            (ServerStage::Connecting(target, upload, download), ServerEvent::Connected) => {
                &&& r.0 is Done
                &&& r.1 matches ServerAction::Relay(code, u, d, labels)
                &&& code == ciphered(download@, seq![0u8])[0]
                &&& u@ == upload@
                &&& d@ == advanced(download@, 1)
                &&& is_state(u@) && is_state(d@)
                &&& labels.target@ == target@
                &&& opt_view(labels.route) == Some("remote"@)
                &&& opt_view(labels.mode) == Some(protocol.name())
            },
            (ServerStage::Connecting(_, _, _), ServerEvent::ConnectTimedOut) => server_fails(
                r,
                None,
                timed_out("upstream connect timed out"@),
            ),
            _ => r == (stage, ServerAction::Nothing),
        },
{
    match stage {
        ServerStage::Done => (ServerStage::Done, ServerAction::Nothing),
        ServerStage::Handshake(so_far, since) => match event {
            ServerEvent::Failed(e) => server_failed(e),
            ServerEvent::Received(more) => {
                let ghost all = so_far@ + more@;
                let mut all_bytes = so_far;
                let mut more = more;
                all_bytes.append(&mut more);
                assert(all_bytes@ =~= all);
                take_bytes(all_bytes, since, password, allow_private_targets, now)
            },
            ServerEvent::ReadTimedOut => {
                let text = if so_far.len() < 32 {
                    "daze-ashe salt read timed out"
                } else if so_far.len() < 40 {
                    "daze-ashe timestamp read timed out"
                } else if so_far.len() < 42 {
                    "daze-ashe request read timed out"
                } else {
                    "daze-ashe address read timed out"
                };
                server_failed(Failure::timed_out(text))
            },
            _ => (ServerStage::Handshake(so_far, since), ServerAction::Nothing),
        },
        ServerStage::Connecting(target, upload, download) => match event {
            ServerEvent::Failed(e) => server_failed(e),
            ServerEvent::Connected => {
                let mut download = download;
                let code: u8 = reply(&mut download, 0);
                (
                    ServerStage::Done,
                    ServerAction::Relay(
                        code,
                        upload,
                        download,
                        RelayLabels::new(target, "remote", Some(protocol.as_str())),
                    ),
                )
            },
            ServerEvent::ConnectTimedOut => server_failed(
                Failure::timed_out("upstream connect timed out"),
            ),
            _ => (ServerStage::Connecting(target, upload, download), ServerAction::Nothing),
        },
    }
}

// ---------------------------------------------------------------------------
// Laws

/// A client routes every target, relays directly just what is decided to go direct,
/// connects to the server just for what is decided to go there and fits, and refuses
/// what is blocked.
pub proof fn decisions_are_carried_out(
    protocol: DazeProtocol,
    target: TargetAddr,
    decision: RouteDecision,
    text: String,
    start: (Stage, Action),
    r: (Stage, Action),
)
    requires
        call_ensures(TargetAddr::to_text, (&target,), text),
        call_ensures(
            handle_client_connection,
            (protocol, Stage::Handshake, Event::Accepted(target)),
            start,
        ),
        call_ensures(
            handle_client_connection,
            (protocol, Stage::Routing(target), Event::Decided(decision)),
            r,
        ),
    ensures
        start == (Stage::Routing(target), Action::Decide),
        decision == RouteDecision::Direct <==> r == (Stage::Done, Action::RelayDirect(target)),
        decision == RouteDecision::Remote && bytes_of(text@).len() < 256 <==> r.1 is Connect,
        r.1 is Connect ==> r.0 == Stage::Connecting(target),
        decision == RouteDecision::Block || (decision == RouteDecision::Remote && bytes_of(text@).len()
            >= 256) <==> r.1 is Fail,
        r.1 matches Action::Fail(b, _) ==> r.0 is Done && b@ == seq![5u8, 1, 0, 1, 0, 0, 0, 0, 0, 0],
{
    crate::proxy::socks5::replies_without_an_address(1);
}

/// A server that was reached is told the target, at once or, where the protocol
/// hides behind a request, when its answer accepts the client.
pub proof fn servers_are_told_the_target(
    protocol: DazeProtocol,
    target: TargetAddr,
    text: String,
    r: (Stage, Action),
    head: Vec<u8>,
    detail: Option<String>,
    answer: &[u8],
    refused: Option<(Failure, bool)>,
    synced: (Stage, Action),
)
    requires
        call_ensures(TargetAddr::to_text, (&target,), text),
        call_ensures(
            handle_client_connection,
            (protocol, Stage::Connecting(target), Event::Connected),
            r,
        ),
        answer@ == head@,
        call_ensures(check_sync_answer, (answer, &detail), refused),
        call_ensures(
            handle_client_connection,
            (protocol, Stage::Syncing(target), Event::Answered(head, detail)),
            synced,
        ),
    ensures
        protocol == DazeProtocol::Baboon <==> r.1 is SendSync,
        r.1 is SendSync ==> r.0 == Stage::Syncing(target),
        protocol != DazeProtocol::Baboon ==> r.0 == Stage::Establishing(target) && (
        r.1 matches Action::Establish(t) && t@ == text@),
        refused is None ==> synced.0 == Stage::Establishing(target) && (
        synced.1 matches Action::Establish(t) && t@ == text@),
        refused matches Some((e, told)) ==> synced.0 is Done && (synced.1 matches Action::Fail(b, f)
            && f@ == e@ && (told <==> b@.len() > 0)),
{
    crate::proxy::socks5::replies_without_an_address(1);
}

/// An application is told of success, and its bytes relayed, just where the
/// handshake for its target is done; a handshake that failed fails the connection
/// with its cause.
pub proof fn established_targets_are_relayed(
    protocol: DazeProtocol,
    target: TargetAddr,
    text: String,
    cause: Failure,
    r: (Stage, Action),
    failed: (Stage, Action),
)
    requires
        call_ensures(TargetAddr::to_text, (&target,), text),
        call_ensures(
            handle_client_connection,
            (protocol, Stage::Establishing(target), Event::Established),
            r,
        ),
        call_ensures(
            handle_client_connection,
            (protocol, Stage::Establishing(target), Event::Failed(cause)),
            failed,
        ),
    ensures
        r.0 is Done,
        r.1 matches Action::Relay(b, labels) && b@ == seq![5u8, 0, 0, 1, 0, 0, 0, 0, 0, 0]
            && labels.target@ == text@,
        failed.0 is Done,
        failed.1 matches Action::Fail(b, e) && b@.len() == 0 && e@.len() >= cause@.len() && e@.skip(
            e@.len() - cause@.len(),
        ) == cause@,
{
    crate::proxy::socks5::replies_without_an_address(0);
    if let Action::Fail(b, e) = failed.1 {
        assert(e@.skip(e@.len() - cause@.len()) =~= cause@);
    }
}

/// Each mode has its protocol, the same for the client and the server, and the
/// modes of other protocols have none.
pub proof fn both_sides_speak_one_protocol(
    mode: ProxyMode,
    client: Result<DazeProtocol, Failure>,
    server: Result<DazeProtocol, Failure>,
    client_name: &'static str,
    mode_name: &'static str,
)
    requires
        call_ensures(run_client, (mode,), client),
        call_ensures(run_server, (mode,), server),
        call_ensures(ProxyMode::as_str, (mode,), mode_name),
        client matches Ok(p) ==> call_ensures(DazeProtocol::as_str, (p,), client_name),
    ensures
        client is Ok <==> server is Ok,
        client matches Ok(p) ==> server == Ok::<DazeProtocol, Failure>(p) && client_name@ == mode_name@,
        client is Ok <==> mode == ProxyMode::DazeAshe || mode == ProxyMode::DazeBaboon || mode
            == ProxyMode::DazeCzar,
{
}

/// A server connects to the target that a client with its password opens a handshake
/// for, in whatever parts the opening comes in, where the target is allowed; the
/// client takes its answer for success, and what either side relays then the other
/// side reads. A target that is not allowed is refused, and the client learns that.
#[verifier::spinoff_prover]
#[verifier::rlimit(50)]
pub proof fn handshakes_lead_to_the_target(
    protocol: DazeProtocol,
    random: &[u8],
    timestamp: i64,
    password: &str,
    target: &str,
    o: crate::daze::wire::AsheOpening,
    so_far: Vec<u8>,
    since: Option<i64>,
    more: Vec<u8>,
    allow_private_targets: bool,
    admitted: Result<(), Failure>,
    now: i64,
    r: (ServerStage, ServerAction),
    later: i64,
    s: (ServerStage, ServerAction),
    client: &mut Rc4State,
    code: u8,
    told: Result<(), crate::daze::wire::AsheError>,
)
    requires
        random@.len() == 32,
        bytes_of(target@).len() <= 255,
        call_ensures(crate::daze::wire::open_ashe, (random, timestamp, password, target), o),
        so_far@ + more@ == o.message@,
        -120 <= now - timestamp <= 120,
        since matches Some(t) ==> -120 <= t - timestamp <= 120,
        call_ensures(admit_target, (target, allow_private_targets), admitted),
        call_ensures(
            handle_server_connection,
            (
                protocol,
                password,
                allow_private_targets,
                ServerStage::Handshake(so_far, since),
                ServerEvent::Received(more),
                now,
            ),
            r,
        ),
        call_ensures(
            handle_server_connection,
            (protocol, password, allow_private_targets, r.0, ServerEvent::Connected, later),
            s,
        ),
        *old(client) == o.download,
        call_ensures(crate::daze::wire::accept_reply, (client, code), told),
    ensures
        admitted is Ok ==> (r.1 matches ServerAction::Connect(to) && to@ == target@),
        admitted is Ok ==> s.0 is Done && (s.1 matches ServerAction::Relay(c, u, d, labels) && u@
            == o.upload@ && labels.target@ == target@ && (c == code ==> told is Ok && d@
            == final(client)@)),
        admitted is Err ==> r.0 is Done && (r.1 matches ServerAction::Fail(Some(c), _) && (c == code
            ==> told is Err)),
{
    let all = so_far@ + more@;
    let st = session_state(random@, password@);
    let said = crate::daze::wire::opening(timestamp, target@);
    let none = Seq::<u8>::empty();
    crate::daze::wire::handshake_completes(
        random@,
        timestamp,
        password@,
        target@,
        none,
        judged_at(since, now) as int,
    );
    assert(all + none =~= all);
    assert(all.take(32) =~= random@);
    crate::daze::wire::answers_are_understood(st, 0);
    crate::daze::wire::answers_are_understood(st, 1);
}

/// Private literal addresses are admitted just where that is allowed, and all other
/// targets always.
pub proof fn private_targets_need_permission(
    target: &str,
    private: bool,
    allowed: Result<(), Failure>,
    kept_out: Result<(), Failure>,
)
    requires
        call_ensures(is_private_literal_target, (target,), private),
        call_ensures(admit_target, (target, true), allowed),
        call_ensures(admit_target, (target, false), kept_out),
    ensures
        allowed is Ok,
        kept_out is Ok <==> !private,
{
}

/// An application that does not say in time what it wants, and a server that is not
/// reached or does not answer in time, fail the connection without an answer.
pub proof fn silence_fails_the_connection(
    protocol: DazeProtocol,
    target: TargetAddr,
    cause: Failure,
    app: (Stage, Action),
    server: (Stage, Action),
    answer: (Stage, Action),
    failed: (Stage, Action),
)
    requires
        call_ensures(
            handle_client_connection,
            (protocol, Stage::Handshake, Event::HandshakeTimedOut),
            app,
        ),
        call_ensures(
            handle_client_connection,
            (protocol, Stage::Connecting(target), Event::ConnectTimedOut),
            server,
        ),
        call_ensures(
            handle_client_connection,
            (protocol, Stage::Syncing(target), Event::AnswerTimedOut),
            answer,
        ),
        call_ensures(
            handle_client_connection,
            (protocol, Stage::Connecting(target), Event::Failed(cause)),
            failed,
        ),
    ensures
        app.0 is Done && (app.1 matches Action::Fail(b, _) && b@.len() == 0),
        server.0 is Done && (server.1 matches Action::Fail(b, _) && b@.len() == 0),
        answer.0 is Done && (answer.1 matches Action::Fail(b, _) && b@.len() == 0),
        failed.0 is Done && (failed.1 matches Action::Fail(b, e) && b@.len() == 0 && e@ == cause@),
{
}

/// A server that does not get a handshake in time, or does not reach its target, ends
/// the connection without an answer; a failure ends it with its cause.
pub proof fn unfinished_handshakes_are_ended(
    protocol: DazeProtocol,
    password: &str,
    allow: bool,
    so_far: Vec<u8>,
    since: Option<i64>,
    target: String,
    upload: Rc4State,
    download: Rc4State,
    cause: Failure,
    now: i64,
    late: (ServerStage, ServerAction),
    unreached: (ServerStage, ServerAction),
    failed: (ServerStage, ServerAction),
)
    requires
        is_state(upload@) && is_state(download@),
        call_ensures(
            handle_server_connection,
            (
                protocol,
                password,
                allow,
                ServerStage::Handshake(so_far, since),
                ServerEvent::ReadTimedOut,
                now,
            ),
            late,
        ),
        call_ensures(
            handle_server_connection,
            (
                protocol,
                password,
                allow,
                ServerStage::Connecting(target, upload, download),
                ServerEvent::ConnectTimedOut,
                now,
            ),
            unreached,
        ),
        call_ensures(
            handle_server_connection,
            (
                protocol,
                password,
                allow,
                ServerStage::Connecting(target, upload, download),
                ServerEvent::Failed(cause),
                now,
            ),
            failed,
        ),
    ensures
        late.0 is Done && (late.1 matches ServerAction::Fail(code, _) && code is None),
        unreached.0 is Done && (unreached.1 matches ServerAction::Fail(code, _) && code is None),
        failed.0 is Done && (failed.1 matches ServerAction::Fail(code, e) && code is None && e@
            == cause@),
{
}

} // verus!
