//! Sessions: what each side does when a frame comes in, a frame is to go out,
//! or time passes.

use vstd::prelude::*;
use crate::auth::{
    carries, drawn, in_window, kept, knows, proof_views, proof_with, remembered, tag_of, verdict,
    AuthProof, ProofView, ReplayProtector,
};
use crate::failure::{outcome, timed_out, Failure};
use crate::http::{
    build_error_response, build_tunnel_established, empty_response_text, error_response_text,
    explain_response, parse_tunnel_response, response_error, response_fault, status_line,
    TunnelPayload, TunnelRequestHead,
};
use crate::ids::IdSet;
use crate::ip::{
    is_link_local_v4, is_link_local_v6, is_loopback, is_private_range, is_unique_local_v6,
    ip_value, link_local_v4, link_local_v6, loopback, parse_ip, private_v4, unique_local_v6, IpAddr,
};
use crate::mux::{
    at_most, bare_frame, encoded, frame_reads_back, frame_with, received, write_frame, Frame, FRAME_CLOSE, FRAME_DATA,
    FRAME_OPEN, FRAME_OPEN_ERR, FRAME_OPEN_OK, FRAME_PING, FRAME_PONG, FrameView,
    Received, MAX_CONTROL_PAYLOAD, MAX_FRAME_PAYLOAD,
};
use crate::num::{decimal, to_decimal, unsigned_value};
use crate::proxy::remote::RemoteFault;
use crate::proxy::route::RouteDecision;
use crate::proxy::socks5::{
    plain_reply, send_failure, send_success, target_text, TargetAddr, REP_GENERAL_FAILURE,
};
use crate::text::{
    after_prefix, begins_with, bytes_of, cat, cat3, joined, lemma_cut, lemma_starts,
    lemma_utf8_reads_back, read_utf8, rsplit_once, same, split_first, split_last, split_once, strip_prefix, utf8, utf8_fault, words_of,
};

verus! {

/// The target that a session is signed for.
pub open spec fn session_target() -> Seq<char> {
    "__mux__"@
}

/// The target that a session is signed for.
pub fn session_auth_target() -> (r: &'static str)
    ensures
        r@ == session_target(),
{
    "__mux__"
}

/// Seconds between two signs of life.
pub const SESSION_KEEPALIVE_SECS: u64 = 32;

/// Seconds without a frame after which a session ends.
pub const SESSION_IDLE_TIMEOUT_SECS: u64 = 48;

/// What happens to a session.
#[derive(Debug)]
pub enum SessionEvent {
    /// A frame is next in the queue of those that go out.
    Outgoing(Frame),
    /// No frame can come into that queue any more.
    QueueClosed,
    /// A frame came in.
    Incoming(Frame),
    /// Reading or writing failed.
    Broken(Failure),
    /// It is time for a sign of life.
    Heartbeat,
    /// A sign of life could not be queued.
    HeartbeatLost,
    /// Nothing came in for too long.
    Idle,
}

/// What a stream learns from the other side.
#[derive(Debug)]
pub enum StreamEvent {
    Opened,
    OpenError(String),
    Data(Vec<u8>),
    Closed,
}

/// What a client session does.
#[derive(Debug)]
pub enum ClientAction {
    /// Nothing.
    Nothing,
    /// Write the bytes.
    Write(Vec<u8>),
    /// Queue a frame that goes out.
    Queue(Frame),
    /// Tell a stream.
    Tell(u32, StreamEvent),
    /// End the session: tell these streams that they are closed.
    End(Vec<u32>, Option<Failure>),
}

/// What a server session does.
#[derive(Debug)]
pub enum ServerAction {
    /// Nothing.
    Nothing,
    /// Write the bytes.
    Write(Vec<u8>),
    /// Queue a frame that goes out.
    Queue(Frame),
    /// Open a stream to a target.
    Open(u32, String),
    /// Hand bytes to a stream.
    Data(u32, Vec<u8>),
    /// Close a stream.
    Close(u32),
    /// End the session: close these streams.
    End(Vec<u32>, Option<Failure>),
}

/// The failure of a session that a frame of an unknown kind came to.
pub open spec fn unexpected(kind: u8) -> Seq<Seq<char>> {
    seq!["unexpected mux frame type "@ + decimal(kind as nat)]
}

fn unexpected_frame(kind: u8) -> (r: Failure)
    ensures
        r@ == unexpected(kind),
{
    Failure::new(cat("unexpected mux frame type ", to_decimal(kind as u64).as_str()).as_str())
}

/// The texts of a failure, if there is one.
pub open spec fn failure_view(f: Option<Failure>) -> Option<Seq<Seq<char>>> {
    match f {
        Some(e) => Some(e@),
        None => None,
    }
}

/// Why a session ends at an event, if it does. `None` inside is an end without
/// a failure.
pub open spec fn ends_with(event: SessionEvent) -> Option<Option<Seq<Seq<char>>>> {
    match event {
        SessionEvent::QueueClosed => Some(None),
        SessionEvent::Broken(e) => Some(Some(e@)),
        SessionEvent::HeartbeatLost => Some(
            Some(seq!["mux session closed while sending keepalive"@]),
        ),
        SessionEvent::Idle => Some(Some(seq!["mux session timed out waiting for peer activity"@])),
        _ => None,
    }
}

/// What the frame of a kind tells a stream.
pub open spec fn tells(event: StreamEvent, kind: u8, payload: Seq<u8>) -> bool {
    match event {
        StreamEvent::Opened => kind == FRAME_OPEN_OK,
        StreamEvent::Closed => kind == FRAME_CLOSE,
        StreamEvent::Data(b) => kind == FRAME_DATA && b@ == payload,
        StreamEvent::OpenError(m) => kind == FRAME_OPEN_ERR && utf8(payload) == Some(m@),
    }
}

/// Whether the frame of a kind is for a stream of a client.
pub open spec fn is_for_client_stream(kind: u8) -> bool {
    kind == FRAME_OPEN_OK || kind == FRAME_OPEN_ERR || kind == FRAME_DATA || kind == FRAME_CLOSE
}

/// Why a frame ends a client session, if it does.
pub open spec fn client_refuses(kind: u8, payload: Seq<u8>) -> Option<Seq<Seq<char>>> {
    if kind == FRAME_OPEN_ERR && utf8(payload) is None {
        Some(seq!["mux error is not valid UTF-8"@, utf8_fault(payload)])
    } else if is_for_client_stream(kind) || kind == FRAME_PING || kind == FRAME_PONG {
        None
    } else {
        Some(unexpected(kind))
    }
}

/// Why a frame ends a server session, if it does.
pub open spec fn server_refuses(kind: u8, payload: Seq<u8>) -> Option<Seq<Seq<char>>> {
    if kind == FRAME_OPEN {
        if utf8(payload) is None {
            Some(seq!["mux stream target is not valid UTF-8"@, utf8_fault(payload)])
        } else {
            None
        }
    } else if kind == FRAME_DATA || kind == FRAME_CLOSE || kind == FRAME_PING || kind
        == FRAME_PONG {
        None
    } else {
        Some(unexpected(kind))
    }
}

/// The numbers that a client gives to its streams, over all its sessions.
#[derive(Debug)]
pub struct MuxClient {
    pub next: u32,
}

impl MuxClient {
    /// A client without streams.
    pub fn new() -> (r: Self)
        ensures
            r.next == 1,
    {
        MuxClient { next: 1 }
    }

    /// The number of a new stream. Numbers start again at 0 behind the last.
    pub fn next_stream_id(&mut self) -> (r: u32)
        ensures
            r == old(self).next,
            final(self).next == (old(self).next + 1) % 0x1_0000_0000,
    {
        let id: u32 = self.next;
        self.next = if id == u32::MAX {
            0
        } else {
            id + 1
        };
        id
    }
}

/// The client side of a session: the streams that are in use.
#[derive(Debug)]
pub struct ClientSession {
    pub streams: IdSet,
    pub closed: bool,
}

impl ClientSession {
    /// A session without streams.
    pub fn new() -> (r: Self)
        ensures
            r.streams@ == Set::<u32>::empty(),
            !r.closed,
    {
        ClientSession { streams: IdSet::new(), closed: false }
    }

    /// Whether the session has ended.
    pub fn is_closed(&self) -> (r: bool)
        ensures
            r == self.closed,
    {
        self.closed
    }

    /// Takes a stream into use.
    pub fn add_client_stream(&mut self, id: u32)
        ensures
            final(self).streams@ == old(self).streams@.insert(id),
            final(self).closed == old(self).closed,
    {
        self.streams.insert(id);
    }

    /// Forgets a stream.
    pub fn remove_client_stream(&mut self, id: u32)
        ensures
            final(self).streams@ == old(self).streams@.remove(id),
            final(self).closed == old(self).closed,
    {
        self.streams.remove(id);
    }

    fn end(&mut self, failure: Option<Failure>) -> (r: ClientAction)
        ensures
            r matches ClientAction::End(ids, f) && ids@.no_duplicates() && ids@.to_set() == old(
                self,
            ).streams@ && f == failure,
            final(self).streams@ == Set::<u32>::empty(),
            final(self).closed,
    {
        self.closed = true;
        ClientAction::End(self.streams.drain(), failure)
    }

    fn dispatch_client_frame(&mut self, frame: Frame) -> (r: ClientAction)
        ensures
            match client_refuses(frame.kind, frame.payload@) {
                Some(e) => r matches ClientAction::End(ids, Some(f)) && f@ == e && ids@.no_duplicates() && ids@.to_set()
                    == old(self).streams@ && final(self).closed && final(self).streams@ == Set::<
                    u32,
                >::empty(),
                None => {
                    &&& *final(self) == *old(self)
                    &&& if is_for_client_stream(frame.kind) && old(self).streams@.contains(
                        frame.stream_id,
                    ) {
                        r matches ClientAction::Tell(id, event) && id == frame.stream_id && tells(
                            event,
                            frame.kind,
                            frame.payload@,
                        )
                    } else {
                        r is Nothing
                    }
                },
            },
    {
        let id: u32 = frame.stream_id;
        let event = if frame.kind == FRAME_OPEN_OK {
            StreamEvent::Opened
        } else if frame.kind == FRAME_OPEN_ERR {
            match read_utf8(frame.payload.as_slice()) {
                Ok(message) => StreamEvent::OpenError(message),
                Err(cause) => {
                    let f = Failure::caused("mux error is not valid UTF-8", cause.as_str());
                    return self.end(Some(f));
                },
            }
        } else if frame.kind == FRAME_DATA {
            StreamEvent::Data(frame.payload)
        } else if frame.kind == FRAME_CLOSE {
            StreamEvent::Closed
        } else if frame.kind == FRAME_PING || frame.kind == FRAME_PONG {
            return ClientAction::Nothing;
        } else {
            return self.end(Some(unexpected_frame(frame.kind)));
        };
        if self.streams.contains(id) {
            ClientAction::Tell(id, event)
        } else {
            ClientAction::Nothing
        }
    }

    /// What the client does at an event, and whether the time without frames
    /// starts again.
    pub fn run_client_session(&mut self, event: SessionEvent) -> (r: (ClientAction, bool))
        requires
            event matches SessionEvent::Outgoing(f) ==> f.payload@.len() <= u32::MAX,
        ensures
            r.1 == (event matches SessionEvent::Incoming(f) && client_refuses(f.kind, f.payload@)
                is None),
            match event {
                SessionEvent::Outgoing(f) => *final(self) == *old(self)
                    && (r.0 matches ClientAction::Write(b) && b@ == encoded(f@)),
                SessionEvent::Heartbeat => *final(self) == *old(self)
                    && (r.0 matches ClientAction::Queue(f) && f@ == bare_frame(FRAME_PING, 0)),
                SessionEvent::Incoming(f) => match client_refuses(f.kind, f.payload@) {
                    Some(e) => r.0 matches ClientAction::End(ids, Some(x)) && x@ == e && ids@.no_duplicates() && ids@.to_set()
                        == old(self).streams@ && final(self).closed && final(self).streams@
                        == Set::<u32>::empty(),
                    None => {
                        &&& *final(self) == *old(self)
                        &&& if f.kind == FRAME_PING {
                            r.0 matches ClientAction::Queue(p) && p@ == bare_frame(FRAME_PONG, 0)
                        } else if is_for_client_stream(f.kind) && old(self).streams@.contains(
                            f.stream_id,
                        ) {
                            r.0 matches ClientAction::Tell(id, t) && id == f.stream_id && tells(
                                t,
                                f.kind,
                                f.payload@,
                            )
                        } else {
                            r.0 is Nothing
                        }
                    },
                },
                _ => {
                    &&& r.0 matches ClientAction::End(ids, x)
                    &&& ids@.no_duplicates() && ids@.to_set() == old(self).streams@
                    &&& Some(failure_view(x)) == ends_with(event)
                    &&& final(self).closed
                    &&& final(self).streams@ == Set::<u32>::empty()
                },
            },
    {
        match event {
            SessionEvent::Outgoing(frame) => (ClientAction::Write(write_frame(&frame)), false),
            SessionEvent::QueueClosed => (self.end(None), false),
            SessionEvent::Incoming(frame) => {
                if frame.kind == FRAME_PING {
                    return (ClientAction::Queue(Frame::pong()), true);
                }
                let action = self.dispatch_client_frame(frame);
                let alive = match &action {
                    ClientAction::End(_, _) => false,
                    _ => true,
                };
                (action, alive)
            },
            SessionEvent::Broken(e) => (self.end(Some(e)), false),
            SessionEvent::Heartbeat => (ClientAction::Queue(Frame::ping()), false),
            SessionEvent::HeartbeatLost => (
                self.end(Some(Failure::new("mux session closed while sending keepalive"))),
                false,
            ),
            SessionEvent::Idle => (
                self.end(Some(Failure::new("mux session timed out waiting for peer activity"))),
                false,
            ),
        }
    }
}

/// The server side of a session: the streams that are connected.
#[derive(Debug)]
pub struct ServerSession {
    pub streams: IdSet,
}

impl ServerSession {
    /// A session without streams.
    pub fn new() -> (r: Self)
        ensures
            r.streams@ == Set::<u32>::empty(),
    {
        ServerSession { streams: IdSet::new() }
    }

    fn end(&mut self, failure: Option<Failure>) -> (r: ServerAction)
        ensures
            r matches ServerAction::End(ids, f) && ids@.no_duplicates() && ids@.to_set() == old(
                self,
            ).streams@ && f == failure,
            final(self).streams@ == Set::<u32>::empty(),
    {
        ServerAction::End(self.streams.drain(), failure)
    }

    fn take_frame(&mut self, frame: Frame) -> (r: ServerAction)
        ensures
            match server_refuses(frame.kind, frame.payload@) {
                Some(e) => r matches ServerAction::End(ids, Some(f)) && f@ == e && ids@.no_duplicates() && ids@.to_set()
                    == old(self).streams@ && final(self).streams@ == Set::<u32>::empty(),
                None => server_takes(
                    old(self).streams@,
                    frame.kind,
                    frame.stream_id,
                    frame.payload@,
                    r,
                    final(self).streams@,
                ),
            },
    {
        let id: u32 = frame.stream_id;
        if frame.kind == FRAME_OPEN {
            match read_utf8(frame.payload.as_slice()) {
                Err(cause) => {
                    let f = Failure::caused("mux stream target is not valid UTF-8", cause.as_str());
                    self.end(Some(f))
                },
                Ok(target) => {
                    if self.streams.contains(id) {
                        ServerAction::Queue(Frame::open_err(id, "duplicate stream id"))
                    } else {
                        ServerAction::Open(id, target)
                    }
                },
            }
        } else if frame.kind == FRAME_DATA {
            if self.streams.contains(id) {
                ServerAction::Data(id, frame.payload)
            } else {
                ServerAction::Nothing
            }
        } else if frame.kind == FRAME_CLOSE {
            if self.streams.remove(id) {
                ServerAction::Close(id)
            } else {
                assert(self.streams@ =~= old(self).streams@.remove(id));
                ServerAction::Nothing
            }
        } else if frame.kind == FRAME_PING {
            ServerAction::Queue(Frame::pong())
        } else if frame.kind == FRAME_PONG {
            ServerAction::Nothing
        } else {
            self.end(Some(unexpected_frame(frame.kind)))
        }
    }

    /// What the server does at an event, and whether the time without frames
    /// starts again. It does not at a frame that opens a stream twice.
    pub fn run_server_io(&mut self, event: SessionEvent) -> (r: (ServerAction, bool))
        requires
            event matches SessionEvent::Outgoing(f) ==> f.payload@.len() <= u32::MAX,
        ensures
            r.1 == (event matches SessionEvent::Incoming(f) && server_refuses(f.kind, f.payload@)
                is None && !(f.kind == FRAME_OPEN && old(self).streams@.contains(f.stream_id))),
            match event {
                SessionEvent::Outgoing(f) => *final(self) == *old(self)
                    && (r.0 matches ServerAction::Write(b) && b@ == encoded(f@)),
                SessionEvent::Heartbeat => *final(self) == *old(self)
                    && (r.0 matches ServerAction::Queue(f) && f@ == bare_frame(FRAME_PING, 0)),
                SessionEvent::Incoming(f) => match server_refuses(f.kind, f.payload@) {
                    Some(e) => r.0 matches ServerAction::End(ids, Some(x)) && x@ == e && ids@.no_duplicates() && ids@.to_set()
                        == old(self).streams@ && final(self).streams@ == Set::<u32>::empty(),
                    None => server_takes(
                        old(self).streams@,
                        f.kind,
                        f.stream_id,
                        f.payload@,
                        r.0,
                        final(self).streams@,
                    ),
                },
                _ => {
                    &&& r.0 matches ServerAction::End(ids, x)
                    &&& ids@.no_duplicates() && ids@.to_set() == old(self).streams@
                    &&& Some(failure_view(x)) == ends_with(event)
                    &&& final(self).streams@ == Set::<u32>::empty()
                },
            },
            event matches SessionEvent::Incoming(f) ==> f.kind == FRAME_DATA ==> final(self).streams@
                == old(self).streams@ && (if old(self).streams@.contains(f.stream_id) {
                r.0 matches ServerAction::Data(i, b) && i == f.stream_id && b@ == f.payload@
            } else {
                r.0 is Nothing
            }),
    {
        match event {
            SessionEvent::Outgoing(frame) => (ServerAction::Write(write_frame(&frame)), false),
            SessionEvent::QueueClosed => (self.end(None), false),
            SessionEvent::Incoming(frame) => {
                let twice = frame.kind == FRAME_OPEN && self.streams.contains(frame.stream_id);
                let action = self.take_frame(frame);
                let alive = match &action {
                    ServerAction::End(_, _) => false,
                    _ => !twice,
                };
                (action, alive)
            },
            SessionEvent::Broken(e) => (self.end(Some(e)), false),
            SessionEvent::Heartbeat => (ServerAction::Queue(Frame::ping()), false),
            SessionEvent::HeartbeatLost => (
                self.end(Some(Failure::new("mux session closed while sending keepalive"))),
                false,
            ),
            SessionEvent::Idle => (
                self.end(Some(Failure::new("mux session timed out waiting for peer activity"))),
                false,
            ),
        }
    }
}

/// What a server session with the given streams does with a frame that it does
/// not refuse, and which streams it has afterwards.
pub open spec fn server_takes(
    streams: Set<u32>,
    kind: u8,
    id: u32,
    payload: Seq<u8>,
    action: ServerAction,
    after: Set<u32>,
) -> bool {
    if kind == FRAME_OPEN {
        &&& after == streams
        &&& if streams.contains(id) {
            action matches ServerAction::Queue(f) && f@ == frame_with(
                FRAME_OPEN_ERR,
                id,
                at_most(bytes_of("duplicate stream id"@), MAX_CONTROL_PAYLOAD as int),
            )
        } else {
            action matches ServerAction::Open(i, target) && i == id && utf8(payload) == Some(
                target@,
            )
        }
    } else if kind == FRAME_DATA {
        &&& after == streams
        &&& if streams.contains(id) {
            action matches ServerAction::Data(i, b) && i == id && b@ == payload
        } else {
            action is Nothing
        }
    } else if kind == FRAME_CLOSE {
        &&& after == streams.remove(id)
        &&& if streams.contains(id) {
            action == ServerAction::Close(id)
        } else {
            action is Nothing
        }
    } else if kind == FRAME_PING {
        &&& after == streams
        &&& action matches ServerAction::Queue(f)
        &&& f@ == bare_frame(FRAME_PONG, 0)
    } else {
        after == streams && action is Nothing
    }
}

// ---------------------------------------------------------------------------
// Streams on the server

impl ServerSession {
    /// A stream is connected.
    pub fn register(&mut self, id: u32)
        ensures
            final(self).streams@ == old(self).streams@.insert(id),
    {
        self.streams.insert(id);
    }

    /// A stream has ended.
    pub fn unregister(&mut self, id: u32)
        ensures
            final(self).streams@ == old(self).streams@.remove(id),
    {
        self.streams.remove(id);
    }
}

/// The host of a target: what stands in brackets, or before the last colon.
pub open spec fn host_of(target: Seq<char>) -> Option<Seq<char>> {
    match after_prefix(target, "["@) {
        Some(rest) => match split_first(rest, "]"@) {
            Some((host, _)) => Some(host),
            None => None,
        },
        None => match split_last(target, ':') {
            Some((host, _)) => Some(host),
            None => None,
        },
    }
}

/// The host of a target: what stands in brackets, or before the last colon.
pub fn host_from_target(target: &str) -> (r: Option<String>)
    ensures
        crate::text::opt_view(r) == host_of(target@),
{
    match strip_prefix(target, "[") {
        Some(rest) => {
            proof {
                reveal_strlit("]");
            }
            match split_once(rest.as_str(), "]") {
                Some((host, _)) => Some(host),
                None => None,
            }
        },
        None => match rsplit_once(target, ':') {
            Some((host, _)) => Some(host),
            None => None,
        },
    }
}

/// Whether an address is one that streams are not opened to by default.
pub open spec fn private_ip(ip: IpAddr) -> bool {
    match ip {
        IpAddr::V4(n) => private_v4(n) || loopback(ip) || link_local_v4(n) || n == u32::MAX,
        IpAddr::V6(n) => loopback(ip) || unique_local_v6(n) || link_local_v6(n),
    }
}

/// Whether a target is written as such an address.
pub open spec fn private_literal(target: Seq<char>) -> bool {
    match host_of(target) {
        Some(host) => match ip_value(host) {
            Some(ip) => private_ip(ip),
            None => false,
        },
        None => false,
    }
}

/// Whether a target is written as an address that streams are not opened to by
/// default.
pub fn is_private_literal_target(target: &str) -> (r: bool)
    ensures
        r == private_literal(target@),
{
    match host_from_target(target) {
        None => false,
        Some(host) => match parse_ip(host.as_str()) {
            None => false,
            Some(ip) => match ip {
                IpAddr::V4(n) => is_private_range(n) || is_loopback(ip) || is_link_local_v4(n) || n
                    == u32::MAX,
                IpAddr::V6(n) => is_loopback(ip) || is_unique_local_v6(n) || is_link_local_v6(n),
            },
        },
    }
}

/// How far a stream on the server is.
#[derive(Clone, Copy, Debug, PartialEq, Eq, Structural)]
pub enum OpenStage {
    Start,
    Connecting,
    Answering,
    Relaying,
    Done,
}

/// What happens to a stream on the server.
#[derive(Debug)]
pub enum OpenEvent {
    /// The stream was asked for.
    Begin,
    /// The target was reached.
    Connected,
    /// The target could not be reached.
    ConnectFailed(String),
    /// The target was not reached in time.
    ConnectTimedOut,
    /// Whether the answer could be queued.
    Answered(bool),
    /// Bytes came from the target, at least one and no more than a frame may
    /// carry.
    FromTarget(Vec<u8>),
    /// The target has no more bytes.
    TargetClosed,
    /// A frame could not be queued.
    QueueGone,
    /// Bytes came for the target.
    ToTarget(Vec<u8>),
    /// The client closed the stream.
    CloseAsked,
    /// Reading or writing failed.
    Broken(Failure),
}

/// What is done for a stream on the server.
#[derive(Debug)]
pub enum OpenAction {
    Nothing,
    /// Connect to the target.
    Connect(String),
    /// Queue the frame, and leave it at that.
    Refuse(Frame),
    /// Register the stream, and queue the frame.
    Register(Frame),
    /// Unregister the stream.
    Abandon,
    /// Queue the frame.
    Queue(Frame),
    /// Write the bytes to the target.
    Write(Vec<u8>),
    /// Unregister the stream and queue the frame, after the target was told
    /// that no more comes, if so said.
    Finish(bool, Frame, Option<Failure>),
}

/// The frame that refuses a stream.
pub open spec fn refusal_frame(id: u32, message: Seq<char>) -> crate::mux::FrameView {
    frame_with(FRAME_OPEN_ERR, id, at_most(bytes_of(message), MAX_CONTROL_PAYLOAD as int))
}

/// Whether an action unregisters the stream and closes it for the client.
pub open spec fn finishes(
    action: OpenAction,
    id: u32,
    shutdown: bool,
    failure: Option<Seq<Seq<char>>>,
) -> bool {
    &&& action matches OpenAction::Finish(s, f, e)
    &&& s == shutdown
    &&& f@ == bare_frame(FRAME_CLOSE, id)
    &&& failure_view(e) == failure
}

/// What the server does for a stream when something happens to it, and how far
/// the stream is then.
pub fn handle_server_open(
    id: u32,
    target: &str,
    allow_private_targets: bool,
    stage: OpenStage,
    event: OpenEvent,
) -> (r: (OpenStage, OpenAction))
    requires
        event matches OpenEvent::FromTarget(b) ==> 1 <= b@.len() <= MAX_FRAME_PAYLOAD,
    ensures
        (stage, event) matches (OpenStage::Relaying, OpenEvent::FromTarget(_)) ==> (
        r.1 matches OpenAction::Queue(f) && 1 <= f@.payload.len() <= MAX_FRAME_PAYLOAD),
        match (stage, event) {
            (OpenStage::Start, OpenEvent::Begin) => if !allow_private_targets && private_literal(
                target@,
            ) {
                r.0 == OpenStage::Done && (r.1 matches OpenAction::Refuse(f) && f@ == refusal_frame(
                    id,
                    "literal private IP targets are disabled by default"@,
                ))
            } else {
                r.0 == OpenStage::Connecting && (r.1 matches OpenAction::Connect(t) && t@
                    == target@)
            },
            (OpenStage::Connecting, OpenEvent::Connected) => r.0 == OpenStage::Answering && (
            r.1 matches OpenAction::Register(f) && f@ == bare_frame(FRAME_OPEN_OK, id)),
            (OpenStage::Connecting, OpenEvent::ConnectFailed(e)) => r.0 == OpenStage::Done && (
            r.1 matches OpenAction::Refuse(f) && f@ == refusal_frame(id, "connect failed: "@ + e@)),
            (OpenStage::Connecting, OpenEvent::ConnectTimedOut) => r.0 == OpenStage::Done && (
            r.1 matches OpenAction::Refuse(f) && f@ == refusal_frame(
                id,
                "upstream connect timed out"@,
            )),
            (OpenStage::Answering, OpenEvent::Answered(queued)) => if queued {
                r == (OpenStage::Relaying, OpenAction::Nothing)
            } else {
                r == (OpenStage::Done, OpenAction::Abandon)
            },
            (OpenStage::Relaying, OpenEvent::FromTarget(b)) => r.0 == OpenStage::Relaying && (
            r.1 matches OpenAction::Queue(f) && f@ == frame_with(FRAME_DATA, id, b@)),
            (OpenStage::Relaying, OpenEvent::ToTarget(b)) => r == (
                OpenStage::Relaying,
                OpenAction::Write(b),
            ),
            (OpenStage::Relaying, OpenEvent::TargetClosed) => r.0 == OpenStage::Done && finishes(
                r.1,
                id,
                false,
                None,
            ),
            (OpenStage::Relaying, OpenEvent::CloseAsked) => r.0 == OpenStage::Done && finishes(
                r.1,
                id,
                true,
                None,
            ),
            (OpenStage::Relaying, OpenEvent::QueueGone) => r.0 == OpenStage::Done && finishes(
                r.1,
                id,
                false,
                Some(seq!["mux session closed while sending upstream data"@]),
            ),
            (OpenStage::Relaying, OpenEvent::Broken(e)) => r.0 == OpenStage::Done && finishes(
                r.1,
                id,
                false,
                Some(e@),
            ),
            _ => r == (stage, OpenAction::Nothing),
        },
{
    match stage {
        OpenStage::Start => match event {
            OpenEvent::Begin => {
                if !allow_private_targets && is_private_literal_target(target) {
                    let frame = Frame::open_err(
                        id,
                        "literal private IP targets are disabled by default",
                    );
                    return (OpenStage::Done, OpenAction::Refuse(frame));
                }
                (OpenStage::Connecting, OpenAction::Connect(target.to_owned()))
            },
            _ => (stage, OpenAction::Nothing),
        },
        OpenStage::Connecting => match event {
            OpenEvent::Connected => (OpenStage::Answering, OpenAction::Register(Frame::open_ok(id))),
            OpenEvent::ConnectFailed(e) => (
                OpenStage::Done,
                OpenAction::Refuse(
                    Frame::open_err(id, cat("connect failed: ", e.as_str()).as_str()),
                ),
            ),
            OpenEvent::ConnectTimedOut => (
                OpenStage::Done,
                OpenAction::Refuse(Frame::open_err(id, "upstream connect timed out")),
            ),
            _ => (stage, OpenAction::Nothing),
        },
        OpenStage::Answering => match event {
            OpenEvent::Answered(queued) => {
                if queued {
                    (OpenStage::Relaying, OpenAction::Nothing)
                } else {
                    (OpenStage::Done, OpenAction::Abandon)
                }
            },
            _ => (stage, OpenAction::Nothing),
        },
        OpenStage::Relaying => match event {
            OpenEvent::FromTarget(b) => (
                OpenStage::Relaying,
                OpenAction::Queue(Frame::data(id, b)),
            ),
            OpenEvent::ToTarget(b) => (OpenStage::Relaying, OpenAction::Write(b)),
            OpenEvent::TargetClosed => (
                OpenStage::Done,
                OpenAction::Finish(false, Frame::close(id), None),
            ),
            OpenEvent::CloseAsked => (
                OpenStage::Done,
                OpenAction::Finish(true, Frame::close(id), None),
            ),
            OpenEvent::QueueGone => (
                OpenStage::Done,
                OpenAction::Finish(
                    false,
                    Frame::close(id),
                    Some(Failure::new("mux session closed while sending upstream data")),
                ),
            ),
            OpenEvent::Broken(e) => (
                OpenStage::Done,
                OpenAction::Finish(false, Frame::close(id), Some(e)),
            ),
            _ => (stage, OpenAction::Nothing),
        },
        OpenStage::Done => (stage, OpenAction::Nothing),
    }
}

// ---------------------------------------------------------------------------
// The start of a session

/// The answer to a request that is not for a session.
pub open spec fn not_found() -> Seq<u8> {
    bytes_of(error_response_text(404, "Not Found"@, "not found\n"@))
}

fn send_not_found() -> (r: Vec<u8>)
    ensures
        r@ == not_found(),
{
    build_error_response(404, "Not Found", "not found\n")
}

/// What the server does about a request for a session.
#[derive(Debug)]
pub enum Gate {
    /// Read a body of so many bytes.
    ReadBody(usize),
    /// Send the bytes, and end the connection.
    Refuse(Vec<u8>),
    /// Send the bytes, and start the session.
    Accept(Vec<u8>),
}

/// What the server does about the head of a request for a session.
pub fn session_gate(head: &TunnelRequestHead) -> (r: Gate)
    ensures
        match head.content_length {
            Some(n) => if head.chunked {
                r matches Gate::Refuse(b) && b@ == not_found()
            } else {
                r == Gate::ReadBody(n)
            },
            None => r matches Gate::Refuse(b) && b@ == not_found(),
        },
{
    if head.chunked {
        return Gate::Refuse(send_not_found());
    }
    match head.content_length {
        Some(n) => Gate::ReadBody(n),
        None => Gate::Refuse(send_not_found()),
    }
}

/// The proof that a payload carries.
pub open spec fn payload_proof(p: TunnelPayload) -> crate::auth::ProofView {
    crate::auth::ProofView {
        timestamp: p.timestamp as int,
        nonce: p.nonce@,
        signature: p.signature@,
    }
}

/// What the tag of a payload for a target is held against.
pub open spec fn payload_tag(
    password: Seq<char>,
    path: Seq<char>,
    target: Seq<char>,
    p: TunnelPayload,
) -> Seq<u8> {
    tag_of(password, "POST"@, path, target, p.timestamp as int, p.nonce@)
}

/// Whether a payload starts a session: it is for one, and its proof is valid.
pub open spec fn starts_session(
    memory: Seq<(Seq<char>, int)>,
    ttl: int,
    now: int,
    password: Seq<char>,
    mux_path: Seq<char>,
    payload: Option<TunnelPayload>,
) -> bool {
    match payload {
        Some(p) => p.target@ == session_target() && verdict(
            memory,
            ttl,
            now,
            payload_tag(password, mux_path, session_target(), p),
            payload_proof(p),
        ) is None,
        None => false,
    }
}

/// What is remembered of nonces after a payload was looked at.
pub open spec fn session_memory(
    memory: Seq<(Seq<char>, int)>,
    ttl: int,
    now: int,
    password: Seq<char>,
    mux_path: Seq<char>,
    payload: Option<TunnelPayload>,
) -> Seq<(Seq<char>, int)> {
    match payload {
        Some(p) => if p.target@ == session_target() {
            remembered(
                memory,
                ttl,
                now,
                payload_tag(password, mux_path, session_target(), p),
                payload_proof(p),
            )
        } else {
            memory
        },
        None => memory,
    }
}

/// Whether an answer accepts a session, or refuses it.
pub open spec fn answers(gate: Gate, accepted: bool) -> bool {
    if accepted {
        gate matches Gate::Accept(b) && b@ == bytes_of(
            empty_response_text(200, "Connection Established"@),
        )
    } else {
        gate matches Gate::Refuse(b) && b@ == not_found()
    }
}

/// What the server does about the body of a request for a session, which is no
/// payload or one.
pub fn run_server_session_at(
    replay: &mut ReplayProtector,
    now: i64,
    password: &str,
    mux_path: &str,
    payload: Option<TunnelPayload>,
) -> (r: Gate)
    ensures
        answers(
            r,
            starts_session(
                old(replay)@,
                old(replay).ttl(),
                now as int,
                password@,
                mux_path@,
                payload,
            ),
        ),
        final(replay).ttl() == old(replay).ttl(),
        final(replay)@ == session_memory(
            old(replay)@,
            old(replay).ttl(),
            now as int,
            password@,
            mux_path@,
            payload,
        ),
{
    match payload {
        None => Gate::Refuse(send_not_found()),
        Some(p) => {
            if !same(p.target.as_str(), session_auth_target()) {
                return Gate::Refuse(send_not_found());
            }
            let proof = AuthProof {
                timestamp: p.timestamp,
                nonce: p.nonce,
                signature: p.signature,
            };
            match replay.validate_at(
                now,
                password,
                "POST",
                mux_path,
                session_auth_target(),
                &proof,
            ) {
                Err(_) => Gate::Refuse(send_not_found()),
                Ok(_) => Gate::Accept(build_tunnel_established()),
            }
        },
    }
}

/// What the server does about the body of a request for a session, now.
pub fn run_server_session(
    replay: &mut ReplayProtector,
    password: &str,
    mux_path: &str,
    payload: Option<TunnelPayload>,
) -> (r: Gate)
    ensures
        ({
            ||| answers(r, false) && final(replay)@ == old(replay)@
            ||| exists|now: int|
                final(replay)@ == #[trigger] session_memory(
                    old(replay)@,
                    old(replay).ttl(),
                    now,
                    password@,
                    mux_path@,
                    payload,
                ) && answers(
                    r,
                    starts_session(
                        old(replay)@,
                        old(replay).ttl(),
                        now,
                        password@,
                        mux_path@,
                        payload,
                    ),
                )
        }),
        final(replay).ttl() == old(replay).ttl(),
{
    match payload {
        None => Gate::Refuse(send_not_found()),
        Some(p) => match crate::crypto::unix_seconds() {
            Err(_) => Gate::Refuse(send_not_found()),
            Ok(now) => run_server_session_at(replay, now, password, mux_path, Some(p)),
        },
    }
}

/// What a response head says: whether it is HTTP/1, the status and the reason.
pub open spec fn response_parts(head: Seq<u8>) -> Result<
    (bool, int, Seq<char>),
    Seq<Seq<char>>,
> {
    match response_error(head) {
        Some(e) => Err(response_fault(head, e)),
        None => {
            let w = words_of(status_line(utf8(head)->0));
            Ok(
                (
                    begins_with(w[0], "HTTP/1."@),
                    unsigned_value(w[1], u16::MAX as int)->0,
                    joined(w.skip(2), " "@),
                ),
            )
        },
    }
}

/// What is told of a fault before the server answers the request for a session.
pub open spec fn session_fault_text(fault: RemoteFault) -> Seq<Seq<char>> {
    match fault {
        RemoteFault::ConnectTimedOut => timed_out("mux server connect timed out"@),
        RemoteFault::HandshakeFailed(e) => e@,
        RemoteFault::HandshakeTimedOut => timed_out("mux TLS handshake timed out"@),
        RemoteFault::ResponseFailed(e) => e@,
        RemoteFault::ResponseTimedOut => timed_out("mux session response timed out"@),
    }
}

/// The failure of a session at such a fault.
pub fn session_failure(fault: RemoteFault) -> (r: Failure)
    ensures
        r@ == session_fault_text(fault),
{
    match fault {
        RemoteFault::ConnectTimedOut => Failure::timed_out("mux server connect timed out"),
        RemoteFault::HandshakeFailed(e) => e,
        RemoteFault::HandshakeTimedOut => Failure::timed_out("mux TLS handshake timed out"),
        RemoteFault::ResponseFailed(e) => e,
        RemoteFault::ResponseTimedOut => Failure::timed_out("mux session response timed out"),
    }
}

/// Why the answer to a request for a session does not start one, if so.
pub open spec fn answer_fault(head: Seq<u8>) -> Option<Seq<Seq<char>>> {
    match response_parts(head) {
        Err(e) => Some(seq!["invalid mux session response"@] + e),
        Ok((http1, status, reason)) => if !http1 {
            Some(seq!["mux server returned an unsupported HTTP version"@])
        } else if status != 200 {
            Some(
                seq![
                    "mux server refused session with status "@ + decimal(status as nat) + " "@
                        + reason,
                ],
            )
        } else {
            None
        },
    }
}

/// Fails unless the answer to a request for a session starts one.
pub fn check_session_answer(head: &[u8]) -> (r: Result<(), Failure>)
    ensures
        match (outcome(r), answer_fault(head@)) {
            (Ok(_), None) => true,
            (Err(e), Some(f)) => e == f,
            _ => false,
        },
{
    match parse_tunnel_response(head) {
        Err(e) => {
            Err(explain_response(head, e).context("invalid mux session response"))
        },
        Ok((http1, status, reason)) => {
            if !http1 {
                return Err(Failure::new("mux server returned an unsupported HTTP version"));
            }
            if status != 200 {
                return Err(
                    Failure::new(
                        cat(
                            cat3(
                                "mux server refused session with status ",
                                to_decimal(status as u64).as_str(),
                                " ",
                            ).as_str(),
                            reason.as_str(),
                        ).as_str(),
                    ),
                );
            }
            Ok(())
        },
    }
}

/// Whether the payload of a request for a session tells what was signed, or fails
/// as signing did.
pub open spec fn tells_signed(
    r: Result<TunnelPayload, Failure>,
    signed: Result<ProofView, Seq<Seq<char>>>,
) -> bool {
    match (r, signed) {
        (Ok(p), Ok(v)) => p.target@ == session_target() && payload_proof(p) == v,
        (Err(e), Err(f)) => e@ == f,
        _ => false,
    }
}

/// The payload of a request for a session, for what came of signing it.
pub fn session_payload_with(signed: Result<AuthProof, Failure>) -> (r: Result<
    TunnelPayload,
    Failure,
>)
    ensures
        tells_signed(r, proof_views(signed)),
{
    match signed {
        Err(e) => Err(e),
        Ok(proof) => Ok(
            TunnelPayload {
                target: session_auth_target().to_owned(),
                timestamp: proof.timestamp,
                nonce: proof.nonce,
                signature: proof.signature,
            },
        ),
    }
}

/// The payload of a request for a session, signed now with a nonce of 16 fresh
/// random bytes. There is none only where the clock stands before the epoch or no
/// random bytes can be had.
pub fn session_payload(password: &str, mux_path: &str) -> (r: Result<TunnelPayload, Failure>)
    ensures
        r matches Ok(p) ==> {
            &&& p.target@ == session_target()
            &&& carries(payload_proof(p), payload_tag(password@, mux_path@, session_target(), p))
        },
        exists|clock: Result<i64, Seq<char>>, random: Result<Seq<u8>, Seq<char>>|
            drawn(random, 16) && tells_signed(
                r,
                #[trigger] proof_with(
                    password@,
                    "POST"@,
                    mux_path@,
                    session_target(),
                    clock,
                    random,
                ),
            ),
{
    session_payload_with(AuthProof::sign(password, "POST", mux_path, session_auth_target()))
}

// ---------------------------------------------------------------------------
// Streams on the client

/// How far a connection of the client is.
#[derive(Debug)]
pub enum ClientStage {
    Handshake,
    Routing(TargetAddr),
    Joining(TargetAddr),
    Queueing(u32),
    Opening(u32),
    Answering(u32),
    Relaying(u32),
    Done,
}

/// What happens to a connection of the client.
#[derive(Debug)]
pub enum ClientEvent {
    /// The target is known.
    Accepted(TargetAddr),
    /// A step before the stream was opened failed.
    Failed(Failure),
    /// The route is known.
    Decided(RouteDecision),
    /// There is a session, in which the stream has a number.
    Joined(u32),
    /// Whether the frame that opens the stream could be queued.
    Queued(bool),
    /// The stream was not opened in time.
    OpenTimedOut,
    /// The stream was told something, or will be told nothing more.
    Told(Option<StreamEvent>),
    /// The application took the answer to its request.
    Answered,
    /// Bytes came from the application, at least one and no more than a frame may
    /// carry.
    FromApp(Vec<u8>),
    /// The application has no more bytes.
    AppClosed,
    /// Writing to the application failed.
    Broken(Failure),
}

/// What is done for a connection of the client.
#[derive(Debug)]
pub enum ClientMove {
    Nothing,
    /// Find the route of the target.
    Decide,
    /// Relay directly to the target.
    RelayDirect(TargetAddr),
    /// Get a session and a number in it.
    Join,
    /// Queue the frame.
    Queue(Frame),
    /// Send the bytes to the application.
    Send(Vec<u8>),
    /// End the connection: forget the stream, send the bytes, fail.
    Fail(Option<u32>, Vec<u8>, Failure),
    /// End the connection: forget the stream, queue the frame.
    Finish(u32, Frame, Option<Failure>),
}

/// Whether a move ends a connection that got no stream.
pub open spec fn fails(
    step: ClientMove,
    forget: Option<u32>,
    reply: bool,
    failure: Seq<Seq<char>>,
) -> bool {
    &&& step matches ClientMove::Fail(id, b, e)
    &&& id == forget
    &&& b@ == if reply {
        plain_reply(REP_GENERAL_FAILURE)
    } else {
        seq![]
    }
    &&& e@ == failure
}

/// Whether a move ends a connection that had a stream.
pub open spec fn leaves(step: ClientMove, id: u32, failure: Option<Seq<Seq<char>>>) -> bool {
    &&& step matches ClientMove::Finish(i, f, e)
    &&& i == id
    &&& f@ == bare_frame(FRAME_CLOSE, id)
    &&& failure_view(e) == failure
}

fn refuse(forget: Option<u32>, message: &str) -> (r: ClientMove)
    ensures
        fails(r, forget, true, seq![message@]),
{
    ClientMove::Fail(forget, send_failure(REP_GENERAL_FAILURE), Failure::new(message))
}

/// What the client does for a connection when something happens to it, and how
/// far the connection is then.
pub fn handle_client_connection(stage: ClientStage, event: ClientEvent) -> (r: (
    ClientStage,
    ClientMove,
))
    requires
        event matches ClientEvent::FromApp(b) ==> 1 <= b@.len() <= MAX_FRAME_PAYLOAD,
    ensures
        (stage, event) matches (ClientStage::Relaying(_), ClientEvent::FromApp(_)) ==> (
        r.1 matches ClientMove::Queue(f) && 1 <= f@.payload.len() <= MAX_FRAME_PAYLOAD),
        match (stage, event) {
            (ClientStage::Handshake, ClientEvent::Accepted(t)) => r == (
                ClientStage::Routing(t),
                ClientMove::Decide,
            ),
            (ClientStage::Handshake, ClientEvent::Failed(e)) => r.0 is Done && fails(
                r.1,
                None,
                false,
                e@,
            ),
            (ClientStage::Routing(_), ClientEvent::Failed(e)) => r.0 is Done && fails(
                r.1,
                None,
                false,
                e@,
            ),
            (ClientStage::Routing(t), ClientEvent::Decided(d)) => match d {
                RouteDecision::Direct => r == (ClientStage::Done, ClientMove::RelayDirect(t)),
                RouteDecision::Block => r.0 is Done && fails(
                    r.1,
                    None,
                    true,
                    seq!["target blocked by proxy control: "@ + target_text(t@)],
                ),
                RouteDecision::Remote => r == (ClientStage::Joining(t), ClientMove::Join),
            },
            (ClientStage::Joining(_), ClientEvent::Failed(e)) => r.0 is Done && fails(
                r.1,
                None,
                false,
                e@,
            ),
            (ClientStage::Joining(t), ClientEvent::Joined(id)) => r.0 == ClientStage::Queueing(id)
                && (r.1 matches ClientMove::Queue(f) && f@ == frame_with(
                FRAME_OPEN,
                id,
                bytes_of(target_text(t@)),
            )),
            (ClientStage::Queueing(id), ClientEvent::Queued(true)) => r == (
                ClientStage::Opening(id),
                ClientMove::Nothing,
            ),
            (ClientStage::Queueing(id), ClientEvent::Queued(false)) => r.0 is Done && fails(
                r.1,
                Some(id),
                true,
                seq!["mux session is not available"@],
            ),
            (ClientStage::Opening(id), ClientEvent::OpenTimedOut) => r.0 is Done && fails(
                r.1,
                None,
                false,
                timed_out("mux stream open timed out"@),
            ),
            (ClientStage::Opening(id), ClientEvent::Told(Some(StreamEvent::Opened))) => r.0
                == ClientStage::Answering(id) && (r.1 matches ClientMove::Send(b) && b@
                == plain_reply(0)),
            (ClientStage::Answering(id), ClientEvent::Answered) => r == (
                ClientStage::Relaying(id),
                ClientMove::Nothing,
            ),
            (ClientStage::Answering(_), ClientEvent::Broken(e)) => r.0 is Done && fails(
                r.1,
                None,
                false,
                e@,
            ),
            (ClientStage::Opening(id), ClientEvent::Told(Some(StreamEvent::OpenError(m)))) => r.0
                is Done && fails(r.1, Some(id), true, seq!["mux server refused stream: "@ + m@]),
            (ClientStage::Opening(id), ClientEvent::Told(Some(StreamEvent::Data(_)))) => r.0 is Done
                && fails(
                r.1,
                Some(id),
                true,
                seq!["mux session sent data before stream open completed"@],
            ),
            (ClientStage::Opening(id), ClientEvent::Told(_)) => r.0 is Done && fails(
                r.1,
                Some(id),
                true,
                seq!["mux session closed while opening stream"@],
            ),
            (ClientStage::Relaying(id), ClientEvent::FromApp(b)) => r.0 == ClientStage::Relaying(id)
                && (r.1 matches ClientMove::Queue(f) && f@ == frame_with(FRAME_DATA, id, b@)),
            (ClientStage::Relaying(id), ClientEvent::AppClosed) => r.0 == ClientStage::Relaying(id)
                && (r.1 matches ClientMove::Queue(f) && f@ == bare_frame(FRAME_CLOSE, id)),
            (ClientStage::Relaying(id), ClientEvent::Told(Some(StreamEvent::Opened))) => r == (
                ClientStage::Relaying(id),
                ClientMove::Nothing,
            ),
            (ClientStage::Relaying(id), ClientEvent::Told(Some(StreamEvent::Data(b)))) => r == (
                ClientStage::Relaying(id),
                ClientMove::Send(b),
            ),
            (ClientStage::Relaying(id), ClientEvent::Told(Some(StreamEvent::OpenError(m)))) => r.0
                is Done && leaves(r.1, id, Some(seq!["mux stream failed after open: "@ + m@])),
            (ClientStage::Relaying(id), ClientEvent::Told(_)) => r.0 is Done && leaves(
                r.1,
                id,
                None,
            ),
            (ClientStage::Relaying(id), ClientEvent::Broken(e)) => r.0 is Done && leaves(
                r.1,
                id,
                Some(e@),
            ),
            _ => r == (stage, ClientMove::Nothing),
        },
{
    match stage {
        ClientStage::Handshake => match event {
            ClientEvent::Accepted(t) => (ClientStage::Routing(t), ClientMove::Decide),
            ClientEvent::Failed(e) => (ClientStage::Done, ClientMove::Fail(None, Vec::new(), e)),
            _ => (ClientStage::Handshake, ClientMove::Nothing),
        },
        ClientStage::Routing(t) => match event {
            ClientEvent::Failed(e) => (ClientStage::Done, ClientMove::Fail(None, Vec::new(), e)),
            ClientEvent::Decided(d) => match d {
                RouteDecision::Direct => (ClientStage::Done, ClientMove::RelayDirect(t)),
                RouteDecision::Block => (
                    ClientStage::Done,
                    refuse(
                        None,
                        cat("target blocked by proxy control: ", t.to_text().as_str()).as_str(),
                    ),
                ),
                RouteDecision::Remote => (ClientStage::Joining(t), ClientMove::Join),
            },
            _ => (ClientStage::Routing(t), ClientMove::Nothing),
        },
        ClientStage::Joining(t) => match event {
            ClientEvent::Failed(e) => (ClientStage::Done, ClientMove::Fail(None, Vec::new(), e)),
            ClientEvent::Joined(id) => (
                ClientStage::Queueing(id),
                ClientMove::Queue(Frame::open(id, t.to_text())),
            ),
            _ => (ClientStage::Joining(t), ClientMove::Nothing),
        },
        ClientStage::Queueing(id) => match event {
            ClientEvent::Queued(queued) => {
                if queued {
                    (ClientStage::Opening(id), ClientMove::Nothing)
                } else {
                    (ClientStage::Done, refuse(Some(id), "mux session is not available"))
                }
            },
            _ => (ClientStage::Queueing(id), ClientMove::Nothing),
        },
        ClientStage::Opening(id) => match event {
            ClientEvent::OpenTimedOut => (
                ClientStage::Done,
                ClientMove::Fail(None, Vec::new(), Failure::timed_out("mux stream open timed out")),
            ),
            ClientEvent::Told(told) => match told {
                Some(StreamEvent::Opened) => (
                    ClientStage::Answering(id),
                    ClientMove::Send(send_success()),
                ),
                Some(StreamEvent::OpenError(m)) => (
                    ClientStage::Done,
                    refuse(Some(id), cat("mux server refused stream: ", m.as_str()).as_str()),
                ),
                Some(StreamEvent::Data(_)) => (
                    ClientStage::Done,
                    refuse(Some(id), "mux session sent data before stream open completed"),
                ),
                _ => (
                    ClientStage::Done,
                    refuse(Some(id), "mux session closed while opening stream"),
                ),
            },
            _ => (ClientStage::Opening(id), ClientMove::Nothing),
        },
        ClientStage::Answering(id) => match event {
            ClientEvent::Answered => (ClientStage::Relaying(id), ClientMove::Nothing),
            ClientEvent::Broken(e) => (ClientStage::Done, ClientMove::Fail(None, Vec::new(), e)),
            _ => (ClientStage::Answering(id), ClientMove::Nothing),
        },
        ClientStage::Relaying(id) => match event {
            ClientEvent::FromApp(b) => (
                ClientStage::Relaying(id),
                ClientMove::Queue(Frame::data(id, b)),
            ),
            ClientEvent::AppClosed => (
                ClientStage::Relaying(id),
                ClientMove::Queue(Frame::close(id)),
            ),
            ClientEvent::Told(told) => match told {
                Some(StreamEvent::Opened) => (ClientStage::Relaying(id), ClientMove::Nothing),
                Some(StreamEvent::Data(b)) => (ClientStage::Relaying(id), ClientMove::Send(b)),
                Some(StreamEvent::OpenError(m)) => (
                    ClientStage::Done,
                    ClientMove::Finish(
                        id,
                        Frame::close(id),
                        Some(
                            Failure::new(
                                cat("mux stream failed after open: ", m.as_str()).as_str(),
                            ),
                        ),
                    ),
                ),
                _ => (ClientStage::Done, ClientMove::Finish(id, Frame::close(id), None)),
            },
            ClientEvent::Broken(e) => (
                ClientStage::Done,
                ClientMove::Finish(id, Frame::close(id), Some(e)),
            ),
            _ => (ClientStage::Relaying(id), ClientMove::Nothing),
        },
        ClientStage::Done => (ClientStage::Done, ClientMove::Nothing),
    }
}

// ---------------------------------------------------------------------------
// Laws

/// A frame that does not end the session leaves all streams alone but its own.
pub proof fn frames_touch_only_their_stream(
    streams: Set<u32>,
    kind: u8,
    id: u32,
    payload: Seq<u8>,
    action: ServerAction,
    after: Set<u32>,
    other: u32,
)
    requires
        server_takes(streams, kind, id, payload, action, after),
        other != id,
    ensures
        after.contains(other) == streams.contains(other),
        action matches ServerAction::Open(i, _) ==> i != other,
        action matches ServerAction::Data(i, _) ==> i != other,
        action matches ServerAction::Close(i) ==> i != other,
{
}

/// No stream is opened while one with its number is connected, and bytes reach
/// connected streams only.
pub proof fn streams_are_opened_once(
    streams: Set<u32>,
    kind: u8,
    id: u32,
    payload: Seq<u8>,
    action: ServerAction,
    after: Set<u32>,
)
    requires
        server_takes(streams, kind, id, payload, action, after),
    ensures
        action matches ServerAction::Open(i, _) ==> !streams.contains(i),
        action matches ServerAction::Data(i, _) ==> streams.contains(i),
        action matches ServerAction::Close(i) ==> streams.contains(i) && !after.contains(i),
{
}

/// The number of the stream that a client opens after so many others.
pub open spec fn stream_number(first: u32, opened: nat) -> int
    decreases opened,
{
    if opened == 0 {
        first as int
    } else {
        (stream_number(first, (opened - 1) as nat) + 1) % 0x1_0000_0000
    }
}

proof fn lemma_stream_number(first: u32, opened: nat)
    ensures
        stream_number(first, opened) == (first + opened) % 0x1_0000_0000,
    decreases opened,
{
    if opened > 0 {
        lemma_stream_number(first, (opened - 1) as nat);
    }
}

/// No two of four billion streams in a row have the same number.
pub proof fn streams_have_their_own_numbers(first: u32, i: nat, j: nat)
    requires
        i < j < i + 0x1_0000_0000,
    ensures
        stream_number(first, i) != stream_number(first, j),
{
    lemma_stream_number(first, i);
    lemma_stream_number(first, j);
}

/// The frames in which bytes of a stream travel, as they were read piece by piece.
pub open spec fn data_frames(id: u32, pieces: Seq<Seq<u8>>) -> Seq<FrameView> {
    pieces.map_values(|b: Seq<u8>| frame_with(FRAME_DATA, id, b))
}

/// The frames of a stream carry its number and all its bytes in order, and the
/// other side takes each of them.
pub proof fn data_arrives(id: u32, pieces: Seq<Seq<u8>>)
    requires
        forall|i: int|
            0 <= i < pieces.len() ==> 1 <= (#[trigger] pieces[i]).len() <= MAX_FRAME_PAYLOAD,
    ensures
        data_frames(id, pieces).map_values(|f: FrameView| f.payload).flatten() == pieces.flatten(),
        forall|i: int|
            0 <= i < pieces.len() ==> {
                let f = #[trigger] data_frames(id, pieces)[i];
                &&& f.stream_id == id
                &&& f.payload == pieces[i]
                &&& forall|rest: Seq<u8>| #[trigger]
                    received(encoded(f) + rest, MAX_FRAME_PAYLOAD as int) == (Received::Complete { frame: f, skipped: 0, used: encoded(f).len() as int })
            },
{
    assert(data_frames(id, pieces).map_values(|f: FrameView| f.payload) =~= pieces);
    assert forall|i: int| 0 <= i < pieces.len() implies {
        let f = #[trigger] data_frames(id, pieces)[i];
        &&& f.stream_id == id
        &&& f.payload == pieces[i]
        &&& forall|rest: Seq<u8>| #[trigger]
            received(encoded(f) + rest, MAX_FRAME_PAYLOAD as int) == (Received::Complete { frame: f, skipped: 0, used: encoded(f).len() as int })
    } by {
        let f = data_frames(id, pieces)[i];
        assert forall|rest: Seq<u8>| #[trigger]
            received(encoded(f) + rest, MAX_FRAME_PAYLOAD as int) == (Received::Complete { frame: f, skipped: 0, used: encoded(f).len() as int }) by {
            let none = Seq::<u8>::empty();
            assert(none + encoded(f) + rest =~= encoded(f) + rest);
            frame_reads_back(none, f, rest, MAX_FRAME_PAYLOAD as int);
        }
    }
}

/// A session that was accepted is not accepted again with the same payload.
pub proof fn sessions_start_once(
    memory: Seq<(Seq<char>, int)>,
    ttl: int,
    now: int,
    password: Seq<char>,
    mux_path: Seq<char>,
    payload: TunnelPayload,
    later: int,
)
    requires
        starts_session(memory, ttl, now, password, mux_path, Some(payload)),
    ensures
        !starts_session(
            session_memory(memory, ttl, now, password, mux_path, Some(payload)),
            ttl,
            later,
            password,
            mux_path,
            Some(payload),
        ),
{
    let proof_view = payload_proof(payload);
    let m = session_memory(memory, ttl, now, password, mux_path, Some(payload));
    assert(m.last() == (proof_view.nonce, proof_view.timestamp));
    let k = kept(m, later - ttl);
    if in_window(later, proof_view.timestamp, ttl) {
        assert(k.last() == m.last());
        assert(knows(k, proof_view.nonce)) by {
            assert(k[k.len() - 1].0 == proof_view.nonce);
        }
    }
}

/// What an application sends is what the server writes to the target: the client
/// queues a frame, the session writes it, and the server session that reads it
/// hands its bytes to the stream.
pub proof fn uploads_reach_the_target(
    id: u32,
    bytes: Vec<u8>,
    queued: (ClientStage, ClientMove),
    got: Frame,
    server: &mut ServerSession,
    taken: (ServerAction, bool),
    target: &str,
    allow: bool,
    written: (OpenStage, OpenAction),
)
    requires
        1 <= bytes@.len() <= MAX_FRAME_PAYLOAD,
        call_ensures(
            handle_client_connection,
            (ClientStage::Relaying(id), ClientEvent::FromApp(bytes)),
            queued,
        ),
        got@ == (queued.1->Queue_0)@,
        old(server).streams@.contains(id),
        call_ensures(ServerSession::run_server_io, (server, SessionEvent::Incoming(got)), taken),
        call_ensures(
            handle_server_open,
            (id, target, allow, OpenStage::Relaying, OpenEvent::ToTarget(taken.0->Data_1)),
            written,
        ),
    ensures
        queued.0 == ClientStage::Relaying(id) && queued.1 is Queue,
        taken.0 matches ServerAction::Data(i, b) && i == id && b@ == bytes@,
        taken.1,
        final(server).streams@ == old(server).streams@,
        written.1 matches OpenAction::Write(b) && b@ == bytes@,
        written.0 == OpenStage::Relaying,
{
}

/// A data frame for a stream that is connected hands its bytes to that stream, and
/// one for another stream does nothing.
pub proof fn data_frames_reach_their_stream(
    server: &mut ServerSession,
    frame: Frame,
    r: (ServerAction, bool),
)
    requires
        frame.kind == FRAME_DATA,
        call_ensures(ServerSession::run_server_io, (server, SessionEvent::Incoming(frame)), r),
    ensures
        old(server).streams@.contains(frame.stream_id) ==> (r.0 matches ServerAction::Data(i, b) && i
            == frame.stream_id && b@ == frame.payload@),
        !old(server).streams@.contains(frame.stream_id) ==> r.0 is Nothing,
        r.1,
{
}

/// All the bytes that are sent for a stream are handed to it, in order.
pub proof fn all_uploaded_bytes_arrive(
    streams: Set<u32>,
    id: u32,
    pieces: Seq<Seq<u8>>,
    actions: Seq<ServerAction>,
)
    requires
        streams.contains(id),
        actions.len() == pieces.len(),
        forall|i: int|
            0 <= i < pieces.len() ==> server_takes(
                streams,
                (#[trigger] data_frames(id, pieces)[i]).kind,
                data_frames(id, pieces)[i].stream_id,
                data_frames(id, pieces)[i].payload,
                actions[i],
                streams,
            ),
    ensures
        forall|i: int| 0 <= i < pieces.len() ==> #[trigger] actions[i] is Data,
        actions.map_values(|a: ServerAction| a->Data_1@).flatten() == pieces.flatten(),
{
    let handed = actions.map_values(|a: ServerAction| a->Data_1@);
    assert forall|i: int| 0 <= i < pieces.len() implies #[trigger] actions[i] is Data && handed[i]
        == pieces[i] by {
        let f = data_frames(id, pieces)[i];
        assert(f == frame_with(FRAME_DATA, id, pieces[i]));
    }
    assert(handed =~= pieces);
}

/// What the target sends is what the application gets.
pub proof fn downloads_reach_the_application(
    id: u32,
    target: &str,
    allow: bool,
    bytes: Vec<u8>,
    queued: (OpenStage, OpenAction),
    got: Frame,
    client: &mut ClientSession,
    told: (ClientAction, bool),
    shown: (ClientStage, ClientMove),
)
    requires
        1 <= bytes@.len() <= MAX_FRAME_PAYLOAD,
        call_ensures(
            handle_server_open,
            (id, target, allow, OpenStage::Relaying, OpenEvent::FromTarget(bytes)),
            queued,
        ),
        got@ == (queued.1->Queue_0)@,
        old(client).streams@.contains(id),
        call_ensures(ClientSession::run_client_session, (client, SessionEvent::Incoming(got)), told),
        call_ensures(
            handle_client_connection,
            (ClientStage::Relaying(id), ClientEvent::Told(Some(told.0->Tell_1))),
            shown,
        ),
    ensures
        queued.0 == OpenStage::Relaying && queued.1 is Queue,
        told.0 is Tell && told.0->Tell_0 == id,
        told.1,
        *final(client) == *old(client),
        shown.0 == ClientStage::Relaying(id),
        shown.1 matches ClientMove::Send(b) && b@ == bytes@,
{
}

/// The stream that a client asks for is opened to the target that the application
/// named, unless its number is in use or the target is an address out of bounds.
pub proof fn streams_are_opened_to_their_targets(
    target: TargetAddr,
    id: u32,
    asked: (ClientStage, ClientMove),
    got: Frame,
    server: &mut ServerSession,
    taken: (ServerAction, bool),
    text: &str,
    allow: bool,
    begun: (OpenStage, OpenAction),
)
    requires
        call_ensures(
            handle_client_connection,
            (ClientStage::Joining(target), ClientEvent::Joined(id)),
            asked,
        ),
        got@ == (asked.1->Queue_0)@,
        !old(server).streams@.contains(id),
        call_ensures(ServerSession::run_server_io, (server, SessionEvent::Incoming(got)), taken),
        text@ == (taken.0->Open_1)@,
        call_ensures(
            handle_server_open,
            (id, text, allow, OpenStage::Start, OpenEvent::Begin),
            begun,
        ),
    ensures
        asked.0 == ClientStage::Queueing(id) && asked.1 is Queue,
        taken.0 is Open && taken.0->Open_0 == id,
        text@ == target_text(target@),
        allow || !private_literal(text@) ==> begun.0 == OpenStage::Connecting && (
        begun.1 matches OpenAction::Connect(t) && t@ == target_text(target@)),
        !allow && private_literal(text@) ==> begun.0 == OpenStage::Done && begun.1 is Refuse,
{
    lemma_utf8_reads_back(target_text(target@));
}

/// A frame that asks for a stream opens one to the target that it names.
pub proof fn open_frames_open_streams(
    server: &mut ServerSession,
    id: u32,
    target: String,
    sent: Frame,
    got: Frame,
    r: (ServerAction, bool),
)
    requires
        call_ensures(Frame::open, (id, target), sent),
        got@ == sent@,
        !old(server).streams@.contains(id),
        call_ensures(ServerSession::run_server_io, (server, SessionEvent::Incoming(got)), r),
    ensures
        r.0 matches ServerAction::Open(i, t) && i == id && t@ == target@,
        r.1,
{
    lemma_utf8_reads_back(target@);
}

/// Once the target is reached the client answers the application with success, and
/// then relays.
pub proof fn reached_targets_are_answered(
    id: u32,
    target: &str,
    allow: bool,
    reached: (OpenStage, OpenAction),
    got: Frame,
    client: &mut ClientSession,
    told: (ClientAction, bool),
    shown: (ClientStage, ClientMove),
    relaying: (ClientStage, ClientMove),
)
    requires
        call_ensures(
            handle_server_open,
            (id, target, allow, OpenStage::Connecting, OpenEvent::Connected),
            reached,
        ),
        got@ == (reached.1->Register_0)@,
        old(client).streams@.contains(id),
        call_ensures(ClientSession::run_client_session, (client, SessionEvent::Incoming(got)), told),
        call_ensures(
            handle_client_connection,
            (ClientStage::Opening(id), ClientEvent::Told(Some(told.0->Tell_1))),
            shown,
        ),
        call_ensures(
            handle_client_connection,
            (ClientStage::Answering(id), ClientEvent::Answered),
            relaying,
        ),
    ensures
        reached.0 == OpenStage::Answering && reached.1 is Register,
        told.0 is Tell && told.0->Tell_0 == id && told.0->Tell_1 is Opened,
        shown.1 matches ClientMove::Send(b) && b@ == seq![5u8, 0, 0, 1, 0, 0, 0, 0, 0, 0],
        shown.0 == ClientStage::Answering(id),
        relaying == (ClientStage::Relaying(id), ClientMove::Nothing),
{
    crate::proxy::socks5::replies_without_an_address(0);
}

/// Why a target could not be reached is what the client fails with, and the
/// application is told of a failure.
pub proof fn refusals_reach_the_application(
    id: u32,
    target: &str,
    allow: bool,
    why: String,
    refused: (OpenStage, OpenAction),
    got: Frame,
    client: &mut ClientSession,
    told: (ClientAction, bool),
    shown: (ClientStage, ClientMove),
)
    requires
        bytes_of("connect failed: "@ + why@).len() <= MAX_CONTROL_PAYLOAD,
        call_ensures(
            handle_server_open,
            (id, target, allow, OpenStage::Connecting, OpenEvent::ConnectFailed(why)),
            refused,
        ),
        got@ == (refused.1->Refuse_0)@,
        old(client).streams@.contains(id),
        call_ensures(ClientSession::run_client_session, (client, SessionEvent::Incoming(got)), told),
        call_ensures(
            handle_client_connection,
            (ClientStage::Opening(id), ClientEvent::Told(Some(told.0->Tell_1))),
            shown,
        ),
    ensures
        refused.0 == OpenStage::Done && refused.1 is Refuse,
        told.0 is Tell && told.0->Tell_0 == id,
        shown.0 is Done,
        shown.1 matches ClientMove::Fail(forget, reply, e) && forget == Some(id) && reply@.len() > 1
            && reply@[1] == 1 && e@ == seq!["mux server refused stream: "@ + ("connect failed: "@
            + why@)],
{
    lemma_utf8_reads_back("connect failed: "@ + why@);
}

/// Closing a stream on one side closes it on the other, and the server forgets it.
pub proof fn closing_reaches_the_other_side(
    id: u32,
    asked: (ClientStage, ClientMove),
    got: Frame,
    server: &mut ServerSession,
    taken: (ServerAction, bool),
    target: &str,
    allow: bool,
    finished: (OpenStage, OpenAction),
    back: Frame,
    client: &mut ClientSession,
    told: (ClientAction, bool),
    ended: (ClientStage, ClientMove),
)
    requires
        call_ensures(
            handle_client_connection,
            (ClientStage::Relaying(id), ClientEvent::AppClosed),
            asked,
        ),
        got@ == (asked.1->Queue_0)@,
        old(server).streams@.contains(id),
        call_ensures(ServerSession::run_server_io, (server, SessionEvent::Incoming(got)), taken),
        call_ensures(
            handle_server_open,
            (id, target, allow, OpenStage::Relaying, OpenEvent::CloseAsked),
            finished,
        ),
        back@ == (finished.1->Finish_1)@,
        old(client).streams@.contains(id),
        call_ensures(ClientSession::run_client_session, (client, SessionEvent::Incoming(back)), told),
        call_ensures(
            handle_client_connection,
            (ClientStage::Relaying(id), ClientEvent::Told(Some(told.0->Tell_1))),
            ended,
        ),
    ensures
        asked.1 is Queue,
        taken.0 == ServerAction::Close(id),
        final(server).streams@ == old(server).streams@.remove(id),
        finished.0 == OpenStage::Done && finished.1 is Finish,
        finished.1->Finish_0,
        finished.1->Finish_2 is None,
        told.0 is Tell && told.0->Tell_0 == id,
        ended.0 is Done,
        ended.1 matches ClientMove::Finish(i, f, e) && i == id && e is None && f.kind == FRAME_CLOSE
            && f.stream_id == id,
{
}

/// A sign of life from either side is answered by the other and keeps the session
/// going there, and so does the answer.
pub proof fn signs_of_life_keep_sessions_going(
    client: &mut ClientSession,
    beat: (ClientAction, bool),
    ping: Frame,
    server: &mut ServerSession,
    answer: (ServerAction, bool),
    pong: Frame,
    heard: &mut ClientSession,
    kept: (ClientAction, bool),
)
    requires
        call_ensures(ClientSession::run_client_session, (client, SessionEvent::Heartbeat), beat),
        ping@ == (beat.0->Queue_0)@,
        call_ensures(ServerSession::run_server_io, (server, SessionEvent::Incoming(ping)), answer),
        pong@ == (answer.0->Queue_0)@,
        call_ensures(ClientSession::run_client_session, (heard, SessionEvent::Incoming(pong)), kept),
    ensures
        *final(client) == *old(client),
        final(server).streams@ == old(server).streams@,
        *final(heard) == *old(heard),
        beat.0 is Queue && answer.0 is Queue,
        answer.1,
        kept.1,
        kept.0 is Nothing,
{
}

/// The same, where the server gives the sign of life.
pub proof fn signs_of_life_of_the_server_keep_sessions_going(
    server: &mut ServerSession,
    beat: (ServerAction, bool),
    ping: Frame,
    client: &mut ClientSession,
    answer: (ClientAction, bool),
    pong: Frame,
    heard: &mut ServerSession,
    kept: (ServerAction, bool),
)
    requires
        call_ensures(ServerSession::run_server_io, (server, SessionEvent::Heartbeat), beat),
        ping@ == (beat.0->Queue_0)@,
        call_ensures(ClientSession::run_client_session, (client, SessionEvent::Incoming(ping)), answer),
        pong@ == (answer.0->Queue_0)@,
        call_ensures(ServerSession::run_server_io, (heard, SessionEvent::Incoming(pong)), kept),
    ensures
        *final(client) == *old(client),
        final(heard).streams@ == old(heard).streams@,
        beat.0 is Queue && answer.0 is Queue,
        answer.1,
        kept.1,
        kept.0 is Nothing,
{
}

/// What goes out is written as the other side reads it.
pub proof fn queued_frames_are_written(
    client: &mut ClientSession,
    server: &mut ServerSession,
    frame: Frame,
    rest: Seq<u8>,
    a: (ClientAction, bool),
    b: (ServerAction, bool),
)
    requires
        frame.payload@.len() <= MAX_FRAME_PAYLOAD,
        call_ensures(ClientSession::run_client_session, (client, SessionEvent::Outgoing(frame)), a),
        call_ensures(ServerSession::run_server_io, (server, SessionEvent::Outgoing(frame)), b),
    ensures
        a.0 matches ClientAction::Write(w) && received(w@ + rest, MAX_FRAME_PAYLOAD as int) == (
        Received::Complete { frame: frame@, skipped: 0, used: w@.len() as int }),
        b.0 matches ServerAction::Write(w) && received(w@ + rest, MAX_FRAME_PAYLOAD as int) == (
        Received::Complete { frame: frame@, skipped: 0, used: w@.len() as int }),
        !a.1 && !b.1,
{
    let none = Seq::<u8>::empty();
    assert(none + encoded(frame@) + rest =~= encoded(frame@) + rest);
    frame_reads_back(none, frame@, rest, MAX_FRAME_PAYLOAD as int);
}

/// A session that breaks, falls silent or can send no more ends for every stream
/// of it, and tells why.
pub proof fn sessions_end_for_every_stream(
    client: &mut ClientSession,
    server: &mut ServerSession,
    event: SessionEvent,
    a: (ClientAction, bool),
    b: (ServerAction, bool),
)
    requires
        event is QueueClosed || event is Broken || event is HeartbeatLost || event is Idle,
        call_ensures(ClientSession::run_client_session, (client, event), a),
        call_ensures(ServerSession::run_server_io, (server, event), b),
    ensures
        a.0 matches ClientAction::End(ids, f) && ids@.no_duplicates() && (forall|i: u32|
            ids@.contains(i) <==> old(client).streams@.contains(i)) && (f is None
            <==> event is QueueClosed) && (event matches SessionEvent::Broken(e) ==> f->0@ == e@),
        b.0 matches ServerAction::End(ids, f) && ids@.no_duplicates() && (forall|i: u32|
            ids@.contains(i) <==> old(server).streams@.contains(i)) && (f is None
            <==> event is QueueClosed) && (event matches SessionEvent::Broken(e) ==> f->0@ == e@),
        final(client).closed,
        forall|i: u32| !final(client).streams@.contains(i) && !final(server).streams@.contains(i),
{
    assert forall|i: u32| old(client).streams@.contains(i) <==> (a.0->End_0)@.contains(i) by {
        assert((a.0->End_0)@.to_set().contains(i) <==> (a.0->End_0)@.contains(i));
    }
    assert forall|i: u32| old(server).streams@.contains(i) <==> (b.0->End_0)@.contains(i) by {
        assert((b.0->End_0)@.to_set().contains(i) <==> (b.0->End_0)@.contains(i));
    }
}

/// The host of a target is what stands in its brackets, or before its last colon.
pub proof fn hosts_are_found_in_targets(
    host: Seq<char>,
    rest: Seq<char>,
    target: &str,
    r: Option<String>,
)
    requires
        call_ensures(host_from_target, (target,), r),
    ensures
        target@ == seq!['['] + (host + seq![']'] + rest) && !host.contains(']') ==> (r matches Some(h)
            && h@ == host),
        target@ == host + seq![':'] + rest && !rest.contains(':') && (host.len() == 0 || host[0]
            != '[') ==> (r matches Some(h) && h@ == host),
        !target@.contains(':') && (target@.len() == 0 || target@[0] != '[') ==> r is None,
{
    reveal_strlit("[");
    reveal_strlit("]");
    assert("["@ =~= seq!['[']);
    assert("]"@ =~= seq![']']);
    lemma_starts(target@, '[');
    if !host.contains(']') {
        assert forall|i: int| 0 <= i < host.len() implies #[trigger] host[i] != ']' by {
            assert(host.contains(host[i]));
        }
    }
    if !rest.contains(':') {
        assert forall|i: int| 0 <= i < rest.len() implies #[trigger] rest[i] != ':' by {
            assert(rest.contains(rest[i]));
        }
    }
    lemma_cut(host, ']', rest);
    lemma_cut(host, ':', rest);
    lemma_cut(target@, ':', rest);
    if target@ == seq!['['] + (host + seq![']'] + rest) {
        assert(target@.skip(1) =~= host + seq![']'] + rest);
        assert(target@[0] == '[');
    }
    if target@ == host + seq![':'] + rest {
        if host.len() > 0 {
            assert(target@[0] == host[0]);
        } else {
            assert(target@[0] == ':');
        }
    }
}

/// Streams are not opened to targets that are written as an address of the local
/// host, of a private network or of all hosts, and names are never taken for one.
pub proof fn private_targets_are_known(
    target: &str,
    host: Option<String>,
    text: &str,
    ip: Option<IpAddr>,
    r: bool,
)
    requires
        call_ensures(host_from_target, (target,), host),
        host matches Some(h) ==> text@ == h@,
        call_ensures(crate::ip::parse_ip, (text,), ip),
        call_ensures(is_private_literal_target, (target,), r),
    ensures
        r ==> host is Some && ip is Some,
        host is Some ==> (ip matches Some(IpAddr::V4(n)) ==> (r <==> 0x0a00_0000 <= n <= 0x0aff_ffff
            || 0x7f00_0000 <= n <= 0x7fff_ffff || 0xa9fe_0000 <= n <= 0xa9fe_ffff || 0xac10_0000 <= n
            <= 0xac1f_ffff || 0xc0a8_0000 <= n <= 0xc0a8_ffff || n == 0xffff_ffff)),
        host is Some ==> (ip matches Some(IpAddr::V6(m)) ==> (r <==> m == 1
            || 0xfc00_0000_0000_0000_0000_0000_0000_0000 <= m
            <= 0xfdff_ffff_ffff_ffff_ffff_ffff_ffff_ffff
            || 0xfe80_0000_0000_0000_0000_0000_0000_0000 <= m
            <= 0xfebf_ffff_ffff_ffff_ffff_ffff_ffff_ffff)),
{
    if let Some(IpAddr::V6(m)) = ip {
        crate::ip::lemma_group_ranges(m);
    }
}

/// Numbers of streams are given out one after the other, from one on, and start again
/// behind the last.
pub proof fn streams_are_numbered(
    fresh: MuxClient,
    client: &mut MuxClient,
    first: u32,
    again: &mut MuxClient,
    second: u32,
)
    requires
        call_ensures(MuxClient::new, (), fresh),
        call_ensures(MuxClient::next_stream_id, (client,), first),
        *old(again) == *final(client),
        call_ensures(MuxClient::next_stream_id, (again,), second),
    ensures
        fresh.next == 1,
        first == old(client).next,
        first < u32::MAX ==> second == first + 1,
        first == u32::MAX ==> second == 0,
        first != second,
{
}

/// A stream is one of the session from when it is added until it is removed, and no
/// other is touched.
pub proof fn added_streams_are_known(
    session: &mut ClientSession,
    later: &mut ClientSession,
    fresh: ClientSession,
    id: u32,
    other: u32,
    closed: bool,
)
    requires
        call_ensures(ClientSession::add_client_stream, (session, id), ()),
        call_ensures(ClientSession::remove_client_stream, (later, id), ()),
        call_ensures(ClientSession::new, (), fresh),
        call_ensures(ClientSession::is_closed, (final(session),), closed),
        other != id,
    ensures
        final(session).streams@.contains(id),
        !final(later).streams@.contains(id),
        final(session).streams@.contains(other) == old(session).streams@.contains(other),
        final(later).streams@.contains(other) == old(later).streams@.contains(other),
        !fresh.streams@.contains(id),
        closed == old(session).closed,
{
}

/// A request for a session is read on just where it announces a body of known length.
pub proof fn session_requests_need_a_length(head: &TunnelRequestHead, r: Gate)
    requires
        call_ensures(session_gate, (head,), r),
    ensures
        head.chunked || head.content_length is None ==> r is Refuse,
        !head.chunked ==> (head.content_length matches Some(n) ==> r == Gate::ReadBody(n)),
{
}

/// What a client signs for a session starts one at a server with the same password
/// and path, whose answer the client takes for that; the same request does not start
/// another.
#[verifier::spinoff_prover]
#[verifier::rlimit(50)]
pub proof fn signed_sessions_are_started_once(
    password: &str,
    mux_path: &str,
    target: &'static str,
    timestamp: i64,
    nonce: String,
    signed: AuthProof,
    made: Result<TunnelPayload, Failure>,
    payload: TunnelPayload,
    ttl_secs: u64,
    fresh: ReplayProtector,
    replay: &mut ReplayProtector,
    now: i64,
    gate: Gate,
    answer: &[u8],
    r: Result<(), Failure>,
    after: &mut ReplayProtector,
    again: Gate,
)
    requires
        call_ensures(session_auth_target, (), target),
        call_ensures(
            AuthProof::sign_at,
            (password, "POST", mux_path, target, timestamp, nonce),
            signed,
        ),
        call_ensures(session_payload_with, (Ok::<AuthProof, Failure>(signed),), made),
        made matches Ok(p) ==> payload == p,
        call_ensures(ReplayProtector::new, (ttl_secs,), fresh),
        *old(replay) == fresh,
        -ttl_secs <= now - timestamp <= ttl_secs,
        call_ensures(run_server_session_at, (replay, now, password, mux_path, Some(payload)), gate),
        gate matches Gate::Accept(b) ==> answer@ == b@,
        call_ensures(check_session_answer, (answer,), r),
        *old(after) == *final(replay),
        call_ensures(run_server_session_at, (after, now, password, mux_path, Some(payload)), again),
    ensures
        made is Ok,
        gate is Accept,
        r is Ok,
        again is Refuse,
{
    let m = fresh@;
    let tag = tag_of(
        password@,
        "POST"@,
        mux_path@,
        session_target(),
        timestamp as int,
        nonce@,
    );
    assert(!crate::auth::knows(crate::auth::kept(m, now - ttl_secs), nonce@));
    assert(payload_proof(payload) == signed@);
    let one = final(replay)@;
    assert(one =~= seq![(nonce@, timestamp as int)]);
    reveal_with_fuel(crate::auth::kept, 2);
    assert(one.drop_last() =~= Seq::<(Seq<char>, int)>::empty());
    let k = crate::auth::kept(one, now - ttl_secs);
    assert(k =~= one);
    assert(k[0].0 == nonce@);
    reveal_strlit("Connection Established");
    crate::server::lemma_answer_status(200, "Connection Established"@, ""@);
}

/// A payload that is for a target, or none at all, starts no session, and nothing is
/// remembered of it; the client takes the answer for a refusal.
pub proof fn other_payloads_start_no_session(
    replay: &mut ReplayProtector,
    now: i64,
    password: &str,
    mux_path: &str,
    payload: Option<TunnelPayload>,
    gate: Gate,
    answer: &[u8],
    r: Result<(), Failure>,
)
    requires
        payload matches Some(p) ==> p.target@ != "__mux__"@,
        call_ensures(run_server_session_at, (replay, now, password, mux_path, payload), gate),
        gate matches Gate::Refuse(b) ==> answer@ == b@,
        call_ensures(check_session_answer, (answer,), r),
    ensures
        gate is Refuse,
        final(replay)@ == old(replay)@,
        r is Err,
{
    reveal_strlit("Not Found");
    crate::server::lemma_answer_status(404, "Not Found"@, "not found\n"@);
}

/// A session starts just where the answer is HTTP/1 with the status 200.
pub proof fn only_success_starts_a_session(
    head: &[u8],
    read: Result<(bool, u16, String), crate::http::HttpError>,
    r: Result<(), Failure>,
)
    requires
        call_ensures(parse_tunnel_response, (head,), read),
        call_ensures(check_session_answer, (head,), r),
    ensures
        r is Ok <==> (read matches Ok((http1, status, _)) && http1 && status == 200),
{
}

/// A target goes through the session just where it is decided that it goes through
/// the server, is relayed directly just where it is decided that it goes direct, and
/// is refused where it is blocked; every target is routed first.
#[verifier::spinoff_prover]
#[verifier::rlimit(50)]
pub proof fn decisions_are_carried_out(
    target: TargetAddr,
    decision: RouteDecision,
    cause: Failure,
    start: (ClientStage, ClientMove),
    r: (ClientStage, ClientMove),
    early: (ClientStage, ClientMove),
    unrouted: (ClientStage, ClientMove),
    alone: (ClientStage, ClientMove),
)
    requires
        call_ensures(
            handle_client_connection,
            (ClientStage::Handshake, ClientEvent::Accepted(target)),
            start,
        ),
        call_ensures(
            handle_client_connection,
            (ClientStage::Routing(target), ClientEvent::Decided(decision)),
            r,
        ),
        call_ensures(
            handle_client_connection,
            (ClientStage::Handshake, ClientEvent::Failed(cause)),
            early,
        ),
        call_ensures(
            handle_client_connection,
            (ClientStage::Routing(target), ClientEvent::Failed(cause)),
            unrouted,
        ),
        call_ensures(
            handle_client_connection,
            (ClientStage::Joining(target), ClientEvent::Failed(cause)),
            alone,
        ),
    ensures
        start == (ClientStage::Routing(target), ClientMove::Decide),
        decision == RouteDecision::Direct <==> r == (ClientStage::Done, ClientMove::RelayDirect(
            target,
        )),
        decision == RouteDecision::Remote <==> r == (ClientStage::Joining(target), ClientMove::Join),
        decision == RouteDecision::Block <==> r.1 is Fail,
        r.1 matches ClientMove::Fail(id, reply, _) ==> r.0 is Done && id is None && reply@ == seq![
            5u8,
            1,
            0,
            1,
            0,
            0,
            0,
            0,
            0,
            0,
        ],
        early.0 is Done && (early.1 matches ClientMove::Fail(id, reply, e) && id is None && reply@.len()
            == 0 && e@ == cause@),
        unrouted.0 is Done && (unrouted.1 matches ClientMove::Fail(id, reply, e) && id is None
            && reply@.len() == 0 && e@ == cause@),
        alone.0 is Done && (alone.1 matches ClientMove::Fail(id, reply, e) && id is None && reply@.len()
            == 0 && e@ == cause@),
{
    crate::proxy::socks5::replies_without_an_address(1);
}

/// A frame that opens a stream twice is refused, and the client that sent it tells the
/// stream; the streams stay, and it is no sign of life.
pub proof fn streams_are_not_opened_twice(
    server: &mut ServerSession,
    frame: Frame,
    r: (ServerAction, bool),
    client: &mut ClientSession,
    told: (ClientAction, bool),
)
    requires
        frame.kind == 1,
        utf8(frame.payload@) is Some,
        old(server).streams@.contains(frame.stream_id),
        call_ensures(ServerSession::run_server_io, (server, SessionEvent::Incoming(frame)), r),
        old(client).streams@.contains(frame.stream_id),
        r.0 matches ServerAction::Queue(f) ==> call_ensures(
            ClientSession::run_client_session,
            (client, SessionEvent::Incoming(f)),
            told,
        ),
    ensures
        r.0 matches ServerAction::Queue(f) && f.kind == 3 && f.stream_id == frame.stream_id,
        !r.1,
        final(server).streams@ == old(server).streams@,
        told.0 matches ClientAction::Tell(i, StreamEvent::OpenError(_)) && i == frame.stream_id,
{
    let text = "duplicate stream id"@;
    reveal_strlit("duplicate stream id");
    lemma_utf8_reads_back(text);
    if let ServerAction::Queue(f) = r.0 {
        assert(f@.kind == 3);
        lemma_short_control(text);
    }
}

proof fn lemma_short_control(text: Seq<char>)
    requires
        text == "duplicate stream id"@,
    ensures
        at_most(bytes_of(text), MAX_CONTROL_PAYLOAD as int) == bytes_of(text),
        utf8(bytes_of(text)) == Some(text),
{
    reveal_strlit("duplicate stream id");
    lemma_utf8_reads_back(text);
    assert(vstd::utf8::is_ascii_chars(text));
    vstd::utf8::is_ascii_chars_encode_utf8(text);
}

/// A frame of a kind that the other side never sends ends the session with a failure,
/// for every stream.
pub proof fn strange_frames_end_sessions(
    client: &mut ClientSession,
    frame: Frame,
    r: (ClientAction, bool),
    server: &mut ServerSession,
    other: Frame,
    s: (ServerAction, bool),
    id: u32,
)
    requires
        frame.kind < 2 || frame.kind > 7,
        call_ensures(ClientSession::run_client_session, (client, SessionEvent::Incoming(frame)), r),
        other.kind == 0 || other.kind == 2 || other.kind == 3 || other.kind > 7,
        call_ensures(ServerSession::run_server_io, (server, SessionEvent::Incoming(other)), s),
    ensures
        r.0 matches ClientAction::End(ids, Some(_)) && (ids@.contains(id) <==> old(client).streams@.contains(id)),
        final(client).closed,
        !r.1,
        s.0 matches ServerAction::End(ids, Some(_)) && (ids@.contains(id) <==> old(server).streams@.contains(id)),
        !s.1,
{
    if let ClientAction::End(ids, _) = r.0 {
        assert(ids@.to_set().contains(id) <==> ids@.contains(id));
    }
    if let ServerAction::End(ids, _) = s.0 {
        assert(ids@.to_set().contains(id) <==> ids@.contains(id));
    }
}

/// A stream on the server ends with a frame that closes it: when the target is done,
/// when the client closes it, and with the failure where something broke. Only where
/// the client closed it is the target told so.
pub proof fn streams_on_the_server_end_with_a_close(
    id: u32,
    target: &str,
    allow: bool,
    cause: Failure,
    closed: (OpenStage, OpenAction),
    asked: (OpenStage, OpenAction),
    gone: (OpenStage, OpenAction),
    broken: (OpenStage, OpenAction),
    unheard: (OpenStage, OpenAction),
    heard: (OpenStage, OpenAction),
)
    requires
        call_ensures(
            handle_server_open,
            (id, target, allow, OpenStage::Relaying, OpenEvent::TargetClosed),
            closed,
        ),
        call_ensures(
            handle_server_open,
            (id, target, allow, OpenStage::Relaying, OpenEvent::CloseAsked),
            asked,
        ),
        call_ensures(
            handle_server_open,
            (id, target, allow, OpenStage::Relaying, OpenEvent::QueueGone),
            gone,
        ),
        call_ensures(
            handle_server_open,
            (id, target, allow, OpenStage::Relaying, OpenEvent::Broken(cause)),
            broken,
        ),
        call_ensures(
            handle_server_open,
            (id, target, allow, OpenStage::Answering, OpenEvent::Answered(false)),
            unheard,
        ),
        call_ensures(
            handle_server_open,
            (id, target, allow, OpenStage::Answering, OpenEvent::Answered(true)),
            heard,
        ),
    ensures
        closed.0 is Done && (closed.1 matches OpenAction::Finish(told, f, e) && !told && f.kind == 5
            && f.stream_id == id && e is None),
        asked.0 is Done && (asked.1 matches OpenAction::Finish(told, f, e) && told && f.kind == 5
            && f.stream_id == id && e is None),
        gone.0 is Done && (gone.1 matches OpenAction::Finish(told, f, e) && !told && f.stream_id == id
            && e is Some),
        broken.0 is Done && (broken.1 matches OpenAction::Finish(told, f, e) && !told && f.stream_id
            == id && (e matches Some(x) && x@ == cause@)),
        unheard == (OpenStage::Done, OpenAction::Abandon),
        heard == (OpenStage::Relaying, OpenAction::Nothing),
{
    assert(bare_frame(FRAME_CLOSE, id).kind == 5);
}

/// A stream that the session could not queue, or that ended before it was open, fails
/// the connection with an answer, and its number is forgotten; one that was told of
/// success is relayed.
pub proof fn streams_that_do_not_open_are_refused(
    id: u32,
    told: Option<StreamEvent>,
    queued: (ClientStage, ClientMove),
    lost: (ClientStage, ClientMove),
    r: (ClientStage, ClientMove),
    late: (ClientStage, ClientMove),
    answered: (ClientStage, ClientMove),
    cause: Failure,
    unheard: (ClientStage, ClientMove),
)
    requires
        call_ensures(
            handle_client_connection,
            (ClientStage::Queueing(id), ClientEvent::Queued(true)),
            queued,
        ),
        call_ensures(
            handle_client_connection,
            (ClientStage::Queueing(id), ClientEvent::Queued(false)),
            lost,
        ),
        !(told matches Some(StreamEvent::Opened)),
        call_ensures(
            handle_client_connection,
            (ClientStage::Opening(id), ClientEvent::Told(told)),
            r,
        ),
        call_ensures(
            handle_client_connection,
            (ClientStage::Opening(id), ClientEvent::OpenTimedOut),
            late,
        ),
        call_ensures(
            handle_client_connection,
            (ClientStage::Answering(id), ClientEvent::Answered),
            answered,
        ),
        call_ensures(
            handle_client_connection,
            (ClientStage::Answering(id), ClientEvent::Broken(cause)),
            unheard,
        ),
    ensures
        queued == (ClientStage::Opening(id), ClientMove::Nothing),
        lost.0 is Done && (lost.1 matches ClientMove::Fail(i, reply, _) && i == Some(id) && reply@
            == seq![5u8, 1, 0, 1, 0, 0, 0, 0, 0, 0]),
        r.0 is Done && (r.1 matches ClientMove::Fail(i, reply, _) && i == Some(id) && reply@
            == seq![5u8, 1, 0, 1, 0, 0, 0, 0, 0, 0]),
        late.0 is Done && (late.1 matches ClientMove::Fail(i, reply, _) && i is None && reply@.len()
            == 0),
        answered == (ClientStage::Relaying(id), ClientMove::Nothing),
        unheard.0 is Done && (unheard.1 matches ClientMove::Fail(i, reply, e) && i is None
            && reply@.len() == 0 && e@ == cause@),
{
    crate::proxy::socks5::replies_without_an_address(1);
}

/// A relayed stream that ends on the other side, fails there or breaks is left with a
/// frame that closes it, and with the failure where there is one.
pub proof fn relayed_streams_end_with_a_close(
    id: u32,
    message: String,
    cause: Failure,
    closed: (ClientStage, ClientMove),
    gone: (ClientStage, ClientMove),
    failed: (ClientStage, ClientMove),
    broken: (ClientStage, ClientMove),
)
    requires
        call_ensures(
            handle_client_connection,
            (ClientStage::Relaying(id), ClientEvent::Told(Some(StreamEvent::Closed))),
            closed,
        ),
        call_ensures(
            handle_client_connection,
            (ClientStage::Relaying(id), ClientEvent::Told(None)),
            gone,
        ),
        call_ensures(
            handle_client_connection,
            (ClientStage::Relaying(id), ClientEvent::Told(Some(StreamEvent::OpenError(message)))),
            failed,
        ),
        call_ensures(
            handle_client_connection,
            (ClientStage::Relaying(id), ClientEvent::Broken(cause)),
            broken,
        ),
    ensures
        closed.0 is Done && (closed.1 matches ClientMove::Finish(i, f, e) && i == id && f.kind == 5
            && f.stream_id == id && e is None),
        gone.0 is Done && (gone.1 matches ClientMove::Finish(i, f, e) && i == id && f.kind == 5
            && f.stream_id == id && e is None),
        failed.0 is Done && (failed.1 matches ClientMove::Finish(i, f, e) && i == id && f.kind == 5
            && f.stream_id == id && e is Some),
        broken.0 is Done && (broken.1 matches ClientMove::Finish(i, f, e) && i == id && f.kind == 5
            && f.stream_id == id && (e matches Some(x) && x@ == cause@)),
{
    assert(bare_frame(FRAME_CLOSE, id).kind == 5);
}

} // verus!
