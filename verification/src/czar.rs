//! Streams that share one connection, each behind a number of one byte.

use vstd::prelude::*;
use crate::bytes::{be16, be16_at, be16_reads_back, extend, push_be16, read_be16, slice_of};
use crate::failure::{outcome, Failure};
use crate::ids::IdSet;
use crate::mux::session::failure_view;
use crate::num::{decimal, to_decimal};
use crate::text::cat;

verus! {

/// The kind of a frame that opens a stream.
pub const FRAME_OPEN: u8 = 0;

/// The kind of a frame that carries bytes.
pub const FRAME_DATA: u8 = 1;

/// The kind of a frame that closes a stream.
pub const FRAME_CLOSE: u8 = 2;

/// The kind of a frame that asks for a sign of life, or gives one.
pub const FRAME_PROBE: u8 = 3;

/// How many streams a connection can have.
pub const STREAM_POOL_SIZE: usize = 256;

/// How long the head of a frame is.
pub const FRAME_HEADER_LEN: usize = 4;

/// The most bytes of a stream that go into one frame.
pub const MAX_FRAME_PAYLOAD: usize = 2044;

/// Seconds between two signs of life.
pub const SESSION_KEEPALIVE_SECS: u64 = 32;

/// Seconds without a frame after which a session ends.
pub const SESSION_IDLE_TIMEOUT_SECS: u64 = 48;

/// A unit of the shared connection.
#[derive(Debug)]
pub enum CzarFrame {
    Open { stream_id: u8 },
    Data { stream_id: u8, payload: Vec<u8> },
    Close { stream_id: u8, reply: bool },
    Probe { reply: bool },
}

/// What a frame says.
#[verifier::ext_equal]
pub enum CzarView {
    Open { stream_id: u8 },
    Data { stream_id: u8, payload: Seq<u8> },
    Close { stream_id: u8, reply: bool },
    Probe { reply: bool },
}

impl View for CzarFrame {
    type V = CzarView;

    open spec fn view(&self) -> CzarView {
        match self {
            CzarFrame::Open { stream_id } => CzarView::Open { stream_id: *stream_id },
            CzarFrame::Data { stream_id, payload } => CzarView::Data {
                stream_id: *stream_id,
                payload: payload@,
            },
            CzarFrame::Close { stream_id, reply } => CzarView::Close {
                stream_id: *stream_id,
                reply: *reply,
            },
            CzarFrame::Probe { reply } => CzarView::Probe { reply: *reply },
        }
    }
}

/// The byte that stands for a truth value.
pub open spec fn flag(b: bool) -> u8 {
    if b {
        1
    } else {
        0
    }
}

/// The bytes of a frame.
pub open spec fn encoded(f: CzarView) -> Seq<u8> {
    match f {
        CzarView::Open { stream_id } => seq![FRAME_OPEN, stream_id, 0u8, 0u8],
        CzarView::Data { stream_id, payload } => seq![FRAME_DATA, stream_id] + be16(
            payload.len() as int,
        ) + payload,
        CzarView::Close { stream_id, reply } => seq![FRAME_CLOSE, stream_id, flag(reply), 0u8],
        CzarView::Probe { reply } => seq![FRAME_PROBE, flag(reply), 0u8, 0u8],
    }
}

/// Whether a frame is longer than its length can say.
pub open spec fn too_large(f: CzarView) -> bool {
    f matches CzarView::Data { stream_id, payload } && payload.len() > 65535
}

fn four(a: u8, b: u8, c: u8, d: u8) -> (r: Vec<u8>)
    ensures
        r@ == seq![a, b, c, d],
{
    let mut out: Vec<u8> = Vec::new();
    out.push(a);
    out.push(b);
    out.push(c);
    out.push(d);
    assert(out@ =~= seq![a, b, c, d]);
    out
}

fn to_flag(b: bool) -> (r: u8)
    ensures
        r == flag(b),
{
    if b {
        1
    } else {
        0
    }
}

/// What is told of a payload that is too large for a frame.
pub open spec fn too_large_text() -> Seq<Seq<char>> {
    seq!["czar payload too large"@, "out of range integral type conversion attempted"@]
}

/// The bytes of a frame.
pub fn write_frame(frame: &CzarFrame) -> (r: Result<Vec<u8>, Failure>)
    ensures
        match outcome(r) {
            Ok(b) => !too_large(frame@) && b@ == encoded(frame@),
            Err(e) => too_large(frame@) && e == too_large_text(),
        },
{
    match frame {
        CzarFrame::Open { stream_id } => Ok(four(FRAME_OPEN, *stream_id, 0, 0)),
        CzarFrame::Data { stream_id, payload } => {
            if payload.len() > 65535 {
                return Err(
                    Failure::caused(
                        "czar payload too large",
                        "out of range integral type conversion attempted",
                    ),
                );
            }
            let mut out: Vec<u8> = Vec::new();
            out.push(FRAME_DATA);
            out.push(*stream_id);
            assert(out@ =~= seq![FRAME_DATA, *stream_id]);
            push_be16(&mut out, payload.len() as u16);
            extend(&mut out, payload.as_slice());
            Ok(out)
        },
        CzarFrame::Close { stream_id, reply } => Ok(
            four(FRAME_CLOSE, *stream_id, to_flag(*reply), 0),
        ),
        CzarFrame::Probe { reply } => Ok(four(FRAME_PROBE, to_flag(*reply), 0, 0)),
    }
}

/// What the bytes that have come in so far hold of a frame.
#[verifier::ext_equal]
pub enum Received {
    Incomplete,
    Unknown(u8),
    Complete(CzarView, int),
}

/// What the bytes that have come in so far hold of a frame.
pub open spec fn received(b: Seq<u8>) -> Received {
    if b.len() < 4 {
        Received::Incomplete
    } else if b[0] == FRAME_OPEN {
        Received::Complete(CzarView::Open { stream_id: b[1] }, 4)
    } else if b[0] == FRAME_DATA {
        if b.len() < 4 + be16_at(b, 2) {
            Received::Incomplete
        } else {
            Received::Complete(
                CzarView::Data { stream_id: b[1], payload: b.subrange(4, 4 + be16_at(b, 2)) },
                4 + be16_at(b, 2),
            )
        }
    } else if b[0] == FRAME_CLOSE {
        Received::Complete(CzarView::Close { stream_id: b[1], reply: b[2] != 0 }, 4)
    } else if b[0] == FRAME_PROBE {
        Received::Complete(CzarView::Probe { reply: b[1] != 0 }, 4)
    } else {
        Received::Unknown(b[0])
    }
}

/// What the bytes that have come in so far hold of a frame.
#[derive(Debug)]
pub enum FrameRead {
    /// More bytes are needed.
    Incomplete,
    /// There is no frame of that kind.
    Unknown(Failure),
    /// The frame, and how many bytes it takes.
    Complete(CzarFrame, usize),
}

/// Reads the frame that the bytes start with.
pub fn read_frame(buf: &[u8]) -> (r: FrameRead)
    ensures
        match (r, received(buf@)) {
            (FrameRead::Incomplete, Received::Incomplete) => true,
            (FrameRead::Unknown(e), Received::Unknown(k)) => e@ == seq!["unknown czar frame type "@
                + decimal(k as nat)],
            (FrameRead::Complete(f, n), Received::Complete(g, m)) => f@ == g && n == m,
            _ => false,
        },
{
    let len: usize = buf.len();
    if len < 4 {
        return FrameRead::Incomplete;
    }
    let kind: u8 = buf[0];
    if kind == FRAME_OPEN {
        FrameRead::Complete(CzarFrame::Open { stream_id: buf[1] }, 4)
    } else if kind == FRAME_DATA {
        let n: usize = read_be16(buf, 2) as usize;
        if len - 4 < n {
            return FrameRead::Incomplete;
        }
        FrameRead::Complete(
            CzarFrame::Data { stream_id: buf[1], payload: slice_of(buf, 4, 4 + n) },
            4 + n,
        )
    } else if kind == FRAME_CLOSE {
        FrameRead::Complete(CzarFrame::Close { stream_id: buf[1], reply: buf[2] != 0 }, 4)
    } else if kind == FRAME_PROBE {
        FrameRead::Complete(CzarFrame::Probe { reply: buf[1] != 0 }, 4)
    } else {
        FrameRead::Unknown(
            Failure::new(cat("unknown czar frame type ", to_decimal(kind as u64).as_str()).as_str()),
        )
    }
}

/// Reading gives back the frame that was written, whatever follows it.
pub proof fn frame_reads_back(f: CzarView, rest: Seq<u8>)
    requires
        !too_large(f),
    ensures
        received(encoded(f) + rest) == Received::Complete(f, encoded(f).len() as int),
{
    let b = encoded(f) + rest;
    match f {
        CzarView::Data { stream_id, payload } => {
            assert(b.subrange(2, 4) =~= be16(payload.len() as int));
            be16_reads_back(b, 2, payload.len() as int);
            assert(b.subrange(4, (4 + payload.len()) as int) =~= payload);
        },
        _ => {},
    }
}

// ---------------------------------------------------------------------------
// Stream numbers

/// The numbers that no stream has, the next one last.
#[derive(Debug)]
pub struct IdPool {
    pub free: Vec<u8>,
}

impl IdPool {
    /// Whether each free number is there once.
    pub open spec fn wf(&self) -> bool {
        self.free@.no_duplicates()
    }

    /// All numbers, to be taken from 0 up.
    pub fn new() -> (r: Self)
        ensures
            r.wf(),
            r.free@ == Seq::new(256, |i: int| (255 - i) as u8),
    {
        let mut free: Vec<u8> = Vec::new();
        let mut i: u16 = 0;
        while i < 256
            invariant
                i <= 256,
                free@ == Seq::new(i as nat, |k: int| (255 - k) as u8),
            decreases 256 - i,
        {
            free.push((255 - i) as u8);
            i = i + 1;
        }
        IdPool { free }
    }

    /// Takes a number.
    pub fn take_stream_id(&mut self) -> (r: Result<u8, Failure>)
        requires
            old(self).wf(),
        ensures
            final(self).wf(),
            match outcome(r) {
                Ok(id) => {
                    &&& old(self).free@.len() > 0
                    &&& id == old(self).free@.last()
                    &&& final(self).free@ == old(self).free@.drop_last()
                    &&& !final(self).free@.contains(id)
                },
                Err(e) => old(self).free@.len() == 0 && final(self).free@ == old(self).free@ && e
                    == seq!["czar session ran out of stream ids"@],
            },
    {
        match self.free.pop() {
            Some(id) => {
                assert(self.free@ =~= old(self).free@.drop_last());
                assert(!self.free@.contains(id));
                Ok(id)
            },
            None => Err(Failure::new("czar session ran out of stream ids")),
        }
    }

    /// Gives a number back.
    pub fn give_back(&mut self, id: u8)
        requires
            old(self).wf(),
        ensures
            final(self).wf(),
            final(self).free@ == if old(self).free@.contains(id) {
                old(self).free@
            } else {
                old(self).free@.push(id)
            },
    {
        let mut i: usize = 0;
        while i < self.free.len()
            invariant
                i <= self.free@.len(),
                self.free@ == old(self).free@,
                self.wf(),
                forall|k: int| 0 <= k < i ==> self.free@[k] != id,
            decreases self.free@.len() - i,
        {
            if self.free[i] == id {
                assert(self.free@.contains(self.free@[i as int]));
                return;
            }
            i = i + 1;
        }
        self.free.push(id);
    }
}

// ---------------------------------------------------------------------------
// Sessions

/// What happens to a session.
#[derive(Debug)]
pub enum SessionEvent {
    /// A frame is next in the queue of those that go out.
    Outgoing(CzarFrame),
    /// No frame can come into that queue any more.
    QueueClosed,
    /// A frame came in.
    Incoming(CzarFrame),
    /// Reading or writing failed.
    Broken(Failure),
    /// It is time for a sign of life.
    Heartbeat,
    /// Nothing came in for too long.
    Idle,
    /// A stream that was opened could not be taken on.
    AcceptLost,
}

/// What a stream learns from the other side.
#[derive(Debug)]
pub enum StreamEvent {
    Data(Vec<u8>),
    Close,
}

/// What a session does.
#[derive(Debug)]
pub enum SessionAction {
    Nothing,
    /// Write the bytes.
    Write(Vec<u8>),
    /// Tell a stream.
    Tell(u8, StreamEvent),
    /// Take on a stream that was opened.
    Accept(u8),
    /// End the session: tell these streams that they are closed.
    End(Vec<u32>, Option<Failure>),
}

/// A session: which side it is, and the streams that are in use.
#[derive(Debug)]
pub struct Session {
    pub server: bool,
    pub streams: IdSet,
    pub closed: bool,
}

/// Why an event ends a session, if it does. `None` inside is an end without a
/// failure.
pub open spec fn ends_with(server: bool, streams: Set<u32>, event: SessionEvent) -> Option<
    Option<Seq<Seq<char>>>,
> {
    match event {
        SessionEvent::QueueClosed => Some(None),
        SessionEvent::Broken(e) => Some(Some(e@)),
        SessionEvent::Idle => Some(Some(seq!["czar session timed out waiting for peer activity"@])),
        SessionEvent::AcceptLost => Some(Some(seq!["failed to accept incoming czar stream"@])),
        SessionEvent::Outgoing(f) => if too_large(f@) {
            Some(Some(too_large_text()))
        } else {
            None
        },
        SessionEvent::Incoming(CzarFrame::Open { stream_id }) => if !server {
            Some(Some(seq!["unexpected stream open from czar server"@]))
        } else if streams.contains(stream_id as u32) {
            Some(Some(seq!["duplicate czar stream id "@ + decimal(stream_id as nat)]))
        } else {
            None
        },
        _ => None,
    }
}

/// What a session does at an event that does not end it, and which streams it
/// has afterwards.
pub open spec fn acts(
    streams: Set<u32>,
    event: SessionEvent,
    action: SessionAction,
    after: Set<u32>,
) -> bool {
    match event {
        SessionEvent::Outgoing(f) => after == streams && (action matches SessionAction::Write(b)
            && b@ == encoded(f@)),
        SessionEvent::Heartbeat => after == streams && (action matches SessionAction::Write(b)
            && b@ == encoded(CzarView::Probe { reply: false })),
        SessionEvent::Incoming(CzarFrame::Open { stream_id }) => action == SessionAction::Accept(
            stream_id,
        ) && after == streams.insert(stream_id as u32),
        SessionEvent::Incoming(CzarFrame::Data { stream_id, payload }) => after == streams && if streams.contains(
            stream_id as u32,
        ) {
            action == SessionAction::Tell(stream_id, StreamEvent::Data(payload))
        } else {
            action is Nothing
        },
        SessionEvent::Incoming(CzarFrame::Close { stream_id, reply }) => after == streams
            && if streams.contains(stream_id as u32) {
            action == SessionAction::Tell(stream_id, StreamEvent::Close)
        } else {
            action is Nothing
        },
        SessionEvent::Incoming(CzarFrame::Probe { reply }) => after == streams && if reply {
            action is Nothing
        } else {
            action matches SessionAction::Write(b) && b@ == encoded(CzarView::Probe { reply: true })
        },
        _ => false,
    }
}

impl Session {
    /// A session without streams.
    pub fn new(server: bool) -> (r: Self)
        ensures
            r.server == server,
            r.streams@ == Set::<u32>::empty(),
            !r.closed,
    {
        Session { server, streams: IdSet::new(), closed: false }
    }

    fn end(&mut self, failure: Option<Failure>) -> (r: SessionAction)
        ensures
            r matches SessionAction::End(ids, f) && ids@.no_duplicates() && ids@.to_set() == old(self).streams@ && f
                == failure,
            final(self).streams@ == Set::<u32>::empty(),
            final(self).closed,
            final(self).server == old(self).server,
    {
        self.closed = true;
        SessionAction::End(self.streams.drain(), failure)
    }

    fn tell(&self, id: u8, event: StreamEvent) -> (r: SessionAction)
        ensures
            r == if self.streams@.contains(id as u32) {
                SessionAction::Tell(id, event)
            } else {
                SessionAction::Nothing
            },
    {
        if self.streams.contains(id as u32) {
            SessionAction::Tell(id, event)
        } else {
            SessionAction::Nothing
        }
    }

    fn probe(&self, reply: bool) -> (r: SessionAction)
        ensures
            r matches SessionAction::Write(b) && b@ == encoded(CzarView::Probe { reply }),
    {
        SessionAction::Write(four(FRAME_PROBE, to_flag(reply), 0, 0))
    }

    /// What the session does at an event.
    pub fn run_session(&mut self, event: SessionEvent) -> (r: SessionAction)
        ensures
            final(self).server == old(self).server,
            match ends_with(old(self).server, old(self).streams@, event) {
                Some(failure) => {
                    &&& r matches SessionAction::End(ids, f)
                    &&& ids@.no_duplicates() && ids@.to_set() == old(self).streams@
                    &&& failure_view(f) == failure
                    &&& final(self).streams@ == Set::<u32>::empty()
                    &&& final(self).closed
                },
                None => {
                    &&& final(self).closed == old(self).closed
                    &&& acts(old(self).streams@, event, r, final(self).streams@)
                },
            },
    {
        match event {
            SessionEvent::Outgoing(frame) => match write_frame(&frame) {
                Ok(b) => SessionAction::Write(b),
                Err(e) => self.end(Some(e)),
            },
            SessionEvent::QueueClosed => self.end(None),
            SessionEvent::Incoming(frame) => match frame {
                CzarFrame::Open { stream_id } => {
                    if !self.server {
                        return self.end(
                            Some(Failure::new("unexpected stream open from czar server")),
                        );
                    }
                    if self.streams.contains(stream_id as u32) {
                        return self.end(
                            Some(
                                Failure::new(
                                    cat(
                                        "duplicate czar stream id ",
                                        to_decimal(stream_id as u64).as_str(),
                                    ).as_str(),
                                ),
                            ),
                        );
                    }
                    self.streams.insert(stream_id as u32);
                    SessionAction::Accept(stream_id)
                },
                CzarFrame::Data { stream_id, payload } => self.tell(
                    stream_id,
                    StreamEvent::Data(payload),
                ),
                CzarFrame::Close { stream_id, reply } => self.tell(stream_id, StreamEvent::Close),
                CzarFrame::Probe { reply } => {
                    if reply {
                        SessionAction::Nothing
                    } else {
                        self.probe(true)
                    }
                },
            },
            SessionEvent::Broken(e) => self.end(Some(e)),
            SessionEvent::Heartbeat => self.probe(false),
            SessionEvent::Idle => self.end(
                Some(Failure::new("czar session timed out waiting for peer activity")),
            ),
            SessionEvent::AcceptLost => self.end(
                Some(Failure::new("failed to accept incoming czar stream")),
            ),
        }
    }

    /// A stream of the client is in use from now on.
    pub fn register(&mut self, id: u8)
        ensures
            final(self).streams@ == old(self).streams@.insert(id as u32),
            final(self).server == old(self).server,
            final(self).closed == old(self).closed,
    {
        self.streams.insert(id as u32);
    }

    /// A stream has ended.
    pub fn unregister(&mut self, id: u8)
        ensures
            final(self).streams@ == old(self).streams@.remove(id as u32),
            final(self).server == old(self).server,
            final(self).closed == old(self).closed,
    {
        self.streams.remove(id as u32);
    }
}

/// What happens at the bridge between a stream and its user.
#[derive(Debug)]
pub enum BridgeEvent {
    /// Bytes came from the user.
    FromUser(Vec<u8>),
    /// The user has no more bytes, or reading them failed.
    UserClosed,
    /// The stream was told something, or will be told nothing more.
    Told(Option<StreamEvent>),
    /// Bytes could not be handed to the user.
    WriteFailed,
}

/// What the bridge does.
#[derive(Debug)]
pub enum BridgeAction {
    /// Queue the frame.
    Queue(CzarFrame),
    /// Hand the bytes to the user.
    Write(Vec<u8>),
    /// Tell the user that no more comes, forget the stream, and give its number
    /// back.
    Finish,
}

/// What the bridge of a stream does at an event.
pub fn run_stream_bridge(id: u8, event: BridgeEvent) -> (r: BridgeAction)
    ensures
        match event {
            BridgeEvent::FromUser(b) => r matches BridgeAction::Queue(f) && f@ == (CzarView::Data {
                stream_id: id,
                payload: b@,
            }),
            BridgeEvent::UserClosed => r matches BridgeAction::Queue(f) && f@ == (CzarView::Close {
                stream_id: id,
                reply: false,
            }),
            BridgeEvent::Told(Some(StreamEvent::Data(b))) => r == BridgeAction::Write(b),
            _ => r is Finish,
        },
{
    match event {
        BridgeEvent::FromUser(payload) => BridgeAction::Queue(
            CzarFrame::Data { stream_id: id, payload },
        ),
        BridgeEvent::UserClosed => BridgeAction::Queue(
            CzarFrame::Close { stream_id: id, reply: false },
        ),
        BridgeEvent::Told(Some(StreamEvent::Data(b))) => BridgeAction::Write(b),
        BridgeEvent::Told(_) => BridgeAction::Finish,
        BridgeEvent::WriteFailed => BridgeAction::Finish,
    }
}

/// A frame that does not end the session leaves all streams alone but its own.
pub proof fn frames_touch_only_their_stream(
    streams: Set<u32>,
    frame: CzarFrame,
    id: u8,
    action: SessionAction,
    after: Set<u32>,
    other: u8,
)
    requires
        acts(streams, SessionEvent::Incoming(frame), action, after),
        frame matches CzarFrame::Open { stream_id } ==> stream_id == id,
        frame matches CzarFrame::Data { stream_id, payload } ==> stream_id == id,
        frame matches CzarFrame::Close { stream_id, reply } ==> stream_id == id,
        other != id,
    ensures
        after.contains(other as u32) == streams.contains(other as u32),
        action matches SessionAction::Tell(i, _) ==> i != other,
        action matches SessionAction::Accept(i) ==> i != other,
{
}

/// A number that was given back after it was taken leaves the pool as it was.
pub proof fn taken_numbers_can_be_given_back(free: Seq<u8>)
    requires
        free.len() > 0,
        free.no_duplicates(),
    ensures
        !free.drop_last().contains(free.last()),
        free.drop_last().push(free.last()) == free,
{
    assert(free.drop_last().push(free.last()) =~= free);
}

// ---------------------------------------------------------------------------
// Laws

/// The other side reads the frame that was written, whatever follows it, and uses
/// just its bytes; only data that a length of two bytes cannot count is not written.
pub proof fn frames_cross_the_wire(
    frame: &CzarFrame,
    written: Result<Vec<u8>, Failure>,
    buf: &[u8],
    rest: Seq<u8>,
    r: FrameRead,
)
    requires
        call_ensures(write_frame, (frame,), written),
        written matches Ok(b) ==> buf@ == b@ + rest,
        call_ensures(read_frame, (buf,), r),
    ensures
        written is Ok <==> !(frame matches CzarFrame::Data { stream_id, payload } && payload@.len()
            >= 65536),
        written matches Ok(b) ==> (r matches FrameRead::Complete(f, n) && f@ == frame@ && n
            == b@.len()),
{
    if written is Ok {
        frame_reads_back(frame@, rest);
    }
}

/// A frame is its kind, three bytes of its own and, for data, the payload, whose
/// length the last two of the three tell.
pub proof fn frames_are_laid_out(frame: &CzarFrame, written: Result<Vec<u8>, Failure>)
    requires
        call_ensures(write_frame, (frame,), written),
    ensures
        written matches Ok(b) ==> match frame {
            CzarFrame::Open { stream_id } => b@ == seq![0u8, *stream_id, 0, 0],
            CzarFrame::Data { stream_id, payload } => b@.len() == 4 + payload@.len() && b@[0] == 1
                && b@[1] == *stream_id && b@[2] * 256 + b@[3] == payload@.len() && b@.skip(4)
                == payload@,
            CzarFrame::Close { stream_id, reply } => b@ == seq![
                2u8,
                *stream_id,
                if *reply {
                    1u8
                } else {
                    0
                },
                0,
            ],
            CzarFrame::Probe { reply } => b@ == seq![
                3u8,
                if *reply {
                    1u8
                } else {
                    0
                },
                0,
                0,
            ],
        },
{
    if let Ok(b) = written {
        if let CzarFrame::Data { stream_id, payload } = frame {
            assert(b@.skip(4) =~= payload@);
        }
    }
}

/// A frame of which bytes are missing is waited for.
pub proof fn broken_off_frames_are_waited_for(
    frame: &CzarFrame,
    written: Result<Vec<u8>, Failure>,
    buf: &[u8],
    r: FrameRead,
)
    requires
        call_ensures(write_frame, (frame,), written),
        written matches Ok(b) && buf@.len() < b@.len() && buf@ == b@.take(buf@.len() as int),
        call_ensures(read_frame, (buf,), r),
    ensures
        r is Incomplete,
{
    if let Ok(b) = written {
        frame_reads_back(frame@, seq![]);
        assert(b@ + Seq::<u8>::empty() =~= b@);
        if buf@.len() >= 4 {
            if let CzarFrame::Data { stream_id, payload } = frame {
                assert(b@.subrange(2, 4) =~= be16(payload@.len() as int));
                assert(buf@.subrange(2, 4) =~= be16(payload@.len() as int));
                be16_reads_back(buf@, 2, payload@.len() as int);
            }
        }
    }
}

/// What the user of a stream sends through one session reaches, byte for byte, the
/// user of the stream of that number in the session on the other side, and no other
/// stream; where no stream has that number it is dropped.
pub proof fn bytes_reach_the_other_user(
    id: u8,
    sent: Vec<u8>,
    queued: BridgeAction,
    here: &mut Session,
    written: SessionAction,
    buf: &[u8],
    rest: Seq<u8>,
    read: FrameRead,
    there: &mut Session,
    told: SessionAction,
    handed: BridgeAction,
)
    requires
        sent@.len() <= 65535,
        call_ensures(run_stream_bridge, (id, BridgeEvent::FromUser(sent)), queued),
        call_ensures(
            Session::run_session,
            (here, SessionEvent::Outgoing(queued->Queue_0)),
            written,
        ),
        buf@ == (written->Write_0)@ + rest,
        call_ensures(read_frame, (buf,), read),
        call_ensures(
            Session::run_session,
            (there, SessionEvent::Incoming(read->Complete_0)),
            told,
        ),
        told matches SessionAction::Tell(i, e) ==> call_ensures(
            run_stream_bridge,
            (i, BridgeEvent::Told(Some(e))),
            handed,
        ),
    ensures
        queued is Queue && written is Write && read is Complete,
        read->Complete_1 == (written->Write_0)@.len(),
        final(here).streams@ == old(here).streams@,
        final(there).streams@ == old(there).streams@,
        old(there).streams@.contains(id as u32) ==> (told matches SessionAction::Tell(
            i,
            StreamEvent::Data(b),
        ) && i == id && b@ == sent@ && (handed matches BridgeAction::Write(w) && w@ == sent@)),
        !old(there).streams@.contains(id as u32) ==> told is Nothing,
{
    frame_reads_back((queued->Queue_0)@, rest);
}

/// A stream that its user closes is closed on the other side, which tells its own
/// user.
pub proof fn closing_reaches_the_other_user(
    id: u8,
    queued: BridgeAction,
    here: &mut Session,
    written: SessionAction,
    buf: &[u8],
    rest: Seq<u8>,
    read: FrameRead,
    there: &mut Session,
    told: SessionAction,
    handed: BridgeAction,
)
    requires
        call_ensures(run_stream_bridge, (id, BridgeEvent::UserClosed), queued),
        call_ensures(
            Session::run_session,
            (here, SessionEvent::Outgoing(queued->Queue_0)),
            written,
        ),
        buf@ == (written->Write_0)@ + rest,
        call_ensures(read_frame, (buf,), read),
        call_ensures(
            Session::run_session,
            (there, SessionEvent::Incoming(read->Complete_0)),
            told,
        ),
        told matches SessionAction::Tell(i, e) ==> call_ensures(
            run_stream_bridge,
            (i, BridgeEvent::Told(Some(e))),
            handed,
        ),
    ensures
        queued is Queue && written is Write && read is Complete,
        old(there).streams@.contains(id as u32) ==> (told matches SessionAction::Tell(
            i,
            StreamEvent::Close,
        ) && i == id) && handed is Finish,
        !old(there).streams@.contains(id as u32) ==> told is Nothing,
        final(there).streams@ == old(there).streams@,
{
    frame_reads_back((queued->Queue_0)@, rest);
}

/// A stream that a client opens is taken on by the server under the same number,
/// and is one of its streams from then on. A number that is in use ends the session,
/// and so does a stream that a server opens.
pub proof fn opened_streams_are_taken_on(
    id: u8,
    here: &mut Session,
    written: SessionAction,
    buf: &[u8],
    rest: Seq<u8>,
    read: FrameRead,
    there: &mut Session,
    r: SessionAction,
)
    requires
        call_ensures(
            Session::run_session,
            (here, SessionEvent::Outgoing(CzarFrame::Open { stream_id: id })),
            written,
        ),
        buf@ == (written->Write_0)@ + rest,
        call_ensures(read_frame, (buf,), read),
        call_ensures(Session::run_session, (there, SessionEvent::Incoming(read->Complete_0)), r),
    ensures
        written is Write && read is Complete,
        old(there).server && !old(there).streams@.contains(id as u32) ==> r
            == SessionAction::Accept(id) && final(there).streams@ == old(there).streams@.insert(
            id as u32,
        ) && final(there).closed == old(there).closed,
        !old(there).server || old(there).streams@.contains(id as u32) ==> r is End && final(there).closed,
{
    frame_reads_back(CzarView::Open { stream_id: id }, rest);
}

/// A sign of life is answered, and the answer ends there.
pub proof fn signs_of_life_are_answered(
    here: &mut Session,
    written: SessionAction,
    buf: &[u8],
    rest: Seq<u8>,
    read: FrameRead,
    there: &mut Session,
    answer: SessionAction,
    back: &[u8],
    after: Seq<u8>,
    got: FrameRead,
    again: &mut Session,
    r: SessionAction,
)
    requires
        call_ensures(Session::run_session, (here, SessionEvent::Heartbeat), written),
        buf@ == (written->Write_0)@ + rest,
        call_ensures(read_frame, (buf,), read),
        call_ensures(
            Session::run_session,
            (there, SessionEvent::Incoming(read->Complete_0)),
            answer,
        ),
        back@ == (answer->Write_0)@ + after,
        call_ensures(read_frame, (back,), got),
        call_ensures(Session::run_session, (again, SessionEvent::Incoming(got->Complete_0)), r),
    ensures
        written is Write && read is Complete && answer is Write && got is Complete && r is Nothing,
        final(here).streams@ == old(here).streams@,
        final(there).streams@ == old(there).streams@,
        final(again).streams@ == old(again).streams@,
{
    frame_reads_back(CzarView::Probe { reply: false }, rest);
    frame_reads_back(CzarView::Probe { reply: true }, after);
}

/// A session that breaks, falls silent or loses its queue ends, tells each of its
/// streams once, and has none left; one that broke fails with the cause.
pub proof fn sessions_end_for_every_stream(
    session: &mut Session,
    event: SessionEvent,
    id: u8,
    r: SessionAction,
)
    requires
        event is QueueClosed || event is Broken || event is Idle || event is AcceptLost,
        call_ensures(Session::run_session, (session, event), r),
    ensures
        r matches SessionAction::End(ids, f) && ids@.no_duplicates() && (ids@.contains(id as u32)
            <==> old(session).streams@.contains(id as u32)) && (f is None <==> event is QueueClosed)
            && (event matches SessionEvent::Broken(e) ==> f->0@ == e@),
        final(session).streams@ == Set::<u32>::empty(),
        final(session).closed,
{
    if let SessionAction::End(ids, f) = r {
        assert(ids@.to_set().contains(id as u32) <==> ids@.contains(id as u32));
    }
}

/// A stream is told things from when it is registered until it is unregistered, and
/// no other stream is touched by either.
pub proof fn registered_streams_are_known(
    session: &mut Session,
    later: &mut Session,
    id: u8,
    other: u8,
)
    requires
        call_ensures(Session::register, (session, id), ()),
        call_ensures(Session::unregister, (later, id), ()),
        other != id,
    ensures
        final(session).streams@.contains(id as u32),
        !final(later).streams@.contains(id as u32),
        final(session).streams@.contains(other as u32) == old(session).streams@.contains(
            other as u32,
        ),
        final(later).streams@.contains(other as u32) == old(later).streams@.contains(other as u32),
{
}

/// A number is taken while any is free, was free, and is not free any more; one that
/// is given back is free again. A new pool has every number.
pub proof fn numbers_are_taken_once(
    fresh: IdPool,
    pool: &mut IdPool,
    r: Result<u8, Failure>,
    back: &mut IdPool,
    id: u8,
    other: u8,
)
    requires
        call_ensures(IdPool::new, (), fresh),
        old(pool).wf(),
        call_ensures(IdPool::take_stream_id, (pool,), r),
        old(back).wf(),
        call_ensures(IdPool::give_back, (back, id), ()),
    ensures
        fresh.free@.contains(id),
        r is Ok <==> old(pool).free@.len() > 0,
        r matches Ok(n) ==> old(pool).free@.contains(n) && !final(pool).free@.contains(n) && (other
            != n ==> final(pool).free@.contains(other) == old(pool).free@.contains(other)),
        r is Err ==> final(pool).free@ == old(pool).free@,
        final(back).free@.contains(id),
        other != id ==> final(back).free@.contains(other) == old(back).free@.contains(other),
{
    assert(fresh.free@[255 - id] == id);
    if let Ok(n) = r {
        let f = old(pool).free@;
        assert(f[f.len() - 1] == n);
        assert(f =~= f.drop_last().push(n));
        if f.contains(other) && other != n {
            let i = choose|i: int| 0 <= i < f.len() && f[i] == other;
            assert(f.drop_last()[i] == other);
        }
        if f.drop_last().contains(other) {
            let i = choose|i: int| 0 <= i < f.drop_last().len() && f.drop_last()[i] == other;
            assert(f[i] == other);
        }
    }
    let b = old(back).free@;
    if !b.contains(id) {
        let p = b.push(id);
        assert(p[b.len() as int] == id);
        if b.contains(other) {
            let i = choose|i: int| 0 <= i < b.len() && b[i] == other;
            assert(p[i] == other);
        }
        if p.contains(other) && other != id {
            let i = choose|i: int| 0 <= i < p.len() && p[i] == other;
            assert(b[i] == other);
        }
    }
}

} // verus!
