//! Frames of a multiplexed tunnel, and the sessions that exchange them.

pub mod session;

use vstd::prelude::*;
use crate::bytes::{be32, be32_at, be32_reads_back, extend, push_be32, read_be32, slice_of};
use crate::crypto::{hex_encode, hex_of};
use crate::failure::Failure;
use crate::num::{decimal, to_decimal};
use crate::text::{bytes_of, cat3, join, joined, to_bytes, views};

verus! {

pub const FRAME_OPEN: u8 = 1;

pub const FRAME_OPEN_OK: u8 = 2;

pub const FRAME_OPEN_ERR: u8 = 3;

pub const FRAME_DATA: u8 = 4;

pub const FRAME_CLOSE: u8 = 5;

pub const FRAME_PING: u8 = 6;

pub const FRAME_PONG: u8 = 7;

/// The largest payload of a frame that a session reads.
pub const MAX_FRAME_PAYLOAD: usize = 16384;

/// The largest payload of a control frame that carries text.
pub const MAX_CONTROL_PAYLOAD: usize = 8192;

/// The bytes before the payload: the magic, the kind, the stream and the length.
pub const FRAME_HEADER_LEN: usize = 11;

/// A unit of the multiplexed stream.
#[derive(Debug)]
pub struct Frame {
    pub kind: u8,
    pub stream_id: u32,
    pub payload: Vec<u8>,
}

/// What a frame says.
#[verifier::ext_equal]
pub struct FrameView {
    pub kind: u8,
    pub stream_id: u32,
    pub payload: Seq<u8>,
}

impl View for Frame {
    type V = FrameView;

    open spec fn view(&self) -> FrameView {
        FrameView { kind: self.kind, stream_id: self.stream_id, payload: self.payload@ }
    }
}

/// The frame of a kind without a payload.
pub open spec fn bare_frame(kind: u8, stream_id: u32) -> FrameView {
    FrameView { kind, stream_id, payload: seq![] }
}

/// The frame of a kind with a payload.
pub open spec fn frame_with(kind: u8, stream_id: u32, payload: Seq<u8>) -> FrameView {
    FrameView { kind, stream_id, payload }
}

/// At most the first `n` bytes of `b`.
pub open spec fn at_most(b: Seq<u8>, n: int) -> Seq<u8> {
    if b.len() > n {
        b.take(n)
    } else {
        b
    }
}

impl Frame {
    /// Asks the peer to connect a stream to `target`.
    pub fn open(stream_id: u32, target: String) -> (r: Self)
        ensures
            r@ == frame_with(FRAME_OPEN, stream_id, bytes_of(target@)),
    {
        Frame { kind: FRAME_OPEN, stream_id, payload: to_bytes(target.as_str()) }
    }

    /// Says that a stream is connected.
    pub fn open_ok(stream_id: u32) -> (r: Self)
        ensures
            r@ == bare_frame(FRAME_OPEN_OK, stream_id),
    {
        Frame { kind: FRAME_OPEN_OK, stream_id, payload: Vec::new() }
    }

    /// Says why a stream could not be connected, in a bounded number of bytes.
    pub fn open_err(stream_id: u32, message: &str) -> (r: Self)
        ensures
            r@ == frame_with(
                FRAME_OPEN_ERR,
                stream_id,
                at_most(bytes_of(message@), MAX_CONTROL_PAYLOAD as int),
            ),
    {
        let mut payload = to_bytes(message);
        payload.truncate(MAX_CONTROL_PAYLOAD);
        assert(payload@ =~= at_most(bytes_of(message@), MAX_CONTROL_PAYLOAD as int));
        Frame { kind: FRAME_OPEN_ERR, stream_id, payload }
    }

    /// Carries bytes of a stream.
    pub fn data(stream_id: u32, payload: Vec<u8>) -> (r: Self)
        ensures
            r@ == frame_with(FRAME_DATA, stream_id, payload@),
    {
        Frame { kind: FRAME_DATA, stream_id, payload }
    }

    /// Ends a stream.
    pub fn close(stream_id: u32) -> (r: Self)
        ensures
            r@ == bare_frame(FRAME_CLOSE, stream_id),
    {
        Frame { kind: FRAME_CLOSE, stream_id, payload: Vec::new() }
    }

    /// Asks for a sign of life.
    pub fn ping() -> (r: Self)
        ensures
            r@ == bare_frame(FRAME_PING, 0),
    {
        Frame { kind: FRAME_PING, stream_id: 0, payload: Vec::new() }
    }

    /// Answers a ping.
    pub fn pong() -> (r: Self)
        ensures
            r@ == bare_frame(FRAME_PONG, 0),
    {
        Frame { kind: FRAME_PONG, stream_id: 0, payload: Vec::new() }
    }
}

// ---------------------------------------------------------------------------
// The wire format

/// The bytes of a frame on the wire.
pub open spec fn encoded(f: FrameView) -> Seq<u8> {
    seq![80u8, 77u8, f.kind] + be32(f.stream_id as int) + be32(f.payload.len() as int) + f.payload
}

/// The bytes of `frame` on the wire.
pub fn write_frame(frame: &Frame) -> (r: Vec<u8>)
    requires
        frame.payload@.len() <= u32::MAX,
    ensures
        r@ == encoded(frame@),
{
    let mut out: Vec<u8> = Vec::new();
    out.push(80);
    out.push(77);
    out.push(frame.kind);
    assert(out@ =~= seq![80u8, 77u8, frame.kind]);
    push_be32(&mut out, frame.stream_id);
    push_be32(&mut out, frame.payload.len() as u32);
    extend(&mut out, frame.payload.as_slice());
    out
}

/// Whether the two magic bytes stand at position `i`.
pub open spec fn magic_at(b: Seq<u8>, i: int) -> bool {
    0 <= i && i + 2 <= b.len() && b[i] == 80 && b[i + 1] == 77
}

/// The first position of the magic bytes from `from` on.
pub open spec fn magic_from(b: Seq<u8>, from: int) -> Option<int>
    decreases b.len() - from,
{
    if from < 0 || from + 2 > b.len() {
        None
    } else if magic_at(b, from) {
        Some(from)
    } else {
        magic_from(b, from + 1)
    }
}

/// What the bytes received so far say about the next frame.
#[verifier::ext_equal]
pub enum Received {
    /// More bytes are needed.
    Incomplete,
    /// The frame announces a payload above the limit.
    TooLarge { kind: u8, stream_id: u32, payload_len: int },
    /// A frame, after `skipped` bytes that belong to none, using `used` bytes in all.
    Complete { frame: FrameView, skipped: int, used: int },
}

/// The next frame in `b`: bytes before the magic are skipped.
pub open spec fn received(b: Seq<u8>, max_payload: int) -> Received {
    match magic_from(b, 0) {
        None => Received::Incomplete,
        Some(i) => if b.len() < i + 11 {
            Received::Incomplete
        } else {
            let kind = b[i + 2];
            let stream_id = be32_at(b, i + 3) as u32;
            let len = be32_at(b, i + 7);
            if len > max_payload {
                Received::TooLarge { kind, stream_id, payload_len: len }
            } else if b.len() < i + 11 + len {
                Received::Incomplete
            } else {
                Received::Complete {
                    frame: FrameView {
                        kind,
                        stream_id,
                        payload: b.subrange(i + 11, i + 11 + len),
                    },
                    skipped: i,
                    used: i + 11 + len,
                }
            }
        },
    }
}

/// What `read_frame` found.
#[derive(Debug)]
pub enum FrameRead {
    Incomplete,
    TooLarge { kind: u8, stream_id: u32, payload_len: usize },
    Complete { frame: Frame, skipped: usize, used: usize },
}

impl View for FrameRead {
    type V = Received;

    open spec fn view(&self) -> Received {
        match self {
            FrameRead::Incomplete => Received::Incomplete,
            FrameRead::TooLarge { kind, stream_id, payload_len } => Received::TooLarge {
                kind: *kind,
                stream_id: *stream_id,
                payload_len: *payload_len as int,
            },
            FrameRead::Complete { frame, skipped, used } => Received::Complete {
                frame: frame@,
                skipped: *skipped as int,
                used: *used as int,
            },
        }
    }
}

/// Reads the next frame out of the bytes received so far. Bytes before the
/// magic are skipped, so that a reader finds back into a damaged stream.
pub fn read_frame(buf: &[u8], max_payload: usize) -> (r: FrameRead)
    ensures
        r@ == received(buf@, max_payload as int),
{
    let n: usize = buf.len();
    let mut i: usize = 0;
    if n < 2 {
        return FrameRead::Incomplete;
    }
    let top: usize = n - 2;
    while !(buf[i] == 80 && buf[i + 1] == 77)
        invariant
            n == buf@.len(),
            i <= top == n - 2,
            magic_from(buf@, 0) == magic_from(buf@, i as int),
        decreases top - i,
    {
        if i == top {
            assert(magic_from(buf@, i + 1) is None);
            return FrameRead::Incomplete;
        }
        i = i + 1;
    }
    assert(magic_from(buf@, 0) == Some(i as int));
    if n - i < 11 {
        return FrameRead::Incomplete;
    }
    let kind: u8 = buf[i + 2];
    let stream_id: u32 = read_be32(buf, i + 3);
    let payload_len: usize = read_be32(buf, i + 7) as usize;
    if payload_len > max_payload {
        return FrameRead::TooLarge { kind, stream_id, payload_len };
    }
    if n - i - 11 < payload_len {
        return FrameRead::Incomplete;
    }
    let payload = slice_of(buf, i + 11, i + 11 + payload_len);
    FrameRead::Complete {
        frame: Frame { kind, stream_id, payload },
        skipped: i,
        used: i + 11 + payload_len,
    }
}

/// Bytes in hexadecimal, in brackets and with commas between them.
pub open spec fn hex_list(b: Seq<u8>) -> Seq<char> {
    "["@ + joined(Seq::new(b.len(), |i: int| hex_of(seq![b[i]])), ", "@) + "]"@
}

fn list_hex(b: &[u8]) -> (r: String)
    ensures
        r@ == hex_list(b@),
{
    let mut parts: Vec<String> = Vec::new();
    let mut i: usize = 0;
    while i < b.len()
        invariant
            i <= b@.len(),
            views(parts@) =~= Seq::new(i as nat, |j: int| hex_of(seq![b@[j]])),
        decreases b@.len() - i,
    {
        let one = slice_of(b, i, i + 1);
        assert(one@ =~= seq![b@[i as int]]);
        let ghost before = parts@;
        parts.push(hex_encode(one.as_slice()));
        assert(views(parts@) =~= views(before).push(hex_of(seq![b@[i as int]])));
        i = i + 1;
    }
    let text = join(&parts, 0, ", ");
    assert(views(parts@).skip(0) =~= views(parts@));
    cat3("[", text.as_str(), "]")
}

/// What is told of a frame that announces a payload above the limit.
pub open spec fn too_large_text(max_payload: nat, kind: u8, stream_id: u32, payload_len: u32) -> Seq<
    char,
> {
    "mux frame exceeded "@ + decimal(max_payload) + " bytes (kind="@ + decimal(kind as nat)
        + " stream_id="@ + decimal(stream_id as nat) + " payload_len="@ + decimal(
        payload_len as nat,
    ) + " raw_magic=[50, 4d] raw="@ + hex_list(
        seq![kind] + be32(stream_id as int) + be32(payload_len as int),
    ) + ")"@
}

/// The failure of a session at a frame that announces a payload above the limit.
pub fn too_large(max_payload: usize, kind: u8, stream_id: u32, payload_len: u32) -> (r: Failure)
    ensures
        r@ == seq![too_large_text(max_payload as nat, kind, stream_id, payload_len)],
{
    let mut raw: Vec<u8> = Vec::new();
    raw.push(kind);
    push_be32(&mut raw, stream_id);
    push_be32(&mut raw, payload_len);
    assert(raw@ =~= seq![kind] + be32(stream_id as int) + be32(payload_len as int));
    let mut text = cat3(
        "mux frame exceeded ",
        to_decimal(max_payload as u64).as_str(),
        " bytes (kind=",
    );
    text.append(to_decimal(kind as u64).as_str());
    text.append(" stream_id=");
    text.append(to_decimal(stream_id as u64).as_str());
    text.append(" payload_len=");
    text.append(to_decimal(payload_len as u64).as_str());
    text.append(" raw_magic=[50, 4d] raw=");
    text.append(list_hex(raw.as_slice()).as_str());
    text.append(")");
    Failure::new(text.as_str())
}

proof fn lemma_magic_from(b: Seq<u8>, from: int)
    requires
        0 <= from,
    ensures
        match magic_from(b, from) {
            Some(i) => from <= i && magic_at(b, i) && forall|j: int|
                from <= j < i ==> !magic_at(b, j),
            None => forall|j: int| from <= j ==> !magic_at(b, j),
        },
    decreases b.len() - from,
{
    if from + 2 <= b.len() && !magic_at(b, from) {
        lemma_magic_from(b, from + 1);
    }
}

proof fn lemma_magic_is(b: Seq<u8>, from: int, i: int)
    requires
        0 <= from <= i,
        magic_at(b, i),
        forall|j: int| from <= j < i ==> !magic_at(b, j),
    ensures
        magic_from(b, from) == Some(i),
    decreases i - from,
{
    if from < i {
        lemma_magic_is(b, from + 1, i);
    }
}

/// Whether `g` can stand before a frame without being taken for part of one:
/// the magic does not begin in it.
pub open spec fn is_noise(g: Seq<u8>) -> bool {
    forall|j: int| 0 <= j < g.len() ==> !magic_at(g + seq![80u8], j)
}

/// A frame is read back from the wire as it was written, whatever bytes of
/// noise stand before it and whatever follows it.
pub proof fn frame_reads_back(noise: Seq<u8>, f: FrameView, rest: Seq<u8>, max_payload: int)
    requires
        is_noise(noise),
        f.payload.len() <= max_payload,
        f.payload.len() <= u32::MAX,
    ensures
        received(noise + encoded(f) + rest, max_payload) == (Received::Complete {
            frame: f,
            skipped: noise.len() as int,
            used: (noise.len() + encoded(f).len()) as int,
        }),
{
    let b = noise + encoded(f) + rest;
    let i = noise.len() as int;
    let e = encoded(f);
    assert(e.len() == 11 + f.payload.len());
    assert forall|k: int| 0 <= k < e.len() implies b[i + k] == e[k] by {}
    assert(magic_at(b, i));
    assert forall|j: int| 0 <= j < i implies !magic_at(b, j) by {
        let g = noise + seq![80u8];
        assert(!magic_at(g, j));
        assert(b[j] == g[j]);
        assert(b[j + 1] == g[j + 1]);
    }
    lemma_magic_is(b, 0, i);
    assert(b.subrange(i + 3, i + 7) =~= be32(f.stream_id as int));
    assert(b.subrange(i + 7, i + 11) =~= be32(f.payload.len() as int));
    be32_reads_back(b, i + 3, f.stream_id as int);
    be32_reads_back(b, i + 7, f.payload.len() as int);
    assert(b.subrange(i + 11, i + 11 + f.payload.len()) =~= f.payload);
}

/// What was read stays as it is when more bytes arrive.
pub proof fn more_bytes_keep_the_frame(b: Seq<u8>, more: Seq<u8>, max_payload: int)
    requires
        !(received(b, max_payload) is Incomplete),
    ensures
        received(b + more, max_payload) == received(b, max_payload),
{
    lemma_magic_from(b, 0);
    let i = magic_from(b, 0)->0;
    let c = b + more;
    assert forall|k: int| 0 <= k < b.len() implies c[k] == b[k] by {}
    assert(magic_at(c, i));
    assert forall|j: int| 0 <= j < i implies !magic_at(c, j) by {
        assert(!magic_at(b, j));
    }
    lemma_magic_is(c, 0, i);
    let len = be32_at(b, i + 7);
    if len <= max_payload {
        assert(c.subrange(i + 11, i + 11 + len) =~= b.subrange(i + 11, i + 11 + len));
    }
}

/// A frame on the wire is `P`, `M`, its kind, the number of its stream and the
/// length of its payload, each in four bytes with the most significant first, and
/// the payload.
pub proof fn frames_are_laid_out(f: &Frame, r: Vec<u8>)
    requires
        f.payload@.len() <= u32::MAX,
        call_ensures(write_frame, (f,), r),
    ensures
        r@.len() == 11 + f.payload@.len(),
        r@[0] == 0x50 && r@[1] == 0x4d && r@[2] == f.kind,
        r@[3] * 0x100_0000 + r@[4] * 0x1_0000 + r@[5] * 0x100 + r@[6] == f.stream_id,
        r@[7] * 0x100_0000 + r@[8] * 0x1_0000 + r@[9] * 0x100 + r@[10] == f.payload@.len(),
        r@.skip(11) == f.payload@,
{
    assert(r@.skip(11) =~= f.payload@);
    assert(r@.subrange(3, 7) =~= be32(f.stream_id as int));
    assert(r@.subrange(7, 11) =~= be32(f.payload@.len() as int));
    be32_reads_back(r@, 3, f.stream_id as int);
    be32_reads_back(r@, 7, f.payload@.len() as int);
}

/// The frame that one side writes is the frame that the other side reads, whatever
/// follows it.
pub proof fn frames_cross_the_wire(
    sent: &Frame,
    wire: Vec<u8>,
    rest: Seq<u8>,
    buf: &[u8],
    max_payload: usize,
    got: FrameRead,
)
    requires
        sent.payload@.len() <= max_payload,
        sent.payload@.len() <= u32::MAX,
        call_ensures(write_frame, (sent,), wire),
        buf@ == wire@ + rest,
        call_ensures(read_frame, (buf, max_payload), got),
    ensures
        got matches FrameRead::Complete { frame, skipped, used } && frame@ == sent@ && skipped == 0
            && used == wire@.len(),
{
    let none = Seq::<u8>::empty();
    assert(none + encoded(sent@) + rest =~= wire@ + rest);
    frame_reads_back(none, sent@, rest, max_payload as int);
}

/// A frame of which a part is missing is waited for, and one that announces more
/// than is allowed is not.
pub proof fn broken_off_frames_are_waited_for(
    sent: &Frame,
    wire: Vec<u8>,
    buf: &[u8],
    max_payload: usize,
    got: FrameRead,
)
    requires
        sent.payload@.len() <= u32::MAX,
        call_ensures(write_frame, (sent,), wire),
        buf@.len() < wire@.len(),
        buf@ == wire@.take(buf@.len() as int),
        call_ensures(read_frame, (buf, max_payload), got),
    ensures
        sent.payload@.len() <= max_payload ==> got is Incomplete,
        sent.payload@.len() > max_payload && buf@.len() >= 11 ==> (
        got matches FrameRead::TooLarge { kind, stream_id, payload_len } && kind == sent.kind
            && stream_id == sent.stream_id && payload_len == sent.payload@.len()),
{
    let b = buf@;
    let e = wire@;
    assert(forall|k: int| 0 <= k < b.len() ==> b[k] == e[k]);
    if b.len() >= 2 {
        assert(magic_at(b, 0));
        lemma_magic_is(b, 0, 0);
        if b.len() >= 11 {
            assert(b.subrange(3, 7) =~= be32(sent.stream_id as int));
            assert(b.subrange(7, 11) =~= be32(sent.payload@.len() as int));
            be32_reads_back(b, 3, sent.stream_id as int);
            be32_reads_back(b, 7, sent.payload@.len() as int);
        }
    }
}

} // verus!
