//! Datagrams on a stream: two bytes of length, then the payload.

use vstd::prelude::*;
use crate::bytes::{be16, be16_at, extend, push_be16, read_be16, slice_of};
use crate::failure::{outcome, Failure};
use crate::num::{decimal, to_decimal};
use crate::text::cat3;

verus! {

/// The longest payload that a frame can hold.
pub const MAX_UDP_FRAME_SIZE: usize = 65535;

/// What the bytes that have come in so far hold of a frame.
pub enum FrameRead {
    /// More bytes are needed.
    Incomplete,
    /// The frame is longer than allowed.
    TooLarge(Failure),
    /// The payload, and how many bytes the frame takes.
    Complete(Vec<u8>, usize),
}

/// What bytes hold of a frame.
#[verifier::ext_equal]
pub enum Received {
    Incomplete,
    TooLarge,
    Complete(Seq<u8>, int),
}

/// What bytes hold of a frame whose payload may have so many bytes.
pub open spec fn received_in(b: Seq<u8>, max_size: int) -> Received {
    if b.len() < 2 {
        Received::Incomplete
    } else if be16_at(b, 0) > max_size {
        Received::TooLarge
    } else if b.len() < 2 + be16_at(b, 0) {
        Received::Incomplete
    } else {
        Received::Complete(b.subrange(2, 2 + be16_at(b, 0)), 2 + be16_at(b, 0))
    }
}

/// Reads the frame that the bytes start with.
pub fn read_frame(received: &[u8], max_size: usize) -> (r: FrameRead)
    ensures
        match (r, received_in(received@, max_size as int)) {
            (FrameRead::Incomplete, Received::Incomplete) => true,
            (FrameRead::TooLarge(e), Received::TooLarge) => e@ == seq![
                "UDP frame exceeded "@ + decimal(max_size as nat) + " bytes"@,
            ],
            (FrameRead::Complete(payload, used), Received::Complete(p, n)) => payload@ == p && used
                == n,
            _ => false,
        },
{
    if received.len() < 2 {
        return FrameRead::Incomplete;
    }
    let length: usize = read_be16(received, 0) as usize;
    if length > max_size {
        return FrameRead::TooLarge(
            Failure::new(
                cat3("UDP frame exceeded ", to_decimal(max_size as u64).as_str(), " bytes").as_str(),
            ),
        );
    }
    if received.len() - 2 < length {
        return FrameRead::Incomplete;
    }
    FrameRead::Complete(slice_of(received, 2, length + 2), length + 2)
}

/// The bytes of a frame.
pub open spec fn frame_bytes(payload: Seq<u8>) -> Seq<u8> {
    be16(payload.len() as int) + payload
}

/// The bytes of a frame with the given payload.
pub fn write_frame(payload: &[u8]) -> (r: Result<Vec<u8>, Failure>)
    ensures
        match outcome(r) {
            Ok(b) => payload@.len() <= MAX_UDP_FRAME_SIZE && b@ == frame_bytes(payload@),
            Err(e) => payload@.len() > MAX_UDP_FRAME_SIZE && e
                == seq!["UDP payload exceeded 65535 bytes"@],
        },
{
    if payload.len() > MAX_UDP_FRAME_SIZE {
        return Err(Failure::new("UDP payload exceeded 65535 bytes"));
    }
    let mut out: Vec<u8> = Vec::new();
    push_be16(&mut out, payload.len() as u16);
    extend(&mut out, payload);
    assert(out@ =~= frame_bytes(payload@));
    Ok(out)
}

/// What an error is made of, from the outside in.
#[derive(Clone, Copy, Debug, PartialEq, Eq, Structural)]
pub enum Cause {
    /// A stream ended too early.
    UnexpectedEof,
    /// Anything else.
    Other,
}

/// Why no frame could be read: what is told of it, and what it is made of.
#[derive(Debug)]
pub struct ReadFailure {
    pub failure: Failure,
    pub causes: Vec<Cause>,
}

/// The failure of reading that breaks off within the frame that the given bytes
/// start. It is an early end of the stream just where the cause is one.
pub fn cut_off(received: &[u8], cause: Cause, text: &str) -> (r: ReadFailure)
    ensures
        r.failure@ == seq![
            if received@.len() < 2 {
                "failed to read UDP frame length"@
            } else {
                "failed to read UDP frame payload"@
            },
            text@,
        ],
        r.causes@ == seq![Cause::Other, cause],
        ends_early(r.causes@) == (cause == Cause::UnexpectedEof),
{
    let message = if received.len() < 2 {
        "failed to read UDP frame length"
    } else {
        "failed to read UDP frame payload"
    };
    let mut causes: Vec<Cause> = Vec::new();
    causes.push(Cause::Other);
    causes.push(cause);
    assert(causes@ =~= seq![Cause::Other, cause]);
    assert(causes@[1] == cause);
    ReadFailure { failure: Failure::caused(message, text), causes }
}

/// Whether one of the causes is that a stream ended too early.
pub open spec fn ends_early(causes: Seq<Cause>) -> bool {
    causes.contains(Cause::UnexpectedEof)
}

/// What is told around an error does not change whether a stream ended too early.
pub proof fn a_context_does_not_matter(causes: Seq<Cause>)
    ensures
        ends_early(seq![Cause::Other] + causes) == ends_early(causes),
{
    let all = seq![Cause::Other] + causes;
    if ends_early(causes) {
        let i = choose|i: int| 0 <= i < causes.len() && causes[i] == Cause::UnexpectedEof;
        assert(all[i + 1] == Cause::UnexpectedEof);
    }
    if ends_early(all) {
        let i = choose|i: int| 0 <= i < all.len() && all[i] == Cause::UnexpectedEof;
        assert(causes[i - 1] == Cause::UnexpectedEof);
    }
}

/// Whether one of the causes is that a stream ended too early.
pub fn is_eof(causes: &Vec<Cause>) -> (r: bool)
    ensures
        r == ends_early(causes@),
{
    let mut i: usize = 0;
    while i < causes.len()
        invariant
            i <= causes@.len(),
            forall|k: int| 0 <= k < i ==> causes@[k] != Cause::UnexpectedEof,
        decreases causes@.len() - i,
    {
        if causes[i] == Cause::UnexpectedEof {
            assert(causes@[i as int] == Cause::UnexpectedEof);
            return true;
        }
        i = i + 1;
    }
    false
}

/// Reading gives back the payload that was written, whatever follows it.
pub proof fn frame_reads_back(payload: Seq<u8>, rest: Seq<u8>)
    requires
        payload.len() <= MAX_UDP_FRAME_SIZE,
    ensures
        received_in(frame_bytes(payload) + rest, MAX_UDP_FRAME_SIZE as int) == Received::Complete(
            payload,
            frame_bytes(payload).len() as int,
        ),
{
    let b = frame_bytes(payload) + rest;
    assert(b.subrange(0, 2) =~= be16(payload.len() as int));
    crate::bytes::be16_reads_back(b, 0, payload.len() as int);
    assert(b.subrange(2, (2 + payload.len()) as int) =~= payload);
}

/// A datagram that is sent through a tunnel comes out of it as it was, whatever
/// follows it; only one that a length of two bytes cannot count is not sent.
pub proof fn datagrams_cross_the_tunnel(
    payload: &[u8],
    written: Result<Vec<u8>, Failure>,
    received: &[u8],
    rest: Seq<u8>,
    max_size: usize,
    r: FrameRead,
)
    requires
        call_ensures(write_frame, (payload,), written),
        written matches Ok(b) ==> received@ == b@ + rest,
        call_ensures(read_frame, (received, max_size), r),
    ensures
        written is Ok <==> payload@.len() < 65536,
        written matches Ok(b) ==> b@.len() == payload@.len() + 2 && b@[0] * 256 + b@[1]
            == payload@.len() && b@.skip(2) == payload@,
        written is Ok && payload@.len() <= max_size ==> (r matches FrameRead::Complete(p, n) && p@
            == payload@ && n == payload@.len() + 2),
        written is Ok && payload@.len() > max_size ==> r is TooLarge,
{
    if let Ok(b) = written {
        frame_reads_back(payload@, rest);
        assert(b@.skip(2) =~= payload@);
    }
}

/// A datagram of which bytes are missing is waited for.
pub proof fn broken_off_datagrams_are_waited_for(
    payload: &[u8],
    written: Result<Vec<u8>, Failure>,
    received: &[u8],
    r: FrameRead,
)
    requires
        call_ensures(write_frame, (payload,), written),
        written matches Ok(b) && received@.len() < b@.len() && received@ == b@.take(
            received@.len() as int,
        ),
        call_ensures(read_frame, (received, MAX_UDP_FRAME_SIZE), r),
    ensures
        r is Incomplete,
{
    if let Ok(b) = written {
        if received@.len() >= 2 {
            assert(received@.subrange(0, 2) =~= be16(payload@.len() as int));
            crate::bytes::be16_reads_back(received@, 0, payload@.len() as int);
        }
    }
}

/// Reading that breaks off is an early end just where its cause is one, and what is
/// told ends with the cause.
pub proof fn early_ends_are_told_apart(
    received: &[u8],
    cause: Cause,
    text: &str,
    f: ReadFailure,
    r: bool,
)
    requires
        call_ensures(cut_off, (received, cause, text), f),
        call_ensures(is_eof, (&f.causes,), r),
    ensures
        r <==> cause == Cause::UnexpectedEof,
        f.failure@.last() == text@,
{
}

} // verus!
