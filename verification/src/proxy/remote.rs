//! Tunnels through the server.

use vstd::prelude::*;
use crate::failure::{outcome, timed_out, Failure};
use crate::http::{explain_response, parse_tunnel_response, HttpError};
use crate::mux::session::response_parts;
use crate::num::{decimal, to_decimal};
use crate::auth::{carries, drawn, proof_with, tag_of, ProofView};
use crate::proxy::auth::{proof_views, AuthProof};
use crate::text::{cat, cat3, opt_view};

verus! {

/// What a tunnel carries.
#[derive(Clone, Copy, Debug, PartialEq, Eq, Structural)]
pub enum TunnelTransport {
    Tcp,
    Udp,
}

/// What the body of a request for a tunnel says.
#[derive(Debug)]
pub struct RemotePayload {
    pub target: String,
    pub transport: TunnelTransport,
    pub timestamp: i64,
    pub nonce: String,
    pub signature: String,
}

/// The proof that a payload carries.
pub open spec fn payload_proof(p: RemotePayload) -> ProofView {
    ProofView { timestamp: p.timestamp as int, nonce: p.nonce@, signature: p.signature@ }
}

/// Whether a payload for a target tells what was signed, or fails as signing did.
pub open spec fn tells_signed(
    r: Result<RemotePayload, Failure>,
    target: Seq<char>,
    transport: TunnelTransport,
    signed: Result<ProofView, Seq<Seq<char>>>,
) -> bool {
    match (r, signed) {
        (Ok(p), Ok(v)) => p.target@ == target && p.transport == transport && payload_proof(p) == v,
        (Err(e), Err(f)) => e@ == f,
        _ => false,
    }
}

/// The payload of a request for a tunnel to a target, for what came of signing
/// it.
pub fn tunnel_payload_with(
    target: &str,
    transport: TunnelTransport,
    signed: Result<AuthProof, Failure>,
) -> (r: Result<RemotePayload, Failure>)
    ensures
        tells_signed(r, target@, transport, proof_views(signed)),
{
    match signed {
        Err(e) => Err(e),
        Ok(proof) => Ok(
            RemotePayload {
                target: target.to_owned(),
                transport,
                timestamp: proof.timestamp,
                nonce: proof.nonce,
                signature: proof.signature,
            },
        ),
    }
}

/// The payload of a request for a tunnel to a target, signed now with a nonce of
/// 16 fresh random bytes. There is none only where the clock stands before the
/// epoch or no random bytes can be had.
pub fn tunnel_payload(
    password: &str,
    path: &str,
    target: &str,
    transport: TunnelTransport,
) -> (r: Result<RemotePayload, Failure>)
    ensures
        r matches Ok(p) ==> {
            &&& p.target@ == target@
            &&& p.transport == transport
            &&& carries(
                payload_proof(p),
                tag_of(password@, "POST"@, path@, target@, p.timestamp as int, p.nonce@),
            )
        },
        exists|clock: Result<i64, Seq<char>>, random: Result<Seq<u8>, Seq<char>>|
            drawn(random, 16) && tells_signed(
                r,
                target@,
                transport,
                #[trigger] proof_with(password@, "POST"@, path@, target@, clock, random),
            ),
{
    tunnel_payload_with(target, transport, AuthProof::sign(password, "POST", path, target))
}

/// What can go wrong before the server answers.
#[derive(Debug)]
pub enum RemoteFault {
    ConnectTimedOut,
    HandshakeFailed(Failure),
    HandshakeTimedOut,
    ResponseFailed(Failure),
    ResponseTimedOut,
}

/// What is told of such a fault.
pub open spec fn fault_text(fault: RemoteFault) -> Seq<Seq<char>> {
    match fault {
        RemoteFault::ConnectTimedOut => timed_out("server connect timed out"@),
        RemoteFault::HandshakeFailed(e) => seq!["TLS handshake with server failed"@] + e@,
        RemoteFault::HandshakeTimedOut => seq!["TLS handshake with server timed out"@],
        RemoteFault::ResponseFailed(e) => seq!["failed to read server response"@] + e@,
        RemoteFault::ResponseTimedOut => seq!["server response timed out"@],
    }
}

/// The failure of a tunnel at such a fault.
pub fn tunnel_failure(fault: RemoteFault) -> (r: Failure)
    ensures
        r@ == fault_text(fault),
{
    match fault {
        RemoteFault::ConnectTimedOut => Failure::timed_out("server connect timed out"),
        RemoteFault::HandshakeFailed(e) => e.context("TLS handshake with server failed"),
        RemoteFault::HandshakeTimedOut => Failure::new("TLS handshake with server timed out"),
        RemoteFault::ResponseFailed(e) => e.context("failed to read server response"),
        RemoteFault::ResponseTimedOut => Failure::new("server response timed out"),
    }
}

/// Why the answer of the server, with what its body tells, opens no tunnel.
pub open spec fn refusal(head: Seq<u8>, detail: Option<Seq<char>>) -> Option<Seq<Seq<char>>> {
    match response_parts(head) {
        Err(e) => Some(seq!["invalid server response"@] + e),
        Ok((http1, status, reason)) => if !http1 {
            Some(seq!["server returned an unsupported HTTP version"@])
        } else if status == 200 {
            None
        } else {
            let text = "server refused tunnel with status "@ + decimal(status as nat) + " "@
                + reason;
            Some(
                match detail {
                    Some(d) => seq![text + ": "@ + d],
                    None => seq![text],
                },
            )
        },
    }
}

/// Fails unless the answer of the server opens the tunnel.
pub fn establish_remote_tunnel(head: &[u8], detail: &Option<String>) -> (r: Result<(), Failure>)
    ensures
        match (outcome(r), refusal(head@, opt_view(*detail))) {
            (Ok(_), None) => true,
            (Err(e), Some(f)) => e == f,
            _ => false,
        },
{
    match parse_tunnel_response(head) {
        Err(e) => {
            Err(explain_response(head, e).context("invalid server response"))
        },
        Ok((http1, status, reason)) => {
            if !http1 {
                return Err(Failure::new("server returned an unsupported HTTP version"));
            }
            if status == 200 {
                return Ok(());
            }
            let text = cat(
                cat3(
                    "server refused tunnel with status ",
                    to_decimal(status as u64).as_str(),
                    " ",
                ).as_str(),
                reason.as_str(),
            );
            match detail {
                Some(d) => Err(Failure::new(cat3(text.as_str(), ": ", d.as_str()).as_str())),
                None => Err(Failure::new(text.as_str())),
            }
        },
    }
}

// ---------------------------------------------------------------------------
// Laws

/// The body of a tunnel request names the target that it was asked for, and carries
/// what was signed for it.
pub proof fn payloads_name_their_target(
    target: &str,
    transport: TunnelTransport,
    signed: Result<AuthProof, Failure>,
    r: Result<RemotePayload, Failure>,
)
    requires
        call_ensures(tunnel_payload_with, (target, transport, signed), r),
    ensures
        signed matches Ok(p) ==> r is Ok && (r->Ok_0).target@ == target@ && (r->Ok_0).transport
            == transport && (r->Ok_0).timestamp == p.timestamp && (r->Ok_0).nonce@ == p.nonce@ && (
        r->Ok_0).signature@ == p.signature@,
        signed matches Err(e) ==> r is Err && (r->Err_0)@ == e@,
{
}

/// A tunnel is open just where the answer is HTTP/1 with the status 200.
pub proof fn only_success_opens_a_tunnel(
    head: &[u8],
    detail: &Option<String>,
    read: Result<(bool, u16, String), HttpError>,
    r: Result<(), Failure>,
)
    requires
        call_ensures(parse_tunnel_response, (head,), read),
        call_ensures(establish_remote_tunnel, (head, detail), r),
    ensures
        r is Ok <==> (read matches Ok((http1, status, _)) && http1 && status == 200),
{
}

/// A tunnel that could not be opened fails with the cause of the step that failed.
pub proof fn payloads_fail_as_signing_did(
    target: &str,
    transport: TunnelTransport,
    cause: Failure,
    r: Result<RemotePayload, Failure>,
)
    requires
        call_ensures(tunnel_payload_with, (target, transport, Err::<AuthProof, Failure>(cause)), r),
    ensures
        r matches Err(e) && e@ == cause@,
{
}

} // verus!
