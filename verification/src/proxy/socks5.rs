//! The SOCKS5 protocol: negotiation, replies and UDP packets.

use vstd::prelude::*;
use crate::bytes::{be16, be16_at, be16_reads_back, be32, be32_at, be32_reads_back, extend, push_be16, push_be32, read_be16, read_be32, slice_of};
use crate::failure::Failure;
use crate::ip::{ip_text, ip_to_string, push_v6, read_v6, socket_text, socket_to_string, v6_bytes, v6_bytes_give_the_address, v6_of_bytes, IpAddr, SocketAddr};
use crate::num::{decimal, to_decimal};
use crate::text::{
    bytes_of, lemma_utf8_reads_back, read_utf8, to_bytes, utf8, utf8_fault, utf8_text,
};

verus! {

pub const REP_GENERAL_FAILURE: u8 = 1;

pub const REP_COMMAND_NOT_SUPPORTED: u8 = 7;

pub const REP_ADDRESS_NOT_SUPPORTED: u8 = 8;

/// Where a client wants to go.
#[derive(Clone, Debug, Eq, PartialEq)]
pub enum TargetAddr {
    Ip(IpAddr, u16),
    Domain(String, u16),
}

/// What a target says.
#[verifier::ext_equal]
pub enum TargetView {
    Ip(IpAddr, u16),
    Domain(Seq<char>, u16),
}

impl View for TargetAddr {
    type V = TargetView;

    open spec fn view(&self) -> TargetView {
        match self {
            TargetAddr::Ip(ip, port) => TargetView::Ip(*ip, *port),
            TargetAddr::Domain(host, port) => TargetView::Domain(host@, *port),
        }
    }
}

/// The host of a target.
pub open spec fn target_host(t: TargetView) -> Seq<char> {
    match t {
        TargetView::Ip(ip, _) => ip_text(ip),
        TargetView::Domain(host, _) => host,
    }
}

/// The port of a target.
pub open spec fn target_port(t: TargetView) -> u16 {
    match t {
        TargetView::Ip(_, port) => port,
        TargetView::Domain(_, port) => port,
    }
}

/// The text of a target: the host, a colon and the port.
pub open spec fn target_text(t: TargetView) -> Seq<char> {
    match t {
        TargetView::Ip(ip, port) => socket_text(ip, port as nat),
        TargetView::Domain(host, port) => host + ":"@ + decimal(port as nat),
    }
}

impl TargetAddr {
    /// The text of the target.
    pub fn to_text(&self) -> (r: String)
        ensures
            r@ == target_text(self@),
    {
        match self {
            TargetAddr::Ip(ip, port) => socket_to_string(*ip, *port),
            TargetAddr::Domain(host, port) => {
                let mut s: String = host.clone();
                s.append(":");
                s.append(to_decimal(*port as u64).as_str());
                s
            },
        }
    }

    /// The host of the target.
    pub fn host_string(&self) -> (r: String)
        ensures
            r@ == target_host(self@),
    {
        match self {
            TargetAddr::Ip(ip, _) => ip_to_string(*ip),
            TargetAddr::Domain(host, _) => host.clone(),
        }
    }

    /// The port of the target.
    pub fn port(&self) -> (r: u16)
        ensures
            r == target_port(self@),
    {
        match self {
            TargetAddr::Ip(_, port) => *port,
            TargetAddr::Domain(_, port) => *port,
        }
    }

    /// The target that a socket address names.
    pub fn from_socket_addr(addr: SocketAddr) -> (r: Self)
        ensures
            r@ == TargetView::Ip(addr.ip, addr.port),
    {
        TargetAddr::Ip(addr.ip, addr.port)
    }

    /// A target equal to this one.
    pub fn copy(&self) -> (r: Self)
        ensures
            r@ == self@,
    {
        match self {
            TargetAddr::Ip(ip, port) => TargetAddr::Ip(*ip, *port),
            TargetAddr::Domain(host, port) => TargetAddr::Domain(host.clone(), *port),
        }
    }
}

/// What a client asks for.
#[derive(Clone, Debug, Eq, PartialEq)]
pub enum Request {
    Connect(TargetAddr),
    UdpAssociate(TargetAddr),
}

/// What a request says.
#[verifier::ext_equal]
pub enum RequestView {
    Connect(TargetView),
    UdpAssociate(TargetView),
}

impl View for Request {
    type V = RequestView;

    open spec fn view(&self) -> RequestView {
        match self {
            Request::Connect(t) => RequestView::Connect(t@),
            Request::UdpAssociate(t) => RequestView::UdpAssociate(t@),
        }
    }
}

/// A datagram with the target that it is for or from.
#[derive(Clone, Debug, Eq, PartialEq)]
pub struct UdpPacket {
    pub target: TargetAddr,
    pub payload: Vec<u8>,
}

/// Why a message was not accepted.
#[derive(Debug, Clone, Copy, PartialEq, Eq, Structural)]
pub enum SocksError {
    UnsupportedVersion(u8),
    AuthenticationRequired,
    UnsupportedRequestVersion(u8),
    UnsupportedCommand(u8),
    OnlyConnect,
    UdpAssociateUnsupported,
    UnsupportedAddressType(u8),
    DomainNotUtf8,
    PacketTooShort,
    ReservedBytes,
    Fragmentation,
    MissingAddressType,
    TruncatedV4,
    TruncatedDomain,
    TruncatedV6,
}

impl SocksError {
    /// The text of the error.
    pub open spec fn text(self) -> Seq<char> {
        match self {
            SocksError::UnsupportedVersion(v) => "unsupported SOCKS version "@ + decimal(v as nat),
            SocksError::AuthenticationRequired =>
                "SOCKS client requires unsupported authentication"@,
            SocksError::UnsupportedRequestVersion(v) => "unsupported SOCKS request version "@
                + decimal(v as nat),
            SocksError::UnsupportedCommand(c) => "SOCKS command "@ + decimal(c as nat)
                + " is not supported"@,
            SocksError::OnlyConnect => "only CONNECT is supported"@,
            SocksError::UdpAssociateUnsupported => "UDP ASSOCIATE is not supported yet"@,
            SocksError::UnsupportedAddressType(t) => "unsupported SOCKS address type "@ + decimal(
                t as nat,
            ),
            SocksError::DomainNotUtf8 => "domain target is not valid UTF-8"@,
            SocksError::PacketTooShort => "SOCKS UDP packet is too short"@,
            SocksError::ReservedBytes => "SOCKS UDP packet has invalid reserved bytes"@,
            SocksError::Fragmentation => "SOCKS UDP fragmentation is not supported"@,
            SocksError::MissingAddressType => "SOCKS target is missing address type"@,
            SocksError::TruncatedV4 => "SOCKS IPv4 target is truncated"@,
            SocksError::TruncatedDomain => "SOCKS domain target is truncated"@,
            SocksError::TruncatedV6 => "SOCKS IPv6 target is truncated"@,
        }
    }

    /// The text of the error.
    pub fn message(&self) -> (r: String)
        ensures
            r@ == self.text(),
    {
        match self {
            SocksError::UnsupportedVersion(v) => {
                let mut s: String = "unsupported SOCKS version ".to_owned();
                s.append(to_decimal(*v as u64).as_str());
                s
            },
            SocksError::AuthenticationRequired => {
                "SOCKS client requires unsupported authentication".to_owned()
            },
            SocksError::UnsupportedRequestVersion(v) => {
                let mut s: String = "unsupported SOCKS request version ".to_owned();
                s.append(to_decimal(*v as u64).as_str());
                s
            },
            SocksError::UnsupportedCommand(c) => {
                let mut s: String = "SOCKS command ".to_owned();
                s.append(to_decimal(*c as u64).as_str());
                s.append(" is not supported");
                s
            },
            SocksError::OnlyConnect => "only CONNECT is supported".to_owned(),
            SocksError::UdpAssociateUnsupported => "UDP ASSOCIATE is not supported yet".to_owned(),
            SocksError::UnsupportedAddressType(t) => {
                let mut s: String = "unsupported SOCKS address type ".to_owned();
                s.append(to_decimal(*t as u64).as_str());
                s
            },
            SocksError::DomainNotUtf8 => "domain target is not valid UTF-8".to_owned(),
            SocksError::PacketTooShort => "SOCKS UDP packet is too short".to_owned(),
            SocksError::ReservedBytes => "SOCKS UDP packet has invalid reserved bytes".to_owned(),
            SocksError::Fragmentation => "SOCKS UDP fragmentation is not supported".to_owned(),
            SocksError::MissingAddressType => "SOCKS target is missing address type".to_owned(),
            SocksError::TruncatedV4 => "SOCKS IPv4 target is truncated".to_owned(),
            SocksError::TruncatedDomain => "SOCKS domain target is truncated".to_owned(),
            SocksError::TruncatedV6 => "SOCKS IPv6 target is truncated".to_owned(),
        }
    }
}

// ---------------------------------------------------------------------------
// Targets on the wire

/// The bytes of a target: the address type, the address and the port.
pub open spec fn target_bytes(t: TargetView) -> Seq<u8> {
    match t {
        TargetView::Ip(IpAddr::V4(n), port) => seq![1u8] + be32(n as int) + be16(port as int),
        TargetView::Ip(IpAddr::V6(n), port) => seq![4u8] + v6_bytes(n) + be16(port as int),
        TargetView::Domain(host, port) => seq![3u8, (bytes_of(host).len() % 256) as u8] + bytes_of(
            host,
        ) + be16(port as int),
    }
}

/// Appends the bytes of a target.
pub fn encode_target(target: &TargetAddr, out: &mut Vec<u8>)
    ensures
        final(out)@ == old(out)@ + target_bytes(target@),
{
    let ghost before = out@;
    match target {
        TargetAddr::Ip(IpAddr::V4(n), port) => {
            out.push(1);
            push_be32(out, *n);
            push_be16(out, *port);
        },
        TargetAddr::Domain(host, port) => {
            out.push(3);
            let b = to_bytes(host.as_str());
            out.push((b.len() % 256) as u8);
            extend(out, b.as_slice());
            push_be16(out, *port);
        },
        TargetAddr::Ip(IpAddr::V6(n), port) => {
            out.push(4);
            push_v6(out, *n);
            push_be16(out, *port);
        },
    }
    assert(out@ =~= before + target_bytes(target@));
}

/// The target at the start of `b`, and the number of bytes that it takes.
pub open spec fn decoded_target(b: Seq<u8>) -> Result<(TargetView, int), SocksError> {
    if b.len() == 0 {
        Err(SocksError::MissingAddressType)
    } else if b[0] == 1 {
        if b.len() < 7 {
            Err(SocksError::TruncatedV4)
        } else {
            Ok((TargetView::Ip(IpAddr::V4(be32_at(b, 1) as u32), be16_at(b, 5) as u16), 7))
        }
    } else if b[0] == 3 {
        if b.len() < 2 || b.len() < 4 + b[1] {
            Err(SocksError::TruncatedDomain)
        } else {
            let end = 2 + b[1];
            match utf8(b.subrange(2, end)) {
                None => Err(SocksError::DomainNotUtf8),
                Some(host) => Ok((TargetView::Domain(host, be16_at(b, end) as u16), end + 2)),
            }
        }
    } else if b[0] == 4 {
        if b.len() < 19 {
            Err(SocksError::TruncatedV6)
        } else {
            Ok(
                (
                    TargetView::Ip(
                        IpAddr::V6(v6_of_bytes(b.subrange(1, 17))),
                        be16_at(b, 17) as u16,
                    ),
                    19,
                ),
            )
        }
    } else {
        Err(SocksError::UnsupportedAddressType(b[0]))
    }
}

/// Reads the target at the start of `bytes`.
pub fn decode_target(bytes: &[u8]) -> (r: Result<(TargetAddr, usize), SocksError>)
    ensures
        match (r, decoded_target(bytes@)) {
            (Ok((t, n)), Ok((u, m))) => t@ == u && n == m && n <= bytes@.len(),
            (Err(e), Err(f)) => e == f,
            _ => false,
        },
{
    let len: usize = bytes.len();
    if len == 0 {
        return Err(SocksError::MissingAddressType);
    }
    if bytes[0] == 1 {
        if len < 7 {
            return Err(SocksError::TruncatedV4);
        }
        return Ok((TargetAddr::Ip(IpAddr::V4(read_be32(bytes, 1)), read_be16(bytes, 5)), 7));
    }
    if bytes[0] == 3 {
        if len < 2 {
            return Err(SocksError::TruncatedDomain);
        }
        let end: usize = 2 + bytes[1] as usize;
        if len < end + 2 {
            return Err(SocksError::TruncatedDomain);
        }
        let name = slice_of(bytes, 2, end);
        return match utf8_text(name.as_slice()) {
            None => Err(SocksError::DomainNotUtf8),
            Some(host) => Ok((TargetAddr::Domain(host, read_be16(bytes, end)), end + 2)),
        };
    }
    if bytes[0] == 4 {
        if len < 19 {
            return Err(SocksError::TruncatedV6);
        }
        return Ok((TargetAddr::Ip(IpAddr::V6(read_v6(bytes, 1)), read_be16(bytes, 17)), 19));
    }
    Err(SocksError::UnsupportedAddressType(bytes[0]))
}

/// Whether a target fits into a message: a name of at most 255 bytes.
pub open spec fn fits(t: TargetView) -> bool {
    match t {
        TargetView::Domain(host, _) => bytes_of(host).len() <= 255,
        _ => true,
    }
}

/// A target is read back from the wire as it was written, whatever follows it.
pub proof fn target_reads_back(t: TargetView, rest: Seq<u8>)
    requires
        fits(t),
    ensures
        decoded_target(target_bytes(t) + rest) == Ok::<(TargetView, int), SocksError>(
            (t, target_bytes(t).len() as int),
        ),
{
    let b = target_bytes(t) + rest;
    match t {
        TargetView::Ip(IpAddr::V4(n), port) => {
            assert(b.subrange(1, 5) =~= be32(n as int));
            assert(b.subrange(5, 7) =~= be16(port as int));
            be32_reads_back(b, 1, n as int);
            be16_reads_back(b, 5, port as int);
        },
        TargetView::Ip(IpAddr::V6(n), port) => {
            assert(b.subrange(1, 17) =~= v6_bytes(n));
            assert(b.subrange(17, 19) =~= be16(port as int));
            v6_bytes_give_the_address(n);
            be16_reads_back(b, 17, port as int);
        },
        TargetView::Domain(host, port) => {
            let n = bytes_of(host).len() as int;
            assert(b[1] == n);
            assert(b.subrange(2, 2 + n) =~= bytes_of(host));
            assert(b.subrange(2 + n, 4 + n) =~= be16(port as int));
            lemma_utf8_reads_back(host);
            be16_reads_back(b, 2 + n, port as int);
        },
    }
}

// ---------------------------------------------------------------------------
// UDP packets

/// The bytes of a packet.
pub open spec fn packet_bytes(t: TargetView, payload: Seq<u8>) -> Seq<u8> {
    seq![0u8, 0u8, 0u8] + target_bytes(t) + payload
}

/// Builds the packet that carries `payload` for `target`.
pub fn build_udp_packet(target: &TargetAddr, payload: &[u8]) -> (r: Vec<u8>)
    ensures
        r@ == packet_bytes(target@, payload@),
{
    let mut packet: Vec<u8> = Vec::new();
    packet.push(0);
    packet.push(0);
    packet.push(0);
    assert(packet@ =~= seq![0u8, 0u8, 0u8]);
    encode_target(target, &mut packet);
    extend(&mut packet, payload);
    packet
}

/// What a packet says.
pub open spec fn packet_value(b: Seq<u8>) -> Result<(TargetView, Seq<u8>), SocksError> {
    if b.len() < 4 {
        Err(SocksError::PacketTooShort)
    } else if b[0] != 0 || b[1] != 0 {
        Err(SocksError::ReservedBytes)
    } else if b[2] != 0 {
        Err(SocksError::Fragmentation)
    } else {
        match decoded_target(b.skip(3)) {
            Ok((t, n)) => Ok((t, b.skip(3 + n))),
            Err(e) => Err(e),
        }
    }
}

/// Reads a packet.
pub fn parse_udp_packet(datagram: &[u8]) -> (r: Result<UdpPacket, SocksError>)
    ensures
        match (r, packet_value(datagram@)) {
            (Ok(p), Ok((t, payload))) => p.target@ == t && p.payload@ == payload,
            (Err(e), Err(f)) => e == f,
            _ => false,
        },
{
    let len: usize = datagram.len();
    if len < 4 {
        return Err(SocksError::PacketTooShort);
    }
    if datagram[0] != 0 || datagram[1] != 0 {
        return Err(SocksError::ReservedBytes);
    }
    if datagram[2] != 0 {
        return Err(SocksError::Fragmentation);
    }
    let rest = slice_of(datagram, 3, len);
    assert(rest@ =~= datagram@.skip(3));
    match decode_target(rest.as_slice()) {
        Ok((target, n)) => {
            let payload = slice_of(datagram, 3 + n, len);
            assert(payload@ =~= datagram@.skip(3 + n));
            Ok(UdpPacket { target, payload })
        },
        Err(e) => Err(e),
    }
}

/// A packet is read back as it was built.
pub proof fn packet_reads_back(t: TargetView, payload: Seq<u8>)
    requires
        fits(t),
    ensures
        packet_value(packet_bytes(t, payload)) == Ok::<(TargetView, Seq<u8>), SocksError>(
            (t, payload),
        ),
{
    let b = packet_bytes(t, payload);
    target_reads_back(t, payload);
    assert(b.skip(3) =~= target_bytes(t) + payload);
    assert(b.skip((3 + target_bytes(t).len()) as int) =~= payload);
    assert(target_bytes(t).len() > 0);
}

// ---------------------------------------------------------------------------
// Replies

/// The bytes of a reply that names a bound address.
pub open spec fn reply_bytes(code: u8, bound: TargetView) -> Seq<u8> {
    seq![5u8, code, 0u8] + target_bytes(bound)
}

/// The bytes of a reply that names no address.
pub open spec fn plain_reply(code: u8) -> Seq<u8> {
    reply_bytes(code, TargetView::Ip(IpAddr::V4(0), 0))
}

/// The reply with a code and a bound address.
pub fn send_reply_bound(code: u8, bound: &TargetAddr) -> (r: Vec<u8>)
    ensures
        r@ == reply_bytes(code, bound@),
{
    let mut reply: Vec<u8> = Vec::new();
    reply.push(5);
    reply.push(code);
    reply.push(0);
    assert(reply@ =~= seq![5u8, code, 0u8]);
    encode_target(bound, &mut reply);
    reply
}

/// The reply with a code.
pub fn send_reply(code: u8) -> (r: Vec<u8>)
    ensures
        r@ == plain_reply(code),
{
    send_reply_bound(code, &TargetAddr::Ip(IpAddr::V4(0), 0))
}

/// The reply that says that a request succeeded.
pub fn send_success() -> (r: Vec<u8>)
    ensures
        r@ == plain_reply(0),
{
    send_reply(0)
}

/// The reply that says at which address a request was bound.
pub fn send_success_bound(bound: SocketAddr) -> (r: Vec<u8>)
    ensures
        r@ == reply_bytes(0, TargetView::Ip(bound.ip, bound.port)),
{
    send_reply_bound(0, &TargetAddr::from_socket_addr(bound))
}

/// The reply that says why a request failed.
pub fn send_failure(code: u8) -> (r: Vec<u8>)
    ensures
        r@ == plain_reply(code),
{
    send_reply(code)
}

// ---------------------------------------------------------------------------
// Negotiation

/// What the bytes received so far say about a negotiation, and everything that
/// the server has to have answered by then.
#[verifier::ext_equal]
pub enum Negotiation {
    Incomplete { answered: Seq<u8> },
    Refused { answered: Seq<u8>, error: SocksError },
    Accepted { answered: Seq<u8>, request: RequestView, used: int },
}

/// The answer that asks for no authentication.
pub open spec fn no_auth() -> Seq<u8> {
    seq![5u8, 0u8]
}

/// The request that stands behind a greeting of `at` bytes.
pub open spec fn negotiated_request(b: Seq<u8>, at: int) -> Negotiation {
    if b.len() < at + 4 {
        Negotiation::Incomplete { answered: no_auth() }
    } else if b[at] != 5 {
        Negotiation::Refused {
            answered: no_auth(),
            error: SocksError::UnsupportedRequestVersion(b[at]),
        }
    } else if b[at + 1] != 1 && b[at + 1] != 3 {
        Negotiation::Refused {
            answered: no_auth() + plain_reply(REP_COMMAND_NOT_SUPPORTED),
            error: SocksError::UnsupportedCommand(b[at + 1]),
        }
    } else if b[at + 3] == 3 && b.len() >= at + 5 && b.len() >= at + 5 + b[at + 4] && utf8(
        b.subrange(at + 5, at + 5 + b[at + 4]),
    ) is None {
        Negotiation::Refused { answered: no_auth(), error: SocksError::DomainNotUtf8 }
    } else {
        match decoded_target(b.skip(at + 3)) {
            Ok((t, n)) => Negotiation::Accepted {
                answered: no_auth(),
                request: if b[at + 1] == 1 {
                    RequestView::Connect(t)
                } else {
                    RequestView::UdpAssociate(t)
                },
                used: at + 3 + n,
            },
            Err(SocksError::UnsupportedAddressType(k)) => Negotiation::Refused {
                answered: no_auth() + plain_reply(REP_ADDRESS_NOT_SUPPORTED),
                error: SocksError::UnsupportedAddressType(k),
            },
            Err(_) => Negotiation::Incomplete { answered: no_auth() },
        }
    }
}

/// Whether a greeting offers to go without authentication.
pub open spec fn offers_no_auth(methods: Seq<u8>) -> bool {
    methods.contains(0u8)
}

/// What a server makes of the bytes received so far.
pub open spec fn negotiation(b: Seq<u8>) -> Negotiation {
    if b.len() < 2 {
        Negotiation::Incomplete { answered: seq![] }
    } else if b[0] != 5 {
        Negotiation::Refused { answered: seq![], error: SocksError::UnsupportedVersion(b[0]) }
    } else if b.len() < 2 + b[1] {
        Negotiation::Incomplete { answered: seq![] }
    } else if !offers_no_auth(b.subrange(2, 2 + b[1])) {
        Negotiation::Refused {
            answered: seq![5u8, 0xffu8],
            error: SocksError::AuthenticationRequired,
        }
    } else {
        negotiated_request(b, 2 + b[1])
    }
}

/// What `accept_request` decided. `answered` holds all bytes that the server
/// has to have written by now.
#[derive(Debug)]
pub enum Accept {
    Incomplete { answered: Vec<u8> },
    Refused { answered: Vec<u8>, error: SocksError },
    Accepted { answered: Vec<u8>, request: Request, used: usize },
}

impl View for Accept {
    type V = Negotiation;

    open spec fn view(&self) -> Negotiation {
        match self {
            Accept::Incomplete { answered } => Negotiation::Incomplete { answered: answered@ },
            Accept::Refused { answered, error } => Negotiation::Refused {
                answered: answered@,
                error: *error,
            },
            Accept::Accepted { answered, request, used } => Negotiation::Accepted {
                answered: answered@,
                request: request@,
                used: *used as int,
            },
        }
    }
}

fn has_zero(b: &[u8], from: usize, to: usize) -> (r: bool)
    requires
        from <= to <= b@.len(),
    ensures
        r == offers_no_auth(b@.subrange(from as int, to as int)),
{
    let ghost part = b@.subrange(from as int, to as int);
    let mut i: usize = from;
    while i < to
        invariant
            from <= i <= to <= b@.len(),
            part == b@.subrange(from as int, to as int),
            forall|k: int| 0 <= k < i - from ==> #[trigger] part[k] != 0,
        decreases to - i,
    {
        if b[i] == 0 {
            assert(part[i - from] == 0);
            return true;
        }
        i = i + 1;
    }
    false
}

fn auth_answer() -> (r: Vec<u8>)
    ensures
        r@ == no_auth(),
{
    let mut r: Vec<u8> = Vec::new();
    r.push(5);
    r.push(0);
    assert(r@ =~= no_auth());
    r
}

fn auth_then_reply(code: u8) -> (r: Vec<u8>)
    ensures
        r@ == no_auth() + plain_reply(code),
{
    let mut r = auth_answer();
    extend(&mut r, send_reply(code).as_slice());
    r
}

/// Negotiates a request out of the bytes received so far.
pub fn accept_request(received: &[u8]) -> (r: Accept)
    ensures
        r@ == negotiation(received@),
{
    let len: usize = received.len();
    if len < 2 {
        let answered: Vec<u8> = Vec::new();
        assert(answered@ =~= seq![]);
        return Accept::Incomplete { answered };
    }
    if received[0] != 5 {
        let answered: Vec<u8> = Vec::new();
        assert(answered@ =~= seq![]);
        return Accept::Refused { answered, error: SocksError::UnsupportedVersion(received[0]) };
    }
    let at: usize = 2 + received[1] as usize;
    if len < at {
        let answered: Vec<u8> = Vec::new();
        assert(answered@ =~= seq![]);
        return Accept::Incomplete { answered };
    }
    if !has_zero(received, 2, at) {
        let mut answered: Vec<u8> = Vec::new();
        answered.push(5);
        answered.push(0xff);
        assert(answered@ =~= seq![5u8, 0xffu8]);
        return Accept::Refused { answered, error: SocksError::AuthenticationRequired };
    }
    if len < at + 4 {
        return Accept::Incomplete { answered: auth_answer() };
    }
    if received[at] != 5 {
        return Accept::Refused {
            answered: auth_answer(),
            error: SocksError::UnsupportedRequestVersion(received[at]),
        };
    }
    let command: u8 = received[at + 1];
    if command != 1 && command != 3 {
        return Accept::Refused {
            answered: auth_then_reply(REP_COMMAND_NOT_SUPPORTED),
            error: SocksError::UnsupportedCommand(command),
        };
    }
    if received[at + 3] == 3 && len >= at + 5 && len >= at + 5 + received[at + 4] as usize {
        let name = slice_of(received, at + 5, at + 5 + received[at + 4] as usize);
        if utf8_text(name.as_slice()).is_none() {
            return Accept::Refused { answered: auth_answer(), error: SocksError::DomainNotUtf8 };
        }
    }
    let rest = slice_of(received, at + 3, len);
    assert(rest@ =~= received@.skip(at + 3));
    match decode_target(rest.as_slice()) {
        Ok((target, n)) => {
            let request = if command == 1 {
                Request::Connect(target)
            } else {
                Request::UdpAssociate(target)
            };
            Accept::Accepted { answered: auth_answer(), request, used: at + 3 + n }
        },
        Err(SocksError::UnsupportedAddressType(k)) => Accept::Refused {
            answered: auth_then_reply(REP_ADDRESS_NOT_SUPPORTED),
            error: SocksError::UnsupportedAddressType(k),
        },
        Err(_) => Accept::Incomplete { answered: auth_answer() },
    }
}

/// What a server that takes no UDP associations makes of the bytes so far.
pub open spec fn connect_negotiation(b: Seq<u8>) -> Negotiation {
    match negotiation(b) {
        Negotiation::Accepted { answered, request: RequestView::UdpAssociate(_), used } =>
            Negotiation::Refused {
                answered: answered + plain_reply(REP_COMMAND_NOT_SUPPORTED),
                error: SocksError::UdpAssociateUnsupported,
            },
        other => other,
    }
}

/// Negotiates a connection out of the bytes received so far.
pub fn accept(received: &[u8]) -> (r: Accept)
    ensures
        r@ == connect_negotiation(received@),
{
    match accept_request(received) {
        Accept::Accepted { answered, request: Request::UdpAssociate(_), used } => {
            let mut all = answered;
            extend(&mut all, send_failure(REP_COMMAND_NOT_SUPPORTED).as_slice());
            Accept::Refused { answered: all, error: SocksError::UdpAssociateUnsupported }
        },
        other => other,
    }
}

/// A client that offers to go without authentication and asks for a target gets
/// that target accepted, whatever it sends afterwards.
pub proof fn requests_are_accepted(methods: Seq<u8>, udp: bool, t: TargetView, more: Seq<u8>)
    requires
        methods.len() <= 255,
        offers_no_auth(methods),
        fits(t),
    ensures
        ({
            let command = if udp {
                3u8
            } else {
                1u8
            };
            let b = seq![5u8, methods.len() as u8] + methods + seq![5u8, command, 0u8]
                + target_bytes(t) + more;
            negotiation(b) == (Negotiation::Accepted {
                answered: no_auth(),
                request: if udp {
                    RequestView::UdpAssociate(t)
                } else {
                    RequestView::Connect(t)
                },
                used: (5 + methods.len() + target_bytes(t).len()) as int,
            })
        }),
{
    let command = if udp {
        3u8
    } else {
        1u8
    };
    let b = seq![5u8, methods.len() as u8] + methods + seq![5u8, command, 0u8] + target_bytes(t)
        + more;
    let at = (2 + methods.len()) as int;
    assert(b.subrange(2, at) =~= methods);
    assert(b.skip(at + 3) =~= target_bytes(t) + more);
    target_reads_back(t, more);
    assert(target_bytes(t).len() > 0);
    assert(b[at + 3] == target_bytes(t)[0]);
    match t {
        TargetView::Domain(host, port) => {
            let n = bytes_of(host).len() as int;
            assert(b[at + 4] == target_bytes(t)[1]);
            assert(b.subrange(at + 5, at + 5 + n) =~= bytes_of(host));
            lemma_utf8_reads_back(host);
        },
        _ => {},
    }
}

// ---------------------------------------------------------------------------
// Telling what is wrong

/// The name in a target that stands at a position, if a whole one does.
pub open spec fn name_at(b: Seq<u8>, at: int) -> Option<Seq<u8>> {
    if 0 <= at && at + 2 <= b.len() && b[at] == 3 && at + 2 + b[at + 1] <= b.len() {
        Some(b.subrange(at + 2, at + 2 + b[at + 1]))
    } else {
        None
    }
}

/// What is told of an error at a target: the error, and what is wrong with its name
/// where that is not valid UTF-8.
pub open spec fn target_fault(b: Seq<u8>, at: int, e: SocksError) -> Seq<Seq<char>> {
    match (e, name_at(b, at)) {
        (SocksError::DomainNotUtf8, Some(name)) => if utf8(name) is None {
            seq![e.text(), utf8_fault(name)]
        } else {
            seq![e.text()]
        },
        _ => seq![e.text()],
    }
}

fn explain_at(b: &[u8], at: usize, e: SocksError) -> (r: Failure)
    ensures
        r@ == target_fault(b@, at as int, e),
{
    let message = e.message();
    let len: usize = b.len();
    match e {
        SocksError::DomainNotUtf8 => {
            if len >= 2 && at <= len - 2 && b[at] == 3 && b[at + 1] as usize <= len - 2 - at {
                let name = slice_of(b, at + 2, at + 2 + b[at + 1] as usize);
                if let Err(cause) = read_utf8(name.as_slice()) {
                    return Failure::caused(message.as_str(), cause.as_str());
                }
            }
            Failure::new(message.as_str())
        },
        _ => Failure::new(message.as_str()),
    }
}

/// What is told of a negotiation that was refused, by the bytes received.
pub open spec fn negotiation_fault(b: Seq<u8>, e: SocksError) -> Seq<Seq<char>> {
    if b.len() >= 2 {
        target_fault(b, b[1] + 5, e)
    } else {
        seq![e.text()]
    }
}

/// Tells why a negotiation was refused.
pub fn explain_negotiation(received: &[u8], e: SocksError) -> (r: Failure)
    ensures
        r@ == negotiation_fault(received@, e),
{
    if received.len() >= 2 {
        explain_at(received, received[1] as usize + 5, e)
    } else {
        Failure::new(e.message().as_str())
    }
}

/// Tells why a packet is malformed.
pub fn explain_packet(datagram: &[u8], e: SocksError) -> (r: Failure)
    ensures
        r@ == target_fault(datagram@, 3, e),
{
    explain_at(datagram, 3, e)
}

// ---------------------------------------------------------------------------
// Laws

/// A reply that names no address is the version, the code, a zero, and an IPv4
/// address and a port that are zero.
pub proof fn replies_without_an_address(code: u8)
    ensures
        plain_reply(code) == seq![5u8, code, 0, 1, 0, 0, 0, 0, 0, 0],
{
    assert(plain_reply(code) =~= seq![5u8, code, 0, 1, 0, 0, 0, 0, 0, 0]);
}

/// A client that offers to go without authentication is understood, whatever it
/// sends afterwards: its target is connected to or associated with as it asks, and
/// just the bytes of its request are used. A command that is neither is refused with
/// an answer, and so is an association where only connections are taken.
#[verifier::spinoff_prover]
#[verifier::rlimit(50)]
pub proof fn requests_are_understood(
    methods: Seq<u8>,
    command: u8,
    target: &TargetAddr,
    out: &mut Vec<u8>,
    received: &[u8],
    more: Seq<u8>,
    r: Accept,
    only: Accept,
    old_style: Accept,
)
    requires
        methods.len() <= 255,
        methods.contains(0u8),
        target matches TargetAddr::Domain(host, _) ==> bytes_of(host@).len() <= 255,
        old(out)@ == seq![5u8, methods.len() as u8] + methods + seq![5u8, command, 0u8],
        call_ensures(encode_target, (target, out), ()),
        received@ == final(out)@ + more,
        call_ensures(accept_request, (received,), r),
        call_ensures(accept, (received,), only),
        call_ensures(crate::socks5::accept, (received,), old_style),
    ensures
        command == 1 ==> only@ == r@ && old_style@ == r@ && (r matches Accept::Accepted {
            answered,
            request: Request::Connect(t),
            used,
        } && answered@ == seq![5u8, 0] && t@ == target@ && used == final(out)@.len()),
        command == 3 ==> (r matches Accept::Accepted {
            answered,
            request: Request::UdpAssociate(t),
            used,
        } && answered@ == seq![5u8, 0] && t@ == target@ && used == final(out)@.len()),
        command != 1 && command != 3 ==> (r matches Accept::Refused { answered, error } && answered@
            == seq![5u8, 0, 5, 7, 0, 1, 0, 0, 0, 0, 0, 0] && error
            == SocksError::UnsupportedCommand(command)),
        command != 1 ==> (only matches Accept::Refused { answered, .. } && answered@
            == seq![5u8, 0, 5, 7, 0, 1, 0, 0, 0, 0, 0, 0]),
        command != 1 ==> (old_style matches Accept::Refused { answered, .. } && answered@
            == seq![5u8, 0, 5, 7, 0, 1, 0, 0, 0, 0, 0, 0]),
{
    let b = received@;
    let t = target@;
    let at = (2 + methods.len()) as int;
    assert(b.subrange(2, at) =~= methods);
    assert(b[at] == 5 && b[at + 1] == command);
    assert(target_bytes(t).len() > 3);
    replies_without_an_address(7);
    assert(no_auth() + plain_reply(7) =~= seq![5u8, 0, 5, 7, 0, 1, 0, 0, 0, 0, 0, 0]);
    if command == 1 || command == 3 {
        let c = seq![5u8, methods.len() as u8] + methods + seq![5u8, command, 0u8] + target_bytes(t)
            + more;
        assert(b =~= c);
        requests_are_accepted(methods, command == 3, t, more);
        assert(final(out)@.len() == 5 + methods.len() + target_bytes(t).len());
    }
}

/// A greeting in another version is refused without an answer, one that does not
/// offer to go without authentication is refused with the answer that no method will
/// do, and a part of a greeting is waited for.
pub proof fn greetings_are_judged(received: &[u8], r: Accept, only: Accept, old_style: Accept)
    requires
        call_ensures(accept_request, (received,), r),
        call_ensures(accept, (received,), only),
        call_ensures(crate::socks5::accept, (received,), old_style),
    ensures
        received@.len() < 2 || (received@[0] == 5 && received@.len() < 2 + received@[1]) ==> (
        r matches Accept::Incomplete { answered } && answered@.len() == 0) && only@ == r@ && old_style@
            == r@,
        received@.len() >= 2 && received@[0] != 5 ==> (r matches Accept::Refused { answered, error }
            && answered@.len() == 0 && error == SocksError::UnsupportedVersion(received@[0])) && only@
            == r@ && old_style@ == r@,
        received@.len() >= 2 && received@[0] == 5 && received@.len() >= 2 + received@[1] && !(exists|
            i: int,
        |
            2 <= i < 2 + received@[1] && #[trigger] received@[i] == 0) ==> (r matches Accept::Refused {
            answered,
            error,
        } && answered@ == seq![5u8, 255] && error == SocksError::AuthenticationRequired) && only@
            == r@ && old_style@ == r@,
{
    let b = received@;
    if b.len() >= 2 && b[0] == 5 && b.len() >= 2 + b[1] {
        let methods = b.subrange(2, 2 + b[1]);
        if methods.contains(0u8) {
            let k = choose|k: int| 0 <= k < methods.len() && methods[k] == 0u8;
            assert(b[k + 2] == 0);
        }
    }
}

/// A part of a request is waited for, and the greeting is answered once it is there.
#[verifier::spinoff_prover]
#[verifier::rlimit(50)]
pub proof fn parts_of_requests_are_waited_for(
    methods: Seq<u8>,
    command: u8,
    target: &TargetAddr,
    out: &mut Vec<u8>,
    received: &[u8],
    r: Accept,
)
    requires
        methods.len() <= 255,
        methods.contains(0u8),
        command == 1 || command == 3,
        target matches TargetAddr::Domain(host, _) ==> bytes_of(host@).len() <= 255,
        old(out)@ == seq![5u8, methods.len() as u8] + methods + seq![5u8, command, 0u8],
        call_ensures(encode_target, (target, out), ()),
        received@.len() < final(out)@.len(),
        received@ == final(out)@.take(received@.len() as int),
        call_ensures(accept_request, (received,), r),
    ensures
        r matches Accept::Incomplete { answered } && answered@ == (if received@.len() < 2
            + methods.len() {
            Seq::<u8>::empty()
        } else {
            seq![5u8, 0]
        }),
{
    let all = final(out)@;
    let b = received@;
    let t = target@;
    let at = (2 + methods.len()) as int;
    assert(all.len() == at + 3 + target_bytes(t).len());
    assert(all.skip(at + 3) =~= target_bytes(t));
    if b.len() >= 2 {
        assert(b[0] == 5 && b[1] == methods.len());
    }
    if b.len() >= at {
        assert(b.subrange(2, at) =~= methods);
    }
    if b.len() >= at + 4 {
        assert(b[at] == 5 && b[at + 1] == command);
        let part = b.skip(at + 3);
        assert(part =~= target_bytes(t).take(part.len() as int));
        assert(part[0] == target_bytes(t)[0] == b[at + 3]);
        if let TargetView::Domain(host, port) = t {
            let n = bytes_of(host).len() as int;
            if b.len() >= at + 5 {
                assert(part[1] == target_bytes(t)[1] == b[at + 4]);
                assert(b[at + 4] == n);
                if b.len() >= at + 5 + n {
                    assert(b.subrange(at + 5, at + 5 + n) =~= bytes_of(host));
                    lemma_utf8_reads_back(host);
                }
            }
        }
    }
}

/// A target is read from the wire as it was written there, whatever follows it, and
/// just its bytes are used.
pub proof fn targets_cross_the_wire(
    target: &TargetAddr,
    out: &mut Vec<u8>,
    bytes: &[u8],
    rest: Seq<u8>,
    r: Result<(TargetAddr, usize), SocksError>,
)
    requires
        target matches TargetAddr::Domain(host, _) ==> bytes_of(host@).len() <= 255,
        call_ensures(encode_target, (target, out), ()),
        bytes@ == final(out)@.skip(old(out)@.len() as int) + rest,
        call_ensures(decode_target, (bytes,), r),
    ensures
        final(out)@.take(old(out)@.len() as int) == old(out)@,
        r matches Ok((t, n)) && t@ == target@ && n == final(out)@.len() - old(out)@.len(),
{
    assert(final(out)@.skip(old(out)@.len() as int) =~= target_bytes(target@));
    assert(final(out)@.take(old(out)@.len() as int) =~= old(out)@);
    target_reads_back(target@, rest);
}

/// A target on the wire is the kind of its address, the address and the port, most
/// significant byte first.
pub proof fn targets_are_laid_out(target: &TargetAddr, out: &mut Vec<u8>)
    requires
        target matches TargetAddr::Domain(host, _) ==> bytes_of(host@).len() <= 255,
        call_ensures(encode_target, (target, out), ()),
        old(out)@.len() == 0,
    ensures
        ({
            let b = final(out)@;
            let n = b.len() as int;
            &&& n >= 2
            &&& match target {
                TargetAddr::Ip(IpAddr::V4(ip), port) => n == 7 && b[0] == 1 && b[1] * 0x100_0000
                    + b[2] * 0x1_0000 + b[3] * 0x100 + b[4] == *ip && b[5] * 256 + b[6] == *port,
                TargetAddr::Ip(IpAddr::V6(ip), port) => n == 19 && b[0] == 4 && b[17] * 256 + b[18]
                    == *port,
                TargetAddr::Domain(host, port) => b[0] == 3 && b[1] == bytes_of(host@).len()
                    && b.subrange(2, n - 2) == bytes_of(host@) && b[n - 2] * 256 + b[n - 1] == *port,
            }
        }),
{
    let b = final(out)@;
    assert(b =~= target_bytes(target@));
    if let TargetAddr::Domain(host, port) = target {
        assert(b.subrange(2, b.len() - 2) =~= bytes_of(host@));
    }
}

/// A datagram is read back as it was built: the target that it names and the bytes
/// that it carries.
pub proof fn datagrams_are_understood(
    target: &TargetAddr,
    payload: &[u8],
    built: Vec<u8>,
    datagram: &[u8],
    r: Result<UdpPacket, SocksError>,
)
    requires
        target matches TargetAddr::Domain(host, _) ==> bytes_of(host@).len() <= 255,
        call_ensures(build_udp_packet, (target, payload), built),
        datagram@ == built@,
        call_ensures(parse_udp_packet, (datagram,), r),
    ensures
        built@.take(3) == seq![0u8, 0, 0],
        r matches Ok(p) && p.target@ == target@ && p.payload@ == payload@,
{
    packet_reads_back(target@, payload@);
    assert(built@.take(3) =~= seq![0u8, 0, 0]);
}

/// A datagram that is too short, has something in its reserved bytes or is a
/// fragment is not read.
pub proof fn malformed_datagrams_are_not_read(datagram: &[u8], r: Result<UdpPacket, SocksError>)
    requires
        call_ensures(parse_udp_packet, (datagram,), r),
    ensures
        r is Ok ==> datagram@.len() >= 4 && datagram@[0] == 0 && datagram@[1] == 0 && datagram@[2]
            == 0,
        datagram@.len() >= 4 && datagram@[0] == 0 && datagram@[1] == 0 && datagram@[2] != 0 ==> r
            == Err::<UdpPacket, SocksError>(SocksError::Fragmentation),
{
}

/// A reply carries its code and, where it names one, the bound address as a target.
pub proof fn replies_are_laid_out(
    code: u8,
    bound: SocketAddr,
    failure: Vec<u8>,
    success: Vec<u8>,
    plain: Vec<u8>,
    rest: &[u8],
    r: Result<(TargetAddr, usize), SocksError>,
)
    requires
        call_ensures(send_failure, (code,), failure),
        call_ensures(send_success, (), plain),
        call_ensures(send_success_bound, (bound,), success),
        rest@ == success@.skip(3),
        call_ensures(decode_target, (rest,), r),
    ensures
        failure@ == seq![5u8, code, 0, 1, 0, 0, 0, 0, 0, 0],
        plain@ == seq![5u8, 0, 0, 1, 0, 0, 0, 0, 0, 0],
        success@.take(3) == seq![5u8, 0, 0],
        r matches Ok((t, n)) && t@ == TargetView::Ip(bound.ip, bound.port) && n == rest@.len(),
{
    let t = TargetView::Ip(bound.ip, bound.port);
    replies_without_an_address(code);
    replies_without_an_address(0);
    assert(success@.take(3) =~= seq![5u8, 0, 0]);
    assert(rest@ =~= target_bytes(t) + Seq::<u8>::empty());
    target_reads_back(t, seq![]);
}

/// The text of a target is its host, in brackets where it is an IPv6 address, a
/// colon and its port; a target made of a socket address has its address and port.
pub proof fn targets_tell_host_and_port(
    target: &TargetAddr,
    text: String,
    host: String,
    port: u16,
    addr: SocketAddr,
    made: TargetAddr,
    copied: TargetAddr,
)
    requires
        call_ensures(TargetAddr::to_text, (target,), text),
        call_ensures(TargetAddr::host_string, (target,), host),
        call_ensures(TargetAddr::port, (target,), port),
        call_ensures(TargetAddr::from_socket_addr, (addr,), made),
        call_ensures(TargetAddr::copy, (target,), copied),
    ensures
        text@ == (if target matches TargetAddr::Ip(IpAddr::V6(_), _) {
            seq!['['] + host@ + seq![']', ':'] + decimal(port as nat)
        } else {
            host@ + seq![':'] + decimal(port as nat)
        }),
        made == TargetAddr::Ip(addr.ip, addr.port),
        copied@ == target@,
{
    reveal_strlit(":");
    reveal_strlit("[");
    reveal_strlit("]:");
    assert(":"@ =~= seq![':']);
    assert("["@ =~= seq!['[']);
    assert("]:"@ =~= seq![']', ':']);
}

} // verus!
