//! Datagrams of an application: each goes to the session for its target.

use vstd::prelude::*;
use crate::assoc::{position, put, remove, value_of};
use crate::bytes::be16_at;
use crate::failure::{outcome, Failure};
use crate::ip::{is_unspecified, unspecified, IpAddr, SocketAddr};
use crate::proxy::route::RouteDecision;
use crate::proxy::socks5::{
    build_udp_packet, explain_packet, packet_bytes, packet_value, parse_udp_packet, target_fault,
    target_text, TargetAddr, TargetView,
};
use crate::proxy::udp::{frame_bytes, read_frame, write_frame, FrameRead, MAX_UDP_FRAME_SIZE};
use crate::runtime::{dns_udp_upstream, ClientRuntime};
use crate::text::{cat, cat3};

verus! {

/// The address on which datagrams are received: that of the control
/// connection, or the local host where that is not known.
pub open spec fn relay_ip(local: IpAddr) -> IpAddr {
    if unspecified(local) {
        IpAddr::V4(0x7f00_0001)
    } else {
        local
    }
}

/// The address on which datagrams are received.
pub fn relay_bind_ip(local: IpAddr) -> (r: IpAddr)
    ensures
        r == relay_ip(local),
{
    if is_unspecified(local) {
        IpAddr::V4(0x7f00_0001)
    } else {
        local
    }
}

/// The address from which datagrams to a target are sent.
pub fn target_bind_addr(target: &TargetAddr) -> (r: SocketAddr)
    ensures
        r.port == 0,
        r.ip == match target@ {
            TargetView::Ip(IpAddr::V6(_), _) => IpAddr::V6(0),
            _ => IpAddr::V4(0),
        },
{
    match target {
        TargetAddr::Ip(IpAddr::V6(_), _) => SocketAddr { ip: IpAddr::V6(0), port: 0 },
        _ => SocketAddr { ip: IpAddr::V4(0), port: 0 },
    }
}

/// How datagrams of a session travel.
#[derive(Debug)]
pub enum SessionKind {
    /// Straight to the target.
    Direct(TargetAddr),
    /// Through a tunnel to the target.
    Remote(TargetAddr),
    /// As questions over TCP to a server for names; answers come in the name of
    /// the target.
    RemoteDns(TargetAddr, TargetAddr),
}

/// What is done with a datagram.
#[derive(Debug)]
pub enum DatagramPlan {
    /// Nothing: it is malformed.
    Drop(Failure),
    /// Nothing: its target is blocked.
    Blocked(String),
    /// Find the route of the target.
    Decide(TargetAddr, Vec<u8>),
    /// Hand the payload to the session with a key, which is made where there
    /// is none.
    Send(String, Vec<u8>, SessionKind),
}

/// The key of the session that asks a server for names.
pub open spec fn dns_key(upstream: TargetView) -> Seq<char> {
    "dns-tcp:"@ + target_text(upstream)
}

/// What is done with a datagram that came from the application.
pub fn take_datagram(runtime: &ClientRuntime, datagram: &[u8]) -> (r: DatagramPlan)
    ensures
        match packet_value(datagram@) {
            Err(e) => r matches DatagramPlan::Drop(f) && f@ == target_fault(datagram@, 3, e),
            Ok((target, payload)) => match dns_udp_upstream(
                runtime.tun_dns_redirect_ip,
                runtime.tun_dns_upstream,
                target,
            ) {
                Some(up) => {
                    &&& r matches DatagramPlan::Send(key, b, SessionKind::RemoteDns(t, u))
                    &&& key@ == dns_key(up)
                    &&& b@ == payload
                    &&& t@ == target
                    &&& u@ == up
                },
                None => {
                    &&& r matches DatagramPlan::Decide(t, b)
                    &&& t@ == target
                    &&& b@ == payload
                },
            },
        },
{
    match parse_udp_packet(datagram) {
        Err(e) => DatagramPlan::Drop(explain_packet(datagram, e)),
        Ok(packet) => match runtime.tun_dns_udp_upstream(&packet.target) {
            Some(up) => {
                let key = cat("dns-tcp:", up.to_text().as_str());
                DatagramPlan::Send(key, packet.payload, SessionKind::RemoteDns(packet.target, up))
            },
            None => DatagramPlan::Decide(packet.target, packet.payload),
        },
    }
}

/// What is done with a datagram whose route is known.
pub fn route_datagram(target: TargetAddr, payload: Vec<u8>, decision: RouteDecision) -> (r:
    DatagramPlan)
    ensures
        match decision {
            RouteDecision::Direct => r matches DatagramPlan::Send(key, b, SessionKind::Direct(t))
                && key@ == target_text(target@) && b == payload && t == target,
            RouteDecision::Remote => r matches DatagramPlan::Send(key, b, SessionKind::Remote(t))
                && key@ == target_text(target@) && b == payload && t == target,
            RouteDecision::Block => r matches DatagramPlan::Blocked(key) && key@ == target_text(
                target@,
            ),
        },
{
    let key = target.to_text();
    match decision {
        RouteDecision::Direct => DatagramPlan::Send(key, payload, SessionKind::Direct(target)),
        RouteDecision::Remote => DatagramPlan::Send(key, payload, SessionKind::Remote(target)),
        RouteDecision::Block => DatagramPlan::Blocked(key),
    }
}

/// The sessions by their keys.
#[derive(Debug)]
pub struct SessionMap {
    pub entries: Vec<(String, u64)>,
}

/// What is done to get a payload to a session.
#[derive(Clone, Copy, Debug, PartialEq, Eq, Structural)]
pub enum SendStep {
    /// Hand it to the session.
    Use(u64),
    /// Make a session.
    Create,
}

impl SessionMap {
    /// The session with a key.
    pub open spec fn at(&self, key: Seq<char>) -> Option<u64> {
        value_of(self.entries@, key)
    }

    /// No sessions.
    pub fn new() -> (r: Self)
        ensures
            forall|k: Seq<char>| #[trigger] r.at(k) is None,
    {
        SessionMap { entries: Vec::new() }
    }

    /// What is done first to get a payload to the session with a key.
    pub fn send_via_session(&self, key: &str) -> (r: SendStep)
        ensures
            r == match self.at(key@) {
                Some(id) => SendStep::Use(id),
                None => SendStep::Create,
            },
    {
        match position(&self.entries, key) {
            Some(i) => SendStep::Use(self.entries[i].1),
            None => SendStep::Create,
        }
    }

    /// A session took no payload any more: it is forgotten, and another is made.
    pub fn session_gone(&mut self, key: &str) -> (r: SendStep)
        ensures
            r == SendStep::Create,
            forall|k: Seq<char>| #[trigger]
                final(self).at(k) == if k == key@ {
                    None
                } else {
                    old(self).at(k)
                },
    {
        let ghost before = self.entries@;
        remove(&mut self.entries, key);
        assert forall|k: Seq<char>| #[trigger]
            self.at(k) == if k == key@ {
                None
            } else {
                value_of(before, k)
            } by {}
        SendStep::Create
    }

    /// A session was made and took the payload, or did not.
    pub fn session_made(&mut self, key: &str, id: u64, sent: bool) -> (r: Result<(), Failure>)
        ensures
            match outcome(r) {
                Ok(_) => sent && forall|k: Seq<char>| #[trigger]
                    final(self).at(k) == if k == key@ {
                        Some(id)
                    } else {
                        old(self).at(k)
                    },
                Err(e) => !sent && *final(self) == *old(self) && e == seq![
                    "UDP session for "@ + key@ + " closed before sending payload"@,
                    "channel closed"@,
                ],
            },
    {
        if !sent {
            return Err(
                Failure::caused(
                    cat3("UDP session for ", key, " closed before sending payload").as_str(),
                    "channel closed",
                ),
            );
        }
        let ghost before = self.entries@;
        put(&mut self.entries, key.to_owned(), id);
        assert forall|k: Seq<char>| #[trigger]
            self.at(k) == if k == key@ {
                Some(id)
            } else {
                value_of(before, k)
            } by {}
        Ok(())
    }
}

/// The sessions of an application: those straight to targets, and those through
/// the server.
#[derive(Debug)]
pub struct UdpSessions {
    pub direct: SessionMap,
    pub remote: SessionMap,
}

impl UdpSessions {
    /// The sessions among which one of a kind is.
    pub open spec fn among(&self, kind: SessionKind) -> SessionMap {
        if kind is Direct {
            self.direct
        } else {
            self.remote
        }
    }

    /// The sessions among which one of a kind is not.
    pub open spec fn apart(&self, kind: SessionKind) -> SessionMap {
        if kind is Direct {
            self.remote
        } else {
            self.direct
        }
    }

    /// No sessions.
    pub fn new() -> (r: Self)
        ensures
            forall|k: Seq<char>| #[trigger] r.direct.at(k) is None,
            forall|k: Seq<char>| #[trigger] r.remote.at(k) is None,
    {
        UdpSessions { direct: SessionMap::new(), remote: SessionMap::new() }
    }

    /// What is done first to get a payload to the session of a kind with a key.
    pub fn send_via_session(&self, kind: &SessionKind, key: &str) -> (r: SendStep)
        ensures
            r == match self.among(*kind).at(key@) {
                Some(id) => SendStep::Use(id),
                None => SendStep::Create,
            },
    {
        match kind {
            SessionKind::Direct(_) => self.direct.send_via_session(key),
            _ => self.remote.send_via_session(key),
        }
    }

    /// A session took no payload any more: it is forgotten, and another is made.
    pub fn session_gone(&mut self, kind: &SessionKind, key: &str) -> (r: SendStep)
        ensures
            r == SendStep::Create,
            final(self).apart(*kind) == old(self).apart(*kind),
            forall|k: Seq<char>| #[trigger]
                final(self).among(*kind).at(k) == if k == key@ {
                    None
                } else {
                    old(self).among(*kind).at(k)
                },
    {
        match kind {
            SessionKind::Direct(_) => self.direct.session_gone(key),
            _ => self.remote.session_gone(key),
        }
    }

    /// A session was made and took the payload, or did not.
    pub fn session_made(&mut self, kind: &SessionKind, key: &str, id: u64, sent: bool) -> (r:
        Result<(), Failure>)
        ensures
            final(self).apart(*kind) == old(self).apart(*kind),
            match outcome(r) {
                Ok(_) => sent && forall|k: Seq<char>| #[trigger]
                    final(self).among(*kind).at(k) == if k == key@ {
                        Some(id)
                    } else {
                        old(self).among(*kind).at(k)
                    },
                Err(e) => !sent && final(self).among(*kind) == old(self).among(*kind) && e
                    == seq![
                    "UDP session for "@ + key@ + " closed before sending payload"@,
                    "channel closed"@,
                ],
            },
    {
        match kind {
            SessionKind::Direct(_) => self.direct.session_made(key, id, sent),
            _ => self.remote.session_made(key, id, sent),
        }
    }
}

/// The bytes of a question over TCP.
pub fn dns_request(payload: &[u8]) -> (r: Result<Vec<u8>, Failure>)
    ensures
        match outcome(r) {
            Ok(b) => payload@.len() <= 65535 && b@ == frame_bytes(payload@),
            Err(e) => payload@.len() > 65535 && e == seq!["DNS payload exceeded 65535 bytes"@],
        },
{
    match write_frame(payload) {
        Ok(b) => Ok(b),
        Err(_) => Err(Failure::new("DNS payload exceeded 65535 bytes")),
    }
}

/// The answer over TCP that the bytes hold, as soon as they hold all of it.
pub fn dns_response(received: &[u8]) -> (r: Option<Vec<u8>>)
    ensures
        match r {
            Some(b) => received@.len() >= 2 && received@.len() >= 2 + be16_at(received@, 0) && b@
                == received@.subrange(2, 2 + be16_at(received@, 0)),
            None => received@.len() < 2 || received@.len() < 2 + be16_at(received@, 0),
        },
{
    match read_frame(received, MAX_UDP_FRAME_SIZE) {
        FrameRead::Complete(b, _) => Some(b),
        _ => {
            assert(received@.len() >= 2 ==> be16_at(received@, 0) <= 65535);
            None
        },
    }
}

/// What is sent to the application when a payload came from a target, once
/// the application has sent something itself.
pub fn forward_udp_response(client: Option<SocketAddr>, target: &TargetAddr, payload: &[u8]) -> (r:
    Option<(Vec<u8>, SocketAddr)>)
    ensures
        match r {
            Some((b, to)) => client == Some(to) && b@ == packet_bytes(target@, payload@),
            None => client is None,
        },
{
    match client {
        Some(to) => Some((build_udp_packet(target, payload), to)),
        None => None,
    }
}

// ---------------------------------------------------------------------------
// Laws

/// A datagram that an application built for a target is routed to that target with
/// its payload, or handed to the server for names where it asks for one there.
pub proof fn datagrams_are_routed_to_their_target(
    runtime: &ClientRuntime,
    target: &TargetAddr,
    payload: &[u8],
    built: Vec<u8>,
    datagram: &[u8],
    upstream: Option<TargetAddr>,
    r: DatagramPlan,
)
    requires
        target matches TargetAddr::Domain(host, _) ==> crate::text::bytes_of(host@).len() <= 255,
        call_ensures(build_udp_packet, (target, payload), built),
        datagram@ == built@,
        call_ensures(ClientRuntime::tun_dns_udp_upstream, (runtime, target), upstream),
        call_ensures(take_datagram, (runtime, datagram), r),
    ensures
        upstream is None ==> (r matches DatagramPlan::Decide(t, b) && t@ == target@ && b@
            == payload@),
        upstream matches Some(u) ==> (r matches DatagramPlan::Send(
            _,
            b,
            SessionKind::RemoteDns(t, v),
        ) && b@ == payload@ && t@ == target@ && v@ == u@),
{
    crate::proxy::socks5::packet_reads_back(target@, payload@);
}

/// A datagram goes straight to its target just where it is decided that it goes
/// direct, through a tunnel just where it is decided that it goes through the server,
/// and nowhere where it is blocked.
pub proof fn decisions_on_datagrams_are_carried_out(
    target: TargetAddr,
    payload: Vec<u8>,
    decision: RouteDecision,
    text: String,
    r: DatagramPlan,
)
    requires
        call_ensures(TargetAddr::to_text, (&target,), text),
        call_ensures(route_datagram, (target, payload, decision), r),
    ensures
        decision == RouteDecision::Direct <==> (r matches DatagramPlan::Send(
            key,
            b,
            SessionKind::Direct(t),
        ) && key@ == text@ && b == payload && t == target),
        decision == RouteDecision::Remote <==> (r matches DatagramPlan::Send(
            key,
            b,
            SessionKind::Remote(t),
        ) && key@ == text@ && b == payload && t == target),
        decision == RouteDecision::Block <==> r is Blocked,
{
}

/// A session that was made for a key is used for it, by datagrams of its kind only,
/// until it is gone; no other key is touched.
pub proof fn sessions_are_used_again(
    sessions: &mut UdpSessions,
    kind: &SessionKind,
    key: &str,
    id: u64,
    made: Result<(), Failure>,
    step: SendStep,
    other_key: &str,
    before: SendStep,
    after: SendStep,
    other_kind: &SessionKind,
    kind_before: SendStep,
    kind_after: SendStep,
    later: &mut UdpSessions,
    gone: SendStep,
    again: SendStep,
)
    requires
        call_ensures(UdpSessions::session_made, (sessions, kind, key, id, true), made),
        call_ensures(UdpSessions::send_via_session, (final(sessions), kind, key), step),
        other_key@ != key@,
        call_ensures(UdpSessions::send_via_session, (old(sessions), kind, other_key), before),
        call_ensures(UdpSessions::send_via_session, (final(sessions), kind, other_key), after),
        kind is Direct <==> !(other_kind is Direct),
        call_ensures(UdpSessions::send_via_session, (old(sessions), other_kind, key), kind_before),
        call_ensures(UdpSessions::send_via_session, (final(sessions), other_kind, key), kind_after),
        *old(later) == *final(sessions),
        call_ensures(UdpSessions::session_gone, (later, kind, key), gone),
        call_ensures(UdpSessions::send_via_session, (final(later), kind, key), again),
    ensures
        made is Ok,
        step == SendStep::Use(id),
        after == before,
        kind_after == kind_before,
        gone == SendStep::Create,
        again == SendStep::Create,
{
}

/// A session that did not take its first payload is not kept, and that is told.
pub proof fn sessions_that_take_nothing_are_not_kept(
    sessions: &mut UdpSessions,
    kind: &SessionKind,
    key: &str,
    id: u64,
    made: Result<(), Failure>,
    before: SendStep,
    after: SendStep,
    fresh: UdpSessions,
    first: SendStep,
)
    requires
        call_ensures(UdpSessions::send_via_session, (old(sessions), kind, key), before),
        call_ensures(UdpSessions::session_made, (sessions, kind, key, id, false), made),
        call_ensures(UdpSessions::send_via_session, (final(sessions), kind, key), after),
        call_ensures(UdpSessions::new, (), fresh),
        call_ensures(UdpSessions::send_via_session, (&fresh, kind, key), first),
    ensures
        made is Err,
        after == before,
        first == SendStep::Create,
{
    assert(fresh.direct.at(key@) is None);
    assert(fresh.remote.at(key@) is None);
}

/// A question for a name crosses TCP as it was, and so does the answer; while a part
/// of it is missing it is waited for.
pub proof fn questions_cross_the_wire(
    payload: &[u8],
    written: Result<Vec<u8>, Failure>,
    received: &[u8],
    r: Option<Vec<u8>>,
)
    requires
        call_ensures(dns_request, (payload,), written),
        written matches Ok(b) ==> received@.len() <= b@.len() && received@ == b@.take(
            received@.len() as int,
        ),
        call_ensures(dns_response, (received,), r),
    ensures
        written is Ok <==> payload@.len() < 65536,
        written matches Ok(b) ==> (r is Some <==> received@.len() == b@.len()) && (r matches Some(p)
            ==> p@ == payload@),
{
    if let Ok(b) = written {
        if received@.len() >= 2 {
            assert(received@.subrange(0, 2) =~= crate::bytes::be16(payload@.len() as int));
            crate::bytes::be16_reads_back(received@, 0, payload@.len() as int);
            if received@.len() == b@.len() {
                assert(received@.subrange(2, (2 + payload@.len()) as int) =~= payload@);
            }
        }
    }
}

/// What a target sent back reaches the application at the address that it last sent
/// from, as a datagram of that target; before it has sent anything, nothing does.
pub proof fn answers_reach_the_application(
    client: Option<SocketAddr>,
    target: &TargetAddr,
    payload: &[u8],
    r: Option<(Vec<u8>, SocketAddr)>,
    datagram: &[u8],
    read: Result<crate::proxy::socks5::UdpPacket, crate::proxy::socks5::SocksError>,
)
    requires
        target matches TargetAddr::Domain(host, _) ==> crate::text::bytes_of(host@).len() <= 255,
        call_ensures(forward_udp_response, (client, target, payload), r),
        r matches Some((b, _)) ==> datagram@ == b@,
        call_ensures(parse_udp_packet, (datagram,), read),
    ensures
        r is None <==> client is None,
        r matches Some((_, to)) ==> client == Some(to) && (read matches Ok(p) && p.target@ == target@
            && p.payload@ == payload@),
{
    crate::proxy::socks5::packet_reads_back(target@, payload@);
}

/// Datagrams are received at the address of the control connection, or at the local
/// host where that is of no host, and sent from an address of the kind of the target.
pub proof fn sockets_fit_their_peers(
    local: IpAddr,
    r: IpAddr,
    target: &TargetAddr,
    from: SocketAddr,
)
    requires
        call_ensures(relay_bind_ip, (local,), r),
        call_ensures(target_bind_addr, (target,), from),
    ensures
        local == IpAddr::V4(0) || local == IpAddr::V6(0) ==> r == IpAddr::V4(0x7f00_0001),
        local != IpAddr::V4(0) && local != IpAddr::V6(0) ==> r == local,
        from.port == 0,
        from.ip == IpAddr::V4(0) || from.ip == IpAddr::V6(0),
        from.ip == IpAddr::V6(0) <==> (target matches TargetAddr::Ip(IpAddr::V6(_), _)),
{
}

} // verus!
