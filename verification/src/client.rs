//! The client: its settings, and what it does for each connection.

use vstd::prelude::*;
use crate::failure::{outcome, timed_out, Failure};
use crate::ip::{socket_text, socket_to_string, IpAddr, SocketAddr};
use crate::mode::ProxyMode;
use crate::proxy::adblock::AdblockConfig;
use crate::proxy::route::{FilterMode, RouteDecision, RouteRuleConfig};
use crate::proxy::socks5::{
    plain_reply, send_failure, send_success, target_text, Request, TargetAddr, TargetView,
    REP_GENERAL_FAILURE,
};
use crate::runtime::{dns_tcp_upstream, ClientRuntime};
use crate::text::{cat, finishes_with, opt_view, trim, trimmed};
use crate::traffic::RelayLabels;
use crate::wg::WgClientArgs;

verus! {

/// Settings of a client.
#[derive(Debug)]
pub struct ClientArgs {
    pub listen: String,
    pub server: String,
    pub server_name: Option<String>,
    pub ca_cert: Option<String>,
    pub mode: ProxyMode,
    pub password: String,
    pub path: String,
    pub mux_path: String,
    pub mux: bool,
    pub filter: FilterMode,
    pub rule_file: Option<String>,
    pub cidr_file: Option<String>,
    pub domain_rules: RouteRuleConfig,
    pub ip_rules: RouteRuleConfig,
    pub adblock: AdblockConfig,
    pub user_agent: String,
    pub handshake_timeout_secs: u64,
    pub connect_timeout_secs: u64,
    pub max_header_size: usize,
    pub system_proxy: bool,
    pub system_proxy_services: Vec<String>,
    pub tun_dns_redirect_ip: Option<IpAddr>,
    pub tun_dns_upstream: Option<SocketAddr>,
    pub wg: WgClientArgs,
}

/// How a client runs.
#[derive(Clone, Copy, Debug, PartialEq, Eq, Structural)]
pub enum ClientRun {
    Wg,
    NativeHttp,
    NativeMux,
    Daze(ProxyMode),
}

impl ClientArgs {
    /// The mode that the settings select.
    pub fn effective_mode(&self) -> (r: Result<ProxyMode, Failure>)
        ensures
            outcome(r) == ProxyMode::with_legacy_mux(self.mux, self.mode),
    {
        ProxyMode::from_legacy_mux(self.mux, self.mode)
    }

    /// What a client cannot do without, if it is missing.
    pub open spec fn missing(&self) -> Option<Seq<Seq<char>>> {
        if trimmed(self.server@).len() == 0 {
            Some(seq!["client server is required; pass --server or set it in --config"@])
        } else if trimmed(self.password@).len() == 0 {
            Some(
                seq![
                    "client password is required; pass --password, set RUNNEL_PASSWORD, or set it in --config"@,
                ],
            )
        } else {
            None
        }
    }

    /// Fails where the server or the password is missing.
    pub fn validate_required(&self) -> (r: Result<(), Failure>)
        ensures
            match (outcome(r), self.missing()) {
                (Ok(_), None) => true,
                (Err(e), Some(f)) => e == f,
                _ => false,
            },
    {
        if trim(self.server.as_str()).as_str().is_empty() {
            return Err(
                Failure::new("client server is required; pass --server or set it in --config"),
            );
        }
        if trim(self.password.as_str()).as_str().is_empty() {
            return Err(
                Failure::new(
                    "client password is required; pass --password, set RUNNEL_PASSWORD, or set it in --config",
                ),
            );
        }
        Ok(())
    }

    /// How a client with these settings runs.
    pub open spec fn run_plan(&self) -> Result<ClientRun, Seq<Seq<char>>> {
        match ProxyMode::with_legacy_mux(self.mux, self.mode) {
            Err(e) => Err(e),
            Ok(ProxyMode::Wg) => Ok(ClientRun::Wg),
            Ok(mode) => match self.missing() {
                Some(e) => Err(e),
                None => match mode {
                    ProxyMode::NativeHttp => Ok(ClientRun::NativeHttp),
                    ProxyMode::NativeMux => Ok(ClientRun::NativeMux),
                    _ => Ok(ClientRun::Daze(mode)),
                },
            },
        }
    }

    /// How a client with these settings runs.
    pub fn run(&self) -> (r: Result<ClientRun, Failure>)
        ensures
            outcome(r) == self.run_plan(),
    {
        let mode = match self.effective_mode() {
            Err(e) => {
                return Err(e);
            },
            Ok(m) => m,
        };
        if mode == ProxyMode::Wg {
            return Ok(ClientRun::Wg);
        }
        match self.validate_required() {
            Err(e) => {
                return Err(e);
            },
            Ok(_) => {},
        }
        match mode {
            ProxyMode::NativeHttp => Ok(ClientRun::NativeHttp),
            ProxyMode::NativeMux => Ok(ClientRun::NativeMux),
            _ => Ok(ClientRun::Daze(mode)),
        }
    }
}

// ---------------------------------------------------------------------------
// Connections

/// How far a connection is.
#[derive(Debug)]
pub enum Stage {
    Handshake,
    Routing(TargetAddr),
    DnsTunnel(TargetAddr, SocketAddr),
    Tunnel(TargetAddr),
    Done,
}

/// What happens to a connection.
#[derive(Debug)]
pub enum Event {
    /// The application said what it wants.
    Accepted(Request),
    /// The application did not say in time what it wants.
    HandshakeTimedOut,
    /// The handshake or the choice of a route failed.
    Failed(Failure),
    /// The route is known.
    Decided(RouteDecision),
    /// The tunnel to the server is open.
    TunnelOpen,
    /// The tunnel to the server could not be opened.
    TunnelFailed(Failure),
}

/// What is done for a connection.
#[derive(Debug)]
pub enum Action {
    Nothing,
    /// Find the route of the target.
    Decide,
    /// Carry datagrams.
    AssociateUdp,
    /// Open a tunnel to the target.
    OpenTunnel(String),
    /// Relay directly to the target.
    RelayDirect(TargetAddr),
    /// Send the bytes, then relay.
    Relay(Vec<u8>, RelayLabels),
    /// Send the bytes, then fail.
    Fail(Vec<u8>, Failure),
}

/// Whether an action is a relay through the server, after a reply of success.
pub open spec fn relays(action: Action, target: TargetView, mode: Seq<char>) -> bool {
    &&& action matches Action::Relay(b, l)
    &&& b@ == plain_reply(0)
    &&& l.target@ == target_text(target)
    &&& opt_view(l.route) == Some("remote"@)
    &&& opt_view(l.mode) == Some(mode)
}

/// Whether an action ends a connection with a failure, after a reply or without.
pub open spec fn fails(action: Action, reply: bool, failure: Seq<Seq<char>>) -> bool {
    &&& action matches Action::Fail(b, e)
    &&& b@ == if reply {
        plain_reply(REP_GENERAL_FAILURE)
    } else {
        seq![]
    }
    &&& e@ == failure
}

fn relay(target: &TargetAddr, mode: &str) -> (r: Action)
    ensures
        relays(r, target@, mode@),
{
    Action::Relay(send_success(), RelayLabels::new(target.to_text(), "remote", Some(mode)))
}

/// What is done for a connection when its route is known.
pub open spec fn after_decision(target: TargetAddr, decision: RouteDecision, r: (Stage, Action)) -> bool {
    match decision {
        RouteDecision::Direct => r == (Stage::Done, Action::RelayDirect(target)),
        RouteDecision::Block => r.0 is Done && fails(
            r.1,
            true,
            seq!["target blocked by proxy control: "@ + target_text(target@)],
        ),
        RouteDecision::Remote => r.0 == Stage::Tunnel(target) && (r.1 matches Action::OpenTunnel(t)
            && t@ == target_text(target@)),
    }
}

/// What is done for a connection when its target is known: names are asked for
/// through the server, all else is routed.
pub open spec fn after_target(
    redirect_ip: Option<IpAddr>,
    upstream: Option<SocketAddr>,
    target: TargetAddr,
    r: (Stage, Action),
) -> bool {
    match dns_tcp_upstream(redirect_ip, upstream, target@) {
        Some(up) => r.0 == Stage::DnsTunnel(target, up) && (r.1 matches Action::OpenTunnel(t) && t@
            == socket_text(up.ip, up.port as nat)),
        None => r == (Stage::Routing(target), Action::Decide),
    }
}

/// What the client does for a connection when something happens to it, and how
/// far the connection is then.
pub fn handle_connection(runtime: &ClientRuntime, stage: Stage, event: Event) -> (r: (Stage, Action))
    ensures
        stage matches Stage::Routing(t) ==> (event == Event::Decided(RouteDecision::Direct) <==> r
            == (Stage::Done, Action::RelayDirect(t))),
        stage is Routing ==> (event == Event::Decided(RouteDecision::Remote) <==> r.1 is OpenTunnel),
        match (stage, event) {
            (Stage::Handshake, Event::Accepted(Request::Connect(t))) => after_target(
                runtime.tun_dns_redirect_ip,
                runtime.tun_dns_upstream,
                t,
                r,
            ),
            (Stage::Handshake, Event::Accepted(Request::UdpAssociate(_))) => r == (
                Stage::Done,
                Action::AssociateUdp,
            ),
            (Stage::Handshake, Event::HandshakeTimedOut) => r.0 is Done && fails(
                r.1,
                false,
                timed_out("SOCKS handshake timed out"@),
            ),
            (Stage::Handshake, Event::Failed(e)) => r.0 is Done && fails(r.1, false, e@),
            (Stage::Routing(_), Event::Failed(e)) => r.0 is Done && fails(r.1, false, e@),
            (Stage::Routing(t), Event::Decided(d)) => after_decision(t, d, r),
            (Stage::DnsTunnel(t, _), Event::TunnelOpen) => r.0 is Done && relays(
                r.1,
                t@,
                "native-http"@,
            ),
            (Stage::DnsTunnel(_, up), Event::TunnelFailed(e)) => r.0 is Done && fails(
                r.1,
                true,
                seq![
                    "failed to open remote tun DNS tunnel to "@ + socket_text(
                        up.ip,
                        up.port as nat,
                    ),
                ] + e@,
            ),
            (Stage::Tunnel(t), Event::TunnelOpen) => r.0 is Done && relays(r.1, t@, "native-http"@),
            (Stage::Tunnel(_), Event::TunnelFailed(e)) => r.0 is Done && fails(
                r.1,
                true,
                seq!["failed to establish remote tunnel"@] + e@,
            ),
            _ => r == (stage, Action::Nothing),
        },
{
    match stage {
        Stage::Handshake => match event {
            Event::Accepted(Request::Connect(t)) => match runtime.tun_dns_tcp_upstream(&t) {
                Some(up) => (
                    Stage::DnsTunnel(t, up),
                    Action::OpenTunnel(socket_to_string(up.ip, up.port)),
                ),
                None => (Stage::Routing(t), Action::Decide),
            },
            Event::Accepted(Request::UdpAssociate(_)) => (Stage::Done, Action::AssociateUdp),
            Event::HandshakeTimedOut => (
                Stage::Done,
                Action::Fail(Vec::new(), Failure::timed_out("SOCKS handshake timed out")),
            ),
            Event::Failed(e) => (Stage::Done, Action::Fail(Vec::new(), e)),
            _ => (Stage::Handshake, Action::Nothing),
        },
        Stage::Routing(t) => match event {
            Event::Failed(e) => (Stage::Done, Action::Fail(Vec::new(), e)),
            Event::Decided(d) => match d {
                RouteDecision::Direct => (Stage::Done, Action::RelayDirect(t)),
                RouteDecision::Block => (
                    Stage::Done,
                    Action::Fail(
                        send_failure(REP_GENERAL_FAILURE),
                        Failure::new(
                            cat("target blocked by proxy control: ", t.to_text().as_str()).as_str(),
                        ),
                    ),
                ),
                RouteDecision::Remote => {
                    let text = t.to_text();
                    (Stage::Tunnel(t), Action::OpenTunnel(text))
                },
            },
            _ => (Stage::Routing(t), Action::Nothing),
        },
        Stage::DnsTunnel(t, up) => match event {
            Event::TunnelOpen => (Stage::Done, relay(&t, "native-http")),
            Event::TunnelFailed(e) => (
                Stage::Done,
                Action::Fail(
                    send_failure(REP_GENERAL_FAILURE),
                    e.context(
                        cat(
                            "failed to open remote tun DNS tunnel to ",
                            socket_to_string(up.ip, up.port).as_str(),
                        ).as_str(),
                    ),
                ),
            ),
            _ => (Stage::DnsTunnel(t, up), Action::Nothing),
        },
        Stage::Tunnel(t) => match event {
            Event::TunnelOpen => (Stage::Done, relay(&t, "native-http")),
            Event::TunnelFailed(e) => (
                Stage::Done,
                Action::Fail(
                    send_failure(REP_GENERAL_FAILURE),
                    e.context("failed to establish remote tunnel"),
                ),
            ),
            _ => (Stage::Tunnel(t), Action::Nothing),
        },
        Stage::Done => (Stage::Done, Action::Nothing),
    }
}


/// A target that is to be reached directly is never put into a tunnel.
pub proof fn direct_targets_are_never_tunnelled(
    runtime: &ClientRuntime,
    target: TargetAddr,
    r: (Stage, Action),
)
    requires
        call_ensures(
            handle_connection,
            (runtime, Stage::Routing(target), Event::Decided(RouteDecision::Direct)),
            r,
        ),
    ensures
        r == (Stage::Done, Action::RelayDirect(target)),
{
}

/// The target of an application that wants a connection is routed, or asked for
/// names over a tunnel where it is the address for names; one that wants to send
/// datagrams gets an association.
pub proof fn requests_are_taken_up(
    runtime: &ClientRuntime,
    request: Request,
    upstream: Option<SocketAddr>,
    r: (Stage, Action),
)
    requires
        request matches Request::Connect(t) ==> call_ensures(
            ClientRuntime::tun_dns_tcp_upstream,
            (runtime, &t),
            upstream,
        ),
        call_ensures(handle_connection, (runtime, Stage::Handshake, Event::Accepted(request)), r),
    ensures
        request matches Request::Connect(t) ==> match upstream {
            None => r == (Stage::Routing(t), Action::Decide),
            Some(up) => r.0 == Stage::DnsTunnel(t, up) && (r.1 matches Action::OpenTunnel(to) && to@
                == socket_text(up.ip, up.port as nat)),
        },
        request is UdpAssociate ==> r == (Stage::Done, Action::AssociateUdp),
{
}

/// A target goes through a tunnel just where it is decided that it goes through the
/// server, is relayed directly just where it is decided that it goes direct, and is
/// refused where it is blocked.
pub proof fn decisions_are_carried_out(
    runtime: &ClientRuntime,
    target: TargetAddr,
    decision: RouteDecision,
    text: String,
    r: (Stage, Action),
)
    requires
        call_ensures(TargetAddr::to_text, (&target,), text),
        call_ensures(handle_connection, (runtime, Stage::Routing(target), Event::Decided(decision)), r),
    ensures
        decision == RouteDecision::Direct <==> r == (Stage::Done, Action::RelayDirect(target)),
        decision == RouteDecision::Remote <==> r.1 is OpenTunnel,
        decision == RouteDecision::Remote ==> r.0 == Stage::Tunnel(target) && (
        r.1 matches Action::OpenTunnel(to) && to@ == text@),
        decision == RouteDecision::Block <==> r.1 is Fail,
        decision == RouteDecision::Block ==> r.0 is Done && (r.1 matches Action::Fail(reply, e)
            && reply@ == seq![5u8, 1, 0, 1, 0, 0, 0, 0, 0, 0] && e@.len() == 1 && finishes_with(
            e@[0],
            text@,
        )),
{
    crate::proxy::socks5::replies_without_an_address(1);
    if decision == RouteDecision::Block {
        let whole = "target blocked by proxy control: "@ + text@;
        assert(whole.skip(whole.len() - text@.len()) =~= text@);
    }
}

/// An application is told of success, and its bytes relayed, just where its tunnel
/// was opened; where it was not, it is told of a failure, which the client fails
/// with.
pub proof fn tunnels_are_answered(
    runtime: &ClientRuntime,
    stage: Stage,
    target: TargetAddr,
    event: Event,
    text: String,
    r: (Stage, Action),
)
    requires
        stage == Stage::Tunnel(target) || (stage matches Stage::DnsTunnel(t, _) && t == target),
        event is TunnelOpen || event is TunnelFailed,
        call_ensures(TargetAddr::to_text, (&target,), text),
        call_ensures(handle_connection, (runtime, stage, event), r),
    ensures
        r.0 is Done,
        event is TunnelOpen ==> (r.1 matches Action::Relay(reply, labels) && reply@
            == seq![5u8, 0, 0, 1, 0, 0, 0, 0, 0, 0] && labels.target@ == text@),
        event matches Event::TunnelFailed(cause) ==> (r.1 matches Action::Fail(reply, e) && reply@
            == seq![5u8, 1, 0, 1, 0, 0, 0, 0, 0, 0] && e@.len() == cause@.len() + 1 && e@.skip(1)
            == cause@),
{
    crate::proxy::socks5::replies_without_an_address(0);
    crate::proxy::socks5::replies_without_an_address(1);
    if let Event::TunnelFailed(cause) = event {
        assert((r.1->Fail_1)@.skip(1) =~= cause@);
    }
}

/// What fails before a route is known fails without an answer, and nothing is done
/// for a connection that is done.
pub proof fn early_failures_are_passed_on(
    runtime: &ClientRuntime,
    stage: Stage,
    cause: Failure,
    event: Event,
    r: (Stage, Action),
    done: (Stage, Action),
)
    requires
        stage is Handshake || stage is Routing,
        call_ensures(handle_connection, (runtime, stage, Event::Failed(cause)), r),
        call_ensures(handle_connection, (runtime, Stage::Done, event), done),
    ensures
        r.0 is Done,
        r.1 matches Action::Fail(reply, e) && reply@.len() == 0 && e@ == cause@,
        done == (Stage::Done, Action::Nothing),
{
}

/// A client runs in the mode of its settings, where the old switch turns the plain
/// mode into the multiplexed one and goes with no other; outside WireGuard it needs
/// a server and a password.
pub proof fn clients_run_in_their_mode(
    args: &ClientArgs,
    mode: Result<ProxyMode, Failure>,
    needs: Result<(), Failure>,
    r: Result<ClientRun, Failure>,
)
    requires
        call_ensures(ClientArgs::effective_mode, (args,), mode),
        call_ensures(ClientArgs::validate_required, (args,), needs),
        call_ensures(ClientArgs::run, (args,), r),
    ensures
        !args.mux ==> mode == Ok::<ProxyMode, Failure>(args.mode),
        args.mux && (args.mode == ProxyMode::NativeHttp || args.mode == ProxyMode::NativeMux) ==> mode
            == Ok::<ProxyMode, Failure>(ProxyMode::NativeMux),
        args.mux && args.mode != ProxyMode::NativeHttp && args.mode != ProxyMode::NativeMux ==> mode
            is Err,
        needs is Ok <==> trimmed(args.server@).len() > 0 && trimmed(args.password@).len() > 0,
        r is Ok <==> mode is Ok && (mode == Ok::<ProxyMode, Failure>(ProxyMode::Wg) || needs is Ok),
        r matches Ok(run) ==> (mode matches Ok(m) && match m {
            ProxyMode::Wg => run == ClientRun::Wg,
            ProxyMode::NativeHttp => run == ClientRun::NativeHttp,
            ProxyMode::NativeMux => run == ClientRun::NativeMux,
            _ => run == ClientRun::Daze(m),
        }),
{
}

/// An application that does not say in time what it wants is failed without an
/// answer, and what does not belong to a stage changes nothing.
pub proof fn silent_applications_are_failed(
    runtime: &ClientRuntime,
    r: (Stage, Action),
    target: TargetAddr,
    early: (Stage, Action),
    lost: (Stage, Action),
)
    requires
        call_ensures(handle_connection, (runtime, Stage::Handshake, Event::HandshakeTimedOut), r),
        call_ensures(handle_connection, (runtime, Stage::Handshake, Event::TunnelOpen), early),
        call_ensures(handle_connection, (runtime, Stage::Routing(target), Event::TunnelOpen), lost),
    ensures
        r.0 is Done,
        r.1 matches Action::Fail(reply, e) && reply@.len() == 0 && e@.len() == 2,
        early == (Stage::Handshake, Action::Nothing),
        lost == (Stage::Routing(target), Action::Nothing),
{
}

} // verus!
