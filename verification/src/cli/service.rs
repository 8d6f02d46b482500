//! Services: what they are, and where their files are.

use vstd::prelude::*;
use super::{Cli, Commands, ServiceRole};
use crate::client::ClientArgs;
use crate::failure::Failure;
use crate::ip::{ip_text, ip_to_string};
use crate::mode::ProxyMode;
use crate::paths::{expand_home, home_path, is_absolute, absolute, join_path, joined_path, str_view};
use crate::telemetry::hub::TrafficState;
use crate::telemetry::snapshot::MonitorContext;
use crate::text::{cat, cat3, opt_view};
use crate::tui::{ContextView, DashboardContext};

verus! {

// ---------------------------------------------------------------------------
// Descriptions

/// What is told of a service.
#[derive(Debug)]
pub struct ServiceDescriptor {
    pub command_label: String,
    pub mode_label: String,
    pub listen: Option<String>,
    pub upstream: Option<String>,
    pub path: Option<String>,
}

/// What is told of a service.
#[verifier::ext_equal]
pub struct DescriptorView {
    pub command_label: Seq<char>,
    pub mode_label: Seq<char>,
    pub listen: Option<Seq<char>>,
    pub upstream: Option<Seq<char>>,
    pub path: Option<Seq<char>>,
}

impl View for ServiceDescriptor {
    type V = DescriptorView;

    open spec fn view(&self) -> DescriptorView {
        DescriptorView {
            command_label: self.command_label@,
            mode_label: self.mode_label@,
            listen: opt_view(self.listen),
            upstream: opt_view(self.upstream),
            path: opt_view(self.path),
        }
    }
}

/// A description with all of its parts.
pub open spec fn described(
    command: Seq<char>,
    mode: Seq<char>,
    listen: Seq<char>,
    upstream: Seq<char>,
    path: Seq<char>,
) -> DescriptorView {
    DescriptorView {
        command_label: command,
        mode_label: mode,
        listen: Some(listen),
        upstream: Some(upstream),
        path: Some(path),
    }
}

/// The mode that the settings of a client select, if they select one.
pub open spec fn mode_of(args: ClientArgs) -> Option<ProxyMode> {
    match ProxyMode::with_legacy_mux(args.mux, args.mode) {
        Ok(m) => Some(m),
        Err(_) => None,
    }
}

/// The name of a mode, or a dash.
pub open spec fn mode_name(mode: Option<ProxyMode>) -> Seq<char> {
    match mode {
        Some(m) => m.name(),
        None => "-"@,
    }
}

/// What is told of the service that a command starts.
pub open spec fn description(command: Commands) -> Option<DescriptorView> {
    match command {
        Commands::Client(args) => {
            let mode = mode_of(args);
            let wg = mode == Some(ProxyMode::Wg);
            Some(
                described(
                    "client"@,
                    mode_name(mode),
                    if wg {
                        args.wg.bind@
                    } else {
                        args.listen@
                    },
                    if wg {
                        args.wg.endpoint@
                    } else {
                        args.server@
                    },
                    if wg {
                        args.wg.device@
                    } else if mode == Some(ProxyMode::NativeMux) {
                        args.mux_path@
                    } else {
                        args.path@
                    },
                ),
            )
        },
        Commands::Server(args) => {
            let wg = args.mode == ProxyMode::Wg;
            Some(
                described(
                    "server"@,
                    args.mode.name(),
                    if wg {
                        args.wg.listen@
                    } else {
                        args.listen@
                    },
                    if wg {
                        ip_text(args.wg.peer_tunnel_ip)
                    } else {
                        args.fallback_url@
                    },
                    if wg {
                        args.wg.device@
                    } else if args.mode == ProxyMode::NativeMux {
                        args.mux_path@
                    } else {
                        args.path@
                    },
                ),
            )
        },
        Commands::Tun(args) => Some(
            described(
                "tun"@,
                mode_name(mode_of(args.client)),
                args.client.listen@,
                args.client.server@,
                args.device@,
            ),
        ),
        Commands::WgClient(args) => Some(
            described("wg-client"@, "wg"@, args.bind@, args.endpoint@, args.device@),
        ),
        Commands::WgServer(args) => Some(
            described(
                "wg-server"@,
                "wg"@,
                args.listen@,
                ip_text(args.peer_tunnel_ip),
                args.device@,
            ),
        ),
        _ => None,
    }
}

fn client_mode(args: &ClientArgs) -> (r: Option<ProxyMode>)
    ensures
        r == mode_of(*args),
{
    match args.effective_mode() {
        Ok(m) => Some(m),
        Err(_) => None,
    }
}

fn mode_label(mode: Option<ProxyMode>) -> (r: String)
    ensures
        r@ == mode_name(mode),
{
    match mode {
        Some(m) => m.as_str().to_owned(),
        None => "-".to_owned(),
    }
}

/// What is told of the service that a command starts.
pub fn service_descriptor(command: &Commands) -> (r: Option<ServiceDescriptor>)
    ensures
        match (r, description(*command)) {
            (Some(d), Some(v)) => d@ == v,
            (None, None) => true,
            _ => false,
        },
{
    match command {
        Commands::Client(args) => {
            let mode = client_mode(args);
            let (listen, upstream, path) = match mode {
                Some(ProxyMode::Wg) => (&args.wg.bind, &args.wg.endpoint, &args.wg.device),
                Some(ProxyMode::NativeMux) => (&args.listen, &args.server, &args.mux_path),
                _ => (&args.listen, &args.server, &args.path),
            };
            Some(
                ServiceDescriptor {
                    command_label: "client".to_owned(),
                    mode_label: mode_label(mode),
                    listen: Some(listen.clone()),
                    upstream: Some(upstream.clone()),
                    path: Some(path.clone()),
                },
            )
        },
        Commands::Server(args) => {
            let (listen, upstream, path) = match args.mode {
                ProxyMode::Wg => (
                    args.wg.listen.clone(),
                    ip_to_string(args.wg.peer_tunnel_ip),
                    args.wg.device.clone(),
                ),
                ProxyMode::NativeMux => (
                    args.listen.clone(),
                    args.fallback_url.clone(),
                    args.mux_path.clone(),
                ),
                _ => (args.listen.clone(), args.fallback_url.clone(), args.path.clone()),
            };
            Some(
                ServiceDescriptor {
                    command_label: "server".to_owned(),
                    mode_label: args.mode.as_str().to_owned(),
                    listen: Some(listen),
                    upstream: Some(upstream),
                    path: Some(path),
                },
            )
        },
        Commands::Tun(args) => Some(
            ServiceDescriptor {
                command_label: "tun".to_owned(),
                mode_label: mode_label(client_mode(&args.client)),
                listen: Some(args.client.listen.clone()),
                upstream: Some(args.client.server.clone()),
                path: Some(args.device.clone()),
            },
        ),
        Commands::WgClient(args) => Some(
            ServiceDescriptor {
                command_label: "wg-client".to_owned(),
                mode_label: "wg".to_owned(),
                listen: Some(args.bind.clone()),
                upstream: Some(args.endpoint.clone()),
                path: Some(args.device.clone()),
            },
        ),
        Commands::WgServer(args) => Some(
            ServiceDescriptor {
                command_label: "wg-server".to_owned(),
                mode_label: "wg".to_owned(),
                listen: Some(args.listen.clone()),
                upstream: Some(ip_to_string(args.peer_tunnel_ip)),
                path: Some(args.device.clone()),
            },
        ),
        _ => None,
    }
}

/// What a dashboard on the service that a command starts is about, if there is
/// to be one.
pub fn dashboard_context(cli: &Cli, log_file: &str, log_timezone_offset_secs: i32) -> (r: Option<
    DashboardContext,
>)
    ensures
        match description(cli.command) {
            Some(d) => if cli.tui {
                &&& r matches Some(c)
                &&& c@ == (ContextView {
                    command_label: d.command_label,
                    mode_label: d.mode_label,
                    traffic_state: TrafficState::Proxying,
                    listen: d.listen,
                    upstream: d.upstream,
                    path: d.path,
                    log_file: log_file@,
                    log_filter: cli.log@,
                    log_timezone_offset_secs,
                })
            } else {
                r is None
            },
            None => r is None,
        },
{
    if !cli.tui {
        return None;
    }
    match service_descriptor(&cli.command) {
        Some(d) => Some(
            DashboardContext {
                command_label: d.command_label,
                mode_label: d.mode_label,
                traffic_state: TrafficState::Proxying,
                listen: d.listen,
                upstream: d.upstream,
                path: d.path,
                log_file: log_file.to_owned(),
                log_filter: cli.log.clone(),
                log_timezone_offset_secs,
            },
        ),
        None => None,
    }
}

/// What others can watch of the service that a command starts.
pub fn monitor_context(
    cli: &Cli,
    log_file: &str,
    log_timezone_offset_secs: i32,
    pid: u32,
) -> (r: Option<MonitorContext>)
    ensures
        match description(cli.command) {
            Some(d) => {
                &&& r matches Some(c)
                &&& c.command_label@ == d.command_label
                &&& c.mode_label@ == d.mode_label
                &&& c.traffic_state == TrafficState::Proxying
                &&& opt_view(c.listen) == d.listen
                &&& opt_view(c.upstream) == d.upstream
                &&& opt_view(c.path) == d.path
                &&& c.log_file@ == log_file@
                &&& c.log_filter@ == cli.log@
                &&& c.log_timezone_offset_secs == log_timezone_offset_secs
                &&& c.pid == pid
            },
            None => r is None,
        },
{
    match service_descriptor(&cli.command) {
        Some(d) => Some(
            MonitorContext {
                command_label: d.command_label,
                mode_label: d.mode_label,
                traffic_state: TrafficState::Proxying,
                listen: d.listen,
                upstream: d.upstream,
                path: d.path,
                log_file: log_file.to_owned(),
                log_filter: cli.log.clone(),
                log_timezone_offset_secs,
                pid,
            },
        ),
        None => None,
    }
}

/// The kind of service that a command starts.
pub open spec fn role_of(command: Commands) -> Option<ServiceRole> {
    match command {
        Commands::Client(_) => Some(ServiceRole::Client),
        Commands::Server(_) => Some(ServiceRole::Server),
        Commands::Tun(_) => Some(ServiceRole::Tun),
        Commands::WgClient(_) => Some(ServiceRole::WgClient),
        Commands::WgServer(_) => Some(ServiceRole::WgServer),
        _ => None,
    }
}

/// The name of the kind of service that a command starts.
pub fn command_role(command: &Commands) -> (r: Option<&'static str>)
    ensures
        str_view(r) == match role_of(*command) {
            Some(role) => Some(role.name()),
            None => None,
        },
{
    match command {
        Commands::Client(_) => Some("client"),
        Commands::Server(_) => Some("server"),
        Commands::Tun(_) => Some("tun"),
        Commands::WgClient(_) => Some("wg-client"),
        Commands::WgServer(_) => Some("wg-server"),
        _ => None,
    }
}

/// What is told of a service names the service, and nothing is told of a command
/// that starts none.
pub proof fn services_are_called_by_their_names(command: Commands)
    ensures
        description(command) is Some <==> role_of(command) is Some,
        description(command) is Some <==> super::is_service(command),
        description(command) matches Some(d) ==> d.command_label == role_of(command)->0.name(),
{
}

// ---------------------------------------------------------------------------
// Files

/// Where a program runs, as far as it can be said.
pub struct Place {
    pub home: Option<String>,
    pub cwd: Result<String, Failure>,
}

/// A path, or why there is none.
pub open spec fn path_view(r: Result<String, Failure>) -> Result<Seq<char>, Seq<Seq<char>>> {
    match r {
        Ok(p) => Ok(p@),
        Err(e) => Err(e@),
    }
}

/// A path that does not depend on where the program runs.
pub open spec fn whole_path(path: Seq<char>, place: Place) -> Result<Seq<char>, Seq<Seq<char>>> {
    match home_path(path, opt_view(place.home)) {
        Some(p) => Ok(p),
        None => if absolute(path) {
            Ok(path)
        } else {
            match place.cwd {
                Ok(dir) => Ok(joined_path(dir@, path)),
                Err(e) => Err(seq!["failed to read current directory"@] + e@),
            }
        },
    }
}

fn copy_failure(e: &Failure) -> (r: Failure)
    ensures
        r@ == e@,
{
    let r = Failure {
        message: e.message.clone(),
        causes: crate::text::clone_strings(&e.causes),
    };
    assert(r@ =~= e@);
    r
}

/// A path that does not depend on where the program runs.
pub fn absolute_path(path: &str, place: &Place) -> (r: Result<String, Failure>)
    ensures
        path_view(r) == whole_path(path@, *place),
{
    let expanded = match &place.home {
        Some(h) => expand_home(path, Some(h.as_str())),
        None => expand_home(path, None),
    };
    match expanded {
        Some(p) => {
            return Ok(p);
        },
        None => {},
    }
    if is_absolute(path) {
        return Ok(path.to_owned());
    }
    match &place.cwd {
        Ok(dir) => Ok(join_path(dir.as_str(), path)),
        Err(e) => Err(copy_failure(e).context("failed to read current directory")),
    }
}

/// The path of a file of a service.
pub open spec fn sidecar(role: Seq<char>, ext: Seq<char>, place: Place) -> Result<
    Seq<char>,
    Seq<Seq<char>>,
> {
    match whole_path("~/.runnel/current"@, place) {
        Ok(dir) => Ok(joined_path(dir, role + "."@ + ext)),
        Err(e) => Err(e),
    }
}

/// The path of a file of a service. It does not depend on where the log is.
pub fn default_sidecar_path(_log_file: &str, role: &str, ext: &str, place: &Place) -> (r: Result<
    String,
    Failure,
>)
    ensures
        path_view(r) == sidecar(role@, ext@, *place),
{
    match absolute_path("~/.runnel/current", place) {
        Ok(dir) => Ok(join_path(dir.as_str(), cat3(role, ".", ext).as_str())),
        Err(e) => Err(e),
    }
}

/// The path of the socket of a service.
pub fn default_socket_path(log_file: &str, role: &str, place: &Place) -> (r: Result<
    String,
    Failure,
>)
    ensures
        path_view(r) == sidecar(role@, "sock"@, *place),
{
    default_sidecar_path(log_file, role, "sock", place)
}

/// The path of the file with the number of the process of a service.
pub fn default_pid_path(log_file: &str, role: &str, place: &Place) -> (r: Result<String, Failure>)
    ensures
        path_view(r) == sidecar(role@, "pid"@, *place),
{
    default_sidecar_path(log_file, role, "pid", place)
}

/// The path of the log of a service.
pub open spec fn role_log(role: Seq<char>) -> Seq<char> {
    joined_path("~/.runnel/logs"@, role + ".log"@)
}

/// The path of the log of a service.
pub fn default_log_file_for_role(role: &str) -> (r: String)
    ensures
        r@ == role_log(role@),
{
    join_path("~/.runnel/logs", cat(role, ".log").as_str())
}

/// The kind of service that a command is about, if it names one.
pub open spec fn subject_of(command: Commands) -> Option<ServiceRole> {
    match command {
        Commands::Stop(args) => args.role,
        Commands::Reload(args) => args.role,
        Commands::Switch(args) => match args.role {
            Some(role) => Some(role.role()),
            None => None,
        },
        Commands::Status(args) => args.role,
        _ => role_of(command),
    }
}

/// The path of the log for a command.
pub fn default_log_file_for_command(command: &Commands) -> (r: String)
    ensures
        r@ == match subject_of(*command) {
            Some(role) => role_log(role.name()),
            None => "~/.runnel/logs/run.log"@,
        },
{
    let role = match command {
        Commands::Stop(args) => args.role,
        Commands::Reload(args) => args.role,
        Commands::Switch(args) => match args.role {
            Some(role) => Some(role.service_role()),
            None => None,
        },
        Commands::Status(args) => args.role,
        Commands::Client(_) => Some(ServiceRole::Client),
        Commands::Server(_) => Some(ServiceRole::Server),
        Commands::Tun(_) => Some(ServiceRole::Tun),
        Commands::WgClient(_) => Some(ServiceRole::WgClient),
        Commands::WgServer(_) => Some(ServiceRole::WgServer),
        _ => None,
    };
    match role {
        Some(role) => default_log_file_for_role(role.as_str()),
        None => "~/.runnel/logs/run.log".to_owned(),
    }
}

/// The path of the socket of the service that a command starts.
pub fn resolve_socket_for_service(cli: &Cli, log_file: &str, place: &Place) -> (r: Result<
    String,
    Failure,
>)
    ensures
        path_view(r) == match opt_view(cli.telemetry_sock) {
            Some(path) => whole_path(path, *place),
            None => match role_of(cli.command) {
                Some(role) => sidecar(role.name(), "sock"@, *place),
                None => Err(seq!["telemetry socket is not supported"@]),
            },
        },
{
    match &cli.telemetry_sock {
        Some(path) => absolute_path(path.as_str(), place),
        None => match command_role(&cli.command) {
            Some(role) => default_socket_path(log_file, role, place),
            None => Err(Failure::new("telemetry socket is not supported")),
        },
    }
}

/// Which of the files of the services of each kind are there.
#[derive(Clone, Copy, Debug, PartialEq, Eq, Structural)]
pub struct Present {
    pub client: bool,
    pub server: bool,
    pub tun: bool,
    pub wg_client: bool,
    pub wg_server: bool,
}

/// How many services have their file, and the first that has.
pub enum Found {
    Zero,
    One(ServiceRole),
    Many,
}

impl Present {
    /// Whether the file of a kind of service is there.
    pub open spec fn has(self, role: ServiceRole) -> bool {
        match role {
            ServiceRole::Client => self.client,
            ServiceRole::Server => self.server,
            ServiceRole::Tun => self.tun,
            ServiceRole::WgClient => self.wg_client,
            ServiceRole::WgServer => self.wg_server,
        }
    }

    /// Whether the file of a kind of service is there, and no other.
    pub open spec fn has_only(self, role: ServiceRole) -> bool {
        self.has(role) && forall|other: ServiceRole| #[trigger] self.has(other) ==> other == role
    }

    /// Whether no file is there.
    pub open spec fn has_none(self) -> bool {
        forall|role: ServiceRole| !#[trigger] self.has(role)
    }

    /// Whether several files are there.
    pub open spec fn has_many(self) -> bool {
        !self.has_none() && forall|role: ServiceRole| !#[trigger] self.has_only(role)
    }

    /// How many files are there.
    pub fn find(self) -> (r: Found)
        ensures
            match r {
                Found::Zero => self.has_none(),
                Found::One(role) => self.has_only(role),
                Found::Many => self.has_many(),
            },
    {
        proof {
            assert(self.has(ServiceRole::Client) == self.client);
            assert(self.has(ServiceRole::Server) == self.server);
            assert(self.has(ServiceRole::Tun) == self.tun);
            assert(self.has(ServiceRole::WgClient) == self.wg_client);
            assert(self.has(ServiceRole::WgServer) == self.wg_server);
        }
        let mut n: u8 = 0;
        let mut first = ServiceRole::Client;
        if self.client {
            n = n + 1;
        }
        if self.server {
            n = n + 1;
            first = ServiceRole::Server;
        }
        if self.tun {
            n = n + 1;
            first = ServiceRole::Tun;
        }
        if self.wg_client {
            n = n + 1;
            first = ServiceRole::WgClient;
        }
        if self.wg_server {
            n = n + 1;
            first = ServiceRole::WgServer;
        }
        if n == 0 {
            Found::Zero
        } else if n == 1 {
            Found::One(first)
        } else {
            Found::Many
        }
    }
}

/// Where a dashboard finds the service that it is about.
pub open spec fn attach_path(wanted: Option<Seq<char>>, present: Present, place: Place) -> Result<
    Seq<char>,
    Seq<Seq<char>>,
> {
    match wanted {
        Some(path) => whole_path(path, place),
        None => match sidecar("client"@, "sock"@, place) {
            Err(e) => Err(e),
            Ok(client) => if present.has_none() {
                Ok(client)
            } else if exists|role: ServiceRole| present.has_only(role) {
                sidecar((choose|role: ServiceRole| present.has_only(role)).name(), "sock"@, place)
            } else {
                Err(seq!["multiple telemetry sockets exist; pass --attach explicitly"@])
            },
        },
    }
}

/// Where a dashboard finds the service that it is about: where it was told to,
/// or else at the only socket that is there.
pub fn resolve_attach_socket(
    log_file: &str,
    global_socket: Option<&str>,
    attach: Option<&str>,
    present: Present,
    place: &Place,
) -> (r: Result<String, Failure>)
    ensures
        path_view(r) == attach_path(
            match str_view(attach) {
                Some(a) => Some(a),
                None => str_view(global_socket),
            },
            present,
            *place,
        ),
{
    match attach {
        Some(path) => {
            return absolute_path(path, place);
        },
        None => {},
    }
    match global_socket {
        Some(path) => {
            return absolute_path(path, place);
        },
        None => {},
    }
    match default_socket_path(log_file, "client", place) {
        Ok(_) => {},
        Err(e) => {
            return Err(e);
        },
    }
    match present.find() {
        Found::Zero => default_socket_path(log_file, "client", place),
        Found::One(role) => {
            proof {
                assert(present.has_only(role));
                let chosen = choose|other: ServiceRole| present.has_only(other);
                assert(present.has_only(chosen));
                assert(present.has(chosen));
                assert(chosen == role);
                assert(!present.has_none());
            }
            default_socket_path(log_file, role.as_str(), place)
        },
        Found::Many => Err(
            Failure::new("multiple telemetry sockets exist; pass --attach explicitly"),
        ),
    }
}

// ---------------------------------------------------------------------------
// Laws

/// A service is described by its kind, its mode, where it listens and where it leads;
/// what is no service is not described.
pub proof fn services_are_described_by_their_settings(
    command: &Commands,
    r: Option<ServiceDescriptor>,
    role: Option<&'static str>,
    mode: Result<ProxyMode, Failure>,
    mode_text: &'static str,
)
    requires
        call_ensures(service_descriptor, (command,), r),
        call_ensures(command_role, (command,), role),
        command matches Commands::Client(args) ==> call_ensures(
            ClientArgs::effective_mode,
            (args,),
            mode,
        ),
        command matches Commands::Tun(args) ==> call_ensures(
            ClientArgs::effective_mode,
            (&args.client,),
            mode,
        ),
        mode matches Ok(m) ==> call_ensures(ProxyMode::as_str, (m,), mode_text),
    ensures
        r is Some <==> role is Some,
        r is Some <==> command is Client || command is Server || command is Tun || command is WgClient
            || command is WgServer,
        r matches Some(d) ==> d.command_label@ == (role->0)@,
        command matches Commands::Client(args) ==> mode is Ok ==> (r matches Some(d) && d.mode_label@
            == mode_text@),
        command matches Commands::Client(args) ==> (mode matches Ok(m) && m != ProxyMode::Wg) ==> (
        r matches Some(d) && opt_view(d.listen) == Some(args.listen@) && opt_view(d.upstream) == Some(
            args.server@,
        )),
        command matches Commands::Client(args) ==> mode == Ok::<ProxyMode, Failure>(ProxyMode::Wg)
            ==> (r matches Some(d) && opt_view(d.listen) == Some(args.wg.bind@) && opt_view(d.upstream)
            == Some(args.wg.endpoint@)),
        command matches Commands::Client(args) ==> mode == Ok::<ProxyMode, Failure>(
            ProxyMode::NativeMux,
        ) ==> (r matches Some(d) && opt_view(d.path) == Some(args.mux_path@)),
        command matches Commands::Client(args) ==> mode == Ok::<ProxyMode, Failure>(
            ProxyMode::NativeHttp,
        ) ==> (r matches Some(d) && opt_view(d.path) == Some(args.path@)),
        command matches Commands::Server(args) ==> args.mode != ProxyMode::Wg ==> (r matches Some(d)
            && opt_view(d.listen) == Some(args.listen@) && opt_view(d.upstream) == Some(
            args.fallback_url@,
        )),
        command matches Commands::Tun(args) ==> (r matches Some(d) && opt_view(d.listen) == Some(
            args.client.listen@,
        ) && opt_view(d.upstream) == Some(args.client.server@) && opt_view(d.path) == Some(
            args.device@,
        )),
        command matches Commands::WgClient(args) ==> (r matches Some(d) && opt_view(d.listen) == Some(
            args.bind@,
        ) && opt_view(d.upstream) == Some(args.endpoint@) && opt_view(d.path) == Some(args.device@)),
{
}

/// What a service tells of itself is its description, with its log and its process; a
/// dashboard of its own shows the same where one is wanted.
pub proof fn services_tell_their_description(
    cli: &Cli,
    log_file: &str,
    offset: i32,
    pid: u32,
    d: Option<ServiceDescriptor>,
    monitor: Option<MonitorContext>,
    dashboard: Option<DashboardContext>,
)
    requires
        call_ensures(service_descriptor, (&cli.command,), d),
        call_ensures(monitor_context, (cli, log_file, offset, pid), monitor),
        call_ensures(dashboard_context, (cli, log_file, offset), dashboard),
    ensures
        monitor is Some <==> d is Some,
        dashboard is Some <==> d is Some && cli.tui,
        monitor matches Some(c) ==> c.command_label@ == (d->0).command_label@ && c.mode_label@ == (
        d->0).mode_label@ && opt_view(c.listen) == opt_view((d->0).listen) && opt_view(c.upstream)
            == opt_view((d->0).upstream) && opt_view(c.path) == opt_view((d->0).path) && c.log_file@
            == log_file@ && c.log_filter@ == cli.log@ && c.pid == pid && c.log_timezone_offset_secs
            == offset && c.traffic_state == TrafficState::Proxying,
        dashboard matches Some(c) ==> c@.command_label == (d->0).command_label@ && c@.mode_label == (
        d->0).mode_label@ && c@.listen == opt_view((d->0).listen) && c@.upstream == opt_view(
            (d->0).upstream,
        ) && c@.path == opt_view((d->0).path) && c@.log_file == log_file@ && c@.log_filter
            == cli.log@,
{
}

/// A path from the root stays, one in the home directory is found there, and any other
/// is taken from where the program runs.
pub proof fn paths_do_not_depend_on_the_place(
    path: &str,
    home: &str,
    place: &Place,
    expanded: Option<String>,
    dir: &str,
    joined: String,
    r: Result<String, Failure>,
)
    requires
        place.home matches Some(h) && home@ == h@,
        call_ensures(expand_home, (path, Some(home)), expanded),
        place.cwd matches Ok(d) ==> dir@ == d@,
        call_ensures(join_path, (dir, path), joined),
        call_ensures(absolute_path, (path, place), r),
    ensures
        expanded matches Some(p) ==> (r matches Ok(q) && q@ == p@),
        expanded is None && path@.len() > 0 && path@[0] == '/' ==> (r matches Ok(q) && q@ == path@),
        expanded is None && !(path@.len() > 0 && path@[0] == '/') ==> (r is Ok <==> place.cwd is Ok)
            && (r matches Ok(q) ==> q@ == joined@) && (place.cwd matches Err(e) ==> (r matches Err(f)
            && f@.skip(1) == e@)),
{
    reveal_strlit("/");
    assert("/"@ =~= seq!['/']);
    crate::text::lemma_starts(path@, '/');
    if let Err(e) = place.cwd {
        if let Err(f) = r {
            if f@ == seq!["failed to read current directory"@] + e@ {
                assert(f@.skip(1) =~= e@);
            }
        }
    }
}

/// The files of a kind of service stand in one directory, under the name of the kind;
/// the log of a command is that of the kind that it is about.
pub proof fn files_are_named_after_their_service(
    log_file: &str,
    role: &str,
    place: &Place,
    dir: Result<String, Failure>,
    socket: Result<String, Failure>,
    pid: Result<String, Failure>,
    log: String,
    command: &Commands,
    kind: Option<&'static str>,
    name: &str,
    kind_log: String,
    own: String,
)
    requires
        call_ensures(absolute_path, ("~/.runnel/current", place), dir),
        call_ensures(default_socket_path, (log_file, role, place), socket),
        call_ensures(default_pid_path, (log_file, role, place), pid),
        call_ensures(default_log_file_for_role, (role,), log),
        call_ensures(command_role, (command,), kind),
        kind matches Some(k) ==> name@ == k@,
        call_ensures(default_log_file_for_role, (name,), kind_log),
        call_ensures(default_log_file_for_command, (command,), own),
    ensures
        socket is Ok <==> dir is Ok,
        pid is Ok <==> dir is Ok,
        dir matches Ok(d) ==> (socket->Ok_0)@ == joined_path(d@, role@ + ".sock"@) && (pid->Ok_0)@
            == joined_path(d@, role@ + ".pid"@),
        log@ == joined_path("~/.runnel/logs"@, role@ + ".log"@),
        kind is Some ==> own@ == kind_log@,
{
    reveal_strlit(".");
    reveal_strlit("sock");
    reveal_strlit("pid");
    reveal_strlit(".sock");
    reveal_strlit(".pid");
    assert(role@ + "."@ + "sock"@ =~= role@ + ".sock"@);
    assert(role@ + "."@ + "pid"@ =~= role@ + ".pid"@);
}

/// A service listens for dashboards at the socket that was given, or at that of its
/// kind; what is no service has none.
pub proof fn sockets_are_found(
    cli: &Cli,
    log_file: &str,
    place: &Place,
    given: &str,
    whole: Result<String, Failure>,
    role: Option<&'static str>,
    name: &str,
    own: Result<String, Failure>,
    r: Result<String, Failure>,
)
    requires
        cli.telemetry_sock matches Some(p) ==> given@ == p@,
        call_ensures(absolute_path, (given, place), whole),
        call_ensures(command_role, (&cli.command,), role),
        role matches Some(k) ==> name@ == k@,
        call_ensures(default_socket_path, (log_file, name, place), own),
        call_ensures(resolve_socket_for_service, (cli, log_file, place), r),
    ensures
        cli.telemetry_sock is Some ==> path_view(r) == path_view(whole),
        cli.telemetry_sock is None && role is Some ==> path_view(r) == path_view(own),
        cli.telemetry_sock is None && role is None ==> r is Err,
{
}

/// A dashboard is attached where it is told to, else at the socket for every command,
/// and else at the only one that is there; at that of a client where none is, and
/// nowhere where several are.
pub proof fn dashboards_are_attached(
    log_file: &str,
    global: &str,
    attach: &str,
    present: Present,
    role: ServiceRole,
    name: &'static str,
    place: &Place,
    told: Result<String, Failure>,
    for_all: Result<String, Failure>,
    own: Result<String, Failure>,
    of_client: Result<String, Failure>,
    by_attach: Result<String, Failure>,
    by_global: Result<String, Failure>,
    alone: Result<String, Failure>,
)
    requires
        call_ensures(absolute_path, (attach, place), told),
        call_ensures(absolute_path, (global, place), for_all),
        call_ensures(ServiceRole::as_str, (role,), name),
        call_ensures(default_socket_path, (log_file, name, place), own),
        call_ensures(default_socket_path, (log_file, "client", place), of_client),
        call_ensures(
            resolve_attach_socket,
            (log_file, Some(global), Some(attach), present, place),
            by_attach,
        ),
        call_ensures(resolve_attach_socket, (log_file, Some(global), None, present, place), by_global),
        call_ensures(resolve_attach_socket, (log_file, None, None, present, place), alone),
    ensures
        path_view(by_attach) == path_view(told),
        path_view(by_global) == path_view(for_all),
        present.has_only(role) ==> path_view(alone) == path_view(own),
        present.has_none() ==> path_view(alone) == path_view(of_client),
        present.client && present.server ==> alone is Err,
{
    if present.has_only(role) {
        let chosen = choose|other: ServiceRole| present.has_only(other);
        assert(present.has_only(chosen));
        assert(present.has(chosen));
        assert(chosen == role);
        assert(present.has(role));
    }
    if present.client && present.server {
        assert(present.has(ServiceRole::Client) && present.has(ServiceRole::Server));
    }
}

/// What is there is counted right: none, one, or several.
pub proof fn services_are_counted(present: Present, r: Found)
    requires
        call_ensures(Present::find, (present,), r),
    ensures
        r is Zero <==> !present.client && !present.server && !present.tun && !present.wg_client
            && !present.wg_server,
        r matches Found::One(ServiceRole::Client) <==> present.client && !present.server && !present.tun
            && !present.wg_client && !present.wg_server,
        r matches Found::One(ServiceRole::Server) <==> !present.client && present.server && !present.tun
            && !present.wg_client && !present.wg_server,
        r matches Found::One(ServiceRole::Tun) <==> !present.client && !present.server && present.tun
            && !present.wg_client && !present.wg_server,
{
    assert(present.has(ServiceRole::Client) == present.client);
    assert(present.has(ServiceRole::Server) == present.server);
    assert(present.has(ServiceRole::Tun) == present.tun);
    assert(present.has(ServiceRole::WgClient) == present.wg_client);
    assert(present.has(ServiceRole::WgServer) == present.wg_server);
    if let Found::Many = r {
        assert(!present.has_only(ServiceRole::Client));
        assert(!present.has_only(ServiceRole::Server));
        assert(!present.has_only(ServiceRole::Tun));
    }
}

} // verus!
