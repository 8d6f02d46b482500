//! The tunnel device: what is run to set it up and to take it down.

use vstd::prelude::*;
use crate::client::ClientArgs;
use crate::failure::{outcome, Failure};
use crate::ip::{ip_text, ip_to_string, ip_value, parse_ip, IpAddr};
use crate::num::{decimal, to_decimal};
use crate::paths::{file_name, file_name_of, join_path, joined_path, parent, parent_of};
use crate::proxy::route::FilterMode;
use crate::text::{
    after_prefix, begins_with, cat, cat3, clone_strings, contains, eq_ignore_case, find, has,
    lemma_find_from, lemma_find_is, lines, lines_of, lower, occurs_at, opt_view, replace, replaced, rsplit_once, same, same_ignoring_case,
    split_last, starts_with, strip_prefix, to_lower, trim, trimmed, views, words, words_of,
};
use crate::textmap::TextMap;
use crate::tls::{endpoint_parts, split_host_port};

verus! {

/// The address of the tunnel device on macOS.
pub const MACOS_TUN_GATEWAY_V4: &'static str = "198.18.0.1";

/// The number of the first device that is tried on macOS.
pub const MACOS_AUTO_TUN_START_INDEX: u16 = 233;

/// The systems that differ.
#[derive(Clone, Copy, Debug, PartialEq, Eq, Structural)]
pub enum Platform {
    MacOs,
    Other,
}

/// Settings of a tunnel device.
#[derive(Debug)]
pub struct TunArgs {
    pub client: ClientArgs,
    pub device: String,
    pub shell: String,
    pub helper_cmd: String,
    pub dns_upstream: Option<String>,
    pub helper_ready_delay_ms: u64,
    pub up: Vec<String>,
    pub down: Vec<String>,
    pub print_hooks: bool,
    pub dry_run: bool,
}

impl TunArgs {
    /// Fails where the client lacks something.
    pub fn validate_required(&self) -> (r: Result<(), Failure>)
        ensures
            match (outcome(r), self.client.missing()) {
                (Ok(_), None) => true,
                (Err(e), Some(f)) => e == f,
                _ => false,
            },
    {
        self.client.validate_required()
    }
}

/// Makes a client send everything through the server: with a tunnel device,
/// what it sends directly would come back to it.
pub fn normalize_client_args_for_tun(args: &mut ClientArgs)
    ensures
        old(args).filter == FilterMode::Proxy ==> *final(args) == *old(args),
        old(args).filter != FilterMode::Proxy ==> *final(args) == (ClientArgs {
            filter: FilterMode::Proxy,
            rule_file: None,
            cidr_file: None,
            ..*old(args)
        }),
{
    match args.filter {
        FilterMode::Proxy => {},
        _ => {
            args.filter = FilterMode::Proxy;
            args.rule_file = None;
            args.cidr_file = None;
        },
    }
}

// ---------------------------------------------------------------------------
// Commands

/// What commands are told about.
#[derive(Debug)]
pub struct CommandContext {
    pub device: String,
    pub socks_listen: String,
    pub server: String,
    pub server_host: String,
    pub server_port: u16,
    pub server_ip: String,
    pub egress_interface: Option<String>,
    pub egress_gateway: Option<String>,
    pub log_file: Option<String>,
}

/// The text, or another where there is none.
pub open spec fn text_or(s: Option<String>, other: Seq<char>) -> Seq<char> {
    match s {
        Some(t) => t@,
        None => other,
    }
}

fn or_text(s: &Option<String>, other: &str) -> (r: String)
    ensures
        r@ == text_or(*s, other@),
{
    match s {
        Some(t) => t.clone(),
        None => other.to_owned(),
    }
}

/// A command with the names in braces replaced by what they stand for, one name
/// after the other.
pub open spec fn expanded(c: CommandContext, template: Seq<char>) -> Seq<char> {
    let t = replaced(template, "{device}"@, c.device@);
    let t = replaced(t, "{socks}"@, c.socks_listen@);
    let t = replaced(t, "{socks_listen}"@, c.socks_listen@);
    let t = replaced(t, "{server}"@, c.server@);
    let t = replaced(t, "{server_host}"@, c.server_host@);
    let t = replaced(t, "{server_port}"@, decimal(c.server_port as nat));
    let t = replaced(t, "{server_ip}"@, c.server_ip@);
    let t = replaced(t, "{egress_interface}"@, text_or(c.egress_interface, ""@));
    let t = replaced(t, "{egress_gateway}"@, text_or(c.egress_gateway, ""@));
    replaced(t, "{log_file}"@, text_or(c.log_file, "proxy.log"@))
}

/// What commands find in their environment.
pub open spec fn envs(c: CommandContext) -> Map<Seq<char>, Seq<char>> {
    let m = Map::<Seq<char>, Seq<char>>::empty().insert("PIPIT_TUN_DEVICE"@, c.device@).insert(
        "PIPIT_SOCKS_LISTEN"@,
        c.socks_listen@,
    ).insert("PIPIT_SERVER"@, c.server@).insert("PIPIT_SERVER_HOST"@, c.server_host@).insert(
        "PIPIT_SERVER_PORT"@,
        decimal(c.server_port as nat),
    ).insert("PIPIT_SERVER_IP"@, c.server_ip@);
    let m = match c.egress_interface {
        Some(i) => m.insert("PIPIT_EGRESS_INTERFACE"@, i@),
        None => m,
    };
    let m = match c.egress_gateway {
        Some(g) => m.insert("PIPIT_EGRESS_GATEWAY"@, g@),
        None => m,
    };
    match c.log_file {
        Some(f) => m.insert("PIPIT_LOG_FILE"@, f@),
        None => m,
    }
}

impl CommandContext {
    /// A command with the names in braces replaced by what they stand for.
    pub fn expand(&self, template: &str) -> (r: String)
        ensures
            r@ == expanded(*self, template@),
    {
        proof {
            reveal_strlit("{device}");
            reveal_strlit("{socks}");
            reveal_strlit("{socks_listen}");
            reveal_strlit("{server}");
            reveal_strlit("{server_host}");
            reveal_strlit("{server_port}");
            reveal_strlit("{server_ip}");
            reveal_strlit("{egress_interface}");
            reveal_strlit("{egress_gateway}");
            reveal_strlit("{log_file}");
        }
        let t = replace(template, "{device}", self.device.as_str());
        let t = replace(t.as_str(), "{socks}", self.socks_listen.as_str());
        let t = replace(t.as_str(), "{socks_listen}", self.socks_listen.as_str());
        let t = replace(t.as_str(), "{server}", self.server.as_str());
        let t = replace(t.as_str(), "{server_host}", self.server_host.as_str());
        let t = replace(
            t.as_str(),
            "{server_port}",
            to_decimal(self.server_port as u64).as_str(),
        );
        let t = replace(t.as_str(), "{server_ip}", self.server_ip.as_str());
        let t = replace(
            t.as_str(),
            "{egress_interface}",
            or_text(&self.egress_interface, "").as_str(),
        );
        let t = replace(
            t.as_str(),
            "{egress_gateway}",
            or_text(&self.egress_gateway, "").as_str(),
        );
        replace(t.as_str(), "{log_file}", or_text(&self.log_file, "proxy.log").as_str())
    }

    /// The context of a tunnel device whose name, server address and way out
    /// are known.
    pub fn from_args(
        args: &TunArgs,
        device: String,
        server_ip: String,
        egress_interface: Option<String>,
        egress_gateway: Option<String>,
        log_file: Option<String>,
    ) -> (r: Result<Self, Failure>)
        ensures
            match (r, endpoint_parts(args.client.server@)) {
                (Ok(c), Ok((host, port))) => {
                    &&& c.device == device
                    &&& c.socks_listen == args.client.listen
                    &&& c.server == args.client.server
                    &&& c.server_host@ == host
                    &&& c.server_port == port
                    &&& c.server_ip == server_ip
                    &&& c.egress_interface == egress_interface
                    &&& c.egress_gateway == egress_gateway
                    &&& c.log_file == log_file
                },
                (Err(e), Err(f)) => e@ == f,
                _ => false,
            },
    {
        match split_host_port(args.client.server.as_str()) {
            Err(e) => Err(e),
            Ok((server_host, server_port)) => Ok(
                CommandContext {
                    device,
                    socks_listen: args.client.listen.clone(),
                    server: args.client.server.clone(),
                    server_host,
                    server_port,
                    server_ip,
                    egress_interface,
                    egress_gateway,
                    log_file,
                },
            ),
        }
    }
}

/// What commands find in their environment.
pub fn shell_envs(context: &CommandContext) -> (r: TextMap)
    ensures
        r@ == envs(*context),
{
    let mut envs = TextMap::new();
    envs.insert("PIPIT_TUN_DEVICE".to_owned(), context.device.clone());
    envs.insert("PIPIT_SOCKS_LISTEN".to_owned(), context.socks_listen.clone());
    envs.insert("PIPIT_SERVER".to_owned(), context.server.clone());
    envs.insert("PIPIT_SERVER_HOST".to_owned(), context.server_host.clone());
    envs.insert("PIPIT_SERVER_PORT".to_owned(), to_decimal(context.server_port as u64));
    envs.insert("PIPIT_SERVER_IP".to_owned(), context.server_ip.clone());
    match &context.egress_interface {
        Some(interface) => {
            envs.insert("PIPIT_EGRESS_INTERFACE".to_owned(), interface.clone());
        },
        None => {},
    }
    match &context.egress_gateway {
        Some(gateway) => {
            envs.insert("PIPIT_EGRESS_GATEWAY".to_owned(), gateway.clone());
        },
        None => {},
    }
    match &context.log_file {
        Some(log_file) => {
            envs.insert("PIPIT_LOG_FILE".to_owned(), log_file.clone());
        },
        None => {},
    }
    envs
}

/// Whether a command asks about the way out.
pub open spec fn asks_egress(template: Seq<char>) -> bool {
    contains(template, "{egress_"@)
}

/// Whether one of the commands asks about the way out.
pub open spec fn any_asks_egress(hooks: Seq<Seq<char>>) -> bool {
    exists|i: int| 0 <= i < hooks.len() && asks_egress(#[trigger] hooks[i])
}

fn any_needs_egress(hooks: &Vec<String>) -> (r: bool)
    ensures
        r == any_asks_egress(views(hooks@)),
{
    let ghost all = views(hooks@);
    let mut i: usize = 0;
    while i < hooks.len()
        invariant
            i <= hooks@.len(),
            all == views(hooks@),
            forall|k: int| 0 <= k < i ==> !asks_egress(#[trigger] all[k]),
        decreases hooks@.len() - i,
    {
        assert(all[i as int] == hooks@[i as int]@);
        if has(hooks[i].as_str(), "{egress_") {
            return true;
        }
        i = i + 1;
    }
    false
}

/// Whether the way out has to be known.
pub open spec fn egress_needed(args: TunArgs, helper_env: bool, platform: Platform) -> bool {
    let own = trimmed(args.helper_cmd@).len() > 0;
    ||| (own || helper_env) && (!own || asks_egress(args.helper_cmd@))
    ||| any_asks_egress(views(args.up@))
    ||| any_asks_egress(views(args.down@))
    ||| platform == Platform::MacOs && (args.up@.len() == 0 || args.down@.len() == 0)
}

/// Whether the way out has to be known, given whether the environment names a
/// helper.
pub fn needs_egress_metadata(args: &TunArgs, helper_env: bool, platform: Platform) -> (r: bool)
    ensures
        r == egress_needed(*args, helper_env, platform),
{
    let own = !trim(args.helper_cmd.as_str()).as_str().is_empty();
    ((own || helper_env) && (!own || has(args.helper_cmd.as_str(), "{egress_")))
        || any_needs_egress(&args.up) || any_needs_egress(&args.down) || (platform
        == Platform::MacOs && (args.up.len() == 0 || args.down.len() == 0))
}

// ---------------------------------------------------------------------------
// The helper

/// What carries packets between the device and the proxy.
#[derive(Debug)]
pub enum TunHelperConfig {
    EmbeddedTun2Proxy,
    ExternalCommand(String),
}

/// The command line that a helper understands.
#[derive(Clone, Copy, Debug, PartialEq, Eq, Structural)]
pub enum TunHelperFlavor {
    Tun2Proxy,
    Tun2Socks,
}

/// A helper program.
#[derive(Debug)]
pub struct TunHelperBinary {
    pub path: String,
    pub flavor: TunHelperFlavor,
}

/// What is shown of a helper.
pub open spec fn description(helper: TunHelperConfig, c: CommandContext) -> Seq<char> {
    match helper {
        TunHelperConfig::EmbeddedTun2Proxy => "embedded tun2proxy crate --tun "@ + c.device@
            + " --proxy socks5://"@ + c.socks_listen@
            + " --dns direct --verbosity warn --exit-on-fatal-error"@,
        TunHelperConfig::ExternalCommand(t) => expanded(c, t@),
    }
}

impl TunHelperConfig {
    /// What is shown of the helper.
    pub fn describe(&self, context: &CommandContext) -> (r: String)
        ensures
            r@ == description(*self, *context),
    {
        match self {
            TunHelperConfig::EmbeddedTun2Proxy => cat3(
                cat3(
                    "embedded tun2proxy crate --tun ",
                    context.device.as_str(),
                    " --proxy socks5://",
                ).as_str(),
                context.socks_listen.as_str(),
                " --dns direct --verbosity warn --exit-on-fatal-error",
            ),
            TunHelperConfig::ExternalCommand(template) => context.expand(template.as_str()),
        }
    }
}

/// A text in single quotes, as a shell takes it literally.
pub open spec fn quoted(s: Seq<char>) -> Seq<char> {
    "'"@ + replaced(s, "'"@, "'\\''"@) + "'"@
}

/// A text in single quotes, as a shell takes it literally.
pub fn shell_quote(input: &str) -> (r: String)
    ensures
        r@ == quoted(input@),
{
    proof {
        reveal_strlit("'");
    }
    cat3("'", replace(input, "'", "'\\''").as_str(), "'")
}

/// The command that runs a helper program.
pub open spec fn helper_command(
    path: Seq<char>,
    flavor: TunHelperFlavor,
    egress_interface: Option<String>,
) -> Seq<char> {
    match flavor {
        TunHelperFlavor::Tun2Proxy => quoted(path)
            + " --tun {device} --proxy socks5://{socks} --dns direct --verbosity warn --exit-on-fatal-error"@,
        TunHelperFlavor::Tun2Socks => {
            let c = quoted(path)
                + " -device {device} -proxy socks5://{socks} -loglevel info -tcp-auto-tuning"@;
            match egress_interface {
                Some(i) => c + " -interface "@ + i@,
                None => c,
            }
        },
    }
}

impl TunHelperBinary {
    /// The command that runs the helper program.
    pub fn default_command(&self, context: &CommandContext) -> (r: String)
        ensures
            r@ == helper_command(self.path@, self.flavor, context.egress_interface),
    {
        let program = shell_quote(self.path.as_str());
        match self.flavor {
            TunHelperFlavor::Tun2Proxy => cat(
                program.as_str(),
                " --tun {device} --proxy socks5://{socks} --dns direct --verbosity warn --exit-on-fatal-error",
            ),
            TunHelperFlavor::Tun2Socks => {
                let command = cat(
                    program.as_str(),
                    " -device {device} -proxy socks5://{socks} -loglevel info -tcp-auto-tuning",
                );
                match &context.egress_interface {
                    Some(interface) => cat3(command.as_str(), " -interface ", interface.as_str()),
                    None => command,
                }
            },
        }
    }
}

/// The command line that the program at a path understands, by its name.
pub open spec fn flavor_of(path: Seq<char>) -> TunHelperFlavor {
    match file_name_of(path) {
        Some(name) => if contains(lower(name), "tun2socks"@) {
            TunHelperFlavor::Tun2Socks
        } else {
            TunHelperFlavor::Tun2Proxy
        },
        None => TunHelperFlavor::Tun2Proxy,
    }
}

/// The command line that the program at a path understands, by its name.
pub fn detect_tun_helper_flavor(path: &str) -> (r: TunHelperFlavor)
    ensures
        r == flavor_of(path@),
{
    match file_name(path) {
        Some(name) => {
            if has(to_lower(name.as_str()).as_str(), "tun2socks") {
                TunHelperFlavor::Tun2Socks
            } else {
                TunHelperFlavor::Tun2Proxy
            }
        },
        None => TunHelperFlavor::Tun2Proxy,
    }
}

/// The helper: the command of the settings, else the program that the
/// environment names, if it is a file, else the one that is built in.
pub fn effective_helper(args: &TunArgs, context: &CommandContext, program: &Option<String>) -> (r:
    TunHelperConfig)
    ensures
        if trimmed(args.helper_cmd@).len() > 0 {
            r matches TunHelperConfig::ExternalCommand(c) && c@ == args.helper_cmd@
        } else {
            match *program {
                Some(p) => {
                    &&& r matches TunHelperConfig::ExternalCommand(c)
                    &&& c@ == helper_command(
                        p@,
                        flavor_of(p@),
                        context.egress_interface,
                    )
                },
                None => r is EmbeddedTun2Proxy,
            }
        },
{
    if !trim(args.helper_cmd.as_str()).as_str().is_empty() {
        return TunHelperConfig::ExternalCommand(args.helper_cmd.clone());
    }
    match program {
        Some(p) => {
            let helper = TunHelperBinary {
                path: p.clone(),
                flavor: detect_tun_helper_flavor(p.as_str()),
            };
            TunHelperConfig::ExternalCommand(helper.default_command(context))
        },
        None => TunHelperConfig::EmbeddedTun2Proxy,
    }
}

// ---------------------------------------------------------------------------
// Hooks

/// The networks that the tunnel device takes on macOS: all but those with a
/// first octet of 0.
pub open spec fn tun_routes() -> Seq<Seq<char>> {
    seq![
        "1.0.0.0/8"@,
        "2.0.0.0/7"@,
        "4.0.0.0/6"@,
        "8.0.0.0/5"@,
        "16.0.0.0/4"@,
        "32.0.0.0/3"@,
        "64.0.0.0/2"@,
        "128.0.0.0/1"@,
        "198.18.0.0/15"@,
    ]
}

/// The networks that the tunnel device takes on macOS.
pub fn macos_tun_route_set() -> (r: Vec<String>)
    ensures
        views(r@) == tun_routes(),
{
    let mut v: Vec<String> = Vec::new();
    v.push("1.0.0.0/8".to_owned());
    v.push("2.0.0.0/7".to_owned());
    v.push("4.0.0.0/6".to_owned());
    v.push("8.0.0.0/5".to_owned());
    v.push("16.0.0.0/4".to_owned());
    v.push("32.0.0.0/3".to_owned());
    v.push("64.0.0.0/2".to_owned());
    v.push("128.0.0.0/1".to_owned());
    v.push("198.18.0.0/15".to_owned());
    assert(views(v@) =~= tun_routes());
    v
}

/// The command that sends a network to the tunnel device.
pub open spec fn add_route(cidr: Seq<char>) -> Seq<char> {
    "route -q -n add -net "@ + cidr + " "@ + MACOS_TUN_GATEWAY_V4@
        + " >/dev/null 2>&1 || route -q -n change -net "@ + cidr + " "@ + MACOS_TUN_GATEWAY_V4@
}

/// The command that takes a network back from the tunnel device.
pub open spec fn delete_route(cidr: Seq<char>) -> Seq<char> {
    "route -q -n delete -net "@ + cidr + " >/dev/null 2>&1 || true"@
}

/// The command that keeps the way to the server outside the tunnel.
pub open spec fn bypass_route(gateway: Option<String>) -> Seq<char> {
    match gateway {
        Some(g) => if g@.len() > 0 {
            "route -q -n add -host {server_ip} "@ + g@
                + " >/dev/null 2>&1 || route -q -n change -host {server_ip} "@ + g@
        } else {
            "route -q -n add -host {server_ip} -interface {egress_interface} >/dev/null 2>&1 || route -q -n change -host {server_ip} -interface {egress_interface}"@
        },
        None => "route -q -n add -host {server_ip} -interface {egress_interface} >/dev/null 2>&1 || route -q -n change -host {server_ip} -interface {egress_interface}"@,
    }
}

/// The command that keeps the way to the server outside the tunnel.
pub fn default_server_bypass_route(context: &CommandContext) -> (r: String)
    ensures
        r@ == bypass_route(context.egress_gateway),
{
    match &context.egress_gateway {
        Some(gateway) => {
            if !gateway.as_str().is_empty() {
                return cat(
                    cat3(
                        "route -q -n add -host {server_ip} ",
                        gateway.as_str(),
                        " >/dev/null 2>&1 || route -q -n change -host {server_ip} ",
                    ).as_str(),
                    gateway.as_str(),
                );
            }
        },
        None => {},
    }
    "route -q -n add -host {server_ip} -interface {egress_interface} >/dev/null 2>&1 || route -q -n change -host {server_ip} -interface {egress_interface}".to_owned()
}

/// Why there are no default commands on macOS, if so.
pub open spec fn macos_route_fault(c: CommandContext) -> Option<Seq<Seq<char>>> {
    if ip_value(c.server_ip@) matches Some(IpAddr::V6(_)) {
        Some(
            seq![
                "default macOS tun hooks currently support IPv4 server endpoints only; set tun.up/down explicitly for IPv6 upstreams"@,
            ],
        )
    } else if c.egress_interface is None {
        Some(
            seq![
                "failed to determine the outbound interface for "@ + c.server_ip@
                    + "; set tun.helper_cmd and tun.up/down explicitly"@,
            ],
        )
    } else {
        None
    }
}

fn ensure_default_macos_server_route(context: &CommandContext) -> (r: Result<(), Failure>)
    ensures
        match (outcome(r), macos_route_fault(*context)) {
            (Ok(_), None) => true,
            (Err(e), Some(f)) => e == f,
            _ => false,
        },
{
    match parse_ip(context.server_ip.as_str()) {
        Some(IpAddr::V6(_)) => {
            return Err(
                Failure::new(
                    "default macOS tun hooks currently support IPv4 server endpoints only; set tun.up/down explicitly for IPv6 upstreams",
                ),
            );
        },
        _ => {},
    }
    if context.egress_interface.is_none() {
        return Err(
            Failure::new(
                cat3(
                    "failed to determine the outbound interface for ",
                    context.server_ip.as_str(),
                    "; set tun.helper_cmd and tun.up/down explicitly",
                ).as_str(),
            ),
        );
    }
    Ok(())
}

/// The commands that set the device up where none are given.
pub open spec fn default_up(c: CommandContext, platform: Platform) -> Result<
    Seq<Seq<char>>,
    Seq<Seq<char>>,
> {
    match (platform, macos_route_fault(c)) {
        (Platform::Other, _) => Ok(seq![]),
        (Platform::MacOs, Some(e)) => Err(e),
        (Platform::MacOs, None) => Ok(
            seq![
                "ifconfig {device} inet "@ + MACOS_TUN_GATEWAY_V4@ + " "@ + MACOS_TUN_GATEWAY_V4@
                    + " up"@,
                bypass_route(c.egress_gateway),
            ] + tun_routes().map_values(|cidr: Seq<char>| add_route(cidr)),
        ),
    }
}

/// The commands that take the device down where none are given.
pub open spec fn default_down(c: CommandContext, platform: Platform) -> Result<
    Seq<Seq<char>>,
    Seq<Seq<char>>,
> {
    match (platform, macos_route_fault(c)) {
        (Platform::Other, _) => Ok(seq![]),
        (Platform::MacOs, Some(e)) => Err(e),
        (Platform::MacOs, None) => Ok(
            tun_routes().reverse().map_values(|cidr: Seq<char>| delete_route(cidr)) + seq![
                "route -q -n delete -host {server_ip} >/dev/null 2>&1 || true"@,
                "ifconfig {device} down >/dev/null 2>&1 || true"@,
            ],
        ),
    }
}

/// The commands, or the texts of the failure.
pub open spec fn hooks_outcome(r: Result<Vec<String>, Failure>) -> Result<
    Seq<Seq<char>>,
    Seq<Seq<char>>,
> {
    match r {
        Ok(v) => Ok(views(v@)),
        Err(e) => Err(e@),
    }
}

/// The commands that set the device up where none are given.
pub fn default_up_hooks(context: &CommandContext, platform: Platform) -> (r: Result<
    Vec<String>,
    Failure,
>)
    ensures
        hooks_outcome(r) == default_up(*context, platform),
{
    let mut hooks: Vec<String> = Vec::new();
    if platform == Platform::Other {
        assert(views(hooks@) =~= Seq::<Seq<char>>::empty());
        return Ok(hooks);
    }
    match ensure_default_macos_server_route(context) {
        Err(e) => {
            return Err(e);
        },
        Ok(_) => {},
    }
    let mut bring_up = cat3("ifconfig {device} inet ", MACOS_TUN_GATEWAY_V4, " ");
    bring_up.append(MACOS_TUN_GATEWAY_V4);
    bring_up.append(" up");
    hooks.push(bring_up);
    hooks.push(default_server_bypass_route(context));
    let routes = macos_tun_route_set();
    let ghost first = views(hooks@);
    let ghost f = |cidr: Seq<char>| add_route(cidr);
    let mut i: usize = 0;
    assert(first + tun_routes().take(0).map_values(f) =~= first);
    while i < routes.len()
        invariant
            i <= routes@.len(),
            views(routes@) == tun_routes(),
            f == |cidr: Seq<char>| add_route(cidr),
            views(hooks@) == first + tun_routes().take(i as int).map_values(f),
        decreases routes@.len() - i,
    {
        let ghost before = views(hooks@);
        let cidr = routes[i].as_str();
        proof {
            assert(tun_routes()[i as int] == cidr@);
        }
        let mut hook = cat3("route -q -n add -net ", cidr, " ");
        hook.append(MACOS_TUN_GATEWAY_V4);
        hook.append(" >/dev/null 2>&1 || route -q -n change -net ");
        hook.append(cidr);
        hook.append(" ");
        hook.append(MACOS_TUN_GATEWAY_V4);
        assert(hook@ == add_route(cidr@));
        hooks.push(hook);
        proof {
            assert(views(hooks@) =~= before.push(add_route(cidr@)));
            assert(first + tun_routes().take(i + 1).map_values(f) =~= before.push(
                add_route(cidr@),
            ));
        }
        i = i + 1;
    }
    proof {
        assert(tun_routes().take(i as int) =~= tun_routes());
        assert(views(hooks@) =~= default_up(*context, platform)->Ok_0);
    }
    Ok(hooks)
}

/// The commands that take the device down where none are given.
pub fn default_down_hooks(context: &CommandContext, platform: Platform) -> (r: Result<
    Vec<String>,
    Failure,
>)
    ensures
        hooks_outcome(r) == default_down(*context, platform),
{
    let mut hooks: Vec<String> = Vec::new();
    if platform == Platform::Other {
        assert(views(hooks@) =~= Seq::<Seq<char>>::empty());
        return Ok(hooks);
    }
    match ensure_default_macos_server_route(context) {
        Err(e) => {
            return Err(e);
        },
        Ok(_) => {},
    }
    let routes = macos_tun_route_set();
    let ghost f = |cidr: Seq<char>| delete_route(cidr);
    let ghost back = tun_routes().reverse();
    let mut i: usize = routes.len();
    assert(views(hooks@) =~= back.take(0).map_values(f));
    while i > 0
        invariant
            i <= routes@.len(),
            views(routes@) == tun_routes(),
            back == tun_routes().reverse(),
            f == |cidr: Seq<char>| delete_route(cidr),
            views(hooks@) == back.take(routes@.len() - i).map_values(f),
        decreases i,
    {
        i = i - 1;
        let ghost before = views(hooks@);
        let ghost n = routes@.len() - i;
        let cidr = routes[i].as_str();
        proof {
            assert(views(routes@)[i as int] == cidr@);
            assert(back[n - 1] == cidr@);
        }
        hooks.push(cat3("route -q -n delete -net ", cidr, " >/dev/null 2>&1 || true"));
        proof {
            assert(views(hooks@) =~= before.push(delete_route(cidr@)));
            assert(back.take(n).map_values(f) =~= before.push(delete_route(cidr@)));
        }
    }
    let ghost before = views(hooks@);
    hooks.push("route -q -n delete -host {server_ip} >/dev/null 2>&1 || true".to_owned());
    hooks.push("ifconfig {device} down >/dev/null 2>&1 || true".to_owned());
    proof {
        assert(back.take(routes@.len() as int) =~= back);
        assert(views(hooks@) =~= default_down(*context, platform)->Ok_0);
    }
    Ok(hooks)
}

/// The commands that set the device up: those of the settings, else the default
/// ones.
pub fn effective_up_hooks(args: &TunArgs, context: &CommandContext, platform: Platform) -> (r: Result<
    Vec<String>,
    Failure,
>)
    ensures
        hooks_outcome(r) == if args.up@.len() > 0 {
            Ok(views(args.up@))
        } else {
            default_up(*context, platform)
        },
{
    if args.up.len() > 0 {
        return Ok(clone_strings(&args.up));
    }
    default_up_hooks(context, platform)
}

/// The commands that take the device down: those of the settings, else the
/// default ones.
pub fn effective_down_hooks(args: &TunArgs, context: &CommandContext, platform: Platform) -> (r: Result<
    Vec<String>,
    Failure,
>)
    ensures
        hooks_outcome(r) == if args.down@.len() > 0 {
            Ok(views(args.down@))
        } else {
            default_down(*context, platform)
        },
{
    if args.down.len() > 0 {
        return Ok(clone_strings(&args.down));
    }
    default_down_hooks(context, platform)
}

// ---------------------------------------------------------------------------
// The device and the way out

/// Whether the device is chosen automatically.
pub open spec fn auto_device(device: Seq<char>) -> bool {
    trimmed(device).len() == 0 || same_ignoring_case(trimmed(device), "auto"@)
}

/// Whether the device is chosen automatically.
pub fn is_auto_device(device: &str) -> (r: bool)
    ensures
        r == auto_device(device@),
{
    let requested = trim(device);
    requested.as_str().is_empty() || eq_ignore_case(requested.as_str(), "auto")
}

/// The name of a device on macOS.
pub open spec fn utun(index: int) -> Seq<char> {
    "utun"@ + decimal(index as nat)
}

fn lists(words: &Vec<String>, word: &str) -> (r: bool)
    ensures
        r == views(words@).contains(word@),
{
    let ghost all = views(words@);
    let mut i: usize = 0;
    while i < words.len()
        invariant
            i <= words@.len(),
            all == views(words@),
            forall|k: int| 0 <= k < i ==> all[k] != word@,
        decreases words@.len() - i,
    {
        assert(all[i as int] == words@[i as int]@);
        if same(words[i].as_str(), word) {
            assert(all.contains(all[i as int]));
            return true;
        }
        i = i + 1;
    }
    false
}

/// The first device on macOS that is not among the interfaces.
pub fn pick_available_macos_utun(interfaces: &str) -> (r: Result<String, Failure>)
    ensures
        match outcome(r) {
            Ok(device) => exists|i: int|
                {
                    &&& MACOS_AUTO_TUN_START_INDEX <= i < 65535
                    &&& device@ == #[trigger] utun(i)
                    &&& !words_of(interfaces@).contains(utun(i))
                    &&& forall|k: int|
                        MACOS_AUTO_TUN_START_INDEX <= k < i ==> words_of(interfaces@).contains(
                            #[trigger] utun(k),
                        )
                },
            Err(e) => {
                &&& e == seq!["failed to find a free utun device starting at utun233"@]
                &&& forall|k: int|
                    MACOS_AUTO_TUN_START_INDEX <= k < 65535 ==> words_of(interfaces@).contains(
                        #[trigger] utun(k),
                    )
            },
        },
{
    let in_use = words(interfaces);
    let mut index: u16 = MACOS_AUTO_TUN_START_INDEX;
    while index < 65535
        invariant
            MACOS_AUTO_TUN_START_INDEX <= index <= 65535,
            views(in_use@) == words_of(interfaces@),
            forall|k: int|
                MACOS_AUTO_TUN_START_INDEX <= k < index ==> words_of(interfaces@).contains(
                    #[trigger] utun(k),
                ),
        decreases 65535 - index,
    {
        let candidate = cat("utun", to_decimal(index as u64).as_str());
        assert(candidate@ == utun(index as int));
        if !lists(&in_use, candidate.as_str()) {
            let r: Result<String, Failure> = Ok(candidate);
            assert(outcome(r)->Ok_0@ == utun(index as int));
            return r;
        }
        index = index + 1;
    }
    Err(Failure::new("failed to find a free utun device starting at utun233"))
}

/// How the name of the device is found.
#[derive(Debug)]
pub enum DeviceName {
    /// It is known.
    Known(String),
    /// It is the first that is free on macOS.
    FreeUtun,
}

/// How the name of the device is found.
pub fn resolve_device_name(requested: &str, platform: Platform) -> (r: DeviceName)
    ensures
        if !auto_device(requested@) {
            r matches DeviceName::Known(d) && d@ == trimmed(requested@)
        } else if platform == Platform::MacOs {
            r is FreeUtun
        } else {
            r matches DeviceName::Known(d) && d@ == "tun0"@
        },
{
    if !is_auto_device(requested) {
        return DeviceName::Known(trim(requested));
    }
    match platform {
        Platform::MacOs => DeviceName::FreeUtun,
        Platform::Other => DeviceName::Known("tun0".to_owned()),
    }
}

/// Fails where the device is in use on macOS.
pub fn ensure_device_available(device: &str, in_use: bool, platform: Platform) -> (r: Result<
    (),
    Failure,
>)
    ensures
        match outcome(r) {
            Ok(_) => !(platform == Platform::MacOs && in_use),
            Err(e) => platform == Platform::MacOs && in_use && e == seq!["TUN device "@ + device@
                + " is already in use; choose a different --device or stop the other VPN/tun helper first"@],
        },
{
    if platform == Platform::MacOs && in_use {
        return Err(
            Failure::new(
                cat3(
                    "TUN device ",
                    device,
                    " is already in use; choose a different --device or stop the other VPN/tun helper first",
                ).as_str(),
            ),
        );
    }
    Ok(())
}

/// The first IPv4 address, else the first address.
pub open spec fn preferred(addrs: Seq<IpAddr>) -> Option<IpAddr>
    decreases addrs.len(),
{
    if addrs.len() == 0 {
        None
    } else if addrs[0] is V4 {
        Some(addrs[0])
    } else {
        match preferred(addrs.skip(1)) {
            Some(IpAddr::V4(n)) => Some(IpAddr::V4(n)),
            _ => Some(addrs[0]),
        }
    }
}

fn pick_address(addrs: &Vec<IpAddr>) -> (r: Option<IpAddr>)
    ensures
        r == preferred(addrs@),
{
    let mut i: usize = addrs.len();
    let mut best: Option<IpAddr> = None;
    assert(addrs@.skip(i as int).len() == 0);
    while i > 0
        invariant
            i <= addrs@.len(),
            best == preferred(addrs@.skip(i as int)),
        decreases i,
    {
        i = i - 1;
        let ghost rest = addrs@.skip(i as int);
        assert(rest[0] == addrs@[i as int]);
        assert(rest.skip(1) =~= addrs@.skip(i + 1));
        let keep = match addrs[i] {
            IpAddr::V4(_) => false,
            IpAddr::V6(_) => match best {
                Some(IpAddr::V4(_)) => true,
                _ => false,
            },
        };
        if !keep {
            best = Some(addrs[i]);
        }
    }
    assert(addrs@.skip(0) =~= addrs@);
    best
}

/// The address of the server: its host where that is one, else one of those
/// that its name was found to have, IPv4 first.
pub fn resolve_server_ip(host: &str, found: &Vec<IpAddr>) -> (r: Result<String, Failure>)
    ensures
        match ip_value(host@) {
            Some(ip) => r matches Ok(t) && t@ == ip_text(ip),
            None => match preferred(found@) {
                Some(ip) => r matches Ok(t) && t@ == ip_text(ip),
                None => r matches Err(e) && e@
                    == seq!["tun mode resolved no usable server addresses"@],
            },
        },
{
    match parse_ip(host) {
        Some(ip) => Ok(ip_to_string(ip)),
        None => match pick_address(found) {
            Some(ip) => Ok(ip_to_string(ip)),
            None => Err(Failure::new("tun mode resolved no usable server addresses")),
        },
    }
}

/// The last value of a line that starts with a label.
pub open spec fn labelled(lines: Seq<Seq<char>>, label: Seq<char>) -> Option<Seq<char>>
    decreases lines.len(),
{
    if lines.len() == 0 {
        None
    } else {
        match after_prefix(trimmed(lines.last()), label) {
            Some(v) => Some(trimmed(v)),
            None => labelled(lines.drop_last(), label),
        }
    }
}

fn find_labelled(lines: &Vec<String>, label: &str) -> (r: Option<String>)
    ensures
        opt_view(r) == labelled(views(lines@), label@),
{
    let ghost all = views(lines@);
    let mut i: usize = lines.len();
    assert(all.take(i as int) =~= all);
    while i > 0
        invariant
            i <= lines@.len(),
            all == views(lines@),
            labelled(all, label@) == labelled(all.take(i as int), label@),
        decreases i,
    {
        i = i - 1;
        let ghost now = all.take(i + 1);
        assert(now.last() == lines@[i as int]@);
        assert(now.drop_last() =~= all.take(i as int));
        match strip_prefix(trim(lines[i].as_str()).as_str(), label) {
            Some(v) => {
                return Some(trim(v.as_str()));
            },
            None => {},
        }
    }
    None
}

/// The interface and the gateway of a route, as the system prints it.
pub fn parse_macos_route_get(output: &str) -> (r: Result<
    (Option<String>, Option<String>),
    Failure,
>)
    ensures
        ({
            let interface = labelled(lines_of(output@), "interface:"@);
            let gateway = labelled(lines_of(output@), "gateway:"@);
            match r {
                Ok((i, g)) => interface is Some && opt_view(i) == interface && opt_view(g)
                    == gateway,
                Err(e) => interface is None && e@
                    == seq!["route output did not include an interface"@],
            }
        }),
{
    let all = lines(output);
    let interface = find_labelled(&all, "interface:");
    let gateway = find_labelled(&all, "gateway:");
    if interface.is_none() {
        return Err(Failure::new("route output did not include an interface"));
    }
    Ok((interface, gateway))
}

/// Whether a route goes through a tunnel device.
pub open spec fn through_tunnel(route: (Option<String>, Option<String>)) -> bool {
    ||| route.0 matches Some(i) && begins_with(i@, "utun"@)
    ||| opt_view(route.1) == Some(MACOS_TUN_GATEWAY_V4@)
}

/// Whether a route goes through a tunnel device.
pub fn should_fallback_to_default_egress(route: &(Option<String>, Option<String>)) -> (r: bool)
    ensures
        r == through_tunnel(*route),
{
    let by_interface = match &route.0 {
        Some(i) => starts_with(i.as_str(), "utun"),
        None => false,
    };
    let by_gateway = match &route.1 {
        Some(g) => same(g.as_str(), MACOS_TUN_GATEWAY_V4),
        None => false,
    };
    by_interface || by_gateway
}

/// The way out: the route to the server, or the default route where that goes
/// through a tunnel device and the default route does not.
pub fn detect_egress_route(
    route: (Option<String>, Option<String>),
    default_route: (Option<String>, Option<String>),
) -> (r: (Option<String>, Option<String>))
    ensures
        r == if through_tunnel(route) && (default_route.0 matches Some(i) && !begins_with(
            i@,
            "utun"@,
        )) {
            default_route
        } else {
            route
        },
{
    if should_fallback_to_default_egress(&route) {
        let usable = match &default_route.0 {
            Some(i) => !starts_with(i.as_str(), "utun"),
            None => false,
        };
        if usable {
            return default_route;
        }
    }
    route
}

// ---------------------------------------------------------------------------
// What is shown and logged

/// One line for each command, or one that says that there are none.
pub open spec fn hook_lines(c: CommandContext, hooks: Seq<Seq<char>>) -> Seq<Seq<char>> {
    if hooks.len() == 0 {
        seq!["    - (none)"@]
    } else {
        hooks.map_values(|h: Seq<char>| "    - "@ + expanded(c, h))
    }
}

/// What is shown of a tunnel device before it is set up.
pub open spec fn plan(
    args: TunArgs,
    c: CommandContext,
    helper: TunHelperConfig,
    up: Seq<Seq<char>>,
    down: Seq<Seq<char>>,
) -> Seq<Seq<char>> {
    seq![
        "pipit tun plan"@,
        if auto_device(args.device@) {
            "  device: "@ + c.device@ + " (auto)"@
        } else {
            "  device: "@ + c.device@
        },
        "  socks: "@ + args.client.listen@,
        "  server: "@ + args.client.server@,
        "  server_ip: "@ + c.server_ip@,
        "  egress_interface: "@ + text_or(c.egress_interface, "-"@),
        "  egress_gateway: "@ + text_or(c.egress_gateway, "-"@),
        "  helper: "@ + description(helper, c),
        "  up hooks:"@,
    ] + hook_lines(c, up) + seq!["  down hooks:"@] + hook_lines(c, down)
}

fn push_hook_lines(out: &mut Vec<String>, context: &CommandContext, hooks: &Vec<String>)
    ensures
        views(final(out)@) == views(old(out)@) + hook_lines(*context, views(hooks@)),
{
    let ghost first = views(out@);
    let ghost all = views(hooks@);
    if hooks.len() == 0 {
        out.push("    - (none)".to_owned());
        assert(views(out@) =~= first + seq!["    - (none)"@]);
        return;
    }
    let ghost f = |h: Seq<char>| "    - "@ + expanded(*context, h);
    let mut i: usize = 0;
    assert(first + all.take(0).map_values(f) =~= first);
    while i < hooks.len()
        invariant
            i <= hooks@.len(),
            all == views(hooks@),
            f == |h: Seq<char>| "    - "@ + expanded(*context, h),
            views(out@) == first + all.take(i as int).map_values(f),
        decreases hooks@.len() - i,
    {
        let ghost before = views(out@);
        assert(all[i as int] == hooks@[i as int]@);
        let line = cat("    - ", context.expand(hooks[i].as_str()).as_str());
        let ghost text = line@;
        out.push(line);
        proof {
            assert(views(out@) =~= before.push(text));
            assert(first + all.take(i + 1).map_values(f) =~= before.push(text));
        }
        i = i + 1;
    }
    assert(all.take(i as int) =~= all);
}

/// What is shown of a tunnel device before it is set up.
pub fn plan_lines(
    args: &TunArgs,
    context: &CommandContext,
    helper: &TunHelperConfig,
    up_hooks: &Vec<String>,
    down_hooks: &Vec<String>,
) -> (r: Vec<String>)
    ensures
        views(r@) == plan(*args, *context, *helper, views(up_hooks@), views(down_hooks@)),
{
    let mut lines: Vec<String> = Vec::new();
    lines.push("pipit tun plan".to_owned());
    if is_auto_device(args.device.as_str()) {
        lines.push(cat3("  device: ", context.device.as_str(), " (auto)"));
    } else {
        lines.push(cat("  device: ", context.device.as_str()));
    }
    lines.push(cat("  socks: ", args.client.listen.as_str()));
    lines.push(cat("  server: ", args.client.server.as_str()));
    lines.push(cat("  server_ip: ", context.server_ip.as_str()));
    lines.push(cat("  egress_interface: ", or_text(&context.egress_interface, "-").as_str()));
    lines.push(cat("  egress_gateway: ", or_text(&context.egress_gateway, "-").as_str()));
    lines.push(cat("  helper: ", helper.describe(context).as_str()));
    lines.push("  up hooks:".to_owned());
    push_hook_lines(&mut lines, context, up_hooks);
    let ghost before = views(lines@);
    lines.push("  down hooks:".to_owned());
    assert(views(lines@) =~= before + seq!["  down hooks:"@]);
    push_hook_lines(&mut lines, context, down_hooks);
    proof {
        let p = plan(*args, *context, *helper, views(up_hooks@), views(down_hooks@));
        assert(views(lines@) =~= p);
    }
    lines
}

/// Where the plan goes.
#[derive(Clone, Copy, Debug, PartialEq, Eq, Structural)]
pub enum PlanOutput {
    Nowhere,
    Log,
    Print,
}

/// Notes whether a dashboard has the terminal.
pub fn set_embedded_tui(embedded: &mut bool, active: bool)
    ensures
        *final(embedded) == active,
{
    *embedded = active;
}

/// Where the plan goes: it is not printed over a dashboard.
pub fn plan_output(args: &TunArgs, embedded_tui: bool) -> (r: PlanOutput)
    ensures
        r == if !args.print_hooks && !args.dry_run {
            PlanOutput::Nowhere
        } else if embedded_tui {
            PlanOutput::Log
        } else {
            PlanOutput::Print
        },
{
    if !args.print_hooks && !args.dry_run {
        PlanOutput::Nowhere
    } else if embedded_tui {
        PlanOutput::Log
    } else {
        PlanOutput::Print
    }
}

/// The failure of a command that ended with a status.
pub fn hook_failure(label: &str, status: &str, command: &str) -> (r: Failure)
    ensures
        r@ == seq![label@ + " failed with status "@ + status@ + ": "@ + command@],
{
    Failure::new(
        cat3(cat3(label, " failed with status ", status).as_str(), ": ", command).as_str(),
    )
}

/// What is done about the listener of the client: nothing more, wait, or fail.
pub fn wait_for_listener(listen: &str, connected: bool, elapsed_millis: u64, window_millis: u64) -> (r:
    Result<bool, Failure>)
    ensures
        match outcome(r) {
            Ok(ready) => ready == connected && (connected || elapsed_millis < window_millis),
            Err(e) => !connected && elapsed_millis >= window_millis && e
                == seq!["timed out waiting for local SOCKS listener at "@ + listen@],
        },
{
    if connected {
        return Ok(true);
    }
    if elapsed_millis >= window_millis {
        return Err(
            Failure::new(cat("timed out waiting for local SOCKS listener at ", listen).as_str()),
        );
    }
    Ok(false)
}

/// How the client ended.
#[derive(Debug)]
pub enum ClientEnd {
    Finished(Result<(), Failure>),
    Cancelled,
    TaskFailed(Failure),
}

/// What a session comes to when its client ends.
pub fn join_client(end: ClientEnd) -> (r: Result<(), Failure>)
    ensures
        match end {
            ClientEnd::Finished(Ok(_)) => r is Ok,
            ClientEnd::Finished(Err(e)) => r matches Err(f) && f@ == seq!["embedded client exited"@]
                + e@,
            ClientEnd::Cancelled => r is Ok,
            ClientEnd::TaskFailed(e) => r matches Err(f) && f@
                == seq!["embedded client task failed"@] + e@,
        },
{
    match end {
        ClientEnd::Finished(Ok(_)) => Ok(()),
        ClientEnd::Finished(Err(e)) => Err(e.context("embedded client exited")),
        ClientEnd::Cancelled => Ok(()),
        ClientEnd::TaskFailed(e) => Err(e.context("embedded client task failed")),
    }
}

/// What a helper says in a structured line.
#[derive(Debug)]
pub struct HelperLogLine {
    pub level: Option<String>,
    pub caller: Option<String>,
    pub msg: Option<String>,
}

/// How important a message is.
#[derive(Clone, Copy, Debug, PartialEq, Eq, Structural)]
pub enum Level {
    Debug,
    Info,
    Warn,
    Error,
}

/// How important a helper says that a message is.
pub open spec fn level_of(level: Option<String>) -> Level {
    match level {
        Some(l) => {
            let l = lower(l@);
            if l == "debug"@ {
                Level::Debug
            } else if l == "warn"@ || l == "warning"@ {
                Level::Warn
            } else if l == "error"@ || l == "fatal"@ {
                Level::Error
            } else {
                Level::Info
            }
        },
        None => Level::Info,
    }
}

/// What is logged of a line that a command printed.
#[derive(Debug)]
pub struct ChildLog {
    pub level: Level,
    pub caller: Option<String>,
    pub message: String,
}

/// What is logged of a line that a command printed, which is structured or not.
/// Nothing is logged of an empty line.
pub fn log_child_line(label: &str, stderr: bool, line: &str, parsed: &Option<HelperLogLine>) -> (r:
    Option<ChildLog>)
    ensures
        if trimmed(line@).len() == 0 {
            r is None
        } else {
            match *parsed {
                Some(p) => {
                    &&& r matches Some(l)
                    &&& l.level == level_of(p.level)
                    &&& opt_view(l.caller) == Some(text_or(p.caller, ""@))
                    &&& l.message@ == label@ + " "@ + text_or(p.msg, trimmed(line@))
                },
                None => {
                    &&& r matches Some(l)
                    &&& l.level == if stderr {
                        Level::Warn
                    } else {
                        Level::Info
                    }
                    &&& l.caller is None
                    &&& l.message@ == label@ + " "@ + trimmed(line@)
                },
            }
        },
{
    let text = trim(line);
    if text.as_str().is_empty() {
        return None;
    }
    match parsed {
        Some(p) => {
            let level = match &p.level {
                Some(l) => {
                    let l = to_lower(l.as_str());
                    if same(l.as_str(), "debug") {
                        Level::Debug
                    } else if same(l.as_str(), "warn") || same(l.as_str(), "warning") {
                        Level::Warn
                    } else if same(l.as_str(), "error") || same(l.as_str(), "fatal") {
                        Level::Error
                    } else {
                        Level::Info
                    }
                },
                None => Level::Info,
            };
            let message = cat3(label, " ", or_text(&p.msg, text.as_str()).as_str());
            Some(ChildLog { level, caller: Some(or_text(&p.caller, "")), message })
        },
        None => {
            let level = if stderr {
                Level::Warn
            } else {
                Level::Info
            };
            Some(ChildLog { level, caller: None, message: cat3(label, " ", text.as_str()) })
        },
    }
}

// ---------------------------------------------------------------------------
// The state file

/// The part of a file name before its last dot, unless that comes first.
pub open spec fn stem_of(name: Seq<char>) -> Seq<char> {
    match split_last(name, '.') {
        Some((stem, _)) => if stem.len() > 0 {
            stem
        } else {
            name
        },
        None => name,
    }
}

/// The part of a file name before its last dot, unless that comes first.
pub fn file_stem(name: &str) -> (r: String)
    ensures
        r@ == stem_of(name@),
{
    match rsplit_once(name, '.') {
        Some((stem, _)) => {
            if stem.as_str().is_empty() {
                name.to_owned()
            } else {
                stem
            }
        },
        None => name.to_owned(),
    }
}

/// Where the state of a tunnel device is kept: beside the log file, which lies
/// in the working directory unless its path says otherwise.
pub open spec fn state_path(log_file: Option<String>, current_dir: Seq<char>) -> Result<
    Seq<char>,
    Seq<Seq<char>>,
> {
    let log = joined_path(current_dir, text_or(log_file, "proxy.log"@));
    match parent_of(log) {
        Some(dir) => match file_name_of(log) {
            Some(name) => Ok(joined_path(dir, stem_of(name) + ".tun.state.json"@)),
            None => Err(seq!["log file path did not have a valid stem"@]),
        },
        None => Err(seq!["log file path did not have a parent directory"@]),
    }
}

/// Where the state of a tunnel device is kept.
pub fn resolve_tun_state_path(context: &CommandContext, current_dir: &str) -> (r: Result<
    String,
    Failure,
>)
    ensures
        match (r, state_path(context.log_file, current_dir@)) {
            (Ok(t), Ok(p)) => t@ == p,
            (Err(e), Err(f)) => e@ == f,
            _ => false,
        },
{
    let log = join_path(current_dir, or_text(&context.log_file, "proxy.log").as_str());
    let dir = match parent(log.as_str()) {
        Some(d) => d,
        None => {
            return Err(Failure::new("log file path did not have a parent directory"));
        },
    };
    let name = match file_name(log.as_str()) {
        Some(n) => n,
        None => {
            return Err(Failure::new("log file path did not have a valid stem"));
        },
    };
    let stem = file_stem(name.as_str());
    Ok(join_path(dir.as_str(), cat(stem.as_str(), ".tun.state.json").as_str()))
}

/// What is kept of a tunnel device while it is up.
#[derive(Debug)]
pub struct TunState {
    pub pid: u32,
    pub helper_pid: Option<u32>,
    pub shell: String,
    pub down_hooks: Vec<String>,
}

/// The state of a tunnel device that is about to be set up.
pub fn initial_state(pid: u32, shell: &str, context: &CommandContext, down_hooks: &Vec<String>) -> (r:
    TunState)
    ensures
        r.pid == pid,
        r.helper_pid is None,
        r.shell@ == shell@,
        views(r.down_hooks@) == views(down_hooks@).map_values(
            |h: Seq<char>| expanded(*context, h),
        ),
{
    let ghost all = views(down_hooks@);
    let ghost f = |h: Seq<char>| expanded(*context, h);
    let mut out: Vec<String> = Vec::new();
    let mut i: usize = 0;
    assert(views(out@) =~= all.take(0).map_values(f));
    while i < down_hooks.len()
        invariant
            i <= down_hooks@.len(),
            all == views(down_hooks@),
            f == |h: Seq<char>| expanded(*context, h),
            views(out@) == all.take(i as int).map_values(f),
        decreases down_hooks@.len() - i,
    {
        let ghost before = views(out@);
        assert(all[i as int] == down_hooks@[i as int]@);
        let line = context.expand(down_hooks[i].as_str());
        let ghost text = line@;
        out.push(line);
        proof {
            assert(views(out@) =~= before.push(text));
            assert(all.take(i + 1).map_values(f) =~= before.push(text));
        }
        i = i + 1;
    }
    assert(all.take(i as int) =~= all);
    TunState { pid, helper_pid: None, shell: shell.to_owned(), down_hooks: out }
}

/// What came of writing the state file anew.
#[derive(Debug)]
pub enum WriteOutcome {
    Written,
    /// There is one already: it holds a state or cannot be read, and the
    /// process that it names is alive or not.
    Exists(Option<TunState>, bool),
    Failed(Failure),
}

/// What is done next to get hold of the state file.
#[derive(Debug)]
pub enum AcquireStep {
    /// It is there.
    Held,
    /// Clean up behind the state, remove the file, and try again.
    CleanUp(TunState),
    /// Remove the file, and try again.
    Remove,
    /// Fail.
    Fail(Failure),
}

/// What is done next to get hold of the state file after some tries.
pub fn acquire(path: &str, attempts: u32, outcome: WriteOutcome) -> (r: AcquireStep)
    ensures
        match outcome {
            WriteOutcome::Written => r is Held,
            WriteOutcome::Failed(e) => r matches AcquireStep::Fail(f) && f@
                == seq!["failed to create tun state "@ + path@] + e@,
            WriteOutcome::Exists(existing, alive) => if attempts >= 2 {
                r matches AcquireStep::Fail(f) && f@ == seq!["failed to create tun state "@ + path@]
            } else {
                match existing {
                    Some(state) => if alive {
                        r matches AcquireStep::Fail(f) && f@ == seq!["another pipit tun is already running (pid "@
                            + decimal(state.pid as nat)
                            + "); stop it before starting a new tun session"@]
                    } else {
                        r == AcquireStep::CleanUp(state)
                    },
                    None => r is Remove,
                }
            },
        },
{
    match outcome {
        WriteOutcome::Written => AcquireStep::Held,
        WriteOutcome::Failed(e) => AcquireStep::Fail(
            e.context(cat("failed to create tun state ", path).as_str()),
        ),
        WriteOutcome::Exists(existing, alive) => {
            if attempts >= 2 {
                return AcquireStep::Fail(
                    Failure::new(cat("failed to create tun state ", path).as_str()),
                );
            }
            match existing {
                Some(state) => {
                    if alive {
                        return AcquireStep::Fail(
                            Failure::new(
                                cat3(
                                    "another pipit tun is already running (pid ",
                                    to_decimal(state.pid as u64).as_str(),
                                    "); stop it before starting a new tun session",
                                ).as_str(),
                            ),
                        );
                    }
                    AcquireStep::CleanUp(state)
                },
                None => AcquireStep::Remove,
            }
        },
    }
}

// ---------------------------------------------------------------------------
// A session

/// How a helper ended.
#[derive(Debug)]
pub enum HelperEnd {
    /// The built-in helper returned.
    Returned,
    /// The built-in helper failed.
    Failed(Failure),
    /// The built-in helper was cancelled.
    Cancelled,
    /// The task of the built-in helper failed.
    TaskFailed(Failure),
    /// A helper program ended with a status, well or not.
    Exited(String, bool),
}

/// What is told where a helper ends before it should.
pub open spec fn early_end(end: HelperEnd, device: Seq<char>, stage: Seq<char>) -> Seq<Seq<char>> {
    match end {
        HelperEnd::Returned => seq!["embedded tun2proxy exited "@ + stage + " unexpectedly"@],
        HelperEnd::Failed(e) => seq!["embedded tun2proxy exited "@ + stage] + e@,
        HelperEnd::Cancelled => seq!["embedded tun2proxy was cancelled "@ + stage],
        HelperEnd::TaskFailed(e) => seq!["embedded tun2proxy task failed "@ + stage] + e@,
        HelperEnd::Exited(status, _) => seq![
            "tun helper exited "@ + stage + " with status "@ + status@
                + "; if the helper logged `create tun: resource busy`, `"@ + device
                + "` was already in use"@,
        ],
    }
}

/// The failure of a helper that ends before it should.
pub fn ensure_helper_alive(end: HelperEnd, device: &str, stage: &str) -> (r: Failure)
    ensures
        r@ == early_end(end, device@, stage@),
{
    match end {
        HelperEnd::Returned => Failure::new(
            cat3("embedded tun2proxy exited ", stage, " unexpectedly").as_str(),
        ),
        HelperEnd::Failed(e) => e.context(cat("embedded tun2proxy exited ", stage).as_str()),
        HelperEnd::Cancelled => Failure::new(
            cat("embedded tun2proxy was cancelled ", stage).as_str(),
        ),
        HelperEnd::TaskFailed(e) => e.context(
            cat("embedded tun2proxy task failed ", stage).as_str(),
        ),
        HelperEnd::Exited(status, _) => {
            let start = cat3("tun helper exited ", stage, " with status ");
            let middle = cat3(
                start.as_str(),
                status.as_str(),
                "; if the helper logged `create tun: resource busy`, `",
            );
            Failure::new(cat3(middle.as_str(), device, "` was already in use").as_str())
        },
    }
}

/// What a session comes to when its helper ends.
pub open spec fn helper_result(end: HelperEnd) -> Option<Seq<Seq<char>>> {
    match end {
        HelperEnd::Returned => Some(seq!["embedded tun2proxy exited unexpectedly"@]),
        HelperEnd::Failed(e) => Some(seq!["embedded tun2proxy exited"@] + e@),
        HelperEnd::Cancelled => None,
        HelperEnd::TaskFailed(e) => Some(seq!["embedded tun2proxy task failed"@] + e@),
        HelperEnd::Exited(status, well) => if well {
            Some(seq!["tun helper exited unexpectedly"@])
        } else {
            Some(seq!["tun helper exited with status "@ + status@])
        },
    }
}

/// What a session comes to when its helper ends.
pub fn wait_for_tun_helper(end: HelperEnd) -> (r: Result<(), Failure>)
    ensures
        match (outcome(r), helper_result(end)) {
            (Ok(_), None) => true,
            (Err(e), Some(f)) => e == f,
            _ => false,
        },
{
    match end {
        HelperEnd::Returned => Err(Failure::new("embedded tun2proxy exited unexpectedly")),
        HelperEnd::Failed(e) => Err(e.context("embedded tun2proxy exited")),
        HelperEnd::Cancelled => Ok(()),
        HelperEnd::TaskFailed(e) => Err(e.context("embedded tun2proxy task failed")),
        HelperEnd::Exited(status, well) => {
            if well {
                Err(Failure::new("tun helper exited unexpectedly"))
            } else {
                Err(Failure::new(cat("tun helper exited with status ", status.as_str()).as_str()))
            }
        },
    }
}

/// How far a session is.
#[derive(Clone, Copy, Debug, PartialEq, Eq, Structural)]
pub enum RunStage {
    Planning,
    Acquiring,
    StartingClient,
    CheckingDevice,
    StartingHelper,
    CheckingBeforeUp,
    RunningUp,
    CheckingAfterUp,
    Running,
    Done,
}

/// What came of the last step of a session.
#[derive(Debug)]
pub enum RunEvent {
    /// It went well.
    Done,
    /// It failed.
    Failed(Failure),
    /// The session was asked to end, or its client or helper ended.
    Ended(Result<(), Failure>),
    /// Waiting for a signal failed.
    SignalFailed(Failure),
}

/// What a session does.
#[derive(Debug)]
pub enum RunAction {
    Nothing,
    /// Write the state file.
    AcquireState,
    /// Start the client, and wait until it listens.
    StartClient,
    /// See whether the device can be used.
    CheckDevice,
    /// Start the helper, and note its process in the state file.
    StartHelper,
    /// Wait a while, then see whether the helper is still there.
    CheckHelperBeforeUp,
    /// Run the commands that set the device up.
    RunUpHooks,
    /// See whether the helper is still there.
    CheckHelperAfterUp,
    /// Wait for the end.
    Wait,
    /// Show the plan, and leave it at that.
    FinishDryRun,
    /// End: stop the client if so said, after the commands that take the device
    /// down and the helper if so said, remove the state file, and give the
    /// result.
    Finish(bool, bool, Result<(), Failure>),
}

/// Whether an action ends a session.
pub open spec fn finishes(
    action: RunAction,
    client: bool,
    device: bool,
    failure: Option<Seq<Seq<char>>>,
) -> bool {
    &&& action matches RunAction::Finish(c, d, result)
    &&& c == client
    &&& d == device
    &&& match (outcome(result), failure) {
        (Ok(_), None) => true,
        (Err(e), Some(f)) => e == f,
        _ => false,
    }
}

/// The texts of a failure, if a result is one.
pub open spec fn failed_with(r: Result<(), Failure>) -> Option<Seq<Seq<char>>> {
    match r {
        Ok(_) => None,
        Err(e) => Some(e@),
    }
}

/// The stage and the action after a step that went well.
pub open spec fn next_step(stage: RunStage, dry_run: bool) -> (RunStage, RunAction) {
    match stage {
        RunStage::Planning => if dry_run {
            (RunStage::Done, RunAction::FinishDryRun)
        } else {
            (RunStage::Acquiring, RunAction::AcquireState)
        },
        RunStage::Acquiring => (RunStage::StartingClient, RunAction::StartClient),
        RunStage::StartingClient => (RunStage::CheckingDevice, RunAction::CheckDevice),
        RunStage::CheckingDevice => (RunStage::StartingHelper, RunAction::StartHelper),
        RunStage::StartingHelper => (
            RunStage::CheckingBeforeUp,
            RunAction::CheckHelperBeforeUp,
        ),
        RunStage::CheckingBeforeUp => (RunStage::RunningUp, RunAction::RunUpHooks),
        RunStage::RunningUp => (RunStage::CheckingAfterUp, RunAction::CheckHelperAfterUp),
        RunStage::CheckingAfterUp => (RunStage::Running, RunAction::Wait),
        RunStage::Running => (RunStage::Running, RunAction::Nothing),
        RunStage::Done => (RunStage::Done, RunAction::Nothing),
    }
}

/// What a session does after a step, and how far it is then. Once the commands
/// that set the device up have been started, every end takes it down again,
/// unless waiting for a signal failed.
pub fn run(dry_run: bool, stage: RunStage, event: RunEvent) -> (r: (RunStage, RunAction))
    ensures
        match (stage, event) {
            (RunStage::Done, _) => r == (stage, RunAction::Nothing),
            (_, RunEvent::Done) => r == next_step(stage, dry_run),
            (RunStage::Running, RunEvent::Ended(result)) => r.0 == RunStage::Done && finishes(
                r.1,
                true,
                true,
                failed_with(result),
            ),
            (RunStage::Running, RunEvent::SignalFailed(e)) => r.0 == RunStage::Done && finishes(
                r.1,
                false,
                false,
                Some(e@),
            ),
            (RunStage::CheckingBeforeUp, RunEvent::Failed(e)) => r.0 == RunStage::Done && finishes(
                r.1,
                true,
                false,
                Some(e@),
            ),
            (RunStage::RunningUp, RunEvent::Failed(e)) => r.0 == RunStage::Done && finishes(
                r.1,
                true,
                true,
                Some(e@),
            ),
            (RunStage::CheckingAfterUp, RunEvent::Failed(e)) => r.0 == RunStage::Done && finishes(
                r.1,
                true,
                true,
                Some(e@),
            ),
            (RunStage::Running, RunEvent::Failed(e)) => r == (stage, RunAction::Nothing),
            (_, RunEvent::Failed(e)) => r.0 == RunStage::Done && finishes(
                r.1,
                false,
                false,
                Some(e@),
            ),
            _ => r == (stage, RunAction::Nothing),
        },
{
    match event {
        RunEvent::Done => match stage {
            RunStage::Planning => {
                if dry_run {
                    (RunStage::Done, RunAction::FinishDryRun)
                } else {
                    (RunStage::Acquiring, RunAction::AcquireState)
                }
            },
            RunStage::Acquiring => (RunStage::StartingClient, RunAction::StartClient),
            RunStage::StartingClient => (RunStage::CheckingDevice, RunAction::CheckDevice),
            RunStage::CheckingDevice => (RunStage::StartingHelper, RunAction::StartHelper),
            RunStage::StartingHelper => (
                RunStage::CheckingBeforeUp,
                RunAction::CheckHelperBeforeUp,
            ),
            RunStage::CheckingBeforeUp => (RunStage::RunningUp, RunAction::RunUpHooks),
            RunStage::RunningUp => (RunStage::CheckingAfterUp, RunAction::CheckHelperAfterUp),
            RunStage::CheckingAfterUp => (RunStage::Running, RunAction::Wait),
            _ => (stage, RunAction::Nothing),
        },
        RunEvent::Failed(e) => match stage {
            RunStage::Done => (stage, RunAction::Nothing),
            RunStage::Running => (stage, RunAction::Nothing),
            RunStage::CheckingBeforeUp => (
                RunStage::Done,
                RunAction::Finish(true, false, Err(e)),
            ),
            RunStage::RunningUp => (RunStage::Done, RunAction::Finish(true, true, Err(e))),
            RunStage::CheckingAfterUp => (RunStage::Done, RunAction::Finish(true, true, Err(e))),
            _ => (RunStage::Done, RunAction::Finish(false, false, Err(e))),
        },
        RunEvent::Ended(result) => match stage {
            RunStage::Running => (RunStage::Done, RunAction::Finish(true, true, result)),
            _ => (stage, RunAction::Nothing),
        },
        RunEvent::SignalFailed(e) => match stage {
            RunStage::Running => (RunStage::Done, RunAction::Finish(false, false, Err(e))),
            _ => (stage, RunAction::Nothing),
        },
    }
}

// ---------------------------------------------------------------------------
// Laws

/// Every route that the default commands add is deleted by them again.
pub proof fn added_routes_are_deleted(c: CommandContext, i: int)
    requires
        default_up(c, Platform::MacOs) is Ok,
        0 <= i < tun_routes().len(),
    ensures
        default_up(c, Platform::MacOs)->Ok_0.contains(add_route(tun_routes()[i])),
        default_down(c, Platform::MacOs) is Ok,
        default_down(c, Platform::MacOs)->Ok_0.contains(delete_route(tun_routes()[i])),
{
    let up = default_up(c, Platform::MacOs)->Ok_0;
    let down = default_down(c, Platform::MacOs)->Ok_0;
    let n = tun_routes().len();
    assert(up[2 + i] == add_route(tun_routes()[i]));
    assert(tun_routes().reverse()[n - 1 - i] == tun_routes()[i]);
    assert(down[n - 1 - i] == delete_route(tun_routes()[i]));
}

/// The word that a shell makes of a text, read on inside single quotes or outside
/// of them. Outside, only quotes and escaped characters are spoken of.
pub open spec fn shell_word(s: Seq<char>, inside: bool) -> Option<Seq<char>>
    decreases s.len(),
{
    if s.len() == 0 {
        if inside {
            None
        } else {
            Some(seq![])
        }
    } else if s[0] == '\'' {
        shell_word(s.skip(1), !inside)
    } else if inside {
        with_prefix(s.take(1), shell_word(s.skip(1), true))
    } else if s[0] == '\\' && s.len() >= 2 {
        with_prefix(s.subrange(1, 2), shell_word(s.skip(2), false))
    } else {
        None
    }
}

/// A word with more before it.
pub open spec fn with_prefix(a: Seq<char>, word: Option<Seq<char>>) -> Option<Seq<char>> {
    match word {
        Some(w) => Some(a + w),
        None => None,
    }
}

proof fn lemma_read_plain(a: Seq<char>, rest: Seq<char>)
    requires
        forall|i: int| 0 <= i < a.len() ==> #[trigger] a[i] != '\'',
    ensures
        shell_word(a + rest, true) == with_prefix(a, shell_word(rest, true)),
    decreases a.len(),
{
    if a.len() == 0 {
        assert(a + rest =~= rest);
        match shell_word(rest, true) {
            Some(w) => {
                assert(a + w =~= w);
            },
            None => {},
        }
    } else {
        let b = a.skip(1);
        assert(forall|i: int| 0 <= i < b.len() ==> #[trigger] b[i] == a[i + 1]);
        lemma_read_plain(b, rest);
        assert((a + rest).skip(1) =~= b + rest);
        assert((a + rest).take(1) =~= a.take(1));
        assert((a + rest)[0] == a[0]);
        match shell_word(rest, true) {
            Some(w) => {
                assert(a.take(1) + (b + w) =~= a + w);
            },
            None => {},
        }
    }
}

proof fn lemma_read_quoted(s: Seq<char>)
    ensures
        shell_word(replaced(s, "'"@, "'\\''"@) + "'"@, true) == Some(s),
    decreases s.len(),
{
    reveal_strlit("'");
    reveal_strlit("'\\''");
    let q = "'"@;
    let e = "'\\''"@;
    assert(q =~= seq!['\'']);
    assert(e =~= seq!['\'', '\\', '\'', '\'']);
    crate::text::lemma_find_from(s, q, 0);
    match crate::text::find(s, q) {
        None => {
            assert forall|i: int| 0 <= i < s.len() implies #[trigger] s[i] != '\'' by {
                if s[i] == '\'' {
                    assert(s.subrange(i, i + 1) =~= q);
                    assert(crate::text::occurs_at(s, q, i));
                }
            }
            lemma_read_plain(s, q);
            assert(q.skip(1) =~= Seq::<char>::empty());
            assert(shell_word(q.skip(1), false) == Some(Seq::<char>::empty()));
            assert(s + Seq::<char>::empty() =~= s);
        },
        Some(i) => {
            let a = s.take(i);
            let b = s.skip(i + 1);
            let more = replaced(b, q, e) + q;
            assert forall|k: int| 0 <= k < a.len() implies #[trigger] a[k] != '\'' by {
                if a[k] == '\'' {
                    assert(s.subrange(k, k + 1) =~= q);
                    assert(crate::text::occurs_at(s, q, k));
                }
            }
            assert(s.subrange(i, i + 1)[0] == s[i]);
            lemma_read_quoted(b);
            assert(replaced(s, q, e) + q =~= a + (e + more));
            lemma_read_plain(a, e + more);
            let whole = e + more;
            let one = whole.skip(1);
            let two = one.skip(2);
            assert(two =~= q + more);
            assert(two.skip(1) =~= more);
            assert(shell_word(two, false) == shell_word(more, true));
            assert(one.subrange(1, 2) =~= q);
            assert(one[0] == '\\');
            assert(shell_word(one, false) == with_prefix(q, shell_word(two, false)));
            assert(shell_word(whole, true) == shell_word(one, false));
            assert(a + (q + b) =~= s);
        },
    }
}

/// A shell reads a quoted text as one word, which is the text.
pub proof fn a_shell_reads_the_text_back(s: Seq<char>)
    ensures
        shell_word(quoted(s), false) == Some(s),
{
    reveal_strlit("'");
    let q = "'"@;
    let rest = replaced(s, q, "'\\''"@) + q;
    assert(quoted(s) =~= q + rest);
    assert((q + rest).skip(1) =~= rest);
    assert((q + rest)[0] == '\'');
    lemma_read_quoted(s);
}

proof fn lemma_nothing_to_fill_in(s: Seq<char>, pat: Seq<char>, to: Seq<char>)
    requires
        forall|i: int| 0 <= i < s.len() ==> #[trigger] s[i] != '{',
        pat.len() > 0 && pat[0] == '{',
    ensures
        replaced(s, pat, to) == s,
{
    lemma_find_from(s, pat, 0);
    if let Some(i) = find(s, pat) {
        assert(s.subrange(i, i + pat.len())[0] == s[i]);
    }
}

proof fn lemma_filled_in(a: Seq<char>, pat: Seq<char>, b: Seq<char>, to: Seq<char>)
    requires
        forall|i: int| 0 <= i < a.len() ==> #[trigger] a[i] != '{',
        forall|i: int| 0 <= i < b.len() ==> #[trigger] b[i] != '{',
        pat.len() > 0 && pat[0] == '{',
    ensures
        replaced(a + pat + b, pat, to) == a + to + b,
{
    let s = a + pat + b;
    let n = a.len() as int;
    assert(s.subrange(n, n + pat.len()) =~= pat);
    assert forall|j: int| 0 <= j < n implies !occurs_at(s, pat, j) by {
        if occurs_at(s, pat, j) {
            assert(s.subrange(j, j + pat.len())[0] == s[j]);
            assert(s[j] == a[j]);
        }
    }
    lemma_find_is(s, pat, 0, n);
    assert(s.take(n) =~= a);
    assert(s.skip(n + pat.len()) =~= b);
    lemma_nothing_to_fill_in(b, pat, to);
}

proof fn lemma_passed_over(
    a: Seq<char>,
    pat: Seq<char>,
    b: Seq<char>,
    other: Seq<char>,
    to: Seq<char>,
    at: int,
)
    requires
        forall|i: int| 0 <= i < a.len() ==> #[trigger] a[i] != '{',
        forall|i: int| 0 <= i < b.len() ==> #[trigger] b[i] != '{',
        forall|i: int| 0 < i < pat.len() ==> #[trigger] pat[i] != '{',
        pat.len() > 0 && pat[0] == '{',
        other.len() > 0 && other[0] == '{',
        0 <= at < pat.len(),
        at < other.len(),
        pat[at] != other[at],
    ensures
        replaced(a + pat + b, other, to) == a + pat + b,
{
    let s = a + pat + b;
    let n = a.len() as int;
    lemma_find_from(s, other, 0);
    if let Some(j) = find(s, other) {
        let part = s.subrange(j, j + other.len());
        assert(part[0] == s[j]);
        assert(part[at] == s[j + at]);
        if j < n {
            assert(s[j] == a[j]);
        } else if j == n {
            assert(s[j + at] == pat[at]);
        } else if j < n + pat.len() {
            assert(s[j] == pat[j - n]);
        } else {
            assert(s[j] == b[j - n - pat.len()]);
        }
    }
}

#[verifier::spinoff_prover]
#[verifier::rlimit(50)]
proof fn lemma_one_brace(pat: Seq<char>)
    requires
        pat == "{device}"@
            || pat == "{socks}"@
            || pat == "{socks_listen}"@
            || pat == "{server}"@
            || pat == "{server_host}"@
            || pat == "{server_port}"@
            || pat == "{server_ip}"@
            || pat == "{egress_interface}"@
            || pat == "{egress_gateway}"@
            || pat == "{log_file}"@,
    ensures
        pat.len() > 0 && pat[0] == '{',
        forall|i: int| 0 < i < pat.len() ==> #[trigger] pat[i] != '{',
{
    reveal_strlit("{device}");
    reveal_strlit("{socks}");
    reveal_strlit("{socks_listen}");
    reveal_strlit("{server}");
    reveal_strlit("{server_host}");
    reveal_strlit("{server_port}");
    reveal_strlit("{server_ip}");
    reveal_strlit("{egress_interface}");
    reveal_strlit("{egress_gateway}");
    reveal_strlit("{log_file}");
    assert forall|i: int| 0 < i < pat.len() implies #[trigger] pat[i] != '{' by {
        assert(pat.len() <= 18);
        assert(i == 1 || i == 2 || i == 3 || i == 4 || i == 5 || i == 6 || i == 7 || i == 8 || i == 9
            || i == 10 || i == 11 || i == 12 || i == 13 || i == 14 || i == 15 || i == 16 || i == 17);
    }
}

/// A command is run with the values of its placeholders filled in where they stand,
/// and with nothing else changed.
#[verifier::spinoff_prover]
#[verifier::rlimit(50)]
pub proof fn placeholders_are_filled_in(
    c: &CommandContext,
    a: Seq<char>,
    name: Seq<char>,
    value: Seq<char>,
    b: Seq<char>,
    template: &str,
    r: String,
)
    requires
        forall|i: int| 0 <= i < a.len() ==> #[trigger] a[i] != '{',
        forall|i: int| 0 <= i < b.len() ==> #[trigger] b[i] != '{',
        forall|i: int| 0 <= i < value.len() ==> #[trigger] value[i] != '{',
        template@ == a + name + b,
        (name == "{device}"@ && value == c.device@)
            || (name == "{socks}"@ && value == c.socks_listen@)
            || (name == "{socks_listen}"@ && value == c.socks_listen@)
            || (name == "{server}"@ && value == c.server@)
            || (name == "{server_host}"@ && value == c.server_host@)
            || (name == "{server_port}"@ && value == decimal(c.server_port as nat))
            || (name == "{server_ip}"@ && value == c.server_ip@)
            || (name == "{egress_interface}"@ && value == text_or(c.egress_interface, ""@))
            || (name == "{egress_gateway}"@ && value == text_or(c.egress_gateway, ""@))
            || (name == "{log_file}"@ && value == text_or(c.log_file, "proxy.log"@)) || (name.len() == 0 && value.len() == 0),
        call_ensures(CommandContext::expand, (c, template), r),
    ensures
        r@ == a + value + b,
{
    reveal_strlit("{device}");
    reveal_strlit("{socks}");
    reveal_strlit("{socks_listen}");
    reveal_strlit("{server}");
    reveal_strlit("{server_host}");
    reveal_strlit("{server_port}");
    reveal_strlit("{server_ip}");
    reveal_strlit("{egress_interface}");
    reveal_strlit("{egress_gateway}");
    reveal_strlit("{log_file}");
    lemma_one_brace("{device}"@);
    lemma_one_brace("{socks}"@);
    lemma_one_brace("{socks_listen}"@);
    lemma_one_brace("{server}"@);
    lemma_one_brace("{server_host}"@);
    lemma_one_brace("{server_port}"@);
    lemma_one_brace("{server_ip}"@);
    lemma_one_brace("{egress_interface}"@);
    lemma_one_brace("{egress_gateway}"@);
    lemma_one_brace("{log_file}"@);
    let p0 = "{device}"@;
    let v0 = c.device@;
    let p1 = "{socks}"@;
    let v1 = c.socks_listen@;
    let p2 = "{socks_listen}"@;
    let v2 = c.socks_listen@;
    let p3 = "{server}"@;
    let v3 = c.server@;
    let p4 = "{server_host}"@;
    let v4 = c.server_host@;
    let p5 = "{server_port}"@;
    let v5 = decimal(c.server_port as nat);
    let p6 = "{server_ip}"@;
    let v6 = c.server_ip@;
    let p7 = "{egress_interface}"@;
    let v7 = text_or(c.egress_interface, ""@);
    let p8 = "{egress_gateway}"@;
    let v8 = text_or(c.egress_gateway, ""@);
    let p9 = "{log_file}"@;
    let v9 = text_or(c.log_file, "proxy.log"@);
    let done = a + value + b;
    assert forall|i: int| 0 <= i < done.len() implies #[trigger] done[i] != '{' by {
        if i < a.len() {
            assert(done[i] == a[i]);
        } else if i < a.len() + value.len() {
            assert(done[i] == value[i - a.len()]);
        } else {
            assert(done[i] == b[i - a.len() - value.len()]);
        }
    }
    lemma_nothing_to_fill_in(done, p0, v0);
    lemma_nothing_to_fill_in(done, p1, v1);
    lemma_nothing_to_fill_in(done, p2, v2);
    lemma_nothing_to_fill_in(done, p3, v3);
    lemma_nothing_to_fill_in(done, p4, v4);
    lemma_nothing_to_fill_in(done, p5, v5);
    lemma_nothing_to_fill_in(done, p6, v6);
    lemma_nothing_to_fill_in(done, p7, v7);
    lemma_nothing_to_fill_in(done, p8, v8);
    lemma_nothing_to_fill_in(done, p9, v9);
    if name.len() == 0 {
        assert(template@ =~= done);
    } else if name == p0 {
        lemma_filled_in(a, p0, b, v0);
    } else if name == p1 {
        assert(p1[1] != p0[1]);
        lemma_passed_over(a, p1, b, p0, v0, 1);
        lemma_filled_in(a, p1, b, v1);
    } else if name == p2 {
        assert(p2[1] != p0[1]);
        lemma_passed_over(a, p2, b, p0, v0, 1);
        assert(p2[6] != p1[6]);
        lemma_passed_over(a, p2, b, p1, v1, 6);
        lemma_filled_in(a, p2, b, v2);
    } else if name == p3 {
        assert(p3[1] != p0[1]);
        lemma_passed_over(a, p3, b, p0, v0, 1);
        assert(p3[2] != p1[2]);
        lemma_passed_over(a, p3, b, p1, v1, 2);
        assert(p3[2] != p2[2]);
        lemma_passed_over(a, p3, b, p2, v2, 2);
        lemma_filled_in(a, p3, b, v3);
    } else if name == p4 {
        assert(p4[1] != p0[1]);
        lemma_passed_over(a, p4, b, p0, v0, 1);
        assert(p4[2] != p1[2]);
        lemma_passed_over(a, p4, b, p1, v1, 2);
        assert(p4[2] != p2[2]);
        lemma_passed_over(a, p4, b, p2, v2, 2);
        assert(p4[7] != p3[7]);
        lemma_passed_over(a, p4, b, p3, v3, 7);
        lemma_filled_in(a, p4, b, v4);
    } else if name == p5 {
        assert(p5[1] != p0[1]);
        lemma_passed_over(a, p5, b, p0, v0, 1);
        assert(p5[2] != p1[2]);
        lemma_passed_over(a, p5, b, p1, v1, 2);
        assert(p5[2] != p2[2]);
        lemma_passed_over(a, p5, b, p2, v2, 2);
        assert(p5[7] != p3[7]);
        lemma_passed_over(a, p5, b, p3, v3, 7);
        assert(p5[8] != p4[8]);
        lemma_passed_over(a, p5, b, p4, v4, 8);
        lemma_filled_in(a, p5, b, v5);
    } else if name == p6 {
        assert(p6[1] != p0[1]);
        lemma_passed_over(a, p6, b, p0, v0, 1);
        assert(p6[2] != p1[2]);
        lemma_passed_over(a, p6, b, p1, v1, 2);
        assert(p6[2] != p2[2]);
        lemma_passed_over(a, p6, b, p2, v2, 2);
        assert(p6[7] != p3[7]);
        lemma_passed_over(a, p6, b, p3, v3, 7);
        assert(p6[8] != p4[8]);
        lemma_passed_over(a, p6, b, p4, v4, 8);
        assert(p6[8] != p5[8]);
        lemma_passed_over(a, p6, b, p5, v5, 8);
        lemma_filled_in(a, p6, b, v6);
    } else if name == p7 {
        assert(p7[1] != p0[1]);
        lemma_passed_over(a, p7, b, p0, v0, 1);
        assert(p7[1] != p1[1]);
        lemma_passed_over(a, p7, b, p1, v1, 1);
        assert(p7[1] != p2[1]);
        lemma_passed_over(a, p7, b, p2, v2, 1);
        assert(p7[1] != p3[1]);
        lemma_passed_over(a, p7, b, p3, v3, 1);
        assert(p7[1] != p4[1]);
        lemma_passed_over(a, p7, b, p4, v4, 1);
        assert(p7[1] != p5[1]);
        lemma_passed_over(a, p7, b, p5, v5, 1);
        assert(p7[1] != p6[1]);
        lemma_passed_over(a, p7, b, p6, v6, 1);
        lemma_filled_in(a, p7, b, v7);
    } else if name == p8 {
        assert(p8[1] != p0[1]);
        lemma_passed_over(a, p8, b, p0, v0, 1);
        assert(p8[1] != p1[1]);
        lemma_passed_over(a, p8, b, p1, v1, 1);
        assert(p8[1] != p2[1]);
        lemma_passed_over(a, p8, b, p2, v2, 1);
        assert(p8[1] != p3[1]);
        lemma_passed_over(a, p8, b, p3, v3, 1);
        assert(p8[1] != p4[1]);
        lemma_passed_over(a, p8, b, p4, v4, 1);
        assert(p8[1] != p5[1]);
        lemma_passed_over(a, p8, b, p5, v5, 1);
        assert(p8[1] != p6[1]);
        lemma_passed_over(a, p8, b, p6, v6, 1);
        assert(p8[8] != p7[8]);
        lemma_passed_over(a, p8, b, p7, v7, 8);
        lemma_filled_in(a, p8, b, v8);
    } else if name == p9 {
        assert(p9[1] != p0[1]);
        lemma_passed_over(a, p9, b, p0, v0, 1);
        assert(p9[1] != p1[1]);
        lemma_passed_over(a, p9, b, p1, v1, 1);
        assert(p9[1] != p2[1]);
        lemma_passed_over(a, p9, b, p2, v2, 1);
        assert(p9[1] != p3[1]);
        lemma_passed_over(a, p9, b, p3, v3, 1);
        assert(p9[1] != p4[1]);
        lemma_passed_over(a, p9, b, p4, v4, 1);
        assert(p9[1] != p5[1]);
        lemma_passed_over(a, p9, b, p5, v5, 1);
        assert(p9[1] != p6[1]);
        lemma_passed_over(a, p9, b, p6, v6, 1);
        assert(p9[1] != p7[1]);
        lemma_passed_over(a, p9, b, p7, v7, 1);
        assert(p9[1] != p8[1]);
        lemma_passed_over(a, p9, b, p8, v8, 1);
        lemma_filled_in(a, p9, b, v9);
    }
}

/// The programs that are run find the values of the session in their environment.
pub proof fn programs_find_the_session_in_their_environment(c: &CommandContext, r: TextMap)
    requires
        call_ensures(shell_envs, (c,), r),
    ensures
        r@.contains_pair("PIPIT_TUN_DEVICE"@, c.device@),
        r@.contains_pair("PIPIT_SOCKS_LISTEN"@, c.socks_listen@),
        r@.contains_pair("PIPIT_SERVER"@, c.server@),
        r@.contains_pair("PIPIT_SERVER_HOST"@, c.server_host@),
        r@.contains_pair("PIPIT_SERVER_PORT"@, decimal(c.server_port as nat)),
        r@.contains_pair("PIPIT_SERVER_IP"@, c.server_ip@),
        c.egress_interface matches Some(i) ==> r@.contains_pair("PIPIT_EGRESS_INTERFACE"@, i@),
        c.egress_interface is None ==> !r@.contains_key("PIPIT_EGRESS_INTERFACE"@),
        c.egress_gateway matches Some(g) ==> r@.contains_pair("PIPIT_EGRESS_GATEWAY"@, g@),
        c.egress_gateway is None ==> !r@.contains_key("PIPIT_EGRESS_GATEWAY"@),
        c.log_file matches Some(f) ==> r@.contains_pair("PIPIT_LOG_FILE"@, f@),
{
    reveal_strlit("PIPIT_TUN_DEVICE");
    assert("PIPIT_TUN_DEVICE"@.len() == 16);
    reveal_strlit("PIPIT_SOCKS_LISTEN");
    assert("PIPIT_SOCKS_LISTEN"@.len() == 18);
    reveal_strlit("PIPIT_SERVER");
    assert("PIPIT_SERVER"@.len() == 12);
    reveal_strlit("PIPIT_SERVER_HOST");
    assert("PIPIT_SERVER_HOST"@.len() == 17);
    reveal_strlit("PIPIT_SERVER_PORT");
    assert("PIPIT_SERVER_PORT"@.len() == 17);
    reveal_strlit("PIPIT_SERVER_IP");
    assert("PIPIT_SERVER_IP"@.len() == 15);
    reveal_strlit("PIPIT_EGRESS_INTERFACE");
    assert("PIPIT_EGRESS_INTERFACE"@.len() == 22);
    reveal_strlit("PIPIT_EGRESS_GATEWAY");
    assert("PIPIT_EGRESS_GATEWAY"@.len() == 20);
    reveal_strlit("PIPIT_LOG_FILE");
    assert("PIPIT_LOG_FILE"@.len() == 14);
    assert("PIPIT_SERVER_HOST"@[13] == 'H');
    assert("PIPIT_SERVER_PORT"@[13] == 'P');
}

/// What a session is for is taken from its settings, and the host and port from the
/// address of the server.
pub proof fn sessions_are_for_the_server_of_the_settings(
    args: &TunArgs,
    server: &str,
    device: String,
    server_ip: String,
    egress_interface: Option<String>,
    egress_gateway: Option<String>,
    log_file: Option<String>,
    parts: Result<(String, u16), Failure>,
    r: Result<CommandContext, Failure>,
)
    requires
        server@ == args.client.server@,
        call_ensures(split_host_port, (server,), parts),
        call_ensures(
            CommandContext::from_args,
            (args, device, server_ip, egress_interface, egress_gateway, log_file),
            r,
        ),
    ensures
        r is Ok <==> parts is Ok,
        r matches Ok(c) ==> c.device@ == device@ && c.socks_listen@ == args.client.listen@ && c.server@
            == args.client.server@ && c.server_host@ == (parts->Ok_0).0@ && c.server_port == (
        parts->Ok_0).1 && c.server_ip@ == server_ip@ && c.egress_interface == egress_interface
            && c.egress_gateway == egress_gateway && c.log_file == log_file,
{
}

/// The client of a tunnel device sends everything through the server: whatever its
/// filter was, it is that of the server afterwards, without files of rules, and
/// nothing else changes.
pub proof fn everything_goes_through_the_server(args: &mut ClientArgs)
    requires
        call_ensures(normalize_client_args_for_tun, (args,), ()),
    ensures
        final(args).filter == FilterMode::Proxy,
        old(args).filter != FilterMode::Proxy ==> final(args).rule_file is None && final(args).cidr_file is None,
        old(args).filter == FilterMode::Proxy ==> final(args).rule_file == old(args).rule_file && final(args).cidr_file == old(args).cidr_file,
        final(args).server == old(args).server,
        final(args).password == old(args).password,
        final(args).listen == old(args).listen,
        final(args).mode == old(args).mode,
        final(args).path == old(args).path,
        final(args).mux_path == old(args).mux_path,
{
}

/// A session goes through its steps in order, each when the one before is done; where
/// it is only tried out, it is done with its plan.
pub proof fn sessions_go_step_by_step(
    dry: (RunStage, RunAction),
    s1: (RunStage, RunAction),
    s2: (RunStage, RunAction),
    s3: (RunStage, RunAction),
    s4: (RunStage, RunAction),
    s5: (RunStage, RunAction),
    s6: (RunStage, RunAction),
    s7: (RunStage, RunAction),
    s8: (RunStage, RunAction),
    result: Result<(), Failure>,
    end: (RunStage, RunAction),
)
    requires
        call_ensures(run, (true, RunStage::Planning, RunEvent::Done), dry),
        call_ensures(run, (false, RunStage::Planning, RunEvent::Done), s1),
        call_ensures(run, (false, s1.0, RunEvent::Done), s2),
        call_ensures(run, (false, s2.0, RunEvent::Done), s3),
        call_ensures(run, (false, s3.0, RunEvent::Done), s4),
        call_ensures(run, (false, s4.0, RunEvent::Done), s5),
        call_ensures(run, (false, s5.0, RunEvent::Done), s6),
        call_ensures(run, (false, s6.0, RunEvent::Done), s7),
        call_ensures(run, (false, s7.0, RunEvent::Done), s8),
        call_ensures(run, (false, s8.0, RunEvent::Ended(result)), end),
    ensures
        dry == (RunStage::Done, RunAction::FinishDryRun),
        s1.1 is AcquireState,
        s2.1 is StartClient,
        s3.1 is CheckDevice,
        s4.1 is StartHelper,
        s5.1 is CheckHelperBeforeUp,
        s6.1 is RunUpHooks,
        s7.1 is CheckHelperAfterUp,
        s8.1 is Wait,
        end.0 is Done,
        end.1 matches RunAction::Finish(client, device, r) && client && device && (r is Ok <==> result
            is Ok) && (result matches Err(e) ==> (r matches Err(f) && f@ == e@)),
{
}

/// A step that fails ends the session with its failure. What was started is ended
/// again: the device where its commands may have run, the client where the helper was
/// started beside it.
pub proof fn failed_sessions_are_taken_down(
    dry_run: bool,
    stage: RunStage,
    cause: Failure,
    r: (RunStage, RunAction),
)
    requires
        stage != RunStage::Done,
        stage != RunStage::Running,
        call_ensures(run, (dry_run, stage, RunEvent::Failed(cause)), r),
    ensures
        r.0 is Done,
        r.1 matches RunAction::Finish(client, device, result) && (result matches Err(e) && e@
            == cause@) && (device <==> stage == RunStage::RunningUp || stage
            == RunStage::CheckingAfterUp) && (client <==> device || stage
            == RunStage::CheckingBeforeUp),
{
}

/// The commands of the settings are run as they are; without any, the default ones of
/// the system are, and outside macOS there are none.
pub proof fn commands_of_the_settings_come_first(
    args: &TunArgs,
    c: &CommandContext,
    platform: Platform,
    up: Result<Vec<String>, Failure>,
    down: Result<Vec<String>, Failure>,
    default_ups: Result<Vec<String>, Failure>,
    default_downs: Result<Vec<String>, Failure>,
)
    requires
        call_ensures(effective_up_hooks, (args, c, platform), up),
        call_ensures(effective_down_hooks, (args, c, platform), down),
        call_ensures(default_up_hooks, (c, platform), default_ups),
        call_ensures(default_down_hooks, (c, platform), default_downs),
    ensures
        args.up@.len() > 0 ==> (up matches Ok(v) && views(v@) == views(args.up@)),
        args.down@.len() > 0 ==> (down matches Ok(v) && views(v@) == views(args.down@)),
        args.up@.len() == 0 ==> hooks_outcome(up) == hooks_outcome(default_ups),
        args.down@.len() == 0 ==> hooks_outcome(down) == hooks_outcome(default_downs),
        platform == Platform::Other ==> (default_ups matches Ok(v) && v@.len() == 0) && (
        default_downs matches Ok(v) && v@.len() == 0),
        platform == Platform::MacOs ==> (default_ups is Ok <==> default_downs is Ok) && (default_ups
            is Ok <==> c.egress_interface is Some && !(ip_value(c.server_ip@) matches Some(
            IpAddr::V6(_),
        ))),
{
    if platform == Platform::Other {
        if let Ok(v) = default_ups {
            assert(views(v@).len() == v@.len());
        }
        if let Ok(v) = default_downs {
            assert(views(v@).len() == v@.len());
        }
    }
}

/// On macOS each network of the route set is added by the default commands and
/// deleted by them again, in the reverse order, and the way to the server goes round
/// the tunnel.
#[verifier::spinoff_prover]
#[verifier::rlimit(50)]
pub proof fn routes_are_added_and_deleted(
    c: &CommandContext,
    routes: Vec<String>,
    bypass: String,
    up: Result<Vec<String>, Failure>,
    down: Result<Vec<String>, Failure>,
    i: int,
)
    requires
        call_ensures(macos_tun_route_set, (), routes),
        call_ensures(default_server_bypass_route, (c,), bypass),
        call_ensures(default_up_hooks, (c, Platform::MacOs), up),
        call_ensures(default_down_hooks, (c, Platform::MacOs), down),
        up is Ok,
        0 <= i < routes@.len(),
    ensures
        ({
            let n = routes@.len() as int;
            let ups = views((up->Ok_0)@);
            let downs = views((down->Ok_0)@);
            &&& n == 9
            &&& down is Ok
            &&& ups.len() == n + 2
            &&& downs.len() == n + 2
            &&& ups[1] == bypass@
            &&& begins_with(ups[2 + i], "route -q -n add -net "@ + routes@[i]@)
            &&& begins_with(downs[n - 1 - i], "route -q -n delete -net "@ + routes@[i]@)
            &&& begins_with(downs[n], "route -q -n delete -host {server_ip}"@)
        }),
        c.egress_gateway matches Some(g) ==> g@.len() > 0 ==> begins_with(
            bypass@,
            "route -q -n add -host {server_ip} "@ + g@,
        ),
{
    let n = tun_routes().len() as int;
    let ups = views((up->Ok_0)@);
    let downs = views((down->Ok_0)@);
    let cidr = tun_routes()[i];
    assert(views(routes@).len() == routes@.len());
    assert(views(routes@)[i] == routes@[i]@);
    assert(ups[2 + i] == add_route(cidr));
    assert(tun_routes().reverse()[n - 1 - i] == cidr);
    assert(downs[n - 1 - i] == delete_route(cidr));
    let a = "route -q -n add -net "@ + cidr;
    let d = "route -q -n delete -net "@ + cidr;
    assert(add_route(cidr).take(a.len() as int) =~= a);
    assert(delete_route(cidr).take(d.len() as int) =~= d);
    let h = "route -q -n delete -host {server_ip}"@;
    let whole = "route -q -n delete -host {server_ip} >/dev/null 2>&1 || true"@;
    reveal_strlit("route -q -n delete -host {server_ip}");
    reveal_strlit("route -q -n delete -host {server_ip} >/dev/null 2>&1 || true");
    assert(whole.take(h.len() as int) =~= h);
    assert(downs[n] == whole);
    if let Some(g) = c.egress_gateway {
        if g@.len() > 0 {
            let b = "route -q -n add -host {server_ip} "@ + g@;
            assert(bypass@.take(b.len() as int) =~= b);
        }
    }
}

/// The device that is taken is the first of its kind that no interface has; only
/// where all are taken is there none.
pub proof fn the_first_free_device_is_taken(
    interfaces: &str,
    k: int,
    r: Result<String, Failure>,
)
    requires
        call_ensures(pick_available_macos_utun, (interfaces,), r),
        233 <= k < 65535,
        !words_of(interfaces@).contains("utun"@ + decimal(k as nat)),
    ensures
        r matches Ok(d) && !words_of(interfaces@).contains(d@) && exists|i: int|
            233 <= i <= k && d@ == "utun"@ + #[trigger] decimal(i as nat) && forall|j: int|
                233 <= j < i ==> words_of(interfaces@).contains(
                    "utun"@ + #[trigger] decimal(j as nat),
                ),
{
    assert(utun(k) == "utun"@ + decimal(k as nat));
    if let Ok(d) = r {
        let i = choose|i: int|
            {
                &&& MACOS_AUTO_TUN_START_INDEX <= i < 65535
                &&& d@ == #[trigger] utun(i)
                &&& !words_of(interfaces@).contains(utun(i))
                &&& forall|k: int|
                    MACOS_AUTO_TUN_START_INDEX <= k < i ==> words_of(interfaces@).contains(
                        #[trigger] utun(k),
                    )
            };
        assert(i <= k) by {
            if k < i {
                assert(words_of(interfaces@).contains(utun(k)));
            }
        }
        assert forall|j: int| 233 <= j < i implies words_of(interfaces@).contains(
            "utun"@ + #[trigger] decimal(j as nat),
        ) by {
            assert(words_of(interfaces@).contains(utun(j)));
        }
        assert(d@ == "utun"@ + decimal(i as nat));
    }
}

/// A device that is named is used under its name; one that is not is the next free
/// one on macOS and a fixed one elsewhere. On macOS one that is in use is refused.
pub proof fn named_devices_are_used(
    requested: &str,
    platform: Platform,
    auto: bool,
    r: DeviceName,
    device: &str,
    in_use: bool,
    free: Result<(), Failure>,
)
    requires
        call_ensures(is_auto_device, (requested,), auto),
        call_ensures(resolve_device_name, (requested, platform), r),
        call_ensures(ensure_device_available, (device, in_use, platform), free),
    ensures
        auto <==> trimmed(requested@).len() == 0 || same_ignoring_case(
            trimmed(requested@),
            "auto"@,
        ),
        !auto ==> (r matches DeviceName::Known(d) && d@ == trimmed(requested@)),
        auto && platform == Platform::MacOs ==> r is FreeUtun,
        auto && platform == Platform::Other ==> (r matches DeviceName::Known(d) && d@ == "tun0"@),
        free is Err <==> platform == Platform::MacOs && in_use,
{
}

proof fn lemma_preferred(addrs: Seq<IpAddr>, i: int)
    requires
        0 <= i < addrs.len(),
    ensures
        preferred(addrs) is Some,
        addrs[i] is V4 ==> preferred(addrs)->0 is V4,
        addrs.contains(preferred(addrs)->0),
        (forall|k: int| 0 <= k < addrs.len() ==> !(#[trigger] addrs[k] is V4)) ==> preferred(addrs)
            == Some(addrs[0]),
        addrs[i] is V4 && (forall|k: int| 0 <= k < i ==> !(#[trigger] addrs[k] is V4)) ==> preferred(
            addrs,
        ) == Some(addrs[i]),
    decreases addrs.len(),
{
    let rest = addrs.skip(1);
    assert(addrs[0] == addrs[0]);
    assert(addrs.contains(addrs[0]));
    if addrs.len() > 1 && !(addrs[0] is V4) {
        let k = if i > 0 {
            i - 1
        } else {
            0
        };
        assert(forall|k: int| 0 <= k < rest.len() ==> rest[k] == addrs[k + 1]);
        lemma_preferred(rest, k);
        let p = preferred(rest)->0;
        let x = choose|x: int| 0 <= x < rest.len() && rest[x] == p;
        assert(addrs[x + 1] == p);
        if forall|k: int| 0 <= k < addrs.len() ==> !(#[trigger] addrs[k] is V4) {
            assert forall|k: int| 0 <= k < rest.len() implies !(#[trigger] rest[k] is V4) by {
                assert(!(addrs[k + 1] is V4));
            }
        }
        if addrs[i] is V4 && (forall|k: int| 0 <= k < i ==> !(#[trigger] addrs[k] is V4)) {
            assert forall|k: int| 0 <= k < i - 1 implies !(#[trigger] rest[k] is V4) by {
                assert(!(addrs[k + 1] is V4));
            }
        }
    }
}

/// A server that is given as an address is reached there; of those that a name has,
/// the first IPv4 address is taken, or the first at all.
pub proof fn servers_are_reached_over_ipv4_first(
    host: &str,
    found: &Vec<IpAddr>,
    i: int,
    literal: Option<IpAddr>,
    text: String,
    first: String,
    own: String,
    r: Result<String, Failure>,
)
    requires
        call_ensures(parse_ip, (host,), literal),
        literal matches Some(ip) ==> call_ensures(ip_to_string, (ip,), own),
        0 <= i < found@.len(),
        call_ensures(ip_to_string, (found@[i],), text),
        call_ensures(ip_to_string, (found@[0],), first),
        call_ensures(resolve_server_ip, (host, found), r),
    ensures
        literal is Some ==> (r matches Ok(t) && t@ == own@),
        literal is None && found@[i] is V4 && (forall|k: int|
            0 <= k < i ==> !(#[trigger] found@[k] is V4)) ==> (r matches Ok(t) && t@ == text@),
        literal is None && (forall|k: int|
            0 <= k < found@.len() ==> !(#[trigger] found@[k] is V4)) ==> (r matches Ok(t) && t@
            == first@),
{
    lemma_preferred(found@, i);
}

/// The way out is that of the route, unless it leads through the tunnel itself and
/// the default route does not.
pub proof fn the_way_out_goes_round_the_tunnel(
    route: (Option<String>, Option<String>),
    default_route: (Option<String>, Option<String>),
    inside: bool,
    r: (Option<String>, Option<String>),
)
    requires
        call_ensures(should_fallback_to_default_egress, (&route,), inside),
        call_ensures(detect_egress_route, (route, default_route), r),
    ensures
        inside <==> (route.0 matches Some(i) && begins_with(i@, "utun"@)) || (
        route.1 matches Some(g) && g@ == "198.18.0.1"@),
        !inside ==> r == route,
        inside && (default_route.0 matches Some(i) && !begins_with(i@, "utun"@)) ==> r
            == default_route,
        inside && default_route.0 is None ==> r == route,
{
}

/// A session is held where its state could be written; where a state is there, it is
/// refused while the session in it lives, and taken down where that is gone.
pub proof fn sessions_do_not_run_twice(
    path: &str,
    attempts: u32,
    state: TunState,
    alive: bool,
    cause: Failure,
    held: AcquireStep,
    met: AcquireStep,
    unread: AcquireStep,
    failed: AcquireStep,
)
    requires
        call_ensures(acquire, (path, attempts, WriteOutcome::Written), held),
        call_ensures(acquire, (path, attempts, WriteOutcome::Exists(Some(state), alive)), met),
        call_ensures(acquire, (path, attempts, WriteOutcome::Exists(None, alive)), unread),
        call_ensures(acquire, (path, attempts, WriteOutcome::Failed(cause)), failed),
    ensures
        held is Held,
        met is Fail <==> attempts >= 2 || alive,
        attempts < 2 && !alive ==> met == AcquireStep::CleanUp(state),
        attempts < 2 ==> unread is Remove,
        attempts >= 2 ==> unread is Fail,
        failed matches AcquireStep::Fail(f) && f@.len() == cause@.len() + 1 && f@.skip(1) == cause@,
{
    if let AcquireStep::Fail(f) = failed {
        assert(f@.skip(1) =~= cause@);
    }
}

/// The state of a session keeps what is needed to take it down: its process, its
/// shell, and its commands with the values filled in.
pub proof fn states_keep_what_takes_the_session_down(
    pid: u32,
    shell: &str,
    c: &CommandContext,
    down: &Vec<String>,
    i: int,
    hook: &str,
    filled: String,
    r: TunState,
)
    requires
        call_ensures(initial_state, (pid, shell, c, down), r),
        0 <= i < down@.len(),
        hook@ == down@[i]@,
        call_ensures(CommandContext::expand, (c, hook), filled),
    ensures
        r.pid == pid,
        r.helper_pid is None,
        r.shell@ == shell@,
        r.down_hooks@.len() == down@.len(),
        r.down_hooks@[i]@ == filled@,
{
    assert(views(r.down_hooks@).len() == r.down_hooks@.len());
    assert(views(r.down_hooks@)[i] == r.down_hooks@[i]@);
    assert(views(down@)[i] == down@[i]@);
}

/// A client is waited for until it listens or its time is over.
pub proof fn listeners_are_waited_for(
    listen: &str,
    connected: bool,
    elapsed: u64,
    window: u64,
    r: Result<bool, Failure>,
)
    requires
        call_ensures(wait_for_listener, (listen, connected, elapsed, window), r),
    ensures
        r == Ok::<bool, Failure>(true) <==> connected,
        r == Ok::<bool, Failure>(false) <==> !connected && elapsed < window,
        r is Err <==> !connected && elapsed >= window,
{
}

/// A client and a helper that end by themselves fail the session with their cause;
/// one that was told to end does not.
pub proof fn unexpected_ends_are_failures(
    cause: Failure,
    status: String,
    well: bool,
    device: &str,
    stage: &str,
    client_ok: Result<(), Failure>,
    client_failed: Result<(), Failure>,
    client_cancelled: Result<(), Failure>,
    client_lost: Result<(), Failure>,
    helper_returned: Result<(), Failure>,
    helper_failed: Result<(), Failure>,
    helper_cancelled: Result<(), Failure>,
    helper_exited: Result<(), Failure>,
    early: Failure,
)
    requires
        call_ensures(join_client, (ClientEnd::Finished(Ok(())),), client_ok),
        call_ensures(join_client, (ClientEnd::Finished(Err(cause)),), client_failed),
        call_ensures(join_client, (ClientEnd::Cancelled,), client_cancelled),
        call_ensures(join_client, (ClientEnd::TaskFailed(cause),), client_lost),
        call_ensures(wait_for_tun_helper, (HelperEnd::Returned,), helper_returned),
        call_ensures(wait_for_tun_helper, (HelperEnd::Failed(cause),), helper_failed),
        call_ensures(wait_for_tun_helper, (HelperEnd::Cancelled,), helper_cancelled),
        call_ensures(wait_for_tun_helper, (HelperEnd::Exited(status, well),), helper_exited),
        call_ensures(ensure_helper_alive, (HelperEnd::Failed(cause), device, stage), early),
    ensures
        client_ok is Ok && client_cancelled is Ok && helper_cancelled is Ok,
        client_failed matches Err(e) && e@.skip(1) == cause@,
        client_lost matches Err(e) && e@.skip(1) == cause@,
        helper_failed matches Err(e) && e@.skip(1) == cause@,
        helper_returned is Err && helper_exited is Err,
        early@.skip(1) == cause@,
{
    assert((client_failed->Err_0)@.skip(1) =~= cause@);
    assert((client_lost->Err_0)@.skip(1) =~= cause@);
    assert((helper_failed->Err_0)@.skip(1) =~= cause@);
    assert(early@.skip(1) =~= cause@);
}

/// A helper that the settings name is run as they say; else a program that was found
/// is, with the device and the client that it is for, and else the embedded one.
pub proof fn helpers_of_the_settings_come_first(
    args: &TunArgs,
    c: &CommandContext,
    program: String,
    flavor: TunHelperFlavor,
    path: &str,
    r: TunHelperConfig,
    default: String,
    without: TunHelperConfig,
)
    requires
        path@ == program@,
        call_ensures(detect_tun_helper_flavor, (path,), flavor),
        call_ensures(
            TunHelperBinary::default_command,
            (&(TunHelperBinary { path: program, flavor }), c),
            default,
        ),
        call_ensures(effective_helper, (args, c, &Some(program)), r),
        call_ensures(effective_helper, (args, c, &None), without),
    ensures
        trimmed(args.helper_cmd@).len() > 0 ==> (r matches TunHelperConfig::ExternalCommand(h) && h@
            == args.helper_cmd@) && (without matches TunHelperConfig::ExternalCommand(h) && h@
            == args.helper_cmd@),
        trimmed(args.helper_cmd@).len() == 0 ==> (r matches TunHelperConfig::ExternalCommand(h) && h@
            == default@) && without is EmbeddedTun2Proxy,
        begins_with(default@, quoted(program@)),
{
    assert(default@.take(quoted(program@).len() as int) =~= quoted(program@));
}

/// A shell reads a quoted text as one word, which is the text.
pub proof fn quoted_texts_are_one_word(input: &str, r: String)
    requires
        call_ensures(shell_quote, (input,), r),
    ensures
        shell_word(r@, false) == Some(input@),
{
    a_shell_reads_the_text_back(input@);
}

/// A plan is shown where it is asked for or only tried out: in the log under a
/// dashboard, else on the screen. It names the server, and all commands.
#[verifier::spinoff_prover]
#[verifier::rlimit(50)]
pub proof fn plans_are_shown_where_wanted(
    args: &TunArgs,
    embedded: bool,
    r: PlanOutput,
    c: &CommandContext,
    helper: &TunHelperConfig,
    up: &Vec<String>,
    down: &Vec<String>,
    i: int,
    hook: &str,
    filled: String,
    lines: Vec<String>,
)
    requires
        call_ensures(plan_output, (args, embedded), r),
        call_ensures(plan_lines, (args, c, helper, up, down), lines),
        0 <= i < up@.len() + down@.len(),
        hook@ == (if i < up@.len() {
            up@[i]@
        } else {
            down@[i - up@.len()]@
        }),
        call_ensures(CommandContext::expand, (c, hook), filled),
    ensures
        r == PlanOutput::Nowhere <==> !args.print_hooks && !args.dry_run,
        r == PlanOutput::Log <==> (args.print_hooks || args.dry_run) && embedded,
        views(lines@).contains("    - "@ + filled@),
        views(lines@).contains("  server: "@ + args.client.server@),
{
    let all = views(lines@);
    let us = views(up@);
    let ds = views(down@);
    assert(us.len() == up@.len() && ds.len() == down@.len());
    let a = hook_lines(*c, us);
    let b = hook_lines(*c, ds);
    let n = all.len() as int;
    assert(all[3] == "  server: "@ + args.client.server@);
    if i < up@.len() {
        assert(us[i] == up@[i]@);
        assert(a[i] == "    - "@ + filled@);
        assert(all[9 + i] == a[i]);
    } else {
        let k = i - up@.len();
        assert(ds[k] == down@[k]@);
        assert(b[k] == "    - "@ + filled@);
        assert(all[n - b.len() + k] == b[k]);
    }
}

/// A line of a helper is logged with its own words and at its level, a blank one not
/// at all, and one in no form as it is: as a warning where it came as an error.
pub proof fn lines_of_helpers_are_logged(
    label: &str,
    stderr: bool,
    line: &str,
    msg: String,
    level: Option<String>,
    caller: Option<String>,
    plain: Option<ChildLog>,
    parsed: Option<ChildLog>,
)
    requires
        call_ensures(log_child_line, (label, stderr, line, &None), plain),
        call_ensures(
            log_child_line,
            (label, stderr, line, &Some((HelperLogLine { level, caller, msg: Some(msg) }))),
            parsed,
        ),
    ensures
        plain is None <==> trimmed(line@).len() == 0,
        parsed is None <==> trimmed(line@).len() == 0,
        plain matches Some(l) ==> l.message@ == label@ + " "@ + trimmed(line@) && (l.level
            == Level::Warn <==> stderr) && (l.level == Level::Info <==> !stderr),
        parsed matches Some(l) ==> l.message@ == label@ + " "@ + msg@ && (level matches Some(s) ==> (
        lower(s@) == "error"@ ==> l.level == Level::Error) && (lower(s@) == "warn"@ ==> l.level
            == Level::Warn) && (lower(s@) == "debug"@ ==> l.level == Level::Debug)) && (level is None
            ==> l.level == Level::Info),
{
    reveal_strlit("error");
    reveal_strlit("warn");
    reveal_strlit("warning");
    reveal_strlit("debug");
    reveal_strlit("fatal");
    assert("error"@.len() == 5 && "error"@[0] == 'e');
    assert("warn"@.len() == 4);
    assert("warning"@.len() == 7);
    assert("debug"@.len() == 5 && "debug"@[0] == 'd');
    assert("fatal"@.len() == 5 && "fatal"@[0] == 'f');
}

proof fn lemma_labelled(lines: Seq<Seq<char>>, label: Seq<char>, i: int)
    requires
        0 <= i < lines.len(),
        after_prefix(trimmed(lines[i]), label) is Some,
        forall|k: int| i < k < lines.len() ==> after_prefix(trimmed(#[trigger] lines[k]), label) is None,
    ensures
        labelled(lines, label) == Some(trimmed(after_prefix(trimmed(lines[i]), label)->0)),
    decreases lines.len(),
{
    if i < lines.len() - 1 {
        let less = lines.drop_last();
        assert(lines.last() == lines[lines.len() - 1]);
        assert(less[i] == lines[i]);
        assert forall|k: int| i < k < less.len() implies after_prefix(
            trimmed(#[trigger] less[k]),
            label,
        ) is None by {
            assert(less[k] == lines[k]);
        }
        lemma_labelled(less, label, i);
    }
}

/// The way out is read from what the system prints: the value behind the last label of
/// the interface, and that of the gateway where there is one.
pub proof fn printed_routes_are_read(
    output: &str,
    i: int,
    name: Seq<char>,
    r: Result<(Option<String>, Option<String>), Failure>,
)
    requires
        0 <= i < lines_of(output@).len(),
        trimmed(lines_of(output@)[i]) == "interface:"@ + name,
        forall|k: int|
            i < k < lines_of(output@).len() ==> !begins_with(
                trimmed(#[trigger] lines_of(output@)[k]),
                "interface:"@,
            ),
        call_ensures(parse_macos_route_get, (output,), r),
    ensures
        r matches Ok((interface, _)) && opt_view(interface) == Some(trimmed(name)),
        (forall|k: int|
            0 <= k < lines_of(output@).len() ==> !begins_with(
                trimmed(#[trigger] lines_of(output@)[k]),
                "gateway:"@,
            )) ==> (r matches Ok((_, gateway)) && gateway is None),
{
    let lines = lines_of(output@);
    let label = "interface:"@;
    let line = trimmed(lines[i]);
    assert(line.take(label.len() as int) =~= label);
    assert(line.skip(label.len() as int) =~= name);
    assert forall|k: int| i < k < lines.len() implies after_prefix(
        trimmed(#[trigger] lines[k]),
        label,
    ) is None by {}
    lemma_labelled(lines, label, i);
    if forall|k: int|
        0 <= k < lines.len() ==> !begins_with(trimmed(#[trigger] lines[k]), "gateway:"@) {
        lemma_unlabelled(lines, "gateway:"@);
    }
}

proof fn lemma_unlabelled(lines: Seq<Seq<char>>, label: Seq<char>)
    requires
        forall|k: int| 0 <= k < lines.len() ==> !begins_with(trimmed(#[trigger] lines[k]), label),
    ensures
        labelled(lines, label) is None,
    decreases lines.len(),
{
    if lines.len() > 0 {
        let less = lines.drop_last();
        assert(lines.last() == lines[lines.len() - 1]);
        assert forall|k: int| 0 <= k < less.len() implies !begins_with(
            trimmed(#[trigger] less[k]),
            label,
        ) by {
            assert(less[k] == lines[k]);
        }
        lemma_unlabelled(less, label);
    }
}

/// The way out is looked for where a command asks for it, or where the default
/// commands of the system need it.
pub proof fn the_way_out_is_looked_for_where_needed(
    args: &TunArgs,
    helper_env: bool,
    i: int,
    r: bool,
    on_macos: bool,
)
    requires
        call_ensures(needs_egress_metadata, (args, helper_env, Platform::Other), r),
        call_ensures(needs_egress_metadata, (args, helper_env, Platform::MacOs), on_macos),
        0 <= i < args.up@.len(),
    ensures
        contains(args.up@[i]@, "{egress_"@) ==> r && on_macos,
        args.down@.len() == 0 ==> on_macos,
        trimmed(args.helper_cmd@).len() > 0 && contains(args.helper_cmd@, "{egress_"@) ==> r,
{
    let ups = views(args.up@);
    assert(ups[i] == args.up@[i]@);
    if contains(args.up@[i]@, "{egress_"@) {
        assert(asks_egress(ups[i]));
        assert(any_asks_egress(ups));
    }
}

/// The name of a file without its last ending is its stem; one that only has an
/// ending, or none, keeps its name.
pub proof fn stems_are_names_without_their_ending(
    stem: Seq<char>,
    ext: Seq<char>,
    name: &str,
    r: String,
)
    requires
        call_ensures(file_stem, (name,), r),
        forall|i: int| 0 <= i < ext.len() ==> #[trigger] ext[i] != '.',
    ensures
        name@ == stem + seq!['.'] + ext && stem.len() > 0 ==> r@ == stem,
        name@ == seq!['.'] + ext ==> r@ == name@,
        !name@.contains('.') ==> r@ == name@,
{
    crate::text::lemma_cut(stem, '.', ext);
    crate::text::lemma_cut(Seq::<char>::empty(), '.', ext);
    crate::text::lemma_cut(name@, '.', ext);
    if name@ == seq!['.'] + ext {
        assert(name@ =~= Seq::<char>::empty() + seq!['.'] + ext);
    }
}

/// A helper is described by what is run for it: its command with the values filled
/// in, or the embedded one with its device and proxy.
pub proof fn helpers_are_described_by_their_command(
    c: &CommandContext,
    command: String,
    text: &str,
    filled: String,
    r: String,
    flag: &mut bool,
    active: bool,
)
    requires
        text@ == command@,
        call_ensures(CommandContext::expand, (c, text), filled),
        call_ensures(TunHelperConfig::describe, (&TunHelperConfig::ExternalCommand(command), c), r),
        call_ensures(set_embedded_tui, (flag, active), ()),
    ensures
        r@ == filled@,
        *final(flag) == active,
{
}

} // verus!
