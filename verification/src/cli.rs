//! The command line: what is asked for, where settings and logs are, and what is
//! done first.

pub mod daemon;
pub mod service;

use vstd::prelude::*;
use crate::cert::CertArgs;
use crate::client::ClientArgs;
use crate::failure::Failure;
use crate::num::{
    all_digits, decimal, explain_unsigned, lemma_unsigned_not_negative, parse_unsigned, to_decimal, unsigned_fault,
    unsigned_value,
};
use crate::paths::{join_path, joined_path, paths_match, same_path, str_view};
use crate::server::ServerArgs;
use crate::telemetry::hub::TrafficSwitchTarget;
use crate::text::{
    after_prefix, cat, cat3, contains, find, finishes_with, from_chars, has, is_digit, join, joined,
    lemma_find_from, lemma_no_char, lemma_split_after, lemma_trimmed_same, lines, lines_of,
    lower, occurs_at, opt_view, same, split, split_on, strip_prefix, to_chars, to_lower, trim, trimmed, views,
};
use crate::tun::{Platform, TunArgs};
use crate::wg::{WgClientArgs, WgServerArgs};

verus! {

/// How many milliseconds a daemon is watched after its start.
pub const DAEMON_STARTUP_CHECK: u64 = 1200;

/// How many milliseconds pass between two looks at a daemon that starts.
pub const DAEMON_STARTUP_POLL: u64 = 100;

// ---------------------------------------------------------------------------
// Commands

/// A kind of service.
#[derive(Clone, Copy, Debug, PartialEq, Eq, Structural)]
pub enum ServiceRole {
    Client,
    Server,
    Tun,
    WgClient,
    WgServer,
}

impl ServiceRole {
    /// The name of a kind of service.
    pub open spec fn name(self) -> Seq<char> {
        match self {
            ServiceRole::Client => "client"@,
            ServiceRole::Server => "server"@,
            ServiceRole::Tun => "tun"@,
            ServiceRole::WgClient => "wg-client"@,
            ServiceRole::WgServer => "wg-server"@,
        }
    }

    /// The name of the kind of service.
    pub fn as_str(self) -> (r: &'static str)
        ensures
            r@ == self.name(),
    {
        match self {
            ServiceRole::Client => "client",
            ServiceRole::Server => "server",
            ServiceRole::Tun => "tun",
            ServiceRole::WgClient => "wg-client",
            ServiceRole::WgServer => "wg-server",
        }
    }
}

/// A kind of service whose traffic can be switched.
#[derive(Clone, Copy, Debug, PartialEq, Eq, Structural)]
pub enum SwitchRole {
    Client,
    Tun,
    WgClient,
}

impl SwitchRole {
    /// The kind of service.
    pub open spec fn role(self) -> ServiceRole {
        match self {
            SwitchRole::Client => ServiceRole::Client,
            SwitchRole::Tun => ServiceRole::Tun,
            SwitchRole::WgClient => ServiceRole::WgClient,
        }
    }

    /// The kind of service.
    pub fn service_role(self) -> (r: ServiceRole)
        ensures
            r == self.role(),
    {
        match self {
            SwitchRole::Client => ServiceRole::Client,
            SwitchRole::Tun => ServiceRole::Tun,
            SwitchRole::WgClient => ServiceRole::WgClient,
        }
    }

    /// The name of the kind of service.
    pub fn as_str(self) -> (r: &'static str)
        ensures
            r@ == self.role().name(),
    {
        self.service_role().as_str()
    }
}

/// Settings of a dashboard on a service that runs.
#[derive(Debug)]
pub struct TuiArgs {
    pub attach: Option<String>,
}

/// Settings of an end to a service.
#[derive(Clone, Copy, Debug, PartialEq, Eq, Structural)]
pub struct StopArgs {
    pub role: Option<ServiceRole>,
    pub wait_secs: u64,
}

/// Settings of a new start of a service.
#[derive(Clone, Copy, Debug, PartialEq, Eq, Structural)]
pub struct ReloadArgs {
    pub role: Option<ServiceRole>,
    pub wait_secs: u64,
}

/// Settings of a switch of traffic.
#[derive(Clone, Copy, Debug, PartialEq, Eq, Structural)]
pub struct SwitchArgs {
    pub role: Option<SwitchRole>,
    pub bypass: bool,
    pub proxy: bool,
}

impl SwitchArgs {
    /// Where traffic is wanted.
    pub fn target(&self) -> (r: TrafficSwitchTarget)
        ensures
            r == if self.bypass {
                TrafficSwitchTarget::Bypass
            } else if self.proxy {
                TrafficSwitchTarget::Proxying
            } else {
                TrafficSwitchTarget::Toggle
            },
    {
        if self.bypass {
            TrafficSwitchTarget::Bypass
        } else if self.proxy {
            TrafficSwitchTarget::Proxying
        } else {
            TrafficSwitchTarget::Toggle
        }
    }
}

/// Settings of a report on services.
#[derive(Clone, Copy, Debug, PartialEq, Eq, Structural)]
pub struct StatusArgs {
    pub role: Option<ServiceRole>,
    pub json: bool,
}

/// What is asked for.
#[derive(Debug)]
pub enum Commands {
    Server(ServerArgs),
    Client(ClientArgs),
    Tun(TunArgs),
    WgClient(WgClientArgs),
    WgServer(WgServerArgs),
    WgConfig,
    WgKeygen,
    Cert(CertArgs),
    Tui(TuiArgs),
    Stop(StopArgs),
    Reload(ReloadArgs),
    Switch(SwitchArgs),
    Status(StatusArgs),
}

/// The command line.
#[derive(Debug)]
pub struct Cli {
    pub log: String,
    pub log_file: String,
    pub log_timezone: String,
    pub telemetry_sock: Option<String>,
    pub pid_file: Option<String>,
    pub tui: bool,
    pub daemon: bool,
    pub check_config_only: bool,
    pub config: Option<String>,
    pub command: Commands,
}

/// Whether a command starts a service.
pub open spec fn is_service(command: Commands) -> bool {
    command is Client || command is Server || command is Tun || command is WgClient
        || command is WgServer
}

/// Whether a command speaks to services that run.
pub open spec fn is_management(command: Commands) -> bool {
    command is Tui || command is Stop || command is Reload || command is Switch
        || command is Status
}

/// Whether a command does something else, and does it at once.
pub open spec fn is_utility(command: Commands) -> bool {
    command is WgConfig || command is WgKeygen || command is Cert
}

/// Every command is of one of three kinds.
pub proof fn commands_are_of_one_kind(command: Commands)
    ensures
        is_service(command) || is_management(command) || is_utility(command),
        !(is_service(command) && is_management(command)),
        !(is_service(command) && is_utility(command)),
        !(is_management(command) && is_utility(command)),
{
}

/// Whether a command does something else, and does it at once.
pub fn is_utility_command(command: &Commands) -> (r: bool)
    ensures
        r == is_utility(*command),
{
    match command {
        Commands::WgConfig => true,
        Commands::WgKeygen => true,
        Commands::Cert(_) => true,
        _ => false,
    }
}

/// Whether a command needs all of the settings, or only those for all commands.
pub fn command_requires_strict_config(command: &Commands) -> (r: bool)
    ensures
        r == (is_service(*command) || command is Cert),
{
    match command {
        Commands::Server(_) => true,
        Commands::Client(_) => true,
        Commands::Tun(_) => true,
        Commands::WgClient(_) => true,
        Commands::WgServer(_) => true,
        Commands::Cert(_) => true,
        _ => false,
    }
}

impl Commands {
    fn is_a_service(&self) -> (r: bool)
        ensures
            r == is_service(*self),
    {
        match self {
            Commands::Server(_) => true,
            Commands::Client(_) => true,
            Commands::Tun(_) => true,
            Commands::WgClient(_) => true,
            Commands::WgServer(_) => true,
            _ => false,
        }
    }

    fn manages_services(&self) -> (r: bool)
        ensures
            r == is_management(*self),
    {
        match self {
            Commands::Tui(_) => true,
            Commands::Stop(_) => true,
            Commands::Reload(_) => true,
            Commands::Switch(_) => true,
            Commands::Status(_) => true,
            _ => false,
        }
    }
}

/// Takes away the modes that do not go with the command. Says whether the
/// dashboard gave way to the background.
pub fn normalize_cli_modes(cli: &mut Cli) -> (warn: bool)
    ensures
        *final(cli) == (Cli {
            tui: old(cli).tui && !is_management(old(cli).command) && !old(cli).daemon,
            daemon: old(cli).daemon && !is_management(old(cli).command),
            ..*old(cli)
        }),
        warn == (!is_management(old(cli).command) && old(cli).daemon && old(cli).tui),
{
    if cli.command.manages_services() {
        cli.tui = false;
        cli.daemon = false;
        return false;
    }
    if cli.daemon && cli.tui {
        cli.tui = false;
        return true;
    }
    false
}

/// Whether the command can run in the background, if it is to.
pub fn validate_daemon_mode(cli: &Cli) -> (r: Result<(), Failure>)
    ensures
        match r {
            Ok(()) => !cli.daemon || is_service(cli.command),
            Err(e) => {
                &&& cli.daemon && !is_service(cli.command)
                &&& e@
                    == seq![
                    "--daemon is only supported for client, server, tun, wg-client, and wg-server"@,
                ]
            },
        },
{
    if !cli.daemon || cli.command.is_a_service() {
        Ok(())
    } else {
        Err(
            Failure::new(
                "--daemon is only supported for client, server, tun, wg-client, and wg-server",
            ),
        )
    }
}

/// Whether the command is to be started again in the background.
pub fn should_spawn_daemon(cli: &Cli, daemonized: bool) -> (r: bool)
    ensures
        r == (cli.daemon && !daemonized),
{
    cli.daemon && !daemonized
}

/// What is done for a command line.
#[derive(Clone, Copy, Debug, PartialEq, Eq, Structural)]
pub enum Plan {
    /// The settings were only to be checked.
    Nothing,
    Spawn,
    Stop,
    Reload,
    Switch,
    Status,
    Attach,
    Utility,
    Service,
}

/// What is done for a command line whose modes go with its command.
pub open spec fn planned(cli: Cli, daemonized: bool) -> Plan {
    if cli.check_config_only {
        Plan::Nothing
    } else if cli.daemon && !daemonized {
        Plan::Spawn
    } else {
        match cli.command {
            Commands::Stop(_) => Plan::Stop,
            Commands::Reload(_) => Plan::Reload,
            Commands::Switch(_) => Plan::Switch,
            Commands::Status(_) => Plan::Status,
            Commands::Tui(_) => Plan::Attach,
            Commands::WgConfig | Commands::WgKeygen | Commands::Cert(_) => Plan::Utility,
            _ => Plan::Service,
        }
    }
}

/// What is done for a command line.
pub fn plan(cli: &Cli, daemonized: bool) -> (r: Result<Plan, Failure>)
    ensures
        match r {
            Ok(p) => (!cli.daemon || is_service(cli.command)) && p == planned(*cli, daemonized),
            Err(e) => {
                &&& cli.daemon && !is_service(cli.command)
                &&& e@
                    == seq![
                    "--daemon is only supported for client, server, tun, wg-client, and wg-server"@,
                ]
            },
        },
{
    match validate_daemon_mode(cli) {
        Ok(()) => {},
        Err(e) => {
            return Err(e);
        },
    }
    if cli.check_config_only {
        return Ok(Plan::Nothing);
    }
    if should_spawn_daemon(cli, daemonized) {
        return Ok(Plan::Spawn);
    }
    Ok(
        match &cli.command {
            Commands::Stop(_) => Plan::Stop,
            Commands::Reload(_) => Plan::Reload,
            Commands::Switch(_) => Plan::Switch,
            Commands::Status(_) => Plan::Status,
            Commands::Tui(_) => Plan::Attach,
            Commands::WgConfig => Plan::Utility,
            Commands::WgKeygen => Plan::Utility,
            Commands::Cert(_) => Plan::Utility,
            _ => Plan::Service,
        },
    )
}

// ---------------------------------------------------------------------------
// Where settings are

/// Paths, each once, where it first occurs.
pub open spec fn once(paths: Seq<Seq<char>>) -> Seq<Seq<char>>
    decreases paths.len(),
{
    if paths.len() == 0 {
        seq![]
    } else {
        let rest = once(paths.drop_last());
        if exists|i: int| 0 <= i < rest.len() && same_path(#[trigger] rest[i], paths.last()) {
            rest
        } else {
            rest.push(paths.last())
        }
    }
}

/// The files with settings in a directory.
pub open spec fn variants(dir: Seq<char>) -> Seq<Seq<char>> {
    seq![joined_path(dir, "config.yaml"@), joined_path(dir, "config.yml"@)]
}

/// The files with settings in the older place in a home.
pub open spec fn older_paths(home: Seq<char>) -> Seq<Seq<char>> {
    variants(joined_path(home, ".runnel"@))
}

/// The files with settings in the newer places in a home.
pub open spec fn newer_paths(home: Seq<char>, platform: Platform) -> Seq<Seq<char>> {
    let common = variants(joined_path(joined_path(home, ".config"@), "runnel"@));
    if platform == Platform::MacOs {
        common + variants(
            joined_path(
                joined_path(joined_path(home, "Library"@), "Application Support"@),
                "runnel"@,
            ),
        )
    } else {
        common
    }
}

/// The places where settings are looked for.
pub open spec fn config_candidates(
    home: Option<Seq<char>>,
    xdg: Option<Seq<char>>,
    sudo_home: Option<Seq<char>>,
    platform: Platform,
    unix: bool,
) -> Seq<Seq<char>> {
    let first = match home {
        Some(h) => older_paths(h),
        None => seq![],
    };
    let second = match xdg {
        Some(x) => variants(joined_path(x, "runnel"@)),
        None => seq![],
    };
    let third = match home {
        Some(h) => newer_paths(h, platform),
        None => seq![],
    };
    let fourth = match sudo_home {
        Some(h) => older_paths(h) + newer_paths(h, platform),
        None => seq![],
    };
    let last = if unix {
        variants("/etc/runnel"@)
    } else {
        seq![]
    };
    first + second + third + fourth + last
}

fn push_config_path(paths: &mut Vec<String>, path: String, Ghost(tried): Ghost<Seq<Seq<char>>>)
    requires
        views(old(paths)@) == once(tried),
    ensures
        views(final(paths)@) == once(tried.push(path@)),
{
    let ghost before = paths@;
    assert(tried.push(path@).drop_last() =~= tried);
    let mut i: usize = 0;
    while i < paths.len()
        invariant
            paths@ == before,
            views(before) == once(tried),
            tried.push(path@).drop_last() == tried,
            i <= paths.len(),
            forall|k: int| 0 <= k < i ==> !same_path(#[trigger] once(tried)[k], path@),
        decreases paths.len() - i,
    {
        assert(views(before)[i as int] == before[i as int]@);
        if paths_match(paths[i].as_str(), path.as_str()) {
            assert(same_path(once(tried)[i as int], path@));
            return ;
        }
        i = i + 1;
    }
    let ghost text = path@;
    paths.push(path);
    assert(views(paths@) =~= views(before).push(text));
}

fn push_config_file_variants(
    paths: &mut Vec<String>,
    dir: &str,
    Ghost(tried): Ghost<Seq<Seq<char>>>,
)
    requires
        views(old(paths)@) == once(tried),
    ensures
        views(final(paths)@) == once(tried + variants(dir@)),
{
    let first = join_path(dir, "config.yaml");
    let second = join_path(dir, "config.yml");
    let ghost a = first@;
    let ghost b = second@;
    push_config_path(paths, first, Ghost(tried));
    push_config_path(paths, second, Ghost(tried.push(a)));
    assert(tried.push(a).push(b) =~= tried + variants(dir@));
}

fn push_legacy_home_config_paths(
    paths: &mut Vec<String>,
    home: &str,
    Ghost(tried): Ghost<Seq<Seq<char>>>,
)
    requires
        views(old(paths)@) == once(tried),
    ensures
        views(final(paths)@) == once(tried + older_paths(home@)),
{
    let dir = join_path(home, ".runnel");
    push_config_file_variants(paths, dir.as_str(), Ghost(tried));
}

fn push_modern_home_config_paths(
    paths: &mut Vec<String>,
    home: &str,
    platform: Platform,
    Ghost(tried): Ghost<Seq<Seq<char>>>,
)
    requires
        views(old(paths)@) == once(tried),
    ensures
        views(final(paths)@) == once(tried + newer_paths(home@, platform)),
{
    let config = join_path(home, ".config");
    let dir = join_path(config.as_str(), "runnel");
    push_config_file_variants(paths, dir.as_str(), Ghost(tried));
    match platform {
        Platform::MacOs => {
            let library = join_path(home, "Library");
            let support = join_path(library.as_str(), "Application Support");
            let other = join_path(support.as_str(), "runnel");
            push_config_file_variants(paths, other.as_str(), Ghost(tried + variants(dir@)));
            assert(tried + newer_paths(home@, platform) =~= tried + variants(dir@) + variants(
                other@,
            ));
        },
        Platform::Other => {},
    }
}

/// The places where settings are looked for, each once: in the home, in the
/// directory for settings, in the home of whoever called for more rights, and in
/// that of the system.
pub fn default_config_paths_for(
    home: Option<&str>,
    xdg_config_home: Option<&str>,
    sudo_home: Option<&str>,
    platform: Platform,
    unix: bool,
) -> (r: Vec<String>)
    ensures
        views(r@) == once(
            config_candidates(
                str_view(home),
                str_view(xdg_config_home),
                str_view(sudo_home),
                platform,
                unix,
            ),
        ),
{
    let mut paths: Vec<String> = Vec::new();
    let ghost mut tried: Seq<Seq<char>> = seq![];
    assert(views(paths@) =~= once(tried));
    match home {
        Some(h) => {
            push_legacy_home_config_paths(&mut paths, h, Ghost(tried));
            proof {
                tried = tried + older_paths(h@);
            }
        },
        None => {},
    }
    let ghost one = tried;
    match xdg_config_home {
        Some(x) => {
            let dir = join_path(x, "runnel");
            push_config_file_variants(&mut paths, dir.as_str(), Ghost(tried));
            proof {
                tried = tried + variants(dir@);
            }
        },
        None => {},
    }
    match home {
        Some(h) => {
            push_modern_home_config_paths(&mut paths, h, platform, Ghost(tried));
            proof {
                tried = tried + newer_paths(h@, platform);
            }
        },
        None => {},
    }
    match sudo_home {
        Some(h) => {
            push_legacy_home_config_paths(&mut paths, h, Ghost(tried));
            push_modern_home_config_paths(&mut paths, h, platform, Ghost(tried + older_paths(h@)));
            proof {
                assert(tried + older_paths(h@) + newer_paths(h@, platform) =~= tried + (older_paths(
                    h@,
                ) + newer_paths(h@, platform)));
                tried = tried + (older_paths(h@) + newer_paths(h@, platform));
            }
        },
        None => {},
    }
    if unix {
        push_config_file_variants(&mut paths, "/etc/runnel", Ghost(tried));
        proof {
            tried = tried + variants("/etc/runnel"@);
        }
    }
    assert(tried =~= config_candidates(
        str_view(home),
        str_view(xdg_config_home),
        str_view(sudo_home),
        platform,
        unix,
    ));
    paths
}

/// The first of some flags that is set.
pub open spec fn first_set(flags: Seq<bool>, from: int) -> Option<int>
    decreases flags.len() - from,
{
    if from < 0 || from >= flags.len() {
        None
    } else if flags[from] {
        Some(from)
    } else {
        first_set(flags, from + 1)
    }
}

/// The first path at which there is a file.
pub fn first_existing_config_path(paths: &Vec<String>, is_file: &Vec<bool>) -> (r: Option<String>)
    requires
        paths.len() == is_file.len(),
    ensures
        opt_view(r) == match first_set(is_file@, 0) {
            Some(i) => Some(paths@[i]@),
            None => None,
        },
{
    let mut i: usize = 0;
    while i < paths.len()
        invariant
            i <= paths.len() == is_file.len(),
            first_set(is_file@, 0) == first_set(is_file@, i as int),
        decreases paths.len() - i,
    {
        if is_file[i] {
            return Some(paths[i].clone());
        }
        i = i + 1;
    }
    None
}

/// No place is looked at twice.
pub proof fn places_are_looked_at_once(paths: Seq<Seq<char>>, i: int, k: int)
    requires
        0 <= i < k < once(paths).len(),
    ensures
        !same_path(once(paths)[i], once(paths)[k]),
    decreases paths.len(),
{
    let rest = once(paths.drop_last());
    if once(paths).len() == rest.len() {
        places_are_looked_at_once(paths.drop_last(), i, k);
    } else if k < rest.len() {
        places_are_looked_at_once(paths.drop_last(), i, k);
    } else {
        assert(once(paths) == rest.push(paths.last()));
    }
}

// ---------------------------------------------------------------------------
// The zone of the log

/// What is said of a zone with a faulty part.
pub open spec fn faulty_part(label: Seq<char>, original: Seq<char>) -> Seq<char> {
    "invalid "@ + label + " in log timezone `"@ + original + "`"@
}

/// A part of a zone.
pub open spec fn zone_part(value: Seq<char>, label: Seq<char>, original: Seq<char>) -> Result<
    int,
    Seq<Seq<char>>,
> {
    if value.len() == 0 || !all_digits(value) {
        Err(seq![faulty_part(label, original)])
    } else {
        match unsigned_value(value, 255) {
            Some(n) => Ok(n),
            None => Err(seq![faulty_part(label, original), unsigned_fault(value, 255)]),
        }
    }
}

/// What is said of a zone that is written with colons, wrongly.
pub open spec fn faulty_colons(original: Seq<char>) -> Seq<Seq<char>> {
    seq!["invalid log timezone `"@ + original + "`; expected +HH:MM or +HH:MM:SS"@]
}

/// What is said of a zone that is written without colons, wrongly.
pub open spec fn faulty_digits(original: Seq<char>) -> Seq<Seq<char>> {
    seq!["invalid log timezone `"@ + original + "`; expected +HH, +HHMM, or +HHMMSS"@]
}

/// Hours, minutes and seconds of which the first faulty one counts.
pub open spec fn zone_parts(
    hours: Seq<char>,
    minutes: Seq<char>,
    seconds: Option<Seq<char>>,
    original: Seq<char>,
) -> Result<(int, int, int), Seq<Seq<char>>> {
    match zone_part(hours, "hours"@, original) {
        Err(e) => Err(e),
        Ok(h) => match zone_part(minutes, "minutes"@, original) {
            Err(e) => Err(e),
            Ok(m) => match seconds {
                None => Ok((h, m, 0)),
                Some(s) => match zone_part(s, "seconds"@, original) {
                    Err(e) => Err(e),
                    Ok(s) => Ok((h, m, s)),
                },
            },
        },
    }
}

/// Hours, minutes and seconds with colons between them.
pub open spec fn colon_zone(value: Seq<char>, original: Seq<char>) -> Result<
    (int, int, int),
    Seq<Seq<char>>,
> {
    let parts = split(value, ":"@);
    if parts.len() == 2 {
        zone_parts(parts[0], parts[1], None, original)
    } else if parts.len() == 3 {
        zone_parts(parts[0], parts[1], Some(parts[2]), original)
    } else {
        Err(faulty_colons(original))
    }
}

/// Hours, minutes and seconds with nothing between them.
pub open spec fn compact_zone(value: Seq<char>, original: Seq<char>) -> Result<
    (int, int, int),
    Seq<Seq<char>>,
> {
    let n = value.len() as int;
    if n == 0 || !all_digits(value) {
        Err(faulty_digits(original))
    } else if n == 1 || n == 2 {
        match zone_part(value, "hours"@, original) {
            Ok(h) => Ok((h, 0, 0)),
            Err(e) => Err(e),
        }
    } else if n == 4 {
        zone_parts(value.take(2), value.skip(2), None, original)
    } else if n == 6 {
        zone_parts(value.take(2), value.subrange(2, 4), Some(value.skip(4)), original)
    } else {
        Err(faulty_digits(original))
    }
}

/// How many seconds a zone that is written as a sign and a time is ahead.
pub open spec fn fixed_zone(value: Seq<char>) -> Result<int, Seq<Seq<char>>> {
    if value.len() == 0 || (value[0] != '+' && value[0] != '-') {
        Err(
            seq![
                "unsupported log timezone `"@ + value
                    + "`; expected utc, local, +08:00, or Asia/Shanghai"@,
            ],
        )
    } else {
        let digits = value.skip(1);
        let time = if contains(digits, ":"@) {
            colon_zone(digits, value)
        } else {
            compact_zone(digits, value)
        };
        match time {
            Err(e) => Err(e),
            Ok((h, m, s)) => if h > 23 || m > 59 || s > 59 {
                Err(
                    seq![
                        "invalid log timezone `"@ + value
                            + "`; offset must be within +/-23:59:59"@,
                    ],
                )
            } else if value[0] == '+' {
                Ok(h * 3600 + m * 60 + s)
            } else {
                Ok(-(h * 3600 + m * 60 + s))
            },
        }
    }
}

/// What is known of the zone of the machine.
pub open spec fn local_zone(local: Result<i32, Failure>) -> Result<int, Seq<Seq<char>>> {
    match local {
        Ok(n) => Ok(n as int),
        Err(e) => Err(
            seq!["failed to determine local timezone offset; use a fixed offset like +08:00"@]
                + e@,
        ),
    }
}

/// How many seconds the zone of the log is ahead.
pub open spec fn log_zone(timezone: Seq<char>, local: Result<i32, Failure>) -> Result<
    int,
    Seq<Seq<char>>,
> {
    let value = trimmed(timezone);
    let name = lower(value);
    if value.len() == 0 {
        Err(seq!["log timezone cannot be empty"@])
    } else if name == "utc"@ || name == "z"@ || name == "gmt"@ {
        Ok(0)
    } else if name == "local"@ {
        local_zone(local)
    } else if name == "asia/shanghai"@ || name == "shanghai"@ {
        Ok(28800)
    } else {
        match after_prefix(name, "utc"@) {
            Some(rest) => fixed_zone(rest),
            None => match after_prefix(name, "gmt"@) {
                Some(rest) => fixed_zone(rest),
                None => fixed_zone(value),
            },
        }
    }
}

fn only_digits(value: &str) -> (r: bool)
    ensures
        r == all_digits(value@),
{
    let cs = to_chars(value);
    let mut i: usize = 0;
    while i < cs.len()
        invariant
            i <= cs.len(),
            cs@ == value@,
            forall|k: int| 0 <= k < i ==> is_digit(#[trigger] value@[k]),
        decreases cs.len() - i,
    {
        if !(cs[i] >= '0' && cs[i] <= '9') {
            assert(!is_digit(value@[i as int]));
            return false;
        }
        i = i + 1;
    }
    true
}

/// Whether a result is the expected one.
pub open spec fn gives<T>(r: Result<T, Failure>, number: spec_fn(T) -> int, expected: Result<
    int,
    Seq<Seq<char>>,
>) -> bool {
    match (r, expected) {
        (Ok(n), Ok(m)) => number(n) == m,
        (Err(e), Err(f)) => e@ == f,
        _ => false,
    }
}

/// Whether a time is the expected one.
pub open spec fn gives_time(r: Result<(u8, u8, u8), Failure>, expected: Result<
    (int, int, int),
    Seq<Seq<char>>,
>) -> bool {
    match (r, expected) {
        (Ok((a, b, c)), Ok((x, y, z))) => a == x && b == y && c == z,
        (Err(e), Err(f)) => e@ == f,
        _ => false,
    }
}

fn parse_log_offset_component(value: &str, label: &str, original: &str) -> (r: Result<u8, Failure>)
    ensures
        gives(r, |n: u8| n as int, zone_part(value@, label@, original@)),
{
    let head = cat3("invalid ", label, " in log timezone `");
    let fault = cat3(head.as_str(), original, "`");
    if value.is_empty() || !only_digits(value) {
        return Err(Failure::new(fault.as_str()));
    }
    match parse_unsigned(value, 255) {
        Some(n) => Ok(n as u8),
        None => {
            let cause = Failure::new(explain_unsigned(value, 255).as_str());
            let e = cause.context(fault.as_str());
            assert(e@ =~= seq![faulty_part(label@, original@), unsigned_fault(value@, 255)]);
            Err(e)
        },
    }
}

fn parse_zone_parts(hours: &str, minutes: &str, seconds: Option<&str>, original: &str) -> (r:
    Result<(u8, u8, u8), Failure>)
    ensures
        gives_time(r, zone_parts(hours@, minutes@, str_view(seconds), original@)),
{
    let h = match parse_log_offset_component(hours, "hours", original) {
        Ok(h) => h,
        Err(e) => {
            return Err(e);
        },
    };
    let m = match parse_log_offset_component(minutes, "minutes", original) {
        Ok(m) => m,
        Err(e) => {
            return Err(e);
        },
    };
    match seconds {
        None => Ok((h, m, 0)),
        Some(s) => match parse_log_offset_component(s, "seconds", original) {
            Ok(s) => Ok((h, m, s)),
            Err(e) => Err(e),
        },
    }
}

fn parse_colon_log_offset(value: &str, original: &str) -> (r: Result<(u8, u8, u8), Failure>)
    ensures
        gives_time(r, colon_zone(value@, original@)),
{
    proof {
        reveal_strlit(":");
    }
    let parts = split_on(value, ":");
    assert(views(parts@).len() == parts@.len());
    if parts.len() == 2 {
        assert(views(parts@)[0] == parts@[0]@ && views(parts@)[1] == parts@[1]@);
        parse_zone_parts(parts[0].as_str(), parts[1].as_str(), None, original)
    } else if parts.len() == 3 {
        assert(views(parts@)[0] == parts@[0]@ && views(parts@)[1] == parts@[1]@
            && views(parts@)[2] == parts@[2]@);
        parse_zone_parts(
            parts[0].as_str(),
            parts[1].as_str(),
            Some(parts[2].as_str()),
            original,
        )
    } else {
        let text = cat3("invalid log timezone `", original, "`; expected +HH:MM or +HH:MM:SS");
        Err(Failure::new(text.as_str()))
    }
}

fn parse_compact_log_offset(value: &str, original: &str) -> (r: Result<(u8, u8, u8), Failure>)
    ensures
        gives_time(r, compact_zone(value@, original@)),
{
    let text = cat3("invalid log timezone `", original, "`; expected +HH, +HHMM, or +HHMMSS");
    if value.is_empty() || !only_digits(value) {
        return Err(Failure::new(text.as_str()));
    }
    let cs = to_chars(value);
    let n: usize = cs.len();
    if n == 1 || n == 2 {
        match parse_log_offset_component(value, "hours", original) {
            Ok(h) => Ok((h, 0, 0)),
            Err(e) => Err(e),
        }
    } else if n == 4 {
        let hours = from_chars(&cs, 0, 2);
        let minutes = from_chars(&cs, 2, 4);
        assert(hours@ =~= value@.take(2));
        assert(minutes@ =~= value@.skip(2));
        parse_zone_parts(hours.as_str(), minutes.as_str(), None, original)
    } else if n == 6 {
        let hours = from_chars(&cs, 0, 2);
        let minutes = from_chars(&cs, 2, 4);
        let seconds = from_chars(&cs, 4, 6);
        assert(hours@ =~= value@.take(2));
        assert(seconds@ =~= value@.skip(4));
        parse_zone_parts(hours.as_str(), minutes.as_str(), Some(seconds.as_str()), original)
    } else {
        Err(Failure::new(text.as_str()))
    }
}

fn parse_fixed_log_offset(value: &str) -> (r: Result<i32, Failure>)
    ensures
        gives(r, |n: i32| n as int, fixed_zone(value@)),
{
    let cs = to_chars(value);
    if cs.len() == 0 || (cs[0] != '+' && cs[0] != '-') {
        let text = cat3(
            "unsupported log timezone `",
            value,
            "`; expected utc, local, +08:00, or Asia/Shanghai",
        );
        return Err(Failure::new(text.as_str()));
    }
    let digits = from_chars(&cs, 1, cs.len());
    assert(digits@ =~= value@.skip(1));
    let time = if has(digits.as_str(), ":") {
        parse_colon_log_offset(digits.as_str(), value)
    } else {
        parse_compact_log_offset(digits.as_str(), value)
    };
    let (hours, minutes, seconds) = match time {
        Ok(t) => t,
        Err(e) => {
            return Err(e);
        },
    };
    if hours > 23 || minutes > 59 || seconds > 59 {
        let text = cat3(
            "invalid log timezone `",
            value,
            "`; offset must be within +/-23:59:59",
        );
        return Err(Failure::new(text.as_str()));
    }
    let total: i32 = hours as i32 * 3600 + minutes as i32 * 60 + seconds as i32;
    if cs[0] == '+' {
        Ok(total)
    } else {
        Ok(-total)
    }
}

/// How many seconds the zone of the log is ahead, given what is known of the
/// zone of the machine.
pub fn parse_log_timezone(timezone: &str, local: Result<i32, Failure>) -> (r: Result<i32, Failure>)
    ensures
        gives(r, |n: i32| n as int, log_zone(timezone@, local)),
{
    let value = trim(timezone);
    if value.as_str().is_empty() {
        return Err(Failure::new("log timezone cannot be empty"));
    }
    let name = to_lower(value.as_str());
    if same(name.as_str(), "utc") || same(name.as_str(), "z") || same(name.as_str(), "gmt") {
        return Ok(0);
    }
    if same(name.as_str(), "local") {
        return match local {
            Ok(n) => Ok(n),
            Err(e) => Err(
                e.context(
                    "failed to determine local timezone offset; use a fixed offset like +08:00",
                ),
            ),
        };
    }
    if same(name.as_str(), "asia/shanghai") || same(name.as_str(), "shanghai") {
        return Ok(28800);
    }
    match strip_prefix(name.as_str(), "utc") {
        Some(rest) => parse_fixed_log_offset(rest.as_str()),
        None => match strip_prefix(name.as_str(), "gmt") {
            Some(rest) => parse_fixed_log_offset(rest.as_str()),
            None => parse_fixed_log_offset(value.as_str()),
        },
    }
}

/// A zone is less than a day ahead or behind.
pub proof fn zones_are_less_than_a_day_away(value: Seq<char>)
    ensures
        fixed_zone(value) matches Ok(n) ==> -86400 < n < 86400,
{
    lemma_time_not_negative(value);
}

/// No part of a time is negative.
proof fn lemma_time_not_negative(value: Seq<char>)
    ensures
        colon_zone(value.skip(1), value) matches Ok((h, m, s)) ==> h >= 0 && m >= 0 && s >= 0,
        compact_zone(value.skip(1), value) matches Ok((h, m, s)) ==> h >= 0 && m >= 0 && s >= 0,
{
    assert forall|p: Seq<char>| (#[trigger] unsigned_value(p, 255)) is Some implies unsigned_value(
        p,
        255,
    )->0 >= 0 by {
        lemma_unsigned_not_negative(p, 255);
    }
}

// ---------------------------------------------------------------------------
// The start of a daemon

/// The last lines of a text.
pub open spec fn last_lines(text: Seq<char>, most: nat) -> Seq<Seq<char>> {
    let all = lines_of(text);
    if all.len() > most {
        all.skip(all.len() - most)
    } else {
        all
    }
}

/// The last lines of the text of a file.
pub fn read_file_tail(contents: &str, max_lines: usize) -> (r: String)
    ensures
        r@ == joined(last_lines(contents@, max_lines as nat), "\n"@),
{
    let all = lines(contents);
    assert(views(all@).len() == all@.len());
    let from: usize = if all.len() > max_lines { all.len() - max_lines } else { 0 };
    let r = join(&all, from, "\n");
    assert(views(all@).skip(0) =~= views(all@));
    r
}

/// What is known of the log of a daemon that ended.
pub enum LogSight {
    /// Where it is cannot be said.
    Unknown,
    /// It was not created.
    Missing(String),
    /// Where it is, and its last lines if they could be read.
    Present(String, Option<String>),
}

/// What is said of a daemon that ended at once.
pub open spec fn startup_failure_text(status: Seq<char>, log: LogSight) -> Seq<char> {
    let head = "runnel daemon exited during startup with "@ + status;
    match log {
        LogSight::Unknown => head,
        LogSight::Missing(path) => head + "\nlog file was not created: "@ + path@,
        LogSight::Present(path, tail) => {
            let known = head + "\nlog: "@ + path@;
            match tail {
                Some(t) => if trimmed(t@).len() > 0 {
                    known + "\nrecent log lines:\n"@ + t@
                } else {
                    known
                },
                None => known,
            }
        },
    }
}

/// The failure of a daemon that ended at once.
pub fn startup_failure(status: &str, log: &LogSight) -> (r: Failure)
    ensures
        r@ == seq![startup_failure_text(status@, *log)],
{
    let head = cat("runnel daemon exited during startup with ", status);
    let text = match log {
        LogSight::Unknown => head,
        LogSight::Missing(path) => cat3(
            head.as_str(),
            "\nlog file was not created: ",
            path.as_str(),
        ),
        LogSight::Present(path, tail) => {
            let known = cat3(head.as_str(), "\nlog: ", path.as_str());
            match tail {
                Some(t) => {
                    let rest = trim(t.as_str());
                    if !rest.as_str().is_empty() {
                        cat3(known.as_str(), "\nrecent log lines:\n", t.as_str())
                    } else {
                        known
                    }
                },
                None => known,
            }
        },
    };
    Failure::new(text.as_str())
}

/// What is said of a daemon that runs.
pub fn started_text(pid: u32, pid_file: Option<&str>) -> (r: String)
    ensures
        r@ == match pid_file {
            Some(path) => "runnel daemon started pid="@ + decimal(pid as nat) + " pid_file="@
                + path@,
            None => "runnel daemon started pid="@ + decimal(pid as nat),
        },
{
    let head = cat("runnel daemon started pid=", to_decimal(pid as u64).as_str());
    match pid_file {
        Some(path) => cat3(head.as_str(), " pid_file=", path),
        None => head,
    }
}

/// What is done about a daemon that starts.
#[derive(Clone, Copy, Debug, PartialEq, Eq, Structural)]
pub enum StartupMove {
    Failed,
    Running,
    Sleep(u64),
}

/// What is done about a daemon that starts: it runs if it did not end within a
/// while.
pub fn wait_for_daemon_startup(exited: bool, elapsed: u64) -> (r: StartupMove)
    ensures
        r == if exited {
            StartupMove::Failed
        } else if elapsed >= DAEMON_STARTUP_CHECK {
            StartupMove::Running
        } else {
            StartupMove::Sleep(DAEMON_STARTUP_POLL)
        },
{
    if exited {
        StartupMove::Failed
    } else if elapsed >= DAEMON_STARTUP_CHECK {
        StartupMove::Running
    } else {
        StartupMove::Sleep(DAEMON_STARTUP_POLL)
    }
}

// ---------------------------------------------------------------------------
// Laws

/// A command that speaks to services runs neither in the background nor with a
/// dashboard; a service in the background runs without a dashboard, and only that is
/// warned of. Nothing else changes.
pub proof fn modes_that_exclude_each_other_are_resolved(cli: &mut Cli, warn: bool)
    requires
        call_ensures(normalize_cli_modes, (cli,), warn),
    ensures
        !(final(cli).daemon && final(cli).tui),
        old(cli).command is Tui || old(cli).command is Stop || old(cli).command is Reload || old(cli).command is Switch || old(cli).command is Status ==> !final(cli).daemon && !final(cli).tui
            && !warn,
        old(cli).command is Client || old(cli).command is Server || old(cli).command is Tun || old(cli).command is WgClient || old(cli).command is WgServer ==> final(cli).daemon == old(cli).daemon
            && (final(cli).tui <==> old(cli).tui && !old(cli).daemon) && (warn <==> old(cli).tui
            && old(cli).daemon),
        final(cli).command == old(cli).command,
        final(cli).log == old(cli).log,
        final(cli).log_file == old(cli).log_file,
        final(cli).telemetry_sock == old(cli).telemetry_sock,
        final(cli).pid_file == old(cli).pid_file,
        final(cli).check_config_only == old(cli).check_config_only,
        final(cli).config == old(cli).config,
{
}

/// Only services run in the background. A check of the settings does nothing else,
/// a service for the background is spawned once, and every other command is carried
/// out as what it is.
pub proof fn commands_are_carried_out(
    cli: &Cli,
    daemonized: bool,
    valid: Result<(), Failure>,
    spawn: bool,
    utility: bool,
    strict: bool,
    r: Result<Plan, Failure>,
)
    requires
        call_ensures(validate_daemon_mode, (cli,), valid),
        call_ensures(should_spawn_daemon, (cli, daemonized), spawn),
        call_ensures(is_utility_command, (&cli.command,), utility),
        call_ensures(command_requires_strict_config, (&cli.command,), strict),
        call_ensures(plan, (cli, daemonized), r),
    ensures
        valid is Err <==> cli.daemon && !(cli.command is Client || cli.command is Server
            || cli.command is Tun || cli.command is WgClient || cli.command is WgServer),
        spawn <==> cli.daemon && !daemonized,
        utility <==> cli.command is WgConfig || cli.command is WgKeygen || cli.command is Cert,
        strict <==> cli.command is Client || cli.command is Server || cli.command is Tun
            || cli.command is WgClient || cli.command is WgServer || cli.command is Cert,
        r is Ok <==> valid is Ok,
        r matches Ok(p) ==> {
            &&& p is Nothing <==> cli.check_config_only
            &&& p is Spawn <==> !cli.check_config_only && spawn
            &&& p is Utility <==> !cli.check_config_only && utility
            &&& p is Stop <==> !cli.check_config_only && cli.command is Stop
            &&& p is Reload <==> !cli.check_config_only && cli.command is Reload
            &&& p is Switch <==> !cli.check_config_only && cli.command is Switch
            &&& p is Status <==> !cli.check_config_only && cli.command is Status
            &&& p is Attach <==> !cli.check_config_only && cli.command is Tui
        },
{
}

/// A switch leads where it says, and toggles where it says nothing; each kind of
/// service that can be switched is that kind of service.
pub proof fn switches_mean_what_they_say(
    args: &SwitchArgs,
    r: TrafficSwitchTarget,
    role: SwitchRole,
    kind: ServiceRole,
    name: &'static str,
    own: &'static str,
)
    requires
        call_ensures(SwitchArgs::target, (args,), r),
        call_ensures(SwitchRole::service_role, (role,), kind),
        call_ensures(ServiceRole::as_str, (kind,), name),
        call_ensures(SwitchRole::as_str, (role,), own),
    ensures
        args.bypass ==> r == TrafficSwitchTarget::Bypass,
        !args.bypass && args.proxy ==> r == TrafficSwitchTarget::Proxying,
        !args.bypass && !args.proxy ==> r == TrafficSwitchTarget::Toggle,
        own@ == name@,
{
}

proof fn lemma_once(paths: Seq<Seq<char>>, i: int)
    requires
        0 <= i < paths.len(),
    ensures
        exists|k: int| 0 <= k < once(paths).len() && same_path(#[trigger] once(paths)[k], paths[i]),
    decreases paths.len(),
{
    let rest = once(paths.drop_last());
    let all = once(paths);
    if i == paths.len() - 1 {
        if exists|j: int| 0 <= j < rest.len() && same_path(#[trigger] rest[j], paths.last()) {
            let j = choose|j: int| 0 <= j < rest.len() && same_path(#[trigger] rest[j], paths.last());
            assert(all[j] == rest[j]);
        } else {
            assert(all[rest.len() as int] == paths[i]);
            assert(same_path(all[rest.len() as int], paths[i]));
        }
    } else {
        assert(paths.drop_last()[i] == paths[i]);
        lemma_once(paths.drop_last(), i);
        let k = choose|k: int| 0 <= k < rest.len() && same_path(#[trigger] rest[k], paths[i]);
        assert(all[k] == rest[k]);
    }
}

proof fn lemma_once_starts(paths: Seq<Seq<char>>)
    requires
        paths.len() > 0,
    ensures
        once(paths).len() > 0 && once(paths)[0] == paths[0],
    decreases paths.len(),
{
    if paths.len() > 1 {
        assert(paths.drop_last()[0] == paths[0]);
        lemma_once_starts(paths.drop_last());
    } else {
        assert(once(paths.drop_last()) =~= Seq::<Seq<char>>::empty());
    }
}

/// The settings are looked for in the home directory first, and also in the place for
/// settings, in the home of whoever called root, and in that of the system; each
/// place is looked at once.
#[verifier::spinoff_prover]
#[verifier::rlimit(50)]
pub proof fn settings_are_looked_for_in_their_places(
    home: &str,
    xdg: &str,
    sudo: &str,
    platform: Platform,
    r: Vec<String>,
    own_dir: String,
    own_text: &str,
    own: String,
    i: int,
    k: int,
)
    requires
        call_ensures(default_config_paths_for, (Some(home), Some(xdg), Some(sudo), platform, true), r),
        call_ensures(join_path, (home, ".runnel"), own_dir),
        own_text@ == own_dir@,
        call_ensures(join_path, (own_text, "config.yaml"), own),
        0 <= i < k < r@.len(),
    ensures
        r@[0]@ == own@,
        exists|j: int|
            0 <= j < r@.len() && same_path(
                (#[trigger] r@[j])@,
                joined_path(joined_path(xdg@, "runnel"@), "config.yaml"@),
            ),
        exists|j: int|
            0 <= j < r@.len() && same_path(
                (#[trigger] r@[j])@,
                joined_path(joined_path(sudo@, ".runnel"@), "config.yaml"@),
            ),
        exists|j: int|
            0 <= j < r@.len() && same_path(
                (#[trigger] r@[j])@,
                joined_path("/etc/runnel"@, "config.yaml"@),
            ),
        !same_path(r@[i]@, r@[k]@),
{
    let all = config_candidates(Some(home@), Some(xdg@), Some(sudo@), platform, true);
    let found = views(r@);
    assert(found == once(all));
    assert forall|j: int| 0 <= j < r@.len() implies found[j] == (#[trigger] r@[j])@ by {}
    lemma_once_starts(all);
    assert(all[0] == own@);
    places_are_looked_at_once(all, i, k);
    let x = joined_path(joined_path(xdg@, "runnel"@), "config.yaml"@);
    assert(all[2] == x);
    lemma_once(all, 2);
    let j = choose|j: int| 0 <= j < found.len() && same_path(#[trigger] found[j], all[2]);
    assert(same_path(r@[j]@, x));
    let n = newer_paths(home@, platform).len() as int;
    let s = joined_path(joined_path(sudo@, ".runnel"@), "config.yaml"@);
    assert(all[4 + n] == s);
    lemma_once(all, 4 + n);
    let j = choose|j: int| 0 <= j < found.len() && same_path(#[trigger] found[j], all[4 + n]);
    assert(same_path(r@[j]@, s));
    let e = joined_path("/etc/runnel"@, "config.yaml"@);
    let at = all.len() - 2;
    assert(all[at] == e);
    lemma_once(all, at);
    let j = choose|j: int| 0 <= j < found.len() && same_path(#[trigger] found[j], all[at]);
    assert(same_path(r@[j]@, e));
}

proof fn lemma_first_set(flags: Seq<bool>, from: int)
    requires
        0 <= from,
    ensures
        match first_set(flags, from) {
            Some(i) => from <= i < flags.len() && flags[i] && forall|k: int|
                from <= k < i ==> !(#[trigger] flags[k]),
            None => forall|k: int| from <= k < flags.len() ==> !(#[trigger] flags[k]),
        },
    decreases flags.len() - from,
{
    if from < flags.len() && !flags[from] {
        lemma_first_set(flags, from + 1);
    }
}

/// The first place that has settings is the one that they are taken from.
pub proof fn the_first_settings_are_taken(
    paths: &Vec<String>,
    is_file: &Vec<bool>,
    i: int,
    r: Option<String>,
)
    requires
        paths@.len() == is_file@.len(),
        call_ensures(first_existing_config_path, (paths, is_file), r),
        0 <= i < paths@.len(),
    ensures
        is_file@[i] && (forall|k: int| 0 <= k < i ==> !(#[trigger] is_file@[k])) ==> (r matches Some(p)
            && p@ == paths@[i]@),
        (forall|k: int| 0 <= k < is_file@.len() ==> !(#[trigger] is_file@[k])) ==> r is None,
{
    lemma_first_set(is_file@, 0);
}

/// A zone that is written as hours and minutes is that far from the common time, and
/// the names of the common time are no way from it; that of the machine is taken from
/// the machine.
#[verifier::spinoff_prover]
#[verifier::rlimit(50)]
pub proof fn zones_are_read(
    plus: bool,
    hours: &str,
    minutes: &str,
    h: u64,
    m: u64,
    zone: &str,
    local: Result<i32, Failure>,
    r: Result<i32, Failure>,
    utc: Result<i32, Failure>,
    own: Result<i32, Failure>,
)
    requires
        hours@.len() > 0 && all_digits(hours@),
        minutes@.len() > 0 && all_digits(minutes@),
        call_ensures(parse_unsigned, (hours, 255), Some(h)),
        call_ensures(parse_unsigned, (minutes, 255), Some(m)),
        zone@ == seq![if plus {
            '+'
        } else {
            '-'
        }] + (hours@ + seq![':'] + minutes@),
        call_ensures(parse_log_timezone, (zone, local), r),
        call_ensures(parse_log_timezone, ("utc", local), utc),
        call_ensures(parse_log_timezone, ("local", local), own),
    ensures
        h < 24 && m < 60 ==> (r matches Ok(n) && n == (if plus {
            h * 3600 + m * 60
        } else {
            -(h * 3600 + m * 60)
        })),
        h >= 24 || m >= 60 ==> r is Err,
        utc == Ok::<i32, Failure>(0),
        own is Ok <==> local is Ok,
        local matches Ok(n) ==> own == Ok::<i32, Failure>(n),
{
    let value = zone@;
    let digits = hours@ + seq![':'] + minutes@;
    lemma_zone_names(value);
    assert(is_digit(minutes@.last()));
    assert(value.last() == minutes@.last());
    lemma_trimmed_same(value);
    assert(value.skip(1) =~= digits);
    lemma_colon_zone(hours@, minutes@, h as int, m as int, value);
    lemma_common_zone(local);
}

/// The names of the common time and of that of the machine.
proof fn lemma_common_zone(local: Result<i32, Failure>)
    ensures
        log_zone("utc"@, local) == Ok::<int, Seq<Seq<char>>>(0),
        log_zone("local"@, local) == local_zone(local),
{
    reveal_strlit("utc");
    reveal_strlit("z");
    reveal_strlit("gmt");
    reveal_strlit("local");
    assert("utc"@.len() == 3 && "utc"@[0] == 'u' && "utc"@[2] == 'c');
    assert("z"@.len() == 1);
    assert("gmt"@.len() == 3);
    assert("local"@.len() == 5 && "local"@[0] == 'l' && "local"@[4] == 'l');
    lemma_lower_stays("utc"@);
    lemma_lower_stays("local"@);
    lemma_trimmed_same("utc"@);
    lemma_trimmed_same("local"@);
}

/// What starts with a sign is no name of a zone.
proof fn lemma_zone_names(value: Seq<char>)
    requires
        value.len() > 0,
        value[0] == '+' || value[0] == '-',
    ensures
        ({
            let name = lower(value);
            &&& name != "utc"@ && name != "z"@ && name != "gmt"@ && name != "local"@
            &&& name != "asia/shanghai"@ && name != "shanghai"@
            &&& after_prefix(name, "utc"@) is None
            &&& after_prefix(name, "gmt"@) is None
        }),
{
    reveal_strlit("utc");
    reveal_strlit("z");
    reveal_strlit("gmt");
    reveal_strlit("local");
    reveal_strlit("asia/shanghai");
    reveal_strlit("shanghai");
    assert("utc"@.len() == 3 && "utc"@[0] == 'u');
    assert("z"@[0] == 'z');
    assert("gmt"@.len() == 3 && "gmt"@[0] == 'g');
    assert("local"@[0] == 'l');
    assert("asia/shanghai"@[0] == 'a');
    assert("shanghai"@[0] == 's');
    let name = lower(value);
    assert(name[0] == value[0]);
    if name.len() >= 3 {
        assert(name.take(3)[0] == name[0]);
    }
}

#[verifier::spinoff_prover]
#[verifier::rlimit(50)]
proof fn lemma_colon_zone(
    hours: Seq<char>,
    minutes: Seq<char>,
    h: int,
    m: int,
    original: Seq<char>,
)
    requires
        hours.len() > 0 && all_digits(hours),
        minutes.len() > 0 && all_digits(minutes),
        unsigned_value(hours, 255) == Some(h),
        unsigned_value(minutes, 255) == Some(m),
    ensures
        contains(hours + seq![':'] + minutes, ":"@),
        colon_zone(hours + seq![':'] + minutes, original) == Ok::<(int, int, int), Seq<Seq<char>>>(
            (h, m, 0),
        ),
{
    let digits = hours + seq![':'] + minutes;
    reveal_strlit(":");
    assert(":"@ =~= seq![':']);
    let at = hours.len() as int;
    assert(digits.subrange(at, at + 1) =~= seq![':']);
    assert(occurs_at(digits, seq![':'], at));
    assert forall|i: int| 0 <= i < hours.len() implies #[trigger] hours[i] != ':' by {
        assert(is_digit(hours[i]));
    }
    lemma_no_char(hours, ':', minutes);
    lemma_split_after(hours, seq![':'], minutes);
    assert(split(minutes, seq![':']) =~= seq![minutes]) by {
        lemma_find_from(minutes, seq![':'], 0);
        if let Some(i) = find(minutes, seq![':']) {
            assert(minutes.subrange(i, i + 1)[0] == minutes[i]);
            assert(is_digit(minutes[i]));
        }
    }
    assert(split(digits, seq![':']) =~= seq![hours, minutes]);
}

proof fn lemma_lower_stays(s: Seq<char>)
    requires
        s == "utc"@ || s == "local"@,
    ensures
        lower(s) == s,
{
    reveal_strlit("utc");
    reveal_strlit("local");
    assert forall|i: int| 0 <= i < s.len() implies lower(s)[i] == s[i] by {
        assert(i == 0 || i == 1 || i == 2 || i == 3 || i == 4);
    }
    assert(lower(s) =~= s);
}

/// A daemon that ends at once has failed; one that is still there after a while runs,
/// and until then it is looked at again.
pub proof fn daemons_are_watched_after_their_start(
    exited: bool,
    elapsed: u64,
    r: StartupMove,
    pid: u32,
    path: &str,
    told: String,
)
    requires
        call_ensures(wait_for_daemon_startup, (exited, elapsed), r),
        call_ensures(started_text, (pid, Some(path)), told),
    ensures
        r is Failed <==> exited,
        r is Running <==> !exited && elapsed >= 1200,
        r is Sleep <==> !exited && elapsed < 1200,
        finishes_with(told@, path@),
{
    assert(told@.skip(told@.len() - path@.len()) =~= path@);
}

/// The end of a log is its last lines, all of them where they are few.
pub proof fn logs_end_with_their_last_lines(
    contents: &str,
    max_lines: usize,
    r: String,
)
    requires
        call_ensures(read_file_tail, (contents, max_lines), r),
    ensures
        lines_of(contents@).len() <= max_lines ==> r@ == joined(lines_of(contents@), "\n"@),
        lines_of(contents@).len() > max_lines ==> exists|tail: Seq<Seq<char>>|
            r@ == #[trigger] joined(tail, "\n"@) && tail.len() == max_lines && forall|i: int|
                0 <= i < max_lines ==> tail[i] == #[trigger] lines_of(contents@)[lines_of(
                    contents@,
                ).len() - max_lines + i],
{
    let all = lines_of(contents@);
    if all.len() > max_lines {
        let tail = all.skip(all.len() - max_lines);
        assert(r@ == joined(tail, "\n"@));
        assert forall|i: int| 0 <= i < max_lines implies tail[i] == #[trigger] all[all.len() - max_lines
            + i] by {}
    }
}

} // verus!
