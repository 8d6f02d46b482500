//! Services that run: finding them, telling how they are, ending them and
//! starting them again.

use vstd::prelude::*;
use super::{Cli, ReloadArgs, ServiceRole, SwitchArgs};
use super::service::{
    absolute_path, command_role, default_log_file_for_role, default_pid_path, path_view, role_log, role_of, sidecar, whole_path, Found, Place, Present,
};
use crate::failure::Failure;
use crate::num::{
    decimal, decimal_is_digits, decimal_reads_back, explain_unsigned, parse_unsigned,
    signed_decimal, to_decimal, to_signed_decimal, to_two_digits, two_digits, unsigned_fault,
    unsigned_value,
};
use crate::paths::{
    absolute, file_name, file_name_of, join_path, joined_path, paths_match, same_path, str_view,
    without_tail,
};
use crate::telemetry::hub::{ControlResponse, TrafficState};
use crate::telemetry::snapshot::DashboardSnapshot;
use crate::text::{
    before_suffix, cat, cat3, clone_opt, ends_with, finishes_with, is_digit, is_whitespace, join,
    joined, lemma_rfind_char, lemma_trimmed_same, opt_view, same, strip_suffix, trim, trimmed, views,
};
use crate::tui::show::{bytes_text, format_bytes};

verus! {

// ---------------------------------------------------------------------------
// Targets

/// Where a service may be found.
#[derive(Debug)]
pub struct StatusTarget {
    pub label: String,
    pub pid_file: Option<String>,
    pub telemetry_socket: Option<String>,
}

/// Where a service may be found.
#[verifier::ext_equal]
pub struct TargetView {
    pub label: Seq<char>,
    pub pid_file: Option<Seq<char>>,
    pub telemetry_socket: Option<Seq<char>>,
}

impl View for StatusTarget {
    type V = TargetView;

    open spec fn view(&self) -> TargetView {
        TargetView {
            label: self.label@,
            pid_file: opt_view(self.pid_file),
            telemetry_socket: opt_view(self.telemetry_socket),
        }
    }
}

impl StatusTarget {
    /// A copy.
    pub fn copy(&self) -> (r: Self)
        ensures
            r@ == self@,
    {
        StatusTarget {
            label: self.label.clone(),
            pid_file: clone_opt(&self.pid_file),
            telemetry_socket: clone_opt(&self.telemetry_socket),
        }
    }
}

/// The targets of a list.
pub open spec fn targets(v: Seq<StatusTarget>) -> Seq<TargetView> {
    v.map_values(|t: StatusTarget| t@)
}

/// Whether two paths are the same, or both missing.
pub open spec fn same_file(a: Option<Seq<char>>, b: Option<Seq<char>>) -> bool {
    match (a, b) {
        (Some(x), Some(y)) => same_path(x, y),
        (None, None) => true,
        _ => false,
    }
}

/// Whether two targets are the same.
pub open spec fn same_target(a: TargetView, b: TargetView) -> bool {
    a.label == b.label && same_file(a.pid_file, b.pid_file) && same_file(
        a.telemetry_socket,
        b.telemetry_socket,
    )
}

fn files_match(a: &Option<String>, b: &Option<String>) -> (r: bool)
    ensures
        r == same_file(opt_view(*a), opt_view(*b)),
{
    match (a, b) {
        (Some(x), Some(y)) => paths_match(x.as_str(), y.as_str()),
        (None, None) => true,
        _ => false,
    }
}

fn targets_match(a: &StatusTarget, b: &StatusTarget) -> (r: bool)
    ensures
        r == same_target(a@, b@),
{
    same(a.label.as_str(), b.label.as_str()) && files_match(&a.pid_file, &b.pid_file)
        && files_match(&a.telemetry_socket, &b.telemetry_socket)
}

/// Targets, each once, where it first occurs.
pub open spec fn once(list: Seq<TargetView>) -> Seq<TargetView>
    decreases list.len(),
{
    if list.len() == 0 {
        seq![]
    } else {
        let rest = once(list.drop_last());
        if exists|i: int| 0 <= i < rest.len() && same_target(#[trigger] rest[i], list.last()) {
            rest
        } else {
            rest.push(list.last())
        }
    }
}

/// The targets that are active.
pub open spec fn live(list: Seq<TargetView>, active: Seq<bool>) -> Seq<TargetView>
    decreases list.len(),
{
    if list.len() == 0 || active.len() != list.len() {
        seq![]
    } else {
        let rest = live(list.drop_last(), active.drop_last());
        if active.last() {
            rest.push(list.last())
        } else {
            rest
        }
    }
}

/// The targets with a label.
pub open spec fn labelled(list: Seq<TargetView>, label: Seq<char>) -> Seq<TargetView>
    decreases list.len(),
{
    if list.len() == 0 {
        seq![]
    } else {
        let rest = labelled(list.drop_last(), label);
        if list.last().label == label {
            rest.push(list.last())
        } else {
            rest
        }
    }
}

/// For each default, the active targets with its label, or itself.
pub open spec fn preferred(defaults: Seq<TargetView>, found: Seq<TargetView>) -> Seq<TargetView>
    decreases defaults.len(),
{
    if defaults.len() == 0 {
        seq![]
    } else {
        let rest = preferred(defaults.drop_last(), found);
        let own = labelled(found, defaults.last().label);
        if own.len() > 0 {
            rest + own
        } else {
            rest.push(defaults.last())
        }
    }
}

/// The targets to report on: what was found active in place of the defaults,
/// then whatever else was found active.
pub open spec fn merged(defaults: Seq<TargetView>, found: Seq<TargetView>) -> Seq<TargetView> {
    once(preferred(defaults, found) + found)
}

fn push_status_target_once(
    list: &mut Vec<StatusTarget>,
    target: StatusTarget,
    Ghost(tried): Ghost<Seq<TargetView>>,
)
    requires
        targets(old(list)@) == once(tried),
    ensures
        targets(final(list)@) == once(tried.push(target@)),
{
    let ghost before = list@;
    assert(tried.push(target@).drop_last() =~= tried);
    let mut i: usize = 0;
    while i < list.len()
        invariant
            list@ == before,
            targets(before) == once(tried),
            tried.push(target@).drop_last() == tried,
            i <= list.len(),
            forall|k: int| 0 <= k < i ==> !same_target(#[trigger] once(tried)[k], target@),
        decreases list.len() - i,
    {
        assert(targets(before)[i as int] == before[i as int]@);
        if targets_match(&list[i], &target) {
            assert(same_target(once(tried)[i as int], target@));
            return ;
        }
        i = i + 1;
    }
    let ghost added = target@;
    list.push(target);
    assert(targets(list@) =~= targets(before).push(added));
}

/// The targets to report on.
pub fn merge_status_targets(
    defaults: &Vec<StatusTarget>,
    discovered: &Vec<StatusTarget>,
    active: &Vec<bool>,
) -> (r: Vec<StatusTarget>)
    requires
        discovered.len() == active.len(),
    ensures
        targets(r@) == merged(targets(defaults@), live(targets(discovered@), active@)),
{
    let ghost all = targets(discovered@);
    let ghost wanted = targets(defaults@);
    let mut found: Vec<StatusTarget> = Vec::new();
    let mut i: usize = 0;
    assert(targets(found@) =~= live(all.take(0), active@.take(0)));
    while i < discovered.len()
        invariant
            i <= discovered.len() == active.len(),
            all == targets(discovered@),
            targets(found@) == live(all.take(i as int), active@.take(i as int)),
        decreases discovered.len() - i,
    {
        proof {
            assert(all.take(i + 1).drop_last() =~= all.take(i as int));
            assert(active@.take(i + 1).drop_last() =~= active@.take(i as int));
        }
        let ghost before = found@;
        if active[i] {
            let t = discovered[i].copy();
            let ghost v = t@;
            found.push(t);
            assert(targets(found@) =~= targets(before).push(v));
        }
        i = i + 1;
    }
    assert(all.take(i as int) =~= all);
    assert(active@.take(i as int) =~= active@);
    let ghost up = targets(found@);
    let mut out: Vec<StatusTarget> = Vec::new();
    let ghost mut tried: Seq<TargetView> = seq![];
    let mut k: usize = 0;
    assert(targets(out@) =~= once(tried));
    while k < defaults.len()
        invariant
            k <= defaults.len(),
            wanted == targets(defaults@),
            up == targets(found@),
            tried == preferred(wanted.take(k as int), up),
            targets(out@) == once(tried),
        decreases defaults.len() - k,
    {
        let ghost base = tried;
        proof {
            assert(wanted.take(k + 1).drop_last() =~= wanted.take(k as int));
            assert(wanted[k as int] == defaults@[k as int]@);
        }
        let mut found_active: bool = false;
        let mut j: usize = 0;
        assert(labelled(up.take(0), defaults@[k as int].label@) =~= Seq::<TargetView>::empty());
        assert(base + labelled(up.take(0), defaults@[k as int].label@) =~= base);
        while j < found.len()
            invariant
                j <= found.len(),
                k < defaults.len(),
                up == targets(found@),
                tried == base + labelled(up.take(j as int), defaults@[k as int].label@),
                targets(out@) == once(tried),
                found_active == (labelled(up.take(j as int), defaults@[k as int].label@).len() > 0),
            decreases found.len() - j,
        {
            proof {
                assert(up.take(j + 1).drop_last() =~= up.take(j as int));
                assert(up[j as int] == found@[j as int]@);
            }
            if same(found[j].label.as_str(), defaults[k].label.as_str()) {
                found_active = true;
                let t = found[j].copy();
                let ghost v = t@;
                push_status_target_once(&mut out, t, Ghost(tried));
                proof {
                    assert(tried.push(v) =~= base + labelled(
                        up.take(j as int),
                        defaults@[k as int].label@,
                    ).push(v));
                    tried = tried.push(v);
                }
            }
            j = j + 1;
        }
        assert(up.take(j as int) =~= up);
        if !found_active {
            assert(tried =~= base);
            push_status_target_once(&mut out, defaults[k].copy(), Ghost(tried));
            proof {
                tried = tried.push(defaults@[k as int]@);
            }
        }
        k = k + 1;
    }
    assert(wanted.take(k as int) =~= wanted);
    let ghost head = tried;
    let mut m: usize = 0;
    assert(head + up.take(0) =~= head);
    while m < found.len()
        invariant
            m <= found.len(),
            up == targets(found@),
            tried == head + up.take(m as int),
            targets(out@) == once(tried),
        decreases found.len() - m,
    {
        let t = found[m].copy();
        let ghost v = t@;
        push_status_target_once(&mut out, t, Ghost(tried));
        proof {
            assert(up[m as int] == v);
            assert(tried.push(v) =~= head + up.take(m + 1));
            tried = tried.push(v);
        }
        m = m + 1;
    }
    assert(up.take(m as int) =~= up);
    out
}

/// A path, or why there is none, where one is wanted.
pub open spec fn place_of(given: Option<Seq<char>>, role: Seq<char>, ext: Seq<char>, place: Place)
    -> Result<Seq<char>, Seq<Seq<char>>> {
    match given {
        Some(path) => whole_path(path, place),
        None => sidecar(role, ext, place),
    }
}

/// The target of a kind of service.
pub open spec fn role_target(
    label: Seq<char>,
    pid_file: Option<Seq<char>>,
    socket: Option<Seq<char>>,
    place: Place,
) -> Result<TargetView, Seq<Seq<char>>> {
    match place_of(pid_file, label, "pid"@, place) {
        Err(e) => Err(e),
        Ok(p) => match place_of(socket, label, "sock"@, place) {
            Err(e) => Err(e),
            Ok(s) => Ok(TargetView { label, pid_file: Some(p), telemetry_socket: Some(s) }),
        },
    }
}

/// The target that given files make.
pub open spec fn given_target(
    pid_file: Option<Seq<char>>,
    socket: Option<Seq<char>>,
    place: Place,
) -> Result<TargetView, Seq<Seq<char>>> {
    let pid = match pid_file {
        Some(path) => match whole_path(path, place) {
            Ok(p) => Ok::<Option<Seq<char>>, Seq<Seq<char>>>(Some(p)),
            Err(e) => Err(e),
        },
        None => Ok(None),
    };
    let sock = match socket {
        Some(path) => match whole_path(path, place) {
            Ok(p) => Ok::<Option<Seq<char>>, Seq<Seq<char>>>(Some(p)),
            Err(e) => Err(e),
        },
        None => Ok(None),
    };
    match pid {
        Err(e) => Err(e),
        Ok(p) => match sock {
            Err(e) => Err(e),
            Ok(s) => Ok(TargetView { label: "service"@, pid_file: p, telemetry_socket: s }),
        },
    }
}

/// The targets of the services that are always reported on.
pub open spec fn default_targets(place: Place) -> Result<Seq<TargetView>, Seq<Seq<char>>> {
    match role_target("client"@, None, None, place) {
        Err(e) => Err(e),
        Ok(a) => match role_target("server"@, None, None, place) {
            Err(e) => Err(e),
            Ok(b) => match role_target("tun"@, None, None, place) {
                Err(e) => Err(e),
                Ok(c) => Ok(seq![a, b, c]),
            },
        },
    }
}

/// The targets to report on.
pub open spec fn status_targets(
    pid_file: Option<Seq<char>>,
    socket: Option<Seq<char>>,
    role: Option<ServiceRole>,
    found: Seq<TargetView>,
    place: Place,
) -> Result<Seq<TargetView>, Seq<Seq<char>>> {
    match role {
        Some(role) => match role_target(role.name(), pid_file, socket, place) {
            Ok(t) => Ok(seq![t]),
            Err(e) => Err(e),
        },
        None => if pid_file is Some || socket is Some {
            match given_target(pid_file, socket, place) {
                Ok(t) => Ok(seq![t]),
                Err(e) => Err(e),
            }
        } else {
            match default_targets(place) {
                Ok(defaults) => Ok(merged(defaults, found)),
                Err(e) => Err(e),
            }
        },
    }
}

fn place_for(given: Option<&str>, log_file: &str, role: &str, ext: &str, place: &Place) -> (r:
    Result<String, Failure>)
    ensures
        path_view(r) == place_of(str_view(given), role@, ext@, *place),
{
    match given {
        Some(path) => absolute_path(path, place),
        None => super::service::default_sidecar_path(log_file, role, ext, place),
    }
}

fn target_for(
    log_file: &str,
    label: &str,
    pid_file: Option<&str>,
    socket: Option<&str>,
    place: &Place,
) -> (r: Result<StatusTarget, Failure>)
    ensures
        match (r, role_target(label@, str_view(pid_file), str_view(socket), *place)) {
            (Ok(t), Ok(v)) => t@ == v,
            (Err(e), Err(f)) => e@ == f,
            _ => false,
        },
{
    let pid = match place_for(pid_file, log_file, label, "pid", place) {
        Ok(p) => p,
        Err(e) => {
            return Err(e);
        },
    };
    let sock = match place_for(socket, log_file, label, "sock", place) {
        Ok(p) => p,
        Err(e) => {
            return Err(e);
        },
    };
    Ok(
        StatusTarget {
            label: label.to_owned(),
            pid_file: Some(pid),
            telemetry_socket: Some(sock),
        },
    )
}

fn given_place(given: Option<&str>, place: &Place) -> (r: Result<Option<String>, Failure>)
    ensures
        match (r, given) {
            (Ok(p), Some(path)) => p matches Some(q) && whole_path(path@, *place) == Ok::<
                Seq<char>,
                Seq<Seq<char>>,
            >(q@),
            (Err(e), Some(path)) => whole_path(path@, *place) == Err::<Seq<char>, Seq<Seq<char>>>(
                e@,
            ),
            (Ok(p), None) => p is None,
            (Err(_), None) => false,
        },
{
    match given {
        Some(path) => match absolute_path(path, place) {
            Ok(p) => Ok(Some(p)),
            Err(e) => Err(e),
        },
        None => Ok(None),
    }
}

fn one_target(t: StatusTarget) -> (r: Vec<StatusTarget>)
    ensures
        targets(r@) == seq![t@],
{
    let mut v: Vec<StatusTarget> = Vec::new();
    let ghost x = t@;
    v.push(t);
    assert(targets(v@) =~= seq![x]);
    v
}

/// Whether services have to be looked for to know the targets to report on.
pub fn needs_discovery(pid_file: Option<&str>, socket: Option<&str>, role: Option<ServiceRole>) -> (r:
    bool)
    ensures
        r == (pid_file is None && socket is None && role is None),
{
    pid_file.is_none() && socket.is_none() && role.is_none()
}

/// The targets to report on, given those that were found and which of them are
/// active.
pub fn resolve_status_targets(
    log_file: &str,
    configured_pid_file: Option<&str>,
    configured_socket: Option<&str>,
    role: Option<ServiceRole>,
    use_role_default_log_files: bool,
    discovered: &Vec<StatusTarget>,
    active: &Vec<bool>,
    place: &Place,
) -> (r: Result<Vec<StatusTarget>, Failure>)
    requires
        discovered.len() == active.len(),
    ensures
        match (
            r,
            status_targets(
                str_view(configured_pid_file),
                str_view(configured_socket),
                role,
                live(targets(discovered@), active@),
                *place,
            ),
        ) {
            (Ok(v), Ok(t)) => targets(v@) == t,
            (Err(e), Err(f)) => e@ == f,
            _ => false,
        },
{
    match role {
        Some(role) => {
            let log_file = if use_role_default_log_files && configured_pid_file.is_none()
                && configured_socket.is_none() {
                default_log_file_for_role(role.as_str())
            } else {
                log_file.to_owned()
            };
            return match target_for(
                log_file.as_str(),
                role.as_str(),
                configured_pid_file,
                configured_socket,
                place,
            ) {
                Ok(t) => Ok(one_target(t)),
                Err(e) => Err(e),
            };
        },
        None => {},
    }
    if configured_pid_file.is_some() || configured_socket.is_some() {
        let pid_file = match given_place(configured_pid_file, place) {
            Ok(p) => p,
            Err(e) => {
                return Err(e);
            },
        };
        let telemetry_socket = match given_place(configured_socket, place) {
            Ok(p) => p,
            Err(e) => {
                return Err(e);
            },
        };
        return Ok(
            one_target(StatusTarget { label: "service".to_owned(), pid_file, telemetry_socket }),
        );
    }
    let client = match target_for(log_file, "client", None, None, place) {
        Ok(t) => t,
        Err(e) => {
            return Err(e);
        },
    };
    let server = match target_for(log_file, "server", None, None, place) {
        Ok(t) => t,
        Err(e) => {
            return Err(e);
        },
    };
    let tun = match target_for(log_file, "tun", None, None, place) {
        Ok(t) => t,
        Err(e) => {
            return Err(e);
        },
    };
    let ghost defaults_view = seq![client@, server@, tun@];
    let mut defaults: Vec<StatusTarget> = Vec::new();
    defaults.push(client);
    defaults.push(server);
    defaults.push(tun);
    assert(targets(defaults@) =~= defaults_view);
    Ok(merge_status_targets(&defaults, discovered, active))
}

/// No target is reported on twice.
pub proof fn targets_are_reported_once(list: Seq<TargetView>, i: int, k: int)
    requires
        0 <= i < k < once(list).len(),
    ensures
        !same_target(once(list)[i], once(list)[k]),
    decreases list.len(),
{
    let rest = once(list.drop_last());
    if once(list).len() == rest.len() || k < rest.len() {
        targets_are_reported_once(list.drop_last(), i, k);
    } else {
        assert(once(list) == rest.push(list.last()));
    }
}

// ---------------------------------------------------------------------------
// Looking for services

/// What a file name tells of a service, if it is the file of one kind of
/// service with one of two endings: its stem, and whether it is only the name of
/// the kind.
pub open spec fn sidecar_with(name: Seq<char>, role: Seq<char>, ext: Seq<char>) -> Option<
    (Seq<char>, bool),
> {
    if name == role + "."@ + ext {
        Some((role, true))
    } else {
        match before_suffix(name, "."@ + role + "."@ + ext) {
            Some(stem) => Some((stem, false)),
            None => None,
        }
    }
}

/// What a file name tells of a kind of service.
pub open spec fn sidecar_of(name: Seq<char>, role: Seq<char>) -> Option<(Seq<char>, bool)> {
    match sidecar_with(name, role, "pid"@) {
        Some(x) => Some(x),
        None => sidecar_with(name, role, "sock"@),
    }
}

/// What a file name tells of a service: its stem, the kind of service, and
/// whether it is only the name of the kind.
pub open spec fn sidecar_name(name: Seq<char>) -> Option<(Seq<char>, Seq<char>, bool)> {
    match sidecar_of(name, "client"@) {
        Some((stem, compact)) => Some((stem, "client"@, compact)),
        None => match sidecar_of(name, "server"@) {
            Some((stem, compact)) => Some((stem, "server"@, compact)),
            None => match sidecar_of(name, "tun"@) {
                Some((stem, compact)) => Some((stem, "tun"@, compact)),
                None => None,
            },
        },
    }
}

fn parse_with(name: &str, role: &str, ext: &str) -> (r: Option<(String, bool)>)
    ensures
        match (r, sidecar_with(name@, role@, ext@)) {
            (Some((a, b)), Some((x, y))) => a@ == x && b == y,
            (None, None) => true,
            _ => false,
        },
{
    let compact = cat3(role, ".", ext);
    if same(name, compact.as_str()) {
        return Some((role.to_owned(), true));
    }
    let suffix = cat3(cat(".", role).as_str(), ".", ext);
    match strip_suffix(name, suffix.as_str()) {
        Some(stem) => Some((stem, false)),
        None => None,
    }
}

fn parse_of(name: &str, role: &str) -> (r: Option<(String, bool)>)
    ensures
        match (r, sidecar_of(name@, role@)) {
            (Some((a, b)), Some((x, y))) => a@ == x && b == y,
            (None, None) => true,
            _ => false,
        },
{
    match parse_with(name, role, "pid") {
        Some(x) => Some(x),
        None => parse_with(name, role, "sock"),
    }
}

/// What a file name tells of a service.
pub fn parse_sidecar_file_name(file_name: &str) -> (r: Option<(String, &'static str, bool)>)
    ensures
        match (r, sidecar_name(file_name@)) {
            (Some((a, b, c)), Some((x, y, z))) => a@ == x && b@ == y && c == z,
            (None, None) => true,
            _ => false,
        },
{
    match parse_of(file_name, "client") {
        Some((stem, compact)) => {
            return Some((stem, "client", compact));
        },
        None => {},
    }
    match parse_of(file_name, "server") {
        Some((stem, compact)) => {
            return Some((stem, "server", compact));
        },
        None => {},
    }
    match parse_of(file_name, "tun") {
        Some((stem, compact)) => {
            return Some((stem, "tun", compact));
        },
        None => {},
    }
    None
}

/// The files that a service may have.
#[derive(Debug)]
pub struct Candidate {
    pub label: String,
    pub key: String,
    pub pid_file: String,
    pub telemetry_socket: String,
}

/// The files that a service may have.
#[verifier::ext_equal]
pub struct CandidateView {
    pub label: Seq<char>,
    pub key: Seq<char>,
    pub pid_file: Seq<char>,
    pub telemetry_socket: Seq<char>,
}

impl View for Candidate {
    type V = CandidateView;

    open spec fn view(&self) -> CandidateView {
        CandidateView {
            label: self.label@,
            key: self.key@,
            pid_file: self.pid_file@,
            telemetry_socket: self.telemetry_socket@,
        }
    }
}

/// The files of the service that a file in a directory belongs to.
pub open spec fn candidate(dir: Seq<char>, name: Seq<char>) -> Option<CandidateView> {
    match sidecar_name(name) {
        Some((stem, role, compact)) => {
            let base = if compact {
                stem
            } else {
                stem + "."@ + role
            };
            Some(
                CandidateView {
                    label: role,
                    key: joined_path(dir, stem),
                    pid_file: joined_path(dir, base + ".pid"@),
                    telemetry_socket: joined_path(dir, base + ".sock"@),
                },
            )
        },
        None => None,
    }
}

/// The files of the service that a file in a directory belongs to.
pub fn candidate_for(dir: &str, name: &str) -> (r: Option<Candidate>)
    ensures
        match (r, candidate(dir@, name@)) {
            (Some(c), Some(v)) => c@ == v,
            (None, None) => true,
            _ => false,
        },
{
    match parse_sidecar_file_name(name) {
        Some((stem, role, compact)) => {
            let base = if compact {
                stem.clone()
            } else {
                cat3(stem.as_str(), ".", role)
            };
            Some(
                Candidate {
                    label: role.to_owned(),
                    key: join_path(dir, stem.as_str()),
                    pid_file: join_path(dir, cat(base.as_str(), ".pid").as_str()),
                    telemetry_socket: join_path(dir, cat(base.as_str(), ".sock").as_str()),
                },
            )
        },
        None => None,
    }
}

/// The candidates of a list.
pub open spec fn candidates(v: Seq<Candidate>) -> Seq<CandidateView> {
    v.map_values(|c: Candidate| c@)
}

/// Whether two candidates are the same service.
pub open spec fn same_service(a: CandidateView, b: CandidateView) -> bool {
    a.label == b.label && same_path(a.key, b.key)
}

/// The candidates with those of one more file.
pub open spec fn with_file(list: Seq<CandidateView>, dir: Seq<char>, name: Seq<char>) -> Seq<
    CandidateView,
> {
    match candidate(dir, name) {
        Some(c) => if exists|i: int| 0 <= i < list.len() && same_service(#[trigger] list[i], c) {
            list
        } else {
            list.push(c)
        },
        None => list,
    }
}

/// The candidates with those of the files of a directory.
pub open spec fn with_files(list: Seq<CandidateView>, dir: Seq<char>, names: Seq<Seq<char>>) -> Seq<
    CandidateView,
>
    decreases names.len(),
{
    if names.len() == 0 {
        list
    } else {
        with_file(with_files(list, dir, names.drop_last()), dir, names.last())
    }
}

fn add_file(list: &mut Vec<Candidate>, dir: &str, name: &str)
    ensures
        candidates(final(list)@) == with_file(candidates(old(list)@), dir@, name@),
{
    let c = match candidate_for(dir, name) {
        Some(c) => c,
        None => {
            return ;
        },
    };
    let ghost before = list@;
    let mut i: usize = 0;
    while i < list.len()
        invariant
            list@ == before,
            i <= list.len(),
            candidate(dir@, name@) == Some(c@),
            forall|k: int| 0 <= k < i ==> !same_service(#[trigger] candidates(before)[k], c@),
        decreases list.len() - i,
    {
        assert(candidates(before)[i as int] == before[i as int]@);
        if same(list[i].label.as_str(), c.label.as_str()) && paths_match(
            list[i].key.as_str(),
            c.key.as_str(),
        ) {
            assert(same_service(candidates(before)[i as int], c@));
            return ;
        }
        i = i + 1;
    }
    let ghost v = c@;
    list.push(c);
    assert(candidates(list@) =~= candidates(before).push(v));
}

/// Adds the services whose files are in a directory, each once.
pub fn discover_status_targets_in_dir(dir: &str, names: &Vec<String>, list: &mut Vec<Candidate>)
    ensures
        candidates(final(list)@) == with_files(candidates(old(list)@), dir@, views(names@)),
{
    let ghost start = candidates(list@);
    let ghost texts = views(names@);
    let mut i: usize = 0;
    assert(texts.take(0) =~= Seq::<Seq<char>>::empty());
    while i < names.len()
        invariant
            i <= names.len(),
            texts == views(names@),
            candidates(list@) == with_files(start, dir@, texts.take(i as int)),
        decreases names.len() - i,
    {
        proof {
            assert(texts[i as int] == names@[i as int]@);
            assert(texts.take(i + 1).drop_last() =~= texts.take(i as int));
        }
        add_file(list, dir, names[i].as_str());
        i = i + 1;
    }
    assert(texts.take(i as int) =~= texts);
}

/// The target that a candidate makes, given which of its files are there.
pub fn found_target(c: Candidate, pid_file: bool, socket: bool) -> (r: StatusTarget)
    ensures
        r@ == (TargetView {
            label: c@.label,
            pid_file: if pid_file {
                Some(c@.pid_file)
            } else {
                None
            },
            telemetry_socket: if socket {
                Some(c@.telemetry_socket)
            } else {
                None
            },
        }),
{
    StatusTarget {
        label: c.label,
        pid_file: if pid_file {
            Some(c.pid_file)
        } else {
            None
        },
        telemetry_socket: if socket {
            Some(c.telemetry_socket)
        } else {
            None
        },
    }
}

// ---------------------------------------------------------------------------
// How services are

/// What a service tells of itself.
#[derive(Debug)]
pub struct RuntimeStatus {
    pub command: String,
    pub mode: String,
    pub traffic_state: TrafficState,
    pub pid: u32,
    pub listen: Option<String>,
    pub upstream: Option<String>,
    pub path: Option<String>,
    pub log_file: String,
    pub log_filter: String,
    pub uptime_secs: u64,
    pub total_relays: u64,
    pub total_errors: u64,
    pub total_warnings: u64,
    pub total_uploaded: u64,
    pub total_downloaded: u64,
    pub last_event_age_ms: Option<u64>,
    pub last_warning_age_ms: Option<u64>,
    pub last_traffic_age_ms: Option<u64>,
}

impl RuntimeStatus {
    /// What a service tells of itself in a snapshot.
    pub fn from_snapshot(snapshot: DashboardSnapshot) -> (r: Self)
        ensures
            r == (RuntimeStatus {
                command: snapshot.context.command_label,
                mode: snapshot.context.mode_label,
                traffic_state: snapshot.context.traffic_state,
                pid: snapshot.context.pid,
                listen: snapshot.context.listen,
                upstream: snapshot.context.upstream,
                path: snapshot.context.path,
                log_file: snapshot.context.log_file,
                log_filter: snapshot.context.log_filter,
                uptime_secs: snapshot.uptime_secs,
                total_relays: snapshot.total_relays,
                total_errors: snapshot.total_errors,
                total_warnings: snapshot.total_warnings,
                total_uploaded: snapshot.total_uploaded,
                total_downloaded: snapshot.total_downloaded,
                last_event_age_ms: snapshot.last_event_age_ms,
                last_warning_age_ms: snapshot.last_warning_age_ms,
                last_traffic_age_ms: snapshot.last_traffic_age_ms,
            }),
    {
        RuntimeStatus {
            command: snapshot.context.command_label,
            mode: snapshot.context.mode_label,
            traffic_state: snapshot.context.traffic_state,
            pid: snapshot.context.pid,
            listen: snapshot.context.listen,
            upstream: snapshot.context.upstream,
            path: snapshot.context.path,
            log_file: snapshot.context.log_file,
            log_filter: snapshot.context.log_filter,
            uptime_secs: snapshot.uptime_secs,
            total_relays: snapshot.total_relays,
            total_errors: snapshot.total_errors,
            total_warnings: snapshot.total_warnings,
            total_uploaded: snapshot.total_uploaded,
            total_downloaded: snapshot.total_downloaded,
            last_event_age_ms: snapshot.last_event_age_ms,
            last_warning_age_ms: snapshot.last_warning_age_ms,
            last_traffic_age_ms: snapshot.last_traffic_age_ms,
        }
    }
}

/// How a service is: it runs if it answers, with the number in its file where one
/// is expected; something is wrong if only one of both holds; a file may have
/// been left behind.
pub open spec fn service_state(
    expects_pid_file: bool,
    pid_file_exists: bool,
    pid_from_file: Option<u32>,
    pid_alive: Option<bool>,
    runtime_pid: Option<u32>,
) -> Seq<char> {
    match runtime_pid {
        Some(pid) => if !expects_pid_file || (pid_from_file == Some(pid) && pid_alive == Some(
            true,
        )) {
            "running"@
        } else {
            "degraded"@
        },
        None => if pid_alive == Some(true) {
            "degraded"@
        } else if expects_pid_file && (pid_file_exists || pid_from_file is Some) {
            "stale"@
        } else {
            "not-running"@
        },
    }
}

/// The number of the process of a service that answers.
pub open spec fn runtime_pid(runtime: Option<&RuntimeStatus>) -> Option<u32> {
    match runtime {
        Some(r) => Some(r.pid),
        None => None,
    }
}

/// How a service is.
pub fn classify_service_state(
    expects_pid_file: bool,
    pid_file_exists: bool,
    pid_from_file: Option<u32>,
    pid_alive: Option<bool>,
    runtime: Option<&RuntimeStatus>,
) -> (r: &'static str)
    ensures
        r@ == service_state(
            expects_pid_file,
            pid_file_exists,
            pid_from_file,
            pid_alive,
            runtime_pid(runtime),
        ),
{
    let alive = match pid_alive {
        Some(a) => a,
        None => false,
    };
    match runtime {
        Some(runtime) => {
            if !expects_pid_file {
                return "running";
            }
            let known = match pid_from_file {
                Some(pid) => pid == runtime.pid,
                None => false,
            };
            return if known && alive {
                "running"
            } else {
                "degraded"
            };
        },
        None => {},
    }
    if alive {
        return "degraded";
    }
    if expects_pid_file && (pid_file_exists || pid_from_file.is_some()) {
        return "stale";
    }
    "not-running"
}

/// Whether a service in a state is reported on.
pub fn should_show_status_state(state: &str, include_not_running: bool) -> (r: bool)
    ensures
        r == (include_not_running || state@ != "not-running"@),
{
    include_not_running || !same(state, "not-running")
}

/// What looking at the file of a process gave.
pub enum PidSight {
    /// No file is expected.
    Unexpected,
    Missing,
    /// The file could not be read.
    Unreadable(Failure),
    /// The number of a process, and whether it runs.
    Read(u32, bool),
}

/// What asking a service gave.
pub enum SocketSight {
    /// No socket is expected.
    Unexpected,
    Missing,
    Failed(Failure),
    Answered(RuntimeStatus),
}

/// How a service is.
#[derive(Debug)]
pub struct ServiceStatus {
    pub role: String,
    pub state: String,
    pub pid_file: Option<String>,
    pub telemetry_sock: Option<String>,
    pub pid_from_file: Option<u32>,
    pub runtime: Option<RuntimeStatus>,
    pub detail: Option<String>,
}

/// What is noted of the file of a process.
pub open spec fn pid_notes(path: Option<Seq<char>>, sight: PidSight) -> Seq<Seq<char>> {
    match (path, sight) {
        (Some(p), PidSight::Missing) => seq!["pid file not found: "@ + p],
        (Some(p), PidSight::Unreadable(e)) => seq![joined(e@, ": "@)],
        (Some(p), PidSight::Read(_, alive)) => if alive {
            seq![]
        } else {
            seq!["stale pid file "@ + p]
        },
        _ => seq![],
    }
}

/// What is noted of a socket.
pub open spec fn socket_notes(path: Option<Seq<char>>, sight: SocketSight) -> Seq<Seq<char>> {
    match (path, sight) {
        (Some(p), SocketSight::Missing) => seq!["telemetry socket not found: "@ + p],
        (Some(p), SocketSight::Failed(e)) => seq![
            "failed to query telemetry socket "@ + p + ": "@ + joined(e@, ": "@),
        ],
        _ => seq![],
    }
}

/// What is noted of two numbers that should be one.
pub open spec fn number_notes(pid: Option<u32>, answered: Option<u32>) -> Seq<Seq<char>> {
    match (pid, answered) {
        (Some(a), Some(b)) => if a != b {
            seq![
                "pid file reports "@ + decimal(a as nat) + ", telemetry reports "@ + decimal(
                    b as nat,
                ),
            ]
        } else {
            seq![]
        },
        _ => seq![],
    }
}

/// The number that was read.
pub open spec fn pid_read(path: Option<Seq<char>>, sight: PidSight) -> Option<u32> {
    match (path, sight) {
        (Some(_), PidSight::Read(pid, _)) => Some(pid),
        _ => None,
    }
}

/// Whether the process with the number that was read runs.
pub open spec fn pid_alive(path: Option<Seq<char>>, sight: PidSight) -> Option<bool> {
    match (path, sight) {
        (Some(_), PidSight::Read(_, alive)) => Some(alive),
        _ => None,
    }
}

/// The service that answered.
pub open spec fn answered(path: Option<Seq<char>>, sight: SocketSight) -> Option<RuntimeStatus> {
    match (path, sight) {
        (Some(_), SocketSight::Answered(r)) => Some(r),
        _ => None,
    }
}

/// The number of the process of a service that answered.
pub open spec fn number_of(runtime: Option<RuntimeStatus>) -> Option<u32> {
    match runtime {
        Some(r) => Some(r.pid),
        None => None,
    }
}

fn push_note(notes: &mut Vec<String>, note: String)
    ensures
        views(final(notes)@) == views(old(notes)@).push(note@),
{
    let ghost before = notes@;
    let ghost text = note@;
    notes.push(note);
    assert(views(notes@) =~= views(before).push(text));
}

/// How a service is, given what looking at its file and asking it gave.
pub fn inspect_status_target(target: StatusTarget, pid: PidSight, socket: SocketSight) -> (r:
    ServiceStatus)
    ensures
        ({
            let t = target@;
            let number = pid_read(t.pid_file, pid);
            let runtime = answered(t.telemetry_socket, socket);
            let other = number_of(runtime);
            let notes = pid_notes(t.pid_file, pid) + socket_notes(t.telemetry_socket, socket)
                + number_notes(number, other);
            &&& r.role@ == match runtime {
                Some(x) => x.command@,
                None => t.label,
            }
            &&& r.state@ == service_state(
                t.pid_file is Some,
                t.pid_file is Some && !(pid is Missing || pid is Unexpected),
                number,
                pid_alive(t.pid_file, pid),
                other,
            )
            &&& opt_view(r.pid_file) == t.pid_file
            &&& opt_view(r.telemetry_sock) == t.telemetry_socket
            &&& r.pid_from_file == number
            &&& r.runtime == runtime
            &&& opt_view(r.detail) == if notes.len() == 0 {
                None
            } else {
                Some(joined(notes, "; "@))
            }
        }),
{
    let ghost t = target@;
    let mut notes: Vec<String> = Vec::new();
    let mut pid_from_file: Option<u32> = None;
    let mut alive: Option<bool> = None;
    let mut exists: bool = false;
    assert(views(notes@) =~= Seq::<Seq<char>>::empty());
    match &target.pid_file {
        Some(path) => match &pid {
            PidSight::Unexpected => {},
            PidSight::Missing => {
                push_note(&mut notes, cat("pid file not found: ", path.as_str()));
            },
            PidSight::Unreadable(e) => {
                exists = true;
                push_note(&mut notes, e.full_text());
            },
            PidSight::Read(number, running) => {
                exists = true;
                pid_from_file = Some(*number);
                alive = Some(*running);
                if !*running {
                    push_note(&mut notes, cat("stale pid file ", path.as_str()));
                }
            },
        },
        None => {},
    }
    let ghost first = views(notes@);
    assert(first =~= pid_notes(t.pid_file, pid));
    let mut runtime: Option<RuntimeStatus> = None;
    match &target.telemetry_socket {
        Some(path) => match socket {
            SocketSight::Unexpected => {},
            SocketSight::Missing => {
                push_note(&mut notes, cat("telemetry socket not found: ", path.as_str()));
            },
            SocketSight::Failed(e) => {
                let head = cat3("failed to query telemetry socket ", path.as_str(), ": ");
                push_note(&mut notes, cat(head.as_str(), e.full_text().as_str()));
            },
            SocketSight::Answered(r) => {
                runtime = Some(r);
            },
        },
        None => {},
    }
    let ghost second = views(notes@);
    assert(second =~= first + socket_notes(t.telemetry_socket, socket));
    match (pid_from_file, &runtime) {
        (Some(number), Some(r)) => {
            if number != r.pid {
                let head = cat3(
                    "pid file reports ",
                    to_decimal(number as u64).as_str(),
                    ", telemetry reports ",
                );
                push_note(&mut notes, cat(head.as_str(), to_decimal(r.pid as u64).as_str()));
            }
        },
        _ => {},
    }
    let role = match &runtime {
        Some(r) => r.command.clone(),
        None => target.label.clone(),
    };
    let state = match &runtime {
        Some(r) => classify_service_state(
            target.pid_file.is_some(),
            exists,
            pid_from_file,
            alive,
            Some(r),
        ),
        None => classify_service_state(
            target.pid_file.is_some(),
            exists,
            pid_from_file,
            alive,
            None,
        ),
    };
    proof {
        assert(views(notes@) =~= second + number_notes(pid_from_file, number_of(runtime)));
        assert(views(notes@).skip(0) =~= views(notes@));
        assert(views(notes@).len() == notes@.len());
    }
    let detail = if notes.len() == 0 {
        None
    } else {
        Some(join(&notes, 0, "; "))
    };
    ServiceStatus {
        role,
        state: state.to_owned(),
        pid_file: target.pid_file,
        telemetry_sock: target.telemetry_socket,
        pid_from_file,
        runtime,
        detail,
    }
}

// ---------------------------------------------------------------------------
// The report

/// A number of seconds as hours, minutes and seconds.
pub open spec fn duration_text(secs: u64) -> Seq<char> {
    let minutes = secs % 3600 / 60;
    if secs / 3600 > 0 {
        decimal((secs / 3600) as nat) + "h"@ + two_digits(minutes as nat) + "m"@ + two_digits(
            (secs % 60) as nat,
        ) + "s"@
    } else if minutes > 0 {
        decimal(minutes as nat) + "m"@ + two_digits((secs % 60) as nat) + "s"@
    } else {
        decimal((secs % 60) as nat) + "s"@
    }
}

/// A number of seconds as hours, minutes and seconds.
pub fn format_duration(total_secs: u64) -> (r: String)
    ensures
        r@ == duration_text(total_secs),
{
    let hours: u64 = total_secs / 3600;
    let minutes: u64 = total_secs % 3600 / 60;
    let seconds: u64 = total_secs % 60;
    if hours > 0 {
        let head = cat3(to_decimal(hours).as_str(), "h", to_two_digits(minutes).as_str());
        cat(cat3(head.as_str(), "m", to_two_digits(seconds).as_str()).as_str(), "s")
    } else if minutes > 0 {
        let head = cat3(to_decimal(minutes).as_str(), "m", to_two_digits(seconds).as_str());
        cat(head.as_str(), "s")
    } else {
        cat(to_decimal(seconds).as_str(), "s")
    }
}

/// A line for something that may be missing.
pub open spec fn line_for(label: Seq<char>, value: Option<Seq<char>>) -> Seq<Seq<char>> {
    match value {
        Some(v) => seq![label + v],
        None => seq![],
    }
}

/// What is reported of a service that answers.
pub open spec fn runtime_lines(r: RuntimeStatus) -> Seq<Seq<char>> {
    seq!["  mode: "@ + r.mode@, "  traffic_state: "@ + r.traffic_state.name()] + line_for(
        "  listen: "@,
        opt_view(r.listen),
    ) + line_for("  upstream: "@, opt_view(r.upstream)) + line_for(
        "  path: "@,
        opt_view(r.path),
    ) + seq![
        "  uptime: "@ + duration_text(r.uptime_secs),
        "  traffic: up "@ + bytes_text(r.total_uploaded) + " down "@ + bytes_text(
            r.total_downloaded,
        ),
        "  health: relays "@ + decimal(r.total_relays as nat) + " warnings "@ + decimal(
            r.total_warnings as nat,
        ) + " errors "@ + decimal(r.total_errors as nat),
        "  log: "@ + r.log_file@ + " ("@ + r.log_filter@ + ")"@,
    ]
}

/// What is reported of a service.
pub open spec fn service_lines(s: ServiceStatus) -> Seq<Seq<char>> {
    let pid = match s.runtime {
        Some(r) => Some(r.pid),
        None => s.pid_from_file,
    };
    let number = match pid {
        Some(n) => Some(decimal(n as nat)),
        None => None,
    };
    let middle = match s.runtime {
        Some(r) => runtime_lines(r),
        None => seq![],
    };
    seq![s.role@ + ": "@ + s.state@] + line_for("  pid: "@, number) + middle + line_for(
        "  pid_file: "@,
        opt_view(s.pid_file),
    ) + line_for("  telemetry_sock: "@, opt_view(s.telemetry_sock)) + line_for(
        "  detail: "@,
        opt_view(s.detail),
    )
}

/// What is reported of services, with an empty line between them.
pub open spec fn all_lines(services: Seq<ServiceStatus>) -> Seq<Seq<char>>
    decreases services.len(),
{
    if services.len() == 0 {
        seq![]
    } else if services.len() == 1 {
        service_lines(services.last())
    } else {
        all_lines(services.drop_last()) + seq![""@] + service_lines(services.last())
    }
}

/// A report on services.
pub open spec fn report_lines(services: Seq<ServiceStatus>) -> Seq<Seq<char>> {
    if services.len() == 0 {
        seq!["no running services"@]
    } else {
        all_lines(services)
    }
}

fn add_line(out: &mut Vec<String>, label: &str, value: &Option<String>)
    ensures
        views(final(out)@) == views(old(out)@) + line_for(label@, opt_view(*value)),
{
    let ghost before = views(out@);
    match value {
        Some(v) => {
            push_note(out, cat(label, v.as_str()));
        },
        None => {},
    }
    assert(views(out@) =~= before + line_for(label@, opt_view(*value)));
}

fn add_runtime(out: &mut Vec<String>, r: &RuntimeStatus)
    ensures
        views(final(out)@) == views(old(out)@) + runtime_lines(*r),
{
    let ghost before = views(out@);
    push_note(out, cat("  mode: ", r.mode.as_str()));
    push_note(out, cat("  traffic_state: ", r.traffic_state.as_str()));
    add_line(out, "  listen: ", &r.listen);
    add_line(out, "  upstream: ", &r.upstream);
    add_line(out, "  path: ", &r.path);
    push_note(out, cat("  uptime: ", format_duration(r.uptime_secs).as_str()));
    let up = cat("  traffic: up ", format_bytes(r.total_uploaded).as_str());
    push_note(out, cat3(up.as_str(), " down ", format_bytes(r.total_downloaded).as_str()));
    let relays = cat("  health: relays ", to_decimal(r.total_relays).as_str());
    let warnings = cat3(relays.as_str(), " warnings ", to_decimal(r.total_warnings).as_str());
    push_note(out, cat3(warnings.as_str(), " errors ", to_decimal(r.total_errors).as_str()));
    let log = cat3(cat("  log: ", r.log_file.as_str()).as_str(), " (", r.log_filter.as_str());
    push_note(out, cat(log.as_str(), ")"));
    assert(views(out@) =~= before + runtime_lines(*r));
}

fn add_service(out: &mut Vec<String>, s: &ServiceStatus)
    ensures
        views(final(out)@) == views(old(out)@) + service_lines(*s),
{
    let ghost before = views(out@);
    push_note(out, cat3(s.role.as_str(), ": ", s.state.as_str()));
    let pid = match &s.runtime {
        Some(r) => Some(r.pid),
        None => s.pid_from_file,
    };
    let number = match pid {
        Some(n) => Some(to_decimal(n as u64)),
        None => None,
    };
    add_line(out, "  pid: ", &number);
    match &s.runtime {
        Some(r) => {
            add_runtime(out, r);
        },
        None => {},
    }
    add_line(out, "  pid_file: ", &s.pid_file);
    add_line(out, "  telemetry_sock: ", &s.telemetry_sock);
    add_line(out, "  detail: ", &s.detail);
    assert(views(out@) =~= before + service_lines(*s));
}

/// The lines of a report on services.
pub fn print_status_report(services: &Vec<ServiceStatus>) -> (r: Vec<String>)
    ensures
        views(r@) == report_lines(services@),
{
    let mut out: Vec<String> = Vec::new();
    assert(views(out@) =~= Seq::<Seq<char>>::empty());
    if services.len() == 0 {
        push_note(&mut out, "no running services".to_owned());
        assert(views(out@) =~= seq!["no running services"@]);
        return out;
    }
    let mut i: usize = 0;
    assert(services@.take(0) =~= Seq::<ServiceStatus>::empty());
    while i < services.len()
        invariant
            i <= services.len(),
            views(out@) == all_lines(services@.take(i as int)),
        decreases services.len() - i,
    {
        proof {
            assert(services@.take(i + 1).drop_last() =~= services@.take(i as int));
            assert(services@.take(i + 1).last() == services@[i as int]);
        }
        let ghost before = views(out@);
        if i > 0 {
            push_note(&mut out, "".to_owned());
        }
        add_service(&mut out, &services[i]);
        proof {
            if i > 0 {
                assert(views(out@) =~= before + seq![""@] + service_lines(services@[i as int]));
            } else {
                assert(views(out@) =~= service_lines(services@[i as int]));
            }
        }
        i = i + 1;
    }
    assert(services@.take(i as int) =~= services@);
    out
}

// ---------------------------------------------------------------------------
// Files with the number of a process

/// The path of the file with the number of the process of a kind of service.
pub fn resolve_pid_file_for_role(
    log_file: &str,
    configured_pid_file: Option<&str>,
    role: &str,
    place: &Place,
) -> (r: Result<String, Failure>)
    ensures
        path_view(r) == place_of(str_view(configured_pid_file), role@, "pid"@, *place),
{
    place_for(configured_pid_file, log_file, role, "pid", place)
}

fn as_slice(s: &Option<String>) -> (r: Option<&str>)
    ensures
        str_view(r) == opt_view(*s),
{
    match s {
        Some(t) => Some(t.as_str()),
        None => None,
    }
}

/// The path of the file that the number of the process is written to, if one is
/// wanted.
pub fn wanted_pid_file(cli: &Cli, log_file: &str, place: &Place) -> (r: Result<
    Option<String>,
    Failure,
>)
    ensures
        match role_of(cli.command) {
            Some(role) => if cli.daemon || cli.pid_file is Some {
                match (r, place_of(opt_view(cli.pid_file), role.name(), "pid"@, *place)) {
                    (Ok(Some(p)), Ok(q)) => p@ == q,
                    (Err(e), Err(f)) => e@ == f,
                    _ => false,
                }
            } else {
                r == Ok::<Option<String>, Failure>(None)
            },
            None => r == Ok::<Option<String>, Failure>(None),
        },
{
    match command_role(&cli.command) {
        Some(role) => {
            if !cli.daemon && cli.pid_file.is_none() {
                return Ok(None);
            }
            match resolve_pid_file_for_role(log_file, as_slice(&cli.pid_file), role, place) {
                Ok(p) => Ok(Some(p)),
                Err(e) => Err(e),
            }
        },
        None => Ok(None),
    }
}

/// Whether a file with the number of a process may be replaced.
pub fn maybe_create_pid_file(role: &str, path: &str, sight: &PidSight) -> (r: Result<(), Failure>)
    ensures
        match (r, sight) {
            (Err(e), PidSight::Read(pid, alive)) => *alive && e@ == seq![
                "another "@ + role@ + " daemon is already running with pid "@ + decimal(
                    *pid as nat,
                ) + " (pid file: "@ + path@ + ")"@,
            ],
            (Ok(_), PidSight::Read(_, alive)) => !*alive,
            (Ok(_), _) => true,
            (Err(_), _) => false,
        },
{
    match sight {
        PidSight::Read(pid, alive) => {
            if *alive {
                let head = cat3("another ", role, " daemon is already running with pid ");
                let middle = cat3(
                    head.as_str(),
                    to_decimal(*pid as u64).as_str(),
                    " (pid file: ",
                );
                return Err(Failure::new(cat3(middle.as_str(), path, ")").as_str()));
            }
            Ok(())
        },
        _ => Ok(()),
    }
}

/// The number in a file.
pub open spec fn pid_in(path: Seq<char>, raw: Seq<char>) -> Result<int, Seq<Seq<char>>> {
    match unsigned_value(trimmed(raw), u32::MAX as int) {
        Some(n) => Ok(n),
        None => Err(
            seq!["invalid pid in "@ + path, unsigned_fault(trimmed(raw), u32::MAX as int)],
        ),
    }
}

/// The number in a file, given what it holds.
pub fn read_pid_file(path: &str, raw: &str) -> (r: Result<u32, Failure>)
    ensures
        match (r, pid_in(path@, raw@)) {
            (Ok(n), Ok(m)) => n == m,
            (Err(e), Err(f)) => e@ == f,
            _ => false,
        },
{
    let text = trim(raw);
    match parse_unsigned(text.as_str(), u32::MAX as u64) {
        Some(n) => Ok(n as u32),
        None => {
            let cause = Failure::new(explain_unsigned(text.as_str(), u32::MAX as u64).as_str());
            let e = cause.context(cat("invalid pid in ", path).as_str());
            assert(e@ =~= seq![
                "invalid pid in "@ + path@,
                unsigned_fault(trimmed(raw@), u32::MAX as int),
            ]);
            Err(e)
        },
    }
}

/// What a file with the number of a process holds.
pub open spec fn pid_file_text(pid: u32) -> Seq<char> {
    decimal(pid as nat) + "\n"@
}

/// What a file with the number of a process holds.
pub fn write_pid_file(pid: u32) -> (r: String)
    ensures
        r@ == pid_file_text(pid),
{
    cat(to_decimal(pid as u64).as_str(), "\n")
}

/// The number that is written to a file is the one that is read from it.
pub proof fn numbers_read_back(path: Seq<char>, pid: u32)
    ensures
        pid_in(path, pid_file_text(pid)) == Ok::<int, Seq<Seq<char>>>(pid as int),
{
    reveal_strlit("\n");
    let d = decimal(pid as nat);
    decimal_is_digits(pid as nat);
    decimal_reads_back(pid as nat, u32::MAX as int);
    assert(is_digit(d[0]) && is_digit(d.last()));
    assert(pid_file_text(pid) =~= d.push('\n'));
    assert(is_whitespace('\n'));
    assert(d.push('\n').drop_last() =~= d);
    lemma_trimmed_same(d);
}

/// What asking the system for a process gave.
pub enum Probe {
    Alive,
    NoSuchProcess,
    NotPermitted,
    Failed(Failure),
}

/// Whether a process runs. One that may not be asked runs too.
pub fn process_exists(pid: u32, probe: Probe) -> (r: Result<bool, Failure>)
    ensures
        match probe {
            Probe::Alive | Probe::NotPermitted => r == Ok::<bool, Failure>(true),
            Probe::NoSuchProcess => r == Ok::<bool, Failure>(false),
            Probe::Failed(e) => r matches Err(f) && f@ == seq![
                "failed to inspect process "@ + signed_decimal(signed_pid(pid) as int),
            ] + e@,
        },
{
    match probe {
        Probe::Alive => Ok(true),
        Probe::NotPermitted => Ok(true),
        Probe::NoSuchProcess => Ok(false),
        Probe::Failed(e) => {
            let text = cat(
                "failed to inspect process ",
                to_signed_decimal(as_signed(pid) as i64).as_str(),
            );
            Err(e.context(text.as_str()))
        },
    }
}

/// The number that the system knows a process by.
pub open spec fn signed_pid(pid: u32) -> i32 {
    if pid > i32::MAX {
        (pid - 0x100000000) as i32
    } else {
        pid as i32
    }
}

/// The number that the system knows a process by.
pub fn as_signed(pid: u32) -> (r: i32)
    ensures
        r == signed_pid(pid),
{
    if pid > 0x7fffffff {
        (pid as i64 - 0x100000000) as i32
    } else {
        pid as i32
    }
}

// ---------------------------------------------------------------------------
// Which service is meant

/// How a command is called for a kind of service.
pub open spec fn call(command: Seq<char>, role: ServiceRole) -> Seq<char> {
    "`"@ + command + " "@ + role.name() + "`"@
}

fn call_for(command: &str, role: ServiceRole) -> (r: String)
    ensures
        r@ == call(command@, role),
{
    cat(cat3(cat("`", command).as_str(), " ", role.as_str()).as_str(), "`")
}

/// How a command is called for the first four kinds of service.
pub open spec fn calls(command: Seq<char>) -> Seq<char> {
    call(command, ServiceRole::Client) + ", "@ + call(command, ServiceRole::Server) + ", "@ + call(
        command,
        ServiceRole::Tun,
    ) + ", "@ + call(command, ServiceRole::WgClient) + ", "@
}

fn calls_for(command: &str) -> (r: String)
    ensures
        r@ == calls(command@),
{
    let client = call_for(command, ServiceRole::Client);
    let server = call_for(command, ServiceRole::Server);
    let tun = call_for(command, ServiceRole::Tun);
    let wg = call_for(command, ServiceRole::WgClient);
    let head = cat3(cat3(client.as_str(), ", ", server.as_str()).as_str(), ", ", tun.as_str());
    cat(cat3(head.as_str(), ", ", wg.as_str()).as_str(), ", ")
}

/// What is said where no or many files are there.
pub open spec fn unclear(problem: Seq<char>, command: Seq<char>) -> Seq<char> {
    problem + "; pass "@ + calls(command) + call(command, ServiceRole::WgServer)
        + ", or `--pid-file`"@
}

fn unclear_text(problem: &str, command: &str) -> (r: String)
    ensures
        r@ == unclear(problem@, command@),
{
    let head = cat3(problem, "; pass ", calls_for(command).as_str());
    let last = call_for(command, ServiceRole::WgServer);
    cat3(head.as_str(), last.as_str(), ", or `--pid-file`")
}

/// The file with the number of the process that a command is about.
pub open spec fn control_file(
    command: Seq<char>,
    configured: Option<Seq<char>>,
    role: Option<ServiceRole>,
    present: Present,
    place: Place,
) -> Result<Seq<char>, Seq<Seq<char>>> {
    match (configured, role) {
        (Some(path), _) => whole_path(path, place),
        (None, Some(role)) => sidecar(role.name(), "pid"@, place),
        (None, None) => match sidecar("client"@, "pid"@, place) {
            Err(e) => Err(e),
            Ok(_) => if present.has_none() {
                Err(seq![unclear("no pid file found"@, command)])
            } else if exists|role: ServiceRole| present.has_only(role) {
                sidecar((choose|role: ServiceRole| present.has_only(role)).name(), "pid"@, place)
            } else {
                Err(seq![unclear("multiple pid files exist"@, command)])
            },
        },
    }
}

/// The file with the number of the process that a command is about: the one that
/// was given, that of the kind of service that was named, or the only one that
/// is there.
pub fn resolve_pid_file_for_control(
    command: &str,
    log_file: &str,
    configured_pid_file: Option<&str>,
    role: Option<ServiceRole>,
    present: Present,
    place: &Place,
) -> (r: Result<String, Failure>)
    ensures
        path_view(r) == control_file(
            command@,
            str_view(configured_pid_file),
            role,
            present,
            *place,
        ),
{
    match configured_pid_file {
        Some(path) => {
            return absolute_path(path, place);
        },
        None => {},
    }
    match role {
        Some(role) => {
            return default_pid_path(log_file, role.as_str(), place);
        },
        None => {},
    }
    match default_pid_path(log_file, "client", place) {
        Ok(_) => {},
        Err(e) => {
            return Err(e);
        },
    }
    match present.find() {
        Found::Zero => Err(Failure::new(unclear_text("no pid file found", command).as_str())),
        Found::One(role) => {
            proof {
                assert(present.has_only(role));
                let chosen = choose|other: ServiceRole| present.has_only(other);
                assert(present.has_only(chosen));
                assert(present.has(chosen));
                assert(chosen == role);
                assert(!present.has_none());
            }
            default_pid_path(log_file, role.as_str(), place)
        },
        Found::Many => Err(
            Failure::new(unclear_text("multiple pid files exist", command).as_str()),
        ),
    }
}

/// The file with the number of the process that is to end.
pub fn resolve_stop_pid_file(
    log_file: &str,
    configured_pid_file: Option<&str>,
    role: Option<ServiceRole>,
    present: Present,
    place: &Place,
) -> (r: Result<String, Failure>)
    ensures
        path_view(r) == control_file(
            "stop"@,
            str_view(configured_pid_file),
            role,
            present,
            *place,
        ),
{
    resolve_pid_file_for_control("stop", log_file, configured_pid_file, role, present, place)
}

/// Whether a file name is one for a kind of service.
pub open spec fn names_role(name: Seq<char>, role: ServiceRole) -> bool {
    name == role.name() + ".pid"@ || finishes_with(name, "."@ + role.name() + ".pid"@)
}

/// The kind of service that a file name is for.
pub open spec fn role_in_name(name: Seq<char>) -> Option<ServiceRole> {
    if names_role(name, ServiceRole::Client) {
        Some(ServiceRole::Client)
    } else if names_role(name, ServiceRole::Server) {
        Some(ServiceRole::Server)
    } else if names_role(name, ServiceRole::Tun) {
        Some(ServiceRole::Tun)
    } else if names_role(name, ServiceRole::WgClient) {
        Some(ServiceRole::WgClient)
    } else if names_role(name, ServiceRole::WgServer) {
        Some(ServiceRole::WgServer)
    } else {
        None
    }
}

fn is_name_for(name: &str, role: ServiceRole) -> (r: bool)
    ensures
        r == names_role(name@, role),
{
    let plain = cat(role.as_str(), ".pid");
    let tail = cat3(".", role.as_str(), ".pid");
    same(name, plain.as_str()) || ends_with(name, tail.as_str())
}

/// The kind of service that a file with the number of a process is for.
pub open spec fn role_at(path: Seq<char>) -> Option<ServiceRole> {
    match file_name_of(path) {
        Some(name) => role_in_name(name),
        None => None,
    }
}

/// The kind of service that a file with the number of a process is for.
pub fn role_from_pid_file(path: &str) -> (r: Option<ServiceRole>)
    ensures
        r == role_at(path@),
{
    let name = match file_name(path) {
        Some(name) => name,
        None => {
            return None;
        },
    };
    if is_name_for(name.as_str(), ServiceRole::Client) {
        Some(ServiceRole::Client)
    } else if is_name_for(name.as_str(), ServiceRole::Server) {
        Some(ServiceRole::Server)
    } else if is_name_for(name.as_str(), ServiceRole::Tun) {
        Some(ServiceRole::Tun)
    } else if is_name_for(name.as_str(), ServiceRole::WgClient) {
        Some(ServiceRole::WgClient)
    } else if is_name_for(name.as_str(), ServiceRole::WgServer) {
        Some(ServiceRole::WgServer)
    } else {
        None
    }
}

/// The kind of service that a command is about.
pub open spec fn control_role(
    command: Seq<char>,
    configured: Option<Seq<char>>,
    role: Option<ServiceRole>,
    present: Present,
    place: Place,
) -> Result<ServiceRole, Seq<Seq<char>>> {
    match role {
        Some(role) => Ok(role),
        None => if configured is Some {
            Err(seq![command + " requires a role when --pid-file is set"@])
        } else {
            match control_file(command, None, None, present, place) {
                Err(e) => Err(e),
                Ok(path) => match role_at(path) {
                    Some(role) => Ok(role),
                    None => Err(
                        seq![
                            "failed to infer daemon role from pid file "@ + path + "; pass "@
                                + calls(command) + "or "@ + call(command, ServiceRole::WgServer),
                        ],
                    ),
                },
            }
        },
    }
}

/// Whether a result is the expected one.
pub open spec fn is_role(r: Result<ServiceRole, Failure>, expected: Result<
    ServiceRole,
    Seq<Seq<char>>,
>) -> bool {
    match (r, expected) {
        (Ok(a), Ok(b)) => a == b,
        (Err(e), Err(f)) => e@ == f,
        _ => false,
    }
}

/// The kind of service that a command is about: the one that was named, or the
/// one whose file is there.
pub fn resolve_control_role(
    command: &str,
    log_file: &str,
    configured_pid_file: Option<&str>,
    role: Option<ServiceRole>,
    present: Present,
    place: &Place,
) -> (r: Result<ServiceRole, Failure>)
    ensures
        is_role(
            r,
            control_role(command@, str_view(configured_pid_file), role, present, *place),
        ),
{
    match role {
        Some(role) => {
            return Ok(role);
        },
        None => {},
    }
    if configured_pid_file.is_some() {
        return Err(
            Failure::new(cat(command, " requires a role when --pid-file is set").as_str()),
        );
    }
    let path = match resolve_pid_file_for_control(command, log_file, None, None, present, place) {
        Ok(p) => p,
        Err(e) => {
            return Err(e);
        },
    };
    match role_from_pid_file(path.as_str()) {
        Some(role) => Ok(role),
        None => {
            let head = cat3("failed to infer daemon role from pid file ", path.as_str(), "; pass ");
            let middle = cat3(head.as_str(), calls_for(command).as_str(), "or ");
            let last = call_for(command, ServiceRole::WgServer);
            Err(Failure::new(cat(middle.as_str(), last.as_str()).as_str()))
        },
    }
}

/// The kind of service that is to be started again.
pub fn resolve_reload_role(
    log_file: &str,
    configured_pid_file: Option<&str>,
    role: Option<ServiceRole>,
    present: Present,
    place: &Place,
) -> (r: Result<ServiceRole, Failure>)
    ensures
        is_role(
            r,
            control_role("reload"@, str_view(configured_pid_file), role, present, *place),
        ),
{
    resolve_control_role("reload", log_file, configured_pid_file, role, present, place)
}

// ---------------------------------------------------------------------------
// Ending a service

/// Where the end of a service stands.
pub enum StopStage {
    /// Its number is being read.
    Start,
    /// It is being looked whether it runs.
    Looking(u32),
    /// It is being asked to end.
    Asking(u32),
    /// It was asked to end, and has until then.
    Waiting(u32, u64),
    Done,
}

/// What happens while a service ends.
pub enum StopEvent {
    Pid(Result<u32, Failure>),
    Alive(Result<bool, Failure>),
    Asked(Result<(), Failure>),
}

/// What is to be done to end a service.
pub enum StopMove {
    Look(u32),
    Ask(u32),
    /// Sleep so many milliseconds, then look again.
    Sleep(u32, u64),
    /// Remove the file and say so.
    Remove(String),
    Fail(Failure),
}

/// What is said of a service that did not run any more.
pub open spec fn not_running_text(path: Seq<char>) -> Seq<char> {
    "runnel daemon is not running (removed stale pid file "@ + path + ")"@
}

/// What is said of a service that ended.
pub open spec fn stopped_text(pid: u32, path: Seq<char>) -> Seq<char> {
    "runnel daemon stopped pid="@ + decimal(pid as nat) + " pid_file="@ + path
}

/// What is said of a service that did not end in time.
pub open spec fn timeout_text(pid: u32, wait_secs: u64) -> Seq<char> {
    "timed out waiting "@ + decimal(wait_secs as nat) + "s for pid "@ + decimal(pid as nat)
        + " to exit; try again or stop it manually"@
}

/// Ends a service: it is asked to end if it runs, and looked at again until it
/// does not or its time is over.
pub fn stop_daemon_process(
    stage: StopStage,
    event: StopEvent,
    path: &str,
    wait_secs: u64,
    now: u64,
) -> (r: (StopStage, StopMove))
    requires
        match stage {
            StopStage::Start => event is Pid,
            StopStage::Looking(_) => event is Alive,
            StopStage::Asking(_) => event is Asked,
            StopStage::Waiting(_, _) => event is Alive,
            StopStage::Done => false,
        },
        now + 1000 * wait_secs <= u64::MAX,
    ensures
        match (stage, event) {
            (StopStage::Start, StopEvent::Pid(Ok(pid))) => r == (
                StopStage::Looking(pid),
                StopMove::Look(pid),
            ),
            (StopStage::Looking(pid), StopEvent::Alive(Ok(alive))) => if alive {
                r == (StopStage::Asking(pid), StopMove::Ask(pid))
            } else {
                r.0 is Done && (r.1 matches StopMove::Remove(t) && t@ == not_running_text(path@))
            },
            (StopStage::Asking(pid), StopEvent::Asked(Ok(_))) => r == (
                StopStage::Waiting(pid, (now + 1000 * wait_secs) as u64),
                StopMove::Look(pid),
            ),
            (StopStage::Waiting(pid, deadline), StopEvent::Alive(Ok(alive))) => if !alive {
                r.0 is Done && (r.1 matches StopMove::Remove(t) && t@ == stopped_text(pid, path@))
            } else if now >= deadline {
                r.0 is Done && (r.1 matches StopMove::Fail(e) && e@ == seq![
                    timeout_text(pid, wait_secs),
                ])
            } else {
                r == (stage, StopMove::Sleep(pid, 100))
            },
            (_, StopEvent::Pid(Err(e))) => r == (StopStage::Done, StopMove::Fail(e)),
            (_, StopEvent::Alive(Err(e))) => r == (StopStage::Done, StopMove::Fail(e)),
            (_, StopEvent::Asked(Err(e))) => r == (StopStage::Done, StopMove::Fail(e)),
            _ => false,
        },
{
    match event {
        StopEvent::Pid(Err(e)) => {
            return (StopStage::Done, StopMove::Fail(e));
        },
        StopEvent::Alive(Err(e)) => {
            return (StopStage::Done, StopMove::Fail(e));
        },
        StopEvent::Asked(Err(e)) => {
            return (StopStage::Done, StopMove::Fail(e));
        },
        StopEvent::Pid(Ok(pid)) => (StopStage::Looking(pid), StopMove::Look(pid)),
        StopEvent::Asked(Ok(_)) => match stage {
            StopStage::Asking(pid) => (
                StopStage::Waiting(pid, now + 1000 * wait_secs),
                StopMove::Look(pid),
            ),
            other => (other, StopMove::Remove(String::new())),
        },
        StopEvent::Alive(Ok(alive)) => match stage {
            StopStage::Looking(pid) => {
                if alive {
                    (StopStage::Asking(pid), StopMove::Ask(pid))
                } else {
                    let text = cat3(
                        "runnel daemon is not running (removed stale pid file ",
                        path,
                        ")",
                    );
                    (StopStage::Done, StopMove::Remove(text))
                }
            },
            StopStage::Waiting(pid, deadline) => {
                let number = to_decimal(pid as u64);
                if !alive {
                    let head = cat("runnel daemon stopped pid=", number.as_str());
                    (
                        StopStage::Done,
                        StopMove::Remove(cat3(head.as_str(), " pid_file=", path)),
                    )
                } else if now >= deadline {
                    let head = cat3(
                        "timed out waiting ",
                        to_decimal(wait_secs).as_str(),
                        "s for pid ",
                    );
                    let text = cat3(
                        head.as_str(),
                        number.as_str(),
                        " to exit; try again or stop it manually",
                    );
                    (StopStage::Done, StopMove::Fail(Failure::new(text.as_str())))
                } else {
                    (StopStage::Waiting(pid, deadline), StopMove::Sleep(pid, 100))
                }
            },
            other => (other, StopMove::Remove(String::new())),
        },
    }
}

// ---------------------------------------------------------------------------
// Starting a service again

/// A pair of arguments for something that may be missing.
pub open spec fn option_args(name: Seq<char>, value: Option<Seq<char>>) -> Seq<Seq<char>> {
    match value {
        Some(v) => seq![name, v],
        None => seq![],
    }
}

/// The arguments that a new start takes over.
pub open spec fn base_args(cli: Cli, config: Option<Seq<char>>, log_file: Seq<char>) -> Seq<
    Seq<char>,
> {
    seq!["--log"@, cli.log@, "--log-file"@, log_file, "--log-timezone"@, cli.log_timezone@]
        + option_args("--telemetry-sock"@, opt_view(cli.telemetry_sock)) + option_args(
        "--pid-file"@,
        opt_view(cli.pid_file),
    ) + option_args("--config"@, config)
}

fn add_option(args: &mut Vec<String>, name: &str, value: Option<&str>)
    ensures
        views(final(args)@) == views(old(args)@) + option_args(name@, str_view(value)),
{
    let ghost before = views(args@);
    match value {
        Some(v) => {
            push_note(args, name.to_owned());
            push_note(args, v.to_owned());
        },
        None => {},
    }
    assert(views(args@) =~= before + option_args(name@, str_view(value)));
}

fn reload_base_args(cli: &Cli, config_path: Option<&str>, log_file: &str) -> (r: Vec<String>)
    ensures
        views(r@) == base_args(*cli, str_view(config_path), log_file@),
{
    let mut args: Vec<String> = Vec::new();
    add_option(&mut args, "--log", Some(cli.log.as_str()));
    add_option(&mut args, "--log-file", Some(log_file));
    add_option(&mut args, "--log-timezone", Some(cli.log_timezone.as_str()));
    assert(views(args@) =~= seq![
        "--log"@,
        cli.log@,
        "--log-file"@,
        log_file@,
        "--log-timezone"@,
        cli.log_timezone@,
    ]);
    add_option(&mut args, "--telemetry-sock", as_slice(&cli.telemetry_sock));
    add_option(&mut args, "--pid-file", as_slice(&cli.pid_file));
    add_option(&mut args, "--config", config_path);
    args
}

/// The arguments of a new start.
pub open spec fn start_args(
    cli: Cli,
    config: Option<Seq<char>>,
    role: ServiceRole,
    log_file: Seq<char>,
) -> Seq<Seq<char>> {
    base_args(cli, config, log_file) + seq!["--daemon"@, role.name()]
}

/// The arguments of a look at the settings of a new start.
pub open spec fn check_args(
    cli: Cli,
    config: Option<Seq<char>>,
    role: ServiceRole,
    log_file: Seq<char>,
) -> Seq<Seq<char>> {
    base_args(cli, config, log_file) + seq!["--check-config-only"@, role.name()]
}

/// The arguments of a new start.
pub fn reload_start_args(cli: &Cli, config_path: Option<&str>, role: ServiceRole, log_file: &str)
    -> (r: Vec<String>)
    ensures
        views(r@) == start_args(*cli, str_view(config_path), role, log_file@),
{
    let mut args = reload_base_args(cli, config_path, log_file);
    add_option(&mut args, "--daemon", Some(role.as_str()));
    args
}

/// The arguments of a look at the settings of a new start.
pub fn reload_check_args(cli: &Cli, config_path: Option<&str>, role: ServiceRole, log_file: &str)
    -> (r: Vec<String>)
    ensures
        views(r@) == check_args(*cli, str_view(config_path), role, log_file@),
{
    let mut args = reload_base_args(cli, config_path, log_file);
    add_option(&mut args, "--check-config-only", Some(role.as_str()));
    args
}

/// The log of the service that a command is about.
pub open spec fn control_log(cli: Cli, role: ServiceRole, use_role_default_log_files: bool) -> Seq<
    char,
> {
    if use_role_default_log_files && cli.pid_file is None {
        role_log(role.name())
    } else {
        cli.log_file@
    }
}

fn log_for(cli: &Cli, role: ServiceRole, use_role_default_log_files: bool) -> (r: String)
    ensures
        r@ == control_log(*cli, role, use_role_default_log_files),
{
    if use_role_default_log_files && cli.pid_file.is_none() {
        default_log_file_for_role(role.as_str())
    } else {
        cli.log_file.clone()
    }
}

/// How a service is started again: its new settings are looked at, then it ends,
/// then it starts.
#[derive(Debug)]
pub struct ReloadPlan {
    pub role: ServiceRole,
    pub log_file: String,
    pub check: Vec<String>,
    pub start: Vec<String>,
}

/// How a service is started again.
pub fn reload_daemon_process(
    cli: &Cli,
    config_path: Option<&str>,
    args: &ReloadArgs,
    use_role_default_log_files: bool,
    present: Present,
    place: &Place,
) -> (r: Result<ReloadPlan, Failure>)
    ensures
        match (r, control_role("reload"@, opt_view(cli.pid_file), args.role, present, *place)) {
            (Ok(p), Ok(role)) => {
                let log_file = control_log(*cli, role, use_role_default_log_files);
                &&& p.role == role
                &&& p.log_file@ == log_file
                &&& views(p.check@) == check_args(*cli, str_view(config_path), role, log_file)
                &&& views(p.start@) == start_args(*cli, str_view(config_path), role, log_file)
            },
            (Err(e), Err(f)) => e@ == f,
            _ => false,
        },
{
    let role = match resolve_reload_role(
        cli.log_file.as_str(),
        as_slice(&cli.pid_file),
        args.role,
        present,
        place,
    ) {
        Ok(role) => role,
        Err(e) => {
            return Err(e);
        },
    };
    let log_file = log_for(cli, role, use_role_default_log_files);
    let check = reload_check_args(cli, config_path, role, log_file.as_str());
    let start = reload_start_args(cli, config_path, role, log_file.as_str());
    Ok(ReloadPlan { role, log_file, check, start })
}

/// The failure of a look at new settings. The service still runs.
pub fn reload_check_failure(status: &str) -> (r: Failure)
    ensures
        r@ == seq![
            "reloaded daemon configuration check exited with "@ + status@
                + "; old daemon was not stopped"@,
        ],
{
    Failure::new(
        cat3(
            "reloaded daemon configuration check exited with ",
            status,
            "; old daemon was not stopped",
        ).as_str(),
    )
}

/// The failure of a new start.
pub fn reload_start_failure(status: &str) -> (r: Failure)
    ensures
        r@ == seq!["reloaded daemon startup command exited with "@ + status@],
{
    Failure::new(cat("reloaded daemon startup command exited with ", status).as_str())
}

/// What is said of a service that was started again.
pub fn reloaded_text(role: ServiceRole) -> (r: String)
    ensures
        r@ == "runnel daemon reloaded role="@ + role.name(),
{
    cat("runnel daemon reloaded role=", role.as_str())
}

// ---------------------------------------------------------------------------
// Switching traffic

/// The service whose traffic is to be switched, and its socket.
pub fn switch_daemon_process(
    cli: &Cli,
    args: &SwitchArgs,
    use_role_default_log_files: bool,
    present: Present,
    place: &Place,
) -> (r: Result<(ServiceRole, String), Failure>)
    ensures
        ({
            let named = match args.role {
                Some(role) => Some(role.role()),
                None => None,
            };
            match control_role("switch"@, opt_view(cli.pid_file), named, present, *place) {
                Ok(role) => match place_of(
                    opt_view(cli.telemetry_sock),
                    role.name(),
                    "sock"@,
                    *place,
                ) {
                    Ok(path) => r matches Ok((a, b)) && a == role && b@ == path,
                    Err(f) => r matches Err(e) && e@ == f,
                },
                Err(f) => r matches Err(e) && e@ == f,
            }
        }),
{
    let named = match args.role {
        Some(role) => Some(role.service_role()),
        None => None,
    };
    let role = match resolve_control_role(
        "switch",
        cli.log_file.as_str(),
        as_slice(&cli.pid_file),
        named,
        present,
        place,
    ) {
        Ok(role) => role,
        Err(e) => {
            return Err(e);
        },
    };
    let log_file = log_for(cli, role, use_role_default_log_files);
    match place_for(
        as_slice(&cli.telemetry_sock),
        log_file.as_str(),
        role.as_str(),
        "sock",
        place,
    ) {
        Ok(path) => Ok((role, path)),
        Err(e) => Err(e),
    }
}

/// The name of a state, if it is known.
pub open spec fn state_name(state: Option<TrafficState>) -> Seq<char> {
    match state {
        Some(s) => s.name(),
        None => "unknown"@,
    }
}

fn state_text(state: Option<TrafficState>) -> (r: &'static str)
    ensures
        r@ == state_name(state),
{
    match state {
        Some(s) => s.as_str(),
        None => "unknown",
    }
}

/// What is said of traffic that was to be switched.
pub fn switch_outcome(role: ServiceRole, response: &ControlResponse) -> (r: Result<String, Failure>)
    ensures
        match r {
            Ok(text) => response@.ok && text@ == "runnel traffic switched role="@ + role.name()
                + " "@ + state_name(response@.previous_state) + " -> "@ + state_name(
                response@.state,
            ),
            Err(e) => !response@.ok && e@ == seq![response@.message],
        },
{
    if !response.ok {
        return Err(Failure::new(response.message.as_str()));
    }
    let head = cat3("runnel traffic switched role=", role.as_str(), " ");
    let middle = cat3(head.as_str(), state_text(response.previous_state), " -> ");
    Ok(cat(middle.as_str(), state_text(response.state)))
}

/// A path that ends in a plain name has that name.
proof fn lemma_file_name(dir: Seq<char>, name: Seq<char>)
    requires
        name.len() > 2,
        forall|i: int| 0 <= i < name.len() ==> (#[trigger] name[i]) != '/',
    ensures
        file_name_of(joined_path(dir, name)) == Some(name),
{
    reveal_strlit("/");
    reveal_strlit(".");
    reveal_strlit("..");
    let path = joined_path(dir, name);
    assert(!absolute(name)) by {
        assert("/"@[0] == '/');
        assert(name[0] != '/');
    }
    let base = if dir.len() == 0 || finishes_with(dir, "/"@) {
        dir
    } else {
        dir + "/"@
    };
    assert(path =~= base + name);
    assert(path.last() == name.last());
    assert(name[name.len() - 1] != '/');
    assert(path[path.len() - 2] == name[name.len() - 2]);
    assert(without_tail(path) == path);
    lemma_rfind_char(path, '/');
    let n = base.len() as int;
    assert forall|j: int| n <= j < path.len() implies path[j] != '/' by {
        assert(path[j] == name[j - n]);
    }
    if n > 0 {
        assert(base.last() == '/') by {
            if finishes_with(dir, "/"@) {
                assert(dir.skip(dir.len() - 1)[0] == "/"@[0]);
            }
        }
        assert(path[n - 1] == '/');
        assert(path.skip(n) =~= name);
    } else {
        assert(path =~= name);
    }
}

/// The name of the file of a kind of service names no other kind.
proof fn lemma_role_in_name(role: ServiceRole)
    ensures
        role_in_name(role.name() + ".pid"@) == Some(role),
        forall|i: int|
            0 <= i < (role.name() + ".pid"@).len() ==> (#[trigger] (role.name() + ".pid"@)[i])
                != '/',
{
    reveal_strlit("client");
    reveal_strlit("server");
    reveal_strlit("tun");
    reveal_strlit("wg-client");
    reveal_strlit("wg-server");
    reveal_strlit(".pid");
    reveal_strlit(".");
    let name = role.name() + ".pid"@;
    assert forall|other: ServiceRole| #[trigger] names_role(name, other) implies other == role by {
        let own = other.name() + ".pid"@;
        let tail = "."@ + other.name() + ".pid"@;
        if name == own {
            assert(name.len() == own.len());
            assert(name[0] == own[0]);
            assert(name[3] == own[3]);
        } else {
            assert(name.skip(name.len() - tail.len())[0] == tail[0]);
            assert(tail[0] == '.');
            assert(name[name.len() - tail.len()] == '.');
        }
    }
    assert(names_role(name, role));
    assert(names_role(name, ServiceRole::Client) ==> role == ServiceRole::Client);
    assert(names_role(name, ServiceRole::Server) ==> role == ServiceRole::Server);
    assert(names_role(name, ServiceRole::Tun) ==> role == ServiceRole::Tun);
    assert(names_role(name, ServiceRole::WgClient) ==> role == ServiceRole::WgClient);
}

/// Where the file of one kind of service is there and no other, a command
/// without a kind is about that one.
pub proof fn the_only_service_is_meant(
    command: Seq<char>,
    role: ServiceRole,
    present: Present,
    place: Place,
)
    requires
        present.has_only(role),
        whole_path("~/.runnel/current"@, place) is Ok,
    ensures
        control_role(command, None, None, present, place) == Ok::<ServiceRole, Seq<Seq<char>>>(
            role,
        ),
{
    let chosen = choose|other: ServiceRole| present.has_only(other);
    assert(present.has_only(chosen));
    assert(present.has(chosen));
    assert(chosen == role);
    assert(present.has(role));
    let dir = whole_path("~/.runnel/current"@, place)->Ok_0;
    reveal_strlit(".");
    reveal_strlit("pid");
    reveal_strlit(".pid");
    assert(role.name() + "."@ + "pid"@ =~= role.name() + ".pid"@);
    lemma_role_in_name(role);
    lemma_file_name(dir, role.name() + ".pid"@);
}

// ---------------------------------------------------------------------------
// Laws

/// A service that is to end is looked for under the number in its file, asked to end
/// where it is there, and looked for again until it is gone; only then, or where it
/// was not there to begin with, is the file removed. One that is still there after
/// the time is reported.
pub proof fn services_are_asked_to_end(
    path: &str,
    wait_secs: u64,
    pid: u32,
    alive: bool,
    t0: u64,
    t1: u64,
    t2: u64,
    t3: u64,
    gone: bool,
    first: (StopStage, StopMove),
    second: (StopStage, StopMove),
    third: (StopStage, StopMove),
    fourth: (StopStage, StopMove),
)
    requires
        t0 <= t1 <= t2 <= t3,
        t3 + 1000 * wait_secs <= u64::MAX,
        call_ensures(
            stop_daemon_process,
            (StopStage::Start, StopEvent::Pid(Ok(pid)), path, wait_secs, t0),
            first,
        ),
        call_ensures(
            stop_daemon_process,
            (first.0, StopEvent::Alive(Ok(alive)), path, wait_secs, t1),
            second,
        ),
        alive ==> call_ensures(
            stop_daemon_process,
            (second.0, StopEvent::Asked(Ok(())), path, wait_secs, t2),
            third,
        ),
        alive ==> call_ensures(
            stop_daemon_process,
            (third.0, StopEvent::Alive(Ok(!gone)), path, wait_secs, t3),
            fourth,
        ),
    ensures
        first.1 == StopMove::Look(pid),
        alive <==> second.1 == StopMove::Ask(pid),
        !alive <==> second.1 is Remove,
        alive ==> third.1 == StopMove::Look(pid),
        alive && gone ==> fourth.0 is Done && fourth.1 is Remove,
        alive && !gone && t3 >= t2 + 1000 * wait_secs ==> fourth.0 is Done && fourth.1 is Fail,
        alive && !gone && t3 < t2 + 1000 * wait_secs ==> fourth == (third.0, StopMove::Sleep(
            pid,
            100,
        )),
{
}

/// Whatever fails while a service is ended is passed on, and nothing is removed.
pub proof fn failures_end_the_stopping(
    stage: StopStage,
    event: StopEvent,
    path: &str,
    wait_secs: u64,
    now: u64,
    cause: Failure,
    r: (StopStage, StopMove),
)
    requires
        match stage {
            StopStage::Start => event == StopEvent::Pid(Err(cause)),
            StopStage::Looking(_) => event == StopEvent::Alive(Err(cause)),
            StopStage::Asking(_) => event == StopEvent::Asked(Err(cause)),
            StopStage::Waiting(_, _) => event == StopEvent::Alive(Err(cause)),
            StopStage::Done => false,
        },
        now + 1000 * wait_secs <= u64::MAX,
        call_ensures(stop_daemon_process, (stage, event, path, wait_secs, now), r),
    ensures
        r == (StopStage::Done, StopMove::Fail(cause)),
{
}

/// The number that is written to a file is the one that is read from it.
pub proof fn written_numbers_are_read(pid: u32, text: String, path: &str, raw: &str, r: Result<
    u32,
    Failure,
>)
    requires
        call_ensures(write_pid_file, (pid,), text),
        raw@ == text@,
        call_ensures(read_pid_file, (path, raw), r),
    ensures
        r == Ok::<u32, Failure>(pid),
{
    numbers_read_back(path@, pid);
}

/// A service starts just where no process of the number in its file is there.
pub proof fn services_run_once(role: &str, path: &str, sight: &PidSight, r: Result<(), Failure>)
    requires
        call_ensures(maybe_create_pid_file, (role, path, sight), r),
    ensures
        r is Err <==> (sight matches PidSight::Read(_, alive) && *alive),
{
}

/// A process is there where it answers or may not be asked, and is not where there is
/// none; where neither is known, the cause is passed on.
pub proof fn processes_are_probed(pid: u32, probe: Probe, r: Result<bool, Failure>, n: i32)
    requires
        call_ensures(process_exists, (pid, probe), r),
        call_ensures(as_signed, (pid,), n),
    ensures
        r == Ok::<bool, Failure>(true) <==> probe is Alive || probe is NotPermitted,
        r == Ok::<bool, Failure>(false) <==> probe is NoSuchProcess,
        probe matches Probe::Failed(cause) ==> (r matches Err(e) && e@.len() == cause@.len() + 1
            && e@.skip(1) == cause@),
        pid <= i32::MAX ==> n == pid,
        pid > i32::MAX ==> n == pid - 0x1_0000_0000,
{
    if let Probe::Failed(cause) = probe {
        if let Err(e) = r {
            assert(e@.skip(1) =~= cause@);
        }
    }
}

/// A service runs where it answers and, if it should have a file, its process is
/// alive under the number in there; where only one of the two holds it is degraded,
/// and where neither does, a file that is there is stale.
pub proof fn states_follow_what_is_seen(
    expects: bool,
    exists_file: bool,
    pid: Option<u32>,
    alive: Option<bool>,
    runtime: Option<&RuntimeStatus>,
    r: &'static str,
    all: bool,
    shown: bool,
)
    requires
        call_ensures(classify_service_state, (expects, exists_file, pid, alive, runtime), r),
        call_ensures(should_show_status_state, (r, all), shown),
    ensures
        r@ == "running"@ <==> (runtime matches Some(s) && (!expects || (pid == Some(s.pid) && alive
            == Some(true)))),
        r@ == "degraded"@ <==> (runtime matches Some(s) && expects && !(pid == Some(s.pid) && alive
            == Some(true))) || (runtime is None && alive == Some(true)),
        r@ == "stale"@ <==> runtime is None && alive != Some(true) && expects && (exists_file || pid
            is Some),
        shown <==> all || runtime is Some || alive == Some(true) || (expects && (exists_file || pid
            is Some)),
{
    reveal_strlit("running");
    reveal_strlit("degraded");
    reveal_strlit("stale");
    reveal_strlit("not-running");
    assert("running"@.len() == 7 && "degraded"@.len() == 8 && "stale"@.len() == 5
        && "not-running"@.len() == 11);
}

/// What is told of a service is what was seen of it: its number, what it answered,
/// and its state by the two; nothing is noted of one that runs as it should.
pub proof fn services_are_told_as_seen(
    target: StatusTarget,
    pid: u32,
    alive: bool,
    runtime: RuntimeStatus,
    r: ServiceStatus,
    state: &'static str,
    silent: ServiceStatus,
    down: &'static str,
)
    requires
        target.pid_file is Some,
        target.telemetry_socket is Some,
        call_ensures(
            inspect_status_target,
            (target, PidSight::Read(pid, alive), SocketSight::Answered(runtime)),
            r,
        ),
        call_ensures(
            classify_service_state,
            (true, true, Some(pid), Some(alive), Some(&runtime)),
            state,
        ),
        call_ensures(
            inspect_status_target,
            (target, PidSight::Missing, SocketSight::Missing),
            silent,
        ),
        call_ensures(classify_service_state, (true, false, None, None, None), down),
    ensures
        r.role@ == runtime.command@,
        r.state@ == state@,
        r.pid_from_file == Some(pid),
        r.runtime == Some(runtime),
        r.detail is None <==> alive && pid == runtime.pid,
        opt_view(r.pid_file) == opt_view(target.pid_file),
        opt_view(r.telemetry_sock) == opt_view(target.telemetry_socket),
        silent.role@ == target.label@,
        silent.state@ == down@,
        silent.pid_from_file is None,
        silent.runtime is None,
        silent.detail is Some,
{
    let t = target@;
    let sight = PidSight::Read(pid, alive);
    assert(pid_notes(t.pid_file, sight).len() == (if alive {
        0nat
    } else {
        1
    }));
    assert(pid_notes(t.pid_file, PidSight::Missing).len() == 1);
}

/// What a service answers is what its snapshot says.
pub proof fn answers_are_taken_from_the_snapshot(s: DashboardSnapshot, r: RuntimeStatus)
    requires
        call_ensures(RuntimeStatus::from_snapshot, (s,), r),
    ensures
        r.command@ == s.context.command_label@,
        r.mode@ == s.context.mode_label@,
        r.traffic_state == s.context.traffic_state,
        r.pid == s.context.pid,
        r.listen == s.context.listen,
        r.upstream == s.context.upstream,
        r.path == s.context.path,
        r.log_file@ == s.context.log_file@,
        r.log_filter@ == s.context.log_filter@,
        r.uptime_secs == s.uptime_secs,
        r.total_relays == s.total_relays,
        r.total_errors == s.total_errors,
        r.total_warnings == s.total_warnings,
        r.total_uploaded == s.total_uploaded,
        r.total_downloaded == s.total_downloaded,
        r.last_event_age_ms == s.last_event_age_ms,
        r.last_warning_age_ms == s.last_warning_age_ms,
        r.last_traffic_age_ms == s.last_traffic_age_ms,
{
}

proof fn lemma_live(list: Seq<TargetView>, active: Seq<bool>, i: int)
    requires
        list.len() == active.len(),
        0 <= i < list.len(),
    ensures
        active[i] ==> live(list, active).contains(list[i]),
    decreases list.len(),
{
    let rest = live(list.drop_last(), active.drop_last());
    let all = live(list, active);
    if active[i] {
        if i == list.len() - 1 {
            assert(all[rest.len() as int] == list[i]);
        } else {
            assert(list.drop_last()[i] == list[i]);
            assert(active.drop_last()[i] == active[i]);
            lemma_live(list.drop_last(), active.drop_last(), i);
            let k = choose|k: int| 0 <= k < rest.len() && rest[k] == list[i];
            assert(all[k] == list[i]);
        }
    }
}

proof fn lemma_live_from(list: Seq<TargetView>, active: Seq<bool>, k: int)
    requires
        list.len() == active.len(),
        0 <= k < live(list, active).len(),
    ensures
        exists|i: int| 0 <= i < list.len() && active[i] && #[trigger] list[i] == live(list, active)[k],
    decreases list.len(),
{
    let rest = live(list.drop_last(), active.drop_last());
    if k < rest.len() {
        lemma_live_from(list.drop_last(), active.drop_last(), k);
        let i = choose|i: int|
            0 <= i < list.drop_last().len() && active.drop_last()[i] && #[trigger] list.drop_last()[i]
                == rest[k];
        assert(list[i] == rest[k] && active[i]);
    } else {
        assert(list[list.len() - 1] == live(list, active)[k]);
    }
}

proof fn lemma_same_file(a: Option<Seq<char>>)
    ensures
        same_file(a, a),
{
}

proof fn lemma_once(list: Seq<TargetView>, i: int)
    requires
        0 <= i < list.len(),
    ensures
        exists|k: int| 0 <= k < once(list).len() && same_target(#[trigger] once(list)[k], list[i]),
    decreases list.len(),
{
    let rest = once(list.drop_last());
    let all = once(list);
    lemma_same_file(list[i].pid_file);
    lemma_same_file(list[i].telemetry_socket);
    if i == list.len() - 1 {
        if !(exists|j: int| 0 <= j < rest.len() && same_target(#[trigger] rest[j], list.last())) {
            assert(all[rest.len() as int] == list[i]);
            assert(same_target(all[rest.len() as int], list[i]));
        } else {
            let j = choose|j: int| 0 <= j < rest.len() && same_target(#[trigger] rest[j], list.last());
            assert(all[j] == rest[j]);
        }
    } else {
        assert(list.drop_last()[i] == list[i]);
        lemma_once(list.drop_last(), i);
        let k = choose|k: int| 0 <= k < rest.len() && same_target(#[trigger] rest[k], list[i]);
        assert(all[k] == rest[k]);
    }
}

proof fn lemma_once_from(list: Seq<TargetView>, k: int)
    requires
        0 <= k < once(list).len(),
    ensures
        list.contains(once(list)[k]),
    decreases list.len(),
{
    let rest = once(list.drop_last());
    if k < rest.len() {
        lemma_once_from(list.drop_last(), k);
        let i = choose|i: int| 0 <= i < list.drop_last().len() && list.drop_last()[i] == rest[k];
        assert(list[i] == once(list)[k]);
    } else {
        assert(list[list.len() - 1] == once(list)[k]);
    }
}

proof fn lemma_labelled(list: Seq<TargetView>, label: Seq<char>)
    ensures
        (exists|i: int| 0 <= i < list.len() && (#[trigger] list[i]).label == label) <==> labelled(
            list,
            label,
        ).len() > 0,
        forall|k: int|
            0 <= k < labelled(list, label).len() ==> list.contains(#[trigger] labelled(list, label)[k])
                && labelled(list, label)[k].label == label,
    decreases list.len(),
{
    if list.len() > 0 {
        let less = list.drop_last();
        let rest = labelled(less, label);
        let all = labelled(list, label);
        lemma_labelled(less, label);
        assert forall|k: int| 0 <= k < all.len() implies list.contains(#[trigger] all[k])
            && all[k].label == label by {
            if k < rest.len() {
                assert(all[k] == rest[k]);
                let i = choose|i: int| 0 <= i < less.len() && less[i] == rest[k];
                assert(list[i] == all[k]);
            } else {
                assert(list[list.len() - 1] == all[k]);
            }
        }
        if exists|i: int| 0 <= i < list.len() && (#[trigger] list[i]).label == label {
            let i = choose|i: int| 0 <= i < list.len() && (#[trigger] list[i]).label == label;
            if i < less.len() {
                assert(less[i].label == label);
            }
        }
        if all.len() > 0 {
            assert(list.contains(all[0]));
            let i = choose|i: int| 0 <= i < list.len() && list[i] == all[0];
            assert(list[i].label == label);
        }
    }
}

proof fn lemma_preferred(defaults: Seq<TargetView>, found: Seq<TargetView>, d: int)
    requires
        0 <= d < defaults.len(),
        forall|i: int| 0 <= i < found.len() ==> (#[trigger] found[i]).label != defaults[d].label,
    ensures
        preferred(defaults, found).contains(defaults[d]),
    decreases defaults.len(),
{
    let rest = preferred(defaults.drop_last(), found);
    let own = labelled(found, defaults.last().label);
    let all = preferred(defaults, found);
    lemma_labelled(found, defaults.last().label);
    if d == defaults.len() - 1 {
        assert(own.len() == 0);
        assert(all[rest.len() as int] == defaults[d]);
    } else {
        assert(defaults.drop_last()[d] == defaults[d]);
        lemma_preferred(defaults.drop_last(), found, d);
        let k = choose|k: int| 0 <= k < rest.len() && rest[k] == defaults[d];
        assert(all[k] == defaults[d]);
    }
}

proof fn lemma_preferred_from(defaults: Seq<TargetView>, found: Seq<TargetView>, t: TargetView)
    requires
        preferred(defaults, found).contains(t),
    ensures
        found.contains(t) || (defaults.contains(t) && forall|i: int|
            0 <= i < found.len() ==> (#[trigger] found[i]).label != t.label),
    decreases defaults.len(),
{
    let all = preferred(defaults, found);
    if defaults.len() > 0 {
        let rest = preferred(defaults.drop_last(), found);
        let own = labelled(found, defaults.last().label);
        lemma_labelled(found, defaults.last().label);
        let k = choose|k: int| 0 <= k < all.len() && all[k] == t;
        if k < rest.len() {
            assert(rest[k] == t);
            assert(rest.contains(t));
            lemma_preferred_from(defaults.drop_last(), found, t);
            if defaults.drop_last().contains(t) {
                let i = choose|i: int| 0 <= i < defaults.drop_last().len() && defaults.drop_last()[i]
                    == t;
                assert(defaults[i] == t);
            }
        } else if own.len() > 0 {
            assert(own[k - rest.len()] == t);
        } else {
            assert(defaults[defaults.len() - 1] == t);
        }
    }
}

/// Every service that was found active is reported on, every default whose kind was
/// not found active is too, nothing else is, and nothing twice.
#[verifier::spinoff_prover]
#[verifier::rlimit(50)]
pub proof fn active_services_stand_in_for_defaults(
    defaults: &Vec<StatusTarget>,
    discovered: &Vec<StatusTarget>,
    active: &Vec<bool>,
    r: Vec<StatusTarget>,
    i: int,
    d: int,
    k: int,
    l: int,
)
    requires
        discovered@.len() == active@.len(),
        call_ensures(merge_status_targets, (defaults, discovered, active), r),
        0 <= i < discovered@.len(),
        0 <= d < defaults@.len(),
        0 <= k < r@.len(),
        0 <= l < r@.len(),
    ensures
        active@[i] ==> exists|x: int|
            0 <= x < r@.len() && same_target((#[trigger] r@[x])@, discovered@[i]@),
        (forall|j: int|
            0 <= j < discovered@.len() && active@[j] ==> (#[trigger] discovered@[j])@.label
                != defaults@[d]@.label) ==> exists|x: int|
            0 <= x < r@.len() && same_target((#[trigger] r@[x])@, defaults@[d]@),
        (exists|j: int|
            0 <= j < discovered@.len() && active@[j] && (#[trigger] discovered@[j])@ == r@[k]@) || ((
        exists|j: int| 0 <= j < defaults@.len() && (#[trigger] defaults@[j])@ == r@[k]@) && forall|
            j: int,
        |
            0 <= j < discovered@.len() && active@[j] ==> (#[trigger] discovered@[j])@.label
                != r@[k]@.label),
        k < l ==> !same_target(r@[k]@, r@[l]@),
{
    let all = targets(discovered@);
    let wanted = targets(defaults@);
    let found = live(all, active@);
    let list = preferred(wanted, found) + found;
    let out = targets(r@);
    assert(out == once(list));
    assert forall|x: int| 0 <= x < r@.len() implies out[x] == (#[trigger] r@[x])@ by {}
    assert forall|x: int| 0 <= x < discovered@.len() implies all[x] == (#[trigger] discovered@[x])@ by {}
    assert forall|x: int| 0 <= x < defaults@.len() implies wanted[x] == (#[trigger] defaults@[x])@ by {}
    if active@[i] {
        lemma_live(all, active@, i);
        let p = choose|p: int| 0 <= p < found.len() && found[p] == all[i];
        let q = preferred(wanted, found).len() + p;
        assert(list[q] == all[i]);
        lemma_once(list, q);
        let x = choose|x: int| 0 <= x < once(list).len() && same_target(#[trigger] once(list)[x], list[q]);
        assert(same_target(r@[x]@, discovered@[i]@));
    }
    if forall|j: int|
        0 <= j < discovered@.len() && active@[j] ==> (#[trigger] discovered@[j])@.label
            != defaults@[d]@.label {
        assert forall|p: int| 0 <= p < found.len() implies (#[trigger] found[p]).label
            != wanted[d].label by {
            lemma_live_from(all, active@, p);
            let j = choose|j: int|
                0 <= j < all.len() && active@[j] && #[trigger] all[j] == found[p];
            assert(discovered@[j]@ == all[j]);
        }
        lemma_preferred(wanted, found, d);
        let p = choose|p: int|
            0 <= p < preferred(wanted, found).len() && preferred(wanted, found)[p] == wanted[d];
        assert(list[p] == wanted[d]);
        lemma_once(list, p);
        let x = choose|x: int| 0 <= x < once(list).len() && same_target(#[trigger] once(list)[x], list[p]);
        assert(same_target(r@[x]@, defaults@[d]@));
    }
    lemma_once_from(list, k);
    let p = choose|p: int| 0 <= p < list.len() && list[p] == out[k];
    if p < preferred(wanted, found).len() {
        assert(preferred(wanted, found)[p] == out[k]);
        assert(preferred(wanted, found).contains(out[k]));
        lemma_preferred_from(wanted, found, out[k]);
    } else {
        assert(found[p - preferred(wanted, found).len()] == out[k]);
        assert(found.contains(out[k]));
    }
    if found.contains(out[k]) {
        let f = choose|f: int| 0 <= f < found.len() && found[f] == out[k];
        lemma_live_from(all, active@, f);
        let j = choose|j: int| 0 <= j < all.len() && active@[j] && #[trigger] all[j] == found[f];
        assert(discovered@[j]@ == r@[k]@);
    } else {
        let j = choose|j: int| 0 <= j < wanted.len() && wanted[j] == out[k];
        assert(defaults@[j]@ == r@[k]@);
        assert forall|j: int| 0 <= j < discovered@.len() && active@[j] implies (
        #[trigger] discovered@[j])@.label != r@[k]@.label by {
            lemma_live(all, active@, j);
            let f = choose|f: int| 0 <= f < found.len() && found[f] == all[j];
            assert(found[f].label != out[k].label);
        }
    }
    if k < l {
        targets_are_reported_once(list, k, l);
    }
}

/// A command for a kind of service is about the file of that kind, one with a file is
/// about that file, and one with neither is about the only file that is there; where
/// none or several are, it fails.
pub proof fn commands_are_about_one_service(
    command: &str,
    log_file: &str,
    place: &Place,
    path: &str,
    role: ServiceRole,
    name: &'static str,
    present: Present,
    whole: Result<String, Failure>,
    own: Result<String, Failure>,
    by_path: Result<String, Failure>,
    by_role: Result<String, Failure>,
    alone: Result<String, Failure>,
    stop: Result<String, Failure>,
)
    requires
        call_ensures(absolute_path, (path, place), whole),
        call_ensures(ServiceRole::as_str, (role,), name),
        call_ensures(default_pid_path, (log_file, name, place), own),
        call_ensures(
            resolve_pid_file_for_control,
            (command, log_file, Some(path), Some(role), present, place),
            by_path,
        ),
        call_ensures(
            resolve_pid_file_for_control,
            (command, log_file, None, Some(role), present, place),
            by_role,
        ),
        call_ensures(
            resolve_pid_file_for_control,
            (command, log_file, None, None, present, place),
            alone,
        ),
        call_ensures(resolve_stop_pid_file, (log_file, None, Some(role), present, place), stop),
    ensures
        path_view(by_path) == path_view(whole),
        path_view(by_role) == path_view(own),
        path_view(stop) == path_view(own),
        present.has_only(role) ==> path_view(alone) == path_view(own),
        present.has_none() ==> alone is Err,
        !present.has_none() && !present.has_only(ServiceRole::Client) && !present.has_only(
            ServiceRole::Server,
        ) && !present.has_only(ServiceRole::Tun) && !present.has_only(ServiceRole::WgClient)
            && !present.has_only(ServiceRole::WgServer) ==> alone is Err,
{
    if present.has_only(role) {
        let chosen = choose|other: ServiceRole| present.has_only(other);
        assert(present.has_only(chosen));
        assert(present.has(chosen));
        assert(chosen == role);
        assert(present.has(role));
    }
    if exists|other: ServiceRole| present.has_only(other) {
        let chosen = choose|other: ServiceRole| present.has_only(other);
        assert(present.has_only(chosen));
        assert(chosen is Client || chosen is Server || chosen is Tun || chosen is WgClient
            || chosen is WgServer);
    }
}

/// The file of a kind of service tells the kind, and a command that is about the only
/// service that is there is about its kind; with a file alone the kind is not known.
pub proof fn files_tell_their_kind(
    command: &str,
    log_file: &str,
    place: &Place,
    role: ServiceRole,
    name: &'static str,
    own: Result<String, Failure>,
    file: &str,
    told: Option<ServiceRole>,
    given: &str,
    present: Present,
    named: Result<ServiceRole, Failure>,
    alone: Result<ServiceRole, Failure>,
    unnamed: Result<ServiceRole, Failure>,
    reload: Result<ServiceRole, Failure>,
)
    requires
        call_ensures(ServiceRole::as_str, (role,), name),
        call_ensures(default_pid_path, (log_file, name, place), own),
        own matches Ok(p) ==> file@ == p@,
        call_ensures(role_from_pid_file, (file,), told),
        call_ensures(
            resolve_control_role,
            (command, log_file, None, Some(role), present, place),
            named,
        ),
        call_ensures(resolve_control_role, (command, log_file, None, None, present, place), alone),
        call_ensures(
            resolve_control_role,
            (command, log_file, Some(given), None, present, place),
            unnamed,
        ),
        call_ensures(resolve_reload_role, (log_file, None, None, present, place), reload),
    ensures
        own is Ok ==> told == Some(role),
        named == Ok::<ServiceRole, Failure>(role),
        unnamed is Err,
        own is Ok && present.has_only(role) ==> alone == Ok::<ServiceRole, Failure>(role) && reload
            == Ok::<ServiceRole, Failure>(role),
{
    if own is Ok {
        let dir = whole_path("~/.runnel/current"@, *place)->Ok_0;
        reveal_strlit(".");
        reveal_strlit("pid");
        reveal_strlit(".pid");
        assert(role.name() + "."@ + "pid"@ =~= role.name() + ".pid"@);
        lemma_role_in_name(role);
        lemma_file_name(dir, role.name() + ".pid"@);
        if present.has_only(role) {
            the_only_service_is_meant(command@, role, present, *place);
            the_only_service_is_meant("reload"@, role, present, *place);
        }
    }
}

/// A service is started again with the settings of the command: its check and its
/// start name the kind last, and differ only in what they are for.
#[verifier::spinoff_prover]
#[verifier::rlimit(50)]
pub proof fn services_are_reloaded_with_their_settings(
    cli: &Cli,
    config: Option<&str>,
    role: ServiceRole,
    name: &'static str,
    log_file: &str,
    start: Vec<String>,
    check: Vec<String>,
)
    requires
        call_ensures(ServiceRole::as_str, (role,), name),
        call_ensures(reload_start_args, (cli, config, role, log_file), start),
        call_ensures(reload_check_args, (cli, config, role, log_file), check),
    ensures
        ({
            let s = views(start@);
            let c = views(check@);
            let n = s.len() as int;
            &&& n >= 8
            &&& c.len() == n
            &&& s.take(n - 2) == c.take(n - 2)
            &&& s[n - 2] == "--daemon"@
            &&& c[n - 2] == "--check-config-only"@
            &&& s[n - 1] == name@
            &&& c[n - 1] == name@
            &&& s[0] == "--log"@ && s[1] == cli.log@
            &&& s[2] == "--log-file"@ && s[3] == log_file@
            &&& s[4] == "--log-timezone"@ && s[5] == cli.log_timezone@
            &&& config matches Some(path) ==> s[n - 4] == "--config"@ && s[n - 3] == path@
            &&& cli.telemetry_sock matches Some(path) ==> s[6] == "--telemetry-sock"@ && s[7]
                == path@
            &&& n == 8 + (if config is Some {
                2int
            } else {
                0
            }) + (if cli.telemetry_sock is Some {
                2int
            } else {
                0
            }) + (if cli.pid_file is Some {
                2int
            } else {
                0
            })
            &&& cli.pid_file matches Some(path) ==> ({
                let at: int = if cli.telemetry_sock is Some {
                    8
                } else {
                    6
                };
                s[at] == "--pid-file"@ && s[at + 1] == path@
            })
        }),
{
    let s = views(start@);
    let c = views(check@);
    let n = s.len() as int;
    assert(s.take(n - 2) =~= c.take(n - 2));
}

/// A reload is about the service that the command means, a switch about its socket:
/// the one that was given, or that of its kind.
pub proof fn reloads_and_switches_are_about_the_service(
    cli: &Cli,
    config: Option<&str>,
    args: &ReloadArgs,
    role: ServiceRole,
    present: Present,
    place: &Place,
    r: Result<ReloadPlan, Failure>,
    plan_log: &str,
    start: Vec<String>,
    check: Vec<String>,
    switch: &SwitchArgs,
    kind: ServiceRole,
    name: &'static str,
    socket: Result<String, Failure>,
    given: &str,
    whole: Result<String, Failure>,
    s: Result<(ServiceRole, String), Failure>,
)
    requires
        args.role == Some(role),
        call_ensures(reload_daemon_process, (cli, config, args, false, present, place), r),
        plan_log@ == cli.log_file@,
        call_ensures(reload_start_args, (cli, config, role, plan_log), start),
        call_ensures(reload_check_args, (cli, config, role, plan_log), check),
        switch.role matches Some(w) && call_ensures(super::SwitchRole::service_role, (w,), kind),
        call_ensures(ServiceRole::as_str, (kind,), name),
        call_ensures(super::service::default_socket_path, (plan_log, name, place), socket),
        cli.telemetry_sock matches Some(p) ==> given@ == p@,
        call_ensures(absolute_path, (given, place), whole),
        call_ensures(switch_daemon_process, (cli, switch, false, present, place), s),
    ensures
        r matches Ok(p) && p.role == role && p.log_file@ == cli.log_file@ && views(p.start@) == views(
            start@,
        ) && views(p.check@) == views(check@),
        s is Ok ==> (s->Ok_0).0 == kind,
        cli.telemetry_sock is None ==> (s is Ok <==> socket is Ok) && (s matches Ok((_, path)) ==> path@
            == (socket->Ok_0)@),
        cli.telemetry_sock is Some ==> (s is Ok <==> whole is Ok) && (s matches Ok((_, path)) ==> path@
            == (whole->Ok_0)@),
{
}

/// What a service answered a switch with is told: its states where it took it, and
/// its message where it did not.
pub proof fn switches_tell_the_answer(
    role: ServiceRole,
    response: &ControlResponse,
    r: Result<String, Failure>,
)
    requires
        call_ensures(switch_outcome, (role, response), r),
    ensures
        r is Ok <==> response@.ok,
        r matches Err(e) ==> e@ == seq![response@.message],
        r matches Ok(t) ==> (response@.state matches Some(s) ==> finishes_with(
            t@,
            " -> "@ + s.name(),
        )),
{
    if let Ok(t) = r {
        if let Some(s) = response@.state {
            let end = " -> "@ + s.name();
            assert(t@.skip(t@.len() - end.len()) =~= end);
        }
    }
}

/// A report has a line for each service that tells its kind and its state, in their
/// order; without a service it says so.
pub proof fn reports_tell_of_every_service(services: &Vec<ServiceStatus>, i: int, r: Vec<String>)
    requires
        0 <= i < services@.len(),
        call_ensures(print_status_report, (services,), r),
    ensures
        views(r@).contains(services@[i].role@ + ": "@ + services@[i].state@),
{
    lemma_all_lines(services@, i);
}

proof fn lemma_all_lines(services: Seq<ServiceStatus>, i: int)
    requires
        0 <= i < services.len(),
    ensures
        all_lines(services).contains(services[i].role@ + ": "@ + services[i].state@),
    decreases services.len(),
{
    let all = all_lines(services);
    let last = service_lines(services.last());
    let line = services[i].role@ + ": "@ + services[i].state@;
    if i == services.len() - 1 {
        assert(last[0] == line);
        assert(all[all.len() - last.len()] == line);
    } else {
        let before = all_lines(services.drop_last());
        assert(services.drop_last()[i] == services[i]);
        lemma_all_lines(services.drop_last(), i);
        let k = choose|k: int| 0 <= k < before.len() && before[k] == line;
        assert(all[k] == line);
    }
}

/// The files of a service are known by their names: those of its kind alone, and
/// those with a stem before the kind, which stay apart; each leads to both files of
/// its service.
#[verifier::rlimit(40)]
pub proof fn files_of_services_are_known(
    stem: Seq<char>,
    role: Seq<char>,
    socket: bool,
    compact: bool,
    file: &str,
    dir: &str,
    r: Option<(String, &'static str, bool)>,
    c: Option<Candidate>,
    pid_seen: bool,
    socket_seen: bool,
    t: StatusTarget,
)
    requires
        role == "client"@ || role == "server"@ || role == "tun"@,
        file@ == (if compact {
            role
        } else {
            stem + "."@ + role
        }) + (if socket {
            ".sock"@
        } else {
            ".pid"@
        }),
        call_ensures(parse_sidecar_file_name, (file,), r),
        call_ensures(candidate_for, (dir, file), c),
        c matches Some(x) ==> call_ensures(found_target, (x, pid_seen, socket_seen), t),
    ensures
        r matches Some((s, l, k)) && l@ == role && k == compact && s@ == (if compact {
            role
        } else {
            stem
        }),
        ({
            let base = if compact {
                role
            } else {
                stem + "."@ + role
            };
            &&& c matches Some(x) && x.label@ == role && x.pid_file@ == joined_path(
                dir@,
                base + ".pid"@,
            ) && x.telemetry_socket@ == joined_path(dir@, base + ".sock"@)
            &&& t.label@ == role
            &&& opt_view(t.pid_file) == (if pid_seen {
                Some(joined_path(dir@, base + ".pid"@))
            } else {
                None
            })
            &&& opt_view(t.telemetry_socket) == (if socket_seen {
                Some(joined_path(dir@, base + ".sock"@))
            } else {
                None
            })
        }),
{
    lemma_ends_tell("client"@);
    lemma_ends_tell("server"@);
    lemma_ends_tell("tun"@);
    reveal_strlit("client");
    reveal_strlit("server");
    reveal_strlit("tun");
    reveal_strlit(".pid");
    reveal_strlit(".sock");
    reveal_strlit(".");
    reveal_strlit("pid");
    reveal_strlit("sock");
    let name = file@;
    let n = name.len() as int;
    let ext = if socket {
        "sock"@
    } else {
        "pid"@
    };
    let dot = "."@;
    assert(dot + ext =~= (if socket {
        ".sock"@
    } else {
        ".pid"@
    }));
    assert(name.last() == (if socket {
        'k'
    } else {
        'd'
    }));
    assert(name[n - ext.len() - 2] == role.last());
    if compact {
        assert(name =~= role + dot + ext);
    } else {
        let suffix = dot + role + dot + ext;
        assert(name =~= stem + suffix);
        assert(name.skip(n - suffix.len()) =~= suffix);
        assert(name.take(n - suffix.len()) =~= stem);
        assert(name.len() > (role + dot + ext).len());
    }
    assert forall|other: Seq<char>|
        (other == "client"@ || other == "server"@ || other == "tun"@) && other != role implies sidecar_of(
        name,
        other,
    ) is None by {
        lemma_not_of(name, role, ext, other, "pid"@);
        lemma_not_of(name, role, ext, other, "sock"@);
    }
    assert(sidecar_with(name, role, ext) is Some);
    if socket {
        lemma_other_ext(name, role);
    }
}

proof fn lemma_ends_tell(role: Seq<char>)
    requires
        role == "client"@ || role == "server"@ || role == "tun"@,
    ensures
        role.len() > 0,
        role == "client"@ <==> role.last() == 't',
        role == "server"@ <==> role.last() == 'r',
        role == "tun"@ <==> role.last() == 'n',
{
    reveal_strlit("client");
    reveal_strlit("server");
    reveal_strlit("tun");
    assert("client"@.last() == 't' && "server"@.last() == 'r' && "tun"@.last() == 'n');
}

proof fn lemma_not_of(
    name: Seq<char>,
    role: Seq<char>,
    ext: Seq<char>,
    other: Seq<char>,
    kind: Seq<char>,
)
    requires
        role == "client"@ || role == "server"@ || role == "tun"@,
        other == "client"@ || other == "server"@ || other == "tun"@,
        other != role,
        ext == "pid"@ || ext == "sock"@,
        kind == "pid"@ || kind == "sock"@,
        name.len() >= ext.len() + 2,
        name.last() == (if ext == "sock"@ {
            'k'
        } else {
            'd'
        }),
        name[name.len() - ext.len() - 2] == role.last(),
    ensures
        sidecar_with(name, other, kind) is None,
{
    reveal_strlit("pid");
    reveal_strlit("sock");
    reveal_strlit(".");
    assert("pid"@.len() == 3 && "pid"@[2] == 'd');
    assert("sock"@.len() == 4 && "sock"@[3] == 'k');
    let dot = "."@;
    let n = name.len() as int;
    lemma_ends_tell(role);
    lemma_ends_tell(other);
    let short = other + dot + kind;
    let suffix = dot + other + dot + kind;
    let m = suffix.len() as int;
    assert(short.last() == kind.last());
    assert(short[short.len() - kind.len() - 2] == other.last());
    assert(suffix.last() == kind.last());
    assert(suffix[m - kind.len() - 2] == other.last());
    if finishes_with(name, suffix) {
        let tail = name.skip(n - m);
        assert(tail.last() == name.last());
        assert(tail[m - kind.len() - 2] == name[n - kind.len() - 2]);
    }
}

proof fn lemma_other_ext(name: Seq<char>, role: Seq<char>)
    requires
        name.len() > 0,
        name.last() == 'k',
    ensures
        sidecar_with(name, role, "pid"@) is None,
{
    reveal_strlit("pid");
    reveal_strlit(".");
    assert("pid"@[2] == 'd');
    let short = role + "."@ + "pid"@;
    let suffix = "."@ + role + "."@ + "pid"@;
    assert(short.last() == 'd');
    assert(suffix.last() == 'd');
    if finishes_with(name, suffix) {
        assert(name.skip(name.len() - suffix.len()).last() == name.last());
    }
}

/// A status is about the kind of service that is named, or about the files that are
/// given; without either it is about the defaults and what was found, which is looked
/// for only then.
pub proof fn a_status_is_about_what_is_named(
    log_file: &str,
    pid_file: &str,
    role: ServiceRole,
    name: &'static str,
    discovered: &Vec<StatusTarget>,
    active: &Vec<bool>,
    place: &Place,
    whole: Result<String, Failure>,
    own_pid: Result<String, Failure>,
    own_socket: Result<String, Failure>,
    by_role: Result<Vec<StatusTarget>, Failure>,
    by_file: Result<Vec<StatusTarget>, Failure>,
    looks: bool,
    looks_not: bool,
)
    requires
        discovered@.len() == active@.len(),
        call_ensures(absolute_path, (pid_file, place), whole),
        call_ensures(ServiceRole::as_str, (role,), name),
        call_ensures(default_pid_path, (log_file, name, place), own_pid),
        call_ensures(super::service::default_socket_path, (log_file, name, place), own_socket),
        call_ensures(
            resolve_status_targets,
            (log_file, None, None, Some(role), false, discovered, active, place),
            by_role,
        ),
        call_ensures(
            resolve_status_targets,
            (log_file, Some(pid_file), None, None, false, discovered, active, place),
            by_file,
        ),
        call_ensures(needs_discovery, (None, None, None), looks),
        call_ensures(needs_discovery, (Some(pid_file), None, None), looks_not),
    ensures
        by_role is Ok <==> own_pid is Ok && own_socket is Ok,
        by_role matches Ok(v) ==> v@.len() == 1 && v@[0].label@ == name@ && opt_view(v@[0].pid_file)
            == Some((own_pid->Ok_0)@) && opt_view(v@[0].telemetry_socket) == Some(
            (own_socket->Ok_0)@,
        ),
        by_file is Ok <==> whole is Ok,
        by_file matches Ok(v) ==> v@.len() == 1 && opt_view(v@[0].pid_file) == Some(
            (whole->Ok_0)@,
        ) && v@[0].telemetry_socket is None,
        looks,
        !looks_not,
{
    if let Ok(v) = by_role {
        assert(targets(v@).len() == v@.len());
        assert(targets(v@)[0] == v@[0]@);
    }
    if let Ok(v) = by_file {
        assert(targets(v@).len() == v@.len());
        assert(targets(v@)[0] == v@[0]@);
    }
}

/// Without a name a status is about the services that were found active, and about
/// the defaults of the other kinds.
pub proof fn a_status_without_a_name_is_about_all(
    log_file: &str,
    discovered: &Vec<StatusTarget>,
    active: &Vec<bool>,
    place: &Place,
    defaults: &Vec<StatusTarget>,
    merged_list: Vec<StatusTarget>,
    client: Result<Vec<StatusTarget>, Failure>,
    server: Result<Vec<StatusTarget>, Failure>,
    tun: Result<Vec<StatusTarget>, Failure>,
    r: Result<Vec<StatusTarget>, Failure>,
)
    requires
        discovered@.len() == active@.len(),
        call_ensures(
            resolve_status_targets,
            (log_file, None, None, Some(ServiceRole::Client), false, discovered, active, place),
            client,
        ),
        call_ensures(
            resolve_status_targets,
            (log_file, None, None, Some(ServiceRole::Server), false, discovered, active, place),
            server,
        ),
        call_ensures(
            resolve_status_targets,
            (log_file, None, None, Some(ServiceRole::Tun), false, discovered, active, place),
            tun,
        ),
        client is Ok && server is Ok && tun is Ok ==> targets(defaults@) == targets(
            (client->Ok_0)@,
        ) + targets((server->Ok_0)@) + targets((tun->Ok_0)@),
        call_ensures(merge_status_targets, (defaults, discovered, active), merged_list),
        call_ensures(
            resolve_status_targets,
            (log_file, None, None, None, false, discovered, active, place),
            r,
        ),
    ensures
        r is Ok <==> client is Ok && server is Ok && tun is Ok,
        r matches Ok(v) ==> targets(v@) == targets(merged_list@),
{
    if client is Ok && server is Ok && tun is Ok {
        let a = targets((client->Ok_0)@);
        let b = targets((server->Ok_0)@);
        let c = targets((tun->Ok_0)@);
        assert(a + b + c =~= seq![a[0], b[0], c[0]]);
    }
}

/// Each file in a directory that belongs to a service leads to it, once for both of
/// its files, and what was found before stays.
pub proof fn directories_are_searched(
    dir: &str,
    names: &Vec<String>,
    list: &mut Vec<Candidate>,
    i: int,
    name: &str,
    c: Option<Candidate>,
    k: int,
)
    requires
        call_ensures(discover_status_targets_in_dir, (dir, names, list), ()),
        0 <= i < names@.len(),
        name@ == names@[i]@,
        call_ensures(candidate_for, (dir, name), c),
        0 <= k < old(list)@.len(),
    ensures
        final(list)@.len() >= old(list)@.len(),
        final(list)@[k]@ == old(list)@[k]@,
        c matches Some(x) ==> exists|j: int|
            0 <= j < final(list)@.len() && (#[trigger] final(list)@[j])@.label == x@.label
                && same_path(final(list)@[j]@.key, x@.key),
{
    let before = candidates(old(list)@);
    let after = candidates(final(list)@);
    let all = views(names@);
    assert(all[i] == name@);
    lemma_found(before, dir@, all, i, k);
    assert(before[k] == old(list)@[k]@);
    assert(after[k] == final(list)@[k]@);
    if let Some(x) = c {
        let j = choose|j: int| 0 <= j < after.len() && same_service(#[trigger] after[j], x@);
        assert(after[j] == final(list)@[j]@);
    }
}

proof fn lemma_found(list: Seq<CandidateView>, dir: Seq<char>, names: Seq<Seq<char>>, i: int, k: int)
    requires
        0 <= i < names.len(),
        0 <= k < list.len(),
    ensures
        with_files(list, dir, names).len() >= list.len(),
        with_files(list, dir, names)[k] == list[k],
        candidate(dir, names[i]) matches Some(c) ==> exists|j: int|
            0 <= j < with_files(list, dir, names).len() && same_service(
                #[trigger] with_files(list, dir, names)[j],
                c,
            ),
    decreases names.len(),
{
    let less = names.drop_last();
    let rest = with_files(list, dir, less);
    let all = with_files(list, dir, names);
    if less.len() > 0 {
        lemma_found(list, dir, less, if i < less.len() {
            i
        } else {
            0
        }, k);
    }
    assert(rest.len() >= list.len() && rest[k] == list[k]);
    if i < less.len() {
        assert(less[i] == names[i]);
        if let Some(c) = candidate(dir, names[i]) {
            let j = choose|j: int| 0 <= j < rest.len() && same_service(#[trigger] rest[j], c);
            assert(all[j] == rest[j]);
        }
    } else if let Some(c) = candidate(dir, names[i]) {
        if exists|j: int| 0 <= j < rest.len() && same_service(#[trigger] rest[j], c) {
            let j = choose|j: int| 0 <= j < rest.len() && same_service(#[trigger] rest[j], c);
            assert(all[j] == rest[j]);
        } else {
            assert(all[rest.len() as int] == c);
            assert(same_service(all[rest.len() as int], c));
        }
    }
}

/// A service writes its number where it is told to, or to the file of its kind where
/// it runs in the background; other commands, and a service in the foreground that is
/// told nothing, write none.
pub proof fn numbers_are_written_where_wanted(
    cli: &Cli,
    log_file: &str,
    place: &Place,
    role: Option<&'static str>,
    name: &str,
    own: Result<String, Failure>,
    given: &str,
    whole: Result<String, Failure>,
    r: Result<Option<String>, Failure>,
)
    requires
        call_ensures(command_role, (&cli.command,), role),
        role matches Some(k) ==> name@ == k@,
        call_ensures(resolve_pid_file_for_role, (log_file, None, name, place), own),
        cli.pid_file matches Some(p) ==> given@ == p@,
        call_ensures(absolute_path, (given, place), whole),
        call_ensures(wanted_pid_file, (cli, log_file, place), r),
    ensures
        role is None ==> r == Ok::<Option<String>, Failure>(None),
        !cli.daemon && cli.pid_file is None ==> r == Ok::<Option<String>, Failure>(None),
        role is Some && cli.pid_file is Some ==> (r is Ok <==> whole is Ok) && (r matches Ok(p) ==> (
        p matches Some(q) && q@ == (whole->Ok_0)@)),
        role is Some && cli.pid_file is None && cli.daemon ==> (r is Ok <==> own is Ok) && (
        r matches Ok(p) ==> (p matches Some(q) && q@ == (own->Ok_0)@)),
{
}

/// A time is told in seconds, with the minutes and the hours before them where there
/// are any.
pub proof fn times_are_told_in_parts(h: u64, m: u64, s: u64, secs: u64, r: String)
    requires
        m < 60,
        s < 60,
        secs == h * 3600 + m * 60 + s,
        call_ensures(format_duration, (secs,), r),
    ensures
        h == 0 && m == 0 ==> r@ == decimal(s as nat) + "s"@,
        h == 0 && m > 0 ==> r@ == decimal(m as nat) + "m"@ + two_digits(s as nat) + "s"@,
        h > 0 ==> r@ == decimal(h as nat) + "h"@ + two_digits(m as nat) + "m"@ + two_digits(s as nat)
            + "s"@,
{
    assert(secs / 3600 == h && secs % 3600 / 60 == m && secs % 60 == s);
}

} // verus!
