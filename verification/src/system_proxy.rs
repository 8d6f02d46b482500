//! The proxy and the name servers of the system: reading what is set, setting it
//! and putting it back.

use vstd::prelude::*;
use crate::client::ClientArgs;
use crate::failure::Failure;
use crate::ip::{ip_value, is_loopback, is_unspecified, loopback, parse_ip, unspecified, IpAddr};
use crate::num::{
    decimal, decimal_is_digits, decimal_reads_back, explain_unsigned, parse_unsigned, to_decimal, unsigned_fault, unsigned_value,
};
use crate::text::{
    after_prefix, begins_with, cat, cat3, clone_strings, eq_ignore_case, is_digit, is_whitespace,
    is_word, lemma_lines, lemma_starts, lemma_trimmed_after_space, lemma_trimmed_same, lines,
    lines_of, lower, lower_char, opt_view, same, same_ignoring_case, starts_with, strip_prefix, trim, trimmed, views,
};
use crate::tls::{endpoint_parts, split_host_port};
use crate::tun::Platform;

verus! {

// ---------------------------------------------------------------------------
// Types

/// The proxy of a network service.
#[derive(Clone, Debug, PartialEq, Eq)]
pub struct ServiceProxySnapshot {
    pub name: String,
    pub enabled: bool,
    pub server: Option<String>,
    pub port: Option<u16>,
    pub authenticated: bool,
}

/// The name servers of a network service.
#[derive(Clone, Debug, PartialEq, Eq)]
pub struct ServiceDnsSnapshot {
    pub name: String,
    pub servers: Vec<String>,
}

/// The proxy of a network service.
#[verifier::ext_equal]
pub struct ProxyView {
    pub name: Seq<char>,
    pub enabled: bool,
    pub server: Option<Seq<char>>,
    pub port: Option<u16>,
    pub authenticated: bool,
}

impl View for ServiceProxySnapshot {
    type V = ProxyView;

    open spec fn view(&self) -> ProxyView {
        ProxyView {
            name: self.name@,
            enabled: self.enabled,
            server: opt_view(self.server),
            port: self.port,
            authenticated: self.authenticated,
        }
    }
}

/// A command, word by word.
pub type Words = Vec<String>;

/// The words of commands.
pub open spec fn commands(v: Seq<Words>) -> Seq<Seq<Seq<char>>> {
    v.map_values(|c: Words| views(c@))
}

// ---------------------------------------------------------------------------
// Reading

/// Whether a line names a service that is in use.
pub open spec fn names_service(line: Seq<char>) -> bool {
    line.len() > 0 && !begins_with(line, "An asterisk"@) && !begins_with(line, "*"@)
}

/// The lines without the space around them.
pub open spec fn trimmed_lines(output: Seq<char>) -> Seq<Seq<char>> {
    lines_of(output).map_values(|l: Seq<char>| trimmed(l))
}

/// The services that are in use.
pub fn parse_network_services(output: &str) -> (r: Vec<String>)
    ensures
        views(r@) == trimmed_lines(output@).filter(|l: Seq<char>| names_service(l)),
{
    let all = lines(output);
    let ghost texts = trimmed_lines(output@);
    let ghost keep = |l: Seq<char>| names_service(l);
    let mut out: Vec<String> = Vec::new();
    let mut i: usize = 0;
    proof {
        reveal(Seq::filter);
        assert(texts.take(0) =~= Seq::<Seq<char>>::empty());
        assert(views(out@) =~= Seq::<Seq<char>>::empty());
    }
    while i < all.len()
        invariant
            i <= all.len(),
            views(all@) == lines_of(output@),
            texts == trimmed_lines(output@),
            keep == |l: Seq<char>| names_service(l),
            views(out@) == texts.take(i as int).filter(keep),
        decreases all.len() - i,
    {
        let line = trim(all[i].as_str());
        proof {
            reveal(Seq::filter);
            assert(views(all@)[i as int] == all@[i as int]@);
            assert(texts.take(i + 1).drop_last() =~= texts.take(i as int));
            assert(texts.take(i + 1).last() == line@);
        }
        let ghost before = out@;
        let ghost text = line@;
        if !line.as_str().is_empty() && !starts_with(line.as_str(), "An asterisk")
            && !starts_with(line.as_str(), "*") {
            out.push(line);
            assert(views(out@) =~= views(before).push(text));
        }
        i = i + 1;
    }
    assert(texts.take(i as int) =~= texts);
    out
}

/// The name servers that are set.
pub open spec fn servers_of(output: Seq<char>) -> Seq<Seq<char>> {
    if begins_with(trimmed(output), "There aren't any DNS Servers set on "@) {
        seq![]
    } else {
        trimmed_lines(output).filter(|l: Seq<char>| l.len() > 0)
    }
}

/// The name servers that are set.
pub fn parse_dns_servers(output: &str) -> (r: Vec<String>)
    ensures
        views(r@) == servers_of(output@),
{
    let text = trim(output);
    let mut out: Vec<String> = Vec::new();
    assert(views(out@) =~= Seq::<Seq<char>>::empty());
    if starts_with(text.as_str(), "There aren't any DNS Servers set on ") {
        return out;
    }
    let all = lines(output);
    let ghost texts = trimmed_lines(output@);
    let ghost keep = |l: Seq<char>| l.len() > 0;
    let mut i: usize = 0;
    proof {
        reveal(Seq::filter);
        assert(texts.take(0) =~= Seq::<Seq<char>>::empty());
    }
    while i < all.len()
        invariant
            i <= all.len(),
            views(all@) == lines_of(output@),
            texts == trimmed_lines(output@),
            keep == |l: Seq<char>| l.len() > 0,
            views(out@) == texts.take(i as int).filter(keep),
        decreases all.len() - i,
    {
        let line = trim(all[i].as_str());
        proof {
            reveal(Seq::filter);
            assert(views(all@)[i as int] == all@[i as int]@);
            assert(texts.take(i + 1).drop_last() =~= texts.take(i as int));
            assert(texts.take(i + 1).last() == line@);
        }
        let ghost before = out@;
        let ghost text = line@;
        if !line.as_str().is_empty() {
            out.push(line);
            assert(views(out@) =~= views(before).push(text));
        }
        i = i + 1;
    }
    assert(texts.take(i as int) =~= texts);
    out
}

/// Whether an address can be that of a name server outside of this host.
pub open spec fn is_direct(ip: IpAddr) -> bool {
    !loopback(ip) && !unspecified(ip)
}

fn is_direct_dns_ip(ip: IpAddr) -> (r: bool)
    ensures
        r == is_direct(ip),
{
    !is_loopback(ip) && !is_unspecified(ip)
}

/// The address of a name server outside of this host that a text writes.
pub open spec fn direct_ip(text: Seq<char>) -> Option<IpAddr> {
    match ip_value(text) {
        Some(ip) => if is_direct(ip) {
            Some(ip)
        } else {
            None
        },
        None => None,
    }
}

/// The address of a name server outside of this host that a text writes.
pub fn parse_direct_dns_ip(value: &str) -> (r: Option<IpAddr>)
    ensures
        r == direct_ip(value@),
{
    match parse_ip(value) {
        Some(ip) => if is_direct_dns_ip(ip) {
            Some(ip)
        } else {
            None
        },
        None => None,
    }
}

/// What stands behind a label on a line.
pub open spec fn value_behind(line: Seq<char>, label: Seq<char>) -> Option<Seq<char>> {
    match after_prefix(trimmed(line), label) {
        Some(rest) => Some(trimmed(rest)),
        None => None,
    }
}

fn behind(line: &str, label: &str) -> (r: Option<String>)
    ensures
        opt_view(r) == value_behind(line@, label@),
{
    let line = trim(line);
    match strip_prefix(line.as_str(), label) {
        Some(rest) => Some(trim(rest.as_str())),
        None => None,
    }
}

/// The router that a line names. An address is no text without letters or
/// digits, nor "none".
pub open spec fn router_on(line: Seq<char>) -> Option<IpAddr> {
    match value_behind(line, "Router:"@) {
        Some(v) => if v.len() == 0 || same_ignoring_case(v, "none"@) {
            None
        } else {
            direct_ip(v)
        },
        None => None,
    }
}

/// The first router that lines name.
pub open spec fn first_router(lines: Seq<Seq<char>>) -> Option<IpAddr>
    decreases lines.len(),
{
    if lines.len() == 0 {
        None
    } else if router_on(lines[0]) is Some {
        router_on(lines[0])
    } else {
        first_router(lines.skip(1))
    }
}

/// The router of a service.
pub fn parse_service_router(output: &str) -> (r: Option<IpAddr>)
    ensures
        r == first_router(lines_of(output@)),
{
    let all = lines(output);
    let ghost texts = views(all@);
    let mut i: usize = 0;
    assert(texts.skip(0) =~= texts);
    while i < all.len()
        invariant
            i <= all.len(),
            texts == views(all@),
            texts == lines_of(output@),
            first_router(texts) == first_router(texts.skip(i as int)),
        decreases all.len() - i,
    {
        assert(texts.skip(i as int)[0] == all@[i as int]@);
        assert(texts.skip(i as int).skip(1) =~= texts.skip(i + 1));
        match behind(all[i].as_str(), "Router:") {
            Some(v) => {
                if !v.as_str().is_empty() && !eq_ignore_case(v.as_str(), "none") {
                    match parse_direct_dns_ip(v.as_str()) {
                        Some(ip) => {
                            return Some(ip);
                        },
                        None => {},
                    }
                }
            },
            None => {},
        }
        i = i + 1;
    }
    None
}

/// Whether a line gives an address.
pub open spec fn gives_address(line: Seq<char>) -> bool {
    value_behind(line, "IP address:"@) matches Some(v) && v.len() > 0 && !same_ignoring_case(
        v,
        "none"@,
    )
}

/// Whether a service has an address.
pub fn parse_service_has_ip_address(output: &str) -> (r: bool)
    ensures
        r == (exists|i: int|
            0 <= i < lines_of(output@).len() && gives_address(#[trigger] lines_of(output@)[i])),
{
    let all = lines(output);
    let mut i: usize = 0;
    while i < all.len()
        invariant
            i <= all.len(),
            views(all@) == lines_of(output@),
            forall|k: int| 0 <= k < i ==> !gives_address(#[trigger] lines_of(output@)[k]),
        decreases all.len() - i,
    {
        assert(views(all@)[i as int] == all@[i as int]@);
        match behind(all[i].as_str(), "IP address:") {
            Some(v) => {
                if !v.as_str().is_empty() && !eq_ignore_case(v.as_str(), "none") {
                    assert(gives_address(lines_of(output@)[i as int]));
                    return true;
                }
            },
            None => {},
        }
        i = i + 1;
    }
    false
}

/// Yes or no.
pub open spec fn yes_no(value: Seq<char>) -> Option<bool> {
    if value == "Yes"@ || value == "yes"@ || value == "on"@ || value == "On"@ || value == "true"@
        || value == "True"@ {
        Some(true)
    } else if value == "No"@ || value == "no"@ || value == "off"@ || value == "Off"@ || value
        == "false"@ || value == "False"@ {
        Some(false)
    } else {
        None
    }
}

fn parse_yes_no(value: &str) -> (r: Result<bool, Failure>)
    ensures
        match (r, yes_no(value@)) {
            (Ok(b), Some(c)) => b == c,
            (Err(e), None) => e@ == seq!["expected Yes/No value, got "@ + value@],
            _ => false,
        },
{
    if same(value, "Yes") || same(value, "yes") || same(value, "on") || same(value, "On") || same(
        value,
        "true",
    ) || same(value, "True") {
        Ok(true)
    } else if same(value, "No") || same(value, "no") || same(value, "off") || same(value, "Off")
        || same(value, "false") || same(value, "False") {
        Ok(false)
    } else {
        Err(Failure::new(cat("expected Yes/No value, got ", value).as_str()))
    }
}

/// What lines tell of a proxy.
#[verifier::ext_equal]
pub struct SocksLines {
    pub enabled: Option<bool>,
    pub server: Option<Seq<char>>,
    pub port: Option<u16>,
    pub authenticated: bool,
}

/// Whether a value is there.
pub open spec fn is_there(v: Seq<char>) -> bool {
    v.len() > 0 && !same_ignoring_case(v, "(null)"@)
}

/// What is known of a proxy after one more line.
pub open spec fn with_line(s: SocksLines, line: Seq<char>) -> Result<SocksLines, Seq<Seq<char>>> {
    match value_behind(line, "Enabled:"@) {
        Some(v) => match yes_no(v) {
            Some(b) => Ok(SocksLines { enabled: Some(b), ..s }),
            None => Err(seq!["invalid Enabled field"@, "expected Yes/No value, got "@ + v]),
        },
        None => match value_behind(line, "Server:"@) {
            Some(v) => Ok(
                SocksLines {
                    server: if is_there(v) {
                        Some(v)
                    } else {
                        s.server
                    },
                    ..s
                },
            ),
            None => match value_behind(line, "Port:"@) {
                Some(v) => if is_there(v) {
                    match unsigned_value(v, 65535) {
                        Some(p) => Ok(SocksLines { port: Some(p as u16), ..s }),
                        None => Err(seq!["invalid Port field"@, unsigned_fault(v, 65535)]),
                    }
                } else {
                    Ok(s)
                },
                None => match value_behind(line, "Authenticated Proxy Enabled:"@) {
                    Some(v) => Ok(
                        SocksLines {
                            authenticated: v == "1"@ || v == "yes"@ || v == "Yes"@,
                            ..s
                        },
                    ),
                    None => Ok(s),
                },
            },
        },
    }
}

/// What lines tell of a proxy, or what the first faulty one lacks.
pub open spec fn socks_lines(lines: Seq<Seq<char>>) -> Result<SocksLines, Seq<Seq<char>>>
    decreases lines.len(),
{
    if lines.len() == 0 {
        Ok(SocksLines { enabled: None, server: None, port: None, authenticated: false })
    } else {
        match socks_lines(lines.drop_last()) {
            Ok(s) => with_line(s, lines.last()),
            Err(e) => Err(e),
        }
    }
}

/// A fault in the first lines is a fault of all.
proof fn lemma_socks_fault(lines: Seq<Seq<char>>, k: int)
    requires
        0 <= k <= lines.len(),
        socks_lines(lines.take(k)) is Err,
    ensures
        socks_lines(lines) == socks_lines(lines.take(k)),
    decreases lines.len() - k,
{
    if k == lines.len() {
        assert(lines.take(k) =~= lines);
    } else {
        assert(lines.take(k + 1).drop_last() =~= lines.take(k));
        lemma_socks_fault(lines, k + 1);
    }
}

/// The proxy of a service, or what its description lacks.
pub open spec fn socks_proxy(service: Seq<char>, output: Seq<char>) -> Result<
    ProxyView,
    Seq<Seq<char>>,
> {
    match socks_lines(lines_of(output)) {
        Err(e) => Err(e),
        Ok(s) => match s.enabled {
            None => Err(seq!["missing Enabled field"@]),
            Some(enabled) => Ok(
                ProxyView {
                    name: service,
                    enabled,
                    server: s.server,
                    port: s.port,
                    authenticated: s.authenticated,
                },
            ),
        },
    }
}

/// The proxy of a service.
pub fn parse_socks_proxy(service: &str, output: &str) -> (r: Result<ServiceProxySnapshot, Failure>)
    ensures
        match (r, socks_proxy(service@, output@)) {
            (Ok(p), Ok(v)) => p@ == v,
            (Err(e), Err(f)) => e@ == f,
            _ => false,
        },
{
    let all = lines(output);
    let ghost texts = views(all@);
    let mut enabled: Option<bool> = None;
    let mut server: Option<String> = None;
    let mut port: Option<u16> = None;
    let mut authenticated: bool = false;
    let mut i: usize = 0;
    assert(texts.take(0) =~= Seq::<Seq<char>>::empty());
    while i < all.len()
        invariant
            i <= all.len(),
            texts == views(all@),
            texts == lines_of(output@),
            socks_lines(texts.take(i as int)) == Ok::<SocksLines, Seq<Seq<char>>>(
                SocksLines { enabled, server: opt_view(server), port, authenticated },
            ),
        decreases all.len() - i,
    {
        let line = all[i].as_str();
        let ghost known = SocksLines { enabled, server: opt_view(server), port, authenticated };
        proof {
            assert(texts[i as int] == line@);
            assert(texts.take(i + 1).drop_last() =~= texts.take(i as int));
            assert(texts.take(i + 1).last() == line@);
            assert(socks_lines(texts.take(i + 1)) == with_line(known, line@));
        }
        match behind(line, "Enabled:") {
            Some(v) => match parse_yes_no(v.as_str()) {
                Ok(b) => {
                    enabled = Some(b);
                },
                Err(e) => {
                    let e = e.context("invalid Enabled field");
                    proof {
                        assert(e@ =~= seq![
                            "invalid Enabled field"@,
                            "expected Yes/No value, got "@ + v@,
                        ]);
                        lemma_socks_fault(texts, i + 1);
                    }
                    return Err(e);
                },
            },
            None => match behind(line, "Server:") {
                Some(v) => {
                    if !v.as_str().is_empty() && !eq_ignore_case(v.as_str(), "(null)") {
                        server = Some(v);
                    }
                },
                None => match behind(line, "Port:") {
                    Some(v) => {
                        if !v.as_str().is_empty() && !eq_ignore_case(v.as_str(), "(null)") {
                            match parse_unsigned(v.as_str(), 65535) {
                                Some(p) => {
                                    port = Some(p as u16);
                                },
                                None => {
                                    let fault = explain_unsigned(v.as_str(), 65535);
                                    let e = Failure::new(fault.as_str()).context(
                                        "invalid Port field",
                                    );
                                    proof {
                                        assert(e@ =~= seq![
                                            "invalid Port field"@,
                                            unsigned_fault(v@, 65535),
                                        ]);
                                        lemma_socks_fault(texts, i + 1);
                                    }
                                    return Err(e);
                                },
                            }
                        }
                    },
                    None => match behind(line, "Authenticated Proxy Enabled:") {
                        Some(v) => {
                            authenticated = same(v.as_str(), "1") || same(v.as_str(), "yes")
                                || same(v.as_str(), "Yes");
                        },
                        None => {},
                    },
                },
            },
        }
        i = i + 1;
    }
    assert(texts.take(i as int) =~= texts);
    match enabled {
        Some(enabled) => Ok(
            ServiceProxySnapshot { name: service.to_owned(), enabled, server, port, authenticated },
        ),
        None => Err(Failure::new("missing Enabled field")),
    }
}

// ---------------------------------------------------------------------------
// Name servers

/// Whether two lists name the same servers in the same order.
pub open spec fn same_servers(a: Seq<Seq<char>>, b: Seq<Seq<char>>) -> bool {
    &&& a.len() == b.len()
    &&& forall|i: int|
        0 <= i < a.len() ==> same_ignoring_case(trimmed(#[trigger] a[i]), trimmed(b[i]))
}

/// Whether two lists name the same servers in the same order.
pub fn dns_server_lists_match(left: &Vec<String>, right: &Vec<String>) -> (r: bool)
    ensures
        r == same_servers(views(left@), views(right@)),
{
    if left.len() != right.len() {
        return false;
    }
    let mut i: usize = 0;
    while i < left.len()
        invariant
            i <= left.len() == right.len(),
            forall|k: int|
                0 <= k < i ==> same_ignoring_case(
                    trimmed(#[trigger] views(left@)[k]),
                    trimmed(views(right@)[k]),
                ),
        decreases left.len() - i,
    {
        let a = trim(left[i].as_str());
        let b = trim(right[i].as_str());
        assert(views(left@)[i as int] == left@[i as int]@);
        assert(views(right@)[i as int] == right@[i as int]@);
        if !eq_ignore_case(a.as_str(), b.as_str()) {
            return false;
        }
        i = i + 1;
    }
    true
}

/// Whether the text of a server is an address of this host.
pub open spec fn is_local_server(server: Seq<char>) -> bool {
    ip_value(server) matches Some(ip) && loopback(ip)
}

/// Whether all name servers, of which there is one at least, are on this host.
pub open spec fn local_servers(servers: Seq<Seq<char>>) -> bool {
    servers.len() > 0 && forall|i: int|
        0 <= i < servers.len() ==> is_local_server(#[trigger] servers[i])
}

fn is_loopback_dns_override(servers: &Vec<String>) -> (r: bool)
    ensures
        r == local_servers(views(servers@)),
{
    if servers.len() == 0 {
        return false;
    }
    let mut i: usize = 0;
    while i < servers.len()
        invariant
            i <= servers.len(),
            forall|k: int| 0 <= k < i ==> is_local_server(#[trigger] views(servers@)[k]),
        decreases servers.len() - i,
    {
        assert(views(servers@)[i as int] == servers@[i as int]@);
        let local = match parse_ip(servers[i].as_str()) {
            Some(ip) => is_loopback(ip),
            None => false,
        };
        if !local {
            return false;
        }
        i = i + 1;
    }
    true
}

/// Whether what is set is only what an earlier run left behind.
pub open spec fn is_stale(servers: Seq<Seq<char>>, wanted: Seq<Seq<char>>) -> bool {
    local_servers(wanted) && same_servers(servers, wanted)
}

/// What is to be put back later: what is set, unless an earlier run left it
/// behind. Says whether it did.
pub fn sanitize_dns_snapshot_for_override(
    snapshot: ServiceDnsSnapshot,
    override_servers: &Vec<String>,
) -> (r: (ServiceDnsSnapshot, bool))
    ensures
        r.0.name@ == snapshot.name@,
        r.1 == is_stale(views(snapshot.servers@), views(override_servers@)),
        r.1 ==> r.0.servers@.len() == 0,
        !r.1 ==> r.0.servers@ == snapshot.servers@,
{
    if is_loopback_dns_override(override_servers) && dns_server_lists_match(
        &snapshot.servers,
        override_servers,
    ) {
        (ServiceDnsSnapshot { name: snapshot.name, servers: Vec::new() }, true)
    } else {
        (snapshot, false)
    }
}

// ---------------------------------------------------------------------------
// Commands

fn push_word(command: &mut Words, word: &str)
    ensures
        views(final(command)@) == views(old(command)@).push(word@),
{
    command.push(word.to_owned());
    assert(views(command@) =~= views(old(command)@).push(word@));
}

fn two(a: &str, b: &str) -> (r: Words)
    ensures
        views(r@) == seq![a@, b@],
{
    let mut v: Words = Vec::new();
    push_word(&mut v, a);
    push_word(&mut v, b);
    assert(views(v@) =~= seq![a@, b@]);
    v
}

fn three(a: &str, b: &str, c: &str) -> (r: Words)
    ensures
        views(r@) == seq![a@, b@, c@],
{
    let mut v = two(a, b);
    push_word(&mut v, c);
    assert(views(v@) =~= seq![a@, b@, c@]);
    v
}

fn four(a: &str, b: &str, c: &str, d: &str) -> (r: Words)
    ensures
        views(r@) == seq![a@, b@, c@, d@],
{
    let mut v = three(a, b, c);
    push_word(&mut v, d);
    assert(views(v@) =~= seq![a@, b@, c@, d@]);
    v
}

/// The commands that set a proxy.
pub open spec fn set_proxy(service: Seq<char>, host: Seq<char>, port: u16) -> Seq<Seq<Seq<char>>> {
    seq![
        seq!["-setsocksfirewallproxy"@, service, host, decimal(port as nat)],
        seq!["-setsocksfirewallproxystate"@, service, "on"@],
    ]
}

/// The commands that set the proxy of a service.
pub fn set_service_proxy(service: &str, host: &str, port: u16) -> (r: Vec<Words>)
    ensures
        commands(r@) == set_proxy(service@, host@, port),
{
    let mut out: Vec<Words> = Vec::new();
    let number = to_decimal(port as u64);
    out.push(four("-setsocksfirewallproxy", service, host, number.as_str()));
    out.push(three("-setsocksfirewallproxystate", service, "on"));
    assert(commands(out@) =~= set_proxy(service@, host@, port));
    out
}

/// The commands that put a proxy back.
pub open spec fn put_back_proxy(p: ProxyView) -> Seq<Seq<Seq<char>>> {
    let state = if p.enabled {
        "on"@
    } else {
        "off"@
    };
    let last = seq!["-setsocksfirewallproxystate"@, p.name, state];
    match (p.server, p.port) {
        (Some(server), Some(port)) => seq![
            seq!["-setsocksfirewallproxy"@, p.name, server, decimal(port as nat)],
            last,
        ],
        _ => seq![last],
    }
}

/// The commands that put the proxy of a service back.
pub fn restore_service(snapshot: &ServiceProxySnapshot) -> (r: Vec<Words>)
    ensures
        commands(r@) == put_back_proxy(snapshot@),
{
    let mut out: Vec<Words> = Vec::new();
    match (&snapshot.server, snapshot.port) {
        (Some(server), Some(port)) => {
            let number = to_decimal(port as u64);
            out.push(
                four(
                    "-setsocksfirewallproxy",
                    snapshot.name.as_str(),
                    server.as_str(),
                    number.as_str(),
                ),
            );
        },
        _ => {},
    }
    let state = if snapshot.enabled {
        "on"
    } else {
        "off"
    };
    out.push(three("-setsocksfirewallproxystate", snapshot.name.as_str(), state));
    assert(commands(out@) =~= put_back_proxy(snapshot@));
    out
}

/// The command that sets name servers.
pub open spec fn set_servers(service: Seq<char>, servers: Seq<Seq<char>>) -> Seq<Seq<char>> {
    seq!["-setdnsservers"@, service] + servers
}

fn servers_command(service: &str, servers: &Vec<String>) -> (r: Words)
    ensures
        views(r@) == set_servers(service@, views(servers@)),
{
    let mut out = two("-setdnsservers", service);
    let ghost head = out@;
    let mut more = clone_strings(servers);
    let ghost tail = more@;
    out.append(&mut more);
    assert(views(out@) =~= views(head) + views(tail));
    assert(views(out@) =~= set_servers(service@, views(servers@)));
    out
}

/// The command that sets the name servers of a service.
pub fn set_service_dns_servers(service: &str, servers: &Vec<String>) -> (r: Result<Words, Failure>)
    ensures
        match r {
            Ok(c) => servers@.len() > 0 && views(c@) == set_servers(service@, views(servers@)),
            Err(e) => servers@.len() == 0 && e@ == seq!["at least one DNS server is required"@],
        },
{
    if servers.len() == 0 {
        return Err(Failure::new("at least one DNS server is required"));
    }
    Ok(servers_command(service, servers))
}

/// The command that puts name servers back.
pub open spec fn put_back_servers(service: Seq<char>, servers: Seq<Seq<char>>) -> Seq<Seq<char>> {
    if servers.len() == 0 {
        set_servers(service, seq!["Empty"@])
    } else {
        set_servers(service, servers)
    }
}

/// The command that puts the name servers of a service back.
pub fn restore_service_dns(snapshot: &ServiceDnsSnapshot) -> (r: Words)
    ensures
        views(r@) == put_back_servers(snapshot.name@, views(snapshot.servers@)),
{
    if snapshot.servers.len() == 0 {
        let r = three("-setdnsservers", snapshot.name.as_str(), "Empty");
        assert(views(r@) =~= set_servers(snapshot.name@, seq!["Empty"@]));
        r
    } else {
        servers_command(snapshot.name.as_str(), &snapshot.servers)
    }
}

/// What a list of texts looks like for one who looks for mistakes.
pub uninterp spec fn debug_list(list: Seq<Seq<char>>) -> Seq<char>;

/// `format!` with `{:?}` on a list of texts shows them in square brackets, each in
/// quotes, with what cannot be printed written out. What it gives for a list is
/// only named here.
#[verifier::external_body]
fn show_list(list: &Vec<String>) -> (r: String)
    ensures
        r@ == debug_list(views(list@)),
{
    format!("{:?}", list)
}

/// What is said of a `networksetup` that failed.
pub open spec fn setup_failure(args: Seq<char>, stderr: Seq<char>, stdout: Seq<char>) -> Seq<char> {
    let out = trimmed(stdout);
    let tail = if out.len() == 0 || trimmed(stderr).len() == 0 {
        out
    } else {
        "; "@ + out
    };
    "networksetup "@ + args + " failed: "@ + trimmed(stderr) + tail
}

/// What is said of a `networksetup` that failed, given how its arguments look.
pub fn setup_failure_text(args: &str, stderr: &str, stdout: &str) -> (r: String)
    ensures
        r@ == setup_failure(args@, stderr@, stdout@),
{
    let err = trim(stderr);
    let out = trim(stdout);
    let tail = if out.as_str().is_empty() || err.as_str().is_empty() {
        out
    } else {
        cat("; ", out.as_str())
    };
    let head = cat3("networksetup ", args, " failed: ");
    cat3(head.as_str(), err.as_str(), tail.as_str())
}

/// The failure of a `networksetup`.
pub fn networksetup_failure(args: &Words, stderr: &str, stdout: &str) -> (r: Failure)
    ensures
        r@ == seq![setup_failure(debug_list(views(args@)), stderr@, stdout@)],
{
    let shown = show_list(args);
    Failure::new(setup_failure_text(shown.as_str(), stderr, stdout).as_str())
}

// ---------------------------------------------------------------------------
// Services

/// The services whose flag is set.
pub open spec fn chosen(services: Seq<String>, active: Seq<bool>) -> Seq<String>
    decreases services.len(),
{
    if services.len() == 0 || active.len() != services.len() {
        seq![]
    } else {
        let rest = chosen(services.drop_last(), active.drop_last());
        if active.last() {
            rest.push(services.last())
        } else {
            rest
        }
    }
}

/// The services that a setting is for: the ones that were named, or else the
/// active ones, or else all.
pub fn determine_services(explicit: &Vec<String>, listed: &Vec<String>, active: &Vec<bool>) -> (r:
    Result<Vec<String>, Failure>)
    requires
        active.len() == listed.len(),
    ensures
        match r {
            Ok(v) => v@ == if explicit.len() > 0 {
                explicit@
            } else if chosen(listed@, active@).len() > 0 {
                chosen(listed@, active@)
            } else {
                listed@
            } && (explicit.len() > 0 || listed.len() > 0),
            Err(e) => explicit.len() == 0 && listed.len() == 0 && e@
                == seq!["networksetup returned no enabled macOS network services"@],
        },
{
    if explicit.len() > 0 {
        return Ok(copy_texts(explicit));
    }
    if listed.len() == 0 {
        return Err(Failure::new("networksetup returned no enabled macOS network services"));
    }
    let mut out: Vec<String> = Vec::new();
    let mut i: usize = 0;
    while i < listed.len()
        invariant
            i <= listed.len() == active.len(),
            out@ == chosen(listed@.take(i as int), active@.take(i as int)),
        decreases listed.len() - i,
    {
        proof {
            assert(listed@.take(i + 1).drop_last() =~= listed@.take(i as int));
            assert(active@.take(i + 1).drop_last() =~= active@.take(i as int));
        }
        if active[i] {
            out.push(listed[i].clone());
        }
        i = i + 1;
    }
    assert(listed@.take(i as int) =~= listed@);
    assert(active@.take(i as int) =~= active@);
    if out.len() > 0 {
        Ok(out)
    } else {
        Ok(copy_texts(listed))
    }
}

fn copy_texts(v: &Vec<String>) -> (r: Vec<String>)
    ensures
        r@ == v@,
{
    let mut out: Vec<String> = Vec::new();
    let mut i: usize = 0;
    while i < v.len()
        invariant
            i <= v.len(),
            out@ == v@.take(i as int),
        decreases v.len() - i,
    {
        out.push(v[i].clone());
        i = i + 1;
        assert(v@.take(i as int) =~= v@.take(i - 1).push(v@[i - 1]));
    }
    assert(v@.take(i as int) =~= v@);
    out
}

// ---------------------------------------------------------------------------
// Guards

/// The host that others reach a listener at.
pub open spec fn reachable_host(host: Seq<char>) -> Seq<char> {
    if host == "0.0.0.0"@ {
        "127.0.0.1"@
    } else if host == "::"@ {
        "::1"@
    } else {
        host
    }
}

/// The host that others reach a listener at.
pub fn normalize_proxy_host(host: &str) -> (r: String)
    ensures
        r@ == reachable_host(host@),
{
    if same(host, "0.0.0.0") {
        "127.0.0.1".to_owned()
    } else if same(host, "::") {
        "::1".to_owned()
    } else {
        host.to_owned()
    }
}

/// Where the proxy of the system is to point.
pub fn proxy_target_from_listen(listen: &str) -> (r: Result<(String, u16), Failure>)
    ensures
        match (r, endpoint_parts(listen@)) {
            (Ok((h, p)), Ok((host, port))) => h@ == reachable_host(host) && p == port,
            (Err(e), Err(f)) => e@ == seq!["failed to parse client listen address "@ + listen@] + f,
            _ => false,
        },
{
    match split_host_port(listen) {
        Ok((host, port)) => Ok((normalize_proxy_host(host.as_str()), port)),
        Err(e) => Err(e.context(cat("failed to parse client listen address ", listen).as_str())),
    }
}

/// Whether the system is to use the client as its proxy.
pub fn maybe_activate(args: &ClientArgs, platform: Platform) -> (r: Result<bool, Failure>)
    ensures
        match r {
            Ok(b) => b == args.system_proxy && (b ==> platform == Platform::MacOs),
            Err(e) => args.system_proxy && platform != Platform::MacOs && e@
                == seq!["--system-proxy is only supported on macOS"@],
        },
{
    if !args.system_proxy {
        return Ok(false);
    }
    match platform {
        Platform::MacOs => Ok(true),
        Platform::Other => Err(Failure::new("--system-proxy is only supported on macOS")),
    }
}

/// Whether the system is to ask the given name servers.
pub fn maybe_activate_tun_dns(servers: &Vec<String>, platform: Platform) -> (r: bool)
    ensures
        r == (servers.len() > 0 && platform == Platform::MacOs),
{
    if servers.len() == 0 {
        return false;
    }
    match platform {
        Platform::MacOs => true,
        Platform::Other => false,
    }
}

/// Whether a proxy can be put back later.
pub open spec fn replaceable(p: ProxyView) -> bool {
    !p.authenticated && (p.enabled ==> p.server is Some && p.port is Some)
}

/// What is said of a proxy that cannot be put back later.
pub open spec fn irreplaceable(p: ProxyView) -> Seq<char> {
    if p.authenticated {
        "cannot override authenticated SOCKS proxy on macOS service "@ + p.name + " safely"@
    } else {
        "cannot restore existing SOCKS proxy on macOS service "@ + p.name
            + " because its current server or port is missing"@
    }
}

/// The proxies of the system while the client is its proxy.
#[derive(Debug)]
pub struct SystemProxyGuard {
    pub snapshots: Vec<ServiceProxySnapshot>,
    pub host: String,
    pub port: u16,
}

/// The commands that put proxies back, the last first.
pub open spec fn put_back_all(snapshots: Seq<ServiceProxySnapshot>) -> Seq<Seq<Seq<char>>>
    decreases snapshots.len(),
{
    if snapshots.len() == 0 {
        seq![]
    } else {
        put_back_proxy(snapshots.last()@) + put_back_all(snapshots.drop_last())
    }
}

/// The commands that set the proxies of services.
pub open spec fn set_all(snapshots: Seq<ServiceProxySnapshot>, host: Seq<char>, port: u16) -> Seq<
    Seq<Seq<char>>,
>
    decreases snapshots.len(),
{
    if snapshots.len() == 0 {
        seq![]
    } else {
        set_all(snapshots.drop_last(), host, port) + set_proxy(
            snapshots.last().name@,
            host,
            port,
        )
    }
}

impl SystemProxyGuard {
    /// Takes note of the proxies of services, which can all be put back later.
    pub fn activate(listen: &str, snapshots: Vec<ServiceProxySnapshot>) -> (r: Result<
        Self,
        Failure,
    >)
        ensures
            match r {
                Ok(g) => {
                    &&& g.snapshots@ == snapshots@
                    &&& snapshots@.len() > 0
                    &&& endpoint_parts(listen@) matches Ok((host, port))
                    &&& g.host@ == reachable_host(host)
                    &&& g.port == port
                    &&& forall|i: int|
                        0 <= i < snapshots@.len() ==> replaceable((#[trigger] snapshots@[i])@)
                },
                Err(e) => match endpoint_parts(listen@) {
                    Err(f) => e@ == seq!["failed to parse client listen address "@ + listen@] + f,
                    Ok(_) => if snapshots@.len() == 0 {
                        e@
                            == seq!["no macOS network services are available for --system-proxy"@]
                    } else {
                        exists|i: int|
                            {
                                &&& 0 <= i < snapshots@.len()
                                &&& !replaceable((#[trigger] snapshots@[i])@)
                                &&& e@ == seq![irreplaceable(snapshots@[i]@)]
                                &&& forall|k: int|
                                    0 <= k < i ==> replaceable((#[trigger] snapshots@[k])@)
                            }
                    },
                },
            },
    {
        let (host, port) = match proxy_target_from_listen(listen) {
            Ok(pair) => pair,
            Err(e) => {
                return Err(e);
            },
        };
        if snapshots.len() == 0 {
            return Err(
                Failure::new("no macOS network services are available for --system-proxy"),
            );
        }
        let mut i: usize = 0;
        while i < snapshots.len()
            invariant
                i <= snapshots.len(),
                snapshots@.len() > 0,
                endpoint_parts(listen@) is Ok,
                forall|k: int| 0 <= k < i ==> replaceable((#[trigger] snapshots@[k])@),
            decreases snapshots.len() - i,
        {
            let s = &snapshots[i];
            if s.authenticated {
                let text = cat3(
                    "cannot override authenticated SOCKS proxy on macOS service ",
                    s.name.as_str(),
                    " safely",
                );
                assert(!replaceable(snapshots@[i as int]@));
                return Err(Failure::new(text.as_str()));
            }
            if s.enabled && (s.server.is_none() || s.port.is_none()) {
                let text = cat3(
                    "cannot restore existing SOCKS proxy on macOS service ",
                    s.name.as_str(),
                    " because its current server or port is missing",
                );
                assert(!replaceable(snapshots@[i as int]@));
                return Err(Failure::new(text.as_str()));
            }
            i = i + 1;
        }
        Ok(SystemProxyGuard { snapshots, host, port })
    }

    /// The commands that make the client the proxy of the system.
    pub fn apply_proxy(&self) -> (r: Vec<Words>)
        ensures
            commands(r@) == set_all(self.snapshots@, self.host@, self.port),
    {
        let mut out: Vec<Words> = Vec::new();
        let mut i: usize = 0;
        assert(commands(out@) =~= Seq::empty());
        while i < self.snapshots.len()
            invariant
                i <= self.snapshots.len(),
                commands(out@) == set_all(
                    self.snapshots@.take(i as int),
                    self.host@,
                    self.port,
                ),
            decreases self.snapshots.len() - i,
        {
            let ghost before = out@;
            let mut more = set_service_proxy(
                self.snapshots[i].name.as_str(),
                self.host.as_str(),
                self.port,
            );
            let ghost added = more@;
            out.append(&mut more);
            i = i + 1;
            assert(self.snapshots@.take(i as int).drop_last() =~= self.snapshots@.take(i - 1));
            assert(commands(out@) =~= commands(before) + commands(added));
        }
        assert(self.snapshots@.take(i as int) =~= self.snapshots@);
        out
    }

    /// The commands that put back the first `applied` of the proxies, the last
    /// first.
    pub fn roll_back(&self, applied: usize) -> (r: Vec<Words>)
        requires
            applied <= self.snapshots.len(),
        ensures
            commands(r@) == put_back_all(self.snapshots@.take(applied as int)),
    {
        let ghost all = put_back_all(self.snapshots@.take(applied as int));
        let mut out: Vec<Words> = Vec::new();
        let mut i: usize = applied;
        assert(commands(out@) + put_back_all(self.snapshots@.take(i as int)) =~= all);
        while i > 0
            invariant
                i <= applied <= self.snapshots.len(),
                all == commands(out@) + put_back_all(self.snapshots@.take(i as int)),
            decreases i,
        {
            let ghost before = out@;
            let ghost rest = self.snapshots@.take(i - 1);
            let mut more = restore_service(&self.snapshots[i - 1]);
            let ghost added = more@;
            out.append(&mut more);
            proof {
                assert(self.snapshots@.take(i as int).drop_last() =~= rest);
                assert(commands(out@) =~= commands(before) + commands(added));
                assert(commands(before) + (commands(added) + put_back_all(rest)) =~= commands(out@)
                    + put_back_all(rest));
            }
            i = i - 1;
        }
        assert(all =~= commands(out@));
        out
    }

    /// The commands that put all proxies back, the last first.
    pub fn restore_original(&self) -> (r: Vec<Words>)
        ensures
            commands(r@) == put_back_all(self.snapshots@),
    {
        assert(self.snapshots@.take(self.snapshots@.len() as int) =~= self.snapshots@);
        self.roll_back(self.snapshots.len())
    }
}

/// The name servers of the system while the tunnel is one.
#[derive(Debug)]
pub struct SystemDnsGuard {
    pub snapshots: Vec<ServiceDnsSnapshot>,
    pub servers: Vec<String>,
}

/// What is watched of the name servers of the system.
#[derive(Debug)]
pub struct SystemDnsMonitor {
    pub services: Vec<String>,
    pub servers: Vec<String>,
}

/// How the name servers of the system are.
#[derive(Clone, Debug, PartialEq, Eq)]
pub struct SystemDnsMonitorCheck {
    pub ok: bool,
    pub detail: String,
}

/// The first address outside of this host in a list.
pub open spec fn first_direct(servers: Seq<String>) -> Option<IpAddr>
    decreases servers.len(),
{
    if servers.len() == 0 {
        None
    } else if direct_ip(servers[0]@) is Some {
        direct_ip(servers[0]@)
    } else {
        first_direct(servers.skip(1))
    }
}

/// The first address outside of this host that was set for a service.
pub open spec fn first_set(snapshots: Seq<ServiceDnsSnapshot>) -> Option<IpAddr>
    decreases snapshots.len(),
{
    if snapshots.len() == 0 {
        None
    } else if first_direct(snapshots[0].servers@) is Some {
        first_direct(snapshots[0].servers@)
    } else {
        first_set(snapshots.skip(1))
    }
}

/// The first router outside of this host.
pub open spec fn first_known(routers: Seq<Option<IpAddr>>) -> Option<IpAddr>
    decreases routers.len(),
{
    if routers.len() == 0 {
        None
    } else {
        match routers[0] {
            Some(ip) => if is_direct(ip) {
                Some(ip)
            } else {
                first_known(routers.skip(1))
            },
            None => first_known(routers.skip(1)),
        }
    }
}

fn find_direct(servers: &Vec<String>) -> (r: Option<IpAddr>)
    ensures
        r == first_direct(servers@),
{
    let mut i: usize = 0;
    assert(servers@.skip(0) =~= servers@);
    while i < servers.len()
        invariant
            i <= servers.len(),
            first_direct(servers@) == first_direct(servers@.skip(i as int)),
        decreases servers.len() - i,
    {
        assert(servers@.skip(i as int).skip(1) =~= servers@.skip(i + 1));
        match parse_direct_dns_ip(servers[i].as_str()) {
            Some(ip) => {
                return Some(ip);
            },
            None => {},
        }
        i = i + 1;
    }
    None
}

impl SystemDnsGuard {
    /// Takes note of the name servers of services.
    pub fn activate(current: Vec<ServiceDnsSnapshot>, servers: &Vec<String>) -> (r: Result<
        Self,
        Failure,
    >)
        ensures
            match r {
                Ok(g) => {
                    &&& current@.len() > 0
                    &&& g.servers@ == servers@
                    &&& g.snapshots@.len() == current@.len()
                    &&& forall|i: int|
                        0 <= i < current@.len() ==> {
                            let now = #[trigger] current@[i];
                            &&& g.snapshots@[i].name@ == now.name@
                            &&& g.snapshots@[i].servers@ == if is_stale(
                                views(now.servers@),
                                views(servers@),
                            ) {
                                Seq::<String>::empty()
                            } else {
                                now.servers@
                            }
                        }
                },
                Err(e) => current@.len() == 0 && e@
                    == seq!["no macOS network services are available for tun DNS override"@],
            },
    {
        if current.len() == 0 {
            return Err(
                Failure::new("no macOS network services are available for tun DNS override"),
            );
        }
        let mut snapshots: Vec<ServiceDnsSnapshot> = Vec::new();
        let mut i: usize = 0;
        while i < current.len()
            invariant
                i <= current.len(),
                snapshots@.len() == i,
                forall|k: int|
                    0 <= k < i ==> {
                        let now = #[trigger] current@[k];
                        &&& snapshots@[k].name@ == now.name@
                        &&& snapshots@[k].servers@ == if is_stale(
                            views(now.servers@),
                            views(servers@),
                        ) {
                            Seq::<String>::empty()
                        } else {
                            now.servers@
                        }
                    },
            decreases current.len() - i,
        {
            let now = ServiceDnsSnapshot {
                name: current[i].name.clone(),
                servers: copy_texts(&current[i].servers),
            };
            let (kept, _) = sanitize_dns_snapshot_for_override(now, servers);
            assert(kept.servers@.len() == 0 ==> kept.servers@ =~= Seq::<String>::empty());
            snapshots.push(kept);
            i = i + 1;
        }
        Ok(SystemDnsGuard { snapshots, servers: copy_texts(servers) })
    }

    /// The commands that make the tunnel the name server of the system.
    pub fn apply_override(&self) -> (r: Result<Vec<Words>, Failure>)
        ensures
            match r {
                Ok(v) => {
                    &&& self.snapshots@.len() == 0 || self.servers@.len() > 0
                    &&& commands(v@) == self.snapshots@.map_values(
                        |s: ServiceDnsSnapshot| set_servers(s.name@, views(self.servers@)),
                    )
                },
                Err(e) => {
                    &&& self.snapshots@.len() > 0 && self.servers@.len() == 0
                    &&& e@ == seq!["at least one DNS server is required"@]
                },
            },
    {
        let ghost all = self.snapshots@.map_values(
            |s: ServiceDnsSnapshot| set_servers(s.name@, views(self.servers@)),
        );
        let mut out: Vec<Words> = Vec::new();
        let mut i: usize = 0;
        assert(commands(out@) =~= all.take(0));
        while i < self.snapshots.len()
            invariant
                i <= self.snapshots.len(),
                i > 0 ==> self.servers@.len() > 0,
                all == self.snapshots@.map_values(
                    |s: ServiceDnsSnapshot| set_servers(s.name@, views(self.servers@)),
                ),
                commands(out@) == all.take(i as int),
            decreases self.snapshots.len() - i,
        {
            match set_service_dns_servers(self.snapshots[i].name.as_str(), &self.servers) {
                Ok(c) => {
                    let ghost before = out@;
                    out.push(c);
                    i = i + 1;
                    assert(commands(out@) =~= commands(before).push(views(c@)));
                    assert(all.take(i as int) =~= all.take(i - 1).push(all[i - 1]));
                },
                Err(e) => {
                    return Err(e);
                },
            }
        }
        assert(all.take(i as int) =~= all);
        Ok(out)
    }

    /// The commands that put the name servers of the first `applied` services
    /// back, the last first.
    pub fn roll_back(&self, applied: usize) -> (r: Vec<Words>)
        requires
            applied <= self.snapshots.len(),
        ensures
            r@.len() == applied,
            forall|i: int|
                0 <= i < applied ==> views((#[trigger] r@[i])@) == put_back_servers(
                    self.snapshots@[applied - 1 - i].name@,
                    views(self.snapshots@[applied - 1 - i].servers@),
                ),
    {
        let mut out: Vec<Words> = Vec::new();
        let mut i: usize = applied;
        while i > 0
            invariant
                i <= applied <= self.snapshots.len(),
                out@.len() == applied - i,
                forall|k: int|
                    0 <= k < applied - i ==> views((#[trigger] out@[k])@) == put_back_servers(
                        self.snapshots@[applied - 1 - k].name@,
                        views(self.snapshots@[applied - 1 - k].servers@),
                    ),
            decreases i,
        {
            out.push(restore_service_dns(&self.snapshots[i - 1]));
            i = i - 1;
        }
        out
    }

    /// The commands that put all name servers back, the last first.
    pub fn restore_original(&self) -> (r: Vec<Words>)
        ensures
            r@.len() == self.snapshots@.len(),
            forall|i: int|
                0 <= i < r@.len() ==> views((#[trigger] r@[i])@) == put_back_servers(
                    self.snapshots@[r@.len() - 1 - i].name@,
                    views(self.snapshots@[r@.len() - 1 - i].servers@),
                ),
    {
        self.roll_back(self.snapshots.len())
    }

    /// A name server outside of the tunnel: one that was set, or else a router,
    /// of which `routers` gives one for each service.
    pub fn direct_dns_upstream(&self, routers: &Vec<Option<IpAddr>>) -> (r: Option<IpAddr>)
        ensures
            r == match first_set(self.snapshots@) {
                Some(ip) => Some(ip),
                None => first_known(routers@),
            },
    {
        let mut i: usize = 0;
        assert(self.snapshots@.skip(0) =~= self.snapshots@);
        while i < self.snapshots.len()
            invariant
                i <= self.snapshots.len(),
                first_set(self.snapshots@) == first_set(self.snapshots@.skip(i as int)),
            decreases self.snapshots.len() - i,
        {
            assert(self.snapshots@.skip(i as int).skip(1) =~= self.snapshots@.skip(i + 1));
            match find_direct(&self.snapshots[i].servers) {
                Some(ip) => {
                    return Some(ip);
                },
                None => {},
            }
            i = i + 1;
        }
        let mut k: usize = 0;
        assert(routers@.skip(0) =~= routers@);
        while k < routers.len()
            invariant
                k <= routers.len(),
                first_set(self.snapshots@) is None,
                first_known(routers@) == first_known(routers@.skip(k as int)),
            decreases routers.len() - k,
        {
            assert(routers@.skip(k as int).skip(1) =~= routers@.skip(k + 1));
            match routers[k] {
                Some(ip) => {
                    if is_direct_dns_ip(ip) {
                        return Some(ip);
                    }
                },
                None => {},
            }
            k = k + 1;
        }
        None
    }

    /// What is to be watched.
    pub fn monitor(&self) -> (r: SystemDnsMonitor)
        ensures
            r.servers@ == self.servers@,
            views(r.services@) == self.snapshots@.map_values(|s: ServiceDnsSnapshot| s.name@),
    {
        let ghost names = self.snapshots@.map_values(|s: ServiceDnsSnapshot| s.name@);
        let mut services: Vec<String> = Vec::new();
        let mut i: usize = 0;
        assert(views(services@) =~= names.take(0));
        while i < self.snapshots.len()
            invariant
                i <= self.snapshots.len(),
                names == self.snapshots@.map_values(|s: ServiceDnsSnapshot| s.name@),
                views(services@) == names.take(i as int),
            decreases self.snapshots.len() - i,
        {
            let ghost before = services@;
            services.push(self.snapshots[i].name.clone());
            i = i + 1;
            assert(views(services@) =~= views(before).push(names[i - 1]));
            assert(names.take(i as int) =~= names.take(i - 1).push(names[i - 1]));
        }
        assert(names.take(i as int) =~= names);
        SystemDnsMonitor { services, servers: copy_texts(&self.servers) }
    }
}

/// The first service whose name servers are not the wanted ones.
pub open spec fn first_stray(
    current: Seq<Vec<String>>,
    wanted: Seq<Seq<char>>,
    from: int,
) -> Option<int>
    decreases current.len() - from,
{
    if from < 0 || from >= current.len() {
        None
    } else if !same_servers(views(current[from]@), wanted) {
        Some(from)
    } else {
        first_stray(current, wanted, from + 1)
    }
}

impl SystemDnsMonitor {
    /// The first of the watched services whose name servers are not the wanted
    /// ones, given what is set for each.
    pub fn stray_service(&self, current: &Vec<Vec<String>>) -> (r: Option<usize>)
        ensures
            match (r, first_stray(current@, views(self.servers@), 0)) {
                (Some(i), Some(k)) => i == k && i < current.len(),
                (None, None) => true,
                _ => false,
            },
    {
        let mut i: usize = 0;
        while i < current.len()
            invariant
                i <= current.len(),
                first_stray(current@, views(self.servers@), 0) == first_stray(
                    current@,
                    views(self.servers@),
                    i as int,
                ),
            decreases current.len() - i,
        {
            if !dns_server_lists_match(&current[i], &self.servers) {
                return Some(i);
            }
            i = i + 1;
        }
        None
    }

    /// How the name servers of the system are, given what is set for each of the
    /// watched services.
    pub fn check(&self, current: &Vec<Vec<String>>, platform: Platform) -> (r:
        SystemDnsMonitorCheck)
        requires
            current.len() == self.services.len(),
        ensures
            platform == Platform::Other ==> r.ok && r.detail@
                == "system DNS monitor is not required on this platform"@,
            platform == Platform::MacOs ==> match first_stray(
                current@,
                views(self.servers@),
                0,
            ) {
                Some(i) => !r.ok && r.detail@ == self.services@[i]@ + " DNS is "@ + debug_list(
                    views(current@[i]@),
                ) + ", expected "@ + debug_list(views(self.servers@)),
                None => r.ok && r.detail@ == "system DNS matches "@ + debug_list(
                    views(self.servers@),
                ),
            },
    {
        match platform {
            Platform::Other => {
                return SystemDnsMonitorCheck {
                    ok: true,
                    detail: "system DNS monitor is not required on this platform".to_owned(),
                };
            },
            Platform::MacOs => {},
        }
        let wanted = show_list(&self.servers);
        match self.stray_service(current) {
            Some(i) => {
                let found = show_list(&current[i]);
                let head = cat3(self.services[i].as_str(), " DNS is ", found.as_str());
                SystemDnsMonitorCheck {
                    ok: false,
                    detail: cat3(head.as_str(), ", expected ", wanted.as_str()),
                }
            },
            None => SystemDnsMonitorCheck {
                ok: true,
                detail: cat("system DNS matches ", wanted.as_str()),
            },
        }
    }
}

// ---------------------------------------------------------------------------
// Laws

/// What is set for a service.
#[verifier::ext_equal]
pub struct Setting {
    pub server: Seq<char>,
    pub port: Seq<char>,
    pub enabled: bool,
}

/// What is set for a service after a command.
pub open spec fn after_command(s: Setting, command: Seq<Seq<char>>) -> Setting {
    if command[0] == "-setsocksfirewallproxy"@ {
        Setting { server: command[2], port: command[3], ..s }
    } else {
        Setting { enabled: command[2] == "on"@, ..s }
    }
}

/// What is set for a service after commands.
pub open spec fn after_commands(s: Setting, commands: Seq<Seq<Seq<char>>>) -> Setting
    decreases commands.len(),
{
    if commands.len() == 0 {
        s
    } else {
        after_command(after_commands(s, commands.drop_last()), commands.last())
    }
}

/// Setting the proxy of a service and putting it back leaves it on or off as it
/// was, and with the server and port that it had.
pub proof fn putting_back_undoes_setting(p: ProxyView, before: Setting, host: Seq<char>, port: u16)
    requires
        before.enabled == p.enabled,
        p.server matches Some(s) ==> before.server == s,
        p.port matches Some(n) ==> before.port == decimal(n as nat),
    ensures
        ({
            let set = after_commands(before, set_proxy(p.name, host, port));
            let back = after_commands(set, put_back_proxy(p));
            &&& set.enabled && set.server == host && set.port == decimal(port as nat)
            &&& back.enabled == before.enabled
            &&& (p.server is Some && p.port is Some ==> back == before)
        }),
{
    reveal_strlit("-setsocksfirewallproxy");
    reveal_strlit("-setsocksfirewallproxystate");
    reveal_strlit("on");
    reveal_strlit("off");
    assert("on"@.len() == 2);
    assert("off"@.len() == 3);
    assert("-setsocksfirewallproxy"@.len() == 22);
    assert("-setsocksfirewallproxystate"@.len() == 27);
    reveal_with_fuel(after_commands, 3);
    let set = set_proxy(p.name, host, port);
    assert(set.drop_last().drop_last() =~= Seq::empty());
    let back = put_back_proxy(p);
    assert(back.drop_last().len() == back.len() - 1);
    if back.len() == 2 {
        assert(back.drop_last().drop_last() =~= Seq::empty());
    }
}

/// What is set for a service is set there with the host and the port, and switched
/// on; putting back what was read before leaves it as it was.
pub proof fn services_are_set_and_put_back(
    snapshot: &ServiceProxySnapshot,
    service: &str,
    host: &str,
    port: u16,
    before: Setting,
    set: Vec<Words>,
    back: Vec<Words>,
    i: int,
)
    requires
        service@ == snapshot.name@,
        call_ensures(set_service_proxy, (service, host, port), set),
        call_ensures(restore_service, (snapshot,), back),
        before.enabled == snapshot.enabled,
        snapshot.server matches Some(s) ==> before.server == s@,
        snapshot.port matches Some(n) ==> before.port == decimal(n as nat),
        0 <= i,
    ensures
        ({
            let during = after_commands(before, commands(set@));
            let after = after_commands(during, commands(back@));
            &&& during.enabled && during.server == host@ && during.port == decimal(port as nat)
            &&& after.enabled == before.enabled
            &&& (snapshot.server is Some && snapshot.port is Some ==> after == before)
        }),
        i < set@.len() ==> commands(set@)[i][1] == service@,
        i < back@.len() ==> commands(back@)[i][1] == service@,
{
    putting_back_undoes_setting(snapshot@, before, host@, port);
    assert(commands(set@).len() == set@.len());
    assert(commands(back@).len() == back@.len());
}

proof fn lemma_value_behind(label: Seq<char>, value: Seq<char>)
    requires
        label.len() > 0,
        !is_whitespace(label[0]),
        value.len() > 0,
        !is_whitespace(value[0]),
        !is_whitespace(value.last()),
    ensures
        value_behind(label + (seq![' '] + value), label) == Some(value),
        trimmed(label + (seq![' '] + value)) == label + (seq![' '] + value),
{
    let line = label + (seq![' '] + value);
    assert(line[0] == label[0]);
    assert(line.last() == value.last());
    lemma_trimmed_same(line);
    assert(line.take(label.len() as int) =~= label);
    assert(line.skip(label.len() as int) =~= seq![' '] + value);
    lemma_trimmed_after_space(value);
    lemma_trimmed_same(value);
}

proof fn lemma_not_behind(line: Seq<char>, label: Seq<char>)
    requires
        trimmed(line) == line,
        line.len() > 0,
        label.len() > 0,
        line[0] != label[0],
    ensures
        value_behind(line, label) is None,
{
    if begins_with(line, label) {
        assert(line.take(label.len() as int)[0] == line[0]);
    }
}

/// What the system prints of the proxy of a service is read as it says: whether it is
/// on, its server and port, and whether it needs a login.
#[verifier::spinoff_prover]
#[verifier::rlimit(50)]
pub proof fn printed_proxies_are_read(
    service: &str,
    enabled: bool,
    server: Seq<char>,
    port: u16,
    authenticated: bool,
    output: &str,
    r: Result<ServiceProxySnapshot, Failure>,
)
    requires
        is_word(server),
        !same_ignoring_case(server, "(null)"@),
        output@ == "Enabled:"@ + (seq![' '] + (if enabled {
            "Yes"@
        } else {
            "No"@
        })) + seq!['\n'] + ("Server:"@ + (seq![' '] + server) + seq!['\n'] + ("Port:"@ + (seq![' ']
            + decimal(port as nat)) + seq!['\n'] + ("Authenticated Proxy Enabled:"@ + (seq![' '] + (
        if authenticated {
            "1"@
        } else {
            "0"@
        }))))),
        call_ensures(parse_socks_proxy, (service, output), r),
    ensures
        r matches Ok(p) && p.name@ == service@ && p.enabled == enabled && opt_view(p.server) == Some(
            server,
        ) && p.port == Some(port) && p.authenticated == authenticated,
{
    let e = if enabled {
        "Yes"@
    } else {
        "No"@
    };
    let a = if authenticated {
        "1"@
    } else {
        "0"@
    };
    let digits = decimal(port as nat);
    let l0 = "Enabled:"@ + (seq![' '] + e);
    let l1 = "Server:"@ + (seq![' '] + server);
    let l2 = "Port:"@ + (seq![' '] + digits);
    let l3 = "Authenticated Proxy Enabled:"@ + (seq![' '] + a);
    lemma_printed_flags(enabled, e);
    lemma_printed_flags(
        authenticated,
        if authenticated {
            "Yes"@
        } else {
            "No"@
        },
    );
    decimal_is_digits(port as nat);
    decimal_reads_back(port as nat, 65535);
    assert forall|i: int| 0 <= i < digits.len() implies !is_whitespace(#[trigger] digits[i]) by {
        assert(is_digit(digits[i]));
    }
    lemma_labels();
    lemma_value_behind("Enabled:"@, e);
    lemma_value_behind("Server:"@, server);
    lemma_value_behind("Port:"@, digits);
    lemma_value_behind("Authenticated Proxy Enabled:"@, a);
    lemma_not_behind(l1, "Enabled:"@);
    lemma_not_behind(l2, "Enabled:"@);
    lemma_not_behind(l2, "Server:"@);
    lemma_not_behind(l3, "Enabled:"@);
    lemma_not_behind(l3, "Server:"@);
    lemma_not_behind(l3, "Port:"@);
    lemma_printed_line("Enabled:"@, e);
    lemma_printed_line("Server:"@, server);
    lemma_printed_line("Port:"@, digits);
    lemma_printed_line("Authenticated Proxy Enabled:"@, a);
    lemma_printed_lines(l0, l1, l2, l3);
    lemma_digits_are_no_null(digits);
    lemma_four_lines(l0, l1, l2, l3, enabled, server, digits, port, a, authenticated);
}

proof fn lemma_labels()
    ensures
        "Enabled:"@.len() > 0 && "Enabled:"@[0] == 'E',
        "Server:"@.len() > 0 && "Server:"@[0] == 'S',
        "Port:"@.len() > 0 && "Port:"@[0] == 'P',
        "Authenticated Proxy Enabled:"@.len() > 0 && "Authenticated Proxy Enabled:"@[0] == 'A',
        !is_whitespace('E') && !is_whitespace('S') && !is_whitespace('P') && !is_whitespace('A'),
{
    reveal_strlit("Enabled:");
    reveal_strlit("Server:");
    reveal_strlit("Port:");
    reveal_strlit("Authenticated Proxy Enabled:");
}

#[verifier::spinoff_prover]
#[verifier::rlimit(50)]
proof fn lemma_four_lines(
    l0: Seq<char>,
    l1: Seq<char>,
    l2: Seq<char>,
    l3: Seq<char>,
    enabled: bool,
    server: Seq<char>,
    digits: Seq<char>,
    port: u16,
    a: Seq<char>,
    authenticated: bool,
)
    requires
        value_behind(l0, "Enabled:"@) is Some,
        yes_no(value_behind(l0, "Enabled:"@)->0) == Some(enabled),
        value_behind(l1, "Enabled:"@) is None,
        value_behind(l1, "Server:"@) == Some(server),
        value_behind(l2, "Enabled:"@) is None,
        value_behind(l2, "Server:"@) is None,
        value_behind(l2, "Port:"@) == Some(digits),
        value_behind(l3, "Enabled:"@) is None,
        value_behind(l3, "Server:"@) is None,
        value_behind(l3, "Port:"@) is None,
        value_behind(l3, "Authenticated Proxy Enabled:"@) == Some(a),
        is_there(server),
        is_there(digits),
        unsigned_value(digits, 65535) == Some(port as int),
        authenticated <==> a == "1"@ || a == "yes"@ || a == "Yes"@,
    ensures
        socks_lines(seq![l0, l1, l2, l3]) == Ok::<SocksLines, Seq<Seq<char>>>(
            SocksLines { enabled: Some(enabled), server: Some(server), port: Some(port), authenticated },
        ),
{
    let all = seq![l0, l1, l2, l3];
    let none = SocksLines { enabled: None, server: None, port: None, authenticated: false };
    let s0 = SocksLines { enabled: Some(enabled), ..none };
    let s1 = SocksLines { server: Some(server), ..s0 };
    let s2 = SocksLines { port: Some(port), ..s1 };
    let one = seq![l0];
    let two = seq![l0, l1];
    let three = seq![l0, l1, l2];
    assert(one.drop_last() =~= Seq::<Seq<char>>::empty());
    assert(two.drop_last() =~= one);
    assert(three.drop_last() =~= two);
    assert(all.drop_last() =~= three);
    assert(socks_lines(Seq::<Seq<char>>::empty()) == Ok::<SocksLines, Seq<Seq<char>>>(none));
    assert(socks_lines(one) == Ok::<SocksLines, Seq<Seq<char>>>(s0));
    assert(socks_lines(two) == Ok::<SocksLines, Seq<Seq<char>>>(s1));
    assert(socks_lines(three) == Ok::<SocksLines, Seq<Seq<char>>>(s2));
}

proof fn lemma_digits_are_no_null(digits: Seq<char>)
    requires
        digits.len() > 0,
        is_digit(digits[0]),
    ensures
        !same_ignoring_case(digits, "(null)"@),
{
    reveal_strlit("(null)");
    let null = "(null)"@;
    assert(null[0] == '(');
    assert(lower(null)[0] == lower_char(null[0]));
    assert(lower(digits)[0] == lower_char(digits[0]));
}

proof fn lemma_printed_flags(flag: bool, e: Seq<char>)
    requires
        e == (if flag {
            "Yes"@
        } else {
            "No"@
        }),
    ensures
        yes_no(if flag {
            "Yes"@
        } else {
            "No"@
        }) == Some(flag),
        ({
            let a = if flag {
                "1"@
            } else {
                "0"@
            };
            &&& flag <==> a == "1"@ || a == "yes"@ || a == "Yes"@
            &&& a.len() == 1 && !is_whitespace(a[0])
        }),
        2 <= e.len() <= 3,
        forall|i: int| 0 <= i < e.len() ==> !is_whitespace(#[trigger] e[i]),
{
    reveal_strlit("Yes");
    reveal_strlit("No");
    reveal_strlit("yes");
    reveal_strlit("on");
    reveal_strlit("On");
    reveal_strlit("true");
    reveal_strlit("True");
    reveal_strlit("1");
    reveal_strlit("0");
    assert("Yes"@.len() == 3 && "Yes"@[0] == 'Y' && "Yes"@[1] == 'e' && "Yes"@[2] == 's');
    assert("No"@.len() == 2 && "No"@[0] == 'N' && "No"@[1] == 'o');
    assert("yes"@.len() == 3 && "yes"@[0] == 'y');
    assert("on"@.len() == 2 && "on"@[0] == 'o');
    assert("On"@.len() == 2 && "On"@[0] == 'O');
    assert("true"@.len() == 4 && "True"@.len() == 4);
    assert("1"@.len() == 1 && "1"@[0] == '1');
    assert("0"@.len() == 1 && "0"@[0] == '0');
    assert forall|i: int| 0 <= i < e.len() implies !is_whitespace(#[trigger] e[i]) by {
        assert(i == 0 || i == 1 || i == 2);
    }
}

proof fn lemma_printed_lines(l0: Seq<char>, l1: Seq<char>, l2: Seq<char>, l3: Seq<char>)
    requires
        l0.len() > 0 && l0.last() != '\r',
        l1.len() > 0 && l1.last() != '\r',
        l2.len() > 0 && l2.last() != '\r',
        l3.len() > 0,
        forall|i: int| 0 <= i < l0.len() ==> #[trigger] l0[i] != '\n',
        forall|i: int| 0 <= i < l1.len() ==> #[trigger] l1[i] != '\n',
        forall|i: int| 0 <= i < l2.len() ==> #[trigger] l2[i] != '\n',
        forall|i: int| 0 <= i < l3.len() ==> #[trigger] l3[i] != '\n',
    ensures
        lines_of(l0 + seq!['\n'] + (l1 + seq!['\n'] + (l2 + seq!['\n'] + l3))) == seq![l0, l1, l2, l3],
{
    let nl = seq!['\n'];
    lemma_lines(l0, l1 + nl + (l2 + nl + l3));
    lemma_lines(l1, l2 + nl + l3);
    lemma_lines(l2, l3);
    lemma_lines(l3, Seq::empty());
    assert(seq![l0] + (seq![l1] + (seq![l2] + seq![l3])) =~= seq![l0, l1, l2, l3]);
}

#[verifier::spinoff_prover]
#[verifier::rlimit(50)]
proof fn lemma_printed_line(label: Seq<char>, value: Seq<char>)
    requires
        label == "Enabled:"@ || label == "Server:"@ || label == "Port:"@ || label
            == "Authenticated Proxy Enabled:"@,
        value.len() > 0,
        forall|i: int| 0 <= i < value.len() ==> !is_whitespace(#[trigger] value[i]),
    ensures
        ({
            let line = label + (seq![' '] + value);
            &&& line.len() > 0
            &&& line.last() != '\r'
            &&& forall|i: int| 0 <= i < line.len() ==> #[trigger] line[i] != '\n'
        }),
{
    reveal_strlit("Enabled:");
    reveal_strlit("Server:");
    reveal_strlit("Port:");
    reveal_strlit("Authenticated Proxy Enabled:");
    let line = label + (seq![' '] + value);
    assert(line.last() == value.last());
    assert(is_whitespace('\r') && is_whitespace('\n'));
    assert forall|i: int| 0 <= i < line.len() implies #[trigger] line[i] != '\n' by {
        if i < label.len() {
            assert(line[i] == label[i]);
            assert(label.len() <= 28);
            assert(i == 0 || i == 1 || i == 2 || i == 3 || i == 4 || i == 5 || i == 6 || i == 7 || i
                == 8 || i == 9 || i == 10 || i == 11 || i == 12 || i == 13 || i == 14 || i == 15 || i
                == 16 || i == 17 || i == 18 || i == 19 || i == 20 || i == 21 || i == 22 || i == 23 || i
                == 24 || i == 25 || i == 26 || i == 27);
        } else if i > label.len() {
            assert(line[i] == value[i - label.len() - 1]);
        }
    }
}

proof fn lemma_kept_lines(lines: Seq<Seq<char>>, keep: spec_fn(Seq<char>) -> bool, line: Seq<char>)
    ensures
        lines.filter(keep).contains(line) <==> lines.contains(line) && keep(line),
{
    if lines.filter(keep).contains(line) {
        let i = choose|i: int| 0 <= i < lines.filter(keep).len() && lines.filter(keep)[i] == line;
        lines.lemma_filter_pred(keep, i);
        lines.lemma_filter_contains_rev(keep, line);
    }
    if lines.contains(line) && keep(line) {
        let i = choose|i: int| 0 <= i < lines.len() && lines[i] == line;
        lines.lemma_filter_contains(keep, i);
    }
}

/// Every line of a list names a service, but for blank ones, those of services that
/// are switched off, and the one that explains their mark.
pub proof fn listed_services_are_read(output: &str, i: int, name: Seq<char>, r: Vec<String>)
    requires
        call_ensures(parse_network_services, (output,), r),
        0 <= i < lines_of(output@).len(),
    ensures
        ({
            let line = trimmed(lines_of(output@)[i]);
            line.len() > 0 && line[0] != '*' && !begins_with(line, "An asterisk"@) ==> views(
                r@,
            ).contains(line)
        }),
        views(r@).contains(name) ==> name.len() > 0 && name[0] != '*' && exists|k: int|
            0 <= k < lines_of(output@).len() && trimmed(#[trigger] lines_of(output@)[k]) == name,
{
    let keep = |l: Seq<char>| names_service(l);
    let all = trimmed_lines(output@);
    let line = trimmed(lines_of(output@)[i]);
    reveal_strlit("*");
    assert("*"@ =~= seq!['*']);
    assert(all[i] == line);
    assert(all.contains(line));
    lemma_starts(line, '*');
    lemma_starts(name, '*');
    lemma_kept_lines(all, keep, line);
    lemma_kept_lines(all, keep, name);
    if views(r@).contains(name) {
        let k = choose|k: int| 0 <= k < all.len() && all[k] == name;
        assert(trimmed(lines_of(output@)[k]) == name);
    }
}

/// Every line that is not blank is a name server, unless the system says that there
/// are none.
pub proof fn printed_name_servers_are_read(output: &str, i: int, name: Seq<char>, r: Vec<String>)
    requires
        call_ensures(parse_dns_servers, (output,), r),
        0 <= i < lines_of(output@).len(),
    ensures
        begins_with(trimmed(output@), "There aren't any DNS Servers set on "@) ==> r@.len() == 0,
        !begins_with(trimmed(output@), "There aren't any DNS Servers set on "@) && trimmed(
            lines_of(output@)[i],
        ).len() > 0 ==> views(r@).contains(trimmed(lines_of(output@)[i])),
        views(r@).contains(name) ==> name.len() > 0 && exists|k: int|
            0 <= k < lines_of(output@).len() && trimmed(#[trigger] lines_of(output@)[k]) == name,
{
    let keep = |l: Seq<char>| l.len() > 0;
    let all = trimmed_lines(output@);
    let line = trimmed(lines_of(output@)[i]);
    assert(all[i] == line);
    assert(all.contains(line));
    assert(views(r@).len() == r@.len());
    lemma_kept_lines(all, keep, line);
    lemma_kept_lines(all, keep, name);
    if views(r@).contains(name) {
        if all.contains(name) {
            let k = choose|k: int| 0 <= k < all.len() && all[k] == name;
            assert(trimmed(lines_of(output@)[k]) == name);
        }
    }
}

/// Two lists of name servers are the same just where they name the same servers in
/// the same order, whatever the case and the white space.
pub proof fn lists_match_server_by_server(
    left: &Vec<String>,
    right: &Vec<String>,
    r: bool,
    back: bool,
    own: bool,
    i: int,
)
    requires
        call_ensures(dns_server_lists_match, (left, right), r),
        call_ensures(dns_server_lists_match, (right, left), back),
        call_ensures(dns_server_lists_match, (left, left), own),
        0 <= i < left@.len(),
    ensures
        own,
        r == back,
        r ==> left@.len() == right@.len() && same_ignoring_case(
            trimmed(left@[i]@),
            trimmed(right@[i]@),
        ),
        left@.len() == right@.len() && (forall|k: int|
            0 <= k < left@.len() ==> (#[trigger] left@[k])@ == right@[k]@) ==> r,
{
    let a = views(left@);
    let b = views(right@);
    assert forall|k: int| 0 <= k < left@.len() implies a[k] == (#[trigger] left@[k])@ by {}
    assert forall|k: int| 0 <= k < right@.len() implies b[k] == (#[trigger] right@[k])@ by {}
    assert(a[i] == left@[i]@);
    if r {
        assert(same_ignoring_case(trimmed(a[i]), trimmed(b[i])));
        assert forall|k: int| 0 <= k < b.len() implies same_ignoring_case(
            trimmed(#[trigger] b[k]),
            trimmed(a[k]),
        ) by {
            assert(same_ignoring_case(trimmed(a[k]), trimmed(b[k])));
        }
    }
    if back {
        assert forall|k: int| 0 <= k < a.len() implies same_ignoring_case(
            trimmed(#[trigger] a[k]),
            trimmed(b[k]),
        ) by {
            assert(same_ignoring_case(trimmed(b[k]), trimmed(a[k])));
        }
    }
    if left@.len() == right@.len() && (forall|k: int|
        0 <= k < left@.len() ==> (#[trigger] left@[k])@ == right@[k]@) {
        assert forall|k: int| 0 <= k < a.len() implies same_ignoring_case(
            trimmed(#[trigger] a[k]),
            trimmed(b[k]),
        ) by {
            assert(left@[k]@ == right@[k]@);
        }
    }
}

/// Name servers of the local host that were left over from an earlier session are not
/// put back; all others are kept as they are.
pub proof fn left_over_name_servers_are_dropped(
    snapshot: ServiceDnsSnapshot,
    wanted: &Vec<String>,
    matching: bool,
    i: int,
    r: (ServiceDnsSnapshot, bool),
)
    requires
        call_ensures(dns_server_lists_match, (&snapshot.servers, wanted), matching),
        call_ensures(sanitize_dns_snapshot_for_override, (snapshot, wanted), r),
        0 <= i < wanted@.len(),
    ensures
        r.0.name@ == snapshot.name@,
        !matching ==> !r.1,
        !(ip_value(wanted@[i]@) matches Some(ip) && loopback(ip)) ==> !r.1,
        matching && (forall|k: int|
            0 <= k < wanted@.len() ==> (ip_value((#[trigger] wanted@[k])@) matches Some(ip)
                && loopback(ip))) ==> r.1,
        r.1 ==> r.0.servers@.len() == 0,
        !r.1 ==> r.0.servers@ == snapshot.servers@,
{
    let w = views(wanted@);
    assert(w[i] == wanted@[i]@);
    if !(ip_value(wanted@[i]@) matches Some(ip) && loopback(ip)) {
        assert(!is_local_server(w[i]));
    }
    if forall|k: int|
        0 <= k < wanted@.len() ==> (ip_value((#[trigger] wanted@[k])@) matches Some(ip) && loopback(
            ip,
        )) {
        assert forall|k: int| 0 <= k < w.len() implies is_local_server(#[trigger] w[k]) by {
            assert(w[k] == wanted@[k]@);
        }
    }
}

/// The name servers of a service are set as they are given, one at least; what is put
/// back is what was there, and nothing where nothing was.
pub proof fn name_servers_are_set_and_put_back(
    service: &str,
    servers: &Vec<String>,
    set: Result<Words, Failure>,
    snapshot: &ServiceDnsSnapshot,
    back: Words,
)
    requires
        call_ensures(set_service_dns_servers, (service, servers), set),
        call_ensures(restore_service_dns, (snapshot,), back),
    ensures
        set is Ok <==> servers@.len() > 0,
        set matches Ok(c) ==> views(c@)[0] == "-setdnsservers"@ && views(c@)[1] == service@ && views(
            c@,
        ).skip(2) == views(servers@),
        views(back@)[0] == "-setdnsservers"@,
        views(back@)[1] == snapshot.name@,
        snapshot.servers@.len() > 0 ==> views(back@).skip(2) == views(snapshot.servers@),
        snapshot.servers@.len() == 0 ==> views(back@).skip(2) == seq!["Empty"@],
{
    if let Ok(c) = set {
        assert(views(c@).skip(2) =~= views(servers@));
    }
    assert(views(snapshot.servers@).len() == snapshot.servers@.len());
    if snapshot.servers@.len() > 0 {
        assert(views(back@).skip(2) =~= views(snapshot.servers@));
    } else {
        assert(views(back@).skip(2) =~= seq!["Empty"@]);
    }
}

proof fn lemma_chosen(services: Seq<String>, active: Seq<bool>)
    requires
        services.len() == active.len(),
    ensures
        forall|i: int|
            0 <= i < services.len() && active[i] ==> chosen(services, active).contains(
                #[trigger] services[i],
            ),
    decreases services.len(),
{
    let all = chosen(services, active);
    if services.len() > 0 {
        let less = services.drop_last();
        let rest = chosen(less, active.drop_last());
        lemma_chosen(less, active.drop_last());
        assert forall|i: int| 0 <= i < services.len() && active[i] implies all.contains(
            #[trigger] services[i],
        ) by {
            if i < less.len() {
                assert(less[i] == services[i]);
                assert(active.drop_last()[i] == active[i]);
                assert(rest.contains(less[i]));
                let k = choose|k: int| 0 <= k < rest.len() && rest[k] == less[i];
                assert(all[k] == services[i]);
            } else {
                assert(all[rest.len() as int] == services[i]);
            }
        }
    }
}

proof fn lemma_chosen_from(services: Seq<String>, active: Seq<bool>, k: int)
    requires
        services.len() == active.len(),
        0 <= k < chosen(services, active).len(),
    ensures
        exists|i: int|
            0 <= i < services.len() && active[i] && #[trigger] services[i] == chosen(
                services,
                active,
            )[k],
    decreases services.len(),
{
    let all = chosen(services, active);
    let less = services.drop_last();
    let rest = chosen(less, active.drop_last());
    if k < rest.len() {
        lemma_chosen_from(less, active.drop_last(), k);
        let i = choose|i: int|
            0 <= i < less.len() && active.drop_last()[i] && #[trigger] less[i] == rest[k];
        assert(services[i] == all[k] && active[i]);
    } else {
        assert(services[services.len() - 1] == all[k]);
    }
}

/// The services that are named are set; without any, those that are connected, and
/// without any of these, all that there are.
pub proof fn named_services_come_first(
    explicit: &Vec<String>,
    listed: &Vec<String>,
    active: &Vec<bool>,
    i: int,
    k: int,
    r: Result<Vec<String>, Failure>,
)
    requires
        active@.len() == listed@.len(),
        call_ensures(determine_services, (explicit, listed, active), r),
        0 <= i < listed@.len(),
        active@[i],
    ensures
        r is Ok,
        explicit@.len() > 0 ==> (r->Ok_0)@ == explicit@,
        explicit@.len() == 0 ==> (r->Ok_0)@.contains(listed@[i]),
        explicit@.len() == 0 && 0 <= k < (r->Ok_0)@.len() ==> exists|j: int|
            0 <= j < listed@.len() && active@[j] && #[trigger] listed@[j] == (r->Ok_0)@[k],
{
    lemma_chosen(listed@, active@);
    let all = chosen(listed@, active@);
    assert(all.contains(listed@[i]));
    assert(all.len() > 0);
    if explicit@.len() == 0 && 0 <= k < (r->Ok_0)@.len() {
        assert((r->Ok_0)@[k] == all[k]);
        lemma_chosen_from(listed@, active@, k);
    }
}

/// Without a connected service all are set, and without any at all that fails.
pub proof fn all_services_are_set_where_none_is_connected(
    listed: &Vec<String>,
    active: &Vec<bool>,
    explicit: &Vec<String>,
    r: Result<Vec<String>, Failure>,
)
    requires
        active@.len() == listed@.len(),
        forall|i: int| 0 <= i < active@.len() ==> !(#[trigger] active@[i]),
        explicit@.len() == 0,
        call_ensures(determine_services, (explicit, listed, active), r),
    ensures
        r is Err <==> listed@.len() == 0,
        r matches Ok(v) ==> v@ == listed@,
{
    let all = chosen(listed@, active@);
    if all.len() > 0 {
        lemma_chosen_from(listed@, active@, 0);
        let i = choose|i: int|
            0 <= i < listed@.len() && active@[i] && #[trigger] listed@[i] == all[0];
        assert(active@[i]);
    }
}

/// The system is pointed at where the client listens: at the local host where it
/// listens on all addresses, and else where it says.
pub proof fn the_system_is_pointed_at_the_client(
    listen: &str,
    parts: Result<(String, u16), Failure>,
    r: Result<(String, u16), Failure>,
)
    requires
        call_ensures(split_host_port, (listen,), parts),
        call_ensures(proxy_target_from_listen, (listen,), r),
    ensures
        r is Ok <==> parts is Ok,
        r matches Ok((host, port)) ==> port == (parts->Ok_0).1 && ((parts->Ok_0).0@ == "0.0.0.0"@
            ==> host@ == "127.0.0.1"@) && ((parts->Ok_0).0@ == "::"@ ==> host@ == "::1"@) && ((
        parts->Ok_0).0@ != "0.0.0.0"@ && (parts->Ok_0).0@ != "::"@ ==> host@ == (parts->Ok_0).0@),
{
    reveal_strlit("0.0.0.0");
    reveal_strlit("::");
    assert("0.0.0.0"@.len() == 7 && "::"@.len() == 2);
}

/// The proxies of the system are set only where they can be put back: none needs a
/// login, and each that is on is known.
pub proof fn only_what_can_be_put_back_is_set(
    listen: &str,
    snapshots: Vec<ServiceProxySnapshot>,
    target: Result<(String, u16), Failure>,
    r: Result<SystemProxyGuard, Failure>,
    i: int,
)
    requires
        call_ensures(proxy_target_from_listen, (listen,), target),
        call_ensures(SystemProxyGuard::activate, (listen, snapshots), r),
        0 <= i < snapshots@.len(),
    ensures
        r is Ok ==> target is Ok && !snapshots@[i].authenticated && (snapshots@[i].enabled
            ==> snapshots@[i].server is Some && snapshots@[i].port is Some),
        r matches Ok(g) ==> g.snapshots@ == snapshots@ && g.host@ == (target->Ok_0).0@ && g.port == (
        target->Ok_0).1,
        target is Ok && (forall|k: int|
            0 <= k < snapshots@.len() ==> !(#[trigger] snapshots@[k]).authenticated && (
            snapshots@[k].enabled ==> snapshots@[k].server is Some && snapshots@[k].port is Some))
            ==> r is Ok,
{
    if r is Ok {
        assert(replaceable(snapshots@[i]@));
    }
    if target is Ok && (forall|k: int|
        0 <= k < snapshots@.len() ==> !(#[trigger] snapshots@[k]).authenticated && (
        snapshots@[k].enabled ==> snapshots@[k].server is Some && snapshots@[k].port is Some)) {
        assert forall|k: int| 0 <= k < snapshots@.len() implies replaceable(
            (#[trigger] snapshots@[k])@,
        ) by {}
    }
}

proof fn lemma_set_all(snapshots: Seq<ServiceProxySnapshot>, host: Seq<char>, port: u16, i: int)
    requires
        0 <= i < snapshots.len(),
    ensures
        set_all(snapshots, host, port).len() == 2 * snapshots.len(),
        set_all(snapshots, host, port).subrange(2 * i, 2 * i + 2) == set_proxy(
            snapshots[i].name@,
            host,
            port,
        ),
    decreases snapshots.len(),
{
    let less = snapshots.drop_last();
    let rest = set_all(less, host, port);
    let own = set_proxy(snapshots.last().name@, host, port);
    let all = set_all(snapshots, host, port);
    if less.len() > 0 {
        lemma_set_all(less, host, port, if i < less.len() {
            i
        } else {
            0
        });
    }
    assert(rest.len() == 2 * less.len());
    if i < less.len() {
        assert(less[i] == snapshots[i]);
        assert(all.subrange(2 * i, 2 * i + 2) =~= rest.subrange(2 * i, 2 * i + 2));
    } else {
        assert(all.subrange(2 * i, 2 * i + 2) =~= own);
    }
}

proof fn lemma_put_back_all(snapshots: Seq<ServiceProxySnapshot>, i: int)
    requires
        0 <= i < snapshots.len(),
    ensures
        exists|at: int|
            0 <= at && at + put_back_proxy(snapshots[i]@).len() <= put_back_all(snapshots).len()
                && #[trigger] put_back_all(snapshots).subrange(
                at,
                at + put_back_proxy(snapshots[i]@).len(),
            ) == put_back_proxy(snapshots[i]@),
    decreases snapshots.len(),
{
    let less = snapshots.drop_last();
    let rest = put_back_all(less);
    let own = put_back_proxy(snapshots.last()@);
    let all = put_back_all(snapshots);
    let wanted = put_back_proxy(snapshots[i]@);
    if i == less.len() {
        assert(all.subrange(0int, 0int + wanted.len()) =~= wanted);
    } else {
        assert(less[i] == snapshots[i]);
        lemma_put_back_all(less, i);
        let at = choose|at: int|
            0 <= at && at + wanted.len() <= rest.len() && #[trigger] rest.subrange(
                at,
                at + wanted.len(),
            ) == wanted;
        let to = own.len() + at;
        assert(all.subrange(to, to + wanted.len()) =~= rest.subrange(at, at + wanted.len()));
    }
}

/// Every service of a guard is set, in order, and every one is put back, also where
/// only the first few were set.
pub proof fn every_service_is_set_and_put_back(
    guard: &SystemProxyGuard,
    set: Vec<Words>,
    back: Vec<Words>,
    applied: usize,
    undone: Vec<Words>,
    i: int,
    service: &str,
    host: &str,
    own: Vec<Words>,
    own_back: Vec<Words>,
)
    requires
        0 <= i < applied <= guard.snapshots@.len(),
        call_ensures(SystemProxyGuard::apply_proxy, (guard,), set),
        call_ensures(SystemProxyGuard::restore_original, (guard,), back),
        call_ensures(SystemProxyGuard::roll_back, (guard, applied), undone),
        service@ == guard.snapshots@[i].name@,
        host@ == guard.host@,
        call_ensures(set_service_proxy, (service, host, guard.port), own),
        call_ensures(restore_service, (&guard.snapshots@[i],), own_back),
    ensures
        commands(set@).len() == 2 * guard.snapshots@.len(),
        commands(set@).subrange(2 * i, 2 * i + 2) == commands(own@),
        exists|at: int|
            0 <= at && at + own_back@.len() <= commands(back@).len() && #[trigger] commands(
                back@,
            ).subrange(at, at + own_back@.len()) == commands(own_back@),
        exists|at: int|
            0 <= at && at + own_back@.len() <= commands(undone@).len() && #[trigger] commands(
                undone@,
            ).subrange(at, at + own_back@.len()) == commands(own_back@),
{
    lemma_set_all(guard.snapshots@, guard.host@, guard.port, i);
    lemma_put_back_all(guard.snapshots@, i);
    let first = guard.snapshots@.take(applied as int);
    assert(first[i] == guard.snapshots@[i]);
    lemma_put_back_all(first, i);
    assert(commands(own_back@).len() == own_back@.len());
}

/// A guard over name servers keeps what each service had, sets the same servers for
/// each, and puts each back to what it had, the last first.
pub proof fn name_servers_are_kept_for_every_service(
    current: Vec<ServiceDnsSnapshot>,
    servers: &Vec<String>,
    r: Result<SystemDnsGuard, Failure>,
    i: int,
    kept: (ServiceDnsSnapshot, bool),
    set: Result<Vec<Words>, Failure>,
    service: &str,
    own: Result<Words, Failure>,
    back: Vec<Words>,
    own_back: Words,
)
    requires
        0 <= i < current@.len(),
        servers@.len() > 0,
        call_ensures(SystemDnsGuard::activate, (current, servers), r),
        call_ensures(sanitize_dns_snapshot_for_override, (current@[i], servers), kept),
        r matches Ok(g) ==> {
            &&& call_ensures(SystemDnsGuard::apply_override, (&g,), set)
            &&& call_ensures(SystemDnsGuard::restore_original, (&g,), back)
            &&& call_ensures(restore_service_dns, (&g.snapshots@[i],), own_back)
        },
        service@ == current@[i].name@,
        call_ensures(set_service_dns_servers, (service, servers), own),
    ensures
        r is Ok,
        r matches Ok(g) ==> g.servers@ == servers@ && g.snapshots@.len() == current@.len()
            && g.snapshots@[i].name@ == current@[i].name@ && g.snapshots@[i].servers@
            == kept.0.servers@,
        set matches Ok(v) && v@.len() == current@.len() && (own matches Ok(c) && views(v@[i]@)
            == views(c@)),
        back@.len() == current@.len(),
        views(back@[current@.len() - 1 - i]@) == views(own_back@),
{
    let now = current@[i];
    if let Ok(g) = r {
        assert(g.snapshots@[i].name@ == now.name@);
        if kept.1 {
            assert(kept.0.servers@ =~= Seq::<String>::empty());
        }
        if let Ok(v) = set {
            assert(commands(v@).len() == v@.len());
            assert(commands(v@)[i] == views(v@[i]@));
            if let Ok(c) = own {
                assert(views(c@) == set_servers(service@, views(servers@)));
            }
        }
        assert(views(back@[current@.len() - 1 - i]@) == views(own_back@));
    }
}

proof fn lemma_stray(current: Seq<Vec<String>>, wanted: Seq<Seq<char>>, from: int)
    requires
        0 <= from,
    ensures
        match first_stray(current, wanted, from) {
            Some(i) => from <= i < current.len() && !same_servers(views(current[i]@), wanted)
                && forall|k: int|
                from <= k < i ==> same_servers(views((#[trigger] current[k])@), wanted),
            None => forall|k: int|
                from <= k < current.len() ==> same_servers(views((#[trigger] current[k])@), wanted),
        },
    decreases current.len() - from,
{
    if from < current.len() && same_servers(views(current[from]@), wanted) {
        lemma_stray(current, wanted, from + 1);
    }
}

/// A watch over name servers is content just where every service has the wanted ones,
/// and names the first that has not; elsewhere than on macOS it is always content.
pub proof fn watches_find_services_that_strayed(
    monitor: &SystemDnsMonitor,
    current: &Vec<Vec<String>>,
    i: int,
    matching: bool,
    stray: Option<usize>,
    r: SystemDnsMonitorCheck,
    elsewhere: SystemDnsMonitorCheck,
)
    requires
        current@.len() == monitor.services@.len(),
        0 <= i < current@.len(),
        call_ensures(dns_server_lists_match, (&current@[i], &monitor.servers), matching),
        call_ensures(SystemDnsMonitor::stray_service, (monitor, current), stray),
        call_ensures(SystemDnsMonitor::check, (monitor, current, Platform::MacOs), r),
        call_ensures(SystemDnsMonitor::check, (monitor, current, Platform::Other), elsewhere),
    ensures
        r.ok <==> stray is None,
        !matching ==> !r.ok && (stray matches Some(k) && k <= i),
        stray matches Some(k) ==> k < current@.len() && (k == i ==> !matching) && begins_with(
            r.detail@,
            monitor.services@[k as int]@,
        ),
        elsewhere.ok,
{
    lemma_stray(current@, views(monitor.servers@), 0);
    if let Some(k) = stray {
        let name = monitor.services@[k as int]@;
        assert(r.detail@.take(name.len() as int) =~= name);
    }
}

/// The proxy of the system is set where that is wanted, on macOS only, and elsewhere
/// that fails; name servers are set where there are any, on macOS only.
pub proof fn the_system_is_set_where_wanted(
    args: &ClientArgs,
    platform: Platform,
    servers: &Vec<String>,
    r: Result<bool, Failure>,
    dns: bool,
)
    requires
        call_ensures(maybe_activate, (args, platform), r),
        call_ensures(maybe_activate_tun_dns, (servers, platform), dns),
    ensures
        r == Ok::<bool, Failure>(true) <==> args.system_proxy && platform == Platform::MacOs,
        r == Ok::<bool, Failure>(false) <==> !args.system_proxy,
        dns <==> servers@.len() > 0 && platform == Platform::MacOs,
{
}

proof fn lemma_first_router(lines: Seq<Seq<char>>, i: int)
    requires
        0 <= i < lines.len(),
        forall|k: int| 0 <= k < i ==> router_on(#[trigger] lines[k]) is None,
    ensures
        router_on(lines[i]) is Some ==> first_router(lines) == router_on(lines[i]),
        (forall|k: int| 0 <= k < lines.len() ==> router_on(#[trigger] lines[k]) is None)
            ==> first_router(lines) is None,
    decreases lines.len(),
{
    let rest = lines.skip(1);
    if i > 0 {
        assert(router_on(lines[0]) is None);
        assert forall|k: int| 0 <= k < i - 1 implies router_on(#[trigger] rest[k]) is None by {
            assert(rest[k] == lines[k + 1]);
        }
        assert(rest[i - 1] == lines[i]);
        lemma_first_router(rest, i - 1);
        if forall|k: int| 0 <= k < lines.len() ==> router_on(#[trigger] lines[k]) is None {
            assert forall|k: int| 0 <= k < rest.len() implies router_on(#[trigger] rest[k]) is None by {
                assert(rest[k] == lines[k + 1]);
            }
        }
    } else if forall|k: int| 0 <= k < lines.len() ==> router_on(#[trigger] lines[k]) is None {
        assert(router_on(lines[0]) is None);
        if rest.len() > 0 {
            assert forall|k: int| 0 <= k < rest.len() implies router_on(#[trigger] rest[k]) is None by {
                assert(rest[k] == lines[k + 1]);
            }
            lemma_first_router(rest, 0);
        }
    }
}

/// The router of a service is the first address behind that label that is not of the
/// local host or of no host.
pub proof fn routers_are_read(
    output: &str,
    i: int,
    text: &str,
    ip: Option<IpAddr>,
    r: Option<IpAddr>,
)
    requires
        0 <= i < lines_of(output@).len(),
        forall|k: int| 0 <= k < i ==> router_on(#[trigger] lines_of(output@)[k]) is None,
        lines_of(output@)[i] == "Router:"@ + (seq![' '] + text@),
        is_word(text@),
        !same_ignoring_case(text@, "none"@),
        call_ensures(parse_direct_dns_ip, (text,), ip),
        call_ensures(parse_service_router, (output,), r),
    ensures
        ip is Some ==> r == ip,
        ip == Some(IpAddr::V4(0)) || ip == Some(IpAddr::V4(0x7f00_0001)) || ip == Some(
            IpAddr::V6(1),
        ) || ip == Some(IpAddr::V6(0)) ==> false,
{
    reveal_strlit("Router:");
    assert("Router:"@[0] == 'R');
    lemma_value_behind("Router:"@, text@);
    lemma_first_router(lines_of(output@), i);
}

/// The name server that a session asks directly is the first that was set before and
/// is not of the local host, or else the first router.
pub proof fn direct_name_servers_come_first(
    guard: &SystemDnsGuard,
    routers: &Vec<Option<IpAddr>>,
    text: &str,
    ip: Option<IpAddr>,
    r: Option<IpAddr>,
    watch: SystemDnsMonitor,
    i: int,
)
    requires
        guard.snapshots@.len() > 0,
        guard.snapshots@[0].servers@.len() > 0,
        text@ == guard.snapshots@[0].servers@[0]@,
        call_ensures(parse_direct_dns_ip, (text,), ip),
        call_ensures(SystemDnsGuard::direct_dns_upstream, (guard, routers), r),
        call_ensures(SystemDnsGuard::monitor, (guard,), watch),
        0 <= i < guard.snapshots@.len(),
    ensures
        ip is Some ==> r == ip,
        watch.servers@ == guard.servers@,
        watch.services@.len() == guard.snapshots@.len(),
        watch.services@[i]@ == guard.snapshots@[i].name@,
{
    assert(views(watch.services@).len() == watch.services@.len());
    assert(views(watch.services@)[i] == watch.services@[i]@);
}

/// Without a name server of its own a session asks the first router that is known.
pub proof fn routers_stand_in_for_name_servers(
    guard: &SystemDnsGuard,
    routers: &Vec<Option<IpAddr>>,
    ip: IpAddr,
    direct: bool,
    r: Option<IpAddr>,
)
    requires
        guard.snapshots@.len() == 0,
        routers@.len() > 0,
        routers@[0] == Some(ip),
        direct == (!loopback(ip) && !unspecified(ip)),
        call_ensures(SystemDnsGuard::direct_dns_upstream, (guard, routers), r),
    ensures
        direct ==> r == Some(ip),
{
}

} // verus!
