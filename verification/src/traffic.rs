//! What is told of the bytes that a relay carries: how many, and for whom.

use vstd::prelude::*;
use crate::bytes::{be16, be16_at, read_be16, slice_of};
use crate::ip::{ip_value, parse_ip};
use crate::num::{
    decimal, decimal_is_digits, decimal_reads_back, parse_unsigned, to_decimal, unsigned_value,
};
use crate::text::{
    after_prefix, begins_with, bytes_of, cat3, contains, eq_ignore_case, find, has,
    lemma_find_after, lemma_find_is, lemma_no_char, lemma_rfind_char,
    lemma_trimmed_same, lemma_utf8_reads_back, occurs_at, opt_view, rfind_char, rsplit_once,
    same_ignoring_case, split, split_first, split_last, split_on, split_once, starts_with,
    strip_prefix, trim, trimmed, utf8, utf8_text, views,
};
use crate::textmap::TextMap;

verus! {

/// What a relay is for.
#[derive(Debug)]
pub struct RelayLabels {
    pub target: String,
    pub route: Option<String>,
    pub mode: Option<String>,
}

impl RelayLabels {
    /// A relay to a target by a route in a mode.
    pub fn new(target: String, route: &str, mode: Option<&str>) -> (r: Self)
        ensures
            r.target@ == target@,
            opt_view(r.route) == Some(route@),
            opt_view(r.mode) == crate::paths::str_view(mode),
    {
        RelayLabels {
            target,
            route: Some(route.to_owned()),
            mode: match mode {
                Some(m) => Some(m.to_owned()),
                None => None,
            },
        }
    }
}

/// What a relay has carried.
#[derive(Debug)]
pub struct RelayStats {
    pub uploaded: u64,
    pub downloaded: u64,
    pub sampled: bool,
    pub display_target: String,
}

/// What a relay had carried when it was last looked at, and whether anything
/// was told of it.
#[derive(Clone, Copy, Debug, PartialEq, Eq, Structural)]
pub struct RelayMeter {
    pub last_uploaded: u64,
    pub last_downloaded: u64,
    pub sampled: bool,
}

/// `a - b`, or 0 where `b` is larger.
pub open spec fn rise(a: u64, b: u64) -> nat {
    if a >= b {
        (a - b) as nat
    } else {
        0
    }
}

/// What is told of a relay that carried so many bytes.
pub open spec fn sample_fields(
    labels: RelayLabels,
    target: Seq<char>,
    uploaded: nat,
    downloaded: nat,
) -> Map<Seq<char>, Seq<char>> {
    let m = Map::<Seq<char>, Seq<char>>::empty().insert("target"@, target).insert(
        "uploaded"@,
        decimal(uploaded),
    ).insert("downloaded"@, decimal(downloaded));
    let m = match labels.route {
        Some(r) => m.insert("route"@, r@),
        None => m,
    };
    match labels.mode {
        Some(s) => m.insert("mode"@, s@),
        None => m,
    }
}

impl RelayMeter {
    /// A relay that carried nothing yet.
    pub fn new() -> (r: Self)
        ensures
            r == (RelayMeter { last_uploaded: 0, last_downloaded: 0, sampled: false }),
    {
        RelayMeter { last_uploaded: 0, last_downloaded: 0, sampled: false }
    }

    /// Looks at a relay that has carried so many bytes in all, and tells what
    /// came since the last look, if anything did and anyone listens.
    pub fn emit_delta(
        &mut self,
        labels: &RelayLabels,
        target: &str,
        uploaded: u64,
        downloaded: u64,
        listened: bool,
    ) -> (r: Option<TextMap>)
        ensures
            final(self).last_uploaded == uploaded,
            final(self).last_downloaded == downloaded,
            ({
                let up = rise(uploaded, old(self).last_uploaded);
                let down = rise(downloaded, old(self).last_downloaded);
                let tells = listened && (up > 0 || down > 0);
                &&& final(self).sampled == (old(self).sampled || tells)
                &&& r is Some == tells
                &&& r matches Some(m) ==> m@ == sample_fields(*labels, target@, up, down)
            }),
    {
        let up: u64 = if uploaded >= self.last_uploaded {
            uploaded - self.last_uploaded
        } else {
            0
        };
        let down: u64 = if downloaded >= self.last_downloaded {
            downloaded - self.last_downloaded
        } else {
            0
        };
        self.last_uploaded = uploaded;
        self.last_downloaded = downloaded;
        if (up == 0 && down == 0) || !listened {
            return None;
        }
        self.sampled = true;
        let mut fields = TextMap::new();
        fields.insert("target".to_owned(), target.to_owned());
        fields.insert("uploaded".to_owned(), to_decimal(up));
        fields.insert("downloaded".to_owned(), to_decimal(down));
        match &labels.route {
            Some(route) => {
                fields.insert("route".to_owned(), route.clone());
            },
            None => {},
        }
        match &labels.mode {
            Some(mode) => {
                fields.insert("mode".to_owned(), mode.clone());
            },
            None => {},
        }
        Some(fields)
    }
}

// ---------------------------------------------------------------------------
// Targets

/// The host and port of a target. Without a port that can be read, all of it
/// is the host, unless the host stands in brackets.
pub open spec fn target_parts(target: Seq<char>) -> (Seq<char>, Option<int>) {
    let bracketed = match after_prefix(target, "["@) {
        Some(rest) => split_first(rest, "]"@),
        None => None,
    };
    match bracketed {
        Some((host, suffix)) => (
            host,
            match after_prefix(suffix, ":"@) {
                Some(port) => unsigned_value(port, 65535),
                None => None,
            },
        ),
        None => match split_last(target, ':') {
            Some((host, port)) => match unsigned_value(port, 65535) {
                Some(p) => (host, Some(p)),
                None => (target, None),
            },
            None => (target, None),
        },
    }
}

/// A number that may be there.
pub open spec fn port_view(port: Option<u16>) -> Option<int> {
    match port {
        Some(p) => Some(p as int),
        None => None,
    }
}

fn parse_port(text: &str) -> (r: Option<u16>)
    ensures
        port_view(r) == unsigned_value(text@, 65535),
{
    match parse_unsigned(text, 65535) {
        Some(p) => Some(p as u16),
        None => None,
    }
}

/// The host and port of a target.
pub fn split_target(target: &str) -> (r: (String, Option<u16>))
    ensures
        (r.0@, port_view(r.1)) == target_parts(target@),
{
    proof {
        reveal_strlit("]");
    }
    match strip_prefix(target, "[") {
        Some(rest) => match split_once(rest.as_str(), "]") {
            Some((host, suffix)) => {
                let port = match strip_prefix(suffix.as_str(), ":") {
                    Some(p) => parse_port(p.as_str()),
                    None => None,
                };
                return (host, port);
            },
            None => {},
        },
        None => {},
    }
    match rsplit_once(target, ':') {
        Some((host, port)) => match parse_port(port.as_str()) {
            Some(p) => (host, Some(p)),
            None => (target.to_owned(), None),
        },
        None => (target.to_owned(), None),
    }
}

/// The text of a host and port: a host with a colon stands in brackets.
pub open spec fn target_of(host: Seq<char>, port: Option<int>) -> Seq<char> {
    let h = if contains(host, ":"@) && !begins_with(host, "["@) {
        "["@ + host + "]"@
    } else {
        host
    };
    match port {
        Some(p) => h + ":"@ + decimal(p as nat),
        None => h,
    }
}

/// The text of a host and port: a host with a colon stands in brackets.
pub fn format_target(host: &str, port: Option<u16>) -> (r: String)
    ensures
        r@ == target_of(host@, port_view(port)),
{
    let host = if has(host, ":") && !starts_with(host, "[") {
        cat3("[", host, "]")
    } else {
        host.to_owned()
    };
    match port {
        Some(p) => cat3(host.as_str(), ":", to_decimal(p as u64).as_str()),
        None => host,
    }
}

/// The target that an authority names, on the given port where it names none.
pub open spec fn hinted(authority: Seq<char>, fallback_port: Option<int>) -> Seq<char> {
    let (host, port) = target_parts(trimmed(authority));
    target_of(
        host,
        match port {
            Some(p) => Some(p),
            None => fallback_port,
        },
    )
}

/// The target that an authority names, on the given port where it names none.
pub fn apply_authority_hint(authority: &str, fallback_port: Option<u16>) -> (r: String)
    ensures
        r@ == hinted(authority@, port_view(fallback_port)),
{
    let authority = trim(authority);
    let (host, port) = split_target(authority.as_str());
    let port = match port {
        Some(p) => Some(p),
        None => fallback_port,
    };
    format_target(host.as_str(), port)
}

// ---------------------------------------------------------------------------
// What the first bytes of a connection tell of the host

/// The value of the first `Host` line, if no line before it lacks a colon.
pub open spec fn host_line(lines: Seq<Seq<char>>) -> Option<Seq<char>>
    decreases lines.len(),
{
    if lines.len() == 0 {
        None
    } else {
        match split_first(lines[0], ":"@) {
            None => None,
            Some((name, value)) => if same_ignoring_case(name, "host"@) {
                Some(trimmed(value))
            } else {
                host_line(lines.skip(1))
            },
        }
    }
}

/// The host that a request head names.
pub open spec fn http_host(bytes: Seq<u8>) -> Option<Seq<char>> {
    match utf8(bytes) {
        None => None,
        Some(text) => match find(text, "\r\n\r\n"@) {
            None => None,
            Some(end) => host_line(split(text.take(end), "\r\n"@).skip(1)),
        },
    }
}

/// The host that a request head names.
pub fn infer_http_host(bytes: &[u8]) -> (r: Option<String>)
    ensures
        opt_view(r) == http_host(bytes@),
{
    let text = match utf8_text(bytes) {
        Some(t) => t,
        None => {
            return None;
        },
    };
    proof {
        reveal_strlit("\r\n\r\n");
        reveal_strlit("\r\n");
        reveal_strlit(":");
    }
    let head = match split_once(text.as_str(), "\r\n\r\n") {
        Some((h, _)) => h,
        None => {
            return None;
        },
    };
    let lines = split_on(head.as_str(), "\r\n");
    let ghost all = views(lines@);
    if lines.len() == 0 {
        return None;
    }
    let mut i: usize = 1;
    while i < lines.len()
        invariant
            1 <= i <= lines@.len(),
            all == views(lines@),
            http_host(bytes@) == host_line(all.skip(1)),
            host_line(all.skip(1)) == host_line(all.skip(i as int)),
            ":"@.len() == 1,
        decreases lines@.len() - i,
    {
        let ghost rest = all.skip(i as int);
        proof {
            assert(rest[0] == lines@[i as int]@);
            assert(rest.skip(1) =~= all.skip(i + 1));
        }
        match split_once(lines[i].as_str(), ":") {
            None => {
                return None;
            },
            Some((name, value)) => {
                if eq_ignore_case(name.as_str(), "host") {
                    return Some(trim(value.as_str()));
                }
            },
        }
        i = i + 1;
    }
    None
}

/// The first name of a list of server names, from `c` to `end`, that is a host.
pub open spec fn name_in_list(h: Seq<u8>, c: int, end: int) -> Option<Seq<char>>
    decreases end - c,
{
    if c < 0 || c + 3 > end || end > h.len() {
        None
    } else {
        let name_end = c + 3 + be16_at(h, c + 1);
        if name_end > end {
            None
        } else if h[c] == 0 {
            utf8(h.subrange(c + 3, name_end))
        } else {
            name_in_list(h, name_end, end)
        }
    }
}

/// The host in a server name extension, which goes from `c` to `end`.
pub open spec fn name_in_extension(h: Seq<u8>, c: int, end: int) -> Option<Seq<char>> {
    if c + 2 > end || c + 2 + be16_at(h, c) > end {
        None
    } else {
        name_in_list(h, c + 2, c + 2 + be16_at(h, c))
    }
}

/// The host in a list of extensions, from `c` to `end`.
pub open spec fn name_in_extensions(h: Seq<u8>, c: int, end: int) -> Option<Seq<char>>
    decreases end - c,
{
    if c < 0 || c + 4 > end || end > h.len() {
        None
    } else {
        let next = c + 4 + be16_at(h, c + 2);
        if next > end {
            None
        } else if be16_at(h, c) == 0 {
            name_in_extension(h, c + 4, next)
        } else {
            name_in_extensions(h, next, end)
        }
    }
}

/// Where the cipher suites of a client hello start.
pub open spec fn ciphers_at(h: Seq<u8>) -> int {
    39 + h[38]
}

/// Where the compression methods of a client hello start.
pub open spec fn compression_at(h: Seq<u8>) -> int {
    ciphers_at(h) + 2 + be16_at(h, ciphers_at(h))
}

/// Where the extensions of a client hello start, behind their length.
pub open spec fn extensions_at(h: Seq<u8>) -> int {
    compression_at(h) + 1 + h[compression_at(h)] + 2
}

/// The host that a client hello names.
pub open spec fn hello_name(h: Seq<u8>) -> Option<Seq<char>> {
    let body = h[1] * 65536 + h[2] * 256 + h[3];
    if h[0] != 1 || h.len() < 4 + body || body < 34 || h.len() <= 38 {
        None
    } else if ciphers_at(h) + 1 >= h.len() || compression_at(h) >= h.len() || extensions_at(h)
        > h.len() {
        None
    } else {
        let end = extensions_at(h) + be16_at(h, extensions_at(h) - 2);
        if end > h.len() {
            None
        } else {
            name_in_extensions(h, extensions_at(h), end)
        }
    }
}

/// The host that the first record of a TLS connection names.
pub open spec fn tls_name(b: Seq<u8>) -> Option<Seq<char>> {
    if b.len() < 5 || b[0] != 22 || be16_at(b, 3) < 4 || b.len() < 5 + be16_at(b, 3) {
        None
    } else {
        hello_name(b.subrange(5, 5 + be16_at(b, 3)))
    }
}

fn find_name(h: &[u8], from: usize, end: usize) -> (r: Option<String>)
    requires
        from <= end <= h@.len(),
    ensures
        opt_view(r) == name_in_list(h@, from as int, end as int),
{
    let len: usize = h.len();
    let mut c: usize = from;
    while c <= end && end - c >= 3
        invariant
            c <= end <= h@.len(),
            name_in_list(h@, from as int, end as int) == name_in_list(h@, c as int, end as int),
        decreases end - c,
    {
        let name_len: usize = read_be16(h, c + 1) as usize;
        if end - c - 3 < name_len {
            return None;
        }
        let name_end: usize = c + 3 + name_len;
        if h[c] == 0 {
            return utf8_text(slice_of(h, c + 3, name_end).as_slice());
        }
        c = name_end;
    }
    None
}

fn find_extension(h: &[u8], from: usize, end: usize) -> (r: Option<String>)
    requires
        from <= end <= h@.len(),
    ensures
        opt_view(r) == name_in_extensions(h@, from as int, end as int),
{
    let len: usize = h.len();
    let mut c: usize = from;
    while end - c >= 4
        invariant
            c <= end <= h@.len(),
            name_in_extensions(h@, from as int, end as int) == name_in_extensions(
                h@,
                c as int,
                end as int,
            ),
        decreases end - c,
    {
        let kind: u16 = read_be16(h, c);
        let ext_len: usize = read_be16(h, c + 2) as usize;
        if end - c - 4 < ext_len {
            return None;
        }
        let next: usize = c + 4 + ext_len;
        if kind == 0 {
            if ext_len < 2 {
                return None;
            }
            let list_len: usize = read_be16(h, c + 4) as usize;
            if next - (c + 6) < list_len {
                return None;
            }
            return find_name(h, c + 6, c + 6 + list_len);
        }
        c = next;
    }
    None
}

fn infer_hello_name(h: &[u8]) -> (r: Option<String>)
    requires
        4 <= h@.len() <= 65535,
    ensures
        opt_view(r) == hello_name(h@),
{
    let len: usize = h.len();
    if h[0] != 1 {
        return None;
    }
    let body: usize = h[1] as usize * 65536 + h[2] as usize * 256 + h[3] as usize;
    if len < 4 + body || body < 34 || len <= 38 {
        return None;
    }
    let ciphers: usize = 39 + h[38] as usize;
    if ciphers + 1 >= len {
        return None;
    }
    let compression: usize = ciphers + 2 + read_be16(h, ciphers) as usize;
    if compression >= len {
        return None;
    }
    let extensions: usize = compression + 1 + h[compression] as usize + 2;
    if extensions > len {
        return None;
    }
    let end: usize = extensions + read_be16(h, extensions - 2) as usize;
    if end > len {
        return None;
    }
    find_extension(h, extensions, end)
}

/// The host that the first record of a TLS connection names.
pub fn infer_tls_sni(bytes: &[u8]) -> (r: Option<String>)
    ensures
        opt_view(r) == tls_name(bytes@),
{
    let len: usize = bytes.len();
    if len < 5 || bytes[0] != 22 {
        return None;
    }
    let record: usize = read_be16(bytes, 3) as usize;
    if len - 5 < record || record < 4 {
        return None;
    }
    let h = slice_of(bytes, 5, 5 + record);
    infer_hello_name(h.as_slice())
}

/// The target under which a relay is shown after its first bytes: only where
/// the target is an address and the bytes name a host does it change.
pub open spec fn display_target(target: Seq<char>, first: Seq<u8>) -> Option<Seq<char>> {
    let (host, port) = target_parts(target);
    if ip_value(host) is None {
        None
    } else {
        match (http_host(first), tls_name(first)) {
            (Some(a), _) => Some(hinted(a, port)),
            (None, Some(a)) => Some(hinted(a, port)),
            (None, None) => None,
        }
    }
}

/// The target under which a relay is shown after its first bytes, if it changes.
pub fn infer_display_target(target: &str, first_chunk: &[u8]) -> (r: Option<String>)
    ensures
        opt_view(r) == display_target(target@, first_chunk@),
{
    let (host, port) = split_target(target);
    if parse_ip(host.as_str()).is_none() {
        return None;
    }
    let authority = match infer_http_host(first_chunk) {
        Some(a) => a,
        None => match infer_tls_sni(first_chunk) {
            Some(a) => a,
            None => {
                return None;
            },
        },
    };
    Some(apply_authority_hint(authority.as_str(), port))
}

/// The target under which a relay is shown after its first bytes.
pub fn shown_target(target: String, first_chunk: &[u8]) -> (r: String)
    ensures
        r@ == match display_target(target@, first_chunk@) {
            Some(t) => t,
            None => target@,
        },
{
    match infer_display_target(target.as_str(), first_chunk) {
        Some(t) => t,
        None => target,
    }
}

// ---------------------------------------------------------------------------
// Laws

/// Each look at a relay tells what it carried since the look before, to the byte,
/// with its target, route and mode; nothing is told where nothing came, or where
/// nobody listens.
pub proof fn looks_tell_what_came_since(
    meter: &mut RelayMeter,
    labels: &RelayLabels,
    target: &str,
    up: u64,
    down: u64,
    listened: bool,
    first: Option<TextMap>,
    next: &mut RelayMeter,
    more_up: u64,
    more_down: u64,
    second: Option<TextMap>,
)
    requires
        call_ensures(RelayMeter::emit_delta, (meter, labels, target, up, down, listened), first),
        *old(next) == *final(meter),
        up + more_up <= u64::MAX,
        down + more_down <= u64::MAX,
        call_ensures(
            RelayMeter::emit_delta,
            (next, labels, target, (up + more_up) as u64, (down + more_down) as u64, true),
            second,
        ),
    ensures
        !listened ==> first is None,
        second is Some <==> more_up > 0 || more_down > 0,
        second matches Some(m) ==> {
            &&& m@.contains_pair("target"@, target@)
            &&& m@.contains_pair("uploaded"@, decimal(more_up as nat))
            &&& m@.contains_pair("downloaded"@, decimal(more_down as nat))
            &&& labels.route matches Some(r) ==> m@.contains_pair("route"@, r@)
            &&& labels.mode matches Some(s) ==> m@.contains_pair("mode"@, s@)
        },
        final(next).sampled <==> old(next).sampled || second is Some,
        final(meter).sampled <==> old(meter).sampled || first is Some,
{
    reveal_strlit("target");
    reveal_strlit("uploaded");
    reveal_strlit("downloaded");
    reveal_strlit("route");
    reveal_strlit("mode");
    assert("target"@.len() == 6 && "uploaded"@.len() == 8 && "downloaded"@.len() == 10
        && "route"@.len() == 5 && "mode"@.len() == 4);
}

/// A target is read back as its host and its port, with brackets round a host that
/// has a colon.
pub proof fn targets_read_back(host: &str, port: Option<u16>, text: String, target: &str, r: (
    String,
    Option<u16>,
))
    requires
        call_ensures(format_target, (host, port), text),
        target@ == text@,
        call_ensures(split_target, (target,), r),
        host@.len() > 0 && host@[0] != '[',
        forall|i: int| 0 <= i < host@.len() ==> #[trigger] host@[i] != ']',
    ensures
        r.0@ == host@,
        r.1 == port,
        host@.contains(':') <==> text@[0] == '[',
{
    reveal_strlit("[");
    reveal_strlit(":");
    assert("["@ =~= seq!['[']);
    assert(":"@ =~= seq![':']);
    lemma_contains_char(host@, ':');
    assert(host@.take(1)[0] == host@[0]);
    lemma_parts(host@, port_view(port));
}

proof fn lemma_contains_char(s: Seq<char>, c: char)
    ensures
        contains(s, seq![c]) <==> s.contains(c),
{
    if s.contains(c) {
        let i = choose|i: int| 0 <= i < s.len() && s[i] == c;
        assert(s.subrange(i, i + 1) =~= seq![c]);
        assert(occurs_at(s, seq![c], i));
    }
    if contains(s, seq![c]) {
        let i = choose|i: int| occurs_at(s, seq![c], i);
        assert(s.subrange(i, i + 1)[0] == s[i]);
    }
}

/// What an authority names is shown with its own port, or with the port of the
/// target where it names none.
pub proof fn authorities_keep_their_port(
    host: &str,
    port: u16,
    with_port: String,
    without: String,
    a: &str,
    b: &str,
    fallback: Option<u16>,
    r: String,
    s: String,
    wanted: String,
)
    requires
        call_ensures(format_target, (host, Some(port)), with_port),
        call_ensures(format_target, (host, None), without),
        call_ensures(format_target, (host, fallback), wanted),
        a@ == with_port@,
        b@ == without@,
        call_ensures(apply_authority_hint, (a, fallback), r),
        call_ensures(apply_authority_hint, (b, fallback), s),
        host@.len() > 0 && host@[0] != '[',
        forall|i: int| 0 <= i < host@.len() ==> #[trigger] host@[i] != ']',
        trimmed(with_port@) == with_port@,
        trimmed(without@) == without@,
    ensures
        r@ == with_port@,
        s@ == wanted@,
{
    lemma_parts(host@, Some(port as int));
    lemma_parts(host@, None);
}

#[verifier::spinoff_prover]
#[verifier::rlimit(50)]
proof fn lemma_parts(h: Seq<char>, port: Option<int>)
    requires
        port matches Some(p) ==> 0 <= p <= 65535,
        h.len() > 0 && h[0] != '[',
        forall|i: int| 0 <= i < h.len() ==> #[trigger] h[i] != ']',
    ensures
        target_parts(target_of(h, port)) == (h, port),
{
    reveal_strlit("[");
    reveal_strlit("]");
    reveal_strlit(":");
    let open = "["@;
    let close = "]"@;
    let colon = ":"@;
    let text = target_of(h, port);
    assert(open =~= seq!['[']);
    assert(close =~= seq![']']);
    assert(colon =~= seq![':']);
    assert(h.take(1)[0] == h[0]);
    lemma_contains_char(h, ':');
    if let Some(p) = port {
        decimal_reads_back(p as nat, 65535);
        decimal_is_digits(p as nat);
    }
    let digits = if port is Some {
        decimal(port->0 as nat)
    } else {
        Seq::<char>::empty()
    };
    if h.contains(':') {
        let suffix = if port is Some {
            colon + digits
        } else {
            Seq::<char>::empty()
        };
        let rest = h + close + suffix;
        assert(text =~= open + rest);
        assert(text.take(1) =~= open);
        assert(text.skip(1) =~= rest);
        lemma_no_char(h, ']', suffix);
        lemma_find_after(h, close, suffix);
        assert(rest.take(h.len() as int) =~= h);
        assert(rest.skip((h.len() + 1) as int) =~= suffix);
        if port is Some {
            assert(suffix.take(1) =~= colon);
            assert(suffix.skip(1) =~= digits);
        }
    } else {
        assert(text.take(1)[0] == h[0]);
        assert(!begins_with(text, open));
        lemma_rfind_char(text, ':');
        if port is Some {
            assert(text =~= h + colon + digits);
            assert(text[h.len() as int] == ':');
            assert forall|j: int| h.len() < j < text.len() implies text[j] != ':' by {
                assert(text[j] == digits[j - h.len() - 1]);
            }
            assert(rfind_char(text, ':') == Some(h.len() as int));
            assert(text.take(h.len() as int) =~= h);
            assert(text.skip((h.len() + 1) as int) =~= digits);
        } else {
            assert(rfind_char(text, ':') is None) by {
                if let Some(i) = rfind_char(text, ':') {
                    assert(h.contains(h[i]));
                }
            }
        }
    }
}

/// A relay to an address is shown under the host that its first bytes name, that of
/// a request before that of a TLS record, with the port of the target; one to a name,
/// or whose bytes name no host, stays as it is.
pub proof fn relays_are_shown_under_their_host(
    target: &str,
    first: &[u8],
    parts: (String, Option<u16>),
    by_http: Option<String>,
    by_tls: Option<String>,
    host: &str,
    ip: Option<crate::ip::IpAddr>,
    hint: &str,
    hinted_text: String,
    r: Option<String>,
    given: String,
    shown: String,
)
    requires
        call_ensures(split_target, (target,), parts),
        host@ == parts.0@,
        call_ensures(parse_ip, (host,), ip),
        call_ensures(infer_http_host, (first,), by_http),
        call_ensures(infer_tls_sni, (first,), by_tls),
        by_http matches Some(h) ==> hint@ == h@,
        by_http is None ==> (by_tls matches Some(h) ==> hint@ == h@),
        call_ensures(apply_authority_hint, (hint, parts.1), hinted_text),
        call_ensures(infer_display_target, (target, first), r),
        given@ == target@,
        call_ensures(shown_target, (given, first), shown),
    ensures
        r is Some <==> ip is Some && (by_http is Some || by_tls is Some),
        r matches Some(s) ==> s@ == hinted_text@,
        shown@ == (if r is Some {
            (r->0)@
        } else {
            target@
        }),
{
}

/// The host of a request is the value of its `Host` line, in any case of the name.
#[verifier::spinoff_prover]
#[verifier::rlimit(50)]
pub proof fn hosts_of_requests_are_found(
    line: Seq<char>,
    name: Seq<char>,
    host: Seq<char>,
    rest: Seq<char>,
    bytes: &[u8],
    r: Option<String>,
)
    requires
        forall|i: int| 0 <= i < line.len() ==> #[trigger] line[i] != '\r',
        forall|i: int| 0 <= i < name.len() ==> #[trigger] name[i] != ':' && name[i] != '\r',
        forall|i: int| 0 <= i < host.len() ==> #[trigger] host[i] != '\r',
        same_ignoring_case(name, "host"@),
        bytes@ == bytes_of(
            line + seq!['\r', '\n'] + (name + seq![':'] + host) + seq!['\r', '\n', '\r', '\n'] + rest,
        ),
        call_ensures(infer_http_host, (bytes,), r),
    ensures
        r matches Some(h) && h@ == trimmed(host),
{
    let nl = seq!['\r', '\n'];
    let blank = seq!['\r', '\n', '\r', '\n'];
    let header = name + seq![':'] + host;
    let head = line + nl + header;
    let text = head + blank + rest;
    reveal_strlit("\r\n");
    reveal_strlit("\r\n\r\n");
    reveal_strlit(":");
    assert("\r\n"@ =~= nl);
    assert("\r\n\r\n"@ =~= blank);
    assert(":"@ =~= seq![':']);
    lemma_utf8_reads_back(text);
    let n = head.len() as int;
    assert(text.subrange(n, n + 4) =~= blank);
    assert forall|j: int| 0 <= j < n implies !occurs_at(text, blank, j) by {
        if occurs_at(text, blank, j) {
            let s = text.subrange(j, j + 4);
            assert(s[0] == text[j] && s[2] == text[j + 2]);
            assert(text[j] == head[j]);
            if j < line.len() {
                assert(head[j] == line[j]);
            } else if j == line.len() {
                if header.len() > 0 {
                    assert(text[j + 2] == header[0]);
                    lemma_no_return(name, host, 0);
                }
            } else if j == line.len() + 1 {
                assert(head[j] == nl[1]);
            } else {
                assert(head[j] == header[j - line.len() - 2]);
                lemma_no_return(name, host, j - line.len() - 2);
            }
        }
    }
    lemma_find_is(text, blank, 0, n);
    assert(text.take(n) =~= head);
    assert forall|i: int| 0 <= i < header.len() implies #[trigger] header[i] != '\r' by {
        lemma_no_return(name, host, i);
    }
    crate::http::lemma_no_cr(line);
    crate::http::lemma_no_cr(header);
    crate::http::lemma_line(line, header);
    lemma_one_line(header);
    let lines = split(head, nl);
    assert(lines =~= seq![line, header]);
    assert(lines.skip(1) =~= seq![header]);
    lemma_no_char(name, ':', host);
    lemma_find_after(name, seq![':'], host);
    assert(split_first(header, seq![':']) == Some((header.take(name.len() as int), header.skip(
        (name.len() + 1) as int,
    ))));
    assert(header.take(name.len() as int) =~= name);
    assert(header.skip((name.len() + 1) as int) =~= host);
}

proof fn lemma_no_return(name: Seq<char>, host: Seq<char>, i: int)
    requires
        forall|i: int| 0 <= i < name.len() ==> #[trigger] name[i] != ':' && name[i] != '\r',
        forall|i: int| 0 <= i < host.len() ==> #[trigger] host[i] != '\r',
        0 <= i < (name + seq![':'] + host).len(),
    ensures
        (name + seq![':'] + host)[i] != '\r',
{
    let header = name + seq![':'] + host;
    if i < name.len() {
        assert(header[i] == name[i]);
    } else if i > name.len() {
        assert(header[i] == host[i - name.len() - 1]);
    }
}

proof fn lemma_one_line(s: Seq<char>)
    requires
        !contains(s, crate::http::crlf()),
    ensures
        split(s, crate::http::crlf()) == seq![s],
{
    crate::text::lemma_find_from(s, crate::http::crlf(), 0);
}

/// The extension that names a host.
pub open spec fn name_extension(name: Seq<u8>) -> Seq<u8> {
    be16(0) + be16((name.len() + 5) as int) + be16((name.len() + 3) as int) + (seq![0u8] + be16(
        name.len() as int,
    ) + name)
}

/// A client hello with these fields.
#[verifier::opaque]
pub open spec fn hello_bytes(
    version: Seq<u8>,
    session: Seq<u8>,
    ciphers: Seq<u8>,
    compression: Seq<u8>,
    exts: Seq<u8>,
) -> Seq<u8> {
    let body = version + (seq![session.len() as u8] + session) + (be16(ciphers.len() as int)
        + ciphers) + (seq![compression.len() as u8] + compression) + (be16(exts.len() as int)
        + exts);
    seq![1u8, 0] + be16(body.len() as int) + body
}

/// The host of a TLS connection is the name in the extension for it in its first
/// record, whether that extension comes first or behind another.
#[verifier::spinoff_prover]
#[verifier::rlimit(50)]
pub proof fn hosts_of_tls_connections_are_found(
    version: Seq<u8>,
    session: Seq<u8>,
    ciphers: Seq<u8>,
    compression: Seq<u8>,
    before: Seq<u8>,
    kind: int,
    data: Seq<u8>,
    host: Seq<char>,
    hello: Seq<u8>,
    bytes: &[u8],
    more: Seq<u8>,
    r: Option<String>,
)
    requires
        version.len() == 34,
        session.len() <= 255,
        ciphers.len() <= 1000,
        compression.len() <= 255,
        0 < kind < 65536,
        data.len() <= 1000,
        before.len() == 0 || before == be16(kind) + be16(data.len() as int) + data,
        bytes_of(host).len() <= 1000,
        hello == hello_bytes(
            version,
            session,
            ciphers,
            compression,
            before + name_extension(bytes_of(host)),
        ),
        bytes@ == seq![22u8, 3, 1] + be16(hello.len() as int) + (hello + more),
        call_ensures(infer_tls_sni, (bytes,), r),
    ensures
        r matches Some(h) && h@ == host,
{
    lemma_hello_name(version, session, ciphers, compression, before, kind, data, bytes_of(host), hello);
    lemma_record(hello, more, bytes@);
    lemma_utf8_reads_back(host);
}

proof fn lemma_name_extension_len(name: Seq<u8>)
    ensures
        name_extension(name).len() == 9 + name.len(),
{
}

proof fn lemma_hello_name(
    version: Seq<u8>,
    session: Seq<u8>,
    ciphers: Seq<u8>,
    compression: Seq<u8>,
    before: Seq<u8>,
    kind: int,
    data: Seq<u8>,
    name: Seq<u8>,
    hello: Seq<u8>,
)
    requires
        version.len() == 34,
        session.len() <= 255,
        ciphers.len() <= 1000,
        compression.len() <= 255,
        0 < kind < 65536,
        data.len() <= 1000,
        before.len() == 0 || before == be16(kind) + be16(data.len() as int) + data,
        name.len() <= 1000,
        hello == hello_bytes(
            version,
            session,
            ciphers,
            compression,
            before + name_extension(name),
        ),
    ensures
        4 <= hello.len() < 65536,
        hello_name(hello) == utf8(name),
{
    let exts = before + name_extension(name);
    lemma_name_extension_len(name);
    assert(before.len() <= 1004);
    lemma_hello(version, session, ciphers, compression, exts, hello);
    lemma_extensions(hello, extensions_at(hello), before, kind, data, name);
}

proof fn lemma_extensions(
    h: Seq<u8>,
    p: int,
    before: Seq<u8>,
    kind: int,
    data: Seq<u8>,
    name: Seq<u8>,
)
    requires
        0 <= p,
        0 < kind < 65536,
        data.len() <= 1000,
        name.len() <= 1000,
        before.len() == 0 || before == be16(kind) + be16(data.len() as int) + data,
        h.len() == p + before.len() + 9 + name.len(),
        h.subrange(p, h.len() as int) == before + name_extension(name),
    ensures
        name_in_extensions(h, p, h.len() as int) == utf8(name),
{
    let end = h.len() as int;
    let all = before + name_extension(name);
    let at = (p + before.len()) as int;
    assert(h.subrange(at, end) =~= h.subrange(p, end).skip(before.len() as int));
    assert(all.skip(before.len() as int) =~= name_extension(name));
    lemma_name_extension(h, at, end, name);
    if before.len() > 0 {
        let b = h.subrange(p, end);
        let k = be16(kind);
        let n = be16(data.len() as int);
        assert(b[0] == h[p] && b[1] == h[p + 1] && b[2] == h[p + 2] && b[3] == h[p + 3]);
        assert(b[0] == before[0] && b[1] == before[1] && b[2] == before[2] && b[3] == before[3]);
        assert(before[0] == k[0] && before[1] == k[1] && before[2] == n[0] && before[3] == n[1]);
        assert(be16_at(h, p) == kind);
        assert(be16_at(h, p + 2) == data.len());
    }
}

proof fn lemma_record(hello: Seq<u8>, more: Seq<u8>, b: Seq<u8>)
    requires
        4 <= hello.len() < 65536,
        b == seq![22u8, 3, 1] + be16(hello.len() as int) + (hello + more),
    ensures
        tls_name(b) == hello_name(hello),
{
    let n = hello.len() as int;
    assert(b[3] == be16(n)[0] && b[4] == be16(n)[1]);
    assert(b.subrange(5, 5 + n) =~= hello);
}

#[verifier::spinoff_prover]
#[verifier::rlimit(50)]
proof fn lemma_hello(
    version: Seq<u8>,
    session: Seq<u8>,
    ciphers: Seq<u8>,
    compression: Seq<u8>,
    exts: Seq<u8>,
    h: Seq<u8>,
)
    requires
        version.len() == 34,
        session.len() <= 255,
        ciphers.len() <= 1000,
        compression.len() <= 255,
        4 <= exts.len() <= 4000,
        h == hello_bytes(version, session, ciphers, compression, exts),
    ensures
        4 <= h.len() < 65536,
        0 <= extensions_at(h),
        h.len() == extensions_at(h) + exts.len(),
        h.subrange(extensions_at(h), h.len() as int) == exts,
        hello_name(h) == name_in_extensions(h, extensions_at(h), h.len() as int),
{
    reveal(hello_bytes);
    let s = seq![session.len() as u8] + session;
    let c = be16(ciphers.len() as int) + ciphers;
    let m = seq![compression.len() as u8] + compression;
    let e = be16(exts.len() as int) + exts;
    let b1 = version + s;
    let b2 = b1 + c;
    let b3 = b2 + m;
    let body = b3 + e;
    let head = seq![1u8, 0] + be16(body.len() as int);
    assert(h == head + body);
    assert(head.len() == 4);
    let n = body.len() as int;
    assert(h[0] == head[0] && h[1] == head[1]);
    assert(h[2] == head[2] && h[3] == head[3]);
    assert(head[2] == be16(n)[0] && head[3] == be16(n)[1]);
    assert(h[1] * 65536 + h[2] * 256 + h[3] == n);
    assert(h[38] == body[34] && body[34] == b3[34] && b3[34] == b2[34] && b2[34] == b1[34] && b1[34]
        == s[0]);
    assert(h[38] == session.len());
    let q0 = b1.len() as int;
    let p0 = 4 + q0;
    assert(ciphers_at(h) == p0);
    assert(h[p0] == body[q0] && body[q0] == b3[q0] && b3[q0] == b2[q0] && b2[q0] == c[0]);
    assert(h[p0 + 1] == body[q0 + 1] && body[q0 + 1] == b3[q0 + 1] && b3[q0 + 1] == b2[q0 + 1] && b2[q0
        + 1] == c[1]);
    assert(c[0] == be16(ciphers.len() as int)[0] && c[1] == be16(ciphers.len() as int)[1]);
    assert(be16_at(h, p0) == ciphers.len());
    let q1 = b2.len() as int;
    let p1 = 4 + q1;
    assert(compression_at(h) == p1);
    assert(h[p1] == body[q1] && body[q1] == b3[q1] && b3[q1] == m[0]);
    let q2 = b3.len() as int;
    let p2 = 4 + q2;
    assert(extensions_at(h) == p2 + 2);
    assert(h[p2] == body[q2] && body[q2] == e[0]);
    assert(h[p2 + 1] == body[q2 + 1] && body[q2 + 1] == e[1]);
    assert(e[0] == be16(exts.len() as int)[0] && e[1] == be16(exts.len() as int)[1]);
    assert(be16_at(h, p2) == exts.len());
    assert forall|i: int| 0 <= i < exts.len() implies h.subrange(p2 + 2, h.len() as int)[i]
        == exts[i] by {
        assert(h[p2 + 2 + i] == body[q2 + 2 + i]);
        assert(body[q2 + 2 + i] == e[2 + i]);
        assert(e[2 + i] == exts[i]);
    }
    assert(h.subrange(p2 + 2, h.len() as int) =~= exts);
}

proof fn lemma_name_extension(h: Seq<u8>, at: int, end: int, name: Seq<u8>)
    requires
        0 <= at,
        end == h.len(),
        name.len() <= 1000,
        end == at + 9 + name.len(),
        h.subrange(at, end) == name_extension(name),
    ensures
        name_in_extensions(h, at, end) == utf8(name),
{
    let ext = name_extension(name);
    let n = name.len() as int;
    assert forall|i: int| 0 <= i < ext.len() implies h[at + i] == ext[i] by {
        assert(h.subrange(at, end)[i] == h[at + i]);
    }
    let tail = seq![0u8] + be16(n) + name;
    assert(ext[0] == be16(0)[0] && ext[1] == be16(0)[1]);
    assert(ext[2] == be16(n + 5)[0] && ext[3] == be16(n + 5)[1]);
    assert(ext[4] == be16(n + 3)[0] && ext[5] == be16(n + 3)[1]);
    assert(ext[6] == tail[0] && ext[7] == tail[1] && ext[8] == tail[2]);
    assert(tail[1] == be16(n)[0] && tail[2] == be16(n)[1]);
    assert(h[at + 0] == 0 && h[at + 1] == 0);
    assert(h[at + 2] == ext[2] && h[at + 3] == ext[3]);
    assert(h[at + 4] == ext[4] && h[at + 5] == ext[5]);
    assert(h[at + 6] == 0);
    assert(h[at + 7] == ext[7] && h[at + 8] == ext[8]);
    assert(be16_at(h, at) == 0);
    assert(be16_at(h, at + 2) == n + 5);
    assert(be16_at(h, at + 4) == n + 3);
    assert(be16_at(h, at + 7) == n);
    assert forall|i: int| 0 <= i < n implies h.subrange(at + 9, end)[i] == name[i] by {
        assert(h[at + (9 + i)] == ext[9 + i]);
        assert(ext[9 + i] == tail[3 + i]);
    }
    assert(h.subrange(at + 9, end) =~= name);
}

} // verus!
