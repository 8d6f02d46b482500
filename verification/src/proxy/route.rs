//! Routes: which targets are reached directly, which through the server, and
//! which not at all.

use vstd::prelude::*;
use crate::assoc::{position, put, value_of};
use crate::client::ClientArgs;
use crate::failure::{outcome, timed_out, Failure};
use crate::glob::{
    check_glob, glob_fault, glob_matches, has_double_star, holds, is_literal, is_star_literal,
    match_glob, settled, settled_on,
};
use crate::ip::{ip_value, parse_ip, v4, v4_number, IpAddr};
use crate::net::{
    agree32, all_wf, any_has, any_in, contains_any, net_fault, net_of, parse_net,
    reserved, reserved_ip_nets, truncating_keeps_the_addresses, IpNet,
};
use crate::num::{
    decimal, explain_unsigned, parse_unsigned, to_decimal, unsigned_fault, unsigned_value,
};
use crate::proxy::adblock::{blocks_view, normal_domain, normalize_domain, scheme_of, Adblocker};
use crate::paths::str_view;
use crate::proxy::socks5::{
    plain_reply, send_success, target_host, target_text, TargetAddr, TargetView,
};
use crate::text::{
    after_prefix, begins_with, cat, cat3, clone_opt, clone_strings, contains, ends_with,
    finishes_with, has, lines, lines_of, lower, opt_view, same, split, split_on, starts_with,
    strip_prefix, trim, trimmed, upper, upper_char, views, without_trailing, words, words_of,
};
use crate::traffic::RelayLabels;

verus! {

/// The most host routes that a wildcard may stand for.
pub const IPV4_WILDCARD_EXPANSION_LIMIT: u64 = 4096;

/// How targets are routed that no block rule names.
#[derive(Clone, Copy, Debug, PartialEq, Eq, Structural)]
pub enum FilterMode {
    /// All through the server.
    Proxy,
    /// All directly.
    Direct,
    /// By rules.
    Rule,
}

/// The route of a target.
#[derive(Clone, Copy, Debug, PartialEq, Eq, Structural)]
pub enum RouteDecision {
    Direct,
    Remote,
    Block,
}

/// Rules, by the route that they select.
#[derive(Debug)]
pub struct RouteRuleConfig {
    pub direct: Vec<String>,
    pub proxy: Vec<String>,
    pub block: Vec<String>,
}

impl Default for RouteRuleConfig {
    fn default() -> (r: Self)
        ensures
            r.none(),
    {
        RouteRuleConfig { direct: Vec::new(), proxy: Vec::new(), block: Vec::new() }
    }
}

impl RouteRuleConfig {
    /// Whether there are no rules.
    pub open spec fn none(&self) -> bool {
        self.direct@.len() == 0 && self.proxy@.len() == 0 && self.block@.len() == 0
    }

    /// Whether there are no rules.
    pub fn is_empty(&self) -> (r: bool)
        ensures
            r == self.none(),
    {
        self.direct.len() == 0 && self.proxy.len() == 0 && self.block.len() == 0
    }

    /// A copy of the rules.
    pub fn copy(&self) -> (r: Self)
        ensures
            r.direct@ == self.direct@,
            r.proxy@ == self.proxy@,
            r.block@ == self.block@,
    {
        RouteRuleConfig {
            direct: clone_strings(&self.direct),
            proxy: clone_strings(&self.proxy),
            block: clone_strings(&self.block),
        }
    }
}

// ---------------------------------------------------------------------------
// Domain rules

/// Whether a rule for a domain and all below it names a host.
pub open spec fn suffix_hit(pattern: Seq<char>, host: Seq<char>) -> bool {
    match after_prefix(pattern, "*."@) {
        Some(suffix) => host == suffix || finishes_with(host, "."@ + suffix),
        None => false,
    }
}

/// Whether one of the rules names a host, which is in normal form. A malformed
/// rule fails, unless one before it names the host.
pub open spec fn rule_hits(patterns: Seq<Seq<char>>, host: Seq<char>) -> Result<
    bool,
    Seq<Seq<char>>,
>
    decreases patterns.len(),
{
    if patterns.len() == 0 {
        Ok(false)
    } else {
        let p = normal_domain(patterns[0]);
        if suffix_hit(p, host) {
            Ok(true)
        } else if glob_fault(p) is Some {
            Err(malformed(p, glob_fault(p)->0))
        } else if glob_matches(p, host) {
            Ok(true)
        } else {
            rule_hits(patterns.skip(1), host)
        }
    }
}

/// Whether one of the rules names a host.
pub open spec fn domain_verdict(patterns: Seq<Seq<char>>, host: Seq<char>) -> Result<
    bool,
    Seq<Seq<char>>,
> {
    rule_hits(patterns, normal_domain(host))
}

/// What is told of a malformed rule.
pub open spec fn malformed(pattern: Seq<char>, cause: Seq<char>) -> Seq<Seq<char>> {
    seq!["invalid glob pattern '"@ + pattern + "'"@, cause]
}

/// Whether the rules may say this of a host, which is in normal form. Where the
/// pattern matcher of some systems answers in another way, a rule may or may not
/// name the host, or fail if it is not even read alike.
pub open spec fn may_say(
    patterns: Seq<Seq<char>>,
    host: Seq<char>,
    r: Result<bool, Seq<Seq<char>>>,
) -> bool
    decreases patterns.len(),
{
    if patterns.len() == 0 {
        r == Ok::<bool, Seq<Seq<char>>>(false)
    } else {
        let p = normal_domain(patterns[0]);
        let rest = patterns.skip(1);
        if suffix_hit(p, host) {
            r == Ok::<bool, Seq<Seq<char>>>(true)
        } else if !settled(p) {
            ||| r == Ok::<bool, Seq<Seq<char>>>(true)
            ||| exists|cause: Seq<char>|
                r == Err::<bool, Seq<Seq<char>>>(#[trigger] malformed(p, cause))
            ||| may_say(rest, host, r)
        } else if glob_fault(p) is Some {
            r == Err::<bool, Seq<Seq<char>>>(malformed(p, glob_fault(p)->0))
        } else if !settled_on(p, host) {
            r == Ok::<bool, Seq<Seq<char>>>(true) || may_say(rest, host, r)
        } else if glob_matches(p, host) {
            r == Ok::<bool, Seq<Seq<char>>>(true)
        } else {
            may_say(rest, host, r)
        }
    }
}

/// Whether all systems read the rules alike.
pub open spec fn all_settled(patterns: Seq<Seq<char>>) -> bool {
    forall|i: int| 0 <= i < patterns.len() ==> settled(normal_domain(#[trigger] patterns[i]))
}

/// Whether all systems match a host against the rules alike.
pub open spec fn all_settled_on(patterns: Seq<Seq<char>>, host: Seq<char>) -> bool {
    forall|i: int|
        0 <= i < patterns.len() ==> settled_on(
            normal_domain(#[trigger] patterns[i]),
            normal_domain(host),
        )
}

/// The rules may always say what the pattern matcher finds.
proof fn lemma_may_say(patterns: Seq<Seq<char>>, host: Seq<char>)
    ensures
        may_say(patterns, host, rule_hits(patterns, host)),
    decreases patterns.len(),
{
    if patterns.len() > 0 {
        let p = normal_domain(patterns[0]);
        lemma_may_say(patterns.skip(1), host);
        if !suffix_hit(p, host) && glob_fault(p) is Some {
            assert(rule_hits(patterns, host) == Err::<bool, Seq<Seq<char>>>(
                malformed(p, glob_fault(p)->0),
            ));
        }
    }
}

/// Where all systems match alike, the rules say one thing of a host.
pub proof fn settled_rules_leave_no_choice(
    patterns: Seq<Seq<char>>,
    host: Seq<char>,
    r: Result<bool, Seq<Seq<char>>>,
)
    requires
        all_settled_on(patterns, host),
        may_say(patterns, normal_domain(host), r),
    ensures
        r == domain_verdict(patterns, host),
    decreases patterns.len(),
{
    if patterns.len() > 0 {
        assert(settled_on(normal_domain(patterns[0]), normal_domain(host)));
        let rest = patterns.skip(1);
        assert forall|i: int| 0 <= i < rest.len() implies settled_on(
            normal_domain(#[trigger] rest[i]),
            normal_domain(host),
        ) by {
            assert(rest[i] == patterns[i + 1]);
        }
        if may_say(rest, normal_domain(host), r) {
            settled_rules_leave_no_choice(rest, host, r);
        }
    }
}

/// A rule for a domain and all below it is never missed, on no system and whatever
/// the other rules are. Where it comes first, nothing else decides.
pub proof fn suffix_rules_are_never_missed(
    patterns: Seq<Seq<char>>,
    host: Seq<char>,
    r: Result<bool, Seq<Seq<char>>>,
    i: int,
)
    requires
        0 <= i < patterns.len(),
        suffix_hit(normal_domain(patterns[i]), normal_domain(host)),
        may_say(patterns, normal_domain(host), r),
    ensures
        r != Ok::<bool, Seq<Seq<char>>>(false),
        i == 0 ==> r == Ok::<bool, Seq<Seq<char>>>(true),
    decreases i,
{
    if i > 0 {
        let rest = patterns.skip(1);
        assert(rest[i - 1] == patterns[i]);
        if may_say(rest, normal_domain(host), r) {
            suffix_rules_are_never_missed(rest, host, r, i - 1);
        }
    }
}

/// Whether a rule is a name, or a star and the end of one.
pub open spec fn simple(pattern: Seq<char>) -> bool {
    is_literal(normal_domain(pattern)) || is_star_literal(normal_domain(pattern))
}

/// Whether a rule that is a name, or a star and the end of one, names a host.
pub open spec fn names(pattern: Seq<char>, host: Seq<char>) -> bool {
    let p = normal_domain(pattern);
    let h = normal_domain(host);
    ||| p == h
    ||| suffix_hit(p, h)
    ||| is_star_literal(p) && finishes_with(h, p.skip(1))
}

/// Whether one of the rules names a host.
pub fn matches_domain_rules(patterns: &Vec<String>, host: &str) -> (r: Result<bool, Failure>)
    ensures
        may_say(views(patterns@), normal_domain(host@), outcome(r)),
        all_settled_on(views(patterns@), host@) ==> outcome(r) == domain_verdict(
            views(patterns@),
            host@,
        ),
        all_settled_on(views(patterns@), host@) && (forall|i: int|
            0 <= i < patterns@.len() ==> simple((#[trigger] patterns@[i])@)) ==> r == Ok::<
            bool,
            Failure,
        >(exists|i: int| 0 <= i < patterns@.len() && names((#[trigger] patterns@[i])@, host@)),
{
    let name = normalize_domain(host);
    let ghost all = views(patterns@);
    let ghost exact = all_settled_on(all, host@) && (forall|k: int|
        0 <= k < patterns@.len() ==> simple((#[trigger] patterns@[k])@));
    assert(all.skip(0) =~= all);
    let mut i: usize = 0;
    while i < patterns.len()
        invariant
            i <= patterns@.len(),
            all == views(patterns@),
            name@ == normal_domain(host@),
            exact == (all_settled_on(all, host@) && (forall|k: int|
                0 <= k < patterns@.len() ==> simple((#[trigger] patterns@[k])@))),
            forall|v: Result<bool, Seq<Seq<char>>>| #[trigger]
                may_say(all.skip(i as int), name@, v) ==> may_say(all, name@, v),
            exact ==> forall|k: int| 0 <= k < i ==> !names((#[trigger] patterns@[k])@, host@),
        decreases patterns@.len() - i,
    {
        let ghost rest = all.skip(i as int);
        let pattern = normalize_domain(patterns[i].as_str());
        proof {
            assert(rest[0] == patterns@[i as int]@);
            assert(rest.skip(1) =~= all.skip(i + 1));
            assert(all[i as int] == patterns@[i as int]@);
            assert(exact ==> settled_on(pattern@, name@));
        }
        match strip_prefix(pattern.as_str(), "*.") {
            Some(suffix) => {
                if same(name.as_str(), suffix.as_str()) || ends_with(
                    name.as_str(),
                    cat(".", suffix.as_str()).as_str(),
                ) {
                    proof {
                        assert(may_say(rest, name@, Ok(true)));
                        lemma_exact(all, host@, Ok(true));
                    }
                    return Ok(true);
                }
            },
            None => {},
        }
        match match_glob(pattern.as_str(), name.as_str()) {
            Err(cause) => {
                proof {
                    let v = Err::<bool, Seq<Seq<char>>>(malformed(pattern@, cause@));
                    assert(may_say(rest, name@, v));
                    lemma_exact(all, host@, v);
                }
                return Err(
                    Failure::caused(
                        cat3("invalid glob pattern '", pattern.as_str(), "'").as_str(),
                        cause.as_str(),
                    ),
                );
            },
            Ok(m) => {
                if m {
                    proof {
                        assert(may_say(rest, name@, Ok(true)));
                        lemma_exact(all, host@, Ok(true));
                    }
                    return Ok(true);
                }
            },
        }
        assert forall|v: Result<bool, Seq<Seq<char>>>| #[trigger]
            may_say(all.skip(i + 1), name@, v) implies may_say(all, name@, v) by {
            assert(may_say(rest, name@, v));
        }
        i = i + 1;
    }
    proof {
        assert(may_say(all.skip(i as int), name@, Ok(false)));
        lemma_exact(all, host@, Ok(false));
    }
    Ok(false)
}

proof fn lemma_exact(
    patterns: Seq<Seq<char>>,
    host: Seq<char>,
    r: Result<bool, Seq<Seq<char>>>,
)
    requires
        may_say(patterns, normal_domain(host), r),
    ensures
        all_settled_on(patterns, host) ==> r == domain_verdict(patterns, host),
{
    if all_settled_on(patterns, host) {
        settled_rules_leave_no_choice(patterns, host, r);
    }
}

/// What is wrong with the first malformed rule of a list.
pub open spec fn patterns_fault(label: Seq<char>, patterns: Seq<Seq<char>>) -> Option<
    Seq<Seq<char>>,
>
    decreases patterns.len(),
{
    if patterns.len() == 0 {
        None
    } else if glob_fault(normal_domain(patterns[0])) is Some {
        Some(malformed_in(label, patterns[0], glob_fault(normal_domain(patterns[0]))->0))
    } else {
        patterns_fault(label, patterns.skip(1))
    }
}

/// What is told of a malformed rule of a list.
pub open spec fn malformed_in(label: Seq<char>, pattern: Seq<char>, cause: Seq<char>) -> Seq<
    Seq<char>,
> {
    seq!["invalid glob pattern in "@ + label + ": '"@ + pattern + "'"@, cause]
}

/// Whether this may be wrong with a list of rules: one that not all systems read
/// alike may be found malformed or not.
pub open spec fn may_fault(
    label: Seq<char>,
    patterns: Seq<Seq<char>>,
    f: Option<Seq<Seq<char>>>,
) -> bool
    decreases patterns.len(),
{
    if patterns.len() == 0 {
        f is None
    } else {
        let p = normal_domain(patterns[0]);
        let rest = patterns.skip(1);
        if !settled(p) {
            ||| exists|cause: Seq<char>|
                f == Some(#[trigger] malformed_in(label, patterns[0], cause))
            ||| may_fault(label, rest, f)
        } else if glob_fault(p) is Some {
            f == Some(malformed_in(label, patterns[0], glob_fault(p)->0))
        } else {
            may_fault(label, rest, f)
        }
    }
}

/// Where all systems read the rules alike, one thing is wrong with them or nothing.
pub proof fn settled_rules_have_one_fault(
    label: Seq<char>,
    patterns: Seq<Seq<char>>,
    f: Option<Seq<Seq<char>>>,
)
    requires
        all_settled(patterns),
        may_fault(label, patterns, f),
    ensures
        f == patterns_fault(label, patterns),
    decreases patterns.len(),
{
    if patterns.len() > 0 {
        assert(settled(normal_domain(patterns[0])));
        let rest = patterns.skip(1);
        assert forall|i: int| 0 <= i < rest.len() implies settled(
            normal_domain(#[trigger] rest[i]),
        ) by {
            assert(rest[i] == patterns[i + 1]);
        }
        if may_fault(label, rest, f) {
            settled_rules_have_one_fault(label, rest, f);
        }
    }
}

/// The texts of a failure, if there is one.
pub open spec fn fault_of<T>(r: Result<T, Failure>) -> Option<Seq<Seq<char>>> {
    match r {
        Ok(_) => None,
        Err(e) => Some(e@),
    }
}

/// Fails on the first malformed rule of a list.
pub fn validate_domain_rule_entries(label: &str, patterns: &Vec<String>) -> (r: Result<(), Failure>)
    ensures
        may_fault(label@, views(patterns@), fault_of(r)),
        all_settled(views(patterns@)) ==> fault_of(r) == patterns_fault(label@, views(patterns@)),
{
    let ghost all = views(patterns@);
    assert(all.skip(0) =~= all);
    let mut i: usize = 0;
    while i < patterns.len()
        invariant
            i <= patterns@.len(),
            all == views(patterns@),
            forall|f: Option<Seq<Seq<char>>>| #[trigger]
                may_fault(label@, all.skip(i as int), f) ==> may_fault(label@, all, f),
        decreases patterns@.len() - i,
    {
        let pattern = normalize_domain(patterns[i].as_str());
        proof {
            assert(all.skip(i as int)[0] == patterns@[i as int]@);
            assert(all.skip(i as int).skip(1) =~= all.skip(i + 1));
        }
        match check_glob(pattern.as_str()) {
            Some(cause) => {
                proof {
                    let f = Some(malformed_in(label@, patterns@[i as int]@, cause@));
                    assert(may_fault(label@, all.skip(i as int), f));
                    if all_settled(all) {
                        settled_rules_have_one_fault(label@, all, f);
                    }
                }
                return Err(
                    Failure::caused(
                        cat3(
                            cat3("invalid glob pattern in ", label, ": '").as_str(),
                            patterns[i].as_str(),
                            "'",
                        ).as_str(),
                        cause.as_str(),
                    ),
                );
            },
            None => {},
        }
        assert forall|f: Option<Seq<Seq<char>>>| #[trigger]
            may_fault(label@, all.skip(i + 1), f) implies may_fault(label@, all, f) by {
            assert(may_fault(label@, all.skip(i as int), f));
        }
        i = i + 1;
    }
    proof {
        assert(may_fault(label@, all.skip(i as int), None));
        if all_settled(all) {
            settled_rules_have_one_fault(label@, all, None);
        }
    }
    Ok(())
}

// ---------------------------------------------------------------------------
// IP rules

/// What one part of an IPv4 wildcard says of its octet: which it is, or that
/// it may be any.
pub open spec fn octet_rule(part: Seq<char>) -> Result<Option<u8>, Seq<Seq<char>>> {
    if part.len() == 0 {
        Err(seq!["IPv4 wildcard contains an empty octet"@])
    } else if part == "*"@ {
        Ok(None)
    } else {
        match unsigned_value(part, 255) {
            Some(v) => Ok(Some(v as u8)),
            None => Err(
                seq![
                    "IPv4 wildcard octet '"@ + part + "' is not in 0..=255"@,
                    unsigned_fault(part, 255),
                ],
            ),
        }
    }
}

/// What the parts of an IPv4 wildcard say of their octets.
pub open spec fn octet_rules(parts: Seq<Seq<char>>) -> Result<Seq<Option<u8>>, Seq<Seq<char>>>
    decreases parts.len(),
{
    if parts.len() == 0 {
        Ok(seq![])
    } else {
        match octet_rules(parts.drop_last()) {
            Err(e) => Err(e),
            Ok(before) => match octet_rule(parts.last()) {
                Err(e) => Err(e),
                Ok(o) => Ok(before.push(o)),
            },
        }
    }
}

/// Whether a known octet stands behind one that may be any.
pub open spec fn known_behind_any(o: Seq<Option<u8>>) -> bool {
    exists|i: int, j: int|
        0 <= i < j < o.len() && (#[trigger] o[i]) is None && (#[trigger] o[j]) is Some
}

/// The four octets of a wildcard: those that are missing may be any.
pub open spec fn four_octets(o: Seq<Option<u8>>) -> Seq<Option<u8>> {
    Seq::new(
        4,
        |i: int|
            if i < o.len() {
                o[i]
            } else {
                None
            },
    )
}

/// 1 for a known octet, 0 for one that may be any.
pub open spec fn known(o: Option<u8>) -> int {
    if o is Some {
        1
    } else {
        0
    }
}

/// How many of four octets are known.
pub open spec fn known_octets(p: Seq<Option<u8>>) -> int {
    known(p[0]) + known(p[1]) + known(p[2]) + known(p[3])
}

/// The octet, or `v` where it may be any.
pub open spec fn octet_or(o: Option<u8>, v: u8) -> u8 {
    match o {
        Some(k) => k,
        None => v,
    }
}

/// The address with the given octets, and `v` for those that may be any.
pub open spec fn filled(p: Seq<Option<u8>>, v: u8) -> u32 {
    v4_number(octet_or(p[0], v), octet_or(p[1], v), octet_or(p[2], v), octet_or(p[3], v))
}

/// How many addresses a wildcard with so many known octets stands for.
pub open spec fn expansion(known: int) -> nat {
    if known >= 4 {
        1
    } else if known == 3 {
        256
    } else if known == 2 {
        65536
    } else {
        16777216
    }
}

/// The networks that a wildcard stands for: one where only last octets may be
/// any, else one for each address.
pub open spec fn pattern_nets(p: Seq<Option<u8>>) -> Result<Seq<IpNet>, Seq<Seq<char>>> {
    if !known_behind_any(p) && known_octets(p) < 4 {
        Ok(
            seq![
                IpNet {
                    addr: IpAddr::V4(filled(p, 0)),
                    prefix_len: (8 * known_octets(p)) as u8,
                },
            ],
        )
    } else if expansion(known_octets(p)) > IPV4_WILDCARD_EXPANSION_LIMIT {
        Err(
            seq![
                "IPv4 wildcard expands to "@ + decimal(expansion(known_octets(p)))
                    + " host routes, above limit "@ + decimal(
                    IPV4_WILDCARD_EXPANSION_LIMIT as nat,
                ),
            ],
        )
    } else {
        Ok(
            Seq::new(
                expansion(known_octets(p)),
                |v: int| IpNet { addr: IpAddr::V4(filled(p, v as u8)), prefix_len: 32 },
            ),
        )
    }
}

/// The networks of an IPv4 wildcard rule.
pub open spec fn wildcard_nets(entry: Seq<char>) -> Result<Seq<IpNet>, Seq<Seq<char>>> {
    let parts = split(entry, "."@);
    if contains(entry, "/"@) || contains(entry, ":"@) {
        Err(seq!["IPv4 wildcard rules cannot contain CIDR prefixes or IPv6 separators"@])
    } else if parts.len() > 4 {
        Err(seq!["IPv4 wildcard must contain between 1 and 4 octets"@])
    } else {
        match octet_rules(parts) {
            Err(e) => Err(e),
            Ok(o) => if known_behind_any(o) && parts.len() != 4 {
                Err(seq!["non-suffix IPv4 wildcards must contain exactly 4 octets"@])
            } else {
                pattern_nets(four_octets(o))
            },
        }
    }
}

/// The networks of an IP rule: a wildcard, an address or a network.
pub open spec fn ip_rule(entry: Seq<char>) -> Result<Seq<IpNet>, Seq<Seq<char>>> {
    let e = trimmed(entry);
    if e.len() == 0 {
        Err(seq!["IP rule cannot be empty"@])
    } else if contains(e, "*"@) {
        wildcard_nets(e)
    } else {
        match (ip_value(e), net_of(e)) {
            (Some(IpAddr::V4(n)), _) => Ok(seq![IpNet { addr: IpAddr::V4(n), prefix_len: 32 }]),
            (Some(IpAddr::V6(n)), _) => Ok(seq![IpNet { addr: IpAddr::V6(n), prefix_len: 128 }]),
            (None, Some(net)) => Ok(seq![net.truncated()]),
            (None, None) => Err(
                seq!["expected CIDR, IP literal, or IPv4 wildcard, got "@ + e, net_fault()],
            ),
        }
    }
}

/// The networks, or the texts of the failure.
pub open spec fn nets_outcome(r: Result<Vec<IpNet>, Failure>) -> Result<Seq<IpNet>, Seq<Seq<char>>> {
    match r {
        Ok(v) => Ok(v@),
        Err(e) => Err(e@),
    }
}

fn parse_octets(parts: &Vec<String>) -> (r: Result<Vec<Option<u8>>, Failure>)
    ensures
        match (r, octet_rules(views(parts@))) {
            (Ok(v), Ok(s)) => v@ == s && v@.len() == parts@.len(),
            (Err(e), Err(f)) => e@ == f,
            _ => false,
        },
{
    let ghost all = views(parts@);
    let mut out: Vec<Option<u8>> = Vec::new();
    let mut i: usize = 0;
    assert(all.take(0) =~= Seq::<Seq<char>>::empty());
    while i < parts.len()
        invariant
            i <= parts@.len(),
            all == views(parts@),
            out@.len() == i,
            octet_rules(all.take(i as int)) == Ok::<Seq<Option<u8>>, Seq<Seq<char>>>(out@),
        decreases parts@.len() - i,
    {
        let part = parts[i].as_str();
        proof {
            assert(all.take(i + 1).drop_last() =~= all.take(i as int));
            assert(all.take(i + 1).last() == part@);
        }
        let fault: Option<Failure> = if part.is_empty() {
            Some(Failure::new("IPv4 wildcard contains an empty octet"))
        } else if same(part, "*") {
            out.push(None);
            None
        } else {
            match parse_unsigned(part, 255) {
                Some(v) => {
                    out.push(Some(v as u8));
                    None
                },
                None => Some(
                    Failure::caused(
                        cat3("IPv4 wildcard octet '", part, "' is not in 0..=255").as_str(),
                        explain_unsigned(part, 255).as_str(),
                    ),
                ),
            }
        };
        match fault {
            Some(e) => {
                proof {
                    lemma_octets_fail(all, i as int + 1);
                }
                return Err(e);
            },
            None => {},
        }
        i = i + 1;
    }
    assert(all.take(i as int) =~= all);
    Ok(out)
}

/// A failure in the first parts is the failure of all.
proof fn lemma_octets_fail(parts: Seq<Seq<char>>, n: int)
    requires
        0 <= n <= parts.len(),
        octet_rules(parts.take(n)) is Err,
    ensures
        octet_rules(parts) == octet_rules(parts.take(n)),
    decreases parts.len() - n,
{
    if n == parts.len() {
        assert(parts.take(n) =~= parts);
    } else {
        assert(parts.take(n + 1).drop_last() =~= parts.take(n));
        lemma_octets_fail(parts, n + 1);
    }
}

fn is_known_behind_any(o: &Vec<Option<u8>>) -> (r: bool)
    ensures
        r == known_behind_any(o@),
{
    let mut any: bool = false;
    let mut i: usize = 0;
    let ghost mut at: int = 0;
    while i < o.len()
        invariant
            i <= o@.len(),
            any ==> 0 <= at < i && o@[at] is None,
            !any ==> forall|k: int| 0 <= k < i ==> (#[trigger] o@[k]) is Some,
            forall|k: int, j: int|
                0 <= k < j < i && (#[trigger] o@[k]) is None ==> (#[trigger] o@[j]) is None,
        decreases o@.len() - i,
    {
        match o[i] {
            None => {
                any = true;
                proof {
                    at = i as int;
                }
            },
            Some(_) => {
                if any {
                    assert(o@[at] is None && o@[i as int] is Some);
                    return true;
                }
            },
        }
        i = i + 1;
    }
    false
}

fn octet_at(o: &Vec<Option<u8>>, i: usize) -> (r: Option<u8>)
    requires
        i < 4,
    ensures
        r == four_octets(o@)[i as int],
{
    if i < o.len() {
        o[i]
    } else {
        None
    }
}

fn fill(o: Option<u8>, v: u8) -> (r: u8)
    ensures
        r == octet_or(o, v),
{
    match o {
        Some(k) => k,
        None => v,
    }
}

fn count_known(o: Option<u8>) -> (r: u8)
    ensures
        r == known(o),
{
    match o {
        Some(_) => 1,
        None => 0,
    }
}

fn expand_octets(o: &Vec<Option<u8>>) -> (r: Result<Vec<IpNet>, Failure>)
    ensures
        nets_outcome(r) == pattern_nets(four_octets(o@)),
        r matches Ok(v) ==> all_wf(v@),
{
    let p0 = octet_at(o, 0);
    let p1 = octet_at(o, 1);
    let p2 = octet_at(o, 2);
    let p3 = octet_at(o, 3);
    let mut p: Vec<Option<u8>> = Vec::new();
    p.push(p0);
    p.push(p1);
    p.push(p2);
    p.push(p3);
    assert(p@ =~= four_octets(o@));
    let known: u8 = count_known(p0) + count_known(p1) + count_known(p2) + count_known(p3);
    if !is_known_behind_any(&p) && known < 4 {
        let addr = v4(fill(p0, 0), fill(p1, 0), fill(p2, 0), fill(p3, 0));
        let mut routes: Vec<IpNet> = Vec::new();
        routes.push(IpNet { addr, prefix_len: 8 * known });
        assert(routes@ =~= pattern_nets(p@)->Ok_0);
        return Ok(routes);
    }
    let total: u64 = if known >= 4 {
        1
    } else if known == 3 {
        256
    } else if known == 2 {
        65536
    } else {
        16777216
    };
    if total > IPV4_WILDCARD_EXPANSION_LIMIT {
        return Err(
            Failure::new(
                cat(
                    cat3(
                        "IPv4 wildcard expands to ",
                        to_decimal(total).as_str(),
                        " host routes, above limit ",
                    ).as_str(),
                    to_decimal(IPV4_WILDCARD_EXPANSION_LIMIT).as_str(),
                ).as_str(),
            ),
        );
    }
    let mut routes: Vec<IpNet> = Vec::new();
    let mut v: u64 = 0;
    while v < total
        invariant
            v <= total,
            total == 1 || total == 256,
            p0 == p@[0] && p1 == p@[1] && p2 == p@[2] && p3 == p@[3],
            routes@.len() == v,
            forall|k: int|
                0 <= k < v ==> #[trigger] routes@[k] == (IpNet {
                    addr: IpAddr::V4(filled(p@, k as u8)),
                    prefix_len: 32,
                }),
        decreases total - v,
    {
        let octet: u8 = v as u8;
        let addr = v4(fill(p0, octet), fill(p1, octet), fill(p2, octet), fill(p3, octet));
        routes.push(IpNet { addr, prefix_len: 32 });
        v = v + 1;
    }
    assert(routes@ =~= pattern_nets(p@)->Ok_0);
    Ok(routes)
}

fn parse_ipv4_wildcard_rule(entry: &str) -> (r: Result<Vec<IpNet>, Failure>)
    ensures
        nets_outcome(r) == wildcard_nets(entry@),
        r matches Ok(v) ==> all_wf(v@),
{
    if has(entry, "/") || has(entry, ":") {
        return Err(
            Failure::new("IPv4 wildcard rules cannot contain CIDR prefixes or IPv6 separators"),
        );
    }
    proof {
        reveal_strlit(".");
    }
    let parts = split_on(entry, ".");
    if parts.len() > 4 {
        return Err(Failure::new("IPv4 wildcard must contain between 1 and 4 octets"));
    }
    match parse_octets(&parts) {
        Err(e) => Err(e),
        Ok(octets) => {
            if is_known_behind_any(&octets) && parts.len() != 4 {
                return Err(
                    Failure::new("non-suffix IPv4 wildcards must contain exactly 4 octets"),
                );
            }
            expand_octets(&octets)
        },
    }
}

/// The networks of an IP rule: a wildcard, an address or a network.
pub fn parse_ip_rule_entry(entry: &str) -> (r: Result<Vec<IpNet>, Failure>)
    ensures
        nets_outcome(r) == ip_rule(entry@),
        r matches Ok(v) ==> all_wf(v@),
{
    let entry = trim(entry);
    let entry = entry.as_str();
    if entry.is_empty() {
        return Err(Failure::new("IP rule cannot be empty"));
    }
    if has(entry, "*") {
        return parse_ipv4_wildcard_rule(entry);
    }
    let net = match parse_ip(entry) {
        Some(IpAddr::V4(n)) => IpNet { addr: IpAddr::V4(n), prefix_len: 32 },
        Some(IpAddr::V6(n)) => IpNet { addr: IpAddr::V6(n), prefix_len: 128 },
        None => match parse_net(entry) {
            Ok(net) => net.trunc(),
            Err(cause) => {
                return Err(
                    Failure::caused(
                        cat("expected CIDR, IP literal, or IPv4 wildcard, got ", entry).as_str(),
                        cause.as_str(),
                    ),
                );
            },
        },
    };
    let mut nets: Vec<IpNet> = Vec::new();
    nets.push(net);
    assert(nets@ =~= seq![net]);
    Ok(nets)
}

/// The networks of a list of IP rules.
pub open spec fn ip_rules(label: Seq<char>, entries: Seq<Seq<char>>) -> Result<
    Seq<IpNet>,
    Seq<Seq<char>>,
>
    decreases entries.len(),
{
    if entries.len() == 0 {
        Ok(seq![])
    } else {
        match ip_rules(label, entries.drop_last()) {
            Err(e) => Err(e),
            Ok(before) => match ip_rule(entries.last()) {
                Err(e) => Err(
                    seq!["invalid IP rule in "@ + label + ": '"@ + entries.last() + "'"@] + e,
                ),
                Ok(nets) => Ok(before + nets),
            },
        }
    }
}

/// A failure in the first rules is the failure of all.
proof fn lemma_ip_rules_fail(label: Seq<char>, entries: Seq<Seq<char>>, n: int)
    requires
        0 <= n <= entries.len(),
        ip_rules(label, entries.take(n)) is Err,
    ensures
        ip_rules(label, entries) == ip_rules(label, entries.take(n)),
    decreases entries.len() - n,
{
    if n == entries.len() {
        assert(entries.take(n) =~= entries);
    } else {
        assert(entries.take(n + 1).drop_last() =~= entries.take(n));
        lemma_ip_rules_fail(label, entries, n + 1);
    }
}

/// The networks of a list of IP rules.
pub fn parse_ip_rule_entries(label: &str, entries: &Vec<String>) -> (r: Result<Vec<IpNet>, Failure>)
    ensures
        nets_outcome(r) == ip_rules(label@, views(entries@)),
        r matches Ok(v) ==> all_wf(v@),
{
    let ghost all = views(entries@);
    let mut nets: Vec<IpNet> = Vec::new();
    let mut i: usize = 0;
    assert(all.take(0) =~= Seq::<Seq<char>>::empty());
    while i < entries.len()
        invariant
            i <= entries@.len(),
            all == views(entries@),
            all_wf(nets@),
            ip_rules(label@, all.take(i as int)) == Ok::<Seq<IpNet>, Seq<Seq<char>>>(nets@),
        decreases entries@.len() - i,
    {
        proof {
            assert(all.take(i + 1).drop_last() =~= all.take(i as int));
            assert(all.take(i + 1).last() == entries@[i as int]@);
        }
        match parse_ip_rule_entry(entries[i].as_str()) {
            Err(e) => {
                proof {
                    lemma_ip_rules_fail(label@, all, i + 1);
                }
                return Err(
                    e.context(
                        cat3(
                            cat3("invalid IP rule in ", label, ": '").as_str(),
                            entries[i].as_str(),
                            "'",
                        ).as_str(),
                    ),
                );
            },
            Ok(more) => {
                let mut more = more;
                nets.append(&mut more);
            },
        }
        i = i + 1;
    }
    assert(all.take(i as int) =~= all);
    Ok(nets)
}

// ---------------------------------------------------------------------------
// The table of rules

/// The rules of a table.
pub struct TableView {
    pub direct_globs: Seq<Seq<char>>,
    pub remote_globs: Seq<Seq<char>>,
    pub block_globs: Seq<Seq<char>>,
    pub direct_cidrs: Seq<IpNet>,
    pub remote_cidrs: Seq<IpNet>,
    pub block_cidrs: Seq<IpNet>,
}

/// Domain rules and networks, by the route that they select.
#[derive(Debug)]
pub struct RuleTable {
    pub direct_globs: Vec<String>,
    pub remote_globs: Vec<String>,
    pub block_globs: Vec<String>,
    pub direct_cidrs: Vec<IpNet>,
    pub remote_cidrs: Vec<IpNet>,
    pub block_cidrs: Vec<IpNet>,
}

impl View for RuleTable {
    type V = TableView;

    open spec fn view(&self) -> TableView {
        TableView {
            direct_globs: views(self.direct_globs@),
            remote_globs: views(self.remote_globs@),
            block_globs: views(self.block_globs@),
            direct_cidrs: self.direct_cidrs@,
            remote_cidrs: self.remote_cidrs@,
            block_cidrs: self.block_cidrs@,
        }
    }
}

impl TableView {
    /// The table without rules.
    pub open spec fn empty() -> TableView {
        TableView {
            direct_globs: seq![],
            remote_globs: seq![],
            block_globs: seq![],
            direct_cidrs: seq![],
            remote_cidrs: seq![],
            block_cidrs: seq![],
        }
    }

    /// Whether all networks are well formed.
    pub open spec fn wf(self) -> bool {
        all_wf(self.direct_cidrs) && all_wf(self.remote_cidrs) && all_wf(self.block_cidrs)
    }

    /// Whether all systems match a host alike against the domain rules.
    pub open spec fn settled_on(self, host: Seq<char>) -> bool {
        &&& all_settled_on(self.direct_globs, host)
        &&& all_settled_on(self.remote_globs, host)
        &&& all_settled_on(self.block_globs, host)
    }

    /// Whether all systems match a host alike against the domain rules that count
    /// in a mode.
    pub open spec fn settled_in(self, mode: FilterMode, host: Seq<char>) -> bool {
        &&& all_settled_on(self.block_globs, host)
        &&& mode == FilterMode::Rule ==> self.settled_on(host)
    }
}

/// The first word of a line of rules and the words behind it. There are none on
/// a line that is empty or a comment, or that has a single word.
pub open spec fn rule_line(line: Seq<char>) -> Option<(Seq<char>, Seq<Seq<char>>)> {
    let t = trimmed(line);
    let parts = words_of(t);
    if t.len() == 0 || begins_with(t, "#"@) || parts.len() < 2 {
        None
    } else {
        Some((parts[0], parts.skip(1)))
    }
}

/// Where a line stands.
pub open spec fn place(path: Seq<char>, index: int) -> Seq<char> {
    " at "@ + path + ":"@ + decimal((index + 1) as nat)
}

/// The table after a line of domain rules.
pub open spec fn rule_step(t: TableView, line: Seq<char>, path: Seq<char>, index: int) -> Result<
    TableView,
    Seq<Seq<char>>,
> {
    match rule_line(line) {
        None => Ok(t),
        Some((mode, rest)) => if mode == "L"@ {
            Ok(TableView { direct_globs: t.direct_globs + rest, ..t })
        } else if mode == "R"@ {
            Ok(TableView { remote_globs: t.remote_globs + rest, ..t })
        } else if mode == "B"@ {
            Ok(TableView { block_globs: t.block_globs + rest, ..t })
        } else {
            Err(seq!["invalid rule mode '"@ + mode + "'"@ + place(path, index)])
        },
    }
}

/// The table after lines of domain rules.
pub open spec fn rule_steps(t: TableView, lines: Seq<Seq<char>>, path: Seq<char>) -> Result<
    TableView,
    Seq<Seq<char>>,
>
    decreases lines.len(),
{
    if lines.len() == 0 {
        Ok(t)
    } else {
        match rule_steps(t, lines.drop_last(), path) {
            Err(e) => Err(e),
            Ok(u) => rule_step(u, lines.last(), path, lines.len() - 1),
        }
    }
}

/// The table after a line of networks.
pub open spec fn cidr_step(t: TableView, line: Seq<char>, path: Seq<char>, index: int) -> Result<
    TableView,
    Seq<Seq<char>>,
> {
    match rule_line(line) {
        None => Ok(t),
        Some((mode, rest)) => match ip_rule(rest[0]) {
            Err(e) => Err(seq!["invalid CIDR '"@ + rest[0] + "'"@ + place(path, index)] + e),
            Ok(nets) => if mode == "L"@ {
                Ok(TableView { direct_cidrs: t.direct_cidrs + nets, ..t })
            } else if mode == "R"@ {
                Ok(TableView { remote_cidrs: t.remote_cidrs + nets, ..t })
            } else if mode == "B"@ {
                Ok(TableView { block_cidrs: t.block_cidrs + nets, ..t })
            } else {
                Err(seq!["invalid CIDR mode '"@ + mode + "'"@ + place(path, index)])
            },
        },
    }
}

/// The table after lines of networks.
pub open spec fn cidr_steps(t: TableView, lines: Seq<Seq<char>>, path: Seq<char>) -> Result<
    TableView,
    Seq<Seq<char>>,
>
    decreases lines.len(),
{
    if lines.len() == 0 {
        Ok(t)
    } else {
        match cidr_steps(t, lines.drop_last(), path) {
            Err(e) => Err(e),
            Ok(u) => cidr_step(u, lines.last(), path, lines.len() - 1),
        }
    }
}

proof fn lemma_rule_steps_fail(t: TableView, lines: Seq<Seq<char>>, path: Seq<char>, n: int)
    requires
        0 <= n <= lines.len(),
        rule_steps(t, lines.take(n), path) is Err,
    ensures
        rule_steps(t, lines, path) == rule_steps(t, lines.take(n), path),
    decreases lines.len() - n,
{
    if n == lines.len() {
        assert(lines.take(n) =~= lines);
    } else {
        assert(lines.take(n + 1).drop_last() =~= lines.take(n));
        lemma_rule_steps_fail(t, lines, path, n + 1);
    }
}

proof fn lemma_cidr_steps_fail(t: TableView, lines: Seq<Seq<char>>, path: Seq<char>, n: int)
    requires
        0 <= n <= lines.len(),
        cidr_steps(t, lines.take(n), path) is Err,
    ensures
        cidr_steps(t, lines, path) == cidr_steps(t, lines.take(n), path),
    decreases lines.len() - n,
{
    if n == lines.len() {
        assert(lines.take(n) =~= lines);
    } else {
        assert(lines.take(n + 1).drop_last() =~= lines.take(n));
        lemma_cidr_steps_fail(t, lines, path, n + 1);
    }
}

/// The first word of a line of rules and the words behind it.
pub fn parse_rule_line(line: &str) -> (r: Option<(String, Vec<String>)>)
    ensures
        match (r, rule_line(line@)) {
            (Some((m, v)), Some((mode, rest))) => m@ == mode && views(v@) == rest && rest.len() > 0,
            (None, None) => true,
            _ => false,
        },
{
    let line = trim(line);
    let line = line.as_str();
    if line.is_empty() || starts_with(line, "#") {
        return None;
    }
    let mut parts = words(line);
    if parts.len() < 2 {
        return None;
    }
    let ghost all = parts@;
    let mode = parts.remove(0);
    assert(views(parts@) =~= views(all).skip(1));
    Some((mode, parts))
}

fn place_text(path: &str, index: usize) -> (r: String)
    requires
        index < usize::MAX,
    ensures
        r@ == place(path@, index as int),
{
    cat(cat3(" at ", path, ":").as_str(), to_decimal(index as u64 + 1).as_str())
}

fn extended(mut globs: Vec<String>, more: Vec<String>) -> (r: Vec<String>)
    ensures
        views(r@) == views(globs@) + views(more@),
{
    let mut more = more;
    let ghost a = globs@;
    let ghost b = more@;
    globs.append(&mut more);
    assert(views(globs@) =~= views(a) + views(b));
    globs
}

/// A text file, and the path that it was read from.
#[derive(Debug)]
pub struct RuleFile {
    pub path: String,
    pub content: String,
}

/// The outcome of loading rules.
pub open spec fn table_outcome(r: Result<RuleTable, Failure>) -> Result<TableView, Seq<Seq<char>>> {
    match r {
        Ok(t) => Ok(t@),
        Err(e) => Err(e@),
    }
}

/// The table with more domain rules.
pub open spec fn with_domains(t: TableView, rules: RouteRuleConfig) -> TableView {
    TableView {
        direct_globs: t.direct_globs + views(rules.direct@),
        remote_globs: t.remote_globs + views(rules.proxy@),
        block_globs: t.block_globs + views(rules.block@),
        ..t
    }
}

/// What is wrong with the domain rules of a configuration, if anything is.
#[verifier::ext_equal]
pub struct Faults {
    pub direct: Option<Seq<Seq<char>>>,
    pub proxy: Option<Seq<Seq<char>>>,
    pub block: Option<Seq<Seq<char>>>,
}

impl Faults {
    /// The fault that is told.
    pub open spec fn first(self) -> Option<Seq<Seq<char>>> {
        match (self.direct, self.proxy) {
            (Some(e), _) => Some(e),
            (None, Some(e)) => Some(e),
            (None, None) => self.block,
        }
    }
}

/// Whether this may be wrong with the domain rules of a configuration.
pub open spec fn may_have(rules: RouteRuleConfig, f: Faults) -> bool {
    &&& may_fault("client.domain_rules.direct"@, views(rules.direct@), f.direct)
    &&& may_fault("client.domain_rules.proxy"@, views(rules.proxy@), f.proxy)
    &&& may_fault("client.domain_rules.block"@, views(rules.block@), f.block)
}

/// What the pattern matcher finds wrong with the domain rules of a configuration.
pub open spec fn faults_in(rules: RouteRuleConfig) -> Faults {
    Faults {
        direct: patterns_fault("client.domain_rules.direct"@, views(rules.direct@)),
        proxy: patterns_fault("client.domain_rules.proxy"@, views(rules.proxy@)),
        block: patterns_fault("client.domain_rules.block"@, views(rules.block@)),
    }
}

/// What is wrong with the first malformed domain rule of the configuration.
pub open spec fn domain_fault(rules: RouteRuleConfig) -> Option<Seq<Seq<char>>> {
    faults_in(rules).first()
}

/// Whether all systems read the domain rules of a configuration alike.
pub open spec fn settled_config(rules: RouteRuleConfig) -> bool {
    &&& all_settled(views(rules.direct@))
    &&& all_settled(views(rules.proxy@))
    &&& all_settled(views(rules.block@))
}

/// The matcher may always find what it finds.
proof fn lemma_may_fault(label: Seq<char>, patterns: Seq<Seq<char>>)
    ensures
        may_fault(label, patterns, patterns_fault(label, patterns)),
    decreases patterns.len(),
{
    if patterns.len() > 0 {
        lemma_may_fault(label, patterns.skip(1));
    }
}

proof fn lemma_may_have(rules: RouteRuleConfig)
    ensures
        may_have(rules, faults_in(rules)),
{
    lemma_may_fault("client.domain_rules.direct"@, views(rules.direct@));
    lemma_may_fault("client.domain_rules.proxy"@, views(rules.proxy@));
    lemma_may_fault("client.domain_rules.block"@, views(rules.block@));
}

/// The table with more networks.
pub open spec fn with_ips(t: TableView, rules: RouteRuleConfig) -> Result<
    TableView,
    Seq<Seq<char>>,
> {
    match ip_rules("client.ip_rules.direct"@, views(rules.direct@)) {
        Err(e) => Err(e),
        Ok(direct) => match ip_rules("client.ip_rules.proxy"@, views(rules.proxy@)) {
            Err(e) => Err(e),
            Ok(remote) => match ip_rules("client.ip_rules.block"@, views(rules.block@)) {
                Err(e) => Err(e),
                Ok(block) => Ok(
                    TableView {
                        direct_cidrs: t.direct_cidrs + direct,
                        remote_cidrs: t.remote_cidrs + remote,
                        block_cidrs: t.block_cidrs + block,
                        ..t
                    },
                ),
            },
        },
    }
}

/// The table with the rules of files, each a path and a text.
pub open spec fn with_files(
    t: TableView,
    rule_file: Option<(Seq<char>, Seq<char>)>,
    cidr_file: Option<(Seq<char>, Seq<char>)>,
) -> Result<TableView, Seq<Seq<char>>> {
    let rules = match rule_file {
        Some((path, content)) => rule_steps(t, lines_of(content), path),
        None => Ok(t),
    };
    match (rules, cidr_file) {
        (Err(e), _) => Err(e),
        (Ok(u), Some((path, content))) => cidr_steps(u, lines_of(content), path),
        (Ok(u), None) => Ok(u),
    }
}

/// The table of all rules, well formed or not.
pub open spec fn rules_in(
    rule_file: Option<(Seq<char>, Seq<char>)>,
    cidr_file: Option<(Seq<char>, Seq<char>)>,
    domain_rules: RouteRuleConfig,
    ip_config: RouteRuleConfig,
) -> Result<TableView, Seq<Seq<char>>> {
    match with_files(TableView::empty(), rule_file, cidr_file) {
        Err(e) => Err(e),
        Ok(t) => with_ips(with_domains(t, domain_rules), ip_config),
    }
}

/// The table of all rules, which have to be well formed.
pub open spec fn loaded_from(
    rule_file: Option<(Seq<char>, Seq<char>)>,
    cidr_file: Option<(Seq<char>, Seq<char>)>,
    domain_rules: RouteRuleConfig,
    ip_config: RouteRuleConfig,
) -> Result<TableView, Seq<Seq<char>>> {
    loaded_by(faults_in(domain_rules), rule_file, cidr_file, domain_rules, ip_config)
}

/// The table of all rules, for what is wrong with the domain rules.
pub open spec fn loaded_by(
    f: Faults,
    rule_file: Option<(Seq<char>, Seq<char>)>,
    cidr_file: Option<(Seq<char>, Seq<char>)>,
    domain_rules: RouteRuleConfig,
    ip_config: RouteRuleConfig,
) -> Result<TableView, Seq<Seq<char>>> {
    match (with_files(TableView::empty(), rule_file, cidr_file), f.first()) {
        (Err(e), _) => Err(e),
        (Ok(_), Some(e)) => Err(e),
        (Ok(_), None) => rules_in(rule_file, cidr_file, domain_rules, ip_config),
    }
}

/// The addresses in the order of their first occurrence.
pub open spec fn firsts(addrs: Seq<IpAddr>) -> Seq<IpAddr>
    decreases addrs.len(),
{
    if addrs.len() == 0 {
        seq![]
    } else {
        let before = firsts(addrs.drop_last());
        if before.contains(addrs.last()) {
            before
        } else {
            before.push(addrs.last())
        }
    }
}

/// The addresses of a target: its own, or those that its name was found to have.
pub open spec fn target_addrs(target: TargetView, found: Option<Vec<IpAddr>>) -> Option<
    Seq<IpAddr>,
> {
    match target {
        TargetView::Ip(ip, _) => Some(seq![ip]),
        TargetView::Domain(_, _) => match found {
            Some(v) => Some(firsts(v@)),
            None => None,
        },
    }
}

fn has_addr(addrs: &Vec<IpAddr>, ip: IpAddr) -> (r: bool)
    ensures
        r == addrs@.contains(ip),
{
    let mut i: usize = 0;
    while i < addrs.len()
        invariant
            i <= addrs@.len(),
            forall|k: int| 0 <= k < i ==> addrs@[k] != ip,
        decreases addrs@.len() - i,
    {
        if addrs[i] == ip {
            assert(addrs@[i as int] == ip);
            return true;
        }
        i = i + 1;
    }
    false
}

/// The addresses of a target: its own, or those that its name was found to
/// have, each once. There are none as long as the name was not looked up.
pub fn resolve_target_ips(target: &TargetAddr, found: &Option<Vec<IpAddr>>) -> (r: Option<
    Vec<IpAddr>,
>)
    ensures
        match (r, target_addrs(target@, *found)) {
            (Some(v), Some(s)) => v@ == s,
            (None, None) => true,
            _ => false,
        },
{
    match target {
        TargetAddr::Ip(ip, _) => {
            let mut v: Vec<IpAddr> = Vec::new();
            v.push(*ip);
            assert(v@ =~= seq![*ip]);
            Some(v)
        },
        TargetAddr::Domain(_, _) => match found {
            None => None,
            Some(all) => {
                let mut v: Vec<IpAddr> = Vec::new();
                let mut i: usize = 0;
                while i < all.len()
                    invariant
                        i <= all@.len(),
                        v@ == firsts(all@.take(i as int)),
                    decreases all@.len() - i,
                {
                    proof {
                        assert(all@.take(i + 1).drop_last() =~= all@.take(i as int));
                    }
                    if !has_addr(&v, all[i]) {
                        v.push(all[i]);
                    }
                    i = i + 1;
                }
                assert(all@.take(i as int) =~= all@);
                Some(v)
            },
        },
    }
}

/// What is to be done about a target next.
#[derive(Clone, Copy, Debug, PartialEq, Eq, Structural)]
pub enum RouteStep {
    /// Take the route.
    Decided(RouteDecision),
    /// Look up the addresses of the target, to hold them against the block rules.
    LookUpForBlock,
    /// Look up the addresses of the target, to hold them against the other rules.
    LookUpForRoute,
}

/// What the block rules say of a target; nothing where none of them names it.
pub open spec fn block_step(t: TableView, target: TargetView, found: Option<Vec<IpAddr>>) -> Result<
    Option<RouteStep>,
    Seq<Seq<char>>,
> {
    block_step_by(verdicts_on(t, target_host(target)), t, target, found)
}

/// What the domain rules of a table say of a host.
#[verifier::ext_equal]
pub struct Verdicts {
    pub direct: Result<bool, Seq<Seq<char>>>,
    pub remote: Result<bool, Seq<Seq<char>>>,
    pub block: Result<bool, Seq<Seq<char>>>,
}

/// What the pattern matcher finds that the domain rules say of a host.
pub open spec fn verdicts_on(t: TableView, host: Seq<char>) -> Verdicts {
    Verdicts {
        direct: domain_verdict(t.direct_globs, host),
        remote: domain_verdict(t.remote_globs, host),
        block: domain_verdict(t.block_globs, host),
    }
}

/// Whether the domain rules of a table may say this of a host.
pub open spec fn may_decide(t: TableView, host: Seq<char>, v: Verdicts) -> bool {
    &&& may_say(t.direct_globs, normal_domain(host), v.direct)
    &&& may_say(t.remote_globs, normal_domain(host), v.remote)
    &&& may_say(t.block_globs, normal_domain(host), v.block)
}

proof fn lemma_may_decide(t: TableView, host: Seq<char>)
    ensures
        may_decide(t, host, verdicts_on(t, host)),
{
    lemma_may_say(t.direct_globs, normal_domain(host));
    lemma_may_say(t.remote_globs, normal_domain(host));
    lemma_may_say(t.block_globs, normal_domain(host));
}

/// What the block rules say of a target, for what the domain rules say of its host.
pub open spec fn block_step_by(
    v: Verdicts,
    t: TableView,
    target: TargetView,
    found: Option<Vec<IpAddr>>,
) -> Result<Option<RouteStep>, Seq<Seq<char>>> {
    match v.block {
        Err(e) => Err(e),
        Ok(true) => Ok(Some(RouteStep::Decided(RouteDecision::Block))),
        Ok(false) => if t.block_cidrs.len() == 0 {
            Ok(None)
        } else {
            match target_addrs(target, found) {
                None => Ok(Some(RouteStep::LookUpForBlock)),
                Some(a) => if any_in(t.block_cidrs, a) {
                    Ok(Some(RouteStep::Decided(RouteDecision::Block)))
                } else {
                    Ok(None)
                },
            }
        },
    }
}

/// What the other rules say of a target.
pub open spec fn route_step(t: TableView, target: TargetView, found: Option<Vec<IpAddr>>) -> Result<
    RouteStep,
    Seq<Seq<char>>,
> {
    route_step_by(verdicts_on(t, target_host(target)), t, target, found)
}

/// What the other rules say of a target, for what the domain rules say of its host.
pub open spec fn route_step_by(
    v: Verdicts,
    t: TableView,
    target: TargetView,
    found: Option<Vec<IpAddr>>,
) -> Result<RouteStep, Seq<Seq<char>>> {
    match v.direct {
        Err(e) => Err(e),
        Ok(true) => Ok(RouteStep::Decided(RouteDecision::Direct)),
        Ok(false) => match v.remote {
            Err(e) => Err(e),
            Ok(true) => Ok(RouteStep::Decided(RouteDecision::Remote)),
            Ok(false) => match target_addrs(target, found) {
                None => Ok(RouteStep::LookUpForRoute),
                Some(a) => if any_in(t.direct_cidrs, a) {
                    Ok(RouteStep::Decided(RouteDecision::Direct))
                } else {
                    Ok(RouteStep::Decided(RouteDecision::Remote))
                },
            },
        },
    }
}

/// What all rules say of a target, where one lookup serves both kinds.
pub open spec fn table_step(t: TableView, target: TargetView, found: Option<Vec<IpAddr>>) -> Result<
    RouteStep,
    Seq<Seq<char>>,
> {
    table_step_by(verdicts_on(t, target_host(target)), t, target, found)
}

/// What all rules say of a target, for what the domain rules say of its host.
pub open spec fn table_step_by(
    v: Verdicts,
    t: TableView,
    target: TargetView,
    found: Option<Vec<IpAddr>>,
) -> Result<RouteStep, Seq<Seq<char>>> {
    match block_step_by(v, t, target, found) {
        Err(e) => Err(e),
        Ok(Some(s)) => Ok(s),
        Ok(None) => route_step_by(v, t, target, found),
    }
}

impl RuleTable {
    /// The table without rules.
    pub fn empty() -> (r: Self)
        ensures
            r@ == TableView::empty(),
            r@.wf(),
    {
        let r = RuleTable {
            direct_globs: Vec::new(),
            remote_globs: Vec::new(),
            block_globs: Vec::new(),
            direct_cidrs: Vec::new(),
            remote_cidrs: Vec::new(),
            block_cidrs: Vec::new(),
        };
        assert(r@.direct_globs =~= TableView::empty().direct_globs);
        assert(r@.remote_globs =~= TableView::empty().remote_globs);
        assert(r@.block_globs =~= TableView::empty().block_globs);
        assert(r@.direct_cidrs =~= TableView::empty().direct_cidrs);
        assert(r@.remote_cidrs =~= TableView::empty().remote_cidrs);
        assert(r@.block_cidrs =~= TableView::empty().block_cidrs);
        r
    }

    fn take_rule_line(self, line: &str, path: &str, index: usize) -> (r: Result<Self, Failure>)
        requires
            self@.wf(),
            index < usize::MAX,
        ensures
            table_outcome(r) == rule_step(self@, line@, path@, index as int),
            r matches Ok(t) ==> t@.wf(),
    {
        match parse_rule_line(line) {
            None => Ok(self),
            Some((mode, globs)) => {
                let mut t = self;
                if same(mode.as_str(), "L") {
                    t.direct_globs = extended(t.direct_globs, globs);
                } else if same(mode.as_str(), "R") {
                    t.remote_globs = extended(t.remote_globs, globs);
                } else if same(mode.as_str(), "B") {
                    t.block_globs = extended(t.block_globs, globs);
                } else {
                    return Err(
                        Failure::new(
                            cat(
                                cat3("invalid rule mode '", mode.as_str(), "'").as_str(),
                                place_text(path, index).as_str(),
                            ).as_str(),
                        ),
                    );
                }
                Ok(t)
            },
        }
    }

    /// The table with the domain rules of a file: on each line a letter for the
    /// route, and patterns.
    pub fn load_rule_file(self, file: &RuleFile) -> (r: Result<Self, Failure>)
        requires
            self@.wf(),
        ensures
            table_outcome(r) == rule_steps(self@, lines_of(file.content@), file.path@),
            r matches Ok(t) ==> t@.wf(),
    {
        let all = lines(file.content.as_str());
        let ghost start = self@;
        let ghost texts = views(all@);
        let mut table = self;
        let mut i: usize = 0;
        assert(texts.take(0) =~= Seq::<Seq<char>>::empty());
        while i < all.len()
            invariant
                i <= all@.len(),
                texts == views(all@),
                texts == lines_of(file.content@),
                start == self@,
                table@.wf(),
                rule_steps(start, texts.take(i as int), file.path@) == Ok::<
                    TableView,
                    Seq<Seq<char>>,
                >(table@),
            decreases all@.len() - i,
        {
            proof {
                assert(texts.take(i + 1).drop_last() =~= texts.take(i as int));
                assert(texts.take(i + 1).last() == all@[i as int]@);
            }
            match table.take_rule_line(all[i].as_str(), file.path.as_str(), i) {
                Err(e) => {
                    proof {
                        lemma_rule_steps_fail(start, texts, file.path@, i + 1);
                    }
                    return Err(e);
                },
                Ok(t) => {
                    table = t;
                },
            }
            i = i + 1;
        }
        assert(texts.take(i as int) =~= texts);
        Ok(table)
    }

    fn take_cidr_line(self, line: &str, path: &str, index: usize) -> (r: Result<Self, Failure>)
        requires
            self@.wf(),
            index < usize::MAX,
        ensures
            table_outcome(r) == cidr_step(self@, line@, path@, index as int),
            r matches Ok(t) ==> t@.wf(),
    {
        match parse_rule_line(line) {
            None => Ok(self),
            Some((mode, rest)) => {
                assert(views(rest@)[0] == rest@[0]@);
                match parse_ip_rule_entry(rest[0].as_str()) {
                    Err(e) => Err(
                        e.context(
                            cat(
                                cat3("invalid CIDR '", rest[0].as_str(), "'").as_str(),
                                place_text(path, index).as_str(),
                            ).as_str(),
                        ),
                    ),
                    Ok(nets) => {
                        let mut t = self;
                        let mut nets = nets;
                        if same(mode.as_str(), "L") {
                            t.direct_cidrs.append(&mut nets);
                        } else if same(mode.as_str(), "R") {
                            t.remote_cidrs.append(&mut nets);
                        } else if same(mode.as_str(), "B") {
                            t.block_cidrs.append(&mut nets);
                        } else {
                            return Err(
                                Failure::new(
                                    cat(
                                        cat3("invalid CIDR mode '", mode.as_str(), "'").as_str(),
                                        place_text(path, index).as_str(),
                                    ).as_str(),
                                ),
                            );
                        }
                        Ok(t)
                    },
                }
            },
        }
    }

    /// The table with the networks of a file: on each line a letter for the
    /// route, and a network.
    pub fn load_cidr_file(self, file: &RuleFile) -> (r: Result<Self, Failure>)
        requires
            self@.wf(),
        ensures
            table_outcome(r) == cidr_steps(self@, lines_of(file.content@), file.path@),
            r matches Ok(t) ==> t@.wf(),
    {
        let all = lines(file.content.as_str());
        let ghost start = self@;
        let ghost texts = views(all@);
        let mut table = self;
        let mut i: usize = 0;
        assert(texts.take(0) =~= Seq::<Seq<char>>::empty());
        while i < all.len()
            invariant
                i <= all@.len(),
                texts == views(all@),
                texts == lines_of(file.content@),
                start == self@,
                table@.wf(),
                cidr_steps(start, texts.take(i as int), file.path@) == Ok::<
                    TableView,
                    Seq<Seq<char>>,
                >(table@),
            decreases all@.len() - i,
        {
            proof {
                assert(texts.take(i + 1).drop_last() =~= texts.take(i as int));
                assert(texts.take(i + 1).last() == all@[i as int]@);
            }
            match table.take_cidr_line(all[i].as_str(), file.path.as_str(), i) {
                Err(e) => {
                    proof {
                        lemma_cidr_steps_fail(start, texts, file.path@, i + 1);
                    }
                    return Err(e);
                },
                Ok(t) => {
                    table = t;
                },
            }
            i = i + 1;
        }
        assert(texts.take(i as int) =~= texts);
        Ok(table)
    }

    /// The table with more domain rules, which have to be well formed.
    pub fn load_domain_rules(self, rules: &RouteRuleConfig) -> (r: Result<Self, Failure>)
        requires
            self@.wf(),
        ensures
            r matches Ok(t) ==> t@ == with_domains(self@, *rules) && t@.wf(),
            exists|f: Faults| #[trigger] may_have(*rules, f) && fault_of(r) == f.first(),
            settled_config(*rules) ==> fault_of(r) == domain_fault(*rules),
    {
        let ghost mut f = faults_in(*rules);
        proof {
            lemma_may_have(*rules);
        }
        match validate_domain_rule_entries("client.domain_rules.direct", &rules.direct) {
            Err(e) => {
                proof {
                    f = Faults { direct: Some(e@), ..f };
                    assert(may_have(*rules, f));
                }
                return Err(e);
            },
            Ok(_) => {},
        }
        proof {
            f = Faults { direct: None, ..f };
            assert(may_have(*rules, f));
        }
        match validate_domain_rule_entries("client.domain_rules.proxy", &rules.proxy) {
            Err(e) => {
                proof {
                    f = Faults { proxy: Some(e@), ..f };
                    assert(may_have(*rules, f));
                }
                return Err(e);
            },
            Ok(_) => {},
        }
        proof {
            f = Faults { proxy: None, ..f };
            assert(may_have(*rules, f));
        }
        match validate_domain_rule_entries("client.domain_rules.block", &rules.block) {
            Err(e) => {
                proof {
                    f = Faults { block: Some(e@), ..f };
                    assert(may_have(*rules, f));
                }
                return Err(e);
            },
            Ok(_) => {},
        }
        proof {
            f = Faults { block: None, ..f };
            assert(may_have(*rules, f));
        }
        let mut t = self;
        t.direct_globs = extended(t.direct_globs, clone_strings(&rules.direct));
        t.remote_globs = extended(t.remote_globs, clone_strings(&rules.proxy));
        t.block_globs = extended(t.block_globs, clone_strings(&rules.block));
        Ok(t)
    }

    /// The table with more networks.
    pub fn load_ip_rules(self, rules: &RouteRuleConfig) -> (r: Result<Self, Failure>)
        requires
            self@.wf(),
        ensures
            table_outcome(r) == with_ips(self@, *rules),
            r matches Ok(t) ==> t@.wf(),
    {
        let direct = match parse_ip_rule_entries("client.ip_rules.direct", &rules.direct) {
            Err(e) => {
                return Err(e);
            },
            Ok(v) => v,
        };
        let remote = match parse_ip_rule_entries("client.ip_rules.proxy", &rules.proxy) {
            Err(e) => {
                return Err(e);
            },
            Ok(v) => v,
        };
        let block = match parse_ip_rule_entries("client.ip_rules.block", &rules.block) {
            Err(e) => {
                return Err(e);
            },
            Ok(v) => v,
        };
        let mut t = self;
        let mut direct = direct;
        let mut remote = remote;
        let mut block = block;
        t.direct_cidrs.append(&mut direct);
        t.remote_cidrs.append(&mut remote);
        t.block_cidrs.append(&mut block);
        Ok(t)
    }

    /// The table of the rules of the files and of the configuration.
    pub fn load(
        rule_file: &Option<RuleFile>,
        cidr_file: &Option<RuleFile>,
        domain_rules: &RouteRuleConfig,
        ip_rules: &RouteRuleConfig,
    ) -> (r: Result<Self, Failure>)
        ensures
            r matches Ok(t) ==> {
                &&& t@.wf()
                &&& table_outcome(r) == rules_in(
                    file_view(*rule_file),
                    file_view(*cidr_file),
                    *domain_rules,
                    *ip_rules,
                )
            },
            exists|f: Faults| #[trigger]
                may_have(*domain_rules, f) && table_outcome(r) == loaded_by(
                    f,
                    file_view(*rule_file),
                    file_view(*cidr_file),
                    *domain_rules,
                    *ip_rules,
                ),
            settled_config(*domain_rules) ==> table_outcome(r) == loaded_from(
                file_view(*rule_file),
                file_view(*cidr_file),
                *domain_rules,
                *ip_rules,
            ),
    {
        proof {
            lemma_may_have(*domain_rules);
        }
        let table = RuleTable::empty();
        let table = match rule_file {
            None => table,
            Some(f) => match table.load_rule_file(f) {
                Err(e) => {
                    return Err(e);
                },
                Ok(t) => t,
            },
        };
        let table = match cidr_file {
            None => table,
            Some(f) => match table.load_cidr_file(f) {
                Err(e) => {
                    return Err(e);
                },
                Ok(t) => t,
            },
        };
        match table.load_domain_rules(domain_rules) {
            Err(e) => Err(e),
            Ok(t) => t.load_ip_rules(ip_rules),
        }
    }

    /// What the block rules say of a target; nothing where none of them names it.
    pub fn decide_block_only(&self, target: &TargetAddr, found: &Option<Vec<IpAddr>>) -> (r: Result<
        Option<RouteStep>,
        Failure,
    >)
        requires
            self@.wf(),
        ensures
            exists|v: Verdicts| #[trigger]
                may_decide(self@, target_host(target@), v) && outcome(r) == block_step_by(
                    v,
                    self@,
                    target@,
                    *found,
                ),
            all_settled_on(self@.block_globs, target_host(target@)) ==> outcome(r) == block_step(
                self@,
                target@,
                *found,
            ),
    {
        let said = matches_domain_rules(&self.block_globs, target.host_string().as_str());
        proof {
            let host = target_host(target@);
            lemma_may_decide(self@, host);
            let v = Verdicts { block: outcome(said), ..verdicts_on(self@, host) };
            assert(may_decide(self@, host, v));
        }
        match said {
            Err(e) => Err(e),
            Ok(hit) => {
                if hit {
                    return Ok(Some(RouteStep::Decided(RouteDecision::Block)));
                }
                if self.block_cidrs.len() == 0 {
                    return Ok(None);
                }
                match resolve_target_ips(target, found) {
                    None => Ok(Some(RouteStep::LookUpForBlock)),
                    Some(addrs) => {
                        if contains_any(&self.block_cidrs, &addrs) {
                            Ok(Some(RouteStep::Decided(RouteDecision::Block)))
                        } else {
                            Ok(None)
                        }
                    },
                }
            },
        }
    }

    /// What the rules other than the block rules say of a target.
    pub fn decide_route_only(&self, target: &TargetAddr, found: &Option<Vec<IpAddr>>) -> (r: Result<
        RouteStep,
        Failure,
    >)
        requires
            self@.wf(),
        ensures
            exists|v: Verdicts| #[trigger]
                may_decide(self@, target_host(target@), v) && outcome(r) == route_step_by(
                    v,
                    self@,
                    target@,
                    *found,
                ),
            all_settled_on(self@.direct_globs, target_host(target@)) && all_settled_on(
                self@.remote_globs,
                target_host(target@),
            ) ==> outcome(r) == route_step(self@, target@, *found),
    {
        let host = target.host_string();
        let said = matches_domain_rules(&self.direct_globs, host.as_str());
        let ghost v = Verdicts { direct: outcome(said), ..verdicts_on(self@, host@) };
        proof {
            lemma_may_decide(self@, host@);
            assert(may_decide(self@, host@, v));
        }
        match said {
            Err(e) => {
                return Err(e);
            },
            Ok(hit) => {
                if hit {
                    return Ok(RouteStep::Decided(RouteDecision::Direct));
                }
            },
        }
        let said = matches_domain_rules(&self.remote_globs, host.as_str());
        proof {
            let w = Verdicts { remote: outcome(said), ..v };
            assert(may_decide(self@, host@, w));
        }
        match said {
            Err(e) => {
                return Err(e);
            },
            Ok(hit) => {
                if hit {
                    return Ok(RouteStep::Decided(RouteDecision::Remote));
                }
            },
        }
        match resolve_target_ips(target, found) {
            None => Ok(RouteStep::LookUpForRoute),
            Some(addrs) => {
                if contains_any(&self.direct_cidrs, &addrs) {
                    Ok(RouteStep::Decided(RouteDecision::Direct))
                } else {
                    Ok(RouteStep::Decided(RouteDecision::Remote))
                }
            },
        }
    }

    /// What all rules say of a target.
    pub fn decide(&self, target: &TargetAddr, found: &Option<Vec<IpAddr>>) -> (r: Result<
        RouteStep,
        Failure,
    >)
        requires
            self@.wf(),
        ensures
            exists|v: Verdicts| #[trigger]
                may_decide(self@, target_host(target@), v) && outcome(r) == table_step_by(
                    v,
                    self@,
                    target@,
                    *found,
                ),
            self@.settled_on(target_host(target@)) ==> outcome(r) == table_step(
                self@,
                target@,
                *found,
            ),
    {
        let first = self.decide_block_only(target, found);
        let ghost host = target_host(target@);
        let ghost v = choose|v: Verdicts| #[trigger]
            may_decide(self@, host, v) && outcome(first) == block_step_by(
                v,
                self@,
                target@,
                *found,
            );
        match first {
            Err(e) => Err(e),
            Ok(Some(step)) => Ok(step),
            Ok(None) => {
                let second = self.decide_route_only(target, found);
                proof {
                    let w = choose|w: Verdicts| #[trigger]
                        may_decide(self@, host, w) && outcome(second) == route_step_by(
                            w,
                            self@,
                            target@,
                            *found,
                        );
                    assert(may_decide(self@, host, Verdicts { block: v.block, ..w }));
                }
                second
            },
        }
    }
}

// ---------------------------------------------------------------------------
// The router

/// What was looked up for a target so far.
#[derive(Debug)]
pub struct Lookups {
    pub for_block: Option<Vec<IpAddr>>,
    pub for_route: Option<Vec<IpAddr>>,
}

impl Lookups {
    /// Nothing was looked up.
    pub fn none() -> (r: Self)
        ensures
            r.for_block is None,
            r.for_route is None,
    {
        Lookups { for_block: None, for_route: None }
    }
}

/// Decides on the routes of targets, and remembers the decisions.
pub struct Router {
    pub mode: FilterMode,
    pub table: RuleTable,
    pub adblock: Option<Adblocker>,
    pub cache: Vec<(String, RouteDecision)>,
}

/// The text of a file of rules, where the mode asks for it and it was read.
pub open spec fn rules_read(mode: FilterMode, path: Option<String>, content: Option<String>) -> Option<
    (Seq<char>, Seq<char>),
> {
    match (mode, path, content) {
        (FilterMode::Rule, Some(p), Some(c)) => Some((p@, c@)),
        _ => None,
    }
}

/// What a file holds, and its path.
pub open spec fn file_view(file: Option<RuleFile>) -> Option<(Seq<char>, Seq<char>)> {
    match file {
        Some(f) => Some((f.path@, f.content@)),
        None => None,
    }
}

fn rule_file(mode: FilterMode, path: &Option<String>, content: &Option<String>) -> (r: Option<
    RuleFile,
>)
    ensures
        file_view(r) == rules_read(mode, *path, *content),
{
    match (mode, path, content) {
        (FilterMode::Rule, Some(p), Some(c)) => Some(
            RuleFile { path: p.clone(), content: c.clone() },
        ),
        _ => None,
    }
}

/// Which files of rules a client reads before it routes: none outside rule mode.
pub fn rule_files_to_read(args: &ClientArgs) -> (r: (Option<String>, Option<String>))
    ensures
        r.0 == if args.filter == FilterMode::Rule {
            args.rule_file
        } else {
            None
        },
        r.1 == if args.filter == FilterMode::Rule {
            args.cidr_file
        } else {
            None
        },
{
    match args.filter {
        FilterMode::Rule => (clone_opt(&args.rule_file), clone_opt(&args.cidr_file)),
        _ => (None, None),
    }
}

/// The table of a client, its rules well formed or not: outside rule mode only
/// the rules of the configuration count.
pub open spec fn client_rules(
    mode: FilterMode,
    rules: Option<(Seq<char>, Seq<char>)>,
    cidrs: Option<(Seq<char>, Seq<char>)>,
    domain_rules: RouteRuleConfig,
    ip_config: RouteRuleConfig,
) -> Result<TableView, Seq<Seq<char>>> {
    if mode == FilterMode::Rule || !domain_rules.none() || !ip_config.none() {
        rules_in(rules, cidrs, domain_rules, ip_config)
    } else {
        Ok(TableView::empty())
    }
}

/// The table of a client, whose rules have to be well formed.
pub open spec fn client_table(
    mode: FilterMode,
    rules: Option<(Seq<char>, Seq<char>)>,
    cidrs: Option<(Seq<char>, Seq<char>)>,
    domain_rules: RouteRuleConfig,
    ip_config: RouteRuleConfig,
) -> Result<TableView, Seq<Seq<char>>> {
    client_table_by(faults_in(domain_rules), mode, rules, cidrs, domain_rules, ip_config)
}

/// The table of a client, for what is wrong with its domain rules.
pub open spec fn client_table_by(
    f: Faults,
    mode: FilterMode,
    rules: Option<(Seq<char>, Seq<char>)>,
    cidrs: Option<(Seq<char>, Seq<char>)>,
    domain_rules: RouteRuleConfig,
    ip_config: RouteRuleConfig,
) -> Result<TableView, Seq<Seq<char>>> {
    if mode == FilterMode::Rule || !domain_rules.none() || !ip_config.none() {
        loaded_by(f, rules, cidrs, domain_rules, ip_config)
    } else {
        Ok(TableView::empty())
    }
}

/// What is to be done about a target that no block rule names and no filter
/// list blocks.
pub open spec fn mode_step_by(
    v: Verdicts,
    mode: FilterMode,
    t: TableView,
    target: TargetView,
    found: Option<Vec<IpAddr>>,
) -> Result<RouteStep, Seq<Seq<char>>> {
    match mode {
        FilterMode::Proxy => Ok(RouteStep::Decided(RouteDecision::Remote)),
        FilterMode::Direct => Ok(RouteStep::Decided(RouteDecision::Direct)),
        FilterMode::Rule => route_step_by(v, t, target, found),
    }
}

/// What is to be done about a target: block rules come first, then the filter
/// lists, then the mode.
pub open spec fn router_step(
    mode: FilterMode,
    t: TableView,
    advertises: bool,
    target: TargetView,
    lookups: Lookups,
) -> Result<RouteStep, Seq<Seq<char>>> {
    router_step_by(
        verdicts_on(t, target_host(target)),
        mode,
        t,
        advertises,
        target,
        lookups,
    )
}

/// What is to be done about a target, for what the domain rules say of its host.
pub open spec fn router_step_by(
    v: Verdicts,
    mode: FilterMode,
    t: TableView,
    advertises: bool,
    target: TargetView,
    lookups: Lookups,
) -> Result<RouteStep, Seq<Seq<char>>> {
    match block_step_by(v, t, target, lookups.for_block) {
        Err(e) => Err(e),
        Ok(Some(s)) => Ok(s),
        Ok(None) => if advertises {
            Ok(RouteStep::Decided(RouteDecision::Block))
        } else {
            mode_step_by(v, mode, t, target, lookups.for_route)
        },
    }
}

/// Whether the filter lists block a target.
pub open spec fn lists_block(adblock: Option<Adblocker>, target: TargetView, now: u64) -> bool {
    match adblock {
        Some(a) => blocks_view(a, target, now),
        None => false,
    }
}

impl Router {
    /// Whether the networks of the table are well formed.
    pub open spec fn wf(&self) -> bool {
        self.table@.wf()
    }

    /// The decision that is remembered for a target.
    pub open spec fn remembered(&self, target: TargetView) -> Option<RouteDecision> {
        value_of(self.cache@, target_text(target))
    }

    /// A router for the given rules. In rule mode the networks that are
    /// reserved for special use are reached directly.
    pub fn new(mode: FilterMode, table: RuleTable, adblock: Option<Adblocker>) -> (r: Self)
        requires
            table@.wf(),
        ensures
            r.wf(),
            r.mode == mode,
            r.adblock == adblock,
            r.cache@.len() == 0,
            r.table@ == with_reserved(mode, table@),
    {
        let mut table = table;
        match mode {
            FilterMode::Rule => {
                let mut nets = reserved_ip_nets();
                table.direct_cidrs.append(&mut nets);
            },
            _ => {},
        }
        Router { mode, table, adblock, cache: Vec::new() }
    }

    /// The router of a client, with the texts of the files of rules that it
    /// names, as far as they were read.
    pub fn from_args(
        args: &ClientArgs,
        rules: &Option<String>,
        cidrs: &Option<String>,
        adblock: Option<Adblocker>,
    ) -> (r: Result<Self, Failure>)
        ensures
            r matches Ok(x) ==> {
                &&& x.wf()
                &&& x.mode == args.filter
                &&& x.adblock == adblock
                &&& x.cache@.len() == 0
                &&& client_rules(
                    args.filter,
                    rules_read(args.filter, args.rule_file, *rules),
                    rules_read(args.filter, args.cidr_file, *cidrs),
                    args.domain_rules,
                    args.ip_rules,
                ) matches Ok(t)
                &&& x.table@ == with_reserved(args.filter, t)
            },
            exists|f: Faults| #[trigger]
                may_have(args.domain_rules, f) && match (
                    r,
                    client_table_by(
                        f,
                        args.filter,
                        rules_read(args.filter, args.rule_file, *rules),
                        rules_read(args.filter, args.cidr_file, *cidrs),
                        args.domain_rules,
                        args.ip_rules,
                    ),
                ) {
                    (Ok(x), Ok(t)) => x.table@ == with_reserved(args.filter, t),
                    (Err(e), Err(f)) => e@ == f,
                    _ => false,
                },
            settled_config(args.domain_rules) ==> match (
                r,
                client_table(
                    args.filter,
                    rules_read(args.filter, args.rule_file, *rules),
                    rules_read(args.filter, args.cidr_file, *cidrs),
                    args.domain_rules,
                    args.ip_rules,
                ),
            ) {
                (Ok(x), Ok(t)) => x.table@ == with_reserved(args.filter, t),
                (Err(e), Err(f)) => e@ == f,
                _ => false,
            },
    {
        proof {
            lemma_may_have(args.domain_rules);
        }
        let by_rules = match args.filter {
            FilterMode::Rule => true,
            _ => false,
        };
        let table = if by_rules || !args.domain_rules.is_empty() || !args.ip_rules.is_empty() {
            match RuleTable::load(
                &rule_file(args.filter, &args.rule_file, rules),
                &rule_file(args.filter, &args.cidr_file, cidrs),
                &args.domain_rules,
                &args.ip_rules,
            ) {
                Err(e) => {
                    return Err(e);
                },
                Ok(t) => t,
            }
        } else {
            RuleTable::empty()
        };
        Ok(Router::new(args.filter, table, adblock))
    }

    fn decide_uncached(&mut self, target: &TargetAddr, lookups: &Lookups, now: u64) -> (r: Result<
        RouteStep,
        Failure,
    >)
        requires
            old(self).wf(),
        ensures
            final(self).mode == old(self).mode,
            final(self).table == old(self).table,
            final(self).cache == old(self).cache,
            lists_after(old(self).adblock, final(self).adblock, target@, now),
            exists|v: Verdicts| #[trigger]
                may_decide(old(self).table@, target_host(target@), v) && outcome(r)
                    == router_step_by(
                    v,
                    old(self).mode,
                    old(self).table@,
                    lists_block(old(self).adblock, target@, now),
                    target@,
                    *lookups,
                ),
            old(self).table@.settled_in(old(self).mode, target_host(target@)) ==> outcome(r)
                == router_step(
                old(self).mode,
                old(self).table@,
                lists_block(old(self).adblock, target@, now),
                target@,
                *lookups,
            ),
    {
        let first = self.table.decide_block_only(target, &lookups.for_block);
        let ghost host = target_host(target@);
        let ghost t = self.table@;
        let ghost v = choose|v: Verdicts| #[trigger]
            may_decide(t, host, v) && outcome(first) == block_step_by(
                v,
                t,
                target@,
                lookups.for_block,
            );
        match first {
            Err(e) => {
                return Err(e);
            },
            Ok(Some(step)) => {
                return Ok(step);
            },
            Ok(None) => {},
        }
        let advertises = match &mut self.adblock {
            Some(a) => a.blocks_target(target, now),
            None => false,
        };
        if advertises {
            return Ok(RouteStep::Decided(RouteDecision::Block));
        }
        match self.mode {
            FilterMode::Proxy => Ok(RouteStep::Decided(RouteDecision::Remote)),
            FilterMode::Direct => Ok(RouteStep::Decided(RouteDecision::Direct)),
            FilterMode::Rule => {
                let second = self.table.decide_route_only(target, &lookups.for_route);
                proof {
                    let w = choose|w: Verdicts| #[trigger]
                        may_decide(t, host, w) && outcome(second) == route_step_by(
                            w,
                            t,
                            target@,
                            lookups.for_route,
                        );
                    assert(may_decide(t, host, Verdicts { block: v.block, ..w }));
                }
                second
            },
        }
    }

    /// What is to be done about a target: take the route that is remembered for
    /// it; else the one that the rules select, which is then remembered; or
    /// look up its addresses, and ask again.
    pub fn decide(&mut self, target: &TargetAddr, lookups: &Lookups, now: u64) -> (r: Result<
        RouteStep,
        Failure,
    >)
        requires
            old(self).wf(),
        ensures
            final(self).wf(),
            final(self).mode == old(self).mode,
            final(self).table == old(self).table,
            r matches Ok(RouteStep::Decided(d)) ==> final(self).remembered(target@) == Some(d),
            old(self).remembered(target@) matches Some(d) ==> {
                &&& r == Ok::<RouteStep, Failure>(RouteStep::Decided(d))
                &&& *final(self) == *old(self)
            },
            old(self).remembered(target@) is None ==> {
                &&& lists_after(old(self).adblock, final(self).adblock, target@, now)
                &&& exists|v: Verdicts| #[trigger]
                    may_decide(old(self).table@, target_host(target@), v) && outcome(r)
                        == router_step_by(
                        v,
                        old(self).mode,
                        old(self).table@,
                        lists_block(old(self).adblock, target@, now),
                        target@,
                        *lookups,
                    )
                &&& old(self).table@.settled_in(old(self).mode, target_host(target@)) ==> outcome(r)
                    == router_step(
                    old(self).mode,
                    old(self).table@,
                    lists_block(old(self).adblock, target@, now),
                    target@,
                    *lookups,
                )
                &&& forall|k: Seq<char>| #[trigger]
                    value_of(final(self).cache@, k) == match r {
                        Ok(RouteStep::Decided(d)) => if k == target_text(target@) {
                            Some(d)
                        } else {
                            value_of(old(self).cache@, k)
                        },
                        _ => value_of(old(self).cache@, k),
                    }
            },
    {
        let key = target.to_text();
        match position(&self.cache, key.as_str()) {
            Some(i) => {
                return Ok(RouteStep::Decided(self.cache[i].1));
            },
            None => {},
        }
        match self.decide_uncached(target, lookups, now) {
            Err(e) => Err(e),
            Ok(step) => {
                match step {
                    RouteStep::Decided(d) => {
                        put(&mut self.cache, key, d);
                    },
                    _ => {},
                }
                Ok(step)
            },
        }
    }
}

/// The table with the networks that are reserved for special use, which are
/// reached directly in rule mode.
pub open spec fn with_reserved(mode: FilterMode, t: TableView) -> TableView {
    if mode == FilterMode::Rule {
        TableView { direct_cidrs: t.direct_cidrs + reserved(), ..t }
    } else {
        t
    }
}

/// Whether `after` is `before`, asked about a target or not.
pub open spec fn lists_after(
    before: Option<Adblocker>,
    after: Option<Adblocker>,
    target: TargetView,
    now: u64,
) -> bool {
    match (before, after) {
        (None, None) => true,
        (Some(a), Some(b)) => b == a || match target {
            TargetView::Domain(d, p) => a.after(&b, scheme_of(p), d, now),
            TargetView::Ip(_, _) => false,
        },
        _ => false,
    }
}

// ---------------------------------------------------------------------------
// Laws

/// A target that a block rule names is blocked, whatever the mode, the filter
/// lists and the other rules say.
pub proof fn block_rules_win(
    mode: FilterMode,
    t: TableView,
    advertises: bool,
    target: TargetView,
    lookups: Lookups,
)
    requires
        domain_verdict(t.block_globs, target_host(target)) == Ok::<bool, Seq<Seq<char>>>(true),
    ensures
        router_step(mode, t, advertises, target, lookups) == Ok::<RouteStep, Seq<Seq<char>>>(
            RouteStep::Decided(RouteDecision::Block),
        ),
{
}

/// A target that the filter lists block is blocked, though a rule would send
/// it another way.
pub proof fn filter_lists_win_over_direct_rules(
    mode: FilterMode,
    t: TableView,
    target: TargetView,
    lookups: Lookups,
)
    requires
        block_step(t, target, lookups.for_block) is Ok,
        block_step(t, target, lookups.for_block)->Ok_0 is None,
    ensures
        router_step(mode, t, true, target, lookups) == Ok::<RouteStep, Seq<Seq<char>>>(
            RouteStep::Decided(RouteDecision::Block),
        ),
{
}

/// Outside rule mode a target that is not blocked takes the route of the mode,
/// whatever rules there are for it.
pub proof fn the_mode_ignores_other_rules(
    mode: FilterMode,
    t: TableView,
    target: TargetView,
    lookups: Lookups,
)
    requires
        mode != FilterMode::Rule,
        block_step(t, target, lookups.for_block) == Ok::<Option<RouteStep>, Seq<Seq<char>>>(None),
    ensures
        router_step(mode, t, false, target, lookups) == Ok::<RouteStep, Seq<Seq<char>>>(
            RouteStep::Decided(
                if mode == FilterMode::Direct {
                    RouteDecision::Direct
                } else {
                    RouteDecision::Remote
                },
            ),
        ),
{
}

/// In rule mode an address in a network that is reserved for special use is
/// reached directly, unless a rule for the text of the address says otherwise.
pub proof fn reserved_addresses_are_direct(
    t: TableView,
    ip: IpAddr,
    port: u16,
    found: Option<Vec<IpAddr>>,
)
    requires
        any_has(reserved(), ip),
        domain_verdict(t.direct_globs, target_host(TargetView::Ip(ip, port))) == Ok::<
            bool,
            Seq<Seq<char>>,
        >(false),
        domain_verdict(t.remote_globs, target_host(TargetView::Ip(ip, port))) == Ok::<
            bool,
            Seq<Seq<char>>,
        >(false),
    ensures
        route_step(with_reserved(FilterMode::Rule, t), TargetView::Ip(ip, port), found) == Ok::<
            RouteStep,
            Seq<Seq<char>>,
        >(RouteStep::Decided(RouteDecision::Direct)),
{
    let i = choose|i: int| 0 <= i < reserved().len() && (#[trigger] reserved()[i]).has(ip);
    let nets = with_reserved(FilterMode::Rule, t).direct_cidrs;
    assert(nets[t.direct_cidrs.len() + i] == reserved()[i]);
    assert(any_has(nets, ip));
    assert(seq![ip][0] == ip);
    assert(any_in(nets, seq![ip]));
}

proof fn lemma_trailing_upper(s: Seq<char>)
    ensures
        without_trailing(upper(s), '.') == upper(without_trailing(s, '.')),
    decreases s.len(),
{
    if s.len() > 0 {
        assert(upper(s).drop_last() =~= upper(s.drop_last()));
        assert(upper(s).last() == upper_char(s.last()));
        if s.last() == '.' {
            lemma_trailing_upper(s.drop_last());
        } else {
            assert(upper_char(s.last()) != '.');
        }
    }
}

/// Names are compared without regard to case and to a dot at their end.
pub proof fn case_and_a_last_dot_do_not_matter(
    patterns: Seq<Seq<char>>,
    host: Seq<char>,
    r: Result<bool, Seq<Seq<char>>>,
)
    ensures
        domain_verdict(patterns, upper(host)) == domain_verdict(patterns, host),
        domain_verdict(patterns, host.push('.')) == domain_verdict(patterns, host),
        may_say(patterns, normal_domain(upper(host)), r) == may_say(
            patterns,
            normal_domain(host),
            r,
        ),
        may_say(patterns, normal_domain(host.push('.')), r) == may_say(
            patterns,
            normal_domain(host),
            r,
        ),
{
    lemma_trailing_upper(host);
    let t = without_trailing(host, '.');
    assert(lower(upper(t)) =~= lower(t));
    assert(host.push('.').drop_last() =~= host);
}

/// Rules that were found to be well formed never fail, whatever the host, where
/// all systems read them alike.
pub proof fn validated_rules_never_fail(
    label: Seq<char>,
    patterns: Seq<Seq<char>>,
    host: Seq<char>,
    r: Result<bool, Seq<Seq<char>>>,
)
    requires
        all_settled(patterns),
        may_fault(label, patterns, None),
        may_say(patterns, normal_domain(host), r),
    ensures
        r is Ok,
        domain_verdict(patterns, host) is Ok,
    decreases patterns.len(),
{
    if patterns.len() > 0 {
        assert(settled(normal_domain(patterns[0])));
        let rest = patterns.skip(1);
        assert forall|i: int| 0 <= i < rest.len() implies settled(
            normal_domain(#[trigger] rest[i]),
        ) by {
            assert(rest[i] == patterns[i + 1]);
        }
        lemma_may_say(rest, normal_domain(host));
        validated_rules_never_fail(label, rest, host, rule_hits(rest, normal_domain(host)));
        if may_say(rest, normal_domain(host), r) {
            validated_rules_never_fail(label, rest, host, r);
        }
    }
}

/// A rule with a leading `*.` names the domain behind it and every domain below
/// that, in any case and with or without a final dot.
pub proof fn suffix_rules_cover_the_domain_and_all_below(
    pattern: Seq<char>,
    host: Seq<char>,
    suffix: Seq<char>,
)
    requires
        normal_domain(pattern) == "*."@ + suffix,
        normal_domain(host) == suffix || finishes_with(normal_domain(host), "."@ + suffix),
    ensures
        domain_verdict(seq![pattern], host) == Ok::<bool, Seq<Seq<char>>>(true),
{
    let p = normal_domain(pattern);
    assert(p.take("*."@.len() as int) =~= "*."@);
    assert(p.subrange(0, "*."@.len() as int) =~= "*."@);
    assert(p.skip("*."@.len() as int) =~= suffix);
    assert(seq![pattern][0] == pattern);
}

/// A rule with a leading `*.` and a plain name behind it names that domain, every
/// domain below it, and nothing else.
pub proof fn suffix_rules_name_nothing_else(pattern: Seq<char>, host: Seq<char>, suffix: Seq<char>)
    requires
        normal_domain(pattern) == "*."@ + suffix,
        is_literal(suffix),
    ensures
        simple(pattern),
        names(pattern, host) == (normal_domain(host) == suffix || finishes_with(
            normal_domain(host),
            "."@ + suffix,
        )),
{
    reveal_strlit("*.");
    reveal_strlit(".");
    let p = normal_domain(pattern);
    let h = normal_domain(host);
    assert(p.skip(1) =~= "."@ + suffix);
    assert(p.take(2) =~= "*."@);
    assert(p.subrange(0, 2) =~= "*."@);
    assert(p.skip(2) =~= suffix);
    assert(is_literal(p.skip(1)));
    if p == h {
        assert(h.skip(1) =~= "."@ + suffix);
        assert(h.skip((h.len() - ("."@ + suffix).len()) as int) =~= "."@ + suffix);
    }
}

/// Whether an address has the octets that are known.
pub open spec fn fits_octets(p: Seq<Option<u8>>, n: u32) -> bool {
    &&& p[0] is None || p[0]->0 == n / 16777216
    &&& p[1] is None || p[1]->0 == n / 65536 % 256
    &&& p[2] is None || p[2]->0 == n / 256 % 256
    &&& p[3] is None || p[3]->0 == n % 256
}

proof fn lemma_prefix_octets(a: u32, n: u32)
    ensures
        agree32(a, n, 0),
        agree32(a, n, 8) == (a / 16777216 == n / 16777216),
        agree32(a, n, 16) == (a / 65536 == n / 65536),
        agree32(a, n, 24) == (a / 256 == n / 256),
        agree32(a, n, 32) == (a == n),
{
    assert(a >> 24u32 == a / 16777216 && n >> 24u32 == n / 16777216) by (bit_vector);
    assert(a >> 16u32 == a / 65536 && n >> 16u32 == n / 65536) by (bit_vector);
    assert(a >> 8u32 == a / 256 && n >> 8u32 == n / 256) by (bit_vector);
    assert(a >> 0u32 == a && n >> 0u32 == n) by (bit_vector);
}

proof fn lemma_octets_of_number(a: u8, b: u8, c: u8, d: u8)
    ensures
        v4_number(a, b, c, d) == a * 16777216 + b * 65536 + c * 256 + d,
        v4_number(a, b, c, d) / 16777216 == a,
        v4_number(a, b, c, d) / 65536 == a * 256 + b,
        v4_number(a, b, c, d) / 256 == a * 65536 + b * 256 + c,
{
}

proof fn lemma_number_of_octets(n: u32)
    ensures
        n / 65536 == n / 16777216 * 256 + n / 65536 % 256,
        n / 256 == n / 16777216 * 65536 + n / 65536 % 256 * 256 + n / 256 % 256,
        n == n / 16777216 * 16777216 + n / 65536 % 256 * 65536 + n / 256 % 256 * 256 + n % 256,
{
}

proof fn lemma_wildcard_prefix(p: Seq<Option<u8>>, n: u32)
    requires
        p.len() == 4,
        !known_behind_any(p),
        known_octets(p) < 4,
    ensures
        agree32(filled(p, 0), n, (8 * known_octets(p)) as u8) <==> fits_octets(p, n),
{
    lemma_prefix_octets(filled(p, 0), n);
    lemma_octets_of_number(
        octet_or(p[0], 0),
        octet_or(p[1], 0),
        octet_or(p[2], 0),
        octet_or(p[3], 0),
    );
    lemma_number_of_octets(n);
    assert(p[0] is None ==> p[1] is None);
    assert(p[1] is None ==> p[2] is None);
    assert(p[2] is None ==> p[3] is None);
    let k = known_octets(p);
    assert(k == 0 || k == 1 || k == 2 || k == 3);
    assert(k == 0 ==> p[0] is None);
    assert(k == 1 ==> p[0] is Some && p[1] is None);
    assert(k == 2 ==> p[1] is Some && p[2] is None);
    assert(k == 3 ==> p[2] is Some && p[3] is None);
}

proof fn lemma_filled(p: Seq<Option<u8>>, v: u8, n: u32)
    requires
        p.len() == 4,
    ensures
        filled(p, v) == n <==> octet_or(p[0], v) == n / 16777216 && octet_or(p[1], v) == n / 65536
            % 256 && octet_or(p[2], v) == n / 256 % 256 && octet_or(p[3], v) == n % 256,
{
    lemma_octets_of_number(
        octet_or(p[0], v),
        octet_or(p[1], v),
        octet_or(p[2], v),
        octet_or(p[3], v),
    );
    lemma_number_of_octets(n);
}

/// The networks that a wildcard stands for hold exactly the addresses with the
/// octets that it names.
pub proof fn wildcards_hold_the_addresses_they_name(p: Seq<Option<u8>>, n: u32)
    requires
        p.len() == 4,
        pattern_nets(p) is Ok,
    ensures
        any_has(pattern_nets(p)->Ok_0, IpAddr::V4(n)) <==> fits_octets(p, n),
{
    let nets = pattern_nets(p)->Ok_0;
    if !known_behind_any(p) && known_octets(p) < 4 {
        lemma_wildcard_prefix(p, n);
        assert(nets[0].has(IpAddr::V4(n)) == any_has(nets, IpAddr::V4(n)));
    } else {
        let v: u8 = if p[0] is None {
            (n / 16777216) as u8
        } else if p[1] is None {
            (n / 65536 % 256) as u8
        } else if p[2] is None {
            (n / 256 % 256) as u8
        } else if p[3] is None {
            (n % 256) as u8
        } else {
            0
        };
        if fits_octets(p, n) {
            lemma_filled(p, v, n);
            lemma_prefix_octets(filled(p, v), n);
            assert(nets[v as int].has(IpAddr::V4(n)));
        }
        if any_has(nets, IpAddr::V4(n)) {
            let i = choose|i: int| 0 <= i < nets.len() && (#[trigger] nets[i]).has(IpAddr::V4(n));
            lemma_prefix_octets(filled(p, i as u8), n);
            lemma_filled(p, i as u8, n);
        }
    }
}

proof fn lemma_firsts(addrs: Seq<IpAddr>)
    ensures
        forall|ip: IpAddr| #[trigger] firsts(addrs).contains(ip) == addrs.contains(ip),
    decreases addrs.len(),
{
    if addrs.len() > 0 {
        let rest = addrs.drop_last();
        lemma_firsts(rest);
        let f = firsts(addrs);
        assert forall|ip: IpAddr| #[trigger] f.contains(ip) == addrs.contains(ip) by {
            if addrs.contains(ip) {
                let i = choose|i: int| 0 <= i < addrs.len() && addrs[i] == ip;
                if i < rest.len() {
                    assert(rest[i] == ip);
                    assert(rest.contains(ip));
                    assert(firsts(rest).contains(ip));
                    let j = choose|j: int| 0 <= j < firsts(rest).len() && firsts(rest)[j] == ip;
                    assert(f[j] == ip);
                } else if !firsts(rest).contains(ip) {
                    assert(f[f.len() - 1] == ip);
                }
            }
            if f.contains(ip) {
                let j = choose|j: int| 0 <= j < f.len() && f[j] == ip;
                if j < firsts(rest).len() {
                    assert(firsts(rest)[j] == ip);
                    assert(firsts(rest).contains(ip));
                    let i = choose|i: int| 0 <= i < rest.len() && rest[i] == ip;
                    assert(addrs[i] == ip);
                } else {
                    assert(addrs[addrs.len() - 1] == ip);
                }
            }
        }
    }
}

/// What comes of connecting straight to a target.
pub enum DirectConnect {
    Connected,
    TimedOut,
    Failed(Failure),
}

/// The reply to the application once its target is connected to directly, and
/// what the relay is called. Where the connection cannot be made, the application
/// gets no reply.
pub fn relay_direct_socks(
    target: &TargetAddr,
    mode: Option<&str>,
    connect: DirectConnect,
) -> (r: Result<(Vec<u8>, RelayLabels), Failure>)
    ensures
        match (connect, r) {
            (DirectConnect::Connected, Ok((reply, labels))) => {
                &&& reply@ == plain_reply(0)
                &&& labels.target@ == target_text(target@)
                &&& opt_view(labels.route) == Some("direct"@)
                &&& opt_view(labels.mode) == str_view(mode)
            },
            (DirectConnect::TimedOut, Err(e)) => e@ == timed_out("direct connect timed out"@),
            (DirectConnect::Failed(cause), Err(e)) => e@ == cause@,
            _ => false,
        },
{
    match connect {
        DirectConnect::Connected => Ok(
            (send_success(), RelayLabels::new(target.to_text(), "direct", mode)),
        ),
        DirectConnect::TimedOut => Err(Failure::timed_out("direct connect timed out")),
        DirectConnect::Failed(e) => Err(e),
    }
}

/// That a lookup gives an address twice changes no decision.
pub proof fn repeated_addresses_do_not_matter(nets: Seq<IpNet>, addrs: Seq<IpAddr>)
    ensures
        any_in(nets, firsts(addrs)) == any_in(nets, addrs),
{
    lemma_firsts(addrs);
    if any_in(nets, addrs) {
        let i = choose|i: int| 0 <= i < addrs.len() && any_has(nets, #[trigger] addrs[i]);
        assert(addrs.contains(addrs[i]));
        let f = firsts(addrs);
        assert(f.contains(addrs[i]));
        let j = choose|j: int| 0 <= j < f.len() && f[j] == addrs[i];
        assert(any_has(nets, f[j]));
    }
    if any_in(nets, firsts(addrs)) {
        let f = firsts(addrs);
        let j = choose|j: int| 0 <= j < f.len() && any_has(nets, #[trigger] f[j]);
        assert(f.contains(f[j]));
        let i = choose|i: int| 0 <= i < addrs.len() && addrs[i] == f[j];
        assert(any_has(nets, addrs[i]));
    }
}

/// A target that a direct domain rule names goes direct, and one that only a proxy
/// domain rule names goes through the server, whatever its addresses are. Where no
/// domain rule names it, it goes direct just where one of its addresses lies in a
/// direct network, and its addresses are asked for first.
pub proof fn targets_take_the_route_that_names_them(
    table: &RuleTable,
    target: &TargetAddr,
    found: &Option<Vec<IpAddr>>,
    host: &str,
    direct: Result<bool, Failure>,
    proxy: Result<bool, Failure>,
    r: Result<RouteStep, Failure>,
)
    requires
        host@ == target_host(target@),
        all_settled_on(table@.direct_globs, host@),
        all_settled_on(table@.remote_globs, host@),
        call_ensures(matches_domain_rules, (&table.direct_globs, host), direct),
        call_ensures(matches_domain_rules, (&table.remote_globs, host), proxy),
        call_ensures(RuleTable::decide_route_only, (table, target, found), r),
    ensures
        direct == Ok::<bool, Failure>(true) ==> r == Ok::<RouteStep, Failure>(
            RouteStep::Decided(RouteDecision::Direct),
        ),
        direct == Ok::<bool, Failure>(false) && proxy == Ok::<bool, Failure>(true) ==> r == Ok::<
            RouteStep,
            Failure,
        >(RouteStep::Decided(RouteDecision::Remote)),
        direct is Err ==> r is Err,
        direct == Ok::<bool, Failure>(false) && proxy is Err ==> r is Err,
        direct == Ok::<bool, Failure>(false) && proxy == Ok::<bool, Failure>(false) ==> match (
            *target,
            *found,
        ) {
            (TargetAddr::Ip(ip, _), _) => r == Ok::<RouteStep, Failure>(
                RouteStep::Decided(
                    if exists|i: int|
                        0 <= i < table.direct_cidrs@.len() && (#[trigger] table.direct_cidrs@[i]).has(
                            ip,
                        ) {
                        RouteDecision::Direct
                    } else {
                        RouteDecision::Remote
                    },
                ),
            ),
            (TargetAddr::Domain(_, _), None) => r == Ok::<RouteStep, Failure>(
                RouteStep::LookUpForRoute,
            ),
            (TargetAddr::Domain(_, _), Some(v)) => r == Ok::<RouteStep, Failure>(
                RouteStep::Decided(
                    if exists|i: int, k: int|
                        0 <= i < table.direct_cidrs@.len() && 0 <= k < v@.len() && (
                        #[trigger] table.direct_cidrs@[i]).has(#[trigger] v@[k]) {
                        RouteDecision::Direct
                    } else {
                        RouteDecision::Remote
                    },
                ),
            ),
        },
{
    match (*target, *found) {
        (TargetAddr::Ip(ip, _), _) => {
            lemma_one_address(table.direct_cidrs@, ip);
        },
        (TargetAddr::Domain(_, _), Some(v)) => {
            lemma_any_address(table.direct_cidrs@, v@);
        },
        _ => {},
    }
}

proof fn lemma_one_address(nets: Seq<IpNet>, ip: IpAddr)
    ensures
        any_in(nets, seq![ip]) <==> exists|i: int|
            0 <= i < nets.len() && (#[trigger] nets[i]).has(ip),
{
    assert(seq![ip][0] == ip);
    if any_has(nets, ip) {
        assert(any_has(nets, seq![ip][0]));
    }
}

proof fn lemma_any_address(nets: Seq<IpNet>, addrs: Seq<IpAddr>)
    ensures
        any_in(nets, firsts(addrs)) <==> exists|i: int, k: int|
            0 <= i < nets.len() && 0 <= k < addrs.len() && (#[trigger] nets[i]).has(
                #[trigger] addrs[k],
            ),
{
    repeated_addresses_do_not_matter(nets, addrs);
    if any_in(nets, addrs) {
        let k = choose|k: int| 0 <= k < addrs.len() && any_has(nets, #[trigger] addrs[k]);
        let i = choose|i: int| 0 <= i < nets.len() && (#[trigger] nets[i]).has(addrs[k]);
        assert(nets[i].has(addrs[k]));
    }
    if exists|i: int, k: int|
        0 <= i < nets.len() && 0 <= k < addrs.len() && (#[trigger] nets[i]).has(
            #[trigger] addrs[k],
        ) {
        let (i, k) = choose|i: int, k: int|
            0 <= i < nets.len() && 0 <= k < addrs.len() && (#[trigger] nets[i]).has(
                #[trigger] addrs[k],
            );
        assert(any_has(nets, addrs[k]));
    }
}

/// A target that a block rule names, or an address of which lies in a blocked
/// network, is blocked, and no other is by these rules.
pub proof fn block_rules_block(
    table: &RuleTable,
    target: &TargetAddr,
    found: &Option<Vec<IpAddr>>,
    host: &str,
    named: Result<bool, Failure>,
    r: Result<Option<RouteStep>, Failure>,
)
    requires
        host@ == target_host(target@),
        all_settled_on(table@.block_globs, host@),
        call_ensures(matches_domain_rules, (&table.block_globs, host), named),
        call_ensures(RuleTable::decide_block_only, (table, target, found), r),
    ensures
        named is Err ==> r is Err,
        named == Ok::<bool, Failure>(true) ==> r == Ok::<Option<RouteStep>, Failure>(
            Some(RouteStep::Decided(RouteDecision::Block)),
        ),
        named == Ok::<bool, Failure>(false) ==> match (*target, *found) {
            (TargetAddr::Ip(ip, _), _) => r == Ok::<Option<RouteStep>, Failure>(
                if exists|i: int|
                    0 <= i < table.block_cidrs@.len() && (#[trigger] table.block_cidrs@[i]).has(ip) {
                    Some(RouteStep::Decided(RouteDecision::Block))
                } else {
                    None
                },
            ),
            (TargetAddr::Domain(_, _), None) => r == Ok::<Option<RouteStep>, Failure>(
                if table.block_cidrs@.len() > 0 {
                    Some(RouteStep::LookUpForBlock)
                } else {
                    None
                },
            ),
            (TargetAddr::Domain(_, _), Some(v)) => r == Ok::<Option<RouteStep>, Failure>(
                if exists|i: int, k: int|
                    0 <= i < table.block_cidrs@.len() && 0 <= k < v@.len() && (
                    #[trigger] table.block_cidrs@[i]).has(#[trigger] v@[k]) {
                    Some(RouteStep::Decided(RouteDecision::Block))
                } else {
                    None
                },
            ),
        },
{
    match (*target, *found) {
        (TargetAddr::Ip(ip, _), _) => {
            lemma_one_address(table.block_cidrs@, ip);
        },
        (TargetAddr::Domain(_, _), Some(v)) => {
            lemma_any_address(table.block_cidrs@, v@);
        },
        _ => {},
    }
}

/// A router goes by what it remembers of a target; else by the block rules, then by
/// the filter lists, then by its mode, which in rule mode are the other rules.
pub proof fn routers_ask_in_order(
    router: &mut Router,
    target: &TargetAddr,
    lookups: &Lookups,
    now: u64,
    block: Result<Option<RouteStep>, Failure>,
    route: Result<RouteStep, Failure>,
    r: Result<RouteStep, Failure>,
)
    requires
        old(router).wf(),
        old(router).table@.settled_on(target_host(target@)),
        call_ensures(
            RuleTable::decide_block_only,
            (&old(router).table, target, &lookups.for_block),
            block,
        ),
        call_ensures(
            RuleTable::decide_route_only,
            (&old(router).table, target, &lookups.for_route),
            route,
        ),
        call_ensures(Router::decide, (router, target, lookups, now), r),
    ensures
        value_of(old(router).cache@, target_text(target@)) matches Some(d) ==> r == Ok::<
            RouteStep,
            Failure,
        >(RouteStep::Decided(d)),
        value_of(old(router).cache@, target_text(target@)) is None ==> {
            &&& block is Err ==> r is Err
            &&& block matches Ok(Some(s)) ==> r == Ok::<RouteStep, Failure>(s)
            &&& block == Ok::<Option<RouteStep>, Failure>(None) && lists_block(
                old(router).adblock,
                target@,
                now,
            ) ==> r == Ok::<RouteStep, Failure>(RouteStep::Decided(RouteDecision::Block))
            &&& block == Ok::<Option<RouteStep>, Failure>(None) && !lists_block(
                old(router).adblock,
                target@,
                now,
            ) ==> match old(router).mode {
                FilterMode::Proxy => r == Ok::<RouteStep, Failure>(
                    RouteStep::Decided(RouteDecision::Remote),
                ),
                FilterMode::Direct => r == Ok::<RouteStep, Failure>(
                    RouteStep::Decided(RouteDecision::Direct),
                ),
                FilterMode::Rule => match route {
                    Ok(s) => r == Ok::<RouteStep, Failure>(s),
                    Err(_) => r is Err,
                },
            }
        },
{
}

/// What a router decided for a target it decides again, whatever is asked in
/// between for other targets.
pub proof fn decisions_stay(
    router: &mut Router,
    target: &TargetAddr,
    lookups: &Lookups,
    now: u64,
    first: Result<RouteStep, Failure>,
    decision: RouteDecision,
    other: &TargetAddr,
    k: &Lookups,
    r: Result<RouteStep, Failure>,
    again: Result<RouteStep, Failure>,
    b: &mut Router,
    c: &mut Router,
)
    requires
        old(router).wf(),
        call_ensures(Router::decide, (router, target, lookups, now), first),
        first == Ok::<RouteStep, Failure>(RouteStep::Decided(decision)),
        *old(b) == *final(router),
        target_text(other@) != target_text(target@),
        call_ensures(Router::decide, (b, other, k, now), r),
        *old(c) == *final(b),
        call_ensures(Router::decide, (c, target, k, now), again),
    ensures
        again == Ok::<RouteStep, Failure>(RouteStep::Decided(decision)),
{
}

/// The rules of a configuration are kept as what they are: those for targets that
/// go direct, through the server, or nowhere.
pub proof fn rules_keep_their_meaning(
    args: &ClientArgs,
    rules: &Option<String>,
    cidrs: &Option<String>,
    adblock: Option<Adblocker>,
    r: Result<Router, Failure>,
    i: int,
)
    requires
        call_ensures(Router::from_args, (args, rules, cidrs, adblock), r),
        r is Ok,
    ensures
        (r->Ok_0).mode == args.filter,
        (r->Ok_0).adblock == adblock,
        0 <= i < args.domain_rules.direct@.len() ==> (r->Ok_0).table@.direct_globs.contains(
            args.domain_rules.direct@[i]@,
        ),
        0 <= i < args.domain_rules.proxy@.len() ==> (r->Ok_0).table@.remote_globs.contains(
            args.domain_rules.proxy@[i]@,
        ),
        0 <= i < args.domain_rules.block@.len() ==> (r->Ok_0).table@.block_globs.contains(
            args.domain_rules.block@[i]@,
        ),
{
    let t = client_rules(
        args.filter,
        rules_read(args.filter, args.rule_file, *rules),
        rules_read(args.filter, args.cidr_file, *cidrs),
        args.domain_rules,
        args.ip_rules,
    )->Ok_0;
    let x = (r->Ok_0).table@;
    if !args.domain_rules.none() {
        let u = with_files(
            TableView::empty(),
            rules_read(args.filter, args.rule_file, *rules),
            rules_read(args.filter, args.cidr_file, *cidrs),
        )->Ok_0;
        let d = args.domain_rules;
        if 0 <= i < d.direct@.len() {
            assert(x.direct_globs[u.direct_globs.len() + i] == d.direct@[i]@);
        }
        if 0 <= i < d.proxy@.len() {
            assert(x.remote_globs[u.remote_globs.len() + i] == d.proxy@[i]@);
        }
        if 0 <= i < d.block@.len() {
            assert(x.block_globs[u.block_globs.len() + i] == d.block@[i]@);
        }
    }
}

/// In rule mode a host below a domain goes where the rule for the domain and all
/// below it sends it, be that a direct, a proxy or a block rule, if it is the only
/// rule.
pub proof fn configured_rules_decide(
    args: &ClientArgs,
    suffix: Seq<char>,
    made: Result<Router, Failure>,
    router: &mut Router,
    host: String,
    port: u16,
    lookups: &Lookups,
    now: u64,
    r: Result<RouteStep, Failure>,
)
    requires
        args.filter == FilterMode::Rule,
        args.rule_file is None && args.cidr_file is None,
        args.ip_rules.none(),
        args.domain_rules.direct@.len() + args.domain_rules.proxy@.len()
            + args.domain_rules.block@.len() == 1,
        forall|i: int|
            0 <= i < args.domain_rules.direct@.len() ==> normal_domain(
                (#[trigger] args.domain_rules.direct@[i])@,
            ) == "*."@ + suffix,
        forall|i: int|
            0 <= i < args.domain_rules.proxy@.len() ==> normal_domain(
                (#[trigger] args.domain_rules.proxy@[i])@,
            ) == "*."@ + suffix,
        forall|i: int|
            0 <= i < args.domain_rules.block@.len() ==> normal_domain(
                (#[trigger] args.domain_rules.block@[i])@,
            ) == "*."@ + suffix,
        normal_domain(host@) == suffix || finishes_with(normal_domain(host@), "."@ + suffix),
        call_ensures(Router::from_args, (args, &None, &None, None), made),
        made is Ok,
        *old(router) == made->Ok_0,
        call_ensures(Router::decide, (router, &TargetAddr::Domain(host, port), lookups, now), r),
    ensures
        args.domain_rules.direct@.len() == 1 ==> r == Ok::<RouteStep, Failure>(
            RouteStep::Decided(RouteDecision::Direct),
        ),
        args.domain_rules.proxy@.len() == 1 ==> r == Ok::<RouteStep, Failure>(
            RouteStep::Decided(RouteDecision::Remote),
        ),
        args.domain_rules.block@.len() == 1 ==> r == Ok::<RouteStep, Failure>(
            RouteStep::Decided(RouteDecision::Block),
        ),
{
    let t = old(router).table@;
    let h = normal_domain(host@);
    let d = args.domain_rules;
    let e = TableView::empty();
    assert(t.direct_globs =~= views(d.direct@));
    assert(t.remote_globs =~= views(d.proxy@));
    assert(t.block_globs =~= views(d.block@));
    assert(t.block_cidrs =~= e.block_cidrs);
    lemma_suffix_hit("*."@ + suffix, h, suffix);
    if d.direct@.len() == 1 {
        assert(t.direct_globs[0] == d.direct@[0]@);
    }
    if d.proxy@.len() == 1 {
        assert(t.remote_globs[0] == d.proxy@[0]@);
    }
    if d.block@.len() == 1 {
        assert(t.block_globs[0] == d.block@[0]@);
    }
    assert(value_of(old(router).cache@, target_text(TargetView::Domain(host@, port))) is None);
}

proof fn lemma_suffix_hit(pattern: Seq<char>, host: Seq<char>, suffix: Seq<char>)
    requires
        pattern == "*."@ + suffix,
        host == suffix || finishes_with(host, "."@ + suffix),
    ensures
        suffix_hit(pattern, host),
{
    assert(pattern.take("*."@.len() as int) =~= "*."@);
    assert(pattern.subrange(0, "*."@.len() as int) =~= "*."@);
    assert(pattern.skip("*."@.len() as int) =~= suffix);
}

/// Rules that are names, or `*.` and a name, name a host just where it is that name
/// or lies below it; case and a last dot do not matter.
pub proof fn plain_rules_name_what_they_say(
    patterns: &Vec<String>,
    host: &str,
    r: Result<bool, Failure>,
)
    requires
        forall|i: int|
            0 <= i < patterns@.len() ==> {
                let p = normal_domain((#[trigger] patterns@[i])@);
                !holds(p, '\\') && !holds(p, '/') && (is_literal(p) || (p.len() >= 2 && p.take(2)
                    == seq!['*', '.'] && is_literal(p.skip(2))))
            },
        call_ensures(matches_domain_rules, (patterns, host), r),
    ensures
        r is Ok,
        r->Ok_0 <==> exists|i: int|
            0 <= i < patterns@.len() && {
                let p = normal_domain((#[trigger] patterns@[i])@);
                let h = normal_domain(host@);
                p == h || (p.len() >= 2 && p.take(2) == seq!['*', '.'] && (h == p.skip(2)
                    || finishes_with(h, seq!['.'] + p.skip(2))))
            },
{
    let h = normal_domain(host@);
    let all = views(patterns@);
    assert forall|i: int| 0 <= i < all.len() implies settled_on(
        normal_domain(#[trigger] all[i]),
        h,
    ) by {
        assert(all[i] == patterns@[i]@);
        lemma_plain_rule(normal_domain(patterns@[i]@), h);
    }
    assert forall|i: int| 0 <= i < patterns@.len() implies simple((#[trigger] patterns@[i])@) && (
    names(patterns@[i]@, host@) <==> says(normal_domain(patterns@[i]@), h)) by {
        lemma_plain_rule(normal_domain(patterns@[i]@), h);
    }
}

/// Whether a rule that is a name, or `*.` and a name, names a host.
spec fn says(p: Seq<char>, h: Seq<char>) -> bool {
    p == h || (p.len() >= 2 && p.take(2) == seq!['*', '.'] && (h == p.skip(2) || finishes_with(
        h,
        seq!['.'] + p.skip(2),
    )))
}

proof fn lemma_plain_rule(p: Seq<char>, h: Seq<char>)
    requires
        !holds(p, '\\') && !holds(p, '/'),
        is_literal(p) || (p.len() >= 2 && p.take(2) == seq!['*', '.'] && is_literal(p.skip(2))),
    ensures
        settled_on(p, h),
        is_literal(p) || is_star_literal(p),
        says(p, h) <==> (p == h || suffix_hit(p, h) || (is_star_literal(p) && finishes_with(
            h,
            p.skip(1),
        ))),
{
    reveal_strlit("*.");
    reveal_strlit(".");
    assert("*."@ =~= seq!['*', '.']);
    assert("."@ =~= seq!['.']);
    if p.len() >= 2 && p.take(2) == seq!['*', '.'] {
        let s = p.skip(2);
        assert(p[0] == p.take(2)[0] && p[1] == p.take(2)[1]);
        assert(!is_literal(p));
        assert(p.skip(1) =~= seq!['.'] + s);
        assert forall|k: int| 0 <= k < p.skip(1).len() implies #[trigger] p.skip(1)[k] != '?'
            && p.skip(1)[k] != '*' && p.skip(1)[k] != '[' by {
            if k > 0 {
                assert(p.skip(1)[k] == s[k - 1]);
            }
        }
        assert(is_literal(p.skip(1)));
        assert(!has_double_star(p)) by {
            assert forall|k: int| 0 < k < p.len() implies #[trigger] p[k] != '*' by {
                assert(p.skip(1)[k - 1] == p[k]);
            }
        }
        assert(p.subrange(0, 2) =~= "*."@);
        assert(p.skip("*."@.len() as int) =~= s);
        assert(p =~= "*."@ + s);
        if h == s || finishes_with(h, "."@ + s) {
            lemma_suffix_hit(p, h, s);
        }
        if p == h {
            assert(h.skip(h.len() - (seq!['.'] + s).len()) =~= seq!['.'] + s);
        }
    } else {
        assert(!has_double_star(p));
        if suffix_hit(p, h) {
            assert(p.subrange(0, 2) =~= "*."@);
            assert(p.take(2) =~= "*."@);
        }
        if is_star_literal(p) {
            assert(p[0] == '*');
        }
    }
}

/// A line of a rule file adds its names to the rules that its letter stands for,
/// and changes no others: `L` goes direct, `R` through the server, `B` nowhere.
pub proof fn rule_lines_say_where_to(
    t: TableView,
    line: &str,
    path: Seq<char>,
    index: int,
    read: Option<(String, Vec<String>)>,
)
    requires
        call_ensures(parse_rule_line, (line,), read),
    ensures
        match read {
            None => rule_step(t, line@, path, index) == Ok::<TableView, Seq<Seq<char>>>(t),
            Some((mode, names)) => {
                &&& names@.len() > 0
                &&& mode@ == seq!['L'] ==> rule_step(t, line@, path, index) == Ok::<
                    TableView,
                    Seq<Seq<char>>,
                >(TableView { direct_globs: t.direct_globs + views(names@), ..t })
                &&& mode@ == seq!['R'] ==> rule_step(t, line@, path, index) == Ok::<
                    TableView,
                    Seq<Seq<char>>,
                >(TableView { remote_globs: t.remote_globs + views(names@), ..t })
                &&& mode@ == seq!['B'] ==> rule_step(t, line@, path, index) == Ok::<
                    TableView,
                    Seq<Seq<char>>,
                >(TableView { block_globs: t.block_globs + views(names@), ..t })
                &&& mode@ != seq!['L'] && mode@ != seq!['R'] && mode@ != seq!['B'] ==> rule_step(
                    t,
                    line@,
                    path,
                    index,
                ) is Err
            },
        },
{
    reveal_strlit("L");
    reveal_strlit("R");
    reveal_strlit("B");
    assert("L"@ =~= seq!['L']);
    assert("R"@ =~= seq!['R']);
    assert("B"@ =~= seq!['B']);
    assert("L"@[0] == 'L' && "R"@[0] == 'R' && "B"@[0] == 'B');
    if let Some((_, names)) = read {
        assert(views(names@).len() == names@.len());
    }
}

/// A line of a file of networks does the same for the networks that it names.
pub proof fn network_lines_say_where_to(
    t: TableView,
    line: &str,
    path: Seq<char>,
    index: int,
    read: Option<(String, Vec<String>)>,
    entry: &str,
    nets: Result<Vec<IpNet>, Failure>,
)
    requires
        call_ensures(parse_rule_line, (line,), read),
        read matches Some((_, words)) ==> entry@ == words@[0]@,
        call_ensures(parse_ip_rule_entry, (entry,), nets),
    ensures
        match (read, nets) {
            (None, _) => cidr_step(t, line@, path, index) == Ok::<TableView, Seq<Seq<char>>>(t),
            (Some(_), Err(_)) => cidr_step(t, line@, path, index) is Err,
            (Some((mode, _)), Ok(v)) => {
                &&& mode@ == seq!['L'] ==> cidr_step(t, line@, path, index) == Ok::<
                    TableView,
                    Seq<Seq<char>>,
                >(TableView { direct_cidrs: t.direct_cidrs + v@, ..t })
                &&& mode@ == seq!['R'] ==> cidr_step(t, line@, path, index) == Ok::<
                    TableView,
                    Seq<Seq<char>>,
                >(TableView { remote_cidrs: t.remote_cidrs + v@, ..t })
                &&& mode@ == seq!['B'] ==> cidr_step(t, line@, path, index) == Ok::<
                    TableView,
                    Seq<Seq<char>>,
                >(TableView { block_cidrs: t.block_cidrs + v@, ..t })
                &&& mode@ != seq!['L'] && mode@ != seq!['R'] && mode@ != seq!['B'] ==> cidr_step(
                    t,
                    line@,
                    path,
                    index,
                ) is Err
            },
        },
{
    reveal_strlit("L");
    reveal_strlit("R");
    reveal_strlit("B");
    assert("L"@ =~= seq!['L']);
    assert("R"@ =~= seq!['R']);
    assert("B"@ =~= seq!['B']);
    assert("L"@[0] == 'L' && "R"@[0] == 'R' && "B"@[0] == 'B');
    if let Some((_, words)) = read {
        assert(views(words@).len() == words@.len());
        assert(views(words@)[0] == words@[0]@);
    }
}

/// Every name on a direct, proxy or block line of a rule file is among the rules of
/// its kind once the file was loaded, and no rule is lost.
pub proof fn rule_files_are_loaded_whole(
    before: RuleTable,
    file: &RuleFile,
    r: Result<RuleTable, Failure>,
    line: &str,
    n: int,
    read: Option<(String, Vec<String>)>,
    k: int,
)
    requires
        before@.wf(),
        call_ensures(RuleTable::load_rule_file, (before, file), r),
        r is Ok,
        0 <= n < lines_of(file.content@).len(),
        lines_of(file.content@)[n] == line@,
        call_ensures(parse_rule_line, (line,), read),
        read matches Some((_, names)) ==> 0 <= k < names@.len(),
    ensures
        forall|p: Seq<char>| before@.direct_globs.contains(p) ==> (r->Ok_0)@.direct_globs.contains(p),
        forall|p: Seq<char>| before@.remote_globs.contains(p) ==> (r->Ok_0)@.remote_globs.contains(p),
        forall|p: Seq<char>| before@.block_globs.contains(p) ==> (r->Ok_0)@.block_globs.contains(p),
        read matches Some((mode, names)) ==> {
            &&& mode@ == seq!['L'] || mode@ == seq!['R'] || mode@ == seq!['B']
            &&& mode@ == seq!['L'] ==> (r->Ok_0)@.direct_globs.contains(names@[k]@)
            &&& mode@ == seq!['R'] ==> (r->Ok_0)@.remote_globs.contains(names@[k]@)
            &&& mode@ == seq!['B'] ==> (r->Ok_0)@.block_globs.contains(names@[k]@)
        },
{
    let lines = lines_of(file.content@);
    let path = file.path@;
    lemma_rules_stay(before@, lines, path, 0);
    assert(lines.take(0) =~= Seq::<Seq<char>>::empty());
    lemma_rules_stay(before@, lines, path, n);
    lemma_rules_stay(before@, lines, path, n + 1);
    let t = rule_steps(before@, lines.take(n), path)->Ok_0;
    let u = rule_steps(before@, lines.take(n + 1), path)->Ok_0;
    assert(lines.take(n + 1).drop_last() =~= lines.take(n));
    assert(lines.take(n + 1).last() == line@);
    rule_lines_say_where_to(t, line, path, n, read);
    if let Some((mode, names)) = read {
        assert(views(names@)[k] == names@[k]@);
        if mode@ == seq!['L'] {
            assert(u.direct_globs[t.direct_globs.len() + k] == names@[k]@);
            assert(u.direct_globs.contains(names@[k]@));
        } else if mode@ == seq!['R'] {
            assert(u.remote_globs[t.remote_globs.len() + k] == names@[k]@);
            assert(u.remote_globs.contains(names@[k]@));
        } else if mode@ == seq!['B'] {
            assert(u.block_globs[t.block_globs.len() + k] == names@[k]@);
            assert(u.block_globs.contains(names@[k]@));
        }
    }
}

proof fn lemma_rules_stay(t: TableView, lines: Seq<Seq<char>>, path: Seq<char>, n: int)
    requires
        0 <= n <= lines.len(),
        rule_steps(t, lines, path) is Ok,
    ensures
        rule_steps(t, lines.take(n), path) is Ok,
        ({
            let u = rule_steps(t, lines.take(n), path)->Ok_0;
            let v = rule_steps(t, lines, path)->Ok_0;
            &&& forall|p: Seq<char>| u.direct_globs.contains(p) ==> v.direct_globs.contains(p)
            &&& forall|p: Seq<char>| u.remote_globs.contains(p) ==> v.remote_globs.contains(p)
            &&& forall|p: Seq<char>| u.block_globs.contains(p) ==> v.block_globs.contains(p)
        }),
    decreases lines.len(),
{
    if n == lines.len() {
        assert(lines.take(n) =~= lines);
    } else {
        let less = lines.drop_last();
        lemma_rules_stay(t, less, path, n);
        assert(less.take(n) =~= lines.take(n));
        let w = rule_steps(t, less, path)->Ok_0;
        let v = rule_steps(t, lines, path)->Ok_0;
        assert forall|p: Seq<char>| w.direct_globs.contains(p) implies v.direct_globs.contains(p) by {
            let j = choose|j: int| 0 <= j < w.direct_globs.len() && w.direct_globs[j] == p;
            assert(v.direct_globs[j] == p);
        }
        assert forall|p: Seq<char>| w.remote_globs.contains(p) implies v.remote_globs.contains(p) by {
            let j = choose|j: int| 0 <= j < w.remote_globs.len() && w.remote_globs[j] == p;
            assert(v.remote_globs[j] == p);
        }
        assert forall|p: Seq<char>| w.block_globs.contains(p) implies v.block_globs.contains(p) by {
            let j = choose|j: int| 0 <= j < w.block_globs.len() && w.block_globs[j] == p;
            assert(v.block_globs[j] == p);
        }
    }
}

/// An address among the IP rules stands for itself alone, and a network for the
/// addresses in it.
pub proof fn ip_rules_hold_their_addresses(
    entry: &str,
    r: Result<Vec<IpNet>, Failure>,
    ip: IpAddr,
)
    requires
        trimmed(entry@).len() > 0,
        !contains(trimmed(entry@), "*"@),
        call_ensures(parse_ip_rule_entry, (entry,), r),
    ensures
        ip_value(trimmed(entry@)) matches Some(own) ==> r is Ok && ((exists|i: int|
            0 <= i < (r->Ok_0)@.len() && (#[trigger] (r->Ok_0)@[i]).has(ip)) <==> ip == own),
        ip_value(trimmed(entry@)) is None ==> match net_of(trimmed(entry@)) {
            Some(net) => r is Ok && (net.wf() ==> ((exists|i: int|
                0 <= i < (r->Ok_0)@.len() && (#[trigger] (r->Ok_0)@[i]).has(ip)) <==> net.has(ip))),
            None => r is Err,
        },
{
    let e = trimmed(entry@);
    match (ip_value(e), net_of(e)) {
        (Some(IpAddr::V4(n)), _) => {
            assert((r->Ok_0)@[0] == IpNet { addr: IpAddr::V4(n), prefix_len: 32 });
            if let IpAddr::V4(m) = ip {
                lemma_prefix_octets(n, m);
            }
        },
        (Some(IpAddr::V6(n)), _) => {
            assert((r->Ok_0)@[0] == IpNet { addr: IpAddr::V6(n), prefix_len: 128 });
            if let IpAddr::V6(m) = ip {
                crate::net::lemma_whole_v6(n, m);
            }
        },
        (None, Some(net)) => {
            assert((r->Ok_0)@[0] == net.truncated());
            if net.wf() {
                truncating_keeps_the_addresses(net, ip);
            }
        },
        _ => {},
    }
}

/// The domain rules of a configuration are all taken over, each to its route, behind
/// those that were there; the networks stay.
pub proof fn configured_domains_are_taken_over(
    before: RuleTable,
    rules: &RouteRuleConfig,
    r: Result<RuleTable, Failure>,
    i: int,
    p: Seq<char>,
)
    requires
        before@.wf(),
        call_ensures(RuleTable::load_domain_rules, (before, rules), r),
        r is Ok,
    ensures
        0 <= i < rules.direct@.len() ==> (r->Ok_0)@.direct_globs.contains(rules.direct@[i]@),
        0 <= i < rules.proxy@.len() ==> (r->Ok_0)@.remote_globs.contains(rules.proxy@[i]@),
        0 <= i < rules.block@.len() ==> (r->Ok_0)@.block_globs.contains(rules.block@[i]@),
        before@.direct_globs.contains(p) ==> (r->Ok_0)@.direct_globs.contains(p),
        before@.remote_globs.contains(p) ==> (r->Ok_0)@.remote_globs.contains(p),
        before@.block_globs.contains(p) ==> (r->Ok_0)@.block_globs.contains(p),
        (r->Ok_0)@.direct_globs.len() == before@.direct_globs.len() + rules.direct@.len(),
        (r->Ok_0)@.remote_globs.len() == before@.remote_globs.len() + rules.proxy@.len(),
        (r->Ok_0)@.block_globs.len() == before@.block_globs.len() + rules.block@.len(),
        (r->Ok_0)@.direct_cidrs == before@.direct_cidrs,
        (r->Ok_0)@.remote_cidrs == before@.remote_cidrs,
        (r->Ok_0)@.block_cidrs == before@.block_cidrs,
{
    lemma_joined_globs(before@.direct_globs, views(rules.direct@), i, p);
    lemma_joined_globs(before@.remote_globs, views(rules.proxy@), i, p);
    lemma_joined_globs(before@.block_globs, views(rules.block@), i, p);
    assert(views(rules.direct@).len() == rules.direct@.len());
    assert(views(rules.proxy@).len() == rules.proxy@.len());
    assert(views(rules.block@).len() == rules.block@.len());
}

proof fn lemma_joined_globs(a: Seq<Seq<char>>, b: Seq<Seq<char>>, i: int, p: Seq<char>)
    ensures
        0 <= i < b.len() ==> (a + b).contains(b[i]),
        a.contains(p) ==> (a + b).contains(p),
{
    if 0 <= i < b.len() {
        assert((a + b)[a.len() + i] == b[i]);
    }
    if a.contains(p) {
        let k = choose|k: int| 0 <= k < a.len() && a[k] == p;
        assert((a + b)[k] == p);
    }
}

proof fn lemma_ip_rules_hold(label: Seq<char>, entries: Seq<Seq<char>>, i: int, net: IpNet)
    requires
        ip_rules(label, entries) is Ok,
        0 <= i < entries.len(),
    ensures
        ip_rule(entries[i]) is Ok,
        (ip_rule(entries[i])->Ok_0).contains(net) ==> (ip_rules(label, entries)->Ok_0).contains(net),
    decreases entries.len(),
{
    let less = entries.drop_last();
    let before = ip_rules(label, less)->Ok_0;
    let all = ip_rules(label, entries)->Ok_0;
    if i == less.len() {
        let own = ip_rule(entries[i])->Ok_0;
        if own.contains(net) {
            let k = choose|k: int| 0 <= k < own.len() && own[k] == net;
            assert(all[before.len() + k] == net);
        }
    } else {
        assert(less[i] == entries[i]);
        lemma_ip_rules_hold(label, less, i, net);
        if before.contains(net) {
            let k = choose|k: int| 0 <= k < before.len() && before[k] == net;
            assert(all[k] == net);
        }
    }
}

/// The address rules of a configuration are all taken over, each network to its
/// route; one that is malformed fails them, and the rules for names stay.
pub proof fn configured_networks_are_taken_over(
    before: RuleTable,
    rules: &RouteRuleConfig,
    r: Result<RuleTable, Failure>,
    i: int,
    entry: &str,
    nets: Result<Vec<IpNet>, Failure>,
    net: IpNet,
)
    requires
        before@.wf(),
        call_ensures(RuleTable::load_ip_rules, (before, rules), r),
        call_ensures(parse_ip_rule_entry, (entry,), nets),
    ensures
        r matches Ok(t) ==> {
            &&& 0 <= i < rules.direct@.len() && entry@ == rules.direct@[i]@ ==> (nets matches Ok(v)
                && (v@.contains(net) ==> t@.direct_cidrs.contains(net)))
            &&& 0 <= i < rules.proxy@.len() && entry@ == rules.proxy@[i]@ ==> (nets matches Ok(v)
                && (v@.contains(net) ==> t@.remote_cidrs.contains(net)))
            &&& 0 <= i < rules.block@.len() && entry@ == rules.block@[i]@ ==> (nets matches Ok(v)
                && (v@.contains(net) ==> t@.block_cidrs.contains(net)))
            &&& before@.direct_cidrs.contains(net) ==> t@.direct_cidrs.contains(net)
            &&& t@.direct_globs == before@.direct_globs
            &&& t@.remote_globs == before@.remote_globs
            &&& t@.block_globs == before@.block_globs
        },
{
    if let Ok(t) = r {
        let d = views(rules.direct@);
        let p = views(rules.proxy@);
        let b = views(rules.block@);
        let dn = ip_rules("client.ip_rules.direct"@, d)->Ok_0;
        let pn = ip_rules("client.ip_rules.proxy"@, p)->Ok_0;
        let bn = ip_rules("client.ip_rules.block"@, b)->Ok_0;
        if 0 <= i < rules.direct@.len() && entry@ == rules.direct@[i]@ {
            assert(d[i] == entry@);
            lemma_ip_rules_hold("client.ip_rules.direct"@, d, i, net);
        }
        if 0 <= i < rules.proxy@.len() && entry@ == rules.proxy@[i]@ {
            assert(p[i] == entry@);
            lemma_ip_rules_hold("client.ip_rules.proxy"@, p, i, net);
        }
        if 0 <= i < rules.block@.len() && entry@ == rules.block@[i]@ {
            assert(b[i] == entry@);
            lemma_ip_rules_hold("client.ip_rules.block"@, b, i, net);
        }
        lemma_joined_nets(before@.direct_cidrs, dn, net);
        lemma_joined_nets(before@.remote_cidrs, pn, net);
        lemma_joined_nets(before@.block_cidrs, bn, net);
    }
}

proof fn lemma_joined_nets(a: Seq<IpNet>, b: Seq<IpNet>, net: IpNet)
    ensures
        a.contains(net) || b.contains(net) ==> (a + b).contains(net),
{
    if a.contains(net) {
        let k = choose|k: int| 0 <= k < a.len() && a[k] == net;
        assert((a + b)[k] == net);
    }
    if b.contains(net) {
        let k = choose|k: int| 0 <= k < b.len() && b[k] == net;
        assert((a + b)[a.len() + k] == net);
    }
}

/// A file of networks is loaded whole: each of its lines adds its networks to the
/// route that it names, and those that were there stay.
pub proof fn network_files_are_loaded_whole(
    before: RuleTable,
    file: &RuleFile,
    r: Result<RuleTable, Failure>,
    line: &str,
    n: int,
    read: Option<(String, Vec<String>)>,
    entry: &str,
    nets: Result<Vec<IpNet>, Failure>,
    net: IpNet,
)
    requires
        before@.wf(),
        call_ensures(RuleTable::load_cidr_file, (before, file), r),
        r is Ok,
        0 <= n < lines_of(file.content@).len(),
        lines_of(file.content@)[n] == line@,
        call_ensures(parse_rule_line, (line,), read),
        read matches Some((_, words)) ==> entry@ == words@[0]@,
        call_ensures(parse_ip_rule_entry, (entry,), nets),
    ensures
        before@.direct_cidrs.contains(net) ==> (r->Ok_0)@.direct_cidrs.contains(net),
        before@.remote_cidrs.contains(net) ==> (r->Ok_0)@.remote_cidrs.contains(net),
        before@.block_cidrs.contains(net) ==> (r->Ok_0)@.block_cidrs.contains(net),
        read matches Some((mode, _)) ==> (nets matches Ok(v) && {
            &&& mode@ == seq!['L'] && v@.contains(net) ==> (r->Ok_0)@.direct_cidrs.contains(net)
            &&& mode@ == seq!['R'] && v@.contains(net) ==> (r->Ok_0)@.remote_cidrs.contains(net)
            &&& mode@ == seq!['B'] && v@.contains(net) ==> (r->Ok_0)@.block_cidrs.contains(net)
        }),
{
    let lines = lines_of(file.content@);
    let path = file.path@;
    lemma_networks_stay(before@, lines, path, 0, net);
    lemma_networks_stay(before@, lines, path, n + 1, net);
    lemma_networks_stay(before@, lines, path, n, net);
    assert(lines.take(0) =~= Seq::<Seq<char>>::empty());
    let t = cidr_steps(before@, lines.take(n), path)->Ok_0;
    assert(lines.take(n + 1).drop_last() =~= lines.take(n));
    assert(lines.take(n + 1).last() == line@);
    network_lines_say_where_to(t, line, path, n, read, entry, nets);
    if read is Some {
        if let Ok(v) = nets {
            lemma_joined_nets(t.direct_cidrs, v@, net);
            lemma_joined_nets(t.remote_cidrs, v@, net);
            lemma_joined_nets(t.block_cidrs, v@, net);
        }
    }
}

proof fn lemma_networks_stay(
    t: TableView,
    lines: Seq<Seq<char>>,
    path: Seq<char>,
    n: int,
    net: IpNet,
)
    requires
        cidr_steps(t, lines, path) is Ok,
        0 <= n <= lines.len(),
    ensures
        cidr_steps(t, lines.take(n), path) is Ok,
        ({
            let u = cidr_steps(t, lines.take(n), path)->Ok_0;
            let w = cidr_steps(t, lines, path)->Ok_0;
            &&& u.direct_cidrs.contains(net) ==> w.direct_cidrs.contains(net)
            &&& u.remote_cidrs.contains(net) ==> w.remote_cidrs.contains(net)
            &&& u.block_cidrs.contains(net) ==> w.block_cidrs.contains(net)
        }),
    decreases lines.len(),
{
    if n == lines.len() {
        assert(lines.take(n) =~= lines);
    } else {
        let less = lines.drop_last();
        lemma_networks_stay(t, less, path, n, net);
        assert(less.take(n) =~= lines.take(n));
        let u = cidr_steps(t, less, path)->Ok_0;
        if let Some((mode, rest)) = rule_line(lines.last()) {
            let nets = ip_rule(rest[0])->Ok_0;
            lemma_joined_nets(u.direct_cidrs, nets, net);
            lemma_joined_nets(u.remote_cidrs, nets, net);
            lemma_joined_nets(u.block_cidrs, nets, net);
        }
    }
}

/// Files of rules are read in rule mode only. A target that was connected to directly
/// is answered with success and relayed, and one that was not fails with its cause.
pub proof fn direct_targets_are_relayed(
    args: &ClientArgs,
    files: (Option<String>, Option<String>),
    target: &TargetAddr,
    text: String,
    mode: Option<&str>,
    cause: Failure,
    done: Result<(Vec<u8>, RelayLabels), Failure>,
    late: Result<(Vec<u8>, RelayLabels), Failure>,
    failed: Result<(Vec<u8>, RelayLabels), Failure>,
)
    requires
        call_ensures(rule_files_to_read, (args,), files),
        call_ensures(TargetAddr::to_text, (target,), text),
        call_ensures(relay_direct_socks, (target, mode, DirectConnect::Connected), done),
        call_ensures(relay_direct_socks, (target, mode, DirectConnect::TimedOut), late),
        call_ensures(relay_direct_socks, (target, mode, DirectConnect::Failed(cause)), failed),
    ensures
        args.filter == FilterMode::Rule ==> files == (args.rule_file, args.cidr_file),
        args.filter != FilterMode::Rule ==> files.0 is None && files.1 is None,
        done matches Ok((reply, labels)) && reply@ == seq![5u8, 0, 0, 1, 0, 0, 0, 0, 0, 0]
            && labels.target@ == text@,
        late is Err,
        failed matches Err(e) && e@ == cause@,
{
    crate::proxy::socks5::replies_without_an_address(0);
}

/// The addresses of a target are its own, or those that its name was found to have,
/// each once.
pub proof fn addresses_of_targets_are_known(
    ip: IpAddr,
    port: u16,
    host: String,
    found: Vec<IpAddr>,
    a: IpAddr,
    own: Option<Vec<IpAddr>>,
    named: Option<Vec<IpAddr>>,
    unknown: Option<Vec<IpAddr>>,
)
    requires
        call_ensures(resolve_target_ips, (&TargetAddr::Ip(ip, port), &None), own),
        call_ensures(resolve_target_ips, (&TargetAddr::Domain(host, port), &Some(found)), named),
        call_ensures(resolve_target_ips, (&TargetAddr::Domain(host, port), &None), unknown),
    ensures
        own matches Some(v) && v@ == seq![ip],
        named matches Some(v) && (v@.contains(a) <==> found@.contains(a)),
        unknown is None,
{
    lemma_firsts_hold(found@, a);
}

proof fn lemma_firsts_hold(addrs: Seq<IpAddr>, a: IpAddr)
    ensures
        firsts(addrs).contains(a) <==> addrs.contains(a),
    decreases addrs.len(),
{
    let all = firsts(addrs);
    if addrs.len() > 0 {
        let less = addrs.drop_last();
        let before = firsts(less);
        lemma_firsts_hold(less, a);
        lemma_firsts_hold(less, addrs.last());
        if addrs.contains(a) {
            let i = choose|i: int| 0 <= i < addrs.len() && addrs[i] == a;
            if i < less.len() {
                assert(less[i] == a);
                assert(before.contains(a));
                let k = choose|k: int| 0 <= k < before.len() && before[k] == a;
                assert(all[k] == a);
            } else if !before.contains(a) {
                assert(all[before.len() as int] == a);
            }
        }
        if all.contains(a) {
            let k = choose|k: int| 0 <= k < all.len() && all[k] == a;
            if k < before.len() {
                assert(before[k] == a);
                assert(before.contains(a));
                let i = choose|i: int| 0 <= i < less.len() && less[i] == a;
                assert(addrs[i] == a);
            } else {
                assert(addrs[addrs.len() - 1] == a);
            }
        }
    }
}

/// A target that no block rule names is blocked just where the filter lists block it;
/// without lists it never is.
pub proof fn filter_lists_block_targets(
    router: &mut Router,
    blocker: &mut Adblocker,
    target: &TargetAddr,
    lookups: &Lookups,
    now: u64,
    block: Result<Option<RouteStep>, Failure>,
    blocked: bool,
    r: Result<RouteStep, Failure>,
)
    requires
        old(router).wf(),
        old(router).mode != FilterMode::Rule,
        old(router).table@.settled_on(target_host(target@)),
        value_of(old(router).cache@, target_text(target@)) is None,
        call_ensures(
            RuleTable::decide_block_only,
            (&old(router).table, target, &lookups.for_block),
            block,
        ),
        block == Ok::<Option<RouteStep>, Failure>(None),
        old(router).adblock matches Some(a) ==> *old(blocker) == a && call_ensures(
            Adblocker::blocks_target,
            (blocker, target, now),
            blocked,
        ),
        call_ensures(Router::decide, (router, target, lookups, now), r),
    ensures
        r == Ok::<RouteStep, Failure>(RouteStep::Decided(RouteDecision::Block)) <==> old(router).adblock is Some && blocked,
{
}

/// What blocks a target comes before what routes it.
pub proof fn blocking_comes_before_routing(
    table: &RuleTable,
    target: &TargetAddr,
    found: &Option<Vec<IpAddr>>,
    block: Result<Option<RouteStep>, Failure>,
    route: Result<RouteStep, Failure>,
    r: Result<RouteStep, Failure>,
)
    requires
        table@.wf(),
        table@.settled_on(target_host(target@)),
        call_ensures(RuleTable::decide_block_only, (table, target, found), block),
        call_ensures(RuleTable::decide_route_only, (table, target, found), route),
        call_ensures(RuleTable::decide, (table, target, found), r),
    ensures
        block is Err ==> r is Err,
        block matches Ok(Some(s)) ==> r == Ok::<RouteStep, Failure>(s),
        block == Ok::<Option<RouteStep>, Failure>(None) ==> match route {
            Ok(s) => r == Ok::<RouteStep, Failure>(s),
            Err(_) => r is Err,
        },
{
}

/// A new router remembers nothing and goes by the rules that it was given; in rule
/// mode the networks for special use are reached directly too.
pub proof fn new_routers_go_by_their_rules(
    mode: FilterMode,
    table: RuleTable,
    adblock: Option<Adblocker>,
    special: Vec<IpNet>,
    i: int,
    net: IpNet,
    r: Router,
)
    requires
        table@.wf(),
        call_ensures(crate::net::reserved_ip_nets, (), special),
        call_ensures(Router::new, (mode, table, adblock), r),
        0 <= i < special@.len(),
    ensures
        r.mode == mode,
        r.cache@.len() == 0,
        r.adblock == adblock,
        r.table@.direct_globs == table@.direct_globs,
        r.table@.remote_globs == table@.remote_globs,
        r.table@.block_globs == table@.block_globs,
        r.table@.remote_cidrs == table@.remote_cidrs,
        r.table@.block_cidrs == table@.block_cidrs,
        mode == FilterMode::Rule ==> r.table@.direct_cidrs.contains(special@[i]),
        mode != FilterMode::Rule ==> r.table@.direct_cidrs == table@.direct_cidrs,
        table@.direct_cidrs.contains(net) ==> r.table@.direct_cidrs.contains(net),
{
    let s = special@;
    assert(s.contains(s[i]));
    lemma_joined_nets(s, table@.direct_cidrs, s[i]);
    lemma_joined_nets(table@.direct_cidrs, s, s[i]);
    lemma_joined_nets(s, table@.direct_cidrs, net);
    lemma_joined_nets(table@.direct_cidrs, s, net);
}

} // verus!
