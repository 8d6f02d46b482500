//! Routes by plain rules: the first rule that names a target decides, and rules
//! for names come before rules for addresses.

pub use crate::net::reserved_ip_nets;
pub use crate::proxy::route::{FilterMode, RouteDecision, RouteStep, RuleFile, RuleTable};

use vstd::prelude::*;
use crate::assoc::{position, put, value_of};
use crate::client::ClientArgs;
use crate::failure::{outcome, Failure};
use crate::glob::{glob_fault, glob_matches, match_glob, settled, settled_on};
use crate::ip::IpAddr;
use crate::net::{any_in, contains_any, net_fault, net_of, parse_net};
use crate::num::to_decimal;
use crate::proxy::route::{
    malformed, parse_rule_line, place, resolve_target_ips, rule_line, rule_steps, table_outcome,
    target_addrs, with_reserved, TableView, Verdicts,
};
use crate::proxy::socks5::{target_host, TargetAddr, TargetView};
use crate::text::{cat, cat3, lines, lines_of, same, views};

verus! {

/// Whether one of the rules matches a host. A malformed rule fails, unless one
/// before it matches.
pub open spec fn matched(patterns: Seq<Seq<char>>, host: Seq<char>) -> Result<bool, Seq<Seq<char>>>
    decreases patterns.len(),
{
    if patterns.len() == 0 {
        Ok(false)
    } else if glob_fault(patterns[0]) is Some {
        Err(malformed(patterns[0], glob_fault(patterns[0])->0))
    } else if glob_matches(patterns[0], host) {
        Ok(true)
    } else {
        matched(patterns.skip(1), host)
    }
}

/// Whether the rules may say this of a host. Where the pattern matcher of some
/// systems answers in another way, a rule may or may not match, or fail if it is
/// not even read alike.
pub open spec fn may_match(
    patterns: Seq<Seq<char>>,
    host: Seq<char>,
    r: Result<bool, Seq<Seq<char>>>,
) -> bool
    decreases patterns.len(),
{
    if patterns.len() == 0 {
        r == Ok::<bool, Seq<Seq<char>>>(false)
    } else {
        let p = patterns[0];
        let rest = patterns.skip(1);
        if !settled(p) {
            ||| r == Ok::<bool, Seq<Seq<char>>>(true)
            ||| exists|cause: Seq<char>|
                r == Err::<bool, Seq<Seq<char>>>(#[trigger] malformed(p, cause))
            ||| may_match(rest, host, r)
        } else if glob_fault(p) is Some {
            r == Err::<bool, Seq<Seq<char>>>(malformed(p, glob_fault(p)->0))
        } else if !settled_on(p, host) {
            r == Ok::<bool, Seq<Seq<char>>>(true) || may_match(rest, host, r)
        } else if glob_matches(p, host) {
            r == Ok::<bool, Seq<Seq<char>>>(true)
        } else {
            may_match(rest, host, r)
        }
    }
}

/// Whether all systems match a host against the rules alike.
pub open spec fn alike_on(patterns: Seq<Seq<char>>, host: Seq<char>) -> bool {
    forall|i: int| 0 <= i < patterns.len() ==> settled_on(#[trigger] patterns[i], host)
}

/// The rules may always say what the pattern matcher finds.
proof fn lemma_may_match(patterns: Seq<Seq<char>>, host: Seq<char>)
    ensures
        may_match(patterns, host, matched(patterns, host)),
    decreases patterns.len(),
{
    if patterns.len() > 0 {
        lemma_may_match(patterns.skip(1), host);
    }
}

/// Where all systems match alike, the rules say one thing of a host.
pub proof fn rules_that_match_alike_leave_no_choice(
    patterns: Seq<Seq<char>>,
    host: Seq<char>,
    r: Result<bool, Seq<Seq<char>>>,
)
    requires
        alike_on(patterns, host),
        may_match(patterns, host, r),
    ensures
        r == matched(patterns, host),
    decreases patterns.len(),
{
    if patterns.len() > 0 {
        assert(settled_on(patterns[0], host));
        let rest = patterns.skip(1);
        assert forall|i: int| 0 <= i < rest.len() implies settled_on(
            #[trigger] rest[i],
            host,
        ) by {
            assert(rest[i] == patterns[i + 1]);
        }
        if may_match(rest, host, r) {
            rules_that_match_alike_leave_no_choice(rest, host, r);
        }
    }
}

proof fn lemma_exact(
    patterns: Seq<Seq<char>>,
    host: Seq<char>,
    r: Result<bool, Seq<Seq<char>>>,
)
    requires
        may_match(patterns, host, r),
    ensures
        alike_on(patterns, host) ==> r == matched(patterns, host),
{
    if alike_on(patterns, host) {
        rules_that_match_alike_leave_no_choice(patterns, host, r);
    }
}

/// Whether one of the rules matches a host.
pub fn matches_any(patterns: &Vec<String>, host: &str) -> (r: Result<bool, Failure>)
    ensures
        may_match(views(patterns@), host@, outcome(r)),
        alike_on(views(patterns@), host@) ==> outcome(r) == matched(views(patterns@), host@),
{
    let ghost all = views(patterns@);
    assert(all.skip(0) =~= all);
    let mut i: usize = 0;
    while i < patterns.len()
        invariant
            i <= patterns@.len(),
            all == views(patterns@),
            forall|v: Result<bool, Seq<Seq<char>>>| #[trigger]
                may_match(all.skip(i as int), host@, v) ==> may_match(all, host@, v),
        decreases patterns@.len() - i,
    {
        let ghost rest = all.skip(i as int);
        proof {
            assert(rest[0] == patterns@[i as int]@);
            assert(rest.skip(1) =~= all.skip(i + 1));
        }
        match match_glob(patterns[i].as_str(), host) {
            Err(cause) => {
                proof {
                    let v = Err::<bool, Seq<Seq<char>>>(malformed(rest[0], cause@));
                    assert(may_match(rest, host@, v));
                    lemma_exact(all, host@, v);
                }
                return Err(
                    Failure::caused(
                        cat3("invalid glob pattern '", patterns[i].as_str(), "'").as_str(),
                        cause.as_str(),
                    ),
                );
            },
            Ok(m) => {
                if m {
                    proof {
                        assert(may_match(rest, host@, Ok(true)));
                        lemma_exact(all, host@, Ok(true));
                    }
                    return Ok(true);
                }
            },
        }
        assert forall|v: Result<bool, Seq<Seq<char>>>| #[trigger]
            may_match(all.skip(i + 1), host@, v) implies may_match(all, host@, v) by {
            assert(may_match(rest, host@, v));
        }
        i = i + 1;
    }
    proof {
        assert(may_match(all.skip(i as int), host@, Ok(false)));
        lemma_exact(all, host@, Ok(false));
    }
    Ok(false)
}

/// The table after a line of networks.
pub open spec fn net_step(t: TableView, line: Seq<char>, path: Seq<char>, index: int) -> Result<
    TableView,
    Seq<Seq<char>>,
> {
    match rule_line(line) {
        None => Ok(t),
        Some((mode, rest)) => match net_of(rest[0]) {
            None => Err(
                seq!["invalid CIDR '"@ + rest[0] + "'"@ + place(path, index), net_fault()],
            ),
            Some(net) => if mode == "L"@ {
                Ok(TableView { direct_cidrs: t.direct_cidrs.push(net), ..t })
            } else if mode == "R"@ {
                Ok(TableView { remote_cidrs: t.remote_cidrs.push(net), ..t })
            } else if mode == "B"@ {
                Ok(TableView { block_cidrs: t.block_cidrs.push(net), ..t })
            } else {
                Err(seq!["invalid CIDR mode '"@ + mode + "'"@ + place(path, index)])
            },
        },
    }
}

/// The table after lines of networks.
pub open spec fn net_steps(t: TableView, lines: Seq<Seq<char>>, path: Seq<char>) -> Result<
    TableView,
    Seq<Seq<char>>,
>
    decreases lines.len(),
{
    if lines.len() == 0 {
        Ok(t)
    } else {
        match net_steps(t, lines.drop_last(), path) {
            Err(e) => Err(e),
            Ok(u) => net_step(u, lines.last(), path, lines.len() - 1),
        }
    }
}

proof fn lemma_net_steps_fail(t: TableView, lines: Seq<Seq<char>>, path: Seq<char>, n: int)
    requires
        0 <= n <= lines.len(),
        net_steps(t, lines.take(n), path) is Err,
    ensures
        net_steps(t, lines, path) == net_steps(t, lines.take(n), path),
    decreases lines.len() - n,
{
    if n == lines.len() {
        assert(lines.take(n) =~= lines);
    } else {
        assert(lines.take(n + 1).drop_last() =~= lines.take(n));
        lemma_net_steps_fail(t, lines, path, n + 1);
    }
}

fn at_place(text: &str, path: &str, index: usize) -> (r: Failure)
    requires
        index < usize::MAX,
    ensures
        r@ == seq![text@ + place(path@, index as int)],
{
    let place = cat(cat3(" at ", path, ":").as_str(), to_decimal(index as u64 + 1).as_str());
    Failure::new(cat(text, place.as_str()).as_str())
}

fn take_net_line(table: RuleTable, line: &str, path: &str, index: usize) -> (r: Result<
    RuleTable,
    Failure,
>)
    requires
        table@.wf(),
        index < usize::MAX,
    ensures
        table_outcome(r) == net_step(table@, line@, path@, index as int),
        r matches Ok(t) ==> t@.wf(),
{
    match parse_rule_line(line) {
        None => Ok(table),
        Some((mode, rest)) => {
            assert(views(rest@)[0] == rest@[0]@);
            match parse_net(rest[0].as_str()) {
                Err(cause) => {
                    let e = at_place(
                        cat3("invalid CIDR '", rest[0].as_str(), "'").as_str(),
                        path,
                        index,
                    );
                    Err(Failure::caused(e.to_text().as_str(), cause.as_str()))
                },
                Ok(net) => {
                    let mut t = table;
                    if same(mode.as_str(), "L") {
                        t.direct_cidrs.push(net);
                    } else if same(mode.as_str(), "R") {
                        t.remote_cidrs.push(net);
                    } else if same(mode.as_str(), "B") {
                        t.block_cidrs.push(net);
                    } else {
                        return Err(
                            at_place(
                                cat3("invalid CIDR mode '", mode.as_str(), "'").as_str(),
                                path,
                                index,
                            ),
                        );
                    }
                    Ok(t)
                },
            }
        },
    }
}

/// The table with the networks of a file.
pub fn load_cidr_file(table: RuleTable, file: &RuleFile) -> (r: Result<RuleTable, Failure>)
    requires
        table@.wf(),
    ensures
        table_outcome(r) == net_steps(table@, lines_of(file.content@), file.path@),
        r matches Ok(t) ==> t@.wf(),
{
    let all = lines(file.content.as_str());
    let ghost start = table@;
    let ghost texts = views(all@);
    let mut current = table;
    let mut i: usize = 0;
    assert(texts.take(0) =~= Seq::<Seq<char>>::empty());
    while i < all.len()
        invariant
            i <= all@.len(),
            texts == views(all@),
            texts == lines_of(file.content@),
            start == table@,
            current@.wf(),
            net_steps(start, texts.take(i as int), file.path@) == Ok::<TableView, Seq<Seq<char>>>(
                current@,
            ),
        decreases all@.len() - i,
    {
        proof {
            assert(texts.take(i + 1).drop_last() =~= texts.take(i as int));
            assert(texts.take(i + 1).last() == all@[i as int]@);
        }
        match take_net_line(current, all[i].as_str(), file.path.as_str(), i) {
            Err(e) => {
                proof {
                    lemma_net_steps_fail(start, texts, file.path@, i + 1);
                }
                return Err(e);
            },
            Ok(t) => {
                current = t;
            },
        }
        i = i + 1;
    }
    assert(texts.take(i as int) =~= texts);
    Ok(current)
}

/// The table of the rules of two files.
pub open spec fn table_of(rule_file: Option<RuleFile>, cidr_file: Option<RuleFile>) -> Result<
    TableView,
    Seq<Seq<char>>,
> {
    let rules = match rule_file {
        Some(f) => rule_steps(TableView::empty(), lines_of(f.content@), f.path@),
        None => Ok(TableView::empty()),
    };
    match (rules, cidr_file) {
        (Err(e), _) => Err(e),
        (Ok(t), Some(f)) => net_steps(t, lines_of(f.content@), f.path@),
        (Ok(t), None) => Ok(t),
    }
}

/// The table of the rules of two files.
pub fn load(rule_file: &Option<RuleFile>, cidr_file: &Option<RuleFile>) -> (r: Result<
    RuleTable,
    Failure,
>)
    ensures
        table_outcome(r) == table_of(*rule_file, *cidr_file),
        r matches Ok(t) ==> t@.wf(),
{
    let table = RuleTable::empty();
    let table = match rule_file {
        None => table,
        Some(f) => match table.load_rule_file(f) {
            Err(e) => {
                return Err(e);
            },
            Ok(t) => t,
        },
    };
    match cidr_file {
        None => Ok(table),
        Some(f) => load_cidr_file(table, f),
    }
}

/// What the pattern matcher finds that the rules for names say of a host.
pub open spec fn said_of(t: TableView, host: Seq<char>) -> Verdicts {
    Verdicts {
        direct: matched(t.direct_globs, host),
        remote: matched(t.remote_globs, host),
        block: matched(t.block_globs, host),
    }
}

/// Whether the rules for names may say this of a host.
pub open spec fn may_say_of(t: TableView, host: Seq<char>, v: Verdicts) -> bool {
    &&& may_match(t.direct_globs, host, v.direct)
    &&& may_match(t.remote_globs, host, v.remote)
    &&& may_match(t.block_globs, host, v.block)
}

/// Whether all systems match a host alike against the rules for names.
pub open spec fn table_alike_on(t: TableView, host: Seq<char>) -> bool {
    &&& alike_on(t.direct_globs, host)
    &&& alike_on(t.remote_globs, host)
    &&& alike_on(t.block_globs, host)
}

/// The route that the rules for names select, if any does.
pub open spec fn name_route(v: Verdicts) -> Result<Option<RouteDecision>, Seq<Seq<char>>> {
    match v.direct {
        Err(e) => Err(e),
        Ok(true) => Ok(Some(RouteDecision::Direct)),
        Ok(false) => match v.remote {
            Err(e) => Err(e),
            Ok(true) => Ok(Some(RouteDecision::Remote)),
            Ok(false) => match v.block {
                Err(e) => Err(e),
                Ok(true) => Ok(Some(RouteDecision::Block)),
                Ok(false) => Ok(None),
            },
        },
    }
}

/// What the rules for addresses say of a target with the given addresses.
pub open spec fn address_route(t: TableView, addrs: Seq<IpAddr>) -> RouteDecision {
    if any_in(t.direct_cidrs, addrs) {
        RouteDecision::Direct
    } else if any_in(t.remote_cidrs, addrs) {
        RouteDecision::Remote
    } else if any_in(t.block_cidrs, addrs) {
        RouteDecision::Block
    } else {
        RouteDecision::Remote
    }
}

/// What is to be done about a target.
pub open spec fn decision(t: TableView, target: TargetView, found: Option<Vec<IpAddr>>) -> Result<
    RouteStep,
    Seq<Seq<char>>,
> {
    decision_by(said_of(t, target_host(target)), t, target, found)
}

/// What is to be done about a target, for what the rules for names say of its host.
pub open spec fn decision_by(
    v: Verdicts,
    t: TableView,
    target: TargetView,
    found: Option<Vec<IpAddr>>,
) -> Result<RouteStep, Seq<Seq<char>>> {
    match name_route(v) {
        Err(e) => Err(e),
        Ok(Some(d)) => Ok(RouteStep::Decided(d)),
        Ok(None) => match target_addrs(target, found) {
            None => Ok(RouteStep::LookUpForRoute),
            Some(a) => Ok(RouteStep::Decided(address_route(t, a))),
        },
    }
}

/// What is to be done about a target.
pub fn decide(table: &RuleTable, target: &TargetAddr, found: &Option<Vec<IpAddr>>) -> (r: Result<
    RouteStep,
    Failure,
>)
    requires
        table@.wf(),
    ensures
        exists|v: Verdicts| #[trigger]
            may_say_of(table@, target_host(target@), v) && outcome(r) == decision_by(
                v,
                table@,
                target@,
                *found,
            ),
        table_alike_on(table@, target_host(target@)) ==> outcome(r) == decision(
            table@,
            target@,
            *found,
        ),
{
    let host = target.host_string();
    let ghost mut v = said_of(table@, host@);
    proof {
        lemma_may_match(table@.direct_globs, host@);
        lemma_may_match(table@.remote_globs, host@);
        lemma_may_match(table@.block_globs, host@);
    }
    let said = matches_any(&table.direct_globs, host.as_str());
    proof {
        v = Verdicts { direct: outcome(said), ..v };
        assert(may_say_of(table@, host@, v));
    }
    match said {
        Err(e) => {
            return Err(e);
        },
        Ok(hit) => {
            if hit {
                return Ok(RouteStep::Decided(RouteDecision::Direct));
            }
        },
    }
    let said = matches_any(&table.remote_globs, host.as_str());
    proof {
        v = Verdicts { remote: outcome(said), ..v };
        assert(may_say_of(table@, host@, v));
    }
    match said {
        Err(e) => {
            return Err(e);
        },
        Ok(hit) => {
            if hit {
                return Ok(RouteStep::Decided(RouteDecision::Remote));
            }
        },
    }
    let said = matches_any(&table.block_globs, host.as_str());
    proof {
        v = Verdicts { block: outcome(said), ..v };
        assert(may_say_of(table@, host@, v));
    }
    match said {
        Err(e) => {
            return Err(e);
        },
        Ok(hit) => {
            if hit {
                return Ok(RouteStep::Decided(RouteDecision::Block));
            }
        },
    }
    match resolve_target_ips(target, found) {
        None => Ok(RouteStep::LookUpForRoute),
        Some(addrs) => {
            if contains_any(&table.direct_cidrs, &addrs) {
                Ok(RouteStep::Decided(RouteDecision::Direct))
            } else if contains_any(&table.remote_cidrs, &addrs) {
                Ok(RouteStep::Decided(RouteDecision::Remote))
            } else if contains_any(&table.block_cidrs, &addrs) {
                Ok(RouteStep::Decided(RouteDecision::Block))
            } else {
                Ok(RouteStep::Decided(RouteDecision::Remote))
            }
        },
    }
}

/// Decides on the routes of targets, and remembers what the rules said of a host.
#[derive(Debug)]
pub struct Router {
    pub mode: FilterMode,
    pub table: RuleTable,
    pub cache: Vec<(String, RouteDecision)>,
}

impl Router {
    /// The router of a client, with the files of rules that it names.
    pub fn from_args(
        args: &ClientArgs,
        rule_file: &Option<RuleFile>,
        cidr_file: &Option<RuleFile>,
    ) -> (r: Result<Self, Failure>)
        ensures
            match (
                r,
                if args.filter == FilterMode::Rule {
                    table_of(*rule_file, *cidr_file)
                } else {
                    Ok(TableView::empty())
                },
            ) {
                (Ok(x), Ok(t)) => x.mode == args.filter && x.cache@.len() == 0 && x.table@.wf()
                    && x.table@ == with_reserved(args.filter, t),
                (Err(e), Err(f)) => e@ == f,
                _ => false,
            },
    {
        match args.filter {
            FilterMode::Rule => match load(rule_file, cidr_file) {
                Err(e) => Err(e),
                Ok(t) => {
                    let mut table = t;
                    let mut nets = reserved_ip_nets();
                    table.direct_cidrs.append(&mut nets);
                    Ok(Router { mode: args.filter, table, cache: Vec::new() })
                },
            },
            _ => Ok(Router { mode: args.filter, table: RuleTable::empty(), cache: Vec::new() }),
        }
    }

    /// What is to be done about a target: take the route of the mode; in rule
    /// mode the one that is remembered for its host, or that the rules select,
    /// which is then remembered.
    pub fn decide(&mut self, target: &TargetAddr, found: &Option<Vec<IpAddr>>) -> (r: Result<
        RouteStep,
        Failure,
    >)
        requires
            old(self).table@.wf(),
        ensures
            final(self).mode == old(self).mode,
            final(self).table == old(self).table,
            match old(self).mode {
                FilterMode::Proxy => r == Ok::<RouteStep, Failure>(
                    RouteStep::Decided(RouteDecision::Remote),
                ) && *final(self) == *old(self),
                FilterMode::Direct => r == Ok::<RouteStep, Failure>(
                    RouteStep::Decided(RouteDecision::Direct),
                ) && *final(self) == *old(self),
                FilterMode::Rule => match value_of(old(self).cache@, target_host(target@)) {
                    Some(d) => r == Ok::<RouteStep, Failure>(RouteStep::Decided(d)) && *final(self)
                        == *old(self),
                    None => {
                        &&& exists|v: Verdicts| #[trigger]
                            may_say_of(old(self).table@, target_host(target@), v) && outcome(r)
                                == decision_by(v, old(self).table@, target@, *found)
                        &&& table_alike_on(old(self).table@, target_host(target@)) ==> outcome(r)
                            == decision(old(self).table@, target@, *found)
                        &&& forall|k: Seq<char>| #[trigger]
                            value_of(final(self).cache@, k) == match r {
                                Ok(RouteStep::Decided(d)) => if k == target_host(target@) {
                                    Some(d)
                                } else {
                                    value_of(old(self).cache@, k)
                                },
                                _ => value_of(old(self).cache@, k),
                            }
                    },
                },
            },
    {
        match self.mode {
            FilterMode::Proxy => {
                return Ok(RouteStep::Decided(RouteDecision::Remote));
            },
            FilterMode::Direct => {
                return Ok(RouteStep::Decided(RouteDecision::Direct));
            },
            FilterMode::Rule => {},
        }
        let host = target.host_string();
        match position(&self.cache, host.as_str()) {
            Some(i) => {
                return Ok(RouteStep::Decided(self.cache[i].1));
            },
            None => {},
        }
        match decide(&self.table, target, found) {
            Err(e) => Err(e),
            Ok(step) => {
                match step {
                    RouteStep::Decided(d) => {
                        put(&mut self.cache, host, d);
                    },
                    _ => {},
                }
                Ok(step)
            },
        }
    }
}

// ---------------------------------------------------------------------------
// Laws

/// The first kind of rules that names a target decides: direct, then proxy, then
/// block rules for names, then networks in the same order; a target that none names
/// goes through the server.
pub proof fn the_first_rule_that_names_a_target_decides(
    table: &RuleTable,
    target: &TargetAddr,
    found: &Option<Vec<IpAddr>>,
    host: &str,
    direct: Result<bool, Failure>,
    proxy: Result<bool, Failure>,
    block: Result<bool, Failure>,
    r: Result<RouteStep, Failure>,
)
    requires
        host@ == target_host(target@),
        table_alike_on(table@, host@),
        call_ensures(matches_any, (&table.direct_globs, host), direct),
        call_ensures(matches_any, (&table.remote_globs, host), proxy),
        call_ensures(matches_any, (&table.block_globs, host), block),
        call_ensures(decide, (table, target, found), r),
    ensures
        direct == Ok::<bool, Failure>(true) ==> r == Ok::<RouteStep, Failure>(
            RouteStep::Decided(RouteDecision::Direct),
        ),
        direct == Ok::<bool, Failure>(false) && proxy == Ok::<bool, Failure>(true) ==> r == Ok::<
            RouteStep,
            Failure,
        >(RouteStep::Decided(RouteDecision::Remote)),
        direct == Ok::<bool, Failure>(false) && proxy == Ok::<bool, Failure>(false) && block == Ok::<
            bool,
            Failure,
        >(true) ==> r == Ok::<RouteStep, Failure>(RouteStep::Decided(RouteDecision::Block)),
        direct is Err ==> r is Err,
        direct == Ok::<bool, Failure>(false) && proxy == Ok::<bool, Failure>(false) && block == Ok::<
            bool,
            Failure,
        >(false) ==> match (*target, *found) {
            (TargetAddr::Ip(ip, _), _) => r == Ok::<RouteStep, Failure>(
                RouteStep::Decided(
                    if exists|i: int|
                        0 <= i < table.direct_cidrs@.len() && (#[trigger] table.direct_cidrs@[i]).has(
                            ip,
                        ) {
                        RouteDecision::Direct
                    } else if exists|i: int|
                        0 <= i < table.remote_cidrs@.len() && (#[trigger] table.remote_cidrs@[i]).has(
                            ip,
                        ) {
                        RouteDecision::Remote
                    } else if exists|i: int|
                        0 <= i < table.block_cidrs@.len() && (#[trigger] table.block_cidrs@[i]).has(
                            ip,
                        ) {
                        RouteDecision::Block
                    } else {
                        RouteDecision::Remote
                    },
                ),
            ),
            (TargetAddr::Domain(_, _), None) => r == Ok::<RouteStep, Failure>(
                RouteStep::LookUpForRoute,
            ),
            _ => r matches Ok(s) && s is Decided,
        },
{
    if let TargetAddr::Ip(ip, _) = *target {
        lemma_one(table.direct_cidrs@, ip);
        lemma_one(table.remote_cidrs@, ip);
        lemma_one(table.block_cidrs@, ip);
    }
}

proof fn lemma_one(nets: Seq<crate::net::IpNet>, ip: IpAddr)
    ensures
        any_in(nets, seq![ip]) <==> exists|i: int|
            0 <= i < nets.len() && (#[trigger] nets[i]).has(ip),
{
    assert(seq![ip][0] == ip);
    if crate::net::any_has(nets, ip) {
        assert(crate::net::any_has(nets, seq![ip][0]));
    }
}

/// Outside rule mode every target takes the route of the mode; in rule mode the
/// rules decide, and what they decided for a host is decided again.
pub proof fn the_mode_decides(
    router: &mut Router,
    target: &TargetAddr,
    found: &Option<Vec<IpAddr>>,
    by_rules: Result<RouteStep, Failure>,
    r: Result<RouteStep, Failure>,
    later: &mut Router,
    again: Result<RouteStep, Failure>,
)
    requires
        table_alike_on(old(router).table@, target_host(target@)),
        call_ensures(decide, (&old(router).table, target, found), by_rules),
        call_ensures(Router::decide, (router, target, found), r),
        *old(later) == *final(router),
        call_ensures(Router::decide, (later, target, found), again),
    ensures
        old(router).mode == FilterMode::Proxy ==> r == Ok::<RouteStep, Failure>(
            RouteStep::Decided(RouteDecision::Remote),
        ),
        old(router).mode == FilterMode::Direct ==> r == Ok::<RouteStep, Failure>(
            RouteStep::Decided(RouteDecision::Direct),
        ),
        old(router).mode == FilterMode::Rule && value_of(old(router).cache@, target_host(target@))
            is None ==> match by_rules {
            Ok(s) => r == Ok::<RouteStep, Failure>(s),
            Err(_) => r is Err,
        },
        r matches Ok(RouteStep::Decided(d)) ==> again == Ok::<RouteStep, Failure>(
            RouteStep::Decided(d),
        ),
{
}

} // verus!
