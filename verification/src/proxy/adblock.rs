//! Blocking of advertising hosts by filter lists.

use vstd::prelude::*;
use crate::assoc::{position, put, value_of};
use crate::crypto::{hex_encode, hex_of, sha256, sha256_of};
use crate::failure::Failure;
use crate::ip::{ip_value, parse_ip, IpAddr};
use crate::paths::{join_path, joined_path, resolve_path, resolved_path, str_view};
use crate::proxy::socks5::{TargetAddr, TargetView};
use crate::text::{
    begins_with, bytes_of, cat, cat3, clone_opt, clone_strings, contains, lower, occurs_at,
    opt_view, starts_with, to_bytes, to_lower, trim_end_char, views, without_trailing,
};

verus! {

/// Hours after which a downloaded list is fetched again.
pub const DEFAULT_UPDATE_INTERVAL_HOURS: u64 = 24;

/// Seconds for which a decision is kept.
pub const DEFAULT_DECISION_CACHE_TTL_SECS: u64 = 300;

/// Seconds that a download may take.
pub const DOWNLOAD_TIMEOUT_SECS: u64 = 5;

// ---------------------------------------------------------------------------
// Configuration

/// What to block, and how.
#[derive(Debug)]
pub struct AdblockConfig {
    pub enabled: Option<bool>,
    pub lists: Vec<String>,
    pub cache_dir: Option<String>,
    pub update_interval_hours: u64,
    pub decision_cache_ttl_secs: u64,
    pub fail_open: bool,
}

impl Default for AdblockConfig {
    fn default() -> (r: Self)
        ensures
            r.enabled is None,
            r.lists@.len() == 0,
            r.cache_dir is None,
            r.update_interval_hours == DEFAULT_UPDATE_INTERVAL_HOURS,
            r.decision_cache_ttl_secs == DEFAULT_DECISION_CACHE_TTL_SECS,
            r.fail_open,
    {
        AdblockConfig {
            enabled: None,
            lists: Vec::new(),
            cache_dir: None,
            update_interval_hours: DEFAULT_UPDATE_INTERVAL_HOURS,
            decision_cache_ttl_secs: DEFAULT_DECISION_CACHE_TTL_SECS,
            fail_open: true,
        }
    }
}

/// Whether a list is fetched over HTTP.
pub open spec fn is_url(source: Seq<char>) -> bool {
    begins_with(source, "http://"@) || begins_with(source, "https://"@)
}

/// Whether a list is fetched over HTTP.
pub fn is_http_url(source: &str) -> (r: bool)
    ensures
        r == is_url(source@),
{
    starts_with(source, "http://") || starts_with(source, "https://")
}

/// Where a list is found, seen from the directory `base`.
pub open spec fn resolved_source(base: Seq<char>, source: Seq<char>, home: Option<Seq<char>>) -> Seq<
    char,
> {
    if is_url(source) {
        source
    } else {
        resolved_path(base, source, home)
    }
}

fn resolve_source(base: &str, source: &str, home: Option<&str>) -> (r: String)
    ensures
        r@ == resolved_source(base@, source@, str_view(home)),
{
    if is_http_url(source) {
        source.to_owned()
    } else {
        resolve_path(base, source, home)
    }
}

impl AdblockConfig {
    /// Whether lists are given and not switched off.
    pub open spec fn active(&self) -> bool {
        self.lists@.len() > 0 && self.enabled != Some(false)
    }

    /// Whether lists are given and not switched off.
    pub fn is_active(&self) -> (r: bool)
        ensures
            r == self.active(),
    {
        let on = match self.enabled {
            Some(b) => b,
            None => self.lists.len() > 0,
        };
        on && self.lists.len() > 0
    }

    /// The same configuration with every path taken from the directory `base_dir`.
    pub fn with_base_dir(&self, base_dir: &str, home: Option<&str>) -> (r: Self)
        ensures
            r.enabled == self.enabled,
            r.update_interval_hours == self.update_interval_hours,
            r.decision_cache_ttl_secs == self.decision_cache_ttl_secs,
            r.fail_open == self.fail_open,
            opt_view(r.cache_dir) == match self.cache_dir {
                Some(p) => Some(resolved_path(base_dir@, p@, str_view(home))),
                None => None,
            },
            r.lists@.len() == self.lists@.len(),
            forall|i: int|
                0 <= i < r.lists@.len() ==> (#[trigger] r.lists@[i])@ == resolved_source(
                    base_dir@,
                    self.lists@[i]@,
                    str_view(home),
                ),
    {
        let cache_dir = match &self.cache_dir {
            Some(p) => Some(resolve_path(base_dir, p.as_str(), home)),
            None => None,
        };
        let mut lists: Vec<String> = Vec::new();
        let mut i: usize = 0;
        while i < self.lists.len()
            invariant
                i <= self.lists@.len(),
                lists@.len() == i,
                forall|k: int|
                    0 <= k < i ==> (#[trigger] lists@[k])@ == resolved_source(
                        base_dir@,
                        self.lists@[k]@,
                        str_view(home),
                    ),
            decreases self.lists@.len() - i,
        {
            lists.push(resolve_source(base_dir, self.lists[i].as_str(), home));
            i = i + 1;
        }
        AdblockConfig {
            enabled: self.enabled,
            lists,
            cache_dir,
            update_interval_hours: self.update_interval_hours,
            decision_cache_ttl_secs: self.decision_cache_ttl_secs,
            fail_open: self.fail_open,
        }
    }

    /// A copy of the configuration.
    pub fn copy(&self) -> (r: Self)
        ensures
            r.enabled == self.enabled,
            r.lists@ == self.lists@,
            r.cache_dir == self.cache_dir,
            r.update_interval_hours == self.update_interval_hours,
            r.decision_cache_ttl_secs == self.decision_cache_ttl_secs,
            r.fail_open == self.fail_open,
    {
        AdblockConfig {
            enabled: self.enabled,
            lists: clone_strings(&self.lists),
            cache_dir: clone_opt(&self.cache_dir),
            update_interval_hours: self.update_interval_hours,
            decision_cache_ttl_secs: self.decision_cache_ttl_secs,
            fail_open: self.fail_open,
        }
    }
}

// ---------------------------------------------------------------------------
// The engine

/// `adblock::lists::FilterSet`, the rules of some filter lists.
#[verifier::external_type_specification]
#[verifier::external_body]
pub struct ExFilterSet(adblock::lists::FilterSet);

/// `adblock::Engine`, which decides by the rules of some filter lists.
#[verifier::external_type_specification]
#[verifier::external_body]
pub struct ExEngine(adblock::Engine);

/// The texts of the lists whose rules a set holds.
pub uninterp spec fn filter_lists(set: adblock::lists::FilterSet) -> Seq<Seq<char>>;

/// The texts of the lists whose rules an engine goes by.
pub uninterp spec fn engine_lists(engine: adblock::Engine) -> Seq<Seq<char>>;

/// Whether a blocking rule of the lists matches a third-party request for a
/// URL, and whether an exception does.
pub uninterp spec fn list_verdict(lists: Seq<Seq<char>>, url: Seq<char>, host: Seq<char>) -> (
    bool,
    bool,
);

/// `adblock::lists::FilterSet::new` makes a set without rules.
#[verifier::external_body]
fn new_filter_set() -> (r: adblock::lists::FilterSet)
    ensures
        filter_lists(r) == Seq::<Seq<char>>::empty(),
{
    adblock::lists::FilterSet::new(false)
}

/// `adblock::lists::FilterSet::add_filter_list` adds the network rules of a list.
#[verifier::external_body]
fn add_list(set: &mut adblock::lists::FilterSet, content: &str)
    ensures
        filter_lists(*final(set)) == filter_lists(*old(set)).push(content@),
{
    let options = adblock::lists::ParseOptions {
        rule_types: adblock::lists::RuleTypes::NetworkOnly,
        ..adblock::lists::ParseOptions::default()
    };
    set.add_filter_list(content, options);
}

/// `adblock::Engine::from_filter_set` makes an engine that goes by the rules
/// of a set.
#[verifier::external_body]
fn new_engine(set: adblock::lists::FilterSet) -> (r: adblock::Engine)
    ensures
        engine_lists(r) == filter_lists(set),
{
    adblock::Engine::from_filter_set(set, true)
}

/// A host in ASCII: a capital letter stands for each byte of a character that is
/// none. Rules are anchored at hosts in ASCII without capital letters, so such a
/// rule stands in this text just where it stands in the host.
pub open spec fn masked(host: Seq<char>) -> Seq<char> {
    let b = bytes_of(host);
    Seq::new(
        b.len(),
        |i: int|
            if b[i] < 0x80 {
                b[i] as char
            } else {
                'Z'
            },
    )
}

/// Whether a text in ASCII stands for a host that occurs in a URL.
pub open spec fn hosts(url: Seq<char>, text: Seq<char>) -> bool {
    exists|host: Seq<char>| #[trigger] masked(host) == text && contains(url, host)
}

/// `adblock::Engine::check_network_request`, on a third-party request of no
/// special type: whether a blocking rule matches, and whether an exception was
/// found. The answer rests on the lists, the URL and its host. The host has to
/// occur in the URL, since the engine looks at what follows it there, and to be in
/// ASCII, since the engine cuts it at byte positions.
#[verifier::external_body]
fn check_request(engine: &adblock::Engine, url: &str, host: &str) -> (r: (bool, bool))
    requires
        hosts(url@, host@),
    ensures
        r == list_verdict(engine_lists(*engine), url@, host@),
{
    let request = adblock::request::Request::preparsed(url, host, "", "other", true);
    let result = engine.check_network_request(&request);
    (result.matched, result.exception.is_some())
}

/// The engine that goes by the given lists.
pub fn build_filter_engine(contents: &Vec<String>) -> (r: adblock::Engine)
    ensures
        engine_lists(r) == views(contents@),
{
    let mut set = new_filter_set();
    let mut i: usize = 0;
    while i < contents.len()
        invariant
            i <= contents@.len(),
            filter_lists(set) == views(contents@).take(i as int),
        decreases contents@.len() - i,
    {
        add_list(&mut set, contents[i].as_str());
        assert(views(contents@).take(i + 1) =~= views(contents@).take(i as int).push(
            contents@[i as int]@,
        ));
        i = i + 1;
    }
    assert(views(contents@).take(i as int) =~= views(contents@));
    new_engine(set)
}

/// What came of reading a list.
pub enum ListRead {
    Content(String),
    Skipped,
    Failed(Failure),
}

/// The texts of the lists that could be read.
pub open spec fn contents_of(reads: Seq<ListRead>) -> Seq<Seq<char>>
    decreases reads.len(),
{
    if reads.len() == 0 {
        seq![]
    } else {
        let before = contents_of(reads.drop_last());
        match reads.last() {
            ListRead::Content(c) => before.push(c@),
            _ => before,
        }
    }
}

/// Whether the list with number `i` is the first that failed.
pub open spec fn first_failed(reads: Seq<ListRead>, i: int) -> bool {
    &&& 0 <= i < reads.len()
    &&& reads[i] is Failed
    &&& forall|k: int| 0 <= k < i ==> !(#[trigger] reads[k] is Failed)
}

/// The engine for the lists that could be read, and their number. A list that
/// failed is passed over where the configuration says so.
pub fn load_filter_engine(reads: &Vec<ListRead>, fail_open: bool) -> (r: Result<
    Option<(adblock::Engine, usize)>,
    Failure,
>)
    ensures
        match r {
            Err(e) => !fail_open && exists|i: int| #[trigger]
                first_failed(reads@, i) && e@ == (reads@[i]->Failed_0)@,
            Ok(o) => {
                &&& fail_open || forall|k: int|
                    0 <= k < reads@.len() ==> !(#[trigger] reads@[k] is Failed)
                &&& match o {
                    None => contents_of(reads@).len() == 0,
                    Some((engine, n)) => n > 0 && n == contents_of(reads@).len() && engine_lists(
                        engine,
                    ) == contents_of(reads@),
                }
            },
        },
{
    let mut contents: Vec<String> = Vec::new();
    let mut i: usize = 0;
    while i < reads.len()
        invariant
            i <= reads@.len(),
            views(contents@) == contents_of(reads@.take(i as int)),
            fail_open || forall|k: int| 0 <= k < i ==> !(#[trigger] reads@[k] is Failed),
        decreases reads@.len() - i,
    {
        proof {
            assert(reads@.take(i + 1).drop_last() =~= reads@.take(i as int));
            assert(reads@.take(i + 1).last() == reads@[i as int]);
        }
        let ghost before = contents@;
        match &reads[i] {
            ListRead::Content(c) => {
                contents.push(c.clone());
                assert(views(contents@) =~= views(before).push(c@));
            },
            ListRead::Skipped => {},
            ListRead::Failed(e) => {
                if !fail_open {
                    let err = Failure {
                        message: e.message.clone(),
                        causes: clone_strings(&e.causes),
                    };
                    assert(err@ =~= e@);
                    assert(first_failed(reads@, i as int));
                    return Err(err);
                }
            },
        }
        i = i + 1;
    }
    assert(reads@.take(i as int) =~= reads@);
    if contents.len() == 0 {
        return Ok(None);
    }
    let loaded: usize = contents.len();
    Ok(Some((build_filter_engine(&contents), loaded)))
}

/// What reading a local list comes to, by what reading the file came to.
pub fn load_local_list(source: &str, content: Result<String, Failure>, fail_open: bool) -> (r:
    ListRead)
    ensures
        match content {
            Ok(c) => r == ListRead::Content(c),
            Err(cause) => if fail_open {
                r is Skipped
            } else {
                r matches ListRead::Failed(e) && e@ == seq!["failed to read adblock list "@
                    + source@] + cause@
            },
        },
{
    match content {
        Ok(c) => ListRead::Content(c),
        Err(cause) => if fail_open {
            ListRead::Skipped
        } else {
            ListRead::Failed(cause.context(cat("failed to read adblock list ", source).as_str()))
        },
    }
}

/// How a list that is fetched over HTTP is read next.
#[derive(Clone, Copy, Debug, PartialEq, Eq, Structural)]
pub enum UrlStep {
    /// Read the file that was kept.
    ReadCache,
    /// Download the list.
    Download,
    /// Keep the list that was downloaded, and use it.
    StoreAndUse,
    /// Read the file that was kept, though it is old.
    ReadStale,
    /// Go on without the list.
    Skip,
    /// Fail.
    Fail,
}

/// The first step for a list that is fetched over HTTP.
pub fn url_list_start(age_nanos: Option<u128>, update_interval_hours: u64) -> (r: UrlStep)
    ensures
        r == if fresh(age_nanos, update_interval_hours) {
            UrlStep::ReadCache
        } else {
            UrlStep::Download
        },
{
    if cache_is_fresh(age_nanos, update_interval_hours) {
        UrlStep::ReadCache
    } else {
        UrlStep::Download
    }
}

/// The step after a download that went well or did not.
pub fn url_list_after_download(downloaded: bool, cache_exists: bool, fail_open: bool) -> (r: UrlStep)
    ensures
        r == if downloaded {
            UrlStep::StoreAndUse
        } else if cache_exists {
            UrlStep::ReadStale
        } else if fail_open {
            UrlStep::Skip
        } else {
            UrlStep::Fail
        },
{
    if downloaded {
        UrlStep::StoreAndUse
    } else if cache_exists {
        UrlStep::ReadStale
    } else if fail_open {
        UrlStep::Skip
    } else {
        UrlStep::Fail
    }
}

/// Whether a file of the given age need not be fetched again.
pub open spec fn fresh(age_nanos: Option<u128>, update_interval_hours: u64) -> bool {
    let secs = if update_interval_hours * 3600 > u64::MAX {
        u64::MAX as int
    } else {
        update_interval_hours * 3600
    };
    update_interval_hours > 0 && age_nanos is Some && age_nanos->0 <= secs * 1_000_000_000
}

/// Whether a file of the given age need not be fetched again. There is no age
/// where there is no file, or one that was changed in the future.
pub fn cache_is_fresh(age_nanos: Option<u128>, update_interval_hours: u64) -> (r: bool)
    ensures
        r == fresh(age_nanos, update_interval_hours),
{
    if update_interval_hours == 0 {
        return false;
    }
    match age_nanos {
        None => false,
        Some(age) => {
            let secs: u64 = match update_interval_hours.checked_mul(3600) {
                Some(s) => s,
                None => u64::MAX,
            };
            age <= secs as u128 * 1_000_000_000
        },
    }
}

/// The name of the file that keeps a list.
pub open spec fn cache_name(source: Seq<char>) -> Seq<char> {
    hex_of(sha256_of(bytes_of(source))) + ".txt"@
}

/// The name of the file that keeps a list.
pub fn cache_file_name(source: &str) -> (r: String)
    ensures
        r@ == cache_name(source@),
{
    let digest = sha256(to_bytes(source).as_slice());
    cat(hex_encode(digest.as_slice()).as_str(), ".txt")
}

/// The directory in which lists are kept.
pub open spec fn default_cache_dir(
    cache_home: Option<Seq<char>>,
    home: Option<Seq<char>>,
    temp_dir: Seq<char>,
) -> Seq<char> {
    match (cache_home, home) {
        (Some(c), _) => joined_path(joined_path(c, "runnel"@), "adblock"@),
        (None, Some(h)) => joined_path(
            joined_path(joined_path(h, ".cache"@), "runnel"@),
            "adblock"@,
        ),
        (None, None) => joined_path(temp_dir, "runnel-adblock"@),
    }
}

/// The directory in which lists are kept, where none is configured.
pub fn default_adblock_cache_dir(
    cache_home: Option<&str>,
    home: Option<&str>,
    temp_dir: &str,
) -> (r: String)
    ensures
        r@ == default_cache_dir(str_view(cache_home), str_view(home), temp_dir@),
{
    match cache_home {
        Some(c) => join_path(join_path(c, "runnel").as_str(), "adblock"),
        None => match home {
            Some(h) => join_path(
                join_path(join_path(h, ".cache").as_str(), "runnel").as_str(),
                "adblock",
            ),
            None => join_path(temp_dir, "runnel-adblock"),
        },
    }
}

// ---------------------------------------------------------------------------
// Decisions

/// A domain name in the form in which names are compared.
pub open spec fn normal_domain(value: Seq<char>) -> Seq<char> {
    lower(without_trailing(value, '.'))
}

/// A domain name in the form in which names are compared.
pub fn normalize_domain(value: &str) -> (r: String)
    ensures
        r@ == normal_domain(value@),
{
    to_lower(trim_end_char(value, '.').as_str())
}

/// A decision, and until when it holds.
#[derive(Clone, Copy, Debug, PartialEq, Eq, Structural)]
pub struct CachedDecision {
    pub blocked: bool,
    pub expires_at_millis: u128,
}

/// Decides which hosts are blocked.
pub struct Adblocker {
    pub engine: Option<adblock::Engine>,
    pub cache: Vec<(String, CachedDecision)>,
    pub cache_ttl_secs: u64,
}

/// What an engine says of a host.
pub open spec fn engine_says(engine: adblock::Engine, scheme: Seq<char>, domain: Seq<char>) -> bool {
    let v = list_verdict(engine_lists(engine), scheme + "://"@ + domain + "/"@, masked(domain));
    v.0 && !v.1
}

/// A host in ASCII is put to an engine as it is.
pub proof fn ascii_is_not_masked(host: Seq<char>)
    requires
        vstd::utf8::is_ascii_chars(host),
    ensures
        masked(host) == host,
{
    vstd::utf8::is_ascii_chars_encode_utf8(host);
    let b = bytes_of(host);
    assert forall|i: int| 0 <= i < host.len() implies masked(host)[i] == host[i] by {
        assert(host[i] as u8 == b[i]);
        assert((host[i] as u32) < 128);
    }
    assert(masked(host) =~= host);
}

fn mask(host: &str) -> (r: String)
    ensures
        r@ == masked(host@),
{
    let b = to_bytes(host);
    let mut out = String::new();
    let mut i: usize = 0;
    assert(out@ =~= masked(host@).take(0));
    while i < b.len()
        invariant
            i <= b@.len(),
            b@ == bytes_of(host@),
            out@ == masked(host@).take(i as int),
        decreases b@.len() - i,
    {
        if b[i] < 0x80 {
            out.push(b[i] as char);
        } else {
            out.push('Z');
        }
        assert(masked(host@).take(i + 1) =~= masked(host@).take(i as int).push(
            masked(host@)[i as int],
        ));
        i = i + 1;
    }
    assert(masked(host@).take(i as int) =~= masked(host@));
    out
}

/// The key under which the decision on a host is kept.
pub open spec fn decision_key(scheme: Seq<char>, domain: Seq<char>) -> Seq<char> {
    scheme + "://"@ + normal_domain(domain)
}

impl Adblocker {
    /// Whether there can be a decision on a host: it has a name, which is not
    /// an address.
    pub open spec fn applies_to(domain: Seq<char>) -> bool {
        normal_domain(domain).len() > 0 && ip_value(normal_domain(domain)) is None
    }

    /// The decision that is kept on a host and still holds.
    pub open spec fn kept(&self, scheme: Seq<char>, domain: Seq<char>, now: u64) -> Option<bool> {
        match value_of(self.cache@, decision_key(scheme, domain)) {
            Some(c) => if c.expires_at_millis > now {
                Some(c.blocked)
            } else {
                None
            },
            None => None,
        }
    }

    /// Whether a host is blocked.
    pub open spec fn blocks(&self, scheme: Seq<char>, domain: Seq<char>, now: u64) -> bool {
        if !Adblocker::applies_to(domain) {
            false
        } else {
            match (self.kept(scheme, domain, now), self.engine) {
                (Some(b), _) => b,
                (None, Some(e)) => engine_says(e, scheme, normal_domain(domain)),
                (None, None) => false,
            }
        }
    }

    /// Whether a question is put to the engine, and its answer kept.
    pub open spec fn asks(&self, scheme: Seq<char>, domain: Seq<char>, now: u64) -> bool {
        &&& Adblocker::applies_to(domain)
        &&& self.kept(scheme, domain, now) is None
        &&& self.engine is Some
    }

    /// Whether `next` is this value after a question: nothing changes but that
    /// an answer of the engine is kept.
    pub open spec fn after(
        &self,
        next: &Adblocker,
        scheme: Seq<char>,
        domain: Seq<char>,
        now: u64,
    ) -> bool {
        &&& next.engine == self.engine
        &&& next.cache_ttl_secs == self.cache_ttl_secs
        &&& forall|k: Seq<char>| #[trigger]
            value_of(next.cache@, k) == if self.asks(scheme, domain, now) && k == decision_key(
                scheme,
                domain,
            ) {
                Some(
                    CachedDecision {
                        blocked: self.blocks(scheme, domain, now),
                        expires_at_millis: (now + self.cache_ttl_secs * 1000) as u128,
                    },
                )
            } else {
                value_of(self.cache@, k)
            }
    }

    /// What decides for an active configuration, before its lists are loaded.
    pub fn from_config(config: &AdblockConfig) -> (r: Option<Self>)
        ensures
            r is Some <==> config.active(),
            r matches Some(a) ==> a.engine is None && a.cache@.len() == 0 && a.cache_ttl_secs
                == config.decision_cache_ttl_secs,
    {
        if !config.is_active() {
            return None;
        }
        Some(
            Adblocker {
                engine: None,
                cache: Vec::new(),
                cache_ttl_secs: config.decision_cache_ttl_secs,
            },
        )
    }

    /// What decides by the given lists.
    pub fn from_lists(contents: &Vec<String>) -> (r: Self)
        ensures
            r.engine matches Some(e) && engine_lists(e) == views(contents@),
            r.cache@.len() == 0,
            r.cache_ttl_secs == DEFAULT_DECISION_CACHE_TTL_SECS,
    {
        Adblocker {
            engine: Some(build_filter_engine(contents)),
            cache: Vec::new(),
            cache_ttl_secs: DEFAULT_DECISION_CACHE_TTL_SECS,
        }
    }

    /// Takes over an engine, and forgets what was decided without it.
    pub fn install(&mut self, engine: adblock::Engine)
        ensures
            final(self).engine == Some(engine),
            final(self).cache@.len() == 0,
            final(self).cache_ttl_secs == old(self).cache_ttl_secs,
    {
        self.engine = Some(engine);
        self.cache = Vec::new();
    }

    fn check_domain(&self, domain: &str, scheme: &str) -> (r: Option<bool>)
        ensures
            r == match self.engine {
                Some(e) => Some(engine_says(e, scheme@, domain@)),
                None => None,
            },
    {
        match &self.engine {
            None => None,
            Some(engine) => {
                let url = cat(cat3(scheme, "://", domain).as_str(), "/");
                proof {
                    let at = (scheme@ + "://"@).len() as int;
                    assert(url@.subrange(at, at + domain@.len()) =~= domain@);
                    assert(occurs_at(url@, domain@, at));
                    assert(contains(url@, domain@) && masked(domain@) == masked(domain@));
                }
                let host = mask(domain);
                let (matched, excepted) = check_request(engine, url.as_str(), host.as_str());
                Some(matched && !excepted)
            },
        }
    }

    /// Whether a host is blocked for requests with the given scheme.
    pub fn blocks_domain_with_scheme(&mut self, domain: &str, scheme: &str, now: u64) -> (r: bool)
        ensures
            r == old(self).blocks(scheme@, domain@, now),
            old(self).after(final(self), scheme@, domain@, now),
    {
        let domain = normalize_domain(domain);
        if domain.as_str().is_empty() || parse_ip(domain.as_str()).is_some() {
            return false;
        }
        let key = cat3(scheme, "://", domain.as_str());
        match position(&self.cache, key.as_str()) {
            Some(i) => {
                let cached = self.cache[i].1;
                if cached.expires_at_millis > now as u128 {
                    return cached.blocked;
                }
            },
            None => {},
        }
        match self.check_domain(domain.as_str(), scheme) {
            None => false,
            Some(blocked) => {
                let expires_at_millis: u128 = now as u128 + self.cache_ttl_secs as u128 * 1000;
                put(&mut self.cache, key, CachedDecision { blocked, expires_at_millis });
                blocked
            },
        }
    }

    /// Whether a host is blocked for requests over TLS.
    pub fn blocks_domain(&mut self, domain: &str, now: u64) -> (r: bool)
        ensures
            r == old(self).blocks("https"@, domain@, now),
            old(self).after(final(self), "https"@, domain@, now),
    {
        self.blocks_domain_with_scheme(domain, "https", now)
    }

    /// Whether a target is blocked: a host by its name, with the scheme that
    /// its port suggests, and an address never.
    pub fn blocks_target(&mut self, target: &TargetAddr, now: u64) -> (r: bool)
        ensures
            r == blocks_view(*old(self), target@, now),
            match target@ {
                TargetView::Domain(d, p) => old(self).after(final(self), scheme_of(p), d, now),
                TargetView::Ip(_, _) => *final(self) == *old(self),
            },
    {
        match target {
            TargetAddr::Domain(host, port) => {
                let scheme = if *port == 80 {
                    "http"
                } else {
                    "https"
                };
                self.blocks_domain_with_scheme(host.as_str(), scheme, now)
            },
            TargetAddr::Ip(_, _) => false,
        }
    }
}

/// The scheme that a port suggests.
pub open spec fn scheme_of(port: u16) -> Seq<char> {
    if port == 80 {
        "http"@
    } else {
        "https"@
    }
}

/// Whether a target is blocked.
pub open spec fn blocks_view(a: Adblocker, target: TargetView, now: u64) -> bool {
    match target {
        TargetView::Domain(d, p) => a.blocks(scheme_of(p), d, now),
        TargetView::Ip(_, _) => false,
    }
}

/// An answer of the engine is given again for as long as it is kept, whatever
/// the engine would say by then.
pub proof fn decisions_are_kept(
    before: Adblocker,
    after: Adblocker,
    scheme: Seq<char>,
    domain: Seq<char>,
    now: u64,
    later: u64,
)
    requires
        before.asks(scheme, domain, now),
        before.after(&after, scheme, domain, now),
        later < now + before.cache_ttl_secs * 1000,
    ensures
        after.blocks(scheme, domain, later) == before.blocks(scheme, domain, now),
{
    assert(value_of(after.cache@, decision_key(scheme, domain)) is Some);
}

/// Nothing is blocked before lists are loaded.
pub proof fn nothing_is_blocked_without_lists(
    a: Adblocker,
    scheme: Seq<char>,
    domain: Seq<char>,
    now: u64,
)
    requires
        a.engine is None,
        a.cache@.len() == 0,
    ensures
        !a.blocks(scheme, domain, now),
{
}

// ---------------------------------------------------------------------------
// Laws

/// What is made of lists blocks a host just where a rule of them names it and no
/// exception does, and answers the same for the name with a dot at its end.
pub proof fn lists_decide_on_hosts(
    contents: &Vec<String>,
    blocker: Adblocker,
    asked: &mut Adblocker,
    domain: &str,
    scheme: &str,
    now: u64,
    r: bool,
)
    requires
        call_ensures(Adblocker::from_lists, (contents,), blocker),
        *old(asked) == blocker,
        domain@.len() > 0,
        domain@.last() != '.',
        lower(domain@) == domain@,
        vstd::utf8::is_ascii_chars(domain@),
        ip_value(domain@) is None,
        call_ensures(Adblocker::blocks_domain_with_scheme, (asked, domain, scheme, now), r),
    ensures
        ({
            let said = list_verdict(
                views(contents@),
                scheme@ + "://"@ + domain@ + "/"@,
                domain@,
            );
            r <==> said.0 && !said.1
        }),
{
    assert(normal_domain(domain@) == domain@);
    ascii_is_not_masked(domain@);
    assert(value_of(blocker.cache@, decision_key(scheme@, domain@)) is None);
}

/// An engine that is installed decides from then on: nothing that was decided before
/// is kept, and the lists of the engine are asked.
pub proof fn installed_engines_decide(
    blocker: &mut Adblocker,
    engine: adblock::Engine,
    asked: &mut Adblocker,
    domain: &str,
    scheme: &str,
    now: u64,
    r: bool,
)
    requires
        call_ensures(Adblocker::install, (blocker, engine), ()),
        *old(asked) == *final(blocker),
        domain@.len() > 0,
        domain@.last() != '.',
        lower(domain@) == domain@,
        vstd::utf8::is_ascii_chars(domain@),
        ip_value(domain@) is None,
        call_ensures(Adblocker::blocks_domain_with_scheme, (asked, domain, scheme, now), r),
    ensures
        ({
            let said = list_verdict(
                engine_lists(engine),
                scheme@ + "://"@ + domain@ + "/"@,
                domain@,
            );
            r <==> said.0 && !said.1
        }),
{
    assert(normal_domain(domain@) == domain@);
    ascii_is_not_masked(domain@);
    assert(value_of(final(blocker).cache@, decision_key(scheme@, domain@)) is None);
}

/// Before an engine is installed nothing is blocked.
pub proof fn nothing_is_blocked_at_first(
    config: &AdblockConfig,
    made: Option<Adblocker>,
    blocker: &mut Adblocker,
    target: &TargetAddr,
    now: u64,
    r: bool,
)
    requires
        call_ensures(Adblocker::from_config, (config,), made),
        made matches Some(a) ==> *old(blocker) == a && call_ensures(
            Adblocker::blocks_target,
            (blocker, target, now),
            r,
        ),
    ensures
        made is Some <==> config.lists@.len() > 0 && config.enabled != Some(false),
        made is Some ==> !r,
{
    if made is Some {
        if let TargetAddr::Domain(d, p) = target {
            nothing_is_blocked_without_lists(*old(blocker), scheme_of(*p), d@, now);
        }
    }
}

/// An answer stays for the time that answers are kept, and a name gets the answer of
/// its other spellings.
pub proof fn answers_stay_for_a_while(
    blocker: &mut Adblocker,
    domain: &str,
    scheme: &str,
    now: u64,
    r: bool,
    asked: &mut Adblocker,
    spelling: &str,
    later: u64,
    again: bool,
)
    requires
        old(blocker).engine is Some,
        call_ensures(Adblocker::blocks_domain_with_scheme, (blocker, domain, scheme, now), r),
        *old(asked) == *final(blocker),
        normal_domain(spelling@) == normal_domain(domain@),
        now <= later < now + old(blocker).cache_ttl_secs * 1000,
        old(blocker).cache@.len() == 0,
        call_ensures(Adblocker::blocks_domain_with_scheme, (asked, spelling, scheme, later), again),
    ensures
        again == r,
{
    assert(value_of(old(blocker).cache@, decision_key(scheme@, domain@)) is None);
    assert(decision_key(scheme@, domain@) == decision_key(scheme@, spelling@));
    assert(value_of(final(blocker).cache@, decision_key(scheme@, domain@)) is Some
        || !Adblocker::applies_to(domain@));
}

/// A name is compared without regard to its case and to dots at its end.
pub proof fn spellings_of_a_name_are_one(domain: &str, name: Seq<char>, r: String)
    requires
        call_ensures(normalize_domain, (domain,), r),
        domain@ == name.push('.') || domain@ == name,
        name.len() > 0,
        name.last() != '.',
    ensures
        r@ == lower(name),
{
    if domain@ == name.push('.') {
        assert(domain@.drop_last() =~= name);
    }
    reveal_with_fuel(without_trailing, 3);
}

/// A target is asked for by its name, with the scheme of its port; an address is
/// never blocked, written as a name or not.
pub proof fn targets_are_asked_for_by_name(
    blocker: &mut Adblocker,
    host: String,
    port: u16,
    now: u64,
    r: bool,
    plain: &mut Adblocker,
    name: &str,
    by_http: bool,
    secure: &mut Adblocker,
    by_https: bool,
    addressed: &mut Adblocker,
    ip: IpAddr,
    by_ip: bool,
)
    requires
        call_ensures(Adblocker::blocks_target, (blocker, &TargetAddr::Domain(host, port), now), r),
        name@ == host@,
        *old(plain) == *old(blocker),
        call_ensures(Adblocker::blocks_domain_with_scheme, (plain, name, "http", now), by_http),
        *old(secure) == *old(blocker),
        call_ensures(Adblocker::blocks_domain, (secure, name, now), by_https),
        call_ensures(Adblocker::blocks_target, (addressed, &TargetAddr::Ip(ip, port), now), by_ip),
    ensures
        port == 80 ==> r == by_http,
        port != 80 ==> r == by_https,
        !by_ip,
        *final(addressed) == *old(addressed),
        ip_value(normal_domain(host@)) is Some ==> !r,
        normal_domain(host@).len() == 0 ==> !r,
{
}

/// An engine goes by every list that was read. A list that could not be read fails
/// the whole, unless that is to be passed over.
pub proof fn lists_that_were_read_are_used(
    reads: &Vec<ListRead>,
    fail_open: bool,
    i: int,
    text: Seq<char>,
    r: Result<Option<(adblock::Engine, usize)>, Failure>,
)
    requires
        0 <= i < reads@.len(),
        call_ensures(load_filter_engine, (reads, fail_open), r),
    ensures
        reads@[i] is Failed && !fail_open ==> r is Err,
        fail_open ==> r is Ok,
        reads@[i] matches ListRead::Content(c) ==> r is Err || (r matches Ok(Some((e, n))) && n > 0
            && engine_lists(e).contains(c@)),
        r matches Ok(Some((e, n))) ==> n == engine_lists(e).len() && (engine_lists(e).contains(text)
            ==> exists|k: int|
            0 <= k < reads@.len() && (#[trigger] reads@[k] matches ListRead::Content(c) && c@
                == text)),
{
    if reads@[i] is Content {
        lemma_contents(reads@, i);
    }
    if r is Ok {
        lemma_from_contents(reads@, text);
    }
}

proof fn lemma_contents(reads: Seq<ListRead>, i: int)
    requires
        0 <= i < reads.len(),
        reads[i] is Content,
    ensures
        contents_of(reads).contains((reads[i]->Content_0)@),
    decreases reads.len(),
{
    let all = contents_of(reads);
    let before = contents_of(reads.drop_last());
    let c = (reads[i]->Content_0)@;
    if i == reads.len() - 1 {
        assert(all[before.len() as int] == c);
    } else {
        assert(reads.drop_last()[i] == reads[i]);
        lemma_contents(reads.drop_last(), i);
        let k = choose|k: int| 0 <= k < before.len() && before[k] == c;
        assert(all[k] == c);
    }
}

proof fn lemma_from_contents(reads: Seq<ListRead>, text: Seq<char>)
    ensures
        contents_of(reads).contains(text) ==> exists|k: int|
            0 <= k < reads.len() && (#[trigger] reads[k] matches ListRead::Content(c) && c@ == text),
    decreases reads.len(),
{
    let all = contents_of(reads);
    if reads.len() > 0 && all.contains(text) {
        let before = contents_of(reads.drop_last());
        let k = choose|k: int| 0 <= k < all.len() && all[k] == text;
        if k < before.len() {
            assert(before[k] == text);
            assert(before.contains(text));
            lemma_from_contents(reads.drop_last(), text);
            let j = choose|j: int|
                0 <= j < reads.drop_last().len() && (#[trigger] reads.drop_last()[j]
                    matches ListRead::Content(c) && c@ == text);
            assert(reads[j] == reads.drop_last()[j]);
        } else {
            assert(reads[reads.len() - 1] is Content);
        }
    }
}

/// A list of a file is its content; one that cannot be read is passed over or fails
/// with its cause, as is wanted.
pub proof fn local_lists_are_read(
    source: &str,
    content: Result<String, Failure>,
    open: ListRead,
    closed: ListRead,
)
    requires
        call_ensures(load_local_list, (source, content, true), open),
        call_ensures(load_local_list, (source, content, false), closed),
    ensures
        content matches Ok(c) ==> open == ListRead::Content(c) && closed == ListRead::Content(c),
        content matches Err(cause) ==> open is Skipped && (closed matches ListRead::Failed(e)
            && e@.len() == cause@.len() + 1 && e@.skip(1) == cause@),
{
    if let Err(cause) = content {
        if let ListRead::Failed(e) = closed {
            assert(e@.skip(1) =~= cause@);
        }
    }
}

/// A list that was kept is used while it is younger than the interval, and one that
/// is older is fetched again; an interval of nothing fetches always. Where that
/// fails, the old one is used, and where there is none, the list is left out or the
/// whole fails.
pub proof fn kept_lists_are_used_for_the_interval(
    hours: u64,
    age_nanos: u128,
    start: UrlStep,
    without: UrlStep,
    downloaded: bool,
    cache_exists: bool,
    fail_open: bool,
    after: UrlStep,
)
    requires
        hours <= 1_000_000,
        call_ensures(url_list_start, (Some(age_nanos), hours), start),
        call_ensures(url_list_start, (None, hours), without),
        call_ensures(url_list_after_download, (downloaded, cache_exists, fail_open), after),
    ensures
        start == UrlStep::ReadCache <==> hours > 0 && age_nanos <= hours * 3_600_000_000_000,
        start == UrlStep::ReadCache || start == UrlStep::Download,
        without == UrlStep::Download,
        after == UrlStep::StoreAndUse <==> downloaded,
        after == UrlStep::ReadStale <==> !downloaded && cache_exists,
        after == UrlStep::Skip <==> !downloaded && !cache_exists && fail_open,
        after == UrlStep::Fail <==> !downloaded && !cache_exists && !fail_open,
{
}

/// A configuration that is taken from a directory keeps everything but its paths;
/// each of its lists stays in its place, a URL as it is, any other as the path in
/// that directory.
pub proof fn lists_are_taken_from_the_directory(
    config: &AdblockConfig,
    base_dir: &str,
    home: Option<&str>,
    r: AdblockConfig,
    i: int,
    list: &str,
    path: String,
    url: bool,
)
    requires
        call_ensures(AdblockConfig::with_base_dir, (config, base_dir, home), r),
        0 <= i < config.lists@.len(),
        list@ == config.lists@[i]@,
        call_ensures(resolve_path, (base_dir, list, home), path),
        call_ensures(is_http_url, (list,), url),
    ensures
        r.lists@.len() == config.lists@.len(),
        r.lists@[i]@ == (if url {
            list@
        } else {
            path@
        }),
        url <==> begins_with(list@, "http://"@) || begins_with(list@, "https://"@),
        r.enabled == config.enabled,
        r.update_interval_hours == config.update_interval_hours,
        r.decision_cache_ttl_secs == config.decision_cache_ttl_secs,
        r.fail_open == config.fail_open,
        r.cache_dir is Some <==> config.cache_dir is Some,
{
}

/// An answer of the lists is kept for the seconds that were set, and no longer: until
/// then it is given without asking them, and from then on they are asked again.
pub proof fn answers_are_kept_for_their_seconds(
    blocker: &mut Adblocker,
    domain: &str,
    scheme: &str,
    now: u64,
    r: bool,
    changed: &mut Adblocker,
    later: u64,
    again: bool,
)
    requires
        old(blocker).engine is Some,
        old(blocker).cache@.len() == 0,
        domain@.len() > 0,
        domain@.last() != '.',
        lower(domain@) == domain@,
        vstd::utf8::is_ascii_chars(domain@),
        ip_value(domain@) is None,
        call_ensures(Adblocker::blocks_domain_with_scheme, (blocker, domain, scheme, now), r),
        old(changed).engine is None,
        old(changed).cache@ == final(blocker).cache@,
        call_ensures(Adblocker::blocks_domain_with_scheme, (changed, domain, scheme, later), again),
    ensures
        later < now + old(blocker).cache_ttl_secs * 1000 ==> again == r,
        later >= now + old(blocker).cache_ttl_secs * 1000 ==> !again,
{
    assert(normal_domain(domain@) == domain@);
    assert(value_of(old(blocker).cache@, decision_key(scheme@, domain@)) is None);
    assert(value_of(final(blocker).cache@, decision_key(scheme@, domain@)) is Some);
}

} // verus!
