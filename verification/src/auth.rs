//! Proofs that a request comes from a holder of the shared password, and
//! protection against their replay.

use vstd::prelude::*;
use crate::bytes::same_bytes;
use crate::crypto::{
    base64url_decode, base64url_decoded, base64url_encode, base64url_of, base64url_stands_for,
    generator_random, hmac_sha256, hmac_sha256_of, unix_seconds,
};
use crate::failure::{outcome, Failure};
use crate::num::{decimal, decimal_is_digits, signed_decimal, to_signed_decimal};
use crate::text::{
    bytes_of, find, lemma_no_char, lemma_split_after, same, split, to_bytes, to_upper, upper,
};

verus! {

/// What is told of a clock that stands before the epoch.
pub open spec fn clock_fault(cause: Seq<char>) -> Seq<Seq<char>> {
    seq!["system clock before unix epoch"@, cause]
}

/// What is told where no random bytes can be had.
pub open spec fn nonce_fault(cause: Seq<char>) -> Seq<Seq<char>> {
    seq!["failed to generate auth nonce"@, cause]
}

/// What is told of a proof whose tag is not that of its request.
pub open spec fn mismatch() -> Seq<Seq<char>> {
    seq!["signature mismatch"@]
}

/// What a client sends to prove that it knows the password.
#[derive(Clone, Debug)]
pub struct AuthProof {
    pub timestamp: i64,
    pub nonce: String,
    pub signature: String,
}

/// What a proof says.
#[verifier::ext_equal]
pub struct ProofView {
    pub timestamp: int,
    pub nonce: Seq<char>,
    pub signature: Seq<char>,
}

impl View for AuthProof {
    type V = ProofView;

    open spec fn view(&self) -> ProofView {
        ProofView {
            timestamp: self.timestamp as int,
            nonce: self.nonce@,
            signature: self.signature@,
        }
    }
}

/// The text that is signed: the method in upper case, the path, the target, the
/// timestamp and the nonce, each on a line of its own.
pub open spec fn signature_text(
    method: Seq<char>,
    path: Seq<char>,
    target: Seq<char>,
    timestamp: int,
    nonce: Seq<char>,
) -> Seq<char> {
    upper(method) + "\n"@ + path + "\n"@ + target + "\n"@ + signed_decimal(timestamp) + "\n"@
        + nonce + "\n"@
}

/// The tag of a request under a password.
pub open spec fn tag_of(
    password: Seq<char>,
    method: Seq<char>,
    path: Seq<char>,
    target: Seq<char>,
    timestamp: int,
    nonce: Seq<char>,
) -> Seq<u8> {
    hmac_sha256_of(
        bytes_of(password),
        bytes_of(signature_text(method, path, target, timestamp, nonce)),
    )
}

/// Whether a proof carries the tag of a request.
pub open spec fn carries(proof: ProofView, tag: Seq<u8>) -> bool {
    base64url_stands_for(bytes_of(proof.signature), tag)
}

/// The text that is signed.
pub fn signature_input(method: &str, path: &str, target: &str, timestamp: i64, nonce: &str) -> (r:
    String)
    ensures
        r@ == signature_text(method@, path@, target@, timestamp as int, nonce@),
{
    let mut s: String = to_upper(method);
    s.append("\n");
    s.append(path);
    s.append("\n");
    s.append(target);
    s.append("\n");
    s.append(to_signed_decimal(timestamp).as_str());
    s.append("\n");
    s.append(nonce);
    s.append("\n");
    s
}

/// The tag of a request, in URL-safe base64.
pub fn sign(
    password: &str,
    method: &str,
    path: &str,
    target: &str,
    timestamp: i64,
    nonce: &str,
) -> (r: String)
    ensures
        ({
            let tag = tag_of(password@, method@, path@, target@, timestamp as int, nonce@);
            &&& r@ == base64url_of(tag)
            &&& base64url_stands_for(bytes_of(r@), tag)
        }),
{
    let input = signature_input(method, path, target, timestamp, nonce);
    let tag = hmac_sha256(to_bytes(password).as_slice(), to_bytes(input.as_str()).as_slice());
    base64url_encode(tag.as_slice())
}

/// What the clock gave.
pub open spec fn clock_view(clock: Result<i64, String>) -> Result<i64, Seq<char>> {
    match clock {
        Ok(t) => Ok(t),
        Err(e) => Err(e@),
    }
}

/// What a source of random bytes gave.
pub open spec fn bytes_view(random: Result<Vec<u8>, String>) -> Result<Seq<u8>, Seq<char>> {
    match random {
        Ok(b) => Ok(b@),
        Err(e) => Err(e@),
    }
}

/// Whether a source of random bytes that was asked for `n` may have given this.
pub open spec fn drawn(random: Result<Seq<u8>, Seq<char>>, n: nat) -> bool {
    random matches Ok(b) ==> b.len() == n
}

/// The proof for a request, for what the clock and the source of random bytes
/// gave: without the time or the bytes there is none.
pub open spec fn proof_with(
    password: Seq<char>,
    method: Seq<char>,
    path: Seq<char>,
    target: Seq<char>,
    clock: Result<i64, Seq<char>>,
    random: Result<Seq<u8>, Seq<char>>,
) -> Result<ProofView, Seq<Seq<char>>> {
    match (clock, random) {
        (Err(cause), _) => Err(clock_fault(cause)),
        (Ok(_), Err(cause)) => Err(nonce_fault(cause)),
        (Ok(t), Ok(b)) => {
            let nonce = base64url_of(b);
            let tag = tag_of(password, method, path, target, t as int, nonce);
            Ok(ProofView { timestamp: t as int, nonce, signature: base64url_of(tag) })
        },
    }
}

/// What a proof says, or what is told where there is none.
pub open spec fn proof_views(r: Result<AuthProof, Failure>) -> Result<ProofView, Seq<Seq<char>>> {
    match r {
        Ok(p) => Ok(p@),
        Err(e) => Err(e@),
    }
}

impl AuthProof {
    /// The proof for a request at a given time with a given nonce.
    pub fn sign_at(
        password: &str,
        method: &str,
        path: &str,
        target: &str,
        timestamp: i64,
        nonce: String,
    ) -> (r: Self)
        ensures
            r.timestamp == timestamp,
            r.nonce@ == nonce@,
            ({
                let tag = tag_of(password@, method@, path@, target@, timestamp as int, nonce@);
                r.signature@ == base64url_of(tag) && carries(r@, tag)
            }),
    {
        let signature = sign(password, method, path, target, timestamp, nonce.as_str());
        AuthProof { timestamp, nonce, signature }
    }

    /// The proof for a request, for what the clock and the source of random bytes
    /// gave.
    pub fn sign_with(
        password: &str,
        method: &str,
        path: &str,
        target: &str,
        clock: Result<i64, String>,
        random: Result<Vec<u8>, String>,
    ) -> (r: Result<Self, Failure>)
        ensures
            proof_views(r) == proof_with(
                password@,
                method@,
                path@,
                target@,
                clock_view(clock),
                bytes_view(random),
            ),
            r matches Ok(p) ==> carries(
                p@,
                tag_of(password@, method@, path@, target@, p.timestamp as int, p.nonce@),
            ),
    {
        match clock {
            Err(cause) => Err(Failure::caused("system clock before unix epoch", cause.as_str())),
            Ok(timestamp) => match random {
                Err(cause) => Err(Failure::caused("failed to generate auth nonce", cause.as_str())),
                Ok(b) => Ok(
                    AuthProof::sign_at(
                        password,
                        method,
                        path,
                        target,
                        timestamp,
                        base64url_encode(b.as_slice()),
                    ),
                ),
            },
        }
    }

    /// The proof for a request now, with a fresh nonce of 16 random bytes.
    pub fn sign(password: &str, method: &str, path: &str, target: &str) -> (r: Result<
        Self,
        Failure,
    >)
        ensures
            match r {
                Ok(p) => {
                    let tag = tag_of(
                        password@,
                        method@,
                        path@,
                        target@,
                        p.timestamp as int,
                        p.nonce@,
                    );
                    &&& p.signature@ == base64url_of(tag)
                    &&& carries(p@, tag)
                    &&& exists|b: Seq<u8>| b.len() == 16 && p.nonce@ == #[trigger] base64url_of(b)
                },
                Err(e) => exists|cause: Seq<char>|
                    e@ == #[trigger] clock_fault(cause) || e@ == nonce_fault(cause),
            },
            exists|clock: Result<i64, Seq<char>>, random: Result<Seq<u8>, Seq<char>>|
                drawn(random, 16) && proof_views(r) == #[trigger] proof_with(
                    password@,
                    method@,
                    path@,
                    target@,
                    clock,
                    random,
                ),
    {
        let clock = unix_seconds();
        let random = match &clock {
            Ok(_) => generator_random(16),
            Err(_) => Err(String::new()),
        };
        let ghost c = clock_view(clock);
        let ghost b = bytes_view(random);
        let r = AuthProof::sign_with(password, method, path, target, clock, random);
        assert(drawn(b, 16) && proof_views(r) == proof_with(
            password@,
            method@,
            path@,
            target@,
            c,
            b,
        ));
        proof {
            if c is Err {
                assert(clock_fault(c->Err_0) == clock_fault(c->Err_0));
            } else if b is Err {
                assert(clock_fault(b->Err_0) == clock_fault(b->Err_0));
            }
        }
        r
    }
}

// ---------------------------------------------------------------------------
// Replay protection

/// The nonces that were accepted, each with its timestamp.
pub open spec fn memory_of(v: Seq<(String, i64)>) -> Seq<(Seq<char>, int)> {
    v.map_values(|e: (String, i64)| (e.0@, e.1 as int))
}

/// Whether a nonce is remembered.
pub open spec fn knows(m: Seq<(Seq<char>, int)>, nonce: Seq<char>) -> bool {
    exists|i: int| 0 <= i < m.len() && (#[trigger] m[i]).0 == nonce
}

/// Whether a timestamp lies at most `ttl` seconds from `now`.
pub open spec fn in_window(now: int, timestamp: int, ttl: int) -> bool {
    -ttl <= now - timestamp <= ttl
}

/// What is wrong with a proof for a request with the given tag, if its nonce is
/// remembered or not.
pub open spec fn refusal(
    known: bool,
    ttl: int,
    now: int,
    tag: Seq<u8>,
    proof: ProofView,
) -> Option<Seq<Seq<char>>> {
    if !in_window(now, proof.timestamp, ttl) {
        Some(seq!["timestamp outside allowed window"@])
    } else if known {
        Some(seq!["nonce already used"@])
    } else {
        match base64url_decoded(bytes_of(proof.signature)) {
            Err(cause) => Some(seq!["invalid signature encoding"@, cause]),
            Ok(_) => if !carries(proof, tag) {
                Some(mismatch())
            } else {
                None
            },
        }
    }
}

/// The entries of `m` that are not older than `oldest`.
pub open spec fn kept(m: Seq<(Seq<char>, int)>, oldest: int) -> Seq<(Seq<char>, int)>
    decreases m.len(),
{
    if m.len() == 0 {
        m
    } else if m.last().1 >= oldest {
        kept(m.drop_last(), oldest).push(m.last())
    } else {
        kept(m.drop_last(), oldest)
    }
}

/// What is wrong with a proof for a request with the given tag.
pub open spec fn verdict(
    m: Seq<(Seq<char>, int)>,
    ttl: int,
    now: int,
    tag: Seq<u8>,
    proof: ProofView,
) -> Option<Seq<Seq<char>>> {
    refusal(knows(kept(m, now - ttl), proof.nonce), ttl, now, tag, proof)
}

/// What is remembered after a proof was looked at: entries that left the window
/// are forgotten, and an accepted nonce is added.
pub open spec fn remembered(
    m: Seq<(Seq<char>, int)>,
    ttl: int,
    now: int,
    tag: Seq<u8>,
    proof: ProofView,
) -> Seq<(Seq<char>, int)> {
    if !in_window(now, proof.timestamp, ttl) {
        m
    } else if verdict(m, ttl, now, tag, proof) is None {
        kept(m, now - ttl).push((proof.nonce, proof.timestamp))
    } else {
        kept(m, now - ttl)
    }
}

/// Accepts each nonce at most once while its timestamp is in the window.
#[derive(Debug)]
pub struct ReplayProtector {
    ttl_secs: u64,
    seen: Vec<(String, i64)>,
}

impl View for ReplayProtector {
    type V = Seq<(Seq<char>, int)>;

    closed spec fn view(&self) -> Seq<(Seq<char>, int)> {
        memory_of(self.seen@)
    }
}

/// Whether a timestamp lies at most `ttl` seconds from `now`.
pub(crate) fn within_window(now: i64, timestamp: i64, ttl: u64) -> (r: bool)
    ensures
        r == in_window(now as int, timestamp as int, ttl as int),
{
    let skew: i128 = now as i128 - timestamp as i128;
    skew <= ttl as i128 && -skew <= ttl as i128
}

/// Whether a nonce is among the remembered ones.
pub(crate) fn remembers(seen: &Vec<(String, i64)>, nonce: &str) -> (r: bool)
    ensures
        r == knows(memory_of(seen@), nonce@),
{
    let ghost m = memory_of(seen@);
    let mut i: usize = 0;
    while i < seen.len()
        invariant
            i <= seen@.len(),
            m == memory_of(seen@),
            forall|j: int| 0 <= j < i ==> (#[trigger] m[j]).0 != nonce@,
        decreases seen@.len() - i,
    {
        assert(m[i as int].0 == seen@[i as int].0@);
        if same(seen[i].0.as_str(), nonce) {
            return true;
        }
        i = i + 1;
    }
    false
}

impl ReplayProtector {
    /// The number of seconds that a timestamp may differ from the clock.
    pub closed spec fn ttl(&self) -> int {
        self.ttl_secs as int
    }

    /// A protector that remembers nothing yet.
    pub fn new(ttl_secs: u64) -> (r: Self)
        ensures
            r.ttl() == ttl_secs,
            r@ == Seq::<(Seq<char>, int)>::empty(),
    {
        let r = ReplayProtector { ttl_secs, seen: Vec::new() };
        assert(r@ =~= Seq::<(Seq<char>, int)>::empty());
        r
    }

    fn forget(&mut self, oldest: i128)
        ensures
            final(self)@ == kept(old(self)@, oldest as int),
            final(self).ttl() == old(self).ttl(),
    {
        let ghost m = memory_of(self.seen@);
        let mut seen: Vec<(String, i64)> = Vec::new();
        let mut i: usize = 0;
        assert(m.take(0) =~= Seq::<(Seq<char>, int)>::empty());
        assert(memory_of(seen@) =~= Seq::<(Seq<char>, int)>::empty());
        while i < self.seen.len()
            invariant
                i <= self.seen@.len(),
                m == memory_of(self.seen@),
                memory_of(seen@) == kept(m.take(i as int), oldest as int),
            decreases self.seen@.len() - i,
        {
            let ghost now = m.take(i + 1);
            assert(now.drop_last() =~= m.take(i as int));
            assert(now.last() == (self.seen@[i as int].0@, self.seen@[i as int].1 as int));
            if self.seen[i].1 as i128 >= oldest {
                let ghost before = seen@;
                seen.push((self.seen[i].0.clone(), self.seen[i].1));
                assert(memory_of(seen@) =~= memory_of(before).push(now.last()));
            }
            i = i + 1;
        }
        assert(m.take(i as int) =~= m);
        self.seen = seen;
    }

    /// Looks at a proof at a given time.
    pub fn validate_at(
        &mut self,
        now: i64,
        password: &str,
        method: &str,
        path: &str,
        target: &str,
        proof: &AuthProof,
    ) -> (r: Result<(), Failure>)
        ensures
            ({
                let tag = tag_of(
                    password@,
                    method@,
                    path@,
                    target@,
                    proof.timestamp as int,
                    proof.nonce@,
                );
                let ttl = old(self).ttl();
                &&& final(self).ttl() == ttl
                &&& outcome(r) == (match verdict(old(self)@, ttl, now as int, tag, proof@) {
                    Some(e) => Err::<(), Seq<Seq<char>>>(e),
                    None => Ok(()),
                })
                &&& final(self)@ == remembered(old(self)@, ttl, now as int, tag, proof@)
            }),
    {
        if !within_window(now, proof.timestamp, self.ttl_secs) {
            return Err(Failure::new("timestamp outside allowed window"));
        }
        self.forget(now as i128 - self.ttl_secs as i128);
        if remembers(&self.seen, proof.nonce.as_str()) {
            return Err(Failure::new("nonce already used"));
        }
        let input = signature_input(
            method,
            path,
            target,
            proof.timestamp,
            proof.nonce.as_str(),
        );
        let expected = hmac_sha256(
            to_bytes(password).as_slice(),
            to_bytes(input.as_str()).as_slice(),
        );
        match base64url_decode(to_bytes(proof.signature.as_str()).as_slice()) {
            Err(cause) => Err(Failure::caused("invalid signature encoding", cause.as_str())),
            Ok(actual) => {
                if !same_bytes(actual.as_slice(), expected.as_slice()) {
                    return Err(Failure::new("signature mismatch"));
                }
                let ghost before = self.seen@;
                self.seen.push((proof.nonce.clone(), proof.timestamp));
                assert(memory_of(self.seen@) =~= memory_of(before).push(
                    (proof.nonce@, proof.timestamp as int),
                ));
                Ok(())
            },
        }
    }

    /// Looks at a proof now.
    pub fn validate(
        &mut self,
        password: &str,
        method: &str,
        path: &str,
        target: &str,
        proof: &AuthProof,
    ) -> (r: Result<(), Failure>)
        ensures
            ({
                let tag = tag_of(
                    password@,
                    method@,
                    path@,
                    target@,
                    proof.timestamp as int,
                    proof.nonce@,
                );
                let ttl = old(self).ttl();
                &&& final(self).ttl() == ttl
                &&& {
                    ||| final(self)@ == old(self)@ && exists|cause: Seq<char>|
                        outcome(r) == Err::<(), Seq<Seq<char>>>(#[trigger] clock_fault(cause))
                    ||| exists|now: int|
                        outcome(r) == (match #[trigger] verdict(old(self)@, ttl, now, tag, proof@) {
                            Some(e) => Err::<(), Seq<Seq<char>>>(e),
                            None => Ok(()),
                        }) && final(self)@ == remembered(old(self)@, ttl, now, tag, proof@)
                }
            }),
    {
        match unix_seconds() {
            Ok(now) => self.validate_at(now, password, method, path, target, proof),
            Err(cause) => {
                assert(clock_fault(cause@) == clock_fault(cause@));
                Err(Failure::caused("system clock before unix epoch", cause.as_str()))
            },
        }
    }
}

// ---------------------------------------------------------------------------
// Laws

/// A proof that is looked at: when, for which request, and what it says.
#[verifier::ext_equal]
pub struct Attempt {
    pub now: int,
    pub tag: Seq<u8>,
    pub proof: ProofView,
}

/// What is remembered after a series of attempts.
pub open spec fn memory_after(
    m: Seq<(Seq<char>, int)>,
    ttl: int,
    attempts: Seq<Attempt>,
) -> Seq<(Seq<char>, int)>
    decreases attempts.len(),
{
    if attempts.len() == 0 {
        m
    } else {
        let before = memory_after(m, ttl, attempts.drop_last());
        let a = attempts.last();
        remembered(before, ttl, a.now, a.tag, a.proof)
    }
}

/// Whether the attempt with number `k` in a series is accepted.
pub open spec fn accepted(
    m: Seq<(Seq<char>, int)>,
    ttl: int,
    attempts: Seq<Attempt>,
    k: int,
) -> bool {
    let a = attempts[k];
    verdict(memory_after(m, ttl, attempts.take(k)), ttl, a.now, a.tag, a.proof) is None
}

proof fn lemma_kept_contains(m: Seq<(Seq<char>, int)>, oldest: int, e: (Seq<char>, int))
    requires
        m.contains(e),
        e.1 >= oldest,
    ensures
        kept(m, oldest).contains(e),
    decreases m.len(),
{
    let i = choose|i: int| 0 <= i < m.len() && m[i] == e;
    let rest = kept(m.drop_last(), oldest);
    if i == m.len() - 1 {
        let k = kept(m, oldest);
        assert(k.last() == e);
        assert(k[k.len() - 1] == e);
    } else {
        assert(m.drop_last()[i] == e);
        lemma_kept_contains(m.drop_last(), oldest, e);
        let j = choose|j: int| 0 <= j < rest.len() && rest[j] == e;
        if m.last().1 >= oldest {
            assert(kept(m, oldest)[j] == e);
        }
    }
}

proof fn lemma_still_remembered(
    m: Seq<(Seq<char>, int)>,
    ttl: int,
    attempts: Seq<Attempt>,
    i: int,
    k: int,
    latest: int,
)
    requires
        0 <= i < k <= attempts.len(),
        accepted(m, ttl, attempts, i),
        forall|x: int| i < x < k ==> (#[trigger] attempts[x]).now <= latest,
        in_window(latest, attempts[i].proof.timestamp, ttl),
    ensures
        memory_after(m, ttl, attempts.take(k)).contains(
            (attempts[i].proof.nonce, attempts[i].proof.timestamp),
        ),
    decreases k,
{
    let e = (attempts[i].proof.nonce, attempts[i].proof.timestamp);
    let before = attempts.take(k - 1);
    assert(attempts.take(k).drop_last() =~= before);
    assert(attempts.take(k).last() == attempts[k - 1]);
    let mem = memory_after(m, ttl, before);
    let a = attempts[k - 1];
    let after = remembered(mem, ttl, a.now, a.tag, a.proof);
    if i == k - 1 {
        assert(in_window(a.now, a.proof.timestamp, ttl));
        assert(after.last() == e);
        assert(after[after.len() - 1] == e);
    } else {
        lemma_still_remembered(m, ttl, attempts, i, k - 1, latest);
        if in_window(a.now, a.proof.timestamp, ttl) {
            lemma_kept_contains(mem, a.now - ttl, e);
            let kk = kept(mem, a.now - ttl);
            let j = choose|j: int| 0 <= j < kk.len() && kk[j] == e;
            assert(after[j] == e);
        }
    }
}

/// A proof that was accepted is not accepted again, unless the clock was ahead in
/// between.
pub proof fn no_proof_is_accepted_twice(
    m: Seq<(Seq<char>, int)>,
    ttl: int,
    attempts: Seq<Attempt>,
    i: int,
    j: int,
)
    requires
        0 <= i < j < attempts.len(),
        forall|x: int| i < x < j ==> (#[trigger] attempts[x]).now <= attempts[j].now,
        attempts[i].proof == attempts[j].proof,
        accepted(m, ttl, attempts, i),
    ensures
        !accepted(m, ttl, attempts, j),
{
    let a = attempts[j];
    if in_window(a.now, a.proof.timestamp, ttl) {
        lemma_still_remembered(m, ttl, attempts, i, j, a.now);
        let mem = memory_after(m, ttl, attempts.take(j));
        let e = (a.proof.nonce, a.proof.timestamp);
        lemma_kept_contains(mem, a.now - ttl, e);
        let kk = kept(mem, a.now - ttl);
        let x = choose|x: int| 0 <= x < kk.len() && kk[x] == e;
        assert(kk[x].0 == a.proof.nonce);
    }
}

/// A proof that carries the tag of its request is accepted while its timestamp
/// is in the window and its nonce is not remembered.
pub proof fn a_signed_proof_is_accepted(
    m: Seq<(Seq<char>, int)>,
    ttl: int,
    now: int,
    tag: Seq<u8>,
    proof: ProofView,
)
    requires
        carries(proof, tag),
        in_window(now, proof.timestamp, ttl),
        !knows(kept(m, now - ttl), proof.nonce),
    ensures
        verdict(m, ttl, now, tag, proof) is None,
{
}

/// The case of the method does not matter to the tag.
pub proof fn method_case_does_not_matter(
    password: Seq<char>,
    m1: Seq<char>,
    m2: Seq<char>,
    path: Seq<char>,
    target: Seq<char>,
    timestamp: int,
    nonce: Seq<char>,
)
    requires
        upper(m1) == upper(m2),
    ensures
        tag_of(password, m1, path, target, timestamp, nonce) == tag_of(
            password,
            m2,
            path,
            target,
            timestamp,
            nonce,
        ),
{
}

/// A proof for a request is accepted by a server with the same password for that
/// request, while its time is in the window, and not a second time.
pub proof fn signed_requests_are_accepted_once(
    password: &str,
    method: &str,
    path: &str,
    target: &str,
    timestamp: i64,
    nonce: String,
    signed: AuthProof,
    ttl_secs: u64,
    fresh: ReplayProtector,
    replay: &mut ReplayProtector,
    now: i64,
    r: Result<(), Failure>,
    after: &mut ReplayProtector,
    later: i64,
    again: Result<(), Failure>,
)
    requires
        call_ensures(AuthProof::sign_at, (password, method, path, target, timestamp, nonce), signed),
        call_ensures(ReplayProtector::new, (ttl_secs,), fresh),
        *old(replay) == fresh,
        call_ensures(
            ReplayProtector::validate_at,
            (replay, now, password, method, path, target, &signed),
            r,
        ),
        *old(after) == *final(replay),
        call_ensures(
            ReplayProtector::validate_at,
            (after, later, password, method, path, target, &signed),
            again,
        ),
    ensures
        signed.timestamp == timestamp,
        signed.nonce@ == nonce@,
        r is Ok <==> -ttl_secs <= now - timestamp <= ttl_secs,
        r is Ok ==> again is Err,
{
    let tag = tag_of(password@, method@, path@, target@, timestamp as int, nonce@);
    let m = fresh@;
    assert(!knows(kept(m, now - ttl_secs), nonce@));
    if r is Ok {
        let one = final(replay)@;
        assert(one =~= seq![(nonce@, timestamp as int)]);
        if -ttl_secs <= later - timestamp <= ttl_secs {
            assert(timestamp as int >= later - ttl_secs);
            reveal_with_fuel(kept, 2);
            assert(one.drop_last() =~= Seq::<(Seq<char>, int)>::empty());
            let k = kept(one, later - ttl_secs);
            assert(k =~= one);
            assert(k[0].0 == nonce@);
        }
    }
}

/// A proof that was made with the clock and random bytes is accepted by a server
/// with the same password while its time is in the window; without the time or the
/// bytes there is no proof, and what is told ends with the cause.
pub proof fn proofs_need_time_and_chance(
    password: &str,
    method: &str,
    path: &str,
    target: &str,
    clock: Result<i64, String>,
    random: Result<Vec<u8>, String>,
    signed: Result<AuthProof, Failure>,
    ttl_secs: u64,
    fresh: ReplayProtector,
    replay: &mut ReplayProtector,
    now: i64,
    r: Result<(), Failure>,
)
    requires
        call_ensures(
            AuthProof::sign_with,
            (password, method, path, target, clock, random),
            signed,
        ),
        call_ensures(ReplayProtector::new, (ttl_secs,), fresh),
        *old(replay) == fresh,
        signed matches Ok(p) ==> call_ensures(
            ReplayProtector::validate_at,
            (replay, now, password, method, path, target, &p),
            r,
        ),
    ensures
        signed is Ok <==> clock is Ok && random is Ok,
        signed matches Ok(p) ==> p.timestamp == clock->Ok_0 && (r is Ok <==> -ttl_secs <= now
            - p.timestamp <= ttl_secs),
        clock matches Err(cause) ==> (signed matches Err(e) && e@.last() == cause@),
        clock is Ok ==> (random matches Err(cause) ==> (signed matches Err(e) && e@.last()
            == cause@)),
{
    if let Ok(p) = signed {
        assert(!knows(kept(fresh@, now - ttl_secs), p.nonce@));
    }
}

proof fn lemma_signed_decimal(n: int)
    ensures
        forall|i: int| 0 <= i < signed_decimal(n).len() ==> #[trigger] signed_decimal(n)[i] != '\n',
{
    let s = signed_decimal(n);
    let d = if n < 0 {
        (-n) as nat
    } else {
        n as nat
    };
    decimal_is_digits(d);
    reveal_strlit("-");
    assert forall|i: int| 0 <= i < s.len() implies #[trigger] s[i] != '\n' by {
        if n < 0 {
            if i > 0 {
                assert(s[i] == decimal(d)[i - 1]);
            }
        }
    }
}

/// What is signed says each part of the request on a line of its own, so that two
/// requests with the same text have the same parts; the tag is made of it under the
/// password.
pub proof fn every_part_of_a_request_is_signed(
    password: &str,
    method: &str,
    path: &str,
    target: &str,
    timestamp: i64,
    nonce: &str,
    text: String,
    signature: String,
)
    requires
        forall|i: int| 0 <= i < upper(method@).len() ==> #[trigger] upper(method@)[i] != '\n',
        forall|i: int| 0 <= i < path@.len() ==> #[trigger] path@[i] != '\n',
        forall|i: int| 0 <= i < target@.len() ==> #[trigger] target@[i] != '\n',
        forall|i: int| 0 <= i < nonce@.len() ==> #[trigger] nonce@[i] != '\n',
        call_ensures(signature_input, (method, path, target, timestamp, nonce), text),
        call_ensures(sign, (password, method, path, target, timestamp, nonce), signature),
    ensures
        split(text@, seq!['\n']) == seq![
            upper(method@),
            path@,
            target@,
            signed_decimal(timestamp as int),
            nonce@,
            Seq::<char>::empty(),
        ],
        signature@ == base64url_of(hmac_sha256_of(bytes_of(password@), bytes_of(text@))),
{
    let nl = seq!['\n'];
    let none = Seq::<char>::empty();
    let time = signed_decimal(timestamp as int);
    reveal_strlit("\n");
    assert("\n"@ =~= nl);
    lemma_signed_decimal(timestamp as int);
    let r4 = nonce@ + nl + none;
    let r3 = time + nl + r4;
    let r2 = target@ + nl + r3;
    let r1 = path@ + nl + r2;
    let r0 = upper(method@) + nl + r1;
    assert(text@ =~= r0);
    lemma_no_char(nonce@, '\n', none);
    lemma_split_after(nonce@, nl, none);
    lemma_no_char(time, '\n', r4);
    lemma_split_after(time, nl, r4);
    lemma_no_char(target@, '\n', r3);
    lemma_split_after(target@, nl, r3);
    lemma_no_char(path@, '\n', r2);
    lemma_split_after(path@, nl, r2);
    lemma_no_char(upper(method@), '\n', r1);
    lemma_split_after(upper(method@), nl, r1);
    assert(find(none, nl) is None);
    assert(split(none, nl) =~= seq![none]);
    assert(split(text@, nl) =~= seq![upper(method@), path@, target@, time, nonce@, none]);
}

} // verus!
