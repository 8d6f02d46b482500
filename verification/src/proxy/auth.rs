//! Proofs of the tunnel protocol, with a memory that is kept in the order of
//! arrival.

use vstd::prelude::*;
use crate::auth::{
    bytes_view, carries, clock_fault, clock_view, drawn, in_window, knows, memory_of, mismatch,
    nonce_fault, proof_with, refusal, remembers, signature_input, tag_of, within_window, Attempt,
    ProofView,
};
use crate::crypto::{
    base64url_decode, base64url_encode, base64url_of, base64url_stands_for, hmac_sha256,
    hmac_sha256_verify, system_random, unix_seconds,
};
use crate::failure::{outcome, Failure};
use crate::text::{bytes_of, to_bytes};

verus! {

/// The body of the answer to a client whose proof was refused.
pub open spec fn failure_body() -> Seq<char> {
    "authentication failed; check that client and server passwords match\n"@
}

/// The hint that goes with an authentication failure.
pub open spec fn failure_hint() -> Seq<char> {
    "client and server passwords may not match"@
}

/// The body of the answer to a client whose proof was refused.
pub fn auth_failure_body() -> (r: &'static str)
    ensures
        r@ == failure_body(),
{
    "authentication failed; check that client and server passwords match\n"
}

/// The hint that goes with an authentication failure.
pub fn auth_failure_hint() -> (r: &'static str)
    ensures
        r@ == failure_hint(),
{
    "client and server passwords may not match"
}

/// What a client sends to prove that it knows the password.
#[derive(Clone, Debug)]
pub struct AuthProof {
    pub timestamp: i64,
    pub nonce: String,
    pub signature: String,
}

impl View for AuthProof {
    type V = ProofView;

    open spec fn view(&self) -> ProofView {
        ProofView {
            timestamp: self.timestamp as int,
            nonce: self.nonce@,
            signature: self.signature@,
        }
    }
}

/// The tag of a request.
pub fn sign_bytes(
    password: &str,
    method: &str,
    path: &str,
    target: &str,
    timestamp: i64,
    nonce: &str,
) -> (r: Vec<u8>)
    ensures
        r@ == tag_of(password@, method@, path@, target@, timestamp as int, nonce@),
        r@.len() == 32,
{
    let input = signature_input(method, path, target, timestamp, nonce);
    hmac_sha256(to_bytes(password).as_slice(), to_bytes(input.as_str()).as_slice())
}

/// The tag of a request, in URL-safe base64.
pub fn sign(
    password: &str,
    method: &str,
    path: &str,
    target: &str,
    timestamp: i64,
    nonce: &str,
) -> (r: String)
    ensures
        ({
            let tag = tag_of(password@, method@, path@, target@, timestamp as int, nonce@);
            &&& r@ == base64url_of(tag)
            &&& base64url_stands_for(bytes_of(r@), tag)
        }),
{
    base64url_encode(sign_bytes(password, method, path, target, timestamp, nonce).as_slice())
}

/// Whether `actual` is the tag of a request.
pub fn verify(
    password: &str,
    method: &str,
    path: &str,
    target: &str,
    timestamp: i64,
    nonce: &str,
    actual: &[u8],
) -> (r: Result<(), Failure>)
    ensures
        outcome(r) == (if actual@ == tag_of(
            password@,
            method@,
            path@,
            target@,
            timestamp as int,
            nonce@,
        ) {
            Ok::<(), Seq<Seq<char>>>(())
        } else {
            Err(mismatch())
        }),
{
    let input = signature_input(method, path, target, timestamp, nonce);
    if hmac_sha256_verify(
        to_bytes(password).as_slice(),
        to_bytes(input.as_str()).as_slice(),
        actual,
    ) {
        Ok(())
    } else {
        Err(Failure::new("signature mismatch"))
    }
}

/// What a proof says, or what is told where there is none.
pub open spec fn proof_views(r: Result<AuthProof, Failure>) -> Result<ProofView, Seq<Seq<char>>> {
    match r {
        Ok(p) => Ok(p@),
        Err(e) => Err(e@),
    }
}

impl AuthProof {
    /// The proof for a request at a given time with a given nonce.
    pub fn sign_at(
        password: &str,
        method: &str,
        path: &str,
        target: &str,
        timestamp: i64,
        nonce: String,
    ) -> (r: Self)
        ensures
            r.timestamp == timestamp,
            r.nonce@ == nonce@,
            ({
                let tag = tag_of(password@, method@, path@, target@, timestamp as int, nonce@);
                r.signature@ == base64url_of(tag) && carries(r@, tag)
            }),
    {
        let signature = sign(password, method, path, target, timestamp, nonce.as_str());
        AuthProof { timestamp, nonce, signature }
    }

    /// The proof for a request, for what the clock and the source of random bytes
    /// gave.
    pub fn sign_with(
        password: &str,
        method: &str,
        path: &str,
        target: &str,
        clock: Result<i64, String>,
        random: Result<Vec<u8>, String>,
    ) -> (r: Result<Self, Failure>)
        ensures
            proof_views(r) == proof_with(
                password@,
                method@,
                path@,
                target@,
                clock_view(clock),
                bytes_view(random),
            ),
            r matches Ok(p) ==> carries(
                p@,
                tag_of(password@, method@, path@, target@, p.timestamp as int, p.nonce@),
            ),
    {
        match clock {
            Err(cause) => Err(Failure::caused("system clock before unix epoch", cause.as_str())),
            Ok(timestamp) => match random {
                Err(cause) => Err(Failure::caused("failed to generate auth nonce", cause.as_str())),
                Ok(b) => Ok(
                    AuthProof::sign_at(
                        password,
                        method,
                        path,
                        target,
                        timestamp,
                        base64url_encode(b.as_slice()),
                    ),
                ),
            },
        }
    }

    /// The proof for a request now, with a fresh nonce of 16 random bytes.
    pub fn sign(password: &str, method: &str, path: &str, target: &str) -> (r: Result<
        Self,
        Failure,
    >)
        ensures
            match r {
                Ok(p) => {
                    let tag = tag_of(
                        password@,
                        method@,
                        path@,
                        target@,
                        p.timestamp as int,
                        p.nonce@,
                    );
                    &&& p.signature@ == base64url_of(tag)
                    &&& carries(p@, tag)
                    &&& exists|b: Seq<u8>| b.len() == 16 && p.nonce@ == #[trigger] base64url_of(b)
                },
                Err(e) => exists|cause: Seq<char>|
                    e@ == #[trigger] clock_fault(cause) || e@ == nonce_fault(cause),
            },
            exists|clock: Result<i64, Seq<char>>, random: Result<Seq<u8>, Seq<char>>|
                drawn(random, 16) && proof_views(r) == #[trigger] proof_with(
                    password@,
                    method@,
                    path@,
                    target@,
                    clock,
                    random,
                ),
    {
        let clock = unix_seconds();
        let random = match &clock {
            Ok(_) => system_random(16),
            Err(_) => Err(String::new()),
        };
        let ghost c = clock_view(clock);
        let ghost b = bytes_view(random);
        let r = AuthProof::sign_with(password, method, path, target, clock, random);
        assert(drawn(b, 16) && proof_views(r) == proof_with(
            password@,
            method@,
            path@,
            target@,
            c,
            b,
        ));
        proof {
            if c is Err {
                assert(clock_fault(c->Err_0) == clock_fault(c->Err_0));
            } else if b is Err {
                assert(clock_fault(b->Err_0) == clock_fault(b->Err_0));
            }
        }
        r
    }
}

// ---------------------------------------------------------------------------
// Replay protection

/// `m` without the entries at its front that are older than `oldest`.
pub open spec fn expired(m: Seq<(Seq<char>, int)>, oldest: int) -> Seq<(Seq<char>, int)>
    decreases m.len(),
{
    if m.len() > 0 && m[0].1 < oldest {
        expired(m.skip(1), oldest)
    } else {
        m
    }
}

/// What is wrong with a proof for a request with the given tag.
pub open spec fn verdict(
    m: Seq<(Seq<char>, int)>,
    ttl: int,
    now: int,
    tag: Seq<u8>,
    proof: ProofView,
) -> Option<Seq<Seq<char>>> {
    refusal(knows(expired(m, now - ttl), proof.nonce), ttl, now, tag, proof)
}

/// What is remembered after a proof was looked at.
pub open spec fn remembered(
    m: Seq<(Seq<char>, int)>,
    ttl: int,
    now: int,
    tag: Seq<u8>,
    proof: ProofView,
) -> Seq<(Seq<char>, int)> {
    if !in_window(now, proof.timestamp, ttl) {
        m
    } else if verdict(m, ttl, now, tag, proof) is None {
        expired(m, now - ttl).push((proof.nonce, proof.timestamp))
    } else {
        expired(m, now - ttl)
    }
}

/// Accepts each nonce at most once while its timestamp is in the window.
/// Accepted nonces leave the memory in the order in which they came.
#[derive(Debug)]
pub struct ReplayProtector {
    ttl_secs: u64,
    order: Vec<(String, i64)>,
}

impl View for ReplayProtector {
    type V = Seq<(Seq<char>, int)>;

    closed spec fn view(&self) -> Seq<(Seq<char>, int)> {
        memory_of(self.order@)
    }
}

impl ReplayProtector {
    /// The number of seconds that a timestamp may differ from the clock.
    pub closed spec fn ttl(&self) -> int {
        self.ttl_secs as int
    }

    /// A protector that remembers nothing yet.
    pub fn new(ttl_secs: u64) -> (r: Self)
        ensures
            r.ttl() == ttl_secs,
            r@ == Seq::<(Seq<char>, int)>::empty(),
    {
        let r = ReplayProtector { ttl_secs, order: Vec::new() };
        assert(r@ =~= Seq::<(Seq<char>, int)>::empty());
        r
    }

    fn forget(&mut self, oldest: i128)
        ensures
            final(self)@ == expired(old(self)@, oldest as int),
            final(self).ttl() == old(self).ttl(),
    {
        let ghost m = memory_of(self.order@);
        let n: usize = self.order.len();
        let mut i: usize = 0;
        assert(m.skip(0) =~= m);
        while i < n && (self.order[i].1 as i128) < oldest
            invariant
                i <= n == self.order@.len(),
                m == memory_of(self.order@),
                expired(m, oldest as int) == expired(m.skip(i as int), oldest as int),
            decreases n - i,
        {
            assert(m.skip(i as int)[0] == (
                self.order@[i as int].0@,
                self.order@[i as int].1 as int,
            ));
            assert(m.skip(i as int).skip(1) =~= m.skip(i + 1));
            i = i + 1;
        }
        let rest = self.order.split_off(i);
        proof {
            assert(memory_of(rest@) =~= m.skip(i as int));
            if i < n {
                assert(m.skip(i as int)[0] == (rest@[0].0@, rest@[0].1 as int));
            }
        }
        self.order = rest;
    }

    /// Looks at a proof at a given time.
    pub fn validate_at(
        &mut self,
        now: i64,
        password: &str,
        method: &str,
        path: &str,
        target: &str,
        proof: &AuthProof,
    ) -> (r: Result<(), Failure>)
        ensures
            ({
                let tag = tag_of(
                    password@,
                    method@,
                    path@,
                    target@,
                    proof.timestamp as int,
                    proof.nonce@,
                );
                let ttl = old(self).ttl();
                &&& final(self).ttl() == ttl
                &&& outcome(r) == (match verdict(old(self)@, ttl, now as int, tag, proof@) {
                    Some(e) => Err::<(), Seq<Seq<char>>>(e),
                    None => Ok(()),
                })
                &&& final(self)@ == remembered(old(self)@, ttl, now as int, tag, proof@)
            }),
    {
        if !within_window(now, proof.timestamp, self.ttl_secs) {
            return Err(Failure::new("timestamp outside allowed window"));
        }
        self.forget(now as i128 - self.ttl_secs as i128);
        if remembers(&self.order, proof.nonce.as_str()) {
            return Err(Failure::new("nonce already used"));
        }
        match base64url_decode(to_bytes(proof.signature.as_str()).as_slice()) {
            Err(cause) => Err(Failure::caused("invalid signature encoding", cause.as_str())),
            Ok(actual) => {
                match verify(
                    password,
                    method,
                    path,
                    target,
                    proof.timestamp,
                    proof.nonce.as_str(),
                    actual.as_slice(),
                ) {
                    Err(e) => Err(e),
                    Ok(()) => {
                        let ghost before = self.order@;
                        self.order.push((proof.nonce.clone(), proof.timestamp));
                        assert(memory_of(self.order@) =~= memory_of(before).push(
                            (proof.nonce@, proof.timestamp as int),
                        ));
                        Ok(())
                    },
                }
            },
        }
    }

    /// Looks at a proof now.
    pub fn validate(
        &mut self,
        password: &str,
        method: &str,
        path: &str,
        target: &str,
        proof: &AuthProof,
    ) -> (r: Result<(), Failure>)
        ensures
            ({
                let tag = tag_of(
                    password@,
                    method@,
                    path@,
                    target@,
                    proof.timestamp as int,
                    proof.nonce@,
                );
                let ttl = old(self).ttl();
                &&& final(self).ttl() == ttl
                &&& {
                    ||| final(self)@ == old(self)@ && exists|cause: Seq<char>|
                        outcome(r) == Err::<(), Seq<Seq<char>>>(#[trigger] clock_fault(cause))
                    ||| exists|now: int|
                        outcome(r) == (match #[trigger] verdict(old(self)@, ttl, now, tag, proof@) {
                            Some(e) => Err::<(), Seq<Seq<char>>>(e),
                            None => Ok(()),
                        }) && final(self)@ == remembered(old(self)@, ttl, now, tag, proof@)
                }
            }),
    {
        match unix_seconds() {
            Ok(now) => self.validate_at(now, password, method, path, target, proof),
            Err(cause) => {
                assert(clock_fault(cause@) == clock_fault(cause@));
                Err(Failure::caused("system clock before unix epoch", cause.as_str()))
            },
        }
    }
}

// ---------------------------------------------------------------------------
// Laws

/// What is remembered after a series of attempts.
pub open spec fn memory_after(
    m: Seq<(Seq<char>, int)>,
    ttl: int,
    attempts: Seq<Attempt>,
) -> Seq<(Seq<char>, int)>
    decreases attempts.len(),
{
    if attempts.len() == 0 {
        m
    } else {
        let before = memory_after(m, ttl, attempts.drop_last());
        let a = attempts.last();
        remembered(before, ttl, a.now, a.tag, a.proof)
    }
}

/// Whether the attempt with number `k` in a series is accepted.
pub open spec fn accepted(
    m: Seq<(Seq<char>, int)>,
    ttl: int,
    attempts: Seq<Attempt>,
    k: int,
) -> bool {
    let a = attempts[k];
    verdict(memory_after(m, ttl, attempts.take(k)), ttl, a.now, a.tag, a.proof) is None
}

proof fn lemma_expired_contains(m: Seq<(Seq<char>, int)>, oldest: int, e: (Seq<char>, int))
    requires
        m.contains(e),
        e.1 >= oldest,
    ensures
        expired(m, oldest).contains(e),
    decreases m.len(),
{
    if m.len() > 0 && m[0].1 < oldest {
        let i = choose|i: int| 0 <= i < m.len() && m[i] == e;
        assert(m.skip(1)[i - 1] == e);
        lemma_expired_contains(m.skip(1), oldest, e);
    }
}

proof fn lemma_still_remembered(
    m: Seq<(Seq<char>, int)>,
    ttl: int,
    attempts: Seq<Attempt>,
    i: int,
    k: int,
    latest: int,
)
    requires
        0 <= i < k <= attempts.len(),
        accepted(m, ttl, attempts, i),
        forall|x: int| i < x < k ==> (#[trigger] attempts[x]).now <= latest,
        in_window(latest, attempts[i].proof.timestamp, ttl),
    ensures
        memory_after(m, ttl, attempts.take(k)).contains(
            (attempts[i].proof.nonce, attempts[i].proof.timestamp),
        ),
    decreases k,
{
    let e = (attempts[i].proof.nonce, attempts[i].proof.timestamp);
    let before = attempts.take(k - 1);
    assert(attempts.take(k).drop_last() =~= before);
    assert(attempts.take(k).last() == attempts[k - 1]);
    let mem = memory_after(m, ttl, before);
    let a = attempts[k - 1];
    let after = remembered(mem, ttl, a.now, a.tag, a.proof);
    if i == k - 1 {
        assert(in_window(a.now, a.proof.timestamp, ttl));
        assert(after.last() == e);
        assert(after[after.len() - 1] == e);
    } else {
        lemma_still_remembered(m, ttl, attempts, i, k - 1, latest);
        if in_window(a.now, a.proof.timestamp, ttl) {
            lemma_expired_contains(mem, a.now - ttl, e);
            let kk = expired(mem, a.now - ttl);
            let j = choose|j: int| 0 <= j < kk.len() && kk[j] == e;
            assert(after[j] == e);
        }
    }
}

/// A proof that was accepted is not accepted again, unless the clock was ahead in
/// between.
pub proof fn no_proof_is_accepted_twice(
    m: Seq<(Seq<char>, int)>,
    ttl: int,
    attempts: Seq<Attempt>,
    i: int,
    j: int,
)
    requires
        0 <= i < j < attempts.len(),
        forall|x: int| i < x < j ==> (#[trigger] attempts[x]).now <= attempts[j].now,
        attempts[i].proof == attempts[j].proof,
        accepted(m, ttl, attempts, i),
    ensures
        !accepted(m, ttl, attempts, j),
{
    let a = attempts[j];
    if in_window(a.now, a.proof.timestamp, ttl) {
        lemma_still_remembered(m, ttl, attempts, i, j, a.now);
        let mem = memory_after(m, ttl, attempts.take(j));
        let e = (a.proof.nonce, a.proof.timestamp);
        lemma_expired_contains(mem, a.now - ttl, e);
        let kk = expired(mem, a.now - ttl);
        let x = choose|x: int| 0 <= x < kk.len() && kk[x] == e;
        assert(kk[x].0 == a.proof.nonce);
    }
}

/// A proof that carries the tag of its request is accepted while its timestamp
/// is in the window and its nonce is not remembered.
pub proof fn a_signed_proof_is_accepted(
    m: Seq<(Seq<char>, int)>,
    ttl: int,
    now: int,
    tag: Seq<u8>,
    proof: ProofView,
)
    requires
        carries(proof, tag),
        in_window(now, proof.timestamp, ttl),
        !knows(expired(m, now - ttl), proof.nonce),
    ensures
        verdict(m, ttl, now, tag, proof) is None,
{
}

/// A proof for a request is accepted by a server with the same password for that
/// request, while its time is in the window, and not a second time.
pub proof fn signed_requests_are_accepted_once(
    password: &str,
    method: &str,
    path: &str,
    target: &str,
    timestamp: i64,
    nonce: String,
    signed: AuthProof,
    ttl_secs: u64,
    fresh: ReplayProtector,
    replay: &mut ReplayProtector,
    now: i64,
    r: Result<(), Failure>,
    after: &mut ReplayProtector,
    later: i64,
    again: Result<(), Failure>,
)
    requires
        call_ensures(AuthProof::sign_at, (password, method, path, target, timestamp, nonce), signed),
        call_ensures(ReplayProtector::new, (ttl_secs,), fresh),
        *old(replay) == fresh,
        call_ensures(
            ReplayProtector::validate_at,
            (replay, now, password, method, path, target, &signed),
            r,
        ),
        *old(after) == *final(replay),
        call_ensures(
            ReplayProtector::validate_at,
            (after, later, password, method, path, target, &signed),
            again,
        ),
    ensures
        signed.timestamp == timestamp,
        signed.nonce@ == nonce@,
        r is Ok <==> -ttl_secs <= now - timestamp <= ttl_secs,
        r is Ok ==> again is Err,
{
    let tag = tag_of(password@, method@, path@, target@, timestamp as int, nonce@);
    let m = fresh@;
    assert(!knows(expired(m, now - ttl_secs), nonce@));
    if r is Ok {
        let one = final(replay)@;
        assert(one =~= seq![(nonce@, timestamp as int)]);
        if -ttl_secs <= later - timestamp <= ttl_secs {
            assert(timestamp as int >= later - ttl_secs);
            reveal_with_fuel(expired, 2);
            assert(one.drop_last() =~= Seq::<(Seq<char>, int)>::empty());
            let k = expired(one, later - ttl_secs);
            assert(k =~= one);
            assert(k[0].0 == nonce@);
        }
    }
}

/// A proof that was made with the clock and random bytes is accepted by a server
/// with the same password while its time is in the window; without the time or the
/// bytes there is no proof, and what is told ends with the cause.
pub proof fn proofs_need_time_and_chance(
    password: &str,
    method: &str,
    path: &str,
    target: &str,
    clock: Result<i64, String>,
    random: Result<Vec<u8>, String>,
    signed: Result<AuthProof, Failure>,
    ttl_secs: u64,
    fresh: ReplayProtector,
    replay: &mut ReplayProtector,
    now: i64,
    r: Result<(), Failure>,
)
    requires
        call_ensures(
            AuthProof::sign_with,
            (password, method, path, target, clock, random),
            signed,
        ),
        call_ensures(ReplayProtector::new, (ttl_secs,), fresh),
        *old(replay) == fresh,
        signed matches Ok(p) ==> call_ensures(
            ReplayProtector::validate_at,
            (replay, now, password, method, path, target, &p),
            r,
        ),
    ensures
        signed is Ok <==> clock is Ok && random is Ok,
        signed matches Ok(p) ==> p.timestamp == clock->Ok_0 && (r is Ok <==> -ttl_secs <= now
            - p.timestamp <= ttl_secs),
        clock matches Err(cause) ==> (signed matches Err(e) && e@.last() == cause@),
        clock is Ok ==> (random matches Err(cause) ==> (signed matches Err(e) && e@.last()
            == cause@)),
{
    if let Ok(p) = signed {
        assert(!knows(expired(fresh@, now - ttl_secs), p.nonce@));
    }
}

/// The tag of a request is made of its text under the password; it is verified as
/// such, and nothing else is.
pub proof fn tags_are_verified(
    password: &str,
    method: &str,
    path: &str,
    target: &str,
    timestamp: i64,
    nonce: &str,
    text: String,
    tag: Vec<u8>,
    signature: String,
    actual: &[u8],
    r: Result<(), Failure>,
)
    requires
        call_ensures(signature_input, (method, path, target, timestamp, nonce), text),
        call_ensures(sign_bytes, (password, method, path, target, timestamp, nonce), tag),
        call_ensures(sign, (password, method, path, target, timestamp, nonce), signature),
        call_ensures(verify, (password, method, path, target, timestamp, nonce, actual), r),
    ensures
        tag@ == crate::crypto::hmac_sha256_of(bytes_of(password@), bytes_of(text@)),
        signature@ == base64url_of(tag@),
        r is Ok <==> actual@ == tag@,
{
}

} // verus!
