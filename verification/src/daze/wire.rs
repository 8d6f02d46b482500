//! The keystream cipher and the handshake of the ashe protocol.

use vstd::prelude::*;
use crate::auth::clock_fault;
use crate::bytes::{extend, slice_of};
use crate::crypto::{generator_random, sha256, sha256_of, unix_seconds};
use crate::failure::Failure;
use crate::proxy::auth::{auth_failure_hint, failure_hint};
use crate::text::{bytes_of, cat, read_utf8, to_bytes, utf8, utf8_fault};

verus! {

/// How many seconds a handshake may differ from the clock of the server.
pub const ASHE_LIFE_EXPIRED_SECS: u64 = 120;

/// The request type of a TCP connection.
pub const ASHE_NET_TCP: u8 = 1;

// ---------------------------------------------------------------------------
// The cipher

/// The state of the cipher: a permutation of the bytes and two positions.
#[verifier::ext_equal]
pub struct Rc4View {
    pub s: Seq<u8>,
    pub i: int,
    pub j: int,
}

/// `s` with the entries at `a` and `b` exchanged.
pub open spec fn swapped(s: Seq<u8>, a: int, b: int) -> Seq<u8> {
    s.update(a, s[b]).update(b, s[a])
}

/// The bytes in order.
pub open spec fn byte_order() -> Seq<u8> {
    Seq::new(256, |i: int| i as u8)
}

/// The permutation and the position `j` after `n` steps of key scheduling.
pub open spec fn scheduled(key: Seq<u8>, n: nat) -> (Seq<u8>, int)
    decreases n,
{
    if n == 0 {
        (byte_order(), 0)
    } else {
        let (s, j) = scheduled(key, (n - 1) as nat);
        let i = n - 1;
        let k = (j + s[i] + key[i % key.len() as int]) % 256;
        (swapped(s, i, k), k)
    }
}

/// The state that a key gives.
pub open spec fn keyed(key: Seq<u8>) -> Rc4View {
    Rc4View { s: scheduled(key, 256).0, i: 0, j: 0 }
}

/// The state after one byte of keystream.
pub open spec fn stepped(st: Rc4View) -> Rc4View {
    let i = (st.i + 1) % 256;
    let j = (st.j + st.s[i]) % 256;
    Rc4View { s: swapped(st.s, i, j), i, j }
}

/// The byte of keystream that a step leaves behind.
pub open spec fn key_byte(st: Rc4View) -> u8 {
    st.s[(st.s[st.i] + st.s[st.j]) % 256]
}

/// The state after `n` bytes of keystream.
pub open spec fn advanced(st: Rc4View, n: nat) -> Rc4View
    decreases n,
{
    if n == 0 {
        st
    } else {
        stepped(advanced(st, (n - 1) as nat))
    }
}

/// `data` combined with the keystream.
pub open spec fn ciphered(st: Rc4View, data: Seq<u8>) -> Seq<u8> {
    Seq::new(data.len(), |k: int| data[k] ^ key_byte(advanced(st, (k + 1) as nat)))
}

/// Whether a state can occur: 256 bytes, each of them once, and two positions.
pub open spec fn is_state(st: Rc4View) -> bool {
    &&& st.s.len() == 256
    &&& st.s.no_duplicates()
    &&& 0 <= st.i < 256
    &&& 0 <= st.j < 256
}

proof fn lemma_swapped(s: Seq<u8>, a: int, b: int)
    requires
        s.len() == 256,
        s.no_duplicates(),
        0 <= a < 256,
        0 <= b < 256,
    ensures
        swapped(s, a, b).len() == 256,
        swapped(s, a, b).no_duplicates(),
{
    let t = swapped(s, a, b);
    assert forall|x: int, y: int| 0 <= x < t.len() && 0 <= y < t.len() && x != y implies t[x]
        != t[y] by {
        let x0 = if x == b {
            a
        } else if x == a {
            b
        } else {
            x
        };
        let y0 = if y == b {
            a
        } else if y == a {
            b
        } else {
            y
        };
        assert(t[x] == s[x0]);
        assert(t[y] == s[y0]);
        assert(x0 != y0);
    }
}

/// Key scheduling permutes the bytes.
pub proof fn scheduling_permutes(key: Seq<u8>, n: nat)
    requires
        key.len() > 0,
        n <= 256,
    ensures
        scheduled(key, n).0.len() == 256,
        scheduled(key, n).0.no_duplicates(),
        0 <= scheduled(key, n).1 < 256,
    decreases n,
{
    if n == 0 {
        let s = byte_order();
        assert forall|x: int, y: int| 0 <= x < s.len() && 0 <= y < s.len() && x != y implies s[x]
            != s[y] by {}
    } else {
        scheduling_permutes(key, (n - 1) as nat);
        let (s, j) = scheduled(key, (n - 1) as nat);
        let k = (j + s[n - 1] + key[(n - 1) % key.len() as int]) % 256;
        lemma_swapped(s, n - 1, k);
    }
}

/// Every byte of keystream leaves a state in which each byte occurs once.
pub proof fn stepping_permutes(st: Rc4View, n: nat)
    requires
        is_state(st),
    ensures
        is_state(advanced(st, n)),
    decreases n,
{
    if n > 0 {
        stepping_permutes(st, (n - 1) as nat);
        let p = advanced(st, (n - 1) as nat);
        let i = (p.i + 1) % 256;
        let j = (p.j + p.s[i]) % 256;
        lemma_swapped(p.s, i, j);
    }
}

/// Combining twice with the same keystream gives the data back.
pub proof fn ciphering_twice_is_the_identity(st: Rc4View, data: Seq<u8>)
    ensures
        ciphered(st, ciphered(st, data)) == data,
{
    let c = ciphered(st, data);
    assert forall|k: int| 0 <= k < data.len() implies ciphered(st, c)[k] == data[k] by {
        let x = data[k];
        let y = key_byte(advanced(st, (k + 1) as nat));
        assert((x ^ y) ^ y == x) by (bit_vector);
    }
    assert(ciphered(st, c) =~= data);
}

proof fn lemma_advanced_sum(st: Rc4View, a: nat, b: nat)
    ensures
        advanced(st, a + b) == advanced(advanced(st, a), b),
    decreases b,
{
    if b > 0 {
        lemma_advanced_sum(st, a, (b - 1) as nat);
        assert((a + b - 1) as nat == a + (b - 1) as nat);
    }
}

/// Data may be handed to the cipher in any number of pieces.
pub proof fn pieces_do_not_matter(st: Rc4View, a: Seq<u8>, b: Seq<u8>)
    ensures
        ciphered(st, a + b) == ciphered(st, a) + ciphered(advanced(st, a.len()), b),
        advanced(st, (a + b).len()) == advanced(advanced(st, a.len()), b.len()),
{
    lemma_advanced_sum(st, a.len(), b.len());
    let whole = ciphered(st, a + b);
    let parts = ciphered(st, a) + ciphered(advanced(st, a.len()), b);
    assert forall|k: int| 0 <= k < whole.len() implies whole[k] == parts[k] by {
        if k >= a.len() {
            lemma_advanced_sum(st, a.len(), (k - a.len() + 1) as nat);
            assert((k + 1) as nat == a.len() + (k - a.len() + 1) as nat);
        }
    }
    assert(whole =~= parts);
}

/// The RC4 keystream cipher.
#[derive(Clone, Debug)]
pub struct Rc4State {
    s: Vec<u8>,
    i: u8,
    j: u8,
}

impl View for Rc4State {
    type V = Rc4View;

    closed spec fn view(&self) -> Rc4View {
        Rc4View { s: self.s@, i: self.i as int, j: self.j as int }
    }
}

fn swap(s: &mut Vec<u8>, a: usize, b: usize)
    requires
        a < old(s)@.len(),
        b < old(s)@.len(),
    ensures
        final(s)@ == swapped(old(s)@, a as int, b as int),
{
    let x: u8 = s[a];
    let y: u8 = s[b];
    s.set(a, y);
    s.set(b, x);
}

impl Rc4State {
    /// The state that a key gives.
    pub fn new(key: &[u8]) -> (r: Self)
        requires
            key@.len() > 0,
        ensures
            r@ == keyed(key@),
            is_state(r@),
    {
        let mut s: Vec<u8> = Vec::new();
        let mut n: usize = 0;
        while n < 256
            invariant
                n <= 256,
                s@ == byte_order().take(n as int),
            decreases 256 - n,
        {
            s.push(n as u8);
            assert(byte_order().take(n + 1) =~= byte_order().take(n as int).push(n as u8));
            n = n + 1;
        }
        assert(s@ =~= byte_order());
        let mut j: u8 = 0;
        let mut i: usize = 0;
        while i < 256
            invariant
                i <= 256,
                key@.len() > 0,
                s@ == scheduled(key@, i as nat).0,
                j == scheduled(key@, i as nat).1,
                s@.len() == 256,
            decreases 256 - i,
        {
            let k: u8 = key[i % key.len()];
            j = ((j as u32 + s[i] as u32 + k as u32) % 256) as u8;
            swap(&mut s, i, j as usize);
            i = i + 1;
        }
        proof {
            scheduling_permutes(key@, 256);
        }
        Rc4State { s, i: 0, j: 0 }
    }

    /// A state equal to this one.
    pub fn copy(&self) -> (r: Self)
        ensures
            r@ == self@,
    {
        Rc4State { s: slice_of(self.s.as_slice(), 0, self.s.len()), i: self.i, j: self.j }
    }

    /// Combines `buf` with the keystream.
    pub fn apply_keystream(&mut self, buf: &mut Vec<u8>)
        requires
            is_state(old(self)@),
        ensures
            final(buf)@ == ciphered(old(self)@, old(buf)@),
            final(self)@ == advanced(old(self)@, old(buf)@.len()),
            is_state(final(self)@),
    {
        let ghost st = self@;
        let ghost data = buf@;
        let mut k: usize = 0;
        while k < buf.len()
            invariant
                k <= buf@.len() == data.len(),
                is_state(st),
                self@ == advanced(st, k as nat),
                is_state(self@),
                forall|x: int| k <= x < data.len() ==> buf@[x] == data[x],
                forall|x: int| 0 <= x < k ==> #[trigger] buf@[x] == ciphered(st, data)[x],
            decreases buf@.len() - k,
        {
            proof {
                stepping_permutes(st, (k + 1) as nat);
            }
            let ghost before = self@;
            self.i = ((self.i as u16 + 1) % 256) as u8;
            self.j = ((self.j as u16 + self.s[self.i as usize] as u16) % 256) as u8;
            swap(&mut self.s, self.i as usize, self.j as usize);
            assert(self@ =~= stepped(before));
            let at: usize = ((self.s[self.i as usize] as u16 + self.s[self.j as usize] as u16) % 256)
                as usize;
            let byte: u8 = buf[k] ^ self.s[at];
            buf.set(k, byte);
            assert(self@ == advanced(st, (k + 1) as nat));
            assert(byte == ciphered(st, data)[k as int]);
            k = k + 1;
        }
        assert(buf@ =~= ciphered(st, data));
    }
}

// ---------------------------------------------------------------------------
// The handshake

/// Why a handshake failed.
#[derive(Debug, Clone, Copy, PartialEq, Eq, Structural)]
pub enum AsheError {
    Expired,
    UnsupportedRequest,
    AddressNotUtf8,
    Refused,
    TargetTooLong,
}

impl AsheError {
    /// The text of the error.
    pub open spec fn text(self) -> Seq<char> {
        let hint = "client and server passwords may not match"@;
        match self {
            AsheError::Expired => "daze-ashe request expired"@,
            AsheError::UnsupportedRequest =>
                "daze-ashe authentication failed or unsupported request type; "@ + hint,
            AsheError::AddressNotUtf8 => "daze-ashe address decode failed; "@ + hint,
            AsheError::Refused => "daze-ashe server refused target"@,
            AsheError::TargetTooLong => "destination address too long"@,
        }
    }

    /// The text of the error.
    pub fn message(&self) -> (r: String)
        ensures
            r@ == self.text(),
    {
        match self {
            AsheError::Expired => "daze-ashe request expired".to_owned(),
            AsheError::UnsupportedRequest => {
                let mut s: String =
                    "daze-ashe authentication failed or unsupported request type; ".to_owned();
                s.append(auth_failure_hint());
                s
            },
            AsheError::AddressNotUtf8 => {
                let mut s: String = "daze-ashe address decode failed; ".to_owned();
                s.append(auth_failure_hint());
                s
            },
            AsheError::Refused => "daze-ashe server refused target".to_owned(),
            AsheError::TargetTooLong => "destination address too long".to_owned(),
        }
    }
}

/// The digest of a password, from which session keys are made.
pub fn salt(password: &str) -> (r: Vec<u8>)
    ensures
        r@ == sha256_of(bytes_of(password@)),
        r@.len() == 32,
{
    sha256(to_bytes(password).as_slice())
}

/// Two byte strings combined byte by byte.
pub open spec fn xored(a: Seq<u8>, b: Seq<u8>) -> Seq<u8> {
    Seq::new(a.len(), |i: int| a[i] ^ b[i])
}

/// The session key of a random value and a password digest.
pub fn xor_key(random: &[u8], password: &[u8]) -> (r: Vec<u8>)
    requires
        random@.len() == password@.len(),
    ensures
        r@ == xored(random@, password@),
{
    let mut key: Vec<u8> = Vec::new();
    let mut i: usize = 0;
    while i < random.len()
        invariant
            i <= random@.len() == password@.len(),
            key@ == xored(random@, password@).take(i as int),
        decreases random@.len() - i,
    {
        key.push(random[i] ^ password[i]);
        assert(xored(random@, password@).take(i + 1) =~= xored(random@, password@).take(
            i as int,
        ).push(random@[i as int] ^ password@[i as int]));
        i = i + 1;
    }
    assert(key@ =~= xored(random@, password@));
    key
}

/// Whether a timestamp is fresh enough at `now`.
pub open spec fn is_fresh(now: int, timestamp: int) -> bool {
    -ASHE_LIFE_EXPIRED_SECS <= now - timestamp <= ASHE_LIFE_EXPIRED_SECS
}

/// Checks a timestamp against a given time.
pub fn validate_timestamp_at(now: i64, timestamp: i64) -> (r: Result<(), AsheError>)
    ensures
        r == (if is_fresh(now as int, timestamp as int) {
            Ok::<(), AsheError>(())
        } else {
            Err(AsheError::Expired)
        }),
{
    let skew: i128 = now as i128 - timestamp as i128;
    if skew <= 120 && skew >= -120 {
        Ok(())
    } else {
        Err(AsheError::Expired)
    }
}

/// Checks a timestamp against the clock.
pub fn validate_timestamp(timestamp: i64) -> (r: Result<(), Failure>)
    ensures
        match r {
            Ok(()) => exists|now: int| is_fresh(now, timestamp as int),
            Err(e) => {
                ||| exists|cause: Seq<char>| e@ == #[trigger] clock_fault(cause)
                ||| e@ == seq![AsheError::Expired.text()] && exists|now: int|
                    !is_fresh(now, timestamp as int)
            },
        },
{
    match unix_seconds() {
        Ok(now) => {
            assert(is_fresh(now as int, timestamp as int) || !is_fresh(
                now as int,
                timestamp as int,
            ));
            match validate_timestamp_at(now, timestamp) {
                Ok(()) => Ok(()),
                Err(e) => Err(Failure::new(e.message().as_str())),
            }
        },
        Err(cause) => {
            assert(clock_fault(cause@) == clock_fault(cause@));
            Err(Failure::caused("system clock before unix epoch", cause.as_str()))
        },
    }
}

/// The eight bytes of `n`, most significant first.
#[verifier::opaque]
pub open spec fn be64(n: u64) -> Seq<u8> {
    seq![
        (n / 0x100_0000_0000_0000) as u8,
        (n / 0x1_0000_0000_0000 % 256) as u8,
        (n / 0x100_0000_0000 % 256) as u8,
        (n / 0x1_0000_0000 % 256) as u8,
        (n / 0x100_0000 % 256) as u8,
        (n / 0x1_0000 % 256) as u8,
        (n / 0x100 % 256) as u8,
        (n % 256) as u8,
    ]
}

fn push_be64(v: &mut Vec<u8>, n: u64)
    ensures
        final(v)@ == old(v)@ + be64(n),
{
    v.push((n / 0x100_0000_0000_0000) as u8);
    v.push((n / 0x1_0000_0000_0000 % 256) as u8);
    v.push((n / 0x100_0000_0000 % 256) as u8);
    v.push((n / 0x1_0000_0000 % 256) as u8);
    v.push((n / 0x100_0000 % 256) as u8);
    v.push((n / 0x1_0000 % 256) as u8);
    v.push((n / 0x100 % 256) as u8);
    v.push((n % 256) as u8);
    reveal(be64);
    assert(v@ =~= old(v)@ + be64(n));
}

/// The number that eight bytes write, most significant first.
#[verifier::opaque]
pub open spec fn be64_value(b: Seq<u8>) -> int {
    b[0] * 0x100_0000_0000_0000 + b[1] * 0x1_0000_0000_0000 + b[2] * 0x100_0000_0000 + b[3]
        * 0x1_0000_0000 + b[4] * 0x100_0000 + b[5] * 0x1_0000 + b[6] * 0x100 + b[7]
}

proof fn lemma_be64(n: u64)
    ensures
        be64_value(be64(n)) == n,
        be64(n).len() == 8,
{
    reveal(be64);
    reveal(be64_value);
    let x = n as int;
    let q1 = x / 0x100;
    let q2 = q1 / 0x100;
    let q3 = q2 / 0x100;
    let q4 = q3 / 0x100;
    let q5 = q4 / 0x100;
    let q6 = q5 / 0x100;
    let q7 = q6 / 0x100;
    vstd::arithmetic::div_mod::lemma_div_denominator(x, 0x100, 0x100);
    vstd::arithmetic::div_mod::lemma_div_denominator(x, 0x1_0000, 0x100);
    vstd::arithmetic::div_mod::lemma_div_denominator(x, 0x100_0000, 0x100);
    vstd::arithmetic::div_mod::lemma_div_denominator(x, 0x1_0000_0000, 0x100);
    vstd::arithmetic::div_mod::lemma_div_denominator(x, 0x100_0000_0000, 0x100);
    vstd::arithmetic::div_mod::lemma_div_denominator(x, 0x1_0000_0000_0000, 0x100);
    let b = be64(n);
    assert(b[7] == x % 0x100);
    assert(b[6] == q1 % 0x100);
    assert(b[5] == q2 % 0x100);
    assert(b[4] == q3 % 0x100);
    assert(b[3] == q4 % 0x100);
    assert(b[2] == q5 % 0x100);
    assert(b[1] == q6 % 0x100);
    assert(b[0] == q7);
}

fn read_be64(b: &Vec<u8>) -> (n: u64)
    requires
        b@.len() == 8,
    ensures
        n == be64_value(b@),
{
    reveal(be64_value);
    b[0] as u64 * 0x100_0000_0000_0000 + b[1] as u64 * 0x1_0000_0000_0000 + b[2] as u64
        * 0x100_0000_0000 + b[3] as u64 * 0x1_0000_0000 + b[4] as u64 * 0x100_0000 + b[5] as u64
        * 0x1_0000 + b[6] as u64 * 0x100 + b[7] as u64
}

/// The state that both sides start from.
pub open spec fn session_state(random: Seq<u8>, password: Seq<char>) -> Rc4View {
    keyed(xored(random, sha256_of(bytes_of(password))))
}

/// What the client says under the cipher: the time, the request type, the
/// length of the target and the target.
pub open spec fn opening(timestamp: i64, target: Seq<char>) -> Seq<u8> {
    be64(timestamp as u64) + seq![ASHE_NET_TCP, (bytes_of(target).len() % 256) as u8] + bytes_of(
        target,
    )
}

/// What a client sends, and the states that it goes on with.
#[derive(Debug)]
pub struct AsheOpening {
    pub message: Vec<u8>,
    pub upload: Rc4State,
    pub download: Rc4State,
}

/// Whether `o` opens a handshake with these random bytes at that time.
pub open spec fn opens(
    o: AsheOpening,
    random: Seq<u8>,
    timestamp: i64,
    password: Seq<char>,
    target: Seq<char>,
) -> bool {
    let st = session_state(random, password);
    let said = opening(timestamp, target);
    &&& o.message@ == random + ciphered(st, said)
    &&& o.upload@ == advanced(st, said.len())
    &&& is_state(o.upload@)
    &&& o.download@ == st
    &&& is_state(o.download@)
}

/// Opens a handshake at a given time with given random bytes.
pub fn open_ashe(random: &[u8], timestamp: i64, password: &str, target: &str) -> (r: AsheOpening)
    requires
        random@.len() == 32,
    ensures
        opens(r, random@, timestamp, password@, target@),
{
    let digest = salt(password);
    let key = xor_key(random, digest.as_slice());
    let download = Rc4State::new(key.as_slice());
    let mut upload = Rc4State::new(key.as_slice());
    let mut said: Vec<u8> = Vec::new();
    push_be64(&mut said, timestamp as u64);
    let address = to_bytes(target);
    said.push(ASHE_NET_TCP);
    said.push((address.len() % 256) as u8);
    extend(&mut said, address.as_slice());
    assert(said@ =~= opening(timestamp, target@));
    upload.apply_keystream(&mut said);
    let mut message: Vec<u8> = Vec::new();
    extend(&mut message, random);
    extend(&mut message, said.as_slice());
    assert(message@ =~= random@ + said@);
    AsheOpening { message, upload, download }
}

/// Opens a handshake now, with 32 fresh random bytes.
pub fn client_establish_ashe(password: &str, target: &str) -> (r: Result<AsheOpening, Failure>)
    ensures
        r is Ok ==> exists|random: Seq<u8>, timestamp: i64|
            random.len() == 32 && #[trigger] opens(r->Ok_0, random, timestamp, password@, target@),
        r matches Err(e) ==> exists|cause: Seq<char>|
            e@ == #[trigger] clock_fault(cause) || e@ == seq![
                "failed to generate random bytes"@,
                cause,
            ],
{
    let random = match generator_random(32) {
        Ok(b) => b,
        Err(cause) => {
            assert(clock_fault(cause@) == clock_fault(cause@));
            return Err(Failure::caused("failed to generate random bytes", cause.as_str()));
        },
    };
    let timestamp = match unix_seconds() {
        Ok(t) => t,
        Err(cause) => {
            assert(clock_fault(cause@) == clock_fault(cause@));
            return Err(Failure::caused("system clock before unix epoch", cause.as_str()));
        },
    };
    let o = open_ashe(random.as_slice(), timestamp, password, target);
    let r: Result<AsheOpening, Failure> = Ok(o);
    assert(random@.len() == 32 && opens(r->Ok_0, random@, timestamp, password@, target@));
    r
}

/// The failure of a client that got no answer.
pub fn response_failure(cause: Failure) -> (r: Failure)
    ensures
        r@ == seq!["daze-ashe response read failed; "@ + failure_hint()] + cause@,
{
    cause.context(cat("daze-ashe response read failed; ", auth_failure_hint()).as_str())
}

/// Looks at the byte with which the server answers.
pub fn accept_reply(download: &mut Rc4State, code: u8) -> (r: Result<(), AsheError>)
    requires
        is_state(old(download)@),
    ensures
        final(download)@ == advanced(old(download)@, 1),
        is_state(final(download)@),
        r == (if ciphered(old(download)@, seq![code])[0] == 0 {
            Ok::<(), AsheError>(())
        } else {
            Err(AsheError::Refused)
        }),
{
    let mut buf: Vec<u8> = Vec::new();
    buf.push(code);
    assert(buf@ =~= seq![code]);
    download.apply_keystream(&mut buf);
    if buf[0] != 0 {
        Err(AsheError::Refused)
    } else {
        Ok(())
    }
}

/// The byte with which the server answers.
pub fn reply(upload: &mut Rc4State, code: u8) -> (r: u8)
    requires
        is_state(old(upload)@),
    ensures
        final(upload)@ == advanced(old(upload)@, 1),
        is_state(final(upload)@),
        r == ciphered(old(upload)@, seq![code])[0],
{
    let mut buf: Vec<u8> = Vec::new();
    buf.push(code);
    assert(buf@ =~= seq![code]);
    upload.apply_keystream(&mut buf);
    buf[0]
}

/// What the bytes received so far say about a handshake.
#[verifier::ext_equal]
pub enum Handshake {
    /// That many more bytes are needed before anything can be decided.
    Incomplete { missing: int },
    /// Why it is refused, and what is told of that.
    Refused(AsheError, Seq<Seq<char>>),
    /// The target, the state of the upload, and the bytes used.
    Accepted { target: Seq<char>, upload: Rc4View, used: int },
}

/// The plain text of what the client said after its random bytes.
pub open spec fn said_by_client(b: Seq<u8>, password: Seq<char>) -> Seq<u8> {
    ciphered(session_state(b.take(32), password), b.skip(32))
}

/// What a server makes of the bytes received so far, at a given time.
pub open spec fn handshake(b: Seq<u8>, password: Seq<char>, now: int) -> Handshake {
    if b.len() < 32 {
        Handshake::Incomplete { missing: 32 - b.len() }
    } else if b.len() < 40 {
        Handshake::Incomplete { missing: 40 - b.len() }
    } else {
        let said = said_by_client(b, password);
        let timestamp = (be64_value(said.take(8)) as u64) as i64;
        if !is_fresh(now, timestamp as int) {
            Handshake::Refused(
                AsheError::Expired,
                seq![
                    "daze-ashe authentication failed; "@ + failure_hint(),
                    AsheError::Expired.text(),
                ],
            )
        } else if b.len() < 42 {
            Handshake::Incomplete { missing: 42 - b.len() }
        } else if said[8] != ASHE_NET_TCP {
            Handshake::Refused(
                AsheError::UnsupportedRequest,
                seq![AsheError::UnsupportedRequest.text()],
            )
        } else {
            let n = said[9] as int;
            if b.len() < 42 + n {
                Handshake::Incomplete { missing: 42 + n - b.len() }
            } else {
                let address = said.subrange(10, 10 + n);
                match utf8(address) {
                    None => Handshake::Refused(
                        AsheError::AddressNotUtf8,
                        seq![AsheError::AddressNotUtf8.text(), utf8_fault(address)],
                    ),
                    Some(target) => Handshake::Accepted {
                        target,
                        upload: advanced(
                            session_state(b.take(32), password),
                            (10 + n) as nat,
                        ),
                        used: 42 + n,
                    },
                }
            }
        }
    }
}

/// What `server_accept_ashe` decided.
#[derive(Debug)]
pub enum AsheAccept {
    Incomplete { missing: usize },
    /// Why it is refused, and what is told of that.
    Refused(AsheError, Failure),
    /// `upload` reads what the client sends on; `download` writes the answers.
    Accepted { target: String, upload: Rc4State, download: Rc4State, used: usize },
}

/// Reads a handshake out of the bytes received so far, at a given time.
pub fn server_accept_ashe(received: &[u8], password: &str, now: i64) -> (r: AsheAccept)
    ensures
        match (r, handshake(received@, password@, now as int)) {
            (AsheAccept::Incomplete { missing }, Handshake::Incomplete { missing: m }) => missing
                == m,
            (AsheAccept::Refused(e, told), Handshake::Refused(f, texts)) => e == f && told@ == texts,
            (
                AsheAccept::Accepted { target, upload, download, used },
                Handshake::Accepted { target: t, upload: u, used: n },
            ) => {
                &&& target@ == t
                &&& upload@ == u
                &&& is_state(upload@)
                &&& download@ == session_state(received@.take(32), password@)
                &&& is_state(download@)
                &&& used == n
            },
            _ => false,
        },
{
    let len: usize = received.len();
    if len < 32 {
        return AsheAccept::Incomplete { missing: 32 - len };
    }
    if len < 40 {
        return AsheAccept::Incomplete { missing: 40 - len };
    }
    let random = slice_of(received, 0, 32);
    let digest = salt(password);
    let key = xor_key(random.as_slice(), digest.as_slice());
    let download = Rc4State::new(key.as_slice());
    let mut upload = Rc4State::new(key.as_slice());
    let ghost st = session_state(received@.take(32), password@);
    let ghost rest = received@.skip(32);
    let ghost said = said_by_client(received@, password@);
    assert(random@ =~= received@.take(32));
    let mut ts = slice_of(received, 32, 40);
    proof {
        assert(ts@ =~= rest.take(8));
        assert(ciphered(st, rest.take(8)) =~= said.take(8));
    }
    upload.apply_keystream(&mut ts);
    let timestamp: i64 = read_be64(&ts) as i64;
    match validate_timestamp_at(now, timestamp) {
        Err(e) => {
            let outer = cat("daze-ashe authentication failed; ", auth_failure_hint());
            return AsheAccept::Refused(
                AsheError::Expired,
                Failure::caused(outer.as_str(), e.message().as_str()),
            );
        },
        Ok(()) => {},
    }
    if len < 42 {
        return AsheAccept::Incomplete { missing: 42 - len };
    }
    let mut head = slice_of(received, 40, 42);
    proof {
        assert(head@ =~= rest.subrange(8, 10));
        pieces_do_not_matter(st, rest.take(8), head@);
        assert(rest.take(8) + head@ =~= rest.take(10));
        assert(ciphered(st, rest.take(10)) =~= said.take(10));
        let c = ciphered(upload@, head@);
        assert(c[0] == said.take(10)[8]);
        assert(c[1] == said.take(10)[9]);
    }
    upload.apply_keystream(&mut head);
    if head[0] != ASHE_NET_TCP {
        return AsheAccept::Refused(
            AsheError::UnsupportedRequest,
            Failure::new(AsheError::UnsupportedRequest.message().as_str()),
        );
    }
    let n: usize = head[1] as usize;
    if len < 42 + n {
        return AsheAccept::Incomplete { missing: 42 + n - len };
    }
    let mut address = slice_of(received, 42, 42 + n);
    proof {
        assert(address@ =~= rest.subrange(10, 10 + n));
        pieces_do_not_matter(st, rest.take(10), address@);
        assert(rest.take(10) + address@ =~= rest.take(10 + n));
        assert(ciphered(st, rest.take(10 + n)) =~= said.take(10 + n));
        let c = ciphered(upload@, address@);
        assert forall|k: int| 0 <= k < n implies c[k] == said[10 + k] by {
            assert(c[k] == ciphered(st, rest.take(10 + n))[10 + k]);
        }
        assert(c =~= said.subrange(10, 10 + n));
    }
    upload.apply_keystream(&mut address);
    match read_utf8(address.as_slice()) {
        Err(cause) => AsheAccept::Refused(
            AsheError::AddressNotUtf8,
            Failure::caused(AsheError::AddressNotUtf8.message().as_str(), cause.as_str()),
        ),
        Ok(target) => AsheAccept::Accepted { target, upload, download, used: 42 + n },
    }
}

/// Whether a target fits into the opening of a handshake.
pub fn check_target_length(target: &str) -> (r: Result<(), AsheError>)
    ensures
        r == (if bytes_of(target@).len() <= 255 {
            Ok::<(), AsheError>(())
        } else {
            Err(AsheError::TargetTooLong)
        }),
{
    if to_bytes(target).len() > 255 {
        Err(AsheError::TargetTooLong)
    } else {
        Ok(())
    }
}

/// A chunk on its way through the relay.
pub fn relay_chunk(cipher: &mut Rc4State, chunk: &[u8]) -> (r: Vec<u8>)
    requires
        is_state(old(cipher)@),
    ensures
        r@ == ciphered(old(cipher)@, chunk@),
        final(cipher)@ == advanced(old(cipher)@, chunk@.len()),
        is_state(final(cipher)@),
{
    let mut out = slice_of(chunk, 0, chunk.len());
    assert(out@ =~= chunk@);
    cipher.apply_keystream(&mut out);
    out
}

/// The client understands the answer of a server that has its password.
pub proof fn answers_are_understood(st: Rc4View, code: u8)
    ensures
        ciphered(st, seq![ciphered(st, seq![code])[0]])[0] == code,
{
    let sent = ciphered(st, seq![code]);
    assert(seq![sent[0]] =~= sent);
    ciphering_twice_is_the_identity(st, seq![code]);
}

/// A server that has the password of the client accepts its opening while it is
/// fresh, learns the target, and goes on in the state of the client.
pub proof fn handshake_completes(
    random: Seq<u8>,
    timestamp: i64,
    password: Seq<char>,
    target: Seq<char>,
    more: Seq<u8>,
    now: int,
)
    requires
        random.len() == 32,
        bytes_of(target).len() <= 255,
        is_fresh(now, timestamp as int),
    ensures
        ({
            let st = session_state(random, password);
            let said = opening(timestamp, target);
            handshake(random + ciphered(st, said) + more, password, now) == (Handshake::Accepted {
                target,
                upload: advanced(st, said.len()),
                used: (32 + said.len()) as int,
            })
        }),
{
    let st = session_state(random, password);
    let said = opening(timestamp, target);
    let sent = ciphered(st, said);
    let b = random + sent + more;
    let n = bytes_of(target).len() as int;
    lemma_be64(timestamp as u64);
    assert(said.len() == 10 + n);
    assert(b.take(32) =~= random);
    assert(b.skip(32) =~= sent + more);
    pieces_do_not_matter(st, sent, more);
    ciphering_twice_is_the_identity(st, said);
    let heard = said_by_client(b, password);
    assert(heard =~= said + ciphered(advanced(st, sent.len()), more));
    assert(heard.take(8) =~= be64(timestamp as u64));
    assert((timestamp as u64) as i64 == timestamp) by (bit_vector);
    assert(heard[8] == ASHE_NET_TCP);
    assert(heard[9] as int == n);
    assert(heard.subrange(10, 10 + n) =~= bytes_of(target));
    crate::text::lemma_utf8_reads_back(target);
}

// ---------------------------------------------------------------------------
// Laws

/// What a client opens a handshake with is accepted by a server with the same
/// password while it is at most two minutes old or ahead: the server learns the
/// target, uses the whole message, and both sides go on in the same states.
pub proof fn openings_are_accepted(
    random: &[u8],
    timestamp: i64,
    password: &str,
    target: &str,
    o: AsheOpening,
    received: &[u8],
    more: Seq<u8>,
    now: i64,
    r: AsheAccept,
)
    requires
        random@.len() == 32,
        call_ensures(open_ashe, (random, timestamp, password, target), o),
        bytes_of(target@).len() <= 255,
        -120 <= now - timestamp <= 120,
        received@ == o.message@ + more,
        call_ensures(server_accept_ashe, (received, password, now), r),
    ensures
        o.message@.take(32) == random@,
        r matches AsheAccept::Accepted { target: t, upload, download, used } && t@ == target@
            && upload@ == o.upload@ && download@ == o.download@ && used == o.message@.len(),
{
    handshake_completes(random@, timestamp, password@, target@, more, now as int);
    assert(o.message@.take(32) =~= random@);
    assert(received@.take(32) =~= random@);
    let said = opening(timestamp, target@);
    assert((random@ + ciphered(session_state(random@, password@), said)).len() == 32 + said.len());
}

/// A part of an opening makes the server wait, for no more than what is still to
/// come; an opening that is too old or too far ahead is refused.
pub proof fn parts_of_openings_are_waited_for(
    random: &[u8],
    timestamp: i64,
    password: &str,
    target: &str,
    o: AsheOpening,
    received: &[u8],
    now: i64,
    r: AsheAccept,
)
    requires
        random@.len() == 32,
        call_ensures(open_ashe, (random, timestamp, password, target), o),
        bytes_of(target@).len() <= 255,
        received@.len() <= o.message@.len(),
        received@ == o.message@.take(received@.len() as int),
        call_ensures(server_accept_ashe, (received, password, now), r),
    ensures
        received@.len() < o.message@.len() && (received@.len() < 40 || -120 <= now - timestamp
            <= 120) ==> (r matches AsheAccept::Incomplete { missing } && 0 < missing <= o.message@.len()
            - received@.len()),
        received@.len() >= 40 && !(-120 <= now - timestamp <= 120) ==> (r matches AsheAccept::Refused(
            e,
            _,
        ) && e == AsheError::Expired),
{
    let st = session_state(random@, password@);
    let said = opening(timestamp, target@);
    let sent = ciphered(st, said);
    let b = received@;
    let n = bytes_of(target@).len() as int;
    lemma_be64(timestamp as u64);
    assert(said.len() == 10 + n);
    assert(o.message@.len() == 42 + n);
    if b.len() >= 32 {
        assert(b.take(32) =~= random@);
        assert(b.skip(32) =~= sent.take(b.len() - 32));
        ciphering_twice_is_the_identity(st, said);
        let heard = said_by_client(b, password@);
        assert(heard =~= ciphered(st, sent).take(b.len() - 32));
        assert(heard =~= said.take(b.len() - 32));
        if b.len() >= 40 {
            assert(heard.take(8) =~= be64(timestamp as u64));
            assert((timestamp as u64) as i64 == timestamp) by (bit_vector);
        }
        if b.len() >= 42 {
            assert(heard[8] == said[8] == ASHE_NET_TCP);
            assert(heard[9] == said[9]);
            assert(heard[9] as int == n);
        }
    }
}

/// The client learns what the server answers: zero is success and every other code
/// a refusal, and both sides go on in the same state.
pub proof fn answers_reach_the_client(
    server: &mut Rc4State,
    code: u8,
    sent: u8,
    client: &mut Rc4State,
    r: Result<(), AsheError>,
)
    requires
        is_state(old(server)@),
        old(client)@ == old(server)@,
        call_ensures(reply, (server, code), sent),
        call_ensures(accept_reply, (client, sent), r),
    ensures
        r is Ok <==> code == 0,
        r is Err <==> r == Err::<(), AsheError>(AsheError::Refused),
        final(client)@ == final(server)@,
{
    answers_are_understood(old(server)@, code);
}

/// What one side sends through the relay the other side gets, byte for byte, and
/// both go on in the same state.
pub proof fn chunks_cross_the_relay(
    sender: &mut Rc4State,
    chunk: &[u8],
    sent: Vec<u8>,
    receiver: &mut Rc4State,
    got: Vec<u8>,
    wire: &[u8],
)
    requires
        is_state(old(sender)@),
        old(receiver)@ == old(sender)@,
        call_ensures(relay_chunk, (sender, chunk), sent),
        wire@ == sent@,
        call_ensures(relay_chunk, (receiver, wire), got),
    ensures
        sent@.len() == chunk@.len(),
        got@ == chunk@,
        final(receiver)@ == final(sender)@,
        is_state(final(sender)@),
{
    ciphering_twice_is_the_identity(old(sender)@, chunk@);
}

/// How a relayed stream is cut into chunks does not matter: two chunks come out as
/// the two together would, and leave the same state.
pub proof fn chunks_can_be_cut_anywhere(
    whole: &mut Rc4State,
    chunk: &[u8],
    all: Vec<u8>,
    first: &mut Rc4State,
    head: &[u8],
    a: Vec<u8>,
    second: &mut Rc4State,
    tail: &[u8],
    b: Vec<u8>,
)
    requires
        is_state(old(whole)@),
        old(first)@ == old(whole)@,
        *old(second) == *final(first),
        chunk@ == head@ + tail@,
        call_ensures(relay_chunk, (whole, chunk), all),
        call_ensures(relay_chunk, (first, head), a),
        call_ensures(relay_chunk, (second, tail), b),
    ensures
        all@ == a@ + b@,
        final(second)@ == final(whole)@,
{
    pieces_do_not_matter(old(whole)@, head@, tail@);
}

/// A time is accepted just where it is within two minutes of the clock.
pub proof fn times_are_accepted_for_two_minutes(
    now: i64,
    timestamp: i64,
    r: Result<(), AsheError>,
    other: Result<(), AsheError>,
)
    requires
        call_ensures(validate_timestamp_at, (now, timestamp), r),
        call_ensures(validate_timestamp_at, (timestamp, now), other),
    ensures
        r is Ok <==> timestamp - 120 <= now <= timestamp + 120,
        r == other,
{
}

/// A target is taken just where its length fits into one byte.
pub proof fn long_targets_are_refused(target: &str, r: Result<(), AsheError>)
    requires
        call_ensures(check_target_length, (target,), r),
    ensures
        r is Ok <==> bytes_of(target@).len() < 256,
{
}

/// A key is made byte by byte of a random value and a digest, and gives each back with
/// the other; a failure to read an answer ends with its cause.
pub proof fn keys_are_made_byte_by_byte(
    random: &[u8],
    digest: &[u8],
    key: Vec<u8>,
    i: int,
    cause: Failure,
    f: Failure,
)
    requires
        random@.len() == digest@.len(),
        call_ensures(xor_key, (random, digest), key),
        0 <= i < random@.len(),
        call_ensures(response_failure, (cause,), f),
    ensures
        key@.len() == random@.len(),
        key@[i] ^ digest@[i] == random@[i],
        f@.skip(1) == cause@,
{
    let a = random@[i];
    let b = digest@[i];
    assert((a ^ b) ^ b == a) by (bit_vector);
    assert(f@.skip(1) =~= cause@);
}

} // verus!
