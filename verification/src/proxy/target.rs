//! Which addresses a server may connect to.

use vstd::prelude::*;
use crate::failure::{outcome, Failure};
use crate::ip::{
    is_link_local_v4, is_link_local_v6, is_private_range, is_unique_local_v6, link_local_v4,
    link_local_v6, private_v4, segment, unique_local_v6, v6_segments, IpAddr, SocketAddr,
};
use crate::net::{any_has, reserved};
use crate::text::{cat, cat3};

verus! {

/// The IPv4 addresses that are not public: private, shared, loopback, link
/// local, test, benchmark, multicast and reserved ones.
pub open spec fn restricted_v4(n: u32) -> bool {
    let a = n / 16777216;
    let b = n / 65536 % 256;
    let c = n / 256 % 256;
    ||| private_v4(n)
    ||| link_local_v4(n)
    ||| a == 0
    ||| a == 127
    ||| a == 100 && 64 <= b <= 127
    ||| a == 192 && b == 0
    ||| a == 198 && (b == 18 || b == 19)
    ||| a == 198 && b == 51 && c == 100
    ||| a == 203 && b == 0 && c == 113
    ||| a >= 224
}

/// The IPv6 addresses that are not public, and those that write such an IPv4
/// address.
pub open spec fn restricted_v6(n: u128) -> bool {
    ||| n == 0
    ||| n == 1
    ||| unique_local_v6(n)
    ||| link_local_v6(n)
    ||| segment(n, 0) & 0xff00 == 0xff00
    ||| n / 0x1_0000_0000 == 0xffff && restricted_v4((n % 0x1_0000_0000) as u32)
    ||| segment(n, 0) == 0x2001 && segment(n, 1) == 0x0db8
}

/// Whether an address is not public.
pub open spec fn restricted(ip: IpAddr) -> bool {
    match ip {
        IpAddr::V4(n) => restricted_v4(n),
        IpAddr::V6(n) => restricted_v6(n),
    }
}

/// Whether an IPv4 address is not public.
pub fn is_restricted_v4(n: u32) -> (r: bool)
    ensures
        r == restricted_v4(n),
{
    let a: u32 = n / 16777216;
    let b: u32 = n / 65536 % 256;
    let c: u32 = n / 256 % 256;
    is_private_range(n) || is_link_local_v4(n) || a == 0 || a == 127 || (a == 100 && 64 <= b && b
        <= 127) || (a == 192 && b == 0) || (a == 198 && (b == 18 || b == 19)) || (a == 198 && b
        == 51 && c == 100) || (a == 203 && b == 0 && c == 113) || a >= 224
}

/// Whether an IPv6 address is not public.
pub fn is_restricted_v6(n: u128) -> (r: bool)
    ensures
        r == restricted_v6(n),
{
    let s = v6_segments(n);
    assert(s@[0] == segment(n, 0) && s@[1] == segment(n, 1));
    n == 0 || n == 1 || is_unique_local_v6(n) || is_link_local_v6(n) || s[0] & 0xff00 == 0xff00 || (n
        / 0x1_0000_0000 == 0xffff && is_restricted_v4((n % 0x1_0000_0000) as u32)) || (s[0] == 0x2001
        && s[1] == 0x0db8)
}

/// Whether an address is not public.
pub fn is_restricted_target_ip(ip: IpAddr) -> (r: bool)
    ensures
        r == restricted(ip),
{
    match ip {
        IpAddr::V4(n) => is_restricted_v4(n),
        IpAddr::V6(n) => is_restricted_v6(n),
    }
}

/// The addresses among `addrs` that are public.
pub open spec fn public_addrs(addrs: Seq<SocketAddr>) -> Seq<SocketAddr> {
    addrs.filter(|a: SocketAddr| !restricted(a.ip))
}

/// The addresses that a server may try for a target.
pub open spec fn allowed_addrs(target: Seq<char>, addrs: Seq<SocketAddr>, allow_private: bool) -> Result<
    Seq<SocketAddr>,
    Seq<Seq<char>>,
> {
    if addrs.len() == 0 {
        Err(seq!["target "@ + target + " resolved no addresses"@])
    } else if allow_private {
        Ok(addrs)
    } else if public_addrs(addrs).len() == 0 {
        Err(seq!["private IP targets are disabled by default"@])
    } else {
        Ok(public_addrs(addrs))
    }
}

/// The addresses that a server may try for a target, out of those that its
/// name has.
pub fn resolve_allowed_target_addrs(
    target: &str,
    addrs: Vec<SocketAddr>,
    allow_private_targets: bool,
) -> (r: Result<Vec<SocketAddr>, Failure>)
    ensures
        match (outcome(r), allowed_addrs(target@, addrs@, allow_private_targets)) {
            (Ok(v), Ok(s)) => v@ == s,
            (Err(e), Err(f)) => e == f,
            _ => false,
        },
{
    if addrs.len() == 0 {
        return Err(Failure::new(cat3("target ", target, " resolved no addresses").as_str()));
    }
    if allow_private_targets {
        return Ok(addrs);
    }
    let mut allowed: Vec<SocketAddr> = Vec::new();
    let mut i: usize = 0;
    let ghost public = |a: SocketAddr| !restricted(a.ip);
    proof {
        reveal(Seq::filter);
        assert(addrs@.take(0) =~= Seq::<SocketAddr>::empty());
    }
    while i < addrs.len()
        invariant
            i <= addrs@.len(),
            public == |a: SocketAddr| !restricted(a.ip),
            allowed@ == addrs@.take(i as int).filter(public),
        decreases addrs@.len() - i,
    {
        proof {
            reveal(Seq::filter);
            assert(addrs@.take(i + 1).drop_last() =~= addrs@.take(i as int));
            assert(addrs@.take(i + 1).last() == addrs@[i as int]);
        }
        if !is_restricted_target_ip(addrs[i].ip) {
            allowed.push(addrs[i]);
        }
        i = i + 1;
    }
    assert(addrs@.take(i as int) =~= addrs@);
    if allowed.len() == 0 {
        return Err(Failure::new("private IP targets are disabled by default"));
    }
    Ok(allowed)
}

/// The next step towards a connection.
pub enum Attempt {
    /// Connect to the address.
    Connect(SocketAddr),
    /// No address is left.
    Failed(Failure),
}

/// The next step towards a connection to a target after `failed` addresses
/// could not be reached, given how the last of them failed.
pub fn connect_tcp_target(
    target: &str,
    addrs: &Vec<SocketAddr>,
    failed: usize,
    last: Option<Failure>,
) -> (r: Attempt)
    ensures
        match r {
            Attempt::Connect(a) => failed < addrs@.len() && a == addrs@[failed as int],
            Attempt::Failed(e) => failed >= addrs@.len() && e@ == match last {
                Some(cause) => seq!["failed to connect to "@ + target@] + cause@,
                None => seq!["target "@ + target@ + " resolved no allowed addresses"@],
            },
        },
{
    if failed < addrs.len() {
        return Attempt::Connect(addrs[failed]);
    }
    match last {
        Some(cause) => Attempt::Failed(
            cause.context(cat("failed to connect to ", target).as_str()),
        ),
        None => Attempt::Failed(
            Failure::new(cat3("target ", target, " resolved no allowed addresses").as_str()),
        ),
    }
}

/// The IPv6 address that writes an IPv4 address.
pub open spec fn mapped(n: u32) -> u128 {
    (0xffff_0000_0000 + n) as u128
}

proof fn lemma_shifts(x: u32)
    by (bit_vector)
    ensures
        x >> 28u32 == x / 268435456,
        x >> 24u32 == x / 16777216,
        x >> 22u32 == x / 4194304,
        x >> 20u32 == x / 1048576,
        x >> 17u32 == x / 131072,
        x >> 16u32 == x / 65536,
        x >> 8u32 == x / 256,
{
}

/// An address that routers take for reserved is no public target, also where an
/// IPv4 address is written as an IPv6 one.
pub proof fn reserved_addresses_are_restricted(ip: IpAddr)
    requires
        any_has(reserved(), ip),
    ensures
        restricted(ip),
        ip matches IpAddr::V4(n) ==> restricted(IpAddr::V6(mapped(n))),
{
    let i = choose|i: int| 0 <= i < reserved().len() && (#[trigger] reserved()[i]).has(ip);
    match ip {
        IpAddr::V4(n) => {
            let a = match reserved()[i].addr {
                IpAddr::V4(a) => a,
                IpAddr::V6(_) => 0,
            };
            lemma_shifts(n);
            lemma_shifts(a);
            assert(restricted_v4(n));
            assert(mapped(n) / 0x1_0000_0000 == 0xffff);
            assert(mapped(n) % 0x1_0000_0000 == n);
        },
        IpAddr::V6(n) => {
            assert(n >> 0u128 == n) by (bit_vector);
            assert(0u128 >> 0u128 == 0u128 && 1u128 >> 0u128 == 1u128) by (bit_vector);
        },
    }
}

/// No address that a server may try is restricted, unless private targets are
/// allowed.
pub proof fn private_targets_stay_out_of_reach(
    target: Seq<char>,
    addrs: Seq<SocketAddr>,
    i: int,
)
    requires
        allowed_addrs(target, addrs, false) is Ok,
        0 <= i < allowed_addrs(target, addrs, false)->Ok_0.len(),
    ensures
        !restricted(allowed_addrs(target, addrs, false)->Ok_0[i].ip),
        addrs.contains(allowed_addrs(target, addrs, false)->Ok_0[i]),
{
    let public = |a: SocketAddr| !restricted(a.ip);
    addrs.lemma_filter_pred(public, i);
    addrs.lemma_filter_contains_rev(public, addrs.filter(public)[i]);
}

/// The addresses that are not public are these ranges; an IPv4 address that is
/// written as an IPv6 one is public just where it is by itself.
pub proof fn restricted_addresses_are_ranges(n: u32, m: u128, r: bool, s: bool, t: bool)
    requires
        call_ensures(is_restricted_target_ip, (IpAddr::V4(n),), r),
        call_ensures(is_restricted_target_ip, (IpAddr::V6(mapped(n)),), s),
        call_ensures(is_restricted_target_ip, (IpAddr::V6(m),), t),
    ensures
        r <==> n <= 0x00ff_ffff || 0x0a00_0000 <= n <= 0x0aff_ffff || 0x6440_0000 <= n <= 0x647f_ffff
            || 0x7f00_0000 <= n <= 0x7fff_ffff || 0xa9fe_0000 <= n <= 0xa9fe_ffff || 0xac10_0000 <= n
            <= 0xac1f_ffff || 0xc000_0000 <= n <= 0xc000_ffff || 0xc0a8_0000 <= n <= 0xc0a8_ffff
            || 0xc612_0000 <= n <= 0xc613_ffff || 0xc633_6400 <= n <= 0xc633_64ff || 0xcb00_7100 <= n
            <= 0xcb00_71ff || 0xe000_0000 <= n,
        s <==> r,
        !(0xffff_0000_0000 <= m <= 0xffff_ffff_ffff) ==> (t <==> m <= 1
            || 0x2001_0db8_0000_0000_0000_0000_0000_0000 <= m
            <= 0x2001_0db8_ffff_ffff_ffff_ffff_ffff_ffff
            || 0xfc00_0000_0000_0000_0000_0000_0000_0000 <= m
            <= 0xfdff_ffff_ffff_ffff_ffff_ffff_ffff_ffff
            || 0xfe80_0000_0000_0000_0000_0000_0000_0000 <= m
            <= 0xfebf_ffff_ffff_ffff_ffff_ffff_ffff_ffff
            || 0xff00_0000_0000_0000_0000_0000_0000_0000 <= m),
{
    let k = mapped(n);
    assert(k / 0x1_0000_0000 == 0xffff);
    assert(k % 0x1_0000_0000 == n);
    crate::ip::lemma_group_ranges(k);
    crate::ip::lemma_group_ranges(m);
    assert(!(0xffff_0000_0000 <= m <= 0xffff_ffff_ffff) ==> m / 0x1_0000_0000 != 0xffff);
}

/// A server may try just those addresses of a target that are public, in their
/// order, or all of them where private targets are allowed; where none is left, it
/// may not try any.
pub proof fn servers_try_public_addresses(
    target: &str,
    addrs: Vec<SocketAddr>,
    allow_private_targets: bool,
    r: Result<Vec<SocketAddr>, Failure>,
    a: SocketAddr,
    restricted_ip: bool,
)
    requires
        call_ensures(resolve_allowed_target_addrs, (target, addrs, allow_private_targets), r),
        call_ensures(is_restricted_target_ip, (a.ip,), restricted_ip),
    ensures
        addrs@.len() == 0 ==> r is Err,
        allow_private_targets && addrs@.len() > 0 ==> (r matches Ok(v) && v@ == addrs@),
        addrs@.contains(a) && (allow_private_targets || !restricted_ip) ==> (r matches Ok(v)
            && v@.contains(a)),
        r matches Ok(v) ==> v@.len() > 0 && (v@.contains(a) ==> addrs@.contains(a) && (
        allow_private_targets || !restricted_ip)),
{
    let public = |x: SocketAddr| !restricted(x.ip);
    if addrs@.contains(a) && !restricted_ip {
        let i = choose|i: int| 0 <= i < addrs@.len() && addrs@[i] == a;
        addrs@.lemma_filter_contains(public, i);
        assert(public_addrs(addrs@).contains(a));
    }
    if !allow_private_targets && addrs@.len() > 0 {
        if let Ok(v) = r {
            if v@.contains(a) {
                let i = choose|i: int| 0 <= i < v@.len() && v@[i] == a;
                addrs@.lemma_filter_pred(public, i);
                addrs@.lemma_filter_contains_rev(public, a);
            }
        }
    }
}

/// The addresses of a target are tried in turn, and only when all have failed does
/// the connection fail, with the cause of the last.
pub proof fn addresses_are_tried_in_turn(
    target: &str,
    addrs: &Vec<SocketAddr>,
    failed: usize,
    last: Option<Failure>,
    r: Attempt,
)
    requires
        call_ensures(connect_tcp_target, (target, addrs, failed, last), r),
    ensures
        failed < addrs@.len() ==> r == Attempt::Connect(addrs@[failed as int]),
        failed >= addrs@.len() ==> r is Failed && match last {
            Some(cause) => (r->Failed_0)@.len() == cause@.len() + 1 && (r->Failed_0)@.skip(1)
                == cause@,
            None => (r->Failed_0)@.len() == 1,
        },
{
    if let Attempt::Failed(e) = r {
        if let Some(cause) = last {
            assert(e@.skip(1) =~= cause@);
        }
    }
}

} // verus!
