//! IP addresses, networks and socket addresses as plain values.

use vstd::prelude::*;
use crate::num::{all_digits, decimal, digits_value, parse_unsigned, to_decimal};
use crate::text::{cat, is_digit, split, split_first, split_on, split_once, to_chars, views};

verus! {

/// An IP address, as the number that its bytes write.
#[derive(Clone, Copy, Debug, PartialEq, Eq, Structural)]
pub enum IpAddr {
    V4(u32),
    V6(u128),
}

/// An IP address and a port.
#[derive(Clone, Copy, Debug, PartialEq, Eq, Structural)]
pub struct SocketAddr {
    pub ip: IpAddr,
    pub port: u16,
}

/// The IPv4 address with the given bytes.
pub open spec fn v4_number(a: u8, b: u8, c: u8, d: u8) -> u32 {
    (a * 16777216 + b * 65536 + c * 256 + d) as u32
}

/// The IPv4 address with the given bytes.
pub fn v4(a: u8, b: u8, c: u8, d: u8) -> (r: IpAddr)
    ensures
        r == IpAddr::V4(v4_number(a, b, c, d)),
{
    IpAddr::V4(a as u32 * 16777216 + b as u32 * 65536 + c as u32 * 256 + d as u32)
}

/// The group of 16 bits with number `i` of an IPv6 address.
pub open spec fn segment(ip: u128, i: int) -> u16 {
    (if i == 0 {
        (ip >> 112) & 0xffff
    } else if i == 1 {
        (ip >> 96) & 0xffff
    } else if i == 2 {
        (ip >> 80) & 0xffff
    } else if i == 3 {
        (ip >> 64) & 0xffff
    } else if i == 4 {
        (ip >> 48) & 0xffff
    } else if i == 5 {
        (ip >> 32) & 0xffff
    } else if i == 6 {
        (ip >> 16) & 0xffff
    } else {
        ip & 0xffff
    }) as u16
}

/// The eight groups of an IPv6 address.
pub open spec fn segments(ip: u128) -> Seq<u16> {
    Seq::new(8, |i: int| segment(ip, i))
}

/// The eight groups of an IPv6 address.
pub fn v6_segments(ip: u128) -> (r: Vec<u16>)
    ensures
        r@ == segments(ip),
{
    let mut v: Vec<u16> = Vec::new();
    v.push(((ip >> 112) & 0xffff) as u16);
    v.push(((ip >> 96) & 0xffff) as u16);
    v.push(((ip >> 80) & 0xffff) as u16);
    v.push(((ip >> 64) & 0xffff) as u16);
    v.push(((ip >> 48) & 0xffff) as u16);
    v.push(((ip >> 32) & 0xffff) as u16);
    v.push(((ip >> 16) & 0xffff) as u16);
    v.push((ip & 0xffff) as u16);
    assert(v@ =~= segments(ip));
    v
}

/// The IPv6 address with the given groups.
pub open spec fn v6_number(s: Seq<u16>) -> u128 {
    ((s[0] as u128) << 112) | ((s[1] as u128) << 96) | ((s[2] as u128) << 80) | ((s[3] as u128)
        << 64) | ((s[4] as u128) << 48) | ((s[5] as u128) << 32) | ((s[6] as u128) << 16) | (
    s[7] as u128)
}

/// The IPv6 address with the given groups.
pub fn v6_from_segments(s: &Vec<u16>) -> (r: u128)
    requires
        s@.len() == 8,
    ensures
        r == v6_number(s@),
{
    ((s[0] as u128) << 112) | ((s[1] as u128) << 96) | ((s[2] as u128) << 80) | ((s[3] as u128)
        << 64) | ((s[4] as u128) << 48) | ((s[5] as u128) << 32) | ((s[6] as u128) << 16) | (
    s[7] as u128)
}

/// The groups of an IPv6 address give the address back.
pub proof fn segments_give_the_address(ip: u128)
    ensures
        v6_number(segments(ip)) == ip,
{
    let s = segments(ip);
    assert(((((ip >> 112) & 0xffff) as u16) as u128) << 112 | ((((ip >> 96) & 0xffff) as u16)
        as u128) << 96 | ((((ip >> 80) & 0xffff) as u16) as u128) << 80 | ((((ip >> 64) & 0xffff)
        as u16) as u128) << 64 | ((((ip >> 48) & 0xffff) as u16) as u128) << 48 | ((((ip >> 32)
        & 0xffff) as u16) as u128) << 32 | ((((ip >> 16) & 0xffff) as u16) as u128) << 16 | (((ip
        & 0xffff) as u16) as u128) == ip) by (bit_vector);
}

/// The sixteen bytes of an IPv6 address: two for each group.
pub open spec fn v6_bytes(ip: u128) -> Seq<u8> {
    Seq::new(
        16,
        |i: int|
            if i % 2 == 0 {
                (segment(ip, i / 2) / 256) as u8
            } else {
                (segment(ip, i / 2) % 256) as u8
            },
    )
}

/// The IPv6 address with the given bytes.
pub open spec fn v6_of_bytes(b: Seq<u8>) -> u128 {
    v6_number(Seq::new(8, |i: int| (b[2 * i] * 256 + b[2 * i + 1]) as u16))
}

/// Appends the sixteen bytes of an IPv6 address.
pub fn push_v6(out: &mut Vec<u8>, ip: u128)
    ensures
        final(out)@ == old(out)@ + v6_bytes(ip),
{
    let s = v6_segments(ip);
    let ghost before = out@;
    let mut i: usize = 0;
    while i < 8
        invariant
            i <= 8,
            s@ == segments(ip),
            out@ == before + v6_bytes(ip).take(2 * i as int),
        decreases 8 - i,
    {
        out.push((s[i] / 256) as u8);
        out.push((s[i] % 256) as u8);
        assert(s@[i as int] == segment(ip, i as int));
        assert((2 * i) / 2 == i);
        assert(out@ =~= before + v6_bytes(ip).take(2 * (i + 1) as int));
        i = i + 1;
    }
    assert(v6_bytes(ip).take(16) =~= v6_bytes(ip));
}

/// The IPv6 address whose bytes stand in `b` from `at` on.
pub fn read_v6(b: &[u8], at: usize) -> (r: u128)
    requires
        at + 16 <= b@.len(),
    ensures
        r == v6_of_bytes(b@.subrange(at as int, at + 16)),
{
    let n: usize = b.len();
    let ghost part = b@.subrange(at as int, at + 16);
    let mut s: Vec<u16> = Vec::new();
    let mut i: usize = 0;
    while i < 8
        invariant
            i <= 8,
            at + 16 <= n == b@.len(),
            part == b@.subrange(at as int, at + 16),
            s@.len() == i,
            forall|k: int|
                0 <= k < i ==> #[trigger] s@[k] == (part[2 * k] * 256 + part[2 * k + 1]) as u16,
        decreases 8 - i,
    {
        s.push(b[at + 2 * i] as u16 * 256 + b[at + 2 * i + 1] as u16);
        i = i + 1;
    }
    assert(s@ =~= Seq::new(8, |k: int| (part[2 * k] * 256 + part[2 * k + 1]) as u16));
    v6_from_segments(&s)
}

/// The bytes of an IPv6 address give the address back.
pub proof fn v6_bytes_give_the_address(ip: u128)
    ensures
        v6_of_bytes(v6_bytes(ip)) == ip,
{
    let b = v6_bytes(ip);
    let s = Seq::new(8, |i: int| (b[2 * i] * 256 + b[2 * i + 1]) as u16);
    assert forall|i: int| 0 <= i < 8 implies s[i] == segments(ip)[i] by {
        assert((2 * i) / 2 == i);
        assert((2 * i + 1) / 2 == i);
        let g = segment(ip, i);
        assert(b[2 * i] == (g / 256) as u8);
        assert(b[2 * i + 1] == (g % 256) as u8);
    }
    assert(s =~= segments(ip));
    segments_give_the_address(ip);
}

// ---------------------------------------------------------------------------
// Kinds of addresses

/// Whether an address belongs to the local host.
pub open spec fn loopback(ip: IpAddr) -> bool {
    match ip {
        IpAddr::V4(n) => n / 16777216 == 127,
        IpAddr::V6(n) => n == 1,
    }
}

/// Whether an address is the address of no host.
pub open spec fn unspecified(ip: IpAddr) -> bool {
    match ip {
        IpAddr::V4(n) => n == 0,
        IpAddr::V6(n) => n == 0,
    }
}

/// The IPv4 addresses 10.0.0.0/8, 172.16.0.0/12 and 192.168.0.0/16.
pub open spec fn private_v4(n: u32) -> bool {
    ||| n / 16777216 == 10
    ||| n / 16777216 == 172 && 16 <= n / 65536 % 256 <= 31
    ||| n / 65536 == 192 * 256 + 168
}

/// The IPv4 addresses 169.254.0.0/16.
pub open spec fn link_local_v4(n: u32) -> bool {
    n / 65536 == 169 * 256 + 254
}

/// The IPv6 addresses fc00::/7.
pub open spec fn unique_local_v6(n: u128) -> bool {
    segment(n, 0) & 0xfe00 == 0xfc00
}

/// The IPv6 addresses fe80::/10.
pub open spec fn link_local_v6(n: u128) -> bool {
    segment(n, 0) & 0xffc0 == 0xfe80
}

/// Whether an address belongs to the local host.
pub fn is_loopback(ip: IpAddr) -> (r: bool)
    ensures
        r == loopback(ip),
{
    match ip {
        IpAddr::V4(n) => n / 16777216 == 127,
        IpAddr::V6(n) => n == 1,
    }
}

/// Whether an address is the address of no host.
pub fn is_unspecified(ip: IpAddr) -> (r: bool)
    ensures
        r == unspecified(ip),
{
    match ip {
        IpAddr::V4(n) => n == 0,
        IpAddr::V6(n) => n == 0,
    }
}

/// The IPv4 addresses 10.0.0.0/8, 172.16.0.0/12 and 192.168.0.0/16.
pub fn is_private_range(n: u32) -> (r: bool)
    ensures
        r == private_v4(n),
{
    n / 16777216 == 10 || (n / 16777216 == 172 && 16 <= n / 65536 % 256 && n / 65536 % 256 <= 31)
        || n / 65536 == 192 * 256 + 168
}

/// The IPv4 addresses 169.254.0.0/16.
pub fn is_link_local_v4(n: u32) -> (r: bool)
    ensures
        r == link_local_v4(n),
{
    n / 65536 == 169 * 256 + 254
}

/// The IPv6 addresses fc00::/7.
pub fn is_unique_local_v6(n: u128) -> (r: bool)
    ensures
        r == unique_local_v6(n),
{
    let g: u16 = ((n >> 112) & 0xffff) as u16;
    g & 0xfe00 == 0xfc00
}

/// The IPv6 addresses fe80::/10.
pub fn is_link_local_v6(n: u128) -> (r: bool)
    ensures
        r == link_local_v6(n),
{
    let g: u16 = ((n >> 112) & 0xffff) as u16;
    g & 0xffc0 == 0xfe80
}

// ---------------------------------------------------------------------------
// Reading addresses

/// A number of one to three digits, without leading zeros, of at most 255.
pub open spec fn octet_value(s: Seq<char>) -> Option<int> {
    if 1 <= s.len() <= 3 && all_digits(s) && (s.len() > 1 ==> s[0] != '0') && digits_value(s)
        <= 255 {
        Some(digits_value(s))
    } else {
        None
    }
}

/// The IPv4 address that `s` writes: four numbers with dots between them.
pub open spec fn v4_value(s: Seq<char>) -> Option<u32> {
    let p = split(s, seq!['.']);
    if p.len() == 4 && octet_value(p[0]) is Some && octet_value(p[1]) is Some && octet_value(p[2])
        is Some && octet_value(p[3]) is Some {
        Some(
            v4_number(
                octet_value(p[0])->0 as u8,
                octet_value(p[1])->0 as u8,
                octet_value(p[2])->0 as u8,
                octet_value(p[3])->0 as u8,
            ),
        )
    } else {
        None
    }
}

/// The value of a hexadecimal digit of either case.
pub open spec fn hex_char(c: char) -> Option<int> {
    if is_digit(c) {
        Some(c as int - 48)
    } else if 'a' <= c && c <= 'f' {
        Some(c as int - 87)
    } else if 'A' <= c && c <= 'F' {
        Some(c as int - 55)
    } else {
        None
    }
}

/// Whether `s` consists of hexadecimal digits.
pub open spec fn all_hex(s: Seq<char>) -> bool {
    forall|i: int| 0 <= i < s.len() ==> hex_char(#[trigger] s[i]) is Some
}

/// The number that the hexadecimal digits of `s` write.
pub open spec fn hex_number(s: Seq<char>) -> int
    decreases s.len(),
{
    if s.len() == 0 {
        0
    } else {
        hex_number(s.drop_last()) * 16 + hex_char(s.last())->0
    }
}

/// A group of an IPv6 address: one to four hexadecimal digits.
pub open spec fn group_value(s: Seq<char>) -> Option<int> {
    if 1 <= s.len() <= 4 && all_hex(s) {
        Some(hex_number(s))
    } else {
        None
    }
}

/// The groups that `parts` write; the last part may be an IPv4 address, which
/// stands for two groups, where `v4_last` says so.
pub open spec fn groups_value(parts: Seq<Seq<char>>, v4_last: bool) -> Option<Seq<u16>>
    decreases parts.len(),
{
    if parts.len() == 0 {
        Some(seq![])
    } else if parts.len() == 1 && v4_last && v4_value(parts[0]) is Some {
        let n = v4_value(parts[0])->0;
        Some(seq![(n / 65536) as u16, (n % 65536) as u16])
    } else {
        match (group_value(parts[0]), groups_value(parts.skip(1), v4_last)) {
            (Some(g), Some(rest)) => Some(seq![g as u16] + rest),
            _ => None,
        }
    }
}

/// The groups on one side of the double colon of an IPv6 address.
pub open spec fn side_value(s: Seq<char>, v4_last: bool) -> Option<Seq<u16>> {
    if s.len() == 0 {
        Some(seq![])
    } else {
        groups_value(split(s, seq![':']), v4_last)
    }
}

/// `n` groups that are zero.
pub open spec fn zero_groups(n: int) -> Seq<u16> {
    Seq::new(
        if n > 0 {
            n as nat
        } else {
            0
        },
        |i: int| 0u16,
    )
}

/// The IPv6 address that `s` writes: eight groups with colons between them, or
/// fewer where a double colon stands for at least one group that is zero.
pub open spec fn v6_value(s: Seq<char>) -> Option<u128> {
    match split_first(s, seq![':', ':']) {
        Some((head, tail)) => match (side_value(head, false), side_value(tail, true)) {
            (Some(a), Some(b)) => if a.len() + b.len() <= 7 {
                Some(v6_number(a + zero_groups(8 - a.len() - b.len()) + b))
            } else {
                None
            },
            _ => None,
        },
        None => match groups_value(split(s, seq![':']), true) {
            Some(g) => if g.len() == 8 {
                Some(v6_number(g))
            } else {
                None
            },
            None => None,
        },
    }
}

/// The IP address that `s` writes.
pub open spec fn ip_value(s: Seq<char>) -> Option<IpAddr> {
    match v4_value(s) {
        Some(n) => Some(IpAddr::V4(n)),
        None => match v6_value(s) {
            Some(n) => Some(IpAddr::V6(n)),
            None => None,
        },
    }
}

fn parse_octet(s: &str) -> (r: Option<u8>)
    ensures
        match r {
            Some(n) => octet_value(s@) == Some(n as int),
            None => octet_value(s@) is None,
        },
{
    let cs = to_chars(s);
    let n: usize = cs.len();
    if n == 0 || n > 3 {
        return None;
    }
    if n > 1 && cs[0] == '0' {
        return None;
    }
    if cs[0] == '+' {
        assert(!is_digit(s@[0]));
        return None;
    }
    assert(crate::num::without_plus(s@) == s@);
    match parse_unsigned(s, 255) {
        Some(v) => Some(v as u8),
        None => None,
    }
}

/// The IPv4 address that `s` writes.
pub fn parse_v4(s: &str) -> (r: Option<u32>)
    ensures
        r == v4_value(s@),
{
    proof {
        reveal_strlit(".");
        assert("."@ =~= seq!['.']);
    }
    let p = split_on(s, ".");
    let ghost parts = split(s@, seq!['.']);
    assert(parts == views(p@));
    if p.len() != 4 {
        return None;
    }
    assert(parts[0] == p@[0]@ && parts[1] == p@[1]@ && parts[2] == p@[2]@ && parts[3] == p@[3]@);
    match (
        parse_octet(p[0].as_str()),
        parse_octet(p[1].as_str()),
        parse_octet(p[2].as_str()),
        parse_octet(p[3].as_str()),
    ) {
        (Some(a), Some(b), Some(c), Some(d)) => Some(
            a as u32 * 16777216 + b as u32 * 65536 + c as u32 * 256 + d as u32,
        ),
        _ => None,
    }
}

fn hex_char_value(c: char) -> (r: Option<u8>)
    ensures
        match r {
            Some(v) => hex_char(c) == Some(v as int) && v < 16,
            None => hex_char(c) is None,
        },
{
    if '0' <= c && c <= '9' {
        Some(c as u8 - 48)
    } else if 'a' <= c && c <= 'f' {
        Some(c as u8 - 87)
    } else if 'A' <= c && c <= 'F' {
        Some(c as u8 - 55)
    } else {
        None
    }
}

fn parse_group(s: &str) -> (r: Option<u16>)
    ensures
        match r {
            Some(g) => group_value(s@) == Some(g as int),
            None => group_value(s@) is None,
        },
{
    let cs = to_chars(s);
    if cs.len() == 0 || cs.len() > 4 {
        return None;
    }
    let mut value: u32 = 0;
    let mut i: usize = 0;
    while i < cs.len()
        invariant
            i <= cs@.len() <= 4,
            cs@ == s@,
            forall|k: int| 0 <= k < i ==> hex_char(#[trigger] s@[k]) is Some,
            value == hex_number(s@.take(i as int)),
            i == 0 ==> value == 0,
            i == 1 ==> value < 0x10,
            i == 2 ==> value < 0x100,
            i == 3 ==> value < 0x1000,
            i == 4 ==> value < 0x10000,
        decreases cs@.len() - i,
    {
        assert(s@.take(i + 1).drop_last() =~= s@.take(i as int));
        match hex_char_value(cs[i]) {
            Some(d) => {
                value = value * 16 + d as u32;
            },
            None => {
                assert(hex_char(s@[i as int]) is None);
                return None;
            },
        }
        i = i + 1;
    }
    assert(s@.take(i as int) =~= s@);
    Some(value as u16)
}

fn parse_groups(parts: &Vec<String>, v4_last: bool) -> (r: Option<Vec<u16>>)
    ensures
        match r {
            Some(g) => groups_value(views(parts@), v4_last) == Some(g@),
            None => groups_value(views(parts@), v4_last) is None,
        },
{
    let ghost all = views(parts@);
    let mut out: Vec<u16> = Vec::new();
    let mut i: usize = 0;
    assert(all.skip(0) =~= all);
    proof {
        if groups_value(all, v4_last) is Some {
            assert(out@ + groups_value(all, v4_last)->0 =~= groups_value(all, v4_last)->0);
        }
    }
    while i < parts.len()
        invariant
            i <= parts@.len(),
            all == views(parts@),
            groups_value(all, v4_last) is None <==> groups_value(all.skip(i as int), v4_last)
                is None,
            groups_value(all, v4_last) is Some ==> groups_value(all, v4_last)->0 == out@
                + groups_value(all.skip(i as int), v4_last)->0,
        decreases parts@.len() - i,
    {
        let ghost rest = all.skip(i as int);
        assert(rest[0] == parts@[i as int]@);
        assert(rest.skip(1) =~= all.skip(i + 1));
        if i == parts.len() - 1 && v4_last {
            match parse_v4(parts[i].as_str()) {
                Some(n) => {
                    let ghost before = out@;
                    out.push((n / 65536) as u16);
                    out.push((n % 65536) as u16);
                    assert(out@ =~= before + seq![(n / 65536) as u16, (n % 65536) as u16]);
                    return Some(out);
                },
                None => {},
            }
        }
        match parse_group(parts[i].as_str()) {
            Some(g) => {
                let ghost before = out@;
                out.push(g);
                proof {
                    if groups_value(rest, v4_last) is Some {
                        let tail = groups_value(all.skip(i + 1), v4_last)->0;
                        assert(before + (seq![g] + tail) =~= out@ + tail);
                    }
                }
            },
            None => {
                return None;
            },
        }
        i = i + 1;
    }
    assert(all.skip(i as int) =~= Seq::<Seq<char>>::empty());
    assert(out@ + Seq::<u16>::empty() =~= out@);
    Some(out)
}

fn parse_side(s: &str, v4_last: bool) -> (r: Option<Vec<u16>>)
    ensures
        match r {
            Some(g) => side_value(s@, v4_last) == Some(g@),
            None => side_value(s@, v4_last) is None,
        },
{
    if s.is_empty() {
        let r: Vec<u16> = Vec::new();
        assert(r@ =~= seq![]);
        return Some(r);
    }
    proof {
        reveal_strlit(":");
        assert(":"@ =~= seq![':']);
    }
    let parts = split_on(s, ":");
    parse_groups(&parts, v4_last)
}

/// The IPv6 address that `s` writes.
pub fn parse_v6(s: &str) -> (r: Option<u128>)
    ensures
        r == v6_value(s@),
{
    proof {
        reveal_strlit("::");
        assert("::"@ =~= seq![':', ':']);
        reveal_strlit(":");
        assert(":"@ =~= seq![':']);
    }
    match split_once(s, "::") {
        Some((head, tail)) => match (
            parse_side(head.as_str(), false),
            parse_side(tail.as_str(), true),
        ) {
            (Some(a), Some(b)) => {
                if a.len() > 7 || b.len() > 7 || a.len() + b.len() > 7 {
                    return None;
                }
                let ghost ga = a@;
                let ghost gb = b@;
                let na: usize = a.len();
                let nb: usize = b.len();
                let mut g: Vec<u16> = a;
                let mut b: Vec<u16> = b;
                let mut k: usize = na;
                assert(g@ =~= ga + zero_groups(0));
                while k < 8 - nb
                    invariant
                        na <= k <= 8 - nb,
                        na == ga.len(),
                        nb <= 7,
                        g@ == ga + zero_groups(k - na),
                    decreases 8 - nb - k,
                {
                    g.push(0);
                    assert(g@ =~= ga + zero_groups(k + 1 - na));
                    k = k + 1;
                }
                g.append(&mut b);
                assert(g@ =~= ga + zero_groups(8 - ga.len() - gb.len()) + gb);
                Some(v6_from_segments(&g))
            },
            _ => None,
        },
        None => {
            let parts = split_on(s, ":");
            match parse_groups(&parts, true) {
                Some(g) => if g.len() == 8 {
                    Some(v6_from_segments(&g))
                } else {
                    None
                },
                None => None,
            }
        },
    }
}

/// The IP address that `s` writes.
pub fn parse_ip(s: &str) -> (r: Option<IpAddr>)
    ensures
        r == ip_value(s@),
{
    match parse_v4(s) {
        Some(n) => Some(IpAddr::V4(n)),
        None => match parse_v6(s) {
            Some(n) => Some(IpAddr::V6(n)),
            None => None,
        },
    }
}

/// A number of decimal digits of at most `max`; leading zeros are allowed.
pub open spec fn plain_number(s: Seq<char>, max: int) -> Option<int> {
    if s.len() > 0 && all_digits(s) && digits_value(s) <= max {
        Some(digits_value(s))
    } else {
        None
    }
}

fn parse_plain_number(s: &str, max: u64) -> (r: Option<u64>)
    ensures
        match r {
            Some(v) => plain_number(s@, max as int) == Some(v as int),
            None => plain_number(s@, max as int) is None,
        },
{
    let cs = to_chars(s);
    if cs.len() > 0 && cs[0] == '+' {
        assert(!is_digit(s@[0]));
        return None;
    }
    parse_unsigned(s, max)
}

/// The IPv6 address that `s` writes, with or without a scope behind a percent sign.
pub open spec fn scoped_v6_value(s: Seq<char>) -> Option<u128> {
    match split_first(s, seq!['%']) {
        Some((addr, scope)) => if plain_number(scope, u32::MAX as int) is Some {
            v6_value(addr)
        } else {
            None
        },
        None => v6_value(s),
    }
}

/// The socket address that `s` writes: `ip:port` or `[ip]:port`.
pub open spec fn socket_value(s: Seq<char>) -> Option<SocketAddr> {
    match crate::text::split_last(s, ':') {
        None => None,
        Some((host, port)) => match plain_number(port, u16::MAX as int) {
            None => None,
            Some(p) => match v4_value(host) {
                Some(n) => Some(SocketAddr { ip: IpAddr::V4(n), port: p as u16 }),
                None => if host.len() >= 2 && host[0] == '[' && host.last() == ']' {
                    match scoped_v6_value(host.subrange(1, host.len() - 1)) {
                        Some(n) => Some(SocketAddr { ip: IpAddr::V6(n), port: p as u16 }),
                        None => None,
                    }
                } else {
                    None
                },
            },
        },
    }
}

fn parse_scoped_v6(s: &str) -> (r: Option<u128>)
    ensures
        r == scoped_v6_value(s@),
{
    proof {
        reveal_strlit("%");
        assert("%"@ =~= seq!['%']);
    }
    match split_once(s, "%") {
        Some((addr, scope)) => match parse_plain_number(scope.as_str(), u32::MAX as u64) {
            Some(_) => parse_v6(addr.as_str()),
            None => None,
        },
        None => parse_v6(s),
    }
}

/// The socket address that `s` writes.
pub fn parse_socket(s: &str) -> (r: Option<SocketAddr>)
    ensures
        r == socket_value(s@),
{
    match crate::text::rsplit_once(s, ':') {
        None => None,
        Some((host, port)) => match parse_plain_number(port.as_str(), u16::MAX as u64) {
            None => None,
            Some(p) => match parse_v4(host.as_str()) {
                Some(n) => Some(SocketAddr { ip: IpAddr::V4(n), port: p as u16 }),
                None => {
                    let cs = to_chars(host.as_str());
                    let n: usize = cs.len();
                    if n >= 2 && cs[0] == '[' && cs[n - 1] == ']' {
                        let inner = crate::text::from_chars(&cs, 1, n - 1);
                        match parse_scoped_v6(inner.as_str()) {
                            Some(v) => Some(SocketAddr { ip: IpAddr::V6(v), port: p as u16 }),
                            None => None,
                        }
                    } else {
                        None
                    }
                },
            },
        },
    }
}

// ---------------------------------------------------------------------------
// Writing addresses

/// An IPv4 address as four decimal numbers with dots between them.
pub open spec fn v4_text(n: u32) -> Seq<char> {
    decimal((n / 16777216) as nat) + "."@ + decimal((n / 65536 % 256) as nat) + "."@ + decimal(
        (n / 256 % 256) as nat,
    ) + "."@ + decimal((n % 256) as nat)
}

/// An IPv4 address as four decimal numbers with dots between them.
pub fn v4_to_string(n: u32) -> (r: String)
    ensures
        r@ == v4_text(n),
{
    let mut s: String = to_decimal((n / 16777216) as u64);
    s.append(".");
    s.append(to_decimal((n / 65536 % 256) as u64).as_str());
    s.append(".");
    s.append(to_decimal((n / 256 % 256) as u64).as_str());
    s.append(".");
    s.append(to_decimal((n % 256) as u64).as_str());
    s
}

/// The hexadecimal form of `n`, without leading zeros.
pub open spec fn hexadecimal(n: nat) -> Seq<char>
    decreases n,
{
    if n < 16 {
        seq![crate::crypto::hex_digit(n as int)]
    } else {
        hexadecimal(n / 16).push(crate::crypto::hex_digit((n % 16) as int))
    }
}

fn hex_digit_char(d: u8) -> (c: char)
    requires
        d < 16,
    ensures
        c == crate::crypto::hex_digit(d as int),
{
    if d < 10 {
        (48 + d) as char
    } else {
        (87 + d) as char
    }
}

fn to_hexadecimal(n: u16) -> (r: String)
    ensures
        r@ == hexadecimal(n as nat),
    decreases n,
{
    if n < 16 {
        let mut s: String = String::new();
        s.push(hex_digit_char(n as u8));
        assert(s@ =~= seq![crate::crypto::hex_digit(n as int)]);
        s
    } else {
        let mut s: String = to_hexadecimal(n / 16);
        s.push(hex_digit_char((n % 16) as u8));
        s
    }
}

/// Groups in hexadecimal with colons between them.
pub open spec fn groups_text(g: Seq<u16>) -> Seq<char>
    decreases g.len(),
{
    if g.len() == 0 {
        seq![]
    } else if g.len() == 1 {
        hexadecimal(g[0] as nat)
    } else {
        groups_text(g.drop_last()) + ":"@ + hexadecimal(g.last() as nat)
    }
}

fn groups_to_string(g: &Vec<u16>, from: usize, to: usize) -> (r: String)
    requires
        from <= to <= g@.len(),
    ensures
        r@ == groups_text(g@.subrange(from as int, to as int)),
{
    let mut s: String = String::new();
    let mut i: usize = from;
    assert(g@.subrange(from as int, from as int) =~= Seq::<u16>::empty());
    while i < to
        invariant
            from <= i <= to <= g@.len(),
            s@ == groups_text(g@.subrange(from as int, i as int)),
        decreases to - i,
    {
        let ghost now = g@.subrange(from as int, i + 1);
        assert(now.drop_last() =~= g@.subrange(from as int, i as int));
        assert(now.last() == g@[i as int]);
        if i > from {
            s.append(":");
            s.append(to_hexadecimal(g[i]).as_str());
        } else {
            s = to_hexadecimal(g[i]);
        }
        i = i + 1;
    }
    s
}

/// Whether `len` groups from `start` on are zero.
pub open spec fn is_zero_run(g: Seq<u16>, start: int, len: int) -> bool {
    &&& 0 <= start
    &&& 0 <= len
    &&& start + len <= g.len()
    &&& forall|i: int| start <= i < start + len ==> #[trigger] g[i] == 0
}

/// Whether a run of zero groups is the one to leave out: none is longer, and
/// none of the same length comes before it.
pub open spec fn is_longest_run(g: Seq<u16>, start: int, len: int) -> bool {
    &&& is_zero_run(g, start, len)
    &&& forall|s: int, n: int| #[trigger] is_zero_run(g, s, n) ==> n < len || n == len && start <= s
        || n == 0
}

/// The first of the longest runs of zero groups, as its start and its length.
pub open spec fn longest_run(g: Seq<u16>) -> (int, int) {
    choose|p: (int, int)| is_longest_run(g, p.0, p.1) && (p.1 == 0 ==> p.0 == 0)
}

fn find_longest_run(g: &Vec<u16>) -> (r: (usize, usize))
    ensures
        is_longest_run(g@, r.0 as int, r.1 as int),
        r.1 == 0 ==> r.0 == 0,
        r.0 + r.1 <= g@.len(),
{
    let n: usize = g.len();
    let mut best: (usize, usize) = (0, 0);
    let mut start: usize = 0;
    let mut len: usize = 0;
    let mut i: usize = 0;
    while i < n
        invariant
            i <= n == g@.len(),
            start + len == i || len == 0,
            len > 0 ==> start + len == i,
            is_zero_run(g@, start as int, len as int) || len == 0,
            // the current run cannot be extended to the left
            len > 0 && start > 0 ==> g@[start - 1] != 0,
            len == 0 && i > 0 ==> g@[i - 1] != 0,
            best.0 + best.1 <= i,
            is_zero_run(g@, best.0 as int, best.1 as int),
            best.1 == 0 ==> best.0 == 0,
            len <= best.1,
            forall|s: int, m: int|
                #[trigger] is_zero_run(g@, s, m) && s + m <= i ==> m < best.1 || m == best.1
                    && best.0 <= s || m == 0,
        decreases n - i,
    {
        let ghost old_best = best;
        if g[i] == 0 {
            if len == 0 {
                start = i;
            }
            len = len + 1;
            assert(is_zero_run(g@, start as int, len as int));
            if len > best.1 {
                best = (start, len);
            }
            proof {
                assert forall|s: int, m: int| #[trigger] is_zero_run(g@, s, m) && s + m <= i
                    + 1 implies m < best.1 || m == best.1 && best.0 <= s || m == 0 by {
                    if m > 0 && s + m == i + 1 {
                        // a run that ends here starts no earlier than the current one
                        if s < start {
                            assert(g@[start - 1] == 0);
                        }
                        assert(m <= len);
                        if m == best.1 {
                            assert(s == start);
                        }
                    }
                }
            }
        } else {
            len = 0;
            proof {
                assert forall|s: int, m: int| #[trigger] is_zero_run(g@, s, m) && s + m <= i
                    + 1 implies m < best.1 || m == best.1 && best.0 <= s || m == 0 by {
                    if m > 0 && s + m == i + 1 {
                        assert(g@[i as int] == 0);
                    }
                }
            }
        }
        i = i + 1;
    }
    best
}

proof fn lemma_longest_run(g: Seq<u16>, start: int, len: int)
    requires
        is_longest_run(g, start, len),
        len == 0 ==> start == 0,
    ensures
        longest_run(g) == (start, len),
{
    let p = longest_run(g);
    let q = (start, len);
    assert(is_longest_run(g, q.0, q.1) && (q.1 == 0 ==> q.0 == 0));
    assert(is_longest_run(g, p.0, p.1) && (p.1 == 0 ==> p.0 == 0));
    assert(is_zero_run(g, p.0, p.1));
    assert(is_zero_run(g, start, len));
}

/// An IPv6 address in its short form: an embedded IPv4 address is written with
/// dots, and the first of the longest runs of at least two zero groups as a
/// double colon.
pub open spec fn v6_text(n: u128) -> Seq<char> {
    let g = segments(n);
    let (start, len) = longest_run(g);
    if n >> 32 == 0xffff {
        "::ffff:"@ + v4_text((n & 0xffff_ffff) as u32)
    } else if len > 1 {
        groups_text(g.take(start)) + "::"@ + groups_text(g.skip(start + len))
    } else {
        groups_text(g)
    }
}

/// An IPv6 address in its short form.
pub fn v6_to_string(n: u128) -> (r: String)
    ensures
        r@ == v6_text(n),
{
    if n >> 32 == 0xffff {
        return cat("::ffff:", v4_to_string((n & 0xffff_ffff) as u32).as_str());
    }
    let g = v6_segments(n);
    let (start, len) = find_longest_run(&g);
    proof {
        lemma_longest_run(g@, start as int, len as int);
    }
    if len > 1 {
        let mut s: String = groups_to_string(&g, 0, start);
        assert(g@.subrange(0, start as int) =~= g@.take(start as int));
        s.append("::");
        s.append(groups_to_string(&g, start + len, g.len()).as_str());
        assert(g@.subrange(start + len, 8) =~= g@.skip(start + len));
        s
    } else {
        assert(g@.subrange(0, 8) =~= g@);
        groups_to_string(&g, 0, g.len())
    }
}

/// The text of an address.
pub open spec fn ip_text(ip: IpAddr) -> Seq<char> {
    match ip {
        IpAddr::V4(n) => v4_text(n),
        IpAddr::V6(n) => v6_text(n),
    }
}

/// The text of an address.
pub fn ip_to_string(ip: IpAddr) -> (r: String)
    ensures
        r@ == ip_text(ip),
{
    match ip {
        IpAddr::V4(n) => v4_to_string(n),
        IpAddr::V6(n) => v6_to_string(n),
    }
}

/// The text of an address and a port; an IPv6 address stands in brackets.
pub open spec fn socket_text(ip: IpAddr, port: nat) -> Seq<char> {
    match ip {
        IpAddr::V4(n) => v4_text(n) + ":"@ + decimal(port),
        IpAddr::V6(n) => "["@ + v6_text(n) + "]:"@ + decimal(port),
    }
}

/// The text of an address and a port.
pub fn socket_to_string(ip: IpAddr, port: u16) -> (r: String)
    ensures
        r@ == socket_text(ip, port as nat),
{
    match ip {
        IpAddr::V4(n) => {
            let mut s: String = v4_to_string(n);
            s.append(":");
            s.append(to_decimal(port as u64).as_str());
            s
        },
        IpAddr::V6(n) => {
            let mut s: String = "[".to_owned();
            s.append(v6_to_string(n).as_str());
            s.append("]:");
            s.append(to_decimal(port as u64).as_str());
            s
        },
    }
}

// ---------------------------------------------------------------------------
// Laws

proof fn lemma_first_groups(n: u128)
    by (bit_vector)
    ensures
        (((n >> 112) & 0xffff) as u16) & 0xfe00 == 0xfc00
            <==> 0xfc00_0000_0000_0000_0000_0000_0000_0000u128 <= n
            && n <= 0xfdff_ffff_ffff_ffff_ffff_ffff_ffff_ffffu128,
        (((n >> 112) & 0xffff) as u16) & 0xffc0 == 0xfe80
            <==> 0xfe80_0000_0000_0000_0000_0000_0000_0000u128 <= n
            && n <= 0xfebf_ffff_ffff_ffff_ffff_ffff_ffff_ffffu128,
        (((n >> 112) & 0xffff) as u16) & 0xff00 == 0xff00
            <==> 0xff00_0000_0000_0000_0000_0000_0000_0000u128 <= n,
        ((n >> 112) & 0xffff) as u16 == 0x2001 && ((n >> 96) & 0xffff) as u16 == 0x0db8
            <==> 0x2001_0db8_0000_0000_0000_0000_0000_0000u128 <= n
            && n <= 0x2001_0db8_ffff_ffff_ffff_ffff_ffff_ffffu128,
{
}

/// The first groups of an address tell between which addresses it lies.
pub(crate) proof fn lemma_group_ranges(n: u128)
    ensures
        unique_local_v6(n) <==> 0xfc00_0000_0000_0000_0000_0000_0000_0000 <= n
            <= 0xfdff_ffff_ffff_ffff_ffff_ffff_ffff_ffff,
        link_local_v6(n) <==> 0xfe80_0000_0000_0000_0000_0000_0000_0000 <= n
            <= 0xfebf_ffff_ffff_ffff_ffff_ffff_ffff_ffff,
        segment(n, 0) & 0xff00 == 0xff00 <==> 0xff00_0000_0000_0000_0000_0000_0000_0000 <= n,
        segment(n, 0) == 0x2001 && segment(n, 1) == 0x0db8
            <==> 0x2001_0db8_0000_0000_0000_0000_0000_0000 <= n
            <= 0x2001_0db8_ffff_ffff_ffff_ffff_ffff_ffff,
{
    lemma_first_groups(n);
}

/// Each kind of addresses is made of whole ranges.
pub proof fn kinds_of_addresses_are_ranges(
    ip: IpAddr,
    n: u32,
    m: u128,
    local: bool,
    none: bool,
    private: bool,
    link: bool,
    unique: bool,
    link6: bool,
)
    requires
        call_ensures(is_loopback, (ip,), local),
        call_ensures(is_unspecified, (ip,), none),
        call_ensures(is_private_range, (n,), private),
        call_ensures(is_link_local_v4, (n,), link),
        call_ensures(is_unique_local_v6, (m,), unique),
        call_ensures(is_link_local_v6, (m,), link6),
    ensures
        local <==> match ip {
            IpAddr::V4(a) => 0x7f00_0000 <= a <= 0x7fff_ffff,
            IpAddr::V6(a) => a == 1,
        },
        none <==> ip == IpAddr::V4(0) || ip == IpAddr::V6(0),
        private <==> 0x0a00_0000 <= n <= 0x0aff_ffff || 0xac10_0000 <= n <= 0xac1f_ffff
            || 0xc0a8_0000 <= n <= 0xc0a8_ffff,
        link <==> 0xa9fe_0000 <= n <= 0xa9fe_ffff,
        unique <==> 0xfc00_0000_0000_0000_0000_0000_0000_0000 <= m
            <= 0xfdff_ffff_ffff_ffff_ffff_ffff_ffff_ffff,
        link6 <==> 0xfe80_0000_0000_0000_0000_0000_0000_0000 <= m
            <= 0xfebf_ffff_ffff_ffff_ffff_ffff_ffff_ffff,
{
    lemma_group_ranges(m);
}

proof fn lemma_four_parts(a: Seq<char>, b: Seq<char>, c: Seq<char>, d: Seq<char>)
    requires
        all_digits(a),
        all_digits(b),
        all_digits(c),
        all_digits(d),
    ensures
        split(a + seq!['.'] + (b + seq!['.'] + (c + seq!['.'] + d)), seq!['.']) == seq![a, b, c, d],
{
    let dot = seq!['.'];
    let r2 = c + dot + d;
    let r1 = b + dot + r2;
    lemma_no_dot(a);
    lemma_no_dot(b);
    lemma_no_dot(c);
    lemma_no_dot(d);
    crate::text::lemma_no_char(a, '.', r1);
    crate::text::lemma_split_after(a, dot, r1);
    crate::text::lemma_no_char(b, '.', r2);
    crate::text::lemma_split_after(b, dot, r2);
    crate::text::lemma_no_char(c, '.', d);
    crate::text::lemma_split_after(c, dot, d);
    assert(split(d, dot) =~= seq![d]) by {
        crate::text::lemma_find_from(d, dot, 0);
        if let Some(i) = crate::text::find(d, dot) {
            assert(d.subrange(i, i + 1)[0] == d[i]);
        }
    }
    assert(seq![a] + (seq![b] + (seq![c] + seq![d])) =~= seq![a, b, c, d]);
}

proof fn lemma_plain(s: Seq<char>, rest: Seq<char>)
    requires
        all_digits(s),
        forall|i: int| 0 <= i < rest.len() ==> #[trigger] rest[i] != ':' && rest[i] != '[',
    ensures
        ({
            let t = s + seq!['.'] + rest;
            forall|i: int| 0 <= i < t.len() ==> #[trigger] t[i] != ':' && t[i] != '['
        }),
{
    let t = s + seq!['.'] + rest;
    let n = s.len() as int;
    assert forall|i: int| 0 <= i < t.len() implies #[trigger] t[i] != ':' && t[i] != '[' by {
        if i < n {
            assert(t[i] == s[i] && is_digit(s[i]));
        } else if i > n {
            assert(t[i] == rest[i - n - 1]);
        }
    }
}

#[verifier::spinoff_prover]
#[verifier::rlimit(50)]
proof fn lemma_v4_reads_back(n: u32)
    ensures
        v4_value(v4_text(n)) == Some(n),
        v4_text(n).len() > 0,
        forall|i: int| 0 <= i < v4_text(n).len() ==> #[trigger] v4_text(n)[i] != ':' && v4_text(n)[i]
            != '[',
{
    let a = decimal((n / 16777216) as nat);
    let b = decimal((n / 65536 % 256) as nat);
    let c = decimal((n / 256 % 256) as nat);
    let d = decimal((n % 256) as nat);
    crate::num::lemma_octet((n / 16777216) as nat);
    crate::num::lemma_octet((n / 65536 % 256) as nat);
    crate::num::lemma_octet((n / 256 % 256) as nat);
    crate::num::lemma_octet((n % 256) as nat);
    let dot = seq!['.'];
    reveal_strlit(".");
    assert("."@ =~= dot);
    assert(v4_text(n) =~= a + dot + (b + dot + (c + dot + d)));
    lemma_four_parts(a, b, c, d);
    assert forall|i: int| 0 <= i < d.len() implies #[trigger] d[i] != ':' && d[i] != '[' by {
        assert(is_digit(d[i]));
    }
    lemma_plain(c, d);
    lemma_plain(b, c + dot + d);
    lemma_plain(a, b + dot + (c + dot + d));
    lemma_parts_value(a, b, c, d, n);
}

proof fn lemma_parts_value(a: Seq<char>, b: Seq<char>, c: Seq<char>, d: Seq<char>, n: u32)
    requires
        octet_value(a) == Some((n / 16777216) as int),
        octet_value(b) == Some((n / 65536 % 256) as int),
        octet_value(c) == Some((n / 256 % 256) as int),
        octet_value(d) == Some((n % 256) as int),
        split(v4_text(n), seq!['.']) == seq![a, b, c, d],
    ensures
        v4_value(v4_text(n)) == Some(n),
{
    let p = seq![a, b, c, d];
    assert(p[0] == a && p[1] == b && p[2] == c && p[3] == d);
}

proof fn lemma_no_dot(s: Seq<char>)
    requires
        all_digits(s),
    ensures
        forall|i: int| 0 <= i < s.len() ==> #[trigger] s[i] != '.',
{
    assert forall|i: int| 0 <= i < s.len() implies #[trigger] s[i] != '.' by {
        assert(is_digit(s[i]));
    }
}

/// The text of an IPv4 address is read as that address, and with a port as that
/// address and port.
#[verifier::spinoff_prover]
#[verifier::rlimit(50)]
pub proof fn v4_addresses_read_back(
    n: u32,
    port: u16,
    text: String,
    s: &str,
    r: Option<IpAddr>,
    whole: String,
    w: &str,
    q: Option<SocketAddr>,
)
    requires
        call_ensures(ip_to_string, (IpAddr::V4(n),), text),
        s@ == text@,
        call_ensures(parse_ip, (s,), r),
        call_ensures(socket_to_string, (IpAddr::V4(n), port), whole),
        w@ == whole@,
        call_ensures(parse_socket, (w,), q),
    ensures
        r == Some(IpAddr::V4(n)),
        q == Some((SocketAddr { ip: IpAddr::V4(n), port })),
{
    lemma_v4_reads_back(n);
    let digits = decimal(port as nat);
    crate::num::decimal_reads_back(port as nat, 65535);
    crate::num::decimal_is_digits(port as nat);
    reveal_strlit(":");
    assert(":"@ =~= seq![':']);
    assert forall|i: int| 0 <= i < digits.len() implies #[trigger] digits[i] != ':' by {
        assert(is_digit(digits[i]));
    }
    assert(is_digit(digits[0]));
    crate::text::lemma_cut(v4_text(n), ':', digits);
}

/// Four numbers make the address that they write, the first the most significant.
pub proof fn four_numbers_make_an_address(a: u8, b: u8, c: u8, d: u8, r: IpAddr)
    requires
        call_ensures(v4, (a, b, c, d), r),
    ensures
        r matches IpAddr::V4(n) && n == a * 0x100_0000 + b * 0x1_0000 + c * 0x100 + d,
{
}

/// An IPv6 address crosses the wire as it is.
pub proof fn v6_addresses_cross_the_wire(ip: u128, out: &mut Vec<u8>, b: &[u8], at: usize, r: u128)
    requires
        call_ensures(push_v6, (out, ip), ()),
        at == old(out)@.len(),
        b@ == final(out)@,
        at + 16 <= b@.len(),
        call_ensures(read_v6, (b, at), r),
    ensures
        final(out)@.len() == old(out)@.len() + 16,
        r == ip,
{
    v6_bytes_give_the_address(ip);
    assert(b@.subrange(at as int, at + 16) =~= v6_bytes(ip));
}

} // verus!
