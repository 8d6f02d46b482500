//! IP networks: an address and the number of leading bits that count.

use vstd::prelude::*;
use crate::ip::IpAddr;

verus! {

/// A network.
#[derive(Clone, Copy, Debug, PartialEq, Eq, Structural)]
pub struct IpNet {
    pub addr: IpAddr,
    pub prefix_len: u8,
}

/// Whether the first `p` of 32 bits agree.
pub open spec fn agree32(a: u32, b: u32, p: u8) -> bool {
    p == 0 || a >> ((32 - p) as u32) == b >> ((32 - p) as u32)
}

/// Whether the first `p` of 128 bits agree.
pub open spec fn agree128(a: u128, b: u128, p: u8) -> bool {
    p == 0 || a >> ((128 - p) as u128) == b >> ((128 - p) as u128)
}

impl IpNet {
    /// Whether the prefix is no longer than the address.
    pub open spec fn wf(self) -> bool {
        match self.addr {
            IpAddr::V4(_) => self.prefix_len <= 32,
            IpAddr::V6(_) => self.prefix_len <= 128,
        }
    }

    /// Whether an address lies in the network.
    pub open spec fn has(self, ip: IpAddr) -> bool {
        match (self.addr, ip) {
            (IpAddr::V4(a), IpAddr::V4(b)) => agree32(a, b, self.prefix_len),
            (IpAddr::V6(a), IpAddr::V6(b)) => agree128(a, b, self.prefix_len),
            _ => false,
        }
    }

    /// The network with the bits behind the prefix cleared.
    pub open spec fn truncated(self) -> IpNet {
        IpNet {
            addr: match self.addr {
                IpAddr::V4(a) => IpAddr::V4(
                    if self.prefix_len == 0 {
                        0
                    } else {
                        (a >> ((32 - self.prefix_len) as u32)) << ((32 - self.prefix_len) as u32)
                    },
                ),
                IpAddr::V6(a) => IpAddr::V6(
                    if self.prefix_len == 0 {
                        0
                    } else {
                        (a >> ((128 - self.prefix_len) as u128)) << ((128 - self.prefix_len) as u128)
                    },
                ),
            },
            prefix_len: self.prefix_len,
        }
    }

    /// Whether an address lies in the network.
    pub fn contains(&self, ip: IpAddr) -> (r: bool)
        requires
            self.wf(),
        ensures
            r == self.has(ip),
    {
        match (self.addr, ip) {
            (IpAddr::V4(a), IpAddr::V4(b)) => {
                if self.prefix_len == 0 {
                    return true;
                }
                let shift: u32 = 32 - self.prefix_len as u32;
                a >> shift == b >> shift
            },
            (IpAddr::V6(a), IpAddr::V6(b)) => {
                if self.prefix_len == 0 {
                    return true;
                }
                let shift: u128 = 128 - self.prefix_len as u128;
                a >> shift == b >> shift
            },
            _ => false,
        }
    }

    /// The network with the bits behind the prefix cleared.
    pub fn trunc(&self) -> (r: IpNet)
        requires
            self.wf(),
        ensures
            r == self.truncated(),
            r.wf(),
    {
        match self.addr {
            IpAddr::V4(a) => {
                if self.prefix_len == 0 {
                    return IpNet { addr: IpAddr::V4(0), prefix_len: 0 };
                }
                let shift: u32 = 32 - self.prefix_len as u32;
                IpNet { addr: IpAddr::V4((a >> shift) << shift), prefix_len: self.prefix_len }
            },
            IpAddr::V6(a) => {
                if self.prefix_len == 0 {
                    return IpNet { addr: IpAddr::V6(0), prefix_len: 0 };
                }
                let shift: u128 = 128 - self.prefix_len as u128;
                IpNet { addr: IpAddr::V6((a >> shift) << shift), prefix_len: self.prefix_len }
            },
        }
    }
}

/// The network that a text in CIDR notation writes, if it is one.
pub uninterp spec fn net_of(text: Seq<char>) -> Option<IpNet>;

/// What is said of a text that is no network.
pub open spec fn net_fault() -> Seq<char> {
    "invalid IP address syntax"@
}

/// `ipnet::IpNet::from_str` reads an address, a slash and a prefix length that
/// is at most 32 for IPv4 and at most 128 for IPv6. Of any other text it says that
/// the syntax is invalid.
#[verifier::external_body]
pub(crate) fn parse_net(text: &str) -> (r: Result<IpNet, String>)
    ensures
        match r {
            Ok(n) => net_of(text@) == Some(n) && n.wf(),
            Err(e) => net_of(text@) is None && e@ == net_fault(),
        },
{
    match text.parse::<ipnet::IpNet>() {
        Ok(ipnet::IpNet::V4(n)) => Ok(
            IpNet { addr: IpAddr::V4(u32::from(n.addr())), prefix_len: n.prefix_len() },
        ),
        Ok(ipnet::IpNet::V6(n)) => Ok(
            IpNet { addr: IpAddr::V6(u128::from(n.addr())), prefix_len: n.prefix_len() },
        ),
        Err(e) => Err(e.to_string()),
    }
}

/// Whether an address lies in one of the networks.
pub open spec fn any_has(nets: Seq<IpNet>, ip: IpAddr) -> bool {
    exists|i: int| 0 <= i < nets.len() && (#[trigger] nets[i]).has(ip)
}

/// Whether all networks are well formed.
pub open spec fn all_wf(nets: Seq<IpNet>) -> bool {
    forall|i: int| 0 <= i < nets.len() ==> (#[trigger] nets[i]).wf()
}

/// Whether one of the addresses lies in one of the networks.
pub open spec fn any_in(nets: Seq<IpNet>, addrs: Seq<IpAddr>) -> bool {
    exists|i: int| 0 <= i < addrs.len() && any_has(nets, #[trigger] addrs[i])
}

/// Whether an address lies in one of the networks.
pub fn contains_one(nets: &Vec<IpNet>, ip: IpAddr) -> (r: bool)
    requires
        all_wf(nets@),
    ensures
        r == any_has(nets@, ip),
{
    let mut i: usize = 0;
    while i < nets.len()
        invariant
            i <= nets@.len(),
            all_wf(nets@),
            forall|k: int| 0 <= k < i ==> !(#[trigger] nets@[k]).has(ip),
        decreases nets@.len() - i,
    {
        assert(nets@[i as int].wf());
        if nets[i].contains(ip) {
            return true;
        }
        i = i + 1;
    }
    false
}

/// Whether one of the addresses lies in one of the networks.
pub fn contains_any(nets: &Vec<IpNet>, addrs: &Vec<IpAddr>) -> (r: bool)
    requires
        all_wf(nets@),
    ensures
        r == any_in(nets@, addrs@),
{
    let mut i: usize = 0;
    while i < addrs.len()
        invariant
            i <= addrs@.len(),
            all_wf(nets@),
            forall|k: int| 0 <= k < i ==> !any_has(nets@, #[trigger] addrs@[k]),
        decreases addrs@.len() - i,
    {
        if contains_one(nets, addrs[i]) {
            assert(any_has(nets@, addrs@[i as int]));
            return true;
        }
        i = i + 1;
    }
    false
}

/// The networks that are reserved for special use, each with its prefix.
pub open spec fn reserved() -> Seq<IpNet> {
    seq![
        IpNet { addr: IpAddr::V4(0), prefix_len: 8 },
        IpNet { addr: IpAddr::V4(crate::ip::v4_number(10, 0, 0, 0)), prefix_len: 8 },
        IpNet { addr: IpAddr::V4(crate::ip::v4_number(100, 64, 0, 0)), prefix_len: 10 },
        IpNet { addr: IpAddr::V4(crate::ip::v4_number(127, 0, 0, 0)), prefix_len: 8 },
        IpNet { addr: IpAddr::V4(crate::ip::v4_number(169, 254, 0, 0)), prefix_len: 16 },
        IpNet { addr: IpAddr::V4(crate::ip::v4_number(172, 16, 0, 0)), prefix_len: 12 },
        IpNet { addr: IpAddr::V4(crate::ip::v4_number(192, 0, 0, 0)), prefix_len: 24 },
        IpNet { addr: IpAddr::V4(crate::ip::v4_number(192, 0, 2, 0)), prefix_len: 24 },
        IpNet { addr: IpAddr::V4(crate::ip::v4_number(192, 168, 0, 0)), prefix_len: 16 },
        IpNet { addr: IpAddr::V4(crate::ip::v4_number(198, 18, 0, 0)), prefix_len: 15 },
        IpNet { addr: IpAddr::V4(crate::ip::v4_number(198, 51, 100, 0)), prefix_len: 24 },
        IpNet { addr: IpAddr::V4(crate::ip::v4_number(203, 0, 113, 0)), prefix_len: 24 },
        IpNet { addr: IpAddr::V4(crate::ip::v4_number(224, 0, 0, 0)), prefix_len: 4 },
        IpNet { addr: IpAddr::V4(crate::ip::v4_number(240, 0, 0, 0)), prefix_len: 4 },
        IpNet { addr: IpAddr::V6(0), prefix_len: 128 },
        IpNet { addr: IpAddr::V6(1), prefix_len: 128 },
    ]
}

/// The networks that are reserved for special use.
pub fn reserved_ip_nets() -> (r: Vec<IpNet>)
    ensures
        r@ == reserved(),
        all_wf(r@),
{
    let mut r: Vec<IpNet> = Vec::new();
    r.push(IpNet { addr: crate::ip::v4(0, 0, 0, 0), prefix_len: 8 });
    r.push(IpNet { addr: crate::ip::v4(10, 0, 0, 0), prefix_len: 8 });
    r.push(IpNet { addr: crate::ip::v4(100, 64, 0, 0), prefix_len: 10 });
    r.push(IpNet { addr: crate::ip::v4(127, 0, 0, 0), prefix_len: 8 });
    r.push(IpNet { addr: crate::ip::v4(169, 254, 0, 0), prefix_len: 16 });
    r.push(IpNet { addr: crate::ip::v4(172, 16, 0, 0), prefix_len: 12 });
    r.push(IpNet { addr: crate::ip::v4(192, 0, 0, 0), prefix_len: 24 });
    r.push(IpNet { addr: crate::ip::v4(192, 0, 2, 0), prefix_len: 24 });
    r.push(IpNet { addr: crate::ip::v4(192, 168, 0, 0), prefix_len: 16 });
    r.push(IpNet { addr: crate::ip::v4(198, 18, 0, 0), prefix_len: 15 });
    r.push(IpNet { addr: crate::ip::v4(198, 51, 100, 0), prefix_len: 24 });
    r.push(IpNet { addr: crate::ip::v4(203, 0, 113, 0), prefix_len: 24 });
    r.push(IpNet { addr: crate::ip::v4(224, 0, 0, 0), prefix_len: 4 });
    r.push(IpNet { addr: crate::ip::v4(240, 0, 0, 0), prefix_len: 4 });
    r.push(IpNet { addr: IpAddr::V6(0), prefix_len: 128 });
    r.push(IpNet { addr: IpAddr::V6(1), prefix_len: 128 });
    assert(r@ =~= reserved());
    r
}

/// Clearing the bits behind the prefix does not change what a network holds.
pub proof fn truncating_keeps_the_addresses(net: IpNet, ip: IpAddr)
    requires
        net.wf(),
    ensures
        net.truncated().has(ip) == net.has(ip),
{
    match (net.addr, ip) {
        (IpAddr::V4(a), IpAddr::V4(b)) => {
            if net.prefix_len > 0 {
                let s = (32 - net.prefix_len) as u32;
                assert(((a >> s) << s) >> s == a >> s) by (bit_vector)
                    requires
                        s < 32,
                ;
            }
        },
        (IpAddr::V6(a), IpAddr::V6(b)) => {
            if net.prefix_len > 0 {
                let s = (128 - net.prefix_len) as u128;
                assert(((a >> s) << s) >> s == a >> s) by (bit_vector)
                    requires
                        s < 128,
                ;
            }
        },
        _ => {},
    }
}

/// A prefix as long as an address leaves one address.
pub(crate) proof fn lemma_whole_v6(a: u128, b: u128)
    ensures
        agree128(a, b, 128) == (a == b),
{
    assert(a >> 0u128 == a && b >> 0u128 == b) by (bit_vector);
}

/// An IPv4 network holds the addresses that leave the same quotient by the number
/// of addresses in it, and no IPv6 address.
pub proof fn networks_are_ranges(net: &IpNet, ip: IpAddr, r: bool)
    requires
        net.wf(),
        call_ensures(IpNet::contains, (net, ip), r),
    ensures
        match (net.addr, ip) {
            (IpAddr::V4(a), IpAddr::V4(b)) => {
                &&& net.prefix_len == 32 ==> r == (a == b)
                &&& net.prefix_len == 24 ==> r == (a / 0x100 == b / 0x100)
                &&& net.prefix_len == 16 ==> r == (a / 0x1_0000 == b / 0x1_0000)
                &&& net.prefix_len == 8 ==> r == (a / 0x100_0000 == b / 0x100_0000)
                &&& net.prefix_len == 0 ==> r
                &&& a == b ==> r
            },
            (IpAddr::V6(a), IpAddr::V6(b)) => (net.prefix_len == 128 ==> r == (a == b)) && (a == b
                ==> r) && (net.prefix_len == 0 ==> r),
            _ => !r,
        },
{
    match (net.addr, ip) {
        (IpAddr::V4(a), IpAddr::V4(b)) => {
            assert(a >> 24u32 == a / 16777216 && b >> 24u32 == b / 16777216) by (bit_vector);
            assert(a >> 16u32 == a / 65536 && b >> 16u32 == b / 65536) by (bit_vector);
            assert(a >> 8u32 == a / 256 && b >> 8u32 == b / 256) by (bit_vector);
            assert(a >> 0u32 == a && b >> 0u32 == b) by (bit_vector);
        },
        (IpAddr::V6(a), IpAddr::V6(b)) => {
            lemma_whole_v6(a, b);
        },
        _ => {},
    }
}

/// An address is in some networks just where it is in one of them, and some addresses
/// are where one of them is.
pub proof fn networks_are_asked_one_by_one(
    nets: &Vec<IpNet>,
    addrs: &Vec<IpAddr>,
    i: int,
    k: int,
    own: bool,
    one: bool,
    any: bool,
)
    requires
        all_wf(nets@),
        0 <= i < nets@.len(),
        0 <= k < addrs@.len(),
        call_ensures(IpNet::contains, (&nets@[i], addrs@[k]), own),
        call_ensures(contains_one, (nets, addrs@[k]), one),
        call_ensures(contains_any, (nets, addrs), any),
    ensures
        own ==> one,
        one ==> any,
        nets@.len() == 1 ==> one == own,
        addrs@.len() == 1 ==> any == one,
{
    let ip = addrs@[k];
    if own {
        assert(nets@[i].has(ip));
        assert(any_has(nets@, ip));
    }
    if one {
        assert(any_has(nets@, addrs@[k]));
        assert(any_in(nets@, addrs@));
    }
}

/// A network that is cut to its prefix has the addresses that it had.
pub proof fn cut_networks_keep_their_addresses(
    net: &IpNet,
    ip: IpAddr,
    cut: IpNet,
    before: bool,
    after: bool,
)
    requires
        net.wf(),
        call_ensures(IpNet::trunc, (net,), cut),
        call_ensures(IpNet::contains, (net, ip), before),
        call_ensures(IpNet::contains, (&cut, ip), after),
    ensures
        before == after,
        cut.prefix_len == net.prefix_len,
{
    truncating_keeps_the_addresses(*net, ip);
}

proof fn lemma_special_ranges(n: u32)
    by (bit_vector)
    ensures
        n >> 24u32 == 0u32 >> 24u32 <==> n <= 0x00ff_ffffu32,
        n >> 24u32 == 0x0a00_0000u32 >> 24u32 <==> 0x0a00_0000u32 <= n && n <= 0x0aff_ffffu32,
        n >> 22u32 == 0x6440_0000u32 >> 22u32 <==> 0x6440_0000u32 <= n && n <= 0x647f_ffffu32,
        n >> 24u32 == 0x7f00_0000u32 >> 24u32 <==> 0x7f00_0000u32 <= n && n <= 0x7fff_ffffu32,
        n >> 16u32 == 0xa9fe_0000u32 >> 16u32 <==> 0xa9fe_0000u32 <= n && n <= 0xa9fe_ffffu32,
        n >> 20u32 == 0xac10_0000u32 >> 20u32 <==> 0xac10_0000u32 <= n && n <= 0xac1f_ffffu32,
        n >> 8u32 == 0xc000_0000u32 >> 8u32 <==> 0xc000_0000u32 <= n && n <= 0xc000_00ffu32,
        n >> 8u32 == 0xc000_0200u32 >> 8u32 <==> 0xc000_0200u32 <= n && n <= 0xc000_02ffu32,
        n >> 16u32 == 0xc0a8_0000u32 >> 16u32 <==> 0xc0a8_0000u32 <= n && n <= 0xc0a8_ffffu32,
        n >> 17u32 == 0xc612_0000u32 >> 17u32 <==> 0xc612_0000u32 <= n && n <= 0xc613_ffffu32,
        n >> 8u32 == 0xc633_6400u32 >> 8u32 <==> 0xc633_6400u32 <= n && n <= 0xc633_64ffu32,
        n >> 8u32 == 0xcb00_7100u32 >> 8u32 <==> 0xcb00_7100u32 <= n && n <= 0xcb00_71ffu32,
        n >> 28u32 == 0xe000_0000u32 >> 28u32 <==> 0xe000_0000u32 <= n && n <= 0xefff_ffffu32,
        n >> 28u32 == 0xf000_0000u32 >> 28u32 <==> 0xf000_0000u32 <= n,
{
}

/// The networks for special use are these ranges, and of IPv6 the addresses of no host
/// and of the local host.
#[verifier::spinoff_prover]
#[verifier::rlimit(50)]
pub proof fn networks_for_special_use_are_ranges(
    special: Vec<IpNet>,
    n: u32,
    r: bool,
    none: bool,
    local: bool,
)
    requires
        call_ensures(reserved_ip_nets, (), special),
        call_ensures(contains_one, (&special, IpAddr::V4(n)), r),
        call_ensures(contains_one, (&special, IpAddr::V6(0)), none),
        call_ensures(contains_one, (&special, IpAddr::V6(1)), local),
    ensures
        r <==> n <= 0x00ff_ffff || 0x0a00_0000 <= n <= 0x0aff_ffff || 0x6440_0000 <= n <= 0x647f_ffff
            || 0x7f00_0000 <= n <= 0x7fff_ffff || 0xa9fe_0000 <= n <= 0xa9fe_ffff || 0xac10_0000 <= n
            <= 0xac1f_ffff || 0xc000_0000 <= n <= 0xc000_00ff || 0xc000_0200 <= n <= 0xc000_02ff
            || 0xc0a8_0000 <= n <= 0xc0a8_ffff || 0xc612_0000 <= n <= 0xc613_ffff || 0xc633_6400 <= n
            <= 0xc633_64ff || 0xcb00_7100 <= n <= 0xcb00_71ff || 0xe000_0000 <= n,
        none,
        local,
{
    lemma_special_ranges(n);
    let s = reserved();
    let ip = IpAddr::V4(n);
    assert(s[0].has(ip) <==> n <= 0x00ff_ffff);
    assert(s[1].has(ip) <==> 0x0a00_0000 <= n <= 0x0aff_ffff);
    assert(s[2].has(ip) <==> 0x6440_0000 <= n <= 0x647f_ffff);
    assert(s[3].has(ip) <==> 0x7f00_0000 <= n <= 0x7fff_ffff);
    assert(s[4].has(ip) <==> 0xa9fe_0000 <= n <= 0xa9fe_ffff);
    assert(s[5].has(ip) <==> 0xac10_0000 <= n <= 0xac1f_ffff);
    assert(s[6].has(ip) <==> 0xc000_0000 <= n <= 0xc000_00ff);
    assert(s[7].has(ip) <==> 0xc000_0200 <= n <= 0xc000_02ff);
    assert(s[8].has(ip) <==> 0xc0a8_0000 <= n <= 0xc0a8_ffff);
    assert(s[9].has(ip) <==> 0xc612_0000 <= n <= 0xc613_ffff);
    assert(s[10].has(ip) <==> 0xc633_6400 <= n <= 0xc633_64ff);
    assert(s[11].has(ip) <==> 0xcb00_7100 <= n <= 0xcb00_71ff);
    assert(s[12].has(ip) <==> 0xe000_0000 <= n <= 0xefff_ffff);
    assert(s[13].has(ip) <==> 0xf000_0000 <= n);
    assert(s[14].has(IpAddr::V6(0)));
    assert(s[15].has(IpAddr::V6(1)));
    if r {
        let i = choose|i: int| 0 <= i < s.len() && (#[trigger] s[i]).has(ip);
        assert(i == 0 || i == 1 || i == 2 || i == 3 || i == 4 || i == 5 || i == 6 || i == 7 || i == 8
            || i == 9 || i == 10 || i == 11 || i == 12 || i == 13 || i == 14 || i == 15);
    }
}

} // verus!
