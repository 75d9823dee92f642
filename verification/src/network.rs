//! Classification of interface addresses as globally routable, and the
//! combined `Network` line. Addresses are held as plain octets and segments,
//! so the exclusion rules are stated and checked directly.

use crate::text::decimal;
use crate::text::opt_text;
use crate::text::u64_to_string;
use vstd::prelude::*;
use vstd::string::StringExecFns;

verus! {

/// An IPv4 address as its four octets.
#[derive(Clone, Copy, Debug)]
pub struct Ipv4Data {
    pub a: u8,
    pub b: u8,
    pub c: u8,
    pub d: u8,
}

/// An IPv6 address as its eight 16-bit segments.
#[derive(Clone, Copy, Debug)]
pub struct Ipv6Data {
    pub s0: u16,
    pub s1: u16,
    pub s2: u16,
    pub s3: u16,
    pub s4: u16,
    pub s5: u16,
    pub s6: u16,
    pub s7: u16,
}

/// One interface address of either family.
#[derive(Clone, Copy, Debug)]
pub enum IpAddress {
    V4(Ipv4Data),
    V6(Ipv6Data),
}

pub open spec fn v4_is_broadcast(ip: Ipv4Data) -> bool {
    ip.a == 255 && ip.b == 255 && ip.c == 255 && ip.d == 255
}

pub open spec fn v4_is_documentation(ip: Ipv4Data) -> bool {
    (ip.a == 192 && ip.b == 0 && ip.c == 2) || (ip.a == 198 && ip.b == 51 && ip.c == 100) || (
    ip.a == 203 && ip.b == 0 && ip.c == 113)
}

pub open spec fn v4_is_link_local(ip: Ipv4Data) -> bool {
    ip.a == 169 && ip.b == 254
}

pub open spec fn v4_is_loopback(ip: Ipv4Data) -> bool {
    ip.a == 127
}

pub open spec fn v4_is_multicast(ip: Ipv4Data) -> bool {
    224 <= ip.a < 240
}

pub open spec fn v4_is_unspecified(ip: Ipv4Data) -> bool {
    ip.a == 0 && ip.b == 0 && ip.c == 0 && ip.d == 0
}

pub open spec fn v4_is_private(ip: Ipv4Data) -> bool {
    ip.a == 10 || (ip.a == 172 && 16 <= ip.b < 32) || (ip.a == 192 && ip.b == 168)
}

/// An IPv4 address counts as globally routable when it falls in none of the
/// excluded ranges.
pub open spec fn v4_is_global(ip: Ipv4Data) -> bool {
    !v4_is_broadcast(ip) && !v4_is_documentation(ip) && !v4_is_link_local(ip) && !v4_is_loopback(
        ip,
    ) && !v4_is_multicast(ip) && !v4_is_unspecified(ip) && !v4_is_private(ip)
}

pub open spec fn v6_is_loopback(ip: Ipv6Data) -> bool {
    ip.s0 == 0 && ip.s1 == 0 && ip.s2 == 0 && ip.s3 == 0 && ip.s4 == 0 && ip.s5 == 0 && ip.s6 == 0
        && ip.s7 == 1
}

pub open spec fn v6_is_multicast(ip: Ipv6Data) -> bool {
    ip.s0 & 0xff00 == 0xff00
}

pub open spec fn v6_is_unicast_link_local(ip: Ipv6Data) -> bool {
    ip.s0 & 0xffc0 == 0xfe80
}

pub open spec fn v6_is_unique_local(ip: Ipv6Data) -> bool {
    ip.s0 & 0xfe00 == 0xfc00
}

pub open spec fn v6_is_unspecified(ip: Ipv6Data) -> bool {
    ip.s0 == 0 && ip.s1 == 0 && ip.s2 == 0 && ip.s3 == 0 && ip.s4 == 0 && ip.s5 == 0 && ip.s6 == 0
        && ip.s7 == 0
}

/// An IPv6 address counts as globally routable when it falls in none of the
/// excluded ranges.
pub open spec fn v6_is_global(ip: Ipv6Data) -> bool {
    !v6_is_loopback(ip) && !v6_is_multicast(ip) && !v6_is_unicast_link_local(ip)
        && !v6_is_unique_local(ip) && !v6_is_unspecified(ip)
}

/// Whether an address of either family is globally routable.
pub open spec fn ip_is_global(a: IpAddress) -> bool {
    match a {
        IpAddress::V4(ip) => v4_is_global(ip),
        IpAddress::V6(ip) => v6_is_global(ip),
    }
}

/// Tests whether an IPv4 address is globally routable.
pub fn is_global_ipv4(ip: Ipv4Data) -> (r: bool)
    ensures
        r == v4_is_global(ip),
{
    !(ip.a == 255 && ip.b == 255 && ip.c == 255 && ip.d == 255) && !((ip.a == 192 && ip.b == 0
        && ip.c == 2) || (ip.a == 198 && ip.b == 51 && ip.c == 100) || (ip.a == 203 && ip.b == 0
        && ip.c == 113)) && !(ip.a == 169 && ip.b == 254) && !(ip.a == 127) && !(224 <= ip.a
        && ip.a < 240) && !(ip.a == 0 && ip.b == 0 && ip.c == 0 && ip.d == 0) && !(ip.a == 10 || (
    ip.a == 172 && 16 <= ip.b && ip.b < 32) || (ip.a == 192 && ip.b == 168))
}

/// Tests whether an IPv6 address is globally routable.
pub fn is_global_ipv6(ip: Ipv6Data) -> (r: bool)
    ensures
        r == v6_is_global(ip),
{
    let zero_head = ip.s0 == 0 && ip.s1 == 0 && ip.s2 == 0 && ip.s3 == 0 && ip.s4 == 0 && ip.s5
        == 0 && ip.s6 == 0;
    !(zero_head && ip.s7 == 1) && !(ip.s0 & 0xff00 == 0xff00) && !(ip.s0 & 0xffc0 == 0xfe80) && !(
    ip.s0 & 0xfe00 == 0xfc00) && !(zero_head && ip.s7 == 0)
}

/// The number of globally routable IPv4 addresses in the sequence.
pub open spec fn count_v4(addrs: Seq<IpAddress>) -> nat
    decreases addrs.len(),
{
    if addrs.len() == 0 {
        0
    } else {
        (match addrs[0] {
            IpAddress::V4(ip) => if v4_is_global(ip) {
                1nat
            } else {
                0nat
            },
            IpAddress::V6(_) => 0nat,
        }) + count_v4(addrs.drop_first())
    }
}

/// The number of globally routable IPv6 addresses in the sequence.
pub open spec fn count_v6(addrs: Seq<IpAddress>) -> nat
    decreases addrs.len(),
{
    if addrs.len() == 0 {
        0
    } else {
        (match addrs[0] {
            IpAddress::V4(_) => 0nat,
            IpAddress::V6(ip) => if v6_is_global(ip) {
                1nat
            } else {
                0nat
            },
        }) + count_v6(addrs.drop_first())
    }
}

/// Counts the globally routable addresses, IPv4 and IPv6 separately.
pub fn count_global(addrs: &Vec<IpAddress>) -> (counts: (usize, usize))
    ensures
        counts.0 == count_v4(addrs@),
        counts.1 == count_v6(addrs@),
{
    let mut v4: usize = 0;
    let mut v6: usize = 0;
    let mut i: usize = 0;
    proof {
        assert(addrs@.skip(0) =~= addrs@);
    }
    while i < addrs.len()
        invariant
            i <= addrs@.len(),
            v4 <= i,
            v6 <= i,
            v4 + count_v4(addrs@.skip(i as int)) == count_v4(addrs@),
            v6 + count_v6(addrs@.skip(i as int)) == count_v6(addrs@),
        decreases addrs@.len() - i,
    {
        proof {
            assert(addrs@.skip(i as int).drop_first() =~= addrs@.skip(i as int + 1));
            assert(addrs@.skip(i as int)[0] == addrs@[i as int]);
        }
        match addrs[i] {
            IpAddress::V4(ip) => {
                if is_global_ipv4(ip) {
                    v4 = v4 + 1;
                }
            },
            IpAddress::V6(ip) => {
                if is_global_ipv6(ip) {
                    v6 = v6 + 1;
                }
            },
        }
        i = i + 1;
    }
    proof {
        assert(addrs@.skip(addrs@.len() as int) =~= Seq::<IpAddress>::empty());
    }
    (v4, v6)
}

/// The text of the `Network` line for the given nonzero counts, e.g.
/// `2x IPv4, 1x IPv6`, with a clause omitted when its count is zero.
pub open spec fn network_text(v4: nat, v6: nat) -> Seq<char> {
    if v4 > 0 && v6 > 0 {
        decimal(v4) + "x IPv4, "@ + decimal(v6) + "x IPv6"@
    } else if v4 > 0 {
        decimal(v4) + "x IPv4"@
    } else {
        decimal(v6) + "x IPv6"@
    }
}

/// The `Network` line for a sequence of addresses: present exactly when some
/// address is globally routable.
pub open spec fn network_line_opt(addrs: Seq<IpAddress>) -> Option<Seq<char>> {
    let v4 = count_v4(addrs);
    let v6 = count_v6(addrs);
    if v4 > 0 || v6 > 0 {
        Some(network_text(v4, v6))
    } else {
        None
    }
}

/// Builds the `Network` line, or nothing when no address qualifies.
pub fn network_line(addrs: &Vec<IpAddress>) -> (r: Option<String>)
    ensures
        opt_text(r) == network_line_opt(addrs@),
{
    let counts = count_global(addrs);
    let v4 = counts.0;
    let v6 = counts.1;
    if v4 > 0 && v6 > 0 {
        let mut s = u64_to_string(v4 as u64);
        s.append("x IPv4, ");
        s.append(u64_to_string(v6 as u64).as_str());
        s.append("x IPv6");
        proof {
            assert(s@ =~= network_text(count_v4(addrs@), count_v6(addrs@)));
        }
        Some(s)
    } else if v4 > 0 {
        let mut s = u64_to_string(v4 as u64);
        s.append("x IPv4");
        proof {
            assert(s@ =~= network_text(count_v4(addrs@), count_v6(addrs@)));
        }
        Some(s)
    } else if v6 > 0 {
        let mut s = u64_to_string(v6 as u64);
        s.append("x IPv6");
        proof {
            assert(s@ =~= network_text(count_v4(addrs@), count_v6(addrs@)));
        }
        Some(s)
    } else {
        None
    }
}

/// A private IPv4 address is never counted as globally routable.
pub proof fn lemma_private_v4_not_global(ip: Ipv4Data)
    requires
        v4_is_private(ip),
    ensures
        !v4_is_global(ip),
{
}

/// When no address in the set is globally routable, no `Network` line is
/// emitted at all.
pub proof fn lemma_all_excluded_no_line(addrs: Seq<IpAddress>)
    requires
        forall|i: int| 0 <= i < addrs.len() ==> !ip_is_global(#[trigger] addrs[i]),
    ensures
        network_line_opt(addrs) is None,
    decreases addrs.len(),
{
    if addrs.len() > 0 {
        let t = addrs.drop_first();
        assert(forall|i: int| 0 <= i < t.len() ==> !ip_is_global(#[trigger] t[i])) by {
            assert(forall|i: int|
                0 <= i < t.len() ==> #[trigger] t[i] == addrs[i + 1] && !ip_is_global(addrs[i + 1]));
        }
        lemma_all_excluded_no_line(t);
        assert(!ip_is_global(addrs[0]));
    }
}

} // verus!
