//! IP addresses and networks: parsing, printing, and containment.

use vstd::prelude::*;

use crate::request::IpAddress;

verus! {

/// The address that `str::parse::<core::net::IpAddr>` reads from `text`, if any.
pub uninterp spec fn ip_parse(text: Seq<char>) -> Option<IpAddress>;

/// The text that `core::net::IpAddr`'s `Display` writes for `ip`.
pub uninterp spec fn ip_text(ip: IpAddress) -> Seq<char>;

/// Calls `str::parse::<core::net::IpAddr>`; the result is named [`ip_parse`].
#[verifier::external_body]
pub(crate) fn parse_ip(text: &str) -> (r: Option<IpAddress>)
    ensures
        r == ip_parse(text@),
{
    match text.parse::<core::net::IpAddr>() {
        Ok(core::net::IpAddr::V4(a)) => Some(IpAddress::V4(u32::from(a))),
        Ok(core::net::IpAddr::V6(a)) => Some(IpAddress::V6(u128::from(a))),
        Err(_) => None,
    }
}

/// Calls `ToString::to_string` on the `core::net::IpAddr` of `ip`; the result is
/// named [`ip_text`].
#[verifier::external_body]
pub(crate) fn format_ip(ip: IpAddress) -> (r: String)
    ensures
        r@ == ip_text(ip),
{
    match ip {
        IpAddress::V4(a) => core::net::IpAddr::V4(core::net::Ipv4Addr::from(a)).to_string(),
        IpAddress::V6(a) => core::net::IpAddr::V6(core::net::Ipv6Addr::from(a)).to_string(),
    }
}

/// An IP network: an address family, an address and a prefix length no
/// longer than the address.
#[derive(Debug, Clone, Copy)]
pub struct IpNetwork {
    v6: bool,
    addr: u128,
    prefix_len: u8,
}

/// The network that `str::parse::<ipnet::IpNet>` reads from `text`, if any, as
/// (is IPv6, address, prefix length).
pub uninterp spec fn cidr_parse(text: Seq<char>) -> Option<(bool, u128, u8)>;

/// Calls `str::parse::<ipnet::IpNet>`; the result is named [`cidr_parse`].  An
/// IPv4 network's address fits in 32 bits, and the prefix length is at most the
/// address width, as `ipnet` checks when it builds a network.
#[verifier::external_body]
fn parse_ipnet(text: &str) -> (r: Option<(bool, u128, u8)>)
    ensures
        r == cidr_parse(text@),
        r matches Some((v6, addr, p)) ==> if v6 { p <= 128 } else { p <= 32 && addr <= u32::MAX },
{
    match text.parse::<ipnet::IpNet>() {
        Ok(ipnet::IpNet::V4(n)) => Some((false, u32::from(n.addr()) as u128, n.prefix_len())),
        Ok(ipnet::IpNet::V6(n)) => Some((true, u128::from(n.addr()), n.prefix_len())),
        Err(_) => None,
    }
}

/// The IPv4 netmask of a prefix length.
pub open spec fn mask_v4(p: u8) -> u32 {
    if p == 0 { 0u32 } else { u32::MAX << ((32 - p) as u32) }
}

/// The IPv6 netmask of a prefix length.
pub open spec fn mask_v6(p: u8) -> u128 {
    if p == 0 { 0u128 } else { u128::MAX << ((128 - p) as u128) }
}

/// Whether network `(v6, addr, p)` contains `ip`: the address lies between the
/// network address and the broadcast address; addresses of the other family
/// are not contained.
pub open spec fn net_contains(net: (bool, u128, u8), ip: IpAddress) -> bool {
    let (v6, addr, p) = net;
    match ip {
        IpAddress::V4(a) => !v6 && ((addr as u32) & mask_v4(p)) <= a && a <= ((addr as u32) | !mask_v4(p)),
        IpAddress::V6(a) => v6 && (addr & mask_v6(p)) <= a && a <= (addr | !mask_v6(p)),
    }
}

impl IpNetwork {
    #[verifier::type_invariant]
    spec fn inv(self) -> bool {
        if self.v6 { self.prefix_len <= 128 } else { self.prefix_len <= 32 && self.addr <= u32::MAX }
    }

    /// The network as (is IPv6, address, prefix length).
    pub closed spec fn spec_parts(self) -> (bool, u128, u8) {
        (self.v6, self.addr, self.prefix_len)
    }

    /// Parses CIDR notation (`10.0.0.0/8`, `2001:db8::/32`).
    pub fn parse(text: &str) -> (r: Option<IpNetwork>)
        ensures
            match r {
                Some(n) => cidr_parse(text@) == Some(n.spec_parts()),
                None => cidr_parse(text@) is None,
            },
    {
        match parse_ipnet(text) {
            Some((v6, addr, prefix_len)) => Some(IpNetwork { v6, addr, prefix_len }),
            None => None,
        }
    }

    /// Whether the network contains `ip`.
    pub fn contains(&self, ip: IpAddress) -> (r: bool)
        ensures
            r == net_contains(self.spec_parts(), ip),
    {
        proof {
            use_type_invariant(self);
        }
        match ip {
            IpAddress::V4(a) => {
                if self.v6 {
                    return false;
                }
                let addr = self.addr as u32;
                let p = self.prefix_len;
                let mask: u32 = if p == 0 { 0 } else { u32::MAX << ((32 - p) as u32) };
                (addr & mask) <= a && a <= (addr | !mask)
            },
            IpAddress::V6(a) => {
                if !self.v6 {
                    return false;
                }
                let p = self.prefix_len;
                let mask: u128 = if p == 0 { 0 } else { u128::MAX << ((128 - p) as u128) };
                (self.addr & mask) <= a && a <= (self.addr | !mask)
            },
        }
    }
}

/// An IPv4 network holds an IPv4 address exactly when the two agree on the
/// first `p` bits (every address, for prefix length 0).  So an address below
/// the network address with its host bits cleared, or above it with its host
/// bits set, is not held.
pub proof fn lemma_contains_v4_is_prefix_match(addr: u128, p: u8, a: u32)
    requires
        p <= 32,
    ensures
        net_contains((false, addr, p), IpAddress::V4(a)) == (p == 0 || (a >> ((32 - p) as u32)) == ((addr as u32) >> ((32
            - p) as u32))),
{
    let n = addr as u32;
    if p == 0 {
        assert((n & 0u32) <= a && a <= (n | !0u32)) by (bit_vector);
    } else {
        let s = (32 - p) as u32;
        assert(s < 32);
        assert(((n & (u32::MAX << s)) <= a && a <= (n | !(u32::MAX << s))) == ((a >> s) == (n >> s))) by (bit_vector)
            requires
                s < 32,
        ;
    }
}

/// An IPv6 network holds an IPv6 address exactly when the two agree on the
/// first `p` bits (every address, for prefix length 0).
#[verifier::rlimit(100)]
pub proof fn lemma_contains_v6_is_prefix_match(addr: u128, p: u8, a: u128)
    requires
        p <= 128,
    ensures
        net_contains((true, addr, p), IpAddress::V6(a)) == (p == 0 || (a >> ((128 - p) as u128)) == (addr >> ((128 - p)
            as u128))),
{
    if p == 0 {
        assert((addr & 0u128) <= a && a <= (addr | !0u128)) by (bit_vector);
    } else {
        let s = (128 - p) as u128;
        assert(s < 128);
        let m = u128::MAX << s;
        assert((a >> s) == (addr >> s) ==> (addr & m) <= a) by (bit_vector)
            requires
                s < 128,
                m == u128::MAX << s,
        ;
        assert((a >> s) == (addr >> s) ==> a <= (addr | !m)) by (bit_vector)
            requires
                s < 128,
                m == u128::MAX << s,
        ;
        assert((addr & m) <= a && a <= (addr | !m) ==> (a >> s) == (addr >> s)) by (bit_vector)
            requires
                s < 128,
                m == u128::MAX << s,
        ;
    }
}

/// A network holds no address of the other family.
pub proof fn lemma_contains_same_family(net: (bool, u128, u8), ip: IpAddress)
    ensures
        net_contains(net, ip) ==> (net.0 <==> ip is V6),
{
}

} // verus!
