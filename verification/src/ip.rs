//! The address model: IPv4 and IPv6 addresses as plain values, and the
//! canonicalization that recovers the IPv4 form of an IPv4-mapped IPv6
//! address.

use vstd::prelude::*;

verus! {

/// An IPv4 address as four octets, most significant first.
#[derive(Clone, Copy, Debug, PartialEq, Eq)]
pub struct Ipv4Address {
    pub octets: [u8; 4],
}

/// An IPv6 address as eight 16-bit groups, most significant first.
#[derive(Clone, Copy, Debug, PartialEq, Eq)]
pub struct Ipv6Address {
    pub segments: [u16; 8],
}

/// An address of either family.
#[derive(Clone, Copy, Debug, PartialEq, Eq)]
pub enum IpAddress {
    V4(Ipv4Address),
    V6(Ipv6Address),
}

/// An IPv4-mapped IPv6 address (`::ffff:a.b.c.d`): the first five
/// groups are zero and the sixth is `0xffff`.
pub open spec fn is_ipv4_mapped(a: Ipv6Address) -> bool {
    &&& a.segments[0] == 0
    &&& a.segments[1] == 0
    &&& a.segments[2] == 0
    &&& a.segments[3] == 0
    &&& a.segments[4] == 0
    &&& a.segments[5] == 0xffff
}

/// The IPv4 address that an IPv4-mapped IPv6 address encodes in its
/// last two groups.
pub open spec fn mapped_ipv4(a: Ipv6Address) -> Ipv4Address {
    Ipv4Address {
        octets: [
            (a.segments[6] / 256) as u8,
            (a.segments[6] % 256) as u8,
            (a.segments[7] / 256) as u8,
            (a.segments[7] % 256) as u8,
        ],
    }
}

/// The canonical form of an address: an IPv4-mapped IPv6 address
/// becomes the IPv4 address it encodes; everything else is unchanged.
pub open spec fn spec_canonical(ip: IpAddress) -> IpAddress {
    match ip {
        IpAddress::V4(_) => ip,
        IpAddress::V6(a) => if is_ipv4_mapped(a) {
            IpAddress::V4(mapped_ipv4(a))
        } else {
            ip
        },
    }
}

impl Ipv6Address {
    /// Whether this address is IPv4-mapped.
    pub fn is_ipv4_mapped(&self) -> (r: bool)
        ensures
            r == is_ipv4_mapped(*self),
    {
        self.segments[0] == 0 && self.segments[1] == 0 && self.segments[2] == 0
            && self.segments[3] == 0 && self.segments[4] == 0 && self.segments[5] == 0xffff
    }

    /// The IPv4 address held in the last two groups.
    pub fn to_mapped_ipv4(&self) -> (r: Ipv4Address)
        ensures
            r == mapped_ipv4(*self),
    {
        Ipv4Address {
            octets: [
                (self.segments[6] / 256) as u8,
                (self.segments[6] % 256) as u8,
                (self.segments[7] / 256) as u8,
                (self.segments[7] % 256) as u8,
            ],
        }
    }
}

impl IpAddress {
    /// Convert an IPv4-mapped IPv6 address to its IPv4 form; leave any
    /// other address unchanged.  Canonicalization happens strictly
    /// before the IPv4/IPv6 branch of the edge normalizer, so an
    /// IPv6-looking address that encodes an IPv4 payload is accepted.
    pub fn to_canonical(self) -> (r: IpAddress)
        ensures
            r == spec_canonical(self),
    {
        match self {
            IpAddress::V4(_) => self,
            IpAddress::V6(a) => if a.is_ipv4_mapped() {
                IpAddress::V4(a.to_mapped_ipv4())
            } else {
                self
            },
        }
    }
}

} // verus!
