//! Plain network descriptors: a version-4 address held as its four octets.
use vstd::prelude::*;

verus! {

/// An IPv4 address, octet by octet.
#[derive(Clone, Copy, Debug, PartialEq, Eq, Structural)]
pub struct IpAddress {
    pub o0: u8,
    pub o1: u8,
    pub o2: u8,
    pub o3: u8,
}

impl IpAddress {
    pub fn new(o0: u8, o1: u8, o2: u8, o3: u8) -> (r: IpAddress)
        ensures
            r == (IpAddress { o0, o1, o2, o3 }),
    {
        IpAddress { o0, o1, o2, o3 }
    }

    /// The loopback address.
    pub fn loopback() -> (r: IpAddress)
        ensures
            r == (IpAddress { o0: 127, o1: 0, o2: 0, o3: 1 }),
    {
        IpAddress { o0: 127, o1: 0, o2: 0, o3: 1 }
    }
}

/// An IPv6 address, group by group.
#[derive(Clone, Copy, Debug, PartialEq, Eq, Structural)]
pub struct Ipv6Address {
    pub g0: u16,
    pub g1: u16,
    pub g2: u16,
    pub g3: u16,
    pub g4: u16,
    pub g5: u16,
    pub g6: u16,
    pub g7: u16,
}

/// An address of either family, as a discovery lookup may resolve both.
#[derive(Clone, Copy, Debug, PartialEq, Eq, Structural)]
pub enum HostAddress {
    V4(IpAddress),
    V6(Ipv6Address),
}

} // verus!
