//! Internet addresses as plain values.
use vstd::prelude::*;

verus! {

/// An internet address: the four or sixteen octets as one big-endian number.
#[derive(Debug, Clone, Copy, PartialEq, Eq, Structural)]
pub enum IpAddr {
    V4(u32),
    V6(u128),
}

impl IpAddr {
    /// The address as a pair of its family and its bits.
    pub open spec fn spec_key(self) -> (bool, u128) {
        match self {
            IpAddr::V4(bits) => (false, bits as u128),
            IpAddr::V6(bits) => (true, bits),
        }
    }

    /// The address as a pair of its family and its bits.
    pub fn key(self) -> (r: (bool, u128))
        ensures
            r == self.spec_key(),
    {
        match self {
            IpAddr::V4(bits) => (false, bits as u128),
            IpAddr::V6(bits) => (true, bits),
        }
    }
}

/// Different addresses have different keys.
pub proof fn key_is_injective(a: IpAddr, b: IpAddr)
    requires
        a.spec_key() == b.spec_key(),
    ensures
        a == b,
{
}

} // verus!
