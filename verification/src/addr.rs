use vstd::prelude::*;

verus! {

/// An IPv4 address identifying a ping target, held as its four dotted-quad
/// octets. Immutable; supplied by the caller.
#[derive(Clone, Copy, Debug, PartialEq, Eq, Structural)]
pub struct Ipv4Addr {
    pub octet0: u8,
    pub octet1: u8,
    pub octet2: u8,
    pub octet3: u8,
}

impl Ipv4Addr {
    /// Builds the address `o0.o1.o2.o3`.
    pub fn new(o0: u8, o1: u8, o2: u8, o3: u8) -> (r: Ipv4Addr)
        ensures
            r == (Ipv4Addr { octet0: o0, octet1: o1, octet2: o2, octet3: o3 }),
    {
        Ipv4Addr { octet0: o0, octet1: o1, octet2: o2, octet3: o3 }
    }
}

} // verus!
