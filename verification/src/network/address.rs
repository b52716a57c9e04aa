use vstd::prelude::*;

verus! {

/// The address of one datagram endpoint, as plain numbers.
///
/// An IPv4 address is its four octets read as one big-endian number, an IPv6
/// address its eight segments read the same way. Two addresses are the same endpoint exactly when all
/// their fields agree.
#[derive(Clone, Copy, Debug, PartialEq, Eq, Structural, Hash)]
pub enum SocketAddress {
    V4 { octets: u32, port: u16 },
    V6 { segments: u128, port: u16, flowinfo: u32, scope_id: u32 },
}

impl SocketAddress {
    /// The port of an address.
    pub open spec fn spec_port(self) -> u16 {
        match self {
            SocketAddress::V4 { port, .. } => port,
            SocketAddress::V6 { port, .. } => port,
        }
    }

    /// The IPv4 address that stands for every local interface, at `port`.
    pub fn wildcard(port: u16) -> (a: Self)
        ensures
            a == (SocketAddress::V4 { octets: 0, port }),
    {
        SocketAddress::V4 { octets: 0, port }
    }

    /// The port of this address.
    #[verifier::when_used_as_spec(spec_port)]
    pub fn port(self) -> (p: u16)
        ensures
            p == self.spec_port(),
    {
        match self {
            SocketAddress::V4 { port, .. } => port,
            SocketAddress::V6 { port, .. } => port,
        }
    }
}

} // verus!
