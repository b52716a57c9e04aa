use crate::network::address::SocketAddress;
use vstd::prelude::*;

verus! {

/// What the transport knows of the session it serves.
#[derive(Debug, PartialEq, Eq)]
pub struct NetworkInfo {
    pub is_host: bool,
    pub local_addr: SocketAddress,
    pub host_addr: Option<SocketAddress>,
    pub connected_peers: Vec<SocketAddress>,
}

impl NetworkInfo {
    /// A record of the four facts given.
    pub fn new(
        is_host: bool,
        local_addr: SocketAddress,
        host_addr: Option<SocketAddress>,
        connected_peers: Vec<SocketAddress>,
    ) -> (info: Self)
        ensures
            info.is_host == is_host,
            info.local_addr == local_addr,
            info.host_addr == host_addr,
            info.connected_peers == connected_peers,
    {
        NetworkInfo { is_host, local_addr, host_addr, connected_peers }
    }
}

} // verus!
