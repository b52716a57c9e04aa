//! The transport's bookkeeping: where to bind, whom it has heard, what one
//! turn of its loop moves.
//!
//! The socket itself stays with the caller, which binds it, waits on it with
//! a timeout of `RECEIVE_TIMEOUT_MS` and writes to it. With that timeout
//! and at most `DRAIN_LIMIT` writes, one turn of the loop stays within tens
//! of milliseconds, so a shutdown signal is seen promptly.

use crate::network::address::SocketAddress;
use crate::network::clientrequest::decode_message;
use crate::network::networkinfo::NetworkInfo;
use crate::network::networkmanager::Role;
use vstd::prelude::*;

verus! {

/// One datagram: the address of the other end, and the bytes.
pub type SocketData = (SocketAddress, Vec<u8>);

/// How long one turn of the loop waits for a datagram, in milliseconds.
pub const RECEIVE_TIMEOUT_MS: u64 = 10;

/// How many datagrams one turn of the loop writes at most.
pub const DRAIN_LIMIT: usize = 64;

/// The length of the probe that a joining client sends first.
pub const PROBE_LEN: usize = 5;

/// The bytes of the probe that a joining client sends first.
///
/// They spell no message, so a host that has not registered the sender
/// answers them with a refusal, and that answer is the first that the
/// client hears of the host.
pub open spec fn probe_bytes() -> Seq<u8> {
    seq![0x70u8, 0x72u8, 0x6fu8, 0x62u8, 0x65u8]
}

/// What the wait for a datagram ended with.
#[derive(Debug, PartialEq, Eq)]
pub enum Received {
    /// A datagram arrived.
    Datagram { data: SocketData },
    /// Nothing arrived in time.
    TimedOut,
    /// The socket reported an error.
    Failed,
}

/// What one turn of the loop moves.
#[derive(Debug, PartialEq, Eq)]
pub struct Turn {
    /// The loop ends here and the socket is released.
    pub stop: bool,
    /// The datagram to push to the inbound channel, if one arrived.
    pub inbound: Option<SocketData>,
    /// The datagrams to write to the socket, in this order.
    pub writes: Vec<SocketData>,
}

/// The state of the transport's bookkeeping.
pub struct TransportModel {
    pub is_host: bool,
    pub bind_addr: SocketAddress,
    pub host_addr: Option<SocketAddress>,
    /// The addresses heard so far, each once, in the order of first
    /// hearing.
    pub peers: Seq<SocketAddress>,
}

impl TransportModel {
    /// No address is listed twice.
    pub open spec fn wf(self) -> bool {
        self.peers.no_duplicates()
    }

    /// The bookkeeping of a host at `port`: bound to every local interface.
    pub open spec fn host(port: u16) -> TransportModel {
        TransportModel {
            is_host: true,
            bind_addr: SocketAddress::V4 { octets: 0, port },
            host_addr: None,
            peers: Seq::empty(),
        }
    }

    /// The bookkeeping of a client of the host at `host_addr`: bound to a
    /// port that the system picks.
    pub open spec fn join(host_addr: SocketAddress) -> TransportModel {
        TransportModel {
            is_host: false,
            bind_addr: SocketAddress::V4 { octets: 0, port: 0 },
            host_addr: Some(host_addr),
            peers: Seq::empty(),
        }
    }

    /// The bookkeeping after `addr` was heard.
    pub open spec fn heard(self, addr: SocketAddress) -> TransportModel {
        if self.peers.contains(addr) {
            self
        } else {
            TransportModel { peers: self.peers.push(addr), ..self }
        }
    }

    /// The bookkeeping after a wait that ended with `received`.
    pub open spec fn received(self, received: Received) -> TransportModel {
        match received {
            Received::Datagram { data } => self.heard(data.0),
            _ => self,
        }
    }
}

/// The datagram that a wait delivered, if it delivered one.
pub open spec fn inbound_of(received: Received) -> Option<SocketData> {
    match received {
        Received::Datagram { data } => Some(data),
        _ => None,
    }
}

/// How many of `pending` datagrams one turn writes.
pub open spec fn drained(pending: int) -> int {
    if pending <= DRAIN_LIMIT {
        pending
    } else {
        DRAIN_LIMIT as int
    }
}

/// The transport's bookkeeping.
pub struct SocketManager {
    is_host: bool,
    bind_addr: SocketAddress,
    host_addr: Option<SocketAddress>,
    peers: Vec<SocketAddress>,
}

impl View for SocketManager {
    type V = TransportModel;

    closed spec fn view(&self) -> TransportModel {
        TransportModel {
            is_host: self.is_host,
            bind_addr: self.bind_addr,
            host_addr: self.host_addr,
            peers: self.peers@,
        }
    }
}

impl SocketManager {
    #[verifier::type_invariant]
    spec fn inv(self) -> bool {
        self@.wf()
    }

    /// The bookkeeping for `role`: of a host at the port of `addr`, or of a
    /// client of the host at `addr`.
    pub fn new(role: Role, addr: SocketAddress) -> (s: Self)
        ensures
            s@.wf(),
            s@ == match role {
                Role::Host => TransportModel::host(addr.spec_port()),
                Role::Client => TransportModel::join(addr),
            },
    {
        match role {
            Role::Host => Self::host(addr.port()),
            Role::Client => Self::join(addr),
        }
    }

    /// The bookkeeping of a host at `port`.
    pub fn host(port: u16) -> (s: Self)
        ensures
            s@.wf(),
            s@ == TransportModel::host(port),
    {
        let s = SocketManager {
            is_host: true,
            bind_addr: SocketAddress::wildcard(port),
            host_addr: None,
            peers: Vec::new(),
        };
        assert(s@.peers =~= Seq::<SocketAddress>::empty());
        s
    }

    /// The bookkeeping of a client of the host at `host_addr`.
    pub fn join(host_addr: SocketAddress) -> (s: Self)
        ensures
            s@.wf(),
            s@ == TransportModel::join(host_addr),
    {
        let s = SocketManager {
            is_host: false,
            bind_addr: SocketAddress::wildcard(0),
            host_addr: Some(host_addr),
            peers: Vec::new(),
        };
        assert(s@.peers =~= Seq::<SocketAddress>::empty());
        s
    }

    /// The address to bind the socket to.
    pub fn bind_addr(&self) -> (a: SocketAddress)
        ensures
            a == self@.bind_addr,
    {
        self.bind_addr
    }

    /// The datagram to send before the loop starts: a client's probe to its
    /// host; nothing for a host.
    pub fn probe(&self) -> (r: Option<SocketData>)
        ensures
            match r {
                Some(data) => self@.host_addr == Some(data.0) && data.1@ == probe_bytes(),
                None => self@.host_addr is None,
            },
    {
        match self.host_addr {
            Some(addr) => {
                let mut bytes: Vec<u8> = Vec::new();
                bytes.push(0x70);
                bytes.push(0x72);
                bytes.push(0x6f);
                bytes.push(0x62);
                bytes.push(0x65);
                assert(bytes@ =~= probe_bytes());
                Some((addr, bytes))
            },
            None => None,
        }
    }

    fn knows(&self, addr: SocketAddress) -> (r: bool)
        ensures
            r == self@.peers.contains(addr),
    {
        let mut i: usize = 0;
        while i < self.peers.len()
            invariant
                i <= self.peers@.len(),
                self@.peers == self.peers@,
                forall|k: int| 0 <= k < i ==> self.peers@[k] != addr,
            decreases self.peers@.len() - i,
        {
            if self.peers[i] == addr {
                return true;
            }
            i += 1;
        }
        false
    }

    /// Notes that a datagram from `addr` arrived; tells whether `addr` was
    /// heard for the first time.
    pub fn poll(&mut self, addr: SocketAddress) -> (new_peer: bool)
        ensures
            final(self)@.wf(),
            final(self)@ == old(self)@.heard(addr),
            new_peer == !old(self)@.peers.contains(addr),
    {
        proof {
            use_type_invariant(&*self);
        }
        if self.knows(addr) {
            false
        } else {
            let mut peers: Vec<SocketAddress> = Vec::new();
            std::mem::swap(&mut peers, &mut self.peers);
            peers.push(addr);
            assert(peers@.no_duplicates()) by {
                assert forall|i: int, j: int|
                    0 <= i < peers@.len() && 0 <= j < peers@.len() && i != j implies peers@[i]
                    != peers@[j] by {
                    let n = old(self)@.peers.len() as int;
                    if i < n && j < n {
                    } else if i < n {
                        assert(old(self)@.peers.contains(old(self)@.peers[i]));
                    } else {
                        assert(old(self)@.peers.contains(old(self)@.peers[j]));
                    }
                }
            }
            self.peers = peers;
            true
        }
    }

    /// What is known of the session, for a socket bound at `local_addr`.
    pub fn network_info(&self, local_addr: SocketAddress) -> (info: NetworkInfo)
        ensures
            info.is_host == self@.is_host,
            info.local_addr == local_addr,
            info.host_addr == self@.host_addr,
            info.connected_peers@ == self@.peers,
    {
        let mut peers: Vec<SocketAddress> = Vec::new();
        let mut i: usize = 0;
        while i < self.peers.len()
            invariant
                i <= self.peers@.len(),
                peers@ == self.peers@.subrange(0, i as int),
            decreases self.peers@.len() - i,
        {
            peers.push(self.peers[i]);
            i += 1;
            assert(peers@ =~= self.peers@.subrange(0, i as int));
        }
        assert(peers@ =~= self.peers@);
        NetworkInfo::new(self.is_host, local_addr, self.host_addr, peers)
    }

    /// One turn of the transport's loop.
    ///
    /// With the shutdown signal raised the loop stops and moves nothing.
    /// Otherwise a datagram that arrived goes inbound and its sender is
    /// noted, and the first `DRAIN_LIMIT` datagrams of `outbound`, or all of
    /// them if they are fewer, leave it to be written, in their order; the
    /// others wait for the next turn.
    pub fn turn(&mut self, shutdown: bool, received: Received, outbound: &mut Vec<SocketData>) -> (turn:
        Turn)
        ensures
            final(self)@.wf(),
            turn.stop == shutdown,
            shutdown ==> {
                &&& final(self)@ == old(self)@
                &&& turn.inbound is None
                &&& turn.writes@ == Seq::<SocketData>::empty()
                &&& final(outbound)@ == old(outbound)@
            },
            !shutdown ==> {
                &&& final(self)@ == old(self)@.received(received)
                &&& turn.inbound == inbound_of(received)
                &&& turn.writes@ == old(outbound)@.subrange(
                    0,
                    drained(old(outbound)@.len() as int),
                )
                &&& final(outbound)@ == old(outbound)@.subrange(
                    drained(old(outbound)@.len() as int),
                    old(outbound)@.len() as int,
                )
            },
    {
        proof {
            use_type_invariant(&*self);
        }
        if shutdown {
            return Turn { stop: true, inbound: None, writes: Vec::new() };
        }
        let inbound = match received {
            Received::Datagram { data } => {
                let _ = self.poll(data.0);
                Some(data)
            },
            _ => None,
        };
        let count: usize = if outbound.len() <= DRAIN_LIMIT {
            outbound.len()
        } else {
            DRAIN_LIMIT
        };
        let mut rest = outbound.split_off(count);
        std::mem::swap(outbound, &mut rest);
        Turn { stop: false, inbound, writes: rest }
    }
}

/// The probe spells no message: a host answers it as it answers any bytes
/// it cannot read.
pub proof fn lemma_probe_is_no_message()
    ensures
        probe_bytes().len() == PROBE_LEN,
        decode_message(probe_bytes()) is None,
{
    crate::network::clientrequest::lemma_no_message_of_five_bytes(probe_bytes());
}

} // verus!
