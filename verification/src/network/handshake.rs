//! The join handshake from end to end: what the two routers do to each
//! other's datagrams.

use crate::network::address::SocketAddress;
use crate::network::clientid::ClientId;
use crate::network::clientnetworkhandler::{ClientActionModel, ClientModel};
use crate::network::clientrequest::{
    lemma_message_round_trip, message_bytes, ClientMessage, ClientRequest,
};
use crate::network::networkhandler::{
    rejection_bytes, welcome_bytes, HostActionModel, HostModel, RegistryEntry,
};
use crate::network::serverevent::{lemma_event_round_trip, EventModel};
use crate::network::socketmanager::{lemma_probe_is_no_message, probe_bytes};
use crate::sequence::SEQUENCE_END;
use vstd::prelude::*;

verus! {

/// The bytes of a `Join` from a client that has no identity yet.
pub open spec fn join_bytes() -> Seq<u8> {
    message_bytes(ClientMessage { client_id: None, request: ClientRequest::Join })
}

/// The handshake completes when no datagram is lost.
///
/// A client at `client_addr`, unknown to a host at `host_addr` that has an
/// identity left, probes the host. The host answers the probe with a
/// refusal and registers nothing. The refusal makes the client accept the
/// host for now and ask to join. The host registers the client under the
/// upcoming identity, starts to track it and tells it the identity. That
/// answer gives the client its identity and is the first thing its local
/// consumer sees.
pub proof fn lemma_handshake_completes(
    host: HostModel,
    client_addr: SocketAddress,
    host_addr: SocketAddress,
)
    requires
        host.wf(),
        !host.has_addr(client_addr),
        host.upcoming < SEQUENCE_END,
    ensures
        ({
            let id = ClientId(host.upcoming as u32);
            let probed = host.datagram(client_addr, probe_bytes());
            let contacted = ClientModel::initial().datagram(host_addr, rejection_bytes());
            let joined = probed.0.datagram(client_addr, join_bytes());
            let welcomed = contacted.0.datagram(host_addr, welcome_bytes(id));
            &&& probed.0 == host
            &&& probed.1 == seq![
                HostActionModel::Send { addr: client_addr, bytes: rejection_bytes() },
            ]
            &&& contacted.0 == (ClientModel { host: Some(host_addr), identity: None })
            &&& contacted.1 == seq![
                ClientActionModel::Send { addr: host_addr, bytes: join_bytes() },
            ]
            &&& joined.0.wf()
            &&& joined.0.clients == host.clients.push(RegistryEntry { addr: client_addr, id })
            &&& joined.0.id_of(client_addr) == Some(id)
            &&& joined.1 == seq![
                HostActionModel::Track { client: id },
                HostActionModel::Send { addr: client_addr, bytes: welcome_bytes(id) },
            ]
            &&& welcomed.0 == (ClientModel { host: Some(host_addr), identity: Some(id) })
            &&& welcomed.1 == seq![
                ClientActionModel::Deliver { event: EventModel::Joined { client_id: Some(id) } },
            ]
        }),
{
    let id = ClientId(host.upcoming as u32);
    lemma_probe_is_no_message();
    lemma_event_round_trip(EventModel::Joined { client_id: None });
    lemma_message_round_trip(ClientMessage { client_id: None, request: ClientRequest::Join });
    lemma_event_round_trip(EventModel::Joined { client_id: Some(id) });
    let joined = host.datagram(client_addr, join_bytes()).0;
    crate::network::networkhandler::lemma_step_keeps_registry_valid(
        host,
        crate::network::networkhandler::HostEvent::Datagram {
            addr: client_addr,
            bytes: join_bytes(),
        },
    );
    let last = host.clients.len() as int;
    assert(joined.clients[last].addr == client_addr);
    let found = joined.index_of_addr(client_addr);
    if found != last {
        assert(joined.clients[found].addr != joined.clients[last].addr);
    }
}

} // verus!
