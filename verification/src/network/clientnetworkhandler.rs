//! The client's router: the handshake with the host, the authority of the
//! host's address, and the relay of local requests.

use crate::network::address::SocketAddress;
use crate::network::clientid::ClientId;
use crate::network::clientrequest::{message_bytes, ClientMessage, ClientRequest};
use crate::network::serverevent::{decode_event, EventModel, ServerEvent};
use crate::network::socketmanager::SocketData;
use vstd::prelude::*;

verus! {

/// What the router asks its caller to do.
#[derive(Debug, PartialEq, Eq)]
pub enum ClientAction {
    /// Write `bytes` to the transport, for `addr`.
    Send { addr: SocketAddress, bytes: Vec<u8> },
    /// Hand `event` to the local consumer.
    Deliver { event: ServerEvent },
}

/// What can reach the client's router, as the caller hands it over.
#[derive(Debug, PartialEq, Eq)]
pub enum ClientInput {
    /// A datagram from the transport.
    Datagram { data: SocketData },
    /// A request of the local user, in its envelope.
    Request { message: ClientMessage },
    /// The heartbeat timer fired.
    Heartbeat,
}

/// A client action as a mathematical value.
pub enum ClientActionModel {
    Send { addr: SocketAddress, bytes: Seq<u8> },
    Deliver { event: EventModel },
}

impl View for ClientAction {
    type V = ClientActionModel;

    open spec fn view(&self) -> ClientActionModel {
        match *self {
            ClientAction::Send { addr, bytes } => ClientActionModel::Send { addr, bytes: bytes@ },
            ClientAction::Deliver { event } => ClientActionModel::Deliver { event: event@ },
        }
    }
}

/// What can reach the client's router.
pub enum ClientEvent {
    /// A datagram from the transport.
    Datagram { peer: SocketAddress, bytes: Seq<u8> },
    /// A request of the local user.
    Request { message: ClientMessage },
    /// The heartbeat timer fired.
    Heartbeat,
}

impl ClientEvent {
    /// The address that a datagram came from; none for what did not come
    /// from the transport.
    pub open spec fn sender(self) -> Option<SocketAddress> {
        match self {
            ClientEvent::Datagram { peer, .. } => Some(peer),
            _ => None,
        }
    }
}

impl View for ClientInput {
    type V = ClientEvent;

    open spec fn view(&self) -> ClientEvent {
        match *self {
            ClientInput::Datagram { data } => ClientEvent::Datagram { peer: data.0, bytes: data.1@ },
            ClientInput::Request { message } => ClientEvent::Request { message },
            ClientInput::Heartbeat => ClientEvent::Heartbeat,
        }
    }
}

/// The actions of a list, each as a mathematical value.
pub open spec fn action_models(actions: Seq<ClientAction>) -> Seq<ClientActionModel> {
    Seq::new(actions.len(), |i: int| actions[i]@)
}

/// Whether an action hands something to the local consumer.
pub open spec fn reaches_consumer(action: ClientActionModel) -> bool {
    action is Deliver
}

/// The state of the client's router: the address it believes to be the
/// host's, and the identity the host gave it.
///
/// With no host it is searching; with a host and no identity the host is
/// accepted for now; with both the handshake is complete.
pub struct ClientModel {
    pub host: Option<SocketAddress>,
    pub identity: Option<ClientId>,
}

impl ClientModel {
    /// The router of a fresh session: no host, no identity.
    pub open spec fn initial() -> ClientModel {
        ClientModel { host: None, identity: None }
    }

    /// A message for the host: its bytes go to the host's address, and
    /// nowhere while no host is known.
    pub open spec fn relay(self, m: ClientMessage) -> Seq<ClientActionModel> {
        match self.host {
            Some(addr) => seq![ClientActionModel::Send { addr, bytes: message_bytes(m) }],
            None => Seq::empty(),
        }
    }

    /// A local request: it is relayed in the name of the identity known so
    /// far, which is none before the handshake is complete.
    pub open spec fn request(self, r: ClientRequest) -> Seq<ClientActionModel> {
        self.relay(ClientMessage { client_id: self.identity, request: r })
    }

    /// An answer to a join, from `peer`.
    ///
    /// While no host is known, `peer` becomes the host for now and is sent
    /// a `Join`; nothing reaches the local consumer. Once a host is known,
    /// only it is heard: an answer with an identity completes the handshake
    /// and reaches the local consumer, one without changes nothing.
    pub open spec fn joined(self, peer: SocketAddress, client_id: Option<ClientId>) -> (
        ClientModel,
        Seq<ClientActionModel>,
    ) {
        match self.host {
            None => {
                let next = ClientModel { host: Some(peer), ..self };
                (next, next.request(ClientRequest::Join))
            },
            Some(host) => if host != peer {
                (self, Seq::empty())
            } else {
                match client_id {
                    Some(id) => (
                        ClientModel { identity: Some(id), ..self },
                        seq![
                            ClientActionModel::Deliver {
                                event: EventModel::Joined { client_id: Some(id) },
                            },
                        ],
                    ),
                    None => (self, Seq::empty()),
                }
            },
        }
    }

    /// An event from `peer`: an answer to a join goes through the
    /// handshake; any other event reaches the local consumer when `peer` is
    /// the host and the handshake is complete, and is dropped otherwise.
    pub open spec fn event(self, peer: SocketAddress, event: EventModel) -> (
        ClientModel,
        Seq<ClientActionModel>,
    ) {
        match event {
            EventModel::Joined { client_id } => self.joined(peer, client_id),
            _ => if self.host == Some(peer) && self.identity is Some {
                (self, seq![ClientActionModel::Deliver { event }])
            } else {
                (self, Seq::empty())
            },
        }
    }

    /// A datagram of `bytes` from `peer`.
    ///
    /// Once a host is known, a datagram from any other address is dropped
    /// unread. Bytes that are no event are dropped. The rest is handled as
    /// the event it spells.
    pub open spec fn datagram(self, peer: SocketAddress, bytes: Seq<u8>) -> (
        ClientModel,
        Seq<ClientActionModel>,
    ) {
        if self.host is Some && self.host != Some(peer) {
            (self, Seq::empty())
        } else {
            match decode_event(bytes) {
                Some(event) => self.event(peer, event),
                None => (self, Seq::empty()),
            }
        }
    }
}

impl ClientModel {
    /// The state after one event. Only datagrams change it.
    pub open spec fn step(self, event: ClientEvent) -> ClientModel {
        match event {
            ClientEvent::Datagram { peer, bytes } => self.datagram(peer, bytes).0,
            _ => self,
        }
    }

    /// What one event makes the router do.
    pub open spec fn output(self, event: ClientEvent) -> Seq<ClientActionModel> {
        match event {
            ClientEvent::Datagram { peer, bytes } => self.datagram(peer, bytes).1,
            ClientEvent::Request { message } => self.relay(message),
            ClientEvent::Heartbeat => self.request(ClientRequest::Idle),
        }
    }

    /// The state after a run of events, taken in order.
    pub open spec fn run(self, events: Seq<ClientEvent>) -> ClientModel
        decreases events.len(),
    {
        if events.len() == 0 {
            self
        } else {
            self.run(events.drop_last()).step(events.last())
        }
    }
}

/// The client's router.
pub struct ClientNetworkHandler {
    host_addr: Option<SocketAddress>,
    client_id: Option<ClientId>,
}

impl View for ClientNetworkHandler {
    type V = ClientModel;

    closed spec fn view(&self) -> ClientModel {
        ClientModel { host: self.host_addr, identity: self.client_id }
    }
}

impl ClientNetworkHandler {
    /// The router of a fresh session.
    pub fn new() -> (h: Self)
        ensures
            h@ == ClientModel::initial(),
    {
        ClientNetworkHandler { host_addr: None, client_id: None }
    }

    /// Fixes the host's address ahead of any traffic.
    pub fn init_host_addr(&mut self, addr: SocketAddress)
        ensures
            final(self)@ == (ClientModel { host: Some(addr), ..old(self)@ }),
    {
        self.host_addr = Some(addr);
    }

    /// The address believed to be the host's.
    pub fn host_addr(&self) -> (r: Option<SocketAddress>)
        ensures
            r == self@.host,
    {
        self.host_addr
    }

    /// The identity that the host gave this client.
    pub fn client_id(&self) -> (r: Option<ClientId>)
        ensures
            r == self@.identity,
    {
        self.client_id
    }

    /// Handles one datagram from the transport.
    pub fn handle_socket_data(&mut self, data: SocketData) -> (actions: Vec<ClientAction>)
        ensures
            final(self)@ == old(self)@.datagram(data.0, data.1@).0,
            action_models(actions@) == old(self)@.datagram(data.0, data.1@).1,
    {
        let (peer_addr, bytes) = data;
        let stranger = match self.host_addr {
            Some(host) => host != peer_addr,
            None => false,
        };
        if stranger {
            let actions: Vec<ClientAction> = Vec::new();
            assert(action_models(actions@) =~= Seq::empty());
            return actions;
        }
        match ServerEvent::decode(bytes.as_slice()) {
            Some(event) => self.handle_server_event(peer_addr, event),
            None => {
                let actions: Vec<ClientAction> = Vec::new();
                assert(action_models(actions@) =~= Seq::empty());
                actions
            },
        }
    }

    /// Handles an event that a datagram from `peer_addr` spelled.
    pub fn handle_server_event(&mut self, peer_addr: SocketAddress, event: ServerEvent) -> (actions:
        Vec<ClientAction>)
        ensures
            final(self)@ == old(self)@.event(peer_addr, event@).0,
            action_models(actions@) == old(self)@.event(peer_addr, event@).1,
    {
        match event {
            ServerEvent::Joined { .. } => self.handle_joined(peer_addr, event),
            _ => {
                let mut actions: Vec<ClientAction> = Vec::new();
                let from_host = match self.host_addr {
                    Some(host) => host == peer_addr,
                    None => false,
                };
                if from_host && self.client_id.is_some() {
                    actions.push(ClientAction::Deliver { event });
                    assert(action_models(actions@) =~= old(self)@.event(peer_addr, event@).1);
                } else {
                    assert(action_models(actions@) =~= Seq::empty());
                }
                actions
            },
        }
    }

    /// Handles an answer to a join, from `peer_addr`. Any other event
    /// changes nothing.
    pub fn handle_joined(&mut self, peer_addr: SocketAddress, msg: ServerEvent) -> (actions: Vec<
        ClientAction,
    >)
        ensures
            msg@ is Joined ==> final(self)@ == old(self)@.event(peer_addr, msg@).0
                && action_models(actions@) == old(self)@.event(peer_addr, msg@).1,
            !(msg@ is Joined) ==> final(self)@ == old(self)@ && action_models(actions@)
                == Seq::<ClientActionModel>::empty(),
    {
        let mut actions: Vec<ClientAction> = Vec::new();
        match msg {
            ServerEvent::Joined { client_id } => {
                match self.host_addr {
                    None => {
                        self.host_addr = Some(peer_addr);
                        return self.send_request(ClientRequest::Join);
                    },
                    Some(host) => {
                        if host == peer_addr {
                            match client_id {
                                Some(id) => {
                                    self.client_id = Some(id);
                                    actions.push(
                                        ClientAction::Deliver {
                                            event: ServerEvent::Joined { client_id: Some(id) },
                                        },
                                    );
                                    assert(action_models(actions@) =~= old(self)@.event(
                                        peer_addr,
                                        msg@,
                                    ).1);
                                    return actions;
                                },
                                None => {},
                            }
                        }
                    },
                }
            },
            _ => {},
        }
        assert(action_models(actions@) =~= Seq::empty());
        actions
    }

    /// Relays a local request in the name of the identity known so far.
    pub fn send_request(&self, request: ClientRequest) -> (actions: Vec<ClientAction>)
        ensures
            action_models(actions@) == self@.request(request),
    {
        let msg = ClientMessage::new(self.client_id, request);
        self.handle_client_request(msg)
    }

    /// The heartbeat: relays an `Idle`.
    pub fn heartbeat(&self) -> (actions: Vec<ClientAction>)
        ensures
            action_models(actions@) == self@.request(ClientRequest::Idle),
    {
        self.send_request(ClientRequest::Idle)
    }

    /// Relays a message to the host.
    pub fn handle_client_request(&self, msg: ClientMessage) -> (actions: Vec<ClientAction>)
        ensures
            action_models(actions@) == self@.relay(msg),
    {
        let mut actions: Vec<ClientAction> = Vec::new();
        match self.host_addr {
            Some(addr) => {
                actions.push(ClientAction::Send { addr, bytes: msg.encode() });
            },
            None => {},
        }
        assert(action_models(actions@) =~= self@.relay(msg));
        actions
    }
}

impl ClientNetworkHandler {
    /// One turn of the router: takes whichever of its sources was ready,
    /// moves to the next state and tells what to do.
    pub fn step(&mut self, input: ClientInput) -> (actions: Vec<ClientAction>)
        ensures
            final(self)@ == old(self)@.step(input@),
            action_models(actions@) == old(self)@.output(input@),
    {
        match input {
            ClientInput::Datagram { data } => self.handle_socket_data(data),
            ClientInput::Request { message } => self.handle_client_request(message),
            ClientInput::Heartbeat => self.heartbeat(),
        }
    }
}

/// Authority enforcement, one datagram: with the host fixed, a datagram
/// from any other address changes nothing and causes nothing, whatever its
/// bytes.
pub proof fn lemma_stranger_is_discarded(
    m: ClientModel,
    host: SocketAddress,
    peer: SocketAddress,
    bytes: Seq<u8>,
)
    requires
        m.host == Some(host),
        peer != host,
    ensures
        m.datagram(peer, bytes) == (m, Seq::<ClientActionModel>::empty()),
{
}

/// Once fixed, the host's address stays: no event replaces it.
pub proof fn lemma_host_stays(m: ClientModel, host: SocketAddress, events: Seq<ClientEvent>)
    requires
        m.host == Some(host),
    ensures
        m.run(events).host == Some(host),
    decreases events.len(),
{
    if events.len() > 0 {
        lemma_host_stays(m, host, events.drop_last());
    }
}

/// Authority enforcement: once the host's address is fixed to `host`, then
/// after any further traffic a datagram from another address still reaches
/// nobody, and whatever reaches the local consumer came in a datagram from
/// `host`.
pub proof fn lemma_authority(
    m: ClientModel,
    host: SocketAddress,
    events: Seq<ClientEvent>,
    event: ClientEvent,
)
    requires
        m.host == Some(host),
    ensures
        ({
            let now = m.run(events);
            let out = now.output(event);
            &&& now.host == Some(host)
            &&& event.sender() is Some && event.sender() != Some(host) ==> out == Seq::<
                ClientActionModel,
            >::empty() && now.step(event) == now
            &&& forall|i: int|
                0 <= i < out.len() && reaches_consumer(#[trigger] out[i]) ==> event.sender()
                    == Some(host)
        }),
{
    lemma_host_stays(m, host, events);
}

/// The handshake has two phases: nothing reaches the local consumer before
/// the router holds an identity, and the first thing that does is the
/// answer that carries it.
pub proof fn lemma_identity_comes_first(m: ClientModel, event: ClientEvent)
    requires
        m.identity is None,
    ensures
        ({
            let out = m.output(event);
            forall|i: int|
                0 <= i < out.len() && reaches_consumer(#[trigger] out[i]) ==> {
                    &&& m.step(event).identity is Some
                    &&& out[i] == (ClientActionModel::Deliver {
                        event: EventModel::Joined { client_id: m.step(event).identity },
                    })
                }
        }),
{
}

} // verus!
