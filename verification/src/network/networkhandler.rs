//! The host's router: the registry of clients, the join handshake, and the
//! routing of requests inward and of events outward.

use crate::network::address::SocketAddress;
use crate::network::clientid::{ClientId, FIRST_CLIENT_ID, HOST_CLIENT_ID};
use crate::network::clientrequest::{decode_message, ClientMessage, ClientRequest};
use crate::network::serverevent::{encodable, event_bytes, EventModel, ServerEvent};
use crate::network::socketmanager::SocketData;
use crate::network::wire::copy_bytes;
use crate::sequence::{IdSequence, SEQUENCE_END};
use vstd::prelude::*;

verus! {

/// One line of the registry: an address and the identity it holds.
#[derive(Clone, Copy, Debug, PartialEq, Eq, Structural)]
pub struct RegistryEntry {
    pub addr: SocketAddress,
    pub id: ClientId,
}

/// What the router asks its caller to do.
#[derive(Debug, PartialEq, Eq)]
pub enum HostAction {
    /// Write `bytes` to the transport, for `addr`.
    Send { addr: SocketAddress, bytes: Vec<u8> },
    /// Hand `request` to the simulation, in the name of `client`.
    Forward { request: ClientRequest, client: ClientId },
    /// Hand `event` to the host's own player.
    Local { event: ServerEvent },
    /// Start to watch the liveness of `client`, from a silence of zero.
    Track { client: ClientId },
    /// `client` was heard: set its silence back to zero.
    Reset { client: ClientId },
}

/// Where an event for one client goes.
#[derive(Clone, Copy, Debug, PartialEq, Eq, Structural)]
pub enum Recipient {
    /// Over the transport, to the address that holds the identity.
    Remote { addr: SocketAddress },
    /// To the host's own player: the identity is not registered.
    Local,
}

/// What can reach the host's router, as the caller hands it over.
#[derive(Debug, PartialEq, Eq)]
pub enum HostInput {
    /// A datagram from the transport.
    Datagram { data: SocketData },
    /// A request of the host's own player.
    Request { message: ClientMessage },
    /// An event of the simulation.
    Event { event: ServerEvent },
    /// The liveness tracker reports a death.
    Died { client: ClientId },
}

/// A host action as a mathematical value.
pub enum HostActionModel {
    Send { addr: SocketAddress, bytes: Seq<u8> },
    Forward { request: ClientRequest, client: ClientId },
    Local { event: EventModel },
    Track { client: ClientId },
    Reset { client: ClientId },
}

impl View for HostAction {
    type V = HostActionModel;

    open spec fn view(&self) -> HostActionModel {
        match *self {
            HostAction::Send { addr, bytes } => HostActionModel::Send { addr, bytes: bytes@ },
            HostAction::Forward { request, client } => HostActionModel::Forward {
                request,
                client,
            },
            HostAction::Local { event } => HostActionModel::Local { event: event@ },
            HostAction::Track { client } => HostActionModel::Track { client },
            HostAction::Reset { client } => HostActionModel::Reset { client },
        }
    }
}

/// What can reach the host's router.
pub enum HostEvent {
    /// A datagram from the transport.
    Datagram { addr: SocketAddress, bytes: Seq<u8> },
    /// A request of the host's own player.
    Request { message: ClientMessage },
    /// An event of the simulation.
    Event { event: EventModel },
    /// The liveness tracker reports a death.
    Died { client: ClientId },
}

impl View for HostInput {
    type V = HostEvent;

    open spec fn view(&self) -> HostEvent {
        match *self {
            HostInput::Datagram { data } => HostEvent::Datagram { addr: data.0, bytes: data.1@ },
            HostInput::Request { message } => HostEvent::Request { message },
            HostInput::Event { event } => HostEvent::Event { event: event@ },
            HostInput::Died { client } => HostEvent::Died { client },
        }
    }
}

/// The actions of a list, each as a mathematical value.
pub open spec fn action_models(actions: Seq<HostAction>) -> Seq<HostActionModel> {
    Seq::new(actions.len(), |i: int| actions[i]@)
}

/// The bytes of the answer to a join that is refused.
pub open spec fn rejection_bytes() -> Seq<u8> {
    event_bytes(EventModel::Joined { client_id: None })
}

/// The bytes of the answer to a join that assigned `id`.
pub open spec fn welcome_bytes(id: ClientId) -> Seq<u8> {
    event_bytes(EventModel::Joined { client_id: Some(id) })
}

/// The state of the host's router: the registry in the order of
/// registration, and the identity that the next join receives.
pub struct HostModel {
    pub clients: Seq<RegistryEntry>,
    pub upcoming: int,
}

impl HostModel {
    /// The router of a fresh session: nobody registered, the first identity
    /// still to assign.
    pub open spec fn initial() -> HostModel {
        HostModel { clients: Seq::empty(), upcoming: FIRST_CLIENT_ID as int }
    }

    /// No two lines of the registry share an address, and no two share an
    /// identity.
    pub open spec fn bijective(self) -> bool {
        forall|i: int, j: int|
            #![trigger self.clients[i], self.clients[j]]
            0 <= i < self.clients.len() && 0 <= j < self.clients.len() && i != j ==> {
                &&& self.clients[i].addr != self.clients[j].addr
                &&& self.clients[i].id != self.clients[j].id
            }
    }

    /// The registry is a bijection, and every identity in it was assigned
    /// before the upcoming one.
    pub open spec fn wf(self) -> bool {
        &&& FIRST_CLIENT_ID <= self.upcoming <= SEQUENCE_END
        &&& self.bijective()
        &&& forall|i: int|
            0 <= i < self.clients.len() ==> FIRST_CLIENT_ID <= (#[trigger] self.clients[i]).id.0
                < self.upcoming
    }

    /// `addr` is registered.
    pub open spec fn has_addr(self, addr: SocketAddress) -> bool {
        exists|i: int| 0 <= i < self.clients.len() && (#[trigger] self.clients[i]).addr == addr
    }

    /// `id` is registered.
    pub open spec fn has_id(self, id: ClientId) -> bool {
        exists|i: int| 0 <= i < self.clients.len() && (#[trigger] self.clients[i]).id == id
    }

    /// The line of `addr` in the registry, where it has one.
    pub open spec fn index_of_addr(self, addr: SocketAddress) -> int {
        choose|i: int| 0 <= i < self.clients.len() && (#[trigger] self.clients[i]).addr == addr
    }

    /// The line of `id` in the registry, where it has one.
    pub open spec fn index_of_id(self, id: ClientId) -> int {
        choose|i: int| 0 <= i < self.clients.len() && (#[trigger] self.clients[i]).id == id
    }

    /// The identity that `addr` holds, if it is registered.
    pub open spec fn id_of(self, addr: SocketAddress) -> Option<ClientId> {
        if self.has_addr(addr) {
            Some(self.clients[self.index_of_addr(addr)].id)
        } else {
            None
        }
    }

    /// The address that holds `id`, if it is registered.
    pub open spec fn addr_of(self, id: ClientId) -> Option<SocketAddress> {
        if self.has_id(id) {
            Some(self.clients[self.index_of_id(id)].addr)
        } else {
            None
        }
    }

    /// A join from `addr`.
    ///
    /// A registered address is ignored. An unseen address receives the
    /// upcoming identity, enters liveness tracking and is told its identity;
    /// when no identity is left it is told that the join is refused.
    pub open spec fn join(self, addr: SocketAddress) -> (HostModel, Seq<HostActionModel>) {
        if self.has_addr(addr) {
            (self, Seq::empty())
        } else if self.upcoming >= SEQUENCE_END {
            (self, seq![HostActionModel::Send { addr, bytes: rejection_bytes() }])
        } else {
            let id = ClientId(self.upcoming as u32);
            (
                HostModel {
                    clients: self.clients.push(RegistryEntry { addr, id }),
                    upcoming: self.upcoming + 1,
                },
                seq![
                    HostActionModel::Track { client: id },
                    HostActionModel::Send { addr, bytes: welcome_bytes(id) },
                ],
            )
        }
    }

    /// The death of `id`: its line leaves the registry, the others keep
    /// their order. An identity that is not registered changes nothing.
    pub open spec fn died(self, id: ClientId) -> HostModel {
        if self.has_id(id) {
            HostModel { clients: self.clients.remove(self.index_of_id(id)), ..self }
        } else {
            self
        }
    }

    /// A request that needs no registry: it goes to the simulation in the
    /// name of the identity attached to it, and nowhere without one.
    pub open spec fn forward(m: ClientMessage) -> Seq<HostActionModel> {
        match m.client_id {
            Some(client) => seq![HostActionModel::Forward { request: m.request, client }],
            None => Seq::empty(),
        }
    }

    /// A datagram of `bytes` from `addr`.
    ///
    /// Bytes that are no message are answered with a refusal when `addr` is
    /// not registered, and dropped when it is. A `Join` goes through the
    /// handshake. An `Idle` resets the liveness of the identity that `addr`
    /// holds, if it holds one. Any other request is forwarded in the name
    /// of the identity attached to it, and dropped without one.
    pub open spec fn datagram(self, addr: SocketAddress, bytes: Seq<u8>) -> (
        HostModel,
        Seq<HostActionModel>,
    ) {
        match decode_message(bytes) {
            None => if self.has_addr(addr) {
                (self, Seq::empty())
            } else {
                (self, seq![HostActionModel::Send { addr, bytes: rejection_bytes() }])
            },
            Some(m) => match m.request {
                ClientRequest::Join => self.join(addr),
                ClientRequest::Idle => match self.id_of(addr) {
                    Some(client) => (self, seq![HostActionModel::Reset { client }]),
                    None => (self, Seq::empty()),
                },
                _ => (self, Self::forward(m)),
            },
        }
    }

    /// Where an event for `client` goes: to the address that holds the
    /// identity, or, when none does, to the host's own player.
    pub open spec fn recipient(self, client: ClientId) -> Recipient {
        match self.addr_of(client) {
            Some(addr) => Recipient::Remote { addr },
            None => Recipient::Local,
        }
    }

    /// An event for one client: a remote client gets its bytes, the host's
    /// own player the event itself. An event without bytes is dropped for
    /// a remote client.
    pub open spec fn targeted(self, client: ClientId, event: EventModel) -> Seq<HostActionModel> {
        match self.recipient(client) {
            Recipient::Remote { addr } => if encodable(event) {
                seq![HostActionModel::Send { addr, bytes: event_bytes(event) }]
            } else {
                Seq::empty()
            },
            Recipient::Local => seq![HostActionModel::Local { event }],
        }
    }

    /// The datagrams of a broadcast: the same bytes for every registered
    /// address, in the order of registration.
    pub open spec fn fan_out(self, bytes: Seq<u8>) -> Seq<HostActionModel> {
        Seq::new(
            self.clients.len(),
            |i: int| HostActionModel::Send { addr: self.clients[i].addr, bytes },
        )
    }

    /// An event for everybody: one datagram for each registered address,
    /// then the event itself for the host's own player. An event without
    /// bytes reaches the host's own player only.
    pub open spec fn broadcast(self, event: EventModel) -> Seq<HostActionModel> {
        if encodable(event) {
            self.fan_out(event_bytes(event)).push(HostActionModel::Local { event })
        } else {
            seq![HostActionModel::Local { event }]
        }
    }

    /// An event of the simulation: an assigned identity and an added player
    /// go to the client they name, a snapshot goes to everybody, and a
    /// refusal, which names nobody, goes nowhere.
    pub open spec fn server_event(self, event: EventModel) -> Seq<HostActionModel> {
        match event {
            EventModel::Joined { client_id: Some(client) } => self.targeted(client, event),
            EventModel::Joined { client_id: None } => Seq::empty(),
            EventModel::AddedPlayer { client, .. } => self.targeted(client, event),
            EventModel::WorldSnapshot { .. } => self.broadcast(event),
        }
    }
}

impl HostModel {
    /// The state after one event. Only datagrams and deaths touch the
    /// registry.
    pub open spec fn step(self, event: HostEvent) -> HostModel {
        match event {
            HostEvent::Datagram { addr, bytes } => self.datagram(addr, bytes).0,
            HostEvent::Died { client } => self.died(client),
            _ => self,
        }
    }

    /// What one event makes the router do.
    pub open spec fn output(self, event: HostEvent) -> Seq<HostActionModel> {
        match event {
            HostEvent::Datagram { addr, bytes } => self.datagram(addr, bytes).1,
            HostEvent::Request { message } => Self::forward(message),
            HostEvent::Event { event } => self.server_event(event),
            HostEvent::Died { .. } => Seq::empty(),
        }
    }

    /// The state after a run of events, taken in order.
    pub open spec fn run(self, events: Seq<HostEvent>) -> HostModel
        decreases events.len(),
    {
        if events.len() == 0 {
            self
        } else {
            self.run(events.drop_last()).step(events.last())
        }
    }
}

/// The host's router.
pub struct NetworkHandler {
    clients: Vec<RegistryEntry>,
    sequence: IdSequence,
}

impl View for NetworkHandler {
    type V = HostModel;

    closed spec fn view(&self) -> HostModel {
        HostModel { clients: self.clients@, upcoming: self.sequence.upcoming() }
    }
}

proof fn lemma_index_of_addr(m: HostModel, i: int)
    requires
        m.bijective(),
        0 <= i < m.clients.len(),
    ensures
        m.has_addr(m.clients[i].addr),
        m.index_of_addr(m.clients[i].addr) == i,
        m.id_of(m.clients[i].addr) == Some(m.clients[i].id),
{
    let addr = m.clients[i].addr;
    let j = m.index_of_addr(addr);
    assert(m.clients[j].addr == addr);
    if i != j {
        assert(m.clients[i].addr != m.clients[j].addr);
    }
}

proof fn lemma_index_of_id(m: HostModel, i: int)
    requires
        m.bijective(),
        0 <= i < m.clients.len(),
    ensures
        m.has_id(m.clients[i].id),
        m.index_of_id(m.clients[i].id) == i,
        m.addr_of(m.clients[i].id) == Some(m.clients[i].addr),
{
    let id = m.clients[i].id;
    let j = m.index_of_id(id);
    assert(m.clients[j].id == id);
    if i != j {
        assert(m.clients[i].id != m.clients[j].id);
    }
}

/// A join from an unseen address, with an identity left, keeps the
/// registry valid.
proof fn lemma_push_wf(m: HostModel, addr: SocketAddress)
    requires
        m.wf(),
        !m.has_addr(addr),
        m.upcoming < SEQUENCE_END,
    ensures
        m.join(addr).0.wf(),
{
    let after = m.join(addr).0;
    let n = m.clients.len() as int;
    assert forall|i: int, j: int|
        #![trigger after.clients[i], after.clients[j]]
        0 <= i < after.clients.len() && 0 <= j < after.clients.len() && i != j implies {
        &&& after.clients[i].addr != after.clients[j].addr
        &&& after.clients[i].id != after.clients[j].id
    } by {
        if i < n && j < n {
            assert(m.clients[i].addr != m.clients[j].addr);
            assert(m.clients[i].id != m.clients[j].id);
        } else if i < n {
            assert(m.clients[i].id.0 < m.upcoming);
        } else {
            assert(m.clients[j].id.0 < m.upcoming);
        }
    }
    assert forall|i: int| 0 <= i < after.clients.len() implies FIRST_CLIENT_ID <= (
    #[trigger] after.clients[i]).id.0 < after.upcoming by {
        if i < n {
            assert(m.clients[i].id.0 < m.upcoming);
        }
    }
}

/// Taking a line out of the registry keeps it valid.
proof fn lemma_remove_wf(m: HostModel, i: int)
    requires
        m.wf(),
        0 <= i < m.clients.len(),
    ensures
        (HostModel { clients: m.clients.remove(i), ..m }).wf(),
{
    let after = HostModel { clients: m.clients.remove(i), ..m };
    assert forall|a: int, b: int|
        #![trigger after.clients[a], after.clients[b]]
        0 <= a < after.clients.len() && 0 <= b < after.clients.len() && a != b implies {
        &&& after.clients[a].addr != after.clients[b].addr
        &&& after.clients[a].id != after.clients[b].id
    } by {
        let a0 = if a < i {
            a
        } else {
            a + 1
        };
        let b0 = if b < i {
            b
        } else {
            b + 1
        };
        assert(after.clients[a] == m.clients[a0]);
        assert(after.clients[b] == m.clients[b0]);
        assert(m.clients[a0].addr != m.clients[b0].addr);
        assert(m.clients[a0].id != m.clients[b0].id);
    }
    assert forall|a: int| 0 <= a < after.clients.len() implies FIRST_CLIENT_ID <= (
    #[trigger] after.clients[a]).id.0 < after.upcoming by {
        let a0 = if a < i {
            a
        } else {
            a + 1
        };
        assert(after.clients[a] == m.clients[a0]);
    }
}

impl NetworkHandler {
    #[verifier::type_invariant]
    spec fn inv(self) -> bool {
        self@.wf()
    }

    /// The router of a fresh session.
    pub fn new() -> (h: Self)
        ensures
            h@ == HostModel::initial(),
            h@.wf(),
    {
        let h = NetworkHandler {
            clients: Vec::new(),
            sequence: IdSequence::starting_at(FIRST_CLIENT_ID),
        };
        assert(h@.clients =~= Seq::<RegistryEntry>::empty());
        h
    }

    fn find_addr(&self, addr: SocketAddress) -> (r: Option<usize>)
        ensures
            self@.wf(),
            match r {
                Some(i) => i < self@.clients.len() && self@.clients[i as int].addr == addr
                    && self@.has_addr(addr) && self@.index_of_addr(addr) == i,
                None => !self@.has_addr(addr),
            },
    {
        proof {
            use_type_invariant(self);
        }
        let mut i: usize = 0;
        while i < self.clients.len()
            invariant
                i <= self.clients@.len(),
                self@.wf(),
                self@.clients == self.clients@,
                forall|k: int| 0 <= k < i ==> (#[trigger] self.clients@[k]).addr != addr,
            decreases self.clients@.len() - i,
        {
            if self.clients[i].addr == addr {
                proof {
                    lemma_index_of_addr(self@, i as int);
                }
                return Some(i);
            }
            i += 1;
        }
        None
    }

    fn find_id(&self, id: ClientId) -> (r: Option<usize>)
        ensures
            self@.wf(),
            match r {
                Some(i) => i < self@.clients.len() && self@.clients[i as int].id == id
                    && self@.has_id(id) && self@.index_of_id(id) == i,
                None => !self@.has_id(id),
            },
    {
        proof {
            use_type_invariant(self);
        }
        let mut i: usize = 0;
        while i < self.clients.len()
            invariant
                i <= self.clients@.len(),
                self@.wf(),
                self@.clients == self.clients@,
                forall|k: int| 0 <= k < i ==> (#[trigger] self.clients@[k]).id != id,
            decreases self.clients@.len() - i,
        {
            if self.clients[i].id == id {
                proof {
                    lemma_index_of_id(self@, i as int);
                }
                return Some(i);
            }
            i += 1;
        }
        None
    }

    /// The identity that `addr` holds, if it is registered.
    pub fn client_of(&self, addr: SocketAddress) -> (r: Option<ClientId>)
        ensures
            self@.wf(),
            r == self@.id_of(addr),
    {
        match self.find_addr(addr) {
            Some(i) => Some(self.clients[i].id),
            None => None,
        }
    }

    /// The address that holds `id`, if it is registered.
    pub fn address_of(&self, id: ClientId) -> (r: Option<SocketAddress>)
        ensures
            self@.wf(),
            r == self@.addr_of(id),
    {
        match self.find_id(id) {
            Some(i) => Some(self.clients[i].addr),
            None => None,
        }
    }

    /// Where an event for `id` goes.
    pub fn recipient_of(&self, id: ClientId) -> (r: Recipient)
        ensures
            self@.wf(),
            r == self@.recipient(id),
    {
        match self.address_of(id) {
            Some(addr) => Recipient::Remote { addr },
            None => Recipient::Local,
        }
    }

    /// Handles one datagram from the transport.
    pub fn handle_socket_data(&mut self, data: SocketData) -> (actions: Vec<HostAction>)
        ensures
            final(self)@.wf(),
            final(self)@ == old(self)@.datagram(data.0, data.1@).0,
            action_models(actions@) == old(self)@.datagram(data.0, data.1@).1,
    {
        proof {
            use_type_invariant(&*self);
        }
        let (peer_addr, bytes) = data;
        match ClientMessage::decode(bytes.as_slice()) {
            None => {
                if self.find_addr(peer_addr).is_some() {
                    let actions: Vec<HostAction> = Vec::new();
                    assert(action_models(actions@) =~= Seq::empty());
                    actions
                } else {
                    self.send_blank_join(peer_addr)
                }
            },
            Some(msg) => match msg.request {
                ClientRequest::Join => self.handle_client_join(peer_addr),
                ClientRequest::Idle => {
                    let mut actions: Vec<HostAction> = Vec::new();
                    match self.client_of(peer_addr) {
                        Some(client) => {
                            actions.push(HostAction::Reset { client });
                            assert(action_models(actions@) =~= seq![
                                HostActionModel::Reset { client },
                            ]);
                        },
                        None => {
                            assert(action_models(actions@) =~= Seq::empty());
                        },
                    }
                    actions
                },
                _ => self.handle_client_request(msg),
            },
        }
    }

    /// Handles a join from `peer_addr`.
    pub fn handle_client_join(&mut self, peer_addr: SocketAddress) -> (actions: Vec<HostAction>)
        ensures
            final(self)@.wf(),
            final(self)@ == old(self)@.join(peer_addr).0,
            action_models(actions@) == old(self)@.join(peer_addr).1,
    {
        proof {
            use_type_invariant(&*self);
        }
        let ghost before = self@;
        let mut actions: Vec<HostAction> = Vec::new();
        if self.find_addr(peer_addr).is_some() {
            assert(action_models(actions@) =~= Seq::empty());
            return actions;
        }
        match ClientId::new(&mut self.sequence) {
            None => {
                assert(self@ == before);
                self.send_blank_join(peer_addr)
            },
            Some(id) => {
                let entry = RegistryEntry { addr: peer_addr, id };
                let mut clients: Vec<RegistryEntry> = Vec::new();
                std::mem::swap(&mut clients, &mut self.clients);
                clients.push(entry);
                proof {
                    lemma_push_wf(before, peer_addr);
                    assert(clients@ == before.join(peer_addr).0.clients);
                }
                self.clients = clients;
                let event = ServerEvent::Joined { client_id: Some(id) };
                match event.encode() {
                    Ok(bytes) => {
                        actions.push(HostAction::Track { client: id });
                        actions.push(HostAction::Send { addr: peer_addr, bytes });
                    },
                    Err(_) => {},
                }
                assert(action_models(actions@) =~= before.join(peer_addr).1);
                actions
            },
        }
    }

    /// Handles the death of `id`: purges its line from the registry, and
    /// returns the address that held it, if one did.
    pub fn handle_client_died(&mut self, id: ClientId) -> (r: Option<SocketAddress>)
        ensures
            final(self)@.wf(),
            final(self)@ == old(self)@.died(id),
            r == old(self)@.addr_of(id),
    {
        proof {
            use_type_invariant(&*self);
        }
        let ghost before = self@;
        match self.find_id(id) {
            None => None,
            Some(i) => {
                let mut clients: Vec<RegistryEntry> = Vec::new();
                std::mem::swap(&mut clients, &mut self.clients);
                let entry = clients.remove(i);
                proof {
                    lemma_remove_wf(before, i as int);
                }
                self.clients = clients;
                Some(entry.addr)
            },
        }
    }

    /// The refusal of a join, for `addr`.
    pub fn send_blank_join(&self, addr: SocketAddress) -> (actions: Vec<HostAction>)
        ensures
            action_models(actions@) == seq![
                HostActionModel::Send { addr, bytes: rejection_bytes() },
            ],
    {
        let mut actions: Vec<HostAction> = Vec::new();
        let blank_join = ServerEvent::Joined { client_id: None };
        match blank_join.encode() {
            Ok(bytes) => {
                actions.push(HostAction::Send { addr, bytes });
            },
            Err(_) => {},
        }
        assert(action_models(actions@) =~= seq![
            HostActionModel::Send { addr, bytes: rejection_bytes() },
        ]);
        actions
    }

    /// Handles a request that needs no registry: one of the host's own
    /// player, or one that a datagram carried.
    pub fn handle_client_request(&self, message: ClientMessage) -> (actions: Vec<HostAction>)
        ensures
            action_models(actions@) == HostModel::forward(message),
    {
        let mut actions: Vec<HostAction> = Vec::new();
        match message.client_id {
            Some(client) => {
                actions.push(HostAction::Forward { request: message.request, client });
            },
            None => {},
        }
        assert(action_models(actions@) =~= HostModel::forward(message));
        actions
    }

    /// Handles an event of the simulation.
    pub fn handle_server_event(&self, event: ServerEvent) -> (actions: Vec<HostAction>)
        ensures
            self@.wf(),
            action_models(actions@) == self@.server_event(event@),
    {
        proof {
            use_type_invariant(self);
        }
        match event {
            ServerEvent::Joined { client_id: Some(id) } => self.compose_client_send(id, event),
            ServerEvent::Joined { client_id: None } => {
                let actions: Vec<HostAction> = Vec::new();
                assert(action_models(actions@) =~= Seq::empty());
                actions
            },
            ServerEvent::AddedPlayer { client, .. } => self.compose_client_send(client, event),
            ServerEvent::WorldSnapshot { .. } => self.send_to_all(event),
        }
    }

    /// Routes `event` to the one client `client_id`.
    pub fn compose_client_send(&self, client_id: ClientId, event: ServerEvent) -> (actions: Vec<
        HostAction,
    >)
        ensures
            self@.wf(),
            action_models(actions@) == self@.targeted(client_id, event@),
    {
        let mut actions: Vec<HostAction> = Vec::new();
        match self.recipient_of(client_id) {
            Recipient::Remote { addr } => {
                match event.encode() {
                    Ok(bytes) => {
                        actions.push(HostAction::Send { addr, bytes });
                    },
                    Err(_) => {},
                }
            },
            Recipient::Local => {
                actions.push(HostAction::Local { event });
            },
        }
        assert(action_models(actions@) =~= self@.targeted(client_id, event@));
        actions
    }

    /// Routes `event` to every registered client and to the host's own
    /// player.
    pub fn send_to_all(&self, event: ServerEvent) -> (actions: Vec<HostAction>)
        ensures
            self@.wf(),
            action_models(actions@) == self@.broadcast(event@),
    {
        proof {
            use_type_invariant(self);
        }
        let mut actions: Vec<HostAction> = Vec::new();
        match event.encode() {
            Ok(bytes) => {
                let mut i: usize = 0;
                while i < self.clients.len()
                    invariant
                        i <= self.clients@.len(),
                        self@.clients == self.clients@,
                        bytes@ == event_bytes(event@),
                        actions@.len() == i,
                        forall|k: int|
                            0 <= k < i ==> (#[trigger] actions@[k])@ == (HostActionModel::Send {
                                addr: self.clients@[k].addr,
                                bytes: bytes@,
                            }),
                    decreases self.clients@.len() - i,
                {
                    let copy = copy_bytes(bytes.as_slice());
                    actions.push(HostAction::Send { addr: self.clients[i].addr, bytes: copy });
                    i += 1;
                }
                actions.push(HostAction::Local { event });
            },
            Err(_) => {
                actions.push(HostAction::Local { event });
            },
        }
        assert(action_models(actions@) =~= self@.broadcast(event@));
        actions
    }

    /// The registry, in the order of registration.
    pub fn clients(&self) -> (r: Vec<RegistryEntry>)
        ensures
            self@.wf(),
            r@ == self@.clients,
    {
        proof {
            use_type_invariant(self);
        }
        let mut out: Vec<RegistryEntry> = Vec::new();
        let mut i: usize = 0;
        while i < self.clients.len()
            invariant
                i <= self.clients@.len(),
                out@ == self.clients@.subrange(0, i as int),
            decreases self.clients@.len() - i,
        {
            out.push(self.clients[i]);
            i += 1;
            assert(out@ =~= self.clients@.subrange(0, i as int));
        }
        assert(out@ =~= self.clients@);
        out
    }
}

impl NetworkHandler {
    /// One turn of the router: takes what arrived, moves to the next state
    /// and tells what to do.
    pub fn step(&mut self, input: HostInput) -> (actions: Vec<HostAction>)
        ensures
            final(self)@.wf(),
            final(self)@ == old(self)@.step(input@),
            action_models(actions@) == old(self)@.output(input@),
    {
        proof {
            use_type_invariant(&*self);
        }
        match input {
            HostInput::Datagram { data } => self.handle_socket_data(data),
            HostInput::Request { message } => self.handle_client_request(message),
            HostInput::Event { event } => self.handle_server_event(event),
            HostInput::Died { client } => {
                let _ = self.handle_client_died(client);
                let actions: Vec<HostAction> = Vec::new();
                assert(action_models(actions@) =~= Seq::empty());
                actions
            },
        }
    }
}

/// No event breaks the registry: after any one event it is still a
/// bijection whose identities were all assigned before the upcoming one.
pub proof fn lemma_step_keeps_registry_valid(m: HostModel, event: HostEvent)
    requires
        m.wf(),
    ensures
        m.step(event).wf(),
{
    match event {
        HostEvent::Datagram { addr, bytes } => {
            if !m.has_addr(addr) && m.upcoming < SEQUENCE_END {
                lemma_push_wf(m, addr);
            }
        },
        HostEvent::Died { client } => {
            if m.has_id(client) {
                lemma_remove_wf(m, m.index_of_id(client));
            }
        },
        _ => {},
    }
}

/// Registry bijection: whatever joins, removals and other traffic a fresh
/// router has seen, no two identities of its registry share an address and
/// no two addresses share an identity.
pub proof fn lemma_registry_bijection(events: Seq<HostEvent>)
    ensures
        HostModel::initial().run(events).wf(),
        HostModel::initial().run(events).bijective(),
    decreases events.len(),
{
    if events.len() > 0 {
        lemma_registry_bijection(events.drop_last());
        lemma_step_keeps_registry_valid(
            HostModel::initial().run(events.drop_last()),
            events.last(),
        );
    }
}

/// In a valid registry an address and the identity it holds find each
/// other.
pub proof fn lemma_lookups_are_inverse(m: HostModel, addr: SocketAddress, id: ClientId)
    requires
        m.wf(),
    ensures
        m.id_of(addr) == Some(id) <==> m.addr_of(id) == Some(addr),
{
    if m.id_of(addr) == Some(id) {
        lemma_index_of_id(m, m.index_of_addr(addr));
    }
    if m.addr_of(id) == Some(addr) {
        lemma_index_of_addr(m, m.index_of_id(id));
    }
}

/// Join idempotence: a datagram from a registered address, a second `Join`
/// among them, leaves the registry and the upcoming identity as they were;
/// to a second `Join` the router does not even answer.
pub proof fn lemma_join_idempotent(m: HostModel, addr: SocketAddress, bytes: Seq<u8>)
    requires
        m.has_addr(addr),
    ensures
        m.datagram(addr, bytes).0 == m,
        m.join(addr) == (m, Seq::<HostActionModel>::empty()),
        decode_message(bytes) is Some && decode_message(bytes).unwrap().request
            == ClientRequest::Join ==> m.datagram(addr, bytes).1 == Seq::<
            HostActionModel,
        >::empty(),
{
}

/// Broadcast fan-out: a snapshot that can be written gives one datagram to
/// each line of the registry as it stands, all with the bytes of the event
/// and no two to the same address, and after them one delivery to the
/// host's own player.
pub proof fn lemma_broadcast_fan_out(m: HostModel, snapshot: Seq<u8>)
    requires
        m.wf(),
        encodable(EventModel::WorldSnapshot { snapshot }),
    ensures
        ({
            let event = EventModel::WorldSnapshot { snapshot };
            let out = m.server_event(event);
            let n = m.clients.len() as int;
            &&& out.len() == n + 1
            &&& out[n] == HostActionModel::Local { event }
            &&& forall|i: int|
                0 <= i < n ==> #[trigger] out[i] == (HostActionModel::Send {
                    addr: m.clients[i].addr,
                    bytes: event_bytes(event),
                })
            &&& forall|i: int, j: int| 0 <= i < j < n ==> #[trigger] out[i] != #[trigger] out[j]
        }),
{
    let event = EventModel::WorldSnapshot { snapshot };
    let out = m.server_event(event);
    let n = m.clients.len() as int;
    assert forall|i: int, j: int| 0 <= i < j < n implies #[trigger] out[i] != #[trigger] out[j] by {
        assert(m.clients[i].addr != m.clients[j].addr);
    }
}

/// The host's own player is never registered: an event for it is handed
/// to it on the host, whatever the registry holds.
pub proof fn lemma_host_player_is_local(m: HostModel, event: EventModel)
    requires
        m.wf(),
    ensures
        !m.has_id(ClientId(HOST_CLIENT_ID)),
        m.targeted(ClientId(HOST_CLIENT_ID), event) == seq![HostActionModel::Local { event }],
{
    if m.has_id(ClientId(HOST_CLIENT_ID)) {
        let i = m.index_of_id(ClientId(HOST_CLIENT_ID));
        assert(m.clients[i].id.0 >= FIRST_CLIENT_ID);
    }
}

/// A dead client is absent from the next fan-out: once an identity has
/// died, no datagram of a broadcast goes to the address that held it.
pub proof fn lemma_dead_client_leaves_fan_out(m: HostModel, client: ClientId, bytes: Seq<u8>)
    requires
        m.wf(),
        m.has_id(client),
    ensures
        ({
            let addr = m.addr_of(client).unwrap();
            let after = m.died(client);
            &&& !after.has_id(client)
            &&& !after.has_addr(addr)
            &&& after.fan_out(bytes).len() == m.clients.len() - 1
            &&& forall|i: int|
                0 <= i < after.fan_out(bytes).len() ==> #[trigger] after.fan_out(bytes)[i]
                    != (HostActionModel::Send { addr, bytes })
        }),
{
    let k = m.index_of_id(client);
    let addr = m.clients[k].addr;
    let after = m.died(client);
    assert forall|i: int| 0 <= i < after.clients.len() implies (#[trigger] after.clients[i]).id
        != client && after.clients[i].addr != addr by {
        let i0 = if i < k {
            i
        } else {
            i + 1
        };
        assert(after.clients[i] == m.clients[i0]);
        assert(m.clients[i0].id != m.clients[k].id);
        assert(m.clients[i0].addr != m.clients[k].addr);
    }
}

} // verus!
