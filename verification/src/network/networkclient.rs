//! The local player's end of a session: the identity under which its
//! requests travel.

use crate::network::clientid::{ClientId, HOST_CLIENT_ID};
use crate::network::clientrequest::{ClientMessage, ClientRequest};
use crate::network::serverevent::{EventModel, ServerEvent};
use vstd::prelude::*;

verus! {

/// The local player's end of a session.
#[derive(Clone, Copy, Debug, PartialEq, Eq, Structural)]
pub struct NetworkClient {
    /// Whether the local player is the host's own.
    pub is_host: bool,
    /// The identity of the local player, once it has one.
    pub client_id: Option<ClientId>,
}

impl NetworkClient {
    /// The identity after `event` was shown to the local player: a client
    /// takes the identity that an answer to its join carries; the host's own
    /// player keeps the one it has.
    pub open spec fn learned(self, event: EventModel) -> Option<ClientId> {
        match event {
            EventModel::Joined { client_id: Some(id) } => if self.is_host {
                self.client_id
            } else {
                Some(id)
            },
            _ => self.client_id,
        }
    }

    /// The end of a player that has joined nothing yet.
    pub fn new() -> (c: Self)
        ensures
            c == (NetworkClient { is_host: false, client_id: None }),
    {
        NetworkClient { is_host: false, client_id: None }
    }

    /// The end of the host's own player, under the identity kept for it.
    pub fn host() -> (c: Self)
        ensures
            c == (NetworkClient { is_host: true, client_id: Some(ClientId(HOST_CLIENT_ID)) }),
    {
        NetworkClient { is_host: true, client_id: Some(ClientId(HOST_CLIENT_ID)) }
    }

    /// Sets the role and the identity of the local player.
    pub fn init_id(&mut self, is_host: bool, client_id: Option<ClientId>)
        ensures
            *final(self) == (NetworkClient { is_host, client_id }),
    {
        self.is_host = is_host;
        self.client_id = client_id;
    }

    /// The envelope of a request of the local player: the request under the
    /// identity known so far.
    pub fn send_request(&self, req: ClientRequest) -> (m: ClientMessage)
        ensures
            m == (ClientMessage { client_id: self.client_id, request: req }),
    {
        ClientMessage::new(self.client_id, req)
    }

    /// Notes what `event` tells the local player about its identity.
    pub fn handle_server_event(&mut self, event: &ServerEvent)
        ensures
            *final(self) == (NetworkClient {
                client_id: old(self).learned(event@),
                ..*old(self)
            }),
    {
        match event {
            ServerEvent::Joined { client_id: Some(id) } => {
                if !self.is_host {
                    self.client_id = Some(*id);
                }
            },
            _ => {},
        }
    }
}

} // verus!
