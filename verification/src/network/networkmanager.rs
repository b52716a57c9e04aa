//! Where a request of the local player goes, by the role of this
//! participant.

use crate::network::clientrequest::ClientRequest;
use vstd::prelude::*;

verus! {

/// The role of a participant in a session.
#[derive(Clone, Copy, Debug, PartialEq, Eq, Structural)]
pub enum Role {
    Host,
    Client,
}

/// Where a request of the local player goes.
#[derive(Clone, Copy, Debug, PartialEq, Eq, Structural)]
pub enum Route {
    /// To the simulation of this participant, at once.
    Apply { request: ClientRequest },
    /// To the host, over the transport.
    SendToHost { request: ClientRequest },
    /// Nowhere: the request means nothing to the simulation.
    Ignore,
}

/// Routes the requests of the local player.
#[derive(Clone, Copy, Debug, PartialEq, Eq, Structural)]
pub struct NetworkManager {
    pub role: Role,
}

impl NetworkManager {
    /// The route of `request` for a participant of role `role`: a client
    /// sends every request to the host; the host applies what asks
    /// something of the simulation and ignores `Join` and `Idle`, which ask
    /// something of the router only.
    pub open spec fn route(role: Role, request: ClientRequest) -> Route {
        match role {
            Role::Client => Route::SendToHost { request },
            Role::Host => match request {
                ClientRequest::Join => Route::Ignore,
                ClientRequest::Idle => Route::Ignore,
                _ => Route::Apply { request },
            },
        }
    }

    /// A manager for a participant of role `role`.
    pub fn new(role: Role) -> (m: Self)
        ensures
            m.role == role,
    {
        NetworkManager { role }
    }

    /// Decides where `request` goes.
    pub fn process_request(&self, request: ClientRequest) -> (r: Route)
        ensures
            r == Self::route(self.role, request),
    {
        match self.role {
            Role::Client => Route::SendToHost { request },
            Role::Host => match request {
                ClientRequest::Join => Route::Ignore,
                ClientRequest::Idle => Route::Ignore,
                _ => Route::Apply { request },
            },
        }
    }
}

} // verus!
