//! The session layer proper: identities, addresses, the wire format, the
//! two routers, the liveness tracker and the transport's bookkeeping.

pub mod address;
pub mod clientid;
pub mod clientnetworkhandler;
pub mod clientrequest;
pub mod handshake;
pub mod heartbeat;
pub mod networkclient;
pub mod networkhandler;
pub mod networkinfo;
pub mod networkmanager;
pub mod serverevent;
pub mod socketmanager;
pub mod ttlmanager;
pub mod wire;
