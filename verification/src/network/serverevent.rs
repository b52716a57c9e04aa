//! What the host tells its clients.

use crate::game::entityid::EntityId;
use crate::network::clientid::ClientId;
use crate::network::wire::{
    be32, be32_at, copy_bytes, identity, lemma_be32_at, lemma_be32_at_concat,
    lemma_value_of_be32, push_be32, push_bytes, push_identity, read_be32,
};
use vstd::prelude::*;
use vstd::slice::slice_subrange;

verus! {

/// Tag byte of `ServerEvent::Joined`.
pub const EVENT_JOINED: u8 = 0;

/// Tag byte of `ServerEvent::WorldSnapshot`.
pub const EVENT_SNAPSHOT: u8 = 1;

/// Tag byte of `ServerEvent::AddedPlayer`.
pub const EVENT_ADDED_PLAYER: u8 = 2;

/// The longest snapshot that an event can carry, in bytes: what one
/// datagram holds beside the tag and the length.
pub const SNAPSHOT_LIMIT: usize = 65_502;

/// An event of the host for one client or for all of them.
#[derive(Debug, PartialEq, Eq)]
pub enum ServerEvent {
    /// The answer to a join: the identity assigned, or none when the join
    /// was refused.
    Joined { client_id: Option<ClientId> },
    /// The state of the simulation after one tick, as the bytes the
    /// simulation made of it.
    WorldSnapshot { snapshot: Vec<u8> },
    /// An entity was given to a client to control.
    AddedPlayer { entity: EntityId, client: ClientId },
}

/// A server event as a mathematical value.
pub enum EventModel {
    Joined { client_id: Option<ClientId> },
    WorldSnapshot { snapshot: Seq<u8> },
    AddedPlayer { entity: EntityId, client: ClientId },
}

impl View for ServerEvent {
    type V = EventModel;

    open spec fn view(&self) -> EventModel {
        match *self {
            ServerEvent::Joined { client_id } => EventModel::Joined { client_id },
            ServerEvent::WorldSnapshot { snapshot } => EventModel::WorldSnapshot {
                snapshot: snapshot@,
            },
            ServerEvent::AddedPlayer { entity, client } => EventModel::AddedPlayer {
                entity,
                client,
            },
        }
    }
}

/// Why an event has no bytes.
#[derive(Clone, Copy, Debug, PartialEq, Eq, Structural)]
pub enum EncodeError {
    /// The snapshot is longer than `SNAPSHOT_LIMIT`.
    SnapshotTooLarge,
}

/// Whether an event can be written: its snapshot, if it has one, must be
/// short enough for the event to fit one datagram.
pub open spec fn encodable(e: EventModel) -> bool {
    match e {
        EventModel::WorldSnapshot { snapshot } => snapshot.len() <= SNAPSHOT_LIMIT,
        _ => true,
    }
}

/// The bytes of an event: its tag, then its fields in order; a snapshot is
/// preceded by its length.
pub open spec fn event_bytes(e: EventModel) -> Seq<u8> {
    match e {
        EventModel::Joined { client_id } => seq![EVENT_JOINED] + identity(client_id),
        EventModel::WorldSnapshot { snapshot } => seq![EVENT_SNAPSHOT] + be32(
            snapshot.len() as u32,
        ) + snapshot,
        EventModel::AddedPlayer { entity, client } => seq![EVENT_ADDED_PLAYER] + be32(entity.0)
            + be32(client.0),
    }
}

/// The event that `bytes` spell: the one that can be written and whose bytes
/// they are, if there is one.
pub open spec fn decode_event(bytes: Seq<u8>) -> Option<EventModel> {
    if exists|e: EventModel| encodable(e) && event_bytes(e) == bytes {
        Some(choose|e: EventModel| encodable(e) && event_bytes(e) == bytes)
    } else {
        None
    }
}

/// The view of an optional event.
pub open spec fn event_view(e: Option<ServerEvent>) -> Option<EventModel> {
    match e {
        Some(e) => Some(e@),
        None => None,
    }
}

spec fn parse_event(b: Seq<u8>) -> Option<EventModel> {
    if b.len() == 2 && b[0] == EVENT_JOINED && b[1] == 0 {
        Some(EventModel::Joined { client_id: None })
    } else if b.len() == 6 && b[0] == EVENT_JOINED && b[1] == 1 {
        Some(EventModel::Joined { client_id: Some(ClientId(be32_at(b, 2))) })
    } else if 5 <= b.len() <= 5 + SNAPSHOT_LIMIT && b[0] == EVENT_SNAPSHOT && be32_at(b, 1)
        == b.len() - 5 {
        Some(EventModel::WorldSnapshot { snapshot: b.subrange(5, b.len() as int) })
    } else if b.len() == 9 && b[0] == EVENT_ADDED_PLAYER {
        Some(
            EventModel::AddedPlayer {
                entity: EntityId(be32_at(b, 1)),
                client: ClientId(be32_at(b, 5)),
            },
        )
    } else {
        None
    }
}

/// What was parsed can be written, and spells the bytes it was parsed from.
proof fn lemma_parse_sound(b: Seq<u8>)
    ensures
        match parse_event(b) {
            Some(e) => encodable(e) && event_bytes(e) == b,
            None => true,
        },
{
    match parse_event(b) {
        Some(EventModel::Joined { client_id: None }) => {
            assert(event_bytes(parse_event(b).unwrap()) =~= b);
        },
        Some(EventModel::Joined { client_id: Some(id) }) => {
            lemma_be32_at(b, 2);
            assert(event_bytes(parse_event(b).unwrap()) =~= b);
        },
        Some(EventModel::WorldSnapshot { snapshot }) => {
            lemma_be32_at(b, 1);
            assert(snapshot.len() as u32 == be32_at(b, 1));
            assert(event_bytes(parse_event(b).unwrap()) =~= b);
        },
        Some(EventModel::AddedPlayer { entity, client }) => {
            lemma_be32_at(b, 1);
            lemma_be32_at(b, 5);
            assert(event_bytes(parse_event(b).unwrap()) =~= b);
        },
        None => {},
    }
}

/// The bytes of an event that can be written parse to that event.
proof fn lemma_parse_complete(e: EventModel)
    requires
        encodable(e),
    ensures
        parse_event(event_bytes(e)) == Some(e),
{
    let b = event_bytes(e);
    match e {
        EventModel::Joined { client_id: None } => {
            assert(b[0] == EVENT_JOINED && b[1] == 0);
        },
        EventModel::Joined { client_id: Some(id) } => {
            lemma_value_of_be32(id.0);
            lemma_be32_at_concat(seq![EVENT_JOINED, 1u8], id.0, Seq::<u8>::empty());
            assert(b =~= seq![EVENT_JOINED, 1u8] + be32(id.0) + Seq::<u8>::empty());
            assert(b[0] == EVENT_JOINED && b[1] == 1);
        },
        EventModel::WorldSnapshot { snapshot } => {
            lemma_value_of_be32(snapshot.len() as u32);
            lemma_be32_at_concat(seq![EVENT_SNAPSHOT], snapshot.len() as u32, snapshot);
            assert(b[0] == EVENT_SNAPSHOT);
            assert(b.subrange(5, b.len() as int) =~= snapshot);
        },
        EventModel::AddedPlayer { entity, client } => {
            lemma_value_of_be32(entity.0);
            lemma_value_of_be32(client.0);
            lemma_be32_at_concat(seq![EVENT_ADDED_PLAYER], entity.0, be32(client.0));
            lemma_be32_at_concat(
                seq![EVENT_ADDED_PLAYER] + be32(entity.0),
                client.0,
                Seq::<u8>::empty(),
            );
            assert(b =~= seq![EVENT_ADDED_PLAYER] + be32(entity.0) + be32(client.0) + Seq::<
                u8,
            >::empty());
            assert(b[0] == EVENT_ADDED_PLAYER);
        },
    }
}

/// Parsing computes `decode_event`.
proof fn lemma_parse_is_decode(b: Seq<u8>)
    ensures
        parse_event(b) == decode_event(b),
{
    lemma_parse_sound(b);
    if exists|e: EventModel| encodable(e) && event_bytes(e) == b {
        let e = choose|e: EventModel| encodable(e) && event_bytes(e) == b;
        lemma_parse_complete(e);
    }
}

/// Decoding the bytes of an event that can be written gives the event back,
/// whatever its variant.
pub proof fn lemma_event_round_trip(e: EventModel)
    requires
        encodable(e),
    ensures
        decode_event(event_bytes(e)) == Some(e),
{
    lemma_parse_complete(e);
    lemma_parse_is_decode(event_bytes(e));
}

/// Two events that can be written and have the same bytes are the same
/// event.
pub proof fn lemma_event_bytes_injective(e1: EventModel, e2: EventModel)
    requires
        encodable(e1),
        encodable(e2),
        event_bytes(e1) == event_bytes(e2),
    ensures
        e1 == e2,
{
    lemma_parse_complete(e1);
    lemma_parse_complete(e2);
}

/// Bytes that decode to an event are the bytes of that event: nothing but
/// the one encoding of an event is accepted.
pub proof fn lemma_event_decode_exact(bytes: Seq<u8>, e: EventModel)
    ensures
        decode_event(bytes) == Some(e) <==> encodable(e) && event_bytes(e) == bytes,
{
    lemma_parse_is_decode(bytes);
    lemma_parse_sound(bytes);
    if encodable(e) && event_bytes(e) == bytes {
        lemma_parse_complete(e);
    }
}

impl Clone for ServerEvent {
    /// A second event with the same content.
    fn clone(&self) -> (r: Self)
        ensures
            r@ == self@,
    {
        match self {
            ServerEvent::Joined { client_id } => ServerEvent::Joined { client_id: *client_id },
            ServerEvent::WorldSnapshot { snapshot } => ServerEvent::WorldSnapshot {
                snapshot: copy_bytes(snapshot.as_slice()),
            },
            ServerEvent::AddedPlayer { entity, client } => ServerEvent::AddedPlayer {
                entity: *entity,
                client: *client,
            },
        }
    }
}

impl ServerEvent {
    /// Whether this event can be written.
    pub fn is_encodable(&self) -> (b: bool)
        ensures
            b == encodable(self@),
    {
        match self {
            ServerEvent::WorldSnapshot { snapshot } => snapshot.len() <= SNAPSHOT_LIMIT,
            _ => true,
        }
    }

    /// The bytes of this event, or the reason why it has none.
    pub fn encode(&self) -> (r: Result<Vec<u8>, EncodeError>)
        ensures
            match r {
                Ok(bytes) => encodable(self@) && bytes@ == event_bytes(self@),
                Err(e) => !encodable(self@) && e == EncodeError::SnapshotTooLarge,
            },
    {
        let mut out: Vec<u8> = Vec::new();
        match self {
            ServerEvent::Joined { client_id } => {
                out.push(EVENT_JOINED);
                push_identity(&mut out, *client_id);
            },
            ServerEvent::WorldSnapshot { snapshot } => {
                if snapshot.len() > SNAPSHOT_LIMIT {
                    return Err(EncodeError::SnapshotTooLarge);
                }
                out.push(EVENT_SNAPSHOT);
                push_be32(&mut out, snapshot.len() as u32);
                push_bytes(&mut out, snapshot.as_slice());
            },
            ServerEvent::AddedPlayer { entity, client } => {
                out.push(EVENT_ADDED_PLAYER);
                push_be32(&mut out, entity.0);
                push_be32(&mut out, client.0);
            },
        }
        assert(out@ =~= event_bytes(self@));
        Ok(out)
    }

    /// The event that `bytes` spell, or `None` when they are the bytes of no
    /// event.
    pub fn decode(bytes: &[u8]) -> (r: Option<ServerEvent>)
        ensures
            event_view(r) == decode_event(bytes@),
    {
        proof {
            lemma_parse_is_decode(bytes@);
        }
        let len = bytes.len();
        if len < 2 {
            return None;
        }
        let tag = bytes[0];
        if tag == EVENT_JOINED {
            if len == 2 && bytes[1] == 0 {
                Some(ServerEvent::Joined { client_id: None })
            } else if len == 6 && bytes[1] == 1 {
                Some(ServerEvent::Joined { client_id: Some(ClientId(read_be32(bytes, 2))) })
            } else {
                None
            }
        } else if tag == EVENT_SNAPSHOT {
            if len < 5 || len - 5 > SNAPSHOT_LIMIT {
                return None;
            }
            let n: u32 = read_be32(bytes, 1);
            if n as u64 != (len - 5) as u64 {
                return None;
            }
            let snapshot = copy_bytes(slice_subrange(bytes, 5, len));
            Some(ServerEvent::WorldSnapshot { snapshot })
        } else if tag == EVENT_ADDED_PLAYER {
            if len == 9 {
                Some(
                    ServerEvent::AddedPlayer {
                        entity: EntityId(read_be32(bytes, 1)),
                        client: ClientId(read_be32(bytes, 5)),
                    },
                )
            } else {
                None
            }
        } else {
            None
        }
    }
}

} // verus!
