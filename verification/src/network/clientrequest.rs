//! What a client asks of the host, and the envelope it travels in.

use crate::game::entityid::EntityId;
use crate::game::input::{Buttons, InputFrame, Vec2};
use crate::network::clientid::ClientId;
use crate::network::wire::{
    be32, be32_at, flag, identity, lemma_be32_at, lemma_be32_at_concat, lemma_value_of_be32,
    push_be32, push_flag, push_identity, read_be32,
};
use vstd::prelude::*;

verus! {

/// Tag byte of `ClientRequest::Join`.
pub const REQUEST_JOIN: u8 = 0;

/// Tag byte of `ClientRequest::Idle`.
pub const REQUEST_IDLE: u8 = 1;

/// Tag byte of `ClientRequest::Add`.
pub const REQUEST_ADD: u8 = 2;

/// Tag byte of `ClientRequest::Remove`.
pub const REQUEST_REMOVE: u8 = 3;

/// Tag byte of `ClientRequest::Input`.
pub const REQUEST_INPUT: u8 = 4;

/// A request of a client to the host.
#[derive(Clone, Copy, Debug, PartialEq, Eq, Structural)]
pub enum ClientRequest {
    /// Asks for an identity.
    Join,
    /// Heartbeat: the client is still there.
    Idle,
    /// Asks for an entity to control.
    Add,
    /// Gives an entity up.
    Remove { id: EntityId },
    /// One sample of input for an entity.
    Input { entity_id: EntityId, frame: InputFrame },
}

/// The envelope of a request: who asks, and what.
///
/// `client_id` is absent only while the sender has no identity yet.
#[derive(Clone, Copy, Debug, PartialEq, Eq, Structural)]
pub struct ClientMessage {
    pub client_id: Option<ClientId>,
    pub request: ClientRequest,
}

/// The bytes of a pair of coordinates: `x`, then `y`.
pub open spec fn vec2_bytes(v: Vec2) -> Seq<u8> {
    be32(v.x) + be32(v.y)
}

/// The bytes of the buttons: one flag each, in the order grab, place, dash.
pub open spec fn buttons_bytes(b: Buttons) -> Seq<u8> {
    flag(b.grab) + flag(b.place) + flag(b.dash)
}

/// The bytes of an input frame: the move axis, the look direction, the
/// buttons.
pub open spec fn frame_bytes(f: InputFrame) -> Seq<u8> {
    vec2_bytes(f.move_axis) + vec2_bytes(f.look) + buttons_bytes(f.buttons)
}

/// The bytes of a request: its tag, then its fields in order.
pub open spec fn request_bytes(r: ClientRequest) -> Seq<u8> {
    match r {
        ClientRequest::Join => seq![REQUEST_JOIN],
        ClientRequest::Idle => seq![REQUEST_IDLE],
        ClientRequest::Add => seq![REQUEST_ADD],
        ClientRequest::Remove { id } => seq![REQUEST_REMOVE] + be32(id.0),
        ClientRequest::Input { entity_id, frame } => seq![REQUEST_INPUT] + be32(entity_id.0)
            + frame_bytes(frame),
    }
}

/// The bytes of a message: the sender's optional identity, then the request.
pub open spec fn message_bytes(m: ClientMessage) -> Seq<u8> {
    identity(m.client_id) + request_bytes(m.request)
}

/// The message that `bytes` spell: the one whose bytes they are, if there is
/// one.
pub open spec fn decode_message(bytes: Seq<u8>) -> Option<ClientMessage> {
    if exists|m: ClientMessage| message_bytes(m) == bytes {
        Some(choose|m: ClientMessage| message_bytes(m) == bytes)
    } else {
        None
    }
}

spec fn is_flag(b: u8) -> bool {
    b == 0 || b == 1
}

spec fn parse_vec2(b: Seq<u8>, at: int) -> Vec2 {
    Vec2 { x: be32_at(b, at), y: be32_at(b, at + 4) }
}

spec fn parse_buttons(b: Seq<u8>, at: int) -> Buttons {
    Buttons { grab: b[at] == 1, place: b[at + 1] == 1, dash: b[at + 2] == 1 }
}

spec fn parse_frame(b: Seq<u8>, at: int) -> InputFrame {
    InputFrame {
        move_axis: parse_vec2(b, at),
        look: parse_vec2(b, at + 8),
        buttons: parse_buttons(b, at + 16),
    }
}

/// Reads a request that fills `b` from `at` to its end.
spec fn parse_request(b: Seq<u8>, at: int) -> Option<ClientRequest> {
    let n = b.len() - at;
    if n == 1 && b[at] == REQUEST_JOIN {
        Some(ClientRequest::Join)
    } else if n == 1 && b[at] == REQUEST_IDLE {
        Some(ClientRequest::Idle)
    } else if n == 1 && b[at] == REQUEST_ADD {
        Some(ClientRequest::Add)
    } else if n == 5 && b[at] == REQUEST_REMOVE {
        Some(ClientRequest::Remove { id: EntityId(be32_at(b, at + 1)) })
    } else if n == 24 && b[at] == REQUEST_INPUT && is_flag(b[at + 21]) && is_flag(b[at + 22])
        && is_flag(b[at + 23]) {
        Some(
            ClientRequest::Input {
                entity_id: EntityId(be32_at(b, at + 1)),
                frame: parse_frame(b, at + 5),
            },
        )
    } else {
        None
    }
}

spec fn parse_message(b: Seq<u8>) -> Option<ClientMessage> {
    if b.len() >= 1 && b[0] == 0 {
        match parse_request(b, 1) {
            Some(request) => Some(ClientMessage { client_id: None, request }),
            None => None,
        }
    } else if b.len() >= 5 && b[0] == 1 {
        match parse_request(b, 5) {
            Some(request) => Some(
                ClientMessage { client_id: Some(ClientId(be32_at(b, 1))), request },
            ),
            None => None,
        }
    } else {
        None
    }
}

/// What was parsed spells the bytes it was parsed from.
proof fn lemma_parse_sound(b: Seq<u8>)
    ensures
        match parse_message(b) {
            Some(m) => message_bytes(m) == b,
            None => true,
        },
{
    match parse_message(b) {
        Some(m) => {
            let at: int = if b[0] == 0 {
                1
            } else {
                5
            };
            if b[0] == 1 {
                lemma_be32_at(b, 1);
            }
            assert(identity(m.client_id) =~= b.subrange(0, at));
            match m.request {
                ClientRequest::Remove { id } => {
                    lemma_be32_at(b, at + 1);
                    assert(request_bytes(m.request) =~= b.subrange(at, b.len() as int));
                },
                ClientRequest::Input { entity_id, frame } => {
                    lemma_be32_at(b, at + 1);
                    lemma_be32_at(b, at + 5);
                    lemma_be32_at(b, at + 9);
                    lemma_be32_at(b, at + 13);
                    lemma_be32_at(b, at + 17);
                    assert(vec2_bytes(frame.move_axis) =~= b.subrange(at + 5, at + 13));
                    assert(vec2_bytes(frame.look) =~= b.subrange(at + 13, at + 21));
                    assert(buttons_bytes(frame.buttons) =~= b.subrange(at + 21, at + 24));
                    assert(frame_bytes(frame) =~= b.subrange(at + 5, at + 24));
                    assert(request_bytes(m.request) =~= b.subrange(at, b.len() as int));
                },
                _ => {
                    assert(request_bytes(m.request) =~= b.subrange(at, b.len() as int));
                },
            }
            assert(message_bytes(m) =~= b);
        },
        None => {},
    }
}

proof fn lemma_vec2_at(pre: Seq<u8>, v: Vec2, post: Seq<u8>)
    ensures
        vec2_bytes(v).len() == 8,
        parse_vec2(pre + vec2_bytes(v) + post, pre.len() as int) == v,
{
    lemma_value_of_be32(v.x);
    lemma_value_of_be32(v.y);
    let b = pre + vec2_bytes(v) + post;
    lemma_be32_at_concat(pre, v.x, be32(v.y) + post);
    assert(b =~= pre + be32(v.x) + (be32(v.y) + post));
    lemma_be32_at_concat(pre + be32(v.x), v.y, post);
    assert(b =~= pre + be32(v.x) + be32(v.y) + post);
}

proof fn lemma_buttons_at(pre: Seq<u8>, k: Buttons, post: Seq<u8>)
    ensures
        buttons_bytes(k).len() == 3,
        parse_buttons(pre + buttons_bytes(k) + post, pre.len() as int) == k,
        is_flag((pre + buttons_bytes(k) + post)[pre.len() as int]),
        is_flag((pre + buttons_bytes(k) + post)[pre.len() as int + 1]),
        is_flag((pre + buttons_bytes(k) + post)[pre.len() as int + 2]),
{
    let b = pre + buttons_bytes(k) + post;
    let at = pre.len() as int;
    assert(b[at] == buttons_bytes(k)[0]);
    assert(b[at + 1] == buttons_bytes(k)[1]);
    assert(b[at + 2] == buttons_bytes(k)[2]);
}

proof fn lemma_frame_at(pre: Seq<u8>, f: InputFrame, post: Seq<u8>)
    ensures
        frame_bytes(f).len() == 19,
        parse_frame(pre + frame_bytes(f) + post, pre.len() as int) == f,
        is_flag((pre + frame_bytes(f) + post)[pre.len() as int + 16]),
        is_flag((pre + frame_bytes(f) + post)[pre.len() as int + 17]),
        is_flag((pre + frame_bytes(f) + post)[pre.len() as int + 18]),
{
    let m = vec2_bytes(f.move_axis);
    let l = vec2_bytes(f.look);
    let k = buttons_bytes(f.buttons);
    let b = pre + frame_bytes(f) + post;
    lemma_vec2_at(pre, f.move_axis, l + k + post);
    assert(b =~= pre + m + (l + k + post));
    lemma_vec2_at(pre + m, f.look, k + post);
    assert(b =~= pre + m + l + (k + post));
    lemma_buttons_at(pre + m + l, f.buttons, post);
    assert(b =~= pre + m + l + k + post);
}

proof fn lemma_request_at(pre: Seq<u8>, r: ClientRequest)
    ensures
        parse_request(pre + request_bytes(r), pre.len() as int) == Some(r),
{
    let b = pre + request_bytes(r);
    let at = pre.len() as int;
    match r {
        ClientRequest::Remove { id } => {
            lemma_value_of_be32(id.0);
            lemma_be32_at_concat(pre + seq![REQUEST_REMOVE], id.0, Seq::<u8>::empty());
            assert(b =~= pre + seq![REQUEST_REMOVE] + be32(id.0) + Seq::<u8>::empty());
            assert(b[at] == REQUEST_REMOVE);
        },
        ClientRequest::Input { entity_id, frame } => {
            lemma_value_of_be32(entity_id.0);
            let tag = pre + seq![REQUEST_INPUT];
            lemma_be32_at_concat(tag, entity_id.0, frame_bytes(frame));
            assert(b =~= tag + be32(entity_id.0) + frame_bytes(frame));
            lemma_frame_at(tag + be32(entity_id.0), frame, Seq::<u8>::empty());
            assert(b =~= tag + be32(entity_id.0) + frame_bytes(frame) + Seq::<u8>::empty());
            assert(b[at] == REQUEST_INPUT);
        },
        _ => {
            assert(b[at] == request_bytes(r)[0]);
        },
    }
}

/// The bytes of a message parse to that message.
proof fn lemma_parse_complete(m: ClientMessage)
    ensures
        parse_message(message_bytes(m)) == Some(m),
{
    let head = identity(m.client_id);
    let b = message_bytes(m);
    lemma_request_at(head, m.request);
    match m.client_id {
        Some(id) => {
            lemma_value_of_be32(id.0);
            lemma_be32_at_concat(seq![1u8], id.0, request_bytes(m.request));
            assert(b =~= seq![1u8] + be32(id.0) + request_bytes(m.request));
            assert(b[0] == 1);
        },
        None => {
            assert(b[0] == 0);
        },
    }
}

/// Parsing computes `decode_message`.
proof fn lemma_parse_is_decode(b: Seq<u8>)
    ensures
        parse_message(b) == decode_message(b),
{
    lemma_parse_sound(b);
    if exists|m: ClientMessage| message_bytes(m) == b {
        let m = choose|m: ClientMessage| message_bytes(m) == b;
        lemma_parse_complete(m);
    }
}

/// Decoding the bytes of a message gives the message back, whatever the
/// variant of its request.
pub proof fn lemma_message_round_trip(m: ClientMessage)
    ensures
        decode_message(message_bytes(m)) == Some(m),
{
    lemma_parse_complete(m);
    lemma_parse_is_decode(message_bytes(m));
}

/// Two messages with the same bytes are the same message.
pub proof fn lemma_message_bytes_injective(m1: ClientMessage, m2: ClientMessage)
    requires
        message_bytes(m1) == message_bytes(m2),
    ensures
        m1 == m2,
{
    lemma_parse_complete(m1);
    lemma_parse_complete(m2);
}

/// Bytes that decode to a message are the bytes of that message: nothing
/// but the one encoding of a message is accepted.
pub proof fn lemma_message_decode_exact(bytes: Seq<u8>, m: ClientMessage)
    ensures
        decode_message(bytes) == Some(m) <==> message_bytes(m) == bytes,
{
    lemma_parse_is_decode(bytes);
    lemma_parse_sound(bytes);
    if message_bytes(m) == bytes {
        lemma_parse_complete(m);
    }
}

/// Every message takes at least two bytes, and none takes five.
pub proof fn lemma_message_length(m: ClientMessage)
    ensures
        message_bytes(m).len() >= 2,
        message_bytes(m).len() != 5,
{
    lemma_parse_complete(m);
    if m.client_id is Some {
        lemma_value_of_be32(m.client_id.unwrap().0);
    }
}

/// Five bytes never spell a message.
pub proof fn lemma_no_message_of_five_bytes(bytes: Seq<u8>)
    requires
        bytes.len() == 5,
    ensures
        decode_message(bytes) is None,
{
    if decode_message(bytes) is Some {
        let m = choose|m: ClientMessage| message_bytes(m) == bytes;
        lemma_message_length(m);
    }
}

impl ClientRequest {
    /// Appends the bytes of this request to `out`.
    pub fn encode_into(&self, out: &mut Vec<u8>)
        ensures
            final(out)@ == old(out)@ + request_bytes(*self),
    {
        match *self {
            ClientRequest::Join => {
                out.push(REQUEST_JOIN);
            },
            ClientRequest::Idle => {
                out.push(REQUEST_IDLE);
            },
            ClientRequest::Add => {
                out.push(REQUEST_ADD);
            },
            ClientRequest::Remove { id } => {
                out.push(REQUEST_REMOVE);
                push_be32(out, id.0);
            },
            ClientRequest::Input { entity_id, frame } => {
                out.push(REQUEST_INPUT);
                push_be32(out, entity_id.0);
                push_be32(out, frame.move_axis.x);
                push_be32(out, frame.move_axis.y);
                push_be32(out, frame.look.x);
                push_be32(out, frame.look.y);
                push_flag(out, frame.buttons.grab);
                push_flag(out, frame.buttons.place);
                push_flag(out, frame.buttons.dash);
                assert(out@ =~= old(out)@ + (seq![REQUEST_INPUT] + be32(entity_id.0) + (be32(
                    frame.move_axis.x,
                ) + be32(frame.move_axis.y) + (be32(frame.look.x) + be32(frame.look.y)) + (flag(
                    frame.buttons.grab,
                ) + flag(frame.buttons.place) + flag(frame.buttons.dash)))));
            },
        }
        assert(out@ =~= old(out)@ + request_bytes(*self));
    }
}

impl ClientMessage {
    /// An envelope around `request`, sent in the name of `client_id`.
    pub fn new(client_id: Option<ClientId>, request: ClientRequest) -> (m: Self)
        ensures
            m == (ClientMessage { client_id, request }),
    {
        ClientMessage { client_id, request }
    }

    /// The bytes of this message.
    pub fn encode(&self) -> (bytes: Vec<u8>)
        ensures
            bytes@ == message_bytes(*self),
    {
        let mut out: Vec<u8> = Vec::new();
        push_identity(&mut out, self.client_id);
        self.request.encode_into(&mut out);
        assert(out@ =~= message_bytes(*self));
        out
    }

    /// The message that `bytes` spell, or `None` when they are the bytes of
    /// no message.
    pub fn decode(bytes: &[u8]) -> (r: Option<ClientMessage>)
        ensures
            r == decode_message(bytes@),
    {
        proof {
            lemma_parse_is_decode(bytes@);
        }
        let len = bytes.len();
        if len == 0 {
            return None;
        }
        let (client_id, at): (Option<ClientId>, usize) = if bytes[0] == 0 {
            (None, 1)
        } else if bytes[0] == 1 && len >= 5 {
            (Some(ClientId(read_be32(bytes, 1))), 5)
        } else {
            return None;
        };
        if at >= len {
            return None;
        }
        let tag = bytes[at];
        let rest: usize = len - at;
        let request = if rest == 1 && tag == REQUEST_JOIN {
            ClientRequest::Join
        } else if rest == 1 && tag == REQUEST_IDLE {
            ClientRequest::Idle
        } else if rest == 1 && tag == REQUEST_ADD {
            ClientRequest::Add
        } else if rest == 5 && tag == REQUEST_REMOVE {
            ClientRequest::Remove { id: EntityId(read_be32(bytes, at + 1)) }
        } else if rest == 24 && tag == REQUEST_INPUT && bytes[at + 21] <= 1 && bytes[at + 22] <= 1
            && bytes[at + 23] <= 1 {
            ClientRequest::Input {
                entity_id: EntityId(read_be32(bytes, at + 1)),
                frame: InputFrame {
                    move_axis: Vec2 { x: read_be32(bytes, at + 5), y: read_be32(bytes, at + 9) },
                    look: Vec2 { x: read_be32(bytes, at + 13), y: read_be32(bytes, at + 17) },
                    buttons: Buttons {
                        grab: bytes[at + 21] == 1,
                        place: bytes[at + 22] == 1,
                        dash: bytes[at + 23] == 1,
                    },
                },
            }
        } else {
            return None;
        };
        Some(ClientMessage { client_id, request })
    }
}

} // verus!
