use netsession::game::entityid::EntityId;
use netsession::game::input::{Buttons, InputFrame, Vec2};
use netsession::network::clientid::ClientId;
use netsession::network::clientrequest::{ClientMessage, ClientRequest};
use netsession::network::serverevent::{EncodeError, ServerEvent, SNAPSHOT_LIMIT};
use netsession::network::wire::{copy_bytes, push_be32, push_bytes, push_flag, push_identity, read_be32};

fn sample_frame() -> InputFrame {
    InputFrame {
        move_axis: Vec2 { x: 1.5f32.to_bits(), y: (-0.25f32).to_bits() },
        look: Vec2 { x: 0, y: u32::MAX },
        buttons: Buttons { grab: true, place: false, dash: true },
    }
}

fn all_requests() -> Vec<ClientRequest> {
    vec![
        ClientRequest::Join,
        ClientRequest::Idle,
        ClientRequest::Add,
        ClientRequest::Remove { id: EntityId(7) },
        ClientRequest::Remove { id: EntityId(u32::MAX) },
        ClientRequest::Input { entity_id: EntityId(0x0102_0304), frame: sample_frame() },
        ClientRequest::Input { entity_id: EntityId(0), frame: InputFrame::new() },
    ]
}

#[test]
fn be32_writes_most_significant_byte_first() {
    let mut out = vec![9u8];
    push_be32(&mut out, 0x0102_0304);
    assert_eq!(out, vec![9, 1, 2, 3, 4]);
    push_be32(&mut out, u32::MAX);
    assert_eq!(out, vec![9, 1, 2, 3, 4, 255, 255, 255, 255]);
    push_be32(&mut out, 0);
    assert_eq!(&out[9..], &[0, 0, 0, 0]);
}

#[test]
fn be32_reads_what_was_written() {
    for x in [0u32, 1, 255, 256, 65_535, 65_536, 0x00ff_ffff, 0x0100_0000, 0xdead_beef, u32::MAX] {
        let mut out = vec![0xaa, 0xbb];
        push_be32(&mut out, x);
        out.push(0xcc);
        assert_eq!(read_be32(&out, 2), x);
    }
}

#[test]
fn flags_and_identities_have_fixed_bytes() {
    let mut out = Vec::new();
    push_flag(&mut out, false);
    push_flag(&mut out, true);
    assert_eq!(out, vec![0, 1]);
    let mut out = Vec::new();
    push_identity(&mut out, None);
    assert_eq!(out, vec![0]);
    let mut out = Vec::new();
    push_identity(&mut out, Some(ClientId(258)));
    assert_eq!(out, vec![1, 0, 0, 1, 2]);
}

#[test]
fn bytes_are_appended_and_copied_in_order() {
    let mut out = vec![1u8, 2];
    push_bytes(&mut out, &[3, 4, 5]);
    assert_eq!(out, vec![1, 2, 3, 4, 5]);
    push_bytes(&mut out, &[]);
    assert_eq!(out, vec![1, 2, 3, 4, 5]);
    assert_eq!(copy_bytes(&[7, 8, 9]), vec![7, 8, 9]);
    assert_eq!(copy_bytes(&[]), Vec::<u8>::new());
}

#[test]
fn message_bytes_are_exact() {
    assert_eq!(ClientMessage::new(None, ClientRequest::Join).encode(), vec![0, 0]);
    assert_eq!(ClientMessage::new(None, ClientRequest::Idle).encode(), vec![0, 1]);
    assert_eq!(
        ClientMessage::new(Some(ClientId(1)), ClientRequest::Add).encode(),
        vec![1, 0, 0, 0, 1, 2]
    );
    assert_eq!(
        ClientMessage::new(Some(ClientId(2)), ClientRequest::Remove { id: EntityId(0x0a0b) }).encode(),
        vec![1, 0, 0, 0, 2, 3, 0, 0, 0x0a, 0x0b]
    );
    let frame = InputFrame {
        move_axis: Vec2 { x: 1, y: 2 },
        look: Vec2 { x: 3, y: 4 },
        buttons: Buttons { grab: true, place: false, dash: true },
    };
    assert_eq!(
        ClientMessage::new(None, ClientRequest::Input { entity_id: EntityId(5), frame }).encode(),
        vec![0, 4, 0, 0, 0, 5, 0, 0, 0, 1, 0, 0, 0, 2, 0, 0, 0, 3, 0, 0, 0, 4, 1, 0, 1]
    );
}

#[test]
fn request_bytes_follow_what_is_there() {
    let mut out = vec![0xee];
    ClientRequest::Remove { id: EntityId(1) }.encode_into(&mut out);
    assert_eq!(out, vec![0xee, 3, 0, 0, 0, 1]);
}

#[test]
fn every_message_round_trips() {
    for client_id in [None, Some(ClientId(1)), Some(ClientId(0)), Some(ClientId(u32::MAX))] {
        for request in all_requests() {
            let message = ClientMessage::new(client_id, request);
            let bytes = message.encode();
            assert_eq!(ClientMessage::decode(&bytes), Some(message));
        }
    }
}

#[test]
fn input_frame_keeps_every_bit_of_a_coordinate() {
    let frame = sample_frame();
    let message = ClientMessage::new(Some(ClientId(3)), ClientRequest::Input { entity_id: EntityId(9), frame });
    let back = ClientMessage::decode(&message.encode()).unwrap();
    match back.request {
        ClientRequest::Input { frame: f, .. } => {
            assert_eq!(f32::from_bits(f.move_axis.x), 1.5);
            assert_eq!(f32::from_bits(f.move_axis.y), -0.25);
            assert_eq!(f.buttons, Buttons { grab: true, place: false, dash: true });
        }
        _ => panic!("an input was sent"),
    }
}

#[test]
fn malformed_messages_are_refused() {
    assert_eq!(ClientMessage::decode(&[]), None);
    assert_eq!(ClientMessage::decode(&[0]), None);
    assert_eq!(ClientMessage::decode(&[2, 0]), None);
    assert_eq!(ClientMessage::decode(&[0, 5]), None);
    assert_eq!(ClientMessage::decode(&[0, 0, 0]), None);
    assert_eq!(ClientMessage::decode(&[1, 0, 0, 0]), None);
    assert_eq!(ClientMessage::decode(&[1, 0, 0, 0, 1]), None);
    assert_eq!(ClientMessage::decode(&[0, 3, 0, 0, 1]), None);
    assert_eq!(ClientMessage::decode(&[0, 3, 0, 0, 0, 1, 0]), None);
    let mut input = ClientMessage::new(None, ClientRequest::Input { entity_id: EntityId(5), frame: sample_frame() }).encode();
    let last = input.len() - 1;
    input[last] = 2;
    assert_eq!(ClientMessage::decode(&input), None);
    input[last] = 1;
    input.push(0);
    assert_eq!(ClientMessage::decode(&input), None);
}

#[test]
fn five_bytes_are_never_a_message() {
    for first in 0u8..=255 {
        for second in [0u8, 1, 2, 3, 4, 5, 255] {
            assert_eq!(ClientMessage::decode(&[first, second, 0, 0, 1]), None);
        }
    }
}

#[test]
fn event_bytes_are_exact() {
    assert_eq!(ServerEvent::Joined { client_id: None }.encode(), Ok(vec![0, 0]));
    assert_eq!(ServerEvent::Joined { client_id: Some(ClientId(1)) }.encode(), Ok(vec![0, 1, 0, 0, 0, 1]));
    assert_eq!(
        ServerEvent::WorldSnapshot { snapshot: vec![9, 8, 7] }.encode(),
        Ok(vec![1, 0, 0, 0, 3, 9, 8, 7])
    );
    assert_eq!(ServerEvent::WorldSnapshot { snapshot: vec![] }.encode(), Ok(vec![1, 0, 0, 0, 0]));
    assert_eq!(
        ServerEvent::AddedPlayer { entity: EntityId(0x0100), client: ClientId(2) }.encode(),
        Ok(vec![2, 0, 0, 1, 0, 0, 0, 0, 2])
    );
}

#[test]
fn every_event_round_trips() {
    let events = vec![
        ServerEvent::Joined { client_id: None },
        ServerEvent::Joined { client_id: Some(ClientId(1)) },
        ServerEvent::Joined { client_id: Some(ClientId(u32::MAX)) },
        ServerEvent::WorldSnapshot { snapshot: vec![] },
        ServerEvent::WorldSnapshot { snapshot: vec![0, 1, 2, 255] },
        ServerEvent::WorldSnapshot { snapshot: vec![0x5a; SNAPSHOT_LIMIT] },
        ServerEvent::AddedPlayer { entity: EntityId(3), client: ClientId(4) },
    ];
    for event in events {
        let bytes = event.encode().unwrap();
        assert_eq!(ServerEvent::decode(&bytes), Some(event));
    }
}

#[test]
fn snapshot_over_the_limit_has_no_bytes() {
    let event = ServerEvent::WorldSnapshot { snapshot: vec![0; SNAPSHOT_LIMIT + 1] };
    assert!(!event.is_encodable());
    assert_eq!(event.encode(), Err(EncodeError::SnapshotTooLarge));
    let at_limit = ServerEvent::WorldSnapshot { snapshot: vec![0; SNAPSHOT_LIMIT] };
    assert!(at_limit.is_encodable());
    assert_eq!(at_limit.encode().unwrap().len(), SNAPSHOT_LIMIT + 5);
    assert!(ServerEvent::Joined { client_id: None }.is_encodable());
}

#[test]
fn malformed_events_are_refused() {
    assert_eq!(ServerEvent::decode(&[]), None);
    assert_eq!(ServerEvent::decode(&[0]), None);
    assert_eq!(ServerEvent::decode(&[3, 0]), None);
    assert_eq!(ServerEvent::decode(&[0, 2]), None);
    assert_eq!(ServerEvent::decode(&[0, 0, 0]), None);
    assert_eq!(ServerEvent::decode(&[0, 1, 0, 0, 0]), None);
    assert_eq!(ServerEvent::decode(&[0, 1, 0, 0, 0, 1, 0]), None);
    assert_eq!(ServerEvent::decode(&[1, 0, 0, 0]), None);
    assert_eq!(ServerEvent::decode(&[1, 0, 0, 0, 2, 9]), None);
    assert_eq!(ServerEvent::decode(&[1, 0, 0, 0, 1, 9, 9]), None);
    assert_eq!(ServerEvent::decode(&[2, 0, 0, 0, 1, 0, 0, 0]), None);
    assert_eq!(ServerEvent::decode(&[2, 0, 0, 0, 1, 0, 0, 0, 2, 0]), None);
    let mut long = vec![1u8];
    let n = (SNAPSHOT_LIMIT + 1) as u32;
    long.extend_from_slice(&n.to_be_bytes());
    long.extend_from_slice(&vec![0u8; SNAPSHOT_LIMIT + 1]);
    assert_eq!(ServerEvent::decode(&long), None);
}

#[test]
fn clone_of_an_event_is_the_event() {
    let event = ServerEvent::WorldSnapshot { snapshot: vec![1, 2, 3] };
    assert_eq!(event.clone(), event);
    let event = ServerEvent::AddedPlayer { entity: EntityId(1), client: ClientId(2) };
    assert_eq!(event.clone(), event);
}
