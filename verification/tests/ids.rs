use netsession::game::entityid::{EntityId, FIRST_ENTITY_ID};
use netsession::game::enums::{AnimationState, Kind};
use netsession::game::input::{Buttons, GameAction, InputFrame, Vec2};
use netsession::game::playerid::{PlayerId, FIRST_PLAYER_ID};
use netsession::game::util::Util;
use netsession::network::clientid::{ClientId, FIRST_CLIENT_ID, HOST_CLIENT_ID};
use netsession::network::clientrequest::ClientMessage;
use netsession::network::networkclient::NetworkClient;
use netsession::network::serverevent::ServerEvent;
use netsession::network::clientrequest::ClientRequest;
use netsession::network::networkmanager::{NetworkManager, Role, Route};
use netsession::sequence::IdSequence;

#[test]
fn client_identities_start_at_one_and_increase() {
    let mut sequence = IdSequence::starting_at(FIRST_CLIENT_ID);
    assert_eq!(sequence.peek(), Some(1));
    assert_eq!(ClientId::new(&mut sequence), Some(ClientId(1)));
    assert_eq!(ClientId::new(&mut sequence), Some(ClientId(2)));
    assert_eq!(ClientId::new(&mut sequence), Some(ClientId(3)));
    assert_eq!(sequence.peek(), Some(4));
}

#[test]
fn entity_identities_start_at_one() {
    let mut sequence = IdSequence::starting_at(FIRST_ENTITY_ID);
    assert_eq!(EntityId::new(&mut sequence), Some(EntityId(1)));
    assert_eq!(EntityId::new(&mut sequence), Some(EntityId(2)));
}

#[test]
fn player_identities_start_at_zero_and_keep_their_index() {
    let mut sequence = IdSequence::starting_at(FIRST_PLAYER_ID);
    assert_eq!(PlayerId::new(&mut sequence, 7), Some(PlayerId(0, 7)));
    assert_eq!(PlayerId::new(&mut sequence, 3), Some(PlayerId(1, 3)));
}

#[test]
fn two_sequences_do_not_share_state() {
    let mut one = IdSequence::starting_at(1);
    let mut other = IdSequence::starting_at(1);
    assert_eq!(one.advance(), Some(1));
    assert_eq!(one.advance(), Some(2));
    assert_eq!(other.advance(), Some(1));
}

#[test]
fn exhausted_sequence_hands_out_nothing() {
    let mut sequence = IdSequence::starting_at(u32::MAX - 1);
    assert_eq!(ClientId::new(&mut sequence), Some(ClientId(u32::MAX - 1)));
    assert_eq!(ClientId::new(&mut sequence), Some(ClientId(u32::MAX)));
    assert_eq!(sequence.peek(), None);
    assert_eq!(ClientId::new(&mut sequence), None);
    assert_eq!(EntityId::new(&mut sequence), None);
    assert_eq!(PlayerId::new(&mut sequence, 0), None);
    assert_eq!(sequence.advance(), None);
}

#[test]
fn two_mut_gives_both_places() {
    let mut v = vec![10, 20, 30, 40];
    {
        let (a, b) = Util::two_mut(&mut v, 1, 3);
        assert_eq!((*a, *b), (20, 40));
        *a += 1;
        *b += 2;
    }
    assert_eq!(v, vec![10, 21, 30, 42]);
    {
        let (a, b) = Util::two_mut(&mut v, 3, 0);
        assert_eq!((*a, *b), (42, 10));
        std::mem::swap(a, b);
    }
    assert_eq!(v, vec![42, 21, 30, 10]);
    {
        let (a, b) = Util::two_mut(&mut v, 0, 1);
        *a = 0;
        *b = 1;
    }
    assert_eq!(v, vec![0, 1, 30, 10]);
}

#[test]
fn fresh_input_frame_touches_nothing() {
    let frame = InputFrame::new();
    assert_eq!(frame.move_axis, Vec2 { x: 0, y: 0 });
    assert_eq!(f32::from_bits(frame.look.x), 0.0);
    assert_eq!(frame.buttons, Buttons { grab: false, place: false, dash: false });
}

#[test]
fn vocabulary_of_the_simulation_compares_by_variant() {
    assert_ne!(Kind::Player, Kind::Ball);
    assert_eq!(Kind::Goal, Kind::Goal);
    assert_ne!(AnimationState::Idle, AnimationState::Dashing);
    assert_ne!(GameAction::Move, GameAction::Look);
}

#[test]
fn client_sends_every_request_to_the_host() {
    let manager = NetworkManager::new(Role::Client);
    for request in [ClientRequest::Join, ClientRequest::Idle, ClientRequest::Add] {
        assert_eq!(manager.process_request(request), Route::SendToHost { request });
    }
}

#[test]
fn host_applies_what_concerns_the_simulation() {
    let manager = NetworkManager::new(Role::Host);
    let remove = ClientRequest::Remove { id: EntityId(3) };
    let input = ClientRequest::Input { entity_id: EntityId(3), frame: InputFrame::new() };
    assert_eq!(manager.process_request(ClientRequest::Add), Route::Apply { request: ClientRequest::Add });
    assert_eq!(manager.process_request(remove), Route::Apply { request: remove });
    assert_eq!(manager.process_request(input), Route::Apply { request: input });
    assert_eq!(manager.process_request(ClientRequest::Join), Route::Ignore);
    assert_eq!(manager.process_request(ClientRequest::Idle), Route::Ignore);
}

#[test]
fn a_client_learns_its_identity_from_the_answer_to_its_join() {
    let mut client = NetworkClient::new();
    assert_eq!(client.send_request(ClientRequest::Join), ClientMessage::new(None, ClientRequest::Join));
    client.handle_server_event(&ServerEvent::Joined { client_id: None });
    assert_eq!(client.client_id, None);
    client.handle_server_event(&ServerEvent::WorldSnapshot { snapshot: vec![1] });
    assert_eq!(client.client_id, None);
    client.handle_server_event(&ServerEvent::Joined { client_id: Some(ClientId(4)) });
    assert_eq!(client.client_id, Some(ClientId(4)));
    assert_eq!(client.send_request(ClientRequest::Add), ClientMessage::new(Some(ClientId(4)), ClientRequest::Add));
    client.handle_server_event(&ServerEvent::AddedPlayer { entity: EntityId(1), client: ClientId(9) });
    assert_eq!(client.client_id, Some(ClientId(4)));
}

#[test]
fn the_host_player_keeps_its_identity() {
    let mut client = NetworkClient::host();
    assert_eq!(client.client_id, Some(ClientId(HOST_CLIENT_ID)));
    client.handle_server_event(&ServerEvent::Joined { client_id: Some(ClientId(4)) });
    assert_eq!(client, NetworkClient { is_host: true, client_id: Some(ClientId(0)) });
    client.init_id(false, None);
    assert_eq!(client, NetworkClient::new());
}
