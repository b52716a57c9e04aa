use netsession::game::entityid::EntityId;
use netsession::network::address::SocketAddress;
use netsession::network::clientid::ClientId;
use netsession::network::clientnetworkhandler::{ClientAction, ClientNetworkHandler};
use netsession::network::clientrequest::{ClientMessage, ClientRequest};
use netsession::network::heartbeat::{Heartbeat, HEARTBEAT_PERIOD_MS};
use netsession::network::serverevent::ServerEvent;

fn addr(last: u32, port: u16) -> SocketAddress {
    SocketAddress::V4 { octets: 0x0a00_0000 + last, port }
}

fn bytes_of(event: &ServerEvent) -> Vec<u8> {
    event.encode().unwrap()
}

fn joined_client(host: SocketAddress, id: u32) -> ClientNetworkHandler {
    let mut client = ClientNetworkHandler::new();
    client.handle_socket_data((host, bytes_of(&ServerEvent::Joined { client_id: None })));
    client.handle_socket_data((host, bytes_of(&ServerEvent::Joined { client_id: Some(ClientId(id)) })));
    client
}

#[test]
fn handshake_has_two_phases() {
    let host = addr(1, 8080);
    let mut client = ClientNetworkHandler::new();
    assert_eq!(client.host_addr(), None);
    assert_eq!(client.client_id(), None);

    let first = client.handle_socket_data((host, bytes_of(&ServerEvent::Joined { client_id: None })));
    assert_eq!(
        first,
        vec![ClientAction::Send { addr: host, bytes: ClientMessage::new(None, ClientRequest::Join).encode() }]
    );
    assert_eq!(client.host_addr(), Some(host));
    assert_eq!(client.client_id(), None);

    let welcome = ServerEvent::Joined { client_id: Some(ClientId(4)) };
    let second = client.handle_socket_data((host, bytes_of(&welcome)));
    assert_eq!(second, vec![ClientAction::Deliver { event: welcome }]);
    assert_eq!(client.client_id(), Some(ClientId(4)));
    assert_eq!(client.host_addr(), Some(host));
}

#[test]
fn first_contact_with_an_identity_is_still_first_contact() {
    let host = addr(1, 8080);
    let mut client = ClientNetworkHandler::new();
    let actions = client.handle_socket_data((host, bytes_of(&ServerEvent::Joined { client_id: Some(ClientId(9)) })));
    assert_eq!(
        actions,
        vec![ClientAction::Send { addr: host, bytes: ClientMessage::new(None, ClientRequest::Join).encode() }]
    );
    assert_eq!(client.client_id(), None);
}

#[test]
fn nothing_is_delivered_before_the_identity() {
    let host = addr(1, 8080);
    let snapshot = ServerEvent::WorldSnapshot { snapshot: vec![1, 2] };
    let mut client = ClientNetworkHandler::new();
    assert_eq!(client.handle_socket_data((host, bytes_of(&snapshot))), vec![]);
    assert_eq!(client.host_addr(), None);
    client.handle_socket_data((host, bytes_of(&ServerEvent::Joined { client_id: None })));
    assert_eq!(client.handle_socket_data((host, bytes_of(&snapshot))), vec![]);
    assert_eq!(client.handle_socket_data((host, bytes_of(&ServerEvent::Joined { client_id: None }))), vec![]);
    client.handle_socket_data((host, bytes_of(&ServerEvent::Joined { client_id: Some(ClientId(2)) })));
    assert_eq!(
        client.handle_socket_data((host, bytes_of(&snapshot))),
        vec![ClientAction::Deliver { event: snapshot }]
    );
}

#[test]
fn strangers_are_discarded_whatever_they_send() {
    let host = addr(1, 8080);
    let stranger = addr(2, 8080);
    let mut client = joined_client(host, 3);
    let payloads = vec![
        bytes_of(&ServerEvent::Joined { client_id: Some(ClientId(99)) }),
        bytes_of(&ServerEvent::Joined { client_id: None }),
        bytes_of(&ServerEvent::WorldSnapshot { snapshot: vec![1] }),
        bytes_of(&ServerEvent::AddedPlayer { entity: EntityId(1), client: ClientId(3) }),
        vec![0xde, 0xad],
        vec![],
    ];
    for bytes in payloads {
        assert_eq!(client.handle_socket_data((stranger, bytes.clone())), vec![]);
        assert_eq!(client.handle_socket_data((addr(1, 8081), bytes)), vec![]);
        assert_eq!(client.host_addr(), Some(host));
        assert_eq!(client.client_id(), Some(ClientId(3)));
    }
}

#[test]
fn stranger_cannot_finish_the_handshake() {
    let host = addr(1, 8080);
    let mut client = ClientNetworkHandler::new();
    client.handle_socket_data((host, bytes_of(&ServerEvent::Joined { client_id: None })));
    let spoof = ServerEvent::Joined { client_id: Some(ClientId(66)) };
    assert_eq!(client.handle_socket_data((addr(7, 7), bytes_of(&spoof))), vec![]);
    assert_eq!(client.handle_joined(addr(7, 7), spoof), vec![]);
    assert_eq!(client.client_id(), None);
}

#[test]
fn host_events_are_delivered_after_the_handshake() {
    let host = addr(1, 8080);
    let mut client = joined_client(host, 3);
    let added = ServerEvent::AddedPlayer { entity: EntityId(8), client: ClientId(3) };
    assert_eq!(
        client.handle_socket_data((host, bytes_of(&added))),
        vec![ClientAction::Deliver { event: added }]
    );
    let again = ServerEvent::Joined { client_id: Some(ClientId(5)) };
    assert_eq!(
        client.handle_socket_data((host, bytes_of(&again))),
        vec![ClientAction::Deliver { event: again }]
    );
    assert_eq!(client.client_id(), Some(ClientId(5)));
    assert_eq!(client.handle_socket_data((host, vec![9, 9, 9])), vec![]);
}

#[test]
fn handle_joined_ignores_other_events() {
    let host = addr(1, 8080);
    let mut client = ClientNetworkHandler::new();
    assert_eq!(client.handle_joined(host, ServerEvent::WorldSnapshot { snapshot: vec![] }), vec![]);
    assert_eq!(client.host_addr(), None);
}

#[test]
fn requests_wait_for_a_host() {
    let client = ClientNetworkHandler::new();
    assert_eq!(client.send_request(ClientRequest::Add), vec![]);
    assert_eq!(client.heartbeat(), vec![]);
    assert_eq!(client.handle_client_request(ClientMessage::new(Some(ClientId(1)), ClientRequest::Add)), vec![]);
}

#[test]
fn requests_carry_the_known_identity() {
    let host = addr(1, 8080);
    let mut client = ClientNetworkHandler::new();
    client.init_host_addr(host);
    assert_eq!(client.host_addr(), Some(host));
    assert_eq!(
        client.send_request(ClientRequest::Join),
        vec![ClientAction::Send { addr: host, bytes: vec![0, 0] }]
    );
    let client = joined_client(host, 7);
    assert_eq!(
        client.send_request(ClientRequest::Add),
        vec![ClientAction::Send { addr: host, bytes: vec![1, 0, 0, 0, 7, 2] }]
    );
    assert_eq!(
        client.heartbeat(),
        vec![ClientAction::Send { addr: host, bytes: vec![1, 0, 0, 0, 7, 1] }]
    );
    let other = ClientMessage::new(Some(ClientId(2)), ClientRequest::Remove { id: EntityId(1) });
    assert_eq!(
        client.handle_client_request(other),
        vec![ClientAction::Send { addr: host, bytes: other.encode() }]
    );
}

#[test]
fn heartbeat_timer_fires_after_a_whole_period() {
    assert_eq!(HEARTBEAT_PERIOD_MS, 5000);
    let mut timer = Heartbeat::new(HEARTBEAT_PERIOD_MS, 1000);
    assert!(!timer.tick(1000));
    assert!(!timer.tick(5999));
    assert_eq!(timer, Heartbeat { interval: 5000, last_sent: 1000 });
    assert!(timer.tick(6000));
    assert_eq!(timer, Heartbeat { interval: 5000, last_sent: 6000 });
    assert!(!timer.tick(6001));
    assert!(!timer.tick(10));
    assert!(timer.tick(u64::MAX));
    assert_eq!(timer.last_sent, u64::MAX);
}

#[test]
fn heartbeat_timer_with_no_period_always_fires() {
    let mut timer = Heartbeat::new(0, 50);
    assert!(timer.tick(50));
    assert!(timer.tick(10));
    assert_eq!(timer.last_sent, 10);
}
