use netsession::network::address::SocketAddress;
use netsession::network::clientrequest::ClientMessage;
use netsession::network::networkhandler::{HostAction, NetworkHandler};
use netsession::network::networkinfo::NetworkInfo;
use netsession::network::networkmanager::Role;
use netsession::network::socketmanager::{
    Received, SocketData, SocketManager, Turn, DRAIN_LIMIT, PROBE_LEN, RECEIVE_TIMEOUT_MS,
};

fn addr(last: u32, port: u16) -> SocketAddress {
    SocketAddress::V4 { octets: 0x7f00_0000 + last, port }
}

fn queue(n: usize) -> Vec<SocketData> {
    (0..n).map(|k| (addr(k as u32, 1), vec![k as u8, (k >> 8) as u8])).collect()
}

#[test]
fn host_binds_every_interface_at_its_port() {
    let transport = SocketManager::host(8080);
    assert_eq!(transport.bind_addr(), SocketAddress::V4 { octets: 0, port: 8080 });
    assert_eq!(transport.bind_addr().port(), 8080);
    assert_eq!(transport.probe(), None);
    let local = addr(1, 8080);
    assert_eq!(
        transport.network_info(local),
        NetworkInfo::new(true, local, None, vec![])
    );
}

#[test]
fn client_binds_an_ephemeral_port_and_probes_its_host() {
    let host = addr(1, 8080);
    let transport = SocketManager::join(host);
    assert_eq!(transport.bind_addr(), SocketAddress::wildcard(0));
    let (to, bytes) = transport.probe().unwrap();
    assert_eq!(to, host);
    assert_eq!(bytes, b"probe".to_vec());
    assert_eq!(bytes.len(), PROBE_LEN);
    let local = addr(2, 50000);
    assert_eq!(
        transport.network_info(local),
        NetworkInfo::new(false, local, Some(host), vec![])
    );
}

#[test]
fn role_picks_the_bookkeeping() {
    let a = addr(1, 9000);
    assert_eq!(SocketManager::new(Role::Host, a).bind_addr(), SocketAddress::wildcard(9000));
    let client = SocketManager::new(Role::Client, a);
    assert_eq!(client.bind_addr(), SocketAddress::wildcard(0));
    assert_eq!(client.probe().map(|d| d.0), Some(a));
    let v6 = SocketAddress::V6 { segments: 1, port: 77, flowinfo: 0, scope_id: 0 };
    assert_eq!(v6.port(), 77);
    assert_eq!(SocketManager::new(Role::Host, v6).bind_addr(), SocketAddress::wildcard(77));
}

#[test]
fn probe_is_answered_with_a_refusal() {
    let client_addr = addr(2, 50000);
    let (_, probe) = SocketManager::join(addr(1, 8080)).probe().unwrap();
    assert_eq!(ClientMessage::decode(&probe), None);
    let mut host = NetworkHandler::new();
    assert_eq!(
        host.handle_socket_data((client_addr, probe)),
        vec![HostAction::Send { addr: client_addr, bytes: vec![0, 0] }]
    );
}

#[test]
fn peers_are_noted_once() {
    let mut transport = SocketManager::host(1);
    assert!(transport.poll(addr(1, 1)));
    assert!(transport.poll(addr(2, 1)));
    assert!(!transport.poll(addr(1, 1)));
    assert!(transport.poll(addr(1, 2)));
    let info = transport.network_info(addr(0, 1));
    assert_eq!(info.connected_peers, vec![addr(1, 1), addr(2, 1), addr(1, 2)]);
    assert!(info.is_host);
}

#[test]
fn shutdown_stops_the_loop_and_moves_nothing() {
    let mut transport = SocketManager::host(1);
    let mut outbound = queue(3);
    let turn = transport.turn(true, Received::Datagram { data: (addr(5, 5), vec![1]) }, &mut outbound);
    assert_eq!(turn, Turn { stop: true, inbound: None, writes: vec![] });
    assert_eq!(outbound, queue(3));
    assert_eq!(transport.network_info(addr(0, 1)).connected_peers, vec![]);
}

#[test]
fn a_turn_moves_one_datagram_in_and_the_queue_out() {
    let mut transport = SocketManager::host(1);
    let mut outbound = queue(3);
    let data = (addr(5, 5), vec![1, 2, 3]);
    let turn = transport.turn(false, Received::Datagram { data: data.clone() }, &mut outbound);
    assert_eq!(turn, Turn { stop: false, inbound: Some(data), writes: queue(3) });
    assert_eq!(outbound, vec![]);
    assert_eq!(transport.network_info(addr(0, 1)).connected_peers, vec![addr(5, 5)]);
}

#[test]
fn a_wait_without_a_datagram_still_drains() {
    let mut transport = SocketManager::host(1);
    for received in [Received::TimedOut, Received::Failed] {
        let mut outbound = queue(2);
        let turn = transport.turn(false, received, &mut outbound);
        assert_eq!(turn, Turn { stop: false, inbound: None, writes: queue(2) });
        assert_eq!(outbound, vec![]);
    }
    let mut empty: Vec<SocketData> = Vec::new();
    let turn = transport.turn(false, Received::TimedOut, &mut empty);
    assert_eq!(turn, Turn { stop: false, inbound: None, writes: vec![] });
}

#[test]
fn a_turn_writes_no_more_than_the_limit_and_keeps_the_order() {
    let mut transport = SocketManager::host(1);
    let all = queue(DRAIN_LIMIT * 2 + 5);
    let mut outbound = queue(DRAIN_LIMIT * 2 + 5);
    let turn = transport.turn(false, Received::TimedOut, &mut outbound);
    assert_eq!(turn.writes, all[..DRAIN_LIMIT].to_vec());
    assert_eq!(outbound, all[DRAIN_LIMIT..].to_vec());
    let turn = transport.turn(false, Received::TimedOut, &mut outbound);
    assert_eq!(turn.writes, all[DRAIN_LIMIT..2 * DRAIN_LIMIT].to_vec());
    let turn = transport.turn(false, Received::TimedOut, &mut outbound);
    assert_eq!(turn.writes, all[2 * DRAIN_LIMIT..].to_vec());
    assert_eq!(outbound, vec![]);
}

#[test]
fn a_turn_stays_within_tens_of_milliseconds() {
    assert!(RECEIVE_TIMEOUT_MS >= 1);
    assert!(RECEIVE_TIMEOUT_MS < 100);
    assert_eq!(DRAIN_LIMIT, 64);
}
