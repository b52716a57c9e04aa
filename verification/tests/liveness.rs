use netsession::network::address::SocketAddress;
use netsession::network::clientid::ClientId;
use netsession::network::clientrequest::{ClientMessage, ClientRequest};
use netsession::network::networkhandler::{HostAction, NetworkHandler};
use netsession::network::serverevent::ServerEvent;
use netsession::network::ttlmanager::{TTLManager, TICK_PERIOD_MS, TTL_THRESHOLD};

fn addr(last: u32) -> SocketAddress {
    SocketAddress::V4 { octets: 0x0a00_0000 + last, port: 7000 }
}

#[test]
fn new_identity_enters_with_silence_zero() {
    let mut tracker = TTLManager::new(60);
    assert_eq!(tracker.threshold(), 60);
    assert_eq!(tracker.len(), 0);
    assert_eq!(tracker.silence_of(ClientId(1)), None);
    tracker.track(ClientId(1));
    assert_eq!(tracker.silence_of(ClientId(1)), Some(0));
    assert_eq!(tracker.len(), 1);
}

#[test]
fn each_tick_adds_exactly_one() {
    let mut tracker = TTLManager::new(60);
    tracker.track(ClientId(1));
    for n in 1..=10u32 {
        assert_eq!(tracker.tick_death(), vec![]);
        assert_eq!(tracker.silence_of(ClientId(1)), Some(n));
    }
    tracker.track(ClientId(2));
    assert_eq!(tracker.tick_death(), vec![]);
    assert_eq!(tracker.silence_of(ClientId(1)), Some(11));
    assert_eq!(tracker.silence_of(ClientId(2)), Some(1));
}

#[test]
fn scenario_b_heartbeat_every_tick_never_dies() {
    let mut tracker = TTLManager::new(60);
    tracker.track(ClientId(1));
    for _ in 0..200 {
        tracker.reset(ClientId(1));
        assert_eq!(tracker.tick_death(), vec![]);
        assert_eq!(tracker.silence_of(ClientId(1)), Some(1));
    }
}

#[test]
fn scenario_c_silence_past_the_threshold_is_one_death() {
    let a = addr(1);
    let b = addr(2);
    let mut host = NetworkHandler::new();
    let mut tracker = TTLManager::new(60);
    let join = ClientMessage::new(None, ClientRequest::Join).encode();
    for peer in [a, b] {
        for action in host.handle_socket_data((peer, join.clone())) {
            if let HostAction::Track { client } = action {
                tracker.track(client);
            }
        }
    }
    assert_eq!(host.client_of(b), Some(ClientId(2)));

    let idle = ClientMessage::new(Some(ClientId(1)), ClientRequest::Idle).encode();
    let mut deaths: Vec<ClientId> = Vec::new();
    for tick in 1..=61u32 {
        for action in host.handle_socket_data((a, idle.clone())) {
            if let HostAction::Reset { client } = action {
                tracker.reset(client);
            }
        }
        let dead = tracker.tick_death();
        if tick <= 60 {
            assert_eq!(dead, vec![]);
            assert_eq!(tracker.silence_of(ClientId(2)), Some(tick));
        }
        for id in dead {
            deaths.push(id);
            host.handle_client_died(id);
        }
    }
    assert_eq!(deaths, vec![ClientId(2)]);
    assert_eq!(tracker.silence_of(ClientId(2)), None);
    assert_eq!(tracker.silence_of(ClientId(1)), Some(1));

    let event = ServerEvent::WorldSnapshot { snapshot: vec![1] };
    let bytes = event.encode().unwrap();
    assert_eq!(
        host.handle_server_event(event.clone()),
        vec![HostAction::Send { addr: a, bytes }, HostAction::Local { event }]
    );
    for _ in 0..100 {
        tracker.reset(ClientId(1));
        assert_eq!(tracker.tick_death(), vec![]);
    }
}

#[test]
fn death_comes_on_the_tick_that_exceeds_the_threshold_and_not_before() {
    for threshold in [0u32, 1, 2, 5, 60] {
        let mut tracker = TTLManager::new(threshold);
        tracker.track(ClientId(8));
        for n in 1..=threshold {
            assert_eq!(tracker.tick_death(), vec![]);
            assert_eq!(tracker.silence_of(ClientId(8)), Some(n));
        }
        assert_eq!(tracker.tick_death(), vec![ClientId(8)]);
        assert_eq!(tracker.silence_of(ClientId(8)), None);
        assert_eq!(tracker.tick_death(), vec![]);
    }
}

#[test]
fn largest_threshold_does_not_overflow() {
    let mut tracker = TTLManager::new(u32::MAX);
    tracker.track(ClientId(1));
    for n in 1..=1000u32 {
        assert_eq!(tracker.tick_death(), vec![]);
        assert_eq!(tracker.silence_of(ClientId(1)), Some(n));
    }
}

#[test]
fn reset_sets_the_silence_back_to_zero() {
    let mut tracker = TTLManager::new(3);
    tracker.track(ClientId(1));
    tracker.track(ClientId(2));
    tracker.tick_death();
    tracker.tick_death();
    tracker.reset(ClientId(1));
    assert_eq!(tracker.silence_of(ClientId(1)), Some(0));
    assert_eq!(tracker.silence_of(ClientId(2)), Some(2));
    assert_eq!(tracker.tick_death(), vec![]);
    assert_eq!(tracker.tick_death(), vec![ClientId(2)]);
    assert_eq!(tracker.silence_of(ClientId(1)), Some(2));
}

#[test]
fn dead_identity_is_not_resurrected_by_a_reset() {
    let mut tracker = TTLManager::new(0);
    tracker.track(ClientId(5));
    assert_eq!(tracker.tick_death(), vec![ClientId(5)]);
    tracker.reset(ClientId(5));
    assert_eq!(tracker.silence_of(ClientId(5)), None);
    assert_eq!(tracker.len(), 0);
    assert_eq!(tracker.tick_death(), vec![]);
    tracker.reset(ClientId(77));
    assert_eq!(tracker.len(), 0);
}

#[test]
fn tracking_twice_keeps_one_counter() {
    let mut tracker = TTLManager::new(10);
    tracker.track(ClientId(1));
    tracker.tick_death();
    tracker.track(ClientId(1));
    assert_eq!(tracker.len(), 1);
    assert_eq!(tracker.silence_of(ClientId(1)), Some(0));
}

#[test]
fn deaths_come_in_the_order_of_entry() {
    let mut tracker = TTLManager::new(1);
    for id in [4u32, 2, 9] {
        tracker.track(ClientId(id));
    }
    tracker.tick_death();
    tracker.reset(ClientId(2));
    assert_eq!(tracker.tick_death(), vec![ClientId(4), ClientId(9)]);
    assert_eq!(tracker.len(), 1);
    assert_eq!(tracker.tick_death(), vec![ClientId(2)]);
}

#[test]
fn a_client_is_given_a_minute_of_silence() {
    assert_eq!(TTL_THRESHOLD, 60);
    assert_eq!(TICK_PERIOD_MS, 1000);
    let mut tracker = TTLManager::new(TTL_THRESHOLD);
    tracker.track(ClientId(1));
    for _ in 0..60 {
        assert_eq!(tracker.tick_death(), vec![]);
    }
    assert_eq!(tracker.tick_death(), vec![ClientId(1)]);
}
