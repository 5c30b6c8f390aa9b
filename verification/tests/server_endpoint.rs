use netsync::game_message::{ClientInputData, GameMessageType, ServerGameStateSnapshotData};
use netsync::transport::{build_datagram, PeerAddress, ReceiveError};
use netsync::udp_client::UdpManager;
use netsync::udp_server::{server_tick, UdpServer, UdpServerBuilder};

fn address(last_octet: u8, port: u16) -> PeerAddress {
    PeerAddress { ip: 0x7f000000u128 + last_octet as u128, port, is_ipv6: false }
}

fn input_datagram(forward: bool) -> Vec<u8> {
    build_datagram(GameMessageType::ClientInput(ClientInputData {
        move_forward: forward,
        move_left: false,
        move_back: false,
        move_right: false,
    }))
}

fn empty_snapshot() -> ServerGameStateSnapshotData {
    ServerGameStateSnapshotData {
        player_ids: vec![],
        player_positions: vec![],
        player_rotations: vec![],
    }
}

fn server_with_buffer(buffer: usize) -> UdpServer {
    UdpServerBuilder::new().message_buffer_byte_size(buffer).build()
}

#[test]
fn builder_defaults() {
    let server = UdpServerBuilder::new().build();
    assert_eq!(server.local_address(), PeerAddress { ip: 0x7f000001, port: 8311, is_ipv6: false });
    assert_eq!(server.buffer_byte_size(), 1500);
    assert_eq!(server.client_capacity(), 32);
    assert!(server.socket_nonblocking());
    assert_eq!(server.peer_count(), 0);
    assert_eq!(server.pending_datagram_count(), 0);
}

#[test]
fn builder_setters() {
    let bind = address(7, 9000);
    let server = UdpServerBuilder::new()
        .bind_address(bind)
        .message_buffer_byte_size(4096)
        .client_max_count(8)
        .nonblocking(false)
        .build();
    assert_eq!(server.local_address(), bind);
    assert_eq!(server.buffer_byte_size(), 4096);
    assert_eq!(server.client_capacity(), 8);
    assert!(!server.socket_nonblocking());
}

#[test]
fn registry_grows_once_per_distinct_address() {
    // N datagrams from N distinct addresses: exactly N entries, first-seen
    // order; repeats do not grow the registry.
    let n = 6;
    let mut server = server_with_buffer(1500);
    for i in 0..n {
        server.enqueue_datagram(address(i as u8 + 1, 5000), input_datagram(true));
    }
    for _ in 0..n {
        let received = server.receive().unwrap();
        assert!(received.is_some());
    }
    assert_eq!(server.peer_count(), n);
    for i in 0..n {
        assert_eq!(server.peer_at(i), address(i as u8 + 1, 5000));
    }
    // Repeats from already-seen addresses.
    server.enqueue_datagram(address(3, 5000), input_datagram(false));
    server.enqueue_datagram(address(1, 5000), input_datagram(false));
    assert!(server.receive().unwrap().is_some());
    assert!(server.receive().unwrap().is_some());
    assert_eq!(server.peer_count(), n);
}

#[test]
fn same_ip_different_port_is_a_distinct_peer() {
    let mut server = server_with_buffer(1500);
    server.enqueue_datagram(address(1, 5000), input_datagram(true));
    server.enqueue_datagram(address(1, 5001), input_datagram(true));
    assert!(server.receive().unwrap().is_some());
    assert!(server.receive().unwrap().is_some());
    assert_eq!(server.peer_count(), 2);
}

#[test]
fn send_targets_one_registered_peer() {
    let mut server = server_with_buffer(1500);
    server.enqueue_datagram(address(1, 5000), input_datagram(true));
    server.enqueue_datagram(address(2, 5001), input_datagram(true));
    assert!(server.receive().unwrap().is_some());
    assert!(server.receive().unwrap().is_some());
    let t = server.send(1, GameMessageType::ClientEntered);
    assert_eq!(t.target, address(2, 5001));
    assert_eq!(t.datagram, build_datagram(GameMessageType::ClientEntered));
}

#[test]
fn send_to_all_reaches_every_peer_exactly_once() {
    // K registered peers: exactly K transmissions, each to a distinct
    // registered peer, whatever the payload.
    let k = 5;
    let mut server = server_with_buffer(1500);
    for i in 0..k {
        server.enqueue_datagram(address(i as u8 + 1, 6000), input_datagram(false));
        assert!(server.receive().unwrap().is_some());
    }
    let payload = GameMessageType::ServerGameStateSnapshot(empty_snapshot());
    let expected_bytes = build_datagram(GameMessageType::ServerGameStateSnapshot(
        empty_snapshot(),
    ));
    let transmissions = server.send_to_all(payload);
    assert_eq!(transmissions.len(), k);
    for (i, t) in transmissions.iter().enumerate() {
        assert_eq!(t.target, address(i as u8 + 1, 6000));
        assert_eq!(t.datagram, expected_bytes);
        for other in transmissions.iter().skip(i + 1) {
            assert_ne!(t.target, other.target);
        }
    }
}

#[test]
fn send_to_all_with_no_peers_sends_nothing() {
    let server = server_with_buffer(1500);
    let transmissions = server.send_to_all(GameMessageType::ClientConnected);
    assert!(transmissions.is_empty());
}

#[test]
fn one_client_input_reaches_one_peer_broadcast() {
    // A client sends one forward input; the server has that one registered
    // peer and its next broadcast goes to it and to no one else.
    let client_address = address(10, 8310);
    let client = UdpManager::new(1024, true);
    let input = ClientInputData {
        move_forward: true,
        move_left: false,
        move_back: false,
        move_right: false,
    };
    let datagram = client.send(GameMessageType::ClientInput(input));

    let mut server = server_with_buffer(1500);
    server.enqueue_datagram(client_address, datagram);
    let outcome = server_tick(&mut server, empty_snapshot()).unwrap();
    assert_eq!(outcome.received_count, 1);
    assert_eq!(outcome.received.len(), 1);
    match &outcome.received[0].content {
        GameMessageType::ClientInput(d) => assert_eq!(*d, input),
        _ => panic!("wrong variant"),
    }
    assert_eq!(outcome.transmissions.len(), 1);
    assert_eq!(outcome.transmissions[0].target, client_address);
    assert_eq!(
        outcome.transmissions[0].datagram,
        build_datagram(GameMessageType::ServerGameStateSnapshot(empty_snapshot()))
    );
}

#[test]
fn unrecognized_tag_still_registers_the_sender() {
    // A datagram with an unrecognized payload tag: receive fails with
    // MalformedMessage, but the sender was already added for having sent
    // anything at all, and nothing else grew.
    let mut server = server_with_buffer(1500);
    server.enqueue_datagram(address(1, 7000), input_datagram(true));
    assert!(server.receive().unwrap().is_some());
    assert_eq!(server.peer_count(), 1);

    let mut bad = vec![0u8; 26];
    bad[22] = 9; // no payload variant has this tag
    server.enqueue_datagram(address(2, 7001), bad);
    let err = server.receive().unwrap_err();
    assert_eq!(err, ReceiveError::MalformedMessage);
    assert_eq!(server.peer_count(), 2);
    assert_eq!(server.peer_at(1), address(2, 7001));
}

#[test]
fn two_clients_in_one_tick_both_get_the_broadcast() {
    // Two clients send from different local addresses into the same server
    // tick: after one drain cycle the registry has 2 entries and both get
    // the next broadcast.
    let first = address(21, 8310);
    let second = address(22, 8312);
    let mut server = server_with_buffer(1500);
    server.enqueue_datagram(first, input_datagram(true));
    server.enqueue_datagram(second, input_datagram(false));
    let outcome = server_tick(&mut server, empty_snapshot()).unwrap();
    assert_eq!(server.peer_count(), 2);
    assert_eq!(outcome.received.len(), 2);
    assert_eq!(outcome.transmissions.len(), 2);
    assert_eq!(outcome.transmissions[0].target, first);
    assert_eq!(outcome.transmissions[1].target, second);
}

#[test]
fn snapshot_sent_to_the_server_is_discarded() {
    let mut server = server_with_buffer(1500);
    server.enqueue_datagram(
        address(1, 7100),
        build_datagram(GameMessageType::ServerGameStateSnapshot(empty_snapshot())),
    );
    server.enqueue_datagram(address(1, 7100), input_datagram(true));
    let outcome = server_tick(&mut server, empty_snapshot()).unwrap();
    assert_eq!(outcome.received_count, 2);
    assert_eq!(outcome.received.len(), 1);
    match &outcome.received[0].content {
        GameMessageType::ClientInput(_) => {}
        _ => panic!("wrong variant"),
    }
    assert_eq!(server.peer_count(), 1);
}

#[test]
fn server_tick_error_keeps_later_datagrams_and_skips_broadcast() {
    let mut server = server_with_buffer(1500);
    server.enqueue_datagram(address(1, 7200), input_datagram(true));
    server.enqueue_datagram(address(2, 7201), vec![1, 2, 3]);
    server.enqueue_datagram(address(3, 7202), input_datagram(false));
    let err = server_tick(&mut server, empty_snapshot()).unwrap_err();
    assert_eq!(err, ReceiveError::MalformedMessage);
    // Both consumed datagrams registered their senders, the third waits.
    assert_eq!(server.peer_count(), 2);
    assert_eq!(server.pending_datagram_count(), 1);
}
