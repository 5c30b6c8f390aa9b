use netsync::codec::serialize_message;
use netsync::game_message::{ClientInputData, GameMessage, GameMessageType, ProcessingDuration,
    ServerGameStateSnapshotData};
use netsync::transport::{build_datagram, PeerAddress, ReceiveError};
use netsync::udp_client::{client_receive, client_send_input, client_tick, UdpManager};

fn envelope(content: GameMessageType) -> GameMessage {
    GameMessage {
        sequence_index: 0,
        last_received_sequence_index: 0,
        acknowledge_mask: 0,
        processing_duration: ProcessingDuration { secs: 0, nanos: 0 },
        content,
    }
}

fn snapshot_datagram(ids: Vec<u8>) -> Vec<u8> {
    let snapshot = ServerGameStateSnapshotData {
        player_ids: ids,
        player_positions: vec![],
        player_rotations: vec![],
    };
    serialize_message(&envelope(GameMessageType::ServerGameStateSnapshot(snapshot)))
}

#[test]
fn new_manager_is_empty_and_unconnected() {
    let manager = UdpManager::new(1024, true);
    assert_eq!(manager.pending_datagram_count(), 0);
    assert_eq!(manager.buffer_byte_size(), 1024);
    assert!(manager.socket_nonblocking());
    assert!(manager.target_address().is_none());
}

#[test]
fn connect_fixes_the_target() {
    let mut manager = UdpManager::new(1024, true);
    let server = PeerAddress { ip: 0x7f000001, port: 8311, is_ipv6: false };
    manager.connect(server);
    assert_eq!(manager.target_address(), Some(server));
}

#[test]
fn send_builds_a_zeroed_envelope() {
    let manager = UdpManager::new(1024, true);
    let bytes = manager.send(GameMessageType::ClientLoading);
    let mut expected = vec![0u8; 26];
    expected[22] = 2; // tag: ClientLoading
    assert_eq!(bytes, expected);
}

#[test]
fn client_send_input_builds_one_input_datagram() {
    let manager = UdpManager::new(1024, true);
    let input = ClientInputData {
        move_forward: true,
        move_left: false,
        move_back: false,
        move_right: false,
    };
    let bytes = client_send_input(&manager, input);
    assert_eq!(bytes, build_datagram(GameMessageType::ClientInput(input)));
    let mut expected = vec![0u8; 22];
    expected.extend_from_slice(&[4, 0, 0, 0]); // tag: ClientInput
    expected.extend_from_slice(&[0, 0, 1, 0]); // left, right, forward, back
    assert_eq!(bytes, expected);
}

#[test]
fn drain_returns_some_per_datagram_then_none() {
    // M queued datagrams: exactly M receive calls return Some, the M+1th
    // returns None.
    let m = 5;
    let mut manager = UdpManager::new(1024, true);
    for i in 0..m {
        manager.enqueue_datagram(snapshot_datagram(vec![i as u8]));
    }
    for i in 0..m {
        let received = manager.receive().unwrap();
        let message = received.expect("a queued datagram must parse as Some");
        match message.content {
            GameMessageType::ServerGameStateSnapshot(s) => {
                assert_eq!(s.player_ids, vec![i as u8]);
            }
            _ => panic!("wrong variant"),
        }
    }
    assert!(manager.receive().unwrap().is_none());
    assert_eq!(manager.pending_datagram_count(), 0);
}

#[test]
fn tick_consumes_all_and_sends_exactly_once() {
    let m = 4;
    let mut manager = UdpManager::new(1024, true);
    for i in 0..m {
        manager.enqueue_datagram(snapshot_datagram(vec![i as u8]));
    }
    // One non-snapshot payload in between: dispatched and discarded.
    manager.enqueue_datagram(serialize_message(&envelope(GameMessageType::ClientEntered)));
    let input = ClientInputData {
        move_forward: false,
        move_left: true,
        move_back: false,
        move_right: false,
    };
    let outcome = client_tick(&mut manager, input).unwrap();
    assert_eq!(outcome.received_count, m + 1);
    assert_eq!(outcome.snapshots.len(), m);
    for (i, s) in outcome.snapshots.iter().enumerate() {
        assert_eq!(s.player_ids, vec![i as u8]);
    }
    assert_eq!(outcome.outbound, build_datagram(GameMessageType::ClientInput(input)));
    assert_eq!(manager.pending_datagram_count(), 0);
}

#[test]
fn tick_with_empty_queue_still_sends_once() {
    let mut manager = UdpManager::new(1024, true);
    let input = ClientInputData {
        move_forward: false,
        move_left: false,
        move_back: true,
        move_right: true,
    };
    let outcome = client_tick(&mut manager, input).unwrap();
    assert_eq!(outcome.received_count, 0);
    assert!(outcome.snapshots.is_empty());
    assert_eq!(outcome.outbound, build_datagram(GameMessageType::ClientInput(input)));
}

#[test]
fn malformed_datagram_aborts_the_drain() {
    let mut manager = UdpManager::new(1024, true);
    manager.enqueue_datagram(snapshot_datagram(vec![1]));
    manager.enqueue_datagram(vec![0u8; 3]); // shorter than any envelope
    manager.enqueue_datagram(snapshot_datagram(vec![2]));
    let err = client_receive(&mut manager).unwrap_err();
    assert_eq!(err, ReceiveError::MalformedMessage);
    // The failing datagram is consumed; the rest waits for the next tick.
    assert_eq!(manager.pending_datagram_count(), 1);
    let outcome = client_receive(&mut manager).unwrap();
    assert_eq!(outcome.len(), 1);
    assert_eq!(outcome[0].player_ids, vec![2]);
}

#[test]
fn oversized_datagram_is_a_protocol_error() {
    let mut manager = UdpManager::new(30, true);
    manager.enqueue_datagram(snapshot_datagram(vec![1, 2, 3, 4, 5]));
    let err = manager.receive().unwrap_err();
    assert_eq!(err, ReceiveError::DatagramTooLarge);
    assert_eq!(manager.pending_datagram_count(), 0);
}
