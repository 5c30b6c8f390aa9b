use netsync::codec::{deserialize_message, serialize_message, MessageError,
    MIN_DATAGRAM_BYTE_LEN};
use netsync::game_message::{ClientInputData, GameMessage, GameMessageType, ProcessingDuration,
    ServerGameStateSnapshotData};

fn envelope(content: GameMessageType) -> GameMessage {
    GameMessage {
        sequence_index: 0,
        last_received_sequence_index: 0,
        acknowledge_mask: 0,
        processing_duration: ProcessingDuration { secs: 0, nanos: 0 },
        content,
    }
}

#[test]
fn serialize_client_connected_golden_bytes() {
    let bytes = serialize_message(&envelope(GameMessageType::ClientConnected));
    assert_eq!(bytes, vec![0u8; 26]);
}

#[test]
fn serialize_header_fields_golden_bytes() {
    let message = GameMessage {
        sequence_index: 7,
        last_received_sequence_index: 0x01020304,
        acknowledge_mask: 0xBEEF,
        processing_duration: ProcessingDuration { secs: 2, nanos: 5 },
        content: GameMessageType::ClientDisconnected,
    };
    let bytes = serialize_message(&message);
    let expected: Vec<u8> = vec![
        7, 0, 0, 0, // sequence_index
        0x04, 0x03, 0x02, 0x01, // last_received_sequence_index
        0xEF, 0xBE, // acknowledge_mask
        2, 0, 0, 0, 0, 0, 0, 0, // processing_duration.secs
        5, 0, 0, 0, // processing_duration.nanos
        1, 0, 0, 0, // tag: ClientDisconnected
    ];
    assert_eq!(bytes, expected);
}

#[test]
fn serialize_client_input_golden_bytes() {
    let input = ClientInputData {
        move_left: true,
        move_right: false,
        move_forward: true,
        move_back: false,
    };
    let bytes = serialize_message(&envelope(GameMessageType::ClientInput(input)));
    let mut expected = vec![0u8; 22];
    expected.extend_from_slice(&[4, 0, 0, 0]); // tag: ClientInput
    expected.extend_from_slice(&[1, 0, 1, 0]); // left, right, forward, back
    assert_eq!(bytes, expected);
}

#[test]
fn serialize_snapshot_golden_bytes() {
    let snapshot = ServerGameStateSnapshotData {
        player_ids: vec![3, 9],
        player_positions: vec![(1.0f32.to_bits(), 2.0f32.to_bits(), 3.0f32.to_bits())],
        player_rotations: vec![],
    };
    let bytes = serialize_message(&envelope(GameMessageType::ServerGameStateSnapshot(snapshot)));
    let mut expected = vec![0u8; 22];
    expected.extend_from_slice(&[5, 0, 0, 0]); // tag: ServerGameStateSnapshot
    expected.extend_from_slice(&[2, 0, 0, 0, 0, 0, 0, 0]); // two player ids
    expected.extend_from_slice(&[3, 9]);
    expected.extend_from_slice(&[1, 0, 0, 0, 0, 0, 0, 0]); // one position triple
    expected.extend_from_slice(&[0x00, 0x00, 0x80, 0x3F]); // 1.0f32
    expected.extend_from_slice(&[0x00, 0x00, 0x00, 0x40]); // 2.0f32
    expected.extend_from_slice(&[0x00, 0x00, 0x40, 0x40]); // 3.0f32
    expected.extend_from_slice(&[0, 0, 0, 0, 0, 0, 0, 0]); // no rotation triples
    assert_eq!(bytes, expected);
}

#[test]
fn round_trip_lifecycle_variants() {
    let variants = vec![
        GameMessageType::ClientConnected,
        GameMessageType::ClientDisconnected,
        GameMessageType::ClientLoading,
        GameMessageType::ClientEntered,
    ];
    for (tag, content) in variants.into_iter().enumerate() {
        let message = GameMessage {
            sequence_index: 11,
            last_received_sequence_index: 22,
            acknowledge_mask: 33,
            processing_duration: ProcessingDuration { secs: 44, nanos: 55 },
            content,
        };
        let bytes = serialize_message(&message);
        assert_eq!(bytes[22], tag as u8);
        let back = deserialize_message(&bytes).unwrap();
        assert_eq!(back.sequence_index, 11);
        assert_eq!(back.last_received_sequence_index, 22);
        assert_eq!(back.acknowledge_mask, 33);
        assert_eq!(back.processing_duration, ProcessingDuration { secs: 44, nanos: 55 });
        match (tag, &back.content) {
            (0, GameMessageType::ClientConnected) => {}
            (1, GameMessageType::ClientDisconnected) => {}
            (2, GameMessageType::ClientLoading) => {}
            (3, GameMessageType::ClientEntered) => {}
            _ => panic!("wrong variant after round trip"),
        }
    }
}

#[test]
fn round_trip_client_input() {
    let input = ClientInputData {
        move_left: false,
        move_right: true,
        move_forward: false,
        move_back: true,
    };
    let bytes = serialize_message(&envelope(GameMessageType::ClientInput(input)));
    let back = deserialize_message(&bytes).unwrap();
    match back.content {
        GameMessageType::ClientInput(d) => assert_eq!(d, input),
        _ => panic!("wrong variant after round trip"),
    }
}

#[test]
fn round_trip_snapshot() {
    let snapshot = ServerGameStateSnapshotData {
        player_ids: vec![1, 2, 3],
        player_positions: vec![
            (1.5f32.to_bits(), (-2.5f32).to_bits(), 0.0f32.to_bits()),
            (100.0f32.to_bits(), 200.0f32.to_bits(), 300.0f32.to_bits()),
            (0.25f32.to_bits(), 0.5f32.to_bits(), 0.75f32.to_bits()),
        ],
        player_rotations: vec![
            (0.0f32.to_bits(), 3.14f32.to_bits(), (-1.0f32).to_bits()),
            (7.0f32.to_bits(), 8.0f32.to_bits(), 9.0f32.to_bits()),
            (0.0f32.to_bits(), 0.0f32.to_bits(), 0.0f32.to_bits()),
        ],
    };
    let bytes = serialize_message(&envelope(GameMessageType::ServerGameStateSnapshot(
        snapshot.clone(),
    )));
    let back = deserialize_message(&bytes).unwrap();
    match back.content {
        GameMessageType::ServerGameStateSnapshot(s) => {
            assert_eq!(s.player_ids, snapshot.player_ids);
            assert_eq!(s.player_positions, snapshot.player_positions);
            assert_eq!(s.player_rotations, snapshot.player_rotations);
        }
        _ => panic!("wrong variant after round trip"),
    }
}

#[test]
fn round_trip_empty_snapshot() {
    let snapshot = ServerGameStateSnapshotData {
        player_ids: vec![],
        player_positions: vec![],
        player_rotations: vec![],
    };
    let bytes = serialize_message(&envelope(GameMessageType::ServerGameStateSnapshot(snapshot)));
    assert_eq!(bytes.len(), 26 + 24);
    let back = deserialize_message(&bytes).unwrap();
    match back.content {
        GameMessageType::ServerGameStateSnapshot(s) => {
            assert!(s.player_ids.is_empty());
            assert!(s.player_positions.is_empty());
            assert!(s.player_rotations.is_empty());
        }
        _ => panic!("wrong variant after round trip"),
    }
}

#[test]
fn every_short_input_is_rejected() {
    // Every byte sequence shorter than the minimum datagram size (which the
    // envelope header is part of) fails, and never panics.
    for len in 0..MIN_DATAGRAM_BYTE_LEN {
        let bytes = vec![0xA5u8; len];
        assert_eq!(deserialize_message(&bytes).unwrap_err(), MessageError::MalformedMessage);
    }
}

#[test]
fn unrecognized_tag_is_rejected() {
    let mut bytes = vec![0u8; 26];
    bytes[22] = 6; // one past the last payload tag
    assert_eq!(deserialize_message(&bytes).unwrap_err(), MessageError::MalformedMessage);
    bytes[22] = 0xFF;
    assert_eq!(deserialize_message(&bytes).unwrap_err(), MessageError::MalformedMessage);
}

#[test]
fn trailing_bytes_are_rejected() {
    let mut bytes = serialize_message(&envelope(GameMessageType::ClientConnected));
    bytes.push(0);
    assert_eq!(deserialize_message(&bytes).unwrap_err(), MessageError::MalformedMessage);
}

#[test]
fn invalid_bool_byte_is_rejected() {
    let input = ClientInputData {
        move_left: true,
        move_right: true,
        move_forward: true,
        move_back: true,
    };
    let mut bytes = serialize_message(&envelope(GameMessageType::ClientInput(input)));
    bytes[26] = 2;
    assert_eq!(deserialize_message(&bytes).unwrap_err(), MessageError::MalformedMessage);
}

#[test]
fn snapshot_length_mismatch_is_rejected() {
    let snapshot = ServerGameStateSnapshotData {
        player_ids: vec![1],
        player_positions: vec![(0, 0, 0)],
        player_rotations: vec![],
    };
    let good = serialize_message(&envelope(GameMessageType::ServerGameStateSnapshot(snapshot)));
    assert!(deserialize_message(&good).is_ok());

    // Claim more player ids than the datagram holds.
    let mut bytes = good.clone();
    bytes[26] = 0xFF;
    assert_eq!(deserialize_message(&bytes).unwrap_err(), MessageError::MalformedMessage);

    // Drop the final byte of the last triple.
    let mut bytes = good.clone();
    bytes.pop();
    assert_eq!(deserialize_message(&bytes).unwrap_err(), MessageError::MalformedMessage);

    // A snapshot datagram that ends before the id count.
    let mut bytes = good.clone();
    bytes.truncate(30);
    assert_eq!(deserialize_message(&bytes).unwrap_err(), MessageError::MalformedMessage);
}
