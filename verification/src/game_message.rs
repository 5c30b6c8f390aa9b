//! The wire message model: the envelope sent with every datagram and the
//! tagged payload variants it carries.
//!
//! Player positions and rotations travel as raw bit patterns of 32-bit IEEE
//! floats (`u32` values); interpreting them as floats is the caller's
//! business, the protocol only moves the bits.

use vstd::prelude::*;

verus! {

/// Time a sender spent producing a response to the peer's last message,
/// as whole seconds plus a sub-second nanosecond part.
///
/// Every current sender leaves it zero; the field exists on the wire as an
/// extension point.
#[derive(Clone, Copy, Debug, PartialEq, Eq, Structural)]
pub struct ProcessingDuration {
    pub secs: u64,
    pub nanos: u32,
}

impl ProcessingDuration {
    pub fn zero() -> (d: ProcessingDuration)
        ensures
            d == (ProcessingDuration { secs: 0, nanos: 0 }),
    {
        ProcessingDuration { secs: 0, nanos: 0 }
    }
}

/// One tick's directional intent from a client.
#[derive(Clone, Copy, Debug, PartialEq, Eq, Structural)]
pub struct ClientInputData {
    pub move_left: bool,
    pub move_right: bool,
    pub move_forward: bool,
    pub move_back: bool,
}

/// A world snapshot: `player_ids[i]` corresponds to `player_positions[i]`
/// and `player_rotations[i]`. Each coordinate is the bit pattern of a
/// 32-bit float.
#[derive(Clone, Debug)]
pub struct ServerGameStateSnapshotData {
    pub player_ids: Vec<u8>,
    pub player_positions: Vec<(u32, u32, u32)>,
    pub player_rotations: Vec<(u32, u32, u32)>,
}

/// Mathematical model of a snapshot.
#[verifier::ext_equal]
pub ghost struct SnapshotModel {
    pub player_ids: Seq<u8>,
    pub player_positions: Seq<(u32, u32, u32)>,
    pub player_rotations: Seq<(u32, u32, u32)>,
}

impl View for ServerGameStateSnapshotData {
    type V = SnapshotModel;

    open spec fn view(&self) -> SnapshotModel {
        SnapshotModel {
            player_ids: self.player_ids@,
            player_positions: self.player_positions@,
            player_rotations: self.player_rotations@,
        }
    }
}

/// Every payload variant a datagram can carry.
#[derive(Clone, Debug)]
pub enum GameMessageType {
    /// A new client connected to the server.
    ClientConnected,
    /// A client left the server.
    ClientDisconnected,
    /// A client is loading the game assets.
    ClientLoading,
    /// A client entered the game.
    ClientEntered,
    /// One tick's input from a client.
    ClientInput(ClientInputData),
    /// The server's snapshot of the world.
    ServerGameStateSnapshot(ServerGameStateSnapshotData),
}

/// Mathematical model of a payload variant.
#[verifier::ext_equal]
pub ghost enum ContentModel {
    ClientConnected,
    ClientDisconnected,
    ClientLoading,
    ClientEntered,
    ClientInput(ClientInputData),
    ServerGameStateSnapshot(SnapshotModel),
}

impl View for GameMessageType {
    type V = ContentModel;

    open spec fn view(&self) -> ContentModel {
        match self {
            GameMessageType::ClientConnected => ContentModel::ClientConnected,
            GameMessageType::ClientDisconnected => ContentModel::ClientDisconnected,
            GameMessageType::ClientLoading => ContentModel::ClientLoading,
            GameMessageType::ClientEntered => ContentModel::ClientEntered,
            GameMessageType::ClientInput(d) => ContentModel::ClientInput(*d),
            GameMessageType::ServerGameStateSnapshot(s) => ContentModel::ServerGameStateSnapshot(
                s@,
            ),
        }
    }
}

/// The envelope around every transmitted payload. One datagram carries
/// exactly one envelope; no envelope depends on earlier ones having arrived.
#[derive(Clone, Debug)]
pub struct GameMessage {
    /// Consecutive number incrementing with each packet sent
    /// (currently always 0: no sender increments it yet).
    pub sequence_index: u32,
    /// Highest sequence index received from the other socket
    /// (currently always 0).
    pub last_received_sequence_index: u32,
    /// Bitmask recording which of the 16 packets before
    /// `last_received_sequence_index` arrived (currently always 0).
    pub acknowledge_mask: u16,
    /// Time the sender spent before responding (currently always zero).
    pub processing_duration: ProcessingDuration,
    /// The payload.
    pub content: GameMessageType,
}

/// Mathematical model of an envelope.
#[verifier::ext_equal]
pub ghost struct MessageModel {
    pub sequence_index: u32,
    pub last_received_sequence_index: u32,
    pub acknowledge_mask: u16,
    pub processing_duration: ProcessingDuration,
    pub content: ContentModel,
}

impl View for GameMessage {
    type V = MessageModel;

    open spec fn view(&self) -> MessageModel {
        MessageModel {
            sequence_index: self.sequence_index,
            last_received_sequence_index: self.last_received_sequence_index,
            acknowledge_mask: self.acknowledge_mask,
            processing_duration: self.processing_duration,
            content: self.content@,
        }
    }
}

} // verus!
