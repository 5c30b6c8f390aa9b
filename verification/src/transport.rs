//! Types shared by the client- and server-side transports: peer addresses,
//! receive failures, planned transmissions, and the envelope every sender
//! wraps around a payload.

use vstd::prelude::*;

use crate::codec::{serialize_message, spec_deserialize, spec_serialize};
use crate::game_message::{ContentModel, GameMessage, GameMessageType, MessageModel,
    ProcessingDuration};

verus! {

/// A peer's socket address: the IP as an integer (at most 32 bits of it used
/// when `is_ipv6` is false) and the port.
#[derive(Clone, Copy, Debug, Hash, PartialEq, Eq, Structural)]
pub struct PeerAddress {
    pub ip: u128,
    pub port: u16,
    pub is_ipv6: bool,
}

/// Why one receive attempt failed. The offending datagram is dropped as a
/// single unit; "no datagram pending" is not an error but `Ok(None)`.
#[derive(Clone, Copy, Debug, PartialEq, Eq, Structural)]
pub enum ReceiveError {
    /// The datagram held no well-formed envelope.
    MalformedMessage,
    /// The datagram is larger than the receive buffer sized at construction.
    DatagramTooLarge,
}

/// One datagram to put on the wire: the bytes and where to send them.
#[derive(Clone, Debug)]
pub struct Transmission {
    pub target: PeerAddress,
    pub datagram: Vec<u8>,
}

/// Why one queued datagram fails a receive attempt, if it does: too large
/// for the receive buffer, or no well-formed envelope.
pub open spec fn spec_datagram_fault(d: Seq<u8>, capacity: nat) -> Option<ReceiveError> {
    if d.len() > capacity {
        Some(ReceiveError::DatagramTooLarge)
    } else if spec_deserialize(d) is None {
        Some(ReceiveError::MalformedMessage)
    } else {
        None
    }
}

/// The envelope every sender currently builds: sequence and acknowledgement
/// fields zero (they are a protocol extension point, populated by no sender
/// yet), carrying the given payload.
pub open spec fn spec_envelope_with(c: ContentModel) -> MessageModel {
    MessageModel {
        sequence_index: 0,
        last_received_sequence_index: 0,
        acknowledge_mask: 0,
        processing_duration: ProcessingDuration { secs: 0, nanos: 0 },
        content: c,
    }
}

/// The wire bytes every sender produces for the given payload.
pub open spec fn spec_datagram_for(c: ContentModel) -> Seq<u8> {
    spec_serialize(spec_envelope_with(c))
}

/// Wraps a payload in a fresh envelope.
pub fn build_message(message_content: GameMessageType) -> (m: GameMessage)
    ensures
        m@ == spec_envelope_with(message_content@),
{
    GameMessage {
        sequence_index: 0,
        last_received_sequence_index: 0,
        acknowledge_mask: 0,
        processing_duration: ProcessingDuration::zero(),
        content: message_content,
    }
}

/// Wraps a payload in a fresh envelope and serializes it: the one datagram a
/// send of this payload puts on the wire.
pub fn build_datagram(message_content: GameMessageType) -> (r: Vec<u8>)
    ensures
        r@ == spec_datagram_for(message_content@),
{
    let message = build_message(message_content);
    serialize_message(&message)
}

} // verus!
