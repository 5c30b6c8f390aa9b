//! Binary wire format of the envelope.
//!
//! Layout of one datagram, all integers little-endian and fixed width:
//!
//! | bytes     | field                          |
//! |-----------|--------------------------------|
//! | 0..4      | sequence_index: u32            |
//! | 4..8      | last_received_sequence_index: u32 |
//! | 8..10     | acknowledge_mask: u16          |
//! | 10..18    | processing_duration.secs: u64  |
//! | 18..22    | processing_duration.nanos: u32 |
//! | 22..26    | payload variant tag: u32       |
//! | 26..      | payload fields                 |
//!
//! A `bool` is one byte, 0 or 1. A sequence is a u64 element count followed
//! by its elements. The format is length-implicit, not self-delimiting: the
//! receiver must know this exact layout, and a datagram is accepted or
//! rejected as a single unit.

use vstd::bytes::*;
use vstd::prelude::*;
use vstd::slice::{slice_index_get, slice_subrange, slice_to_vec};

use crate::game_message::{ClientInputData, ContentModel, GameMessage, GameMessageType, MessageModel, ProcessingDuration, ServerGameStateSnapshotData, SnapshotModel};

verus! {

/// Bytes of the envelope header, before the payload tag.
pub const MESSAGE_HEADER_BYTE_LEN: usize = 22;

/// Least number of bytes any well-formed datagram has: the header plus the
/// payload tag.
pub const MIN_DATAGRAM_BYTE_LEN: usize = 26;

pub const TAG_CLIENT_CONNECTED: u32 = 0;

pub const TAG_CLIENT_DISCONNECTED: u32 = 1;

pub const TAG_CLIENT_LOADING: u32 = 2;

pub const TAG_CLIENT_ENTERED: u32 = 3;

pub const TAG_CLIENT_INPUT: u32 = 4;

pub const TAG_SERVER_GAME_STATE_SNAPSHOT: u32 = 5;

/// Deserialization failure: the datagram is dropped as a single unit.
#[derive(Clone, Copy, Debug, PartialEq, Eq, Structural)]
pub enum MessageError {
    /// The byte sequence is shorter than the minimum datagram size, carries
    /// an unrecognized variant tag, or has a length mismatch in a
    /// variable-length field.
    MalformedMessage,
}

pub open spec fn spec_bool_byte(b: bool) -> u8 {
    if b {
        1
    } else {
        0
    }
}

/// Wire bytes of one position or rotation triple.
pub open spec fn spec_triple_bytes(t: (u32, u32, u32)) -> Seq<u8> {
    spec_u32_to_le_bytes(t.0) + spec_u32_to_le_bytes(t.1) + spec_u32_to_le_bytes(t.2)
}

/// Wire bytes of a sequence of triples, in order.
pub open spec fn spec_triples_bytes(ts: Seq<(u32, u32, u32)>) -> Seq<u8>
    decreases ts.len(),
{
    if ts.len() == 0 {
        Seq::<u8>::empty()
    } else {
        spec_triples_bytes(ts.drop_last()) + spec_triple_bytes(ts.last())
    }
}

/// Tag of a payload variant.
pub open spec fn spec_content_tag(c: ContentModel) -> u32 {
    match c {
        ContentModel::ClientConnected => TAG_CLIENT_CONNECTED,
        ContentModel::ClientDisconnected => TAG_CLIENT_DISCONNECTED,
        ContentModel::ClientLoading => TAG_CLIENT_LOADING,
        ContentModel::ClientEntered => TAG_CLIENT_ENTERED,
        ContentModel::ClientInput(_) => TAG_CLIENT_INPUT,
        ContentModel::ServerGameStateSnapshot(_) => TAG_SERVER_GAME_STATE_SNAPSHOT,
    }
}

/// Wire bytes of the payload fields that follow the tag.
pub open spec fn spec_content_field_bytes(c: ContentModel) -> Seq<u8> {
    match c {
        ContentModel::ClientInput(d) => seq![
            spec_bool_byte(d.move_left),
            spec_bool_byte(d.move_right),
            spec_bool_byte(d.move_forward),
            spec_bool_byte(d.move_back),
        ],
        ContentModel::ServerGameStateSnapshot(s) => spec_u64_to_le_bytes(
            s.player_ids.len() as u64,
        ) + s.player_ids + spec_u64_to_le_bytes(s.player_positions.len() as u64)
            + spec_triples_bytes(s.player_positions) + spec_u64_to_le_bytes(
            s.player_rotations.len() as u64,
        ) + spec_triples_bytes(s.player_rotations),
        _ => Seq::<u8>::empty(),
    }
}

/// Wire bytes of a whole envelope.
pub open spec fn spec_serialize(m: MessageModel) -> Seq<u8> {
    spec_u32_to_le_bytes(m.sequence_index) + spec_u32_to_le_bytes(m.last_received_sequence_index)
        + spec_u16_to_le_bytes(m.acknowledge_mask) + spec_u64_to_le_bytes(
        m.processing_duration.secs,
    ) + spec_u32_to_le_bytes(m.processing_duration.nanos) + spec_u32_to_le_bytes(
        spec_content_tag(m.content),
    ) + spec_content_field_bytes(m.content)
}

/// A model all of whose sequences fit the u64 length fields of the wire
/// format. Every envelope built from executable values satisfies it.
pub open spec fn message_model_wf(m: MessageModel) -> bool {
    match m.content {
        ContentModel::ServerGameStateSnapshot(s) => s.player_ids.len() <= u64::MAX
            && s.player_positions.len() <= u64::MAX && s.player_rotations.len() <= u64::MAX,
        _ => true,
    }
}

/// The triple starting at byte `j`.
pub open spec fn spec_triple_at(b: Seq<u8>, j: int) -> (u32, u32, u32) {
    (
        spec_u32_from_le_bytes(b.subrange(j, j + 4)),
        spec_u32_from_le_bytes(b.subrange(j + 4, j + 8)),
        spec_u32_from_le_bytes(b.subrange(j + 8, j + 12)),
    )
}

pub open spec fn spec_byte_bool(x: u8) -> Option<bool> {
    if x == 0 {
        Some(false)
    } else if x == 1 {
        Some(true)
    } else {
        None
    }
}

/// Meaning of the payload part of a datagram: the bytes from offset 26 on,
/// under the tag at 22..26. `None` is a malformed payload.
pub open spec fn spec_deserialize_content(b: Seq<u8>) -> Option<ContentModel> {
    let tag = spec_u32_from_le_bytes(b.subrange(22, 26));
    if tag == TAG_CLIENT_CONNECTED {
        if b.len() == 26 {
            Some(ContentModel::ClientConnected)
        } else {
            None
        }
    } else if tag == TAG_CLIENT_DISCONNECTED {
        if b.len() == 26 {
            Some(ContentModel::ClientDisconnected)
        } else {
            None
        }
    } else if tag == TAG_CLIENT_LOADING {
        if b.len() == 26 {
            Some(ContentModel::ClientLoading)
        } else {
            None
        }
    } else if tag == TAG_CLIENT_ENTERED {
        if b.len() == 26 {
            Some(ContentModel::ClientEntered)
        } else {
            None
        }
    } else if tag == TAG_CLIENT_INPUT {
        if b.len() == 30 {
            let left = spec_byte_bool(b[26]);
            let right = spec_byte_bool(b[27]);
            let forward = spec_byte_bool(b[28]);
            let back = spec_byte_bool(b[29]);
            if left is Some && right is Some && forward is Some && back is Some {
                Some(
                    ContentModel::ClientInput(
                        ClientInputData {
                            move_left: left->Some_0,
                            move_right: right->Some_0,
                            move_forward: forward->Some_0,
                            move_back: back->Some_0,
                        },
                    ),
                )
            } else {
                None
            }
        } else {
            None
        }
    } else if tag == TAG_SERVER_GAME_STATE_SNAPSHOT {
        spec_deserialize_snapshot(b)
    } else {
        None
    }
}

/// Meaning of a snapshot payload: three length-prefixed sequences laid out
/// back to back, filling the datagram exactly.
pub open spec fn spec_deserialize_snapshot(b: Seq<u8>) -> Option<ContentModel> {
    if b.len() < 34 {
        None
    } else {
        let n_ids = spec_u64_from_le_bytes(b.subrange(26, 34)) as int;
        let pos_len_off = 34 + n_ids;
        if b.len() < pos_len_off + 8 {
            None
        } else {
            let n_pos = spec_u64_from_le_bytes(b.subrange(pos_len_off, pos_len_off + 8)) as int;
            let pos_off = pos_len_off + 8;
            let rot_len_off = pos_off + 12 * n_pos;
            if b.len() < rot_len_off + 8 {
                None
            } else {
                let n_rot = spec_u64_from_le_bytes(
                    b.subrange(rot_len_off, rot_len_off + 8),
                ) as int;
                let rot_off = rot_len_off + 8;
                if b.len() == rot_off + 12 * n_rot {
                    Some(
                        ContentModel::ServerGameStateSnapshot(
                            SnapshotModel {
                                player_ids: b.subrange(34, 34 + n_ids),
                                player_positions: Seq::new(
                                    n_pos as nat,
                                    |i: int| spec_triple_at(b, pos_off + 12 * i),
                                ),
                                player_rotations: Seq::new(
                                    n_rot as nat,
                                    |i: int| spec_triple_at(b, rot_off + 12 * i),
                                ),
                            },
                        ),
                    )
                } else {
                    None
                }
            }
        }
    }
}

fn bool_byte(b: bool) -> (r: u8)
    ensures
        r == spec_bool_byte(b),
{
    if b {
        1
    } else {
        0
    }
}

fn push_u16_le(out: &mut Vec<u8>, x: u16)
    ensures
        final(out)@ == old(out)@ + spec_u16_to_le_bytes(x),
{
    let mut b = u16_to_le_bytes(x);
    out.append(&mut b);
}

fn push_u32_le(out: &mut Vec<u8>, x: u32)
    ensures
        final(out)@ == old(out)@ + spec_u32_to_le_bytes(x),
{
    let mut b = u32_to_le_bytes(x);
    out.append(&mut b);
}

fn push_u64_le(out: &mut Vec<u8>, x: u64)
    ensures
        final(out)@ == old(out)@ + spec_u64_to_le_bytes(x),
{
    let mut b = u64_to_le_bytes(x);
    out.append(&mut b);
}

fn push_bytes(out: &mut Vec<u8>, bytes: &Vec<u8>)
    ensures
        final(out)@ == old(out)@ + bytes@,
{
    let mut i: usize = 0;
    while i < bytes.len()
        invariant
            i <= bytes.len(),
            out@ == old(out)@ + bytes@.take(i as int),
        decreases bytes.len() - i,
    {
        out.push(bytes[i]);
        proof {
            assert(out@ =~= old(out)@ + bytes@.take(i + 1 as int));
        }
        i = i + 1;
    }
    proof {
        assert(bytes@.take(bytes@.len() as int) =~= bytes@);
    }
}

fn push_triples(out: &mut Vec<u8>, ts: &Vec<(u32, u32, u32)>)
    ensures
        final(out)@ == old(out)@ + spec_triples_bytes(ts@),
{
    let mut i: usize = 0;
    while i < ts.len()
        invariant
            i <= ts.len(),
            out@ == old(out)@ + spec_triples_bytes(ts@.take(i as int)),
        decreases ts.len() - i,
    {
        let t = ts[i];
        push_u32_le(out, t.0);
        push_u32_le(out, t.1);
        push_u32_le(out, t.2);
        proof {
            assert(ts@.take(i + 1 as int).drop_last() =~= ts@.take(i as int));
            assert(ts@.take(i + 1 as int).last() == ts@[i as int]);
            assert(out@ =~= old(out)@ + spec_triples_bytes(ts@.take(i + 1 as int)));
        }
        i = i + 1;
    }
    proof {
        assert(ts@.take(ts@.len() as int) =~= ts@);
    }
}

/// Serializes an envelope to the wire bytes of one datagram.
pub fn serialize_message(m: &GameMessage) -> (r: Vec<u8>)
    ensures
        r@ == spec_serialize(m@),
{
    let mut out: Vec<u8> = Vec::new();
    push_u32_le(&mut out, m.sequence_index);
    push_u32_le(&mut out, m.last_received_sequence_index);
    push_u16_le(&mut out, m.acknowledge_mask);
    push_u64_le(&mut out, m.processing_duration.secs);
    push_u32_le(&mut out, m.processing_duration.nanos);
    match &m.content {
        GameMessageType::ClientConnected => {
            push_u32_le(&mut out, TAG_CLIENT_CONNECTED);
        },
        GameMessageType::ClientDisconnected => {
            push_u32_le(&mut out, TAG_CLIENT_DISCONNECTED);
        },
        GameMessageType::ClientLoading => {
            push_u32_le(&mut out, TAG_CLIENT_LOADING);
        },
        GameMessageType::ClientEntered => {
            push_u32_le(&mut out, TAG_CLIENT_ENTERED);
        },
        GameMessageType::ClientInput(d) => {
            push_u32_le(&mut out, TAG_CLIENT_INPUT);
            out.push(bool_byte(d.move_left));
            out.push(bool_byte(d.move_right));
            out.push(bool_byte(d.move_forward));
            out.push(bool_byte(d.move_back));
        },
        GameMessageType::ServerGameStateSnapshot(s) => {
            push_u32_le(&mut out, TAG_SERVER_GAME_STATE_SNAPSHOT);
            push_u64_le(&mut out, s.player_ids.len() as u64);
            push_bytes(&mut out, &s.player_ids);
            push_u64_le(&mut out, s.player_positions.len() as u64);
            push_triples(&mut out, &s.player_positions);
            push_u64_le(&mut out, s.player_rotations.len() as u64);
            push_triples(&mut out, &s.player_rotations);
        },
    }
    proof {
        assert(out@ =~= spec_serialize(m@));
    }
    out
}

/// Meaning of a datagram: the envelope it carries, or `None` where it is
/// malformed (too short, unrecognized tag, or a length mismatch).
pub open spec fn spec_deserialize(b: Seq<u8>) -> Option<MessageModel> {
    if b.len() < MIN_DATAGRAM_BYTE_LEN {
        None
    } else {
        match spec_deserialize_content(b) {
            Some(content) => Some(
                MessageModel {
                    sequence_index: spec_u32_from_le_bytes(b.subrange(0, 4)),
                    last_received_sequence_index: spec_u32_from_le_bytes(b.subrange(4, 8)),
                    acknowledge_mask: spec_u16_from_le_bytes(b.subrange(8, 10)),
                    processing_duration: ProcessingDuration {
                        secs: spec_u64_from_le_bytes(b.subrange(10, 18)),
                        nanos: spec_u32_from_le_bytes(b.subrange(18, 22)),
                    },
                    content,
                },
            ),
            None => None,
        }
    }
}

/// Wire bytes of a triple sequence take 12 bytes per triple.
proof fn lemma_triples_bytes_len(ts: Seq<(u32, u32, u32)>)
    ensures
        spec_triples_bytes(ts).len() == 12 * ts.len(),
    decreases ts.len(),
{
    lemma_auto_spec_u32_to_from_le_bytes();
    if ts.len() > 0 {
        lemma_triples_bytes_len(ts.drop_last());
    }
}

/// Where the bytes from `off` on hold the wire form of `ts`, the triple read
/// back at `off + 12 * i` is `ts[i]`.
proof fn lemma_triples_lookup(b: Seq<u8>, off: int, ts: Seq<(u32, u32, u32)>, i: int)
    requires
        0 <= off,
        0 <= i < ts.len(),
        off + 12 * ts.len() <= b.len(),
        b.subrange(off, off + 12 * ts.len()) == spec_triples_bytes(ts),
    ensures
        spec_triple_at(b, off + 12 * i) == ts[i],
    decreases ts.len(),
{
    lemma_auto_spec_u32_to_from_le_bytes();
    lemma_triples_bytes_len(ts);
    lemma_triples_bytes_len(ts.drop_last());
    let tb = spec_triples_bytes(ts);
    assert forall|k: int| 0 <= k < 12 * ts.len() implies b[off + k] == tb[k] by {
        assert(tb[k] == b.subrange(off, off + 12 * ts.len())[k]);
    }
    if i == ts.len() - 1 {
        let t = ts.last();
        assert(tb == spec_triples_bytes(ts.drop_last()) + spec_triple_bytes(t));
        let lo = off + 12 * i;
        assert forall|j: int| 0 <= j < 4 implies #[trigger] b.subrange(lo, lo + 4)[j]
            == spec_u32_to_le_bytes(t.0)[j] by {
            assert(tb[12 * i + j] == b.subrange(off, off + 12 * ts.len())[12 * i + j]);
            assert(tb[12 * i + j] == spec_triple_bytes(t)[j]);
        }
        assert(b.subrange(lo, lo + 4) =~= spec_u32_to_le_bytes(t.0));
        assert forall|j: int| 0 <= j < 4 implies #[trigger] b.subrange(lo + 4, lo + 8)[j]
            == spec_u32_to_le_bytes(t.1)[j] by {
            assert(tb[12 * i + 4 + j] == b.subrange(off, off + 12 * ts.len())[12 * i + 4 + j]);
            assert(tb[12 * i + 4 + j] == spec_triple_bytes(t)[4 + j]);
            assert(spec_triple_bytes(t)[4 + j] == spec_u32_to_le_bytes(t.1)[j]);
        }
        assert(b.subrange(lo + 4, lo + 8) =~= spec_u32_to_le_bytes(t.1));
        assert forall|j: int| 0 <= j < 4 implies #[trigger] b.subrange(lo + 8, lo + 12)[j]
            == spec_u32_to_le_bytes(t.2)[j] by {
            assert(tb[12 * i + 8 + j] == b.subrange(off, off + 12 * ts.len())[12 * i + 8 + j]);
            assert(tb[12 * i + 8 + j] == spec_triple_bytes(t)[8 + j]);
            assert(spec_triple_bytes(t)[8 + j] == spec_u32_to_le_bytes(t.2)[j]);
        }
        assert(b.subrange(lo + 8, lo + 12) =~= spec_u32_to_le_bytes(t.2));
    } else {
        assert(b.subrange(off, off + 12 * ts.drop_last().len()) =~= spec_triples_bytes(
            ts.drop_last(),
        ));
        lemma_triples_lookup(b, off, ts.drop_last(), i);
    }
}

/// The snapshot payload of a serialized envelope deserializes back to the
/// same snapshot.
proof fn lemma_snapshot_roundtrip(m: MessageModel, s: SnapshotModel)
    requires
        message_model_wf(m),
        m.content == ContentModel::ServerGameStateSnapshot(s),
    ensures
        spec_deserialize_snapshot(spec_serialize(m)) == Some(m.content),
{
    lemma_auto_spec_u16_to_from_le_bytes();
    lemma_auto_spec_u32_to_from_le_bytes();
    lemma_auto_spec_u64_to_from_le_bytes();
    lemma_triples_bytes_len(s.player_positions);
    lemma_triples_bytes_len(s.player_rotations);
    let b = spec_serialize(m);
    let n_ids = s.player_ids.len() as int;
    let n_pos = s.player_positions.len() as int;
    let n_rot = s.player_rotations.len() as int;
    assert(b.len() == 26 + 8 + n_ids + 8 + 12 * n_pos + 8 + 12 * n_rot);
    assert(b.subrange(26, 34) =~= spec_u64_to_le_bytes(s.player_ids.len() as u64));
    assert(spec_u64_from_le_bytes(b.subrange(26, 34)) as int == n_ids);
    let pos_len_off = 34 + n_ids;
    assert(b.subrange(pos_len_off, pos_len_off + 8) =~= spec_u64_to_le_bytes(
        s.player_positions.len() as u64,
    ));
    assert(spec_u64_from_le_bytes(b.subrange(pos_len_off, pos_len_off + 8)) as int == n_pos);
    let pos_off = pos_len_off + 8;
    let rot_len_off = pos_off + 12 * n_pos;
    assert(b.subrange(rot_len_off, rot_len_off + 8) =~= spec_u64_to_le_bytes(
        s.player_rotations.len() as u64,
    ));
    assert(spec_u64_from_le_bytes(b.subrange(rot_len_off, rot_len_off + 8)) as int == n_rot);
    let rot_off = rot_len_off + 8;
    assert(b.len() == rot_off + 12 * n_rot);
    assert(b.subrange(34, 34 + n_ids) =~= s.player_ids);
    assert(b.subrange(pos_off, pos_off + 12 * n_pos) =~= spec_triples_bytes(s.player_positions));
    assert(b.subrange(rot_off, rot_off + 12 * n_rot) =~= spec_triples_bytes(s.player_rotations));
    assert forall|i: int| 0 <= i < n_pos implies spec_triple_at(b, pos_off + 12 * i)
        == s.player_positions[i] by {
        lemma_triples_lookup(b, pos_off, s.player_positions, i);
    }
    assert forall|i: int| 0 <= i < n_rot implies spec_triple_at(b, rot_off + 12 * i)
        == s.player_rotations[i] by {
        lemma_triples_lookup(b, rot_off, s.player_rotations, i);
    }
    let parsed = spec_deserialize_snapshot(b);
    assert(parsed is Some);
    let sp = parsed->Some_0->ServerGameStateSnapshot_0;
    assert(sp.player_ids =~= s.player_ids);
    assert(sp.player_positions =~= s.player_positions);
    assert(sp.player_rotations =~= s.player_rotations);
    assert(sp =~= s);
}

/// Round trip: every serializable envelope deserializes back to itself.
pub proof fn lemma_serialize_deserialize_roundtrip(m: MessageModel)
    requires
        message_model_wf(m),
    ensures
        spec_deserialize(spec_serialize(m)) == Some(m),
{
    lemma_auto_spec_u16_to_from_le_bytes();
    lemma_auto_spec_u32_to_from_le_bytes();
    lemma_auto_spec_u64_to_from_le_bytes();
    let b = spec_serialize(m);
    assert(b.len() >= 26);
    assert(b.subrange(0, 4) =~= spec_u32_to_le_bytes(m.sequence_index));
    assert(b.subrange(4, 8) =~= spec_u32_to_le_bytes(m.last_received_sequence_index));
    assert(b.subrange(8, 10) =~= spec_u16_to_le_bytes(m.acknowledge_mask));
    assert(b.subrange(10, 18) =~= spec_u64_to_le_bytes(m.processing_duration.secs));
    assert(b.subrange(18, 22) =~= spec_u32_to_le_bytes(m.processing_duration.nanos));
    assert(b.subrange(22, 26) =~= spec_u32_to_le_bytes(spec_content_tag(m.content)));
    match m.content {
        ContentModel::ClientInput(d) => {
            assert(b.len() == 30);
            assert(b[26] == spec_bool_byte(d.move_left));
            assert(b[27] == spec_bool_byte(d.move_right));
            assert(b[28] == spec_bool_byte(d.move_forward));
            assert(b[29] == spec_bool_byte(d.move_back));
            assert(spec_deserialize_content(b) == Some(m.content));
        },
        ContentModel::ServerGameStateSnapshot(s) => {
            lemma_snapshot_roundtrip(m, s);
        },
        _ => {
            assert(b.len() == 26);
        },
    }
    assert(spec_deserialize(b) is Some);
    assert(spec_deserialize(b)->Some_0 =~= m);
}

/// Where the bytes from `off` on hold `n` triples read back by
/// `spec_triple_at`, those triples serialize to exactly those bytes.
proof fn lemma_triples_bytes_inverse(b: Seq<u8>, off: int, ts: Seq<(u32, u32, u32)>)
    requires
        0 <= off,
        off + 12 * ts.len() <= b.len(),
        forall|i: int| 0 <= i < ts.len() ==> ts[i] == spec_triple_at(b, off + 12 * i),
    ensures
        spec_triples_bytes(ts) == b.subrange(off, off + 12 * ts.len()),
    decreases ts.len(),
{
    lemma_auto_spec_u32_to_from_le_bytes();
    lemma_triples_bytes_len(ts);
    lemma_triples_bytes_len(ts.drop_last());
    if ts.len() == 0 {
        assert(spec_triples_bytes(ts) =~= b.subrange(off, off));
    } else {
        let prefix = ts.drop_last();
        assert(forall|i: int| 0 <= i < prefix.len() ==> prefix[i] == ts[i]);
        lemma_triples_bytes_inverse(b, off, prefix);
        let t = ts.last();
        let lo = off + 12 * (ts.len() - 1);
        assert(t == spec_triple_at(b, lo));
        assert(spec_u32_to_le_bytes(t.0) == b.subrange(lo, lo + 4));
        assert(spec_u32_to_le_bytes(t.1) == b.subrange(lo + 4, lo + 8));
        assert(spec_u32_to_le_bytes(t.2) == b.subrange(lo + 8, lo + 12));
        assert(spec_triples_bytes(ts) =~= b.subrange(off, off + 12 * ts.len()));
    }
}

/// A datagram that parses is exactly the serialization of the envelope it
/// parses to: deserialization inverts serialization on the right as well, so
/// the wire form of every envelope is canonical.
pub proof fn lemma_deserialize_serialize_inverse(b: Seq<u8>)
    requires
        spec_deserialize(b) is Some,
    ensures
        message_model_wf(spec_deserialize(b)->Some_0),
        spec_serialize(spec_deserialize(b)->Some_0) == b,
{
    lemma_auto_spec_u16_to_from_le_bytes();
    lemma_auto_spec_u32_to_from_le_bytes();
    lemma_auto_spec_u64_to_from_le_bytes();
    let m = spec_deserialize(b)->Some_0;
    assert(spec_u32_to_le_bytes(m.sequence_index) == b.subrange(0, 4));
    assert(spec_u32_to_le_bytes(m.last_received_sequence_index) == b.subrange(4, 8));
    assert(spec_u16_to_le_bytes(m.acknowledge_mask) == b.subrange(8, 10));
    assert(spec_u64_to_le_bytes(m.processing_duration.secs) == b.subrange(10, 18));
    assert(spec_u32_to_le_bytes(m.processing_duration.nanos) == b.subrange(18, 22));
    assert(spec_u32_to_le_bytes(spec_content_tag(m.content)) == b.subrange(22, 26));
    match m.content {
        ContentModel::ClientInput(d) => {
            assert(spec_bool_byte(d.move_left) == b[26]);
            assert(spec_bool_byte(d.move_right) == b[27]);
            assert(spec_bool_byte(d.move_forward) == b[28]);
            assert(spec_bool_byte(d.move_back) == b[29]);
            assert(spec_serialize(m) =~= b);
        },
        ContentModel::ServerGameStateSnapshot(s) => {
            let n_ids = spec_u64_from_le_bytes(b.subrange(26, 34)) as int;
            let pos_len_off = 34 + n_ids;
            let n_pos = spec_u64_from_le_bytes(b.subrange(pos_len_off, pos_len_off + 8)) as int;
            let pos_off = pos_len_off + 8;
            let rot_len_off = pos_off + 12 * n_pos;
            let n_rot = spec_u64_from_le_bytes(b.subrange(rot_len_off, rot_len_off + 8)) as int;
            let rot_off = rot_len_off + 8;
            assert(s.player_ids == b.subrange(34, 34 + n_ids));
            assert(s.player_ids.len() == n_ids);
            assert(spec_u64_to_le_bytes(s.player_ids.len() as u64) == b.subrange(26, 34));
            assert(s.player_positions.len() == n_pos);
            assert(spec_u64_to_le_bytes(s.player_positions.len() as u64) == b.subrange(
                pos_len_off,
                pos_len_off + 8,
            ));
            assert(s.player_rotations.len() == n_rot);
            assert(spec_u64_to_le_bytes(s.player_rotations.len() as u64) == b.subrange(
                rot_len_off,
                rot_len_off + 8,
            ));
            assert(forall|i: int|
                0 <= i < n_pos ==> s.player_positions[i] == spec_triple_at(b, pos_off + 12 * i));
            lemma_triples_bytes_inverse(b, pos_off, s.player_positions);
            assert(forall|i: int|
                0 <= i < n_rot ==> s.player_rotations[i] == spec_triple_at(b, rot_off + 12 * i));
            lemma_triples_bytes_inverse(b, rot_off, s.player_rotations);
            assert(spec_serialize(m) =~= b);
        },
        _ => {
            assert(b.len() == 26);
            assert(spec_serialize(m) =~= b);
        },
    }
}

/// No two distinct envelopes share a wire form.
pub proof fn lemma_serialize_injective(m1: MessageModel, m2: MessageModel)
    requires
        message_model_wf(m1),
        message_model_wf(m2),
        spec_serialize(m1) == spec_serialize(m2),
    ensures
        m1 == m2,
{
    lemma_serialize_deserialize_roundtrip(m1);
    lemma_serialize_deserialize_roundtrip(m2);
}

/// Every byte sequence shorter than the least datagram size (in particular,
/// shorter than the envelope header) means no envelope, so deserialization
/// fails and never panics.
pub proof fn lemma_short_datagram_rejected(b: Seq<u8>)
    requires
        b.len() < MIN_DATAGRAM_BYTE_LEN,
    ensures
        spec_deserialize(b) is None,
{
}

fn byte_bool(x: u8) -> (r: Option<bool>)
    ensures
        r == spec_byte_bool(x),
{
    if x == 0 {
        Some(false)
    } else if x == 1 {
        Some(true)
    } else {
        None
    }
}

fn read_triples(bytes: &[u8], off: usize, n: usize) -> (r: Vec<(u32, u32, u32)>)
    requires
        off + 12 * (n as int) <= bytes@.len(),
        bytes@.len() <= usize::MAX,
    ensures
        r@.len() == n,
        forall|k: int| 0 <= k < n ==> r@[k] == spec_triple_at(bytes@, off + 12 * k),
{
    let mut v: Vec<(u32, u32, u32)> = Vec::new();
    let mut i: usize = 0;
    while i < n
        invariant
            off + 12 * (n as int) <= bytes@.len(),
            bytes@.len() <= usize::MAX,
            i <= n,
            v@.len() == i,
            forall|k: int| 0 <= k < i ==> v@[k] == spec_triple_at(bytes@, off + 12 * k),
        decreases n - i,
    {
        let base = off + 12 * i;
        let x = u32_from_le_bytes(slice_subrange(bytes, base, base + 4));
        let y = u32_from_le_bytes(slice_subrange(bytes, base + 4, base + 8));
        let z = u32_from_le_bytes(slice_subrange(bytes, base + 8, base + 12));
        v.push((x, y, z));
        i = i + 1;
    }
    v
}

/// For nonnegative `a`: `12 * n <= a` exactly when `n <= a / 12`.
proof fn lemma_div_12_bound(n: int, a: int)
    requires
        0 <= n,
        0 <= a,
    ensures
        12 * n <= a <==> n <= a / 12,
{
    vstd::arithmetic::div_mod::lemma_fundamental_div_mod(a, 12);
}

fn deserialize_snapshot(bytes: &[u8]) -> (r: Option<ServerGameStateSnapshotData>)
    requires
        bytes@.len() >= 26,
    ensures
        match r {
            Some(s) => spec_deserialize_snapshot(bytes@) == Some(
                ContentModel::ServerGameStateSnapshot(s@),
            ),
            None => spec_deserialize_snapshot(bytes@) is None,
        },
{
    let len = bytes.len();
    if len < 34 {
        return None;
    }
    let n_ids_u64 = u64_from_le_bytes(slice_subrange(bytes, 26, 34));
    // The spec fails when the datagram ends before the position length field,
    // at byte 34 + n_ids + 8.
    if (len as u64) < 42 || n_ids_u64 > (len as u64) - 42 {
        return None;
    }
    let n_ids = n_ids_u64 as usize;
    let pos_len_off = 34 + n_ids;
    let n_pos_u64 = u64_from_le_bytes(slice_subrange(bytes, pos_len_off, pos_len_off + 8));
    let pos_off = pos_len_off + 8;
    let pos_room = (len - pos_off) as u64;
    if pos_room < 8 {
        return None;
    }
    proof {
        lemma_div_12_bound(n_pos_u64 as int, pos_room as int - 8);
    }
    if n_pos_u64 > (pos_room - 8) / 12 {
        return None;
    }
    let n_pos = n_pos_u64 as usize;
    let rot_len_off = pos_off + 12 * n_pos;
    let n_rot_u64 = u64_from_le_bytes(slice_subrange(bytes, rot_len_off, rot_len_off + 8));
    let rot_off = rot_len_off + 8;
    let rot_room = (len - rot_off) as u64;
    proof {
        lemma_div_12_bound(n_rot_u64 as int, rot_room as int);
    }
    if n_rot_u64 > rot_room / 12 {
        return None;
    }
    let n_rot = n_rot_u64 as usize;
    if 12 * n_rot != len - rot_off {
        return None;
    }
    let player_ids = slice_to_vec(slice_subrange(bytes, 34, 34 + n_ids));
    let player_positions = read_triples(bytes, pos_off, n_pos);
    let player_rotations = read_triples(bytes, rot_off, n_rot);
    let s = ServerGameStateSnapshotData { player_ids, player_positions, player_rotations };
    proof {
        let b = bytes@;
        let sn_pos = spec_u64_from_le_bytes(b.subrange(34 + n_ids as int, 34 + n_ids as int + 8));
        assert(s@.player_positions =~= Seq::new(
            sn_pos as nat,
            |i: int| spec_triple_at(b, 34 + n_ids as int + 8 + 12 * i),
        ));
        let sn_rot = spec_u64_from_le_bytes(b.subrange(rot_len_off as int, rot_len_off as int + 8));
        assert(s@.player_rotations =~= Seq::new(
            sn_rot as nat,
            |i: int| spec_triple_at(b, rot_off as int + 12 * i),
        ));
        assert(spec_deserialize_snapshot(b) == Some(ContentModel::ServerGameStateSnapshot(s@)));
    }
    Some(s)
}

/// Deserializes one datagram back to the envelope it carries. Fails with
/// `MalformedMessage`, and only then, where the bytes mean no envelope:
/// shorter than the minimum datagram size, an unrecognized variant tag, or a
/// length mismatch in a variable-length field.
pub fn deserialize_message(bytes: &[u8]) -> (r: Result<GameMessage, MessageError>)
    ensures
        match r {
            Ok(m) => spec_deserialize(bytes@) == Some(m@),
            Err(e) => spec_deserialize(bytes@) is None && e == MessageError::MalformedMessage,
        },
{
    if bytes.len() < MIN_DATAGRAM_BYTE_LEN {
        return Err(MessageError::MalformedMessage);
    }
    let tag = u32_from_le_bytes(slice_subrange(bytes, 22, 26));
    let content: GameMessageType = if tag == TAG_CLIENT_CONNECTED {
        if bytes.len() != 26 {
            return Err(MessageError::MalformedMessage);
        }
        GameMessageType::ClientConnected
    } else if tag == TAG_CLIENT_DISCONNECTED {
        if bytes.len() != 26 {
            return Err(MessageError::MalformedMessage);
        }
        GameMessageType::ClientDisconnected
    } else if tag == TAG_CLIENT_LOADING {
        if bytes.len() != 26 {
            return Err(MessageError::MalformedMessage);
        }
        GameMessageType::ClientLoading
    } else if tag == TAG_CLIENT_ENTERED {
        if bytes.len() != 26 {
            return Err(MessageError::MalformedMessage);
        }
        GameMessageType::ClientEntered
    } else if tag == TAG_CLIENT_INPUT {
        if bytes.len() != 30 {
            return Err(MessageError::MalformedMessage);
        }
        let left = byte_bool(*slice_index_get(bytes, 26));
        let right = byte_bool(*slice_index_get(bytes, 27));
        let forward = byte_bool(*slice_index_get(bytes, 28));
        let back = byte_bool(*slice_index_get(bytes, 29));
        match (left, right, forward, back) {
            (Some(l), Some(r), Some(f), Some(k)) => GameMessageType::ClientInput(
                ClientInputData { move_left: l, move_right: r, move_forward: f, move_back: k },
            ),
            _ => {
                return Err(MessageError::MalformedMessage);
            },
        }
    } else if tag == TAG_SERVER_GAME_STATE_SNAPSHOT {
        match deserialize_snapshot(bytes) {
            Some(s) => GameMessageType::ServerGameStateSnapshot(s),
            None => {
                return Err(MessageError::MalformedMessage);
            },
        }
    } else {
        return Err(MessageError::MalformedMessage);
    };
    let m = GameMessage {
        sequence_index: u32_from_le_bytes(slice_subrange(bytes, 0, 4)),
        last_received_sequence_index: u32_from_le_bytes(slice_subrange(bytes, 4, 8)),
        acknowledge_mask: u16_from_le_bytes(slice_subrange(bytes, 8, 10)),
        processing_duration: ProcessingDuration {
            secs: u64_from_le_bytes(slice_subrange(bytes, 10, 18)),
            nanos: u32_from_le_bytes(slice_subrange(bytes, 18, 22)),
        },
        content,
    };
    Ok(m)
}

} // verus!
