//! Client-side transport: a single-peer endpoint with a queue of inbound
//! datagrams, and the client's per-tick drain-then-send loop.
//!
//! The endpoint owns no OS socket; the caller binds one, feeds every datagram
//! the socket yields into `enqueue_datagram`, and transmits the bytes that
//! `send` and `client_tick` hand back.

use vstd::prelude::*;

use crate::codec::{deserialize_message, spec_deserialize};
use crate::game_message::{ClientInputData, ContentModel, GameMessage, GameMessageType,
    ServerGameStateSnapshotData, SnapshotModel};
use crate::transport::{build_datagram, spec_datagram_fault, spec_datagram_for, PeerAddress,
    ReceiveError};

verus! {

/// Every datagram in the queue passes a receive attempt.
pub open spec fn spec_queue_clean(q: Seq<Vec<u8>>, capacity: nat) -> bool {
    forall|i: int| 0 <= i < q.len() ==> spec_datagram_fault(q[i]@, capacity) is None
}

/// The snapshots carried by a queue of datagrams, in queue order; datagrams
/// carrying any other payload contribute nothing.
pub open spec fn spec_snapshots_in(q: Seq<Vec<u8>>) -> Seq<SnapshotModel>
    decreases q.len(),
{
    if q.len() == 0 {
        Seq::<SnapshotModel>::empty()
    } else {
        let rest = spec_snapshots_in(q.drop_last());
        match spec_deserialize(q.last()@) {
            Some(m) => match m.content {
                ContentModel::ServerGameStateSnapshot(s) => rest.push(s),
                _ => rest,
            },
            None => rest,
        }
    }
}

/// The client side of the transport: one conceptual remote peer, a receive
/// buffer size fixed at construction, and the inbound datagrams queued since
/// the last tick.
pub struct UdpManager {
    inbound: Vec<Vec<u8>>,
    buffer_size: usize,
    nonblocking: bool,
    target: Option<PeerAddress>,
}

impl UdpManager {
    /// The inbound datagrams not yet consumed, oldest first.
    pub closed spec fn inbound_queue(&self) -> Seq<Vec<u8>> {
        self.inbound@
    }

    /// Size of the receive buffer: a datagram larger than this is a protocol
    /// error, never a buffer resize.
    pub closed spec fn receive_capacity(&self) -> nat {
        self.buffer_size as nat
    }

    /// Whether the caller's socket is meant to be non-blocking.
    pub closed spec fn is_nonblocking(&self) -> bool {
        self.nonblocking
    }

    /// The default peer fixed by `connect`, if any.
    pub closed spec fn connected_target(&self) -> Option<PeerAddress> {
        self.target
    }

    /// A fresh endpoint: nothing queued, no peer fixed yet.
    pub fn new(buffer_size: usize, nonblocking: bool) -> (m: UdpManager)
        ensures
            m.inbound_queue() == Seq::<Vec<u8>>::empty(),
            m.receive_capacity() == buffer_size as nat,
            m.is_nonblocking() == nonblocking,
            m.connected_target() is None,
    {
        UdpManager { inbound: Vec::new(), buffer_size, nonblocking, target: None }
    }

    /// Fixes the default send/receive peer. Purely endpoint state: on the
    /// wire a UDP connect establishes nothing.
    pub fn connect(&mut self, target_address: PeerAddress)
        ensures
            final(self).connected_target() == Some(target_address),
            final(self).inbound_queue() == old(self).inbound_queue(),
            final(self).receive_capacity() == old(self).receive_capacity(),
            final(self).is_nonblocking() == old(self).is_nonblocking(),
    {
        self.target = Some(target_address);
    }

    /// Queues one datagram read off the caller's socket.
    pub fn enqueue_datagram(&mut self, datagram: Vec<u8>)
        ensures
            final(self).inbound_queue() == old(self).inbound_queue().push(datagram),
            final(self).receive_capacity() == old(self).receive_capacity(),
            final(self).is_nonblocking() == old(self).is_nonblocking(),
            final(self).connected_target() == old(self).connected_target(),
    {
        self.inbound.push(datagram);
    }

    /// How many inbound datagrams are queued.
    pub fn pending_datagram_count(&self) -> (n: usize)
        ensures
            n == self.inbound_queue().len(),
    {
        self.inbound.len()
    }

    /// Size of the receive buffer the caller should read datagrams into.
    pub fn buffer_byte_size(&self) -> (n: usize)
        ensures
            n == self.receive_capacity(),
    {
        self.buffer_size
    }

    /// Whether the caller's socket is meant to be non-blocking.
    pub fn socket_nonblocking(&self) -> (b: bool)
        ensures
            b == self.is_nonblocking(),
    {
        self.nonblocking
    }

    /// The default peer fixed by `connect`, if any.
    pub fn target_address(&self) -> (a: Option<PeerAddress>)
        ensures
            a == self.connected_target(),
    {
        self.target
    }

    /// Wraps the payload in a fresh envelope and serializes it: the one
    /// datagram the caller transmits to the connected peer.
    pub fn send(&self, message_content: GameMessageType) -> (r: Vec<u8>)
        ensures
            r@ == spec_datagram_for(message_content@),
    {
        build_datagram(message_content)
    }

    /// One receive attempt: `Ok(None)` when nothing is pending, the parsed
    /// envelope of the oldest queued datagram otherwise. A failing datagram
    /// is consumed and dropped as a single unit.
    pub fn receive(&mut self) -> (r: Result<Option<GameMessage>, ReceiveError>)
        ensures
            final(self).receive_capacity() == old(self).receive_capacity(),
            final(self).is_nonblocking() == old(self).is_nonblocking(),
            final(self).connected_target() == old(self).connected_target(),
            old(self).inbound_queue().len() == 0 ==> r == Ok::<Option<GameMessage>, ReceiveError>(
                None,
            ) && final(self).inbound_queue() == old(self).inbound_queue(),
            old(self).inbound_queue().len() > 0 ==> {
                &&& final(self).inbound_queue() == old(self).inbound_queue().drop_first()
                &&& match spec_datagram_fault(
                    old(self).inbound_queue()[0]@,
                    old(self).receive_capacity(),
                ) {
                    Some(e) => r == Err::<Option<GameMessage>, ReceiveError>(e),
                    None => r matches Ok(Some(m)) && Some(m@) == spec_deserialize(
                        old(self).inbound_queue()[0]@,
                    ),
                }
            },
    {
        if self.inbound.len() == 0 {
            return Ok(None);
        }
        let datagram = self.inbound.remove(0);
        proof {
            assert(old(self).inbound@.remove(0) =~= old(self).inbound@.drop_first());
        }
        if datagram.len() > self.buffer_size {
            return Err(ReceiveError::DatagramTooLarge);
        }
        match deserialize_message(datagram.as_slice()) {
            Ok(message) => Ok(Some(message)),
            Err(_) => Err(ReceiveError::MalformedMessage),
        }
    }
}

/// Drains the whole inbound queue, one receive per queued datagram, and
/// returns the snapshots received, in arrival order; payloads of any other
/// variant are discarded. A failing datagram aborts the drain: it is
/// consumed, the error surfaces, and the rest of the queue waits for the
/// next tick.
pub fn client_receive(udp_manager: &mut UdpManager) -> (r: Result<
    Vec<ServerGameStateSnapshotData>,
    ReceiveError,
>)
    ensures
        final(udp_manager).receive_capacity() == old(udp_manager).receive_capacity(),
        final(udp_manager).is_nonblocking() == old(udp_manager).is_nonblocking(),
        final(udp_manager).connected_target() == old(udp_manager).connected_target(),
        match r {
            Ok(snapshots) => {
                &&& spec_queue_clean(
                    old(udp_manager).inbound_queue(),
                    old(udp_manager).receive_capacity(),
                )
                &&& final(udp_manager).inbound_queue().len() == 0
                &&& snapshots@.len() == spec_snapshots_in(old(udp_manager).inbound_queue()).len()
                &&& forall|i: int|
                    0 <= i < snapshots@.len() ==> snapshots@[i]@ == spec_snapshots_in(
                        old(udp_manager).inbound_queue(),
                    )[i]
            },
            Err(e) => exists|k: int|
                {
                    &&& 0 <= k < old(udp_manager).inbound_queue().len()
                    &&& spec_datagram_fault(
                        old(udp_manager).inbound_queue()[k]@,
                        old(udp_manager).receive_capacity(),
                    ) == Some(e)
                    &&& (forall|j: int|
                        0 <= j < k ==> spec_datagram_fault(
                            old(udp_manager).inbound_queue()[j]@,
                            old(udp_manager).receive_capacity(),
                        ) is None)
                    &&& final(udp_manager).inbound_queue() == old(udp_manager).inbound_queue().skip(
                        k + 1,
                    )
                },
        },
{
    let ghost q0 = udp_manager.inbound_queue();
    let ghost capacity = udp_manager.receive_capacity();
    let mut snapshots: Vec<ServerGameStateSnapshotData> = Vec::new();
    let ghost mut k: int = 0;
    let mut done = false;
    while !done
        invariant
            0 <= k <= q0.len(),
            udp_manager.inbound_queue() == q0.skip(k),
            udp_manager.receive_capacity() == capacity,
            udp_manager.is_nonblocking() == old(udp_manager).is_nonblocking(),
            udp_manager.connected_target() == old(udp_manager).connected_target(),
            capacity == old(udp_manager).receive_capacity(),
            q0 == old(udp_manager).inbound_queue(),
            spec_queue_clean(q0.take(k), capacity),
            snapshots@.len() == spec_snapshots_in(q0.take(k)).len(),
            forall|i: int|
                0 <= i < snapshots@.len() ==> snapshots@[i]@ == spec_snapshots_in(q0.take(k))[i],
            done ==> k == q0.len(),
        decreases q0.len() - k + (if done {
            0int
        } else {
            1int
        }),
    {
        let ghost q_before = udp_manager.inbound_queue();
        match udp_manager.receive() {
            Ok(None) => {
                proof {
                    assert(q0.skip(k).len() == 0);
                }
                done = true;
            },
            Ok(Some(message)) => {
                proof {
                    assert(q_before[0] == q0[k]);
                    assert(q0.take(k + 1).drop_last() =~= q0.take(k));
                    assert(q0.take(k + 1).last() == q0[k]);
                    assert(q0.skip(k).drop_first() =~= q0.skip(k + 1));
                }
                match message.content {
                    GameMessageType::ServerGameStateSnapshot(s) => {
                        snapshots.push(s);
                    },
                    _ => {},
                }
                proof {
                    k = k + 1;
                }
            },
            Err(e) => {
                proof {
                    assert(q_before[0] == q0[k]);
                    assert(q0.skip(k).drop_first() =~= q0.skip(k + 1));
                    assert(spec_datagram_fault(q0[k]@, capacity) == Some(e));
                    assert forall|j: int| 0 <= j < k implies spec_datagram_fault(
                        q0[j]@,
                        capacity,
                    ) is None by {
                        assert(q0.take(k)[j] == q0[j]);
                    }
                    assert(udp_manager.inbound_queue() == q0.skip(k + 1));
                }
                return Err(e);
            },
        }
    }
    proof {
        assert(q0.take(k) =~= q0);
    }
    Ok(snapshots)
}

/// The one outbound datagram of a client tick: the current input-device
/// state wrapped as a `ClientInput` payload.
pub fn client_send_input(udp_manager: &UdpManager, keyboard_input: ClientInputData) -> (r: Vec<
    u8,
>)
    ensures
        r@ == spec_datagram_for(ContentModel::ClientInput(keyboard_input)),
{
    udp_manager.send(GameMessageType::ClientInput(keyboard_input))
}

/// What one successful client tick produced: the snapshots received, the one
/// datagram to transmit, and how many datagrams the drain consumed.
#[derive(Debug)]
pub struct ClientTickOutcome {
    pub snapshots: Vec<ServerGameStateSnapshotData>,
    pub outbound: Vec<u8>,
    pub received_count: usize,
}

/// One fixed-timestep client tick: drain every queued inbound datagram, then
/// build exactly one outbound `ClientInput` datagram, however many datagrams
/// (including none) were queued. A receive failure aborts the tick; nothing
/// is sent and the rest of the queue waits for the next tick.
pub fn client_tick(udp_manager: &mut UdpManager, keyboard_input: ClientInputData) -> (r: Result<
    ClientTickOutcome,
    ReceiveError,
>)
    ensures
        final(udp_manager).receive_capacity() == old(udp_manager).receive_capacity(),
        final(udp_manager).is_nonblocking() == old(udp_manager).is_nonblocking(),
        final(udp_manager).connected_target() == old(udp_manager).connected_target(),
        match r {
            Ok(outcome) => {
                &&& spec_queue_clean(
                    old(udp_manager).inbound_queue(),
                    old(udp_manager).receive_capacity(),
                )
                &&& final(udp_manager).inbound_queue().len() == 0
                &&& outcome.received_count == old(udp_manager).inbound_queue().len()
                &&& outcome.snapshots@.len() == spec_snapshots_in(
                    old(udp_manager).inbound_queue(),
                ).len()
                &&& (forall|i: int|
                    0 <= i < outcome.snapshots@.len() ==> outcome.snapshots@[i]@
                        == spec_snapshots_in(old(udp_manager).inbound_queue())[i])
                &&& outcome.outbound@ == spec_datagram_for(
                    ContentModel::ClientInput(keyboard_input),
                )
            },
            Err(e) => exists|k: int|
                {
                    &&& 0 <= k < old(udp_manager).inbound_queue().len()
                    &&& spec_datagram_fault(
                        old(udp_manager).inbound_queue()[k]@,
                        old(udp_manager).receive_capacity(),
                    ) == Some(e)
                    &&& (forall|j: int|
                        0 <= j < k ==> spec_datagram_fault(
                            old(udp_manager).inbound_queue()[j]@,
                            old(udp_manager).receive_capacity(),
                        ) is None)
                    &&& final(udp_manager).inbound_queue() == old(udp_manager).inbound_queue().skip(
                        k + 1,
                    )
                },
        },
{
    let received_count = udp_manager.pending_datagram_count();
    let snapshots = match client_receive(udp_manager) {
        Ok(snapshots) => snapshots,
        Err(e) => {
            return Err(e);
        },
    };
    let outbound = client_send_input(udp_manager, keyboard_input);
    Ok(ClientTickOutcome { snapshots, outbound, received_count })
}

} // verus!
