//! Server-side transport: a multi-peer endpoint with a dynamic peer
//! registry, a queue of inbound datagrams tagged with their source address,
//! and the server's per-tick drain-then-broadcast loop.
//!
//! The registry is append-only: an address is added exactly once, on the
//! first datagram received from it, and never evicted.

use vstd::prelude::*;

use crate::codec::{deserialize_message, spec_deserialize};
use crate::game_message::{ContentModel, GameMessage, GameMessageType, MessageModel,
    ServerGameStateSnapshotData};
use crate::transport::{build_datagram, spec_datagram_fault, spec_datagram_for, PeerAddress,
    ReceiveError, Transmission};

verus! {

/// No address stands in the registry twice.
pub open spec fn spec_peers_distinct(peers: Seq<PeerAddress>) -> bool {
    forall|i: int, j: int| 0 <= i < j < peers.len() ==> peers[i] != peers[j]
}

/// What one received datagram does to the registry: a seen address leaves it
/// unchanged, an unseen one is appended.
pub open spec fn spec_observe(peers: Seq<PeerAddress>, addr: PeerAddress) -> Seq<PeerAddress> {
    if peers.contains(addr) {
        peers
    } else {
        peers.push(addr)
    }
}

/// The registry after datagrams arrive from `arrivals`, in that order.
pub open spec fn spec_registry_after(
    peers: Seq<PeerAddress>,
    arrivals: Seq<PeerAddress>,
) -> Seq<PeerAddress>
    decreases arrivals.len(),
{
    if arrivals.len() == 0 {
        peers
    } else {
        spec_observe(spec_registry_after(peers, arrivals.drop_last()), arrivals.last())
    }
}

/// Observing an address keeps the registry free of duplicates.
pub proof fn lemma_observe_preserves_distinct(peers: Seq<PeerAddress>, addr: PeerAddress)
    requires
        spec_peers_distinct(peers),
    ensures
        spec_peers_distinct(spec_observe(peers, addr)),
{
    if !peers.contains(addr) {
        assert forall|i: int| 0 <= i < peers.len() implies peers[i] != addr by {
            if peers[i] == addr {
                assert(peers.contains(addr));
            }
        }
    }
}

/// Datagrams from distinct addresses none of which is registered yet grow
/// the registry by exactly those addresses, in first-seen order.
pub proof fn lemma_registry_fresh_arrivals(peers: Seq<PeerAddress>, arrivals: Seq<PeerAddress>)
    requires
        spec_peers_distinct(arrivals),
        forall|i: int| 0 <= i < arrivals.len() ==> !peers.contains(#[trigger] arrivals[i]),
    ensures
        spec_registry_after(peers, arrivals) == peers + arrivals,
    decreases arrivals.len(),
{
    if arrivals.len() == 0 {
        assert(peers + arrivals =~= peers);
    } else {
        let prefix = arrivals.drop_last();
        let newest = arrivals.last();
        assert(forall|i: int| 0 <= i < prefix.len() ==> prefix[i] == arrivals[i]);
        lemma_registry_fresh_arrivals(peers, prefix);
        assert(!(peers + prefix).contains(newest)) by {
            if (peers + prefix).contains(newest) {
                let w = choose|w: int| 0 <= w < (peers + prefix).len() && (peers + prefix)[w]
                    == newest;
                if w < peers.len() {
                    assert(peers.contains(newest));
                    assert(!peers.contains(arrivals[arrivals.len() - 1]));
                } else {
                    assert(arrivals[w - peers.len()] == arrivals[arrivals.len() - 1]);
                }
            }
        }
        assert((peers + prefix).push(newest) =~= peers + arrivals);
    }
}

/// Datagrams from addresses that are all registered already leave the
/// registry unchanged, however many arrive.
pub proof fn lemma_registry_seen_arrivals(peers: Seq<PeerAddress>, arrivals: Seq<PeerAddress>)
    requires
        forall|i: int| 0 <= i < arrivals.len() ==> peers.contains(#[trigger] arrivals[i]),
    ensures
        spec_registry_after(peers, arrivals) == peers,
    decreases arrivals.len(),
{
    if arrivals.len() > 0 {
        let prefix = arrivals.drop_last();
        assert(forall|i: int| 0 <= i < prefix.len() ==> prefix[i] == arrivals[i]);
        lemma_registry_seen_arrivals(peers, prefix);
        assert(peers.contains(arrivals[arrivals.len() - 1]));
    }
}

/// After N datagrams from N distinct addresses reach an empty registry, it
/// holds exactly those N addresses, in first-seen order.
pub proof fn lemma_registry_distinct_datagrams(arrivals: Seq<PeerAddress>)
    requires
        spec_peers_distinct(arrivals),
    ensures
        spec_registry_after(Seq::<PeerAddress>::empty(), arrivals) == arrivals,
{
    lemma_registry_fresh_arrivals(Seq::<PeerAddress>::empty(), arrivals);
    assert(Seq::<PeerAddress>::empty() + arrivals =~= arrivals);
}

/// The source addresses of a queue of received datagrams, in queue order.
pub open spec fn spec_sources_of(q: Seq<(PeerAddress, Vec<u8>)>) -> Seq<PeerAddress> {
    Seq::new(q.len(), |i: int| q[i].0)
}

/// Every datagram in the queue passes a receive attempt.
pub open spec fn spec_server_queue_clean(q: Seq<(PeerAddress, Vec<u8>)>, capacity: nat) -> bool {
    forall|i: int| 0 <= i < q.len() ==> spec_datagram_fault(q[i].1@, capacity) is None
}

/// The envelopes a server tick accepts out of a queue of datagrams, in queue
/// order: every variant a client sends; a snapshot reaching the server is
/// unexpected and discarded.
pub open spec fn spec_accepted_in(q: Seq<(PeerAddress, Vec<u8>)>) -> Seq<MessageModel>
    decreases q.len(),
{
    if q.len() == 0 {
        Seq::<MessageModel>::empty()
    } else {
        let rest = spec_accepted_in(q.drop_last());
        match spec_deserialize(q.last().1@) {
            Some(m) => match m.content {
                ContentModel::ServerGameStateSnapshot(_) => rest,
                _ => rest.push(m),
            },
            None => rest,
        }
    }
}

/// The server side of the transport: the address it is bound to, the peer
/// registry, a receive buffer size fixed at construction, and the inbound
/// datagrams queued since the last tick, each with its source address.
pub struct UdpServer {
    bind_address: PeerAddress,
    client_sockets: Vec<PeerAddress>,
    inbound: Vec<(PeerAddress, Vec<u8>)>,
    message_buffer_byte_size: usize,
    client_max_count: usize,
    nonblocking: bool,
}

impl UdpServer {
    /// The registry: every address ever seen on the inbound socket, in
    /// first-seen order.
    pub closed spec fn peers(&self) -> Seq<PeerAddress> {
        self.client_sockets@
    }

    /// The inbound datagrams not yet consumed, oldest first, each with the
    /// address it came from.
    pub closed spec fn inbound_queue(&self) -> Seq<(PeerAddress, Vec<u8>)> {
        self.inbound@
    }

    /// Size of the receive buffer: a datagram larger than this is a protocol
    /// error, never a buffer resize.
    pub closed spec fn receive_capacity(&self) -> nat {
        self.message_buffer_byte_size as nat
    }

    /// The capacity hint the registry was created with. A hint only: the
    /// registry grows past it freely.
    pub closed spec fn client_capacity_hint(&self) -> usize {
        self.client_max_count
    }

    /// Whether the caller's socket is meant to be non-blocking.
    pub closed spec fn is_nonblocking(&self) -> bool {
        self.nonblocking
    }

    /// The address the caller's socket is bound to.
    pub closed spec fn bound_address(&self) -> PeerAddress {
        self.bind_address
    }

    /// The registry never holds an address twice.
    pub open spec fn wf(&self) -> bool {
        spec_peers_distinct(self.peers())
    }

    /// The address the caller's socket is bound to.
    pub fn local_address(&self) -> (a: PeerAddress)
        ensures
            a == self.bound_address(),
    {
        self.bind_address
    }

    /// How many peers are registered.
    pub fn peer_count(&self) -> (n: usize)
        ensures
            n == self.peers().len(),
    {
        self.client_sockets.len()
    }

    /// The registered peer at an index, in first-seen order.
    pub fn peer_at(&self, peer_index: usize) -> (a: PeerAddress)
        requires
            peer_index < self.peers().len(),
        ensures
            a == self.peers()[peer_index as int],
    {
        self.client_sockets[peer_index]
    }

    /// How many inbound datagrams are queued.
    pub fn pending_datagram_count(&self) -> (n: usize)
        ensures
            n == self.inbound_queue().len(),
    {
        self.inbound.len()
    }

    /// Size of the receive buffer the caller should read datagrams into.
    pub fn buffer_byte_size(&self) -> (n: usize)
        ensures
            n == self.receive_capacity(),
    {
        self.message_buffer_byte_size
    }

    /// The capacity hint the registry was created with.
    pub fn client_capacity(&self) -> (n: usize)
        ensures
            n == self.client_capacity_hint(),
    {
        self.client_max_count
    }

    /// Whether the caller's socket is meant to be non-blocking.
    pub fn socket_nonblocking(&self) -> (b: bool)
        ensures
            b == self.is_nonblocking(),
    {
        self.nonblocking
    }

    /// Queues one datagram read off the caller's socket, with the address it
    /// came from.
    pub fn enqueue_datagram(&mut self, from: PeerAddress, datagram: Vec<u8>)
        ensures
            final(self).inbound_queue() == old(self).inbound_queue().push((from, datagram)),
            final(self).peers() == old(self).peers(),
            final(self).receive_capacity() == old(self).receive_capacity(),
            final(self).client_capacity_hint() == old(self).client_capacity_hint(),
            final(self).is_nonblocking() == old(self).is_nonblocking(),
            final(self).bound_address() == old(self).bound_address(),
    {
        self.inbound.push((from, datagram));
    }

    /// Wraps the payload in a fresh envelope and serializes it, addressed to
    /// one registered peer.
    pub fn send(&self, target_client_socket_index: usize, message_content: GameMessageType) -> (t:
        Transmission)
        requires
            target_client_socket_index < self.peers().len(),
        ensures
            t.target == self.peers()[target_client_socket_index as int],
            t.datagram@ == spec_datagram_for(message_content@),
    {
        Transmission {
            target: self.client_sockets[target_client_socket_index],
            datagram: build_datagram(message_content),
        }
    }

    /// One datagram per registered peer, every one carrying the same payload
    /// in a fresh envelope: with K registered peers, exactly K transmissions,
    /// addressed to the K peers in registry order (so, the registry being
    /// duplicate-free, to K distinct addresses), whatever the payload.
    pub fn send_to_all(&self, message_content: GameMessageType) -> (ts: Vec<Transmission>)
        ensures
            ts@.len() == self.peers().len(),
            forall|i: int|
                0 <= i < ts@.len() ==> (#[trigger] ts@[i]).target == self.peers()[i]
                    && ts@[i].datagram@ == spec_datagram_for(message_content@),
    {
        let bytes = build_datagram(message_content);
        let mut ts: Vec<Transmission> = Vec::new();
        let mut i: usize = 0;
        while i < self.client_sockets.len()
            invariant
                i <= self.client_sockets.len(),
                bytes@ == spec_datagram_for(message_content@),
                ts@.len() == i,
                forall|j: int|
                    0 <= j < i ==> (#[trigger] ts@[j]).target == self.client_sockets@[j]
                        && ts@[j].datagram@ == spec_datagram_for(message_content@),
            decreases self.client_sockets.len() - i,
        {
            ts.push(
                Transmission { target: self.client_sockets[i], datagram: copy_datagram(&bytes) },
            );
            i = i + 1;
        }
        ts
    }

    /// One receive attempt: `Ok(None)` when nothing is pending, the parsed
    /// envelope of the oldest queued datagram otherwise. The source address
    /// is registered before the datagram is parsed, so even a malformed
    /// datagram registers its sender; a failing datagram is consumed and
    /// dropped as a single unit.
    pub fn receive(&mut self) -> (r: Result<Option<GameMessage>, ReceiveError>)
        requires
            old(self).wf(),
        ensures
            final(self).wf(),
            final(self).receive_capacity() == old(self).receive_capacity(),
            final(self).client_capacity_hint() == old(self).client_capacity_hint(),
            final(self).is_nonblocking() == old(self).is_nonblocking(),
            final(self).bound_address() == old(self).bound_address(),
            old(self).inbound_queue().len() == 0 ==> r == Ok::<Option<GameMessage>, ReceiveError>(
                None,
            ) && final(self).inbound_queue() == old(self).inbound_queue() && final(self).peers()
                == old(self).peers(),
            old(self).inbound_queue().len() > 0 ==> {
                &&& final(self).inbound_queue() == old(self).inbound_queue().drop_first()
                &&& final(self).peers() == spec_observe(
                    old(self).peers(),
                    old(self).inbound_queue()[0].0,
                )
                &&& match spec_datagram_fault(
                    old(self).inbound_queue()[0].1@,
                    old(self).receive_capacity(),
                ) {
                    Some(e) => r == Err::<Option<GameMessage>, ReceiveError>(e),
                    None => r matches Ok(Some(m)) && Some(m@) == spec_deserialize(
                        old(self).inbound_queue()[0].1@,
                    ),
                }
            },
    {
        if self.inbound.len() == 0 {
            return Ok(None);
        }
        let (from, datagram) = self.inbound.remove(0);
        proof {
            assert(old(self).inbound@.remove(0) =~= old(self).inbound@.drop_first());
        }
        if !contains_peer(&self.client_sockets, from) {
            self.client_sockets.push(from);
        }
        proof {
            lemma_observe_preserves_distinct(old(self).peers(), from);
        }
        if datagram.len() > self.message_buffer_byte_size {
            return Err(ReceiveError::DatagramTooLarge);
        }
        match deserialize_message(datagram.as_slice()) {
            Ok(message) => Ok(Some(message)),
            Err(_) => Err(ReceiveError::MalformedMessage),
        }
    }
}

/// What one successful server tick produced: the envelopes accepted, the
/// broadcast transmissions (one per registered peer), and how many datagrams
/// the drain consumed.
#[derive(Debug)]
pub struct ServerTickOutcome {
    pub received: Vec<GameMessage>,
    pub transmissions: Vec<Transmission>,
    pub received_count: usize,
}

/// One fixed-timestep server tick: drain every queued inbound datagram from
/// any peer, registering unseen source addresses as they are met, then build
/// one snapshot broadcast to every registered peer. All receives of the tick
/// happen strictly before the broadcast is built, so peers registered during
/// the drain are included in it and no later datagram can be reflected. A
/// receive failure aborts the tick: it is consumed (its sender stays
/// registered), the error surfaces, nothing is broadcast, and the rest of
/// the queue waits for the next tick.
pub fn server_tick(server: &mut UdpServer, snapshot: ServerGameStateSnapshotData) -> (r: Result<
    ServerTickOutcome,
    ReceiveError,
>)
    requires
        old(server).wf(),
    ensures
        final(server).wf(),
        final(server).receive_capacity() == old(server).receive_capacity(),
        final(server).client_capacity_hint() == old(server).client_capacity_hint(),
        final(server).is_nonblocking() == old(server).is_nonblocking(),
        final(server).bound_address() == old(server).bound_address(),
        match r {
            Ok(outcome) => {
                &&& spec_server_queue_clean(
                    old(server).inbound_queue(),
                    old(server).receive_capacity(),
                )
                &&& final(server).inbound_queue().len() == 0
                &&& final(server).peers() == spec_registry_after(
                    old(server).peers(),
                    spec_sources_of(old(server).inbound_queue()),
                )
                &&& outcome.received_count == old(server).inbound_queue().len()
                &&& outcome.received@.len() == spec_accepted_in(old(server).inbound_queue()).len()
                &&& (forall|i: int|
                    0 <= i < outcome.received@.len() ==> outcome.received@[i]@ == spec_accepted_in(
                        old(server).inbound_queue(),
                    )[i])
                &&& outcome.transmissions@.len() == final(server).peers().len()
                &&& (forall|i: int|
                    0 <= i < outcome.transmissions@.len() ==> (#[trigger] outcome.transmissions@[i]).target
                        == final(server).peers()[i] && outcome.transmissions@[i].datagram@
                        == spec_datagram_for(ContentModel::ServerGameStateSnapshot(snapshot@)))
            },
            Err(e) => exists|k: int|
                {
                    &&& 0 <= k < old(server).inbound_queue().len()
                    &&& spec_datagram_fault(
                        old(server).inbound_queue()[k].1@,
                        old(server).receive_capacity(),
                    ) == Some(e)
                    &&& (forall|j: int|
                        0 <= j < k ==> spec_datagram_fault(
                            old(server).inbound_queue()[j].1@,
                            old(server).receive_capacity(),
                        ) is None)
                    &&& final(server).inbound_queue() == old(server).inbound_queue().skip(k + 1)
                    &&& final(server).peers() == spec_registry_after(
                        old(server).peers(),
                        spec_sources_of(old(server).inbound_queue().take(k + 1)),
                    )
                },
        },
{
    let ghost q0 = server.inbound_queue();
    let ghost peers0 = server.peers();
    let ghost capacity = server.receive_capacity();
    let received_count = server.pending_datagram_count();
    let mut received: Vec<GameMessage> = Vec::new();
    let ghost mut k: int = 0;
    let mut done = false;
    while !done
        invariant
            0 <= k <= q0.len(),
            server.wf(),
            server.inbound_queue() == q0.skip(k),
            server.peers() == spec_registry_after(peers0, spec_sources_of(q0.take(k))),
            server.receive_capacity() == capacity,
            server.client_capacity_hint() == old(server).client_capacity_hint(),
            server.is_nonblocking() == old(server).is_nonblocking(),
            server.bound_address() == old(server).bound_address(),
            capacity == old(server).receive_capacity(),
            q0 == old(server).inbound_queue(),
            peers0 == old(server).peers(),
            spec_server_queue_clean(q0.take(k), capacity),
            received@.len() == spec_accepted_in(q0.take(k)).len(),
            forall|i: int|
                0 <= i < received@.len() ==> received@[i]@ == spec_accepted_in(q0.take(k))[i],
            done ==> k == q0.len(),
        decreases q0.len() - k + (if done {
            0int
        } else {
            1int
        }),
    {
        let ghost q_before = server.inbound_queue();
        let ghost peers_before = server.peers();
        match server.receive() {
            Ok(None) => {
                proof {
                    assert(q0.skip(k).len() == 0);
                }
                done = true;
            },
            Ok(Some(message)) => {
                proof {
                    assert(q_before[0] == q0[k]);
                    assert(q0.take(k + 1).drop_last() =~= q0.take(k));
                    assert(q0.take(k + 1).last() == q0[k]);
                    assert(q0.skip(k).drop_first() =~= q0.skip(k + 1));
                    assert(spec_sources_of(q0.take(k + 1)).drop_last() =~= spec_sources_of(
                        q0.take(k),
                    ));
                    assert(spec_sources_of(q0.take(k + 1)).last() == q0[k].0);
                    assert(server.peers() == spec_registry_after(
                        peers0,
                        spec_sources_of(q0.take(k + 1)),
                    ));
                }
                match &message.content {
                    GameMessageType::ServerGameStateSnapshot(_) => {},
                    _ => {
                        received.push(message);
                    },
                }
                proof {
                    k = k + 1;
                }
            },
            Err(e) => {
                proof {
                    assert(q_before[0] == q0[k]);
                    assert(q0.skip(k).drop_first() =~= q0.skip(k + 1));
                    assert(spec_datagram_fault(q0[k].1@, capacity) == Some(e));
                    assert forall|j: int| 0 <= j < k implies spec_datagram_fault(
                        q0[j].1@,
                        capacity,
                    ) is None by {
                        assert(q0.take(k)[j] == q0[j]);
                    }
                    assert(spec_sources_of(q0.take(k + 1)).drop_last() =~= spec_sources_of(
                        q0.take(k),
                    ));
                    assert(spec_sources_of(q0.take(k + 1)).last() == q0[k].0);
                    assert(server.peers() == spec_registry_after(
                        peers0,
                        spec_sources_of(q0.take(k + 1)),
                    ));
                    assert(server.inbound_queue() == q0.skip(k + 1));
                }
                return Err(e);
            },
        }
    }
    proof {
        assert(q0.take(k) =~= q0);
    }
    let transmissions = server.send_to_all(GameMessageType::ServerGameStateSnapshot(snapshot));
    Ok(ServerTickOutcome { received, transmissions, received_count })
}

/// Whether an address is already registered.
fn contains_peer(peers: &Vec<PeerAddress>, addr: PeerAddress) -> (r: bool)
    ensures
        r == peers@.contains(addr),
{
    let mut i: usize = 0;
    while i < peers.len()
        invariant
            i <= peers.len(),
            forall|j: int| 0 <= j < i ==> peers@[j] != addr,
        decreases peers.len() - i,
    {
        if peers[i] == addr {
            return true;
        }
        i = i + 1;
    }
    false
}

/// A byte-for-byte copy of a datagram, for fanning one serialization out to
/// several peers.
fn copy_datagram(bytes: &Vec<u8>) -> (r: Vec<u8>)
    ensures
        r@ == bytes@,
{
    let mut r: Vec<u8> = Vec::new();
    let mut i: usize = 0;
    while i < bytes.len()
        invariant
            i <= bytes.len(),
            r@ == bytes@.take(i as int),
        decreases bytes.len() - i,
    {
        r.push(bytes[i]);
        proof {
            assert(r@ =~= bytes@.take(i + 1 as int));
        }
        i = i + 1;
    }
    proof {
        assert(bytes@.take(bytes@.len() as int) =~= bytes@);
    }
    r
}

/// Builds a `UdpServer`, defaulting to the loopback address on port 8311, a
/// 1500-byte receive buffer, room hinted for 32 peers, and a non-blocking
/// socket.
pub struct UdpServerBuilder {
    bind_address: PeerAddress,
    message_buffer_byte_size: usize,
    client_max_count: usize,
    nonblocking: bool,
}

impl UdpServerBuilder {
    pub closed spec fn bind_address_spec(&self) -> PeerAddress {
        self.bind_address
    }

    pub closed spec fn message_buffer_byte_size_spec(&self) -> usize {
        self.message_buffer_byte_size
    }

    pub closed spec fn client_max_count_spec(&self) -> usize {
        self.client_max_count
    }

    pub closed spec fn nonblocking_spec(&self) -> bool {
        self.nonblocking
    }

    pub fn new() -> (b: UdpServerBuilder)
        ensures
            b.bind_address_spec() == (PeerAddress { ip: 0x7f000001, port: 8311, is_ipv6: false }),
            b.message_buffer_byte_size_spec() == 1500usize,
            b.client_max_count_spec() == 32usize,
            b.nonblocking_spec() == true,
    {
        UdpServerBuilder {
            bind_address: PeerAddress { ip: 0x7f000001, port: 8311, is_ipv6: false },
            message_buffer_byte_size: 1500,
            client_max_count: 32,
            nonblocking: true,
        }
    }

    pub fn bind_address(self, address: PeerAddress) -> (b: UdpServerBuilder)
        ensures
            b.bind_address_spec() == address,
            b.message_buffer_byte_size_spec() == self.message_buffer_byte_size_spec(),
            b.client_max_count_spec() == self.client_max_count_spec(),
            b.nonblocking_spec() == self.nonblocking_spec(),
    {
        UdpServerBuilder { bind_address: address, ..self }
    }

    pub fn message_buffer_byte_size(self, byte_size: usize) -> (b: UdpServerBuilder)
        ensures
            b.message_buffer_byte_size_spec() == byte_size,
            b.bind_address_spec() == self.bind_address_spec(),
            b.client_max_count_spec() == self.client_max_count_spec(),
            b.nonblocking_spec() == self.nonblocking_spec(),
    {
        UdpServerBuilder { message_buffer_byte_size: byte_size, ..self }
    }

    pub fn client_max_count(self, max_count: usize) -> (b: UdpServerBuilder)
        ensures
            b.client_max_count_spec() == max_count,
            b.bind_address_spec() == self.bind_address_spec(),
            b.message_buffer_byte_size_spec() == self.message_buffer_byte_size_spec(),
            b.nonblocking_spec() == self.nonblocking_spec(),
    {
        UdpServerBuilder { client_max_count: max_count, ..self }
    }

    pub fn nonblocking(self, nonblocking: bool) -> (b: UdpServerBuilder)
        ensures
            b.nonblocking_spec() == nonblocking,
            b.bind_address_spec() == self.bind_address_spec(),
            b.message_buffer_byte_size_spec() == self.message_buffer_byte_size_spec(),
            b.client_max_count_spec() == self.client_max_count_spec(),
    {
        UdpServerBuilder { nonblocking, ..self }
    }

    /// The server endpoint: empty registry, empty queue, configuration as
    /// built. The caller binds its socket to `local_address()`.
    pub fn build(self) -> (s: UdpServer)
        ensures
            s.wf(),
            s.peers() == Seq::<PeerAddress>::empty(),
            s.inbound_queue() == Seq::<(PeerAddress, Vec<u8>)>::empty(),
            s.receive_capacity() == self.message_buffer_byte_size_spec() as nat,
            s.client_capacity_hint() == self.client_max_count_spec(),
            s.is_nonblocking() == self.nonblocking_spec(),
            s.bound_address() == self.bind_address_spec(),
    {
        let mut client_sockets: Vec<PeerAddress> = Vec::new();
        client_sockets.reserve(self.client_max_count);
        UdpServer {
            bind_address: self.bind_address,
            client_sockets,
            inbound: Vec::new(),
            message_buffer_byte_size: self.message_buffer_byte_size,
            client_max_count: self.client_max_count,
            nonblocking: self.nonblocking,
        }
    }
}

} // verus!
