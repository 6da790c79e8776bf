//! The connections to all other federation members.
//!
//! A [`ReconnectP2PConnections`] owns one [`P2PConnection`] per peer: a pair
//! of bounded queues between the application and the task that runs the
//! link's state machine. It decides who gets a message and who a received
//! message is from; the tasks, the listener and every operation that waits
//! belong to the program that hosts it.

use std::collections::BTreeMap;
use vstd::prelude::*;
use crate::net::backoff::spec_api_networking_backoff;
use crate::net::channel::{bounded_queue, channel_try_send, BoundedQueue, TrySendOutcome};
use crate::net::connection::{
    CommonModel,
    P2PConnectionSMState,
    P2PConnectionStateMachine,
    P2PConnectionStatus,
    PeerMetrics,
};
use crate::net::ordered::{keys_in_order, lemma_order_is_unique, lists_in_order};
use crate::net::peer_id::PeerId;

verus! {

/// How many messages of the application wait for a link at most.
pub const OUTGOING_QUEUE_CAPACITY: usize = 1024;

/// How many received messages wait for the application at most, per link.
pub const INCOMING_QUEUE_CAPACITY: usize = 1024;

/// How many accepted connections wait for a link at most.
pub const NEW_CONNECTION_QUEUE_CAPACITY: usize = 4;

/// What travels over a transport: a message of the application, or a ping
/// that only keeps the connection alive.
#[derive(Debug, Clone, PartialEq, Eq)]
pub enum P2PMessage<M> {
    /// A message of the application.
    Message(M),
    /// A keepalive; it carries nothing.
    Ping,
}

/// To whom a message goes.
#[derive(Clone, Copy, Debug, PartialEq, Eq, Structural)]
pub enum Recipient {
    /// To every other member.
    Everyone,
    /// To one member.
    Peer(PeerId),
}

/// The application's end of the link to one peer.
#[derive(Clone)]
#[verifier::reject_recursive_types(M)]
pub struct P2PConnection<M> {
    outgoing: async_channel::Sender<M>,
    outgoing_capacity: usize,
    incoming: async_channel::Receiver<M>,
    incoming_capacity: usize,
}

/// What the task of a link owns: the state machine, the task's ends of the
/// two message queues, and the queue on which accepted connections arrive.
#[verifier::reject_recursive_types(T)]
#[verifier::reject_recursive_types(M)]
pub struct P2PConnectionTask<T, M> {
    /// The state machine, disconnected at first.
    pub state_machine: P2PConnectionStateMachine<T>,
    /// Where the task puts the messages that the peer sent.
    pub incoming_sender: async_channel::Sender<M>,
    /// Where the task finds the messages to send to the peer.
    pub outgoing_receiver: async_channel::Receiver<M>,
    /// Where the task finds the connections that the peer opened.
    pub incoming_connections: async_channel::Receiver<T>,
}

impl<T, M> P2PConnectionTask<T, M> {
    /// The peer that the task talks to.
    pub open spec fn peer(self) -> PeerId {
        self.state_machine.common@.peer_id
    }

    /// Whether the task is as a new link needs it: disconnected with a
    /// fresh backoff generator, between the given two members, all counters
    /// at zero, publishing its status on the given channel, if any.
    pub open spec fn is_fresh(
        self,
        our_id: PeerId,
        peer_id: PeerId,
        status_channel: Option<tokio::sync::watch::Sender<P2PConnectionStatus>>,
    ) -> bool {
        &&& self.state_machine.state == P2PConnectionSMState::<T>::Disconnected(
            spec_api_networking_backoff(),
        )
        &&& self.state_machine.common@ == (CommonModel {
            our_id,
            peer_id,
            metrics: PeerMetrics::zero(),
            status_channel,
        })
    }
}

/// The channel on which the link to `peer` publishes its status: the one
/// that `status_channels` holds under the id of `peer`, if it holds one.
pub open spec fn status_channel_of(
    status_channels: Option<BTreeMap<u16, tokio::sync::watch::Sender<P2PConnectionStatus>>>,
    peer: PeerId,
) -> Option<tokio::sync::watch::Sender<P2PConnectionStatus>> {
    match status_channels {
        Some(channels) => if channels@.contains_key(peer.0) {
            Some(channels@[peer.0])
        } else {
            None
        },
        None => None,
    }
}

impl<M> P2PConnection<M> {
    /// A new link from `our_id` to `peer_id`: the application's end, and
    /// what the task of the link is to own. Both message queues are made to
    /// hold 1024 messages. The task finds accepted connections on
    /// `incoming_connections` and publishes its status on `status_channel`,
    /// if there is one.
    pub fn new<T>(
        our_id: PeerId,
        peer_id: PeerId,
        incoming_connections: async_channel::Receiver<T>,
        status_channel: Option<tokio::sync::watch::Sender<P2PConnectionStatus>>,
    ) -> (link: (P2PConnection<M>, P2PConnectionTask<T, M>))
        ensures
            link.0.spec_outgoing_capacity() == OUTGOING_QUEUE_CAPACITY,
            link.0.spec_incoming_capacity() == INCOMING_QUEUE_CAPACITY,
            link.1.is_fresh(our_id, peer_id, status_channel),
            link.1.incoming_connections == incoming_connections,
    {
        let outgoing: BoundedQueue<M> = bounded_queue(OUTGOING_QUEUE_CAPACITY);
        let incoming: BoundedQueue<M> = bounded_queue(INCOMING_QUEUE_CAPACITY);
        let state_machine = P2PConnectionStateMachine::new(our_id, peer_id, status_channel);
        (
            P2PConnection {
                outgoing: outgoing.sender,
                outgoing_capacity: outgoing.capacity,
                incoming: incoming.receiver,
                incoming_capacity: incoming.capacity,
            },
            P2PConnectionTask {
                state_machine,
                incoming_sender: incoming.sender,
                outgoing_receiver: outgoing.receiver,
                incoming_connections,
            },
        )
    }

    /// How many messages the queue of messages to send was made to hold.
    pub closed spec fn spec_outgoing_capacity(&self) -> usize {
        self.outgoing_capacity
    }

    /// How many messages the queue of messages that the peer sent was made
    /// to hold.
    pub closed spec fn spec_incoming_capacity(&self) -> usize {
        self.incoming_capacity
    }

    /// How many messages the queue of messages to send was made to hold.
    pub fn outgoing_capacity(&self) -> (capacity: usize)
        ensures
            capacity == self.spec_outgoing_capacity(),
    {
        self.outgoing_capacity
    }

    /// How many messages the queue of messages that the peer sent was made
    /// to hold.
    pub fn incoming_capacity(&self) -> (capacity: usize)
        ensures
            capacity == self.spec_incoming_capacity(),
    {
        self.incoming_capacity
    }

    /// Puts `message` into the outgoing queue if there is room, and drops it
    /// if there is none or the task of the link is gone. Never waits.
    pub fn try_send(&self, message: M) -> (outcome: TrySendOutcome) {
        channel_try_send(&self.outgoing, message)
    }

    /// The queue of the messages to send, for those who can wait for room.
    pub fn outgoing(&self) -> (queue: &async_channel::Sender<M>)
        ensures
            *queue == self.spec_outgoing(),
    {
        &self.outgoing
    }

    /// The queue of the messages that the peer sent.
    pub fn incoming(&self) -> (queue: &async_channel::Receiver<M>)
        ensures
            *queue == self.spec_incoming(),
    {
        &self.incoming
    }

    /// The sending end of the link's queue of messages to send.
    pub closed spec fn spec_outgoing(&self) -> async_channel::Sender<M> {
        self.outgoing
    }

    /// The receiving end of the link's queue of messages that the peer sent.
    pub closed spec fn spec_incoming(&self) -> async_channel::Receiver<M> {
        self.incoming
    }
}

/// The members among `listed` that get a link: all but `identity`.
pub open spec fn configured_peers(identity: PeerId, listed: Seq<PeerId>) -> Set<PeerId> {
    Set::new(|peer: PeerId| listed.contains(peer) && peer != identity)
}

/// Whether `targets` is the route of a message to `recipient` among
/// `peers`: to everyone, it lists every peer once, from the lowest id to
/// the highest; to one member, it lists that member if it is a peer, and
/// nobody if it is not.
pub open spec fn is_route(peers: Set<PeerId>, recipient: Recipient, targets: Seq<PeerId>) -> bool {
    match recipient {
        Recipient::Everyone => {
            &&& targets.to_set() == peers
            &&& forall|i: int, j: int| 0 <= i < j < targets.len() ==> targets[i].0 < targets[j].0
        },
        Recipient::Peer(peer) => targets == if peers.contains(peer) {
            seq![peer]
        } else {
            Seq::<PeerId>::empty()
        },
    }
}

/// The members that a report of deliveries speaks of, in its order.
pub open spec fn reported_peers(report: Seq<(PeerId, TrySendOutcome)>) -> Seq<PeerId> {
    report.map_values(|entry: (PeerId, TrySendOutcome)| entry.0)
}

/// The peers of the tasks, in their order.
pub open spec fn task_peers<T, M>(tasks: Seq<P2PConnectionTask<T, M>>) -> Seq<PeerId> {
    tasks.map_values(|task: P2PConnectionTask<T, M>| task.peer())
}

/// The members whose ids are the given numbers.
pub open spec fn peers_of(ids: Set<u16>) -> Set<PeerId> {
    Set::new(|peer: PeerId| ids.contains(peer.0))
}

/// The given numbers as members, in the same order.
pub open spec fn as_peers(ids: Seq<u16>) -> Seq<PeerId> {
    ids.map_values(|id: u16| PeerId(id))
}

/// A message has one route: two lists that are the route of a message
/// to the same recipient among the same peers are the same list.
pub proof fn lemma_route_is_unique(
    peers: Set<PeerId>,
    recipient: Recipient,
    first: Seq<PeerId>,
    second: Seq<PeerId>,
)
    requires
        is_route(peers, recipient, first),
        is_route(peers, recipient, second),
    ensures
        first == second,
{
    if recipient == Recipient::Everyone {
        let domain = Set::new(|id: u16| peers.contains(PeerId(id)));
        let a = first.map_values(|peer: PeerId| peer.0);
        let b = second.map_values(|peer: PeerId| peer.0);
        assert forall|id: u16| a.to_set().contains(id) <==> domain.contains(id) by {
            if a.to_set().contains(id) {
                let i = choose|i: int| 0 <= i < a.len() && a[i] == id;
                assert(first[i] == PeerId(id));
                assert(first.to_set().contains(PeerId(id)));
            }
            if domain.contains(id) {
                assert(first.to_set().contains(PeerId(id)));
                let i = choose|i: int| 0 <= i < first.len() && first[i] == PeerId(id);
                assert(a[i] == id);
            }
        }
        assert forall|id: u16| b.to_set().contains(id) <==> domain.contains(id) by {
            if b.to_set().contains(id) {
                let i = choose|i: int| 0 <= i < b.len() && b[i] == id;
                assert(second[i] == PeerId(id));
                assert(second.to_set().contains(PeerId(id)));
            }
            if domain.contains(id) {
                assert(second.to_set().contains(PeerId(id)));
                let i = choose|i: int| 0 <= i < second.len() && second[i] == PeerId(id);
                assert(b[i] == id);
            }
        }
        assert(a.to_set() =~= domain);
        assert(b.to_set() =~= domain);
        lemma_order_is_unique(a, b, domain);
        assert forall|i: int| 0 <= i < first.len() implies first[i] == second[i] by {
            assert(a[i] == b[i]);
        }
        assert(first.len() == a.len() && second.len() == b.len());
        assert(first =~= second);
    }
}

proof fn lemma_as_peers_in_order(ids: Seq<u16>, domain: Set<u16>)
    requires
        lists_in_order(ids, domain),
    ensures
        is_route(peers_of(domain), Recipient::Everyone, as_peers(ids)),
{
    let targets = as_peers(ids);
    assert forall|peer: PeerId| targets.to_set().contains(peer) <==> peers_of(domain).contains(
        peer,
    ) by {
        if targets.to_set().contains(peer) {
            let i = choose|i: int| 0 <= i < targets.len() && targets[i] == peer;
            assert(ids[i] == peer.0);
            assert(ids.to_set().contains(peer.0));
        }
        if peers_of(domain).contains(peer) {
            assert(ids.to_set().contains(peer.0));
            let i = choose|i: int| 0 <= i < ids.len() && ids[i] == peer.0;
            assert(targets[i] == peer);
        }
    }
    assert(targets.to_set() =~= peers_of(domain));
}

/// The queue on which the connections that one peer opened are handed to
/// the task of its link: its sending end, and what it was made to hold.
#[verifier::reject_recursive_types(T)]
struct ConnectionQueue<T> {
    sender: async_channel::Sender<T>,
    capacity: usize,
}

/// The inbound side of the links: for every peer the queue on which the
/// connections that it opened are handed to the task of its link.
#[verifier::reject_recursive_types(T)]
pub struct P2PConnectionListener<T> {
    connection_senders: BTreeMap<u16, ConnectionQueue<T>>,
}

impl<T> P2PConnectionListener<T> {
    /// The peers that connections are accepted from.
    pub closed spec fn peers(&self) -> Set<PeerId> {
        peers_of(self.connection_senders@.dom())
    }

    /// The queue that takes the connections of `peer`, where `peer` is one
    /// of the peers.
    pub closed spec fn spec_sender(&self, peer: PeerId) -> async_channel::Sender<T> {
        self.connection_senders@[peer.0].sender
    }

    /// How many connections the queue of `peer` was made to hold, where
    /// `peer` is one of the peers.
    pub closed spec fn spec_capacity(&self, peer: PeerId) -> usize {
        self.connection_senders@[peer.0].capacity
    }

    /// The queue that takes the connections of `peer`; `None` if `peer` is
    /// not one of the peers.
    pub fn sender(&self, peer: PeerId) -> (queue: Option<&async_channel::Sender<T>>)
        ensures
            queue is Some <==> self.peers().contains(peer),
            queue matches Some(found) ==> *found == self.spec_sender(peer),
    {
        match self.connection_senders.get(&peer.0) {
            Some(queue) => Some(&queue.sender),
            None => None,
        }
    }

    /// How many connections the queue of `peer` was made to hold; `None`
    /// if `peer` is not one of the peers.
    pub fn capacity(&self, peer: PeerId) -> (capacity: Option<usize>)
        ensures
            capacity == if self.peers().contains(peer) {
                Some(self.spec_capacity(peer))
            } else {
                None::<usize>
            },
    {
        match self.connection_senders.get(&peer.0) {
            Some(queue) => Some(queue.capacity),
            None => None,
        }
    }
}

/// The connections to all other members.
#[derive(Clone)]
#[verifier::reject_recursive_types(M)]
pub struct ReconnectP2PConnections<M> {
    connections: BTreeMap<u16, P2PConnection<M>>,
}

impl<M> ReconnectP2PConnections<M> {
    /// The peers that there is a link to.
    pub closed spec fn peers(&self) -> Set<PeerId> {
        peers_of(self.connections@.dom())
    }

    /// The links to all members in `peers` but `identity`, one per member,
    /// with the inbound side for the listener and what the task of each
    /// link is to own. The message queues of a link are made to hold 1024
    /// messages, its queue of accepted connections 4. A link publishes its
    /// status on the channel that `status_channels` holds under its peer's
    /// id, if there is one.
    pub fn new<T>(
        identity: PeerId,
        peers: Vec<PeerId>,
        status_channels: Option<BTreeMap<u16, tokio::sync::watch::Sender<P2PConnectionStatus>>>,
    ) -> (made: (
        ReconnectP2PConnections<M>,
        P2PConnectionListener<T>,
        Vec<P2PConnectionTask<T, M>>,
    ))
        ensures
            made.0.peers() == configured_peers(identity, peers@),
            made.1.peers() == made.0.peers(),
            forall|peer: PeerId| #[trigger]
                made.0.peers().contains(peer) ==> {
                    &&& made.0.spec_connection(peer).spec_outgoing_capacity()
                        == OUTGOING_QUEUE_CAPACITY
                    &&& made.0.spec_connection(peer).spec_incoming_capacity()
                        == INCOMING_QUEUE_CAPACITY
                    &&& made.1.spec_capacity(peer) == NEW_CONNECTION_QUEUE_CAPACITY
                },
            task_peers(made.2@).to_set() == made.0.peers(),
            task_peers(made.2@).no_duplicates(),
            forall|i: int|
                0 <= i < made.2.len() ==> (#[trigger] made.2[i]).is_fresh(
                    identity,
                    made.2[i].peer(),
                    status_channel_of(status_channels, made.2[i].peer()),
                ),
    {
        let mut status_channels = status_channels;
        let ghost given = status_channels;
        let mut connection_senders: BTreeMap<u16, ConnectionQueue<T>> = BTreeMap::new();
        let mut connections: BTreeMap<u16, P2PConnection<M>> = BTreeMap::new();
        let mut tasks: Vec<P2PConnectionTask<T, M>> = Vec::new();
        let mut i: usize = 0;
        while i < peers.len()
            invariant
                0 <= i <= peers.len(),
                peers_of(connections@.dom()) == configured_peers(identity, peers@.take(i as int)),
                connection_senders@.dom() == connections@.dom(),
                forall|id: u16| #[trigger]
                    connections@.contains_key(id) ==> {
                        &&& connections@[id].spec_outgoing_capacity() == OUTGOING_QUEUE_CAPACITY
                        &&& connections@[id].spec_incoming_capacity() == INCOMING_QUEUE_CAPACITY
                        &&& connection_senders@[id].capacity == NEW_CONNECTION_QUEUE_CAPACITY
                    },
                task_peers(tasks@).to_set() == peers_of(connections@.dom()),
                task_peers(tasks@).no_duplicates(),
                given is Some <==> status_channels is Some,
                given matches Some(before) ==> forall|id: u16|
                    !connections@.contains_key(id) ==> (#[trigger] before@.contains_key(id)
                        <==> status_channels.unwrap()@.contains_key(id)),
                given matches Some(before) ==> forall|id: u16|
                    !connections@.contains_key(id) && #[trigger] before@.contains_key(id)
                        ==> status_channels.unwrap()@[id] == before@[id],
                forall|k: int|
                    0 <= k < tasks.len() ==> (#[trigger] tasks[k]).is_fresh(
                        identity,
                        tasks[k].peer(),
                        status_channel_of(given, tasks[k].peer()),
                    ),
            decreases peers.len() - i,
        {
            let peer_id = peers[i];
            let ghost listed = peers@.take(i as int);
            let ghost listed_next = peers@.take(i as int + 1);
            proof {
                assert(listed_next =~= listed.push(peer_id));
                assert forall|peer: PeerId|
                    configured_peers(identity, listed_next).contains(peer) <==> (configured_peers(
                        identity,
                        listed,
                    ).contains(peer) || (peer == peer_id && peer != identity)) by {
                    if listed_next.contains(peer) {
                        let k = choose|k: int| 0 <= k < listed_next.len() && listed_next[k] == peer;
                        if k < listed.len() {
                            assert(listed[k] == peer);
                        }
                    }
                    if listed.contains(peer) {
                        let k = choose|k: int| 0 <= k < listed.len() && listed[k] == peer;
                        assert(listed_next[k] == peer);
                    }
                    if peer == peer_id {
                        assert(listed_next[i as int] == peer);
                    }
                }
            }
            if peer_id.0 != identity.0 && !connections.contains_key(&peer_id.0) {
                let accepted: BoundedQueue<T> = bounded_queue(NEW_CONNECTION_QUEUE_CAPACITY);
                let ghost channels_before = status_channels;
                let status_channel = match &mut status_channels {
                    Some(channels) => channels.remove(&peer_id.0),
                    None => None,
                };
                proof {
                    assert(status_channel == status_channel_of(given, peer_id)) by {
                        if given is Some {
                            assert(given.unwrap()@.contains_key(peer_id.0)
                                <==> channels_before.unwrap()@.contains_key(peer_id.0));
                        }
                    }
                    if given is Some {
                        assert(status_channels.unwrap()@ == channels_before.unwrap()@.remove(
                            peer_id.0,
                        ));
                    }
                }
                let (connection, task) = P2PConnection::new(
                    identity,
                    peer_id,
                    accepted.receiver,
                    status_channel,
                );
                let ghost tasks_before = tasks@;
                let ghost dom_before = connections@.dom();
                connection_senders.insert(
                    peer_id.0,
                    ConnectionQueue { sender: accepted.sender, capacity: accepted.capacity },
                );
                connections.insert(peer_id.0, connection);
                tasks.push(task);
                proof {
                    assert(task.peer() == peer_id);
                    let before = task_peers(tasks_before);
                    let after = task_peers(tasks@);
                    assert(after =~= before.push(peer_id));
                    assert(!before.contains(peer_id)) by {
                        if before.contains(peer_id) {
                            assert(before.to_set().contains(peer_id));
                            assert(peers_of(dom_before).contains(peer_id));
                        }
                    }
                    assert(after.no_duplicates());
                    assert(after.to_set() =~= peers_of(connections@.dom())) by {
                        assert forall|peer: PeerId|
                            after.to_set().contains(peer) <==> peers_of(
                                connections@.dom(),
                            ).contains(peer) by {
                            if after.to_set().contains(peer) {
                                let k = choose|k: int| 0 <= k < after.len() && after[k] == peer;
                                if k < before.len() {
                                    assert(before[k] == peer);
                                    assert(before.to_set().contains(peer));
                                }
                            }
                            if peers_of(connections@.dom()).contains(peer) {
                                if peer == peer_id {
                                    assert(after[before.len() as int] == peer);
                                } else {
                                    assert(peers_of(dom_before).contains(peer));
                                    assert(before.to_set().contains(peer));
                                    let k = choose|k: int|
                                        0 <= k < before.len() && before[k] == peer;
                                    assert(after[k] == peer);
                                }
                            }
                        }
                    }
                    assert(peers_of(connections@.dom()) =~= configured_peers(
                        identity,
                        listed_next,
                    )) by {
                        assert forall|peer: PeerId|
                            peers_of(connections@.dom()).contains(peer) <==> configured_peers(
                                identity,
                                listed_next,
                            ).contains(peer) by {
                            assert(peers_of(dom_before).contains(peer) <==> configured_peers(
                                identity,
                                listed,
                            ).contains(peer));
                        }
                    }
                    assert forall|k: int| 0 <= k < tasks.len() implies (#[trigger] tasks[k]).is_fresh(
                        identity,
                        tasks[k].peer(),
                        status_channel_of(given, tasks[k].peer()),
                    ) by {
                        if k < tasks_before.len() {
                            assert(tasks[k] == tasks_before[k]);
                        }
                    }
                }
            } else {
                proof {
                    assert(peers_of(connections@.dom()) =~= configured_peers(
                        identity,
                        listed_next,
                    )) by {
                        assert forall|peer: PeerId|
                            peers_of(connections@.dom()).contains(peer) <==> configured_peers(
                                identity,
                                listed_next,
                            ).contains(peer) by {
                            assert(peers_of(connections@.dom()).contains(peer)
                                <==> configured_peers(identity, listed).contains(peer));
                        }
                    }
                }
            }
            i = i + 1;
        }
        proof {
            assert(peers@.take(peers.len() as int) =~= peers@);
        }
        (
            ReconnectP2PConnections { connections },
            P2PConnectionListener { connection_senders },
            tasks,
        )
    }

    /// The peers that there is a link to, from the lowest id to the
    /// highest.
    pub fn peer_ids(&self) -> (ids: Vec<PeerId>)
        ensures
            is_route(self.peers(), Recipient::Everyone, ids@),
    {
        let keys = keys_in_order(&self.connections);
        let mut ids: Vec<PeerId> = Vec::new();
        let mut i: usize = 0;
        while i < keys.len()
            invariant
                0 <= i <= keys.len(),
                ids@ == as_peers(keys@.take(i as int)),
            decreases keys.len() - i,
        {
            ids.push(PeerId(keys[i]));
            proof {
                assert(keys@.take(i as int + 1) =~= keys@.take(i as int).push(keys[i as int]));
                assert(ids@ =~= as_peers(keys@.take(i as int + 1)));
            }
            i = i + 1;
        }
        proof {
            assert(keys@.take(keys.len() as int) =~= keys@);
            lemma_as_peers_in_order(keys@, self.connections@.dom());
        }
        ids
    }

    /// The link to `peer`, where `peer` is one of the peers.
    pub closed spec fn spec_connection(&self, peer: PeerId) -> P2PConnection<M> {
        self.connections@[peer.0]
    }

    /// The link to `peer`; `None` if `peer` is not one of the peers.
    pub fn connection(&self, peer: PeerId) -> (link: Option<&P2PConnection<M>>)
        ensures
            link is Some <==> self.peers().contains(peer),
            link matches Some(found) ==> *found == self.spec_connection(peer),
    {
        self.connections.get(&peer.0)
    }

    /// Who a message to `recipient` goes to: every peer, from the lowest id
    /// to the highest, or the one peer named, or nobody if the member named
    /// is not a peer.
    pub fn recipients(&self, recipient: Recipient) -> (targets: Vec<PeerId>)
        ensures
            is_route(self.peers(), recipient, targets@),
    {
        match recipient {
            Recipient::Everyone => self.peer_ids(),
            Recipient::Peer(peer) => {
                let mut targets: Vec<PeerId> = Vec::new();
                if self.connections.contains_key(&peer.0) {
                    targets.push(peer);
                    proof {
                        assert(targets@ =~= seq![peer]);
                    }
                }
                targets
            },
        }
    }

    /// Tags a message with the peer that it came from. `position` counts
    /// the links from the lowest id to the highest, starting at 0, and
    /// `message` is what the incoming queue of that link gave. The result
    /// is `None` where the queue gave nothing or no link has that position.
    pub fn received(&self, position: usize, message: Option<M>) -> (tagged: Option<(PeerId, M)>)
        ensures
            tagged is Some <==> message is Some && position < self.peers().len(),
            tagged matches Some((peer, payload)) ==> {
                &&& self.peers().contains(peer)
                &&& message == Some(payload)
                &&& forall|ids: Seq<PeerId>|
                    is_route(self.peers(), Recipient::Everyone, ids) ==> #[trigger] ids[position as int]
                        == peer
            },
    {
        let ids = self.peer_ids();
        proof {
            self.lemma_peers_finite();
            ids@.unique_seq_to_set();
            assert(ids@.no_duplicates());
        }
        match message {
            Some(payload) => {
                if position < ids.len() {
                    let peer = ids[position];
                    proof {
                        assert(ids@.to_set().contains(peer));
                        assert forall|other: Seq<PeerId>|
                            is_route(
                                self.peers(),
                                Recipient::Everyone,
                                other,
                            ) implies #[trigger] other[position as int] == peer by {
                            lemma_route_is_unique(
                                self.peers(),
                                Recipient::Everyone,
                                ids@,
                                other,
                            );
                        }
                    }
                    Some((peer, payload))
                } else {
                    None
                }
            },
            None => None,
        }
    }

    /// There are finitely many peers.
    pub proof fn lemma_peers_finite(&self)
        ensures
            self.peers().finite(),
    {
        let ids = self.connections@.dom();
        assert(ids.finite());
        let members = ids.map(|id: u16| PeerId(id));
        ids.lemma_map_finite(|id: u16| PeerId(id));
        assert(members =~= self.peers()) by {
            assert forall|peer: PeerId| members.contains(peer) <==> self.peers().contains(
                peer,
            ) by {
                if self.peers().contains(peer) {
                    assert(ids.contains(peer.0));
                    assert(PeerId(peer.0) == peer);
                }
            }
        }
    }
}

impl<M: Clone> ReconnectP2PConnections<M> {
    /// Puts `message` into the outgoing queue of every link that
    /// `recipient` names, without waiting: a link whose queue is full or
    /// closed loses the message. The report lists the links tried, in the
    /// order tried, each with what became of the message there; for a
    /// member that is not a peer it is empty.
    pub fn try_send(&self, recipient: Recipient, message: M) -> (report: Vec<
        (PeerId, TrySendOutcome),
    >)
        ensures
            is_route(self.peers(), recipient, reported_peers(report@)),
    {
        let targets = self.recipients(recipient);
        let mut report: Vec<(PeerId, TrySendOutcome)> = Vec::new();
        let mut i: usize = 0;
        while i < targets.len()
            invariant
                0 <= i <= targets.len(),
                is_route(self.peers(), recipient, targets@),
                reported_peers(report@) == targets@.take(i as int),
            decreases targets.len() - i,
        {
            let peer = targets[i];
            proof {
                assert(targets@.to_set().contains(peer));
                assert(self.peers().contains(peer));
            }
            let outcome = match self.connections.get(&peer.0) {
                Some(connection) => connection.try_send(message.clone()),
                None => TrySendOutcome::Closed,
            };
            let ghost reported = report@;
            report.push((peer, outcome));
            proof {
                assert(report@ =~= reported.push((peer, outcome)));
                assert(reported_peers(report@) =~= reported_peers(reported).push(peer));
                assert(targets@.take(i as int + 1) =~= targets@.take(i as int).push(peer));
            }
            i = i + 1;
        }
        proof {
            assert(targets@.take(targets.len() as int) =~= targets@);
        }
        report
    }
}

} // verus!
