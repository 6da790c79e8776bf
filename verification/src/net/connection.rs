//! The state machine of the connection to one peer.
//!
//! A link is either `Disconnected`, holding the backoff generator that paces
//! its reconnection attempts, or `Connected`, holding the one live transport.
//! The task that owns a link opens each round with `race`, which says
//! which status to publish and what to wait for. It then hands the event
//! that came first to the transition of the current state, performs the
//! [`Action`] that the transition asks for and reports how it went. No
//! function here waits, sends or receives: every one is a total function of
//! its arguments, so the whole protocol can be run without a network.

use vstd::prelude::*;
use crate::net::backoff::{api_networking_backoff, spec_api_networking_backoff, FibonacciBackoff};
use crate::net::channel::publish_status;
use crate::net::peer_id::PeerId;
use crate::net::peers::P2PMessage;

verus! {

/// A connected link sends a ping when nothing else happened for this long,
/// in milliseconds.
pub const KEEPALIVE_INTERVAL_MS: u64 = 10_000;

/// Whether the link to a peer currently has a live transport.
#[derive(Clone, Copy, Debug, PartialEq, Eq, Structural)]
pub enum P2PConnectionStatus {
    /// A transport is live.
    Connected,
    /// No transport is live.
    Disconnected,
}

/// Which way a connection was opened, or a message went.
#[derive(Clone, Copy, Debug, PartialEq, Eq, Structural)]
pub enum Direction {
    /// From the peer to us.
    Incoming,
    /// From us to the peer.
    Outgoing,
}

/// One more, but never past the largest number.
pub open spec fn spec_bump(count: u64) -> u64 {
    if count < u64::MAX {
        (count + 1) as u64
    } else {
        count
    }
}

fn bump(count: u64) -> (r: u64)
    ensures
        r == spec_bump(count),
{
    if count < u64::MAX {
        count + 1
    } else {
        count
    }
}

/// The counters of one link. Each stops at the largest number it can hold.
#[derive(Clone, Copy, Debug, PartialEq, Eq, Structural)]
pub struct PeerMetrics {
    /// Inbound connections that reached the link while it was disconnected.
    pub connects_incoming: u64,
    /// Outbound connection attempts that succeeded.
    pub connects_outgoing: u64,
    /// Transitions to `Disconnected` after a transport failed.
    pub disconnects: u64,
    /// Application messages received from the peer.
    pub messages_incoming: u64,
    /// Messages handed to the transport, keepalives included.
    pub messages_outgoing: u64,
}

impl PeerMetrics {
    /// The counters with one more connection in the given direction.
    pub open spec fn with_connect(self, direction: Direction) -> PeerMetrics {
        match direction {
            Direction::Incoming => PeerMetrics {
                connects_incoming: spec_bump(self.connects_incoming),
                ..self
            },
            Direction::Outgoing => PeerMetrics {
                connects_outgoing: spec_bump(self.connects_outgoing),
                ..self
            },
        }
    }

    /// The counters with one more disconnect.
    pub open spec fn with_disconnect(self) -> PeerMetrics {
        PeerMetrics { disconnects: spec_bump(self.disconnects), ..self }
    }

    /// The counters with one more message in the given direction.
    pub open spec fn with_message(self, direction: Direction) -> PeerMetrics {
        match direction {
            Direction::Incoming => PeerMetrics {
                messages_incoming: spec_bump(self.messages_incoming),
                ..self
            },
            Direction::Outgoing => PeerMetrics {
                messages_outgoing: spec_bump(self.messages_outgoing),
                ..self
            },
        }
    }

    /// All counters at zero.
    pub open spec fn zero() -> PeerMetrics {
        PeerMetrics {
            connects_incoming: 0,
            connects_outgoing: 0,
            disconnects: 0,
            messages_incoming: 0,
            messages_outgoing: 0,
        }
    }
}

/// The state of a link. `T` is the transport; a link owns at most one.
#[derive(Debug, PartialEq, Eq)]
pub enum P2PConnectionSMState<T> {
    /// No transport; the generator paces the attempts to get one.
    Disconnected(FibonacciBackoff),
    /// The live transport.
    Connected(T),
}

impl<T> P2PConnectionSMState<T> {
    /// The status that an observer of the link is told.
    pub open spec fn spec_status(self) -> P2PConnectionStatus {
        match self {
            P2PConnectionSMState::Disconnected(_) => P2PConnectionStatus::Disconnected,
            P2PConnectionSMState::Connected(_) => P2PConnectionStatus::Connected,
        }
    }

    /// The number of transports that the state holds.
    pub open spec fn live_transports(self) -> nat {
        match self {
            P2PConnectionSMState::Disconnected(_) => 0,
            P2PConnectionSMState::Connected(_) => 1,
        }
    }

    /// The status that an observer of the link is told.
    pub fn status(&self) -> (status: P2PConnectionStatus)
        ensures
            status == self.spec_status(),
    {
        match self {
            P2PConnectionSMState::Disconnected(_) => P2PConnectionStatus::Disconnected,
            P2PConnectionSMState::Connected(_) => P2PConnectionStatus::Connected,
        }
    }
}

/// What a disconnected link waits for, as it came.
#[derive(Debug, PartialEq, Eq)]
pub enum DisconnectedEvent<T> {
    /// The router handed over an inbound connection; `None`: the router is
    /// gone.
    IncomingConnection(Option<T>),
    /// The delay of the backoff generator passed.
    BackoffElapsed,
}

/// What a connected link waits for, as it came.
#[derive(Debug, PartialEq, Eq)]
pub enum ConnectedEvent<T, M> {
    /// The application has a message to send; `None`: the outgoing queue is
    /// closed.
    OutgoingMessage(Option<M>),
    /// The router handed over an inbound connection; `None`: the router is
    /// gone.
    IncomingConnection(Option<T>),
    /// The transport delivered a message of the peer.
    Received(P2PMessage<M>),
    /// The transport failed while receiving.
    ReceiveFailed,
    /// Nothing happened for [`KEEPALIVE_INTERVAL_MS`].
    KeepaliveElapsed,
}

/// An event of either state.
#[derive(Debug, PartialEq, Eq)]
pub enum Event<T, M> {
    /// An event that a disconnected link waits for.
    Disconnected(DisconnectedEvent<T>),
    /// An event that a connected link waits for.
    Connected(ConnectedEvent<T, M>),
}

/// What the task of a link has to do after a transition.
#[derive(Debug, PartialEq, Eq)]
pub enum Action<T, M> {
    /// End the task: a queue that it depends on is closed.
    Terminate,
    /// Go on in the given state.
    Continue(P2PConnectionSMState<T>),
    /// Send `message` over `transport`, then report to `sent` whether the
    /// transport took it.
    Send { transport: T, message: P2PMessage<M> },
    /// Put `payload` into the incoming queue of the link, waiting for room,
    /// then report to `forwarded` whether the queue took it.
    Forward { transport: T, payload: M },
    /// Open a connection to the peer, then report to `dialed` what came of
    /// it.
    Dial { backoff: FibonacciBackoff },
}

/// What a link has to wait for.
#[derive(Clone, Copy, Debug, PartialEq, Eq, Structural)]
pub enum Race {
    /// An inbound connection, and, where a delay is given, the passing of
    /// that many milliseconds.
    Disconnected { reconnect_after_ms: Option<u64> },
    /// An outgoing message, an inbound connection, a message of the peer,
    /// and the passing of that many milliseconds.
    Connected { keepalive_after_ms: u64 },
}

/// What stays with a link whatever its state: who we are, who the peer is,
/// the counters, and where the status of the link is published.
pub struct CommonModel {
    /// The member that runs this link.
    pub our_id: PeerId,
    /// The member at the other end.
    pub peer_id: PeerId,
    /// The counters of the link.
    pub metrics: PeerMetrics,
    /// The signal on which the status of the link is published, if it is
    /// published.
    pub status_channel: Option<tokio::sync::watch::Sender<P2PConnectionStatus>>,
}

impl CommonModel {
    /// The same link with other counters.
    pub open spec fn with_metrics(self, metrics: PeerMetrics) -> CommonModel {
        CommonModel { metrics, ..self }
    }

    /// Whether this end is the one that opens connections: the end with the
    /// lower id.
    pub open spec fn initiates(self) -> bool {
        self.our_id.0 < self.peer_id.0
    }
}

/// The state that follows the loss of a transport: one more disconnect is
/// counted, and the link starts over with a fresh backoff generator.
pub open spec fn spec_disconnect<T>(c: CommonModel) -> (CommonModel, P2PConnectionSMState<T>) {
    (
        c.with_metrics(c.metrics.with_disconnect()),
        P2PConnectionSMState::Disconnected(spec_api_networking_backoff()),
    )
}

/// The handshake on a new transport: a ping is sent over it.
pub open spec fn spec_connect<T, M>(connection: T) -> Action<T, M> {
    Action::Send { transport: connection, message: P2PMessage::Ping }
}

/// Sending over the live transport: the message is counted and handed out.
pub open spec fn spec_send_message<T, M>(
    c: CommonModel,
    connection: T,
    message: P2PMessage<M>,
) -> (CommonModel, Action<T, M>) {
    (
        c.with_metrics(c.metrics.with_message(Direction::Outgoing)),
        Action::Send { transport: connection, message },
    )
}

/// After a send: the transport stays live if it took the message, and is
/// lost if it did not.
pub open spec fn spec_sent<T>(c: CommonModel, transport: T, delivered: bool) -> (
    CommonModel,
    P2PConnectionSMState<T>,
) {
    if delivered {
        (c, P2PConnectionSMState::Connected(transport))
    } else {
        spec_disconnect(c)
    }
}

/// After a message was put into the incoming queue: the link goes on
/// connected if the queue took it, and ends if the queue is closed.
pub open spec fn spec_forwarded<T>(transport: T, accepted: bool) -> Option<
    P2PConnectionSMState<T>,
> {
    if accepted {
        Some(P2PConnectionSMState::Connected(transport))
    } else {
        None
    }
}

/// After an attempt to open a connection: a new transport is counted and
/// greeted with a ping; a failure leaves the link disconnected with the
/// generator it had.
pub open spec fn spec_dialed<T, M>(
    c: CommonModel,
    backoff: FibonacciBackoff,
    connection: Option<T>,
) -> (CommonModel, Action<T, M>) {
    match connection {
        Some(transport) => (
            c.with_metrics(c.metrics.with_connect(Direction::Outgoing)),
            spec_connect(transport),
        ),
        None => (c, Action::Continue(P2PConnectionSMState::Disconnected(backoff))),
    }
}

/// The transition of a disconnected link.
pub open spec fn spec_transition_disconnected<T, M>(
    c: CommonModel,
    backoff: FibonacciBackoff,
    event: DisconnectedEvent<T>,
) -> (CommonModel, Action<T, M>) {
    match event {
        DisconnectedEvent::IncomingConnection(Some(transport)) => (
            c.with_metrics(c.metrics.with_connect(Direction::Incoming)),
            spec_connect(transport),
        ),
        DisconnectedEvent::IncomingConnection(None) => (c, Action::Terminate),
        DisconnectedEvent::BackoffElapsed => (
            c,
            if c.initiates() {
                Action::Dial { backoff }
            } else {
                Action::Continue(P2PConnectionSMState::Disconnected(backoff))
            },
        ),
    }
}

/// The transition of a connected link that holds `connection`.
pub open spec fn spec_transition_connected<T, M>(
    c: CommonModel,
    connection: T,
    event: ConnectedEvent<T, M>,
) -> (CommonModel, Action<T, M>) {
    match event {
        ConnectedEvent::OutgoingMessage(Some(message)) => spec_send_message(
            c,
            connection,
            P2PMessage::Message(message),
        ),
        ConnectedEvent::OutgoingMessage(None) => (c, Action::Terminate),
        ConnectedEvent::IncomingConnection(Some(transport)) => (c, spec_connect(transport)),
        ConnectedEvent::IncomingConnection(None) => (c, Action::Terminate),
        ConnectedEvent::Received(P2PMessage::Message(message)) => (
            c.with_metrics(c.metrics.with_message(Direction::Incoming)),
            Action::Forward { transport: connection, payload: message },
        ),
        ConnectedEvent::Received(P2PMessage::Ping) => (
            c,
            Action::Continue(P2PConnectionSMState::Connected(connection)),
        ),
        ConnectedEvent::ReceiveFailed => {
            let (after, state) = spec_disconnect::<T>(c);
            (after, Action::Continue(state))
        },
        ConnectedEvent::KeepaliveElapsed => spec_send_message(c, connection, P2PMessage::Ping),
    }
}

/// The transition of a link in any state. An event that the state does not
/// wait for changes nothing.
pub open spec fn spec_state_transition<T, M>(
    c: CommonModel,
    state: P2PConnectionSMState<T>,
    event: Event<T, M>,
) -> (CommonModel, Action<T, M>) {
    match (state, event) {
        (
            P2PConnectionSMState::Disconnected(backoff),
            Event::Disconnected(event),
        ) => spec_transition_disconnected(c, backoff, event),
        (P2PConnectionSMState::Connected(connection), Event::Connected(event)) => {
            spec_transition_connected(c, connection, event)
        },
        (state, _) => (c, Action::Continue(state)),
    }
}

/// What a link in the given state waits for, and the state in which it
/// waits: a disconnected link draws the next delay from its generator, and
/// uses it only if it is the end that opens connections.
pub open spec fn spec_race<T>(c: CommonModel, state: P2PConnectionSMState<T>) -> (
    P2PConnectionSMState<T>,
    Race,
) {
    match state {
        P2PConnectionSMState::Disconnected(backoff) => (
            P2PConnectionSMState::Disconnected(backoff.spec_advance()),
            Race::Disconnected {
                reconnect_after_ms: if c.initiates() {
                    Some(backoff.spec_delay())
                } else {
                    None
                },
            },
        ),
        P2PConnectionSMState::Connected(connection) => (
            P2PConnectionSMState::Connected(connection),
            Race::Connected { keepalive_after_ms: KEEPALIVE_INTERVAL_MS },
        ),
    }
}

/// What stays with a link whatever its state.
pub struct P2PConnectionSMCommon {
    our_id: PeerId,
    peer_id: PeerId,
    metrics: PeerMetrics,
    status_channel: Option<tokio::sync::watch::Sender<P2PConnectionStatus>>,
}

impl View for P2PConnectionSMCommon {
    type V = CommonModel;

    closed spec fn view(&self) -> CommonModel {
        CommonModel {
            our_id: self.our_id,
            peer_id: self.peer_id,
            metrics: self.metrics,
            status_channel: self.status_channel,
        }
    }
}

impl P2PConnectionSMCommon {
    /// The fixed part of the link from us to `peer_id`, with all counters at
    /// zero. The status of the link is published on `status_channel`, if
    /// there is one.
    pub fn new(
        our_id: PeerId,
        peer_id: PeerId,
        status_channel: Option<tokio::sync::watch::Sender<P2PConnectionStatus>>,
    ) -> (common: P2PConnectionSMCommon)
        ensures
            common@ == (CommonModel {
                our_id,
                peer_id,
                metrics: PeerMetrics::zero(),
                status_channel,
            }),
    {
        P2PConnectionSMCommon {
            our_id,
            peer_id,
            metrics: PeerMetrics {
                connects_incoming: 0,
                connects_outgoing: 0,
                disconnects: 0,
                messages_incoming: 0,
                messages_outgoing: 0,
            },
            status_channel,
        }
    }

    /// The member that runs this link.
    pub fn our_id(&self) -> (id: PeerId)
        ensures
            id == self@.our_id,
    {
        self.our_id
    }

    /// The member at the other end.
    pub fn peer_id(&self) -> (id: PeerId)
        ensures
            id == self@.peer_id,
    {
        self.peer_id
    }

    /// The counters of the link.
    pub fn metrics(&self) -> (metrics: PeerMetrics)
        ensures
            metrics == self@.metrics,
    {
        self.metrics
    }

    /// Whether this end is the one that opens connections: the end with the
    /// lower id.
    pub fn initiates(&self) -> (r: bool)
        ensures
            r == self@.initiates(),
    {
        self.our_id.0 < self.peer_id.0
    }

    /// Tells the observers of the link the status that `race` handed out,
    /// if anyone observes the link. The last status told is the one that an
    /// observer sees.
    pub fn publish(&self, status: P2PConnectionStatus) {
        match &self.status_channel {
            Some(channel) => publish_status(channel, status),
            None => {},
        }
    }

    fn count_connect(&mut self, direction: Direction)
        ensures
            final(self)@ == old(self)@.with_metrics(old(self)@.metrics.with_connect(direction)),
    {
        match direction {
            Direction::Incoming => {
                self.metrics.connects_incoming = bump(self.metrics.connects_incoming);
            },
            Direction::Outgoing => {
                self.metrics.connects_outgoing = bump(self.metrics.connects_outgoing);
            },
        }
    }

    fn count_message(&mut self, direction: Direction)
        ensures
            final(self)@ == old(self)@.with_metrics(old(self)@.metrics.with_message(direction)),
    {
        match direction {
            Direction::Incoming => {
                self.metrics.messages_incoming = bump(self.metrics.messages_incoming);
            },
            Direction::Outgoing => {
                self.metrics.messages_outgoing = bump(self.metrics.messages_outgoing);
            },
        }
    }

    /// The transition of a connected link that holds `connection`, on the
    /// event that came first.
    pub fn transition_connected<T, M>(
        &mut self,
        connection: T,
        event: ConnectedEvent<T, M>,
    ) -> (action: Action<T, M>)
        ensures
            (final(self)@, action) == spec_transition_connected(old(self)@, connection, event),
    {
        match event {
            ConnectedEvent::OutgoingMessage(message) => match message {
                Some(message) => self.send_message(connection, P2PMessage::Message(message)),
                None => Action::Terminate,
            },
            ConnectedEvent::IncomingConnection(incoming) => match incoming {
                Some(transport) => self.connect(transport),
                None => Action::Terminate,
            },
            ConnectedEvent::Received(message) => match message {
                P2PMessage::Message(message) => {
                    self.count_message(Direction::Incoming);
                    Action::Forward { transport: connection, payload: message }
                },
                P2PMessage::Ping => Action::Continue(P2PConnectionSMState::Connected(connection)),
            },
            ConnectedEvent::ReceiveFailed => Action::Continue(self.disconnect()),
            ConnectedEvent::KeepaliveElapsed => self.send_message(connection, P2PMessage::Ping),
        }
    }

    /// The handshake on a new transport: a ping is to be sent over it.
    pub fn connect<T, M>(&mut self, connection: T) -> (action: Action<T, M>)
        ensures
            action == spec_connect::<T, M>(connection),
            *final(self) == *old(self),
    {
        Action::Send { transport: connection, message: P2PMessage::Ping }
    }

    /// The state that follows the loss of a transport: the disconnect is
    /// counted, and the link starts over with a fresh backoff generator.
    pub fn disconnect<T>(&mut self) -> (state: P2PConnectionSMState<T>)
        ensures
            (final(self)@, state) == spec_disconnect::<T>(old(self)@),
    {
        self.metrics.disconnects = bump(self.metrics.disconnects);
        P2PConnectionSMState::Disconnected(api_networking_backoff())
    }

    /// Sending over the live transport: the message is counted and is to be
    /// sent.
    pub fn send_message<T, M>(&mut self, connection: T, peer_message: P2PMessage<M>) -> (action:
        Action<T, M>)
        ensures
            (final(self)@, action) == spec_send_message(old(self)@, connection, peer_message),
    {
        self.count_message(Direction::Outgoing);
        Action::Send { transport: connection, message: peer_message }
    }

    /// The transition of a disconnected link that holds `backoff`, on the
    /// event that came first.
    pub fn transition_disconnected<T, M>(
        &mut self,
        backoff: FibonacciBackoff,
        event: DisconnectedEvent<T>,
    ) -> (action: Action<T, M>)
        ensures
            (final(self)@, action) == spec_transition_disconnected::<T, M>(
                old(self)@,
                backoff,
                event,
            ),
    {
        match event {
            DisconnectedEvent::IncomingConnection(incoming) => match incoming {
                Some(transport) => {
                    self.count_connect(Direction::Incoming);
                    self.connect(transport)
                },
                None => Action::Terminate,
            },
            DisconnectedEvent::BackoffElapsed => {
                if self.initiates() {
                    Action::Dial { backoff }
                } else {
                    Action::Continue(P2PConnectionSMState::Disconnected(backoff))
                }
            },
        }
    }

    /// What follows a send over `transport`: `delivered` says whether the
    /// transport took the message.
    pub fn sent<T>(&mut self, transport: T, delivered: bool) -> (state: P2PConnectionSMState<T>)
        ensures
            (final(self)@, state) == spec_sent(old(self)@, transport, delivered),
    {
        if delivered {
            P2PConnectionSMState::Connected(transport)
        } else {
            self.disconnect()
        }
    }

    /// What follows the handing of a received message to the incoming
    /// queue: `accepted` says whether the queue took it. `None` ends the
    /// task.
    pub fn forwarded<T>(&self, transport: T, accepted: bool) -> (state: Option<
        P2PConnectionSMState<T>,
    >)
        ensures
            state == spec_forwarded(transport, accepted),
    {
        if accepted {
            Some(P2PConnectionSMState::Connected(transport))
        } else {
            None
        }
    }

    /// What follows an attempt to open a connection: `connection` is the
    /// new transport, or `None` where the attempt failed.
    pub fn dialed<T, M>(&mut self, backoff: FibonacciBackoff, connection: Option<T>) -> (action:
        Action<T, M>)
        ensures
            (final(self)@, action) == spec_dialed::<T, M>(old(self)@, backoff, connection),
    {
        match connection {
            Some(transport) => {
                self.count_connect(Direction::Outgoing);
                self.connect(transport)
            },
            None => Action::Continue(P2PConnectionSMState::Disconnected(backoff)),
        }
    }
}

/// The state machine of one link: its state and what stays with it.
pub struct P2PConnectionStateMachine<T> {
    /// Disconnected or connected.
    pub state: P2PConnectionSMState<T>,
    /// Ids, counters and the status signal.
    pub common: P2PConnectionSMCommon,
}

impl<T> P2PConnectionStateMachine<T> {
    /// The state machine of the link from `our_id` to `peer_id` as it
    /// starts: disconnected, with a fresh backoff generator.
    pub fn new(
        our_id: PeerId,
        peer_id: PeerId,
        status_channel: Option<tokio::sync::watch::Sender<P2PConnectionStatus>>,
    ) -> (sm: P2PConnectionStateMachine<T>)
        ensures
            sm.state == P2PConnectionSMState::<T>::Disconnected(spec_api_networking_backoff()),
            sm.common@ == (CommonModel {
                our_id,
                peer_id,
                metrics: PeerMetrics::zero(),
                status_channel,
            }),
    {
        P2PConnectionStateMachine {
            state: P2PConnectionSMState::Disconnected(api_networking_backoff()),
            common: P2PConnectionSMCommon::new(our_id, peer_id, status_channel),
        }
    }

    /// Opens a round: says which status the task has to publish before it
    /// waits, and what it has to wait for. The status is that of the state
    /// in which the link waits: `Connected` exactly while it holds a
    /// transport. A disconnected link draws its next delay here.
    pub fn race(&mut self) -> (round: (P2PConnectionStatus, Race))
        ensures
            final(self).common == old(self).common,
            round.0 == old(self).state.spec_status(),
            (final(self).state, round.1) == spec_race(old(self).common@, old(self).state),
    {
        let status = self.state.status();
        let initiates = self.common.initiates();
        let race = match &mut self.state {
            P2PConnectionSMState::Disconnected(backoff) => {
                let delay_ms: u64 = backoff.next();
                Race::Disconnected {
                    reconnect_after_ms: if initiates {
                        Some(delay_ms)
                    } else {
                        None
                    },
                }
            },
            P2PConnectionSMState::Connected(_) => Race::Connected {
                keepalive_after_ms: KEEPALIVE_INTERVAL_MS,
            },
        };
        (status, race)
    }

    /// Closes a round: hands the event that came first to the transition of
    /// the current state. An event that the state does not wait for changes
    /// nothing.
    pub fn state_transition<M>(self, event: Event<T, M>) -> (r: (
        P2PConnectionSMCommon,
        Action<T, M>,
    ))
        ensures
            (r.0@, r.1) == spec_state_transition(self.common@, self.state, event),
    {
        let P2PConnectionStateMachine { state, common } = self;
        let mut common = common;
        let action = match state {
            P2PConnectionSMState::Disconnected(backoff) => match event {
                Event::Disconnected(event) => common.transition_disconnected(backoff, event),
                Event::Connected(_) => Action::Continue(
                    P2PConnectionSMState::Disconnected(backoff),
                ),
            },
            P2PConnectionSMState::Connected(connection) => match event {
                Event::Connected(event) => common.transition_connected(connection, event),
                Event::Disconnected(_) => Action::Continue(
                    P2PConnectionSMState::Connected(connection),
                ),
            },
        };
        (common, action)
    }
}

/// The link after an inbound connection was accepted and greeted:
/// `delivered` says whether the new transport took the ping.
pub open spec fn spec_accept<T, M>(
    c: CommonModel,
    state: P2PConnectionSMState<T>,
    connection: T,
    delivered: bool,
) -> (CommonModel, P2PConnectionSMState<T>) {
    let event = match state {
        P2PConnectionSMState::Disconnected(_) => Event::<T, M>::Disconnected(
            DisconnectedEvent::IncomingConnection(Some(connection)),
        ),
        P2PConnectionSMState::Connected(_) => Event::<T, M>::Connected(
            ConnectedEvent::IncomingConnection(Some(connection)),
        ),
    };
    let (after, action) = spec_state_transition(c, state, event);
    match action {
        Action::Send { transport, message } => spec_sent(after, transport, delivered),
        _ => (after, state),
    }
}

/// The link after a row of inbound connections was accepted and greeted,
/// one after the other. Each attempt is a transport and whether it took the
/// ping.
pub open spec fn spec_accept_all<T, M>(
    c: CommonModel,
    state: P2PConnectionSMState<T>,
    attempts: Seq<(T, bool)>,
) -> (CommonModel, P2PConnectionSMState<T>)
    decreases attempts.len(),
{
    if attempts.len() == 0 {
        (c, state)
    } else {
        let (before, reached) = spec_accept_all::<T, M>(c, state, attempts.drop_last());
        spec_accept::<T, M>(before, reached, attempts.last().0, attempts.last().1)
    }
}

/// Of the two ends of a link only the one with the lower id opens
/// connections. While both ends are disconnected, the lower end waits for
/// its backoff delay and dials when the delay has passed; the higher end
/// waits for no delay and does not dial, whatever event reaches it.
pub proof fn lemma_only_lower_id_dials<T, M>(
    lower: CommonModel,
    higher: CommonModel,
    lower_backoff: FibonacciBackoff,
    higher_backoff: FibonacciBackoff,
    event: DisconnectedEvent<T>,
)
    requires
        lower.our_id == higher.peer_id,
        lower.peer_id == higher.our_id,
        lower.our_id.0 < higher.our_id.0,
    ensures
        spec_race(lower, P2PConnectionSMState::<T>::Disconnected(lower_backoff)).1
            == (Race::Disconnected { reconnect_after_ms: Some(lower_backoff.spec_delay()) }),
        spec_transition_disconnected::<T, M>(
            lower,
            lower_backoff,
            DisconnectedEvent::BackoffElapsed,
        ).1 == (Action::<T, M>::Dial { backoff: lower_backoff }),
        spec_race(higher, P2PConnectionSMState::<T>::Disconnected(higher_backoff)).1
            == (Race::Disconnected { reconnect_after_ms: None }),
        !(spec_transition_disconnected::<T, M>(higher, higher_backoff, event).1 is Dial),
{
}

/// A link asks to dial only when it is disconnected, its backoff delay has
/// passed, and it is the end with the lower id. No other transition, and no
/// report of how an action went, asks for it.
pub proof fn lemma_dial_needs_lower_id<T, M>(
    c: CommonModel,
    state: P2PConnectionSMState<T>,
    event: Event<T, M>,
    backoff: FibonacciBackoff,
    connection: Option<T>,
)
    ensures
        spec_state_transition(c, state, event).1 is Dial ==> {
            &&& c.initiates()
            &&& state is Disconnected
            &&& event == Event::<T, M>::Disconnected(DisconnectedEvent::BackoffElapsed)
        },
        !(spec_dialed::<T, M>(c, backoff, connection).1 is Dial),
{
}

/// Failed attempts escalate: when the lower end waited, dialed and failed,
/// it stays disconnected with the same generator, and the delay of its next
/// round is at least the delay of this one.
pub proof fn lemma_failed_attempts_escalate<T, M>(c: CommonModel, backoff: FibonacciBackoff)
    requires
        backoff@.wf(),
        c.initiates(),
    ensures
        ({
            let (waiting, first) = spec_race(c, P2PConnectionSMState::<T>::Disconnected(backoff));
            let drawn = backoff.spec_advance();
            let (c1, dial) = spec_transition_disconnected::<T, M>(
                c,
                drawn,
                DisconnectedEvent::BackoffElapsed,
            );
            let (c2, failed) = spec_dialed::<T, M>(c1, drawn, None);
            let (_, second) = spec_race(c2, P2PConnectionSMState::<T>::Disconnected(drawn));
            &&& waiting == P2PConnectionSMState::<T>::Disconnected(drawn)
            &&& dial == (Action::<T, M>::Dial { backoff: drawn })
            &&& failed == Action::<T, M>::Continue(P2PConnectionSMState::Disconnected(drawn))
            &&& c2 == c
            &&& first == (Race::Disconnected { reconnect_after_ms: Some(backoff.spec_delay()) })
            &&& second == (Race::Disconnected { reconnect_after_ms: Some(drawn.spec_delay()) })
            &&& backoff.spec_delay() <= drawn.spec_delay()
        }),
{
    backoff.lemma_spec_next();
    drawn_delay_is_later(backoff);
}

proof fn drawn_delay_is_later(backoff: FibonacciBackoff)
    requires
        backoff@.wf(),
    ensures
        backoff.spec_delay() <= backoff.spec_advance().spec_delay(),
{
    backoff.lemma_spec_next();
    backoff.spec_advance().lemma_spec_next();
    crate::net::backoff::lemma_advance_keeps_wf(backoff@);
    crate::net::backoff::lemma_advance_keeps_wf(backoff@.advance());
}

/// One round of a disconnected link in which no connection comes about:
/// the link draws a delay, the delay passes, and if the link dials, the
/// attempt fails. The result is the generator that the link holds after the
/// round, and the delay that it waited for, if it waited for one.
pub open spec fn spec_failed_round<T, M>(c: CommonModel, backoff: FibonacciBackoff) -> (
    FibonacciBackoff,
    Option<u64>,
) {
    let (waiting, race) = spec_race(c, P2PConnectionSMState::<T>::Disconnected(backoff));
    let waited = match race {
        Race::Disconnected { reconnect_after_ms } => reconnect_after_ms,
        Race::Connected { keepalive_after_ms } => None,
    };
    let drawn = match waiting {
        P2PConnectionSMState::Disconnected(drawn) => drawn,
        P2PConnectionSMState::Connected(_) => backoff,
    };
    let after = match spec_transition_disconnected::<T, M>(
        c,
        drawn,
        DisconnectedEvent::BackoffElapsed,
    ).1 {
        Action::Dial { backoff: held } => spec_dialed::<T, M>(c, held, None).1,
        other => other,
    };
    match after {
        Action::Continue(P2PConnectionSMState::Disconnected(kept)) => (kept, waited),
        _ => (drawn, waited),
    }
}

/// The generator that a disconnected link holds after `n` such rounds.
pub open spec fn spec_failed_rounds<T, M>(
    c: CommonModel,
    backoff: FibonacciBackoff,
    n: nat,
) -> FibonacciBackoff
    decreases n,
{
    if n == 0 {
        backoff
    } else {
        spec_failed_round::<T, M>(c, spec_failed_rounds::<T, M>(c, backoff, (n - 1) as nat)).0
    }
}

/// Within one stay in `Disconnected` with one generator, the delays of the
/// end that dials never shrink: round `n` waits for delay number `n` of the
/// generator, and a later round waits at least as long as an earlier one.
pub proof fn lemma_round_delays_non_decreasing<T, M>(
    c: CommonModel,
    backoff: FibonacciBackoff,
    i: nat,
    j: nat,
)
    requires
        backoff@.wf(),
        c.initiates(),
        i <= j,
    ensures
        spec_failed_rounds::<T, M>(c, backoff, i)@ == backoff@.after(i),
        spec_failed_round::<T, M>(c, spec_failed_rounds::<T, M>(c, backoff, i)).1 == Some(
            backoff@.nth_delay(i) as u64,
        ),
        spec_failed_round::<T, M>(c, spec_failed_rounds::<T, M>(c, backoff, j)).1 == Some(
            backoff@.nth_delay(j) as u64,
        ),
        backoff@.nth_delay(i) <= backoff@.nth_delay(j) <= u64::MAX,
{
    lemma_failed_rounds_follow_the_generator::<T, M>(c, backoff, i);
    lemma_failed_rounds_follow_the_generator::<T, M>(c, backoff, j);
    crate::net::backoff::lemma_delays_non_decreasing(backoff@, i, j);
}

proof fn lemma_failed_rounds_follow_the_generator<T, M>(
    c: CommonModel,
    backoff: FibonacciBackoff,
    n: nat,
)
    requires
        backoff@.wf(),
        c.initiates(),
    ensures
        spec_failed_rounds::<T, M>(c, backoff, n)@ == backoff@.after(n),
        spec_failed_rounds::<T, M>(c, backoff, n)@.wf(),
        spec_failed_round::<T, M>(c, spec_failed_rounds::<T, M>(c, backoff, n)).1 == Some(
            backoff@.nth_delay(n) as u64,
        ),
        backoff@.nth_delay(n) <= u64::MAX,
    decreases n,
{
    if n > 0 {
        lemma_failed_rounds_follow_the_generator::<T, M>(c, backoff, (n - 1) as nat);
        let before = spec_failed_rounds::<T, M>(c, backoff, (n - 1) as nat);
        before.lemma_spec_next();
    }
    let reached = spec_failed_rounds::<T, M>(c, backoff, n);
    reached.lemma_spec_next();
}

/// Every way out of `Connected` resets the backoff: whenever a connected
/// link becomes disconnected, by a failed receive or by a send that the
/// transport did not take, it holds a fresh generator, and the first delay
/// that it draws is the floor.
pub proof fn lemma_leaving_connected_resets_backoff<T, M>(
    c: CommonModel,
    connection: T,
    event: ConnectedEvent<T, M>,
    delivered: bool,
)
    ensures
        spec_transition_connected(c, connection, event).1 matches Action::Continue(
            P2PConnectionSMState::Disconnected(backoff),
        ) ==> backoff == spec_api_networking_backoff(),
        spec_sent(c, connection, delivered).1 matches P2PConnectionSMState::Disconnected(backoff)
            ==> backoff == spec_api_networking_backoff(),
        spec_race(
            spec_disconnect::<T>(c).0,
            spec_disconnect::<T>(c).1,
        ).1 == (Race::Disconnected {
            reconnect_after_ms: if c.initiates() {
                Some(crate::net::backoff::NETWORKING_BACKOFF_MIN_MS)
            } else {
                None
            },
        }),
{
    crate::net::backoff::lemma_api_networking_backoff_is_fresh();
}

/// Whether the event says that a queue which the task depends on is closed.
pub open spec fn reports_closed_queue<T, M>(event: Event<T, M>) -> bool {
    match event {
        Event::Disconnected(DisconnectedEvent::IncomingConnection(None)) => true,
        Event::Connected(ConnectedEvent::IncomingConnection(None)) => true,
        Event::Connected(ConnectedEvent::OutgoingMessage(None)) => true,
        _ => false,
    }
}

/// Whether the state waits for the event.
pub open spec fn awaits<T, M>(state: P2PConnectionSMState<T>, event: Event<T, M>) -> bool {
    match (state, event) {
        (P2PConnectionSMState::Disconnected(_), Event::Disconnected(_)) => true,
        (P2PConnectionSMState::Connected(_), Event::Connected(_)) => true,
        _ => false,
    }
}

/// The task of a link ends exactly when a queue that it depends on is
/// closed. A transport that fails never ends it: a failed receive and a
/// failed send leave the link disconnected, ready to connect again.
pub proof fn lemma_only_closed_queues_end_the_task<T, M>(
    c: CommonModel,
    state: P2PConnectionSMState<T>,
    event: Event<T, M>,
    transport: T,
    accepted: bool,
    delivered: bool,
)
    ensures
        spec_state_transition(c, state, event).1 is Terminate <==> awaits(state, event)
            && reports_closed_queue(event),
        spec_forwarded(transport, accepted) is None <==> !accepted,
        spec_sent(c, transport, delivered).1 is Disconnected <==> !delivered,
        spec_transition_connected::<T, M>(c, transport, ConnectedEvent::ReceiveFailed).1
            == Action::<T, M>::Continue(
            P2PConnectionSMState::Disconnected(spec_api_networking_backoff()),
        ),
{
}

/// No transition makes a counter smaller, and none changes who the two ends
/// of the link are.
pub proof fn lemma_counters_only_grow<T, M>(
    c: CommonModel,
    state: P2PConnectionSMState<T>,
    event: Event<T, M>,
)
    ensures
        ({
            let after = spec_state_transition(c, state, event).0;
            &&& after.our_id == c.our_id
            &&& after.peer_id == c.peer_id
            &&& after.metrics.connects_incoming >= c.metrics.connects_incoming
            &&& after.metrics.connects_outgoing >= c.metrics.connects_outgoing
            &&& after.metrics.disconnects >= c.metrics.disconnects
            &&& after.metrics.messages_incoming >= c.metrics.messages_incoming
            &&& after.metrics.messages_outgoing >= c.metrics.messages_outgoing
        }),
{
}

/// A state holds at most one transport.
pub proof fn lemma_at_most_one_transport<T>(state: P2PConnectionSMState<T>)
    ensures
        state.live_transports() <= 1,
        state.live_transports() == 1 <==> state is Connected,
{
}

/// Accepting an inbound connection leaves the link with the new transport
/// alone if it took the ping, and with none if it did not, whatever the
/// link held before.
pub proof fn lemma_accept_supersedes<T, M>(
    c: CommonModel,
    state: P2PConnectionSMState<T>,
    connection: T,
    delivered: bool,
)
    ensures
        spec_accept::<T, M>(c, state, connection, delivered).1 == if delivered {
            P2PConnectionSMState::Connected(connection)
        } else {
            P2PConnectionSMState::Disconnected(spec_api_networking_backoff())
        },
{
}

/// Superseding is idempotent: after any row of inbound connections, the
/// link holds exactly the transport of the last attempt if that one took
/// the ping, and no transport if it did not. What the link held before, and
/// the attempts before the last, leave no trace in the state.
pub proof fn lemma_supersession_keeps_the_last<T, M>(
    c: CommonModel,
    state: P2PConnectionSMState<T>,
    attempts: Seq<(T, bool)>,
)
    requires
        attempts.len() > 0,
    ensures
        spec_accept_all::<T, M>(c, state, attempts).1 == if attempts.last().1 {
            P2PConnectionSMState::Connected(attempts.last().0)
        } else {
            P2PConnectionSMState::Disconnected(spec_api_networking_backoff())
        },
        spec_accept_all::<T, M>(c, state, attempts).1.live_transports() == if attempts.last().1 {
            1nat
        } else {
            0nat
        },
{
    let (before, reached) = spec_accept_all::<T, M>(c, state, attempts.drop_last());
    lemma_accept_supersedes::<T, M>(before, reached, attempts.last().0, attempts.last().1);
}

} // verus!
