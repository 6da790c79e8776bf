use fedimint_server::net::backoff::api_networking_backoff;
use fedimint_server::net::connection::{
    Action, ConnectedEvent, DisconnectedEvent, Event, P2PConnectionSMCommon, P2PConnectionSMState,
    P2PConnectionStateMachine, P2PConnectionStatus, PeerMetrics, Race, KEEPALIVE_INTERVAL_MS,
};
use fedimint_server::net::peer_id::PeerId;
use fedimint_server::net::peers::P2PMessage;

fn zero() -> PeerMetrics {
    PeerMetrics {
        connects_incoming: 0,
        connects_outgoing: 0,
        disconnects: 0,
        messages_incoming: 0,
        messages_outgoing: 0,
    }
}

fn common(ours: u16, peer: u16) -> P2PConnectionSMCommon {
    P2PConnectionSMCommon::new(PeerId(ours), PeerId(peer), None)
}

#[test]
fn a_new_machine_is_disconnected_with_a_fresh_backoff() {
    let sm: P2PConnectionStateMachine<u32> =
        P2PConnectionStateMachine::new(PeerId(3), PeerId(5), None);
    assert_eq!(sm.state, P2PConnectionSMState::Disconnected(api_networking_backoff()));
    assert_eq!(sm.state.status(), P2PConnectionStatus::Disconnected);
    assert_eq!(sm.common.our_id(), PeerId(3));
    assert_eq!(sm.common.peer_id(), PeerId(5));
    assert_eq!(sm.common.metrics(), zero());
    assert!(sm.common.initiates());
}

#[test]
fn only_the_lower_id_waits_for_its_backoff() {
    let mut lower: P2PConnectionStateMachine<u32> =
        P2PConnectionStateMachine::new(PeerId(0), PeerId(1), None);
    let mut higher: P2PConnectionStateMachine<u32> =
        P2PConnectionStateMachine::new(PeerId(1), PeerId(0), None);
    assert_eq!(
        lower.race(),
        (P2PConnectionStatus::Disconnected, Race::Disconnected { reconnect_after_ms: Some(250) })
    );
    assert_eq!(
        higher.race(),
        (P2PConnectionStatus::Disconnected, Race::Disconnected { reconnect_after_ms: None })
    );
    assert!(!higher.common.initiates());
}

#[test]
fn only_the_lower_id_dials() {
    let mut lower = common(0, 1);
    let mut higher = common(1, 0);
    let action: Action<u32, String> =
        lower.transition_disconnected(api_networking_backoff(), DisconnectedEvent::BackoffElapsed);
    assert_eq!(action, Action::Dial { backoff: api_networking_backoff() });
    let action: Action<u32, String> =
        higher.transition_disconnected(api_networking_backoff(), DisconnectedEvent::BackoffElapsed);
    assert_eq!(
        action,
        Action::Continue(P2PConnectionSMState::Disconnected(api_networking_backoff()))
    );
    assert_eq!(lower.metrics(), zero());
    assert_eq!(higher.metrics(), zero());
}

#[test]
fn a_machine_never_dials_itself_or_a_lower_peer() {
    for (ours, peer) in [(4u16, 4u16), (5, 4), (65535, 0)] {
        let mut c = common(ours, peer);
        let action: Action<u32, u8> =
            c.transition_disconnected(api_networking_backoff(), DisconnectedEvent::BackoffElapsed);
        assert!(matches!(action, Action::Continue(P2PConnectionSMState::Disconnected(_))));
    }
}

#[test]
fn failed_attempts_escalate_the_delay() {
    let mut sm: P2PConnectionStateMachine<u32> =
        P2PConnectionStateMachine::new(PeerId(0), PeerId(1), None);
    let mut delays = Vec::new();
    for _ in 0..11 {
        let delay = match sm.race() {
            (
                P2PConnectionStatus::Disconnected,
                Race::Disconnected { reconnect_after_ms: Some(delay) },
            ) => delay,
            other => panic!("unexpected race {other:?}"),
        };
        delays.push(delay);
        let (mut common, action) =
            sm.state_transition::<u8>(Event::Disconnected(DisconnectedEvent::BackoffElapsed));
        let backoff = match action {
            Action::Dial { backoff } => backoff,
            other => panic!("unexpected action {other:?}"),
        };
        let state = match common.dialed::<u32, u8>(backoff, None) {
            Action::Continue(state) => state,
            other => panic!("unexpected action {other:?}"),
        };
        assert_eq!(state.status(), P2PConnectionStatus::Disconnected);
        sm = P2PConnectionStateMachine { state, common };
    }
    assert_eq!(
        delays,
        vec![250, 250, 500, 750, 1250, 2000, 3250, 5250, 8500, 10_000, 10_000]
    );
    assert_eq!(sm.common.metrics(), zero());
}

#[test]
fn the_higher_id_draws_delays_without_using_them() {
    let mut sm: P2PConnectionStateMachine<u32> =
        P2PConnectionStateMachine::new(PeerId(1), PeerId(0), None);
    assert_eq!(sm.race().1, Race::Disconnected { reconnect_after_ms: None });
    assert_eq!(sm.race().1, Race::Disconnected { reconnect_after_ms: None });
    match &sm.state {
        P2PConnectionSMState::Disconnected(backoff) => {
            assert_eq!(backoff.last_delay_ms(), Some(250))
        }
        other => panic!("unexpected state {other:?}"),
    }
}

#[test]
fn an_inbound_connection_is_greeted_with_a_ping() {
    let mut c = common(1, 0);
    let action: Action<u32, String> = c.transition_disconnected(
        api_networking_backoff(),
        DisconnectedEvent::IncomingConnection(Some(7)),
    );
    assert_eq!(action, Action::Send { transport: 7, message: P2PMessage::Ping });
    assert_eq!(c.metrics(), PeerMetrics { connects_incoming: 1, ..zero() });
    assert_eq!(c.sent(7u32, true), P2PConnectionSMState::Connected(7));
    assert_eq!(c.metrics(), PeerMetrics { connects_incoming: 1, ..zero() });
}

#[test]
fn a_failed_greeting_leaves_the_link_disconnected_with_a_fresh_backoff() {
    let mut c = common(1, 0);
    let mut used = api_networking_backoff();
    used.next();
    used.next();
    used.next();
    let action: Action<u32, String> =
        c.transition_disconnected(used, DisconnectedEvent::IncomingConnection(Some(7)));
    assert_eq!(action, Action::Send { transport: 7, message: P2PMessage::Ping });
    assert_eq!(
        c.sent(7u32, false),
        P2PConnectionSMState::Disconnected(api_networking_backoff())
    );
    assert_eq!(c.metrics(), PeerMetrics { connects_incoming: 1, disconnects: 1, ..zero() });
}

#[test]
fn a_closed_router_ends_the_task() {
    let mut c = common(0, 1);
    let action: Action<u32, String> = c.transition_disconnected(
        api_networking_backoff(),
        DisconnectedEvent::IncomingConnection(None),
    );
    assert_eq!(action, Action::Terminate);
    // no connection arrived, so none is counted
    assert_eq!(c.metrics(), zero());
    let action: Action<u32, String> =
        c.transition_connected(3, ConnectedEvent::IncomingConnection(None));
    assert_eq!(action, Action::Terminate);
}

#[test]
fn a_closed_outgoing_queue_ends_the_task() {
    let mut c = common(0, 1);
    let action: Action<u32, String> =
        c.transition_connected(3, ConnectedEvent::OutgoingMessage(None));
    assert_eq!(action, Action::Terminate);
    assert_eq!(c.metrics(), zero());
}

#[test]
fn a_successful_dial_is_counted_and_greeted() {
    let mut c = common(0, 1);
    let action: Action<u32, String> = c.dialed(api_networking_backoff(), Some(9));
    assert_eq!(action, Action::Send { transport: 9, message: P2PMessage::Ping });
    assert_eq!(c.metrics(), PeerMetrics { connects_outgoing: 1, ..zero() });
}

#[test]
fn a_failed_dial_keeps_the_backoff() {
    let mut c = common(0, 1);
    let mut used = api_networking_backoff();
    used.next();
    used.next();
    used.next();
    let mut same = api_networking_backoff();
    same.next();
    same.next();
    same.next();
    let action: Action<u32, String> = c.dialed(used, None);
    assert_eq!(action, Action::Continue(P2PConnectionSMState::Disconnected(same)));
    assert_eq!(c.metrics(), zero());
}

#[test]
fn an_outgoing_message_is_framed_counted_and_sent() {
    let mut c = common(0, 1);
    let action: Action<u32, String> =
        c.transition_connected(3, ConnectedEvent::OutgoingMessage(Some("hello".to_string())));
    assert_eq!(
        action,
        Action::Send { transport: 3, message: P2PMessage::Message("hello".to_string()) }
    );
    assert_eq!(c.metrics(), PeerMetrics { messages_outgoing: 1, ..zero() });
    assert_eq!(c.sent(3u32, true), P2PConnectionSMState::Connected(3));
}

#[test]
fn a_failed_send_disconnects() {
    let mut c = common(0, 1);
    let _: Action<u32, String> =
        c.transition_connected(3, ConnectedEvent::OutgoingMessage(Some("hello".to_string())));
    assert_eq!(
        c.sent(3u32, false),
        P2PConnectionSMState::Disconnected(api_networking_backoff())
    );
    assert_eq!(c.metrics(), PeerMetrics { messages_outgoing: 1, disconnects: 1, ..zero() });
}

#[test]
fn a_received_message_is_counted_and_forwarded() {
    let mut c = common(0, 1);
    let action: Action<u32, String> = c.transition_connected(
        3,
        ConnectedEvent::Received(P2PMessage::Message("hi".to_string())),
    );
    assert_eq!(action, Action::Forward { transport: 3, payload: "hi".to_string() });
    assert_eq!(c.metrics(), PeerMetrics { messages_incoming: 1, ..zero() });
    assert_eq!(c.forwarded(3u32, true), Some(P2PConnectionSMState::Connected(3)));
    assert_eq!(c.forwarded(3u32, false), None);
}

#[test]
fn a_received_ping_is_consumed_silently() {
    let mut c = common(0, 1);
    let action: Action<u32, String> =
        c.transition_connected(3, ConnectedEvent::Received(P2PMessage::Ping));
    assert_eq!(action, Action::Continue(P2PConnectionSMState::Connected(3)));
    assert_eq!(c.metrics(), zero());
}

#[test]
fn a_failed_receive_disconnects_with_a_fresh_backoff() {
    let mut c = common(0, 1);
    let action: Action<u32, String> = c.transition_connected(3, ConnectedEvent::ReceiveFailed);
    assert_eq!(
        action,
        Action::Continue(P2PConnectionSMState::Disconnected(api_networking_backoff()))
    );
    assert_eq!(c.metrics(), PeerMetrics { disconnects: 1, ..zero() });
}

#[test]
fn the_keepalive_is_a_counted_ping() {
    let mut sm: P2PConnectionStateMachine<u32> = P2PConnectionStateMachine {
        state: P2PConnectionSMState::Connected(3),
        common: common(0, 1),
    };
    assert_eq!(
        sm.race(),
        (P2PConnectionStatus::Connected, Race::Connected { keepalive_after_ms: 10_000 })
    );
    assert_eq!(KEEPALIVE_INTERVAL_MS, 10_000);
    let (c, action) = sm.state_transition::<String>(Event::Connected(ConnectedEvent::KeepaliveElapsed));
    assert_eq!(action, Action::Send { transport: 3, message: P2PMessage::Ping });
    assert_eq!(c.metrics(), PeerMetrics { messages_outgoing: 1, ..zero() });
}

#[test]
fn a_new_connection_supersedes_the_live_one() {
    let mut c = common(1, 0);
    let action: Action<u32, String> =
        c.transition_connected(3, ConnectedEvent::IncomingConnection(Some(4)));
    assert_eq!(action, Action::Send { transport: 4, message: P2PMessage::Ping });
    assert_eq!(c.metrics(), zero());
    assert_eq!(c.sent(4u32, true), P2PConnectionSMState::Connected(4));
}

#[test]
fn repeated_supersession_leaves_the_last_transport_alone() {
    let mut sm: P2PConnectionStateMachine<u32> = P2PConnectionStateMachine {
        state: P2PConnectionSMState::Connected(0),
        common: common(1, 0),
    };
    for transport in 1..=50u32 {
        let (mut c, action) = sm.state_transition::<String>(Event::Connected(
            ConnectedEvent::IncomingConnection(Some(transport)),
        ));
        let state = match action {
            Action::Send { transport, message: P2PMessage::Ping } => c.sent(transport, true),
            other => panic!("unexpected action {other:?}"),
        };
        assert_eq!(state, P2PConnectionSMState::Connected(transport));
        sm = P2PConnectionStateMachine { state, common: c };
    }
    assert_eq!(sm.state, P2PConnectionSMState::Connected(50));
    assert_eq!(sm.common.metrics(), zero());
}

#[test]
fn an_event_of_the_other_state_changes_nothing() {
    let sm: P2PConnectionStateMachine<u32> = P2PConnectionStateMachine {
        state: P2PConnectionSMState::Connected(3),
        common: common(0, 1),
    };
    let (c, action) =
        sm.state_transition::<String>(Event::Disconnected(DisconnectedEvent::BackoffElapsed));
    assert_eq!(action, Action::Continue(P2PConnectionSMState::Connected(3)));
    assert_eq!(c.metrics(), zero());

    let sm: P2PConnectionStateMachine<u32> =
        P2PConnectionStateMachine::new(PeerId(0), PeerId(1), None);
    let (c, action) =
        sm.state_transition::<String>(Event::Connected(ConnectedEvent::KeepaliveElapsed));
    assert_eq!(
        action,
        Action::Continue(P2PConnectionSMState::Disconnected(api_networking_backoff()))
    );
    assert_eq!(c.metrics(), zero());
}

#[test]
fn every_disconnect_is_counted() {
    let mut c = common(0, 1);
    for _ in 0..3 {
        let _: P2PConnectionSMState<u32> = c.disconnect();
    }
    assert_eq!(c.metrics().disconnects, 3);
}

#[test]
fn the_status_follows_the_state() {
    let (sender, receiver) = tokio::sync::watch::channel(P2PConnectionStatus::Connected);
    let mut sm: P2PConnectionStateMachine<u32> =
        P2PConnectionStateMachine::new(PeerId(1), PeerId(0), Some(sender));
    let (status, _) = sm.race();
    assert_eq!(status, P2PConnectionStatus::Disconnected);
    sm.common.publish(status);
    assert_eq!(*receiver.borrow(), P2PConnectionStatus::Disconnected);
    sm.state = P2PConnectionSMState::Connected(8);
    let (status, _) = sm.race();
    assert_eq!(status, P2PConnectionStatus::Connected);
    sm.common.publish(status);
    assert_eq!(*receiver.borrow(), P2PConnectionStatus::Connected);
    drop(receiver);
    // nobody observes any more: publishing is still harmless
    sm.common.publish(P2PConnectionStatus::Disconnected);
}

#[test]
fn a_link_without_a_channel_has_the_same_rounds() {
    let (sender, _receiver) = tokio::sync::watch::channel(P2PConnectionStatus::Connected);
    let mut with: P2PConnectionStateMachine<u32> =
        P2PConnectionStateMachine::new(PeerId(0), PeerId(1), Some(sender));
    let mut without: P2PConnectionStateMachine<u32> =
        P2PConnectionStateMachine::new(PeerId(0), PeerId(1), None);
    for _ in 0..4 {
        let round = with.race();
        assert_eq!(round, without.race());
        with.common.publish(round.0);
        without.common.publish(round.0);
    }
    assert_eq!(with.state, without.state);
}

// A receive fails while the link is connected: the observers see Connected,
// then Disconnected, then, once the lower end has dialed again, Connected.
#[test]
fn a_lost_transport_shows_as_connected_disconnected_connected() {
    let (sender, receiver) = tokio::sync::watch::channel(P2PConnectionStatus::Disconnected);
    let mut seen = Vec::new();
    let mut sm: P2PConnectionStateMachine<u32> = P2PConnectionStateMachine {
        state: P2PConnectionSMState::Connected(1),
        common: P2PConnectionSMCommon::new(PeerId(0), PeerId(1), Some(sender)),
    };

    let (status, race) = sm.race();
    assert_eq!(race, Race::Connected { keepalive_after_ms: 10_000 });
    sm.common.publish(status);
    seen.push(*receiver.borrow());
    let (c, action) = sm.state_transition::<String>(Event::Connected(ConnectedEvent::ReceiveFailed));
    let state = match action {
        Action::Continue(state) => state,
        other => panic!("unexpected action {other:?}"),
    };
    sm = P2PConnectionStateMachine { state, common: c };

    // the first delay after the loss is the floor
    let (status, race) = sm.race();
    assert_eq!(race, Race::Disconnected { reconnect_after_ms: Some(250) });
    sm.common.publish(status);
    seen.push(*receiver.borrow());
    let (mut c, action) =
        sm.state_transition::<String>(Event::Disconnected(DisconnectedEvent::BackoffElapsed));
    let backoff = match action {
        Action::Dial { backoff } => backoff,
        other => panic!("unexpected action {other:?}"),
    };
    let state = match c.dialed::<u32, String>(backoff, Some(2)) {
        Action::Send { transport, message: P2PMessage::Ping } => c.sent(transport, true),
        other => panic!("unexpected action {other:?}"),
    };
    sm = P2PConnectionStateMachine { state, common: c };

    let (status, race) = sm.race();
    assert_eq!(race, Race::Connected { keepalive_after_ms: 10_000 });
    sm.common.publish(status);
    seen.push(*receiver.borrow());

    assert_eq!(
        seen,
        vec![
            P2PConnectionStatus::Connected,
            P2PConnectionStatus::Disconnected,
            P2PConnectionStatus::Connected
        ]
    );
    assert_eq!(sm.state, P2PConnectionSMState::Connected(2));
    assert_eq!(
        sm.common.metrics(),
        PeerMetrics { disconnects: 1, connects_outgoing: 1, ..zero() }
    );
}

// Two inbound connections arrive back to back while the link is
// disconnected: the second supersedes the first, and one transport is live.
#[test]
fn two_inbound_connections_back_to_back_leave_the_second() {
    let sm: P2PConnectionStateMachine<u32> =
        P2PConnectionStateMachine::new(PeerId(1), PeerId(0), None);
    let (mut c, action) = sm.state_transition::<String>(Event::Disconnected(
        DisconnectedEvent::IncomingConnection(Some(1)),
    ));
    let state = match action {
        Action::Send { transport, message: P2PMessage::Ping } => c.sent(transport, true),
        other => panic!("unexpected action {other:?}"),
    };
    assert_eq!(state, P2PConnectionSMState::Connected(1));
    let sm = P2PConnectionStateMachine { state, common: c };
    let (mut c, action) = sm.state_transition::<String>(Event::Connected(
        ConnectedEvent::IncomingConnection(Some(2)),
    ));
    let state = match action {
        Action::Send { transport, message: P2PMessage::Ping } => c.sent(transport, true),
        other => panic!("unexpected action {other:?}"),
    };
    assert_eq!(state, P2PConnectionSMState::Connected(2));
    assert_eq!(c.metrics(), PeerMetrics { connects_incoming: 1, ..zero() });
}
