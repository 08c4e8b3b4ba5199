use tcp_proxy::addr::{Ipv4Addr, SocketAddrV4};
use tcp_proxy::listener::{
    ListenerAction, ListenerEvent, ListenerState, RelayAction, RelayEvent, RelayState,
};
use tcp_proxy::rules::ProxyConfig;

fn rule() -> ProxyConfig {
    ProxyConfig {
        source_addr: SocketAddrV4::new(Ipv4Addr::new(1, 2, 3, 4), 8080),
        target_addr: SocketAddrV4::new(Ipv4Addr::unspecified(), 80),
    }
}

const LISTENER_EVENTS: [ListenerEvent; 5] = [
    ListenerEvent::Start,
    ListenerEvent::Bound,
    ListenerEvent::BindError,
    ListenerEvent::Accepted,
    ListenerEvent::AcceptError,
];

#[test]
fn listener_binds_its_listening_address() {
    let state = ListenerState::new();
    assert_eq!(state, ListenerState::Idle);
    let (state, action) = state.step(&rule(), ListenerEvent::Start);
    assert_eq!(state, ListenerState::Binding);
    assert_eq!(action, ListenerAction::Bind(rule().target_addr));
    let (state, action) = state.step(&rule(), ListenerEvent::Bound);
    assert_eq!(state, ListenerState::Accepting);
    assert_eq!(action, ListenerAction::Accept);
}

#[test]
fn listener_relays_every_connection_to_the_upstream() {
    let mut state = ListenerState::Accepting;
    for _ in 0..100 {
        let (next, action) = state.step(&rule(), ListenerEvent::Accepted);
        assert_eq!(next, ListenerState::Accepting);
        assert_eq!(action, ListenerAction::Relay(rule().source_addr));
        state = next;
    }
}

#[test]
fn listener_ends_when_binding_fails() {
    let (state, action) = ListenerState::Binding.step(&rule(), ListenerEvent::BindError);
    assert_eq!(state, ListenerState::BindFailed);
    assert_eq!(action, ListenerAction::ReportBindError(rule().target_addr));
}

#[test]
fn listener_ends_when_accepting_fails() {
    let (state, action) = ListenerState::Accepting.step(&rule(), ListenerEvent::AcceptError);
    assert_eq!(state, ListenerState::Stopped);
    assert_eq!(action, ListenerAction::Finish);
}

#[test]
fn ended_listener_ignores_everything() {
    for state in [ListenerState::BindFailed, ListenerState::Stopped] {
        for event in LISTENER_EVENTS {
            assert_eq!(state.step(&rule(), event), (state, ListenerAction::Ignore));
        }
    }
}

#[test]
fn listener_ignores_events_out_of_turn() {
    for event in LISTENER_EVENTS {
        if event != ListenerEvent::Start {
            let (state, action) = ListenerState::Idle.step(&rule(), event);
            assert_eq!((state, action), (ListenerState::Idle, ListenerAction::Ignore));
        }
        if event != ListenerEvent::Bound && event != ListenerEvent::BindError {
            let (state, action) = ListenerState::Binding.step(&rule(), event);
            assert_eq!((state, action), (ListenerState::Binding, ListenerAction::Ignore));
        }
        if event != ListenerEvent::Accepted && event != ListenerEvent::AcceptError {
            let (state, action) = ListenerState::Accepting.step(&rule(), event);
            assert_eq!((state, action), (ListenerState::Accepting, ListenerAction::Ignore));
        }
    }
}

#[test]
fn relay_copies_after_the_upstream_answers() {
    let state = RelayState::new();
    assert_eq!(state, RelayState::Dialing);
    let (state, action) = state.step(RelayEvent::Connected);
    assert_eq!(state, RelayState::Copying);
    assert_eq!(action, RelayAction::Copy);
    let (state, action) = state.step(RelayEvent::Finished { to_upstream: 1234, to_client: 98765 });
    assert_eq!(state, RelayState::Closed);
    assert_eq!(action, RelayAction::ReportBytes { to_upstream: 1234, to_client: 98765 });
}

#[test]
fn relay_gives_up_when_the_upstream_is_out_of_reach() {
    let (state, action) = RelayState::Dialing.step(RelayEvent::DialError);
    assert_eq!(state, RelayState::Closed);
    assert_eq!(action, RelayAction::WarnDialError);
}

#[test]
fn relay_ends_on_a_copy_error() {
    let (state, action) = RelayState::Copying.step(RelayEvent::IoError);
    assert_eq!(state, RelayState::Closed);
    assert_eq!(action, RelayAction::WarnIoError);
}

#[test]
fn closed_relay_is_never_taken_up_again() {
    let events = [
        RelayEvent::Connected,
        RelayEvent::DialError,
        RelayEvent::Finished { to_upstream: 0, to_client: 0 },
        RelayEvent::IoError,
    ];
    for event in events {
        assert_eq!(RelayState::Closed.step(event), (RelayState::Closed, RelayAction::Ignore));
    }
    let (state, action) = RelayState::Dialing.step(RelayEvent::IoError);
    assert_eq!((state, action), (RelayState::Dialing, RelayAction::Ignore));
    let (state, action) = RelayState::Copying.step(RelayEvent::Connected);
    assert_eq!((state, action), (RelayState::Copying, RelayAction::Ignore));
}

#[test]
fn start_proxy_asks_for_the_listening_address() {
    let (state, action) = rule().start_proxy();
    assert_eq!(state, ListenerState::Binding);
    assert_eq!(action, ListenerAction::Bind(SocketAddrV4::new(Ipv4Addr::new(0, 0, 0, 0), 80)));
}
