//! The decisions of one listener and of one relayed connection, each as
//! a step from a state and an event to the next state and what to do.
//!
//! Whoever runs a listener performs what a step asks for and hands back
//! what came of it. A listener knows its own rule only: what befalls one
//! listener or one connection decides nothing for any other.

use crate::addr::SocketAddrV4;
use crate::rules::ProxyConfig;
use vstd::prelude::*;

verus! {

/// Where a listener stands.
#[derive(Debug, Clone, Copy, PartialEq, Eq, Structural)]
pub enum ListenerState {
    /// Not yet asked to listen.
    Idle,
    /// Waiting for the listening socket to be bound.
    Binding,
    /// Bound, and waiting for the next connection.
    Accepting,
    /// Ended because the listening address could not be bound.
    BindFailed,
    /// Ended because accepting failed.
    Stopped,
}

/// What has happened to a listener.
#[derive(Debug, Clone, Copy, PartialEq, Eq, Structural)]
pub enum ListenerEvent {
    /// The listener is asked to listen.
    Start,
    /// The listening socket is bound.
    Bound,
    /// The listening address could not be bound.
    BindError,
    /// A connection was accepted.
    Accepted,
    /// Accepting failed for good: no further connection will come.
    AcceptError,
}

/// What a listener is to do next.
#[derive(Debug, Clone, Copy, PartialEq, Eq, Structural)]
pub enum ListenerAction {
    /// Bind a listening socket to this address.
    Bind(SocketAddrV4),
    /// Wait for the next connection.
    Accept,
    /// Hand the accepted connection to a relay of its own towards this
    /// upstream address, without waiting for it, and wait for the next
    /// connection.
    Relay(SocketAddrV4),
    /// Report that the listening address could not be bound, and end.
    ReportBindError(SocketAddrV4),
    /// End.
    Finish,
    /// Nothing: the event does not concern the listener as it stands.
    Ignore,
}

/// Where a relayed connection stands.
#[derive(Debug, Clone, Copy, PartialEq, Eq, Structural)]
pub enum RelayState {
    /// Waiting for the connection to the upstream.
    Dialing,
    /// Copying bytes both ways.
    Copying,
    /// Over.
    Closed,
}

/// What has happened to a relayed connection.
#[derive(Debug, Clone, Copy, PartialEq, Eq, Structural)]
pub enum RelayEvent {
    Connected,
    DialError,
    /// Both directions came to their end after this many bytes each.
    Finished { to_upstream: u64, to_client: u64 },
    IoError,
}

/// What a relay is to do next.
#[derive(Debug, Clone, Copy, PartialEq, Eq, Structural)]
pub enum RelayAction {
    /// Copy bytes both ways until either side ends.
    Copy,
    /// Warn that the upstream could not be reached, and close the
    /// client's connection.
    WarnDialError,
    /// Report how many bytes went each way, and close.
    ReportBytes { to_upstream: u64, to_client: u64 },
    /// Warn that copying failed, and close.
    WarnIoError,
    /// Nothing: the event does not concern the relay as it stands.
    Ignore,
}

impl ListenerState {
    /// A listener that has ended takes no further step.
    pub open spec fn is_final(self) -> bool {
        self is BindFailed || self is Stopped
    }

    /// The step of a listener for `rule` in state `self` on `event`.
    pub open spec fn next(self, rule: ProxyConfig, event: ListenerEvent) -> (
        ListenerState,
        ListenerAction,
    ) {
        match (self, event) {
            (ListenerState::Idle, ListenerEvent::Start) => (
                ListenerState::Binding,
                ListenerAction::Bind(rule.target_addr),
            ),
            (ListenerState::Binding, ListenerEvent::Bound) => (
                ListenerState::Accepting,
                ListenerAction::Accept,
            ),
            (ListenerState::Binding, ListenerEvent::BindError) => (
                ListenerState::BindFailed,
                ListenerAction::ReportBindError(rule.target_addr),
            ),
            (ListenerState::Accepting, ListenerEvent::Accepted) => (
                ListenerState::Accepting,
                ListenerAction::Relay(rule.source_addr),
            ),
            (ListenerState::Accepting, ListenerEvent::AcceptError) => (
                ListenerState::Stopped,
                ListenerAction::Finish,
            ),
            _ => (self, ListenerAction::Ignore),
        }
    }

    pub fn new() -> (state: ListenerState)
        ensures
            state == ListenerState::Idle,
    {
        ListenerState::Idle
    }

    /// Takes one step.
    pub fn step(self, rule: &ProxyConfig, event: ListenerEvent) -> (r: (
        ListenerState,
        ListenerAction,
    ))
        ensures
            r == self.next(*rule, event),
    {
        match self {
            ListenerState::Idle => match event {
                ListenerEvent::Start => (
                    ListenerState::Binding,
                    ListenerAction::Bind(rule.target_addr),
                ),
                _ => (self, ListenerAction::Ignore),
            },
            ListenerState::Binding => match event {
                ListenerEvent::Bound => (ListenerState::Accepting, ListenerAction::Accept),
                ListenerEvent::BindError => (
                    ListenerState::BindFailed,
                    ListenerAction::ReportBindError(rule.target_addr),
                ),
                _ => (self, ListenerAction::Ignore),
            },
            ListenerState::Accepting => match event {
                ListenerEvent::Accepted => (
                    ListenerState::Accepting,
                    ListenerAction::Relay(rule.source_addr),
                ),
                ListenerEvent::AcceptError => (ListenerState::Stopped, ListenerAction::Finish),
                _ => (self, ListenerAction::Ignore),
            },
            _ => (self, ListenerAction::Ignore),
        }
    }
}

impl ProxyConfig {
    /// Starts the listener of this pair: a new listener takes its first
    /// step, which asks for the listening address to be bound.
    pub fn start_proxy(&self) -> (r: (ListenerState, ListenerAction))
        ensures
            r == ListenerState::Idle.next(*self, ListenerEvent::Start),
            r == (ListenerState::Binding, ListenerAction::Bind(self.target_addr)),
    {
        ListenerState::new().step(self, ListenerEvent::Start)
    }
}

impl RelayState {
    pub open spec fn is_final(self) -> bool {
        self is Closed
    }

    /// The step of a relay in state `self` on `event`.
    pub open spec fn next(self, event: RelayEvent) -> (RelayState, RelayAction) {
        match (self, event) {
            (RelayState::Dialing, RelayEvent::Connected) => (RelayState::Copying, RelayAction::Copy),
            (RelayState::Dialing, RelayEvent::DialError) => (
                RelayState::Closed,
                RelayAction::WarnDialError,
            ),
            (RelayState::Copying, RelayEvent::Finished { to_upstream, to_client }) => (
                RelayState::Closed,
                RelayAction::ReportBytes { to_upstream, to_client },
            ),
            (RelayState::Copying, RelayEvent::IoError) => (
                RelayState::Closed,
                RelayAction::WarnIoError,
            ),
            _ => (self, RelayAction::Ignore),
        }
    }

    pub fn new() -> (state: RelayState)
        ensures
            state == RelayState::Dialing,
    {
        RelayState::Dialing
    }

    /// Takes one step.
    pub fn step(self, event: RelayEvent) -> (r: (RelayState, RelayAction))
        ensures
            r == self.next(event),
    {
        match self {
            RelayState::Dialing => match event {
                RelayEvent::Connected => (RelayState::Copying, RelayAction::Copy),
                RelayEvent::DialError => (RelayState::Closed, RelayAction::WarnDialError),
                _ => (self, RelayAction::Ignore),
            },
            RelayState::Copying => match event {
                RelayEvent::Finished { to_upstream, to_client } => (
                    RelayState::Closed,
                    RelayAction::ReportBytes { to_upstream, to_client },
                ),
                RelayEvent::IoError => (RelayState::Closed, RelayAction::WarnIoError),
                _ => (self, RelayAction::Ignore),
            },
            RelayState::Closed => (self, RelayAction::Ignore),
        }
    }
}

/// The state of a listener after the events `events`, one after another.
pub open spec fn listener_after(
    state: ListenerState,
    rule: ProxyConfig,
    events: Seq<ListenerEvent>,
) -> ListenerState
    decreases events.len(),
{
    if events.len() == 0 {
        state
    } else {
        listener_after(state, rule, events.drop_last()).next(rule, events.last()).0
    }
}

/// The state of a relay after the events `events`, one after another.
pub open spec fn relay_after(state: RelayState, events: Seq<RelayEvent>) -> RelayState
    decreases events.len(),
{
    if events.len() == 0 {
        state
    } else {
        relay_after(state, events.drop_last()).next(events.last()).0
    }
}

/// A listener that has ended stays ended and asks for nothing more,
/// whatever happens.
pub proof fn lemma_listener_final(
    state: ListenerState,
    rule: ProxyConfig,
    events: Seq<ListenerEvent>,
)
    requires
        state.is_final(),
    ensures
        listener_after(state, rule, events) == state,
        forall|event: ListenerEvent| state.next(rule, event) == (state, ListenerAction::Ignore),
    decreases events.len(),
{
    if events.len() > 0 {
        lemma_listener_final(state, rule, events.drop_last());
    }
}

/// A listener that accepts goes on accepting until accepting fails:
/// every connection is handed to a relay towards the rule's upstream, and
/// no other event ends the listener.
pub proof fn lemma_listener_accepts(rule: ProxyConfig, event: ListenerEvent)
    ensures
        event is Accepted ==> ListenerState::Accepting.next(rule, event) == (
            ListenerState::Accepting,
            ListenerAction::Relay(rule.source_addr),
        ),
        ListenerState::Accepting.next(rule, event).0.is_final() <==> event is AcceptError,
{
}

/// A relay ends after the first answer to its dialing that is an error,
/// and after the first end of its copying, and is never taken up again:
/// once closed it stays closed and asks for nothing more.
pub proof fn lemma_relay_final(events: Seq<RelayEvent>)
    ensures
        relay_after(RelayState::Closed, events) == RelayState::Closed,
        forall|event: RelayEvent|
            RelayState::Closed.next(event) == (RelayState::Closed, RelayAction::Ignore),
        forall|event: RelayEvent|
            event is DialError ==> RelayState::Dialing.next(event).0 == RelayState::Closed,
        forall|event: RelayEvent|
            event is Finished || event is IoError ==> RelayState::Copying.next(event).0
                == RelayState::Closed,
    decreases events.len(),
{
    if events.len() > 0 {
        lemma_relay_final(events.drop_last());
    }
}

/// The bytes that a relay reports are those that copying counted.
pub proof fn lemma_relay_reports(to_upstream: u64, to_client: u64)
    ensures
        RelayState::Copying.next(RelayEvent::Finished { to_upstream, to_client }).1 == (
            RelayAction::ReportBytes { to_upstream, to_client }),
{
}

} // verus!
