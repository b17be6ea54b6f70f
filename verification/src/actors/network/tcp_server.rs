//! What the TCP server does with each thing that happens to its listener.
//!
//! The server actor waits on two things at once, the termination signal
//! first. It hands each of them to `on_event` and does what comes back.

use vstd::prelude::*;

verus! {

/// One thing that happened to the server.
#[derive(Clone, Copy, Debug, PartialEq, Eq, Structural)]
pub enum ServerEvent {
    /// The termination signal fired.
    Terminate,
    /// A peer connected.
    Accepted,
    /// An inbound connection failed before it was established.
    AcceptFailed,
    /// The listener will yield no more connections.
    ListenerClosed,
}

/// What the server does next.
#[derive(Clone, Copy, Debug, PartialEq, Eq, Structural)]
pub enum ServerAction {
    /// Start a connection actor for the accepted stream, then go on
    /// listening.
    Spawn,
    /// Go on listening.
    Listen,
    /// Leave the loop and acknowledge termination.
    Stop,
}

/// What the server does after an event.
pub open spec fn action_for(event: ServerEvent) -> ServerAction {
    match event {
        ServerEvent::Terminate => ServerAction::Stop,
        ServerEvent::Accepted => ServerAction::Spawn,
        ServerEvent::AcceptFailed => ServerAction::Listen,
        ServerEvent::ListenerClosed => ServerAction::Stop,
    }
}

/// Decides what the server does after an event.
pub fn on_event(event: ServerEvent) -> (action: ServerAction)
    ensures
        action == action_for(event),
{
    match event {
        ServerEvent::Terminate => ServerAction::Stop,
        ServerEvent::Accepted => ServerAction::Spawn,
        ServerEvent::AcceptFailed => ServerAction::Listen,
        ServerEvent::ListenerClosed => ServerAction::Stop,
    }
}

} // verus!
