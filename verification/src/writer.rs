//! Sending actions to the compositor over one reused connection: connect when there
//! is none, and after a failed send reconnect and retry once.
use vstd::prelude::*;

verus! {

/// Where the sender is in handling the current action.
pub enum WriterPhase {
    /// Waiting for the next action.
    Idle,
    /// A connection was requested; `retry` tells whether this is the reconnection
    /// after a failed send.
    Connecting { retry: bool },
    /// The action is being sent; `retry` as above.
    Sending { retry: bool },
}

/// The sender's state.
pub struct WriterState {
    pub connected: bool,
    pub phase: WriterPhase,
}

/// What the sender is told.
pub enum WriterEvent {
    /// A new action is to be sent.
    ActionQueued,
    /// The connection attempt ended.
    Connected { ok: bool },
    /// The send ended.
    Sent { ok: bool },
}

/// What the sender does next.
pub enum WriterAction {
    /// Open a connection.
    Connect,
    /// Send the current action over the connection.
    Send,
    /// Nothing more for the current action.
    Finish,
}

/// The next state and action of the sender, or `None` for an event that cannot occur
/// in the current phase.
pub open spec fn writer_step_spec(s: WriterState, e: WriterEvent) -> Option<(WriterState, WriterAction)> {
    match (s.phase, e) {
        (WriterPhase::Idle, WriterEvent::ActionQueued) => if s.connected {
            Some((WriterState { connected: true, phase: WriterPhase::Sending { retry: false } }, WriterAction::Send))
        } else {
            Some((WriterState { connected: false, phase: WriterPhase::Connecting { retry: false } }, WriterAction::Connect))
        },
        (WriterPhase::Connecting { retry }, WriterEvent::Connected { ok }) => if ok {
            Some((WriterState { connected: true, phase: WriterPhase::Sending { retry } }, WriterAction::Send))
        } else {
            Some((WriterState { connected: false, phase: WriterPhase::Idle }, WriterAction::Finish))
        },
        (WriterPhase::Sending { retry }, WriterEvent::Sent { ok }) => if !ok && !retry {
            Some((WriterState { connected: false, phase: WriterPhase::Connecting { retry: true } }, WriterAction::Connect))
        } else {
            Some((WriterState { connected: s.connected, phase: WriterPhase::Idle }, WriterAction::Finish))
        },
        _ => None,
    }
}

/// One step of the sender.
pub fn writer_step(s: WriterState, e: WriterEvent) -> (res: Option<(WriterState, WriterAction)>)
    ensures
        res == writer_step_spec(s, e),
{
    match (s.phase, e) {
        (WriterPhase::Idle, WriterEvent::ActionQueued) => if s.connected {
            Some((WriterState { connected: true, phase: WriterPhase::Sending { retry: false } }, WriterAction::Send))
        } else {
            Some((WriterState { connected: false, phase: WriterPhase::Connecting { retry: false } }, WriterAction::Connect))
        },
        (WriterPhase::Connecting { retry }, WriterEvent::Connected { ok }) => if ok {
            Some((WriterState { connected: true, phase: WriterPhase::Sending { retry } }, WriterAction::Send))
        } else {
            Some((WriterState { connected: false, phase: WriterPhase::Idle }, WriterAction::Finish))
        },
        (WriterPhase::Sending { retry }, WriterEvent::Sent { ok }) => if !ok && !retry {
            Some((WriterState { connected: false, phase: WriterPhase::Connecting { retry: true } }, WriterAction::Connect))
        } else {
            Some((WriterState { connected: s.connected, phase: WriterPhase::Idle }, WriterAction::Finish))
        },
        _ => None,
    }
}

/// An action is sent at most twice: after a failed retry the sender finishes.
pub proof fn law_at_most_one_retry(s: WriterState)
    requires
        s.phase == (WriterPhase::Sending { retry: true }),
    ensures
        writer_step_spec(s, WriterEvent::Sent { ok: false }) matches Some((t, a)) && a is Finish && t.phase is Idle,
{
}

} // verus!
