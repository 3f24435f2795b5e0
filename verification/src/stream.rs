//! Following the compositor's event stream: connect, open the stream, read events
//! until the stream fails, then wait and start over, for as long as the applet runs.
use vstd::prelude::*;

verus! {

/// How long the reader waits before connecting again after the stream failed.
pub const RECONNECT_DELAY_SECS: u64 = 2;

/// What the stream reader is told.
#[derive(Clone, Copy, Debug, PartialEq, Eq, Structural)]
pub enum StreamEvent {
    /// The reader starts.
    Started,
    /// The connection attempt ended.
    Connected { ok: bool },
    /// The request to open the event stream ended.
    StreamOpened { ok: bool },
    /// Reading the next event ended; `ok` when an event was read and handed on.
    EventRead { ok: bool },
    /// The wait before reconnecting is over.
    Waited,
}

/// What the stream reader does next.
#[derive(Clone, Copy, Debug, PartialEq, Eq, Structural)]
pub enum StreamAction {
    /// Open a connection.
    Connect,
    /// Ask for the event stream on the connection.
    OpenStream,
    /// Read the next event and hand it on.
    ReadEvent,
    /// Drop the connection and wait this many seconds.
    Wait { secs: u64 },
}

/// The reader's policy: each step that succeeds leads to the next, reading goes on
/// while events come, and any failure leads to a wait and a new connection.
pub open spec fn stream_step_spec(e: StreamEvent) -> StreamAction {
    match e {
        StreamEvent::Started => StreamAction::Connect,
        StreamEvent::Connected { ok } => if ok {
            StreamAction::OpenStream
        } else {
            StreamAction::Wait { secs: RECONNECT_DELAY_SECS }
        },
        StreamEvent::StreamOpened { ok } => if ok {
            StreamAction::ReadEvent
        } else {
            StreamAction::Wait { secs: RECONNECT_DELAY_SECS }
        },
        StreamEvent::EventRead { ok } => if ok {
            StreamAction::ReadEvent
        } else {
            StreamAction::Wait { secs: RECONNECT_DELAY_SECS }
        },
        StreamEvent::Waited => StreamAction::Connect,
    }
}

/// The reader's next action after `e`.
pub fn stream_step(e: StreamEvent) -> (res: StreamAction)
    ensures
        res == stream_step_spec(e),
{
    match e {
        StreamEvent::Started => StreamAction::Connect,
        StreamEvent::Connected { ok } => if ok {
            StreamAction::OpenStream
        } else {
            StreamAction::Wait { secs: RECONNECT_DELAY_SECS }
        },
        StreamEvent::StreamOpened { ok } => if ok {
            StreamAction::ReadEvent
        } else {
            StreamAction::Wait { secs: RECONNECT_DELAY_SECS }
        },
        StreamEvent::EventRead { ok } => if ok {
            StreamAction::ReadEvent
        } else {
            StreamAction::Wait { secs: RECONNECT_DELAY_SECS }
        },
        StreamEvent::Waited => StreamAction::Connect,
    }
}

/// The reader never stops: every event leads to an action, and every failure to a
/// wait after which it connects again.
pub proof fn law_stream_retries_forever(e: StreamEvent)
    ensures
        stream_step_spec(e) is Wait ==> stream_step_spec(e) == (StreamAction::Wait { secs: RECONNECT_DELAY_SECS }),
        stream_step_spec(StreamEvent::Waited) == StreamAction::Connect,
        (e matches StreamEvent::Connected { ok } && !ok) ==> stream_step_spec(e) is Wait,
        (e matches StreamEvent::StreamOpened { ok } && !ok) ==> stream_step_spec(e) is Wait,
        (e matches StreamEvent::EventRead { ok } && !ok) ==> stream_step_spec(e) is Wait,
{
}

} // verus!
