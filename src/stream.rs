use vstd::prelude::*;

verus! {

/// Lifecycle of a realtime stream: constructed, running, or closed for good.
#[derive(Debug, Clone, Copy, PartialEq, Eq, Structural)]
pub enum StreamState {
    Idle,
    Streaming,
    Stopped,
}

/// What the stream's control thread observed.
#[derive(Debug, Clone, Copy, PartialEq, Eq, Structural)]
pub enum StreamEvent {
    /// `start` was called.
    Start,
    /// The shared run flag was found cleared.
    Shutdown,
}

/// What the control thread must do next.
#[derive(Debug, Clone, Copy, PartialEq, Eq, Structural)]
pub enum StreamAction {
    /// Open the platform stream and start its callback.
    Open,
    /// Stop and close the platform stream and report the average callback latency.
    CloseAndReport,
    /// Nothing.
    Ignore,
}

/// The state a stream moves to on `event`, and the action that goes with it.
pub open spec fn spec_transition(state: StreamState, event: StreamEvent) -> (StreamState, StreamAction) {
    match (state, event) {
        (StreamState::Idle, StreamEvent::Start) => (StreamState::Streaming, StreamAction::Open),
        (StreamState::Idle, StreamEvent::Shutdown) => (StreamState::Stopped, StreamAction::Ignore),
        (StreamState::Streaming, StreamEvent::Shutdown) => (
            StreamState::Stopped,
            StreamAction::CloseAndReport,
        ),
        (s, _) => (s, StreamAction::Ignore),
    }
}

/// Steps the lifecycle: an idle stream opens on `Start`; a running stream is closed,
/// with its latency report, on `Shutdown`; `Stopped` is final. A stream that was
/// never started stops without anything to close.
pub fn transition(state: StreamState, event: StreamEvent) -> (r: (StreamState, StreamAction))
    ensures
        r == spec_transition(state, event),
{
    match (state, event) {
        (StreamState::Idle, StreamEvent::Start) => (StreamState::Streaming, StreamAction::Open),
        (StreamState::Idle, StreamEvent::Shutdown) => (StreamState::Stopped, StreamAction::Ignore),
        (StreamState::Streaming, StreamEvent::Shutdown) => (
            StreamState::Stopped,
            StreamAction::CloseAndReport,
        ),
        (s, _) => (s, StreamAction::Ignore),
    }
}

/// Once stopped, a stream stays stopped and does nothing, whatever it observes.
pub proof fn lemma_stopped_is_final(event: StreamEvent)
    ensures
        spec_transition(StreamState::Stopped, event) == (StreamState::Stopped, StreamAction::Ignore),
{
}

} // verus!
