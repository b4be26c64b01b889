use qubx::stream::{transition, StreamAction, StreamEvent, StreamState};

#[test]
fn idle_stream_opens_on_start() {
    assert_eq!(transition(StreamState::Idle, StreamEvent::Start), (StreamState::Streaming, StreamAction::Open));
}

#[test]
fn running_stream_closes_and_reports_on_shutdown() {
    assert_eq!(
        transition(StreamState::Streaming, StreamEvent::Shutdown),
        (StreamState::Stopped, StreamAction::CloseAndReport)
    );
}

#[test]
fn running_stream_ignores_a_second_start() {
    assert_eq!(transition(StreamState::Streaming, StreamEvent::Start), (StreamState::Streaming, StreamAction::Ignore));
}

#[test]
fn idle_stream_stops_without_closing() {
    assert_eq!(transition(StreamState::Idle, StreamEvent::Shutdown), (StreamState::Stopped, StreamAction::Ignore));
}

#[test]
fn stopped_stream_stays_stopped() {
    for e in [StreamEvent::Start, StreamEvent::Shutdown] {
        assert_eq!(transition(StreamState::Stopped, e), (StreamState::Stopped, StreamAction::Ignore));
    }
}
