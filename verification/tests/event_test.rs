use qedl::base::error::{ErrorCode, QedlError};
use qedl::base::event::{emit_event, emit_progress, Event, EventSink, FirehoseEvent, LogLevel};
use qedl::base::state::DeviceState;
use qedl::firehose::client::FirehoseClient;
use qedl::firehose::response::FirehoseResponse;
use std::sync::{Arc, Mutex};

struct TestEventSink {
    events: Mutex<Vec<Event>>,
}

impl TestEventSink {
    fn new() -> Self {
        Self { events: Mutex::new(Vec::new()) }
    }

    fn events(&self) -> Vec<Event> {
        self.events.lock().unwrap().clone()
    }
}

impl EventSink for TestEventSink {
    fn emit(&self, event: Event) {
        self.events.lock().unwrap().push(event);
    }
}

#[test]
fn test_event_sink_receives_events() {
    let sink = Arc::new(TestEventSink::new());
    let as_sink: Option<Arc<dyn EventSink>> = Some(sink.clone());
    emit_event(&as_sink, Event::StateChanged { from: DeviceState::Disconnected, to: DeviceState::Connected });
    emit_progress(&as_sink, 50, 100, "flashing".to_string());
    emit_event(&None, Event::Log { level: LogLevel::Info, message: "dropped".to_string() });
    assert_eq!(sink.events().len(), 2);
}

#[test]
fn test_event_display() {
    let event = Event::Progress { current: 50, total: 100, message: "flashing".to_string() };
    assert!(format!("{:?}", event).contains("Progress"));
}

#[test]
fn test_log_level_equality() {
    assert_eq!(LogLevel::Info, LogLevel::Info);
    assert_ne!(LogLevel::Info, LogLevel::Error);
}

#[test]
fn test_io_error_conversion() {
    let err = QedlError::transport(ErrorCode::TransportIo, "serial port I/O error".to_string());
    assert_eq!(err.code(), Some(ErrorCode::TransportIo));
}

#[test]
fn configure_reports_start_and_completion() {
    let sink = Arc::new(TestEventSink::new());
    let as_sink: Option<Arc<dyn EventSink>> = Some(sink.clone());
    let mut c = FirehoseClient::new().with_event_sink(as_sink);
    let _ = c.begin_configure();
    c.finish_configure(FirehoseResponse::from_xml(r#"<response value="ACK" />"#).unwrap()).unwrap();
    let events = sink.events();
    assert_eq!(events.len(), 2);
    assert!(matches!(events[0], Event::Firehose(FirehoseEvent::ConfigureStarted)));
    assert!(matches!(events[1], Event::Firehose(FirehoseEvent::ConfigureComplete)));
}
