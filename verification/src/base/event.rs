//! Events the library reports to an embedding application.

use crate::base::error::ErrorCode;
use crate::base::state::DeviceState;
use std::sync::Arc;
use vstd::prelude::*;

verus! {

#[derive(Debug, Clone)]
pub enum Event {
    StateChanged { from: DeviceState, to: DeviceState },
    Progress { current: u64, total: u64, message: String },
    Error { code: ErrorCode, message: String },
    Log { level: LogLevel, message: String },
    Sahara(SaharaEvent),
    Firehose(FirehoseEvent),
    Job(JobEvent),
    Collector(CollectorEvent),
}

#[derive(Debug, Clone)]
pub enum SaharaEvent {
    HelloReceived,
    HandshakeStarted,
    LoaderTransferring { sent: u64, total: u64 },
    HandshakeComplete,
    AlreadyInFirehoseMode,
}

#[derive(Debug, Clone)]
pub enum FirehoseEvent {
    ConfigureStarted,
    ConfigureComplete,
    ReadStarted { lun: u8, start: u64, count: u64 },
    ReadProgress { current: u64, total: u64 },
    ReadComplete,
    WriteStarted { lun: u8, start: u64, count: u64 },
    WriteProgress { current: u64, total: u64 },
    WriteComplete,
    EraseStarted { lun: u8, start: u64, count: u64 },
    EraseComplete,
}

#[derive(Debug, Clone)]
pub enum JobEvent {
    Started { name: String },
    Progress { step: usize, total_steps: usize, message: String },
    Complete { success: bool, message: String },
}

#[derive(Debug, Clone)]
pub enum CollectorEvent {
    ClientConnected { port: String },
    ClientDisconnected,
    GptReadStarted { lun: u8 },
    GptReadComplete { partitions: usize },
    StorageInfoQueried { memory_type: Option<String> },
}

#[derive(Debug, Clone, Copy, PartialEq, Eq, Structural)]
pub enum LogLevel {
    Trace,
    Debug,
    Info,
    Warn,
    Error,
}

/// Receives the events of the library; an application (a GUI, a logger)
/// implements it.
pub trait EventSink: Send + Sync {
    fn emit(&self, event: Event);
}

/// A sink that drops every event.
pub struct NoopEventSink;

impl EventSink for NoopEventSink {
    fn emit(&self, _event: Event) {
    }
}

/// Hands `event` to `sink`, where there is one.
pub fn emit_event(sink: &Option<Arc<dyn EventSink>>, event: Event) {
    if let Some(s) = sink {
        s.emit(event);
    }
}

/// Reports progress `current` of `total` to `sink`, where there is one.
pub fn emit_progress(sink: &Option<Arc<dyn EventSink>>, current: u64, total: u64, message: String) {
    emit_event(sink, Event::Progress { current, total, message });
}

} // verus!
