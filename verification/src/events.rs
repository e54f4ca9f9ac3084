//! Normalized events from the metric and log collectors, and the detected
//! attack patterns built from them.
//!
//! A collector timestamp is modeled as seconds since the epoch and the free
//! metadata document as its JSON text, so the correlation rules work on plain
//! values; the collectors themselves convert at the boundary.

use vstd::prelude::*;

verus! {

/// Where an event came from.
#[derive(Clone, Copy, Debug, PartialEq, Eq, Structural)]
pub enum EventSource {
    Prometheus,
    PostgreSQL,
    Loki,
    Auditd,
    Docker,
}

/// How grave an event is, in ascending order.
#[derive(Clone, Copy, Debug, PartialEq, Eq, PartialOrd, Ord, Structural)]
pub enum Severity {
    Low,
    Medium,
    High,
    Critical,
}

/// The normalized kind of an event.
#[derive(Clone, Copy, Debug, PartialEq, Eq, Structural)]
pub enum EventType {
    CpuSpike,
    MemoryLeak,
    DiskFull,
    FailedLogin,
    SuccessfulLoginNewIP,
    SuspiciousCommand,
    LargeDataTransfer,
    UnusualTraffic,
    ErrorSpike,
    SlowResponse,
}

/// A normalized event from any source.
#[derive(Debug)]
pub struct Event {
    /// Collector-assigned identifier.
    pub id: String,
    /// The producing collector.
    pub source: EventSource,
    /// Seconds since the epoch.
    pub timestamp: i64,
    /// How grave the event is.
    pub severity: Severity,
    /// The normalized kind.
    pub event_type: EventType,
    /// Free metadata, as its JSON text.
    pub metadata: String,
}

/// A detected attack pattern: correlated events and the recommended
/// response.  Confidence is in basis points.
#[derive(Debug)]
pub struct DetectedPattern {
    /// Human-readable pattern name.
    pub name: String,
    /// Confidence in the detection, in basis points.
    pub confidence: u32,
    /// How grave the pattern is.
    pub severity: Severity,
    /// The events the pattern was built from.
    pub events: Vec<Event>,
    /// What an operator should do about it.
    pub recommended_action: String,
    /// Which response playbook to trigger.
    pub playbook: String,
}

/// Deep copy of an event.
pub fn clone_event(e: &Event) -> (r: Event)
    ensures
        r == *e,
{
    Event {
        id: e.id.clone(),
        source: e.source,
        timestamp: e.timestamp,
        severity: e.severity,
        event_type: e.event_type,
        metadata: e.metadata.clone(),
    }
}

} // verus!
