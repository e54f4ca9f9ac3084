//! Rule-based correlation of normalized events into attack patterns.

use crate::events::{clone_event, DetectedPattern, Event, EventType, Severity};
use vstd::prelude::*;
use vstd::string::StringExecFns;

verus! {

/// How many failed logins within the window indicate credential stuffing.
pub const FAILED_LOGIN_LIMIT: usize = 50;

/// How many events of a kind a sequence holds.
pub open spec fn count_of_type(s: Seq<Event>, t: EventType) -> int
    decreases s.len(),
{
    if s.len() == 0 {
        0
    } else {
        count_of_type(s.drop_last(), t) + (if s.last().event_type == t {
            1int
        } else {
            0
        })
    }
}

/// Whether some event of the kind occurs.
pub open spec fn any_of_type(s: Seq<Event>, t: EventType) -> bool {
    exists|i: int| 0 <= i < s.len() && s[i].event_type == t
}

/// Whether an event belongs to one of two kinds.
pub open spec fn is_of_types(e: Event, a: EventType, b: EventType) -> bool {
    e.event_type == a || e.event_type == b
}

/// The credential-stuffing rule: many failed logins together with a
/// successful login from a new address.
pub open spec fn credential_stuffing_detected(s: Seq<Event>) -> bool {
    count_of_type(s, EventType::FailedLogin) > FAILED_LOGIN_LIMIT && any_of_type(
        s,
        EventType::SuccessfulLoginNewIP,
    )
}

/// The resource-exhaustion rule: a memory leak together with a processor
/// spike.
pub open spec fn resource_exhaustion_detected(s: Seq<Event>) -> bool {
    any_of_type(s, EventType::MemoryLeak) && any_of_type(s, EventType::CpuSpike)
}

/// What the credential-stuffing pattern reports.
pub open spec fn is_credential_pattern(p: DetectedPattern, s: Seq<Event>) -> bool {
    &&& p.name@ == "Credential Stuffing Attack"@
    &&& p.confidence == 9500
    &&& p.severity == Severity::Critical
    &&& p.events@ == s.filter(
        |e: Event| is_of_types(e, EventType::FailedLogin, EventType::SuccessfulLoginNewIP),
    )
    &&& p.recommended_action@ == "Block IP, lock account, revoke sessions"@
    &&& p.playbook@ == "intrusion_lockdown"@
}

/// What the resource-exhaustion pattern reports.
pub open spec fn is_resource_pattern(p: DetectedPattern, s: Seq<Event>) -> bool {
    &&& p.name@ == "Resource Exhaustion"@
    &&& p.confidence == 8500
    &&& p.severity == Severity::High
    &&& p.events@ == s.filter(
        |e: Event| is_of_types(e, EventType::MemoryLeak, EventType::CpuSpike),
    )
    &&& p.recommended_action@ == "Restart service, scale resources"@
    &&& p.playbook@ == "auto_remediation"@
}

/// Count the events of one kind.
fn count_events(events: &[Event], t: EventType) -> (r: usize)
    ensures
        r as int == count_of_type(events@, t),
{
    let mut count: usize = 0;
    let mut i: usize = 0;
    while i < events.len()
        invariant
            i <= events@.len(),
            count as int == count_of_type(events@.take(i as int), t),
            count <= i,
        decreases events@.len() - i,
    {
        proof {
            assert(events@.take(i + 1).drop_last() =~= events@.take(i as int));
            assert(events@.take(i + 1).last() == events@[i as int]);
        }
        if vstd::slice::slice_index_get(events, i).event_type == t {
            count += 1;
        }
        i += 1;
    }
    proof {
        assert(events@.take(events@.len() as int) =~= events@);
    }
    count
}

/// Whether some event of the kind occurs.
fn any_events(events: &[Event], t: EventType) -> (r: bool)
    ensures
        r == any_of_type(events@, t),
{
    let mut i: usize = 0;
    while i < events.len()
        invariant
            i <= events@.len(),
            forall|j: int| 0 <= j < i ==> events@[j].event_type != t,
        decreases events@.len() - i,
    {
        if vstd::slice::slice_index_get(events, i).event_type == t {
            return true;
        }
        i += 1;
    }
    false
}

/// Copy out the events of either of two kinds, keeping their order.
fn collect_matching(events: &[Event], a: EventType, b: EventType) -> (r: Vec<Event>)
    ensures
        r@ == events@.filter(|e: Event| is_of_types(e, a, b)),
{
    let ghost pred = |e: Event| is_of_types(e, a, b);
    let mut r: Vec<Event> = Vec::new();
    let mut i: usize = 0;
    while i < events.len()
        invariant
            pred == (|e: Event| is_of_types(e, a, b)),
            i <= events@.len(),
            r@ == events@.take(i as int).filter(pred),
        decreases events@.len() - i,
    {
        proof {
            assert(events@.take(i + 1).drop_last() =~= events@.take(i as int));
            assert(events@.take(i + 1).last() == events@[i as int]);
            reveal_with_fuel(Seq::filter, 2);
        }
        let e = vstd::slice::slice_index_get(events, i);
        if e.event_type == a || e.event_type == b {
            r.push(clone_event(e));
            proof {
                assert(r@ =~= events@.take(i + 1).filter(pred));
            }
        } else {
            proof {
                assert(r@ =~= events@.take(i + 1).filter(pred));
            }
        }
        i += 1;
    }
    proof {
        assert(events@.take(events@.len() as int) =~= events@);
    }
    r
}

/// Correlates events within a fixed time window into known attack patterns.
pub struct PatternDetector {
    /// The correlation window in seconds.
    pub time_window_secs: i64,
}

impl PatternDetector {
    /// A detector with the standard five-minute window.
    pub fn new() -> (r: PatternDetector)
        ensures
            r.time_window_secs == 300,
    {
        PatternDetector { time_window_secs: 300 }
    }

    /// Detect the credential-stuffing pattern, if its rule fires.
    fn detect_credential_stuffing(&self, events: &[Event]) -> (r: Option<DetectedPattern>)
        ensures
            r is Some <==> credential_stuffing_detected(events@),
            r matches Some(p) ==> is_credential_pattern(p, events@),
    {
        let failed_logins = count_events(events, EventType::FailedLogin);
        let new_ip_login = any_events(events, EventType::SuccessfulLoginNewIP);
        if failed_logins > FAILED_LOGIN_LIMIT && new_ip_login {
            Some(
                DetectedPattern {
                    name: "Credential Stuffing Attack".to_owned(),
                    confidence: 9500,
                    severity: Severity::Critical,
                    events: collect_matching(
                        events,
                        EventType::FailedLogin,
                        EventType::SuccessfulLoginNewIP,
                    ),
                    recommended_action: "Block IP, lock account, revoke sessions".to_owned(),
                    playbook: "intrusion_lockdown".to_owned(),
                },
            )
        } else {
            None
        }
    }

    /// Detect the resource-exhaustion pattern, if its rule fires.
    fn detect_resource_exhaustion(&self, events: &[Event]) -> (r: Option<DetectedPattern>)
        ensures
            r is Some <==> resource_exhaustion_detected(events@),
            r matches Some(p) ==> is_resource_pattern(p, events@),
    {
        let has_memory_leak = any_events(events, EventType::MemoryLeak);
        let has_cpu_spike = any_events(events, EventType::CpuSpike);
        if has_memory_leak && has_cpu_spike {
            Some(
                DetectedPattern {
                    name: "Resource Exhaustion".to_owned(),
                    confidence: 8500,
                    severity: Severity::High,
                    events: collect_matching(events, EventType::MemoryLeak, EventType::CpuSpike),
                    recommended_action: "Restart service, scale resources".to_owned(),
                    playbook: "auto_remediation".to_owned(),
                },
            )
        } else {
            None
        }
    }

    /// Analyze a window of events: the credential-stuffing pattern comes
    /// first, the resource-exhaustion pattern second, each present exactly
    /// when its rule fires.
    pub fn detect(&self, events: &[Event]) -> (r: Vec<DetectedPattern>)
        ensures
            r@.len() == (if credential_stuffing_detected(events@) {
                1int
            } else {
                0
            }) + (if resource_exhaustion_detected(events@) {
                1int
            } else {
                0
            }),
            credential_stuffing_detected(events@) ==> is_credential_pattern(r@[0], events@),
            resource_exhaustion_detected(events@) ==> is_resource_pattern(
                r@[r@.len() - 1],
                events@,
            ),
    {
        let mut patterns: Vec<DetectedPattern> = Vec::new();
        match self.detect_credential_stuffing(events) {
            Some(pattern) => {
                patterns.push(pattern);
            },
            None => {},
        }
        match self.detect_resource_exhaustion(events) {
            Some(pattern) => {
                patterns.push(pattern);
            },
            None => {},
        }
        patterns
    }
}

impl Default for PatternDetector {
    /// Same as [`PatternDetector::new`].
    fn default() -> (r: PatternDetector)
        ensures
            r.time_window_secs == 300,
    {
        PatternDetector::new()
    }
}

} // verus!
