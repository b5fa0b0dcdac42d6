use vstd::prelude::*;

use crate::plane_state::{ControlPlaneState, DataPlaneState};
use std::sync::atomic::{AtomicBool, Ordering};
use std::sync::Arc;
use std::collections::VecDeque;
use crate::text::{
    bytes_contain, bytes_contain_byte, bytes_have_prefix, bytes_to_lower, contains_byte,
    contains_seq, has_prefix, lower_all, utf8_bytes,
};

verus! {

pub const OBSERVABILITY_SCHEMA_VERSION: u16 = 1;
/// The largest integer that JavaScript represents exactly.
pub const MAX_EVENT_INTEGER: u64 = 9007199254740991;
pub const DEFAULT_DIAGNOSTIC_CAPACITY: usize = 256;
pub const DEFAULT_TASK_CAPACITY: usize = 64;
pub const MAX_DIAGNOSTIC_CAPACITY: usize = 4096;
pub const MAX_TASK_CAPACITY: usize = 256;
pub const MAX_DEBUG_BUNDLE_BYTES: usize = 524288;

#[derive(Debug, Clone, Copy, PartialEq, Eq, Structural)]
pub enum ObservabilityError {
    InvalidEvent,
    StaleEvent,
    ClockRegression,
    WrongEventKind,
    InvalidCapacity,
    TaskCapacityExceeded,
    TaskNotFound,
    InvalidTaskPolicy,
    CounterOverflow,
    InvalidDiagnostic,
    SensitiveDiagnostic,
    BundleTooLarge,
    ConfirmationMismatch,
    Serialization,
}

/// The stable name of an error.
pub open spec fn spec_observability_error_name(error: ObservabilityError) -> Seq<char> {
    match error {
        ObservabilityError::InvalidEvent => "observability-invalid-event"@,
        ObservabilityError::StaleEvent => "observability-stale-event"@,
        ObservabilityError::ClockRegression => "observability-clock-regression"@,
        ObservabilityError::WrongEventKind => "observability-wrong-event-kind"@,
        ObservabilityError::InvalidCapacity => "observability-invalid-capacity"@,
        ObservabilityError::TaskCapacityExceeded => "observability-task-capacity-exceeded"@,
        ObservabilityError::TaskNotFound => "observability-task-not-found"@,
        ObservabilityError::InvalidTaskPolicy => "observability-invalid-task-policy"@,
        ObservabilityError::CounterOverflow => "observability-counter-overflow"@,
        ObservabilityError::InvalidDiagnostic => "observability-invalid-diagnostic"@,
        ObservabilityError::SensitiveDiagnostic => "observability-sensitive-diagnostic"@,
        ObservabilityError::BundleTooLarge => "observability-bundle-too-large"@,
        ObservabilityError::ConfirmationMismatch => "observability-confirmation-mismatch"@,
        ObservabilityError::Serialization => "observability-serialization-failure"@,
    }
}

impl ObservabilityError {
    pub fn as_str(self) -> (name: &'static str)
        ensures
            name@ == spec_observability_error_name(self),
    {
        match self {
            ObservabilityError::InvalidEvent => "observability-invalid-event",
            ObservabilityError::StaleEvent => "observability-stale-event",
            ObservabilityError::ClockRegression => "observability-clock-regression",
            ObservabilityError::WrongEventKind => "observability-wrong-event-kind",
            ObservabilityError::InvalidCapacity => "observability-invalid-capacity",
            ObservabilityError::TaskCapacityExceeded => "observability-task-capacity-exceeded",
            ObservabilityError::TaskNotFound => "observability-task-not-found",
            ObservabilityError::InvalidTaskPolicy => "observability-invalid-task-policy",
            ObservabilityError::CounterOverflow => "observability-counter-overflow",
            ObservabilityError::InvalidDiagnostic => "observability-invalid-diagnostic",
            ObservabilityError::SensitiveDiagnostic => "observability-sensitive-diagnostic",
            ObservabilityError::BundleTooLarge => "observability-bundle-too-large",
            ObservabilityError::ConfirmationMismatch => "observability-confirmation-mismatch",
            ObservabilityError::Serialization => "observability-serialization-failure",
        }
    }
}

#[derive(Debug, Clone, Copy, PartialEq, Eq, Structural)]
pub enum PlatformEvent {
    ControlState { state: ControlPlaneState },
    DataState { state: DataPlaneState },
    Traffic { sample: TrafficSample },
}

/// An event is valid when its traffic sample, if any, is.
pub open spec fn event_valid(event: PlatformEvent) -> bool {
    match event {
        PlatformEvent::Traffic { sample } => sample.spec_valid(),
        _ => true,
    }
}

impl PlatformEvent {
    pub fn control_state(state: ControlPlaneState) -> (e: Self)
        ensures
            e == (PlatformEvent::ControlState { state }),
    {
        PlatformEvent::ControlState { state }
    }

    pub fn data_state(state: DataPlaneState) -> (e: Self)
        ensures
            e == (PlatformEvent::DataState { state }),
    {
        PlatformEvent::DataState { state }
    }

    pub fn traffic(sample: TrafficSample) -> (e: Self)
        ensures
            e == (PlatformEvent::Traffic { sample }),
    {
        PlatformEvent::Traffic { sample }
    }

    pub fn traffic_sample(self) -> (r: Option<TrafficSample>)
        ensures
            r == (match self {
                PlatformEvent::Traffic { sample } => Some(sample),
                _ => None,
            }),
    {
        match self {
            PlatformEvent::Traffic { sample } => Some(sample),
            PlatformEvent::ControlState { .. } | PlatformEvent::DataState { .. } => None,
        }
    }

    fn validate(self) -> (r: Result<(), ObservabilityError>)
        ensures
            r is Ok <==> event_valid(self),
            r matches Err(e) ==> e == ObservabilityError::InvalidEvent,
    {
        match self {
            PlatformEvent::Traffic { sample } => sample.validate(),
            PlatformEvent::ControlState { .. } | PlatformEvent::DataState { .. } => Ok(()),
        }
    }
}

#[derive(Debug, Clone, Copy, PartialEq, Eq, Structural)]
pub struct TrafficSample {
    upload_bytes_total: u64,
    download_bytes_total: u64,
    upload_bytes_per_second: u64,
    download_bytes_per_second: u64,
}

impl TrafficSample {
    pub closed spec fn spec_upload_bytes_total(self) -> u64 {
        self.upload_bytes_total
    }

    pub closed spec fn spec_download_bytes_total(self) -> u64 {
        self.download_bytes_total
    }

    pub closed spec fn spec_upload_bytes_per_second(self) -> u64 {
        self.upload_bytes_per_second
    }

    pub closed spec fn spec_download_bytes_per_second(self) -> u64 {
        self.download_bytes_per_second
    }

    /// Every number of a sample stays within the exact JavaScript integer range.
    pub open spec fn spec_valid(self) -> bool {
        &&& self.spec_upload_bytes_total() <= MAX_EVENT_INTEGER
        &&& self.spec_download_bytes_total() <= MAX_EVENT_INTEGER
        &&& self.spec_upload_bytes_per_second() <= MAX_EVENT_INTEGER
        &&& self.spec_download_bytes_per_second() <= MAX_EVENT_INTEGER
    }

    pub fn new(
        upload_bytes_total: u64,
        download_bytes_total: u64,
        upload_bytes_per_second: u64,
        download_bytes_per_second: u64,
    ) -> (r: Result<Self, ObservabilityError>)
        ensures
            r is Ok <==> upload_bytes_total <= MAX_EVENT_INTEGER && download_bytes_total
                <= MAX_EVENT_INTEGER && upload_bytes_per_second <= MAX_EVENT_INTEGER
                && download_bytes_per_second <= MAX_EVENT_INTEGER,
            r matches Err(e) ==> e == ObservabilityError::InvalidEvent,
            r matches Ok(s) ==> s.spec_upload_bytes_total() == upload_bytes_total
                && s.spec_download_bytes_total() == download_bytes_total
                && s.spec_upload_bytes_per_second() == upload_bytes_per_second
                && s.spec_download_bytes_per_second() == download_bytes_per_second,
    {
        let sample = TrafficSample {
            upload_bytes_total,
            download_bytes_total,
            upload_bytes_per_second,
            download_bytes_per_second,
        };
        sample.validate()?;
        Ok(sample)
    }

    pub fn upload_bytes_total(self) -> (v: u64)
        ensures
            v == self.spec_upload_bytes_total(),
    {
        self.upload_bytes_total
    }

    pub fn download_bytes_total(self) -> (v: u64)
        ensures
            v == self.spec_download_bytes_total(),
    {
        self.download_bytes_total
    }

    pub fn upload_bytes_per_second(self) -> (v: u64)
        ensures
            v == self.spec_upload_bytes_per_second(),
    {
        self.upload_bytes_per_second
    }

    pub fn download_bytes_per_second(self) -> (v: u64)
        ensures
            v == self.spec_download_bytes_per_second(),
    {
        self.download_bytes_per_second
    }

    fn validate(self) -> (r: Result<(), ObservabilityError>)
        ensures
            r is Ok <==> self.spec_valid(),
            r matches Err(e) ==> e == ObservabilityError::InvalidEvent,
    {
        if self.upload_bytes_total > MAX_EVENT_INTEGER || self.download_bytes_total
            > MAX_EVENT_INTEGER || self.upload_bytes_per_second > MAX_EVENT_INTEGER
            || self.download_bytes_per_second > MAX_EVENT_INTEGER {
            return Err(ObservabilityError::InvalidEvent);
        }
        Ok(())
    }
}

#[derive(Debug, PartialEq, Eq, Structural)]
pub struct EventEnvelope {
    schema_version: u16,
    instance_id: u64,
    sequence: u64,
    occurred_at_unix_ms: u64,
    event: PlatformEvent,
}

impl Clone for EventEnvelope {
    fn clone(&self) -> (r: Self)
        ensures
            r == *self,
    {
        proof {
            use_type_invariant(self);
        }
        EventEnvelope {
            schema_version: self.schema_version,
            instance_id: self.instance_id,
            sequence: self.sequence,
            occurred_at_unix_ms: self.occurred_at_unix_ms,
            event: self.event,
        }
    }
}

/// The fields of an envelope are accepted: non-zero, exact in JavaScript, and a
/// valid event.
pub open spec fn envelope_fields_valid(
    instance_id: u64,
    sequence: u64,
    occurred_at_unix_ms: u64,
    event: PlatformEvent,
) -> bool {
    &&& 1 <= instance_id <= MAX_EVENT_INTEGER
    &&& 1 <= sequence <= MAX_EVENT_INTEGER
    &&& 1 <= occurred_at_unix_ms <= MAX_EVENT_INTEGER
    &&& event_valid(event)
}

/// Whether a clock reading can stamp an event: non-zero and exact in
/// JavaScript.
pub fn event_time_valid(unix_ms: u64) -> (r: bool)
    ensures
        r == (1 <= unix_ms <= MAX_EVENT_INTEGER),
{
    1 <= unix_ms && unix_ms <= MAX_EVENT_INTEGER
}

impl EventEnvelope {
    pub closed spec fn spec_schema_version(&self) -> u16 {
        self.schema_version
    }

    pub closed spec fn spec_instance_id(&self) -> u64 {
        self.instance_id
    }

    pub closed spec fn spec_sequence(&self) -> u64 {
        self.sequence
    }

    pub closed spec fn spec_occurred_at_unix_ms(&self) -> u64 {
        self.occurred_at_unix_ms
    }

    pub closed spec fn spec_event(&self) -> PlatformEvent {
        self.event
    }

    #[verifier::type_invariant]
    closed spec fn inv(self) -> bool {
        &&& self.schema_version == OBSERVABILITY_SCHEMA_VERSION
        &&& envelope_fields_valid(
            self.instance_id,
            self.sequence,
            self.occurred_at_unix_ms,
            self.event,
        )
    }

    pub fn new(
        instance_id: u64,
        sequence: u64,
        occurred_at_unix_ms: u64,
        event: PlatformEvent,
    ) -> (r: Result<Self, ObservabilityError>)
        ensures
            r is Ok <==> envelope_fields_valid(instance_id, sequence, occurred_at_unix_ms, event),
            r matches Err(e) ==> e == ObservabilityError::InvalidEvent,
            r matches Ok(envelope) ==> envelope.spec_schema_version()
                == OBSERVABILITY_SCHEMA_VERSION && envelope.spec_instance_id() == instance_id
                && envelope.spec_sequence() == sequence && envelope.spec_occurred_at_unix_ms()
                == occurred_at_unix_ms && envelope.spec_event() == event,
    {
        if instance_id == 0 || sequence == 0 || occurred_at_unix_ms == 0 || instance_id
            > MAX_EVENT_INTEGER || sequence > MAX_EVENT_INTEGER || occurred_at_unix_ms
            > MAX_EVENT_INTEGER {
            return Err(ObservabilityError::InvalidEvent);
        }
        event.validate()?;
        Ok(
            EventEnvelope {
                schema_version: OBSERVABILITY_SCHEMA_VERSION,
                instance_id,
                sequence,
                occurred_at_unix_ms,
                event,
            },
        )
    }

    /// Reads an envelope from its wire fields: the schema version must be the
    /// current one, and the rest is checked as by `new`.
    pub fn from_wire(
        schema_version: u16,
        instance_id: u64,
        sequence: u64,
        occurred_at_unix_ms: u64,
        event: PlatformEvent,
    ) -> (r: Result<Self, ObservabilityError>)
        ensures
            r is Ok <==> schema_version == OBSERVABILITY_SCHEMA_VERSION && envelope_fields_valid(
                instance_id,
                sequence,
                occurred_at_unix_ms,
                event,
            ),
            r matches Err(e) ==> e == ObservabilityError::InvalidEvent,
            r matches Ok(envelope) ==> envelope.spec_instance_id() == instance_id
                && envelope.spec_sequence() == sequence && envelope.spec_occurred_at_unix_ms()
                == occurred_at_unix_ms && envelope.spec_event() == event,
    {
        if schema_version != OBSERVABILITY_SCHEMA_VERSION {
            return Err(ObservabilityError::InvalidEvent);
        }
        Self::new(instance_id, sequence, occurred_at_unix_ms, event)
    }

    pub fn schema_version(&self) -> (v: u16)
        ensures
            v == self.spec_schema_version(),
    {
        self.schema_version
    }

    pub fn instance_id(&self) -> (v: u64)
        ensures
            v == self.spec_instance_id(),
            1 <= v <= MAX_EVENT_INTEGER,
    {
        proof {
            use_type_invariant(self);
        }
        self.instance_id
    }

    pub fn sequence(&self) -> (v: u64)
        ensures
            v == self.spec_sequence(),
            1 <= v <= MAX_EVENT_INTEGER,
    {
        proof {
            use_type_invariant(self);
        }
        self.sequence
    }

    pub fn occurred_at_unix_ms(&self) -> (v: u64)
        ensures
            v == self.spec_occurred_at_unix_ms(),
    {
        self.occurred_at_unix_ms
    }

    pub fn event(&self) -> (v: PlatformEvent)
        ensures
            v == self.spec_event(),
            event_valid(v),
    {
        proof {
            use_type_invariant(self);
        }
        self.event
    }
}

#[derive(Debug, Clone, Copy, PartialEq, Eq, Structural)]
pub enum EventAcceptance {
    Applied,
    Duplicate,
    StaleInstance,
    StaleSequence,
}

/// Tracks the event stream of one adapter instance so that each event is applied
/// at most once and in order.
#[derive(Debug, Clone, Copy, PartialEq, Eq, Structural)]
pub struct EventCursor {
    instance_id: Option<u64>,
    last_sequence: u64,
}

impl Default for EventCursor {
    fn default() -> (cursor: Self)
        ensures
            cursor.spec_instance_id() is None && cursor.spec_last_sequence() == 0,
    {
        EventCursor { instance_id: None, last_sequence: 0 }
    }
}

/// How a cursor answers an envelope.
pub open spec fn spec_acceptance(
    instance_id: Option<u64>,
    last_sequence: u64,
    envelope_instance: u64,
    envelope_sequence: u64,
) -> EventAcceptance {
    if instance_id != Some(envelope_instance) {
        EventAcceptance::StaleInstance
    } else if envelope_sequence == last_sequence {
        EventAcceptance::Duplicate
    } else if envelope_sequence < last_sequence {
        EventAcceptance::StaleSequence
    } else {
        EventAcceptance::Applied
    }
}

impl EventCursor {
    pub closed spec fn spec_instance_id(self) -> Option<u64> {
        self.instance_id
    }

    pub closed spec fn spec_last_sequence(self) -> u64 {
        self.last_sequence
    }

    /// Follows `instance_id`; switching to another instance starts its sequence anew.
    pub fn select_instance(&mut self, instance_id: u64) -> (r: Result<(), ObservabilityError>)
        ensures
            r is Ok <==> instance_id != 0,
            r matches Err(e) ==> e == ObservabilityError::InvalidEvent && *final(self) == *old(self),
            r is Ok ==> final(self).spec_instance_id() == Some(instance_id),
            r is Ok ==> final(self).spec_last_sequence() == (if old(self).spec_instance_id()
                == Some(instance_id) {
                old(self).spec_last_sequence()
            } else {
                0
            }),
    {
        if instance_id == 0 {
            return Err(ObservabilityError::InvalidEvent);
        }
        if self.instance_id != Some(instance_id) {
            self.instance_id = Some(instance_id);
            self.last_sequence = 0;
        }
        Ok(())
    }

    /// Applies an envelope of the followed instance whose sequence is newer than
    /// every applied one; anything else is reported and leaves the cursor unchanged.
    pub fn accept(&mut self, envelope: &EventEnvelope) -> (r: EventAcceptance)
        ensures
            r == spec_acceptance(
                old(self).spec_instance_id(),
                old(self).spec_last_sequence(),
                envelope.spec_instance_id(),
                envelope.spec_sequence(),
            ),
            final(self).spec_instance_id() == old(self).spec_instance_id(),
            final(self).spec_last_sequence() == (if r == EventAcceptance::Applied {
                envelope.spec_sequence()
            } else {
                old(self).spec_last_sequence()
            }),
    {
        if self.instance_id != Some(envelope.instance_id()) {
            return EventAcceptance::StaleInstance;
        }
        if envelope.sequence() == self.last_sequence {
            return EventAcceptance::Duplicate;
        }
        if envelope.sequence() < self.last_sequence {
            return EventAcceptance::StaleSequence;
        }
        self.last_sequence = envelope.sequence();
        EventAcceptance::Applied
    }

    pub fn instance_id(self) -> (v: Option<u64>)
        ensures
            v == self.spec_instance_id(),
    {
        self.instance_id
    }

    pub fn last_sequence(self) -> (v: u64)
        ensures
            v == self.spec_last_sequence(),
    {
        self.last_sequence
    }
}

/// Once a cursor has applied an envelope, that envelope and every older one of the
/// same instance is refused: sequences are applied strictly increasing, once each.
pub proof fn law_cursor_applies_each_sequence_once(
    instance_id: Option<u64>,
    last_sequence: u64,
    envelope_instance: u64,
    applied_sequence: u64,
    later_sequence: u64,
)
    requires
        spec_acceptance(instance_id, last_sequence, envelope_instance, applied_sequence)
            == EventAcceptance::Applied,
        later_sequence <= applied_sequence,
    ensures
        spec_acceptance(instance_id, applied_sequence, envelope_instance, later_sequence)
            != EventAcceptance::Applied,
{
}

/// Rate-limits the traffic events of one adapter instance: the first sample of an
/// instance is emitted at once, later ones at most once per interval, and in
/// between only the newest sample is kept.
pub struct TrafficEventThrottler {
    interval_ms: u64,
    instance_id: Option<u64>,
    last_sequence: u64,
    last_observed_monotonic_ms: Option<u64>,
    last_emitted_monotonic_ms: Option<u64>,
    pending: Option<EventEnvelope>,
}

pub open spec fn is_traffic_event(event: PlatformEvent) -> bool {
    event is Traffic
}

/// `a - b`, or zero where `b` exceeds `a`.
pub open spec fn saturating_sub(a: u64, b: u64) -> u64 {
    if a >= b {
        (a - b) as u64
    } else {
        0
    }
}

impl TrafficEventThrottler {
    #[verifier::type_invariant]
    closed spec fn inv(self) -> bool {
        &&& self.interval_ms > 0
        &&& self.instance_id is Some ==> self.last_emitted_monotonic_ms is Some
        &&& self.pending is Some ==> self.instance_id is Some
    }

    pub closed spec fn spec_interval_ms(&self) -> u64 {
        self.interval_ms
    }

    pub closed spec fn spec_instance_id(&self) -> Option<u64> {
        self.instance_id
    }

    pub closed spec fn spec_last_sequence(&self) -> u64 {
        self.last_sequence
    }

    pub closed spec fn spec_last_observed(&self) -> Option<u64> {
        self.last_observed_monotonic_ms
    }

    pub closed spec fn spec_last_emitted(&self) -> Option<u64> {
        self.last_emitted_monotonic_ms
    }

    pub closed spec fn spec_pending(&self) -> Option<EventEnvelope> {
        self.pending
    }

    /// The monotonic clock went backwards.
    pub open spec fn clock_regressed(&self, monotonic_ms: u64) -> bool {
        self.spec_last_observed() matches Some(previous) && monotonic_ms < previous
    }

    pub fn new(interval_ms: u64) -> (r: Result<Self, ObservabilityError>)
        ensures
            r is Ok <==> interval_ms > 0,
            r matches Err(e) ==> e == ObservabilityError::InvalidEvent,
            r matches Ok(t) ==> t.spec_interval_ms() == interval_ms && t.spec_instance_id() is None
                && t.spec_last_sequence() == 0 && t.spec_last_observed() is None
                && t.spec_last_emitted() is None && t.spec_pending() is None,
    {
        if interval_ms == 0 {
            return Err(ObservabilityError::InvalidEvent);
        }
        Ok(
            TrafficEventThrottler {
                interval_ms,
                instance_id: None,
                last_sequence: 0,
                last_observed_monotonic_ms: None,
                last_emitted_monotonic_ms: None,
                pending: None,
            },
        )
    }

    /// Offers a traffic envelope observed at `monotonic_ms`; returns the envelope
    /// to emit now, if any.
    pub fn push(&mut self, envelope: EventEnvelope, monotonic_ms: u64) -> (r: Result<
        Option<EventEnvelope>,
        ObservabilityError,
    >)
        ensures
            !is_traffic_event(envelope.spec_event()) ==> r == Err::<
                Option<EventEnvelope>,
                ObservabilityError,
            >(ObservabilityError::WrongEventKind),
            is_traffic_event(envelope.spec_event()) && old(self).spec_instance_id() == Some(
                envelope.spec_instance_id(),
            ) && envelope.spec_sequence() <= old(self).spec_last_sequence() ==> r == Err::<
                Option<EventEnvelope>,
                ObservabilityError,
            >(ObservabilityError::StaleEvent),
            r is Err && !(r == Err::<Option<EventEnvelope>, ObservabilityError>(
                ObservabilityError::WrongEventKind,
            )) && !(r == Err::<Option<EventEnvelope>, ObservabilityError>(
                ObservabilityError::StaleEvent,
            )) ==> r == Err::<Option<EventEnvelope>, ObservabilityError>(
                ObservabilityError::ClockRegression,
            ) && old(self).clock_regressed(monotonic_ms),
            r is Err ==> *final(self) == *old(self),
            is_traffic_event(envelope.spec_event()) && !(old(self).spec_instance_id() == Some(
                envelope.spec_instance_id(),
            ) && envelope.spec_sequence() <= old(self).spec_last_sequence()) && !old(self).clock_regressed(monotonic_ms) ==> r is Ok,
            r is Ok ==> !old(self).clock_regressed(monotonic_ms),
            r is Ok ==> {
                &&& final(self).spec_interval_ms() == old(self).spec_interval_ms()
                &&& final(self).spec_instance_id() == Some(envelope.spec_instance_id())
                &&& final(self).spec_last_sequence() == envelope.spec_sequence()
                &&& final(self).spec_last_observed() == Some(monotonic_ms)
            },
            r is Ok && old(self).spec_instance_id() != Some(envelope.spec_instance_id()) ==> {
                &&& r == Ok::<Option<EventEnvelope>, ObservabilityError>(Some(envelope))
                &&& final(self).spec_last_emitted() == Some(monotonic_ms)
                &&& final(self).spec_pending() is None
            },
            r is Ok && old(self).spec_instance_id() == Some(envelope.spec_instance_id()) ==> {
                let due = saturating_sub(monotonic_ms, old(self).spec_last_emitted()->0) >= old(self).spec_interval_ms();
                &&& due ==> r == Ok::<Option<EventEnvelope>, ObservabilityError>(Some(envelope))
                    && final(self).spec_last_emitted() == Some(monotonic_ms)
                    && final(self).spec_pending() is None
                &&& !due ==> r == Ok::<Option<EventEnvelope>, ObservabilityError>(None)
                    && final(self).spec_last_emitted() == old(self).spec_last_emitted()
                    && final(self).spec_pending() == Some(envelope)
            },
    {
        proof {
            use_type_invariant(&*self);
        }
        if envelope.event().traffic_sample().is_none() {
            return Err(ObservabilityError::WrongEventKind);
        }
        if self.instance_id == Some(envelope.instance_id()) && envelope.sequence()
            <= self.last_sequence {
            return Err(ObservabilityError::StaleEvent);
        }
        self.observe_clock(monotonic_ms)?;
        if self.instance_id != Some(envelope.instance_id()) {
            *self = TrafficEventThrottler {
                interval_ms: self.interval_ms,
                instance_id: Some(envelope.instance_id()),
                last_sequence: envelope.sequence(),
                last_observed_monotonic_ms: self.last_observed_monotonic_ms,
                last_emitted_monotonic_ms: Some(monotonic_ms),
                pending: None,
            };
            return Ok(Some(envelope));
        }
        self.last_sequence = envelope.sequence();
        let last_emitted = match self.last_emitted_monotonic_ms {
            Some(value) => value,
            None => 0,
        };
        let elapsed = if monotonic_ms >= last_emitted {
            monotonic_ms - last_emitted
        } else {
            0
        };
        if elapsed >= self.interval_ms {
            self.last_emitted_monotonic_ms = Some(monotonic_ms);
            self.pending = None;
            return Ok(Some(envelope));
        }
        self.pending = Some(envelope);
        Ok(None)
    }

    /// Emits the kept sample once the interval since the last emission has passed.
    pub fn flush(&mut self, monotonic_ms: u64) -> (r: Result<
        Option<EventEnvelope>,
        ObservabilityError,
    >)
        ensures
            r is Err <==> old(self).clock_regressed(monotonic_ms),
            r matches Err(e) ==> e == ObservabilityError::ClockRegression && *final(self) == *old(self),
            r is Ok ==> {
                &&& final(self).spec_interval_ms() == old(self).spec_interval_ms()
                &&& final(self).spec_instance_id() == old(self).spec_instance_id()
                &&& final(self).spec_last_sequence() == old(self).spec_last_sequence()
                &&& final(self).spec_last_observed() == Some(monotonic_ms)
                &&& {
                    let due = old(self).spec_last_emitted() matches Some(emitted)
                        && saturating_sub(monotonic_ms, emitted) >= old(self).spec_interval_ms()
                        && old(self).spec_pending() is Some;
                    &&& due ==> r == Ok::<Option<EventEnvelope>, ObservabilityError>(
                        old(self).spec_pending(),
                    ) && final(self).spec_pending() is None && final(self).spec_last_emitted()
                        == Some(monotonic_ms)
                    &&& !due ==> r == Ok::<Option<EventEnvelope>, ObservabilityError>(None)
                        && final(self).spec_pending() == old(self).spec_pending()
                        && final(self).spec_last_emitted() == old(self).spec_last_emitted()
                }
            },
    {
        proof {
            use_type_invariant(&*self);
        }
        self.observe_clock(monotonic_ms)?;
        let last_emitted = match self.last_emitted_monotonic_ms {
            Some(value) => value,
            None => return Ok(None),
        };
        let elapsed = if monotonic_ms >= last_emitted {
            monotonic_ms - last_emitted
        } else {
            0
        };
        if elapsed < self.interval_ms {
            return Ok(None);
        }
        if self.pending.is_none() {
            return Ok(None);
        }
        let mut previous = TrafficEventThrottler {
            interval_ms: self.interval_ms,
            instance_id: self.instance_id,
            last_sequence: self.last_sequence,
            last_observed_monotonic_ms: self.last_observed_monotonic_ms,
            last_emitted_monotonic_ms: Some(monotonic_ms),
            pending: None,
        };
        std::mem::swap(self, &mut previous);
        Ok(previous.pending)
    }

    pub fn pending_len(&self) -> (n: usize)
        ensures
            n == (if self.spec_pending() is Some {
                1usize
            } else {
                0usize
            }),
            n <= 1,
    {
        if self.pending.is_some() {
            1
        } else {
            0
        }
    }

    fn observe_clock(&mut self, monotonic_ms: u64) -> (r: Result<(), ObservabilityError>)
        ensures
            r is Err <==> old(self).clock_regressed(monotonic_ms),
            r matches Err(e) ==> e == ObservabilityError::ClockRegression && *final(self) == *old(self),
            r is Ok ==> *final(self) == (TrafficEventThrottler {
                last_observed_monotonic_ms: Some(monotonic_ms),
                ..*old(self)
            }),
    {
        proof {
            use_type_invariant(&*self);
        }
        if let Some(previous) = self.last_observed_monotonic_ms {
            if monotonic_ms < previous {
                return Err(ObservabilityError::ClockRegression);
            }
        }
        self.last_observed_monotonic_ms = Some(monotonic_ms);
        Ok(())
    }
}

#[derive(Debug, Clone, Copy, PartialEq, Eq, PartialOrd, Ord, Structural)]
pub struct TaskId(u64);

impl TaskId {
    pub closed spec fn value(self) -> u64 {
        self.0
    }

    pub fn get(self) -> (v: u64)
        ensures
            v == self.value(),
    {
        self.0
    }
}

#[derive(Debug, Clone, Copy, PartialEq, Eq, PartialOrd, Ord, Structural)]
pub struct PageSessionId(u64);

impl PageSessionId {
    pub closed spec fn value(self) -> u64 {
        self.0
    }

    pub fn new(value: u64) -> (r: Result<Self, ObservabilityError>)
        ensures
            r is Ok <==> value != 0,
            r matches Ok(id) ==> id.value() == value,
            r matches Err(e) ==> e == ObservabilityError::InvalidTaskPolicy,
    {
        if value == 0 {
            return Err(ObservabilityError::InvalidTaskPolicy);
        }
        Ok(PageSessionId(value))
    }

    pub fn get(self) -> (v: u64)
        ensures
            v == self.value(),
    {
        self.0
    }
}

#[derive(Debug, Clone, Copy, PartialEq, Eq, Structural)]
pub enum TaskCategory {
    Control,
    Data,
    Platform,
}

#[derive(Debug, Clone, Copy, PartialEq, Eq, Structural)]
pub enum TaskOwner {
    BackgroundService,
    Page { session_id: PageSessionId },
}

#[derive(Debug, Clone, Copy, PartialEq, Eq, Structural)]
pub enum NonCancellableReason {
    OperatingSystemHandoff,
    PlatformApiCall,
}

#[derive(Debug, Clone, Copy, PartialEq, Eq, Structural)]
pub enum TaskPolicy {
    Cancellable,
    Deadline { timeout_ms: u64 },
    NonCancellable { reason: NonCancellableReason },
}

/// A task specification is valid unless it has a zero deadline, or a page owns a
/// task that cannot be cancelled.
pub open spec fn task_spec_valid(owner: TaskOwner, policy: TaskPolicy) -> bool {
    !(policy == (TaskPolicy::Deadline { timeout_ms: 0 }) || (owner is Page
        && policy is NonCancellable))
}

#[derive(Debug, Clone, Copy, PartialEq, Eq, Structural)]
pub struct TaskSpec {
    category: TaskCategory,
    owner: TaskOwner,
    policy: TaskPolicy,
}

impl TaskSpec {
    pub closed spec fn spec_category(self) -> TaskCategory {
        self.category
    }

    pub closed spec fn spec_owner(self) -> TaskOwner {
        self.owner
    }

    pub closed spec fn spec_policy(self) -> TaskPolicy {
        self.policy
    }

    pub fn new(category: TaskCategory, owner: TaskOwner, policy: TaskPolicy) -> (r: Result<
        Self,
        ObservabilityError,
    >)
        ensures
            r is Ok <==> task_spec_valid(owner, policy),
            r matches Err(e) ==> e == ObservabilityError::InvalidTaskPolicy,
            r matches Ok(spec) ==> spec.spec_category() == category && spec.spec_owner() == owner
                && spec.spec_policy() == policy,
    {
        let spec = TaskSpec { category, owner, policy };
        spec.validate()?;
        Ok(spec)
    }

    fn validate(self) -> (r: Result<(), ObservabilityError>)
        ensures
            r is Ok <==> task_spec_valid(self.owner, self.policy),
            r matches Err(e) ==> e == ObservabilityError::InvalidTaskPolicy,
    {
        let zero_deadline = match self.policy {
            TaskPolicy::Deadline { timeout_ms } => timeout_ms == 0,
            _ => false,
        };
        let page_non_cancellable = match (self.owner, self.policy) {
            (TaskOwner::Page { .. }, TaskPolicy::NonCancellable { .. }) => true,
            _ => false,
        };
        if zero_deadline || page_non_cancellable {
            return Err(ObservabilityError::InvalidTaskPolicy);
        }
        Ok(())
    }
}

#[derive(Debug, Clone, Copy, PartialEq, Eq, Structural)]
pub enum TaskState {
    Running,
    CancelRequested,
    TimeoutRequested,
}

#[derive(Debug, Clone, Copy, PartialEq, Eq, Structural)]
pub struct TaskSnapshot {
    pub id: TaskId,
    pub category: TaskCategory,
    pub owner: TaskOwner,
    pub policy: TaskPolicy,
    pub state: TaskState,
    pub started_at_monotonic_ms: u64,
    pub deadline_at_monotonic_ms: Option<u64>,
}

impl TaskSnapshot {
    pub fn id(&self) -> (v: TaskId)
        ensures
            v == self.id,
    {
        self.id
    }

    pub fn state(&self) -> (v: TaskState)
        ensures
            v == self.state,
    {
        self.state
    }

    pub fn owner(&self) -> (v: TaskOwner)
        ensures
            v == self.owner,
    {
        self.owner
    }
}

/// A flag shared between a task and whoever may cancel it. Once set it stays set.
#[derive(Clone)]
pub struct CancellationToken {
    cancelled: Arc<AtomicBool>,
}

impl Default for CancellationToken {
    fn default() -> Self {
        CancellationToken { cancelled: Arc::new(AtomicBool::new(false)) }
    }
}

impl CancellationToken {
    pub fn is_cancelled(&self) -> bool {
        self.cancelled.load(Ordering::Acquire)
    }

    pub(crate) fn cancel(&self) {
        self.cancelled.store(true, Ordering::Release);
    }
}

pub struct TaskRecord {
    snapshot: TaskSnapshot,
    cancellation: CancellationToken,
}

#[derive(Debug, Clone, Copy, PartialEq, Eq, Structural)]
pub enum TaskCancelOutcome {
    Requested,
    AlreadyRequested,
    NotCancellable { reason: NonCancellableReason },
}

#[derive(Debug, Clone, Copy, PartialEq, Eq, Structural)]
pub struct PageCloseOutcome {
    pub requested: usize,
    pub already_requested: usize,
}

/// The deadline of a task registered at `monotonic_ms`; `None` on overflow.
pub open spec fn spec_deadline(policy: TaskPolicy, monotonic_ms: u64) -> Option<Option<u64>> {
    match policy {
        TaskPolicy::Deadline { timeout_ms } => if monotonic_ms + timeout_ms <= u64::MAX {
            Some(Some((monotonic_ms + timeout_ms) as u64))
        } else {
            None
        },
        _ => Some(None),
    }
}

/// The tasks that are running, bounded by a fixed capacity. Tasks are kept in the
/// order of their identifiers, which are handed out increasing from 1.
pub struct TaskRegistry {
    capacity: usize,
    next_id: u64,
    tasks: Vec<TaskRecord>,
}

pub open spec fn task_ids_increasing(tasks: Seq<TaskSnapshot>) -> bool {
    forall|i: int, j: int| 0 <= i < j < tasks.len() ==> tasks[i].id.value() < tasks[j].id.value()
}

/// How a cancel request changes a task, and what it answers.
pub open spec fn spec_cancel(task: TaskSnapshot) -> (TaskState, TaskCancelOutcome) {
    match task.policy {
        TaskPolicy::NonCancellable { reason } => (
            task.state,
            TaskCancelOutcome::NotCancellable { reason },
        ),
        _ => if task.state != TaskState::Running {
            (task.state, TaskCancelOutcome::AlreadyRequested)
        } else {
            (TaskState::CancelRequested, TaskCancelOutcome::Requested)
        },
    }
}

/// A task whose deadline has passed at `monotonic_ms` while it still runs.
pub open spec fn task_expires(task: TaskSnapshot, monotonic_ms: u64) -> bool {
    task.state == TaskState::Running && (task.deadline_at_monotonic_ms matches Some(deadline)
        && monotonic_ms >= deadline)
}

pub open spec fn task_owned_by_page(task: TaskSnapshot, session_id: PageSessionId) -> bool {
    task.owner == (TaskOwner::Page { session_id })
}

/// The identifiers of the tasks that expire, in order.
pub open spec fn expiring_ids(tasks: Seq<TaskSnapshot>, monotonic_ms: u64) -> Seq<TaskId>
    decreases tasks.len(),
{
    if tasks.len() == 0 {
        seq![]
    } else {
        let rest = expiring_ids(tasks.drop_last(), monotonic_ms);
        if task_expires(tasks.last(), monotonic_ms) {
            rest.push(tasks.last().id)
        } else {
            rest
        }
    }
}

/// The number of tasks of a page in a given state class.
pub open spec fn count_page_tasks(
    tasks: Seq<TaskSnapshot>,
    session_id: PageSessionId,
    running: bool,
) -> nat
    decreases tasks.len(),
{
    if tasks.len() == 0 {
        0
    } else {
        let rest = count_page_tasks(tasks.drop_last(), session_id, running);
        let task = tasks.last();
        if task_owned_by_page(task, session_id) && (task.state == TaskState::Running) == running {
            rest + 1
        } else {
            rest
        }
    }
}

impl TaskRegistry {
    pub closed spec fn spec_capacity(&self) -> usize {
        self.capacity
    }

    pub closed spec fn spec_next_id(&self) -> u64 {
        self.next_id
    }

    /// The snapshots of the registered tasks, in identifier order.
    pub closed spec fn spec_tasks(&self) -> Seq<TaskSnapshot> {
        self.tasks@.map_values(|record: TaskRecord| record.snapshot)
    }

    /// The registry's invariant: at most `capacity` tasks (1 to 256), identifiers
    /// increasing and below the next one to be handed out.
    pub closed spec fn wf(&self) -> bool {
        &&& 1 <= self.capacity <= MAX_TASK_CAPACITY
        &&& self.tasks@.len() <= self.capacity
        &&& self.next_id >= 1
        &&& task_ids_increasing(self.spec_tasks())
        &&& forall|i: int|
            0 <= i < self.tasks@.len() ==> #[trigger] self.tasks@[i].snapshot.id.value()
                < self.next_id
    }

    pub fn new(capacity: usize) -> (r: Result<Self, ObservabilityError>)
        ensures
            r is Ok <==> 1 <= capacity <= MAX_TASK_CAPACITY,
            r matches Err(e) ==> e == ObservabilityError::InvalidCapacity,
            r matches Ok(registry) ==> registry.wf() && registry.spec_capacity() == capacity
                && registry.spec_next_id() == 1 && registry.spec_tasks().len() == 0,
    {
        if capacity == 0 || capacity > MAX_TASK_CAPACITY {
            return Err(ObservabilityError::InvalidCapacity);
        }
        let registry = TaskRegistry { capacity, next_id: 1, tasks: Vec::new() };
        assert(registry.spec_tasks() =~= Seq::<TaskSnapshot>::empty());
        Ok(registry)
    }

    /// Registers a running task and returns its identifier and cancellation token.
    pub fn register(&mut self, spec: TaskSpec, monotonic_ms: u64) -> (r: Result<
        (TaskId, CancellationToken),
        ObservabilityError,
    >)
        requires
            old(self).wf(),
        ensures
            final(self).wf(),
            final(self).spec_capacity() == old(self).spec_capacity(),
            !task_spec_valid(spec.spec_owner(), spec.spec_policy()) || spec_deadline(
                spec.spec_policy(),
                monotonic_ms,
            ) is None ==> r == Err::<(TaskId, CancellationToken), ObservabilityError>(
                ObservabilityError::InvalidTaskPolicy,
            ),
            task_spec_valid(spec.spec_owner(), spec.spec_policy()) && spec_deadline(
                spec.spec_policy(),
                monotonic_ms,
            ) is Some ==> {
                &&& old(self).spec_tasks().len() >= old(self).spec_capacity() ==> r
                    == Err::<(TaskId, CancellationToken), ObservabilityError>(
                    ObservabilityError::TaskCapacityExceeded,
                )
                &&& old(self).spec_tasks().len() < old(self).spec_capacity() && old(self).spec_next_id() == u64::MAX ==> r == Err::<(TaskId, CancellationToken), ObservabilityError>(ObservabilityError::CounterOverflow)
                &&& old(self).spec_tasks().len() < old(self).spec_capacity() && old(self).spec_next_id() < u64::MAX ==> r is Ok
            },
            r is Err ==> final(self).spec_tasks() == old(self).spec_tasks() && final(self).spec_next_id() == old(self).spec_next_id(),
            r matches Ok((id, _)) ==> {
                &&& id.value() == old(self).spec_next_id()
                &&& final(self).spec_next_id() == old(self).spec_next_id() + 1
                &&& final(self).spec_tasks() == old(self).spec_tasks().push(
                    TaskSnapshot {
                        id,
                        category: spec.spec_category(),
                        owner: spec.spec_owner(),
                        policy: spec.spec_policy(),
                        state: TaskState::Running,
                        started_at_monotonic_ms: monotonic_ms,
                        deadline_at_monotonic_ms: spec_deadline(spec.spec_policy(), monotonic_ms)->0,
                    },
                )
            },
    {
        spec.validate()?;
        let deadline_at_monotonic_ms = match spec.policy {
            TaskPolicy::Deadline { timeout_ms } => {
                match monotonic_ms.checked_add(timeout_ms) {
                    Some(deadline) => Some(deadline),
                    None => return Err(ObservabilityError::InvalidTaskPolicy),
                }
            },
            TaskPolicy::Cancellable | TaskPolicy::NonCancellable { .. } => None,
        };
        if self.tasks.len() >= self.capacity {
            return Err(ObservabilityError::TaskCapacityExceeded);
        }
        let raw_id = self.next_id;
        let next = match raw_id.checked_add(1) {
            Some(next) => next,
            None => return Err(ObservabilityError::CounterOverflow),
        };
        self.next_id = next;
        let id = TaskId(raw_id);
        let cancellation = CancellationToken::default();
        let snapshot = TaskSnapshot {
            id,
            category: spec.category,
            owner: spec.owner,
            policy: spec.policy,
            state: TaskState::Running,
            started_at_monotonic_ms: monotonic_ms,
            deadline_at_monotonic_ms,
        };
        let ghost before = self.spec_tasks();
        self.tasks.push(TaskRecord { snapshot, cancellation: cancellation.clone() });
        assert(self.spec_tasks() =~= before.push(snapshot));
        Ok((id, cancellation))
    }

    fn find(&self, id: TaskId) -> (r: Option<usize>)
        requires
            self.wf(),
        ensures
            r matches Some(i) ==> i < self.spec_tasks().len() && self.spec_tasks()[i as int].id
                == id,
            r is None ==> forall|i: int|
                0 <= i < self.spec_tasks().len() ==> self.spec_tasks()[i].id != id,
    {
        let mut i: usize = 0;
        while i < self.tasks.len()
            invariant
                i <= self.tasks@.len(),
                forall|j: int| 0 <= j < i ==> self.spec_tasks()[j].id != id,
            decreases self.tasks@.len() - i,
        {
            if self.tasks[i].snapshot.id == id {
                return Some(i);
            }
            i += 1;
        }
        None
    }

    /// Sets the state of the task at `index`, and its cancellation flag.
    fn set_state(&mut self, index: usize, state: TaskState)
        requires
            old(self).wf(),
            index < old(self).spec_tasks().len(),
        ensures
            final(self).wf(),
            final(self).spec_capacity() == old(self).spec_capacity(),
            final(self).spec_next_id() == old(self).spec_next_id(),
            final(self).spec_tasks() == old(self).spec_tasks().update(
                index as int,
                TaskSnapshot { state, ..old(self).spec_tasks()[index as int] },
            ),
    {
        let cancellation = self.tasks[index].cancellation.clone();
        cancellation.cancel();
        let mut snapshot = self.tasks[index].snapshot;
        snapshot.state = state;
        let ghost before = self.spec_tasks();
        self.tasks.set(index, TaskRecord { snapshot, cancellation });
        assert(self.spec_tasks() =~= before.update(index as int, snapshot));
        assert forall|i: int|
            0 <= i < self.tasks@.len() implies #[trigger] self.tasks@[i].snapshot.id.value()
            < self.next_id by {
            assert(self.tasks@[i].snapshot == self.spec_tasks()[i]);
            assert(old(self).tasks@[i].snapshot == before[i]);
        }
    }

    /// Asks a task to stop: a running cancellable task is marked and its token set.
    pub fn request_cancel(&mut self, id: TaskId) -> (r: Result<
        TaskCancelOutcome,
        ObservabilityError,
    >)
        requires
            old(self).wf(),
        ensures
            final(self).wf(),
            final(self).spec_capacity() == old(self).spec_capacity(),
            final(self).spec_next_id() == old(self).spec_next_id(),
            r is Err <==> forall|i: int|
                0 <= i < old(self).spec_tasks().len() ==> old(self).spec_tasks()[i].id != id,
            r matches Err(e) ==> e == ObservabilityError::TaskNotFound && final(self).spec_tasks()
                == old(self).spec_tasks(),
            r matches Ok(outcome) ==> exists|i: int|
                0 <= i < old(self).spec_tasks().len() && old(self).spec_tasks()[i].id == id
                    && outcome == spec_cancel(old(self).spec_tasks()[i]).1 && final(self).spec_tasks() == old(self).spec_tasks().update(
                    i,
                    TaskSnapshot {
                        state: spec_cancel(old(self).spec_tasks()[i]).0,
                        ..old(self).spec_tasks()[i]
                    },
                ),
    {
        let index = match self.find(id) {
            Some(index) => index,
            None => return Err(ObservabilityError::TaskNotFound),
        };
        let snapshot = self.tasks[index].snapshot;
        match snapshot.policy {
            TaskPolicy::NonCancellable { reason } => {
                assert(old(self).spec_tasks().update(
                    index as int,
                    TaskSnapshot { state: snapshot.state, ..snapshot },
                ) =~= old(self).spec_tasks());
                Ok(TaskCancelOutcome::NotCancellable { reason })
            },
            TaskPolicy::Cancellable | TaskPolicy::Deadline { .. } => {
                if snapshot.state != TaskState::Running {
                    assert(old(self).spec_tasks().update(
                        index as int,
                        TaskSnapshot { state: snapshot.state, ..snapshot },
                    ) =~= old(self).spec_tasks());
                    return Ok(TaskCancelOutcome::AlreadyRequested);
                }
                self.set_state(index, TaskState::CancelRequested);
                Ok(TaskCancelOutcome::Requested)
            },
        }
    }

    /// Marks every running task whose deadline has passed and sets its token;
    /// returns their identifiers in order.
    pub fn expire(&mut self, monotonic_ms: u64) -> (expired: Vec<TaskId>)
        requires
            old(self).wf(),
        ensures
            final(self).wf(),
            final(self).spec_capacity() == old(self).spec_capacity(),
            final(self).spec_next_id() == old(self).spec_next_id(),
            expired@ == expiring_ids(old(self).spec_tasks(), monotonic_ms),
            final(self).spec_tasks().len() == old(self).spec_tasks().len(),
            forall|i: int|
                0 <= i < old(self).spec_tasks().len() ==> #[trigger] final(self).spec_tasks()[i]
                    == (if task_expires(old(self).spec_tasks()[i], monotonic_ms) {
                    TaskSnapshot {
                        state: TaskState::TimeoutRequested,
                        ..old(self).spec_tasks()[i]
                    }
                } else {
                    old(self).spec_tasks()[i]
                }),
    {
        let ghost original = self.spec_tasks();
        let mut expired: Vec<TaskId> = Vec::new();
        let mut i: usize = 0;
        while i < self.tasks.len()
            invariant
                self.wf(),
                self.spec_capacity() == old(self).spec_capacity(),
                self.spec_next_id() == old(self).spec_next_id(),
                original == old(self).spec_tasks(),
                self.spec_tasks().len() == original.len(),
                i <= original.len(),
                expired@ == expiring_ids(original.subrange(0, i as int), monotonic_ms),
                forall|k: int|
                    0 <= k < i ==> #[trigger] self.spec_tasks()[k] == (if task_expires(
                        original[k],
                        monotonic_ms,
                    ) {
                        TaskSnapshot { state: TaskState::TimeoutRequested, ..original[k] }
                    } else {
                        original[k]
                    }),
                forall|k: int| i <= k < original.len() ==> #[trigger] self.spec_tasks()[k]
                    == original[k],
            decreases original.len() - i,
        {
            let snapshot = self.tasks[i].snapshot;
            assert(self.spec_tasks()[i as int] == self.tasks@[i as int].snapshot);
            assert(snapshot == original[i as int]);
            let due = match snapshot.deadline_at_monotonic_ms {
                Some(deadline) => monotonic_ms >= deadline,
                None => false,
            };
            assert(original.subrange(0, i as int + 1).drop_last() =~= original.subrange(
                0,
                i as int,
            ));
            if snapshot.state == TaskState::Running && due {
                self.set_state(i, TaskState::TimeoutRequested);
                expired.push(snapshot.id);
            }
            i += 1;
        }
        assert(original.subrange(0, original.len() as int) =~= original);
        expired
    }

    /// Asks every task of a closed page to stop.
    pub fn close_page(&mut self, session_id: PageSessionId) -> (r: PageCloseOutcome)
        requires
            old(self).wf(),
        ensures
            final(self).wf(),
            final(self).spec_capacity() == old(self).spec_capacity(),
            final(self).spec_next_id() == old(self).spec_next_id(),
            r.requested == count_page_tasks(old(self).spec_tasks(), session_id, true),
            r.already_requested == count_page_tasks(old(self).spec_tasks(), session_id, false),
            final(self).spec_tasks().len() == old(self).spec_tasks().len(),
            forall|i: int|
                0 <= i < old(self).spec_tasks().len() ==> #[trigger] final(self).spec_tasks()[i]
                    == (if task_owned_by_page(old(self).spec_tasks()[i], session_id) && old(self).spec_tasks()[i].state == TaskState::Running {
                    TaskSnapshot { state: TaskState::CancelRequested, ..old(self).spec_tasks()[i] }
                } else {
                    old(self).spec_tasks()[i]
                }),
    {
        let ghost original = self.spec_tasks();
        let mut requested: usize = 0;
        let mut already_requested: usize = 0;
        let mut i: usize = 0;
        while i < self.tasks.len()
            invariant
                self.wf(),
                self.spec_capacity() == old(self).spec_capacity(),
                self.spec_next_id() == old(self).spec_next_id(),
                original == old(self).spec_tasks(),
                self.spec_tasks().len() == original.len(),
                original.len() <= MAX_TASK_CAPACITY,
                i <= original.len(),
                requested == count_page_tasks(original.subrange(0, i as int), session_id, true),
                already_requested == count_page_tasks(
                    original.subrange(0, i as int),
                    session_id,
                    false,
                ),
                requested + already_requested <= i,
                forall|k: int|
                    0 <= k < i ==> #[trigger] self.spec_tasks()[k] == (if task_owned_by_page(
                        original[k],
                        session_id,
                    ) && original[k].state == TaskState::Running {
                        TaskSnapshot { state: TaskState::CancelRequested, ..original[k] }
                    } else {
                        original[k]
                    }),
                forall|k: int| i <= k < original.len() ==> #[trigger] self.spec_tasks()[k]
                    == original[k],
            decreases original.len() - i,
        {
            let snapshot = self.tasks[i].snapshot;
            assert(self.spec_tasks()[i as int] == self.tasks@[i as int].snapshot);
            assert(snapshot == original[i as int]);
            assert(original.subrange(0, i as int + 1).drop_last() =~= original.subrange(
                0,
                i as int,
            ));
            if snapshot.owner == (TaskOwner::Page { session_id }) {
                if snapshot.state == TaskState::Running {
                    self.set_state(i, TaskState::CancelRequested);
                    requested += 1;
                } else {
                    already_requested += 1;
                }
            }
            i += 1;
        }
        assert(original.subrange(0, original.len() as int) =~= original);
        PageCloseOutcome { requested, already_requested }
    }

    pub fn snapshots(&self) -> (r: Vec<TaskSnapshot>)
        requires
            self.wf(),
        ensures
            r@ == self.spec_tasks(),
    {
        let mut out: Vec<TaskSnapshot> = Vec::new();
        let mut i: usize = 0;
        while i < self.tasks.len()
            invariant
                i <= self.tasks@.len(),
                out@ == self.spec_tasks().subrange(0, i as int),
            decreases self.tasks@.len() - i,
        {
            out.push(self.tasks[i].snapshot);
            i += 1;
            assert(out@ =~= self.spec_tasks().subrange(0, i as int));
        }
        assert(self.spec_tasks().subrange(0, self.tasks@.len() as int) =~= self.spec_tasks());
        out
    }

    pub fn active_count(&self) -> (n: usize)
        requires
            self.wf(),
        ensures
            n == self.spec_tasks().len(),
            n <= self.spec_capacity(),
    {
        self.tasks.len()
    }

    /// Removes a finished task and returns its last snapshot.
    pub fn finish(&mut self, id: TaskId) -> (r: Result<TaskSnapshot, ObservabilityError>)
        requires
            old(self).wf(),
        ensures
            final(self).wf(),
            final(self).spec_capacity() == old(self).spec_capacity(),
            final(self).spec_next_id() == old(self).spec_next_id(),
            r is Err <==> forall|i: int|
                0 <= i < old(self).spec_tasks().len() ==> old(self).spec_tasks()[i].id != id,
            r matches Err(e) ==> e == ObservabilityError::TaskNotFound && final(self).spec_tasks()
                == old(self).spec_tasks(),
            r matches Ok(snapshot) ==> exists|i: int|
                0 <= i < old(self).spec_tasks().len() && old(self).spec_tasks()[i] == snapshot
                    && snapshot.id == id && final(self).spec_tasks() == old(self).spec_tasks().remove(i),
    {
        let index = match self.find(id) {
            Some(index) => index,
            None => return Err(ObservabilityError::TaskNotFound),
        };
        let ghost before = self.spec_tasks();
        let record = self.tasks.remove(index);
        assert(self.spec_tasks() =~= before.remove(index as int));
        assert forall|i: int|
            0 <= i < self.tasks@.len() implies #[trigger] self.tasks@[i].snapshot.id.value()
            < self.next_id by {
            if i < index {
                assert(self.tasks@[i] == old(self).tasks@[i]);
            } else {
                assert(self.tasks@[i] == old(self).tasks@[i + 1]);
            }
        }
        Ok(record.snapshot)
    }

    /// Removes a task whose owner went away without finishing it, and sets its token.
    pub fn abandon(&mut self, id: TaskId) -> (removed: bool)
        requires
            old(self).wf(),
        ensures
            final(self).wf(),
            final(self).spec_capacity() == old(self).spec_capacity(),
            final(self).spec_next_id() == old(self).spec_next_id(),
            removed <==> exists|i: int|
                0 <= i < old(self).spec_tasks().len() && old(self).spec_tasks()[i].id == id,
            !removed ==> final(self).spec_tasks() == old(self).spec_tasks(),
            removed ==> exists|i: int|
                0 <= i < old(self).spec_tasks().len() && old(self).spec_tasks()[i].id == id
                    && final(self).spec_tasks() == old(self).spec_tasks().remove(i),
    {
        let index = match self.find(id) {
            Some(index) => index,
            None => return false,
        };
        self.tasks[index].cancellation.cancel();
        match self.finish(id) {
            Ok(_) => true,
            Err(_) => true,
        }
    }
}

/// A registry never holds more tasks than its capacity, whatever is registered.
pub proof fn law_task_registry_is_bounded(registry: &TaskRegistry)
    requires
        registry.wf(),
    ensures
        registry.spec_tasks().len() <= registry.spec_capacity() <= MAX_TASK_CAPACITY,
{
}

#[derive(Debug, Clone, Copy, PartialEq, Eq, PartialOrd, Ord, Structural)]
pub enum DiagnosticCategory {
    Control,
    Data,
    Platform,
}

#[derive(Debug, Clone, Copy, PartialEq, Eq, Structural)]
pub enum DiagnosticSeverity {
    Info,
    Warning,
    Error,
}

#[derive(Debug, Clone, Copy, PartialEq, Eq, Structural)]
pub enum DiagnosticCode {
    StateTransition,
    OperationStarted,
    OperationCompleted,
    OperationFailed,
    PermissionDenied,
    Timeout,
    Cancelled,
    AdapterUnavailable,
    ConfigurationRollback,
    TrafficSampleCoalesced,
    EventQueueOverflow,
}

#[derive(Debug, Clone, Copy, PartialEq, Eq, Structural)]
pub enum MetricUnit {
    Milliseconds,
    Bytes,
    Count,
}

#[derive(Debug, Clone, Copy, PartialEq, Eq, Structural)]
pub enum MetricName {
    Duration,
    QueueDepth,
    DroppedEventCount,
    TransferredBytes,
}

pub open spec fn spec_metric_unit(name: MetricName) -> MetricUnit {
    match name {
        MetricName::Duration => MetricUnit::Milliseconds,
        MetricName::QueueDepth | MetricName::DroppedEventCount => MetricUnit::Count,
        MetricName::TransferredBytes => MetricUnit::Bytes,
    }
}

impl MetricName {
    pub fn unit(self) -> (u: MetricUnit)
        ensures
            u == spec_metric_unit(self),
    {
        match self {
            MetricName::Duration => MetricUnit::Milliseconds,
            MetricName::QueueDepth | MetricName::DroppedEventCount => MetricUnit::Count,
            MetricName::TransferredBytes => MetricUnit::Bytes,
        }
    }
}

/// A measurement; its unit always follows from its name.
#[derive(Debug, Clone, Copy, PartialEq, Eq, Structural)]
pub struct DiagnosticMetric {
    name: MetricName,
    unit: MetricUnit,
    value: u64,
}

impl DiagnosticMetric {
    pub closed spec fn spec_name(self) -> MetricName {
        self.name
    }

    pub closed spec fn spec_unit(self) -> MetricUnit {
        self.unit
    }

    pub closed spec fn spec_value(self) -> u64 {
        self.value
    }

    pub fn new(name: MetricName, value: u64) -> (m: Self)
        ensures
            m.spec_name() == name && m.spec_unit() == spec_metric_unit(name) && m.spec_value()
                == value,
    {
        DiagnosticMetric { name, unit: name.unit(), value }
    }

    pub fn name(self) -> (v: MetricName)
        ensures
            v == self.spec_name(),
    {
        self.name
    }

    pub fn unit(self) -> (v: MetricUnit)
        ensures
            v == self.spec_unit(),
    {
        self.unit
    }

    pub fn value(self) -> (v: u64)
        ensures
            v == self.spec_value(),
    {
        self.value
    }
}

#[derive(Debug, Clone, Copy, PartialEq, Eq, Structural)]
pub struct DiagnosticEntry {
    schema_version: u16,
    sequence: u64,
    occurred_at_unix_ms: u64,
    category: DiagnosticCategory,
    severity: DiagnosticSeverity,
    code: DiagnosticCode,
    metric: Option<DiagnosticMetric>,
}

impl DiagnosticEntry {
    /// The entry recorded with these values, in the current schema.
    pub closed spec fn spec_new(
        sequence: u64,
        occurred_at_unix_ms: u64,
        category: DiagnosticCategory,
        severity: DiagnosticSeverity,
        code: DiagnosticCode,
        metric: Option<DiagnosticMetric>,
    ) -> DiagnosticEntry {
        DiagnosticEntry {
            schema_version: OBSERVABILITY_SCHEMA_VERSION,
            sequence,
            occurred_at_unix_ms,
            category,
            severity,
            code,
            metric,
        }
    }

    /// An entry built by `spec_new` holds exactly the values it was built
    /// from.
    pub proof fn lemma_new_fields(
        sequence: u64,
        occurred_at_unix_ms: u64,
        category: DiagnosticCategory,
        severity: DiagnosticSeverity,
        code: DiagnosticCode,
        metric: Option<DiagnosticMetric>,
    )
        ensures
            ({
                let entry = DiagnosticEntry::spec_new(
                    sequence,
                    occurred_at_unix_ms,
                    category,
                    severity,
                    code,
                    metric,
                );
                &&& entry.spec_sequence() == sequence
                &&& entry.spec_occurred_at_unix_ms() == occurred_at_unix_ms
                &&& entry.spec_category() == category
                &&& entry.spec_severity() == severity
                &&& entry.spec_code() == code
                &&& entry.spec_metric() == metric
            }),
    {
    }

    pub closed spec fn spec_sequence(self) -> u64 {
        self.sequence
    }

    pub closed spec fn spec_occurred_at_unix_ms(self) -> u64 {
        self.occurred_at_unix_ms
    }

    pub closed spec fn spec_category(self) -> DiagnosticCategory {
        self.category
    }

    pub closed spec fn spec_severity(self) -> DiagnosticSeverity {
        self.severity
    }

    pub closed spec fn spec_code(self) -> DiagnosticCode {
        self.code
    }

    pub closed spec fn spec_metric(self) -> Option<DiagnosticMetric> {
        self.metric
    }

    pub fn sequence(&self) -> (v: u64)
        ensures
            v == self.spec_sequence(),
    {
        self.sequence
    }

    pub fn category(&self) -> (v: DiagnosticCategory)
        ensures
            v == self.spec_category(),
    {
        self.category
    }

    pub fn occurred_at_unix_ms(&self) -> (v: u64)
        ensures
            v == self.spec_occurred_at_unix_ms(),
    {
        self.occurred_at_unix_ms
    }

    pub fn severity(&self) -> (v: DiagnosticSeverity)
        ensures
            v == self.spec_severity(),
    {
        self.severity
    }

    pub fn code(&self) -> (v: DiagnosticCode)
        ensures
            v == self.spec_code(),
    {
        self.code
    }

    pub fn metric(&self) -> (v: Option<DiagnosticMetric>)
        ensures
            v == self.spec_metric(),
    {
        self.metric
    }
}

#[derive(Debug, Clone, PartialEq, Eq)]
pub struct DiagnosticRingSnapshot {
    capacity: usize,
    dropped_count: u64,
    entries: Vec<DiagnosticEntry>,
}

impl DiagnosticRingSnapshot {
    pub closed spec fn spec_capacity(&self) -> usize {
        self.capacity
    }

    pub closed spec fn spec_dropped_count(&self) -> u64 {
        self.dropped_count
    }

    pub closed spec fn spec_entries(&self) -> Seq<DiagnosticEntry> {
        self.entries@
    }

    pub fn capacity(&self) -> (v: usize)
        ensures
            v == self.spec_capacity(),
    {
        self.capacity
    }

    pub fn dropped_count(&self) -> (v: u64)
        ensures
            v == self.spec_dropped_count(),
    {
        self.dropped_count
    }

    pub fn entries(&self) -> (v: &[DiagnosticEntry])
        ensures
            v@ == self.spec_entries(),
    {
        self.entries.as_slice()
    }
}

/// A bounded log of diagnostics: when full, the oldest entry makes room and is
/// counted as dropped.
pub struct DiagnosticRing {
    capacity: usize,
    next_sequence: u64,
    dropped_count: u64,
    entries: VecDeque<DiagnosticEntry>,
}

pub open spec fn entry_sequences_increasing(entries: Seq<DiagnosticEntry>) -> bool {
    forall|i: int, j: int|
        0 <= i < j < entries.len() ==> entries[i].spec_sequence() < entries[j].spec_sequence()
}

/// The entries after recording `entry`: the oldest goes when the ring is full.
pub open spec fn ring_after_record(
    entries: Seq<DiagnosticEntry>,
    capacity: usize,
    entry: DiagnosticEntry,
) -> Seq<DiagnosticEntry> {
    if entries.len() == capacity {
        entries.drop_first().push(entry)
    } else {
        entries.push(entry)
    }
}

impl DiagnosticRing {
    pub closed spec fn spec_capacity(&self) -> usize {
        self.capacity
    }

    pub closed spec fn spec_next_sequence(&self) -> u64 {
        self.next_sequence
    }

    pub closed spec fn spec_dropped_count(&self) -> u64 {
        self.dropped_count
    }

    pub closed spec fn spec_entries(&self) -> Seq<DiagnosticEntry> {
        self.entries@
    }

    /// At most `capacity` entries (1 to 4096), with increasing sequences below the
    /// next one.
    pub closed spec fn wf(&self) -> bool {
        &&& 1 <= self.capacity <= MAX_DIAGNOSTIC_CAPACITY
        &&& self.entries@.len() <= self.capacity
        &&& entry_sequences_increasing(self.entries@)
        &&& forall|i: int|
            0 <= i < self.entries@.len() ==> #[trigger] self.entries@[i].spec_sequence()
                < self.next_sequence
    }

    pub fn new(capacity: usize) -> (r: Result<Self, ObservabilityError>)
        ensures
            r is Ok <==> 1 <= capacity <= MAX_DIAGNOSTIC_CAPACITY,
            r matches Err(e) ==> e == ObservabilityError::InvalidCapacity,
            r matches Ok(ring) ==> ring.wf() && ring.spec_capacity() == capacity
                && ring.spec_next_sequence() == 1 && ring.spec_dropped_count() == 0
                && ring.spec_entries().len() == 0,
    {
        if capacity == 0 || capacity > MAX_DIAGNOSTIC_CAPACITY {
            return Err(ObservabilityError::InvalidCapacity);
        }
        Ok(
            DiagnosticRing {
                capacity,
                next_sequence: 1,
                dropped_count: 0,
                entries: VecDeque::with_capacity(capacity),
            },
        )
    }

    /// Records a diagnostic and returns its sequence number.
    pub fn record(
        &mut self,
        occurred_at_unix_ms: u64,
        category: DiagnosticCategory,
        severity: DiagnosticSeverity,
        code: DiagnosticCode,
        metric: Option<DiagnosticMetric>,
    ) -> (r: Result<u64, ObservabilityError>)
        requires
            old(self).wf(),
        ensures
            final(self).wf(),
            final(self).spec_capacity() == old(self).spec_capacity(),
            occurred_at_unix_ms == 0 ==> r == Err::<u64, ObservabilityError>(
                ObservabilityError::InvalidDiagnostic,
            ),
            occurred_at_unix_ms != 0 && old(self).spec_next_sequence() == u64::MAX ==> r == Err::<
                u64,
                ObservabilityError,
            >(ObservabilityError::CounterOverflow),
            occurred_at_unix_ms != 0 && old(self).spec_next_sequence() < u64::MAX ==> r is Ok,
            r is Err ==> final(self).spec_entries() == old(self).spec_entries() && final(self).spec_next_sequence() == old(self).spec_next_sequence() && final(self).spec_dropped_count() == old(self).spec_dropped_count(),
            r matches Ok(sequence) ==> {
                &&& sequence == old(self).spec_next_sequence()
                &&& final(self).spec_next_sequence() == sequence + 1
                &&& final(self).spec_entries() == ring_after_record(
                    old(self).spec_entries(),
                    old(self).spec_capacity(),
                    DiagnosticEntry::spec_new(
                        sequence,
                        occurred_at_unix_ms,
                        category,
                        severity,
                        code,
                        metric,
                    ),
                )
                &&& final(self).spec_dropped_count() == (if old(self).spec_entries().len() == old(self).spec_capacity() {
                    if old(self).spec_dropped_count() < u64::MAX {
                        (old(self).spec_dropped_count() + 1) as u64
                    } else {
                        u64::MAX
                    }
                } else {
                    old(self).spec_dropped_count()
                })
            },
    {
        if occurred_at_unix_ms == 0 {
            return Err(ObservabilityError::InvalidDiagnostic);
        }
        let sequence = self.next_sequence;
        self.next_sequence = match self.next_sequence.checked_add(1) {
            Some(next) => next,
            None => return Err(ObservabilityError::CounterOverflow),
        };
        let ghost before = self.entries@;
        if self.entries.len() == self.capacity {
            self.entries.pop_front();
            self.dropped_count = self.dropped_count.saturating_add(1);
        }
        let entry = DiagnosticEntry {
            schema_version: OBSERVABILITY_SCHEMA_VERSION,
            sequence,
            occurred_at_unix_ms,
            category,
            severity,
            code,
            metric,
        };
        self.entries.push_back(entry);
        proof {
            if before.len() == self.capacity {
                assert(self.entries@ =~= before.drop_first().push(entry));
            } else {
                assert(self.entries@ =~= before.push(entry));
            }
            assert forall|i: int, j: int|
                0 <= i < j < self.entries@.len() implies self.entries@[i].spec_sequence()
                < self.entries@[j].spec_sequence() by {
                if j == self.entries@.len() - 1 {
                    if before.len() == self.capacity {
                        assert(self.entries@[i] == before[i + 1]);
                    } else {
                        assert(self.entries@[i] == before[i]);
                    }
                } else if before.len() == self.capacity {
                    assert(self.entries@[i] == before[i + 1]);
                    assert(self.entries@[j] == before[j + 1]);
                }
            }
            assert forall|i: int|
                0 <= i < self.entries@.len() implies #[trigger] self.entries@[i].spec_sequence()
                < self.next_sequence by {
                if i < self.entries@.len() - 1 {
                    if before.len() == self.capacity {
                        assert(self.entries@[i] == before[i + 1]);
                    } else {
                        assert(self.entries@[i] == before[i]);
                    }
                }
            }
        }
        Ok(sequence)
    }

    pub fn snapshot(&self) -> (s: DiagnosticRingSnapshot)
        requires
            self.wf(),
        ensures
            s.spec_capacity() == self.spec_capacity(),
            s.spec_dropped_count() == self.spec_dropped_count(),
            s.spec_entries() == self.spec_entries(),
    {
        let mut entries: Vec<DiagnosticEntry> = Vec::new();
        let mut i: usize = 0;
        while i < self.entries.len()
            invariant
                i <= self.entries@.len(),
                entries@ == self.entries@.subrange(0, i as int),
            decreases self.entries@.len() - i,
        {
            entries.push(self.entries[i]);
            i += 1;
            assert(entries@ =~= self.entries@.subrange(0, i as int));
        }
        assert(self.entries@.subrange(0, self.entries@.len() as int) =~= self.entries@);
        DiagnosticRingSnapshot {
            capacity: self.capacity,
            dropped_count: self.dropped_count,
            entries,
        }
    }
}

/// A diagnostic ring never holds more entries than its capacity, and its entries
/// are ordered by sequence.
pub proof fn law_diagnostic_ring_is_bounded_and_ordered(ring: &DiagnosticRing)
    requires
        ring.wf(),
    ensures
        ring.spec_entries().len() <= ring.spec_capacity() <= MAX_DIAGNOSTIC_CAPACITY,
        entry_sequences_increasing(ring.spec_entries()),
{
}

/// A JSON document, as the redaction audit reads it.
#[derive(Debug)]
pub enum JsonValue {
    Null,
    Bool(bool),
    Number,
    String(String),
    Array(Vec<JsonValue>),
    Object(Vec<(String, JsonValue)>),
}

pub open spec fn forbidden_field_fragment(index: int) -> Seq<char> {
    if index == 0 {
        "authorization"@
    } else if index == 1 {
        "body"@
    } else if index == 2 {
        "credential"@
    } else if index == 3 {
        "domain"@
    } else if index == 4 {
        "host"@
    } else if index == 5 {
        "node"@
    } else if index == 6 {
        "path"@
    } else if index == 7 {
        "query"@
    } else if index == 8 {
        "secret"@
    } else if index == 9 {
        "token"@
    } else {
        "url"@
    }
}

pub const FORBIDDEN_FIELD_FRAGMENT_COUNT: usize = 11;

fn forbidden_fragment(index: usize) -> (f: &'static str)
    requires
        index < FORBIDDEN_FIELD_FRAGMENT_COUNT,
    ensures
        f@ == forbidden_field_fragment(index as int),
{
    if index == 0 {
        "authorization"
    } else if index == 1 {
        "body"
    } else if index == 2 {
        "credential"
    } else if index == 3 {
        "domain"
    } else if index == 4 {
        "host"
    } else if index == 5 {
        "node"
    } else if index == 6 {
        "path"
    } else if index == 7 {
        "query"
    } else if index == 8 {
        "secret"
    } else if index == 9 {
        "token"
    } else {
        "url"
    }
}

/// A field name that, lower-cased, holds a fragment naming sensitive data.
pub open spec fn sensitive_field_name(key: Seq<u8>) -> bool {
    exists|f: int|
        0 <= f < FORBIDDEN_FIELD_FRAGMENT_COUNT && #[trigger] contains_seq(
            lower_all(key),
            utf8_bytes(forbidden_field_fragment(f)),
        )
}

/// A string value that may carry a location or an identity: longer than 64 bytes,
/// or holding `://`, `@` or `\`, or starting with `/`.
pub open spec fn sensitive_string(text: Seq<u8>) -> bool {
    ||| text.len() > 64
    ||| contains_seq(text, seq![58u8, 47u8, 47u8])
    ||| contains_byte(text, 64u8)
    ||| contains_byte(text, 92u8)
    ||| has_prefix(text, seq![47u8])
}

/// A document passes the audit when no field name and no string anywhere in it is
/// sensitive.
pub open spec fn json_passes_audit(value: JsonValue) -> bool
    decreases value,
{
    match value {
        JsonValue::Object(fields) => forall|i: int|
            #![trigger fields@[i]]
            0 <= i < fields@.len() ==> !sensitive_field_name(utf8_bytes(fields@[i].0@))
                && json_passes_audit(fields@[i].1),
        JsonValue::Array(values) => forall|i: int|
            #![trigger values@[i]]
            0 <= i < values@.len() ==> json_passes_audit(values@[i]),
        JsonValue::String(text) => !sensitive_string(utf8_bytes(text@)),
        _ => true,
    }
}

fn sensitive_field_name_exec(key: &str) -> (r: bool)
    ensures
        r == sensitive_field_name(utf8_bytes(key@)),
{
    let normalized = bytes_to_lower(key.as_bytes());
    let mut f: usize = 0;
    while f < FORBIDDEN_FIELD_FRAGMENT_COUNT
        invariant
            f <= FORBIDDEN_FIELD_FRAGMENT_COUNT,
            normalized@ == lower_all(utf8_bytes(key@)),
            forall|g: int|
                0 <= g < f ==> !#[trigger] contains_seq(
                    lower_all(utf8_bytes(key@)),
                    utf8_bytes(forbidden_field_fragment(g)),
                ),
        decreases FORBIDDEN_FIELD_FRAGMENT_COUNT - f,
    {
        let fragment = forbidden_fragment(f);
        if bytes_contain(normalized.as_slice(), fragment.as_bytes()) {
            assert(contains_seq(
                lower_all(utf8_bytes(key@)),
                utf8_bytes(forbidden_field_fragment(f as int)),
            ));
            return true;
        }
        f += 1;
    }
    false
}

fn sensitive_string_exec(text: &str) -> (r: bool)
    ensures
        r == sensitive_string(utf8_bytes(text@)),
{
    let bytes = text.as_bytes();
    let scheme_separator: [u8; 3] = [58u8, 47u8, 47u8];
    let slash: [u8; 1] = [47u8];
    assert(scheme_separator@ =~= seq![58u8, 47u8, 47u8]);
    assert(slash@ =~= seq![47u8]);
    bytes.len() > 64 || bytes_contain(bytes, &scheme_separator) || bytes_contain_byte(bytes, 64u8)
        || bytes_contain_byte(bytes, 92u8) || bytes_have_prefix(bytes, &slash)
}

/// Refuses a document that names or holds sensitive data anywhere.
pub fn secondary_redaction_audit(value: &JsonValue) -> (r: Result<(), ObservabilityError>)
    ensures
        r is Ok <==> json_passes_audit(*value),
        r matches Err(e) ==> e == ObservabilityError::SensitiveDiagnostic,
    decreases value,
{
    match value {
        JsonValue::Object(fields) => {
            let mut i: usize = 0;
            while i < fields.len()
                invariant
                    *value == JsonValue::Object(*fields),
                    i <= fields@.len(),
                    forall|k: int|
                        #![trigger fields@[k]]
                        0 <= k < i ==> !sensitive_field_name(utf8_bytes(fields@[k].0@))
                            && json_passes_audit(fields@[k].1),
                decreases fields@.len() - i,
            {
                let field = &fields[i];
                assert(*field == fields@[i as int]);
                if sensitive_field_name_exec(field.0.as_str()) {
                    assert(sensitive_field_name(utf8_bytes(field.0@)));
                    assert(field.0@ == fields@[i as int].0@);
                    assert(sensitive_field_name(utf8_bytes(fields@[i as int].0@)));
                    let ghost spec_fields = value->Object_0;
                    assert(spec_fields@[i as int] == fields@[i as int]);
                    assert(!json_passes_audit(*value));
                    return Err(ObservabilityError::SensitiveDiagnostic);
                }
                proof {
                    assert(decreases_to!(*value => value->Object_0));
                    assert(decreases_to!(*fields => fields@));
                    assert(decreases_to!(fields@ => fields@[i as int]));
                    assert(decreases_to!(fields@[i as int] => fields@[i as int].1));
                    assert(decreases_to!(*value => fields@[i as int].1));
                }
                let child = secondary_redaction_audit(&field.1);
                if child.is_err() {
                    assert(!json_passes_audit(fields@[i as int].1));
                    assert(!json_passes_audit(*value));
                    return Err(ObservabilityError::SensitiveDiagnostic);
                }
                assert(json_passes_audit(fields@[i as int].1));
                assert(field.0@ == fields@[i as int].0@);
                assert(!sensitive_field_name(utf8_bytes(fields@[i as int].0@)));
                i += 1;
            }
            assert(json_passes_audit(JsonValue::Object(*fields)));
            assert(*value == JsonValue::Object(*fields));
            assert(json_passes_audit(*value));
            Ok(())
        },
        JsonValue::Array(values) => {
            let mut i: usize = 0;
            while i < values.len()
                invariant
                    *value == JsonValue::Array(*values),
                    i <= values@.len(),
                    forall|k: int| #![trigger values@[k]] 0 <= k < i ==> json_passes_audit(values@[k]),
                decreases values@.len() - i,
            {
                proof {
                    assert(decreases_to!(*value => value->Array_0));
                    assert(decreases_to!(*values => values@));
                    assert(decreases_to!(values@ => values@[i as int]));
                    assert(decreases_to!(*value => values@[i as int]));
                }
                let child = secondary_redaction_audit(&values[i]);
                if child.is_err() {
                    assert(!json_passes_audit(values@[i as int]));
                    assert(!json_passes_audit(*value));
                    return Err(ObservabilityError::SensitiveDiagnostic);
                }
                i += 1;
            }
            assert(json_passes_audit(*value));
            Ok(())
        },
        JsonValue::String(text) => {
            if sensitive_string_exec(text.as_str()) {
                return Err(ObservabilityError::SensitiveDiagnostic);
            }
            Ok(())
        },
        JsonValue::Null | JsonValue::Bool(_) | JsonValue::Number => Ok(()),
    }
}

#[derive(Debug, Clone, PartialEq, Eq)]
pub struct DebugBundlePreview {
    confirmation_id: u64,
    created_at_unix_ms: u64,
    diagnostic_count: usize,
    dropped_diagnostic_count: u64,
    active_task_count: usize,
    byte_count: usize,
    categories: Vec<DiagnosticCategory>,
}

impl DebugBundlePreview {
    pub closed spec fn spec_confirmation_id(&self) -> u64 {
        self.confirmation_id
    }

    pub closed spec fn spec_created_at_unix_ms(&self) -> u64 {
        self.created_at_unix_ms
    }

    pub closed spec fn spec_diagnostic_count(&self) -> usize {
        self.diagnostic_count
    }

    pub closed spec fn spec_dropped_diagnostic_count(&self) -> u64 {
        self.dropped_diagnostic_count
    }

    pub closed spec fn spec_active_task_count(&self) -> usize {
        self.active_task_count
    }

    pub closed spec fn spec_byte_count(&self) -> usize {
        self.byte_count
    }

    pub closed spec fn spec_categories(&self) -> Seq<DiagnosticCategory> {
        self.categories@
    }

    pub fn confirmation_id(&self) -> (v: u64)
        ensures
            v == self.spec_confirmation_id(),
    {
        self.confirmation_id
    }

    pub fn diagnostic_count(&self) -> (v: usize)
        ensures
            v == self.spec_diagnostic_count(),
    {
        self.diagnostic_count
    }

    pub fn active_task_count(&self) -> (v: usize)
        ensures
            v == self.spec_active_task_count(),
    {
        self.active_task_count
    }

    pub fn byte_count(&self) -> (v: usize)
        ensures
            v == self.spec_byte_count(),
    {
        self.byte_count
    }

    pub fn categories(&self) -> (v: &[DiagnosticCategory])
        ensures
            v@ == self.spec_categories(),
    {
        self.categories.as_slice()
    }
}

/// A debug bundle waiting for the user to confirm its preview.
pub struct PendingDebugBundle {
    preview: DebugBundlePreview,
    bytes: Vec<u8>,
}

/// A debug bundle the user confirmed.
pub struct ConfirmedDebugBundle {
    bytes: Vec<u8>,
}

pub open spec fn has_category(entries: Seq<DiagnosticEntry>, category: DiagnosticCategory) -> bool {
    exists|i: int| 0 <= i < entries.len() && entries[i].spec_category() == category
}

/// The categories present among the entries, each once, in category order.
pub open spec fn present_categories(entries: Seq<DiagnosticEntry>) -> Seq<DiagnosticCategory> {
    let control = if has_category(entries, DiagnosticCategory::Control) {
        seq![DiagnosticCategory::Control]
    } else {
        seq![]
    };
    let data = if has_category(entries, DiagnosticCategory::Data) {
        seq![DiagnosticCategory::Data]
    } else {
        seq![]
    };
    let platform = if has_category(entries, DiagnosticCategory::Platform) {
        seq![DiagnosticCategory::Platform]
    } else {
        seq![]
    };
    control + data + platform
}

fn entries_have_category(entries: &[DiagnosticEntry], category: DiagnosticCategory) -> (r: bool)
    ensures
        r == has_category(entries@, category),
{
    let mut i: usize = 0;
    while i < entries.len()
        invariant
            i <= entries@.len(),
            forall|k: int| 0 <= k < i ==> entries@[k].spec_category() != category,
        decreases entries@.len() - i,
    {
        if entries[i].category == category {
            return true;
        }
        i += 1;
    }
    false
}

impl PendingDebugBundle {
    pub closed spec fn spec_preview(&self) -> DebugBundlePreview {
        self.preview
    }

    pub closed spec fn spec_bytes(&self) -> Seq<u8> {
        self.bytes@
    }

    /// Prepares a bundle from its serialised `document` (whose JSON form is
    /// `audited`), refusing a zero creation time, sensitive content, or more than
    /// 512 KiB.
    pub fn prepare(
        confirmation_id: u64,
        created_at_unix_ms: u64,
        diagnostics: &DiagnosticRingSnapshot,
        active_task_count: usize,
        audited: &JsonValue,
        document: Vec<u8>,
    ) -> (r: Result<Self, ObservabilityError>)
        ensures
            created_at_unix_ms == 0 ==> r == Err::<Self, ObservabilityError>(
                ObservabilityError::InvalidDiagnostic,
            ),
            created_at_unix_ms != 0 && !json_passes_audit(*audited) ==> r == Err::<
                Self,
                ObservabilityError,
            >(ObservabilityError::SensitiveDiagnostic),
            created_at_unix_ms != 0 && json_passes_audit(*audited) && document@.len()
                > MAX_DEBUG_BUNDLE_BYTES ==> r == Err::<Self, ObservabilityError>(
                ObservabilityError::BundleTooLarge,
            ),
            created_at_unix_ms != 0 && json_passes_audit(*audited) && document@.len()
                <= MAX_DEBUG_BUNDLE_BYTES ==> r is Ok,
            r matches Ok(bundle) ==> {
                let preview = bundle.spec_preview();
                &&& bundle.spec_bytes() == document@
                &&& preview.spec_confirmation_id() == confirmation_id
                &&& preview.spec_created_at_unix_ms() == created_at_unix_ms
                &&& preview.spec_diagnostic_count() == diagnostics.spec_entries().len()
                &&& preview.spec_dropped_diagnostic_count() == diagnostics.spec_dropped_count()
                &&& preview.spec_active_task_count() == active_task_count
                &&& preview.spec_byte_count() == document@.len()
                &&& preview.spec_categories() == present_categories(diagnostics.spec_entries())
            },
    {
        if created_at_unix_ms == 0 {
            return Err(ObservabilityError::InvalidDiagnostic);
        }
        secondary_redaction_audit(audited)?;
        if document.len() > MAX_DEBUG_BUNDLE_BYTES {
            return Err(ObservabilityError::BundleTooLarge);
        }
        let entries = diagnostics.entries.as_slice();
        let mut categories: Vec<DiagnosticCategory> = Vec::new();
        if entries_have_category(entries, DiagnosticCategory::Control) {
            categories.push(DiagnosticCategory::Control);
        }
        if entries_have_category(entries, DiagnosticCategory::Data) {
            categories.push(DiagnosticCategory::Data);
        }
        if entries_have_category(entries, DiagnosticCategory::Platform) {
            categories.push(DiagnosticCategory::Platform);
        }
        assert(categories@ =~= present_categories(diagnostics.spec_entries()));
        let byte_count = document.len();
        Ok(
            PendingDebugBundle {
                preview: DebugBundlePreview {
                    confirmation_id,
                    created_at_unix_ms,
                    diagnostic_count: diagnostics.entries.len(),
                    dropped_diagnostic_count: diagnostics.dropped_count,
                    active_task_count,
                    byte_count,
                    categories,
                },
                bytes: document,
            },
        )
    }

    pub fn preview(&self) -> (p: &DebugBundlePreview)
        ensures
            *p == self.spec_preview(),
    {
        &self.preview
    }

    /// Releases the bundle when the confirmation matches its preview.
    pub fn confirm(self, confirmation_id: u64) -> (r: Result<
        ConfirmedDebugBundle,
        ObservabilityError,
    >)
        ensures
            r is Ok <==> confirmation_id == self.spec_preview().spec_confirmation_id(),
            r matches Err(e) ==> e == ObservabilityError::ConfirmationMismatch,
            r matches Ok(confirmed) ==> confirmed.spec_bytes() == self.spec_bytes(),
    {
        if confirmation_id != self.preview.confirmation_id {
            return Err(ObservabilityError::ConfirmationMismatch);
        }
        Ok(ConfirmedDebugBundle { bytes: self.bytes })
    }
}

impl ConfirmedDebugBundle {
    pub closed spec fn spec_bytes(&self) -> Seq<u8> {
        self.bytes@
    }

    pub fn bytes(&self) -> (b: &[u8])
        ensures
            b@ == self.spec_bytes(),
    {
        self.bytes.as_slice()
    }

    pub fn into_bytes(self) -> (b: Vec<u8>)
        ensures
            b@ == self.spec_bytes(),
    {
        self.bytes
    }
}

} // verus!
