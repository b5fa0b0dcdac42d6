//! Turns polled data-plane snapshots and traffic counters into numbered
//! platform events, and keeps the most recent events for readers.
//!
//! Polling on a timer, the worker thread and waking readers are the
//! application's part.
use vstd::prelude::*;
use crate::plane_state::DataPlaneState;
use crate::vpn::{AdapterSnapshot, PlatformVpnError};
use crate::data_plane_nodes::{NodeRuntimeError, TrafficCounters, TrafficDisplay, TrafficSession};
use crate::observability::{
    EventEnvelope,
    ObservabilityError,
    PlatformEvent,
    MAX_EVENT_INTEGER,
    OBSERVABILITY_SCHEMA_VERSION,
    spec_observability_error_name,
    DiagnosticCode,
};
use crate::business_service::spec_vpn_error_name;

verus! {

pub const DEFAULT_DATA_PLANE_EVENT_CAPACITY: usize = 64;

pub const MAX_DATA_PLANE_EVENT_CAPACITY: usize = 256;

pub const DEFAULT_DATA_PLANE_EVENT_POLL_INTERVAL_MS: u64 = 500;

pub const MAX_DATA_PLANE_EVENT_POLL_INTERVAL_MS: u64 = 5000;

pub const DEFAULT_TRAFFIC_EVENT_INTERVAL_MS: u64 = 1000;

#[derive(Debug, Clone, Copy, PartialEq, Eq, Structural)]
pub enum DataPlaneEventError {
    InvalidSnapshot,
    InvalidInterval,
    WorkerUnavailable,
    Platform(PlatformVpnError),
    Node(NodeRuntimeError),
    Observability(ObservabilityError),
}

pub open spec fn spec_event_error_name(error: DataPlaneEventError) -> Seq<char> {
    match error {
        DataPlaneEventError::InvalidSnapshot => "data-plane-event-invalid-snapshot"@,
        DataPlaneEventError::InvalidInterval => "data-plane-event-invalid-interval"@,
        DataPlaneEventError::WorkerUnavailable => "data-plane-event-worker-unavailable"@,
        DataPlaneEventError::Platform(e) => spec_vpn_error_name(e),
        DataPlaneEventError::Node(e) => e.spec_name()@,
        DataPlaneEventError::Observability(e) => spec_observability_error_name(e),
    }
}

impl DataPlaneEventError {
    pub fn as_str(self) -> (name: &'static str)
        ensures
            name@ == spec_event_error_name(self),
    {
        match self {
            DataPlaneEventError::InvalidSnapshot => "data-plane-event-invalid-snapshot",
            DataPlaneEventError::InvalidInterval => "data-plane-event-invalid-interval",
            DataPlaneEventError::WorkerUnavailable => "data-plane-event-worker-unavailable",
            DataPlaneEventError::Platform(error) => error.as_str(),
            DataPlaneEventError::Node(error) => error.as_str(),
            DataPlaneEventError::Observability(error) => error.as_str(),
        }
    }
}

/// Where the event monitor reads the data plane; implemented by each platform.
pub trait DataPlaneEventBackend: Send + Sync + 'static {
    fn data_plane_snapshot(&self) -> Result<AdapterSnapshot, PlatformVpnError>;

    fn data_plane_traffic_counters(&self) -> Result<TrafficCounters, NodeRuntimeError>;
}

/// The poll interval of an event monitor must be positive and at most the
/// maximum.
pub fn check_poll_interval(poll_interval_ms: u64) -> (r: Result<(), DataPlaneEventError>)
    ensures
        (poll_interval_ms == 0 || poll_interval_ms > MAX_DATA_PLANE_EVENT_POLL_INTERVAL_MS) ==> r
            == Err::<(), DataPlaneEventError>(DataPlaneEventError::InvalidInterval),
        !(poll_interval_ms == 0 || poll_interval_ms > MAX_DATA_PLANE_EVENT_POLL_INTERVAL_MS)
            ==> r is Ok,
{
    if poll_interval_ms == 0 || poll_interval_ms > MAX_DATA_PLANE_EVENT_POLL_INTERVAL_MS {
        Err(DataPlaneEventError::InvalidInterval)
    } else {
        Ok(())
    }
}

/// Why an observation is refused, if it is: a bad timestamp; a snapshot of the
/// same instance that goes back, or that repeats a sequence number with a
/// different state; counters for a data plane that is not online with an
/// active instance.
pub open spec fn spec_observation_error(
    last: AdapterSnapshot,
    snapshot: AdapterSnapshot,
    has_counters: bool,
    occurred_at_unix_ms: u64,
) -> Option<DataPlaneEventError> {
    if occurred_at_unix_ms == 0 || occurred_at_unix_ms > MAX_EVENT_INTEGER {
        Some(DataPlaneEventError::Observability(ObservabilityError::InvalidEvent))
    } else if snapshot.spec_instance_id() == last.spec_instance_id() && (snapshot.spec_sequence()
        < last.spec_sequence() || (snapshot.spec_sequence() == last.spec_sequence() && (
    snapshot.spec_state() != last.spec_state() || snapshot.spec_active_instance()
        != last.spec_active_instance()))) {
        Some(DataPlaneEventError::InvalidSnapshot)
    } else if has_counters && (snapshot.spec_state() != DataPlaneState::Online
        || !snapshot.spec_active_instance() || snapshot.spec_instance_id() == 0) {
        Some(DataPlaneEventError::InvalidSnapshot)
    } else {
        None
    }
}

/// The instance the events of an observation belong to.
pub open spec fn spec_event_instance(stream: Option<u64>, snapshot: AdapterSnapshot) -> Option<u64> {
    if snapshot.spec_instance_id() > 0 {
        Some(snapshot.spec_instance_id())
    } else {
        stream
    }
}

/// Numbers the events of one data-plane stream.
pub struct DataPlaneEventBridge {
    last_snapshot: AdapterSnapshot,
    stream_instance_id: Option<u64>,
    sequence: u64,
    traffic: TrafficSession,
}

impl DataPlaneEventBridge {
    pub closed spec fn spec_last_snapshot(&self) -> AdapterSnapshot {
        self.last_snapshot
    }

    pub closed spec fn spec_stream_instance_id(&self) -> Option<u64> {
        self.stream_instance_id
    }

    pub closed spec fn spec_sequence(&self) -> u64 {
        self.sequence
    }

    pub closed spec fn spec_traffic(&self) -> TrafficSession {
        self.traffic
    }

    pub fn new(traffic_interval_ms: u64) -> (r: Result<Self, DataPlaneEventError>)
        ensures
            traffic_interval_ms == 0 ==> r == Err::<Self, DataPlaneEventError>(
                DataPlaneEventError::Node(NodeRuntimeError::InvalidRequest),
            ),
            traffic_interval_ms > 0 ==> (r matches Ok(bridge) && bridge.spec_sequence() == 0
                && bridge.spec_stream_instance_id() is None
                && bridge.spec_last_snapshot().spec_instance_id() == 0
                && bridge.spec_last_snapshot().spec_sequence() == 0
                && bridge.spec_last_snapshot().spec_state() == DataPlaneState::Unconfigured
                && !bridge.spec_last_snapshot().spec_active_instance()),
    {
        let traffic = match TrafficSession::new(traffic_interval_ms) {
            Ok(traffic) => traffic,
            Err(error) => return Err(DataPlaneEventError::Node(error)),
        };
        Ok(
            DataPlaneEventBridge {
                last_snapshot: AdapterSnapshot::initial(),
                stream_instance_id: None,
                sequence: 0,
                traffic,
            },
        )
    }

    fn validate_observation(
        &self,
        snapshot: AdapterSnapshot,
        has_counters: bool,
        occurred_at_unix_ms: u64,
    ) -> (r: Result<(), DataPlaneEventError>)
        ensures
            match spec_observation_error(
                self.spec_last_snapshot(),
                snapshot,
                has_counters,
                occurred_at_unix_ms,
            ) {
                Some(e) => r == Err::<(), DataPlaneEventError>(e),
                None => r is Ok,
            },
    {
        if occurred_at_unix_ms == 0 || occurred_at_unix_ms > MAX_EVENT_INTEGER {
            return Err(DataPlaneEventError::Observability(ObservabilityError::InvalidEvent));
        }
        let last = self.last_snapshot;
        if snapshot.instance_id() == last.instance_id() && (snapshot.sequence() < last.sequence() || (
        snapshot.sequence() == last.sequence() && (snapshot.state() != last.state()
            || snapshot.has_active_instance() != last.has_active_instance()))) {
            return Err(DataPlaneEventError::InvalidSnapshot);
        }
        if has_counters && (snapshot.state() != DataPlaneState::Online
            || !snapshot.has_active_instance() || snapshot.instance_id() == 0) {
            return Err(DataPlaneEventError::InvalidSnapshot);
        }
        Ok(())
    }

    fn next_sequence(&self) -> (r: Result<u64, DataPlaneEventError>)
        ensures
            self.spec_sequence() < MAX_EVENT_INTEGER ==> r == Ok::<u64, DataPlaneEventError>(
                (self.spec_sequence() + 1) as u64,
            ),
            self.spec_sequence() >= MAX_EVENT_INTEGER ==> r == Err::<u64, DataPlaneEventError>(
                DataPlaneEventError::Observability(ObservabilityError::CounterOverflow),
            ),
    {
        if self.sequence >= MAX_EVENT_INTEGER {
            return Err(DataPlaneEventError::Observability(ObservabilityError::CounterOverflow));
        }
        Ok(self.sequence + 1)
    }

    /// Records one observation of the data plane and returns the events it
    /// produces: a state event when the snapshot changed, then a traffic event
    /// when the data plane is online and the traffic sample is due. A new
    /// instance restarts the numbering and the traffic session.
    pub fn observe(
        &mut self,
        snapshot: AdapterSnapshot,
        counters: Option<TrafficCounters>,
        occurred_at_unix_ms: u64,
        monotonic_ms: u64,
    ) -> (r: Result<Vec<EventEnvelope>, DataPlaneEventError>)
        ensures
            spec_observation_error(
                old(self).spec_last_snapshot(),
                snapshot,
                counters is Some,
                occurred_at_unix_ms,
            ) matches Some(e) ==> r == Err::<Vec<EventEnvelope>, DataPlaneEventError>(e) && *final(self) == *old(self),
            r matches Ok(events) ==> {
                &&& spec_observation_error(
                    old(self).spec_last_snapshot(),
                    snapshot,
                    counters is Some,
                    occurred_at_unix_ms,
                ) is None
                &&& final(self).spec_last_snapshot() == snapshot
                &&& final(self).spec_stream_instance_id() == spec_event_instance(
                    old(self).spec_stream_instance_id(),
                    snapshot,
                )
                &&& events@.len() <= 2
                &&& forall|i: int|
                    0 <= i < events@.len() ==> Some((#[trigger] events@[i]).spec_instance_id())
                        == spec_event_instance(old(self).spec_stream_instance_id(), snapshot)
                        && events@[i].spec_occurred_at_unix_ms() == occurred_at_unix_ms
                        && events@[i].spec_sequence() <= final(self).spec_sequence()
                &&& (snapshot != old(self).spec_last_snapshot() && spec_event_instance(
                    old(self).spec_stream_instance_id(),
                    snapshot,
                ) is Some) ==> events@.len() >= 1 && events@[0].spec_event() == (
                PlatformEvent::DataState { state: snapshot.spec_state() })
                &&& !(snapshot != old(self).spec_last_snapshot() && spec_event_instance(
                    old(self).spec_stream_instance_id(),
                    snapshot,
                ) is Some) ==> forall|i: int|
                    0 <= i < events@.len() ==> (#[trigger] events@[i]).spec_event() is Traffic
                &&& counters is None ==> events@.len() <= 1
            },
    {
        self.validate_observation(snapshot, counters.is_some(), occurred_at_unix_ms)?;
        let snapshot_changed = snapshot != self.last_snapshot;
        let instance_id = snapshot.instance_id();
        let new_stream = match self.stream_instance_id {
            Some(current) => current != instance_id,
            None => true,
        };
        if instance_id > 0 && new_stream {
            self.traffic.stop();
            self.stream_instance_id = Some(instance_id);
            self.sequence = 0;
        }
        let mut events: Vec<EventEnvelope> = Vec::new();
        let event_instance = if instance_id > 0 {
            Some(instance_id)
        } else {
            self.stream_instance_id
        };
        if snapshot_changed {
            if let Some(stream) = event_instance {
                let sequence = self.next_sequence()?;
                let envelope = match EventEnvelope::new(
                    stream,
                    sequence,
                    occurred_at_unix_ms,
                    PlatformEvent::data_state(snapshot.state()),
                ) {
                    Ok(envelope) => envelope,
                    Err(error) => return Err(DataPlaneEventError::Observability(error)),
                };
                self.sequence = sequence;
                events.push(envelope);
            }
        }
        if snapshot.state() == DataPlaneState::Online && snapshot.has_active_instance() {
            if let Some(counters) = counters {
                if let Err(error) = self.traffic.start(instance_id) {
                    return Err(DataPlaneEventError::Node(error));
                }
                let sequence = self.next_sequence()?;
                let observed = match self.traffic.observe_with_sequence(
                    counters,
                    sequence,
                    occurred_at_unix_ms,
                    monotonic_ms,
                ) {
                    Ok(observed) => observed,
                    Err(error) => return Err(DataPlaneEventError::Node(error)),
                };
                if let Some(envelope) = observed {
                    events.push(envelope);
                }
                self.sequence = sequence;
            }
        } else {
            self.traffic.stop();
        }
        self.last_snapshot = snapshot;
        Ok(events)
    }

    pub fn traffic_display(&self) -> (d: TrafficDisplay)
        ensures
            d == self.spec_traffic().spec_display(),
    {
        self.traffic.display()
    }
}

#[derive(Debug, Clone, Copy, PartialEq, Eq, Structural)]
pub enum EventPublishOutcome {
    Enqueued,
    DroppedOldest,
}

/// The retained events of a hub, as a reader sees them.
pub struct DataPlaneEventHubSnapshot {
    schema_version: u16,
    capacity: usize,
    dropped_count: u64,
    stream_instance_id: Option<u64>,
    events: Vec<EventEnvelope>,
}

impl DataPlaneEventHubSnapshot {
    pub closed spec fn spec_schema_version(&self) -> u16 {
        self.schema_version
    }

    pub closed spec fn spec_capacity(&self) -> usize {
        self.capacity
    }

    pub closed spec fn spec_dropped_count(&self) -> u64 {
        self.dropped_count
    }

    pub closed spec fn spec_stream_instance_id(&self) -> Option<u64> {
        self.stream_instance_id
    }

    pub closed spec fn spec_events(&self) -> Seq<EventEnvelope> {
        self.events@
    }

    pub fn schema_version(&self) -> (v: u16)
        ensures
            v == self.spec_schema_version(),
    {
        self.schema_version
    }

    pub fn capacity(&self) -> (v: usize)
        ensures
            v == self.spec_capacity(),
    {
        self.capacity
    }

    pub fn dropped_count(&self) -> (v: u64)
        ensures
            v == self.spec_dropped_count(),
    {
        self.dropped_count
    }

    pub fn stream_instance_id(&self) -> (v: Option<u64>)
        ensures
            v == self.spec_stream_instance_id(),
    {
        self.stream_instance_id
    }

    pub fn events(&self) -> (v: &[EventEnvelope])
        ensures
            v@ == self.spec_events(),
    {
        self.events.as_slice()
    }
}

/// The most recent events of the data plane, at most `capacity` of them,
/// oldest first.
pub struct DataPlaneEventHubState {
    capacity: usize,
    dropped_count: u64,
    stream_instance_id: Option<u64>,
    events: Vec<EventEnvelope>,
}

impl DataPlaneEventHubState {
    pub closed spec fn spec_capacity(&self) -> usize {
        self.capacity
    }

    pub closed spec fn spec_dropped_count(&self) -> u64 {
        self.dropped_count
    }

    pub closed spec fn spec_stream_instance_id(&self) -> Option<u64> {
        self.stream_instance_id
    }

    pub closed spec fn spec_events(&self) -> Seq<EventEnvelope> {
        self.events@
    }

    #[verifier::type_invariant]
    spec fn bounded(&self) -> bool {
        &&& 1 <= self.capacity <= MAX_DATA_PLANE_EVENT_CAPACITY
        &&& self.events@.len() <= self.capacity
        &&& self.dropped_count <= MAX_EVENT_INTEGER
    }

    pub fn new(capacity: usize) -> (r: Result<Self, DataPlaneEventError>)
        ensures
            (capacity == 0 || capacity > MAX_DATA_PLANE_EVENT_CAPACITY) ==> r == Err::<
                Self,
                DataPlaneEventError,
            >(DataPlaneEventError::Observability(ObservabilityError::InvalidCapacity)),
            !(capacity == 0 || capacity > MAX_DATA_PLANE_EVENT_CAPACITY) ==> (r matches Ok(hub)
                && hub.spec_capacity() == capacity && hub.spec_dropped_count() == 0
                && hub.spec_stream_instance_id() is None && hub.spec_events().len() == 0),
    {
        if capacity == 0 || capacity > MAX_DATA_PLANE_EVENT_CAPACITY {
            return Err(DataPlaneEventError::Observability(ObservabilityError::InvalidCapacity));
        }
        Ok(
            DataPlaneEventHubState {
                capacity,
                dropped_count: 0,
                stream_instance_id: None,
                events: Vec::new(),
            },
        )
    }

    /// Appends an event, dropping the oldest one when the hub is full.
    pub fn publish(&mut self, event: EventEnvelope) -> (outcome: EventPublishOutcome)
        ensures
            final(self).spec_capacity() == old(self).spec_capacity(),
            final(self).spec_stream_instance_id() == Some(event.spec_instance_id()),
            old(self).spec_events().len() == old(self).spec_capacity() ==> {
                &&& outcome == EventPublishOutcome::DroppedOldest
                &&& final(self).spec_events() == old(self).spec_events().drop_first().push(event)
                &&& final(self).spec_dropped_count() == (if old(self).spec_dropped_count()
                    < MAX_EVENT_INTEGER {
                    old(self).spec_dropped_count() + 1
                } else {
                    MAX_EVENT_INTEGER as int
                })
            },
            old(self).spec_events().len() < old(self).spec_capacity() ==> {
                &&& outcome == EventPublishOutcome::Enqueued
                &&& final(self).spec_events() == old(self).spec_events().push(event)
                &&& final(self).spec_dropped_count() == old(self).spec_dropped_count()
            },
    {
        proof {
            use_type_invariant(&*self);
        }
        let mut events = Vec::new();
        std::mem::swap(&mut events, &mut self.events);
        let mut dropped = self.dropped_count;
        let outcome = if events.len() == self.capacity {
            events.remove(0);
            if dropped < MAX_EVENT_INTEGER {
                dropped = dropped + 1;
            }
            EventPublishOutcome::DroppedOldest
        } else {
            EventPublishOutcome::Enqueued
        };
        let instance_id = event.instance_id();
        events.push(event);
        *self = DataPlaneEventHubState {
            capacity: self.capacity,
            dropped_count: dropped,
            stream_instance_id: Some(instance_id),
            events,
        };
        outcome
    }

    /// A copy of what the hub holds.
    pub fn snapshot(&self) -> (s: DataPlaneEventHubSnapshot)
        ensures
            s.spec_schema_version() == OBSERVABILITY_SCHEMA_VERSION,
            s.spec_capacity() == self.spec_capacity(),
            s.spec_dropped_count() == self.spec_dropped_count(),
            s.spec_stream_instance_id() == self.spec_stream_instance_id(),
            s.spec_events() == self.spec_events(),
    {
        let mut events: Vec<EventEnvelope> = Vec::new();
        let mut i: usize = 0;
        while i < self.events.len()
            invariant
                i <= self.events@.len(),
                events@ == self.events@.subrange(0, i as int),
            decreases self.events@.len() - i,
        {
            events.push(self.events[i].clone());
            i += 1;
            assert(events@ =~= self.events@.subrange(0, i as int));
        }
        assert(self.events@.subrange(0, self.events@.len() as int) =~= self.events@);
        DataPlaneEventHubSnapshot {
            schema_version: OBSERVABILITY_SCHEMA_VERSION,
            capacity: self.capacity,
            dropped_count: self.dropped_count,
            stream_instance_id: self.stream_instance_id,
            events,
        }
    }
}

/// What the event monitor probes on each round.
#[derive(Debug, Clone, Copy, PartialEq, Eq, Structural)]
pub enum MonitorProbe {
    Snapshot,
    Traffic,
    Bridge,
}

/// The diagnostic a failed probe is reported with: a failed bridge step is a
/// failed operation; a snapshot or traffic read that failed means the adapter
/// is unavailable.
pub fn probe_failure_code(probe: MonitorProbe) -> (code: DiagnosticCode)
    ensures
        code == (if probe == MonitorProbe::Bridge {
            DiagnosticCode::OperationFailed
        } else {
            DiagnosticCode::AdapterUnavailable
        }),
{
    match probe {
        MonitorProbe::Bridge => DiagnosticCode::OperationFailed,
        MonitorProbe::Snapshot | MonitorProbe::Traffic => DiagnosticCode::AdapterUnavailable,
    }
}

/// The monitor's memory of what it already reported: each failure, and an
/// overflow of the event queue, is reported once until it clears.
#[derive(Debug, Clone, Copy, PartialEq, Eq, Structural)]
pub struct MonitorLatches {
    snapshot_error: bool,
    traffic_error: bool,
    bridge_error: bool,
    queue_drop: bool,
}

impl MonitorLatches {
    /// Whether a failure of `probe` was reported and has not cleared since.
    pub closed spec fn spec_latched(self, probe: MonitorProbe) -> bool {
        match probe {
            MonitorProbe::Snapshot => self.snapshot_error,
            MonitorProbe::Traffic => self.traffic_error,
            MonitorProbe::Bridge => self.bridge_error,
        }
    }

    /// Whether an overflow of the queue was reported and has not cleared.
    pub closed spec fn spec_queue_drop(self) -> bool {
        self.queue_drop
    }

    pub fn new() -> (r: Self)
        ensures
            !r.spec_latched(MonitorProbe::Snapshot),
            !r.spec_latched(MonitorProbe::Traffic),
            !r.spec_latched(MonitorProbe::Bridge),
            !r.spec_queue_drop(),
    {
        MonitorLatches { snapshot_error: false, traffic_error: false, bridge_error: false, queue_drop: false }
    }

    /// Notes a failure of `probe`; reports it only when it is not latched yet.
    pub fn fail(&mut self, probe: MonitorProbe) -> (report: bool)
        ensures
            report == !old(self).spec_latched(probe),
            final(self).spec_latched(probe),
            forall|other: MonitorProbe| other != probe ==> final(self).spec_latched(other)
                == old(self).spec_latched(other),
            final(self).spec_queue_drop() == old(self).spec_queue_drop(),
    {
        let report = match probe {
            MonitorProbe::Snapshot => !self.snapshot_error,
            MonitorProbe::Traffic => !self.traffic_error,
            MonitorProbe::Bridge => !self.bridge_error,
        };
        match probe {
            MonitorProbe::Snapshot => self.snapshot_error = true,
            MonitorProbe::Traffic => self.traffic_error = true,
            MonitorProbe::Bridge => self.bridge_error = true,
        }
        report
    }

    /// Notes that `probe` succeeded, so that its next failure is reported.
    pub fn succeed(&mut self, probe: MonitorProbe)
        ensures
            !final(self).spec_latched(probe),
            forall|other: MonitorProbe| other != probe ==> final(self).spec_latched(other)
                == old(self).spec_latched(other),
            final(self).spec_queue_drop() == old(self).spec_queue_drop(),
    {
        match probe {
            MonitorProbe::Snapshot => self.snapshot_error = false,
            MonitorProbe::Traffic => self.traffic_error = false,
            MonitorProbe::Bridge => self.bridge_error = false,
        }
    }

    /// Notes how publishing one event went; reports the first dropped event
    /// after the queue last took one without dropping.
    pub fn published(&mut self, outcome: EventPublishOutcome) -> (report_overflow: bool)
        ensures
            report_overflow == (outcome == EventPublishOutcome::DroppedOldest
                && !old(self).spec_queue_drop()),
            final(self).spec_queue_drop() == (outcome == EventPublishOutcome::DroppedOldest),
            forall|probe: MonitorProbe| final(self).spec_latched(probe) == old(self).spec_latched(
                probe,
            ),
    {
        match outcome {
            EventPublishOutcome::Enqueued => {
                self.queue_drop = false;
                false
            },
            EventPublishOutcome::DroppedOldest => {
                let report = !self.queue_drop;
                self.queue_drop = true;
                report
            },
        }
    }
}

/// Whether a round reads the traffic counters: only of an online data plane
/// that runs an instance.
pub fn monitor_reads_traffic(state: DataPlaneState, has_active_instance: bool) -> (r: bool)
    ensures
        r == (state == DataPlaneState::Online && has_active_instance),
{
    match state {
        DataPlaneState::Online => has_active_instance,
        _ => false,
    }
}

/// The counters a round publishes: those read between two snapshots that
/// agree, and none otherwise.
pub fn confirmed_counters(counters: TrafficCounters, snapshots_agree: bool) -> (r: Option<
    TrafficCounters,
>)
    ensures
        snapshots_agree ==> r == Some(counters),
        !snapshots_agree ==> r is None,
{
    if snapshots_agree {
        Some(counters)
    } else {
        None
    }
}

} // verus!
