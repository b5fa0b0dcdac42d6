use orange_platform::data_plane_events::{
    check_poll_interval, monitor_reads_traffic, DataPlaneEventBridge, DataPlaneEventError,
    DataPlaneEventHubState, EventPublishOutcome, MonitorLatches, MonitorProbe, probe_failure_code,
};
use orange_platform::data_plane_nodes::{NodeRuntimeError, TrafficCounters};
use orange_platform::observability::{
    event_time_valid, DiagnosticCode, EventEnvelope, ObservabilityError, PlatformEvent,
};
use orange_platform::plane_state::DataPlaneState;
use orange_platform::vpn::{AdapterSnapshot, PlatformVpnError};

fn snapshot(instance: u64, sequence: u64, state: DataPlaneState) -> AdapterSnapshot {
    AdapterSnapshot::new(instance, sequence, state).unwrap()
}

fn state_event(instance: u64, sequence: u64) -> EventEnvelope {
    EventEnvelope::new(
        instance,
        sequence,
        1_000,
        PlatformEvent::data_state(DataPlaneState::Online),
    )
    .unwrap()
}

#[test]
fn state_changes_become_numbered_events() {
    let mut bridge = DataPlaneEventBridge::new(1_000).unwrap();
    let events = bridge
        .observe(snapshot(3, 1, DataPlaneState::Starting), None, 1_000, 10)
        .unwrap();
    assert_eq!(events.len(), 1);
    assert_eq!(events[0].instance_id(), 3);
    assert_eq!(events[0].sequence(), 1);
    assert_eq!(
        events[0].event(),
        PlatformEvent::data_state(DataPlaneState::Starting)
    );
    let repeated = bridge
        .observe(snapshot(3, 1, DataPlaneState::Starting), None, 1_001, 11)
        .unwrap();
    assert!(repeated.is_empty());
    let online = bridge
        .observe(snapshot(3, 2, DataPlaneState::Online), None, 1_002, 12)
        .unwrap();
    assert_eq!(online[0].sequence(), 2);
}

#[test]
fn online_traffic_follows_the_state_event() {
    let mut bridge = DataPlaneEventBridge::new(1_000).unwrap();
    let counters = TrafficCounters::new(100, 200).unwrap();
    let events = bridge
        .observe(
            snapshot(4, 1, DataPlaneState::Online),
            Some(counters),
            2_000,
            50,
        )
        .unwrap();
    assert_eq!(events.len(), 2);
    assert_eq!(events[1].sequence(), 2);
    let sample = events[1].event().traffic_sample().unwrap();
    assert_eq!(sample.upload_bytes_total(), 100);
    assert_eq!(sample.download_bytes_total(), 200);
    assert_eq!(bridge.traffic_display().upload_bytes_total(), 100);
}

#[test]
fn a_new_instance_restarts_the_numbering() {
    let mut bridge = DataPlaneEventBridge::new(1_000).unwrap();
    bridge
        .observe(snapshot(1, 1, DataPlaneState::Starting), None, 1_000, 1)
        .unwrap();
    bridge
        .observe(snapshot(1, 2, DataPlaneState::Online), None, 1_000, 2)
        .unwrap();
    let events = bridge
        .observe(snapshot(2, 1, DataPlaneState::Starting), None, 1_000, 3)
        .unwrap();
    assert_eq!(events[0].instance_id(), 2);
    assert_eq!(events[0].sequence(), 1);
}

#[test]
fn bad_observations_are_refused() {
    let mut bridge = DataPlaneEventBridge::new(1_000).unwrap();
    assert_eq!(
        bridge.observe(snapshot(1, 1, DataPlaneState::Starting), None, 0, 1),
        Err(DataPlaneEventError::Observability(
            ObservabilityError::InvalidEvent
        ))
    );
    bridge
        .observe(snapshot(1, 5, DataPlaneState::Starting), None, 1_000, 1)
        .unwrap();
    assert_eq!(
        bridge.observe(snapshot(1, 4, DataPlaneState::Starting), None, 1_000, 2),
        Err(DataPlaneEventError::InvalidSnapshot)
    );
    assert_eq!(
        bridge.observe(snapshot(1, 5, DataPlaneState::Online), None, 1_000, 2),
        Err(DataPlaneEventError::InvalidSnapshot)
    );
    assert_eq!(
        bridge.observe(
            snapshot(1, 6, DataPlaneState::Starting),
            Some(TrafficCounters::new(1, 1).unwrap()),
            1_000,
            2
        ),
        Err(DataPlaneEventError::InvalidSnapshot)
    );
    assert_eq!(
        DataPlaneEventBridge::new(0).err(),
        Some(DataPlaneEventError::Node(NodeRuntimeError::InvalidRequest))
    );
}

#[test]
fn the_hub_keeps_the_newest_events_and_counts_drops() {
    assert!(DataPlaneEventHubState::new(0).is_err());
    assert!(DataPlaneEventHubState::new(257).is_err());
    let mut hub = DataPlaneEventHubState::new(2).unwrap();
    assert_eq!(hub.publish(state_event(1, 1)), EventPublishOutcome::Enqueued);
    assert_eq!(hub.publish(state_event(1, 2)), EventPublishOutcome::Enqueued);
    assert_eq!(
        hub.publish(state_event(2, 3)),
        EventPublishOutcome::DroppedOldest
    );
    let view = hub.snapshot();
    assert_eq!(view.capacity(), 2);
    assert_eq!(view.dropped_count(), 1);
    assert_eq!(view.stream_instance_id(), Some(2));
    assert_eq!(view.events().len(), 2);
    assert_eq!(view.events()[0].sequence(), 2);
    assert_eq!(view.events()[1].sequence(), 3);
}

#[test]
fn intervals_and_error_names() {
    assert_eq!(check_poll_interval(0), Err(DataPlaneEventError::InvalidInterval));
    assert_eq!(check_poll_interval(5_001), Err(DataPlaneEventError::InvalidInterval));
    assert_eq!(check_poll_interval(5_000), Ok(()));
    assert_eq!(
        DataPlaneEventError::InvalidSnapshot.as_str(),
        "data-plane-event-invalid-snapshot"
    );
    assert_eq!(
        DataPlaneEventError::Platform(PlatformVpnError::Timeout).as_str(),
        "vpn-timeout"
    );
}

#[test]
fn a_probe_failure_is_reported_once_until_it_clears() {
    let mut latches = MonitorLatches::new();
    assert!(latches.fail(MonitorProbe::Snapshot));
    assert!(!latches.fail(MonitorProbe::Snapshot));
    assert!(latches.fail(MonitorProbe::Traffic));
    latches.succeed(MonitorProbe::Snapshot);
    assert!(latches.fail(MonitorProbe::Snapshot));
    assert!(!latches.fail(MonitorProbe::Traffic));
}

#[test]
fn a_queue_overflow_is_reported_once_until_an_event_is_taken() {
    let mut latches = MonitorLatches::new();
    assert!(!latches.published(EventPublishOutcome::Enqueued));
    assert!(latches.published(EventPublishOutcome::DroppedOldest));
    assert!(!latches.published(EventPublishOutcome::DroppedOldest));
    assert!(!latches.published(EventPublishOutcome::Enqueued));
    assert!(latches.published(EventPublishOutcome::DroppedOldest));
}

#[test]
fn traffic_is_read_only_from_an_online_running_data_plane() {
    assert!(monitor_reads_traffic(DataPlaneState::Online, true));
    assert!(!monitor_reads_traffic(DataPlaneState::Online, false));
    assert!(!monitor_reads_traffic(DataPlaneState::Starting, true));
}

#[test]
fn event_times_must_be_positive_and_exact_in_javascript() {
    assert!(!event_time_valid(0));
    assert!(event_time_valid(1));
    assert!(event_time_valid(9_007_199_254_740_991));
    assert!(!event_time_valid(9_007_199_254_740_992));
}

#[test]
fn failed_probes_are_reported_by_what_failed() {
    assert_eq!(probe_failure_code(MonitorProbe::Bridge), DiagnosticCode::OperationFailed);
    assert_eq!(probe_failure_code(MonitorProbe::Snapshot), DiagnosticCode::AdapterUnavailable);
    assert_eq!(probe_failure_code(MonitorProbe::Traffic), DiagnosticCode::AdapterUnavailable);
}
