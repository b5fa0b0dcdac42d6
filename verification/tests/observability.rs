use orange_platform::observability::{
    secondary_redaction_audit, DiagnosticCategory, DiagnosticCode, DiagnosticMetric,
    DiagnosticRing, DiagnosticSeverity, EventAcceptance, EventCursor, EventEnvelope, JsonValue,
    MetricName, NonCancellableReason, ObservabilityError, PageCloseOutcome, PageSessionId,
    PendingDebugBundle, PlatformEvent, TaskCancelOutcome, TaskCategory, TaskOwner, TaskPolicy, TaskRegistry, TaskSpec,
    TaskState, TrafficEventThrottler, TrafficSample, MAX_EVENT_INTEGER,
};
use orange_platform::plane_state::{ControlPlaneState, DataPlaneState};

fn traffic(instance_id: u64, sequence: u64, timestamp: u64) -> EventEnvelope {
    EventEnvelope::new(
        instance_id,
        sequence,
        timestamp,
        PlatformEvent::traffic(
            TrafficSample::new(sequence * 10, sequence * 20, sequence * 2, sequence * 3).unwrap(),
        ),
    )
    .unwrap()
}

#[test]
fn event_envelopes_stay_within_the_safe_integer_boundary() {
    let event = PlatformEvent::data_state(DataPlaneState::Online);
    assert!(EventEnvelope::new(MAX_EVENT_INTEGER, 1, 1, event).is_ok());
    assert!(EventEnvelope::new(MAX_EVENT_INTEGER + 1, 1, 1, event).is_err());
    assert!(EventEnvelope::new(1, MAX_EVENT_INTEGER + 1, 1, event).is_err());
    assert!(EventEnvelope::new(1, 1, MAX_EVENT_INTEGER + 1, event).is_err());
    assert!(EventEnvelope::new(0, 1, 1, event).is_err());

    assert!(TrafficSample::new(MAX_EVENT_INTEGER, 0, 0, 0).is_ok());
    assert!(TrafficSample::new(MAX_EVENT_INTEGER + 1, 0, 0, 0).is_err());
}

#[test]
fn event_cursor_rejects_old_instances_duplicates_and_reordered_events() {
    let mut cursor = EventCursor::default();
    cursor.select_instance(9).unwrap();
    assert_eq!(cursor.accept(&traffic(9, 2, 100)), EventAcceptance::Applied);
    assert_eq!(cursor.accept(&traffic(9, 2, 101)), EventAcceptance::Duplicate);
    assert_eq!(cursor.accept(&traffic(9, 1, 102)), EventAcceptance::StaleSequence);
    assert_eq!(cursor.accept(&traffic(8, 99, 103)), EventAcceptance::StaleInstance);
    cursor.select_instance(10).unwrap();
    assert_eq!(cursor.last_sequence(), 0);
    assert_eq!(cursor.accept(&traffic(9, 3, 104)), EventAcceptance::StaleInstance);
    assert_eq!(cursor.accept(&traffic(10, 1, 105)), EventAcceptance::Applied);
}

#[test]
fn traffic_throttler_coalesces_to_one_pending_sample_and_resets_by_instance() {
    let mut throttler = TrafficEventThrottler::new(250).unwrap();
    assert_eq!(
        throttler.push(traffic(1, 1, 100), 0).unwrap().unwrap().sequence(),
        1
    );
    for sequence in 2..=10 {
        assert!(throttler
            .push(traffic(1, sequence, 100 + sequence), sequence * 10)
            .unwrap()
            .is_none());
        assert_eq!(throttler.pending_len(), 1);
    }
    assert!(throttler.flush(249).unwrap().is_none());
    assert_eq!(throttler.flush(250).unwrap().unwrap().sequence(), 10);
    assert_eq!(throttler.pending_len(), 0);
    assert_eq!(
        throttler.push(traffic(2, 1, 200), 251).unwrap().unwrap().instance_id(),
        2
    );
}

#[test]
fn traffic_throttler_fails_closed_on_bad_input() {
    let mut throttler = TrafficEventThrottler::new(100).unwrap();
    let state =
        EventEnvelope::new(1, 1, 1, PlatformEvent::control_state(ControlPlaneState::Ready)).unwrap();
    assert_eq!(throttler.push(state, 1), Err(ObservabilityError::WrongEventKind));
    throttler.push(traffic(1, 1, 1), 10).unwrap();
    assert_eq!(
        throttler.push(traffic(1, 1, 2), 1_000),
        Err(ObservabilityError::StaleEvent)
    );
    assert!(throttler.push(traffic(1, 2, 3), 11).unwrap().is_none());
    assert_eq!(throttler.flush(9), Err(ObservabilityError::ClockRegression));
}

#[test]
fn task_registry_is_bounded_and_leases_remove_finished_tasks() {
    let mut registry = TaskRegistry::new(1).unwrap();
    let spec = TaskSpec::new(
        TaskCategory::Control,
        TaskOwner::BackgroundService,
        TaskPolicy::Cancellable,
    )
    .unwrap();
    let (id, _cancellation) = registry.register(spec, 10).unwrap();
    assert_eq!(id.get(), 1);
    assert_eq!(registry.active_count(), 1);
    assert!(matches!(
        registry.register(spec, 11),
        Err(ObservabilityError::TaskCapacityExceeded)
    ));
    assert_eq!(registry.finish(id).unwrap().state(), TaskState::Running);
    assert_eq!(registry.active_count(), 0);
}

#[test]
fn page_close_and_deadline_cancel_tokens_without_leaking_registry_entries() {
    let mut registry = TaskRegistry::new(4).unwrap();
    let page = PageSessionId::new(3).unwrap();
    let (page_task, page_cancellation) = registry
        .register(
            TaskSpec::new(
                TaskCategory::Data,
                TaskOwner::Page { session_id: page },
                TaskPolicy::Cancellable,
            )
            .unwrap(),
            0,
        )
        .unwrap();
    assert_eq!(
        registry.close_page(page),
        PageCloseOutcome {
            requested: 1,
            already_requested: 0
        }
    );
    assert!(page_cancellation.is_cancelled());
    registry.abandon(page_task);
    assert_eq!(registry.active_count(), 0);

    let (deadline_task, deadline_cancellation) = registry
        .register(
            TaskSpec::new(
                TaskCategory::Platform,
                TaskOwner::BackgroundService,
                TaskPolicy::Deadline { timeout_ms: 50 },
            )
            .unwrap(),
            100,
        )
        .unwrap();
    assert!(registry.expire(149).is_empty());
    assert_eq!(registry.expire(150), vec![deadline_task]);
    assert!(deadline_cancellation.is_cancelled());
}

#[test]
fn non_cancellable_tasks_require_a_fixed_reason_and_cannot_belong_to_a_page() {
    let page = PageSessionId::new(1).unwrap();
    assert_eq!(
        TaskSpec::new(
            TaskCategory::Platform,
            TaskOwner::Page { session_id: page },
            TaskPolicy::NonCancellable {
                reason: NonCancellableReason::OperatingSystemHandoff
            }
        ),
        Err(ObservabilityError::InvalidTaskPolicy)
    );
    let mut registry = TaskRegistry::new(2).unwrap();
    let (id, _cancellation) = registry
        .register(
            TaskSpec::new(
                TaskCategory::Platform,
                TaskOwner::BackgroundService,
                TaskPolicy::NonCancellable {
                    reason: NonCancellableReason::PlatformApiCall,
                },
            )
            .unwrap(),
            0,
        )
        .unwrap();
    assert_eq!(
        registry.request_cancel(id),
        Ok(TaskCancelOutcome::NotCancellable {
            reason: NonCancellableReason::PlatformApiCall
        })
    );
}

#[test]
fn diagnostic_ring_is_typed_bounded_and_reports_drops() {
    let mut ring = DiagnosticRing::new(2).unwrap();
    ring.record(
        1,
        DiagnosticCategory::Control,
        DiagnosticSeverity::Info,
        DiagnosticCode::OperationStarted,
        None,
    )
    .unwrap();
    ring.record(
        2,
        DiagnosticCategory::Data,
        DiagnosticSeverity::Warning,
        DiagnosticCode::TrafficSampleCoalesced,
        Some(DiagnosticMetric::new(MetricName::DroppedEventCount, 4)),
    )
    .unwrap();
    ring.record(
        3,
        DiagnosticCategory::Platform,
        DiagnosticSeverity::Error,
        DiagnosticCode::AdapterUnavailable,
        None,
    )
    .unwrap();
    let snapshot = ring.snapshot();
    assert_eq!(snapshot.dropped_count(), 1);
    assert_eq!(snapshot.entries().len(), 2);
    assert_eq!(snapshot.entries()[0].sequence(), 2);
}

#[test]
fn secondary_redaction_rejects_future_sensitive_fields_and_values() {
    let server_url = JsonValue::Object(vec![(
        "serverUrl".to_owned(),
        JsonValue::String("https://example.invalid".to_owned()),
    )]);
    assert_eq!(
        secondary_redaction_audit(&server_url),
        Err(ObservabilityError::SensitiveDiagnostic)
    );
    let private_path = JsonValue::Object(vec![(
        "message".to_owned(),
        JsonValue::String("/home/user/private".to_owned()),
    )]);
    assert_eq!(
        secondary_redaction_audit(&private_path),
        Err(ObservabilityError::SensitiveDiagnostic)
    );
    let harmless = JsonValue::Object(vec![
        (
            "code".to_owned(),
            JsonValue::String("operation_failed".to_owned()),
        ),
        ("duration".to_owned(), JsonValue::Number),
    ]);
    assert!(secondary_redaction_audit(&harmless).is_ok());
}

#[test]
fn event_numbers_stay_within_the_javascript_safe_integer_boundary() {
    let event = PlatformEvent::data_state(DataPlaneState::Online);
    assert!(EventEnvelope::new(MAX_EVENT_INTEGER, 1, 1, event).is_ok());
    assert!(EventEnvelope::new(MAX_EVENT_INTEGER + 1, 1, 1, event).is_err());
    assert!(EventEnvelope::new(1, MAX_EVENT_INTEGER + 1, 1, event).is_err());
    assert!(EventEnvelope::new(1, 1, MAX_EVENT_INTEGER + 1, event).is_err());

    assert!(TrafficSample::new(MAX_EVENT_INTEGER, 0, 0, 0).is_ok());
    assert!(TrafficSample::new(MAX_EVENT_INTEGER + 1, 0, 0, 0).is_err());
}

#[test]
fn debug_bundles_need_a_matching_confirmation() {
    let mut ring = DiagnosticRing::new(2).unwrap();
    ring.record(
        10,
        DiagnosticCategory::Control,
        DiagnosticSeverity::Info,
        DiagnosticCode::StateTransition,
        Some(DiagnosticMetric::new(MetricName::Duration, 15)),
    )
    .unwrap();
    let diagnostics = ring.snapshot();
    let audited = JsonValue::Object(vec![
        ("schemaVersion".to_owned(), JsonValue::Number),
        ("createdAtUnixMs".to_owned(), JsonValue::Number),
    ]);
    let document = b"{\"schemaVersion\": 1}\n".to_vec();

    let pending = PendingDebugBundle::prepare(7, 20, &diagnostics, 1, &audited, document.clone()).unwrap();
    assert_eq!(pending.preview().confirmation_id(), 7);
    assert_eq!(pending.preview().diagnostic_count(), 1);
    assert_eq!(pending.preview().active_task_count(), 1);
    assert_eq!(pending.preview().byte_count(), document.len());
    assert_eq!(pending.preview().categories().to_vec(), vec![DiagnosticCategory::Control]);
    assert!(matches!(pending.confirm(999), Err(ObservabilityError::ConfirmationMismatch)));

    let pending = PendingDebugBundle::prepare(8, 21, &diagnostics, 1, &audited, document.clone()).unwrap();
    let confirmed = pending.confirm(8).unwrap();
    assert_eq!(confirmed.bytes(), document.as_slice());

    assert!(matches!(
        PendingDebugBundle::prepare(9, 0, &diagnostics, 1, &audited, document.clone()),
        Err(ObservabilityError::InvalidDiagnostic)
    ));
    let sensitive = JsonValue::Object(vec![("authToken".to_owned(), JsonValue::Null)]);
    assert!(matches!(
        PendingDebugBundle::prepare(9, 22, &diagnostics, 1, &sensitive, document.clone()),
        Err(ObservabilityError::SensitiveDiagnostic)
    ));
    assert!(matches!(
        PendingDebugBundle::prepare(9, 22, &diagnostics, 1, &audited, vec![b' '; 512 * 1024 + 1]),
        Err(ObservabilityError::BundleTooLarge)
    ));
}
