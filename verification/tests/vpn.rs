use orange_platform::plane_state::DataPlaneState;
use orange_platform::vpn::{
    applied_cursor, operation_outcome, restart_decision, snapshot_verdict, start_decision,
    stop_decision, verdict_outcome, AdapterCursor, AdapterEventOutcome, AdapterSnapshot,
    ConfigurationRevision, PlatformVpnAdapter, PlatformVpnError, RestartDecision, SnapshotVerdict,
    StartDecision, StopDecision, UnconfiguredVpnAdapter, VpnCommandOutcome,
};

#[test]
fn revisions_are_never_zero() {
    assert_eq!(
        ConfigurationRevision::new(0),
        Err(PlatformVpnError::InvalidConfiguration)
    );
    assert_eq!(ConfigurationRevision::new(7).unwrap().get(), 7);
}

#[test]
fn adapter_snapshot_separates_failure_state_from_process_activity() {
    let failed_active =
        AdapterSnapshot::new_with_activity(1, 2, DataPlaneState::Failed, true).unwrap();
    assert!(failed_active.has_active_instance());
    let failed_idle =
        AdapterSnapshot::new_with_activity(1, 2, DataPlaneState::Failed, false).unwrap();
    assert!(!failed_idle.has_active_instance());
    assert_eq!(
        AdapterSnapshot::new_with_activity(1, 2, DataPlaneState::Unconfigured, true),
        Err(PlatformVpnError::ProtocolViolation)
    );
    assert_eq!(
        AdapterSnapshot::new(0, 1, DataPlaneState::Online),
        Err(PlatformVpnError::ProtocolViolation)
    );
    let online = AdapterSnapshot::new(3, 4, DataPlaneState::Online).unwrap();
    assert!(online.has_active_instance());
    assert_eq!(online.instance_id(), 3);
    assert_eq!(online.sequence(), 4);
    assert_eq!(AdapterSnapshot::initial().state(), DataPlaneState::Unconfigured);
}

#[test]
fn an_unconfigured_adapter_fails_closed() {
    let adapter = UnconfiguredVpnAdapter;
    assert_eq!(adapter.snapshot(), Ok(AdapterSnapshot::initial()));
    assert_eq!(
        adapter.start(ConfigurationRevision::new(1).unwrap()),
        Err(PlatformVpnError::Unavailable)
    );
    assert_eq!(adapter.stop(1), Ok(AdapterSnapshot::initial()));
    assert_eq!(PlatformVpnError::CleanupFailed.as_str(), "vpn-cleanup-failed");
}

fn cursor(instance_id: u64, last_sequence: u64, state: DataPlaneState, active: bool) -> AdapterCursor {
    AdapterCursor {
        initialized: true,
        instance_id,
        last_sequence,
        state,
        active_instance: active,
        operation_error_override: false,
    }
}

#[test]
fn old_and_out_of_order_snapshots_are_discarded() {
    let current = cursor(1, 3, DataPlaneState::Online, true);
    let out_of_order = AdapterSnapshot::new(1, 2, DataPlaneState::Failed).unwrap();
    assert_eq!(snapshot_verdict(current, out_of_order, false), SnapshotVerdict::StaleSequence);
    assert_eq!(verdict_outcome(SnapshotVerdict::StaleSequence), Ok(AdapterEventOutcome::StaleSequence));

    let restarted = cursor(2, 1, DataPlaneState::Starting, true);
    let stale = AdapterSnapshot::new(1, 99, DataPlaneState::Failed).unwrap();
    assert_eq!(snapshot_verdict(restarted, stale, false), SnapshotVerdict::StaleInstance);
    let unrequested = AdapterSnapshot::new(3, 1, DataPlaneState::Starting).unwrap();
    assert_eq!(snapshot_verdict(restarted, unrequested, false), SnapshotVerdict::StaleInstance);
    assert_eq!(snapshot_verdict(restarted, unrequested, true), SnapshotVerdict::Advance);

    let online = AdapterSnapshot::new(2, 3, DataPlaneState::Online).unwrap();
    assert_eq!(snapshot_verdict(restarted, online, false), SnapshotVerdict::Advance);
    let applied = applied_cursor(online);
    assert_eq!(applied.instance_id, 2);
    assert_eq!(applied.last_sequence, 3);
    assert_eq!(applied.state, DataPlaneState::Online);
    assert!(applied.active_instance);
}

#[test]
fn same_sequence_snapshots_cannot_equivocate() {
    let current = cursor(1, 1, DataPlaneState::Starting, true);
    let conflicting = AdapterSnapshot::new(1, 1, DataPlaneState::Failed).unwrap();
    let verdict = snapshot_verdict(current, conflicting, false);
    assert_eq!(verdict, SnapshotVerdict::Equivocation);
    assert_eq!(verdict_outcome(verdict), Err(PlatformVpnError::ProtocolViolation));

    let conflicting_activity =
        AdapterSnapshot::new_with_activity(1, 1, DataPlaneState::Starting, false).unwrap();
    assert_eq!(snapshot_verdict(current, conflicting_activity, false), SnapshotVerdict::Equivocation);

    let repeated = AdapterSnapshot::new_with_activity(1, 1, DataPlaneState::Starting, true).unwrap();
    assert_eq!(snapshot_verdict(current, repeated, false), SnapshotVerdict::Duplicate);
    assert_eq!(operation_outcome(Ok(AdapterEventOutcome::Duplicate)), Err(PlatformVpnError::ProtocolViolation));
    assert_eq!(operation_outcome(Ok(AdapterEventOutcome::Applied)), Ok(VpnCommandOutcome::Applied));
    assert_eq!(operation_outcome(Err(PlatformVpnError::Timeout)), Err(PlatformVpnError::Timeout));
}

#[test]
fn first_and_overriding_snapshots_are_authoritative() {
    let fresh = AdapterCursor {
        initialized: false,
        instance_id: 0,
        last_sequence: 0,
        state: DataPlaneState::Unconfigured,
        active_instance: false,
        operation_error_override: false,
    };
    let online = AdapterSnapshot::new(4, 9, DataPlaneState::Online).unwrap();
    assert_eq!(snapshot_verdict(fresh, online, false), SnapshotVerdict::Restore);

    let mut failed = cursor(4, 9, DataPlaneState::Failed, true);
    failed.operation_error_override = true;
    assert_eq!(snapshot_verdict(failed, online, false), SnapshotVerdict::Restore);
    assert_eq!(
        snapshot_verdict(failed, AdapterSnapshot::new(4, 8, DataPlaneState::Online).unwrap(), false),
        SnapshotVerdict::StaleSequence
    );
}

#[test]
fn repeated_commands_are_already_satisfied() {
    for state in [DataPlaneState::Validating, DataPlaneState::Starting, DataPlaneState::Online] {
        assert_eq!(start_decision(state, true, true), StartDecision::AlreadySatisfied);
    }
    assert_eq!(start_decision(DataPlaneState::Online, false, true), StartDecision::Restart);
    assert_eq!(start_decision(DataPlaneState::Stopping, true, true), StartDecision::InProgress);
    assert_eq!(start_decision(DataPlaneState::Failed, false, true), StartDecision::Restart);
    assert_eq!(start_decision(DataPlaneState::Failed, false, false), StartDecision::Begin);
    assert_eq!(start_decision(DataPlaneState::Unconfigured, false, false), StartDecision::Begin);

    assert_eq!(stop_decision(DataPlaneState::Unconfigured, false), StopDecision::AlreadySatisfied);
    assert_eq!(stop_decision(DataPlaneState::Stopping, true), StopDecision::AlreadySatisfied);
    assert_eq!(stop_decision(DataPlaneState::Failed, false), StopDecision::Local);
    assert_eq!(stop_decision(DataPlaneState::Online, true), StopDecision::Begin);

    assert_eq!(restart_decision(DataPlaneState::Unconfigured, false, true), RestartDecision::Start);
    assert_eq!(restart_decision(DataPlaneState::Online, false, false), RestartDecision::Start);
    assert_eq!(restart_decision(DataPlaneState::Rollback, true, true), RestartDecision::AlreadySatisfied);
    assert_eq!(restart_decision(DataPlaneState::Stopping, false, true), RestartDecision::InProgress);
    assert_eq!(restart_decision(DataPlaneState::Online, false, true), RestartDecision::Begin);
}
