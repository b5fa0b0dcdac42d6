use orange_platform::data_plane_lifecycle::{
    cleanup_error, failure_state, DataPlaneSupervisorPolicy, PollAction, ProcessReadiness,
    RestartStart, StopDisposition, StopStart, SupervisedDataPlaneProcess, SupervisorState,
    DEFAULT_MONITOR_INTERVAL_MS,
};
use orange_platform::plane_state::DataPlaneState;
use orange_platform::vpn::{ConfigurationRevision, PlatformVpnError};

struct Process {
    exited: bool,
    ready: bool,
}

impl SupervisedDataPlaneProcess for Process {
    fn process_id(&self) -> u32 {
        42
    }

    fn try_wait(&mut self) -> Result<bool, PlatformVpnError> {
        Ok(self.exited)
    }

    fn readiness(&mut self) -> Result<ProcessReadiness, PlatformVpnError> {
        Ok(if self.ready {
            ProcessReadiness::Ready
        } else {
            ProcessReadiness::Pending
        })
    }

    fn request_stop(&mut self) -> Result<(), PlatformVpnError> {
        Ok(())
    }

    fn force_stop(&mut self) -> Result<(), PlatformVpnError> {
        Ok(())
    }
}

fn revision(value: u64) -> ConfigurationRevision {
    ConfigurationRevision::new(value).unwrap()
}

#[test]
fn policies_bound_the_monitor_interval() {
    assert_eq!(
        DataPlaneSupervisorPolicy::new(0, 1, 1),
        Err(PlatformVpnError::InvalidConfiguration)
    );
    assert_eq!(
        DataPlaneSupervisorPolicy::new(2_001, 1, 1),
        Err(PlatformVpnError::InvalidConfiguration)
    );
    assert_eq!(
        DataPlaneSupervisorPolicy::new(100, 0, 1),
        Err(PlatformVpnError::InvalidConfiguration)
    );
    let policy = DataPlaneSupervisorPolicy::new(2_000, 5, 6).unwrap();
    assert_eq!(policy.monitor_interval(), 2_000);
    assert_eq!(policy.startup_timeout(), 5);
    assert_eq!(policy.stop_timeout(), 6);
    assert_eq!(
        DataPlaneSupervisorPolicy::default().monitor_interval(),
        DEFAULT_MONITOR_INTERVAL_MS
    );
}

#[test]
fn failures_and_cleanup_are_reported_as_such() {
    assert_eq!(
        failure_state(PlatformVpnError::PermissionDenied),
        DataPlaneState::PermissionRequired
    );
    assert_eq!(failure_state(PlatformVpnError::Timeout), DataPlaneState::Failed);
    assert_eq!(
        cleanup_error(Err(PlatformVpnError::Timeout)),
        Some(PlatformVpnError::CleanupFailed)
    );
    assert_eq!(cleanup_error(Ok(())), None);
}

#[test]
fn a_start_goes_through_validating_starting_and_online() {
    let mut state: SupervisorState<Process> = SupervisorState::new();
    assert!(state.start_shortcut(revision(7)).is_none());
    let instance = state.begin_attempt(revision(7)).unwrap();
    assert_eq!(instance, 1);
    assert_eq!(state.snapshot().state(), DataPlaneState::Validating);
    assert_eq!(state.snapshot().sequence(), 1);
    let starting = state
        .attach_process(instance, Process { exited: false, ready: false }, 5_000)
        .unwrap();
    assert_eq!(starting.state(), DataPlaneState::Starting);
    assert_eq!(starting.sequence(), 2);
    assert!(starting.has_active_instance());
    assert_eq!(state.process_id(), Some(42));
    assert_eq!(state.start_shortcut(revision(7)), Some(Ok(starting)));
    assert_eq!(
        state.start_shortcut(revision(8)),
        Some(Err(PlatformVpnError::OperationInProgress))
    );

    let (action, polled) = state.poll(100);
    assert!(matches!(action, PollAction::Nothing));
    assert_eq!(polled, 1);
    assert_eq!(state.snapshot().state(), DataPlaneState::Starting);
}

#[test]
fn a_missed_startup_deadline_fails_the_instance() {
    let mut state: SupervisorState<Process> = SupervisorState::new();
    let instance = state.begin_attempt(revision(1)).unwrap();
    state
        .attach_process(instance, Process { exited: false, ready: false }, 500)
        .unwrap();
    let (action, _) = state.poll(500);
    match action {
        PollAction::Failed { force, .. } => assert!(force),
        _ => panic!("the deadline must fail the start"),
    }
    state.finish_poll_failure(None);
    assert_eq!(state.snapshot().state(), DataPlaneState::Failed);
    assert!(!state.snapshot().has_active_instance());
    assert!(!state.has_process());
}

#[test]
fn a_ready_process_goes_online_and_an_exit_fails_it() {
    let mut state: SupervisorState<Process> = SupervisorState::new();
    let instance = state.begin_attempt(revision(1)).unwrap();
    state
        .attach_process(instance, Process { exited: false, ready: true }, 500)
        .unwrap();
    let (action, _) = state.poll(10);
    assert!(matches!(action, PollAction::Ready));
    assert_eq!(state.snapshot().state(), DataPlaneState::Online);
    assert_eq!(state.startup_deadline(), None);

    let mut state: SupervisorState<Process> = SupervisorState::new();
    let instance = state.begin_attempt(revision(1)).unwrap();
    state
        .attach_process(instance, Process { exited: true, ready: false }, 500)
        .unwrap();
    let (action, _) = state.poll(10);
    match action {
        PollAction::Failed { force, .. } => assert!(!force),
        _ => panic!("an exited process must fail the instance"),
    }
}

#[test]
fn stops_are_idempotent_and_checked_against_the_instance() {
    let mut state: SupervisorState<Process> = SupervisorState::new();
    match state.begin_stop(5).unwrap() {
        StopStart::AlreadyStopped(snapshot) => {
            assert_eq!(snapshot.state(), DataPlaneState::Unconfigured)
        }
        StopStart::Stopping(_) => panic!("nothing runs"),
    }
    let instance = state.begin_attempt(revision(2)).unwrap();
    state
        .attach_process(instance, Process { exited: false, ready: false }, 500)
        .unwrap();
    assert!(matches!(
        state.begin_stop(instance + 1),
        Err(PlatformVpnError::ProtocolViolation)
    ));
    match state.begin_stop(instance).unwrap() {
        StopStart::Stopping(process) => assert!(process.is_some()),
        StopStart::AlreadyStopped(_) => panic!("a process runs"),
    }
    assert_eq!(state.snapshot().state(), DataPlaneState::Stopping);
    let stopped = state.finish_stop(StopDisposition::Graceful).unwrap();
    assert_eq!(stopped.state(), DataPlaneState::Unconfigured);
    assert_eq!(state.last_stop_disposition(), Some(StopDisposition::Graceful));
}

#[test]
fn a_restart_stops_the_old_instance_and_starts_a_new_one() {
    let mut state: SupervisorState<Process> = SupervisorState::new();
    assert!(matches!(state.begin_restart(1), Ok(RestartStart::NoProcess)));
    let instance = state.begin_attempt(revision(2)).unwrap();
    state
        .attach_process(instance, Process { exited: false, ready: true }, 500)
        .unwrap();
    match state.begin_restart(instance).unwrap() {
        RestartStart::Stopping(process) => assert!(process.is_some()),
        RestartStart::NoProcess => panic!("a process runs"),
    }
    assert_eq!(state.snapshot().state(), DataPlaneState::Rollback);
    state
        .finish_restart_stop(StopDisposition::Forced, revision(3))
        .unwrap();
    assert!(!state.snapshot().has_active_instance());
    let next = state.reserve_instance().unwrap();
    assert_eq!(next, 2);
    let snapshot = state
        .launch_restarted(next, Process { exited: false, ready: false }, 900)
        .unwrap();
    assert_eq!(snapshot.instance_id(), 2);
    assert_eq!(snapshot.sequence(), 1);
    assert_eq!(snapshot.state(), DataPlaneState::Starting);
    assert_eq!(state.last_stop_disposition(), Some(StopDisposition::Forced));
}

#[test]
fn failed_attempts_report_permission_and_failure_states() {
    let mut state: SupervisorState<Process> = SupervisorState::new();
    let instance = state.begin_attempt(revision(2)).unwrap();
    state.fail_attempt(instance + 1, PlatformVpnError::Timeout, false);
    assert_eq!(state.snapshot().state(), DataPlaneState::Validating);
    state.fail_attempt(instance, PlatformVpnError::PermissionDenied, false);
    assert_eq!(state.snapshot().state(), DataPlaneState::PermissionRequired);
    state.fail_new_attempt(9, PlatformVpnError::Crashed);
    assert_eq!(state.snapshot().instance_id(), 9);
    assert_eq!(state.snapshot().sequence(), 1);
    assert_eq!(state.snapshot().state(), DataPlaneState::Failed);
}
