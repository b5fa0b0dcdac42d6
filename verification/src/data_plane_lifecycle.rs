//! The decisions of the data-plane process supervisor: which snapshot each
//! step of a start, stop, restart or health poll publishes, and what happens
//! to the supervised process.
//!
//! Waiting, sleeping and locking are the application's part; it holds a
//! `SupervisorState` behind its lock and calls these steps in order.
use vstd::prelude::*;
use crate::plane_state::DataPlaneState;
use crate::vpn::{AdapterSnapshot, ConfigurationRevision, PlatformVpnError};
use crate::persistence::revision_value;

verus! {

/// The slowest interval at which a crashed process is noticed.
pub const MAX_CRASH_DETECTION_INTERVAL_MS: u64 = 2000;

pub const DEFAULT_MONITOR_INTERVAL_MS: u64 = 100;

pub const DEFAULT_STARTUP_TIMEOUT_MS: u64 = 5000;

pub const DEFAULT_STOP_TIMEOUT_MS: u64 = 2000;

#[derive(Debug, Clone, Copy, PartialEq, Eq, Structural)]
pub enum ProcessReadiness {
    Pending,
    Ready,
}

#[derive(Debug, Clone, Copy, PartialEq, Eq, Structural)]
pub enum StopDisposition {
    Graceful,
    Forced,
}

/// How often the supervisor polls, and how long starts and stops may take, in
/// milliseconds.
#[derive(Debug, Clone, Copy, PartialEq, Eq, Structural)]
pub struct DataPlaneSupervisorPolicy {
    monitor_interval_ms: u64,
    startup_timeout_ms: u64,
    stop_timeout_ms: u64,
}

impl DataPlaneSupervisorPolicy {
    pub closed spec fn spec_monitor_interval_ms(self) -> u64 {
        self.monitor_interval_ms
    }

    pub closed spec fn spec_startup_timeout_ms(self) -> u64 {
        self.startup_timeout_ms
    }

    pub closed spec fn spec_stop_timeout_ms(self) -> u64 {
        self.stop_timeout_ms
    }

    /// A policy; every duration must be positive and the monitor interval at
    /// most the crash-detection bound.
    pub fn new(monitor_interval_ms: u64, startup_timeout_ms: u64, stop_timeout_ms: u64) -> (r:
        Result<Self, PlatformVpnError>)
        ensures
            (monitor_interval_ms == 0 || monitor_interval_ms > MAX_CRASH_DETECTION_INTERVAL_MS
                || startup_timeout_ms == 0 || stop_timeout_ms == 0) ==> r == Err::<
                Self,
                PlatformVpnError,
            >(PlatformVpnError::InvalidConfiguration),
            !(monitor_interval_ms == 0 || monitor_interval_ms > MAX_CRASH_DETECTION_INTERVAL_MS
                || startup_timeout_ms == 0 || stop_timeout_ms == 0) ==> (r matches Ok(p)
                && p.spec_monitor_interval_ms() == monitor_interval_ms
                && p.spec_startup_timeout_ms() == startup_timeout_ms && p.spec_stop_timeout_ms()
                == stop_timeout_ms),
    {
        if monitor_interval_ms == 0 || monitor_interval_ms > MAX_CRASH_DETECTION_INTERVAL_MS
            || startup_timeout_ms == 0 || stop_timeout_ms == 0 {
            return Err(PlatformVpnError::InvalidConfiguration);
        }
        Ok(DataPlaneSupervisorPolicy { monitor_interval_ms, startup_timeout_ms, stop_timeout_ms })
    }

    pub fn monitor_interval(self) -> (v: u64)
        ensures
            v == self.spec_monitor_interval_ms(),
    {
        self.monitor_interval_ms
    }

    pub fn startup_timeout(self) -> (v: u64)
        ensures
            v == self.spec_startup_timeout_ms(),
    {
        self.startup_timeout_ms
    }

    pub fn stop_timeout(self) -> (v: u64)
        ensures
            v == self.spec_stop_timeout_ms(),
    {
        self.stop_timeout_ms
    }
}

impl Default for DataPlaneSupervisorPolicy {
    fn default() -> (p: Self)
        ensures
            p.spec_monitor_interval_ms() == DEFAULT_MONITOR_INTERVAL_MS,
            p.spec_startup_timeout_ms() == DEFAULT_STARTUP_TIMEOUT_MS,
            p.spec_stop_timeout_ms() == DEFAULT_STOP_TIMEOUT_MS,
    {
        DataPlaneSupervisorPolicy {
            monitor_interval_ms: DEFAULT_MONITOR_INTERVAL_MS,
            startup_timeout_ms: DEFAULT_STARTUP_TIMEOUT_MS,
            stop_timeout_ms: DEFAULT_STOP_TIMEOUT_MS,
        }
    }
}

/// A running data-plane process; implemented by each platform.
pub trait SupervisedDataPlaneProcess: Send + 'static {
    fn process_id(&self) -> u32;

    fn try_wait(&mut self) -> Result<bool, PlatformVpnError>;

    fn readiness(&mut self) -> Result<ProcessReadiness, PlatformVpnError>;

    fn request_stop(&mut self) -> Result<(), PlatformVpnError>;

    /// Force termination and reap the process before returning.
    fn force_stop(&mut self) -> Result<(), PlatformVpnError>;
}

/// What the supervisor asks of the platform; implemented by each platform.
pub trait DataPlaneLifecycleBackend: Send + Sync + 'static {
    type Process: SupervisedDataPlaneProcess;

    /// This check must not acquire ports, routes, DNS, proxy, or process ownership.
    fn preflight(&self, revision: ConfigurationRevision) -> Result<(), PlatformVpnError>;

    fn spawn(&self, revision: ConfigurationRevision, instance_id: u64) -> Result<
        Self::Process,
        PlatformVpnError,
    >;

    /// Cleanup must be idempotent and attempt every owned resource class.
    fn cleanup(&self, instance_id: u64) -> Result<(), PlatformVpnError>;
}

/// The state a failed attempt is reported in.
pub open spec fn spec_failure_state(error: PlatformVpnError) -> DataPlaneState {
    if error == PlatformVpnError::PermissionDenied {
        DataPlaneState::PermissionRequired
    } else {
        DataPlaneState::Failed
    }
}

pub fn failure_state(error: PlatformVpnError) -> (s: DataPlaneState)
    ensures
        s == spec_failure_state(error),
{
    if error == PlatformVpnError::PermissionDenied {
        DataPlaneState::PermissionRequired
    } else {
        DataPlaneState::Failed
    }
}

/// A failed cleanup, reported as `CleanupFailed`.
pub fn cleanup_error(result: Result<(), PlatformVpnError>) -> (r: Option<PlatformVpnError>)
    ensures
        result is Ok ==> r is None,
        result is Err ==> r == Some(PlatformVpnError::CleanupFailed),
{
    match result {
        Ok(()) => None,
        Err(_) => Some(PlatformVpnError::CleanupFailed),
    }
}

/// Whether a state means a start of the same revision is already under way
/// or done.
pub open spec fn start_in_progress_or_done(state: DataPlaneState) -> bool {
    state == DataPlaneState::Validating || state == DataPlaneState::Starting || state
        == DataPlaneState::Online
}

/// The snapshot after one step: same instance, next sequence number.
pub open spec fn stepped(
    snapshot: AdapterSnapshot,
    next: DataPlaneState,
    active: bool,
    result: AdapterSnapshot,
) -> bool {
    &&& result.spec_instance_id() == snapshot.spec_instance_id()
    &&& result.spec_sequence() == snapshot.spec_sequence() + 1
    &&& result.spec_state() == next
    &&& result.spec_active_instance() == active
}

/// Whether a step from `snapshot` to `next` can be published.
pub open spec fn can_step(snapshot: AdapterSnapshot, next: DataPlaneState, active: bool) -> bool {
    snapshot.spec_sequence() < u64::MAX && AdapterSnapshot::consistent(
        snapshot.spec_instance_id(),
        next,
        active,
    )
}

/// What the supervisor holds between steps.
pub struct SupervisorState<P> {
    snapshot: AdapterSnapshot,
    revision: Option<ConfigurationRevision>,
    process: Option<P>,
    startup_deadline_ms: Option<u64>,
    next_instance: u64,
    last_stop_disposition: Option<StopDisposition>,
}

/// How a stop begins.
pub enum StopStart<P> {
    /// The adapter is already unconfigured; this is its snapshot.
    AlreadyStopped(AdapterSnapshot),
    /// The process, if any, that must now be stopped.
    Stopping(Option<P>),
}

/// How a restart begins.
pub enum RestartStart<P> {
    /// No process runs: the restart is a start.
    NoProcess,
    /// The process that must now be stopped.
    Stopping(Option<P>),
}

/// What a health poll found.
pub enum PollAction<P> {
    Nothing,
    Ready,
    /// The process exited or failed; `force` when it must still be killed.
    Failed { process: P, force: bool },
}

impl<P: SupervisedDataPlaneProcess> SupervisorState<P> {
    pub closed spec fn spec_snapshot(&self) -> AdapterSnapshot {
        self.snapshot
    }

    pub closed spec fn spec_revision(&self) -> Option<u64> {
        revision_value(self.revision)
    }

    pub closed spec fn spec_has_process(&self) -> bool {
        self.process is Some
    }

    pub closed spec fn spec_startup_deadline(&self) -> Option<u64> {
        self.startup_deadline_ms
    }

    pub closed spec fn spec_next_instance(&self) -> u64 {
        self.next_instance
    }

    pub closed spec fn spec_last_stop(&self) -> Option<StopDisposition> {
        self.last_stop_disposition
    }

    /// Every field but the snapshot is as in `other`.
    pub open spec fn same_but_snapshot(&self, other: &Self) -> bool {
        &&& self.spec_revision() == other.spec_revision()
        &&& self.spec_has_process() == other.spec_has_process()
        &&& self.spec_startup_deadline() == other.spec_startup_deadline()
        &&& self.spec_next_instance() == other.spec_next_instance()
        &&& self.spec_last_stop() == other.spec_last_stop()
    }

    pub fn new() -> (s: Self)
        ensures
            s.spec_snapshot().spec_instance_id() == 0,
            s.spec_snapshot().spec_sequence() == 0,
            s.spec_snapshot().spec_state() == DataPlaneState::Unconfigured,
            !s.spec_snapshot().spec_active_instance(),
            s.spec_revision() is None,
            !s.spec_has_process(),
            s.spec_startup_deadline() is None,
            s.spec_next_instance() == 0,
            s.spec_last_stop() is None,
    {
        SupervisorState {
            snapshot: AdapterSnapshot::initial(),
            revision: None,
            process: None,
            startup_deadline_ms: None,
            next_instance: 0,
            last_stop_disposition: None,
        }
    }

    pub fn snapshot(&self) -> (s: AdapterSnapshot)
        ensures
            s == self.spec_snapshot(),
    {
        self.snapshot
    }

    pub fn last_stop_disposition(&self) -> (d: Option<StopDisposition>)
        ensures
            d == self.spec_last_stop(),
    {
        self.last_stop_disposition
    }

    pub fn has_process(&self) -> (b: bool)
        ensures
            b == self.spec_has_process(),
    {
        self.process.is_some()
    }

    /// The supervised process's id, if one runs.
    pub fn process_id(&self) -> (id: Option<u32>)
        ensures
            id is Some == self.spec_has_process(),
    {
        match &self.process {
            Some(process) => Some(process.process_id()),
            None => None,
        }
    }

    /// The startup deadline, if a start awaits readiness.
    pub fn startup_deadline(&self) -> (d: Option<u64>)
        ensures
            d == self.spec_startup_deadline(),
    {
        self.startup_deadline_ms
    }

    /// Takes the next instance number.
    pub fn reserve_instance(&mut self) -> (r: Result<u64, PlatformVpnError>)
        ensures
            old(self).spec_next_instance() == u64::MAX ==> r == Err::<u64, PlatformVpnError>(
                PlatformVpnError::ProtocolViolation,
            ) && final(self).spec_next_instance() == old(self).spec_next_instance(),
            old(self).spec_next_instance() < u64::MAX ==> r == Ok::<u64, PlatformVpnError>(
                (old(self).spec_next_instance() + 1) as u64,
            ) && final(self).spec_next_instance() == old(self).spec_next_instance() + 1,
            final(self).spec_snapshot() == old(self).spec_snapshot(),
            final(self).spec_revision() == old(self).spec_revision(),
            final(self).spec_has_process() == old(self).spec_has_process(),
            final(self).spec_startup_deadline() == old(self).spec_startup_deadline(),
            final(self).spec_last_stop() == old(self).spec_last_stop(),
    {
        if self.next_instance == u64::MAX {
            return Err(PlatformVpnError::ProtocolViolation);
        }
        self.next_instance = self.next_instance + 1;
        Ok(self.next_instance)
    }

    /// Publishes the next snapshot of the current instance.
    pub fn advance_snapshot(&mut self, next: DataPlaneState, active: bool) -> (r: Result<
        AdapterSnapshot,
        PlatformVpnError,
    >)
        ensures
            final(self).same_but_snapshot(old(self)),
            r is Err ==> *final(self) == *old(self),
            can_step(old(self).spec_snapshot(), next, active) ==> (r matches Ok(s) && stepped(
                old(self).spec_snapshot(),
                next,
                active,
                s,
            ) && final(self).spec_snapshot() == s),
            !can_step(old(self).spec_snapshot(), next, active) ==> r == Err::<
                AdapterSnapshot,
                PlatformVpnError,
            >(PlatformVpnError::ProtocolViolation) && final(self).spec_snapshot() == old(self).spec_snapshot(),
    {
        let sequence = self.snapshot.sequence();
        if sequence == u64::MAX {
            return Err(PlatformVpnError::ProtocolViolation);
        }
        let snapshot = AdapterSnapshot::new_with_activity(
            self.snapshot.instance_id(),
            sequence + 1,
            next,
            active,
        )?;
        self.snapshot = snapshot;
        Ok(snapshot)
    }

    /// Whether a start of `revision` is answered at once: with the current
    /// snapshot when the same revision is validating, starting or online;
    /// `OperationInProgress` while another process runs.
    pub fn start_shortcut(&self, revision: ConfigurationRevision) -> (r: Option<
        Result<AdapterSnapshot, PlatformVpnError>,
    >)
        ensures
            self.spec_revision() == Some(revision.value()) && start_in_progress_or_done(
                self.spec_snapshot().spec_state(),
            ) ==> r == Some(Ok::<AdapterSnapshot, PlatformVpnError>(self.spec_snapshot())),
            !(self.spec_revision() == Some(revision.value()) && start_in_progress_or_done(
                self.spec_snapshot().spec_state(),
            )) && self.spec_has_process() ==> r == Some(
                Err::<AdapterSnapshot, PlatformVpnError>(PlatformVpnError::OperationInProgress),
            ),
            !(self.spec_revision() == Some(revision.value()) && start_in_progress_or_done(
                self.spec_snapshot().spec_state(),
            )) && !self.spec_has_process() ==> r is None,
    {
        let same = match self.revision {
            Some(current) => current.get() == revision.get(),
            None => false,
        };
        let state = self.snapshot.state();
        if same && (state == DataPlaneState::Validating || state == DataPlaneState::Starting
            || state == DataPlaneState::Online) {
            return Some(Ok(self.snapshot));
        }
        if self.process.is_some() {
            return Some(Err(PlatformVpnError::OperationInProgress));
        }
        None
    }

    /// Begins a start of `revision` under a new instance, published as
    /// validating with sequence 1.
    pub fn begin_attempt(&mut self, revision: ConfigurationRevision) -> (r: Result<
        u64,
        PlatformVpnError,
    >)
        ensures
            old(self).spec_next_instance() == u64::MAX ==> r == Err::<u64, PlatformVpnError>(
                PlatformVpnError::ProtocolViolation,
            ) && *final(self) == *old(self),
            old(self).spec_next_instance() < u64::MAX ==> {
                &&& r == Ok::<u64, PlatformVpnError>((old(self).spec_next_instance() + 1) as u64)
                &&& final(self).spec_next_instance() == old(self).spec_next_instance() + 1
                &&& final(self).spec_revision() == Some(revision.value())
                &&& final(self).spec_last_stop() is None
                &&& final(self).spec_snapshot().spec_instance_id() == old(self).spec_next_instance() + 1
                &&& final(self).spec_snapshot().spec_sequence() == 1
                &&& final(self).spec_snapshot().spec_state() == DataPlaneState::Validating
                &&& !final(self).spec_snapshot().spec_active_instance()
                &&& final(self).spec_has_process() == old(self).spec_has_process()
                &&& final(self).spec_startup_deadline() == old(self).spec_startup_deadline()
            },
    {
        if self.next_instance == u64::MAX {
            return Err(PlatformVpnError::ProtocolViolation);
        }
        let instance_id = self.next_instance + 1;
        let snapshot = match AdapterSnapshot::new_with_activity(
            instance_id,
            1,
            DataPlaneState::Validating,
            false,
        ) {
            Ok(snapshot) => snapshot,
            Err(error) => return Err(error),
        };
        self.next_instance = instance_id;
        self.revision = Some(revision);
        self.last_stop_disposition = None;
        self.snapshot = snapshot;
        Ok(instance_id)
    }

    /// Hands a spawned process to the supervisor and publishes it as
    /// starting; refused when another instance took over meanwhile.
    pub fn attach_process(&mut self, instance_id: u64, process: P, deadline_ms: u64) -> (r: Result<
        AdapterSnapshot,
        PlatformVpnError,
    >)
        ensures
            old(self).spec_snapshot().spec_instance_id() != instance_id ==> r == Err::<
                AdapterSnapshot,
                PlatformVpnError,
            >(PlatformVpnError::ProtocolViolation) && *final(self) == *old(self),
            old(self).spec_snapshot().spec_instance_id() == instance_id ==> {
                &&& final(self).spec_has_process()
                &&& final(self).spec_startup_deadline() == Some(deadline_ms)
                &&& final(self).spec_revision() == old(self).spec_revision()
                &&& final(self).spec_next_instance() == old(self).spec_next_instance()
                &&& final(self).spec_last_stop() == old(self).spec_last_stop()
                &&& can_step(old(self).spec_snapshot(), DataPlaneState::Starting, true) ==> (r matches Ok(
                    s,
                ) && stepped(old(self).spec_snapshot(), DataPlaneState::Starting, true, s)
                    && final(self).spec_snapshot() == s)
                &&& !can_step(old(self).spec_snapshot(), DataPlaneState::Starting, true) ==> r
                    == Err::<AdapterSnapshot, PlatformVpnError>(
                    PlatformVpnError::ProtocolViolation,
                ) && final(self).spec_snapshot() == old(self).spec_snapshot()
            },
    {
        if self.snapshot.instance_id() != instance_id {
            return Err(PlatformVpnError::ProtocolViolation);
        }
        self.process = Some(process);
        self.startup_deadline_ms = Some(deadline_ms);
        self.advance_snapshot(DataPlaneState::Starting, true)
    }

    /// Reports a failed attempt of `instance_id`, unless another instance
    /// took over.
    pub fn fail_attempt(&mut self, instance_id: u64, error: PlatformVpnError, active: bool)
        ensures
            final(self).same_but_snapshot(old(self)),
            old(self).spec_snapshot().spec_instance_id() == instance_id && can_step(
                old(self).spec_snapshot(),
                spec_failure_state(error),
                active,
            ) ==> stepped(
                old(self).spec_snapshot(),
                spec_failure_state(error),
                active,
                final(self).spec_snapshot(),
            ),
            !(old(self).spec_snapshot().spec_instance_id() == instance_id && can_step(
                old(self).spec_snapshot(),
                spec_failure_state(error),
                active,
            )) ==> final(self).spec_snapshot() == old(self).spec_snapshot(),
    {
        let state = failure_state(error);
        if self.snapshot.instance_id() == instance_id {
            let _ = self.advance_snapshot(state, active);
        }
    }

    /// Reports a failed spawn of a new instance: its snapshot is the failure
    /// state with sequence 1 and no active process.
    pub fn fail_new_attempt(&mut self, instance_id: u64, error: PlatformVpnError)
        ensures
            final(self).same_but_snapshot(old(self)),
            instance_id > 0 ==> {
                &&& final(self).spec_snapshot().spec_instance_id() == instance_id
                &&& final(self).spec_snapshot().spec_sequence() == 1
                &&& final(self).spec_snapshot().spec_state() == spec_failure_state(error)
                &&& !final(self).spec_snapshot().spec_active_instance()
            },
            instance_id == 0 ==> final(self).spec_snapshot().spec_instance_id() == 0
                && final(self).spec_snapshot().spec_state() == DataPlaneState::Unconfigured,
    {
        let state = failure_state(error);
        self.snapshot = match AdapterSnapshot::new_with_activity(instance_id, 1, state, false) {
            Ok(snapshot) => snapshot,
            Err(_) => AdapterSnapshot::initial(),
        };
    }

    /// Reports that stopping `instance_id` failed, keeping the process that
    /// could not be stopped, unless another instance took over.
    pub fn finish_failed(&mut self, instance_id: u64, process: Option<P>)
        ensures
            old(self).spec_snapshot().spec_instance_id() != instance_id ==> *final(self) == *old(self),
            old(self).spec_snapshot().spec_instance_id() == instance_id ==> {
                &&& final(self).spec_has_process() == process is Some
                &&& final(self).spec_startup_deadline() is None
                &&& final(self).spec_revision() == old(self).spec_revision()
                &&& final(self).spec_next_instance() == old(self).spec_next_instance()
                &&& final(self).spec_last_stop() == old(self).spec_last_stop()
                &&& can_step(old(self).spec_snapshot(), DataPlaneState::Failed, process is Some)
                    ==> stepped(
                    old(self).spec_snapshot(),
                    DataPlaneState::Failed,
                    process is Some,
                    final(self).spec_snapshot(),
                )
                &&& !can_step(old(self).spec_snapshot(), DataPlaneState::Failed, process is Some)
                    ==> final(self).spec_snapshot() == old(self).spec_snapshot()
            },
    {
        if self.snapshot.instance_id() == instance_id {
            let active = process.is_some();
            self.process = process;
            self.startup_deadline_ms = None;
            let _ = self.advance_snapshot(DataPlaneState::Failed, active);
        }
    }

    /// Begins stopping `instance_id`: an unconfigured adapter is already
    /// stopped; another instance is refused; otherwise the snapshot turns to
    /// stopping and the process is handed out to be stopped.
    pub fn begin_stop(&mut self, instance_id: u64) -> (r: Result<StopStart<P>, PlatformVpnError>)
        ensures
            old(self).spec_snapshot().spec_state() == DataPlaneState::Unconfigured ==> (r matches Ok(
                StopStart::AlreadyStopped(s),
            ) && s == old(self).spec_snapshot() && *final(self) == *old(self)),
            old(self).spec_snapshot().spec_state() != DataPlaneState::Unconfigured && instance_id
                != old(self).spec_snapshot().spec_instance_id() ==> r == Err::<
                StopStart<P>,
                PlatformVpnError,
            >(PlatformVpnError::ProtocolViolation) && *final(self) == *old(self),
            old(self).spec_snapshot().spec_state() != DataPlaneState::Unconfigured && instance_id
                == old(self).spec_snapshot().spec_instance_id() ==> {
                &&& can_step(
                    old(self).spec_snapshot(),
                    DataPlaneState::Stopping,
                    old(self).spec_has_process(),
                ) ==> (r matches Ok(StopStart::Stopping(p)) && p is Some == old(self).spec_has_process() && stepped(
                    old(self).spec_snapshot(),
                    DataPlaneState::Stopping,
                    old(self).spec_has_process(),
                    final(self).spec_snapshot(),
                ) && !final(self).spec_has_process() && final(self).spec_startup_deadline() is None
                    && final(self).spec_revision() == old(self).spec_revision()
                    && final(self).spec_next_instance() == old(self).spec_next_instance()
                    && final(self).spec_last_stop() == old(self).spec_last_stop())
                &&& !can_step(
                    old(self).spec_snapshot(),
                    DataPlaneState::Stopping,
                    old(self).spec_has_process(),
                ) ==> r == Err::<StopStart<P>, PlatformVpnError>(
                    PlatformVpnError::ProtocolViolation,
                ) && *final(self) == *old(self)
            },
    {
        if self.snapshot.state() == DataPlaneState::Unconfigured {
            return Ok(StopStart::AlreadyStopped(self.snapshot));
        }
        if instance_id != self.snapshot.instance_id() {
            return Err(PlatformVpnError::ProtocolViolation);
        }
        let active = self.process.is_some();
        self.advance_snapshot(DataPlaneState::Stopping, active)?;
        self.startup_deadline_ms = None;
        let mut process = None;
        std::mem::swap(&mut process, &mut self.process);
        Ok(StopStart::Stopping(process))
    }

    /// Completes a stop: no revision, the disposition remembered, the
    /// snapshot unconfigured.
    pub fn finish_stop(&mut self, disposition: StopDisposition) -> (r: Result<
        AdapterSnapshot,
        PlatformVpnError,
    >)
        ensures
            final(self).spec_revision() is None,
            final(self).spec_last_stop() == Some(disposition),
            final(self).spec_has_process() == old(self).spec_has_process(),
            final(self).spec_startup_deadline() == old(self).spec_startup_deadline(),
            final(self).spec_next_instance() == old(self).spec_next_instance(),
            can_step(old(self).spec_snapshot(), DataPlaneState::Unconfigured, false) ==> (r matches Ok(
                s,
            ) && stepped(old(self).spec_snapshot(), DataPlaneState::Unconfigured, false, s)
                && final(self).spec_snapshot() == s),
            !can_step(old(self).spec_snapshot(), DataPlaneState::Unconfigured, false) ==> r
                == Err::<AdapterSnapshot, PlatformVpnError>(PlatformVpnError::ProtocolViolation)
                && final(self).spec_snapshot() == old(self).spec_snapshot(),
    {
        self.revision = None;
        self.last_stop_disposition = Some(disposition);
        self.advance_snapshot(DataPlaneState::Unconfigured, false)
    }

    /// Begins restarting `instance_id`: without a process the restart is a
    /// start; another instance is refused; otherwise the snapshot turns to
    /// rollback and the process is handed out to be stopped.
    pub fn begin_restart(&mut self, instance_id: u64) -> (r: Result<
        RestartStart<P>,
        PlatformVpnError,
    >)
        ensures
            !old(self).spec_has_process() ==> (r matches Ok(RestartStart::NoProcess)) && *final(self) == *old(self),
            old(self).spec_has_process() && instance_id != old(self).spec_snapshot().spec_instance_id() ==> r == Err::<
                RestartStart<P>,
                PlatformVpnError,
            >(PlatformVpnError::ProtocolViolation) && *final(self) == *old(self),
            old(self).spec_has_process() && instance_id == old(self).spec_snapshot().spec_instance_id() ==> {
                &&& can_step(old(self).spec_snapshot(), DataPlaneState::Rollback, true) ==> (r matches Ok(
                    RestartStart::Stopping(p),
                ) && p is Some && stepped(
                    old(self).spec_snapshot(),
                    DataPlaneState::Rollback,
                    true,
                    final(self).spec_snapshot(),
                ) && !final(self).spec_has_process() && final(self).spec_startup_deadline() is None
                    && final(self).spec_revision() == old(self).spec_revision()
                    && final(self).spec_next_instance() == old(self).spec_next_instance()
                    && final(self).spec_last_stop() == old(self).spec_last_stop())
                &&& !can_step(old(self).spec_snapshot(), DataPlaneState::Rollback, true) ==> r
                    == Err::<RestartStart<P>, PlatformVpnError>(
                    PlatformVpnError::ProtocolViolation,
                ) && *final(self) == *old(self)
            },
    {
        if self.process.is_none() {
            return Ok(RestartStart::NoProcess);
        }
        if instance_id != self.snapshot.instance_id() {
            return Err(PlatformVpnError::ProtocolViolation);
        }
        self.advance_snapshot(DataPlaneState::Rollback, true)?;
        self.startup_deadline_ms = None;
        let mut process = None;
        std::mem::swap(&mut process, &mut self.process);
        Ok(RestartStart::Stopping(process))
    }

    /// Records that the old instance of a restart stopped: the disposition and
    /// the new revision, published as rollback without an active process.
    pub fn finish_restart_stop(&mut self, disposition: StopDisposition, revision: ConfigurationRevision) -> (r:
        Result<(), PlatformVpnError>)
        ensures
            final(self).spec_revision() == Some(revision.value()),
            final(self).spec_last_stop() == Some(disposition),
            final(self).spec_has_process() == old(self).spec_has_process(),
            final(self).spec_startup_deadline() == old(self).spec_startup_deadline(),
            final(self).spec_next_instance() == old(self).spec_next_instance(),
            can_step(old(self).spec_snapshot(), DataPlaneState::Rollback, false) ==> r is Ok
                && stepped(
                old(self).spec_snapshot(),
                DataPlaneState::Rollback,
                false,
                final(self).spec_snapshot(),
            ),
            !can_step(old(self).spec_snapshot(), DataPlaneState::Rollback, false) ==> r == Err::<
                (),
                PlatformVpnError,
            >(PlatformVpnError::ProtocolViolation) && final(self).spec_snapshot() == old(self).spec_snapshot(),
    {
        self.last_stop_disposition = Some(disposition);
        self.revision = Some(revision);
        self.advance_snapshot(DataPlaneState::Rollback, false)?;
        Ok(())
    }

    /// Hands the process of a restarted instance to the supervisor: the new
    /// instance is published as starting with sequence 1.
    pub fn launch_restarted(&mut self, instance_id: u64, process: P, deadline_ms: u64) -> (r:
        Result<AdapterSnapshot, PlatformVpnError>)
        ensures
            final(self).spec_has_process(),
            final(self).spec_startup_deadline() == Some(deadline_ms),
            final(self).spec_revision() == old(self).spec_revision(),
            final(self).spec_next_instance() == old(self).spec_next_instance(),
            final(self).spec_last_stop() == old(self).spec_last_stop(),
            instance_id > 0 ==> (r matches Ok(s) && s == final(self).spec_snapshot()
                && s.spec_instance_id() == instance_id && s.spec_sequence() == 1 && s.spec_state()
                == DataPlaneState::Starting && s.spec_active_instance()),
            instance_id == 0 ==> r == Err::<AdapterSnapshot, PlatformVpnError>(
                PlatformVpnError::ProtocolViolation,
            ) && final(self).spec_snapshot() == old(self).spec_snapshot(),
    {
        self.process = Some(process);
        self.startup_deadline_ms = Some(deadline_ms);
        let snapshot = AdapterSnapshot::new_with_activity(
            instance_id,
            1,
            DataPlaneState::Starting,
            true,
        )?;
        self.snapshot = snapshot;
        Ok(snapshot)
    }

    /// One health poll at `now_ms`: an exited process fails the instance; a
    /// failed wait, a failed readiness probe or a missed startup deadline
    /// fails it and asks for a kill; a starting process that reports ready
    /// makes the instance online.
    pub fn poll(&mut self, now_ms: u64) -> (r: (PollAction<P>, u64))
        ensures
            r.1 == old(self).spec_snapshot().spec_instance_id(),
            !old(self).spec_has_process() ==> (r.0 is Nothing) && *final(self) == *old(self),
            r.0 is Failed ==> !final(self).spec_has_process() && final(self).spec_snapshot() == old(self).spec_snapshot() && final(self).spec_startup_deadline() == old(self).spec_startup_deadline(),
            r.0 is Ready ==> old(self).spec_snapshot().spec_state() == DataPlaneState::Starting
                && final(self).spec_has_process() && final(self).spec_startup_deadline() is None
                && (can_step(old(self).spec_snapshot(), DataPlaneState::Online, true) ==> stepped(
                old(self).spec_snapshot(),
                DataPlaneState::Online,
                true,
                final(self).spec_snapshot(),
            )),
            r.0 is Nothing ==> final(self).spec_snapshot() == old(self).spec_snapshot()
                && final(self).spec_has_process() == old(self).spec_has_process()
                && final(self).spec_startup_deadline() == old(self).spec_startup_deadline(),
            final(self).spec_revision() == old(self).spec_revision(),
            final(self).spec_next_instance() == old(self).spec_next_instance(),
            final(self).spec_last_stop() == old(self).spec_last_stop(),
    {
        let instance_id = self.snapshot.instance_id();
        let startup_expired = match self.startup_deadline_ms {
            Some(deadline) => now_ms >= deadline,
            None => false,
        };
        let starting = self.snapshot.state() == DataPlaneState::Starting;
        let mut taken = None;
        std::mem::swap(&mut taken, &mut self.process);
        let mut process = match taken {
            Some(process) => process,
            None => return (PollAction::Nothing, instance_id),
        };
        let action = match process.try_wait() {
            Ok(true) => PollAction::Failed { process, force: false },
            Err(_) => PollAction::Failed { process, force: true },
            Ok(false) => {
                if starting {
                    match process.readiness() {
                        Ok(ProcessReadiness::Ready) => {
                            self.process = Some(process);
                            PollAction::Ready
                        },
                        Ok(ProcessReadiness::Pending) => {
                            if startup_expired {
                                PollAction::Failed { process, force: true }
                            } else {
                                self.process = Some(process);
                                PollAction::Nothing
                            }
                        },
                        Err(_) => PollAction::Failed { process, force: true },
                    }
                } else {
                    self.process = Some(process);
                    PollAction::Nothing
                }
            },
        };
        if let PollAction::Ready = action {
            self.startup_deadline_ms = None;
            let _ = self.advance_snapshot(DataPlaneState::Online, true);
        }
        (action, instance_id)
    }

    /// Records the end of a failed instance found by a poll: the process is
    /// kept only when it could not be killed, and the instance is reported
    /// failed.
    pub fn finish_poll_failure(&mut self, surviving: Option<P>)
        ensures
            final(self).spec_has_process() == (surviving is Some || old(self).spec_has_process()),
            final(self).spec_startup_deadline() is None,
            final(self).spec_revision() == old(self).spec_revision(),
            final(self).spec_next_instance() == old(self).spec_next_instance(),
            final(self).spec_last_stop() == old(self).spec_last_stop(),
            can_step(old(self).spec_snapshot(), DataPlaneState::Failed, surviving is Some) ==> stepped(
                old(self).spec_snapshot(),
                DataPlaneState::Failed,
                surviving is Some,
                final(self).spec_snapshot(),
            ),
            !can_step(old(self).spec_snapshot(), DataPlaneState::Failed, surviving is Some)
                ==> final(self).spec_snapshot() == old(self).spec_snapshot(),
    {
        self.startup_deadline_ms = None;
        let active = surviving.is_some();
        if active {
            self.process = surviving;
        }
        let _ = self.advance_snapshot(DataPlaneState::Failed, active);
    }

    /// Takes the process out, when the supervisor shuts down.
    pub fn take_process(&mut self) -> (p: Option<P>)
        ensures
            p is Some == old(self).spec_has_process(),
            !final(self).spec_has_process(),
            final(self).spec_snapshot() == old(self).spec_snapshot(),
    {
        let mut process = None;
        std::mem::swap(&mut process, &mut self.process);
        process
    }
}

} // verus!
