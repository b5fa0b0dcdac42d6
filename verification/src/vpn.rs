//! Configuration revisions, the snapshots a data-plane adapter reports, and
//! the decisions a data-plane controller takes on commands and snapshots:
//! which snapshots it applies, which it discards, and when a command is
//! already satisfied. Which data-plane state may follow which is the state
//! machine's rule and is not decided here.
use vstd::prelude::*;

use crate::plane_state::DataPlaneState;

verus! {

/// A committed data-plane configuration revision; never zero.
#[derive(Debug, Clone, Copy, PartialEq, Eq, Structural)]
pub struct ConfigurationRevision(u64);

impl ConfigurationRevision {
    pub closed spec fn value(self) -> u64 {
        self.0
    }

    #[verifier::type_invariant]
    spec fn nonzero(self) -> bool {
        self.0 != 0
    }

    pub fn new(value: u64) -> (r: Result<Self, PlatformVpnError>)
        ensures
            r is Ok <==> value != 0,
            r matches Ok(revision) ==> revision.value() == value,
            r matches Err(e) ==> e == PlatformVpnError::InvalidConfiguration,
    {
        if value == 0 {
            return Err(PlatformVpnError::InvalidConfiguration);
        }
        Ok(ConfigurationRevision(value))
    }

    /// A revision from a value already known to be non-zero.
    pub(crate) fn from_nonzero(value: u64) -> (revision: Self)
        requires
            value != 0,
        ensures
            revision.value() == value,
    {
        ConfigurationRevision(value)
    }

    pub fn get(self) -> (v: u64)
        ensures
            v == self.value(),
            v != 0,
    {
        proof {
            use_type_invariant(&self);
        }
        self.0
    }
}

#[derive(Debug, Clone, Copy, PartialEq, Eq, Structural)]
pub struct AdapterSnapshot {
    instance_id: u64,
    sequence: u64,
    state: DataPlaneState,
    active_instance: bool,
}

impl AdapterSnapshot {
    pub closed spec fn spec_instance_id(self) -> u64 {
        self.instance_id
    }

    pub closed spec fn spec_sequence(self) -> u64 {
        self.sequence
    }

    pub closed spec fn spec_state(self) -> DataPlaneState {
        self.state
    }

    pub closed spec fn spec_active_instance(self) -> bool {
        self.active_instance
    }

    /// A snapshot is consistent when an unconfigured adapter, or instance zero,
    /// reports no active instance, and instance zero is unconfigured.
    pub open spec fn consistent(
        instance_id: u64,
        state: DataPlaneState,
        active_instance: bool,
    ) -> bool {
        !((instance_id == 0 && (state != DataPlaneState::Unconfigured || active_instance)) || (
        state == DataPlaneState::Unconfigured && active_instance))
    }

    pub fn new(instance_id: u64, sequence: u64, state: DataPlaneState) -> (r: Result<
        Self,
        PlatformVpnError,
    >)
        ensures
            r is Ok <==> Self::consistent(
                instance_id,
                state,
                instance_id > 0 && state != DataPlaneState::Unconfigured,
            ),
            r matches Err(e) ==> e == PlatformVpnError::ProtocolViolation,
            r matches Ok(s) ==> s.spec_instance_id() == instance_id && s.spec_sequence()
                == sequence && s.spec_state() == state && s.spec_active_instance() == (
            instance_id > 0 && state != DataPlaneState::Unconfigured),
    {
        Self::new_with_activity(
            instance_id,
            sequence,
            state,
            instance_id > 0 && state != DataPlaneState::Unconfigured,
        )
    }

    pub fn new_with_activity(
        instance_id: u64,
        sequence: u64,
        state: DataPlaneState,
        active_instance: bool,
    ) -> (r: Result<Self, PlatformVpnError>)
        ensures
            r is Ok <==> Self::consistent(instance_id, state, active_instance),
            r matches Err(e) ==> e == PlatformVpnError::ProtocolViolation,
            r matches Ok(s) ==> s.spec_instance_id() == instance_id && s.spec_sequence()
                == sequence && s.spec_state() == state && s.spec_active_instance()
                == active_instance,
    {
        if (instance_id == 0 && (state != DataPlaneState::Unconfigured || active_instance)) || (
        state == DataPlaneState::Unconfigured && active_instance) {
            return Err(PlatformVpnError::ProtocolViolation);
        }
        Ok(AdapterSnapshot { instance_id, sequence, state, active_instance })
    }

    pub fn initial() -> (s: Self)
        ensures
            s.spec_instance_id() == 0 && s.spec_sequence() == 0 && s.spec_state()
                == DataPlaneState::Unconfigured && !s.spec_active_instance(),
    {
        AdapterSnapshot {
            instance_id: 0,
            sequence: 0,
            state: DataPlaneState::Unconfigured,
            active_instance: false,
        }
    }

    pub fn instance_id(self) -> (v: u64)
        ensures
            v == self.spec_instance_id(),
    {
        self.instance_id
    }

    pub fn sequence(self) -> (v: u64)
        ensures
            v == self.spec_sequence(),
    {
        self.sequence
    }

    pub fn state(self) -> (v: DataPlaneState)
        ensures
            v == self.spec_state(),
    {
        self.state
    }

    pub fn has_active_instance(self) -> (v: bool)
        ensures
            v == self.spec_active_instance(),
    {
        self.active_instance
    }
}

#[derive(Debug, Clone, Copy, PartialEq, Eq, Structural)]
pub enum PlatformVpnError {
    InvalidConfiguration,
    PermissionDenied,
    Timeout,
    Crashed,
    Unavailable,
    OperationInProgress,
    ProtocolViolation,
    CleanupFailed,
}

impl PlatformVpnError {
    pub fn as_str(self) -> (name: &'static str)
        ensures
            name@ == (match self {
                PlatformVpnError::InvalidConfiguration => "vpn-invalid-configuration"@,
                PlatformVpnError::PermissionDenied => "vpn-permission-denied"@,
                PlatformVpnError::Timeout => "vpn-timeout"@,
                PlatformVpnError::Crashed => "vpn-adapter-crashed"@,
                PlatformVpnError::Unavailable => "vpn-adapter-unavailable"@,
                PlatformVpnError::OperationInProgress => "vpn-operation-in-progress"@,
                PlatformVpnError::ProtocolViolation => "vpn-adapter-protocol-violation"@,
                PlatformVpnError::CleanupFailed => "vpn-cleanup-failed"@,
            }),
    {
        match self {
            PlatformVpnError::InvalidConfiguration => "vpn-invalid-configuration",
            PlatformVpnError::PermissionDenied => "vpn-permission-denied",
            PlatformVpnError::Timeout => "vpn-timeout",
            PlatformVpnError::Crashed => "vpn-adapter-crashed",
            PlatformVpnError::Unavailable => "vpn-adapter-unavailable",
            PlatformVpnError::OperationInProgress => "vpn-operation-in-progress",
            PlatformVpnError::ProtocolViolation => "vpn-adapter-protocol-violation",
            PlatformVpnError::CleanupFailed => "vpn-cleanup-failed",
        }
    }
}

/// The platform's VPN adapter. Implemented by each platform; this crate states
/// nothing about what an implementation returns.
pub trait PlatformVpnAdapter: Send + Sync {
    fn snapshot(&self) -> Result<AdapterSnapshot, PlatformVpnError>;

    fn start(&self, revision: ConfigurationRevision) -> Result<AdapterSnapshot, PlatformVpnError>;

    fn stop(&self, instance_id: u64) -> Result<AdapterSnapshot, PlatformVpnError>;

    fn restart(&self, instance_id: u64, revision: ConfigurationRevision) -> Result<
        AdapterSnapshot,
        PlatformVpnError,
    >;
}

/// The adapter of a platform without a data plane.
#[derive(Debug, Default, Clone, Copy)]
pub struct UnconfiguredVpnAdapter;

impl PlatformVpnAdapter for UnconfiguredVpnAdapter {
    fn snapshot(&self) -> Result<AdapterSnapshot, PlatformVpnError> {
        Ok(AdapterSnapshot::initial())
    }

    fn start(&self, revision: ConfigurationRevision) -> Result<AdapterSnapshot, PlatformVpnError> {
        Err(PlatformVpnError::Unavailable)
    }

    fn stop(&self, instance_id: u64) -> Result<AdapterSnapshot, PlatformVpnError> {
        Ok(AdapterSnapshot::initial())
    }

    fn restart(&self, instance_id: u64, revision: ConfigurationRevision) -> Result<
        AdapterSnapshot,
        PlatformVpnError,
    > {
        Err(PlatformVpnError::Unavailable)
    }
}

#[derive(Debug, Clone, Copy, PartialEq, Eq, Structural)]
pub enum VpnCommandOutcome {
    Applied,
    AlreadySatisfied,
}

#[derive(Debug, Clone, Copy, PartialEq, Eq, Structural)]
pub enum AdapterEventOutcome {
    Applied,
    Duplicate,
    StaleInstance,
    StaleSequence,
}


/// What a data-plane controller knows of the adapter's snapshot stream: the
/// instance and sequence it last applied, the state and activity they
/// reported, and whether an operation error overrode them since.
#[derive(Debug, Clone, Copy, PartialEq, Eq, Structural)]
pub struct AdapterCursor {
    pub initialized: bool,
    pub instance_id: u64,
    pub last_sequence: u64,
    pub state: DataPlaneState,
    pub active_instance: bool,
    pub operation_error_override: bool,
}

/// How a controller treats an adapter snapshot.
#[derive(Debug, Clone, Copy, PartialEq, Eq, Structural)]
pub enum SnapshotVerdict {
    /// Taken as the authoritative state: the first snapshot seen, or the next
    /// one of the instance after an operation error.
    Restore,
    /// Of an older instance, or of a newer one that the caller did not start.
    StaleInstance,
    /// Of the current instance, older than the last one applied.
    StaleSequence,
    /// The last snapshot again, unchanged.
    Duplicate,
    /// The last sequence number again, with another state or activity.
    Equivocation,
    /// Newer than the last one: the data plane moves to its state.
    Advance,
}

pub open spec fn spec_snapshot_verdict(
    cursor: AdapterCursor,
    snapshot: AdapterSnapshot,
    allow_new_instance: bool,
) -> SnapshotVerdict {
    if !cursor.initialized {
        SnapshotVerdict::Restore
    } else if snapshot.spec_instance_id() < cursor.instance_id {
        SnapshotVerdict::StaleInstance
    } else if snapshot.spec_instance_id() > cursor.instance_id && !allow_new_instance {
        SnapshotVerdict::StaleInstance
    } else if snapshot.spec_instance_id() == cursor.instance_id {
        if snapshot.spec_sequence() < cursor.last_sequence {
            SnapshotVerdict::StaleSequence
        } else if cursor.operation_error_override {
            SnapshotVerdict::Restore
        } else if snapshot.spec_sequence() == cursor.last_sequence {
            if snapshot.spec_state() == cursor.state && snapshot.spec_active_instance()
                == cursor.active_instance {
                SnapshotVerdict::Duplicate
            } else {
                SnapshotVerdict::Equivocation
            }
        } else {
            SnapshotVerdict::Advance
        }
    } else {
        SnapshotVerdict::Advance
    }
}

/// Classifies an adapter snapshot against what the controller last applied.
pub fn snapshot_verdict(cursor: AdapterCursor, snapshot: AdapterSnapshot, allow_new_instance: bool) -> (v:
    SnapshotVerdict)
    ensures
        v == spec_snapshot_verdict(cursor, snapshot, allow_new_instance),
{
    if !cursor.initialized {
        return SnapshotVerdict::Restore;
    }
    if snapshot.instance_id() < cursor.instance_id {
        return SnapshotVerdict::StaleInstance;
    }
    if snapshot.instance_id() > cursor.instance_id && !allow_new_instance {
        return SnapshotVerdict::StaleInstance;
    }
    if snapshot.instance_id() == cursor.instance_id {
        if snapshot.sequence() < cursor.last_sequence {
            return SnapshotVerdict::StaleSequence;
        }
        if cursor.operation_error_override {
            return SnapshotVerdict::Restore;
        }
        if snapshot.sequence() == cursor.last_sequence {
            if snapshot.state() == cursor.state && snapshot.has_active_instance()
                == cursor.active_instance {
                return SnapshotVerdict::Duplicate;
            }
            return SnapshotVerdict::Equivocation;
        }
    }
    SnapshotVerdict::Advance
}

/// The cursor after a snapshot is applied, by restoring it or by moving the
/// data plane to its state.
pub open spec fn spec_applied_cursor(snapshot: AdapterSnapshot) -> AdapterCursor {
    AdapterCursor {
        initialized: true,
        instance_id: snapshot.spec_instance_id(),
        last_sequence: snapshot.spec_sequence(),
        state: snapshot.spec_state(),
        active_instance: snapshot.spec_active_instance(),
        operation_error_override: false,
    }
}

pub fn applied_cursor(snapshot: AdapterSnapshot) -> (c: AdapterCursor)
    ensures
        c == spec_applied_cursor(snapshot),
{
    AdapterCursor {
        initialized: true,
        instance_id: snapshot.instance_id(),
        last_sequence: snapshot.sequence(),
        state: snapshot.state(),
        active_instance: snapshot.has_active_instance(),
        operation_error_override: false,
    }
}

/// What a snapshot's verdict reports to the caller: an equivocation is a
/// protocol violation; the others are event outcomes.
pub open spec fn spec_verdict_outcome(v: SnapshotVerdict) -> Result<AdapterEventOutcome, PlatformVpnError> {
    match v {
        SnapshotVerdict::Restore | SnapshotVerdict::Advance => Ok(AdapterEventOutcome::Applied),
        SnapshotVerdict::StaleInstance => Ok(AdapterEventOutcome::StaleInstance),
        SnapshotVerdict::StaleSequence => Ok(AdapterEventOutcome::StaleSequence),
        SnapshotVerdict::Duplicate => Ok(AdapterEventOutcome::Duplicate),
        SnapshotVerdict::Equivocation => Err(PlatformVpnError::ProtocolViolation),
    }
}

pub fn verdict_outcome(v: SnapshotVerdict) -> (r: Result<AdapterEventOutcome, PlatformVpnError>)
    ensures
        r == spec_verdict_outcome(v),
{
    match v {
        SnapshotVerdict::Restore | SnapshotVerdict::Advance => Ok(AdapterEventOutcome::Applied),
        SnapshotVerdict::StaleInstance => Ok(AdapterEventOutcome::StaleInstance),
        SnapshotVerdict::StaleSequence => Ok(AdapterEventOutcome::StaleSequence),
        SnapshotVerdict::Duplicate => Ok(AdapterEventOutcome::Duplicate),
        SnapshotVerdict::Equivocation => Err(PlatformVpnError::ProtocolViolation),
    }
}

/// An operation's own snapshot must be applied: one that is discarded as old
/// or as a repeat is a protocol violation too.
pub fn operation_outcome(event: Result<AdapterEventOutcome, PlatformVpnError>) -> (r: Result<
    VpnCommandOutcome,
    PlatformVpnError,
>)
    ensures
        event == Ok::<AdapterEventOutcome, PlatformVpnError>(AdapterEventOutcome::Applied) ==> r
            == Ok::<VpnCommandOutcome, PlatformVpnError>(VpnCommandOutcome::Applied),
        event matches Ok(o) && o != AdapterEventOutcome::Applied ==> r == Err::<
            VpnCommandOutcome,
            PlatformVpnError,
        >(PlatformVpnError::ProtocolViolation),
        event matches Err(e) ==> r == Err::<VpnCommandOutcome, PlatformVpnError>(e),
{
    match event {
        Ok(AdapterEventOutcome::Applied) => Ok(VpnCommandOutcome::Applied),
        Ok(_) => Err(PlatformVpnError::ProtocolViolation),
        Err(error) => Err(error),
    }
}

/// A snapshot that the controller applies never takes it back to an older
/// instance, nor to an older sequence of the same instance; one that it
/// discards leaves it where it was.
pub proof fn law_applied_snapshots_never_go_back(
    cursor: AdapterCursor,
    snapshot: AdapterSnapshot,
    allow_new_instance: bool,
)
    requires
        cursor.initialized,
    ensures
        ({
            let v = spec_snapshot_verdict(cursor, snapshot, allow_new_instance);
            (v == SnapshotVerdict::Restore || v == SnapshotVerdict::Advance) ==> (snapshot.spec_instance_id()
                > cursor.instance_id || (snapshot.spec_instance_id() == cursor.instance_id
                && snapshot.spec_sequence() >= cursor.last_sequence))
        }),
        spec_snapshot_verdict(cursor, snapshot, allow_new_instance) == SnapshotVerdict::Advance
            && snapshot.spec_instance_id() == cursor.instance_id ==> snapshot.spec_sequence()
            > cursor.last_sequence,
        !allow_new_instance && snapshot.spec_instance_id() != cursor.instance_id
            ==> spec_snapshot_verdict(cursor, snapshot, allow_new_instance)
            == SnapshotVerdict::StaleInstance,
{
}

/// How a start request is handled, before the state machine is consulted.
#[derive(Debug, Clone, Copy, PartialEq, Eq, Structural)]
pub enum StartDecision {
    /// The revision is already starting or online.
    AlreadySatisfied,
    /// A stop or rollback is under way.
    InProgress,
    /// An instance is online or still held after a failure: restart it.
    Restart,
    /// Move to validating and ask the adapter to start.
    Begin,
}

pub open spec fn spec_start_decision(state: DataPlaneState, same_revision: bool, active_instance: bool) -> StartDecision {
    if same_revision && (state == DataPlaneState::Validating || state == DataPlaneState::Starting
        || state == DataPlaneState::Online) {
        StartDecision::AlreadySatisfied
    } else if state == DataPlaneState::Stopping || state == DataPlaneState::Rollback {
        StartDecision::InProgress
    } else if (state == DataPlaneState::PermissionRequired || state == DataPlaneState::Failed)
        && active_instance {
        StartDecision::Restart
    } else if state == DataPlaneState::Online {
        StartDecision::Restart
    } else {
        StartDecision::Begin
    }
}

pub fn start_decision(state: DataPlaneState, same_revision: bool, active_instance: bool) -> (d:
    StartDecision)
    ensures
        d == spec_start_decision(state, same_revision, active_instance),
{
    if same_revision && (state == DataPlaneState::Validating || state == DataPlaneState::Starting
        || state == DataPlaneState::Online) {
        StartDecision::AlreadySatisfied
    } else if state == DataPlaneState::Stopping || state == DataPlaneState::Rollback {
        StartDecision::InProgress
    } else if (state == DataPlaneState::PermissionRequired || state == DataPlaneState::Failed)
        && active_instance {
        StartDecision::Restart
    } else if state == DataPlaneState::Online {
        StartDecision::Restart
    } else {
        StartDecision::Begin
    }
}

/// How a stop request is handled, before the state machine is consulted.
#[derive(Debug, Clone, Copy, PartialEq, Eq, Structural)]
pub enum StopDecision {
    /// Nothing runs, or a stop is under way.
    AlreadySatisfied,
    /// No adapter instance is held: become unconfigured without the adapter.
    Local,
    /// Move to stopping and ask the adapter to stop its instance.
    Begin,
}

pub open spec fn spec_stop_decision(state: DataPlaneState, active_instance: bool) -> StopDecision {
    if state == DataPlaneState::Unconfigured || state == DataPlaneState::Stopping {
        StopDecision::AlreadySatisfied
    } else if !active_instance {
        StopDecision::Local
    } else {
        StopDecision::Begin
    }
}

pub fn stop_decision(state: DataPlaneState, active_instance: bool) -> (d: StopDecision)
    ensures
        d == spec_stop_decision(state, active_instance),
{
    if state == DataPlaneState::Unconfigured || state == DataPlaneState::Stopping {
        StopDecision::AlreadySatisfied
    } else if !active_instance {
        StopDecision::Local
    } else {
        StopDecision::Begin
    }
}

/// How a restart request is handled, before the state machine is consulted.
#[derive(Debug, Clone, Copy, PartialEq, Eq, Structural)]
pub enum RestartDecision {
    /// No instance is held: a restart is a start.
    Start,
    /// The revision is already being brought up.
    AlreadySatisfied,
    /// A stop is under way.
    InProgress,
    /// Move to rollback and ask the adapter to restart its instance.
    Begin,
}

pub open spec fn spec_restart_decision(state: DataPlaneState, same_revision: bool, active_instance: bool) -> RestartDecision {
    if state == DataPlaneState::Unconfigured || !active_instance {
        RestartDecision::Start
    } else if same_revision && (state == DataPlaneState::Validating || state
        == DataPlaneState::Starting || state == DataPlaneState::Rollback) {
        RestartDecision::AlreadySatisfied
    } else if state == DataPlaneState::Stopping {
        RestartDecision::InProgress
    } else {
        RestartDecision::Begin
    }
}

pub fn restart_decision(state: DataPlaneState, same_revision: bool, active_instance: bool) -> (d:
    RestartDecision)
    ensures
        d == spec_restart_decision(state, same_revision, active_instance),
{
    if state == DataPlaneState::Unconfigured || !active_instance {
        RestartDecision::Start
    } else if same_revision && (state == DataPlaneState::Validating || state
        == DataPlaneState::Starting || state == DataPlaneState::Rollback) {
        RestartDecision::AlreadySatisfied
    } else if state == DataPlaneState::Stopping {
        RestartDecision::InProgress
    } else {
        RestartDecision::Begin
    }
}

/// Repeated commands change nothing: a start of the revision that is starting
/// or online, and a stop of a data plane that is unconfigured or stopping, are
/// already satisfied; a restart of the revision that is being brought up by an
/// instance is too.
pub proof fn law_repeated_commands_are_satisfied(
    state: DataPlaneState,
    active_instance: bool,
)
    ensures
        (state == DataPlaneState::Validating || state == DataPlaneState::Starting || state
            == DataPlaneState::Online) ==> spec_start_decision(state, true, active_instance)
            == StartDecision::AlreadySatisfied,
        (state == DataPlaneState::Unconfigured || state == DataPlaneState::Stopping)
            ==> spec_stop_decision(state, active_instance) == StopDecision::AlreadySatisfied,
        active_instance && (state == DataPlaneState::Validating || state
            == DataPlaneState::Starting || state == DataPlaneState::Rollback)
            ==> spec_restart_decision(state, true, active_instance)
            == RestartDecision::AlreadySatisfied,
{
}

/// A start never begins while a stop or a rollback is under way, whatever the
/// revision; a start of the revision already being brought up or online is
/// already satisfied; another revision replaces an online instance, or an
/// instance still held after a failure, by a restart; otherwise the adapter is
/// asked to start.
pub proof fn law_start_decisions(state: DataPlaneState, same_revision: bool, active_instance: bool)
    ensures
        (state == DataPlaneState::Stopping || state == DataPlaneState::Rollback) ==> spec_start_decision(
            state,
            same_revision,
            active_instance,
        ) == StartDecision::InProgress,
        same_revision && (state == DataPlaneState::Validating || state == DataPlaneState::Starting
            || state == DataPlaneState::Online) ==> spec_start_decision(
            state,
            same_revision,
            active_instance,
        ) == StartDecision::AlreadySatisfied,
        !same_revision && state == DataPlaneState::Online ==> spec_start_decision(
            state,
            same_revision,
            active_instance,
        ) == StartDecision::Restart,
        active_instance && (state == DataPlaneState::PermissionRequired || state
            == DataPlaneState::Failed) ==> spec_start_decision(state, same_revision, active_instance)
            == StartDecision::Restart,
        !active_instance && (state == DataPlaneState::PermissionRequired || state
            == DataPlaneState::Failed) ==> spec_start_decision(state, same_revision, active_instance)
            == StartDecision::Begin,
        state == DataPlaneState::Unconfigured ==> spec_start_decision(
            state,
            same_revision,
            active_instance,
        ) == StartDecision::Begin,
        !same_revision && (state == DataPlaneState::Validating || state == DataPlaneState::Starting)
            ==> spec_start_decision(state, same_revision, active_instance) == StartDecision::Begin,
        spec_start_decision(state, same_revision, active_instance) == StartDecision::Begin ==> state
            != DataPlaneState::Stopping && state != DataPlaneState::Rollback && state
            != DataPlaneState::Online,
{
}

/// A stop of a data plane that is unconfigured or already stopping changes
/// nothing; without an instance the data plane becomes unconfigured without the
/// adapter; otherwise the adapter is asked to stop its instance.
pub proof fn law_stop_decisions(state: DataPlaneState, active_instance: bool)
    ensures
        (state == DataPlaneState::Unconfigured || state == DataPlaneState::Stopping)
            ==> spec_stop_decision(state, active_instance) == StopDecision::AlreadySatisfied,
        state != DataPlaneState::Unconfigured && state != DataPlaneState::Stopping && !active_instance
            ==> spec_stop_decision(state, active_instance) == StopDecision::Local,
        state != DataPlaneState::Unconfigured && state != DataPlaneState::Stopping && active_instance
            ==> spec_stop_decision(state, active_instance) == StopDecision::Begin,
{
}

/// A restart without an instance is a start; a restart of the revision being
/// brought up is already satisfied; during a stop it waits; otherwise the
/// adapter is asked to restart its instance.
pub proof fn law_restart_decisions(state: DataPlaneState, same_revision: bool, active_instance: bool)
    ensures
        (state == DataPlaneState::Unconfigured || !active_instance) ==> spec_restart_decision(
            state,
            same_revision,
            active_instance,
        ) == RestartDecision::Start,
        active_instance && same_revision && (state == DataPlaneState::Validating || state
            == DataPlaneState::Starting || state == DataPlaneState::Rollback) ==> spec_restart_decision(
            state,
            same_revision,
            active_instance,
        ) == RestartDecision::AlreadySatisfied,
        active_instance && state == DataPlaneState::Stopping ==> spec_restart_decision(
            state,
            same_revision,
            active_instance,
        ) == RestartDecision::InProgress,
        active_instance && (state == DataPlaneState::Online || state == DataPlaneState::Failed
            || state == DataPlaneState::PermissionRequired) ==> spec_restart_decision(
            state,
            same_revision,
            active_instance,
        ) == RestartDecision::Begin,
{
}

/// How a snapshot is taken: the first one is restored; within the current
/// instance an older sequence is stale, the same sequence with the same state
/// and activity a duplicate and with another one an equivocation, and a newer
/// one advances, unless an operation error is pending, which restores it;
/// an older instance is always stale.
pub proof fn law_snapshot_verdicts(cursor: AdapterCursor, snapshot: AdapterSnapshot, allow_new_instance: bool)
    ensures
        !cursor.initialized ==> spec_snapshot_verdict(cursor, snapshot, allow_new_instance)
            == SnapshotVerdict::Restore,
        cursor.initialized && snapshot.spec_instance_id() < cursor.instance_id
            ==> spec_snapshot_verdict(cursor, snapshot, allow_new_instance)
            == SnapshotVerdict::StaleInstance,
        cursor.initialized && snapshot.spec_instance_id() == cursor.instance_id
            && snapshot.spec_sequence() < cursor.last_sequence ==> spec_snapshot_verdict(
            cursor,
            snapshot,
            allow_new_instance,
        ) == SnapshotVerdict::StaleSequence,
        cursor.initialized && snapshot.spec_instance_id() == cursor.instance_id
            && snapshot.spec_sequence() >= cursor.last_sequence && cursor.operation_error_override
            ==> spec_snapshot_verdict(cursor, snapshot, allow_new_instance)
            == SnapshotVerdict::Restore,
        cursor.initialized && !cursor.operation_error_override && snapshot.spec_instance_id()
            == cursor.instance_id && snapshot.spec_sequence() == cursor.last_sequence
            ==> spec_snapshot_verdict(cursor, snapshot, allow_new_instance) == (if snapshot.spec_state()
            == cursor.state && snapshot.spec_active_instance() == cursor.active_instance {
            SnapshotVerdict::Duplicate
        } else {
            SnapshotVerdict::Equivocation
        }),
        cursor.initialized && !cursor.operation_error_override && snapshot.spec_instance_id()
            == cursor.instance_id && snapshot.spec_sequence() > cursor.last_sequence
            ==> spec_snapshot_verdict(cursor, snapshot, allow_new_instance)
            == SnapshotVerdict::Advance,
        cursor.initialized && snapshot.spec_instance_id() > cursor.instance_id
            ==> spec_snapshot_verdict(cursor, snapshot, allow_new_instance) == (if allow_new_instance {
            SnapshotVerdict::Advance
        } else {
            SnapshotVerdict::StaleInstance
        }),
{
}

} // verus!
