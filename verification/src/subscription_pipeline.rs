//! Applies a sanitized subscription as the next data-plane revision: staged
//! next to the running one, health-checked, then given system ownership, with
//! the revision ledger recording every step so that an interrupted switch can
//! be settled later.
use vstd::prelude::*;
use crate::vpn::{ConfigurationRevision, PlatformVpnError};
use crate::persistence::{
    DataPlaneRevisionStorage,
    DataPlaneRevisionLedger,
    PersistenceError,
    PersistenceUpdateOutcome,
    RevisionLedgerState,
    revision_value,
};
use crate::data_plane_nodes::{NodeRuntimeError, SelectorCatalog};
use crate::data_plane_config::SanitizedDataPlaneConfig;

verus! {

#[derive(Debug, Clone, Copy, PartialEq, Eq, Structural)]
pub enum DataPlaneHealthCheck {
    CoreReady,
    TargetOutboundReachable,
    BootstrapDnsIndependent,
}

pub open spec fn spec_health_check_name(check: DataPlaneHealthCheck) -> Seq<char> {
    match check {
        DataPlaneHealthCheck::CoreReady => "candidate-core-not-ready"@,
        DataPlaneHealthCheck::TargetOutboundReachable => "candidate-outbound-unreachable"@,
        DataPlaneHealthCheck::BootstrapDnsIndependent => "candidate-dns-bootstrap-loop"@,
    }
}

impl DataPlaneHealthCheck {
    pub fn as_str(self) -> (name: &'static str)
        ensures
            name@ == spec_health_check_name(self),
    {
        match self {
            DataPlaneHealthCheck::CoreReady => "candidate-core-not-ready",
            DataPlaneHealthCheck::TargetOutboundReachable => "candidate-outbound-unreachable",
            DataPlaneHealthCheck::BootstrapDnsIndependent => "candidate-dns-bootstrap-loop",
        }
    }
}

/// What a probe of a staged or active revision found.
#[derive(Debug, Clone, Copy, PartialEq, Eq, Structural)]
pub struct DataPlaneCandidateHealth {
    core_ready: bool,
    target_outbound_reachable: bool,
    bootstrap_dns_independent: bool,
}

/// The first check, in the order core, outbound, DNS, that a probe failed.
pub open spec fn spec_failed_check(core_ready: bool, outbound: bool, dns: bool) -> Option<
    DataPlaneHealthCheck,
> {
    if !core_ready {
        Some(DataPlaneHealthCheck::CoreReady)
    } else if !outbound {
        Some(DataPlaneHealthCheck::TargetOutboundReachable)
    } else if !dns {
        Some(DataPlaneHealthCheck::BootstrapDnsIndependent)
    } else {
        None
    }
}

impl DataPlaneCandidateHealth {
    pub closed spec fn spec_core_ready(self) -> bool {
        self.core_ready
    }

    pub closed spec fn spec_target_outbound_reachable(self) -> bool {
        self.target_outbound_reachable
    }

    pub closed spec fn spec_bootstrap_dns_independent(self) -> bool {
        self.bootstrap_dns_independent
    }

    pub open spec fn spec_failed(self) -> Option<DataPlaneHealthCheck> {
        spec_failed_check(
            self.spec_core_ready(),
            self.spec_target_outbound_reachable(),
            self.spec_bootstrap_dns_independent(),
        )
    }

    pub fn new(core_ready: bool, target_outbound_reachable: bool, bootstrap_dns_independent: bool) -> (r:
        Self)
        ensures
            r.spec_core_ready() == core_ready,
            r.spec_target_outbound_reachable() == target_outbound_reachable,
            r.spec_bootstrap_dns_independent() == bootstrap_dns_independent,
    {
        DataPlaneCandidateHealth { core_ready, target_outbound_reachable, bootstrap_dns_independent }
    }

    /// A probe that passed every check.
    pub fn ready() -> (r: Self)
        ensures
            r.spec_core_ready(),
            r.spec_target_outbound_reachable(),
            r.spec_bootstrap_dns_independent(),
    {
        Self::new(true, true, true)
    }

    pub fn core_ready(self) -> (r: bool)
        ensures
            r == self.spec_core_ready(),
    {
        self.core_ready
    }

    pub fn target_outbound_reachable(self) -> (r: bool)
        ensures
            r == self.spec_target_outbound_reachable(),
    {
        self.target_outbound_reachable
    }

    pub fn bootstrap_dns_independent(self) -> (r: bool)
        ensures
            r == self.spec_bootstrap_dns_independent(),
    {
        self.bootstrap_dns_independent
    }

    pub fn failed_check(self) -> (r: Option<DataPlaneHealthCheck>)
        ensures
            r == self.spec_failed(),
    {
        if !self.core_ready {
            Some(DataPlaneHealthCheck::CoreReady)
        } else if !self.target_outbound_reachable {
            Some(DataPlaneHealthCheck::TargetOutboundReachable)
        } else if !self.bootstrap_dns_independent {
            Some(DataPlaneHealthCheck::BootstrapDnsIndependent)
        } else {
            None
        }
    }
}

#[derive(Debug, Clone, Copy, PartialEq, Eq, Structural)]
pub enum SubscriptionPipelineError {
    InvalidCandidate,
    OperationInProgress,
    HealthCheckFailed(DataPlaneHealthCheck),
    Persistence(PersistenceError),
    Backend(PlatformVpnError),
    RecoveryRequired,
}

pub open spec fn spec_pipeline_error_name(error: SubscriptionPipelineError) -> Seq<char> {
    match error {
        SubscriptionPipelineError::InvalidCandidate => "subscription-candidate-invalid"@,
        SubscriptionPipelineError::OperationInProgress => "subscription-operation-in-progress"@,
        SubscriptionPipelineError::HealthCheckFailed(check) => spec_health_check_name(check),
        SubscriptionPipelineError::Persistence(_) => "subscription-persistence-failed"@,
        SubscriptionPipelineError::Backend(_) => "subscription-backend-failed"@,
        SubscriptionPipelineError::RecoveryRequired => "subscription-recovery-required"@,
    }
}

impl SubscriptionPipelineError {
    pub fn as_str(self) -> (name: &'static str)
        ensures
            name@ == spec_pipeline_error_name(self),
    {
        match self {
            SubscriptionPipelineError::InvalidCandidate => "subscription-candidate-invalid",
            SubscriptionPipelineError::OperationInProgress => "subscription-operation-in-progress",
            SubscriptionPipelineError::HealthCheckFailed(check) => check.as_str(),
            SubscriptionPipelineError::Persistence(_) => "subscription-persistence-failed",
            SubscriptionPipelineError::Backend(_) => "subscription-backend-failed",
            SubscriptionPipelineError::RecoveryRequired => "subscription-recovery-required",
        }
    }
}

#[derive(Debug, Clone, Copy, PartialEq, Eq, Structural)]
pub enum SubscriptionNodeRuntimeStatus {
    Installed,
    Unconfigured,
    Unavailable,
}

#[derive(Debug, Clone, Copy, PartialEq, Eq, Structural)]
pub enum SubscriptionPipelineOutcome {
    Activated(SubscriptionNodeRuntimeStatus),
    AlreadyActive(SubscriptionNodeRuntimeStatus),
}

#[derive(Debug, Clone, Copy, PartialEq, Eq, Structural)]
pub enum SubscriptionRecoveryOutcome {
    Consistent,
    CandidateCommitted,
    CandidateRejected,
    CurrentRestored,
    PreviousRestored,
    UnexpectedActiveCleared,
}

/// The data plane that runs revisions. Implemented by each platform, which
/// says, through the relations below, which answers its operations may give;
/// this crate relies on nothing else of an implementation.
pub trait SubscriptionDataPlaneBackend: Send + Sync {
    /// `answer` is one that staging `config` as `revision` may give.
    spec fn stages(
        &self,
        revision: u64,
        config: SanitizedDataPlaneConfig,
        answer: Result<(), PlatformVpnError>,
    ) -> bool;

    /// `answer` is one that starting the staged `revision` may give.
    spec fn starts(&self, revision: u64, answer: Result<(), PlatformVpnError>) -> bool;

    /// `answer` is one that probing `revision` may give.
    spec fn probes(&self, revision: u64, answer: Result<DataPlaneCandidateHealth, PlatformVpnError>) -> bool;

    /// `answer` is one that handing system ownership to `revision` may give.
    spec fn activates(&self, revision: u64, answer: Result<(), PlatformVpnError>) -> bool;

    /// `answer` is one that asking for the active revision may give.
    spec fn reports_active(&self, answer: Result<Option<u64>, PlatformVpnError>) -> bool;

    /// `answer` is one that restoring `revision` (clearing, for `None`) may give.
    spec fn restores(&self, revision: Option<u64>, answer: Result<(), PlatformVpnError>) -> bool;

    /// `answer` is one that discarding the candidate `revision` may give.
    spec fn discards(&self, revision: u64, answer: Result<(), PlatformVpnError>) -> bool;

    /// Persist the already-sanitized candidate without changing system ownership.
    fn stage_candidate(
        &self,
        revision: ConfigurationRevision,
        config: &SanitizedDataPlaneConfig,
    ) -> (r: Result<(), PlatformVpnError>)
        ensures
            self.stages(revision.value(), *config, r),
    ;

    /// Start the candidate in a bypass slot that cannot own system proxy, TUN, routes, or DNS.
    fn start_candidate(&self, revision: ConfigurationRevision) -> (r: Result<(), PlatformVpnError>)
        ensures
            self.starts(revision.value(), r),
    ;

    /// Probe a staged or active revision without exposing node details to callers.
    fn revision_health(&self, revision: ConfigurationRevision) -> (r: Result<
        DataPlaneCandidateHealth,
        PlatformVpnError,
    >)
        ensures
            self.probes(revision.value(), r),
    ;

    /// Transfer system ownership atomically from the current slot to this candidate.
    fn activate_candidate(&self, revision: ConfigurationRevision) -> (r: Result<(), PlatformVpnError>)
        ensures
            self.activates(revision.value(), r),
    ;

    fn active_revision(&self) -> (r: Result<Option<ConfigurationRevision>, PlatformVpnError>)
        ensures
            self.reports_active(active_answer(r)),
    ;

    /// Restore one complete committed revision, or clear all Data Plane ownership for None.
    fn restore_active(&self, revision: Option<ConfigurationRevision>) -> (r: Result<
        (),
        PlatformVpnError,
    >)
        ensures
            self.restores(revision_value(revision), r),
    ;

    /// Stop and remove the bypass slot. This operation must be idempotent.
    fn discard_candidate(&self, revision: ConfigurationRevision) -> (r: Result<(), PlatformVpnError>)
        ensures
            self.discards(revision.value(), r),
    ;
}

/// What asking for the active revision answered, taken by the revision's value.
pub open spec fn active_answer(r: Result<Option<ConfigurationRevision>, PlatformVpnError>) -> Result<
    Option<u64>,
    PlatformVpnError,
> {
    match r {
        Ok(active) => Ok(revision_value(active)),
        Err(e) => Err(e),
    }
}

/// A successful answer without a value is `Ok(())`.
pub proof fn lemma_unit_ok(answer: Result<(), PlatformVpnError>)
    ensures
        answer is Ok ==> answer == Ok::<(), PlatformVpnError>(()),
{
    match answer {
        Ok(u) => {
            let v: () = ();
            assert(u == v);
        },
        Err(_) => {},
    }
}

/// A probe of `revision` found it healthy.
pub open spec fn backend_healthy<B: SubscriptionDataPlaneBackend>(backend: B, revision: u64) -> bool {
    exists|health: DataPlaneCandidateHealth|
        #[trigger] backend.probes(revision, Ok(health)) && health.spec_failed() is None
}

/// `revision` (nothing, for `None`) was restored and read back as the active one.
pub open spec fn backend_restored<B: SubscriptionDataPlaneBackend>(backend: B, revision: Option<u64>) -> bool {
    &&& backend.restores(revision, Ok(()))
    &&& backend.reports_active(Ok(revision))
}

/// The node runtime of the active revision; implemented by each platform.
pub trait ActiveDataPlaneNodeRuntime: Send + Sync {
    fn install_active(&self, revision: ConfigurationRevision, catalog: SelectorCatalog) -> Result<
        SubscriptionNodeRuntimeStatus,
        NodeRuntimeError,
    >;

    fn clear_active(&self) -> Result<(), NodeRuntimeError>;

    fn active_revision(&self) -> Result<Option<ConfigurationRevision>, NodeRuntimeError>;
}

/// The node runtime of a platform that has none.
#[derive(Debug, Clone, Copy, Default)]
pub struct UnconfiguredDataPlaneNodeRuntime;

impl ActiveDataPlaneNodeRuntime for UnconfiguredDataPlaneNodeRuntime {
    fn install_active(&self, revision: ConfigurationRevision, catalog: SelectorCatalog) -> Result<
        SubscriptionNodeRuntimeStatus,
        NodeRuntimeError,
    > {
        Ok(SubscriptionNodeRuntimeStatus::Unconfigured)
    }

    fn clear_active(&self) -> Result<(), NodeRuntimeError> {
        Ok(())
    }

    fn active_revision(&self) -> Result<Option<ConfigurationRevision>, NodeRuntimeError> {
        Ok(None)
    }
}

/// Whether two optional revisions are the same.
pub fn same_revision(a: Option<ConfigurationRevision>, b: Option<ConfigurationRevision>) -> (r:
    bool)
    ensures
        r == (revision_value(a) == revision_value(b)),
{
    match (a, b) {
        (None, None) => true,
        (Some(x), Some(y)) => x.get() == y.get(),
        _ => false,
    }
}

/// What `apply` does with a candidate before it touches storage.
#[derive(Debug, Clone, Copy, PartialEq, Eq, Structural)]
pub enum ApplyAdmission {
    /// The revision is already the committed one.
    AlreadyActive,
    /// A switch is pending, or the configuration is empty or already wiped.
    Rejected,
    /// The candidate goes on to be staged.
    Stage,
}

pub open spec fn spec_apply_admission(
    ledger: RevisionLedgerState,
    revision: u64,
    cleared: bool,
    node_count: nat,
    selector_count: nat,
) -> ApplyAdmission {
    if ledger.current == Some(revision) {
        ApplyAdmission::AlreadyActive
    } else if ledger.candidate is Some || cleared || node_count == 0 || selector_count == 0 {
        ApplyAdmission::Rejected
    } else {
        ApplyAdmission::Stage
    }
}

/// Decides, from the loaded ledger, whether a candidate is applied.
pub fn apply_admission(
    ledger: &DataPlaneRevisionLedger,
    revision: ConfigurationRevision,
    config: &SanitizedDataPlaneConfig,
) -> (r: ApplyAdmission)
    ensures
        r == spec_apply_admission(
            ledger@,
            revision.value(),
            config.spec_json().len() == 0,
            config.spec_counts().0 as nat,
            config.spec_counts().1 as nat,
        ),
{
    if same_revision(ledger.current_revision(), Some(revision)) {
        ApplyAdmission::AlreadyActive
    } else if ledger.candidate_revision().is_some() || config.is_cleared() || config.node_count()
        == 0 || config.selector_count() == 0 {
        ApplyAdmission::Rejected
    } else {
        ApplyAdmission::Stage
    }
}

/// The running revision that the ledger does not know, which recovery discards.
pub open spec fn spec_untracked(ledger: RevisionLedgerState, active: Option<u64>) -> Option<u64> {
    match active {
        Some(a) => if ledger.current != Some(a) && ledger.previous != Some(a) && ledger.candidate
            != Some(a) {
            Some(a)
        } else {
            None
        },
        None => None,
    }
}

pub fn untracked_revision(ledger: &DataPlaneRevisionLedger, active: Option<ConfigurationRevision>) -> (r:
    Option<ConfigurationRevision>)
    ensures
        revision_value(r) == spec_untracked(ledger@, revision_value(active)),
{
    match active {
        Some(a) => {
            if !same_revision(Some(a), ledger.current_revision()) && !same_revision(
                Some(a),
                ledger.previous_revision(),
            ) && !same_revision(Some(a), ledger.candidate_revision()) {
                Some(a)
            } else {
                None
            }
        },
        None => None,
    }
}

/// The answer to a health probe: the first failed check as an error.
pub fn health_verdict(health: DataPlaneCandidateHealth) -> (r: Result<(), SubscriptionPipelineError>)
    ensures
        match health.spec_failed() {
            Some(check) => r == Err::<(), SubscriptionPipelineError>(
                SubscriptionPipelineError::HealthCheckFailed(check),
            ),
            None => r is Ok,
        },
{
    match health.failed_check() {
        Some(check) => Err(SubscriptionPipelineError::HealthCheckFailed(check)),
        None => Ok(()),
    }
}

/// The answer to a read-back after a restore or an activation: the backend
/// must report exactly the expected revision.
pub fn verify_active(expected: Option<ConfigurationRevision>, actual: Option<ConfigurationRevision>) -> (r:
    Result<(), SubscriptionPipelineError>)
    ensures
        revision_value(expected) == revision_value(actual) ==> r is Ok,
        revision_value(expected) != revision_value(actual) ==> r == Err::<
            (),
            SubscriptionPipelineError,
        >(SubscriptionPipelineError::RecoveryRequired),
{
    if same_revision(expected, actual) {
        Ok(())
    } else {
        Err(SubscriptionPipelineError::RecoveryRequired)
    }
}

/// The errors settling the data plane can end in: it never reports a failed
/// health check or an invalid candidate.
pub open spec fn is_recovery_error(e: SubscriptionPipelineError) -> bool {
    e is Persistence || e is Backend || e == SubscriptionPipelineError::RecoveryRequired
}

/// Applies subscriptions one at a time and settles interrupted switches.
pub struct SubscriptionPipeline<S, B, N> {
    revisions: S,
    backend: B,
    node_runtime: N,
    operation_in_flight: std::sync::atomic::AtomicBool,
}

impl<S: DataPlaneRevisionStorage, B: SubscriptionDataPlaneBackend> SubscriptionPipeline<
    S,
    B,
    UnconfiguredDataPlaneNodeRuntime,
> {
    pub fn new(revisions: S, backend: B) -> (p: Self)
        ensures
            p.spec_revisions() == revisions,
            p.spec_backend() == backend,
            p.spec_node_runtime() == UnconfiguredDataPlaneNodeRuntime,
    {
        Self::with_node_runtime(revisions, backend, UnconfiguredDataPlaneNodeRuntime)
    }
}

impl<
    S: DataPlaneRevisionStorage,
    B: SubscriptionDataPlaneBackend,
    N: ActiveDataPlaneNodeRuntime,
> SubscriptionPipeline<S, B, N> {
    /// The revision storage the pipeline keeps its ledger in.
    pub closed spec fn spec_revisions(&self) -> S {
        self.revisions
    }

    /// The data plane the pipeline drives.
    pub closed spec fn spec_backend(&self) -> B {
        self.backend
    }

    /// The node runtime the pipeline installs catalogs into.
    pub closed spec fn spec_node_runtime(&self) -> N {
        self.node_runtime
    }

    pub fn with_node_runtime(revisions: S, backend: B, node_runtime: N) -> (p: Self)
        ensures
            p.spec_revisions() == revisions,
            p.spec_backend() == backend,
            p.spec_node_runtime() == node_runtime,
    {
        SubscriptionPipeline {
            revisions,
            backend,
            node_runtime,
            operation_in_flight: std::sync::atomic::AtomicBool::new(false),
        }
    }

    /// The candidate was rolled back: `previous` was restored and read back as
    /// the active revision, the candidate discarded and rejected in the ledger.
    pub open spec fn abandoned(&self, candidate: u64, previous: Option<u64>) -> bool {
        &&& backend_restored(self.spec_backend(), previous)
        &&& self.spec_backend().discards(candidate, Ok(()))
        &&& exists|o: Option<ConfigurationRevision>|
            #[trigger] self.spec_revisions().rejects(candidate, Ok(o))
    }

    /// The staged `revision` was started, passed its health probe, was given
    /// system ownership and read back as the active revision.
    pub open spec fn activated(&self, revision: u64) -> bool {
        &&& self.spec_backend().starts(revision, Ok(()))
        &&& backend_healthy(self.spec_backend(), revision)
        &&& self.spec_backend().activates(revision, Ok(()))
        &&& self.spec_backend().reports_active(Ok(Some(revision)))
    }

    /// Reading the ledger may give `ledger`, on which `apply_admission` decides
    /// `admission` for `revision` with `config`.
    pub open spec fn admits(
        &self,
        ledger: RevisionLedgerState,
        revision: u64,
        config: SanitizedDataPlaneConfig,
        admission: ApplyAdmission,
    ) -> bool {
        &&& self.spec_revisions().reads_ledger(Ok(ledger))
        &&& spec_apply_admission(
            ledger,
            revision,
            config.spec_json().len() == 0,
            config.spec_counts().0 as nat,
            config.spec_counts().1 as nat,
        ) == admission
    }

    /// `revision` was staged in the ledger as the candidate.
    pub open spec fn ledger_staged(&self, revision: u64) -> bool {
        exists|o: PersistenceUpdateOutcome| #[trigger] self.spec_revisions().stages(revision, Ok(o))
    }

    /// `revision` was committed in the ledger as the current revision.
    pub open spec fn ledger_committed(&self, revision: u64) -> bool {
        exists|o: PersistenceUpdateOutcome| #[trigger] self.spec_revisions().commits(revision, Ok(o))
    }

    /// What applying `revision` with `config` may end in, once the operation
    /// was admitted to run: an activation stages the candidate in the ledger
    /// and the data plane, starts, probes and activates it, and commits it; an
    /// invalid candidate or an already active revision is what the ledger
    /// decided; a failed health check comes only after the candidate was
    /// rolled back to the ledger's current revision.
    pub open spec fn apply_outcome(
        &self,
        revision: u64,
        config: SanitizedDataPlaneConfig,
        r: Result<SubscriptionPipelineOutcome, SubscriptionPipelineError>,
    ) -> bool {
        &&& r matches Ok(SubscriptionPipelineOutcome::Activated(_)) ==> {
            &&& exists|l: RevisionLedgerState| #[trigger]
                self.admits(l, revision, config, ApplyAdmission::Stage)
            &&& self.ledger_staged(revision)
            &&& self.spec_backend().stages(revision, config, Ok(()))
            &&& self.activated(revision)
            &&& self.ledger_committed(revision)
        }
        &&& r matches Ok(SubscriptionPipelineOutcome::AlreadyActive(_)) ==> exists|
            l: RevisionLedgerState,
        | #[trigger] self.admits(l, revision, config, ApplyAdmission::AlreadyActive)
        &&& r == Err::<SubscriptionPipelineOutcome, SubscriptionPipelineError>(
            SubscriptionPipelineError::InvalidCandidate,
        ) ==> exists|l: RevisionLedgerState| #[trigger]
            self.admits(l, revision, config, ApplyAdmission::Rejected)
        &&& r matches Err(SubscriptionPipelineError::HealthCheckFailed(_)) ==> exists|
            l: RevisionLedgerState,
        | #[trigger] self.admits(l, revision, config, ApplyAdmission::Stage) && self.abandoned(
            revision,
            l.current,
        )
    }

    /// The rollback to `revision` was committed in the ledger.
    pub open spec fn ledger_rolled_back(&self, revision: u64) -> bool {
        exists|o: PersistenceUpdateOutcome|
            #[trigger] self.spec_revisions().rolls_back(revision, Ok(o))
    }

    /// What settling the data plane may end in, by the ledger it read and the
    /// active revision the backend reported: a pending candidate that runs
    /// healthy is committed, otherwise rolled back; without one, a data plane
    /// that runs the current revision is left as it is, one that runs the
    /// healthy previous revision has the rollback committed, and otherwise the
    /// current revision, then the previous one, is restored, or with no
    /// current revision the data plane is cleared.
    pub open spec fn recovery_outcome(
        &self,
        r: Result<SubscriptionRecoveryOutcome, SubscriptionPipelineError>,
    ) -> bool {
        &&& r == Ok::<SubscriptionRecoveryOutcome, SubscriptionPipelineError>(
            SubscriptionRecoveryOutcome::Consistent,
        ) ==> exists|l: RevisionLedgerState|
            #[trigger] self.spec_revisions().reads_ledger(Ok(l)) && l.candidate is None
                && self.spec_backend().reports_active(Ok(l.current))
        &&& r == Ok::<SubscriptionRecoveryOutcome, SubscriptionPipelineError>(
            SubscriptionRecoveryOutcome::CandidateCommitted,
        ) ==> exists|l: RevisionLedgerState|
            #[trigger] self.spec_revisions().reads_ledger(Ok(l)) && l.candidate is Some
                && self.spec_backend().reports_active(Ok(l.candidate)) && backend_healthy(
                self.spec_backend(),
                l.candidate->0,
            ) && self.ledger_committed(l.candidate->0)
        &&& r == Ok::<SubscriptionRecoveryOutcome, SubscriptionPipelineError>(
            SubscriptionRecoveryOutcome::CandidateRejected,
        ) ==> exists|l: RevisionLedgerState|
            #[trigger] self.spec_revisions().reads_ledger(Ok(l)) && l.candidate is Some
                && self.abandoned(l.candidate->0, l.current)
        &&& r == Ok::<SubscriptionRecoveryOutcome, SubscriptionPipelineError>(
            SubscriptionRecoveryOutcome::PreviousRestored,
        ) ==> exists|l: RevisionLedgerState|
            #[trigger] self.spec_revisions().reads_ledger(Ok(l)) && l.candidate is None
                && l.previous is Some && self.spec_backend().reports_active(Ok(l.previous))
                && backend_healthy(self.spec_backend(), l.previous->0) && self.ledger_rolled_back(
                l.previous->0,
            )
        &&& r == Ok::<SubscriptionRecoveryOutcome, SubscriptionPipelineError>(
            SubscriptionRecoveryOutcome::CurrentRestored,
        ) ==> exists|l: RevisionLedgerState|
            #[trigger] self.spec_revisions().reads_ledger(Ok(l)) && l.candidate is None
                && l.current is Some && backend_restored(self.spec_backend(), l.current)
                && backend_healthy(self.spec_backend(), l.current->0)
        &&& r == Ok::<SubscriptionRecoveryOutcome, SubscriptionPipelineError>(
            SubscriptionRecoveryOutcome::UnexpectedActiveCleared,
        ) ==> exists|l: RevisionLedgerState|
            #[trigger] self.spec_revisions().reads_ledger(Ok(l)) && l.candidate is None
                && l.current is None && backend_restored(self.spec_backend(), None)
    }

    /// The ledger, once settled, held a current revision and `previous` as the
    /// previous one; `previous` was restored, read back as the active revision,
    /// and the rollback committed.
    pub open spec fn rolled_back_to(&self, previous: u64) -> bool {
        &&& exists|l: RevisionLedgerState|
            #[trigger] self.spec_revisions().reads_ledger(Ok(l)) && l.current is Some && l.previous
                == Some(previous)
        &&& backend_restored(self.spec_backend(), Some(previous))
        &&& self.ledger_rolled_back(previous)
    }

    /// An operation on the revision ledger answered `Err(e)`.
    pub open spec fn ledger_failed(&self, e: PersistenceError) -> bool {
        ||| self.spec_revisions().reads_ledger(Err(e))
        ||| exists|v: u64| #[trigger] self.spec_revisions().stages(v, Err(e))
        ||| exists|v: u64| #[trigger] self.spec_revisions().commits(v, Err(e))
        ||| exists|v: u64| #[trigger] self.spec_revisions().rejects(v, Err(e))
        ||| exists|v: u64| #[trigger] self.spec_revisions().rolls_back(v, Err(e))
    }

    /// An operation of the data plane answered `Err(e)`.
    pub open spec fn data_plane_failed(&self, e: PlatformVpnError) -> bool {
        ||| exists|v: u64, c: SanitizedDataPlaneConfig| #[trigger] self.spec_backend().stages(v, c, Err(e))
        ||| exists|v: u64| #[trigger] self.spec_backend().starts(v, Err(e))
        ||| exists|v: u64| #[trigger] self.spec_backend().probes(v, Err(e))
        ||| exists|v: u64| #[trigger] self.spec_backend().activates(v, Err(e))
        ||| self.spec_backend().reports_active(Err(e))
        ||| exists|v: Option<u64>| #[trigger] self.spec_backend().restores(v, Err(e))
        ||| exists|v: u64| #[trigger] self.spec_backend().discards(v, Err(e))
    }

    /// A ledger or data-plane error is the answer of one of their operations.
    pub open spec fn fails_with(&self, e: SubscriptionPipelineError) -> bool {
        match e {
            SubscriptionPipelineError::Persistence(p) => self.ledger_failed(p),
            SubscriptionPipelineError::Backend(b) => self.data_plane_failed(b),
            _ => true,
        }
    }

    /// The ledger was read.
    pub open spec fn ledger_read(&self) -> bool {
        exists|l: RevisionLedgerState| #[trigger] self.spec_revisions().reads_ledger(Ok(l))
    }

    /// How an operation that starts by settling the data plane may fail: a
    /// ledger or data-plane error is the answer of one of their operations,
    /// and `RecoveryRequired` comes only once the ledger was read.
    pub open spec fn settled_failure(&self, e: SubscriptionPipelineError) -> bool {
        &&& self.fails_with(e)
        &&& e == SubscriptionPipelineError::RecoveryRequired ==> self.ledger_read()
    }

    fn backend_error(error: PlatformVpnError) -> (e: SubscriptionPipelineError)
        ensures
            e == SubscriptionPipelineError::Backend(error),
    {
        SubscriptionPipelineError::Backend(error)
    }

    fn persistence_error(error: PersistenceError) -> (e: SubscriptionPipelineError)
        ensures
            e == SubscriptionPipelineError::Persistence(error),
    {
        SubscriptionPipelineError::Persistence(error)
    }

    fn load_ledger(&self) -> (r: Result<DataPlaneRevisionLedger, SubscriptionPipelineError>)
        ensures
            match r {
                Ok(ledger) => self.spec_revisions().reads_ledger(Ok(ledger@)),
                Err(e) => e matches SubscriptionPipelineError::Persistence(p)
                    && self.spec_revisions().reads_ledger(Err(p)),
            },
            r matches Err(e) ==> self.fails_with(e),
    {
        match self.revisions.load_revision_ledger() {
            Ok(ledger) => Ok(ledger),
            Err(error) => Err(Self::persistence_error(error)),
        }
    }

    fn backend_active(&self) -> (r: Result<Option<ConfigurationRevision>, SubscriptionPipelineError>)
        ensures
            match r {
                Ok(active) => self.spec_backend().reports_active(Ok(revision_value(active))),
                Err(e) => e matches SubscriptionPipelineError::Backend(b)
                    && self.spec_backend().reports_active(Err(b)),
            },
            r matches Err(e) ==> self.fails_with(e),
    {
        match self.backend.active_revision() {
            Ok(active) => Ok(active),
            Err(error) => Err(Self::backend_error(error)),
        }
    }

    fn require_healthy(&self, revision: ConfigurationRevision) -> (r: Result<
        (),
        SubscriptionPipelineError,
    >)
        ensures
            r matches Err(e) ==> e is Backend || e is HealthCheckFailed,
            r is Ok ==> backend_healthy(self.spec_backend(), revision.value()),
            r matches Err(SubscriptionPipelineError::HealthCheckFailed(check)) ==> exists|
                health: DataPlaneCandidateHealth,
            |
                #[trigger] self.spec_backend().probes(revision.value(), Ok(health))
                    && health.spec_failed() == Some(check),
            r matches Err(e) ==> self.fails_with(e),
    {
        match self.backend.revision_health(revision) {
            Ok(health) => {
                assert(self.spec_backend().probes(revision.value(), Ok(health)));
                health_verdict(health)
            },
            Err(error) => Err(Self::backend_error(error)),
        }
    }

    fn restore_and_verify(&self, revision: Option<ConfigurationRevision>) -> (r: Result<
        (),
        SubscriptionPipelineError,
    >)
        ensures
            r matches Err(e) ==> is_recovery_error(e),
            r is Ok ==> backend_restored(self.spec_backend(), revision_value(revision)),
            r matches Err(e) ==> self.fails_with(e),
    {
        let restored = self.backend.restore_active(revision);
        proof {
            lemma_unit_ok(restored);
        }
        if let Err(error) = restored {
            return Err(Self::backend_error(error));
        }
        let active = self.backend_active()?;
        verify_active(revision, active)
    }

    fn restore_and_reject(
        &self,
        candidate: ConfigurationRevision,
        previous: Option<ConfigurationRevision>,
    ) -> (r: Result<(), SubscriptionPipelineError>)
        ensures
            r matches Err(e) ==> is_recovery_error(e),
            r is Ok ==> self.abandoned(candidate.value(), revision_value(previous)),
            r matches Err(e) ==> self.fails_with(e),
    {
        self.restore_and_verify(previous)?;
        let discarded = self.backend.discard_candidate(candidate);
        proof {
            lemma_unit_ok(discarded);
        }
        if let Err(error) = discarded {
            return Err(Self::backend_error(error));
        }
        match self.revisions.reject_revision_candidate(candidate) {
            Ok(rejected) => {
                assert(self.spec_revisions().rejects(candidate.value(), Ok(rejected)));
            },
            Err(error) => return Err(Self::persistence_error(error)),
        }
        Ok(())
    }

    /// Discards the running revision that the ledger does not know; where
    /// there is none, the backend is not asked.
    fn discard_untracked(
        &self,
        active: Option<ConfigurationRevision>,
        ledger: &DataPlaneRevisionLedger,
    ) -> (r: Result<(), SubscriptionPipelineError>)
        ensures
            r matches Err(e) ==> e is Backend,
            spec_untracked(ledger@, revision_value(active)) is None ==> r is Ok,
            r matches Err(e) ==> self.fails_with(e),
    {
        if let Some(untracked) = untracked_revision(ledger, active) {
            if let Err(error) = self.backend.discard_candidate(untracked) {
                return Err(Self::backend_error(error));
            }
        }
        Ok(())
    }

    fn clear_node_runtime(&self) -> (r: Result<(), SubscriptionPipelineError>)
        ensures
            r matches Err(e) ==> e == SubscriptionPipelineError::RecoveryRequired,
            r matches Err(e) ==> self.fails_with(e),
    {
        match self.node_runtime.clear_active() {
            Ok(()) => Ok(()),
            Err(_) => Err(SubscriptionPipelineError::RecoveryRequired),
        }
    }

    fn reconcile_node_runtime_revision(&self, expected: Option<ConfigurationRevision>) -> (r:
        Result<(), SubscriptionPipelineError>)
        ensures
            r matches Err(e) ==> e == SubscriptionPipelineError::RecoveryRequired,
            r matches Err(e) ==> self.fails_with(e),
    {
        match self.node_runtime.active_revision() {
            Ok(None) => Ok(()),
            Ok(actual) => if same_revision(actual, expected) {
                Ok(())
            } else {
                self.clear_node_runtime()
            },
            Err(_) => self.clear_node_runtime(),
        }
    }

    fn install_node_runtime(&self, revision: ConfigurationRevision, catalog: SelectorCatalog) -> (r:
        Result<SubscriptionNodeRuntimeStatus, SubscriptionPipelineError>)
        ensures
            r matches Err(e) ==> e == SubscriptionPipelineError::RecoveryRequired,
            r matches Err(e) ==> self.fails_with(e),
    {
        match self.node_runtime.install_active(revision, catalog) {
            Ok(status) => Ok(status),
            Err(_) => {
                self.clear_node_runtime()?;
                Ok(SubscriptionNodeRuntimeStatus::Unavailable)
            },
        }
    }

    fn commit_candidate(&self, revision: ConfigurationRevision) -> (r: Result<
        (),
        SubscriptionPipelineError,
    >)
        ensures
            r matches Err(e) ==> e is Persistence,
            r is Ok ==> exists|o: PersistenceUpdateOutcome|
                #[trigger] self.spec_revisions().commits(revision.value(), Ok(o)),
            r matches Err(e) ==> self.fails_with(e),
    {
        match self.revisions.commit_revision_candidate(revision) {
            Ok(outcome) => {
                assert(self.spec_revisions().commits(revision.value(), Ok(outcome)));
                Ok(())
            },
            Err(error) => Err(Self::persistence_error(error)),
        }
    }

    fn commit_rollback(&self, revision: ConfigurationRevision) -> (r: Result<
        (),
        SubscriptionPipelineError,
    >)
        ensures
            r matches Err(e) ==> e is Persistence,
            r is Ok ==> exists|o: PersistenceUpdateOutcome|
                #[trigger] self.spec_revisions().rolls_back(revision.value(), Ok(o)),
            r matches Err(e) ==> self.fails_with(e),
    {
        match self.revisions.commit_revision_rollback(revision) {
            Ok(outcome) => {
                assert(self.spec_revisions().rolls_back(revision.value(), Ok(outcome)));
                Ok(())
            },
            Err(error) => Err(Self::persistence_error(error)),
        }
    }

    fn recover_locked(&self) -> (r: Result<SubscriptionRecoveryOutcome, SubscriptionPipelineError>)
        ensures
            r matches Err(e) ==> is_recovery_error(e),
            self.recovery_outcome(r),
            r matches Err(e) ==> self.settled_failure(e),
    {
        let ledger = self.load_ledger()?;
        let active = self.backend_active()?;

        if let Some(candidate) = ledger.candidate_revision() {
            if same_revision(active, Some(candidate)) && self.require_healthy(candidate).is_ok() {
                self.commit_candidate(candidate)?;
                self.clear_node_runtime()?;
                return Ok(SubscriptionRecoveryOutcome::CandidateCommitted);
            }
            self.restore_and_reject(candidate, ledger.current_revision())?;
            self.discard_untracked(active, &ledger)?;
            self.reconcile_node_runtime_revision(ledger.current_revision())?;
            return Ok(SubscriptionRecoveryOutcome::CandidateRejected);
        }
        let current = ledger.current_revision();
        if same_revision(active, current) {
            self.reconcile_node_runtime_revision(current)?;
            return Ok(SubscriptionRecoveryOutcome::Consistent);
        }
        if let Some(previous) = ledger.previous_revision() {
            if same_revision(active, Some(previous)) && self.require_healthy(previous).is_ok() {
                self.commit_rollback(previous)?;
                self.clear_node_runtime()?;
                return Ok(SubscriptionRecoveryOutcome::PreviousRestored);
            }
        }
        if let Some(current) = current {
            if self.restore_and_verify(Some(current)).is_ok() && self.require_healthy(
                current,
            ).is_ok() {
                self.discard_untracked(active, &ledger)?;
                self.clear_node_runtime()?;
                return Ok(SubscriptionRecoveryOutcome::CurrentRestored);
            }
            if let Some(previous) = ledger.previous_revision() {
                if self.restore_and_verify(Some(previous)).is_ok() && self.require_healthy(
                    previous,
                ).is_ok() {
                    self.commit_rollback(previous)?;
                    self.discard_untracked(active, &ledger)?;
                    self.clear_node_runtime()?;
                    return Ok(SubscriptionRecoveryOutcome::PreviousRestored);
                }
            }
            self.restore_and_verify(None)?;
            self.clear_node_runtime()?;
            return Err(SubscriptionPipelineError::RecoveryRequired);
        }
        self.restore_and_verify(None)?;
        self.discard_untracked(active, &ledger)?;
        self.clear_node_runtime()?;
        Ok(SubscriptionRecoveryOutcome::UnexpectedActiveCleared)
    }

    fn prepare_and_activate(&self, revision: ConfigurationRevision) -> (r: Result<
        (),
        SubscriptionPipelineError,
    >)
        ensures
            r matches Err(e) ==> e is Backend || e is HealthCheckFailed || e
                == SubscriptionPipelineError::RecoveryRequired,
            r is Ok ==> self.activated(revision.value()),
            r matches Err(e) ==> self.fails_with(e),
    {
        let started = self.backend.start_candidate(revision);
        proof {
            lemma_unit_ok(started);
        }
        if let Err(error) = started {
            return Err(Self::backend_error(error));
        }
        self.require_healthy(revision)?;
        let activated = self.backend.activate_candidate(revision);
        proof {
            lemma_unit_ok(activated);
        }
        if let Err(error) = activated {
            return Err(Self::backend_error(error));
        }
        let active = self.backend_active()?;
        verify_active(Some(revision), active)
    }

    /// Rolls a failed candidate back; the original error stands when that
    /// worked, `RecoveryRequired` otherwise.
    fn abandon_candidate(
        &self,
        candidate: ConfigurationRevision,
        previous: Option<ConfigurationRevision>,
        error: SubscriptionPipelineError,
    ) -> (r: SubscriptionPipelineError)
        requires
            self.fails_with(error),
        ensures
            r == error || r == SubscriptionPipelineError::RecoveryRequired,
            self.fails_with(r),
            r != SubscriptionPipelineError::RecoveryRequired ==> self.abandoned(
                candidate.value(),
                revision_value(previous),
            ),
    {
        match self.restore_and_reject(candidate, previous) {
            Ok(()) => error,
            Err(_) => SubscriptionPipelineError::RecoveryRequired,
        }
    }

    fn apply_locked(&self, revision: ConfigurationRevision, config: &mut SanitizedDataPlaneConfig) -> (r:
        Result<SubscriptionPipelineOutcome, SubscriptionPipelineError>)
        ensures
            final(config).spec_json().len() == 0,
            r matches Err(e) ==> e != SubscriptionPipelineError::OperationInProgress,
            self.apply_outcome(revision.value(), *old(config), r),
            r matches Err(e) ==> self.settled_failure(e),
    {
        let ghost given = *config;
        if let Err(error) = self.recover_locked() {
            config.clear();
            return Err(error);
        }
        let ledger = match self.load_ledger() {
            Ok(ledger) => ledger,
            Err(error) => {
                config.clear();
                return Err(error);
            },
        };
        let ghost l = ledger@;
        let catalog = config.selector_catalog().clone();
        let admission = apply_admission(&ledger, revision, config);
        assert(self.admits(l, revision.value(), given, admission));
        match admission {
            ApplyAdmission::AlreadyActive => {
                config.clear();
                let status = self.install_node_runtime(revision, catalog)?;
                return Ok(SubscriptionPipelineOutcome::AlreadyActive(status));
            },
            ApplyAdmission::Rejected => {
                config.clear();
                return Err(SubscriptionPipelineError::InvalidCandidate);
            },
            ApplyAdmission::Stage => {},
        }
        match self.revisions.stage_revision_candidate(revision) {
            Ok(outcome) => {
                assert(self.spec_revisions().stages(revision.value(), Ok(outcome)));
            },
            Err(error) => {
                config.clear();
                return Err(Self::persistence_error(error));
            },
        }
        let previous = ledger.current_revision();
        let stage_result = self.backend.stage_candidate(revision, config);
        proof {
            lemma_unit_ok(stage_result);
        }
        config.clear();
        if let Err(error) = stage_result {
            return Err(self.abandon_candidate(revision, previous, Self::backend_error(error)));
        }
        if let Err(error) = self.prepare_and_activate(revision) {
            return Err(self.abandon_candidate(revision, previous, error));
        }
        if let Err(error) = self.commit_candidate(revision) {
            return Err(self.abandon_candidate(revision, previous, error));
        }
        let status = self.install_node_runtime(revision, catalog)?;
        Ok(SubscriptionPipelineOutcome::Activated(status))
    }

    /// Makes `revision` with `config` the active data plane: settles any
    /// interrupted switch first, refuses a candidate while another is pending
    /// or when the configuration is empty, and puts the previous revision
    /// back when staging, the health checks, the activation or the commit
    /// fails. The configuration's text is wiped in every case.
    pub fn apply(&self, revision: ConfigurationRevision, config: SanitizedDataPlaneConfig) -> (r:
        Result<SubscriptionPipelineOutcome, SubscriptionPipelineError>)
        ensures
            self.apply_outcome(revision.value(), config, r),
            r matches Err(e) ==> self.settled_failure(e),
    {
        let mut config = config;
        if !crate::data_plane_nodes::try_begin_operation(&self.operation_in_flight) {
            config.clear();
            return Err(SubscriptionPipelineError::OperationInProgress);
        }
        let result = self.apply_locked(revision, &mut config);
        crate::data_plane_nodes::end_operation(&self.operation_in_flight);
        result
    }

    /// Settles the data plane with the revision ledger after an interruption.
    pub fn recover(&self) -> (r: Result<SubscriptionRecoveryOutcome, SubscriptionPipelineError>)
        ensures
            r matches Err(e) ==> is_recovery_error(e) || e
                == SubscriptionPipelineError::OperationInProgress,
            self.recovery_outcome(r),
            r matches Err(e) ==> self.settled_failure(e),
    {
        if !crate::data_plane_nodes::try_begin_operation(&self.operation_in_flight) {
            return Err(SubscriptionPipelineError::OperationInProgress);
        }
        let result = self.recover_locked();
        crate::data_plane_nodes::end_operation(&self.operation_in_flight);
        result
    }

    fn rollback_locked(&self) -> (r: Result<ConfigurationRevision, SubscriptionPipelineError>)
        ensures
            r matches Err(e) ==> is_recovery_error(e),
            r matches Ok(previous) ==> self.rolled_back_to(previous.value()),
            r matches Err(e) ==> self.settled_failure(e),
    {
        self.recover_locked()?;
        let ledger = self.load_ledger()?;
        let current = match ledger.current_revision() {
            Some(current) => current,
            None => return Err(SubscriptionPipelineError::RecoveryRequired),
        };
        let previous = match ledger.previous_revision() {
            Some(previous) => previous,
            None => return Err(SubscriptionPipelineError::RecoveryRequired),
        };
        self.restore_and_verify(Some(previous))?;
        if let Err(error) = self.commit_rollback(previous) {
            let _ = self.restore_and_verify(Some(current));
            return Err(error);
        }
        self.clear_node_runtime()?;
        Ok(previous)
    }

    /// Puts the previous committed revision back in place of the current one.
    pub fn rollback_to_previous(&self) -> (r: Result<ConfigurationRevision, SubscriptionPipelineError>)
        ensures
            r matches Err(e) ==> is_recovery_error(e) || e
                == SubscriptionPipelineError::OperationInProgress,
            r matches Ok(previous) ==> self.rolled_back_to(previous.value()),
            r matches Err(e) ==> self.settled_failure(e),
    {
        if !crate::data_plane_nodes::try_begin_operation(&self.operation_in_flight) {
            return Err(SubscriptionPipelineError::OperationInProgress);
        }
        let result = self.rollback_locked();
        crate::data_plane_nodes::end_operation(&self.operation_in_flight);
        result
    }
}

} // verus!
