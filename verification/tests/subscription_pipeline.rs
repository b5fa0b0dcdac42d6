use std::sync::Mutex;

use orange_platform::data_plane_config::{
    finish_sanitized_config, normalize_vless_subscription, prepare_sanitized_config,
    ClientInboundTemplate, SanitizedDataPlaneConfig,
};
use orange_platform::data_plane_nodes::{NodeRuntimeError, SelectorCatalog};
use orange_platform::persistence::{
    DataPlaneRevisionLedger, DataPlaneRevisionStorage, PersistenceError, PersistenceUpdateOutcome,
    RevisionLedgerState,
};
use orange_platform::subscription_pipeline::{
    health_verdict, same_revision, verify_active, ActiveDataPlaneNodeRuntime,
    DataPlaneCandidateHealth, DataPlaneHealthCheck, SubscriptionDataPlaneBackend,
    SubscriptionNodeRuntimeStatus, SubscriptionPipeline, SubscriptionPipelineError,
    SubscriptionPipelineOutcome, SubscriptionRecoveryOutcome,
};
use orange_platform::vpn::{ConfigurationRevision, PlatformVpnError};

const VLESS_SUBSCRIPTION: &str = "dmxlc3M6Ly8xMjNlNDU2Ny1lODliLTEyZDMtYTQ1Ni00MjY2MTQxNzQwMDBAZWRnZS5leGFtcGxlLmNvbTo0NDM/ZW5jcnlwdGlvbj1ub25lJmZsb3c9eHRscy1ycHJ4LXZpc2lvbiZmcD1jaHJvbWUmbW9kZT1tdWx0aSZwYms9QUFFQ0F3UUZCZ2NJQ1FvTERBME9EeEFSRWhNVUZSWVhHQmthR3h3ZEhoOCZzZWN1cml0eT1yZWFsaXR5JnNlcnZlcm5hbWU9d3d3LmV4YW1wbGUuY29tJnNuaT13d3cuZXhhbXBsZS5jb20mc3B4PSUyRiZ0eXBlPXRjcCNUb2t5bw==";

fn revision(value: u64) -> ConfigurationRevision {
    ConfigurationRevision::new(value).unwrap()
}

fn config() -> SanitizedDataPlaneConfig {
    let model = normalize_vless_subscription(VLESS_SUBSCRIPTION.as_bytes()).unwrap();
    let prepared = prepare_sanitized_config(&model, ClientInboundTemplate::Mixed, None, None);
    finish_sanitized_config(prepared, Some(b"{\"outbounds\":[]}".to_vec())).unwrap()
}

struct Ledger(Mutex<DataPlaneRevisionLedger>);

impl Ledger {
    fn new(current: Option<u64>, previous: Option<u64>, candidate: Option<u64>) -> Self {
        Ledger(Mutex::new(
            DataPlaneRevisionLedger::from_stored(current, previous, candidate).unwrap(),
        ))
    }

    fn parts(&self) -> (Option<u64>, Option<u64>, Option<u64>) {
        self.0.lock().unwrap().stored_parts()
    }
}

// The mocks below may give any answer, so each relation that says which
// answers an operation may give admits all of them.
impl DataPlaneRevisionStorage for &Ledger {
    fn reads_ledger(&self, _answer: Result<RevisionLedgerState, PersistenceError>) -> bool {
        true
    }

    fn stages(&self, _revision: u64, _answer: Result<PersistenceUpdateOutcome, PersistenceError>) -> bool {
        true
    }

    fn commits(&self, _revision: u64, _answer: Result<PersistenceUpdateOutcome, PersistenceError>) -> bool {
        true
    }

    fn rejects(
        &self,
        _revision: u64,
        _answer: Result<Option<ConfigurationRevision>, PersistenceError>,
    ) -> bool {
        true
    }

    fn rolls_back(&self, _revision: u64, _answer: Result<PersistenceUpdateOutcome, PersistenceError>) -> bool {
        true
    }

    fn load_revision_ledger(&self) -> Result<DataPlaneRevisionLedger, PersistenceError> {
        Ok(self.0.lock().unwrap().clone())
    }

    fn stage_revision_candidate(
        &self,
        revision: ConfigurationRevision,
    ) -> Result<PersistenceUpdateOutcome, PersistenceError> {
        self.0.lock().unwrap().stage_candidate(revision)
    }

    fn commit_revision_candidate(
        &self,
        revision: ConfigurationRevision,
    ) -> Result<PersistenceUpdateOutcome, PersistenceError> {
        self.0.lock().unwrap().commit_candidate_online(revision)
    }

    fn reject_revision_candidate(
        &self,
        revision: ConfigurationRevision,
    ) -> Result<Option<ConfigurationRevision>, PersistenceError> {
        self.0.lock().unwrap().reject_candidate(revision)
    }

    fn commit_revision_rollback(
        &self,
        revision: ConfigurationRevision,
    ) -> Result<PersistenceUpdateOutcome, PersistenceError> {
        self.0.lock().unwrap().commit_rollback(revision)
    }
}

struct Backend {
    active: Mutex<Option<u64>>,
    healthy: bool,
    discarded: Mutex<Vec<u64>>,
}

impl Backend {
    fn new(active: Option<u64>, healthy: bool) -> Self {
        Backend {
            active: Mutex::new(active),
            healthy,
            discarded: Mutex::new(Vec::new()),
        }
    }

    fn active(&self) -> Option<u64> {
        *self.active.lock().unwrap()
    }
}

impl SubscriptionDataPlaneBackend for &Backend {
    fn stages(
        &self,
        _revision: u64,
        _config: SanitizedDataPlaneConfig,
        _answer: Result<(), PlatformVpnError>,
    ) -> bool {
        true
    }

    fn starts(&self, _revision: u64, _answer: Result<(), PlatformVpnError>) -> bool {
        true
    }

    fn probes(&self, _revision: u64, _answer: Result<DataPlaneCandidateHealth, PlatformVpnError>) -> bool {
        true
    }

    fn activates(&self, _revision: u64, _answer: Result<(), PlatformVpnError>) -> bool {
        true
    }

    fn reports_active(&self, _answer: Result<Option<u64>, PlatformVpnError>) -> bool {
        true
    }

    fn restores(&self, _revision: Option<u64>, _answer: Result<(), PlatformVpnError>) -> bool {
        true
    }

    fn discards(&self, _revision: u64, _answer: Result<(), PlatformVpnError>) -> bool {
        true
    }

    fn stage_candidate(
        &self,
        _revision: ConfigurationRevision,
        _config: &SanitizedDataPlaneConfig,
    ) -> Result<(), PlatformVpnError> {
        Ok(())
    }

    fn start_candidate(&self, _revision: ConfigurationRevision) -> Result<(), PlatformVpnError> {
        Ok(())
    }

    fn revision_health(
        &self,
        _revision: ConfigurationRevision,
    ) -> Result<DataPlaneCandidateHealth, PlatformVpnError> {
        Ok(DataPlaneCandidateHealth::new(true, self.healthy, true))
    }

    fn activate_candidate(&self, revision: ConfigurationRevision) -> Result<(), PlatformVpnError> {
        *self.active.lock().unwrap() = Some(revision.get());
        Ok(())
    }

    fn active_revision(&self) -> Result<Option<ConfigurationRevision>, PlatformVpnError> {
        Ok(self.active().map(|value| ConfigurationRevision::new(value).unwrap()))
    }

    fn restore_active(
        &self,
        revision: Option<ConfigurationRevision>,
    ) -> Result<(), PlatformVpnError> {
        *self.active.lock().unwrap() = revision.map(ConfigurationRevision::get);
        Ok(())
    }

    fn discard_candidate(&self, revision: ConfigurationRevision) -> Result<(), PlatformVpnError> {
        self.discarded.lock().unwrap().push(revision.get());
        Ok(())
    }
}

struct NodeRuntime(Mutex<Option<u64>>);

impl ActiveDataPlaneNodeRuntime for &NodeRuntime {
    fn install_active(
        &self,
        revision: ConfigurationRevision,
        _catalog: SelectorCatalog,
    ) -> Result<SubscriptionNodeRuntimeStatus, NodeRuntimeError> {
        *self.0.lock().unwrap() = Some(revision.get());
        Ok(SubscriptionNodeRuntimeStatus::Installed)
    }

    fn clear_active(&self) -> Result<(), NodeRuntimeError> {
        *self.0.lock().unwrap() = None;
        Ok(())
    }

    fn active_revision(&self) -> Result<Option<ConfigurationRevision>, NodeRuntimeError> {
        Ok(self.0.lock().unwrap().map(|value| ConfigurationRevision::new(value).unwrap()))
    }
}

#[test]
fn health_checks_report_the_first_failure_in_order() {
    assert_eq!(DataPlaneCandidateHealth::ready().failed_check(), None);
    assert_eq!(
        DataPlaneCandidateHealth::new(false, false, false).failed_check(),
        Some(DataPlaneHealthCheck::CoreReady)
    );
    assert_eq!(
        DataPlaneCandidateHealth::new(true, false, false).failed_check(),
        Some(DataPlaneHealthCheck::TargetOutboundReachable)
    );
    assert_eq!(
        DataPlaneCandidateHealth::new(true, true, false).failed_check(),
        Some(DataPlaneHealthCheck::BootstrapDnsIndependent)
    );
    assert_eq!(
        health_verdict(DataPlaneCandidateHealth::new(true, true, false)),
        Err(SubscriptionPipelineError::HealthCheckFailed(
            DataPlaneHealthCheck::BootstrapDnsIndependent
        ))
    );
    assert_eq!(
        SubscriptionPipelineError::HealthCheckFailed(DataPlaneHealthCheck::CoreReady).as_str(),
        "candidate-core-not-ready"
    );
    assert_eq!(
        SubscriptionPipelineError::RecoveryRequired.as_str(),
        "subscription-recovery-required"
    );
}

#[test]
fn revision_comparisons() {
    assert!(same_revision(None, None));
    assert!(same_revision(Some(revision(3)), Some(revision(3))));
    assert!(!same_revision(Some(revision(3)), None));
    assert_eq!(
        verify_active(Some(revision(2)), Some(revision(3))),
        Err(SubscriptionPipelineError::RecoveryRequired)
    );
    assert_eq!(verify_active(None, None), Ok(()));
}

#[test]
fn apply_activates_a_healthy_candidate_and_commits_it() {
    let ledger = Ledger::new(Some(1), None, None);
    let backend = Backend::new(Some(1), true);
    let nodes = NodeRuntime(Mutex::new(None));
    let pipeline = SubscriptionPipeline::with_node_runtime(&ledger, &backend, &nodes);
    assert_eq!(
        pipeline.apply(revision(2), config()),
        Ok(SubscriptionPipelineOutcome::Activated(
            SubscriptionNodeRuntimeStatus::Installed
        ))
    );
    assert_eq!(ledger.parts(), (Some(2), Some(1), None));
    assert_eq!(backend.active(), Some(2));
    assert_eq!(*nodes.0.lock().unwrap(), Some(2));
}

#[test]
fn apply_of_the_current_revision_is_already_active() {
    let ledger = Ledger::new(Some(4), None, None);
    let backend = Backend::new(Some(4), true);
    let nodes = NodeRuntime(Mutex::new(Some(4)));
    let pipeline = SubscriptionPipeline::with_node_runtime(&ledger, &backend, &nodes);
    assert_eq!(
        pipeline.apply(revision(4), config()),
        Ok(SubscriptionPipelineOutcome::AlreadyActive(
            SubscriptionNodeRuntimeStatus::Installed
        ))
    );
    assert_eq!(ledger.parts(), (Some(4), None, None));
}

#[test]
fn an_unhealthy_candidate_is_rolled_back_to_the_previous_revision() {
    let ledger = Ledger::new(Some(1), None, None);
    let backend = Backend::new(Some(1), false);
    let pipeline = SubscriptionPipeline::new(&ledger, &backend);
    assert_eq!(
        pipeline.apply(revision(2), config()),
        Err(SubscriptionPipelineError::HealthCheckFailed(
            DataPlaneHealthCheck::TargetOutboundReachable
        ))
    );
    assert_eq!(ledger.parts(), (Some(1), None, None));
    assert_eq!(backend.active(), Some(1));
    assert_eq!(*backend.discarded.lock().unwrap(), vec![2]);
}

#[test]
fn a_cleared_configuration_is_an_invalid_candidate() {
    let ledger = Ledger::new(None, None, None);
    let backend = Backend::new(None, true);
    let pipeline = SubscriptionPipeline::new(&ledger, &backend);
    let mut cleared = config();
    cleared.clear();
    assert_eq!(
        pipeline.apply(revision(1), cleared),
        Err(SubscriptionPipelineError::InvalidCandidate)
    );
    assert_eq!(ledger.parts(), (None, None, None));
}

#[test]
fn recovery_commits_an_active_healthy_candidate() {
    let ledger = Ledger::new(Some(1), None, Some(2));
    let backend = Backend::new(Some(2), true);
    let pipeline = SubscriptionPipeline::new(&ledger, &backend);
    assert_eq!(
        pipeline.recover(),
        Ok(SubscriptionRecoveryOutcome::CandidateCommitted)
    );
    assert_eq!(ledger.parts(), (Some(2), Some(1), None));
}

#[test]
fn recovery_rejects_a_candidate_that_is_not_running() {
    let ledger = Ledger::new(Some(1), None, Some(2));
    let backend = Backend::new(Some(1), true);
    let pipeline = SubscriptionPipeline::new(&ledger, &backend);
    assert_eq!(
        pipeline.recover(),
        Ok(SubscriptionRecoveryOutcome::CandidateRejected)
    );
    assert_eq!(ledger.parts(), (Some(1), None, None));
    assert_eq!(*backend.discarded.lock().unwrap(), vec![2]);
}

#[test]
fn recovery_of_a_consistent_plane_changes_nothing() {
    let ledger = Ledger::new(Some(3), Some(2), None);
    let backend = Backend::new(Some(3), true);
    let pipeline = SubscriptionPipeline::new(&ledger, &backend);
    assert_eq!(pipeline.recover(), Ok(SubscriptionRecoveryOutcome::Consistent));
    assert_eq!(ledger.parts(), (Some(3), Some(2), None));
}

#[test]
fn recovery_adopts_a_running_previous_revision_and_clears_strangers() {
    let ledger = Ledger::new(Some(3), Some(2), None);
    let backend = Backend::new(Some(2), true);
    let pipeline = SubscriptionPipeline::new(&ledger, &backend);
    assert_eq!(
        pipeline.recover(),
        Ok(SubscriptionRecoveryOutcome::PreviousRestored)
    );

    let ledger = Ledger::new(None, None, None);
    let backend = Backend::new(Some(9), true);
    let pipeline = SubscriptionPipeline::new(&ledger, &backend);
    assert_eq!(
        pipeline.recover(),
        Ok(SubscriptionRecoveryOutcome::UnexpectedActiveCleared)
    );
    assert_eq!(backend.active(), None);
    assert_eq!(*backend.discarded.lock().unwrap(), vec![9]);
}

#[test]
fn rollback_restores_the_previous_revision() {
    let ledger = Ledger::new(Some(3), Some(2), None);
    let backend = Backend::new(Some(3), true);
    let pipeline = SubscriptionPipeline::new(&ledger, &backend);
    assert_eq!(pipeline.rollback_to_previous(), Ok(revision(2)));
    assert_eq!(backend.active(), Some(2));
    assert_eq!(ledger.parts().0, Some(2));

    let ledger = Ledger::new(Some(3), None, None);
    let backend = Backend::new(Some(3), true);
    let pipeline = SubscriptionPipeline::new(&ledger, &backend);
    assert_eq!(
        pipeline.rollback_to_previous(),
        Err(SubscriptionPipelineError::RecoveryRequired)
    );
}
