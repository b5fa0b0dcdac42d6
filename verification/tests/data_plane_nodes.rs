use std::sync::Mutex;

use orange_platform::data_plane_nodes::{
    bytes_per_second, delay_status, map_backend_error, DataPlaneNodeBackend, DataPlaneNodeRuntime,
    DelayProbeError, DelayTestBatch, DelayTestRequest, DelayTestTarget, NodeBackendError,
    NodeDelayResult, NodeDelayStatus, NodeRuntimeError, NodeSelectionSource, SelectableNode,
    SelectableNodeProtocol, SelectorCatalog, SelectorGroup, SharedDataPlaneNodeRuntime,
    TrafficCounters, TrafficDisplayState, TrafficSession,
};
use orange_platform::observability::CancellationToken;
use orange_platform::persistence::{
    DataPlaneNodeSelectionLedger, DataPlaneNodeSelectionStorage, NodeSelectionState,
    PersistenceError, PersistenceUpdateOutcome,
};
use orange_platform::vpn::ConfigurationRevision;

fn catalog() -> SelectorCatalog {
    let nodes = vec![
        SelectableNode::from_public_parts(
            "tokyo".to_owned(),
            "Tokyo".to_owned(),
            SelectableNodeProtocol::Vless,
        )
        .unwrap(),
        SelectableNode::from_public_parts(
            "osaka".to_owned(),
            "Osaka".to_owned(),
            SelectableNodeProtocol::Trojan,
        )
        .unwrap(),
    ];
    let group =
        SelectorGroup::from_public_parts("proxy".to_owned(), "tokyo".to_owned(), nodes).unwrap();
    SelectorCatalog::from_public_groups(vec![group]).unwrap()
}

struct Backend {
    selected: Mutex<String>,
    reject: bool,
}

// The mock may give any answer, so each relation that says which answers a
// call may give admits all of them.
impl DataPlaneNodeBackend for &Backend {
    fn selects(
        &self,
        _revision: u64,
        _selector_id: &str,
        _node_id: &str,
        _answer: Result<(), NodeBackendError>,
    ) -> bool {
        true
    }

    fn reads(&self, _revision: u64, _selector_id: &str, _answer: Result<String, NodeBackendError>) -> bool {
        true
    }

    fn select_node(
        &self,
        _revision: ConfigurationRevision,
        _selector_id: &str,
        node_id: &str,
    ) -> Result<(), NodeBackendError> {
        if self.reject {
            return Err(NodeBackendError::Rejected);
        }
        *self.selected.lock().unwrap() = node_id.to_owned();
        Ok(())
    }

    fn read_selected_node(
        &self,
        _revision: ConfigurationRevision,
        _selector_id: &str,
    ) -> Result<String, NodeBackendError> {
        Ok(self.selected.lock().unwrap().clone())
    }

    fn probe_node_delay(
        &self,
        _revision: ConfigurationRevision,
        _selector_id: &str,
        _node_id: &str,
        _timeout_ms: u64,
        _cancellation: &CancellationToken,
    ) -> Result<u32, DelayProbeError> {
        Ok(42)
    }

    fn traffic_counters(
        &self,
        _revision: ConfigurationRevision,
    ) -> Result<TrafficCounters, NodeBackendError> {
        TrafficCounters::new(10, 20).map_err(|_| NodeBackendError::Unavailable)
    }
}

struct Storage(Mutex<Option<DataPlaneNodeSelectionLedger>>);

// The mock may give any answer, so each relation that says which answers an
// operation may give admits all of them.
impl DataPlaneNodeSelectionStorage for &Storage {
    fn reads_selections(&self, _answer: Result<NodeSelectionState, PersistenceError>) -> bool {
        true
    }

    fn replaces(
        &self,
        _ledger: NodeSelectionState,
        _answer: Result<PersistenceUpdateOutcome, PersistenceError>,
    ) -> bool {
        true
    }

    fn load_node_selections(&self) -> Result<DataPlaneNodeSelectionLedger, PersistenceError> {
        Ok(self
            .0
            .lock()
            .unwrap()
            .clone()
            .unwrap_or_else(DataPlaneNodeSelectionLedger::default))
    }

    fn replace_node_selections(
        &self,
        ledger: &DataPlaneNodeSelectionLedger,
    ) -> Result<PersistenceUpdateOutcome, PersistenceError> {
        *self.0.lock().unwrap() = Some(ledger.clone());
        Ok(PersistenceUpdateOutcome::Changed)
    }
}

fn revision() -> ConfigurationRevision {
    ConfigurationRevision::new(5).unwrap()
}

#[test]
fn selecting_a_node_confirms_and_remembers_it() {
    let backend = Backend {
        selected: Mutex::new("tokyo".to_owned()),
        reject: false,
    };
    let storage = Storage(Mutex::new(None));
    let runtime = DataPlaneNodeRuntime::from_catalog(&backend, &storage, revision(), catalog());
    let selection = runtime.select_node("proxy", "osaka").unwrap();
    assert_eq!(selection.selector_id(), "proxy");
    assert_eq!(selection.node_id(), "osaka");
    assert_eq!(selection.source(), NodeSelectionSource::Confirmed);
    let stored = storage.0.lock().unwrap().clone().unwrap();
    assert_eq!(stored.selected_node("proxy"), Some("osaka"));
    assert_eq!(
        runtime.select_node("proxy", "paris").err(),
        Some(NodeRuntimeError::UnknownNode)
    );
    assert_eq!(
        runtime.select_node("direct", "tokyo").err(),
        Some(NodeRuntimeError::UnknownSelector)
    );
}

#[test]
fn a_rejected_selection_is_rolled_back_and_reported() {
    let backend = Backend {
        selected: Mutex::new("tokyo".to_owned()),
        reject: true,
    };
    let storage = Storage(Mutex::new(None));
    let runtime = DataPlaneNodeRuntime::from_catalog(&backend, &storage, revision(), catalog());
    assert_eq!(
        runtime.select_node("proxy", "osaka").err(),
        Some(NodeRuntimeError::RollbackFailed)
    );
    assert_eq!(*backend.selected.lock().unwrap(), "tokyo");
    assert_eq!(
        map_backend_error(NodeBackendError::Rejected),
        NodeRuntimeError::SelectionRejected
    );
}

#[test]
fn restoring_applies_remembered_selections_or_defaults() {
    let backend = Backend {
        selected: Mutex::new("tokyo".to_owned()),
        reject: false,
    };
    let remembered = DataPlaneNodeSelectionLedger::new(
        revision(),
        vec![("proxy".to_owned(), "osaka".to_owned())],
    )
    .unwrap();
    let storage = Storage(Mutex::new(Some(remembered)));
    let mut shared: SharedDataPlaneNodeRuntime<&Backend, &Storage> =
        SharedDataPlaneNodeRuntime::new();
    assert_eq!(
        shared.restore_selections().err(),
        Some(NodeRuntimeError::BackendUnavailable)
    );
    let outcome = shared
        .install_catalog(&backend, &storage, revision(), catalog())
        .unwrap();
    assert_eq!(outcome.revision(), 5);
    assert_eq!(outcome.selections()[0].node_id(), "osaka");
    assert_eq!(outcome.selections()[0].source(), NodeSelectionSource::Restored);
    assert_eq!(*backend.selected.lock().unwrap(), "osaka");
    assert_eq!(shared.active_revision(), Some(revision()));
    assert_eq!(shared.clear(), Some(revision()));
    assert_eq!(shared.active_revision(), None);
}

#[test]
fn delay_requests_and_statuses() {
    let target = DelayTestTarget::new("proxy".to_owned(), "tokyo".to_owned()).unwrap();
    let duplicate = DelayTestTarget::new("proxy".to_owned(), "tokyo".to_owned()).unwrap();
    assert_eq!(
        DelayTestRequest::new(vec![target.clone(), duplicate], 1, 1_000).err(),
        Some(NodeRuntimeError::InvalidRequest)
    );
    assert_eq!(
        DelayTestRequest::new(vec![target.clone()], 9, 1_000).err(),
        Some(NodeRuntimeError::InvalidRequest)
    );
    assert_eq!(
        DelayTestRequest::new(vec![target.clone()], 1, 99).err(),
        Some(NodeRuntimeError::InvalidRequest)
    );
    let request = DelayTestRequest::new(vec![target.clone()], 4, 1_000).unwrap();
    assert_eq!(request.worker_count(), 1);

    assert_eq!(
        delay_status(false, false, Some(Ok(120)), 1_000),
        NodeDelayStatus::Available { delay_ms: 120 }
    );
    assert_eq!(
        delay_status(false, false, Some(Ok(1_001)), 1_000),
        NodeDelayStatus::Unavailable
    );
    assert_eq!(delay_status(true, true, Some(Ok(1)), 1_000), NodeDelayStatus::Cancelled);
    assert_eq!(delay_status(false, true, None, 1_000), NodeDelayStatus::TimedOut);
    assert_eq!(delay_status(false, false, None, 1_000), NodeDelayStatus::Unavailable);

    let batch = DelayTestBatch::collect(vec![Some(NodeDelayResult::new(
        &target,
        NodeDelayStatus::TimedOut,
    ))])
    .unwrap();
    assert_eq!(batch.results().len(), 1);
    assert!(DelayTestBatch::collect(vec![None]).is_err());
}

#[test]
fn traffic_sessions_compute_speeds_between_samples() {
    assert_eq!(bytes_per_second(1_000, 500), Ok(2_000));
    assert_eq!(bytes_per_second(0, 1), Ok(0));
    let mut session = TrafficSession::new(1_000).unwrap();
    assert!(TrafficSession::new(0).is_err());
    session.start(7).unwrap();
    let first = session
        .observe_with_sequence(TrafficCounters::new(1_000, 2_000).unwrap(), 1, 10_000, 100)
        .unwrap();
    assert!(first.is_some());
    assert_eq!(session.display().state(), TrafficDisplayState::Active);
    session
        .observe_with_sequence(TrafficCounters::new(3_000, 2_500).unwrap(), 2, 10_500, 600)
        .unwrap();
    assert_eq!(session.display().upload_bytes_per_second(), 4_000);
    assert_eq!(session.display().download_bytes_per_second(), 1_000);
    assert_eq!(
        session.observe_with_sequence(TrafficCounters::new(1, 1).unwrap(), 3, 11_000, 700),
        Err(NodeRuntimeError::TrafficCounterRegression)
    );
    assert_eq!(
        session.observe_with_sequence(TrafficCounters::new(9_000, 9_000).unwrap(), 4, 11_000, 600),
        Err(NodeRuntimeError::TrafficClockRegression)
    );
    let stopped = session.stop();
    assert_eq!(stopped.instance_id(), None);
}
