pub mod text;
pub mod secret_store;
pub mod bootstrap_transport;
pub mod command_table;

pub mod plane_state;
pub mod vpn;
pub mod observability;
pub mod persistence;
pub mod data_plane_nodes;
pub mod data_plane_config;
pub mod device_identity;
pub mod node_selection;
pub mod business_service;
pub mod subscription_pipeline;
pub mod rule_resources;
pub mod data_plane_lifecycle;
pub mod mobile_secret_protocol;
pub mod desktop_secret_store;
pub mod data_plane_events;

use vstd::prelude::*;

pub use bootstrap_transport::{
    BOOTSTRAP_TRANSPORT_SCHEMA_VERSION, BootstrapTransport, BootstrapTransportError,
    BootstrapTransportRequest, BootstrapTransportResponse, BusinessAuthentication,
    BusinessClientError, BusinessCommand, BusinessCommandClient, BusinessCommandRequest,
    BusinessCommandResponse, BusinessMethod, BusinessRoute, BusinessTarget,
    MAX_BUSINESS_REQUEST_BYTES, MAX_BUSINESS_RESPONSE_BYTES,
};
pub use business_service::{
    BusinessClock, BusinessServiceError, LogoutDataPlane, MAX_AUTH_EMAIL_BYTES,
    MAX_AUTH_PASSWORD_BYTES, MAX_INVITE_CODE_BYTES, MIN_AUTH_PASSWORD_BYTES, SystemClock,
};
pub use data_plane_config::{
    ClientInboundTemplate, DATA_PLANE_CONFIG_SCHEMA_VERSION, DataPlaneConfigError,
    DataPlaneConfigErrorCode, MAX_SUBSCRIPTION_CONFIG_BYTES, SanitizedDataPlaneConfig,
};
pub use data_plane_lifecycle::{
    DEFAULT_MONITOR_INTERVAL_MS, DEFAULT_STARTUP_TIMEOUT_MS, DEFAULT_STOP_TIMEOUT_MS,
    DataPlaneLifecycleBackend, DataPlaneSupervisorPolicy, MAX_CRASH_DETECTION_INTERVAL_MS,
    ProcessReadiness, StopDisposition, SupervisedDataPlaneProcess,
};
pub use data_plane_nodes::{
    ConfirmedNodeSelection, DataPlaneNodeBackend, DataPlaneNodeRuntime, DelayProbeError,
    DelayTestBatch, DelayTestRequest, DelayTestTarget, MAX_DELAY_TEST_CONCURRENCY,
    MAX_DELAY_TEST_TARGETS, MAX_DELAY_TEST_TIMEOUT_MS, MIN_DELAY_TEST_TIMEOUT_MS,
    NODE_RUNTIME_SCHEMA_VERSION, NodeBackendError, NodeDelayResult, NodeDelayStatus,
    NodeRuntimeError, NodeSelectionSource, SelectableNode, SelectableNodeProtocol,
    SelectionRestoreOutcome, SelectorCatalog, SelectorGroup, SharedDataPlaneNodeRuntime,
    TrafficCounters, TrafficDisplay, TrafficDisplayState, TrafficSession,
};
pub use desktop_secret_store::DesktopSecretStore;
pub use observability::{
    CancellationToken, ConfirmedDebugBundle, DEFAULT_DIAGNOSTIC_CAPACITY, DEFAULT_TASK_CAPACITY,
    DebugBundlePreview, DiagnosticCategory, DiagnosticCode, DiagnosticEntry, DiagnosticMetric,
    DiagnosticRing, DiagnosticRingSnapshot, DiagnosticSeverity, EventAcceptance, EventCursor,
    EventEnvelope, MAX_EVENT_INTEGER, MetricName, MetricUnit, NonCancellableReason,
    OBSERVABILITY_SCHEMA_VERSION, ObservabilityError, PageCloseOutcome, PageSessionId,
    PendingDebugBundle, PlatformEvent, TaskCancelOutcome, TaskCategory, TaskId, TaskOwner,
    TaskPolicy, TaskRegistry, TaskSnapshot, TaskSpec, TaskState, TrafficEventThrottler,
    TrafficSample,
};
pub use persistence::{
    AppSettings, DataPlaneNodeSelectionLedger, DataPlaneNodeSelectionStorage,
    DataPlaneRevisionLedger, DataPlaneRevisionStorage, LoadedSettings, LocalePreference,
    PersistenceError, PersistenceUpdateOutcome, ReducedMotionPreference, SETTINGS_SCHEMA_VERSION,
    SettingsStorage, ThemePreference,
};
pub use secret_store::{
    AuthenticationSecretState, SecretKey, SecretStorage, SecretStoreBackend, SecretStoreError,
    SecretValue,
};
pub use subscription_pipeline::{
    ActiveDataPlaneNodeRuntime, DataPlaneCandidateHealth, DataPlaneHealthCheck,
    SubscriptionDataPlaneBackend, SubscriptionNodeRuntimeStatus, SubscriptionPipeline,
    SubscriptionPipelineError, SubscriptionPipelineOutcome, SubscriptionRecoveryOutcome,
    UnconfiguredDataPlaneNodeRuntime,
};
pub use vpn::{
    AdapterEventOutcome, AdapterSnapshot, ConfigurationRevision, PlatformVpnAdapter,
    PlatformVpnError, UnconfiguredVpnAdapter, VpnCommandOutcome,
};

verus! {

pub const PLATFORM_API_VERSION: u16 = 1;

/// The sing-box release whose configuration format the renderer writes.
pub const PINNED_SING_BOX_VERSION: &'static str = "1.13.14";

} // verus!
