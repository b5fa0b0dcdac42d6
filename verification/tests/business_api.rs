use std::collections::HashMap;
use std::sync::{Arc, Mutex};

use orange_platform::bootstrap_transport::{
    BootstrapSubscriptionRequest, BootstrapTransport, BootstrapTransportError,
    BootstrapTransportRequest, BootstrapTransportResponse, BusinessClientError, BusinessCommand,
    BusinessCommandClient, BusinessCommandRequest,
};
use orange_platform::business_service::{
    AuthSessionStatus, BusinessApiService, BusinessClock, BusinessServiceError, LogoutDataPlane,
};
use orange_platform::secret_store::{SecretKey, SecretStoreBackend, SecretStoreError, SecretValue};
use orange_platform::vpn::PlatformVpnError;
use vstd::prelude::Seq;

type Log = Arc<Mutex<Vec<String>>>;

struct Backend {
    log: Log,
    secrets: Mutex<HashMap<SecretKey, Vec<u8>>>,
}

// The mocks below may give any answer, so each relation that says which
// answers an operation may give admits all of them.
impl SecretStoreBackend for Backend {
    fn loads(&self, _key: SecretKey, _answer: Result<Option<Seq<u8>>, SecretStoreError>) -> bool {
        true
    }

    fn stores(&self, _key: SecretKey, _value: Seq<u8>, _answer: Result<(), SecretStoreError>) -> bool {
        true
    }

    fn deletes(&self, _key: SecretKey, _answer: Result<(), SecretStoreError>) -> bool {
        true
    }

    fn store(&self, key: SecretKey, value: &[u8]) -> Result<(), SecretStoreError> {
        self.log.lock().unwrap().push(format!("store {}", key.storage_name()));
        self.secrets.lock().unwrap().insert(key, value.to_vec());
        Ok(())
    }

    fn load(&self, key: SecretKey) -> Result<Option<SecretValue>, SecretStoreError> {
        self.log.lock().unwrap().push(format!("load {}", key.storage_name()));
        match self.secrets.lock().unwrap().get(&key) {
            Some(bytes) => SecretValue::new(bytes.clone()).map(Some),
            None => Ok(None),
        }
    }

    fn delete(&self, key: SecretKey) -> Result<(), SecretStoreError> {
        self.log.lock().unwrap().push(format!("delete {}", key.storage_name()));
        self.secrets.lock().unwrap().remove(&key);
        Ok(())
    }
}

struct Transport {
    log: Log,
    status: u16,
}

impl BootstrapTransport for Transport {
    fn answers(
        &self,
        _command: BusinessCommand,
        _path_and_query: Seq<u8>,
        _body: Seq<u8>,
        _access_token: Option<Seq<u8>>,
        _answer: Result<BootstrapTransportResponse, BootstrapTransportError>,
    ) -> bool {
        true
    }

    fn allows(&self, _host: Seq<u8>, _answer: Result<bool, BootstrapTransportError>) -> bool {
        true
    }

    fn serves(
        &self,
        _host: Seq<u8>,
        _path_and_query: Seq<u8>,
        _answer: Result<BootstrapTransportResponse, BootstrapTransportError>,
    ) -> bool {
        true
    }

    fn is_control_api_host_allowed(&self, _host: &str) -> Result<bool, BootstrapTransportError> {
        Ok(true)
    }

    fn execute(
        &self,
        request: BootstrapTransportRequest<'_>,
    ) -> Result<BootstrapTransportResponse, BootstrapTransportError> {
        self.log.lock().unwrap().push(format!(
            "send {} token={}",
            request.path_and_query(),
            request.access_token().is_some()
        ));
        BootstrapTransportResponse::new(self.status, "application/json".to_owned(), b"{}".to_vec())
    }

    fn download_subscription(
        &self,
        _request: BootstrapSubscriptionRequest<'_>,
    ) -> Result<BootstrapTransportResponse, BootstrapTransportError> {
        Err(BootstrapTransportError::Unavailable)
    }
}

struct DataPlane {
    log: Log,
    answer: Result<(), PlatformVpnError>,
}

// The mock may give any answer, so the relation admits all of them.
impl LogoutDataPlane for DataPlane {
    fn stops(&self, _answer: Result<(), PlatformVpnError>) -> bool {
        true
    }

    fn stop_for_logout(&self) -> Result<(), PlatformVpnError> {
        self.log.lock().unwrap().push("stop".to_owned());
        self.answer
    }
}

struct Clock;

impl BusinessClock for Clock {
    fn now_unix_ms(&self) -> u64 {
        1_787_904_000_000
    }
}

fn make_service(log: &Log, status: u16, token: bool) -> BusinessApiService<Transport, Backend, Clock> {
    let mut secrets = HashMap::new();
    if token {
        secrets.insert(SecretKey::AccessToken, b"access".to_vec());
        secrets.insert(SecretKey::RefreshToken, b"refresh".to_vec());
    }
    let backend = Backend { log: log.clone(), secrets: Mutex::new(secrets) };
    let transport = Transport { log: log.clone(), status };
    BusinessApiService::new(BusinessCommandClient::new(transport, backend), Clock)
}

#[test]
fn logout_stops_the_data_plane_before_deleting_credentials() {
    let log: Log = Arc::new(Mutex::new(Vec::new()));
    let mut service = make_service(&log, 200, true);
    let session = service
        .logout(&DataPlane { log: log.clone(), answer: Ok(()) })
        .unwrap();
    assert_eq!(session.status, AuthSessionStatus::SignedOut);
    assert_eq!(
        *log.lock().unwrap(),
        vec![
            "stop".to_owned(),
            "delete orange.access-token".to_owned(),
            "delete orange.refresh-token".to_owned(),
            "delete orange.subscription-credential".to_owned(),
        ]
    );
}

#[test]
fn a_failed_stop_deletes_no_credential() {
    let log: Log = Arc::new(Mutex::new(Vec::new()));
    let mut service = make_service(&log, 200, true);
    let result = service.logout(&DataPlane { log: log.clone(), answer: Err(PlatformVpnError::Timeout) });
    assert_eq!(result.err(), Some(BusinessServiceError::DataPlane(PlatformVpnError::Timeout)));
    assert_eq!(*log.lock().unwrap(), vec!["stop".to_owned()]);
}

#[test]
fn a_token_route_without_a_token_is_not_sent() {
    let log: Log = Arc::new(Mutex::new(Vec::new()));
    let mut service = make_service(&log, 200, false);
    let request = BusinessCommandRequest::without_body(BusinessCommand::Account).unwrap();
    let result = service.execute(request);
    assert_eq!(
        result.err(),
        Some(BusinessServiceError::Client(BusinessClientError::AuthenticationRequired))
    );
    assert_eq!(*log.lock().unwrap(), vec!["load orange.access-token".to_owned()]);
}

#[test]
fn only_a_refused_session_on_a_token_route_deletes_it() {
    let log: Log = Arc::new(Mutex::new(Vec::new()));
    let mut service = make_service(&log, 500, true);
    let request = BusinessCommandRequest::without_body(BusinessCommand::Account).unwrap();
    let result = service.execute(request);
    assert_eq!(
        result.err(),
        Some(BusinessServiceError::Client(BusinessClientError::ServiceUnavailable))
    );
    assert!(!log.lock().unwrap().iter().any(|entry| entry.starts_with("delete")));

    let log: Log = Arc::new(Mutex::new(Vec::new()));
    let mut service = make_service(&log, 401, true);
    let request = BusinessCommandRequest::without_body(BusinessCommand::Account).unwrap();
    let result = service.execute_authenticated_request(request);
    assert_eq!(result.err(), Some(BusinessServiceError::Client(BusinessClientError::Unauthorized)));
    let entries = log.lock().unwrap().clone();
    assert_eq!(entries.len(), 5);
    assert_eq!(entries[0], "load orange.access-token");
    assert!(entries[1].starts_with("send"));
    assert_eq!(entries[2], "delete orange.access-token");
    assert_eq!(service.session().status, AuthSessionStatus::SignedOut);
}

#[test]
fn fetching_needs_an_initialized_signed_in_service() {
    let log: Log = Arc::new(Mutex::new(Vec::new()));
    let mut service = make_service(&log, 200, true);
    assert_eq!(
        service.fetch_body(BusinessCommand::Notices).err(),
        Some(BusinessServiceError::NotInitialized)
    );
    assert!(log.lock().unwrap().is_empty());
}
