use orange_platform::desktop_secret_store::{
    delete_outcome, load_outcome, map_keyring_error, DesktopSecretStore, KeyringFailure,
};
use orange_platform::mobile_secret_protocol::{
    error_from_code, HandshakeRequest, HandshakeResponse, KeyRequest, LoadResponse, StoreRequest,
    PROTOCOL_VERSION,
};
use orange_platform::secret_store::{SecretKey, SecretStoreError};

#[test]
fn handshake_requires_the_same_protocol_version() {
    assert_eq!(HandshakeRequest::current().protocol_version(), PROTOCOL_VERSION);
    assert_eq!(HandshakeResponse::new(1).validate(), Ok(()));
    assert_eq!(
        HandshakeResponse::new(2).validate(),
        Err(SecretStoreError::Unavailable)
    );
}

#[test]
fn requests_name_the_storage_key_and_encode_values() {
    let request = KeyRequest::new(SecretKey::AccessToken);
    assert_eq!(request.key(), "orange.access-token");
    let store = StoreRequest::new(SecretKey::RefreshToken, b"hello");
    assert_eq!(store.key(), "orange.refresh-token");
    assert_eq!(store.value_base64(), "aGVsbG8=");
}

#[test]
fn load_answers_must_be_canonical_base64() {
    let value = LoadResponse::new(true, Some("aGVsbG8=".to_owned()))
        .into_secret()
        .unwrap()
        .unwrap();
    assert_eq!(value.with_bytes(|bytes| bytes.to_vec()), b"hello".to_vec());
    assert!(LoadResponse::new(false, None).into_secret().unwrap().is_none());
    assert_eq!(
        LoadResponse::new(true, None).into_secret().err(),
        Some(SecretStoreError::StorageFailure)
    );
    assert_eq!(
        LoadResponse::new(false, Some("aGVsbG8=".to_owned())).into_secret().err(),
        Some(SecretStoreError::StorageFailure)
    );
    assert_eq!(
        LoadResponse::new(true, Some("aGVsbG8".to_owned())).into_secret().err(),
        Some(SecretStoreError::StorageFailure)
    );
    assert_eq!(
        LoadResponse::new(true, Some("aGVsbG9=".to_owned())).into_secret().err(),
        Some(SecretStoreError::StorageFailure)
    );
    assert_eq!(
        LoadResponse::new(true, Some(String::new())).into_secret().err(),
        Some(SecretStoreError::StorageFailure)
    );
}

#[test]
fn platform_error_codes() {
    assert_eq!(
        error_from_code(Some("secret-invalid-value")),
        SecretStoreError::InvalidValue
    );
    assert_eq!(
        error_from_code(Some("secret-store-permission-denied")),
        SecretStoreError::PermissionDenied
    );
    assert_eq!(
        error_from_code(Some("secret-store-unavailable")),
        SecretStoreError::Unavailable
    );
    assert_eq!(error_from_code(Some("other")), SecretStoreError::StorageFailure);
    assert_eq!(error_from_code(None), SecretStoreError::StorageFailure);
}

#[test]
fn credential_store_failures_are_mapped() {
    assert_eq!(
        map_keyring_error(KeyringFailure::NoStorageAccess),
        SecretStoreError::PermissionDenied
    );
    assert_eq!(
        map_keyring_error(KeyringFailure::TooLong),
        SecretStoreError::InvalidValue
    );
    assert_eq!(
        map_keyring_error(KeyringFailure::BadEncoding(vec![1, 2, 3])),
        SecretStoreError::StorageFailure
    );
    assert!(load_outcome(Err(KeyringFailure::NoEntry)).unwrap().is_none());
    assert_eq!(
        load_outcome(Ok(vec![7u8; 3]))
            .unwrap()
            .unwrap()
            .with_bytes(|bytes| bytes.to_vec()),
        vec![7u8, 7, 7]
    );
    assert_eq!(load_outcome(Ok(Vec::new())).err(), Some(SecretStoreError::InvalidValue));
    assert_eq!(delete_outcome(Err(KeyringFailure::NoEntry)), Ok(()));
    assert_eq!(
        delete_outcome(Err(KeyringFailure::Invalid)),
        Err(SecretStoreError::InvalidValue)
    );
    let _store = DesktopSecretStore::new();
}
