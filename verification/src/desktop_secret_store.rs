//! The secret store of desktop platforms: the operating system's credential
//! store, reached through the `keyring` crate, one entry per secret key.
use vstd::prelude::*;
use crate::secret_store::{
    SecretKey,
    SecretStoreBackend,
    SecretStoreError,
    SecretValue,
    zeroize_bytes,
};

verus! {

/// The service name the desktop entries are filed under.
pub const DESKTOP_SECRET_SERVICE: &'static str = "com.orange.vpn";

#[verifier::external_type_specification]
#[verifier::external_body]
pub struct ExKeyringEntry(keyring::Entry);

#[verifier::external_type_specification]
#[verifier::external_body]
pub struct ExKeyringError(keyring::Error);

/// The kinds of failure the credential store reports.
pub enum KeyringFailure {
    PlatformFailure,
    NoStorageAccess,
    NoEntry,
    /// The stored bytes were not text; they are handed over to be wiped.
    BadEncoding(Vec<u8>),
    TooLong,
    Invalid,
    Ambiguous,
}

/// Tells the variants of `keyring::Error` apart, keeping only the bytes of a
/// badly encoded secret.
#[verifier::external_body]
fn keyring_failure(error: keyring::Error) -> (f: KeyringFailure) {
    match error {
        keyring::Error::PlatformFailure(_) => KeyringFailure::PlatformFailure,
        keyring::Error::NoStorageAccess(_) => KeyringFailure::NoStorageAccess,
        keyring::Error::NoEntry => KeyringFailure::NoEntry,
        keyring::Error::BadEncoding(bytes) => KeyringFailure::BadEncoding(bytes),
        keyring::Error::TooLong(_, _) => KeyringFailure::TooLong,
        keyring::Error::Invalid(_, _) => KeyringFailure::Invalid,
        _ => KeyringFailure::Ambiguous,
    }
}

/// `keyring::Entry::new`: the entry of `user` in `service`. Nothing is stated
/// of the outcome: it is the platform store's.
#[verifier::external_body]
fn keyring_entry(service: &str, user: &str) -> (r: Result<keyring::Entry, KeyringFailure>) {
    keyring::Entry::new(service, user).map_err(keyring_failure)
}

/// `keyring::Entry::set_secret`. Nothing is stated of the outcome.
#[verifier::external_body]
fn keyring_set_secret(entry: &keyring::Entry, secret: &[u8]) -> (r: Result<(), KeyringFailure>) {
    entry.set_secret(secret).map_err(keyring_failure)
}

/// `keyring::Entry::get_secret`. Nothing is stated of the outcome.
#[verifier::external_body]
fn keyring_get_secret(entry: &keyring::Entry) -> (r: Result<Vec<u8>, KeyringFailure>) {
    entry.get_secret().map_err(keyring_failure)
}

/// `keyring::Entry::delete_credential`. Nothing is stated of the outcome.
#[verifier::external_body]
fn keyring_delete_credential(entry: &keyring::Entry) -> (r: Result<(), KeyringFailure>) {
    entry.delete_credential().map_err(keyring_failure)
}

/// The store error a credential-store failure is reported as.
pub open spec fn spec_keyring_error(failure: KeyringFailure) -> SecretStoreError {
    match failure {
        KeyringFailure::NoStorageAccess => SecretStoreError::PermissionDenied,
        KeyringFailure::TooLong | KeyringFailure::Invalid => SecretStoreError::InvalidValue,
        _ => SecretStoreError::StorageFailure,
    }
}

/// An error that a credential-store failure can be reported as: the store is
/// never said to be unavailable.
pub open spec fn is_keyring_error(e: SecretStoreError) -> bool {
    e == SecretStoreError::PermissionDenied || e == SecretStoreError::InvalidValue || e
        == SecretStoreError::StorageFailure
}

/// Maps a credential-store failure, wiping any secret bytes it carries.
pub fn map_keyring_error(failure: KeyringFailure) -> (e: SecretStoreError)
    ensures
        e == spec_keyring_error(failure),
{
    match failure {
        KeyringFailure::NoStorageAccess => SecretStoreError::PermissionDenied,
        KeyringFailure::TooLong | KeyringFailure::Invalid => SecretStoreError::InvalidValue,
        KeyringFailure::BadEncoding(bytes) => {
            let mut bytes = bytes;
            zeroize_bytes(&mut bytes);
            SecretStoreError::StorageFailure
        },
        _ => SecretStoreError::StorageFailure,
    }
}

/// What a load makes of the store's answer: a stored secret of valid length
/// is returned, a missing entry is nothing, a failure is mapped.
pub fn load_outcome(result: Result<Vec<u8>, KeyringFailure>) -> (r: Result<
    Option<SecretValue>,
    SecretStoreError,
>)
    ensures
        match result {
            Ok(bytes) => if SecretValue::valid_length(bytes@.len()) {
                r matches Ok(Some(v)) && v@ == bytes@
            } else {
                r == Err::<Option<SecretValue>, SecretStoreError>(SecretStoreError::InvalidValue)
            },
            Err(KeyringFailure::NoEntry) => r matches Ok(None),
            Err(failure) => r == Err::<Option<SecretValue>, SecretStoreError>(
                spec_keyring_error(failure),
            ),
        },
{
    match result {
        Ok(bytes) => match SecretValue::new(bytes) {
            Ok(value) => Ok(Some(value)),
            Err(error) => Err(error),
        },
        Err(KeyringFailure::NoEntry) => Ok(None),
        Err(failure) => Err(map_keyring_error(failure)),
    }
}

/// What a delete makes of the store's answer: a missing entry is already
/// deleted.
pub fn delete_outcome(result: Result<(), KeyringFailure>) -> (r: Result<(), SecretStoreError>)
    ensures
        match result {
            Ok(()) => r is Ok,
            Err(KeyringFailure::NoEntry) => r is Ok,
            Err(failure) => r == Err::<(), SecretStoreError>(spec_keyring_error(failure)),
        },
{
    match result {
        Ok(()) => Ok(()),
        Err(KeyringFailure::NoEntry) => Ok(()),
        Err(failure) => Err(map_keyring_error(failure)),
    }
}

/// The desktop credential store.
pub struct DesktopSecretStore {
    service: String,
}

impl DesktopSecretStore {
    pub closed spec fn spec_service(&self) -> Seq<char> {
        self.service@
    }

    pub fn new() -> (s: Self)
        ensures
            s.spec_service() == DESKTOP_SECRET_SERVICE@,
    {
        DesktopSecretStore { service: DESKTOP_SECRET_SERVICE.to_string() }
    }

    fn entry(&self, key: SecretKey) -> (r: Result<keyring::Entry, SecretStoreError>)
        ensures
            r matches Err(e) ==> is_keyring_error(e),
    {
        match keyring_entry(self.service.as_str(), key.storage_name()) {
            Ok(entry) => Ok(entry),
            Err(failure) => Err(map_keyring_error(failure)),
        }
    }
}

impl Default for DesktopSecretStore {
    fn default() -> (s: Self)
        ensures
            s.spec_service() == DESKTOP_SECRET_SERVICE@,
    {
        Self::new()
    }
}

impl SecretStoreBackend for DesktopSecretStore {
    /// The operating system's store decides what a load finds; a secret it
    /// hands back has a valid length, and a failure is one it reports.
    open spec fn loads(&self, key: SecretKey, answer: Result<Option<Seq<u8>>, SecretStoreError>) -> bool {
        &&& answer matches Err(e) ==> is_keyring_error(e)
        &&& answer matches Ok(Some(bytes)) ==> SecretValue::valid_length(bytes.len())
    }

    open spec fn stores(&self, key: SecretKey, value: Seq<u8>, answer: Result<(), SecretStoreError>) -> bool {
        answer matches Err(e) ==> is_keyring_error(e)
    }

    open spec fn deletes(&self, key: SecretKey, answer: Result<(), SecretStoreError>) -> bool {
        answer matches Err(e) ==> is_keyring_error(e)
    }

    fn store(&self, key: SecretKey, value: &[u8]) -> (r: Result<(), SecretStoreError>)
        ensures
            r matches Err(e) ==> is_keyring_error(e),
    {
        let entry = self.entry(key)?;
        match keyring_set_secret(&entry, value) {
            Ok(()) => Ok(()),
            Err(failure) => Err(map_keyring_error(failure)),
        }
    }

    fn load(&self, key: SecretKey) -> (r: Result<Option<SecretValue>, SecretStoreError>)
        ensures
            r matches Err(e) ==> is_keyring_error(e),
    {
        let entry = self.entry(key)?;
        load_outcome(keyring_get_secret(&entry))
    }

    fn delete(&self, key: SecretKey) -> (r: Result<(), SecretStoreError>)
        ensures
            r matches Err(e) ==> is_keyring_error(e),
    {
        let entry = self.entry(key)?;
        delete_outcome(keyring_delete_credential(&entry))
    }
}

} // verus!
