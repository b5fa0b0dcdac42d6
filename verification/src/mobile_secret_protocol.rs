//! The messages exchanged with a mobile platform's secret store: requests
//! carry the protocol version and the key's storage name, values travel as
//! standard base64.
//!
//! The messages are values here; their JSON form is the application's part.
use vstd::prelude::*;
use crate::secret_store::{
    SecretKey,
    spec_storage_name,
    SecretStoreError,
    SecretValue,
    zeroize_bytes,
    zeroize_string,
};
use crate::data_plane_config::{standard_base64_decoded, decode_standard_base64};
use crate::text::utf8_bytes;

verus! {

pub const PROTOCOL_VERSION: u16 = 1;

/// The standard base64 text of `bytes`, with padding.
pub uninterp spec fn standard_base64_encoded(bytes: Seq<u8>) -> Seq<char>;

/// `base64::Engine::encode` with the standard engine.
#[verifier::external_body]
fn encode_standard_base64(bytes: &[u8]) -> (r: String)
    ensures
        r@ == standard_base64_encoded(bytes@),
{
    base64::Engine::encode(&base64::engine::general_purpose::STANDARD, bytes)
}

/// The opening message: which protocol version this side speaks.
pub struct HandshakeRequest {
    protocol_version: u16,
}

impl HandshakeRequest {
    pub closed spec fn spec_protocol_version(&self) -> u16 {
        self.protocol_version
    }

    pub fn current() -> (r: Self)
        ensures
            r.spec_protocol_version() == PROTOCOL_VERSION,
    {
        HandshakeRequest { protocol_version: PROTOCOL_VERSION }
    }

    pub fn protocol_version(&self) -> (v: u16)
        ensures
            v == self.spec_protocol_version(),
    {
        self.protocol_version
    }
}

/// The platform's answer to the handshake.
pub struct HandshakeResponse {
    protocol_version: u16,
}

impl HandshakeResponse {
    pub closed spec fn spec_protocol_version(&self) -> u16 {
        self.protocol_version
    }

    pub fn new(protocol_version: u16) -> (r: Self)
        ensures
            r.spec_protocol_version() == protocol_version,
    {
        HandshakeResponse { protocol_version }
    }

    /// The platform must speak this side's version.
    pub fn validate(&self) -> (r: Result<(), SecretStoreError>)
        ensures
            self.spec_protocol_version() == PROTOCOL_VERSION ==> r is Ok,
            self.spec_protocol_version() != PROTOCOL_VERSION ==> r == Err::<(), SecretStoreError>(
                SecretStoreError::Unavailable,
            ),
    {
        if self.protocol_version == PROTOCOL_VERSION {
            Ok(())
        } else {
            Err(SecretStoreError::Unavailable)
        }
    }
}

/// A request naming one key: to load or to delete it.
pub struct KeyRequest {
    protocol_version: u16,
    key: &'static str,
}

impl KeyRequest {
    pub closed spec fn spec_protocol_version(&self) -> u16 {
        self.protocol_version
    }

    pub closed spec fn spec_key(&self) -> Seq<char> {
        self.key@
    }

    pub fn new(key: SecretKey) -> (r: Self)
        ensures
            r.spec_protocol_version() == PROTOCOL_VERSION,
            r.spec_key() == spec_storage_name(key),
    {
        KeyRequest { protocol_version: PROTOCOL_VERSION, key: key.storage_name() }
    }

    pub fn protocol_version(&self) -> (v: u16)
        ensures
            v == self.spec_protocol_version(),
    {
        self.protocol_version
    }

    pub fn key(&self) -> (k: &'static str)
        ensures
            k@ == self.spec_key(),
    {
        self.key
    }
}

/// A request to store a value under a key.
pub struct StoreRequest {
    protocol_version: u16,
    key: &'static str,
    value_base64: String,
}

impl StoreRequest {
    pub closed spec fn spec_protocol_version(&self) -> u16 {
        self.protocol_version
    }

    pub closed spec fn spec_key(&self) -> Seq<char> {
        self.key@
    }

    pub closed spec fn spec_value_base64(&self) -> Seq<char> {
        self.value_base64@
    }

    pub fn new(key: SecretKey, value: &[u8]) -> (r: Self)
        ensures
            r.spec_protocol_version() == PROTOCOL_VERSION,
            r.spec_key() == spec_storage_name(key),
            r.spec_value_base64() == standard_base64_encoded(value@),
    {
        StoreRequest {
            protocol_version: PROTOCOL_VERSION,
            key: key.storage_name(),
            value_base64: encode_standard_base64(value),
        }
    }

    pub fn protocol_version(&self) -> (v: u16)
        ensures
            v == self.spec_protocol_version(),
    {
        self.protocol_version
    }

    pub fn key(&self) -> (k: &'static str)
        ensures
            k@ == self.spec_key(),
    {
        self.key
    }

    pub fn value_base64(&self) -> (v: &str)
        ensures
            v@ == self.spec_value_base64(),
    {
        self.value_base64.as_str()
    }

    /// Wipes the encoded value.
    pub fn clear(&mut self)
        ensures
            final(self).spec_value_base64().len() == 0,
            final(self).spec_key() == old(self).spec_key(),
            final(self).spec_protocol_version() == old(self).spec_protocol_version(),
    {
        zeroize_string(&mut self.value_base64);
    }
}

/// The platform's answer to a load request.
pub struct LoadResponse {
    found: bool,
    value_base64: Option<String>,
}

/// What a load answer yields: nothing when the key is absent; the decoded
/// value when it is present in canonical base64 and of a valid length; a
/// storage failure for anything else.
pub open spec fn spec_load_outcome(found: bool, value: Option<Seq<char>>) -> Result<
    Option<Seq<u8>>,
    SecretStoreError,
> {
    match value {
        None => if found {
            Err(SecretStoreError::StorageFailure)
        } else {
            Ok(None)
        },
        Some(encoded) => if !found {
            Err(SecretStoreError::StorageFailure)
        } else {
            match standard_base64_decoded(utf8_bytes(encoded)) {
                None => Err(SecretStoreError::StorageFailure),
                Some(decoded) => if standard_base64_encoded(decoded) != encoded {
                    Err(SecretStoreError::StorageFailure)
                } else if !SecretValue::valid_length(decoded.len()) {
                    Err(SecretStoreError::StorageFailure)
                } else {
                    Ok(Some(decoded))
                },
            }
        },
    }
}

impl LoadResponse {
    pub closed spec fn spec_found(&self) -> bool {
        self.found
    }

    pub closed spec fn spec_value(&self) -> Option<Seq<char>> {
        match self.value_base64 {
            Some(v) => Some(v@),
            None => None,
        }
    }

    pub fn new(found: bool, value_base64: Option<String>) -> (r: Self)
        ensures
            r.spec_found() == found,
            r.spec_value() == (match value_base64 {
                Some(v) => Some(v@),
                None => None::<Seq<char>>,
            }),
    {
        LoadResponse { found, value_base64 }
    }

    /// The secret the answer carries.
    pub fn into_secret(self) -> (r: Result<Option<SecretValue>, SecretStoreError>)
        ensures
            match spec_load_outcome(self.spec_found(), self.spec_value()) {
                Ok(None) => r matches Ok(None),
                Ok(Some(bytes)) => r matches Ok(Some(v)) && v@ == bytes,
                Err(e) => r == Err::<Option<SecretValue>, SecretStoreError>(e),
            },
    {
        let found = self.found;
        match self.value_base64 {
            None => if found {
                Err(SecretStoreError::StorageFailure)
            } else {
                Ok(None)
            },
            Some(encoded) => {
                let mut encoded = encoded;
                if !found {
                    zeroize_string(&mut encoded);
                    return Err(SecretStoreError::StorageFailure);
                }
                let ghost encoded_view = encoded@;
                let decoded = match decode_standard_base64(encoded.as_str().as_bytes()) {
                    Some(decoded) => decoded,
                    None => {
                        zeroize_string(&mut encoded);
                        return Err(SecretStoreError::StorageFailure);
                    },
                };
                let mut decoded = decoded;
                let mut canonical = encode_standard_base64(decoded.as_slice());
                let same = crate::text::text_is(canonical.as_str(), encoded.as_str());
                zeroize_string(&mut canonical);
                zeroize_string(&mut encoded);
                if !same {
                    zeroize_bytes(&mut decoded);
                    return Err(SecretStoreError::StorageFailure);
                }
                match SecretValue::new(decoded) {
                    Ok(value) => Ok(Some(value)),
                    Err(_) => Err(SecretStoreError::StorageFailure),
                }
            },
        }
    }
}

/// The error a platform's error code stands for.
pub open spec fn spec_error_from_code(code: Option<Seq<char>>) -> SecretStoreError {
    match code {
        Some(c) => if c == "secret-invalid-value"@ {
            SecretStoreError::InvalidValue
        } else if c == "secret-store-unavailable"@ {
            SecretStoreError::Unavailable
        } else if c == "secret-store-permission-denied"@ {
            SecretStoreError::PermissionDenied
        } else {
            SecretStoreError::StorageFailure
        },
        None => SecretStoreError::StorageFailure,
    }
}

pub fn error_from_code(code: Option<&str>) -> (e: SecretStoreError)
    ensures
        e == spec_error_from_code(
            match code {
                Some(c) => Some(c@),
                None => None,
            },
        ),
{
    match code {
        Some(c) => if crate::text::text_is(c, "secret-invalid-value") {
            SecretStoreError::InvalidValue
        } else if crate::text::text_is(c, "secret-store-unavailable") {
            SecretStoreError::Unavailable
        } else if crate::text::text_is(c, "secret-store-permission-denied") {
            SecretStoreError::PermissionDenied
        } else {
            SecretStoreError::StorageFailure
        },
        None => SecretStoreError::StorageFailure,
    }
}

} // verus!
