//! The account service's errors and the validators it applies to what users
//! submit and to what the service's configuration lists.
use vstd::prelude::*;
use crate::text::{
    utf8_bytes,
    is_alnum,
    is_digit,
    lower_all,
    all_ascii,
    byte_is_alnum,
    byte_is_digit,
    bytes_to_lower,
};
use crate::plane_state::ErrorCode;
use crate::vpn::PlatformVpnError;
use crate::secret_store::SecretStoreError;
use crate::bootstrap_transport::{
    BusinessClientError,
    BootstrapTransportError,
    spec_transport_error_name,
};
use crate::data_plane_config::{valid_domain, has_dot, is_valid_domain, trimmed, trim_text};
use crate::bootstrap_transport::{
    BusinessCommandResponse,
    BusinessCommandClient,
    BootstrapTransport,
    UrlParts,
    UrlPartsView,
    url_parse,
    parse_url,
};
use crate::secret_store::{
    SecretStoreBackend, SecretValue, SecretKey, SecretCall, AuthenticationSecretState, logs_out,
    logout_calls, reads_state, session_replaced, zeroize_string,
};
use crate::bootstrap_transport::{
    BusinessCommand, BusinessCommandRequest, BusinessMethod, spec_route_method, spec_route_path,
    store_outcome,
};
use crate::node_selection::{NodeLoad, NodeLoadState, NodeLoadsResponse};
use crate::persistence::{all_digits, decimal_value, lemma_decimal_grows, lemma_decimal_prefix_bound};

verus! {

pub const MAX_AUTH_EMAIL_BYTES: usize = 254;

pub const MIN_AUTH_PASSWORD_BYTES: usize = 8;

pub const MAX_AUTH_PASSWORD_BYTES: usize = 128;

pub const MAX_INVITE_CODE_BYTES: usize = 64;

pub const MAX_PUBLIC_PLANS: usize = 256;

pub const MAX_PUBLIC_ORDERS: usize = 256;

pub const MAX_PUBLIC_PAYMENT_METHODS: usize = 64;

pub const MAX_PUBLIC_NOTICES: usize = 64;

pub const MAX_PUBLIC_INVITATION_CODES: usize = 256;

pub const MAX_PUBLIC_TICKETS: usize = 256;

pub const MAX_PUBLIC_TICKET_MESSAGES: usize = 256;

pub const MAX_PUBLIC_NODE_LOADS: usize = 256;

/// The clock the service stamps its cached values with.
pub trait BusinessClock: Send + Sync {
    fn now_unix_ms(&self) -> u64;
}

/// What must stop before a logout deletes the credentials. Implemented by
/// the platform, which says through `stops` which answers stopping may give.
pub trait LogoutDataPlane: Send + Sync {
    /// `answer` is one that stopping for a logout may give.
    spec fn stops(&self, answer: Result<(), PlatformVpnError>) -> bool;

    /// Stop every user Data Plane resource before credentials are deleted.
    fn stop_for_logout(&self) -> (r: Result<(), PlatformVpnError>)
        ensures
            self.stops(r),
    ;
}

/// `SystemTime::now`, as milliseconds since the Unix epoch; `None` before it.
/// Nothing is stated of the value: it is the machine's clock.
#[verifier::external_body]
fn system_unix_millis() -> (r: Option<u128>) {
    std::time::SystemTime::now().duration_since(std::time::UNIX_EPOCH).ok().map(|d| d.as_millis())
}

/// Milliseconds as a `u64`: zero before the epoch, saturated past `u64::MAX`.
pub open spec fn spec_clamped_millis(millis: Option<u128>) -> u64 {
    match millis {
        None => 0,
        Some(m) => if m <= u64::MAX {
            m as u64
        } else {
            u64::MAX
        },
    }
}

pub fn clamped_millis(millis: Option<u128>) -> (r: u64)
    ensures
        r == spec_clamped_millis(millis),
{
    match millis {
        None => 0,
        Some(m) => if m <= u64::MAX as u128 {
            m as u64
        } else {
            u64::MAX
        },
    }
}

/// The wall clock of the machine.
#[derive(Debug, Clone, Copy, Default)]
pub struct SystemClock;

impl BusinessClock for SystemClock {
    fn now_unix_ms(&self) -> u64 {
        clamped_millis(system_unix_millis())
    }
}

#[derive(Debug, Clone, Copy, PartialEq, Eq, Structural)]
pub enum BusinessServiceError {
    InvalidEmail,
    InvalidPassword,
    EmailVerificationRequired,
    InvalidEmailVerificationCode,
    InviteRequired,
    InvalidInviteCode,
    InvalidPlan,
    NotInitialized,
    SubmissionInProgress,
    InvalidContentType,
    InvalidResponse,
    RejectedConfigUrl,
    ExpiredCredentials,
    DataPlane(PlatformVpnError),
    Client(BusinessClientError),
}

pub open spec fn spec_vpn_error_name(error: PlatformVpnError) -> Seq<char> {
    match error {
        PlatformVpnError::InvalidConfiguration => "vpn-invalid-configuration"@,
        PlatformVpnError::PermissionDenied => "vpn-permission-denied"@,
        PlatformVpnError::Timeout => "vpn-timeout"@,
        PlatformVpnError::Crashed => "vpn-adapter-crashed"@,
        PlatformVpnError::Unavailable => "vpn-adapter-unavailable"@,
        PlatformVpnError::OperationInProgress => "vpn-operation-in-progress"@,
        PlatformVpnError::ProtocolViolation => "vpn-adapter-protocol-violation"@,
        PlatformVpnError::CleanupFailed => "vpn-cleanup-failed"@,
    }
}

pub open spec fn spec_client_error_name(error: BusinessClientError) -> Seq<char> {
    match error {
        BusinessClientError::InvalidRequest => "business-invalid-request"@,
        BusinessClientError::AuthenticationRequired => "business-authentication-required"@,
        BusinessClientError::SecretStore(_) => "business-secret-store-failure"@,
        BusinessClientError::Transport(e) => spec_transport_error_name(e),
        BusinessClientError::RedirectDenied => "business-redirect-denied"@,
        BusinessClientError::Unauthorized => "business-unauthorized"@,
        BusinessClientError::RequestRejected => "business-request-rejected"@,
        BusinessClientError::RateLimited => "business-rate-limited"@,
        BusinessClientError::ServiceUnavailable => "business-service-unavailable"@,
        BusinessClientError::InvalidResponse => "business-invalid-response"@,
    }
}

/// The stable name of an error.
pub open spec fn spec_service_error_name(error: BusinessServiceError) -> Seq<char> {
    match error {
        BusinessServiceError::InvalidEmail => "business-invalid-email"@,
        BusinessServiceError::InvalidPassword => "business-invalid-password"@,
        BusinessServiceError::EmailVerificationRequired => "business-email-verification-required"@,
        BusinessServiceError::InvalidEmailVerificationCode =>
            "business-invalid-email-verification-code"@,
        BusinessServiceError::InviteRequired => "business-invite-required"@,
        BusinessServiceError::InvalidInviteCode => "business-invalid-invite-code"@,
        BusinessServiceError::InvalidPlan => "business-invalid-plan"@,
        BusinessServiceError::NotInitialized => "business-not-initialized"@,
        BusinessServiceError::SubmissionInProgress => "business-submission-in-progress"@,
        BusinessServiceError::InvalidContentType => "business-invalid-content-type"@,
        BusinessServiceError::InvalidResponse => "business-invalid-response"@,
        BusinessServiceError::RejectedConfigUrl => "business-config-url-rejected"@,
        BusinessServiceError::ExpiredCredentials => "business-expired-credentials"@,
        BusinessServiceError::DataPlane(e) => spec_vpn_error_name(e),
        BusinessServiceError::Client(e) => spec_client_error_name(e),
    }
}

/// The public category of a client failure.
pub open spec fn spec_client_error_code(error: BusinessClientError) -> ErrorCode {
    match error {
        BusinessClientError::InvalidRequest | BusinessClientError::RequestRejected =>
            ErrorCode::Validation,
        BusinessClientError::AuthenticationRequired | BusinessClientError::Unauthorized =>
            ErrorCode::Permission,
        BusinessClientError::SecretStore(SecretStoreError::PermissionDenied) =>
            ErrorCode::Permission,
        BusinessClientError::SecretStore(_) => ErrorCode::Internal,
        BusinessClientError::Transport(BootstrapTransportError::Unavailable) =>
            ErrorCode::Bootstrap,
        BusinessClientError::Transport(BootstrapTransportError::DnsFailure)
        | BusinessClientError::Transport(BootstrapTransportError::TlsFailure) =>
            ErrorCode::Network,
        BusinessClientError::Transport(BootstrapTransportError::Timeout) => ErrorCode::Timeout,
        BusinessClientError::Transport(BootstrapTransportError::Cancelled) =>
            ErrorCode::Cancelled,
        _ => ErrorCode::Service,
    }
}

/// The public category of a service failure.
pub open spec fn spec_public_error_code(error: BusinessServiceError) -> ErrorCode {
    match error {
        BusinessServiceError::InvalidEmail
        | BusinessServiceError::InvalidPassword
        | BusinessServiceError::EmailVerificationRequired
        | BusinessServiceError::InvalidEmailVerificationCode
        | BusinessServiceError::InviteRequired
        | BusinessServiceError::InvalidInviteCode
        | BusinessServiceError::InvalidPlan => ErrorCode::Validation,
        BusinessServiceError::NotInitialized | BusinessServiceError::RejectedConfigUrl =>
            ErrorCode::Bootstrap,
        BusinessServiceError::SubmissionInProgress => ErrorCode::Cancelled,
        BusinessServiceError::InvalidContentType
        | BusinessServiceError::InvalidResponse
        | BusinessServiceError::ExpiredCredentials => ErrorCode::Service,
        BusinessServiceError::DataPlane(e) => match e {
            PlatformVpnError::InvalidConfiguration | PlatformVpnError::ProtocolViolation =>
                ErrorCode::Internal,
            PlatformVpnError::PermissionDenied => ErrorCode::Permission,
            PlatformVpnError::Timeout => ErrorCode::Timeout,
            PlatformVpnError::OperationInProgress => ErrorCode::Cancelled,
            _ => ErrorCode::Service,
        },
        BusinessServiceError::Client(e) => spec_client_error_code(e),
    }
}

impl BusinessServiceError {
    pub fn as_str(self) -> (name: &'static str)
        ensures
            name@ == spec_service_error_name(self),
    {
        match self {
            BusinessServiceError::InvalidEmail => "business-invalid-email",
            BusinessServiceError::InvalidPassword => "business-invalid-password",
            BusinessServiceError::EmailVerificationRequired =>
                "business-email-verification-required",
            BusinessServiceError::InvalidEmailVerificationCode =>
                "business-invalid-email-verification-code",
            BusinessServiceError::InviteRequired => "business-invite-required",
            BusinessServiceError::InvalidInviteCode => "business-invalid-invite-code",
            BusinessServiceError::InvalidPlan => "business-invalid-plan",
            BusinessServiceError::NotInitialized => "business-not-initialized",
            BusinessServiceError::SubmissionInProgress => "business-submission-in-progress",
            BusinessServiceError::InvalidContentType => "business-invalid-content-type",
            BusinessServiceError::InvalidResponse => "business-invalid-response",
            BusinessServiceError::RejectedConfigUrl => "business-config-url-rejected",
            BusinessServiceError::ExpiredCredentials => "business-expired-credentials",
            BusinessServiceError::DataPlane(error) => error.as_str(),
            BusinessServiceError::Client(error) => error.as_str(),
        }
    }

    pub fn public_error_code(self) -> (code: ErrorCode)
        ensures
            code == spec_public_error_code(self),
    {
        match self {
            BusinessServiceError::InvalidEmail
            | BusinessServiceError::InvalidPassword
            | BusinessServiceError::EmailVerificationRequired
            | BusinessServiceError::InvalidEmailVerificationCode
            | BusinessServiceError::InviteRequired
            | BusinessServiceError::InvalidInviteCode
            | BusinessServiceError::InvalidPlan => ErrorCode::Validation,
            BusinessServiceError::NotInitialized | BusinessServiceError::RejectedConfigUrl =>
                ErrorCode::Bootstrap,
            BusinessServiceError::SubmissionInProgress => ErrorCode::Cancelled,
            BusinessServiceError::InvalidContentType
            | BusinessServiceError::InvalidResponse
            | BusinessServiceError::ExpiredCredentials => ErrorCode::Service,
            BusinessServiceError::DataPlane(error) => match error {
                PlatformVpnError::InvalidConfiguration | PlatformVpnError::ProtocolViolation =>
                    ErrorCode::Internal,
                PlatformVpnError::PermissionDenied => ErrorCode::Permission,
                PlatformVpnError::Timeout => ErrorCode::Timeout,
                PlatformVpnError::OperationInProgress => ErrorCode::Cancelled,
                PlatformVpnError::Crashed
                | PlatformVpnError::Unavailable
                | PlatformVpnError::CleanupFailed => ErrorCode::Service,
            },
            BusinessServiceError::Client(error) => map_client_error(error),
        }
    }
}

/// The public category of a client failure.
pub fn map_client_error(error: BusinessClientError) -> (code: ErrorCode)
    ensures
        code == spec_client_error_code(error),
{
    match error {
        BusinessClientError::InvalidRequest | BusinessClientError::RequestRejected =>
            ErrorCode::Validation,
        BusinessClientError::AuthenticationRequired | BusinessClientError::Unauthorized =>
            ErrorCode::Permission,
        BusinessClientError::SecretStore(SecretStoreError::PermissionDenied) =>
            ErrorCode::Permission,
        BusinessClientError::SecretStore(_) => ErrorCode::Internal,
        BusinessClientError::Transport(BootstrapTransportError::Unavailable) =>
            ErrorCode::Bootstrap,
        BusinessClientError::Transport(BootstrapTransportError::DnsFailure)
        | BusinessClientError::Transport(BootstrapTransportError::TlsFailure) =>
            ErrorCode::Network,
        BusinessClientError::Transport(BootstrapTransportError::Timeout) => ErrorCode::Timeout,
        BusinessClientError::Transport(BootstrapTransportError::Cancelled) =>
            ErrorCode::Cancelled,
        _ => ErrorCode::Service,
    }
}

/// Whether a client failure means the service could not be reached at all.
pub open spec fn spec_offline_client_error(error: BusinessClientError) -> bool {
    match error {
        BusinessClientError::Transport(e) => e == BootstrapTransportError::Unavailable || e
            == BootstrapTransportError::Timeout || e == BootstrapTransportError::Cancelled || e
            == BootstrapTransportError::DnsFailure || e == BootstrapTransportError::TlsFailure,
        _ => false,
    }
}

pub fn is_offline_client_error(error: BusinessClientError) -> (r: bool)
    ensures
        r == spec_offline_client_error(error),
{
    match error {
        BusinessClientError::Transport(e) => match e {
            BootstrapTransportError::Unavailable
            | BootstrapTransportError::Timeout
            | BootstrapTransportError::Cancelled
            | BootstrapTransportError::DnsFailure
            | BootstrapTransportError::TlsFailure => true,
            _ => false,
        },
        _ => false,
    }
}

/// The punctuation an email's local part may hold besides letters and digits:
/// `.!#$%&'*+/=?^_`{|}~-`.
pub open spec fn local_punctuation(b: u8) -> bool {
    b == 46 || b == 33 || (35 <= b <= 39) || b == 42 || b == 43 || b == 47 || b == 61 || b
        == 63 || (94 <= b <= 96) || (123 <= b <= 126) || b == 45
}

/// A local part: 1 to 64 bytes of letters, digits and the punctuation above,
/// not starting or ending with `.`, without `..`.
pub open spec fn valid_local_part(s: Seq<u8>) -> bool {
    &&& 1 <= s.len() <= 64
    &&& forall|i: int| 0 <= i < s.len() ==> is_alnum(#[trigger] s[i]) || local_punctuation(s[i])
    &&& s[0] != 46
    &&& s[s.len() - 1] != 46
    &&& forall|i: int| 0 <= i < s.len() - 1 ==> !(#[trigger] s[i] == 46 && s[i + 1] == 46)
}

/// A domain part: letters, digits, `-` and `.`, with at least one `.`, in
/// non-empty labels that neither start nor end with `-`.
pub open spec fn valid_email_domain(s: Seq<u8>) -> bool {
    &&& s.len() >= 1
    &&& has_dot(s)
    &&& forall|i: int| 0 <= i < s.len() ==> is_alnum(#[trigger] s[i]) || s[i] == 45 || s[i] == 46
    &&& s[0] != 46
    &&& s[s.len() - 1] != 46
    &&& forall|i: int| 0 <= i < s.len() - 1 ==> !(#[trigger] s[i] == 46 && s[i + 1] == 46)
    &&& forall|i: int|
        0 <= i < s.len() && #[trigger] s[i] == 45 ==> i > 0 && s[i - 1] != 46 && i < s.len() - 1
            && s[i + 1] != 46
}

/// An email address the service accepts: 3 to 254 ASCII bytes without control
/// characters or surrounding spaces, with exactly one `@` between a valid
/// local part and a valid domain.
pub open spec fn valid_email(s: Seq<u8>) -> bool {
    &&& 3 <= s.len() <= 254
    &&& forall|i: int| 0 <= i < s.len() ==> 32 <= #[trigger] s[i] < 127
    &&& s[0] != 32
    &&& s[s.len() - 1] != 32
    &&& exists|p: int|
        0 <= p < s.len() && s[p] == 64 && (forall|k: int|
            0 <= k < s.len() && k != p ==> #[trigger] s[k] != 64) && valid_local_part(
            s.subrange(0, p),
        ) && valid_email_domain(s.subrange(p + 1, s.len() as int))
}

fn is_valid_local_part(s: &[u8]) -> (r: bool)
    ensures
        r == valid_local_part(s@),
{
    let n = s.len();
    if n == 0 || n > 64 || s[0] == 46 || s[n - 1] == 46 {
        return false;
    }
    let mut i: usize = 0;
    while i < n
        invariant
            n == s@.len(),
            1 <= n <= 64,
            i <= n,
            forall|k: int| 0 <= k < i ==> is_alnum(#[trigger] s@[k]) || local_punctuation(s@[k]),
            forall|k: int| 0 <= k < i && k < n - 1 ==> !(#[trigger] s@[k] == 46 && s@[k + 1] == 46),
        decreases n - i,
    {
        let b = s[i];
        let punct = b == 46 || b == 33 || (35 <= b && b <= 39) || b == 42 || b == 43 || b == 47
            || b == 61 || b == 63 || (94 <= b && b <= 96) || (123 <= b && b <= 126) || b == 45;
        if !byte_is_alnum(b) && !punct {
            return false;
        }
        if b == 46 && i + 1 < n && s[i + 1] == 46 {
            assert(s@[i as int] == 46 && s@[i + 1] == 46);
            return false;
        }
        i += 1;
    }
    true
}

fn is_valid_email_domain(s: &[u8]) -> (r: bool)
    ensures
        r == valid_email_domain(s@),
{
    let n = s.len();
    if n == 0 || s[0] == 46 || s[n - 1] == 46 {
        return false;
    }
    let mut dot = false;
    let mut i: usize = 0;
    while i < n
        invariant
            n == s@.len(),
            1 <= n,
            s@[0] != 46,
            s@[n - 1] != 46,
            i <= n,
            dot == exists|k: int| 0 <= k < i && s@[k] == 46,
            forall|k: int| 0 <= k < i ==> is_alnum(#[trigger] s@[k]) || s@[k] == 45 || s@[k] == 46,
            forall|k: int| 0 <= k < i && k < n - 1 ==> !(#[trigger] s@[k] == 46 && s@[k + 1] == 46),
            forall|k: int|
                0 <= k < i && #[trigger] s@[k] == 45 ==> k > 0 && s@[k - 1] != 46 && k < n - 1
                    && s@[k + 1] != 46,
        decreases n - i,
    {
        let b = s[i];
        if !byte_is_alnum(b) && b != 45 && b != 46 {
            return false;
        }
        if b == 46 {
            if i + 1 < n && s[i + 1] == 46 {
                assert(s@[i as int] == 46 && s@[i + 1] == 46);
                return false;
            }
            dot = true;
        }
        if b == 45 && (i == 0 || s[i - 1] == 46 || i + 1 == n || s[i + 1] == 46) {
            assert(s@[i as int] == 45);
            return false;
        }
        i += 1;
    }
    if !dot {
        return false;
    }
    true
}

/// Checks an email address before it is sent to the service.
pub fn validate_email(email: &str) -> (r: Result<(), BusinessServiceError>)
    ensures
        r is Ok <==> valid_email(utf8_bytes(email@)),
        r is Err ==> r == Err::<(), BusinessServiceError>(BusinessServiceError::InvalidEmail),
{
    let s = email.as_bytes();
    let n = s.len();
    if n < 3 || n > MAX_AUTH_EMAIL_BYTES || s[0] == 32 || s[n - 1] == 32 {
        return Err(BusinessServiceError::InvalidEmail);
    }
    let mut i: usize = 0;
    let mut at: usize = n;
    while i < n
        invariant
            n == s@.len(),
            s@ == utf8_bytes(email@),
            3 <= n <= 254,
            s@[0] != 32,
            s@[n - 1] != 32,
            i <= n,
            at <= n,
            forall|k: int| 0 <= k < i ==> 32 <= #[trigger] s@[k] < 127,
            at == n ==> forall|k: int| 0 <= k < i ==> #[trigger] s@[k] != 64,
            at < n ==> at < i && s@[at as int] == 64 && forall|k: int|
                0 <= k < i && k != at ==> #[trigger] s@[k] != 64,
        decreases n - i,
    {
        let b = s[i];
        if b < 32 || b >= 127 {
            assert(!(32 <= s@[i as int] < 127));
            return Err(BusinessServiceError::InvalidEmail);
        }
        if b == 64 {
            if at < n {
                proof {
                    assert(s@[at as int] == 64 && s@[i as int] == 64);
                    assert forall|p: int|
                        0 <= p < s@.len() && s@[p] == 64 implies !(forall|k: int|
                        0 <= k < s@.len() && k != p ==> #[trigger] s@[k] != 64) by {
                        if p != at {
                            assert(s@[at as int] == 64);
                        } else {
                            assert(s@[i as int] == 64);
                        }
                    }
                }
                return Err(BusinessServiceError::InvalidEmail);
            }
            at = i;
        }
        i += 1;
    }
    if at == n {
        return Err(BusinessServiceError::InvalidEmail);
    }
    let local_ok = is_valid_local_part(&s[0..at]);
    let domain_ok = is_valid_email_domain(&s[at + 1..n]);
    proof {
        if valid_email(s@) {
            let p = choose|p: int|
                0 <= p < s@.len() && s@[p] == 64 && (forall|k: int|
                    0 <= k < s@.len() && k != p ==> #[trigger] s@[k] != 64) && valid_local_part(
                    s@.subrange(0, p),
                ) && valid_email_domain(s@.subrange(p + 1, s@.len() as int));
            if p != at {
                assert(s@[at as int] == 64);
            }
        }
    }
    if !local_ok || !domain_ok {
        return Err(BusinessServiceError::InvalidEmail);
    }
    Ok(())
}

/// A password the service accepts: 8 to 128 bytes without control characters.
pub open spec fn valid_password(s: Seq<u8>) -> bool {
    MIN_AUTH_PASSWORD_BYTES <= s.len() <= MAX_AUTH_PASSWORD_BYTES && !crate::text::has_control_char(s)
}

pub fn validate_password(password: &str) -> (r: Result<(), BusinessServiceError>)
    ensures
        r is Ok <==> valid_password(utf8_bytes(password@)),
        r is Err ==> r == Err::<(), BusinessServiceError>(BusinessServiceError::InvalidPassword),
{
    let s = password.as_bytes();
    if s.len() < MIN_AUTH_PASSWORD_BYTES || s.len() > MAX_AUTH_PASSWORD_BYTES
        || crate::text::bytes_have_control_char(s) {
        return Err(BusinessServiceError::InvalidPassword);
    }
    Ok(())
}

/// An email verification code: six ASCII digits.
pub open spec fn valid_verification_code(s: Seq<u8>) -> bool {
    s.len() == 6 && forall|i: int| 0 <= i < s.len() ==> is_digit(#[trigger] s[i])
}

pub fn valid_email_verification_code(value: &str) -> (r: bool)
    ensures
        r == valid_verification_code(utf8_bytes(value@)),
{
    let s = value.as_bytes();
    if s.len() != 6 {
        return false;
    }
    let mut i: usize = 0;
    while i < 6
        invariant
            s@.len() == 6,
            s@ == utf8_bytes(value@),
            i <= 6,
            forall|k: int| 0 <= k < i ==> is_digit(#[trigger] s@[k]),
        decreases 6 - i,
    {
        if !byte_is_digit(s[i]) {
            return false;
        }
        i += 1;
    }
    true
}

/// Whether every byte is a letter, a digit or one of `extra`.
pub open spec fn all_word_bytes(s: Seq<u8>, extra: Seq<u8>) -> bool {
    forall|i: int| 0 <= i < s.len() ==> is_alnum(#[trigger] s[i]) || extra.contains(s[i])
}

fn bytes_are_words(s: &[u8], extra: &[u8]) -> (r: bool)
    ensures
        r == all_word_bytes(s@, extra@),
{
    let mut i: usize = 0;
    while i < s.len()
        invariant
            i <= s@.len(),
            forall|k: int| 0 <= k < i ==> is_alnum(#[trigger] s@[k]) || extra@.contains(s@[k]),
        decreases s@.len() - i,
    {
        let b = s[i];
        if !byte_is_alnum(b) {
            let mut j: usize = 0;
            let mut found = false;
            while j < extra.len()
                invariant
                    j <= extra@.len(),
                    found ==> extra@.contains(b),
                    !found ==> forall|m: int| 0 <= m < j ==> extra@[m] != b,
                decreases extra@.len() - j,
            {
                if extra[j] == b {
                    found = true;
                }
                j += 1;
            }
            if !found {
                assert(!extra@.contains(b));
                return false;
            }
        }
        i += 1;
    }
    true
}

/// An invite code: 1 to 64 bytes of letters, digits, `-` and `_`.
pub open spec fn valid_invite_code(s: Seq<u8>) -> bool {
    1 <= s.len() <= MAX_INVITE_CODE_BYTES && all_word_bytes(s, seq![45u8, 95u8])
}

pub fn validate_invite_code(invite_code: &str) -> (r: Result<(), BusinessServiceError>)
    ensures
        r is Ok <==> valid_invite_code(utf8_bytes(invite_code@)),
        r is Err ==> r == Err::<(), BusinessServiceError>(BusinessServiceError::InvalidInviteCode),
{
    let s = invite_code.as_bytes();
    let extra: Vec<u8> = vec![45u8, 95u8];
    if s.len() == 0 || s.len() > MAX_INVITE_CODE_BYTES || !bytes_are_words(s, extra.as_slice()) {
        return Err(BusinessServiceError::InvalidInviteCode);
    }
    Ok(())
}

/// An invitation code as the service lists it; the same rule as an invite code.
pub fn valid_invitation_code(value: &str) -> (r: bool)
    ensures
        r == valid_invite_code(utf8_bytes(value@)),
{
    validate_invite_code(value).is_ok()
}

/// An order id: 1 to 128 bytes of letters, digits, `.`, `_` and `-`.
pub open spec fn valid_order_id_bytes(s: Seq<u8>) -> bool {
    1 <= s.len() <= 128 && all_word_bytes(s, seq![46u8, 95u8, 45u8])
}

pub fn valid_order_id(value: &str) -> (r: bool)
    ensures
        r == valid_order_id_bytes(utf8_bytes(value@)),
{
    let s = value.as_bytes();
    let extra: Vec<u8> = vec![46u8, 95u8, 45u8];
    s.len() != 0 && s.len() <= 128 && bytes_are_words(s, extra.as_slice())
}

/// A node-load identifier: 1 to 64 bytes of letters, digits, `-`, `_` and `.`.
pub open spec fn valid_load_identifier_bytes(s: Seq<u8>) -> bool {
    1 <= s.len() <= 64 && all_word_bytes(s, seq![45u8, 95u8, 46u8])
}

pub fn valid_load_identifier(value: &str) -> (r: bool)
    ensures
        r == valid_load_identifier_bytes(utf8_bytes(value@)),
{
    let s = value.as_bytes();
    let extra: Vec<u8> = vec![45u8, 95u8, 46u8];
    s.len() != 0 && s.len() <= 64 && bytes_are_words(s, extra.as_slice())
}

/// A ticket id: 1 to 20 decimal digits without a leading zero.
pub open spec fn valid_ticket_id_bytes(s: Seq<u8>) -> bool {
    1 <= s.len() <= 20 && s[0] != 48 && forall|i: int| 0 <= i < s.len() ==> is_digit(#[trigger] s[i])
}

pub fn valid_ticket_id(value: &str) -> (r: bool)
    ensures
        r == valid_ticket_id_bytes(utf8_bytes(value@)),
{
    let s = value.as_bytes();
    if s.len() == 0 || s.len() > 20 || s[0] == 48 {
        return false;
    }
    let mut i: usize = 0;
    while i < s.len()
        invariant
            i <= s@.len(),
            s@ == utf8_bytes(value@),
            1 <= s@.len() <= 20,
            s@[0] != 48,
            forall|k: int| 0 <= k < i ==> is_digit(#[trigger] s@[k]),
        decreases s@.len() - i,
    {
        if !byte_is_digit(s[i]) {
            return false;
        }
        i += 1;
    }
    true
}

/// An email suffix the whitelist keeps: a bare domain with at least one dot,
/// in labels of 1 to 63 letters, digits and `-` that neither start nor end with
/// `-`, 253 bytes at most. Letter case does not matter.
pub open spec fn valid_email_suffix(s: Seq<u8>) -> bool {
    valid_domain(lower_all(s)) && has_dot(lower_all(s))
}

pub fn is_valid_email_suffix(value: &str) -> (r: bool)
    ensures
        r == valid_email_suffix(utf8_bytes(value@)),
{
    let lowered = bytes_to_lower(value.as_bytes());
    is_valid_domain(lowered.as_slice()) && crate::data_plane_config::contains_dot(lowered.as_slice())
}

/// `s` without its leading `@` characters.
pub open spec fn without_leading_at(s: Seq<char>) -> Seq<char>
    decreases s.len(),
{
    if s.len() > 0 && s[0] == '@' {
        without_leading_at(s.drop_first())
    } else {
        s
    }
}

/// The canonical form of a whitelist entry: trimmed, without leading `@`,
/// ASCII letters in lower case.
pub open spec fn suffix_candidate(value: Seq<char>) -> Seq<u8> {
    lower_all(utf8_bytes(without_leading_at(trimmed(value))))
}

/// The whitelist kept from `values`: each canonical entry that is a valid
/// suffix, the first time it occurs, in order.
pub open spec fn normalized_suffixes(values: Seq<Seq<char>>) -> Seq<Seq<u8>>
    decreases values.len(),
{
    if values.len() == 0 {
        Seq::empty()
    } else {
        let kept = normalized_suffixes(values.drop_last());
        let candidate = suffix_candidate(values.last());
        if valid_email_suffix(candidate) && !kept.contains(candidate) {
            kept.push(candidate)
        } else {
            kept
        }
    }
}

fn strip_leading_at(text: &str) -> (r: &str)
    ensures
        r@ == without_leading_at(text@),
    decreases text@.len(),
{
    let n = text.unicode_len();
    if n > 0 && text.get_char(0) == '@' {
        let rest = text.substring_char(1, n);
        assert(rest@ =~= text@.drop_first());
        strip_leading_at(rest)
    } else {
        text
    }
}

/// Canonicalizes the email whitelist from the service's configuration: each
/// entry is trimmed, stripped of leading `@` and lower-cased; entries that
/// cannot be a domain, and repeats, are dropped.
pub fn normalize_email_suffixes(values: Vec<String>) -> (r: Vec<String>)
    ensures
        r@.len() == normalized_suffixes(values@.map_values(|v: String| v@)).len(),
        forall|i: int|
            0 <= i < r@.len() ==> utf8_bytes(#[trigger] r@[i]@) == normalized_suffixes(
                values@.map_values(|v: String| v@),
            )[i],
{
    let ghost views = values@.map_values(|v: String| v@);
    let mut suffixes: Vec<String> = Vec::new();
    let mut i: usize = 0;
    while i < values.len()
        invariant
            i <= values@.len(),
            views == values@.map_values(|v: String| v@),
            suffixes@.len() == normalized_suffixes(views.subrange(0, i as int)).len(),
            forall|k: int|
                0 <= k < suffixes@.len() ==> utf8_bytes(#[trigger] suffixes@[k]@)
                    == normalized_suffixes(views.subrange(0, i as int))[k],
        decreases values@.len() - i,
    {
        let trimmed_value = trim_text(values[i].as_str());
        let stripped = strip_leading_at(trimmed_value.as_str());
        let candidate = crate::bootstrap_transport::str_to_ascii_lowercase(stripped);
        let ghost kept = normalized_suffixes(views.subrange(0, i as int));
        proof {
            assert(views.subrange(0, i + 1).drop_last() =~= views.subrange(0, i as int));
            assert(views.subrange(0, i + 1).last() == values@[i as int]@);
        }
        let mut seen = false;
        let mut j: usize = 0;
        while j < suffixes.len()
            invariant
                j <= suffixes@.len(),
                suffixes@.len() == kept.len(),
                forall|k: int| 0 <= k < suffixes@.len() ==> utf8_bytes(#[trigger] suffixes@[k]@) == kept[k],
                seen ==> kept.contains(utf8_bytes(candidate@)),
                !seen ==> forall|m: int| 0 <= m < j ==> kept[m] != utf8_bytes(candidate@),
            decreases suffixes@.len() - j,
        {
            if crate::text::bytes_equal(suffixes[j].as_str().as_bytes(), candidate.as_str().as_bytes()) {
                assert(kept[j as int] == utf8_bytes(candidate@));
                seen = true;
            }
            j += 1;
        }
        if !seen && is_valid_email_suffix(candidate.as_str()) {
            suffixes.push(candidate);
        }
        proof {
            if !seen {
                assert(!kept.contains(utf8_bytes(candidate@)));
            }
        }
        i += 1;
    }
    assert(views.subrange(0, values@.len() as int) =~= views);
    suffixes
}

/// The canonical whitelist never holds an entry twice, and every entry is a
/// valid suffix.
pub proof fn law_normalized_suffixes_distinct_and_valid(values: Seq<Seq<char>>)
    ensures
        forall|i: int, j: int|
            0 <= i < j < normalized_suffixes(values).len() ==> normalized_suffixes(values)[i]
                != normalized_suffixes(values)[j],
        forall|i: int|
            0 <= i < normalized_suffixes(values).len() ==> valid_email_suffix(
                #[trigger] normalized_suffixes(values)[i],
            ),
    decreases values.len(),
{
    if values.len() > 0 {
        law_normalized_suffixes_distinct_and_valid(values.drop_last());
        let kept = normalized_suffixes(values.drop_last());
        let candidate = suffix_candidate(values.last());
        if valid_email_suffix(candidate) && !kept.contains(candidate) {
            let r = kept.push(candidate);
            assert forall|i: int, j: int| 0 <= i < j < r.len() implies r[i] != r[j] by {
                if j == r.len() - 1 {
                    assert(r[i] == kept[i]);
                    assert(kept.contains(kept[i]));
                }
            }
        }
    }
}


// ---------------------------------------------------------------------------
// Responses of the production account API
// ---------------------------------------------------------------------------

/// An envelope of the production API reports success: no error field, the
/// status `success`, and a message without control characters.
pub open spec fn envelope_succeeded(has_error: bool, status: Seq<char>, message: Seq<char>) -> bool {
    !has_error && status == "success"@ && !crate::text::has_control_char(utf8_bytes(message))
}

/// Checks the status fields of a production API envelope before its data is
/// used.
pub fn check_production_envelope(has_error: bool, status: &str, message: &str) -> (r: Result<
    (),
    BusinessServiceError,
>)
    ensures
        r is Ok <==> envelope_succeeded(has_error, status@, message@),
        r is Err ==> r == Err::<(), BusinessServiceError>(BusinessServiceError::InvalidResponse),
{
    if has_error || !crate::text::text_is(status, "success")
        || crate::text::bytes_have_control_char(message.as_bytes()) {
        return Err(BusinessServiceError::InvalidResponse);
    }
    Ok(())
}

pub open spec fn no_semicolon(s: Seq<char>) -> bool {
    forall|i: int| 0 <= i < s.len() ==> s[i] != ';'
}

/// `value`, trimmed, equals the lower-case ASCII text `expected` up to ASCII
/// case, as `str::eq_ignore_ascii_case` compares them.
pub open spec fn trimmed_is_ignoring_case(value: Seq<char>, expected: Seq<char>) -> bool {
    lower_all(utf8_bytes(trimmed(value))) == utf8_bytes(expected)
}

/// A JSON media type: `application/json`, optionally followed by one
/// `charset=utf-8` parameter, each part trimmed and compared without regard to
/// ASCII case.
pub open spec fn json_content_type(s: Seq<char>) -> bool {
    if no_semicolon(s) {
        trimmed_is_ignoring_case(s, "application/json"@)
    } else {
        exists|k: int|
            0 <= k < s.len() && s[k] == ';' && #[trigger] no_semicolon(s.subrange(0, k))
                && trimmed_is_ignoring_case(s.subrange(0, k), "application/json"@) && no_semicolon(
                s.subrange(k + 1, s.len() as int),
            ) && trimmed_is_ignoring_case(s.subrange(k + 1, s.len() as int), "charset=utf-8"@)
    }
}

/// The first `;` at or after `from`, or the length of `s`.
fn index_of_semicolon(s: &str, from: usize) -> (r: usize)
    requires
        from <= s@.len(),
    ensures
        from <= r <= s@.len(),
        r < s@.len() ==> s@[r as int] == ';',
        forall|i: int| from <= i < r ==> s@[i] != ';',
{
    let n = s.unicode_len();
    let mut i = from;
    while i < n
        invariant
            from <= i <= n,
            n == s@.len(),
            forall|j: int| from <= j < i ==> s@[j] != ';',
        decreases n - i,
    {
        if s.get_char(i) == ';' {
            return i;
        }
        i += 1;
    }
    n
}

fn trimmed_matches(segment: &str, expected: &str) -> (r: bool)
    ensures
        r == trimmed_is_ignoring_case(segment@, expected@),
{
    let t = trim_text(segment);
    let lowered = bytes_to_lower(t.as_str().as_bytes());
    crate::text::bytes_equal(lowered.as_slice(), expected.as_bytes())
}

pub fn is_json_content_type(content_type: &str) -> (r: bool)
    ensures
        r == json_content_type(content_type@),
{
    let s = content_type;
    let n = s.unicode_len();
    let k = index_of_semicolon(s, 0);
    if k == n {
        assert(no_semicolon(s@));
        return trimmed_matches(s, "application/json");
    }
    let first = s.substring_char(0, k);
    let rest = s.substring_char(k + 1, n);
    assert(no_semicolon(first@));
    assert(!no_semicolon(s@));
    let k2 = index_of_semicolon(s, k + 1);
    if k2 < n {
        assert(rest@[k2 - k - 1] == ';');
        assert forall|j: int|
            0 <= j < s@.len() && s@[j] == ';' && #[trigger] no_semicolon(s@.subrange(0, j)) implies j
            == k by {
            if j > k {
                assert(s@.subrange(0, j)[k as int] == ';');
            }
            if j < k {
                assert(s@[j] != ';');
            }
        }
        return false;
    }
    assert(no_semicolon(rest@));
    let a = trimmed_matches(first, "application/json");
    let b = trimmed_matches(rest, "charset=utf-8");
    if a && b {
        assert(no_semicolon(s@.subrange(0, k as int)));
        return true;
    }
    assert forall|j: int|
        0 <= j < s@.len() && s@[j] == ';' && #[trigger] no_semicolon(s@.subrange(0, j)) implies j
        == k by {
        if j > k {
            assert(s@.subrange(0, j)[k as int] == ';');
        }
        if j < k {
            assert(s@[j] != ';');
        }
    }
    false
}

/// Takes the body of a response that must carry JSON: the media type must be
/// JSON and the body must not be empty.
pub fn take_json_body(response: BusinessCommandResponse) -> (r: Result<
    Vec<u8>,
    BusinessServiceError,
>)
    ensures
        !json_content_type(response.spec_content_type()) ==> r == Err::<
            Vec<u8>,
            BusinessServiceError,
        >(BusinessServiceError::InvalidContentType),
        json_content_type(response.spec_content_type()) && response.spec_body().len() == 0 ==> r
            == Err::<Vec<u8>, BusinessServiceError>(BusinessServiceError::InvalidResponse),
        json_content_type(response.spec_content_type()) && response.spec_body().len() > 0 ==> (r matches Ok(
            body,
        ) && body@ == response.spec_body()),
{
    let mut response = response;
    if !is_json_content_type(response.content_type()) {
        return Err(BusinessServiceError::InvalidContentType);
    }
    let body = response.take_body();
    if body.len() == 0 {
        return Err(BusinessServiceError::InvalidResponse);
    }
    Ok(body)
}


/// `Bearer `
pub open spec fn bearer_prefix() -> Seq<u8> {
    seq![66u8, 101u8, 97u8, 114u8, 101u8, 114u8, 32u8]
}

/// A byte of a bearer token: an ASCII letter or digit, or one of `-._~+/=`.
pub open spec fn is_token_byte(b: u8) -> bool {
    is_alnum(b) || b == 45 || b == 46 || b == 95 || b == 126 || b == 43 || b == 47 || b == 61
}

/// The token of an authorization value, without a leading `Bearer `.
pub open spec fn bearer_token(value: Seq<u8>) -> Seq<u8> {
    if crate::text::has_prefix(value, bearer_prefix()) {
        value.subrange(7, value.len() as int)
    } else {
        value
    }
}

/// A token the client keeps: 1 to 16 KiB of token bytes.
pub open spec fn valid_bearer_token(token: Seq<u8>) -> bool {
    0 < token.len() <= 16384 && forall|i: int| 0 <= i < token.len() ==> is_token_byte(#[trigger] token[i])
}

/// Reduces the authorization value that the production API issues to its
/// token; a value that holds no valid token is wiped and refused.
pub fn normalize_production_bearer(value: String) -> (r: Result<String, BusinessServiceError>)
    ensures
        valid_bearer_token(bearer_token(utf8_bytes(value@))) ==> (r matches Ok(token) && utf8_bytes(
            token@,
        ) == bearer_token(utf8_bytes(value@))),
        !valid_bearer_token(bearer_token(utf8_bytes(value@))) ==> r == Err::<
            String,
            BusinessServiceError,
        >(BusinessServiceError::InvalidResponse),
{
    let mut value = value;
    let prefix: Vec<u8> = vec![66u8, 101u8, 97u8, 114u8, 101u8, 114u8, 32u8];
    let mut token: Vec<u8> = Vec::new();
    let mut valid = true;
    let prefixed;
    {
        let bytes = value.as_str().as_bytes();
        prefixed = crate::text::bytes_have_prefix(bytes, prefix.as_slice());
        let offset: usize = if prefixed {
            7
        } else {
            0
        };
        let ghost t = bearer_token(bytes@);
        assert(t == bytes@.subrange(offset as int, bytes@.len() as int));
        let n = bytes.len();
        if n - offset == 0 || n - offset > 16384 {
            valid = false;
        } else {
            let mut i = offset;
            while valid && i < n
                invariant
                    offset <= i <= n,
                    n == bytes@.len(),
                    t == bytes@.subrange(offset as int, n as int),
                    valid ==> token@ == bytes@.subrange(offset as int, i as int),
                    forall|j: int| offset <= j < i ==> is_token_byte(#[trigger] bytes@[j]),
                    !valid ==> exists|j: int| offset <= j < n && !is_token_byte(#[trigger] bytes@[j]),
                decreases n - i + if valid {
                    1int
                } else {
                    0int
                },
            {
                let b = bytes[i];
                if !(byte_is_alnum(b) || b == 45 || b == 46 || b == 95 || b == 126 || b == 43 || b
                    == 47 || b == 61) {
                    valid = false;
                } else {
                    token.push(b);
                    i += 1;
                }
            }
            if valid {
                assert(token@ == t);
                assert(forall|j: int| 0 <= j < t.len() ==> t[j] == bytes@[j + offset]);
            } else {
                proof {
                    let j = choose|j: int| offset <= j < n && !is_token_byte(#[trigger] bytes@[j]);
                    assert(t[j - offset] == bytes@[j]);
                }
            }
        }
        assert(valid == valid_bearer_token(t));
    }
    if !valid {
        crate::secret_store::zeroize_string(&mut value);
        return Err(BusinessServiceError::InvalidResponse);
    }
    if !prefixed {
        return Ok(value);
    }
    assert(all_ascii(token@)) by {
        assert forall|j: int| 0 <= j < token@.len() implies token@[j] < 128 by {
            assert(is_token_byte(token@[j]));
        }
    }
    let normalized = crate::text::string_from_ascii(token);
    crate::secret_store::zeroize_string(&mut value);
    Ok(normalized)
}


/// What `str::parse::<u64>` makes of a text: an optional `+`, then one or more
/// ASCII digits whose value fits in 64 bits.
pub open spec fn parsed_u64(text: Seq<u8>) -> Option<u64> {
    let digits = if text.len() > 0 && text[0] == 43u8 {
        text.drop_first()
    } else {
        text
    };
    if digits.len() > 0 && all_digits(digits) && decimal_value(digits) <= u64::MAX {
        Some(decimal_value(digits) as u64)
    } else {
        None
    }
}

fn parse_u64_text(text: &[u8]) -> (r: Option<u64>)
    ensures
        r == parsed_u64(text@),
{
    let start: usize = if text.len() > 0 && text[0] == 43u8 {
        1
    } else {
        0
    };
    let ghost digits = if text@.len() > 0 && text@[0] == 43u8 {
        text@.drop_first()
    } else {
        text@
    };
    assert(digits == text@.subrange(start as int, text@.len() as int));
    if start == text.len() {
        return None;
    }
    let mut value: u64 = 0;
    let mut i = start;
    while i < text.len()
        invariant
            start <= i <= text@.len(),
            digits == text@.subrange(start as int, text@.len() as int),
            digits == (if text@.len() > 0 && text@[0] == 43u8 {
                text@.drop_first()
            } else {
                text@
            }),
            all_digits(digits.subrange(0, i - start)),
            value == decimal_value(digits.subrange(0, i - start)),
        decreases text@.len() - i,
    {
        let b = text[i];
        proof {
            assert(digits.subrange(0, i + 1 - start) =~= digits.subrange(0, i - start).push(b));
        }
        if !byte_is_digit(b) {
            assert(digits[i - start] == b);
            assert(!all_digits(digits));
            return None;
        }
        proof {
            lemma_decimal_grows(digits.subrange(0, i - start), b);
        }
        let next = match value.checked_mul(10) {
            Some(v) => v.checked_add((b - 48) as u64),
            None => None,
        };
        match next {
            Some(v) => {
                value = v;
            },
            None => {
                proof {
                    if all_digits(digits) {
                        lemma_decimal_prefix_bound(digits, i + 1 - start);
                    }
                }
                return None;
            },
        }
        i += 1;
    }
    assert(digits.subrange(0, i - start) =~= digits);
    Some(value)
}

/// The billing periods that a plan selection may name.
pub open spec fn is_plan_period(p: Seq<u8>) -> bool {
    ||| p == utf8_bytes("month_price"@)
    ||| p == utf8_bytes("quarter_price"@)
    ||| p == utf8_bytes("half_year_price"@)
    ||| p == utf8_bytes("year_price"@)
    ||| p == utf8_bytes("two_year_price"@)
    ||| p == utf8_bytes("three_year_price"@)
    ||| p == utf8_bytes("onetime_price"@)
}

pub open spec fn no_colon(s: Seq<u8>) -> bool {
    forall|i: int| 0 <= i < s.len() ==> s[i] != 58u8
}

/// `value` is `<plan id>:<period>`, split at its first `:`, with a positive
/// plan id and a known period.
pub open spec fn plan_selection(value: Seq<u8>, plan_id: u64, period: Seq<u8>) -> bool {
    exists|k: int|
        0 <= k < value.len() && value[k] == 58u8 && #[trigger] no_colon(value.subrange(0, k))
            && parsed_u64(value.subrange(0, k)) == Some(plan_id) && plan_id > 0 && period
            == value.subrange(k + 1, value.len() as int) && is_plan_period(period)
}

fn period_literal(period: &[u8]) -> (r: Option<&'static str>)
    ensures
        is_plan_period(period@) ==> (r matches Some(p) && utf8_bytes(p@) == period@),
        !is_plan_period(period@) ==> r is None,
{
    let names: [&'static str; 7] = [
        "month_price",
        "quarter_price",
        "half_year_price",
        "year_price",
        "two_year_price",
        "three_year_price",
        "onetime_price",
    ];
    let mut i: usize = 0;
    while i < 7
        invariant
            0 <= i <= 7,
            names@ == seq![
                "month_price",
                "quarter_price",
                "half_year_price",
                "year_price",
                "two_year_price",
                "three_year_price",
                "onetime_price",
            ],
            forall|j: int| 0 <= j < i ==> utf8_bytes(names@[j]@) != period@,
        decreases 7 - i,
    {
        if crate::text::bytes_equal(names[i].as_bytes(), period) {
            return Some(names[i]);
        }
        i += 1;
    }
    assert(!is_plan_period(period@)) by {
        assert(utf8_bytes(names@[0]@) != period@);
        assert(utf8_bytes(names@[1]@) != period@);
        assert(utf8_bytes(names@[2]@) != period@);
        assert(utf8_bytes(names@[3]@) != period@);
        assert(utf8_bytes(names@[4]@) != period@);
        assert(utf8_bytes(names@[5]@) != period@);
        assert(utf8_bytes(names@[6]@) != period@);
    }
    None
}

/// Splits a plan selection into the numeric plan id and the billing period.
pub fn parse_production_plan_selection(value: &str) -> (r: Result<
    (u64, &'static str),
    BusinessServiceError,
>)
    ensures
        r matches Ok((plan_id, period)) ==> plan_selection(
            utf8_bytes(value@),
            plan_id,
            utf8_bytes(period@),
        ),
        r is Err ==> r == Err::<(u64, &'static str), BusinessServiceError>(
            BusinessServiceError::InvalidPlan,
        ) && forall|plan_id: u64, period: Seq<u8>|
            !plan_selection(utf8_bytes(value@), plan_id, period),
{
    let b = value.as_bytes();
    let n = b.len();
    let mut k: usize = 0;
    while k < n && b[k] != 58u8
        invariant
            0 <= k <= n,
            n == b@.len(),
            no_colon(b@.subrange(0, k as int)),
        decreases n - k,
    {
        k += 1;
    }
    proof {
        assert forall|j: int|
            0 <= j < b@.len() && b@[j] == 58u8 && #[trigger] no_colon(b@.subrange(0, j)) implies j
            == k by {
            if j > k {
                assert(b@.subrange(0, j)[k as int] == 58u8);
            }
            if j < k {
                assert(b@.subrange(0, k as int)[j] != 58u8);
            }
        }
    }
    if k == n {
        return Err(BusinessServiceError::InvalidPlan);
    }
    let id_bytes = slice_range(b, 0, k);
    let period_bytes = slice_range(b, k + 1, n);
    let plan_id = match parse_u64_text(id_bytes.as_slice()) {
        Some(id) => id,
        None => return Err(BusinessServiceError::InvalidPlan),
    };
    if plan_id == 0 {
        return Err(BusinessServiceError::InvalidPlan);
    }
    match period_literal(period_bytes.as_slice()) {
        Some(period) => Ok((plan_id, period)),
        None => Err(BusinessServiceError::InvalidPlan),
    }
}

/// A copy of `bytes[from..to]`.
fn slice_range(bytes: &[u8], from: usize, to: usize) -> (r: Vec<u8>)
    requires
        from <= to <= bytes@.len(),
    ensures
        r@ == bytes@.subrange(from as int, to as int),
{
    let mut out: Vec<u8> = Vec::new();
    let mut i = from;
    while i < to
        invariant
            from <= i <= to,
            to <= bytes@.len(),
            out@ == bytes@.subrange(from as int, i as int),
        decreases to - i,
    {
        out.push(bytes[i]);
        i += 1;
    }
    out
}

/// A non-negative decimal as the service writes amounts: at most 32 bytes of
/// ASCII digits, optionally followed by `.` and one to six more digits.
pub open spec fn nonnegative_decimal(text: Seq<u8>) -> bool {
    &&& 0 < text.len() <= 32
    &&& (all_digits(text) || exists|k: int|
        0 < k < text.len() && text[k] == 46u8 && #[trigger] all_digits(text.subrange(0, k))
            && all_digits(text.subrange(k + 1, text.len() as int)) && 1 <= text.len() - k - 1 <= 6)
}

/// Keeps an amount only when it is a well-formed non-negative decimal.
pub fn check_nonnegative_decimal(text: String) -> (r: Result<String, BusinessServiceError>)
    ensures
        nonnegative_decimal(utf8_bytes(text@)) ==> r == Ok::<String, BusinessServiceError>(text),
        !nonnegative_decimal(utf8_bytes(text@)) ==> r == Err::<String, BusinessServiceError>(
            BusinessServiceError::InvalidResponse,
        ),
{
    if is_nonnegative_decimal(text.as_str().as_bytes()) {
        Ok(text)
    } else {
        Err(BusinessServiceError::InvalidResponse)
    }
}

fn is_nonnegative_decimal(t: &[u8]) -> (r: bool)
    ensures
        r == nonnegative_decimal(t@),
{
    let n = t.len();
    if n == 0 || n > 32 {
        return false;
    }
    let mut k: usize = 0;
    while k < n && t[k] != 46u8
        invariant
            0 <= k <= n,
            n == t@.len(),
            all_digits(t@.subrange(0, k as int)),
        decreases n - k,
    {
        if !byte_is_digit(t[k]) {
            proof {
                assert(!all_digits(t@));
                assert forall|j: int|
                    0 < j < t@.len() && t@[j] == 46u8 implies !#[trigger] all_digits(
                    t@.subrange(0, j),
                ) by {
                    if j > k {
                        assert(t@.subrange(0, j)[k as int] == t@[k as int]);
                    } else if j < k {
                        assert(t@.subrange(0, k as int)[j] == t@[j]);
                    }
                }
            }
            return false;
        }
        proof {
            assert(t@.subrange(0, k + 1) =~= t@.subrange(0, k as int).push(t@[k as int]));
        }
        k += 1;
    }
    if k == n {
        assert(t@.subrange(0, k as int) =~= t@);
        return true;
    }
    proof {
        assert(!all_digits(t@));
        assert forall|j: int| 0 < j < t@.len() && t@[j] == 46u8 && #[trigger] all_digits(t@.subrange(0, j)) implies j == k by {
            if j > k {
                assert(t@.subrange(0, j)[k as int] == 46u8);
            } else if j < k {
                assert(t@.subrange(0, k as int)[j] == t@[j]);
            }
        }
    }
    if k == 0 || n - k - 1 == 0 || n - k - 1 > 6 {
        assert(!nonnegative_decimal(t@)) by {
            if exists|j: int|
                0 < j < t@.len() && t@[j] == 46u8 && #[trigger] all_digits(t@.subrange(0, j))
                    && all_digits(t@.subrange(j + 1, t@.len() as int)) && 1 <= t@.len() - j - 1 <= 6 {
                let j = choose|j: int|
                    0 < j < t@.len() && t@[j] == 46u8 && #[trigger] all_digits(t@.subrange(0, j))
                        && all_digits(t@.subrange(j + 1, t@.len() as int)) && 1 <= t@.len() - j - 1
                        <= 6;
                assert(j == k);
            }
        }
        return false;
    }
    let mut j = k + 1;
    while j < n
        invariant
            k + 1 <= j <= n,
            n == t@.len(),
            all_digits(t@.subrange(k + 1, j as int)),
            !all_digits(t@),
            forall|jj: int|
                0 < jj < t@.len() && t@[jj] == 46u8 && #[trigger] all_digits(t@.subrange(0, jj))
                    ==> jj == k,
        decreases n - j,
    {
        if !byte_is_digit(t[j]) {
            assert(t@.subrange(k + 1, n as int)[j - k - 1] == t@[j as int]);
            return false;
        }
        proof {
            assert(t@.subrange(k + 1, j + 1) =~= t@.subrange(k + 1, j as int).push(t@[j as int]));
        }
        j += 1;
    }
    true
}


pub const MAX_GIFT_CARD_TEXT_BYTES: usize = 512;

pub const MAX_TICKET_SUBJECT_CHARS: usize = 200;

pub const MAX_TICKET_MESSAGE_CHARS: usize = 10000;

/// A gift card code or its description: 1 to 512 bytes without control
/// characters.
pub open spec fn valid_gift_card_text_bytes(s: Seq<u8>) -> bool {
    0 < s.len() <= MAX_GIFT_CARD_TEXT_BYTES && !crate::text::has_control_char(s)
}

pub fn valid_gift_card_text(value: &str) -> (r: bool)
    ensures
        r == valid_gift_card_text_bytes(utf8_bytes(value@)),
{
    let s = value.as_bytes();
    s.len() > 0 && s.len() <= MAX_GIFT_CARD_TEXT_BYTES && !crate::text::bytes_have_control_char(s)
}

/// Whether the UTF-8 text holds a control character other than a tab, a line
/// feed or a carriage return.
pub open spec fn has_unsafe_ticket_char(s: Seq<u8>) -> bool {
    exists|i: int|
        0 <= i < s.len() && ((crate::text::is_ascii_control(#[trigger] s[i]) && s[i] != 9u8 && s[i]
            != 10u8 && s[i] != 13u8) || (s[i] == 0xC2 && i + 1 < s.len() && 0x80 <= s[i + 1]
            <= 0x9F))
}

pub fn is_safe_ticket_text(value: &str) -> (r: bool)
    ensures
        r == !has_unsafe_ticket_char(utf8_bytes(value@)),
{
    let s = value.as_bytes();
    let mut i: usize = 0;
    while i < s.len()
        invariant
            0 <= i <= s@.len(),
            s@ == utf8_bytes(value@),
            forall|j: int|
                0 <= j < i ==> !((crate::text::is_ascii_control(#[trigger] s@[j]) && s@[j] != 9u8
                    && s@[j] != 10u8 && s@[j] != 13u8) || (s@[j] == 0xC2 && j + 1 < s@.len()
                    && 0x80 <= s@[j + 1] <= 0x9F)),
        decreases s@.len() - i,
    {
        let b = s[i];
        if (b < 32 || b == 127) && b != 9 && b != 10 && b != 13 {
            assert(crate::text::is_ascii_control(s@[i as int]));
            return false;
        }
        if b == 0xC2 && i + 1 < s.len() && 0x80 <= s[i + 1] && s[i + 1] <= 0x9F {
            assert(crate::text::is_ascii_control(s@[i as int]) || !crate::text::is_ascii_control(
                s@[i as int],
            ));
            return false;
        }
        i += 1;
    }
    true
}

/// A ticket subject: 1 to 200 characters, no surrounding white space, and no
/// control characters.
pub open spec fn valid_ticket_subject_text(s: Seq<char>) -> bool {
    &&& 0 < s.len() <= MAX_TICKET_SUBJECT_CHARS
    &&& trimmed(s) == s
    &&& !crate::text::has_control_char(utf8_bytes(s))
}

pub fn valid_ticket_subject(value: &str) -> (r: bool)
    ensures
        r == valid_ticket_subject_text(value@),
{
    let count = value.unicode_len();
    if count == 0 || count > MAX_TICKET_SUBJECT_CHARS {
        return false;
    }
    let t = trim_text(value);
    crate::text::text_is(t.as_str(), value) && !crate::text::bytes_have_control_char(value.as_bytes())
}

/// A ticket message: 1 to 10000 characters, no surrounding white space, and
/// no control characters but tabs and line breaks.
pub open spec fn valid_ticket_message_text(s: Seq<char>) -> bool {
    &&& 0 < s.len() <= MAX_TICKET_MESSAGE_CHARS
    &&& trimmed(s) == s
    &&& !has_unsafe_ticket_char(utf8_bytes(s))
}

pub fn valid_ticket_message(value: &str) -> (r: bool)
    ensures
        r == valid_ticket_message_text(value@),
{
    let count = value.unicode_len();
    if count == 0 || count > MAX_TICKET_MESSAGE_CHARS {
        return false;
    }
    let t = trim_text(value);
    crate::text::text_is(t.as_str(), value) && is_safe_ticket_text(value)
}

/// A subscription URL the service may hand out: at most 16 KiB, `https` on
/// port 443 with a host and a path, and no user name, password or fragment.
pub open spec fn acceptable_subscription_url(text: Seq<char>) -> bool {
    match url_parse(text) {
        None => false,
        Some(url) => {
            &&& utf8_bytes(text).len() <= 16384
            &&& url.scheme == "https"@
            &&& url.host is Some
            &&& url.port_or_known_default == Some(443u16)
            &&& url.username.len() == 0
            &&& !url.has_password
            &&& url.fragment is None
            &&& url.path.len() > 0
        },
    }
}

pub fn validate_subscription_url(value: &str) -> (r: Result<(), BusinessServiceError>)
    ensures
        r is Ok <==> acceptable_subscription_url(value@),
        r is Err ==> r == Err::<(), BusinessServiceError>(BusinessServiceError::InvalidResponse),
{
    let url = match parse_url(value) {
        Some(url) => url,
        None => return Err(BusinessServiceError::InvalidResponse),
    };
    if value.as_bytes().len() > 16384 || !crate::text::text_is(url.scheme.as_str(), "https")
        || url.host.is_none() || url.port_or_known_default != Some(443u16) || url.username.as_str().unicode_len() != 0
        || url.has_password || url.fragment.is_some() || url.path.as_str().unicode_len() == 0 {
        return Err(BusinessServiceError::InvalidResponse);
    }
    Ok(())
}

/// A URL the service's configuration may name: `https` on port 443 with a
/// host, and no user name, password, query or fragment; an origin also has
/// the path `/`.
pub open spec fn acceptable_config_url(url: UrlPartsView, origin_only: bool) -> bool {
    &&& url.scheme == "https"@
    &&& url.host is Some
    &&& url.port_or_known_default == Some(443u16)
    &&& url.username.len() == 0
    &&& !url.has_password
    &&& url.query is None
    &&& url.fragment is None
    &&& (origin_only ==> url.path == "/"@)
}

pub fn parse_config_url(value: &str, origin_only: bool) -> (r: Result<UrlParts, BusinessServiceError>)
    ensures
        r is Ok <==> (url_parse(value@) matches Some(url) && acceptable_config_url(url, origin_only)),
        r matches Ok(url) ==> url_parse(value@) == Some(url@),
        r is Err ==> r == Err::<UrlParts, BusinessServiceError>(
            BusinessServiceError::RejectedConfigUrl,
        ),
{
    let url = match parse_url(value) {
        Some(url) => url,
        None => return Err(BusinessServiceError::RejectedConfigUrl),
    };
    if !crate::text::text_is(url.scheme.as_str(), "https") || url.host.is_none()
        || url.port_or_known_default != Some(443u16) || url.username.as_str().unicode_len() != 0 || url.has_password
        || url.query.is_some() || url.fragment.is_some() || (origin_only
        && !crate::text::text_is(url.path.as_str(), "/")) {
        return Err(BusinessServiceError::RejectedConfigUrl);
    }
    Ok(url)
}

pub open spec fn host_listed(hosts: Seq<&str>, host: Seq<char>) -> bool {
    exists|i: int| 0 <= i < hosts.len() && (#[trigger] hosts[i])@ == host
}

/// A configuration URL whose host is one of `allowed_hosts`.
pub fn validate_config_url(value: &str, allowed_hosts: &[&str], origin_only: bool) -> (r: Result<
    (),
    BusinessServiceError,
>)
    ensures
        r is Ok <==> (url_parse(value@) matches Some(url) && acceptable_config_url(url, origin_only)
            && host_listed(allowed_hosts@, url.host->0)),
        r is Err ==> r == Err::<(), BusinessServiceError>(BusinessServiceError::RejectedConfigUrl),
{
    let url = parse_config_url(value, origin_only)?;
    let host = match &url.host {
        Some(host) => host,
        None => return Err(BusinessServiceError::RejectedConfigUrl),
    };
    let mut i: usize = 0;
    while i < allowed_hosts.len()
        invariant
            0 <= i <= allowed_hosts@.len(),
            url.host == Some(*host),
            url_parse(value@) == Some(url@),
            acceptable_config_url(url@, origin_only),
            forall|j: int| 0 <= j < i ==> (#[trigger] allowed_hosts@[j])@ != host@,
        decreases allowed_hosts@.len() - i,
    {
        if crate::text::text_is(allowed_hosts[i], host.as_str()) {
            assert(host_listed(allowed_hosts@, url@.host->0));
            return Ok(());
        }
        i += 1;
    }
    Err(BusinessServiceError::RejectedConfigUrl)
}


/// The payment host of development configurations.
pub const DEVELOPMENT_PAYMENT_URL_HOST: &'static str = "pay.orange.invalid";

/// The support host of development configurations.
pub const DEVELOPMENT_SUPPORT_URL_HOST: &'static str = "support.orange.invalid";

/// The banner host of development configurations.
pub const DEVELOPMENT_BANNER_URL_HOST: &'static str = "assets.orange.invalid";

/// A URL of the production app: an acceptable configuration URL whose host the
/// transport allows for the control API. Which hosts it allows is the
/// transport's decision.
pub fn validate_production_app_url<T: BootstrapTransport, B: SecretStoreBackend>(
    client: &BusinessCommandClient<T, B>,
    value: &str,
) -> (r: Result<(), BusinessServiceError>)
    ensures
        !(url_parse(value@) matches Some(url) && acceptable_config_url(url, false)) ==> r == Err::<
            (),
            BusinessServiceError,
        >(BusinessServiceError::RejectedConfigUrl),
        r matches Err(e) ==> e == BusinessServiceError::RejectedConfigUrl || e is Client,
{
    let url = parse_config_url(value, false)?;
    let host = match &url.host {
        Some(host) => host,
        None => return Err(BusinessServiceError::RejectedConfigUrl),
    };
    match client.is_control_api_host_allowed(host.as_str()) {
        Ok(true) => Ok(()),
        Ok(false) => Err(BusinessServiceError::RejectedConfigUrl),
        Err(error) => Err(BusinessServiceError::Client(error)),
    }
}

/// The URLs of a development configuration: the API base must be an origin
/// whose host the transport allows, the payment base an origin on the
/// development payment host, and the support and banner URLs on their
/// development hosts.
pub fn validate_config_urls<T: BootstrapTransport, B: SecretStoreBackend>(
    client: &BusinessCommandClient<T, B>,
    api_base_url: &str,
    payment_base_url: &str,
    support_url: &str,
    banner_url: Option<&str>,
) -> (r: Result<(), BusinessServiceError>)
    ensures
        !(url_parse(api_base_url@) matches Some(url) && acceptable_config_url(url, true)) ==> r
            == Err::<(), BusinessServiceError>(BusinessServiceError::RejectedConfigUrl),
        r is Ok ==> config_url_on(payment_base_url@, DEVELOPMENT_PAYMENT_URL_HOST@, true)
            && config_url_on(support_url@, DEVELOPMENT_SUPPORT_URL_HOST@, false) && (banner_url matches Some(
            banner,
        ) ==> config_url_on(banner@, DEVELOPMENT_BANNER_URL_HOST@, false)),
        r matches Err(e) ==> e == BusinessServiceError::RejectedConfigUrl || e is Client,
{
    let api = parse_config_url(api_base_url, true)?;
    let api_host = match &api.host {
        Some(host) => host,
        None => return Err(BusinessServiceError::RejectedConfigUrl),
    };
    match client.is_control_api_host_allowed(api_host.as_str()) {
        Ok(true) => {},
        Ok(false) => return Err(BusinessServiceError::RejectedConfigUrl),
        Err(error) => return Err(BusinessServiceError::Client(error)),
    }
    let payment_hosts: Vec<&str> = vec![DEVELOPMENT_PAYMENT_URL_HOST];
    validate_config_url(payment_base_url, payment_hosts.as_slice(), true)?;
    let support_hosts: Vec<&str> = vec![DEVELOPMENT_SUPPORT_URL_HOST];
    validate_config_url(support_url, support_hosts.as_slice(), false)?;
    if let Some(banner) = banner_url {
        let banner_hosts: Vec<&str> = vec![DEVELOPMENT_BANNER_URL_HOST];
        validate_config_url(banner, banner_hosts.as_slice(), false)?;
    }
    Ok(())
}

/// `value` is an acceptable configuration URL on the host `host`.
pub open spec fn config_url_on(value: Seq<char>, host: Seq<char>, origin_only: bool) -> bool {
    url_parse(value) matches Some(url) && acceptable_config_url(url, origin_only) && url.host
        == Some(host)
}


/// A Telegram bot user name: 1 to 64 ASCII letters, digits and underscores.
pub open spec fn valid_telegram_username(name: Seq<u8>) -> bool {
    name.len() <= 64 && forall|i: int| 0 <= i < name.len() ==> (is_alnum(#[trigger] name[i]) || name[i] == 95u8)
}

/// The bot user name the service reports, trimmed and without leading `@`:
/// nothing when that leaves it empty, refused when it is not a valid name.
pub fn normalize_telegram_username(value: Option<&str>) -> (r: Result<
    Option<String>,
    BusinessServiceError,
>)
    ensures
        value is None ==> r == Ok::<Option<String>, BusinessServiceError>(None),
        value matches Some(v) ==> {
            let name = without_leading_at(trimmed(v@));
            &&& name.len() == 0 ==> r == Ok::<Option<String>, BusinessServiceError>(None)
            &&& name.len() > 0 && valid_telegram_username(utf8_bytes(name)) ==> (r matches Ok(
                Some(n),
            ) && n@ == name)
            &&& name.len() > 0 && !valid_telegram_username(utf8_bytes(name)) ==> r == Err::<
                Option<String>,
                BusinessServiceError,
            >(BusinessServiceError::InvalidResponse)
        },
{
    let text = match value {
        Some(text) => text,
        None => return Ok(None),
    };
    let trimmed_value = trim_text(text);
    let name = strip_leading_at(trimmed_value.as_str());
    if name.unicode_len() == 0 {
        return Ok(None);
    }
    let bytes = name.as_bytes();
    if bytes.len() > 64 {
        return Err(BusinessServiceError::InvalidResponse);
    }
    let mut i: usize = 0;
    while i < bytes.len()
        invariant
            0 <= i <= bytes@.len(),
            value == Some(text),
            name@ == without_leading_at(trimmed(text@)),
            name@.len() > 0,
            bytes@ == utf8_bytes(name@),
            forall|j: int| 0 <= j < i ==> (is_alnum(#[trigger] bytes@[j]) || bytes@[j] == 95u8),
        decreases bytes@.len() - i,
    {
        if !(byte_is_alnum(bytes[i]) || bytes[i] == 95u8) {
            assert(!valid_telegram_username(bytes@)) by {
                assert(!(is_alnum(bytes@[i as int]) || bytes@[i as int] == 95u8));
            }
            return Err(BusinessServiceError::InvalidResponse);
        }
        i += 1;
    }
    Ok(Some(name.to_string()))
}

/// The largest integer that a JavaScript number holds exactly.
pub const MAX_SAFE_INTEGER: u64 = 9007199254740991;

/// Seconds since the epoch as milliseconds, where they are a safe integer.
pub open spec fn spec_unix_millis(seconds: u64) -> Option<u64> {
    if seconds * 1000 <= MAX_SAFE_INTEGER {
        Some((seconds * 1000) as u64)
    } else {
        None
    }
}

/// A time the service reports in seconds, as milliseconds.
pub fn production_unix_seconds(seconds: u64) -> (r: Result<u64, BusinessServiceError>)
    ensures
        match spec_unix_millis(seconds) {
            Some(ms) => r == Ok::<u64, BusinessServiceError>(ms),
            None => r == Err::<u64, BusinessServiceError>(BusinessServiceError::InvalidResponse),
        },
{
    match seconds.checked_mul(1000) {
        Some(ms) => if ms <= MAX_SAFE_INTEGER {
            Ok(ms)
        } else {
            Err(BusinessServiceError::InvalidResponse)
        },
        None => Err(BusinessServiceError::InvalidResponse),
    }
}

/// One invitation code as the service sends it.
pub struct InvitationCodeData {
    pub code: String,
    pub status: Option<bool>,
    pub pv: Option<u64>,
    pub created_at: Option<u64>,
}

/// The invitation center as the service sends it: the codes, and the
/// statistics as registered users, confirmed commission, pending commission,
/// commission rate in percent and available commission.
pub struct InvitationCenterData {
    pub codes: Option<Vec<InvitationCodeData>>,
    pub stat: Option<Vec<u64>>,
}

#[derive(Debug, Clone, Copy, PartialEq, Eq, Structural)]
pub enum InvitationCodeStatus {
    Available,
    Used,
    Unknown,
}

/// An invitation code as the client shows it.
#[derive(Debug, Clone)]
pub struct InvitationCode {
    pub code: String,
    pub status: InvitationCodeStatus,
    pub views: u64,
    pub created_at_unix_ms: Option<u64>,
}

/// The statistics of the invitation center; commissions are in minor units
/// of CNY.
#[derive(Debug, Clone, Copy, PartialEq, Eq, Structural)]
pub struct InvitationStats {
    pub registered_users: u64,
    pub total_commission: u64,
    pub pending_commission: u64,
    pub commission_rate_percent: u64,
}

/// The invitation center as the client shows it.
#[derive(Debug, Clone)]
pub struct InvitationCenter {
    pub stats: InvitationStats,
    pub codes: Vec<InvitationCode>,
}

/// The codes the service sent; none when it sent no list.
pub open spec fn invitation_codes_of(data: InvitationCenterData) -> Seq<InvitationCodeData> {
    match data.codes {
        Some(codes) => codes@,
        None => Seq::empty(),
    }
}

/// What a code's status flag means: used, available, or not said.
pub open spec fn spec_invitation_status(status: Option<bool>) -> InvitationCodeStatus {
    match status {
        Some(true) => InvitationCodeStatus::Used,
        Some(false) => InvitationCodeStatus::Available,
        None => InvitationCodeStatus::Unknown,
    }
}

/// Whether a sent code is accepted: a valid code, a safe view count, and a
/// creation time that converts.
pub open spec fn invitation_code_accepted(code: InvitationCodeData) -> bool {
    &&& valid_invite_code(utf8_bytes(code.code@))
    &&& (code.pv matches Some(views) ==> views <= MAX_SAFE_INTEGER)
    &&& (code.created_at matches Some(at) ==> spec_unix_millis(at) is Some)
}

/// Whether `shown` is what the client shows of the accepted `sent` code.
pub open spec fn invitation_code_shown(shown: InvitationCode, sent: InvitationCodeData) -> bool {
    &&& shown.code@ == sent.code@
    &&& shown.status == spec_invitation_status(sent.status)
    &&& shown.views == (match sent.pv {
        Some(views) => views,
        None => 0,
    })
    &&& shown.created_at_unix_ms == (match sent.created_at {
        Some(at) => spec_unix_millis(at),
        None => None,
    })
}

/// Whether the invitation center the service sent is accepted: at most
/// `MAX_PUBLIC_INVITATION_CODES` codes, each accepted, and exactly five
/// statistics of which the first four are safe integers.
pub open spec fn invitation_center_accepted(data: InvitationCenterData) -> bool {
    &&& invitation_codes_of(data).len() <= MAX_PUBLIC_INVITATION_CODES
    &&& data.stat matches Some(stat) && stat@.len() == 5 && stat@[0] <= MAX_SAFE_INTEGER
        && stat@[1] <= MAX_SAFE_INTEGER && stat@[2] <= MAX_SAFE_INTEGER && stat@[3]
        <= MAX_SAFE_INTEGER
    &&& forall|i: int|
        0 <= i < invitation_codes_of(data).len() ==> invitation_code_accepted(
            #[trigger] invitation_codes_of(data)[i],
        )
}

/// Whether `center` is what the client shows of the accepted `data`.
pub open spec fn invitation_center_shown(center: InvitationCenter, data: InvitationCenterData) -> bool {
    &&& data.stat matches Some(stat) && center.stats == (InvitationStats {
        registered_users: stat@[0],
        total_commission: stat@[1],
        pending_commission: stat@[2],
        commission_rate_percent: stat@[3],
    })
    &&& center.codes@.len() == invitation_codes_of(data).len()
    &&& forall|i: int|
        0 <= i < center.codes@.len() ==> invitation_code_shown(
            #[trigger] center.codes@[i],
            invitation_codes_of(data)[i],
        )
}

fn decode_invitation_code(sent: &InvitationCodeData) -> (r: Result<InvitationCode, BusinessServiceError>)
    ensures
        r is Ok <==> invitation_code_accepted(*sent),
        r matches Ok(shown) ==> invitation_code_shown(shown, *sent),
        r matches Err(e) ==> e == BusinessServiceError::InvalidResponse,
{
    if !valid_invitation_code(sent.code.as_str()) {
        return Err(BusinessServiceError::InvalidResponse);
    }
    let views = match sent.pv {
        Some(views) => {
            if views > MAX_SAFE_INTEGER {
                return Err(BusinessServiceError::InvalidResponse);
            }
            views
        },
        None => 0,
    };
    let created_at_unix_ms = match sent.created_at {
        Some(at) => match production_unix_seconds(at) {
            Ok(ms) => Some(ms),
            Err(error) => return Err(error),
        },
        None => None,
    };
    let status = match sent.status {
        Some(true) => InvitationCodeStatus::Used,
        Some(false) => InvitationCodeStatus::Available,
        None => InvitationCodeStatus::Unknown,
    };
    Ok(InvitationCode { code: sent.code.clone(), status, views, created_at_unix_ms })
}

/// Checks the invitation center the service sent and turns it into what the
/// client shows; anything out of shape is an invalid response.
pub fn decode_invitation_center(data: InvitationCenterData) -> (r: Result<
    InvitationCenter,
    BusinessServiceError,
>)
    ensures
        r is Ok <==> invitation_center_accepted(data),
        r matches Ok(center) ==> invitation_center_shown(center, data),
        r matches Err(e) ==> e == BusinessServiceError::InvalidResponse,
{
    let empty: Vec<InvitationCodeData> = Vec::new();
    let source: &Vec<InvitationCodeData> = match &data.codes {
        Some(codes) => codes,
        None => &empty,
    };
    assert(source@ == invitation_codes_of(data));
    if source.len() > MAX_PUBLIC_INVITATION_CODES {
        return Err(BusinessServiceError::InvalidResponse);
    }
    let stat = match &data.stat {
        Some(stat) => stat,
        None => return Err(BusinessServiceError::InvalidResponse),
    };
    if stat.len() != 5 || stat[0] > MAX_SAFE_INTEGER || stat[1] > MAX_SAFE_INTEGER || stat[2]
        > MAX_SAFE_INTEGER || stat[3] > MAX_SAFE_INTEGER {
        return Err(BusinessServiceError::InvalidResponse);
    }
    let stats = InvitationStats {
        registered_users: stat[0],
        total_commission: stat[1],
        pending_commission: stat[2],
        commission_rate_percent: stat[3],
    };
    let mut codes: Vec<InvitationCode> = Vec::new();
    let mut i: usize = 0;
    while i < source.len()
        invariant
            i <= source@.len(),
            source@ == invitation_codes_of(data),
            codes@.len() == i,
            forall|k: int| 0 <= k < i ==> invitation_code_accepted(#[trigger] source@[k]),
            forall|k: int|
                0 <= k < i ==> invitation_code_shown(#[trigger] codes@[k], source@[k]),
        decreases source@.len() - i,
    {
        match decode_invitation_code(&source[i]) {
            Ok(code) => codes.push(code),
            Err(error) => {
                assert(!invitation_code_accepted(source@[i as int]));
                return Err(error);
            },
        }
        i += 1;
    }
    Ok(InvitationCenter { stats, codes })
}

pub const MAX_PLAN_NAME_BYTES: usize = 256;
pub const MAX_PLAN_DESCRIPTION_BYTES: usize = 65536;
pub const GIB_BYTES: u64 = 1073741824;

/// One plan as the service sends it. Each price is in minor units of CNY,
/// rounded from what the service sent, and is absent where the service sent
/// none, or one that is not a positive number within the safe range.
pub struct PlanData {
    pub id: u64,
    pub show: Option<bool>,
    pub name: String,
    pub content: Option<String>,
    pub transfer_enable: Option<u64>,
    pub month_price: Option<u64>,
    pub quarter_price: Option<u64>,
    pub half_year_price: Option<u64>,
    pub year_price: Option<u64>,
    pub two_year_price: Option<u64>,
    pub three_year_price: Option<u64>,
    pub onetime_price: Option<u64>,
}

/// One purchasable offer: a plan for one billing period. The price is in
/// minor units of CNY.
#[derive(Debug, Clone)]
pub struct PlanOffer {
    pub plan_id: String,
    pub name: String,
    pub description_html: Option<String>,
    pub price_minor_units: u64,
    pub billing_period_days: u64,
    pub traffic_bytes: Option<u64>,
}

/// The billing periods, in the order the offers of a plan are listed.
pub const PLAN_PERIODS: usize = 7;

/// The name of billing period `k`, as it stands in an offer's id.
pub open spec fn plan_period_name(k: int) -> Seq<u8> {
    if k == 0 {
        seq![109u8, 111u8, 110u8, 116u8, 104u8, 95u8, 112u8, 114u8, 105u8, 99u8, 101u8]
    } else if k == 1 {
        seq![113u8, 117u8, 97u8, 114u8, 116u8, 101u8, 114u8, 95u8, 112u8, 114u8, 105u8, 99u8, 101u8]
    } else if k == 2 {
        seq![104u8, 97u8, 108u8, 102u8, 95u8, 121u8, 101u8, 97u8, 114u8, 95u8, 112u8, 114u8, 105u8, 99u8, 101u8]
    } else if k == 3 {
        seq![121u8, 101u8, 97u8, 114u8, 95u8, 112u8, 114u8, 105u8, 99u8, 101u8]
    } else if k == 4 {
        seq![116u8, 119u8, 111u8, 95u8, 121u8, 101u8, 97u8, 114u8, 95u8, 112u8, 114u8, 105u8, 99u8, 101u8]
    } else if k == 5 {
        seq![116u8, 104u8, 114u8, 101u8, 101u8, 95u8, 121u8, 101u8, 97u8, 114u8, 95u8, 112u8, 114u8, 105u8, 99u8, 101u8]
    } else {
        seq![111u8, 110u8, 101u8, 116u8, 105u8, 109u8, 101u8, 95u8, 112u8, 114u8, 105u8, 99u8, 101u8]
    }
}

/// The days of billing period `k`; zero for a one-time price.
pub open spec fn plan_period_days(k: int) -> u64 {
    if k == 0 {
        30
    } else if k == 1 {
        90
    } else if k == 2 {
        180
    } else if k == 3 {
        365
    } else if k == 4 {
        730
    } else if k == 5 {
        1095
    } else {
        0
    }
}

/// The price of `plan` for billing period `k`.
pub open spec fn plan_price(plan: PlanData, k: int) -> Option<u64> {
    if k == 0 {
        plan.month_price
    } else if k == 1 {
        plan.quarter_price
    } else if k == 2 {
        plan.half_year_price
    } else if k == 3 {
        plan.year_price
    } else if k == 4 {
        plan.two_year_price
    } else if k == 5 {
        plan.three_year_price
    } else {
        plan.onetime_price
    }
}

fn period_name(k: usize) -> (r: Vec<u8>)
    requires
        k < PLAN_PERIODS,
    ensures
        r@ == plan_period_name(k as int),
        all_ascii(r@),
{
    let r = match k {
        0 => vec![109u8, 111u8, 110u8, 116u8, 104u8, 95u8, 112u8, 114u8, 105u8, 99u8, 101u8],
        1 => vec![113u8, 117u8, 97u8, 114u8, 116u8, 101u8, 114u8, 95u8, 112u8, 114u8, 105u8, 99u8, 101u8],
        2 => vec![104u8, 97u8, 108u8, 102u8, 95u8, 121u8, 101u8, 97u8, 114u8, 95u8, 112u8, 114u8, 105u8, 99u8, 101u8],
        3 => vec![121u8, 101u8, 97u8, 114u8, 95u8, 112u8, 114u8, 105u8, 99u8, 101u8],
        4 => vec![116u8, 119u8, 111u8, 95u8, 121u8, 101u8, 97u8, 114u8, 95u8, 112u8, 114u8, 105u8, 99u8, 101u8],
        5 => vec![116u8, 104u8, 114u8, 101u8, 101u8, 95u8, 121u8, 101u8, 97u8, 114u8, 95u8, 112u8, 114u8, 105u8, 99u8, 101u8],
        _ => vec![111u8, 110u8, 101u8, 116u8, 105u8, 109u8, 101u8, 95u8, 112u8, 114u8, 105u8, 99u8, 101u8],
    };
    assert(r@ =~= plan_period_name(k as int));
    r
}

fn period_days(k: usize) -> (r: u64)
    requires
        k < PLAN_PERIODS,
    ensures
        r == plan_period_days(k as int),
{
    match k {
        0 => 30,
        1 => 90,
        2 => 180,
        3 => 365,
        4 => 730,
        5 => 1095,
        _ => 0,
    }
}

fn period_price(plan: &PlanData, k: usize) -> (r: Option<u64>)
    requires
        k < PLAN_PERIODS,
    ensures
        r == plan_price(*plan, k as int),
{
    match k {
        0 => plan.month_price,
        1 => plan.quarter_price,
        2 => plan.half_year_price,
        3 => plan.year_price,
        4 => plan.two_year_price,
        5 => plan.three_year_price,
        _ => plan.onetime_price,
    }
}

/// A plan the client does not list: no id, or marked hidden.
pub open spec fn plan_skipped(plan: PlanData) -> bool {
    plan.id == 0 || plan.show == Some(false)
}

/// The name a plan is listed under.
pub open spec fn plan_name(plan: PlanData) -> Seq<char> {
    trimmed(plan.name@)
}

/// The description a plan is listed with: its trimmed content, unless empty.
pub open spec fn plan_description(plan: PlanData) -> Option<Seq<char>> {
    match plan.content {
        Some(content) => if trimmed(content@).len() == 0 {
            None
        } else {
            Some(trimmed(content@))
        },
        None => None,
    }
}

/// The traffic of a plan in bytes; the service sends it in gibibytes.
pub open spec fn plan_traffic(plan: PlanData) -> Option<u64> {
    match plan.transfer_enable {
        Some(gib) => Some((gib * GIB_BYTES) as u64),
        None => None,
    }
}

/// Whether a listed plan is accepted: a non-empty name of at most 256 bytes
/// without control characters, a description of at most 64 KiB, and a
/// traffic and prices that are safe integers.
pub open spec fn plan_valid(plan: PlanData) -> bool {
    &&& plan_name(plan).len() > 0
    &&& utf8_bytes(plan_name(plan)).len() <= MAX_PLAN_NAME_BYTES
    &&& !crate::text::has_control_char(utf8_bytes(plan_name(plan)))
    &&& (plan_description(plan) matches Some(d) ==> utf8_bytes(d).len() <= MAX_PLAN_DESCRIPTION_BYTES)
    &&& (plan.transfer_enable matches Some(gib) ==> gib * GIB_BYTES <= MAX_SAFE_INTEGER)
    &&& forall|k: int| 0 <= k < PLAN_PERIODS ==> (#[trigger] plan_price(plan, k) matches Some(p) ==> p
        <= MAX_SAFE_INTEGER)
}

/// An offer as the client sees it: id bytes, name, description, price, days
/// and traffic.
pub type OfferView = (Seq<u8>, Seq<char>, Option<Seq<char>>, u64, u64, Option<u64>);

pub open spec fn offer_view(offer: PlanOffer) -> OfferView {
    (
        utf8_bytes(offer.plan_id@),
        offer.name@,
        match offer.description_html {
            Some(d) => Some(d@),
            None => None,
        },
        offer.price_minor_units,
        offer.billing_period_days,
        offer.traffic_bytes,
    )
}

pub open spec fn offers_view(offers: Seq<PlanOffer>) -> Seq<OfferView> {
    offers.map_values(|offer: PlanOffer| offer_view(offer))
}

/// The offer of `plan` for billing period `k`, at price `price`.
pub open spec fn plan_offer(plan: PlanData, k: int, price: u64) -> OfferView {
    (
        crate::data_plane_config::decimal_text(plan.id as nat) + seq![58u8] + plan_period_name(k),
        plan_name(plan),
        plan_description(plan),
        price,
        plan_period_days(k),
        plan_traffic(plan),
    )
}

/// The offers of a listed plan for its first `k` billing periods, one for
/// each period with a price.
pub open spec fn plan_offers_upto(plan: PlanData, k: int) -> Seq<OfferView>
    decreases k,
{
    if k <= 0 {
        Seq::empty()
    } else {
        plan_offers_upto(plan, k - 1) + match plan_price(plan, k - 1) {
            Some(price) => seq![plan_offer(plan, k - 1, price)],
            None => Seq::empty(),
        }
    }
}

/// The offers of a plan: none for a skipped one.
pub open spec fn plan_offers(plan: PlanData) -> Seq<OfferView> {
    if plan_skipped(plan) {
        Seq::empty()
    } else {
        plan_offers_upto(plan, PLAN_PERIODS as int)
    }
}

/// The offers of `plans`, plan by plan.
pub open spec fn plans_offers(plans: Seq<PlanData>) -> Seq<OfferView>
    decreases plans.len(),
{
    if plans.len() == 0 {
        Seq::empty()
    } else {
        plans_offers(plans.drop_last()) + plan_offers(plans.last())
    }
}

/// Whether the plans the service sent are accepted: at most
/// `MAX_PUBLIC_PLANS` plans, each listed one valid, and at most
/// `MAX_PUBLIC_PLANS` offers in all.
pub open spec fn plans_accepted(plans: Seq<PlanData>) -> bool {
    &&& plans.len() <= MAX_PUBLIC_PLANS
    &&& forall|i: int| 0 <= i < plans.len() && !plan_skipped(#[trigger] plans[i]) ==> plan_valid(plans[i])
    &&& plans_offers(plans).len() <= MAX_PUBLIC_PLANS
}

fn push_decimal_u64(out: &mut Vec<u8>, n: u64)
    ensures
        final(out)@ == old(out)@ + crate::data_plane_config::decimal_text(n as nat),
    decreases n,
{
    if n >= 10 {
        push_decimal_u64(out, n / 10);
    }
    out.push((48 + n % 10) as u8);
    proof {
        assert(final(out)@ =~= old(out)@ + crate::data_plane_config::decimal_text(n as nat));
    }
}

proof fn lemma_decimal_ascii(n: nat)
    ensures
        all_ascii(crate::data_plane_config::decimal_text(n)),
    decreases n,
{
    if n >= 10 {
        lemma_decimal_ascii(n / 10);
    }
}

/// The offer of a listed plan for billing period `k`.
fn plan_offer_at(
    plan: &PlanData,
    k: usize,
    price: u64,
    name: &String,
    description: &Option<String>,
    traffic: Option<u64>,
) -> (r: PlanOffer)
    requires
        k < PLAN_PERIODS,
        name@ == plan_name(*plan),
        match description {
            Some(d) => plan_description(*plan) == Some(d@),
            None => plan_description(*plan) is None,
        },
        traffic == plan_traffic(*plan),
    ensures
        offer_view(r) == plan_offer(*plan, k as int, price),
{
    let mut id: Vec<u8> = Vec::new();
    push_decimal_u64(&mut id, plan.id);
    id.push(58u8);
    let period = period_name(k);
    let mut j: usize = 0;
    let ghost start = id@;
    while j < period.len()
        invariant
            j <= period@.len(),
            id@ == start + period@.subrange(0, j as int),
        decreases period@.len() - j,
    {
        id.push(period[j]);
        proof {
            assert(period@.subrange(0, j as int + 1) =~= period@.subrange(0, j as int).push(period@[j as int]));
        }
        j += 1;
    }
    proof {
        assert(period@.subrange(0, period@.len() as int) =~= period@);
        lemma_decimal_ascii(plan.id as nat);
        assert(all_ascii(id@));
    }
    let description_html = match description {
        Some(d) => Some(d.clone()),
        None => None,
    };
    PlanOffer {
        plan_id: crate::text::string_from_ascii(id),
        name: name.clone(),
        description_html,
        price_minor_units: price,
        billing_period_days: period_days(k),
        traffic_bytes: traffic,
    }
}

/// Checks one plan and appends its offers, at most up to `MAX_PUBLIC_PLANS`
/// offers in all.
fn push_plan_offers(plan: &PlanData, offers: &mut Vec<PlanOffer>) -> (r: Result<(), BusinessServiceError>)
    requires
        !plan_skipped(*plan),
        old(offers)@.len() <= MAX_PUBLIC_PLANS,
    ensures
        r is Ok <==> plan_valid(*plan) && old(offers)@.len() + plan_offers(*plan).len()
            <= MAX_PUBLIC_PLANS,
        r is Ok ==> offers_view(final(offers)@) == offers_view(old(offers)@) + plan_offers(*plan),
        r matches Err(e) ==> e == BusinessServiceError::InvalidResponse,
{
    let name = trim_text(plan.name.as_str());
    let name_bytes = name.as_str().as_bytes();
    if name.unicode_len() == 0 || name_bytes.len() > MAX_PLAN_NAME_BYTES
        || crate::text::bytes_have_control_char(name_bytes) {
        return Err(BusinessServiceError::InvalidResponse);
    }
    let description: Option<String> = match &plan.content {
        Some(content) => {
            let trimmed_content = trim_text(content.as_str());
            if trimmed_content.unicode_len() == 0 {
                None
            } else if trimmed_content.as_str().as_bytes().len() > MAX_PLAN_DESCRIPTION_BYTES {
                return Err(BusinessServiceError::InvalidResponse);
            } else {
                Some(trimmed_content)
            }
        },
        None => None,
    };
    let traffic: Option<u64> = match plan.transfer_enable {
        Some(gib) => match gib.checked_mul(GIB_BYTES) {
            Some(bytes) => if bytes <= MAX_SAFE_INTEGER {
                Some(bytes)
            } else {
                return Err(BusinessServiceError::InvalidResponse);
            },
            None => return Err(BusinessServiceError::InvalidResponse),
        },
        None => None,
    };
    let ghost before = offers_view(offers@);
    let mut k: usize = 0;
    while k < PLAN_PERIODS
        invariant
            k <= PLAN_PERIODS,
            !plan_skipped(*plan),
            name@ == plan_name(*plan),
            match description {
                Some(d) => plan_description(*plan) == Some(d@),
                None => plan_description(*plan) is None,
            },
            traffic == plan_traffic(*plan),
            offers_view(offers@) == before + plan_offers_upto(*plan, k as int),
            forall|m: int| 0 <= m < k ==> (#[trigger] plan_price(*plan, m) matches Some(p) ==> p
                <= MAX_SAFE_INTEGER),
            offers@.len() <= MAX_PUBLIC_PLANS,
            before.len() == old(offers)@.len(),
        decreases PLAN_PERIODS - k,
    {
        let ghost upto = plan_offers_upto(*plan, k as int);
        match period_price(plan, k) {
            Some(price) => {
                if offers.len() >= MAX_PUBLIC_PLANS || price > MAX_SAFE_INTEGER {
                    proof {
                        lemma_offers_upto_grow(*plan, k as int + 1, PLAN_PERIODS as int);
                    }
                    return Err(BusinessServiceError::InvalidResponse);
                }
                let offer = plan_offer_at(plan, k, price, &name, &description, traffic);
                let ghost prior = offers@;
                offers.push(offer);
                proof {
                    assert(offers@ =~= prior.push(offer));
                    assert(offers_view(offers@) =~= offers_view(prior).push(offer_view(offer)));
                    assert(plan_offers_upto(*plan, k as int + 1) =~= upto + seq![
                        plan_offer(*plan, k as int, price),
                    ]);
                }
            },
            None => {
                proof {
                    assert(plan_offers_upto(*plan, k as int + 1) =~= upto);
                }
            },
        }
        k += 1;
    }
    Ok(())
}

/// The offers listed for the first `j` periods are no more than those for the
/// first `k`, for `j <= k`.
proof fn lemma_offers_upto_grow(plan: PlanData, j: int, k: int)
    requires
        j <= k,
    ensures
        plan_offers_upto(plan, j).len() <= plan_offers_upto(plan, k).len(),
    decreases k - j,
{
    if j < k {
        lemma_offers_upto_grow(plan, j, k - 1);
    }
}

/// The offers of a prefix of the plans are no more than those of all of them.
proof fn lemma_plans_offers_grow(plans: Seq<PlanData>, i: int)
    requires
        0 <= i <= plans.len(),
    ensures
        plans_offers(plans.take(i)).len() <= plans_offers(plans).len(),
    decreases plans.len() - i,
{
    if i < plans.len() {
        lemma_plans_offers_grow(plans, i + 1);
        assert(plans.take(i + 1).drop_last() =~= plans.take(i));
    } else {
        assert(plans.take(i) =~= plans);
    }
}

/// Checks the plans the service sent and lists their offers, plan by plan and
/// period by period; anything out of shape is an invalid response.
pub fn decode_plans(plans: Vec<PlanData>) -> (r: Result<Vec<PlanOffer>, BusinessServiceError>)
    ensures
        r is Ok <==> plans_accepted(plans@),
        r matches Ok(offers) ==> offers_view(offers@) == plans_offers(plans@),
        r matches Err(e) ==> e == BusinessServiceError::InvalidResponse,
{
    if plans.len() > MAX_PUBLIC_PLANS {
        return Err(BusinessServiceError::InvalidResponse);
    }
    let mut offers: Vec<PlanOffer> = Vec::new();
    let mut i: usize = 0;
    while i < plans.len()
        invariant
            i <= plans@.len(),
            plans@.len() <= MAX_PUBLIC_PLANS,
            offers_view(offers@) == plans_offers(plans@.take(i as int)),
            offers@.len() <= MAX_PUBLIC_PLANS,
            forall|m: int| 0 <= m < i && !plan_skipped(#[trigger] plans@[m]) ==> plan_valid(plans@[m]),
        decreases plans@.len() - i,
    {
        let plan = &plans[i];
        proof {
            assert(plans@.take(i as int + 1).drop_last() =~= plans@.take(i as int));
            assert(plans@.take(i as int + 1).last() == plans@[i as int]);
        }
        if !(plan.id == 0 || plan.show == Some(false)) {
            let ghost prior = offers@;
            match push_plan_offers(plan, &mut offers) {
                Ok(()) => {
                    assert(offers_view(offers@).len() == offers@.len());
                    assert(offers_view(prior).len() == prior.len());
                },
                Err(error) => {
                    proof {
                        lemma_plans_offers_grow(plans@, i as int + 1);
                    }
                    return Err(error);
                },
            }
        }
        i += 1;
    }
    proof {
        assert(plans@.take(plans@.len() as int) =~= plans@);
    }
    Ok(offers)
}

/// One message of a ticket as the service sends it.
pub struct TicketMessageData {
    pub id: Option<u64>,
    pub ticket_id: Option<u64>,
    pub message: Option<String>,
    pub created_at: Option<u64>,
    pub updated_at: Option<u64>,
    pub is_me: Option<bool>,
}

/// A ticket as the service sends it.
pub struct TicketDetailData {
    pub id: Option<u64>,
    pub subject: Option<String>,
    pub created_at: Option<u64>,
    pub updated_at: Option<u64>,
    pub status: Option<u64>,
    pub message: Option<Vec<TicketMessageData>>,
}

#[derive(Debug, Clone, Copy, PartialEq, Eq, Structural)]
pub enum TicketStatus {
    Open,
    Closed,
    Answered,
    Unknown,
}

/// One message of a ticket as the client shows it.
#[derive(Debug, Clone)]
pub struct TicketMessage {
    pub message_id: String,
    pub from_user: bool,
    pub body: String,
    pub created_at_unix_ms: u64,
}

/// A ticket as the client shows it.
#[derive(Debug, Clone)]
pub struct TicketDetail {
    pub ticket_id: String,
    pub status: TicketStatus,
    pub subject: String,
    pub created_at_unix_ms: u64,
    pub updated_at_unix_ms: u64,
    pub messages: Vec<TicketMessage>,
}

/// What a ticket's status code means.
pub open spec fn spec_ticket_status(status: Option<u64>) -> TicketStatus {
    match status {
        Some(code) => if code == 0 {
            TicketStatus::Open
        } else if code == 1 {
            TicketStatus::Closed
        } else if code == 2 {
            TicketStatus::Answered
        } else {
            TicketStatus::Unknown
        },
        None => TicketStatus::Unknown,
    }
}

/// A trimmed text of at most `max` bytes that is not empty and holds only
/// characters a ticket may show.
pub open spec fn ticket_text_ok(text: Seq<char>, max: nat) -> bool {
    &&& trimmed(text).len() > 0
    &&& utf8_bytes(trimmed(text)).len() <= max
    &&& !has_unsafe_ticket_char(utf8_bytes(trimmed(text)))
}

/// The first of two optional times that is present.
pub open spec fn first_time(first: Option<u64>, second: Option<u64>) -> Option<u64> {
    match first {
        Some(t) => Some(t),
        None => second,
    }
}

/// Whether a message the service sent for ticket `ticket` is accepted: a
/// positive safe id, the ticket's id, a text of at most 64 KiB, a time, and
/// who wrote it.
pub open spec fn ticket_message_accepted(message: TicketMessageData, ticket: u64) -> bool {
    &&& message.id matches Some(id) && 0 < id <= MAX_SAFE_INTEGER
    &&& message.ticket_id == Some(ticket)
    &&& message.message matches Some(text) && ticket_text_ok(text@, 65536)
    &&& first_time(message.created_at, message.updated_at) matches Some(t) && spec_unix_millis(t) is Some
    &&& message.is_me is Some
}

/// Whether `shown` is what the client shows of the accepted `sent` message.
pub open spec fn ticket_message_shown(shown: TicketMessage, sent: TicketMessageData) -> bool {
    &&& utf8_bytes(shown.message_id@) == crate::data_plane_config::decimal_text(sent.id->0 as nat)
    &&& shown.from_user == sent.is_me->0
    &&& shown.body@ == trimmed(sent.message->0@)
    &&& Some(shown.created_at_unix_ms) == spec_unix_millis(
        first_time(sent.created_at, sent.updated_at)->0,
    )
}

/// The messages the service sent; none when it sent no list.
pub open spec fn ticket_messages_of(data: TicketDetailData) -> Seq<TicketMessageData> {
    match data.message {
        Some(messages) => messages@,
        None => Seq::empty(),
    }
}

/// Whether the ticket the service sent for `ticket_id` is accepted: the id
/// is a positive number that the ticket carries, the subject a text of at
/// most 512 bytes, the times convert, and at most
/// `MAX_PUBLIC_TICKET_MESSAGES` messages, each accepted.
pub open spec fn ticket_detail_accepted(data: TicketDetailData, ticket_id: Seq<char>) -> bool {
    &&& parsed_u64(utf8_bytes(ticket_id)) matches Some(n) && n > 0 && data.id == Some(n)
    &&& data.subject matches Some(subject) && ticket_text_ok(subject@, 512)
    &&& data.created_at matches Some(c) && spec_unix_millis(c) is Some
    &&& first_time(data.updated_at, data.created_at) matches Some(u) && spec_unix_millis(u) is Some
    &&& ticket_messages_of(data).len() <= MAX_PUBLIC_TICKET_MESSAGES
    &&& forall|i: int|
        0 <= i < ticket_messages_of(data).len() ==> ticket_message_accepted(
            #[trigger] ticket_messages_of(data)[i],
            data.id->0,
        )
}

/// Whether `detail` is what the client shows of the accepted `data`.
pub open spec fn ticket_detail_shown(detail: TicketDetail, data: TicketDetailData, ticket_id: Seq<char>) -> bool {
    &&& detail.ticket_id@ == ticket_id
    &&& detail.status == spec_ticket_status(data.status)
    &&& detail.subject@ == trimmed(data.subject->0@)
    &&& Some(detail.created_at_unix_ms) == spec_unix_millis(data.created_at->0)
    &&& Some(detail.updated_at_unix_ms) == spec_unix_millis(
        first_time(data.updated_at, data.created_at)->0,
    )
    &&& detail.messages@.len() == ticket_messages_of(data).len()
    &&& forall|i: int|
        0 <= i < detail.messages@.len() ==> ticket_message_shown(
            #[trigger] detail.messages@[i],
            ticket_messages_of(data)[i],
        )
}

/// Trims a ticket text and checks it; `None` where it is not shown.
fn ticket_text(text: &Option<String>, max: usize) -> (r: Option<String>)
    ensures
        r is Some <==> (text matches Some(t) && ticket_text_ok(t@, max as nat)),
        r matches Some(shown) ==> shown@ == trimmed(text->0@),
{
    match text {
        Some(t) => {
            let trimmed_text = trim_text(t.as_str());
            let bytes = trimmed_text.as_str().as_bytes();
            if trimmed_text.unicode_len() == 0 || bytes.len() > max || !is_safe_ticket_text(
                trimmed_text.as_str(),
            ) {
                None
            } else {
                Some(trimmed_text)
            }
        },
        None => None,
    }
}

fn decode_ticket_message(sent: &TicketMessageData, ticket: u64) -> (r: Result<
    TicketMessage,
    BusinessServiceError,
>)
    ensures
        r is Ok <==> ticket_message_accepted(*sent, ticket),
        r matches Ok(shown) ==> ticket_message_shown(shown, *sent),
        r matches Err(e) ==> e == BusinessServiceError::InvalidResponse,
{
    let id = match sent.id {
        Some(id) => if 0 < id && id <= MAX_SAFE_INTEGER {
            id
        } else {
            return Err(BusinessServiceError::InvalidResponse);
        },
        None => return Err(BusinessServiceError::InvalidResponse),
    };
    let mut digits: Vec<u8> = Vec::new();
    push_decimal_u64(&mut digits, id);
    proof {
        lemma_decimal_ascii(id as nat);
        assert(digits@ =~= crate::data_plane_config::decimal_text(id as nat));
    }
    let message_id = crate::text::string_from_ascii(digits);
    match sent.ticket_id {
        Some(t) => if t != ticket {
            return Err(BusinessServiceError::InvalidResponse);
        },
        None => return Err(BusinessServiceError::InvalidResponse),
    }
    let body = match ticket_text(&sent.message, 65536) {
        Some(body) => body,
        None => return Err(BusinessServiceError::InvalidResponse),
    };
    let at = match sent.created_at {
        Some(t) => t,
        None => match sent.updated_at {
            Some(t) => t,
            None => return Err(BusinessServiceError::InvalidResponse),
        },
    };
    let created_at_unix_ms = match production_unix_seconds(at) {
        Ok(ms) => ms,
        Err(error) => return Err(error),
    };
    let from_user = match sent.is_me {
        Some(me) => me,
        None => return Err(BusinessServiceError::InvalidResponse),
    };
    Ok(TicketMessage { message_id, from_user, body, created_at_unix_ms })
}

/// Checks the ticket the service sent for `ticket_id` and turns it into what
/// the client shows; anything out of shape is an invalid response.
pub fn decode_ticket_detail(data: TicketDetailData, ticket_id: &str) -> (r: Result<
    TicketDetail,
    BusinessServiceError,
>)
    ensures
        r is Ok <==> ticket_detail_accepted(data, ticket_id@),
        r matches Ok(detail) ==> ticket_detail_shown(detail, data, ticket_id@),
        r matches Err(e) ==> e == BusinessServiceError::InvalidResponse,
{
    let ticket = match parse_u64_text(ticket_id.as_bytes()) {
        Some(n) => if n > 0 {
            n
        } else {
            return Err(BusinessServiceError::InvalidResponse);
        },
        None => return Err(BusinessServiceError::InvalidResponse),
    };
    match data.id {
        Some(id) => if id != ticket {
            return Err(BusinessServiceError::InvalidResponse);
        },
        None => return Err(BusinessServiceError::InvalidResponse),
    }
    let subject = match ticket_text(&data.subject, 512) {
        Some(subject) => subject,
        None => return Err(BusinessServiceError::InvalidResponse),
    };
    let created = match data.created_at {
        Some(c) => c,
        None => return Err(BusinessServiceError::InvalidResponse),
    };
    let created_at_unix_ms = match production_unix_seconds(created) {
        Ok(ms) => ms,
        Err(error) => return Err(error),
    };
    let updated = match data.updated_at {
        Some(u) => u,
        None => created,
    };
    let updated_at_unix_ms = match production_unix_seconds(updated) {
        Ok(ms) => ms,
        Err(error) => return Err(error),
    };
    let status = match data.status {
        Some(0) => TicketStatus::Open,
        Some(1) => TicketStatus::Closed,
        Some(2) => TicketStatus::Answered,
        _ => TicketStatus::Unknown,
    };
    let empty: Vec<TicketMessageData> = Vec::new();
    let source: &Vec<TicketMessageData> = match &data.message {
        Some(messages) => messages,
        None => &empty,
    };
    assert(source@ == ticket_messages_of(data));
    if source.len() > MAX_PUBLIC_TICKET_MESSAGES {
        return Err(BusinessServiceError::InvalidResponse);
    }
    let mut messages: Vec<TicketMessage> = Vec::new();
    let mut i: usize = 0;
    while i < source.len()
        invariant
            i <= source@.len(),
            source@ == ticket_messages_of(data),
            data.id == Some(ticket),
            messages@.len() == i,
            forall|k: int| 0 <= k < i ==> ticket_message_accepted(#[trigger] source@[k], ticket),
            forall|k: int| 0 <= k < i ==> ticket_message_shown(#[trigger] messages@[k], source@[k]),
        decreases source@.len() - i,
    {
        match decode_ticket_message(&source[i], ticket) {
            Ok(message) => messages.push(message),
            Err(error) => {
                assert(!ticket_message_accepted(source@[i as int], ticket));
                return Err(error);
            },
        }
        i += 1;
    }
    Ok(TicketDetail {
        ticket_id: ticket_id.to_string(),
        status,
        subject,
        created_at_unix_ms,
        updated_at_unix_ms,
        messages,
    })
}


/// One ticket of the list as the service sends it.
pub struct TicketData {
    pub id: Option<u64>,
    pub subject: Option<String>,
    pub status: Option<u64>,
    pub created_at: Option<u64>,
    pub updated_at: Option<u64>,
}

/// One ticket of the list as the client shows it.
#[derive(Debug, Clone)]
pub struct Ticket {
    pub ticket_id: String,
    pub status: TicketStatus,
    pub subject: String,
    pub last_message_at_unix_ms: u64,
    pub closed_at_unix_ms: Option<u64>,
}

/// A listed ticket's subject: trimmed, 1 to 512 bytes, and no control
/// characters at all.
pub open spec fn ticket_subject_ok(text: Seq<char>) -> bool {
    &&& trimmed(text).len() > 0
    &&& utf8_bytes(trimmed(text)).len() <= 512
    &&& !crate::text::has_control_char(utf8_bytes(trimmed(text)))
}

/// Whether a listed ticket is accepted: a positive safe id, a subject, and a
/// time of the last change (or of creation) that converts.
pub open spec fn ticket_accepted(ticket: TicketData) -> bool {
    &&& ticket.id matches Some(id) && 0 < id <= MAX_SAFE_INTEGER
    &&& ticket.subject matches Some(subject) && ticket_subject_ok(subject@)
    &&& first_time(ticket.updated_at, ticket.created_at) matches Some(t) && spec_unix_millis(t) is Some
}

/// Whether `shown` is what the client shows of the accepted `sent` ticket; a
/// closed ticket was closed when it last changed.
pub open spec fn ticket_shown(shown: Ticket, sent: TicketData) -> bool {
    &&& utf8_bytes(shown.ticket_id@) == crate::data_plane_config::decimal_text(sent.id->0 as nat)
    &&& shown.status == spec_ticket_status(sent.status)
    &&& shown.subject@ == trimmed(sent.subject->0@)
    &&& Some(shown.last_message_at_unix_ms) == spec_unix_millis(
        first_time(sent.updated_at, sent.created_at)->0,
    )
    &&& shown.closed_at_unix_ms == if shown.status == TicketStatus::Closed {
        Some(shown.last_message_at_unix_ms)
    } else {
        None
    }
}

/// Whether the ticket list is accepted: at most `MAX_PUBLIC_TICKETS`, each
/// accepted.
pub open spec fn tickets_accepted(data: Seq<TicketData>) -> bool {
    &&& data.len() <= MAX_PUBLIC_TICKETS
    &&& forall|i: int| 0 <= i < data.len() ==> ticket_accepted(#[trigger] data[i])
}

fn decode_ticket(sent: &TicketData) -> (r: Result<Ticket, BusinessServiceError>)
    ensures
        r is Ok <==> ticket_accepted(*sent),
        r matches Ok(shown) ==> ticket_shown(shown, *sent),
        r matches Err(e) ==> e == BusinessServiceError::InvalidResponse,
{
    let id = match sent.id {
        Some(id) => if 0 < id && id <= MAX_SAFE_INTEGER {
            id
        } else {
            return Err(BusinessServiceError::InvalidResponse);
        },
        None => return Err(BusinessServiceError::InvalidResponse),
    };
    let mut digits: Vec<u8> = Vec::new();
    push_decimal_u64(&mut digits, id);
    proof {
        lemma_decimal_ascii(id as nat);
        assert(digits@ =~= crate::data_plane_config::decimal_text(id as nat));
    }
    let ticket_id = crate::text::string_from_ascii(digits);
    let subject = match &sent.subject {
        Some(text) => {
            let t = trim_text(text.as_str());
            let bytes = t.as_str().as_bytes();
            if t.unicode_len() == 0 || bytes.len() > 512 || crate::text::bytes_have_control_char(
                bytes,
            ) {
                return Err(BusinessServiceError::InvalidResponse);
            }
            t
        },
        None => return Err(BusinessServiceError::InvalidResponse),
    };
    let at = match sent.updated_at {
        Some(t) => t,
        None => match sent.created_at {
            Some(t) => t,
            None => return Err(BusinessServiceError::InvalidResponse),
        },
    };
    let last_message_at_unix_ms = match production_unix_seconds(at) {
        Ok(ms) => ms,
        Err(error) => return Err(error),
    };
    let status = match sent.status {
        Some(0) => TicketStatus::Open,
        Some(1) => TicketStatus::Closed,
        Some(2) => TicketStatus::Answered,
        _ => TicketStatus::Unknown,
    };
    let closed_at_unix_ms = match status {
        TicketStatus::Closed => Some(last_message_at_unix_ms),
        _ => None,
    };
    Ok(Ticket { ticket_id, status, subject, last_message_at_unix_ms, closed_at_unix_ms })
}

/// Checks the ticket list the service sent and turns it into what the client
/// shows, in the same order; anything out of shape is an invalid response.
pub fn decode_tickets(data: Vec<TicketData>) -> (r: Result<Vec<Ticket>, BusinessServiceError>)
    ensures
        r is Ok <==> tickets_accepted(data@),
        r matches Ok(tickets) ==> tickets@.len() == data@.len() && forall|i: int|
            0 <= i < data@.len() ==> ticket_shown(#[trigger] tickets@[i], data@[i]),
        r matches Err(e) ==> e == BusinessServiceError::InvalidResponse,
{
    if data.len() > MAX_PUBLIC_TICKETS {
        return Err(BusinessServiceError::InvalidResponse);
    }
    let mut tickets: Vec<Ticket> = Vec::new();
    let mut i: usize = 0;
    while i < data.len()
        invariant
            i <= data@.len() <= MAX_PUBLIC_TICKETS,
            tickets@.len() == i,
            forall|k: int| 0 <= k < i ==> ticket_accepted(#[trigger] data@[k]),
            forall|k: int| 0 <= k < i ==> ticket_shown(#[trigger] tickets@[k], data@[k]),
        decreases data@.len() - i,
    {
        match decode_ticket(&data[i]) {
            Ok(ticket) => tickets.push(ticket),
            Err(error) => {
                assert(!ticket_accepted(data@[i as int]));
                return Err(error);
            },
        }
        i += 1;
    }
    Ok(tickets)
}


pub const MAX_PUBLIC_ACTIVE_SESSIONS: usize = 64;

/// One signed-in session as the service sends it, without its token.
pub struct ActiveSessionData {
    pub id: u64,
    pub name: Option<String>,
    pub last_used_at: Option<String>,
    pub created_at: Option<String>,
}

/// One signed-in session as the client shows it.
#[derive(Debug, Clone)]
pub struct ActiveSessionInfo {
    pub session_id: String,
    pub name: Option<String>,
    pub last_used_at: Option<String>,
    pub created_at: Option<String>,
}

/// What the client shows of an optional text: the trimmed text,
/// where it is not empty and is 1 to 512 bytes without control characters.
pub open spec fn cleaned_text(text: Option<String>) -> Option<Seq<char>> {
    match text {
        Some(t) => if trimmed(t@).len() > 0 && valid_gift_card_text_bytes(utf8_bytes(trimmed(t@))) {
            Some(trimmed(t@))
        } else {
            None
        },
        None => None,
    }
}

/// The view of an optional text.
pub open spec fn optional_text(text: Option<String>) -> Option<Seq<char>> {
    match text {
        Some(t) => Some(t@),
        None => None,
    }
}

/// Whether `shown` is what the client shows of the session `sent`.
pub open spec fn active_session_shown(shown: ActiveSessionInfo, sent: ActiveSessionData) -> bool {
    &&& utf8_bytes(shown.session_id@) == crate::data_plane_config::decimal_text(sent.id as nat)
    &&& optional_text(shown.name) == cleaned_text(sent.name)
    &&& optional_text(shown.last_used_at) == cleaned_text(sent.last_used_at)
    &&& optional_text(shown.created_at) == cleaned_text(sent.created_at)
}

fn clean_optional_text(text: &Option<String>) -> (r: Option<String>)
    ensures
        optional_text(r) == cleaned_text(*text),
{
    match text {
        Some(t) => {
            let trimmed_text = trim_text(t.as_str());
            if trimmed_text.unicode_len() > 0 && valid_gift_card_text(trimmed_text.as_str()) {
                Some(trimmed_text)
            } else {
                None
            }
        },
        None => None,
    }
}

/// Turns the signed-in sessions the service sent into what the client shows,
/// in the same order; more than `MAX_PUBLIC_ACTIVE_SESSIONS` is an invalid
/// response, and a text that cannot be shown is left out.
pub fn decode_active_sessions(data: Vec<ActiveSessionData>) -> (r: Result<
    Vec<ActiveSessionInfo>,
    BusinessServiceError,
>)
    ensures
        r is Ok <==> data@.len() <= MAX_PUBLIC_ACTIVE_SESSIONS,
        r matches Ok(sessions) ==> sessions@.len() == data@.len() && forall|i: int|
            0 <= i < data@.len() ==> active_session_shown(#[trigger] sessions@[i], data@[i]),
        r matches Err(e) ==> e == BusinessServiceError::InvalidResponse,
{
    if data.len() > MAX_PUBLIC_ACTIVE_SESSIONS {
        return Err(BusinessServiceError::InvalidResponse);
    }
    let mut sessions: Vec<ActiveSessionInfo> = Vec::new();
    let mut i: usize = 0;
    while i < data.len()
        invariant
            i <= data@.len(),
            sessions@.len() == i,
            forall|k: int| 0 <= k < i ==> active_session_shown(#[trigger] sessions@[k], data@[k]),
        decreases data@.len() - i,
    {
        let sent = &data[i];
        let mut digits: Vec<u8> = Vec::new();
        push_decimal_u64(&mut digits, sent.id);
        proof {
            lemma_decimal_ascii(sent.id as nat);
            assert(digits@ =~= crate::data_plane_config::decimal_text(sent.id as nat));
        }
        let session_id = crate::text::string_from_ascii(digits);
        let name = clean_optional_text(&sent.name);
        let last_used_at = clean_optional_text(&sent.last_used_at);
        let created_at = clean_optional_text(&sent.created_at);
        sessions.push(ActiveSessionInfo { session_id, name, last_used_at, created_at });
        i += 1;
    }
    Ok(sessions)
}


pub const MAX_NOTICE_TITLE_BYTES: usize = 512;

pub const MAX_NOTICE_CONTENT_BYTES: usize = 65536;

/// One notice as the service sends it.
pub struct NoticeData {
    pub title: String,
    pub content: String,
    pub show: bool,
}

/// One notice as the client shows it.
#[derive(Debug, Clone)]
pub struct Notice {
    pub title: String,
    pub content: String,
}

/// Whether a notice is shown: the service marks it shown, its trimmed title
/// is 1 to 512 bytes without control characters, and its trimmed content is
/// 1 to 64 KiB without control characters but tabs and line breaks.
pub open spec fn notice_kept(notice: NoticeData) -> bool {
    &&& notice.show
    &&& trimmed(notice.title@).len() > 0
    &&& utf8_bytes(trimmed(notice.title@)).len() <= MAX_NOTICE_TITLE_BYTES
    &&& !crate::text::has_control_char(utf8_bytes(trimmed(notice.title@)))
    &&& trimmed(notice.content@).len() > 0
    &&& utf8_bytes(trimmed(notice.content@)).len() <= MAX_NOTICE_CONTENT_BYTES
    &&& !has_unsafe_ticket_char(utf8_bytes(trimmed(notice.content@)))
}

/// The title and content the client shows of the notices it keeps, in order.
pub open spec fn kept_notices(data: Seq<NoticeData>) -> Seq<(Seq<char>, Seq<char>)>
    decreases data.len(),
{
    if data.len() == 0 {
        Seq::empty()
    } else {
        let rest = kept_notices(data.drop_last());
        if notice_kept(data.last()) {
            rest.push((trimmed(data.last().title@), trimmed(data.last().content@)))
        } else {
            rest
        }
    }
}

/// The first `MAX_PUBLIC_NOTICES` of the kept notices.
pub open spec fn shown_notices(data: Seq<NoticeData>) -> Seq<(Seq<char>, Seq<char>)> {
    let kept = kept_notices(data);
    if kept.len() <= MAX_PUBLIC_NOTICES {
        kept
    } else {
        kept.take(MAX_PUBLIC_NOTICES as int)
    }
}

/// The title and content of each notice shown.
pub open spec fn notice_views(notices: Seq<Notice>) -> Seq<(Seq<char>, Seq<char>)> {
    notices.map_values(|n: Notice| (n.title@, n.content@))
}

fn kept_notice(notice: &NoticeData) -> (r: Option<Notice>)
    ensures
        r is Some <==> notice_kept(*notice),
        r matches Some(n) ==> n.title@ == trimmed(notice.title@) && n.content@ == trimmed(
            notice.content@,
        ),
{
    if !notice.show {
        return None;
    }
    let title = trim_text(notice.title.as_str());
    let content = trim_text(notice.content.as_str());
    if title.unicode_len() == 0 || title.as_str().as_bytes().len() > MAX_NOTICE_TITLE_BYTES
        || crate::text::bytes_have_control_char(title.as_str().as_bytes())
        || content.unicode_len() == 0 || content.as_str().as_bytes().len()
        > MAX_NOTICE_CONTENT_BYTES || !is_safe_ticket_text(content.as_str()) {
        return None;
    }
    Some(Notice { title, content })
}

/// Turns the notices the service sent into what the client shows: those it
/// marks shown whose texts can be shown, trimmed, the first
/// `MAX_PUBLIC_NOTICES` of them; a total below the number sent is an
/// invalid response.
pub fn decode_notices(total: u64, data: Vec<NoticeData>) -> (r: Result<
    Vec<Notice>,
    BusinessServiceError,
>)
    ensures
        r is Ok <==> data@.len() <= total,
        r matches Ok(notices) ==> notice_views(notices@) == shown_notices(data@),
        r matches Err(e) ==> e == BusinessServiceError::InvalidResponse,
{
    if (data.len() as u64) > total {
        return Err(BusinessServiceError::InvalidResponse);
    }
    let mut notices: Vec<Notice> = Vec::new();
    let mut i: usize = 0;
    while i < data.len()
        invariant
            i <= data@.len(),
            notices@.len() <= MAX_PUBLIC_NOTICES,
            notice_views(notices@) == shown_notices(data@.take(i as int)),
        decreases data@.len() - i,
    {
        let ghost before = data@.take(i as int);
        let ghost after = data@.take(i + 1);
        assert(after.drop_last() =~= before);
        assert(after.last() == data@[i as int]);
        match kept_notice(&data[i]) {
            Some(notice) => {
                if notices.len() < MAX_PUBLIC_NOTICES {
                    let ghost previous = notices@;
                    let ghost view = (notice.title@, notice.content@);
                    notices.push(notice);
                    assert(kept_notices(after) == kept_notices(before).push(view));
                    assert(notice_views(previous).len() == previous.len());
                    assert(kept_notices(before).len() > MAX_PUBLIC_NOTICES ==> shown_notices(
                        before,
                    ).len() == MAX_PUBLIC_NOTICES);
                    assert(kept_notices(before).len() < MAX_PUBLIC_NOTICES);
                    assert(notice_views(notices@) =~= notice_views(previous).push(view));
                    assert(notice_views(notices@) =~= shown_notices(after));
                } else {
                    assert(notice_views(notices@) =~= shown_notices(after));
                }
            },
            None => {},
        }
        i += 1;
    }
    assert(data@.take(data@.len() as int) =~= data@);
    Ok(notices)
}


pub const MAX_PUBLIC_GIFT_CARD_RECORDS: usize = 100;

/// One redeemed gift card as the service sends it; its creation time is
/// already text.
pub struct GiftCardHistoryRecordData {
    pub id: u64,
    pub code: String,
    pub template_name: Option<String>,
    pub template_type_name: Option<String>,
    pub created_at: Option<String>,
}

/// One redeemed gift card as the client shows it.
#[derive(Debug, Clone)]
pub struct GiftCardHistoryRecord {
    pub record_id: String,
    pub code: String,
    pub template_name: Option<String>,
    pub template_type_name: Option<String>,
    pub created_at: Option<String>,
}

/// The gift card history as the client shows it.
#[derive(Debug, Clone)]
pub struct GiftCardHistory {
    pub records: Vec<GiftCardHistoryRecord>,
    pub total: u64,
}

/// A record's code, trimmed, is at most 64 bytes without control characters.
pub open spec fn gift_card_code_ok(code: Seq<char>) -> bool {
    &&& utf8_bytes(trimmed(code)).len() <= 64
    &&& !crate::text::has_control_char(utf8_bytes(trimmed(code)))
}

/// Whether the history is accepted: at most `MAX_PUBLIC_GIFT_CARD_RECORDS`
/// records, a safe total no smaller than the number sent, and codes that can
/// be shown.
pub open spec fn gift_card_history_accepted(records: Seq<GiftCardHistoryRecordData>, total: u64) -> bool {
    &&& records.len() <= MAX_PUBLIC_GIFT_CARD_RECORDS
    &&& records.len() <= total <= MAX_SAFE_INTEGER
    &&& forall|i: int| 0 <= i < records.len() ==> gift_card_code_ok(#[trigger] records[i].code@)
}

/// Whether `shown` is what the client shows of the record `sent`.
pub open spec fn gift_card_record_shown(shown: GiftCardHistoryRecord, sent: GiftCardHistoryRecordData) -> bool {
    &&& utf8_bytes(shown.record_id@) == crate::data_plane_config::decimal_text(sent.id as nat)
    &&& shown.code@ == trimmed(sent.code@)
    &&& optional_text(shown.template_name) == cleaned_text(sent.template_name)
    &&& optional_text(shown.template_type_name) == cleaned_text(sent.template_type_name)
    &&& optional_text(shown.created_at) == cleaned_text(sent.created_at)
}

fn decode_gift_card_record(sent: &GiftCardHistoryRecordData) -> (r: Option<GiftCardHistoryRecord>)
    ensures
        r is Some <==> gift_card_code_ok(sent.code@),
        r matches Some(shown) ==> gift_card_record_shown(shown, *sent),
{
    let code = trim_text(sent.code.as_str());
    if code.as_str().as_bytes().len() > 64 || crate::text::bytes_have_control_char(
        code.as_str().as_bytes(),
    ) {
        return None;
    }
    let mut digits: Vec<u8> = Vec::new();
    push_decimal_u64(&mut digits, sent.id);
    proof {
        lemma_decimal_ascii(sent.id as nat);
        assert(digits@ =~= crate::data_plane_config::decimal_text(sent.id as nat));
    }
    let record_id = crate::text::string_from_ascii(digits);
    Some(GiftCardHistoryRecord {
        record_id,
        code,
        template_name: clean_optional_text(&sent.template_name),
        template_type_name: clean_optional_text(&sent.template_type_name),
        created_at: clean_optional_text(&sent.created_at),
    })
}

/// Checks the gift card history the service sent, with the total it reports,
/// and turns it into what the client shows, in the same order; anything out
/// of shape is an invalid response.
pub fn decode_gift_card_history(records: Vec<GiftCardHistoryRecordData>, total: u64) -> (r: Result<
    GiftCardHistory,
    BusinessServiceError,
>)
    ensures
        r is Ok <==> gift_card_history_accepted(records@, total),
        r matches Ok(history) ==> history.total == total && history.records@.len() == records@.len()
            && forall|i: int|
            0 <= i < records@.len() ==> gift_card_record_shown(
                #[trigger] history.records@[i],
                records@[i],
            ),
        r matches Err(e) ==> e == BusinessServiceError::InvalidResponse,
{
    if records.len() > MAX_PUBLIC_GIFT_CARD_RECORDS || total < records.len() as u64 {
        return Err(BusinessServiceError::InvalidResponse);
    }
    let mut shown: Vec<GiftCardHistoryRecord> = Vec::new();
    let mut i: usize = 0;
    while i < records.len()
        invariant
            i <= records@.len(),
            shown@.len() == i,
            forall|k: int| 0 <= k < i ==> gift_card_code_ok(#[trigger] records@[k].code@),
            forall|k: int| 0 <= k < i ==> gift_card_record_shown(#[trigger] shown@[k], records@[k]),
        decreases records@.len() - i,
    {
        match decode_gift_card_record(&records[i]) {
            Some(record) => shown.push(record),
            None => return Err(BusinessServiceError::InvalidResponse),
        }
        i += 1;
    }
    if total > MAX_SAFE_INTEGER {
        return Err(BusinessServiceError::InvalidResponse);
    }
    Ok(GiftCardHistory { records: shown, total })
}


/// A time the service may report as a number, as text or not at all.
#[derive(Debug, Clone, Copy, PartialEq, Eq, Structural)]
pub enum ReportedSeconds {
    /// Absent or null.
    Missing,
    /// Seconds since the epoch.
    Seconds(u64),
    /// Something that is no count of seconds.
    Malformed,
}

/// An order as the service sends it; the fields of its plan that the client
/// reads stand beside its own.
pub struct OrderData {
    pub trade_no: Option<String>,
    pub plan_id: Option<u64>,
    pub listed_plan_id: Option<u64>,
    pub listed_plan_name: Option<String>,
    pub listed_plan_transfer_enable: Option<u64>,
    pub period: Option<String>,
    pub status: Option<u64>,
    pub total_amount: Option<u64>,
    pub created_at: Option<u64>,
    pub paid_at: ReportedSeconds,
    pub updated_at: Option<u64>,
}

#[derive(Debug, Clone, Copy, PartialEq, Eq, Structural)]
pub enum OrderStatus {
    Pending,
    Paid,
    Cancelled,
    Refunded,
    Unknown,
}

/// An order as the client lists it; the amount is in minor units of yuan.
#[derive(Debug, Clone)]
pub struct OrderSummary {
    pub order_id: String,
    pub plan_id: String,
    pub plan_name: String,
    pub billing_period_days: Option<u64>,
    pub status: OrderStatus,
    pub amount_minor_units: u64,
    pub created_at_unix_ms: u64,
    pub paid_at_unix_ms: Option<u64>,
}

/// What an order's status code means.
pub open spec fn spec_order_status(status: Option<u64>) -> OrderStatus {
    match status {
        Some(code) => if code == 0 {
            OrderStatus::Pending
        } else if code == 1 || code == 3 {
            OrderStatus::Paid
        } else if code == 2 {
            OrderStatus::Cancelled
        } else if code == 4 {
            OrderStatus::Refunded
        } else {
            OrderStatus::Unknown
        },
        None => OrderStatus::Unknown,
    }
}

/// The days of the billing period an order names; none for a name that is
/// no billing period.
pub open spec fn order_period_days(period: Option<String>) -> Option<u64> {
    match period {
        Some(p) => if exists|k: int| 0 <= k < PLAN_PERIODS && utf8_bytes(p@) == plan_period_name(k) {
            Some(
                plan_period_days(
                    choose|k: int| 0 <= k < PLAN_PERIODS && utf8_bytes(p@) == plan_period_name(k),
                ),
            )
        } else {
            None
        },
        None => None,
    }
}

/// The plan an order is for: its own plan id, else its plan's id.
pub open spec fn order_plan_id(order: OrderData) -> Option<u64> {
    match order.plan_id {
        Some(id) => Some(id),
        None => order.listed_plan_id,
    }
}

/// The plan name an order shows before trimming; a plan that is gone is
/// named as withdrawn.
pub open spec fn order_plan_name(order: OrderData) -> Seq<char> {
    match order.listed_plan_name {
        Some(name) => name@,
        None => "已下架套餐"@,
    }
}

/// What a reported time is in milliseconds, where it is one.
pub open spec fn reported_millis(at: ReportedSeconds) -> Option<Option<u64>> {
    match at {
        ReportedSeconds::Missing => Some(None),
        ReportedSeconds::Seconds(s) => match spec_unix_millis(s) {
            Some(ms) => Some(Some(ms)),
            None => None,
        },
        ReportedSeconds::Malformed => None,
    }
}

/// Whether an order is accepted: a valid order id, a positive plan id, a
/// trimmed plan name of 1 to 256 bytes without control characters, a
/// creation time and a payment time that convert, and a safe amount.
pub open spec fn order_accepted(order: OrderData) -> bool {
    &&& order.trade_no matches Some(t) && valid_order_id_bytes(utf8_bytes(t@))
    &&& order_plan_id(order) matches Some(id) && id > 0
    &&& trimmed(order_plan_name(order)).len() > 0
    &&& utf8_bytes(trimmed(order_plan_name(order))).len() <= 256
    &&& !crate::text::has_control_char(utf8_bytes(trimmed(order_plan_name(order))))
    &&& order.created_at matches Some(c) && spec_unix_millis(c) is Some
    &&& reported_millis(order.paid_at) is Some
    &&& order.total_amount matches Some(a) && a <= MAX_SAFE_INTEGER
}

/// Whether `shown` is what the client lists of the accepted `sent` order.
pub open spec fn order_shown(shown: OrderSummary, sent: OrderData) -> bool {
    &&& shown.order_id@ == sent.trade_no->0@
    &&& utf8_bytes(shown.plan_id@) == crate::data_plane_config::decimal_text(
        order_plan_id(sent)->0 as nat,
    )
    &&& shown.plan_name@ == trimmed(order_plan_name(sent))
    &&& shown.billing_period_days == order_period_days(sent.period)
    &&& shown.status == spec_order_status(sent.status)
    &&& shown.amount_minor_units == sent.total_amount->0
    &&& Some(shown.created_at_unix_ms) == spec_unix_millis(sent.created_at->0)
    &&& Some(shown.paid_at_unix_ms) == reported_millis(sent.paid_at)
}

fn billing_period_days(period: &Option<String>) -> (r: Option<u64>)
    ensures
        r == order_period_days(*period),
{
    match period {
        Some(p) => {
            let bytes = p.as_str().as_bytes();
            let mut k: usize = 0;
            while k < PLAN_PERIODS
                invariant
                    k <= PLAN_PERIODS,
                    bytes@ == utf8_bytes(p@),
                    *period == Some(*p),
                    forall|j: int| 0 <= j < k ==> utf8_bytes(p@) != plan_period_name(j),
                decreases PLAN_PERIODS - k,
            {
                let name = period_name(k);
                if crate::text::bytes_equal(bytes, name.as_slice()) {
                    assert(utf8_bytes(p@) == plan_period_name(k as int));
                    assert forall|j: int|
                        0 <= j < PLAN_PERIODS && utf8_bytes(p@) == plan_period_name(j) implies j
                        == k by {
                        if j != k {
                            assert(plan_period_name(j)[0] != plan_period_name(k as int)[0]
                                || plan_period_name(j).len() != plan_period_name(k as int).len()
                                || plan_period_name(j)[1] != plan_period_name(k as int)[1]);
                        }
                    }
                    let ghost chosen = choose|j: int|
                        0 <= j < PLAN_PERIODS && utf8_bytes(p@) == plan_period_name(j);
                    assert(chosen == k);
                    return Some(period_days(k));
                }
                k += 1;
            }
            None
        },
        None => None,
    }
}

fn reported_time(at: ReportedSeconds) -> (r: Result<Option<u64>, BusinessServiceError>)
    ensures
        r is Ok <==> reported_millis(at) is Some,
        r matches Ok(ms) ==> Some(ms) == reported_millis(at),
        r matches Err(e) ==> e == BusinessServiceError::InvalidResponse,
{
    match at {
        ReportedSeconds::Missing => Ok(None),
        ReportedSeconds::Seconds(seconds) => match production_unix_seconds(seconds) {
            Ok(ms) => Ok(Some(ms)),
            Err(error) => Err(error),
        },
        ReportedSeconds::Malformed => Err(BusinessServiceError::InvalidResponse),
    }
}

/// Checks an order the service sent and turns it into what the client lists;
/// anything out of shape is an invalid response.
pub fn decode_order_summary(order: &OrderData) -> (r: Result<OrderSummary, BusinessServiceError>)
    ensures
        r is Ok <==> order_accepted(*order),
        r matches Ok(shown) ==> order_shown(shown, *order),
        r matches Err(e) ==> e == BusinessServiceError::InvalidResponse,
{
    let order_id = match &order.trade_no {
        Some(t) => if valid_order_id(t.as_str()) {
            t.clone()
        } else {
            return Err(BusinessServiceError::InvalidResponse);
        },
        None => return Err(BusinessServiceError::InvalidResponse),
    };
    let plan = match order.plan_id {
        Some(id) => id,
        None => match order.listed_plan_id {
            Some(id) => id,
            None => return Err(BusinessServiceError::InvalidResponse),
        },
    };
    if plan == 0 {
        return Err(BusinessServiceError::InvalidResponse);
    }
    let mut digits: Vec<u8> = Vec::new();
    push_decimal_u64(&mut digits, plan);
    proof {
        lemma_decimal_ascii(plan as nat);
        assert(digits@ =~= crate::data_plane_config::decimal_text(plan as nat));
    }
    let plan_id = crate::text::string_from_ascii(digits);
    let listed: &str = match &order.listed_plan_name {
        Some(name) => name.as_str(),
        None => "已下架套餐",
    };
    let plan_name = trim_text(listed);
    if plan_name.unicode_len() == 0 || plan_name.as_str().as_bytes().len() > 256
        || crate::text::bytes_have_control_char(plan_name.as_str().as_bytes()) {
        return Err(BusinessServiceError::InvalidResponse);
    }
    let created_at_unix_ms = match order.created_at {
        Some(c) => match production_unix_seconds(c) {
            Ok(ms) => ms,
            Err(error) => return Err(error),
        },
        None => return Err(BusinessServiceError::InvalidResponse),
    };
    let paid_at_unix_ms = match reported_time(order.paid_at) {
        Ok(ms) => ms,
        Err(error) => return Err(error),
    };
    let amount_minor_units = match order.total_amount {
        Some(a) => if a <= MAX_SAFE_INTEGER {
            a
        } else {
            return Err(BusinessServiceError::InvalidResponse);
        },
        None => return Err(BusinessServiceError::InvalidResponse),
    };
    let status = match order.status {
        Some(0) => OrderStatus::Pending,
        Some(1) | Some(3) => OrderStatus::Paid,
        Some(2) => OrderStatus::Cancelled,
        Some(4) => OrderStatus::Refunded,
        _ => OrderStatus::Unknown,
    };
    Ok(OrderSummary {
        order_id,
        plan_id,
        plan_name,
        billing_period_days: billing_period_days(&order.period),
        status,
        amount_minor_units,
        created_at_unix_ms,
        paid_at_unix_ms,
    })
}

/// Checks the orders the service sent and turns them into what the client
/// lists, in the same order; anything out of shape is an invalid response.
pub fn decode_orders(data: Vec<OrderData>) -> (r: Result<Vec<OrderSummary>, BusinessServiceError>)
    ensures
        r is Ok <==> data@.len() <= MAX_PUBLIC_ORDERS && forall|i: int|
            0 <= i < data@.len() ==> order_accepted(#[trigger] data@[i]),
        r matches Ok(orders) ==> orders@.len() == data@.len() && forall|i: int|
            0 <= i < data@.len() ==> order_shown(#[trigger] orders@[i], data@[i]),
        r matches Err(e) ==> e == BusinessServiceError::InvalidResponse,
{
    if data.len() > MAX_PUBLIC_ORDERS {
        return Err(BusinessServiceError::InvalidResponse);
    }
    let mut orders: Vec<OrderSummary> = Vec::new();
    let mut i: usize = 0;
    while i < data.len()
        invariant
            i <= data@.len(),
            orders@.len() == i,
            forall|k: int| 0 <= k < i ==> order_accepted(#[trigger] data@[k]),
            forall|k: int| 0 <= k < i ==> order_shown(#[trigger] orders@[k], data@[k]),
        decreases data@.len() - i,
    {
        match decode_order_summary(&data[i]) {
            Ok(order) => orders.push(order),
            Err(error) => {
                assert(!order_accepted(data@[i as int]));
                return Err(error);
            },
        }
        i += 1;
    }
    Ok(orders)
}


/// One order as the client shows it in full.
#[derive(Debug, Clone)]
pub struct OrderDetail {
    pub summary: OrderSummary,
    pub traffic_bytes: Option<u64>,
    pub updated_at_unix_ms: Option<u64>,
}

/// The traffic of an order's plan in bytes, where the plan states it.
pub open spec fn order_traffic_bytes(order: OrderData) -> Option<u64> {
    match order.listed_plan_transfer_enable {
        Some(gib) => Some((gib * GIB_BYTES) as u64),
        None => None,
    }
}

/// Whether an order is accepted in full: as listed, with traffic that is a
/// safe number of bytes and an update time that converts.
pub open spec fn order_detail_accepted(order: OrderData) -> bool {
    &&& order_accepted(order)
    &&& (order.listed_plan_transfer_enable matches Some(gib) ==> gib * GIB_BYTES <= MAX_SAFE_INTEGER)
    &&& (order.updated_at matches Some(u) ==> spec_unix_millis(u) is Some)
}

/// Checks an order the service sent and turns it into what the client shows
/// in full; anything out of shape is an invalid response.
pub fn decode_order_detail(order: OrderData) -> (r: Result<OrderDetail, BusinessServiceError>)
    ensures
        r is Ok <==> order_detail_accepted(order),
        r matches Ok(detail) ==> {
            &&& order_shown(detail.summary, order)
            &&& detail.traffic_bytes == order_traffic_bytes(order)
            &&& detail.updated_at_unix_ms == match order.updated_at {
                Some(u) => spec_unix_millis(u),
                None => None,
            }
        },
        r matches Err(e) ==> e == BusinessServiceError::InvalidResponse,
{
    let summary = match decode_order_summary(&order) {
        Ok(summary) => summary,
        Err(error) => return Err(error),
    };
    let traffic_bytes = match order.listed_plan_transfer_enable {
        Some(gib) => match gib.checked_mul(GIB_BYTES) {
            Some(bytes) => if bytes <= MAX_SAFE_INTEGER {
                Some(bytes)
            } else {
                return Err(BusinessServiceError::InvalidResponse);
            },
            None => return Err(BusinessServiceError::InvalidResponse),
        },
        None => None,
    };
    let updated_at_unix_ms = match order.updated_at {
        Some(u) => match production_unix_seconds(u) {
            Ok(ms) => Some(ms),
            Err(error) => return Err(error),
        },
        None => None,
    };
    Ok(OrderDetail { summary, traffic_bytes, updated_at_unix_ms })
}


/// What the checkout endpoint sends beside its kind.
#[derive(Debug, Clone, PartialEq, Eq)]
pub enum CheckoutPayload {
    Flag(bool),
    Text(String),
    Other,
}

/// A payment that is ready: a free order has no code to scan.
#[derive(Debug, Clone)]
pub struct PaymentReady {
    pub order_id: String,
    pub qr_code: Option<String>,
}

/// A payment code: trimmed, 1 to 4 KiB, without control characters.
pub open spec fn qr_code_ok(text: Seq<char>) -> bool {
    &&& trimmed(text).len() > 0
    &&& utf8_bytes(trimmed(text)).len() <= 4096
    &&& !crate::text::has_control_char(utf8_bytes(trimmed(text)))
}

/// Whether a checkout answer is accepted: kind -1 with `true` is a free
/// order; kind 0 carries a payment code; nothing else is.
pub open spec fn checkout_accepted(kind: i64, payload: CheckoutPayload) -> bool {
    ||| kind == -1 && payload == CheckoutPayload::Flag(true)
    ||| kind == 0 && (payload matches CheckoutPayload::Text(t) && qr_code_ok(t@))
}

/// Checks the checkout answer for `order_id`; a free order is ready with no
/// code, a paid one with the trimmed code; anything else is an invalid
/// response.
pub fn decode_checkout(kind: i64, payload: CheckoutPayload, order_id: &str) -> (r: Result<
    PaymentReady,
    BusinessServiceError,
>)
    ensures
        r is Ok <==> checkout_accepted(kind, payload),
        r matches Ok(ready) ==> ready.order_id@ == order_id@ && match payload {
            CheckoutPayload::Text(t) => kind == 0 && (ready.qr_code matches Some(code) && code@
                == trimmed(t@)),
            _ => ready.qr_code is None,
        },
        r matches Err(e) ==> e == BusinessServiceError::InvalidResponse,
{
    if kind == -1 {
        return match payload {
            CheckoutPayload::Flag(true) => Ok(PaymentReady { order_id: order_id.to_string(), qr_code: None }),
            _ => Err(BusinessServiceError::InvalidResponse),
        };
    }
    if kind != 0 {
        return Err(BusinessServiceError::InvalidResponse);
    }
    match payload {
        CheckoutPayload::Text(text) => {
            let code = trim_text(text.as_str());
            let bytes = code.as_str().as_bytes();
            if code.unicode_len() == 0 || bytes.len() > 4096 || crate::text::bytes_have_control_char(
                bytes,
            ) {
                return Err(BusinessServiceError::InvalidResponse);
            }
            Ok(PaymentReady { order_id: order_id.to_string(), qr_code: Some(code) })
        },
        _ => Err(BusinessServiceError::InvalidResponse),
    }
}

/// A decimal the service may send as a number, as text or not at all; a
/// number is already written out.
#[derive(Debug, Clone, PartialEq, Eq)]
pub enum DecimalField {
    Missing,
    Number(String),
    Text(String),
    Malformed,
}

/// One payment method as the service sends it.
pub struct PaymentMethodData {
    pub id: Option<u64>,
    pub name: Option<String>,
    pub payment: Option<String>,
    pub handling_fee_percent: DecimalField,
}

/// One payment method as the client shows it.
#[derive(Debug, Clone)]
pub struct PaymentMethod {
    pub payment_method_id: String,
    pub name: String,
    pub provider: String,
    pub handling_fee_percent: String,
}

/// The text a decimal field stands for before it is checked; none where it
/// is malformed.
pub open spec fn decimal_field_text(field: DecimalField) -> Option<Seq<char>> {
    match field {
        DecimalField::Missing => Some("0"@),
        DecimalField::Number(t) => Some(t@),
        DecimalField::Text(t) => Some(trimmed(t@)),
        DecimalField::Malformed => None,
    }
}

/// Whether a payment method is accepted: a positive id, a trimmed name of 1
/// to 128 bytes without control characters, a trimmed provider of 1 to 64
/// letters, digits, `.`, `_` or `-`, and a well-formed fee.
pub open spec fn payment_method_accepted(method: PaymentMethodData) -> bool {
    &&& method.id matches Some(id) && id > 0
    &&& method.name matches Some(name) && trimmed(name@).len() > 0 && utf8_bytes(trimmed(name@)).len()
        <= 128 && !crate::text::has_control_char(utf8_bytes(trimmed(name@)))
    &&& method.payment matches Some(p) && 0 < utf8_bytes(trimmed(p@)).len() <= 64 && all_word_bytes(
        utf8_bytes(trimmed(p@)),
        seq![46u8, 95u8, 45u8],
    )
    &&& decimal_field_text(method.handling_fee_percent) matches Some(t) && nonnegative_decimal(
        utf8_bytes(t),
    )
}

/// Whether `shown` is what the client shows of the accepted `sent` method.
pub open spec fn payment_method_shown(shown: PaymentMethod, sent: PaymentMethodData) -> bool {
    &&& utf8_bytes(shown.payment_method_id@) == crate::data_plane_config::decimal_text(
        sent.id->0 as nat,
    )
    &&& shown.name@ == trimmed(sent.name->0@)
    &&& shown.provider@ == trimmed(sent.payment->0@)
    &&& Some(shown.handling_fee_percent@) == decimal_field_text(sent.handling_fee_percent)
}

fn decimal_field(field: &DecimalField) -> (r: Result<String, BusinessServiceError>)
    ensures
        r is Ok <==> (decimal_field_text(*field) matches Some(t) && nonnegative_decimal(
            utf8_bytes(t),
        )),
        r matches Ok(text) ==> Some(text@) == decimal_field_text(*field),
        r matches Err(e) ==> e == BusinessServiceError::InvalidResponse,
{
    let text = match field {
        DecimalField::Missing => "0".to_string(),
        DecimalField::Number(t) => t.clone(),
        DecimalField::Text(t) => trim_text(t.as_str()),
        DecimalField::Malformed => return Err(BusinessServiceError::InvalidResponse),
    };
    check_nonnegative_decimal(text)
}

fn decode_payment_method(sent: &PaymentMethodData) -> (r: Result<PaymentMethod, BusinessServiceError>)
    ensures
        r is Ok <==> payment_method_accepted(*sent),
        r matches Ok(shown) ==> payment_method_shown(shown, *sent),
        r matches Err(e) ==> e == BusinessServiceError::InvalidResponse,
{
    let id = match sent.id {
        Some(id) => if id > 0 {
            id
        } else {
            return Err(BusinessServiceError::InvalidResponse);
        },
        None => return Err(BusinessServiceError::InvalidResponse),
    };
    let name = match &sent.name {
        Some(n) => {
            let t = trim_text(n.as_str());
            if t.unicode_len() == 0 || t.as_str().as_bytes().len() > 128
                || crate::text::bytes_have_control_char(t.as_str().as_bytes()) {
                return Err(BusinessServiceError::InvalidResponse);
            }
            t
        },
        None => return Err(BusinessServiceError::InvalidResponse),
    };
    let provider = match &sent.payment {
        Some(p) => {
            let t = trim_text(p.as_str());
            let bytes = t.as_str().as_bytes();
            let extra: Vec<u8> = vec![46u8, 95u8, 45u8];
            if bytes.len() == 0 || bytes.len() > 64 || !bytes_are_words(bytes, extra.as_slice()) {
                return Err(BusinessServiceError::InvalidResponse);
            }
            t
        },
        None => return Err(BusinessServiceError::InvalidResponse),
    };
    let handling_fee_percent = match decimal_field(&sent.handling_fee_percent) {
        Ok(text) => text,
        Err(error) => return Err(error),
    };
    let mut digits: Vec<u8> = Vec::new();
    push_decimal_u64(&mut digits, id);
    proof {
        lemma_decimal_ascii(id as nat);
        assert(digits@ =~= crate::data_plane_config::decimal_text(id as nat));
    }
    let payment_method_id = crate::text::string_from_ascii(digits);
    Ok(PaymentMethod { payment_method_id, name, provider, handling_fee_percent })
}

/// Checks the payment methods the service sent and turns them into what the
/// client shows, in the same order; anything out of shape is an invalid
/// response.
pub fn decode_payment_methods(data: Vec<PaymentMethodData>) -> (r: Result<
    Vec<PaymentMethod>,
    BusinessServiceError,
>)
    ensures
        r is Ok <==> data@.len() <= MAX_PUBLIC_PAYMENT_METHODS && forall|i: int|
            0 <= i < data@.len() ==> payment_method_accepted(#[trigger] data@[i]),
        r matches Ok(methods) ==> methods@.len() == data@.len() && forall|i: int|
            0 <= i < data@.len() ==> payment_method_shown(#[trigger] methods@[i], data@[i]),
        r matches Err(e) ==> e == BusinessServiceError::InvalidResponse,
{
    if data.len() > MAX_PUBLIC_PAYMENT_METHODS {
        return Err(BusinessServiceError::InvalidResponse);
    }
    let mut methods: Vec<PaymentMethod> = Vec::new();
    let mut i: usize = 0;
    while i < data.len()
        invariant
            i <= data@.len(),
            methods@.len() == i,
            forall|k: int| 0 <= k < i ==> payment_method_accepted(#[trigger] data@[k]),
            forall|k: int| 0 <= k < i ==> payment_method_shown(#[trigger] methods@[k], data@[k]),
        decreases data@.len() - i,
    {
        match decode_payment_method(&data[i]) {
            Ok(method) => methods.push(method),
            Err(error) => {
                assert(!payment_method_accepted(data@[i as int]));
                return Err(error);
            },
        }
        i += 1;
    }
    Ok(methods)
}


/// A JSON value read as a switch: the number 1 or `true` turns it on.
#[derive(Debug, Clone, Copy, PartialEq, Eq, Structural)]
pub enum JsonSwitch {
    Missing,
    Unsigned(u64),
    Bool(bool),
    Other,
}

/// The commission settings as the service sends them.
pub struct CommissionConfigData {
    pub withdraw_methods: Option<Vec<String>>,
    pub telegram_discuss_link: Option<String>,
    pub withdraw_close: JsonSwitch,
}

/// The commission settings as the client shows them.
#[derive(Debug, Clone)]
pub struct CommissionConfig {
    pub withdraw_methods: Vec<String>,
    pub withdraw_closed: bool,
    pub telegram_discuss_link: Option<String>,
}

/// A withdrawal method is shown when, trimmed, it is 1 to 64 bytes without
/// control characters.
pub open spec fn withdraw_method_ok(method: Seq<char>) -> bool {
    &&& trimmed(method).len() > 0
    &&& utf8_bytes(trimmed(method)).len() <= 64
    &&& !crate::text::has_control_char(utf8_bytes(trimmed(method)))
}

/// The trimmed withdrawal methods that are shown, in order.
pub open spec fn kept_withdraw_methods(methods: Seq<String>) -> Seq<Seq<char>>
    decreases methods.len(),
{
    if methods.len() == 0 {
        Seq::empty()
    } else {
        let rest = kept_withdraw_methods(methods.drop_last());
        if withdraw_method_ok(methods.last()@) {
            rest.push(trimmed(methods.last()@))
        } else {
            rest
        }
    }
}

/// The bytes of `https://`.
pub open spec fn https_prefix() -> Seq<u8> {
    seq![104u8, 116u8, 116u8, 112u8, 115u8, 58u8, 47u8, 47u8]
}

/// The discussion link shown: trimmed, an `https://` link of at most 512
/// bytes.
pub open spec fn shown_telegram_link(link: Option<String>) -> Option<Seq<char>> {
    match link {
        Some(l) => if crate::text::has_prefix(utf8_bytes(trimmed(l@)), https_prefix()) && utf8_bytes(
            trimmed(l@),
        ).len() <= 512 {
            Some(trimmed(l@))
        } else {
            None
        },
        None => None,
    }
}

/// Whether a switch is on.
pub open spec fn switch_on(switch: JsonSwitch) -> bool {
    switch == JsonSwitch::Unsigned(1) || switch == JsonSwitch::Bool(true)
}

/// The texts of a list of strings.
pub open spec fn texts(values: Seq<String>) -> Seq<Seq<char>> {
    values.map_values(|v: String| v@)
}

/// Turns the commission settings the service sent into what the client
/// shows: the withdrawal methods that can be shown, whether withdrawal is
/// closed, and the discussion link where it is a short `https` link.
pub fn decode_commission_config(data: CommissionConfigData) -> (r: CommissionConfig)
    ensures
        texts(r.withdraw_methods@) == kept_withdraw_methods(
            match data.withdraw_methods {
                Some(m) => m@,
                None => Seq::empty(),
            },
        ),
        r.withdraw_closed == switch_on(data.withdraw_close),
        optional_text(r.telegram_discuss_link) == shown_telegram_link(data.telegram_discuss_link),
{
    let empty: Vec<String> = Vec::new();
    let source: &Vec<String> = match &data.withdraw_methods {
        Some(methods) => methods,
        None => &empty,
    };
    let mut methods: Vec<String> = Vec::new();
    let mut i: usize = 0;
    while i < source.len()
        invariant
            i <= source@.len(),
            texts(methods@) == kept_withdraw_methods(source@.take(i as int)),
        decreases source@.len() - i,
    {
        let ghost before = source@.take(i as int);
        let ghost after = source@.take(i + 1);
        assert(after.drop_last() =~= before);
        let t = trim_text(source[i].as_str());
        if t.unicode_len() > 0 && t.as_str().as_bytes().len() <= 64
            && !crate::text::bytes_have_control_char(t.as_str().as_bytes()) {
            let ghost previous = methods@;
            let ghost view = t@;
            methods.push(t);
            assert(texts(methods@) =~= texts(previous).push(view));
        }
        i += 1;
    }
    assert(source@.take(source@.len() as int) =~= source@);
    let withdraw_closed = match data.withdraw_close {
        JsonSwitch::Unsigned(n) => n == 1,
        JsonSwitch::Bool(b) => b,
        _ => false,
    };
    let telegram_discuss_link = match &data.telegram_discuss_link {
        Some(link) => {
            let t = trim_text(link.as_str());
            let prefix: Vec<u8> = vec![104u8, 116u8, 116u8, 112u8, 115u8, 58u8, 47u8, 47u8];
            assert(prefix@ =~= https_prefix());
            if crate::text::bytes_have_prefix(t.as_str().as_bytes(), prefix.as_slice())
                && t.as_str().as_bytes().len() <= 512 {
                Some(t)
            } else {
                None
            }
        },
        None => None,
    };
    CommissionConfig { withdraw_methods: methods, withdraw_closed, telegram_discuss_link }
}


pub const MAX_KNOWLEDGE_TITLE_BYTES: usize = 256;

pub const MAX_KNOWLEDGE_CATEGORY_BYTES: usize = 128;

pub const MAX_KNOWLEDGE_BODY_BYTES: usize = 262144;

pub const MAX_PUBLIC_KNOWLEDGE_ARTICLES: usize = 512;

/// A knowledge-base article as the service sends it.
pub struct KnowledgeArticleData {
    pub id: u64,
    pub title: String,
    pub category: String,
    pub body: String,
    pub updated_at: u64,
}

/// One article of a knowledge-base group as the client lists it.
#[derive(Debug, Clone)]
pub struct KnowledgeArticleSummary {
    pub article_id: String,
    pub title: String,
    pub updated_at_unix_ms: Option<u64>,
}

/// One category of the knowledge base as the client lists it.
#[derive(Debug, Clone)]
pub struct KnowledgeGroup {
    pub category: String,
    pub articles: Vec<KnowledgeArticleSummary>,
}

/// One article as the client shows it in full.
#[derive(Debug, Clone)]
pub struct KnowledgeArticle {
    pub article_id: String,
    pub category: Option<String>,
    pub title: String,
    pub body_html: String,
    pub updated_at_unix_ms: Option<u64>,
}

/// An article's update time in milliseconds: zero means none; `None` where
/// it does not convert.
pub open spec fn article_update_millis(seconds: u64) -> Option<Option<u64>> {
    if seconds == 0 {
        Some(None)
    } else {
        match spec_unix_millis(seconds) {
            Some(ms) => Some(Some(ms)),
            None => None,
        }
    }
}

/// Whether an article's title and time are accepted: a trimmed title of 1
/// to 256 bytes without control characters but tabs and line breaks, and a
/// time that converts.
pub open spec fn article_meta_ok(article: KnowledgeArticleData) -> bool {
    &&& trimmed(article.title@).len() > 0
    &&& utf8_bytes(trimmed(article.title@)).len() <= MAX_KNOWLEDGE_TITLE_BYTES
    &&& !has_unsafe_ticket_char(utf8_bytes(trimmed(article.title@)))
    &&& article_update_millis(article.updated_at) is Some
}

/// A category, trimmed, is at most 128 bytes without control characters.
pub open spec fn knowledge_category_ok(category: Seq<char>) -> bool {
    &&& utf8_bytes(trimmed(category)).len() <= MAX_KNOWLEDGE_CATEGORY_BYTES
    &&& !crate::text::has_control_char(utf8_bytes(trimmed(category)))
}

/// Whether `shown` is what the client lists of the accepted article `sent`.
pub open spec fn article_summary_shown(shown: KnowledgeArticleSummary, sent: KnowledgeArticleData) -> bool {
    &&& utf8_bytes(shown.article_id@) == crate::data_plane_config::decimal_text(sent.id as nat)
    &&& shown.title@ == trimmed(sent.title@)
    &&& Some(shown.updated_at_unix_ms) == article_update_millis(sent.updated_at)
}

fn article_meta(article: &KnowledgeArticleData) -> (r: Result<
    KnowledgeArticleSummary,
    BusinessServiceError,
>)
    ensures
        r is Ok <==> article_meta_ok(*article),
        r matches Ok(shown) ==> article_summary_shown(shown, *article),
        r matches Err(e) ==> e == BusinessServiceError::InvalidResponse,
{
    let title = trim_text(article.title.as_str());
    if title.unicode_len() == 0 || title.as_str().as_bytes().len() > MAX_KNOWLEDGE_TITLE_BYTES
        || !is_safe_ticket_text(title.as_str()) {
        return Err(BusinessServiceError::InvalidResponse);
    }
    let updated_at_unix_ms = if article.updated_at == 0 {
        None
    } else {
        match production_unix_seconds(article.updated_at) {
            Ok(ms) => Some(ms),
            Err(error) => return Err(error),
        }
    };
    let mut digits: Vec<u8> = Vec::new();
    push_decimal_u64(&mut digits, article.id);
    proof {
        lemma_decimal_ascii(article.id as nat);
        assert(digits@ =~= crate::data_plane_config::decimal_text(article.id as nat));
    }
    let article_id = crate::text::string_from_ascii(digits);
    Ok(KnowledgeArticleSummary { article_id, title, updated_at_unix_ms })
}

fn knowledge_category(category: &str) -> (r: Option<String>)
    ensures
        r is Some <==> knowledge_category_ok(category@),
        r matches Some(c) ==> c@ == trimmed(category@),
{
    let t = trim_text(category);
    if t.as_str().as_bytes().len() > MAX_KNOWLEDGE_CATEGORY_BYTES
        || crate::text::bytes_have_control_char(t.as_str().as_bytes()) {
        None
    } else {
        Some(t)
    }
}

/// Whether an article is accepted in full: its title and time, a trimmed
/// body of 1 to 256 KiB, and a category that can be shown.
pub open spec fn knowledge_article_accepted(article: KnowledgeArticleData) -> bool {
    &&& article_meta_ok(article)
    &&& trimmed(article.body@).len() > 0
    &&& utf8_bytes(trimmed(article.body@)).len() <= MAX_KNOWLEDGE_BODY_BYTES
    &&& knowledge_category_ok(article.category@)
}

/// Checks an article the service sent and turns it into what the client
/// shows; an empty category is none; anything out of shape is an invalid
/// response.
pub fn decode_knowledge_article(article: KnowledgeArticleData) -> (r: Result<
    KnowledgeArticle,
    BusinessServiceError,
>)
    ensures
        r is Ok <==> knowledge_article_accepted(article),
        r matches Ok(shown) ==> {
            &&& utf8_bytes(shown.article_id@) == crate::data_plane_config::decimal_text(
                article.id as nat,
            )
            &&& shown.title@ == trimmed(article.title@)
            &&& Some(shown.updated_at_unix_ms) == article_update_millis(article.updated_at)
            &&& shown.body_html@ == trimmed(article.body@)
            &&& optional_text(shown.category) == if trimmed(article.category@).len() == 0 {
                None
            } else {
                Some(trimmed(article.category@))
            }
        },
        r matches Err(e) ==> e == BusinessServiceError::InvalidResponse,
{
    let meta = match article_meta(&article) {
        Ok(meta) => meta,
        Err(error) => return Err(error),
    };
    let body_html = trim_text(article.body.as_str());
    if body_html.unicode_len() == 0 || body_html.as_str().as_bytes().len() > MAX_KNOWLEDGE_BODY_BYTES {
        return Err(BusinessServiceError::InvalidResponse);
    }
    let category = match knowledge_category(article.category.as_str()) {
        Some(c) => if c.unicode_len() == 0 {
            None
        } else {
            Some(c)
        },
        None => return Err(BusinessServiceError::InvalidResponse),
    };
    Ok(KnowledgeArticle {
        article_id: meta.article_id,
        category,
        title: meta.title,
        body_html,
        updated_at_unix_ms: meta.updated_at_unix_ms,
    })
}

/// A category of the knowledge base as the service sends it, with its
/// articles.
pub struct KnowledgeGroupData {
    pub category: String,
    pub articles: Vec<KnowledgeArticleData>,
}

/// The number of articles over all groups.
pub open spec fn article_count(groups: Seq<KnowledgeGroupData>) -> int
    decreases groups.len(),
{
    if groups.len() == 0 {
        0
    } else {
        article_count(groups.drop_last()) + groups.last().articles@.len()
    }
}

/// Whether the knowledge base is accepted: at most
/// `MAX_PUBLIC_KNOWLEDGE_ARTICLES` articles in all, categories that can be
/// shown, and every article's title and time accepted.
pub open spec fn knowledge_list_accepted(groups: Seq<KnowledgeGroupData>) -> bool {
    &&& article_count(groups) <= MAX_PUBLIC_KNOWLEDGE_ARTICLES
    &&& forall|g: int| 0 <= g < groups.len() ==> knowledge_category_ok(#[trigger] groups[g].category@)
    &&& forall|g: int, a: int|
        0 <= g < groups.len() && 0 <= a < groups[g].articles@.len() ==> article_meta_ok(
            #[trigger] groups[g].articles@[a],
        )
}

/// Whether `shown` is what the client lists of the accepted group `sent`.
pub open spec fn knowledge_group_shown(shown: KnowledgeGroup, sent: KnowledgeGroupData) -> bool {
    &&& shown.category@ == trimmed(sent.category@)
    &&& shown.articles@.len() == sent.articles@.len()
    &&& forall|a: int|
        0 <= a < sent.articles@.len() ==> article_summary_shown(
            #[trigger] shown.articles@[a],
            sent.articles@[a],
        )
}

proof fn lemma_article_count_grows(groups: Seq<KnowledgeGroupData>, i: int)
    requires
        0 <= i < groups.len(),
    ensures
        article_count(groups.take(i + 1)) == article_count(groups.take(i)) + groups[i].articles@.len(),
        article_count(groups.take(i)) >= 0,
    decreases i,
{
    assert(groups.take(i + 1).drop_last() =~= groups.take(i));
    if i > 0 {
        lemma_article_count_grows(groups, i - 1);
    }
}

fn decode_knowledge_group(sent: &KnowledgeGroupData) -> (r: Result<KnowledgeGroup, BusinessServiceError>)
    ensures
        r is Ok <==> knowledge_category_ok(sent.category@) && forall|a: int|
            0 <= a < sent.articles@.len() ==> article_meta_ok(#[trigger] sent.articles@[a]),
        r matches Ok(shown) ==> knowledge_group_shown(shown, *sent),
        r matches Err(e) ==> e == BusinessServiceError::InvalidResponse,
{
    let category = match knowledge_category(sent.category.as_str()) {
        Some(c) => c,
        None => return Err(BusinessServiceError::InvalidResponse),
    };
    let mut articles: Vec<KnowledgeArticleSummary> = Vec::new();
    let mut i: usize = 0;
    while i < sent.articles.len()
        invariant
            i <= sent.articles@.len(),
            articles@.len() == i,
            forall|a: int| 0 <= a < i ==> article_meta_ok(#[trigger] sent.articles@[a]),
            forall|a: int|
                0 <= a < i ==> article_summary_shown(#[trigger] articles@[a], sent.articles@[a]),
        decreases sent.articles@.len() - i,
    {
        match article_meta(&sent.articles[i]) {
            Ok(summary) => articles.push(summary),
            Err(error) => {
                assert(!article_meta_ok(sent.articles@[i as int]));
                return Err(error);
            },
        }
        i += 1;
    }
    Ok(KnowledgeGroup { category, articles })
}

/// Checks the knowledge base the service sent, category by category in the
/// order given, and turns it into what the client lists; anything out of
/// shape is an invalid response.
pub fn decode_knowledge_list(groups: Vec<KnowledgeGroupData>) -> (r: Result<
    Vec<KnowledgeGroup>,
    BusinessServiceError,
>)
    ensures
        r is Ok <==> knowledge_list_accepted(groups@),
        r matches Ok(shown) ==> shown@.len() == groups@.len() && forall|g: int|
            0 <= g < groups@.len() ==> knowledge_group_shown(#[trigger] shown@[g], groups@[g]),
        r matches Err(e) ==> e == BusinessServiceError::InvalidResponse,
{
    let mut total: usize = 0;
    let mut i: usize = 0;
    while i < groups.len()
        invariant
            i <= groups@.len(),
            total == article_count(groups@.take(i as int)),
            total <= MAX_PUBLIC_KNOWLEDGE_ARTICLES,
        decreases groups@.len() - i,
    {
        proof {
            lemma_article_count_grows(groups@, i as int);
        }
        let n = groups[i].articles.len();
        if n > MAX_PUBLIC_KNOWLEDGE_ARTICLES - total {
            proof {
                lemma_article_count_monotone(groups@, i + 1, groups@.len() as int);
                assert(groups@.take(groups@.len() as int) =~= groups@);
            }
            return Err(BusinessServiceError::InvalidResponse);
        }
        total = total + n;
        i += 1;
    }
    assert(groups@.take(groups@.len() as int) =~= groups@);
    let mut shown: Vec<KnowledgeGroup> = Vec::new();
    let mut k: usize = 0;
    while k < groups.len()
        invariant
            k <= groups@.len(),
            shown@.len() == k,
            forall|g: int| 0 <= g < k ==> knowledge_category_ok(#[trigger] groups@[g].category@),
            forall|g: int, a: int|
                0 <= g < k && 0 <= a < groups@[g].articles@.len() ==> article_meta_ok(
                    #[trigger] groups@[g].articles@[a],
                ),
            forall|g: int| 0 <= g < k ==> knowledge_group_shown(#[trigger] shown@[g], groups@[g]),
        decreases groups@.len() - k,
    {
        match decode_knowledge_group(&groups[k]) {
            Ok(group) => shown.push(group),
            Err(error) => return Err(error),
        }
        k += 1;
    }
    Ok(shown)
}

proof fn lemma_article_count_monotone(groups: Seq<KnowledgeGroupData>, i: int, j: int)
    requires
        0 <= i <= j <= groups.len(),
    ensures
        article_count(groups.take(i)) <= article_count(groups.take(j)),
    decreases j - i,
{
    if i < j {
        lemma_article_count_grows(groups, j - 1);
        lemma_article_count_monotone(groups, i, j - 1);
    }
}


/// The account as the service sends it.
pub struct AccountData {
    pub email: String,
    pub uuid: String,
    pub avatar_url: String,
    pub balance: u64,
    pub commission_balance: u64,
    pub transfer_enable: u64,
    pub banned: bool,
}

#[derive(Debug, Clone, Copy, PartialEq, Eq, Structural)]
pub enum AccountStatus {
    Active,
    Disabled,
}

/// The account as the client shows it; the balance is in minor units of
/// yuan.
#[derive(Debug, Clone)]
pub struct UserProfile {
    pub user_id: String,
    pub email: String,
    pub status: AccountStatus,
    pub balance_minor_units: u64,
}

/// A user id: 1 to 128 ASCII bytes without control characters.
pub open spec fn user_id_ok(uuid: Seq<u8>) -> bool {
    &&& 0 < uuid.len() <= 128
    &&& all_ascii(uuid)
    &&& forall|i: int| 0 <= i < uuid.len() ==> !crate::text::is_ascii_control(#[trigger] uuid[i])
}

/// Whether the account's other fields are accepted once its e-mail address
/// is: a user id, an avatar link of at most 4 KiB, and safe amounts.
pub open spec fn account_fields_ok(data: AccountData) -> bool {
    &&& user_id_ok(utf8_bytes(data.uuid@))
    &&& utf8_bytes(data.avatar_url@).len() <= 4096
    &&& data.commission_balance <= MAX_SAFE_INTEGER
    &&& data.transfer_enable <= MAX_SAFE_INTEGER
    &&& data.balance <= MAX_SAFE_INTEGER
}

fn is_user_id(uuid: &str) -> (r: bool)
    ensures
        r == user_id_ok(utf8_bytes(uuid@)),
{
    let bytes = uuid.as_bytes();
    if bytes.len() == 0 || bytes.len() > 128 {
        return false;
    }
    let mut i: usize = 0;
    while i < bytes.len()
        invariant
            i <= bytes@.len(),
            bytes@ == utf8_bytes(uuid@),
            forall|j: int| 0 <= j < i ==> bytes@[j] < 128 && !crate::text::is_ascii_control(#[trigger] bytes@[j]),
        decreases bytes@.len() - i,
    {
        let b = bytes[i];
        if b >= 128 || b < 32 || b == 127 {
            assert(!all_ascii(bytes@) || crate::text::is_ascii_control(bytes@[i as int]));
            return false;
        }
        i += 1;
    }
    true
}

/// Checks the account the service sent and turns it into what the client
/// shows: a bad e-mail address is an invalid e-mail; anything else out of
/// shape is an invalid response.
pub fn decode_account(data: AccountData) -> (r: Result<UserProfile, BusinessServiceError>)
    ensures
        r is Ok <==> valid_email(utf8_bytes(data.email@)) && account_fields_ok(data),
        r matches Err(e) ==> if valid_email(utf8_bytes(data.email@)) {
            e == BusinessServiceError::InvalidResponse
        } else {
            e == BusinessServiceError::InvalidEmail
        },
        r matches Ok(profile) ==> {
            &&& profile.user_id@ == data.uuid@
            &&& profile.email@ == data.email@
            &&& profile.status == if data.banned {
                AccountStatus::Disabled
            } else {
                AccountStatus::Active
            }
            &&& profile.balance_minor_units == data.balance
        },
{
    match validate_email(data.email.as_str()) {
        Ok(()) => {},
        Err(error) => return Err(error),
    }
    if !is_user_id(data.uuid.as_str()) || data.avatar_url.as_str().as_bytes().len() > 4096
        || data.commission_balance > MAX_SAFE_INTEGER || data.transfer_enable > MAX_SAFE_INTEGER
        || data.balance > MAX_SAFE_INTEGER {
        return Err(BusinessServiceError::InvalidResponse);
    }
    let status = if data.banned {
        AccountStatus::Disabled
    } else {
        AccountStatus::Active
    };
    Ok(UserProfile {
        user_id: data.uuid,
        email: data.email,
        status,
        balance_minor_units: data.balance,
    })
}

/// The plan object a subscription carries: how many fields it has, and its
/// name where the name is text.
pub struct ListedPlanFields {
    pub field_count: usize,
    pub name: Option<String>,
}

/// The subscription as the service sends it.
pub struct SubscriptionData {
    pub upload: u64,
    pub download: u64,
    pub transfer_enable: u64,
    pub expired_at: Option<u64>,
    pub email: String,
    pub subscribe_url: String,
    pub token: String,
    pub uuid: String,
    pub plan_id: Option<u64>,
    pub plan: Option<ListedPlanFields>,
}

#[derive(Debug, Clone, Copy, PartialEq, Eq, Structural)]
pub enum SubscriptionStatus {
    Active,
    NoPlan,
}

/// The subscription as the client holds it; the credential is the
/// subscription link.
#[derive(Debug, Clone)]
pub struct SubscriptionInfo {
    pub status: SubscriptionStatus,
    pub plan_id: Option<String>,
    pub plan_name: Option<String>,
    pub expires_at_unix_ms: Option<u64>,
    pub used_bytes: u64,
    pub upload_bytes: u64,
    pub download_bytes: u64,
    pub total_bytes: u64,
    pub subscription_credential: String,
}

/// Whether the traffic and expiry figures are accepted: the traffic used in
/// all and each figure are safe integers, and an expiry other than zero
/// converts.
pub open spec fn subscription_figures_ok(data: SubscriptionData) -> bool {
    &&& data.upload + data.download <= MAX_SAFE_INTEGER
    &&& data.transfer_enable <= MAX_SAFE_INTEGER
    &&& (data.expired_at matches Some(t) ==> (t != 0 ==> spec_unix_millis(t) is Some))
}

/// Whether the rest is accepted once the e-mail address is: a subscription
/// link that may be used, a user id of 1 to 128 bytes, a token, and a plan
/// object that is not empty.
pub open spec fn subscription_rest_ok(data: SubscriptionData) -> bool {
    &&& acceptable_subscription_url(data.subscribe_url@)
    &&& 0 < utf8_bytes(data.uuid@).len() <= 128
    &&& data.token@.len() > 0
    &&& !(data.plan matches Some(p) && p.field_count == 0)
}

/// The plan name the client shows: trimmed, 1 to `MAX_PLAN_NAME_BYTES` bytes
/// without control characters; otherwise none, and the subscription still
/// stands.
pub open spec fn subscription_plan_name(plan: Option<ListedPlanFields>) -> Option<Seq<char>> {
    match plan {
        Some(p) => match p.name {
            Some(name) => if trimmed(name@).len() > 0 && utf8_bytes(trimmed(name@)).len()
                <= MAX_PLAN_NAME_BYTES && !crate::text::has_control_char(
                utf8_bytes(trimmed(name@)),
            ) {
                Some(trimmed(name@))
            } else {
                None
            },
            None => None,
        },
        None => None,
    }
}

/// Checks the subscription the service sent and turns it into what the
/// client holds: figures out of range are an invalid response, then a bad
/// e-mail address is an invalid e-mail, then the rest out of shape is an
/// invalid response.
pub fn decode_subscription(data: SubscriptionData) -> (r: Result<SubscriptionInfo, BusinessServiceError>)
    ensures
        r is Ok <==> subscription_figures_ok(data) && valid_email(utf8_bytes(data.email@))
            && subscription_rest_ok(data),
        r matches Err(e) ==> if subscription_figures_ok(data) && !valid_email(
            utf8_bytes(data.email@),
        ) {
            e == BusinessServiceError::InvalidEmail
        } else {
            e == BusinessServiceError::InvalidResponse
        },
        r matches Ok(info) ==> {
            &&& info.status == if data.plan_id matches Some(id) && id != 0 {
                SubscriptionStatus::Active
            } else {
                SubscriptionStatus::NoPlan
            }
            &&& (info.plan_id is Some <==> (data.plan_id matches Some(id) && id != 0))
            &&& (info.plan_id matches Some(text) ==> utf8_bytes(text@)
                == crate::data_plane_config::decimal_text(data.plan_id->0 as nat))
            &&& optional_text(info.plan_name) == subscription_plan_name(data.plan)
            &&& info.expires_at_unix_ms == match data.expired_at {
                Some(t) => if t == 0 {
                    None
                } else {
                    spec_unix_millis(t)
                },
                None => None,
            }
            &&& info.used_bytes == data.upload + data.download
            &&& info.upload_bytes == data.upload
            &&& info.download_bytes == data.download
            &&& info.total_bytes == data.transfer_enable
            &&& info.subscription_credential@ == data.subscribe_url@
        },
{
    let used_bytes = match data.upload.checked_add(data.download) {
        Some(used) => if used <= MAX_SAFE_INTEGER {
            used
        } else {
            return Err(BusinessServiceError::InvalidResponse);
        },
        None => return Err(BusinessServiceError::InvalidResponse),
    };
    if data.transfer_enable > MAX_SAFE_INTEGER {
        return Err(BusinessServiceError::InvalidResponse);
    }
    let expires_at_unix_ms = match data.expired_at {
        Some(t) => if t == 0 {
            None
        } else {
            match production_unix_seconds(t) {
                Ok(ms) => Some(ms),
                Err(error) => return Err(error),
            }
        },
        None => None,
    };
    match validate_email(data.email.as_str()) {
        Ok(()) => {},
        Err(error) => return Err(error),
    }
    match validate_subscription_url(data.subscribe_url.as_str()) {
        Ok(()) => {},
        Err(error) => return Err(error),
    }
    let uuid_len = data.uuid.as_str().as_bytes().len();
    let plan_is_empty = match &data.plan {
        Some(p) => p.field_count == 0,
        None => false,
    };
    if uuid_len == 0 || uuid_len > 128 || data.token.unicode_len() == 0 || plan_is_empty {
        return Err(BusinessServiceError::InvalidResponse);
    }
    let (status, plan_id) = match data.plan_id {
        Some(id) => if id != 0 {
            let mut digits: Vec<u8> = Vec::new();
            push_decimal_u64(&mut digits, id);
            proof {
                lemma_decimal_ascii(id as nat);
                assert(digits@ =~= crate::data_plane_config::decimal_text(id as nat));
            }
            (SubscriptionStatus::Active, Some(crate::text::string_from_ascii(digits)))
        } else {
            (SubscriptionStatus::NoPlan, None)
        },
        None => (SubscriptionStatus::NoPlan, None),
    };
    let plan_name = match &data.plan {
        Some(p) => match &p.name {
            Some(name) => {
                let t = trim_text(name.as_str());
                if t.unicode_len() > 0 && t.as_str().as_bytes().len() <= MAX_PLAN_NAME_BYTES
                    && !crate::text::bytes_have_control_char(t.as_str().as_bytes()) {
                    Some(t)
                } else {
                    None
                }
            },
            None => None,
        },
        None => None,
    };
    Ok(SubscriptionInfo {
        status,
        plan_id,
        plan_name,
        expires_at_unix_ms,
        used_bytes,
        upload_bytes: data.upload,
        download_bytes: data.download,
        total_bytes: data.transfer_enable,
        subscription_credential: data.subscribe_url,
    })
}


pub const MAX_GIFT_CARD_REWARD_JSON_BYTES: usize = 8192;

/// An optional gift card text, trimmed, with an empty one taken as none;
/// `None` where a text is left that cannot be shown.
pub open spec fn gift_card_optional_text(text: Option<String>) -> Option<Option<Seq<char>>> {
    match text {
        Some(t) => if trimmed(t@).len() == 0 {
            Some(None)
        } else if valid_gift_card_text_bytes(utf8_bytes(trimmed(t@))) {
            Some(Some(trimmed(t@)))
        } else {
            None
        },
        None => Some(None),
    }
}

/// A reward written out as JSON is shown where it is at most 8 KiB.
pub open spec fn shown_reward_json(json: Option<String>) -> Option<Seq<char>> {
    match json {
        Some(j) => if utf8_bytes(j@).len() <= MAX_GIFT_CARD_REWARD_JSON_BYTES {
            Some(j@)
        } else {
            None
        },
        None => None,
    }
}

fn gift_card_text(text: &Option<String>) -> (r: Result<Option<String>, BusinessServiceError>)
    ensures
        r is Ok <==> gift_card_optional_text(*text) is Some,
        r matches Ok(shown) ==> Some(optional_text(shown)) == gift_card_optional_text(*text),
        r matches Err(e) ==> e == BusinessServiceError::InvalidResponse,
{
    match text {
        Some(t) => {
            let trimmed_text = trim_text(t.as_str());
            if trimmed_text.unicode_len() == 0 {
                Ok(None)
            } else if valid_gift_card_text(trimmed_text.as_str()) {
                Ok(Some(trimmed_text))
            } else {
                Err(BusinessServiceError::InvalidResponse)
            }
        },
        None => Ok(None),
    }
}

fn reward_json(json: Option<String>) -> (r: Option<String>)
    ensures
        optional_text(r) == shown_reward_json(json),
{
    match json {
        Some(j) => if j.as_str().as_bytes().len() <= MAX_GIFT_CARD_REWARD_JSON_BYTES {
            Some(j)
        } else {
            None
        },
        None => None,
    }
}

/// A gift card check as the service sends it; the reward preview is
/// already written out as JSON.
pub struct GiftCardCheckData {
    pub can_redeem: bool,
    pub reason: Option<String>,
    pub card_name: Option<String>,
    pub reward_preview_json: Option<String>,
}

/// A gift card check as the client shows it.
#[derive(Debug, Clone)]
pub struct GiftCardCheck {
    pub can_redeem: bool,
    pub reason: Option<String>,
    pub card_name: Option<String>,
    pub reward_preview_json: Option<String>,
}

/// Checks the answer to a gift card check: a reason or card name that,
/// trimmed and not empty, cannot be shown is an invalid response.
pub fn decode_gift_card_check(data: GiftCardCheckData) -> (r: Result<GiftCardCheck, BusinessServiceError>)
    ensures
        r is Ok <==> gift_card_optional_text(data.reason) is Some && gift_card_optional_text(
            data.card_name,
        ) is Some,
        r matches Ok(check) ==> {
            &&& check.can_redeem == data.can_redeem
            &&& Some(optional_text(check.reason)) == gift_card_optional_text(data.reason)
            &&& Some(optional_text(check.card_name)) == gift_card_optional_text(data.card_name)
            &&& optional_text(check.reward_preview_json) == shown_reward_json(data.reward_preview_json)
        },
        r matches Err(e) ==> e == BusinessServiceError::InvalidResponse,
{
    let reason = match gift_card_text(&data.reason) {
        Ok(reason) => reason,
        Err(error) => return Err(error),
    };
    let card_name = match gift_card_text(&data.card_name) {
        Ok(name) => name,
        Err(error) => return Err(error),
    };
    Ok(GiftCardCheck {
        can_redeem: data.can_redeem,
        reason,
        card_name,
        reward_preview_json: reward_json(data.reward_preview_json),
    })
}

/// A gift card redemption as the service answers it; the rewards are
/// already written out as JSON.
pub struct GiftCardRedeemData {
    pub message: String,
    pub template_name: Option<String>,
    pub rewards_json: Option<String>,
}

/// A gift card redemption as the client shows it.
#[derive(Debug, Clone)]
pub struct GiftCardRedeem {
    pub message: String,
    pub template_name: Option<String>,
    pub rewards_json: Option<String>,
}

/// Checks the answer to a redemption: the trimmed message must be 1 to 512
/// bytes without control characters, and a template name as for a check.
pub fn decode_gift_card_redeem(data: GiftCardRedeemData) -> (r: Result<
    GiftCardRedeem,
    BusinessServiceError,
>)
    ensures
        r is Ok <==> valid_gift_card_text_bytes(utf8_bytes(trimmed(data.message@)))
            && gift_card_optional_text(data.template_name) is Some,
        r matches Ok(redeem) ==> {
            &&& redeem.message@ == trimmed(data.message@)
            &&& Some(optional_text(redeem.template_name)) == gift_card_optional_text(
                data.template_name,
            )
            &&& optional_text(redeem.rewards_json) == shown_reward_json(data.rewards_json)
        },
        r matches Err(e) ==> e == BusinessServiceError::InvalidResponse,
{
    let message = trim_text(data.message.as_str());
    if !valid_gift_card_text(message.as_str()) {
        return Err(BusinessServiceError::InvalidResponse);
    }
    let template_name = match gift_card_text(&data.template_name) {
        Ok(name) => name,
        Err(error) => return Err(error),
    };
    Ok(GiftCardRedeem { message, template_name, rewards_json: reward_json(data.rewards_json) })
}


/// The production configuration as the service sends it; whether its
/// reCAPTCHA score threshold is a finite number from 0 to 1 is read where the
/// number is.
pub struct ProductionConfigData {
    pub app_description: String,
    pub app_url: String,
    pub captcha_type: String,
    pub email_whitelist_suffix: Vec<String>,
    pub is_captcha: u8,
    pub is_email_verify: u8,
    pub is_invite_force: u8,
    pub is_recaptcha: u8,
    pub logo: Option<String>,
    pub recaptcha_site_key: Option<String>,
    pub recaptcha_v3_site_key: Option<String>,
    pub tos_url: Option<String>,
    pub turnstile_site_key: Option<String>,
    pub recaptcha_threshold_in_range: bool,
}

/// An optional configuration text is at most 4 KiB without control
/// characters.
pub open spec fn config_text_ok(text: Option<String>) -> bool {
    text matches Some(t) ==> utf8_bytes(t@).len() <= 4096 && !crate::text::has_control_char(
        utf8_bytes(t@),
    )
}

/// Whether the production configuration is accepted: switches are 0 or 1,
/// the texts are within their sizes, at most 64 whitelisted e-mail suffixes
/// of at most 253 ASCII bytes each, a threshold in range, and optional texts
/// that can be shown.
pub open spec fn production_config_ok(config: ProductionConfigData) -> bool {
    &&& config.is_captcha <= 1 && config.is_email_verify <= 1 && config.is_invite_force <= 1
        && config.is_recaptcha <= 1
    &&& utf8_bytes(config.app_description@).len() <= 16384
    &&& utf8_bytes(config.app_url@).len() <= 4096
    &&& utf8_bytes(config.captcha_type@).len() <= 64
    &&& config.email_whitelist_suffix@.len() <= 64
    &&& forall|i: int|
        0 <= i < config.email_whitelist_suffix@.len() ==> utf8_bytes(
            #[trigger] config.email_whitelist_suffix@[i]@,
        ).len() <= 253 && all_ascii(utf8_bytes(config.email_whitelist_suffix@[i]@))
    &&& config.recaptcha_threshold_in_range
    &&& config_text_ok(config.logo)
    &&& config_text_ok(config.recaptcha_site_key)
    &&& config_text_ok(config.recaptcha_v3_site_key)
    &&& config_text_ok(config.tos_url)
    &&& config_text_ok(config.turnstile_site_key)
}

fn config_text(text: &Option<String>) -> (r: bool)
    ensures
        r == config_text_ok(*text),
{
    match text {
        Some(t) => t.as_str().as_bytes().len() <= 4096 && !crate::text::bytes_have_control_char(
            t.as_str().as_bytes(),
        ),
        None => true,
    }
}

fn bytes_all_ascii(bytes: &[u8]) -> (r: bool)
    ensures
        r == all_ascii(bytes@),
{
    let mut i: usize = 0;
    while i < bytes.len()
        invariant
            i <= bytes@.len(),
            forall|j: int| 0 <= j < i ==> bytes@[j] < 128,
        decreases bytes@.len() - i,
    {
        if bytes[i] >= 128 {
            return false;
        }
        i += 1;
    }
    true
}

/// Checks the production configuration before the client uses it; anything
/// out of shape is an invalid response.
pub fn validate_production_config(config: &ProductionConfigData) -> (r: Result<
    (),
    BusinessServiceError,
>)
    ensures
        r is Ok <==> production_config_ok(*config),
        r matches Err(e) ==> e == BusinessServiceError::InvalidResponse,
{
    if config.is_captcha > 1 || config.is_email_verify > 1 || config.is_invite_force > 1
        || config.is_recaptcha > 1 || config.app_description.as_str().as_bytes().len() > 16384
        || config.app_url.as_str().as_bytes().len() > 4096
        || config.captcha_type.as_str().as_bytes().len() > 64
        || config.email_whitelist_suffix.len() > 64 || !config.recaptcha_threshold_in_range {
        return Err(BusinessServiceError::InvalidResponse);
    }
    let mut i: usize = 0;
    while i < config.email_whitelist_suffix.len()
        invariant
            i <= config.email_whitelist_suffix@.len(),
            forall|k: int|
                0 <= k < i ==> utf8_bytes(#[trigger] config.email_whitelist_suffix@[k]@).len()
                    <= 253 && all_ascii(utf8_bytes(config.email_whitelist_suffix@[k]@)),
        decreases config.email_whitelist_suffix@.len() - i,
    {
        let bytes = config.email_whitelist_suffix[i].as_str().as_bytes();
        if bytes.len() > 253 || !bytes_all_ascii(bytes) {
            return Err(BusinessServiceError::InvalidResponse);
        }
        i += 1;
    }
    if !config_text(&config.logo) || !config_text(&config.recaptcha_site_key) || !config_text(
        &config.recaptcha_v3_site_key,
    ) || !config_text(&config.tos_url) || !config_text(&config.turnstile_site_key) {
        return Err(BusinessServiceError::InvalidResponse);
    }
    Ok(())
}

/// Whether a login answer's token is accepted: 1 to 16 KiB.
pub open spec fn login_token_ok(token: Seq<char>) -> bool {
    0 < utf8_bytes(token).len() <= 16384
}

/// Checks a production login answer: the bearer credential is normalized
/// first, then the token must be 1 to 16 KiB; the normalized credential and
/// the token are handed back.
pub fn decode_production_login(auth_data: String, token: String) -> (r: Result<
    (String, String),
    BusinessServiceError,
>)
    ensures
        r is Ok <==> valid_bearer_token(bearer_token(utf8_bytes(auth_data@))) && login_token_ok(
            token@,
        ),
        r matches Ok(pair) ==> utf8_bytes(pair.0@) == bearer_token(utf8_bytes(auth_data@))
            && pair.1@ == token@,
        r matches Err(e) ==> e == BusinessServiceError::InvalidResponse,
{
    let normalized = match normalize_production_bearer(auth_data) {
        Ok(value) => value,
        Err(error) => return Err(error),
    };
    let length = token.as_str().as_bytes().len();
    if length == 0 || length > 16384 {
        return Err(BusinessServiceError::InvalidResponse);
    }
    Ok((normalized, token))
}

/// Checks the order id a production create-order answer carries.
pub fn decode_created_order_id(order_id: String) -> (r: Result<String, BusinessServiceError>)
    ensures
        r is Ok <==> valid_order_id_bytes(utf8_bytes(order_id@)),
        r matches Ok(id) ==> id@ == order_id@,
        r matches Err(e) ==> e == BusinessServiceError::InvalidResponse,
{
    if valid_order_id(order_id.as_str()) {
        Ok(order_id)
    } else {
        Err(BusinessServiceError::InvalidResponse)
    }
}


/// The schema version of the load reports this client reads.
pub const BUSINESS_API_SCHEMA_VERSION: u16 = 1;

/// One node's load report as the service sends it; whether its load is a
/// finite share from 0 to 1 and its selection weight a finite number from
/// 0.1 to 10 is read where those numbers are.
pub struct NodeLoadData {
    pub id: String,
    pub capacity_group: String,
    pub has_load: bool,
    pub load_in_range: bool,
    pub weight_in_range: bool,
    pub state: NodeLoadState,
    pub updated_at: Option<u64>,
}

/// Whether a report is accepted on its own: valid ids, numbers in range, a
/// load exactly when the state is known, and a safe update time.
pub open spec fn node_load_ok(node: NodeLoadData) -> bool {
    &&& valid_load_identifier_bytes(utf8_bytes(node.id@))
    &&& valid_load_identifier_bytes(utf8_bytes(node.capacity_group@))
    &&& node.load_in_range
    &&& node.weight_in_range
    &&& (node.state == NodeLoadState::Unknown <==> !node.has_load)
    &&& (node.updated_at matches Some(t) ==> t <= MAX_SAFE_INTEGER)
}

/// Whether the load snapshot is accepted: this schema version, a time to
/// live of 30 to 600 seconds, a safe generation time, at most
/// `MAX_PUBLIC_NODE_LOADS` reports, each accepted, and no id reported twice.
pub open spec fn node_loads_accepted(
    schema_version: u16,
    generated_at: u64,
    ttl_seconds: u64,
    nodes: Seq<NodeLoadData>,
) -> bool {
    &&& schema_version == BUSINESS_API_SCHEMA_VERSION
    &&& 30 <= ttl_seconds <= 600
    &&& generated_at <= MAX_SAFE_INTEGER
    &&& nodes.len() <= MAX_PUBLIC_NODE_LOADS
    &&& forall|i: int| 0 <= i < nodes.len() ==> node_load_ok(#[trigger] nodes[i])
    &&& forall|i: int, j: int|
        0 <= i < j < nodes.len() ==> #[trigger] nodes[i].id@ != #[trigger] nodes[j].id@
}

/// Checks the load snapshot the service sent and keeps, in order, each
/// node's id, capacity group, state and update time; anything out of shape is an invalid
/// response.
pub fn decode_node_loads(
    schema_version: u16,
    generated_at: u64,
    ttl_seconds: u64,
    nodes: Vec<NodeLoadData>,
) -> (r: Result<NodeLoadsResponse, BusinessServiceError>)
    ensures
        r is Ok <==> node_loads_accepted(schema_version, generated_at, ttl_seconds, nodes@),
        r matches Ok(loads) ==> {
            &&& loads.generated_at == generated_at
            &&& loads.ttl_seconds == ttl_seconds
            &&& loads.nodes@.len() == nodes@.len()
            &&& forall|i: int|
                0 <= i < nodes@.len() ==> (#[trigger] loads.nodes@[i]).id@ == nodes@[i].id@
                    && loads.nodes@[i].capacity_group@ == nodes@[i].capacity_group@
                    && loads.nodes@[i].state == nodes@[i].state && loads.nodes@[i].updated_at
                    == nodes@[i].updated_at
        },
        r matches Err(e) ==> e == BusinessServiceError::InvalidResponse,
{
    if schema_version != BUSINESS_API_SCHEMA_VERSION || ttl_seconds < 30 || ttl_seconds > 600
        || generated_at > MAX_SAFE_INTEGER || nodes.len() > MAX_PUBLIC_NODE_LOADS {
        return Err(BusinessServiceError::InvalidResponse);
    }
    let mut kept: Vec<NodeLoad> = Vec::new();
    let mut i: usize = 0;
    while i < nodes.len()
        invariant
            i <= nodes@.len(),
            kept@.len() == i,
            forall|k: int| 0 <= k < i ==> node_load_ok(#[trigger] nodes@[k]),
            forall|a: int, b: int| 0 <= a < b < i ==> #[trigger] nodes@[a].id@ != #[trigger] nodes@[b].id@,
            forall|k: int|
                0 <= k < i ==> (#[trigger] kept@[k]).id@ == nodes@[k].id@
                    && kept@[k].capacity_group@ == nodes@[k].capacity_group@ && kept@[k].state
                    == nodes@[k].state && kept@[k].updated_at == nodes@[k].updated_at,
        decreases nodes@.len() - i,
    {
        let node = &nodes[i];
        let id_bytes = node.id.as_str().as_bytes();
        if !valid_load_identifier(node.id.as_str()) || !valid_load_identifier(
            node.capacity_group.as_str(),
        ) || !node.load_in_range || !node.weight_in_range {
            return Err(BusinessServiceError::InvalidResponse);
        }
        let unknown = match node.state {
            NodeLoadState::Unknown => true,
            _ => false,
        };
        if unknown == node.has_load {
            return Err(BusinessServiceError::InvalidResponse);
        }
        match node.updated_at {
            Some(t) => if t > MAX_SAFE_INTEGER {
                return Err(BusinessServiceError::InvalidResponse);
            },
            None => {},
        }
        let mut j: usize = 0;
        while j < i
            invariant
                j <= i < nodes@.len(),
                id_bytes@ == utf8_bytes(nodes@[i as int].id@),
                forall|a: int| 0 <= a < j ==> nodes@[a].id@ != nodes@[i as int].id@,
            decreases i - j,
        {
            if crate::text::bytes_equal(nodes[j].id.as_str().as_bytes(), id_bytes) {
                proof {
                    crate::text::lemma_utf8_bytes_injective(
                        nodes@[j as int].id@,
                        nodes@[i as int].id@,
                    );
                    assert(nodes@[j as int].id@ == nodes@[i as int].id@);
                    assert(!(nodes@[j as int].id@ != nodes@[i as int].id@));
                }
                return Err(BusinessServiceError::InvalidResponse);
            }
            proof {
                crate::text::lemma_utf8_bytes_injective(nodes@[j as int].id@, nodes@[i as int].id@);
            }
            j += 1;
        }
        kept.push(
            NodeLoad {
                id: node.id.clone(),
                capacity_group: node.capacity_group.clone(),
                state: node.state,
                updated_at: node.updated_at,
            },
        );
        i += 1;
    }
    Ok(NodeLoadsResponse { generated_at, ttl_seconds, nodes: kept })
}


#[derive(Debug, Clone, Copy, PartialEq, Eq, Structural)]
pub enum AuthSessionStatus {
    SignedOut,
    Authenticated,
    Unverified,
}

/// The session the client shows: its status and, where known, the user.
#[derive(Debug)]
pub struct AuthSession {
    pub status: AuthSessionStatus,
    pub user: Option<UserProfile>,
}

/// The fields of a user profile.
pub open spec fn profile_view(profile: UserProfile) -> (Seq<char>, Seq<char>, AccountStatus, u64) {
    (profile.user_id@, profile.email@, profile.status, profile.balance_minor_units)
}

/// The fields of a session.
pub open spec fn session_view(session: AuthSession) -> (
    AuthSessionStatus,
    Option<(Seq<char>, Seq<char>, AccountStatus, u64)>,
) {
    (
        session.status,
        match session.user {
            Some(user) => Some(profile_view(user)),
            None => None,
        },
    )
}

/// A signed-out session: no user.
pub open spec fn signed_out_view() -> (
    AuthSessionStatus,
    Option<(Seq<char>, Seq<char>, AccountStatus, u64)>,
) {
    (AuthSessionStatus::SignedOut, None)
}

fn copy_profile(profile: &UserProfile) -> (r: UserProfile)
    ensures
        profile_view(r) == profile_view(*profile),
{
    UserProfile {
        user_id: profile.user_id.clone(),
        email: profile.email.clone(),
        status: profile.status,
        balance_minor_units: profile.balance_minor_units,
    }
}

fn copy_session(session: &AuthSession) -> (r: AuthSession)
    ensures
        session_view(r) == session_view(*session),
{
    AuthSession {
        status: session.status,
        user: match &session.user {
            Some(user) => Some(copy_profile(user)),
            None => None,
        },
    }
}

impl AuthSession {
    pub fn signed_out() -> (r: AuthSession)
        ensures
            session_view(r) == signed_out_view(),
    {
        AuthSession { status: AuthSessionStatus::SignedOut, user: None }
    }

    pub fn authenticated(user: UserProfile) -> (r: AuthSession)
        ensures
            session_view(r) == (AuthSessionStatus::Authenticated, Some(profile_view(user))),
    {
        AuthSession { status: AuthSessionStatus::Authenticated, user: Some(user) }
    }

    pub fn unverified(user: Option<UserProfile>) -> (r: AuthSession)
        ensures
            session_view(r) == (
                AuthSessionStatus::Unverified,
                match user {
                    Some(u) => Some(profile_view(u)),
                    None => None,
                },
            ),
    {
        AuthSession { status: AuthSessionStatus::Unverified, user }
    }
}

/// The configuration the client works with once it is initialized.
#[derive(Debug)]
pub struct ServiceConfig {
    pub minimum_supported_version: String,
    pub maintenance: bool,
    pub notice: Option<String>,
    pub registration_requires_invite: bool,
    pub registration_requires_email_verification: bool,
    pub email_suffix_whitelist: Vec<String>,
}

/// The version the production service supports at least.
pub const PRODUCTION_MINIMUM_SUPPORTED_VERSION: &'static str = "0.1.0";

/// The configuration a production service's accepted settings give: no
/// maintenance, its description as the notice unless it is blank, its
/// switches, and its normalized e-mail suffixes.
pub fn production_service_config(config: ProductionConfigData) -> (r: ServiceConfig)
    ensures
        r.minimum_supported_version@ == PRODUCTION_MINIMUM_SUPPORTED_VERSION@,
        !r.maintenance,
        optional_text(r.notice) == if trimmed(config.app_description@).len() == 0 {
            None
        } else {
            Some(config.app_description@)
        },
        r.registration_requires_invite == (config.is_invite_force != 0),
        r.registration_requires_email_verification == (config.is_email_verify != 0),
{
    let blank = trim_text(config.app_description.as_str()).unicode_len() == 0;
    let notice = if blank {
        None
    } else {
        Some(config.app_description)
    };
    ServiceConfig {
        minimum_supported_version: PRODUCTION_MINIMUM_SUPPORTED_VERSION.to_string(),
        maintenance: false,
        notice,
        registration_requires_invite: config.is_invite_force != 0,
        registration_requires_email_verification: config.is_email_verify != 0,
        email_suffix_whitelist: normalize_email_suffixes(config.email_whitelist_suffix),
    }
}

/// What a JSON response hands over: its body, where its media type is JSON
/// and the body is not empty.
pub open spec fn json_body_outcome(
    response: BusinessCommandResponse,
    r: Result<Vec<u8>, BusinessServiceError>,
) -> bool {
    if !json_content_type(response.spec_content_type()) {
        r == Err::<Vec<u8>, BusinessServiceError>(BusinessServiceError::InvalidContentType)
    } else if response.spec_body().len() == 0 {
        r == Err::<Vec<u8>, BusinessServiceError>(BusinessServiceError::InvalidResponse)
    } else {
        r matches Ok(body) && body@ == response.spec_body()
    }
}

/// A client answer as the service reports it.
fn service_answer(answer: Result<BusinessCommandResponse, BusinessClientError>) -> (r: Result<
    BusinessCommandResponse,
    BusinessServiceError,
>)
    ensures
        match answer {
            Ok(response) => r == Ok::<BusinessCommandResponse, BusinessServiceError>(response),
            Err(e) => r == Err::<BusinessCommandResponse, BusinessServiceError>(
                BusinessServiceError::Client(e),
            ),
        },
{
    match answer {
        Ok(response) => Ok(response),
        Err(error) => Err(BusinessServiceError::Client(error)),
    }
}

/// What checking a registration gives, in the order the checks are made.
pub open spec fn registration_check(
    email: Seq<u8>,
    password: Seq<u8>,
    invite_code: Option<Seq<u8>>,
    email_code: Option<Seq<u8>>,
    initialized: bool,
    requires_invite: bool,
    requires_email_verification: bool,
    production_backend: bool,
) -> Result<bool, BusinessServiceError> {
    if !valid_email(email) {
        Err(BusinessServiceError::InvalidEmail)
    } else if !valid_password(password) {
        Err(BusinessServiceError::InvalidPassword)
    } else if invite_code matches Some(c) && !valid_invite_code(c) {
        Err(BusinessServiceError::InvalidInviteCode)
    } else if email_code matches Some(c) && !valid_verification_code(c) {
        Err(BusinessServiceError::InvalidEmailVerificationCode)
    } else if !initialized {
        Err(BusinessServiceError::NotInitialized)
    } else if requires_email_verification && email_code is None {
        Err(BusinessServiceError::EmailVerificationRequired)
    } else if requires_invite && invite_code is None {
        Err(BusinessServiceError::InviteRequired)
    } else {
        Ok(production_backend)
    }
}

/// The account service: the client it speaks through, its configuration and
/// the session it shows. Its operations run one at a time.
pub struct BusinessApiService<T, B, C> {
    client: BusinessCommandClient<T, B>,
    clock: C,
    config: Option<ServiceConfig>,
    service_portal_url: Option<String>,
    production_backend: bool,
    session: AuthSession,
}

impl<T: BootstrapTransport, B: SecretStoreBackend, C: BusinessClock> BusinessApiService<T, B, C> {
    pub closed spec fn spec_client(&self) -> BusinessCommandClient<T, B> {
        self.client
    }

    pub closed spec fn spec_session(&self) -> (
        AuthSessionStatus,
        Option<(Seq<char>, Seq<char>, AccountStatus, u64)>,
    ) {
        session_view(self.session)
    }

    pub closed spec fn spec_initialized(&self) -> bool {
        self.config is Some
    }

    pub closed spec fn spec_production_backend(&self) -> bool {
        self.production_backend
    }

    pub closed spec fn spec_requires_invite(&self) -> bool {
        self.config matches Some(c) && c.registration_requires_invite
    }

    pub closed spec fn spec_requires_email_verification(&self) -> bool {
        self.config matches Some(c) && c.registration_requires_email_verification
    }

    pub closed spec fn spec_service_portal_url(&self) -> Option<Seq<char>> {
        optional_text(self.service_portal_url)
    }

    /// A service that is not initialized yet and shows a signed-out session.
    pub fn new(client: BusinessCommandClient<T, B>, clock: C) -> (service: Self)
        ensures
            service.spec_client() == client,
            !service.spec_initialized(),
            service.spec_session() == signed_out_view(),
            service.spec_service_portal_url() is None,
            !service.spec_production_backend(),
    {
        BusinessApiService {
            client,
            clock,
            config: None,
            service_portal_url: None,
            production_backend: false,
            session: AuthSession::signed_out(),
        }
    }

    /// The session the client shows.
    pub fn session(&self) -> (r: AuthSession)
        ensures
            session_view(r) == self.spec_session(),
    {
        copy_session(&self.session)
    }

    /// The service portal's address, once the service is initialized.
    pub fn service_portal_url(&self) -> (r: Result<String, BusinessServiceError>)
        ensures
            match self.spec_service_portal_url() {
                Some(url) => r matches Ok(u) && u@ == url,
                None => r == Err::<String, BusinessServiceError>(BusinessServiceError::NotInitialized),
            },
    {
        match &self.service_portal_url {
            Some(url) => Ok(url.clone()),
            None => Err(BusinessServiceError::NotInitialized),
        }
    }

    /// Takes the configuration, the kind of backend, the portal address and
    /// the session that initializing the service found.
    pub fn install_initialization(
        &mut self,
        config: ServiceConfig,
        production_backend: bool,
        service_portal_url: String,
        session: AuthSession,
    )
        ensures
            final(self).spec_client() == old(self).spec_client(),
            final(self).spec_initialized(),
            final(self).spec_production_backend() == production_backend,
            final(self).spec_service_portal_url() == Some(service_portal_url@),
            final(self).spec_session() == session_view(session),
            final(self).spec_requires_invite() == config.registration_requires_invite,
            final(self).spec_requires_email_verification()
                == config.registration_requires_email_verification,
    {
        self.config = Some(config);
        self.service_portal_url = Some(service_portal_url);
        self.production_backend = production_backend;
        self.session = session;
    }

    /// Stops every user data-plane resource, and only when that succeeded
    /// deletes the stored session and shows a signed-out session. A failed
    /// stop leaves everything as it was; a failed deletion leaves the session
    /// shown as it was.
    pub fn logout<D: LogoutDataPlane>(&mut self, data_plane: &D) -> (r: Result<
        AuthSession,
        BusinessServiceError,
    >)
        ensures
            exists|stopped: Result<(), PlatformVpnError>|
                #[trigger] data_plane.stops(stopped) && match stopped {
                    Err(e) => r == Err::<AuthSession, BusinessServiceError>(
                        BusinessServiceError::DataPlane(e),
                    ) && *final(self) == *old(self),
                    Ok(_) => {
                        &&& BusinessCommandClient::same_parts(
                            old(self).spec_client(),
                            final(self).spec_client(),
                        )
                        &&& final(self).spec_client().spec_secrets().calls() == old(self).spec_client().spec_secrets().calls() + logout_calls()
                        &&& final(self).spec_client().spec_sent() == old(self).spec_client().spec_sent()
                        &&& final(self).spec_initialized() == old(self).spec_initialized()
                        &&& exists|cleared: Result<(), SecretStoreError>|
                            #[trigger] logs_out(
                                old(self).spec_client().spec_secrets().backend(),
                                cleared,
                            ) && match cleared {
                                Err(e) => r == Err::<AuthSession, BusinessServiceError>(
                                    BusinessServiceError::Client(BusinessClientError::SecretStore(e)),
                                ) && final(self).spec_session() == old(self).spec_session(),
                                Ok(_) => r matches Ok(session) && session_view(session)
                                    == signed_out_view() && final(self).spec_session()
                                    == signed_out_view(),
                            }
                    },
                },
    {
        let stopped = data_plane.stop_for_logout();
        match stopped {
            Ok(()) => {},
            Err(error) => return Err(BusinessServiceError::DataPlane(error)),
        }
        let cleared = self.client.clear_authentication();
        match cleared {
            Ok(()) => {},
            Err(error) => return Err(BusinessServiceError::Client(error)),
        }
        self.session = AuthSession::signed_out();
        Ok(AuthSession::signed_out())
    }

    /// Sends a request through the client, leaving the session shown as it is.
    pub fn execute(&mut self, request: BusinessCommandRequest) -> (r: Result<
        BusinessCommandResponse,
        BusinessServiceError,
    >)
        ensures
            exists|answer: Result<BusinessCommandResponse, BusinessClientError>|
                #[trigger] BusinessCommandClient::executed(
                    old(self).spec_client(),
                    final(self).spec_client(),
                    request,
                    answer,
                ) && match answer {
                    Ok(response) => r == Ok::<BusinessCommandResponse, BusinessServiceError>(
                        response,
                    ),
                    Err(e) => r == Err::<BusinessCommandResponse, BusinessServiceError>(
                        BusinessServiceError::Client(e),
                    ),
                },
            final(self).spec_session() == old(self).spec_session(),
            final(self).spec_initialized() == old(self).spec_initialized(),
    {
        let answer = self.client.execute(request);
        let ghost a = answer;
        let r = service_answer(answer);
        assert(BusinessCommandClient::executed(old(self).spec_client(), self.spec_client(), request, a));
        r
    }

    /// Sends a request through the client; an answer that the session is
    /// missing or refused also shows a signed-out session.
    pub fn execute_authenticated_request(&mut self, request: BusinessCommandRequest) -> (r: Result<
        BusinessCommandResponse,
        BusinessServiceError,
    >)
        ensures
            exists|answer: Result<BusinessCommandResponse, BusinessClientError>|
                #[trigger] BusinessCommandClient::executed(
                    old(self).spec_client(),
                    final(self).spec_client(),
                    request,
                    answer,
                ) && match answer {
                    Ok(response) => r == Ok::<BusinessCommandResponse, BusinessServiceError>(
                        response,
                    ),
                    Err(e) => r == Err::<BusinessCommandResponse, BusinessServiceError>(
                        BusinessServiceError::Client(e),
                    ),
                },
            r is Ok ==> final(self).spec_session() == old(self).spec_session(),
            r matches Err(BusinessServiceError::Client(e)) ==> final(self).spec_session() == if e
                == BusinessClientError::AuthenticationRequired || e
                == BusinessClientError::Unauthorized {
                signed_out_view()
            } else {
                old(self).spec_session()
            },
            r is Err ==> r matches Err(BusinessServiceError::Client(_)),
            final(self).spec_initialized() == old(self).spec_initialized(),
    {
        let answer = self.client.execute(request);
        let signs_out = match &answer {
            Err(BusinessClientError::AuthenticationRequired) => true,
            Err(BusinessClientError::Unauthorized) => true,
            _ => false,
        };
        if signs_out {
            self.session = AuthSession::signed_out();
        }
        let ghost a = answer;
        let r = service_answer(answer);
        assert(BusinessCommandClient::executed(old(self).spec_client(), self.spec_client(), request, a));
        r
    }

    /// Fetches what `command` reads for the signed-in user: the service must be
    /// initialized and the session authenticated, the command one that reads;
    /// the answer must carry JSON.
    pub fn fetch_body(&mut self, command: BusinessCommand) -> (r: Result<Vec<u8>, BusinessServiceError>)
        ensures
            !old(self).spec_initialized() ==> r == Err::<Vec<u8>, BusinessServiceError>(
                BusinessServiceError::NotInitialized,
            ) && *final(self) == *old(self),
            old(self).spec_initialized() && old(self).spec_session().0
                != AuthSessionStatus::Authenticated ==> r == Err::<Vec<u8>, BusinessServiceError>(
                BusinessServiceError::Client(BusinessClientError::AuthenticationRequired),
            ) && *final(self) == *old(self),
            old(self).spec_initialized() && old(self).spec_session().0
                == AuthSessionStatus::Authenticated && spec_route_method(command)
                != BusinessMethod::Get ==> r == Err::<Vec<u8>, BusinessServiceError>(
                BusinessServiceError::Client(BusinessClientError::InvalidRequest),
            ) && *final(self) == *old(self),
            old(self).spec_initialized() && old(self).spec_session().0
                == AuthSessionStatus::Authenticated && spec_route_method(command)
                == BusinessMethod::Get ==> exists|
                request: BusinessCommandRequest,
                answer: Result<BusinessCommandResponse, BusinessClientError>,
            |
                #![trigger BusinessCommandClient::executed(old(self).spec_client(), final(self).spec_client(), request, answer)]
                request.spec_command() == command && request.spec_path_and_query() == utf8_bytes(
                    spec_route_path(command),
                ) && request.spec_body().len() == 0 && BusinessCommandClient::executed(
                    old(self).spec_client(),
                    final(self).spec_client(),
                    request,
                    answer,
                ) && match answer {
                    Ok(response) => json_body_outcome(response, r) && final(self).spec_session()
                        == old(self).spec_session(),
                    Err(e) => r == Err::<Vec<u8>, BusinessServiceError>(
                        BusinessServiceError::Client(e),
                    ) && final(self).spec_session() == if e
                        == BusinessClientError::AuthenticationRequired || e
                        == BusinessClientError::Unauthorized {
                        signed_out_view()
                    } else {
                        old(self).spec_session()
                    },
                },
    {
        if self.config.is_none() {
            return Err(BusinessServiceError::NotInitialized);
        }
        match self.session.status {
            AuthSessionStatus::Authenticated => {},
            _ => return Err(BusinessServiceError::Client(BusinessClientError::AuthenticationRequired)),
        }
        let request = match BusinessCommandRequest::without_body(command) {
            Ok(request) => request,
            Err(error) => return Err(BusinessServiceError::Client(error)),
        };
        let ghost sent = request;
        let response = match self.execute_authenticated_request(request) {
            Ok(response) => response,
            Err(error) => return Err(error),
        };
        take_json_body(response)
    }

    /// Whether an operation for the signed-in user may run: the service must be
    /// initialized and the session authenticated.
    pub fn require_authenticated(&self) -> (r: Result<(), BusinessServiceError>)
        ensures
            !self.spec_initialized() ==> r == Err::<(), BusinessServiceError>(
                BusinessServiceError::NotInitialized,
            ),
            self.spec_initialized() && self.spec_session().0 != AuthSessionStatus::Authenticated
                ==> r == Err::<(), BusinessServiceError>(
                BusinessServiceError::Client(BusinessClientError::AuthenticationRequired),
            ),
            self.spec_initialized() && self.spec_session().0 == AuthSessionStatus::Authenticated
                ==> r == Ok::<(), BusinessServiceError>(()),
    {
        if self.config.is_none() {
            return Err(BusinessServiceError::NotInitialized);
        }
        match self.session.status {
            AuthSessionStatus::Authenticated => Ok(()),
            _ => Err(BusinessServiceError::Client(BusinessClientError::AuthenticationRequired)),
        }
    }

    /// Sends `request` for the signed-in user and takes the JSON it answers
    /// with; nothing is sent unless the service is initialized and the
    /// session authenticated.
    pub fn send_authenticated(&mut self, request: BusinessCommandRequest) -> (r: Result<
        Vec<u8>,
        BusinessServiceError,
    >)
        ensures
            !(old(self).spec_initialized() && old(self).spec_session().0
                == AuthSessionStatus::Authenticated) ==> r is Err && *final(self) == *old(self),
            old(self).spec_initialized() && old(self).spec_session().0
                == AuthSessionStatus::Authenticated ==> exists|
                answer: Result<BusinessCommandResponse, BusinessClientError>,
            |
                #[trigger] BusinessCommandClient::executed(
                    old(self).spec_client(),
                    final(self).spec_client(),
                    request,
                    answer,
                ) && match answer {
                    Ok(response) => json_body_outcome(response, r) && final(self).spec_session()
                        == old(self).spec_session(),
                    Err(e) => r == Err::<Vec<u8>, BusinessServiceError>(
                        BusinessServiceError::Client(e),
                    ) && final(self).spec_session() == if e
                        == BusinessClientError::AuthenticationRequired || e
                        == BusinessClientError::Unauthorized {
                        signed_out_view()
                    } else {
                        old(self).spec_session()
                    },
                },
            final(self).spec_initialized() == old(self).spec_initialized(),
    {
        match self.require_authenticated() {
            Ok(()) => {},
            Err(error) => return Err(error),
        }
        let response = match self.execute_authenticated_request(request) {
            Ok(response) => response,
            Err(error) => return Err(error),
        };
        take_json_body(response)
    }

    /// Shows the account the service just returned as the signed-in user.
    pub fn apply_account(&mut self, profile: UserProfile)
        ensures
            final(self).spec_client() == old(self).spec_client(),
            final(self).spec_initialized() == old(self).spec_initialized(),
            final(self).spec_session() == (
                AuthSessionStatus::Authenticated,
                Some(profile_view(profile)),
            ),
    {
        self.session = AuthSession::authenticated(profile);
    }

    /// Checks a login request before anything is sent: the e-mail address,
    /// the password, then that the service is initialized.
    pub fn prepare_login(&self, email: &str, password: &str) -> (r: Result<(), BusinessServiceError>)
        ensures
            !valid_email(utf8_bytes(email@)) ==> r == Err::<(), BusinessServiceError>(
                BusinessServiceError::InvalidEmail,
            ),
            valid_email(utf8_bytes(email@)) ==> if !valid_password(utf8_bytes(password@)) {
                r == Err::<(), BusinessServiceError>(BusinessServiceError::InvalidPassword)
            } else if self.spec_initialized() {
                r == Ok::<(), BusinessServiceError>(())
            } else {
                r == Err::<(), BusinessServiceError>(BusinessServiceError::NotInitialized)
            },
    {
        match validate_email(email) {
            Ok(()) => {},
            Err(error) => return Err(error),
        }
        match validate_password(password) {
            Ok(()) => {},
            Err(error) => return Err(error),
        }
        if self.config.is_none() {
            return Err(BusinessServiceError::NotInitialized);
        }
        Ok(())
    }

    /// Checks a registration request before anything is sent, in this order:
    /// the e-mail address, the password, the invite code and the e-mail code
    /// where given, that the service is initialized, then that the codes the
    /// configuration asks for are there. On success, whether the backend is
    /// the production service.
    pub fn prepare_registration(
        &self,
        email: &str,
        password: &str,
        invite_code: Option<&str>,
        email_code: Option<&str>,
    ) -> (r: Result<bool, BusinessServiceError>)
        ensures
            r == registration_check(
                utf8_bytes(email@),
                utf8_bytes(password@),
                match invite_code {
                    Some(c) => Some(utf8_bytes(c@)),
                    None => None,
                },
                match email_code {
                    Some(c) => Some(utf8_bytes(c@)),
                    None => None,
                },
                self.spec_initialized(),
                self.spec_requires_invite(),
                self.spec_requires_email_verification(),
                self.spec_production_backend(),
            ),
    {
        match validate_email(email) {
            Ok(()) => {},
            Err(error) => return Err(error),
        }
        match validate_password(password) {
            Ok(()) => {},
            Err(error) => return Err(error),
        }
        if let Some(code) = invite_code {
            match validate_invite_code(code) {
                Ok(()) => {},
                Err(error) => return Err(error),
            }
        }
        if let Some(code) = email_code {
            if !valid_email_verification_code(code) {
                return Err(BusinessServiceError::InvalidEmailVerificationCode);
            }
        }
        let (requires_invite, requires_email_verification) = match &self.config {
            Some(config) => (
                config.registration_requires_invite,
                config.registration_requires_email_verification,
            ),
            None => return Err(BusinessServiceError::NotInitialized),
        };
        if requires_email_verification && email_code.is_none() {
            return Err(BusinessServiceError::EmailVerificationRequired);
        }
        if requires_invite && invite_code.is_none() {
            return Err(BusinessServiceError::InviteRequired);
        }
        Ok(self.production_backend)
    }

    /// Stores the session that a production login or registration answered
    /// with: the bearer credential is normalized and the token checked, then
    /// both are stored as the access and refresh tokens.
    pub fn store_production_session(&mut self, auth_data: String, token: String) -> (r: Result<
        (),
        BusinessServiceError,
    >)
        ensures
            !(valid_bearer_token(bearer_token(utf8_bytes(auth_data@))) && login_token_ok(token@))
                ==> r == Err::<(), BusinessServiceError>(BusinessServiceError::InvalidResponse)
                && *final(self) == *old(self),
            final(self).spec_session() == old(self).spec_session(),
            final(self).spec_initialized() == old(self).spec_initialized(),
            r is Ok ==> old(self).spec_client().spec_secrets().backend().stores(
                SecretKey::AccessToken,
                bearer_token(utf8_bytes(auth_data@)),
                Ok(()),
            ) && old(self).spec_client().spec_secrets().backend().stores(
                SecretKey::RefreshToken,
                utf8_bytes(token@),
                Ok(()),
            ),
    {
        let (bearer, token) = match decode_production_login(auth_data, token) {
            Ok(pair) => pair,
            Err(error) => return Err(error),
        };
        let access_bytes = bearer.as_str().as_bytes_vec();
        let refresh_bytes = token.as_str().as_bytes_vec();
        let mut bearer = bearer;
        let mut token = token;
        zeroize_string(&mut bearer);
        zeroize_string(&mut token);
        let mut access = match SecretValue::new(access_bytes) {
            Ok(value) => value,
            Err(error) => return Err(
                BusinessServiceError::Client(BusinessClientError::SecretStore(error)),
            ),
        };
        let mut refresh = match SecretValue::new(refresh_bytes) {
            Ok(value) => value,
            Err(error) => return Err(
                BusinessServiceError::Client(BusinessClientError::SecretStore(error)),
            ),
        };
        match self.client.replace_authentication(&mut access, &mut refresh) {
            Ok(()) => Ok(()),
            Err(error) => Err(BusinessServiceError::Client(error)),
        }
    }

    /// Ends an authentication once the account was fetched: the account
    /// becomes the signed-in user; a failure deletes the stored session again
    /// and is reported, the session shown staying as it was.
    pub fn finish_authentication(
        &mut self,
        account: Result<UserProfile, BusinessServiceError>,
    ) -> (r: Result<AuthSession, BusinessServiceError>)
        ensures
            final(self).spec_initialized() == old(self).spec_initialized(),
            BusinessCommandClient::same_parts(old(self).spec_client(), final(self).spec_client()),
            match account {
                Ok(profile) => r matches Ok(session) && session_view(session) == (
                    AuthSessionStatus::Authenticated,
                    Some(profile_view(profile)),
                ) && final(self).spec_session() == session_view(session)
                    && final(self).spec_client() == old(self).spec_client(),
                Err(e) => r == Err::<AuthSession, BusinessServiceError>(e) && final(self).spec_session() == old(self).spec_session() && final(self).spec_client().spec_secrets().calls()
                    == old(self).spec_client().spec_secrets().calls() + logout_calls(),
            },
    {
        match account {
            Ok(profile) => {
                self.session = AuthSession::authenticated(profile);
                Ok(copy_session(&self.session))
            },
            Err(error) => {
                let _cleared = self.client.clear_authentication();
                Err(error)
            },
        }
    }

    /// Waits for the transport; its failure is reported as a client error.
    pub fn wait_until_ready(&self) -> (r: Result<(), BusinessServiceError>)
        ensures
            r matches Err(e) ==> e matches BusinessServiceError::Client(BusinessClientError::Transport(_)),
    {
        match self.client.wait_until_ready() {
            Ok(()) => Ok(()),
            Err(error) => Err(BusinessServiceError::Client(error)),
        }
    }

    /// Checks that the production service's own address is one the transport
    /// allows for the control API.
    pub fn check_production_app_url(&self, value: &str) -> (r: Result<(), BusinessServiceError>)
        ensures
            !(url_parse(value@) matches Some(url) && acceptable_config_url(url, false)) ==> r
                == Err::<(), BusinessServiceError>(BusinessServiceError::RejectedConfigUrl),
            r matches Err(e) ==> e == BusinessServiceError::RejectedConfigUrl || e is Client,
    {
        validate_production_app_url(&self.client, value)
    }

    /// The first step of checking the stored session while initializing:
    /// none stored is signed out, a partial one is deleted and signed out,
    /// and a complete one must be checked against the service (`None`).
    pub fn stored_session_step(&mut self) -> (r: Result<Option<AuthSession>, BusinessServiceError>)
        ensures
            final(self).spec_session() == old(self).spec_session(),
            final(self).spec_initialized() == old(self).spec_initialized(),
            BusinessCommandClient::same_parts(old(self).spec_client(), final(self).spec_client()),
            exists|read: Result<AuthenticationSecretState, SecretStoreError>|
                #[trigger] reads_state(old(self).spec_client().spec_secrets().backend(), read)
                    && match read {
                    Err(e) => r == Err::<Option<AuthSession>, BusinessServiceError>(
                        BusinessServiceError::Client(BusinessClientError::SecretStore(e)),
                    ),
                    Ok(AuthenticationSecretState::Empty) => r matches Ok(Some(session))
                        && session_view(session) == signed_out_view(),
                    Ok(AuthenticationSecretState::Complete) => r matches Ok(None),
                    Ok(AuthenticationSecretState::Partial) => exists|cleared: Result<(), SecretStoreError>|
                        #[trigger] logs_out(old(self).spec_client().spec_secrets().backend(), cleared)
                            && match cleared {
                            Err(e) => r == Err::<Option<AuthSession>, BusinessServiceError>(
                                BusinessServiceError::Client(BusinessClientError::SecretStore(e)),
                            ),
                            Ok(_) => r matches Ok(Some(session)) && session_view(session)
                                == signed_out_view(),
                        },
                },
    {
        let ghost backend = old(self).spec_client().spec_secrets().backend();
        let state = self.client.authentication_state();
        let ghost read = choose|read: Result<AuthenticationSecretState, SecretStoreError>|
            reads_state(backend, read) && state == crate::bootstrap_transport::client_state(read);
        assert(reads_state(backend, read));
        match state {
            Err(error) => Err(BusinessServiceError::Client(error)),
            Ok(AuthenticationSecretState::Empty) => Ok(Some(AuthSession::signed_out())),
            Ok(AuthenticationSecretState::Complete) => Ok(None),
            Ok(AuthenticationSecretState::Partial) => {
                let cleared = self.client.clear_authentication();
                let ghost c = choose|c: Result<(), SecretStoreError>|
                    logs_out(backend, c) && cleared == store_outcome(c);
                assert(logs_out(backend, c));
                match cleared {
                    Ok(()) => Ok(Some(AuthSession::signed_out())),
                    Err(error) => {
                        assert(c is Err);
                        Err(BusinessServiceError::Client(error))
                    },
                }
            },
        }
    }

    /// The session that checking a complete stored session against the
    /// service gives: the account it returned; signed out when the service
    /// refused the session; unverified, for the user shown before, when the
    /// service could not be reached; any other failure is reported.
    pub fn session_after_account_check(
        &self,
        answer: Result<Result<UserProfile, BusinessServiceError>, BusinessClientError>,
    ) -> (r: Result<AuthSession, BusinessServiceError>)
        ensures
            match answer {
                Ok(Ok(profile)) => r matches Ok(session) && session_view(session) == (
                    AuthSessionStatus::Authenticated,
                    Some(profile_view(profile)),
                ),
                Ok(Err(e)) => r == Err::<AuthSession, BusinessServiceError>(e),
                Err(e) => if e == BusinessClientError::Unauthorized {
                    r matches Ok(session) && session_view(session) == signed_out_view()
                } else if spec_offline_client_error(e) {
                    r matches Ok(session) && session_view(session) == (
                        AuthSessionStatus::Unverified,
                        self.spec_session().1,
                    )
                } else {
                    r == Err::<AuthSession, BusinessServiceError>(BusinessServiceError::Client(e))
                },
            },
    {
        match answer {
            Ok(Ok(profile)) => Ok(AuthSession::authenticated(profile)),
            Ok(Err(error)) => Err(error),
            Err(BusinessClientError::Unauthorized) => Ok(AuthSession::signed_out()),
            Err(error) => if is_offline_client_error(error) {
                let previous = match &self.session.user {
                    Some(user) => Some(copy_profile(user)),
                    None => None,
                };
                Ok(AuthSession::unverified(previous))
            } else {
                Err(BusinessServiceError::Client(error))
            },
        }
    }

    /// Shows the session that the stored secrets allow without asking the
    /// service: none stored is signed out; a complete session is unverified,
    /// for the user shown before; a partial one is deleted and signed out.
    pub fn reconcile_unverified_session(&mut self) -> (r: Result<(), BusinessServiceError>)
        ensures
            final(self).spec_initialized() == old(self).spec_initialized(),
            BusinessCommandClient::same_parts(old(self).spec_client(), final(self).spec_client()),
            exists|read: Result<AuthenticationSecretState, SecretStoreError>|
                #[trigger] reads_state(old(self).spec_client().spec_secrets().backend(), read)
                    && match read {
                    Err(e) => r == Err::<(), BusinessServiceError>(
                        BusinessServiceError::Client(BusinessClientError::SecretStore(e)),
                    ) && final(self).spec_session() == old(self).spec_session(),
                    Ok(AuthenticationSecretState::Empty) => r == Ok::<(), BusinessServiceError>(())
                        && final(self).spec_session() == signed_out_view(),
                    Ok(AuthenticationSecretState::Complete) => r == Ok::<(), BusinessServiceError>(())
                        && final(self).spec_session() == (
                        AuthSessionStatus::Unverified,
                        old(self).spec_session().1,
                    ),
                    Ok(AuthenticationSecretState::Partial) => exists|cleared: Result<(), SecretStoreError>|
                        #[trigger] logs_out(old(self).spec_client().spec_secrets().backend(), cleared)
                            && match cleared {
                            Err(e) => r == Err::<(), BusinessServiceError>(
                                BusinessServiceError::Client(BusinessClientError::SecretStore(e)),
                            ) && final(self).spec_session() == old(self).spec_session(),
                            Ok(_) => r == Ok::<(), BusinessServiceError>(()) && final(self).spec_session() == signed_out_view(),
                        },
                },
    {
        let ghost backend = old(self).spec_client().spec_secrets().backend();
        let state = self.client.authentication_state();
        let ghost read = choose|read: Result<AuthenticationSecretState, SecretStoreError>|
            reads_state(backend, read) && state == crate::bootstrap_transport::client_state(read);
        assert(reads_state(backend, read));
        let session = match state {
            Err(error) => return Err(BusinessServiceError::Client(error)),
            Ok(AuthenticationSecretState::Empty) => AuthSession::signed_out(),
            Ok(AuthenticationSecretState::Complete) => {
                let previous = match &self.session.user {
                    Some(user) => Some(copy_profile(user)),
                    None => None,
                };
                AuthSession::unverified(previous)
            },
            Ok(AuthenticationSecretState::Partial) => {
                let cleared = self.client.clear_authentication();
                let ghost c = choose|c: Result<(), SecretStoreError>|
                    logs_out(backend, c) && cleared == store_outcome(c);
                assert(logs_out(backend, c));
                match cleared {
                    Ok(()) => {},
                    Err(error) => {
                        assert(c is Err);
                        return Err(BusinessServiceError::Client(error));
                    },
                }
                AuthSession::signed_out()
            },
        };
        self.session = session;
        Ok(())
    }
}

} // verus!
