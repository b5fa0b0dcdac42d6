//! The sanitizer of subscription configurations: a subscription as delivered is
//! checked field by field, normalized, and rendered into the configuration the
//! data plane runs, with every node of it offered in a selector catalog.
use vstd::prelude::*;

use crate::bootstrap_transport::{
    UrlPartsView, parse_url, str_from_utf8, str_to_ascii_lowercase, url_parse,
};
use crate::data_plane_nodes::{
    MAX_NODE_NAME_BYTES, SelectableNode, SelectableNodeProtocol, SelectorCatalog, SelectorGroup,
};
use crate::plane_state::RoutingMode;
use crate::text::{
    all_ascii, ascii_lower, bytes_equal, bytes_have_control_char, bytes_have_suffix,
    bytes_to_lower, has_control_char, has_suffix, is_digit, is_lower, lower_all,
    is_valid_public_identifier, string_from_ascii, utf8_bytes, valid_public_identifier,
};

use crate::text::text_is;

verus! {

pub const DATA_PLANE_CONFIG_SCHEMA_VERSION: u16 = 1;

pub const MAX_SUBSCRIPTION_CONFIG_BYTES: usize = 1048576;

pub const MAX_OUTBOUNDS: usize = 72;

pub const MAX_NODES: usize = 64;

pub const MAX_SELECTORS: usize = 8;

pub const MAX_ROUTE_RULES: usize = 256;

pub const MAX_MATCH_VALUES: usize = 64;

pub const MAX_CREDENTIAL_BYTES: usize = 512;

pub const SYSTEM_PROXY_LISTEN_PORT: u16 = 24836;

#[derive(Debug, Clone, Copy, PartialEq, Eq, Structural)]
pub enum ClientInboundTemplate {
    Mixed,
    Tun,
}

#[derive(Debug, Clone, Copy, PartialEq, Eq, Structural)]
pub enum DataPlaneConfigErrorCode {
    EmptyInput,
    InputTooLarge,
    InvalidStructure,
    InvalidTag,
    DuplicateTag,
    InvalidServer,
    InvalidCredential,
    InvalidTls,
    InvalidMethod,
    InvalidSelector,
    InvalidRoute,
    ResourceLimit,
    Serialization,
}

impl DataPlaneConfigErrorCode {
    pub open spec fn spec_name(self) -> &'static str {
        match self {
            DataPlaneConfigErrorCode::EmptyInput => "data-plane-empty-input",
            DataPlaneConfigErrorCode::InputTooLarge => "data-plane-input-too-large",
            DataPlaneConfigErrorCode::InvalidStructure => "data-plane-invalid-structure",
            DataPlaneConfigErrorCode::InvalidTag => "data-plane-invalid-tag",
            DataPlaneConfigErrorCode::DuplicateTag => "data-plane-duplicate-tag",
            DataPlaneConfigErrorCode::InvalidServer => "data-plane-invalid-server",
            DataPlaneConfigErrorCode::InvalidCredential => "data-plane-invalid-credential",
            DataPlaneConfigErrorCode::InvalidTls => "data-plane-invalid-tls",
            DataPlaneConfigErrorCode::InvalidMethod => "data-plane-invalid-method",
            DataPlaneConfigErrorCode::InvalidSelector => "data-plane-invalid-selector",
            DataPlaneConfigErrorCode::InvalidRoute => "data-plane-invalid-route",
            DataPlaneConfigErrorCode::ResourceLimit => "data-plane-resource-limit",
            DataPlaneConfigErrorCode::Serialization => "data-plane-serialization-failed",
        }
    }

    pub fn as_str(self) -> (name: &'static str)
        ensures
            name@ == self.spec_name()@,
    {
        match self {
            DataPlaneConfigErrorCode::EmptyInput => "data-plane-empty-input",
            DataPlaneConfigErrorCode::InputTooLarge => "data-plane-input-too-large",
            DataPlaneConfigErrorCode::InvalidStructure => "data-plane-invalid-structure",
            DataPlaneConfigErrorCode::InvalidTag => "data-plane-invalid-tag",
            DataPlaneConfigErrorCode::DuplicateTag => "data-plane-duplicate-tag",
            DataPlaneConfigErrorCode::InvalidServer => "data-plane-invalid-server",
            DataPlaneConfigErrorCode::InvalidCredential => "data-plane-invalid-credential",
            DataPlaneConfigErrorCode::InvalidTls => "data-plane-invalid-tls",
            DataPlaneConfigErrorCode::InvalidMethod => "data-plane-invalid-method",
            DataPlaneConfigErrorCode::InvalidSelector => "data-plane-invalid-selector",
            DataPlaneConfigErrorCode::InvalidRoute => "data-plane-invalid-route",
            DataPlaneConfigErrorCode::ResourceLimit => "data-plane-resource-limit",
            DataPlaneConfigErrorCode::Serialization => "data-plane-serialization-failed",
        }
    }
}

/// What went wrong, and where in the input: a path such as `$.outbounds[2].tls`.
#[derive(Debug, Clone)]
pub struct DataPlaneConfigError {
    code: DataPlaneConfigErrorCode,
    path: String,
}

impl DataPlaneConfigError {
    pub closed spec fn spec_code(&self) -> DataPlaneConfigErrorCode {
        self.code
    }

    pub closed spec fn spec_path(&self) -> Seq<u8> {
        utf8_bytes(self.path@)
    }

    pub(crate) fn at(code: DataPlaneConfigErrorCode, path: &Vec<u8>) -> (e: Self)
        requires
            all_ascii(path@),
        ensures
            e.spec_code() == code,
            e.spec_path() == path@,
    {
        let mut bytes: Vec<u8> = Vec::new();
        let mut i: usize = 0;
        while i < path.len()
            invariant
                i <= path@.len(),
                bytes@ == path@.subrange(0, i as int),
            decreases path@.len() - i,
        {
            bytes.push(path[i]);
            proof {
                assert(path@.subrange(0, i as int + 1) =~= path@.subrange(0, i as int).push(
                    path@[i as int],
                ));
            }
            i += 1;
        }
        proof {
            assert(path@.subrange(0, path@.len() as int) =~= path@);
        }
        DataPlaneConfigError { code, path: string_from_ascii(bytes) }
    }

    pub fn code(&self) -> (v: DataPlaneConfigErrorCode)
        ensures
            v == self.spec_code(),
    {
        self.code
    }

    pub fn path(&self) -> (v: &str)
        ensures
            utf8_bytes(v@) == self.spec_path(),
    {
        self.path.as_str()
    }
}

/// The error `code` at `path`.
pub open spec fn is_error_at(
    r: DataPlaneConfigError,
    code: DataPlaneConfigErrorCode,
    path: Seq<u8>,
) -> bool {
    r.spec_code() == code && r.spec_path() == path
}

/// The decimal digits of `n`.
pub open spec fn decimal_text(n: nat) -> Seq<u8>
    decreases n,
{
    if n < 10 {
        seq![(48 + n) as u8]
    } else {
        decimal_text(n / 10).push((48 + n % 10) as u8)
    }
}

proof fn lemma_decimal_text_ascii(n: nat)
    ensures
        all_ascii(decimal_text(n)),
    decreases n,
{
    if n >= 10 {
        lemma_decimal_text_ascii(n / 10);
    }
}

fn push_decimal(out: &mut Vec<u8>, n: usize)
    ensures
        final(out)@ == old(out)@ + decimal_text(n as nat),
    decreases n,
{
    if n >= 10 {
        push_decimal(out, n / 10);
    }
    out.push((48 + n % 10) as u8);
    proof {
        if n >= 10 {
            assert(final(out)@ =~= old(out)@ + decimal_text(n as nat));
        } else {
            assert(final(out)@ =~= old(out)@ + decimal_text(n as nat));
        }
    }
}

fn push_all(out: &mut Vec<u8>, bytes: &[u8])
    ensures
        final(out)@ == old(out)@ + bytes@,
{
    let mut i: usize = 0;
    while i < bytes.len()
        invariant
            i <= bytes@.len(),
            out@ == old(out)@ + bytes@.subrange(0, i as int),
        decreases bytes@.len() - i,
    {
        out.push(bytes[i]);
        proof {
            assert(bytes@.subrange(0, i as int + 1) =~= bytes@.subrange(0, i as int).push(
                bytes@[i as int],
            ));
        }
        i += 1;
    }
    proof {
        assert(bytes@.subrange(0, bytes@.len() as int) =~= bytes@);
    }
}

/// `base` followed by `field`.
pub(crate) fn join_path(base: &Vec<u8>, field: &[u8]) -> (path: Vec<u8>)
    requires
        all_ascii(base@),
        all_ascii(field@),
    ensures
        path@ == base@ + field@,
        all_ascii(path@),
{
    let mut path: Vec<u8> = Vec::new();
    push_all(&mut path, base.as_slice());
    push_all(&mut path, field);
    proof {
        assert(path@ =~= base@ + field@);
    }
    path
}

/// `base` followed by `field`, `[`, the decimal `index` and `]`.
pub(crate) fn index_path(base: &Vec<u8>, field: &[u8], index: usize) -> (path: Vec<u8>)
    requires
        all_ascii(base@),
        all_ascii(field@),
    ensures
        path@ == base@ + field@ + seq![91u8] + decimal_text(index as nat) + seq![93u8],
        all_ascii(path@),
{
    let mut path: Vec<u8> = Vec::new();
    push_all(&mut path, base.as_slice());
    push_all(&mut path, field);
    path.push(91u8);
    push_decimal(&mut path, index);
    path.push(93u8);
    proof {
        lemma_decimal_text_ascii(index as nat);
        assert(path@ =~= base@ + field@ + seq![91u8] + decimal_text(index as nat) + seq![93u8]);
    }
    path
}

pub open spec fn domain_byte(b: u8) -> bool {
    is_lower(b) || is_digit(b) || b == 45 || b == 46
}

/// The length of the run of non-dot bytes that ends at `i`.
pub open spec fn label_run(v: Seq<u8>, i: int) -> nat
    decreases i + 1,
{
    if i < 0 || i >= v.len() || v[i] == 46 {
        0
    } else {
        label_run(v, i - 1) + 1
    }
}

/// A domain name as the sanitizer accepts it: 1 to 253 bytes of lowercase
/// letters, digits, `-` and `.`, in dot-separated labels of 1 to 63 bytes that
/// neither start nor end with `-`.
pub open spec fn valid_domain(v: Seq<u8>) -> bool {
    &&& 1 <= v.len() <= 253
    &&& forall|i: int| 0 <= i < v.len() ==> domain_byte(#[trigger] v[i])
    &&& v[0] != 46
    &&& v[v.len() - 1] != 46
    &&& forall|i: int| 0 <= i < v.len() - 1 ==> !(#[trigger] v[i] == 46 && v[i + 1] == 46)
    &&& forall|i: int|
        0 <= i < v.len() && #[trigger] v[i] == 45 ==> i > 0 && v[i - 1] != 46 && i < v.len() - 1
            && v[i + 1] != 46
    &&& forall|i: int| 0 <= i < v.len() ==> #[trigger] label_run(v, i) <= 63
}

pub open spec fn has_dot(v: Seq<u8>) -> bool {
    exists|i: int| 0 <= i < v.len() && v[i] == 46
}

/// Whether `v` is a domain name with at least two labels.
pub open spec fn valid_dotted_domain(v: Seq<u8>) -> bool {
    valid_domain(v) && has_dot(v)
}

pub(crate) fn contains_dot(v: &[u8]) -> (r: bool)
    ensures
        r == has_dot(v@),
{
    let mut i: usize = 0;
    while i < v.len()
        invariant
            i <= v@.len(),
            forall|k: int| 0 <= k < i ==> v@[k] != 46,
        decreases v@.len() - i,
    {
        if v[i] == 46 {
            return true;
        }
        i += 1;
    }
    false
}

pub fn is_valid_domain(v: &[u8]) -> (r: bool)
    ensures
        r == valid_domain(v@),
{
    let n = v.len();
    if n == 0 || n > 253 {
        return false;
    }
    if v[0] == 46 || v[n - 1] == 46 {
        return false;
    }
    let mut run: usize = 0;
    let mut i: usize = 0;
    while i < n
        invariant
            n == v@.len(),
            1 <= n <= 253,
            i <= n,
            v@[0] != 46,
            v@[n - 1] != 46,
            run == label_run(v@, i - 1),
            forall|k: int| 0 <= k < i ==> domain_byte(#[trigger] v@[k]),
            forall|k: int| 0 <= k < i && k < n - 1 ==> !(#[trigger] v@[k] == 46 && v@[k + 1] == 46),
            forall|k: int|
                0 <= k < i && #[trigger] v@[k] == 45 ==> k > 0 && v@[k - 1] != 46 && k < n - 1
                    && v@[k + 1] != 46,
            forall|k: int| 0 <= k < i ==> #[trigger] label_run(v@, k) <= 63,
        decreases n - i,
    {
        let b = v[i];
        if !((97 <= b && b <= 122) || (48 <= b && b <= 57) || b == 45 || b == 46) {
            return false;
        }
        if b == 46 && i + 1 < n && v[i + 1] == 46 {
            return false;
        }
        if b == 45 && (i == 0 || v[i - 1] == 46 || i + 1 == n || v[i + 1] == 46) {
            return false;
        }
        if b == 46 {
            run = 0;
        } else {
            run = run + 1;
        }
        assert(run == label_run(v@, i as int));
        if run > 63 {
            return false;
        }
        i += 1;
    }
    true
}

/// `localhost`
pub open spec fn localhost_name() -> Seq<u8> {
    seq![108u8, 111u8, 99u8, 97u8, 108u8, 104u8, 111u8, 115u8, 116u8]
}

/// Whether an IPv4 address, as four octets, is publicly routable: none of the
/// unspecified, loopback, private, link-local, multicast, broadcast, shared,
/// benchmarking, documentation or reserved ranges.
pub open spec fn public_ipv4(o: Seq<u8>) -> bool {
    !(o[0] == 0 || o[0] == 127 || o[0] == 10 || (o[0] == 172 && 16 <= o[1] <= 31) || (o[0] == 192
        && o[1] == 168) || (o[0] == 169 && o[1] == 254) || (224 <= o[0] <= 239) || o[0] >= 240 || (
    o[0] == 100 && 64 <= o[1] <= 127) || (o[0] == 192 && o[1] == 0 && o[2] == 0) || (o[0] == 192
        && o[1] == 0 && o[2] == 2) || (o[0] == 198 && (o[1] == 18 || o[1] == 19)) || (o[0] == 198
        && o[1] == 51 && o[2] == 100) || (o[0] == 203 && o[1] == 0 && o[2] == 113))
}

/// Whether an IPv6 address, as sixteen bytes, is publicly routable; an
/// IPv4-mapped address is judged as the IPv4 address it maps.
pub open spec fn public_ipv6(b: Seq<u8>) -> bool {
    if (forall|i: int| 0 <= i < 10 ==> b[i] == 0) && b[10] == 255 && b[11] == 255 {
        public_ipv4(b.subrange(12, 16))
    } else {
        !((forall|i: int| 0 <= i < 16 ==> b[i] == 0) || ((forall|i: int| 0 <= i < 15 ==> b[i] == 0)
            && b[15] == 1) || b[0] == 255 || b[0] == 252 || b[0] == 253 || (b[0] == 254 && 128
            <= b[1] <= 191) || (b[0] == 32 && b[1] == 1 && b[2] == 13 && b[3] == 184))
    }
}

pub open spec fn public_address(address: Seq<u8>) -> bool {
    (address.len() == 4 && public_ipv4(address)) || (address.len() == 16 && public_ipv6(address))
}

fn is_public_ipv4(o: &[u8]) -> (r: bool)
    requires
        o@.len() == 4,
    ensures
        r == public_ipv4(o@),
{
    !(o[0] == 0 || o[0] == 127 || o[0] == 10 || (o[0] == 172 && 16 <= o[1] && o[1] <= 31) || (o[0]
        == 192 && o[1] == 168) || (o[0] == 169 && o[1] == 254) || (224 <= o[0] && o[0] <= 239)
        || o[0] >= 240 || (o[0] == 100 && 64 <= o[1] && o[1] <= 127) || (o[0] == 192 && o[1] == 0
        && o[2] == 0) || (o[0] == 192 && o[1] == 0 && o[2] == 2) || (o[0] == 198 && (o[1] == 18
        || o[1] == 19)) || (o[0] == 198 && o[1] == 51 && o[2] == 100) || (o[0] == 203 && o[1]
        == 0 && o[2] == 113))
}

fn zero_until(b: &[u8], n: usize) -> (r: bool)
    requires
        n <= b@.len(),
    ensures
        r == forall|i: int| 0 <= i < n ==> b@[i] == 0,
{
    let mut i: usize = 0;
    while i < n
        invariant
            i <= n <= b@.len(),
            forall|k: int| 0 <= k < i ==> b@[k] == 0,
        decreases n - i,
    {
        if b[i] != 0 {
            return false;
        }
        i += 1;
    }
    true
}

fn is_public_ipv6(b: &[u8]) -> (r: bool)
    requires
        b@.len() == 16,
    ensures
        r == public_ipv6(b@),
{
    if zero_until(b, 10) && b[10] == 255 && b[11] == 255 {
        let mapped = [b[12], b[13], b[14], b[15]];
        proof {
            assert(mapped@ =~= b@.subrange(12, 16));
        }
        return is_public_ipv4(&mapped);
    }
    let unspecified = zero_until(b, 16);
    let loopback = zero_until(b, 15) && b[15] == 1;
    !(unspecified || loopback || b[0] == 255 || b[0] == 252 || b[0] == 253 || (b[0] == 254 && 128
        <= b[1] && b[1] <= 191) || (b[0] == 32 && b[1] == 1 && b[2] == 13 && b[3] == 184))
}

pub fn is_public_address(address: &[u8]) -> (r: bool)
    ensures
        r == public_address(address@),
{
    if address.len() == 4 {
        is_public_ipv4(address)
    } else if address.len() == 16 {
        is_public_ipv6(address)
    } else {
        false
    }
}

/// Whether a lowercase server name is accepted, given what it parses to as an
/// IP address: a public address, or a dotted domain outside the local,
/// `localhost` and `internal` names.
pub open spec fn server_accepted(v: Seq<u8>, address: Option<Seq<u8>>) -> bool {
    match address {
        Some(a) => public_address(a),
        None => {
            &&& valid_dotted_domain(v)
            &&& v != localhost_name()
            &&& !has_suffix(v, seq![46u8] + localhost_name())
            &&& !has_suffix(v, seq![46u8, 108u8, 111u8, 99u8, 97u8, 108u8])
            &&& !has_suffix(v, seq![46u8, 105u8, 110u8, 116u8, 101u8, 114u8, 110u8, 97u8, 108u8])
        },
    }
}

fn is_server_accepted(v: &[u8], address: &Option<Vec<u8>>) -> (r: bool)
    ensures
        r == server_accepted(
            v@,
            match address {
                Some(a) => Some(a@),
                None => None,
            },
        ),
{
    match address {
        Some(a) => is_public_address(a.as_slice()),
        None => {
            let localhost: [u8; 9] = [108u8, 111u8, 99u8, 97u8, 108u8, 104u8, 111u8, 115u8, 116u8];
            let dot_localhost: [u8; 10] = [
                46u8,
                108u8,
                111u8,
                99u8,
                97u8,
                108u8,
                104u8,
                111u8,
                115u8,
                116u8,
            ];
            let dot_local: [u8; 6] = [46u8, 108u8, 111u8, 99u8, 97u8, 108u8];
            let dot_internal: [u8; 9] = [46u8, 105u8, 110u8, 116u8, 101u8, 114u8, 110u8, 97u8, 108u8];
            proof {
                assert(localhost@ =~= localhost_name());
                assert(dot_localhost@ =~= seq![46u8] + localhost_name());
                assert(dot_local@ =~= seq![46u8, 108u8, 111u8, 99u8, 97u8, 108u8]);
                assert(dot_internal@ =~= seq![
                    46u8,
                    105u8,
                    110u8,
                    116u8,
                    101u8,
                    114u8,
                    110u8,
                    97u8,
                    108u8,
                ]);
            }
            is_valid_domain(v) && contains_dot(v) && !bytes_equal(v, &localhost)
                && !bytes_have_suffix(v, &dot_localhost) && !bytes_have_suffix(v, &dot_local)
                && !bytes_have_suffix(v, &dot_internal)
        },
    }
}

pub open spec fn option_bytes(v: Option<Vec<u8>>) -> Option<Seq<u8>> {
    match v {
        Some(a) => Some(a@),
        None => None,
    }
}

/// Lower-cases `text` and keeps it if [`server_accepted`].
fn take_server(text: &str, address: &Option<Vec<u8>>, path: &Vec<u8>) -> (r: Result<
    String,
    DataPlaneConfigError,
>)
    requires
        all_ascii(path@),
    ensures
        r is Ok <==> server_accepted(lower_all(utf8_bytes(text@)), option_bytes(*address)),
        r matches Ok(server) ==> utf8_bytes(server@) == lower_all(utf8_bytes(text@)),
        r matches Err(e) ==> is_error_at(e, DataPlaneConfigErrorCode::InvalidServer, path@),
{
    let lowered = str_to_ascii_lowercase(text);
    if !is_server_accepted(lowered.as_str().as_bytes(), address) {
        return Err(DataPlaneConfigError::at(DataPlaneConfigErrorCode::InvalidServer, path));
    }
    Ok(lowered)
}

/// A tag names an outbound: a valid public identifier.
pub open spec fn valid_tag(tag: Seq<u8>) -> bool {
    valid_public_identifier(tag)
}

fn take_tag(value: &String, path: &Vec<u8>) -> (r: Result<String, DataPlaneConfigError>)
    requires
        all_ascii(path@),
    ensures
        r is Ok <==> valid_tag(utf8_bytes(value@)),
        r matches Ok(tag) ==> tag@ == value@,
        r matches Err(e) ==> is_error_at(e, DataPlaneConfigErrorCode::InvalidTag, path@),
{
    if !is_valid_public_identifier(value.as_str().as_bytes()) {
        return Err(DataPlaneConfigError::at(DataPlaneConfigErrorCode::InvalidTag, path));
    }
    Ok(value.clone())
}

fn validate_port(port: u16, path: &Vec<u8>) -> (r: Result<(), DataPlaneConfigError>)
    requires
        all_ascii(path@),
    ensures
        r is Ok <==> port != 0,
        r matches Err(e) ==> is_error_at(e, DataPlaneConfigErrorCode::InvalidServer, path@),
{
    if port == 0 {
        return Err(DataPlaneConfigError::at(DataPlaneConfigErrorCode::InvalidServer, path));
    }
    Ok(())
}

/// A credential: 1 to 512 bytes without a control character.
pub open spec fn valid_credential(value: Seq<u8>) -> bool {
    1 <= value.len() <= MAX_CREDENTIAL_BYTES && !has_control_char(value)
}

fn take_credential(value: &String, path: &Vec<u8>) -> (r: Result<String, DataPlaneConfigError>)
    requires
        all_ascii(path@),
    ensures
        r is Ok <==> valid_credential(utf8_bytes(value@)),
        r matches Ok(credential) ==> credential@ == value@,
        r matches Err(e) ==> is_error_at(e, DataPlaneConfigErrorCode::InvalidCredential, path@),
{
    let bytes = value.as_str().as_bytes();
    if bytes.len() == 0 || bytes.len() > MAX_CREDENTIAL_BYTES || bytes_have_control_char(bytes) {
        return Err(DataPlaneConfigError::at(DataPlaneConfigErrorCode::InvalidCredential, path));
    }
    Ok(value.clone())
}

#[derive(Debug, Clone, Copy, PartialEq, Eq, Structural)]
pub enum ShadowsocksMethod {
    Blake3Aes128Gcm2022,
    Blake3Aes256Gcm2022,
    Aes128Gcm,
    Aes256Gcm,
    Chacha20IetfPoly1305,
}

/// The Shadowsocks method a name stands for.
pub open spec fn method_named(name: Seq<char>) -> Option<ShadowsocksMethod> {
    if name == "2022-blake3-aes-128-gcm"@ {
        Some(ShadowsocksMethod::Blake3Aes128Gcm2022)
    } else if name == "2022-blake3-aes-256-gcm"@ {
        Some(ShadowsocksMethod::Blake3Aes256Gcm2022)
    } else if name == "aes-128-gcm"@ {
        Some(ShadowsocksMethod::Aes128Gcm)
    } else if name == "aes-256-gcm"@ {
        Some(ShadowsocksMethod::Aes256Gcm)
    } else if name == "chacha20-ietf-poly1305"@ {
        Some(ShadowsocksMethod::Chacha20IetfPoly1305)
    } else {
        None
    }
}


fn take_method(value: &String, path: &Vec<u8>) -> (r: Result<
    ShadowsocksMethod,
    DataPlaneConfigError,
>)
    requires
        all_ascii(path@),
    ensures
        match method_named(value@) {
            Some(method) => r == Ok::<ShadowsocksMethod, DataPlaneConfigError>(method),
            None => r matches Err(e) && is_error_at(
                e,
                DataPlaneConfigErrorCode::InvalidMethod,
                path@,
            ),
        },
{
    let name = value.as_str();
    if text_is(name, "2022-blake3-aes-128-gcm") {
        Ok(ShadowsocksMethod::Blake3Aes128Gcm2022)
    } else if text_is(name, "2022-blake3-aes-256-gcm") {
        Ok(ShadowsocksMethod::Blake3Aes256Gcm2022)
    } else if text_is(name, "aes-128-gcm") {
        Ok(ShadowsocksMethod::Aes128Gcm)
    } else if text_is(name, "aes-256-gcm") {
        Ok(ShadowsocksMethod::Aes256Gcm)
    } else if text_is(name, "chacha20-ietf-poly1305") {
        Ok(ShadowsocksMethod::Chacha20IetfPoly1305)
    } else {
        Err(DataPlaneConfigError::at(DataPlaneConfigErrorCode::InvalidMethod, path))
    }
}

/// The TLS settings of an outbound as delivered.
pub struct WireTls {
    pub enabled: bool,
    pub server_name: String,
    pub insecure: bool,
}

/// Whether TLS settings are accepted: enabled, verifying, and naming a dotted
/// domain (after lower-casing).
pub open spec fn tls_accepted(tls: WireTls) -> bool {
    tls.enabled && !tls.insecure && valid_dotted_domain(lower_all(utf8_bytes(tls.server_name@)))
}

/// `.server_name`
pub open spec fn server_name_field() -> Seq<u8> {
    seq![46u8, 115u8, 101u8, 114u8, 118u8, 101u8, 114u8, 95u8, 110u8, 97u8, 109u8, 101u8]
}

fn take_tls(tls: &WireTls, path: &Vec<u8>) -> (r: Result<String, DataPlaneConfigError>)
    requires
        all_ascii(path@),
    ensures
        r is Ok <==> tls_accepted(*tls),
        r matches Ok(name) ==> utf8_bytes(name@) == lower_all(utf8_bytes(tls.server_name@)),
        r matches Err(e) ==> if tls.enabled && !tls.insecure {
            is_error_at(e, DataPlaneConfigErrorCode::InvalidTls, path@ + server_name_field())
        } else {
            is_error_at(e, DataPlaneConfigErrorCode::InvalidTls, path@)
        },
{
    if !tls.enabled || tls.insecure {
        return Err(DataPlaneConfigError::at(DataPlaneConfigErrorCode::InvalidTls, path));
    }
    let name = str_to_ascii_lowercase(tls.server_name.as_str());
    let bytes = name.as_str().as_bytes();
    if !is_valid_domain(bytes) || !contains_dot(bytes) {
        let field: [u8; 12] = [
            46u8,
            115u8,
            101u8,
            114u8,
            118u8,
            101u8,
            114u8,
            95u8,
            110u8,
            97u8,
            109u8,
            101u8,
        ];
        proof {
            assert(field@ =~= server_name_field());
        }
        let full = join_path(path, &field);
        return Err(DataPlaneConfigError::at(DataPlaneConfigErrorCode::InvalidTls, &full));
    }
    Ok(name)
}

pub open spec fn texts_bytes(values: Seq<String>) -> Seq<Seq<u8>> {
    values.map_values(|v: String| utf8_bytes(v@))
}

pub open spec fn lowered_all(values: Seq<String>) -> Seq<Seq<u8>> {
    values.map_values(|v: String| lower_all(utf8_bytes(v@)))
}

pub open spec fn distinct_bytes(values: Seq<Seq<u8>>) -> bool {
    forall|i: int, j: int| 0 <= i < j < values.len() ==> #[trigger] values[i] != #[trigger] values[j]
}

/// Domain suffixes are accepted when there are at most 64 and each, lower-cased,
/// is a distinct dotted domain.
pub open spec fn domains_accepted(values: Seq<String>) -> bool {
    &&& values.len() <= MAX_MATCH_VALUES
    &&& forall|i: int| 0 <= i < values.len() ==> valid_dotted_domain(#[trigger] lowered_all(values)[i])
    &&& distinct_bytes(lowered_all(values))
}

fn index_of_bytes(seen: &Vec<String>, value: &[u8]) -> (r: bool)
    ensures
        r == texts_bytes(seen@).contains(value@),
{
    let ghost view = texts_bytes(seen@);
    let mut i: usize = 0;
    while i < seen.len()
        invariant
            i <= seen@.len(),
            view == texts_bytes(seen@),
            view.len() == seen@.len(),
            forall|k: int| 0 <= k < i ==> view[k] != value@,
        decreases seen@.len() - i,
    {
        proof {
            assert(view[i as int] == utf8_bytes(seen@[i as int]@));
        }
        if bytes_equal(seen[i].as_str().as_bytes(), value) {
            proof {
                assert(view.contains(view[i as int]));
            }
            return true;
        }
        i += 1;
    }
    false
}

proof fn lemma_distinct_push(prefix: Seq<Seq<u8>>, item: Seq<u8>)
    requires
        distinct_bytes(prefix),
        !prefix.contains(item),
    ensures
        distinct_bytes(prefix.push(item)),
{
    let next = prefix.push(item);
    assert forall|i: int, j: int| 0 <= i < j < next.len() implies #[trigger] next[i]
        != #[trigger] next[j] by {
        if j == prefix.len() {
            assert(next[i] == prefix[i]);
            assert(prefix.contains(prefix[i]));
        } else {
            assert(next[i] == prefix[i] && next[j] == prefix[j]);
        }
    }
}

/// Lower-cases the domain suffixes of a rule and keeps them if
/// [`domains_accepted`].
fn take_domains(values: &Vec<String>, path: &Vec<u8>) -> (r: Result<
    Vec<String>,
    DataPlaneConfigError,
>)
    requires
        all_ascii(path@),
    ensures
        r is Ok <==> domains_accepted(values@),
        r matches Ok(domains) ==> texts_bytes(domains@) == lowered_all(values@),
        values@.len() > MAX_MATCH_VALUES ==> (r matches Err(e) && is_error_at(
            e,
            DataPlaneConfigErrorCode::ResourceLimit,
            path@,
        )),
        r matches Err(e) ==> e.spec_code() == DataPlaneConfigErrorCode::ResourceLimit || e.spec_code()
            == DataPlaneConfigErrorCode::InvalidRoute,
{
    if values.len() > MAX_MATCH_VALUES {
        return Err(DataPlaneConfigError::at(DataPlaneConfigErrorCode::ResourceLimit, path));
    }
    let ghost lowered = lowered_all(values@);
    let mut normalized: Vec<String> = Vec::new();
    let mut i: usize = 0;
    while i < values.len()
        invariant
            i <= values@.len() <= MAX_MATCH_VALUES,
            all_ascii(path@),
            lowered == lowered_all(values@),
            lowered.len() == values@.len(),
            texts_bytes(normalized@) == lowered.subrange(0, i as int),
            forall|k: int| 0 <= k < i ==> valid_dotted_domain(#[trigger] lowered[k]),
            distinct_bytes(lowered.subrange(0, i as int)),
        decreases values@.len() - i,
    {
        let value = str_to_ascii_lowercase(values[i].as_str());
        let bytes = value.as_str().as_bytes();
        proof {
            assert(lowered[i as int] == bytes@);
        }
        if !is_valid_domain(bytes) || !contains_dot(bytes) || index_of_bytes(&normalized, bytes) {
            proof {
                if texts_bytes(normalized@).contains(bytes@) {
                    let k = choose|k: int|
                        0 <= k < texts_bytes(normalized@).len() && texts_bytes(normalized@)[k]
                            == bytes@;
                    assert(lowered.subrange(0, i as int)[k] == lowered[k]);
                    assert(lowered[k] == lowered[i as int]);
                }
            }
            let at = index_path(path, &[], i);
            return Err(DataPlaneConfigError::at(DataPlaneConfigErrorCode::InvalidRoute, &at));
        }
        proof {
            lemma_distinct_push(lowered.subrange(0, i as int), bytes@);
            assert(lowered.subrange(0, i as int + 1) =~= lowered.subrange(0, i as int).push(
                bytes@,
            ));
        }
        normalized.push(value);
        proof {
            assert(texts_bytes(normalized@) =~= lowered.subrange(0, i as int + 1));
        }
        i += 1;
    }
    proof {
        assert(lowered.subrange(0, values@.len() as int) =~= lowered);
    }
    Ok(normalized)
}

/// `dns`, `http`, `tls` and `quic`.
pub open spec fn known_protocol(value: Seq<u8>) -> bool {
    value == seq![100u8, 110u8, 115u8] || value == seq![104u8, 116u8, 116u8, 112u8] || value
        == seq![116u8, 108u8, 115u8] || value == seq![113u8, 117u8, 105u8, 99u8]
}

pub open spec fn protocols_accepted(values: Seq<String>) -> bool {
    &&& values.len() <= MAX_MATCH_VALUES
    &&& forall|i: int| 0 <= i < values.len() ==> known_protocol(#[trigger] lowered_all(values)[i])
    &&& distinct_bytes(lowered_all(values))
}

fn is_known_protocol(value: &[u8]) -> (r: bool)
    ensures
        r == known_protocol(value@),
{
    let dns: [u8; 3] = [100u8, 110u8, 115u8];
    let http: [u8; 4] = [104u8, 116u8, 116u8, 112u8];
    let tls: [u8; 3] = [116u8, 108u8, 115u8];
    let quic: [u8; 4] = [113u8, 117u8, 105u8, 99u8];
    proof {
        assert(dns@ =~= seq![100u8, 110u8, 115u8]);
        assert(http@ =~= seq![104u8, 116u8, 116u8, 112u8]);
        assert(tls@ =~= seq![116u8, 108u8, 115u8]);
        assert(quic@ =~= seq![113u8, 117u8, 105u8, 99u8]);
    }
    bytes_equal(value, &dns) || bytes_equal(value, &http) || bytes_equal(value, &tls)
        || bytes_equal(value, &quic)
}

fn take_protocols(values: &Vec<String>, path: &Vec<u8>) -> (r: Result<
    Vec<String>,
    DataPlaneConfigError,
>)
    requires
        all_ascii(path@),
    ensures
        r is Ok <==> protocols_accepted(values@),
        r matches Ok(protocols) ==> texts_bytes(protocols@) == lowered_all(values@),
        r matches Err(e) ==> e.spec_code() == DataPlaneConfigErrorCode::ResourceLimit || e.spec_code()
            == DataPlaneConfigErrorCode::InvalidRoute,
{
    if values.len() > MAX_MATCH_VALUES {
        return Err(DataPlaneConfigError::at(DataPlaneConfigErrorCode::ResourceLimit, path));
    }
    let ghost lowered = lowered_all(values@);
    let mut normalized: Vec<String> = Vec::new();
    let mut i: usize = 0;
    while i < values.len()
        invariant
            i <= values@.len() <= MAX_MATCH_VALUES,
            all_ascii(path@),
            lowered == lowered_all(values@),
            lowered.len() == values@.len(),
            texts_bytes(normalized@) == lowered.subrange(0, i as int),
            forall|k: int| 0 <= k < i ==> known_protocol(#[trigger] lowered[k]),
            distinct_bytes(lowered.subrange(0, i as int)),
        decreases values@.len() - i,
    {
        let value = str_to_ascii_lowercase(values[i].as_str());
        let bytes = value.as_str().as_bytes();
        proof {
            assert(lowered[i as int] == bytes@);
        }
        if !is_known_protocol(bytes) || index_of_bytes(&normalized, bytes) {
            proof {
                if texts_bytes(normalized@).contains(bytes@) {
                    let k = choose|k: int|
                        0 <= k < texts_bytes(normalized@).len() && texts_bytes(normalized@)[k]
                            == bytes@;
                    assert(lowered.subrange(0, i as int)[k] == lowered[k]);
                }
            }
            let at = index_path(path, &[], i);
            return Err(DataPlaneConfigError::at(DataPlaneConfigErrorCode::InvalidRoute, &at));
        }
        proof {
            lemma_distinct_push(lowered.subrange(0, i as int), bytes@);
            assert(lowered.subrange(0, i as int + 1) =~= lowered.subrange(0, i as int).push(
                bytes@,
            ));
        }
        normalized.push(value);
        proof {
            assert(texts_bytes(normalized@) =~= lowered.subrange(0, i as int + 1));
        }
        i += 1;
    }
    proof {
        assert(lowered.subrange(0, values@.len() as int) =~= lowered);
    }
    Ok(normalized)
}

/// An IP range of a route rule as delivered: its text, and the address that
/// the text before its first `/` parses to, where it parses to one (four bytes
/// for IPv4, sixteen for IPv6).
pub struct WireCidr {
    pub text: String,
    pub address: Option<Vec<u8>>,
}

/// An IP range in normal form: the address with the bits past the prefix
/// cleared, and the prefix length.
#[derive(Debug, Clone)]
pub struct NormalizedCidr {
    pub address: Vec<u8>,
    pub prefix: u8,
}

/// The index of the first `/` at or after `i`.
pub open spec fn first_slash_from(v: Seq<u8>, i: int) -> Option<int>
    decreases v.len() - i,
{
    if i < 0 || i >= v.len() {
        None
    } else if v[i] == 47 {
        Some(i)
    } else {
        first_slash_from(v, i + 1)
    }
}

/// What `u8::from_str` makes of `s`: an optional `+`, then one or more decimal
/// digits whose value is at most 255.
pub open spec fn parsed_u8(s: Seq<u8>) -> Option<u8> {
    parsed_u8_digits(
        if s.len() > 0 && s[0] == 43 {
            s.drop_first()
        } else {
            s
        },
    )
}

/// The value of one or more decimal digits, where it is at most 255.
pub open spec fn parsed_u8_digits(digits: Seq<u8>) -> Option<u8> {
    if digits.len() == 0 || !crate::persistence::all_digits(digits)
        || crate::persistence::decimal_value(digits) > 255 {
        None
    } else {
        Some(crate::persistence::decimal_value(digits) as u8)
    }
}

pub open spec fn pow2_small(n: nat) -> nat
    decreases n,
{
    if n == 0 {
        1
    } else {
        2 * pow2_small((n - 1) as nat)
    }
}

/// A byte with only its first `keep` bits kept.
pub open spec fn masked_byte(b: u8, keep: int) -> u8 {
    if keep >= 8 {
        b
    } else if keep <= 0 {
        0
    } else {
        ((b as nat / pow2_small((8 - keep) as nat)) * pow2_small((8 - keep) as nat)) as u8
    }
}

/// An address with only its first `prefix` bits kept.
pub open spec fn masked_address(address: Seq<u8>, prefix: int) -> Seq<u8> {
    Seq::new(address.len(), |i: int| masked_byte(address[i], prefix - 8 * i))
}

/// The normal form of an IP range, or `None` where it is not one: the text
/// must have a `/`, a prefix that reads as a `u8` after it, an address before
/// it, and a prefix no longer than the address.
pub open spec fn cidr_normalized(c: WireCidr) -> Option<(Seq<u8>, u8)> {
    let text = utf8_bytes(c.text@);
    match first_slash_from(text, 0) {
        None => None,
        Some(k) => match parsed_u8(text.subrange(k + 1, text.len() as int)) {
            None => None,
            Some(prefix) => match option_bytes(c.address) {
                Some(a) => if (a.len() == 4 && prefix <= 32) || (a.len() == 16 && prefix <= 128) {
                    Some((masked_address(a, prefix as int), prefix))
                } else {
                    None
                },
                None => None,
            },
        },
    }
}

proof fn lemma_first_slash_bounds(v: Seq<u8>, i: int)
    ensures
        first_slash_from(v, i) matches Some(k) ==> i <= k < v.len() && v[k] == 47,
    decreases v.len() - i,
{
    if 0 <= i < v.len() && v[i] != 47 {
        lemma_first_slash_bounds(v, i + 1);
    }
}

fn find_slash(v: &[u8]) -> (r: Option<usize>)
    ensures
        match first_slash_from(v@, 0) {
            Some(k) => r == Some(k as usize),
            None => r is None,
        },
        r matches Some(k) ==> k < v@.len(),
{
    proof {
        lemma_first_slash_bounds(v@, 0);
    }
    let mut i: usize = 0;
    while i < v.len()
        invariant
            i <= v@.len(),
            first_slash_from(v@, 0) == first_slash_from(v@, i as int),
        decreases v@.len() - i,
    {
        if v[i] == 47 {
            return Some(i);
        }
        i += 1;
    }
    None
}

/// `u8::from_str` on the bytes from `start`.
fn parse_u8_from(v: &[u8], start: usize) -> (r: Option<u8>)
    requires
        start <= v@.len(),
    ensures
        r == parsed_u8(v@.subrange(start as int, v@.len() as int)),
{
    let ghost s = v@.subrange(start as int, v@.len() as int);
    let mut i = start;
    if i < v.len() && v[i] == 43 {
        i += 1;
    }
    let ghost digits = v@.subrange(i as int, v@.len() as int);
    proof {
        if s.len() > 0 && s[0] == 43 {
            assert(s.drop_first() =~= digits);
        } else {
            assert(s =~= digits);
        }
    }
    if i == v.len() {
        return None;
    }
    let first = i;
    let mut value: u16 = 0;
    proof {
        assert(v@.subrange(first as int, first as int) =~= Seq::<u8>::empty());
    }
    while i < v.len()
        invariant
            first <= i <= v@.len(),
            start <= first,
            s == v@.subrange(start as int, v@.len() as int),
            parsed_u8(s) == parsed_u8_digits(digits),
            digits == v@.subrange(first as int, v@.len() as int),
            crate::persistence::all_digits(v@.subrange(first as int, i as int)),
            value as nat == crate::persistence::decimal_value(v@.subrange(first as int, i as int)),
            value <= 255,
        decreases v@.len() - i,
    {
        let b = v[i];
        if b < 48 || b > 57 {
            proof {
                assert(digits[i - first] == b);
            }
            return None;
        }
        proof {
            assert(v@.subrange(first as int, i as int + 1) =~= v@.subrange(first as int, i as int).push(b));
            assert(v@.subrange(first as int, i as int + 1).drop_last() =~= v@.subrange(
                first as int,
                i as int,
            ));
        }
        let next = value * 10 + (b - 48) as u16;
        if next > 255 {
            proof {
                assert(crate::persistence::decimal_value(v@.subrange(first as int, i as int + 1))
                    == next);
                assert(v@.subrange(first as int, i as int + 1) =~= digits.subrange(0, i - first + 1));
                if crate::persistence::all_digits(digits) {
                    lemma_decimal_prefix_le(digits, i - first + 1);
                }
            }
            return None;
        }
        value = next;
        i += 1;
    }
    proof {
        assert(v@.subrange(first as int, v@.len() as int) =~= digits);
    }
    Some(value as u8)
}

proof fn lemma_decimal_prefix_le(s: Seq<u8>, n: int)
    requires
        0 <= n <= s.len(),
        crate::persistence::all_digits(s),
    ensures
        crate::persistence::decimal_value(s.subrange(0, n)) <= crate::persistence::decimal_value(
            s,
        ),
    decreases s.len() - n,
{
    if n < s.len() {
        lemma_decimal_prefix_le(s, n + 1);
        assert(s.subrange(0, n + 1).drop_last() =~= s.subrange(0, n));
    } else {
        assert(s.subrange(0, n) =~= s);
    }
}

fn mask_byte(b: u8, keep: i32) -> (r: u8)
    ensures
        r == masked_byte(b, keep as int),
{
    if keep >= 8 {
        return b;
    }
    if keep <= 0 {
        return 0;
    }
    let shift = 8 - keep;
    let mut d: u16 = 1;
    let mut j: i32 = 0;
    while j < shift
        invariant
            0 <= j <= shift <= 7,
            d as nat == pow2_small(j as nat),
            1 <= d <= 128,
        decreases shift - j,
    {
        proof {
            assert(pow2_small((j + 1) as nat) == 2 * pow2_small(j as nat));
            lemma_pow2_small_bound(j as nat);
        }
        d = d * 2;
        j += 1;
    }
    proof {
        assert(((b as nat / d as nat) * d as nat) <= b as nat) by (nonlinear_arith)
            requires
                d >= 1,
        ;
    }
    ((b as u16 / d) * d) as u8
}

proof fn lemma_pow2_small_bound(n: nat)
    requires
        n < 7,
    ensures
        1 <= pow2_small(n) <= 64,
{
    reveal_with_fuel(pow2_small, 8);
    if n == 0 {
    } else if n == 1 {
    } else if n == 2 {
    } else if n == 3 {
    } else if n == 4 {
    } else if n == 5 {
    } else {
        assert(n == 6);
    }
}

fn mask_address(address: &Vec<u8>, prefix: u8) -> (r: Vec<u8>)
    requires
        address@.len() <= 16,
    ensures
        r@ == masked_address(address@, prefix as int),
{
    let mut out: Vec<u8> = Vec::new();
    let mut i: usize = 0;
    while i < address.len()
        invariant
            i <= address@.len() <= 16,
            out@.len() == i,
            forall|k: int| 0 <= k < i ==> out@[k] == masked_byte(address@[k], prefix - 8 * k),
        decreases address@.len() - i,
    {
        let keep = prefix as i32 - 8 * (i as i32);
        out.push(mask_byte(address[i], keep));
        i += 1;
    }
    proof {
        assert(out@ =~= masked_address(address@, prefix as int));
    }
    out
}

fn normalize_cidr(c: &WireCidr) -> (r: Option<NormalizedCidr>)
    ensures
        match cidr_normalized(*c) {
            Some((a, p)) => r matches Some(n) && n.address@ == a && n.prefix == p,
            None => r is None,
        },
{
    let text = c.text.as_str().as_bytes();
    let n = text.len();
    proof {
        assert(text@ == utf8_bytes(c.text@));
    }
    let slash = match find_slash(text) {
        Some(k) => k,
        None => {
            assert(first_slash_from(utf8_bytes(c.text@), 0) is None);
            return None;
        },
    };
    assert(slash < n);
    proof {
        lemma_first_slash_bounds(text@, 0);
        assert(first_slash_from(text@, 0) == Some(slash as int));
        assert(text@.subrange(slash + 1, n as int) == utf8_bytes(c.text@).subrange(
            slash + 1,
            utf8_bytes(c.text@).len() as int,
        ));
    }
    let prefix = match parse_u8_from(text, slash + 1) {
        Some(p) => p,
        None => return None,
    };
    match &c.address {
        Some(a) => {
            if (a.len() == 4 && prefix <= 32) || (a.len() == 16 && prefix <= 128) {
                Some(NormalizedCidr { address: mask_address(a, prefix), prefix })
            } else {
                None
            }
        },
        None => None,
    }
}

pub open spec fn cidrs_normalized(values: Seq<WireCidr>) -> Seq<Option<(Seq<u8>, u8)>> {
    values.map_values(|c: WireCidr| cidr_normalized(c))
}

pub open spec fn normalized_cidrs_view(values: Seq<NormalizedCidr>) -> Seq<(Seq<u8>, u8)> {
    values.map_values(|c: NormalizedCidr| (c.address@, c.prefix))
}

pub open spec fn distinct_cidrs(values: Seq<(Seq<u8>, u8)>) -> bool {
    forall|i: int, j: int| 0 <= i < j < values.len() ==> #[trigger] values[i] != #[trigger] values[j]
}

/// IP ranges are accepted when there are at most 64 and each has a normal form,
/// the normal forms all distinct.
pub open spec fn cidrs_accepted(values: Seq<WireCidr>) -> bool {
    &&& values.len() <= MAX_MATCH_VALUES
    &&& forall|i: int| 0 <= i < values.len() ==> (#[trigger] cidrs_normalized(values)[i]) is Some
    &&& distinct_cidrs(cidrs_normalized(values).map_values(|n: Option<(Seq<u8>, u8)>| n->0))
}

fn contains_cidr(seen: &Vec<NormalizedCidr>, candidate: &NormalizedCidr) -> (r: bool)
    ensures
        r == normalized_cidrs_view(seen@).contains((candidate.address@, candidate.prefix)),
{
    let ghost view = normalized_cidrs_view(seen@);
    let mut i: usize = 0;
    while i < seen.len()
        invariant
            i <= seen@.len(),
            view == normalized_cidrs_view(seen@),
            view.len() == seen@.len(),
            forall|k: int| 0 <= k < i ==> view[k] != (candidate.address@, candidate.prefix),
        decreases seen@.len() - i,
    {
        proof {
            assert(view[i as int] == (seen@[i as int].address@, seen@[i as int].prefix));
        }
        if seen[i].prefix == candidate.prefix && bytes_equal(
            seen[i].address.as_slice(),
            candidate.address.as_slice(),
        ) {
            proof {
                assert(view.contains(view[i as int]));
            }
            return true;
        }
        i += 1;
    }
    false
}

fn take_cidrs(values: &Vec<WireCidr>, path: &Vec<u8>) -> (r: Result<
    Vec<NormalizedCidr>,
    DataPlaneConfigError,
>)
    requires
        all_ascii(path@),
    ensures
        r is Ok <==> cidrs_accepted(values@),
        r matches Ok(cidrs) ==> normalized_cidrs_view(cidrs@) == cidrs_normalized(values@).map_values(
            |n: Option<(Seq<u8>, u8)>| n->0,
        ),
        r matches Err(e) ==> e.spec_code() == DataPlaneConfigErrorCode::ResourceLimit || e.spec_code()
            == DataPlaneConfigErrorCode::InvalidRoute,
{
    if values.len() > MAX_MATCH_VALUES {
        return Err(DataPlaneConfigError::at(DataPlaneConfigErrorCode::ResourceLimit, path));
    }
    let ghost forms = cidrs_normalized(values@);
    let ghost unwrapped = forms.map_values(|n: Option<(Seq<u8>, u8)>| n->0);
    let mut normalized: Vec<NormalizedCidr> = Vec::new();
    let mut i: usize = 0;
    while i < values.len()
        invariant
            i <= values@.len() <= MAX_MATCH_VALUES,
            all_ascii(path@),
            forms == cidrs_normalized(values@),
            unwrapped == forms.map_values(|n: Option<(Seq<u8>, u8)>| n->0),
            forms.len() == values@.len(),
            forall|k: int| 0 <= k < i ==> (#[trigger] forms[k]) is Some,
            normalized_cidrs_view(normalized@) == unwrapped.subrange(0, i as int),
            distinct_cidrs(unwrapped.subrange(0, i as int)),
        decreases values@.len() - i,
    {
        proof {
            assert(forms[i as int] == cidr_normalized(values@[i as int]));
        }
        let candidate = match normalize_cidr(&values[i]) {
            Some(candidate) => candidate,
            None => {
                let at = index_path(path, &[], i);
                return Err(DataPlaneConfigError::at(DataPlaneConfigErrorCode::InvalidRoute, &at));
            },
        };
        proof {
            assert(unwrapped[i as int] == (candidate.address@, candidate.prefix));
        }
        if contains_cidr(&normalized, &candidate) {
            proof {
                let view = normalized_cidrs_view(normalized@);
                let k = choose|k: int| 0 <= k < view.len() && view[k] == (
                    candidate.address@,
                    candidate.prefix,
                );
                assert(unwrapped.subrange(0, i as int)[k] == unwrapped[k]);
                assert(unwrapped[k] == unwrapped[i as int]);
            }
            let at = index_path(path, &[], i);
            return Err(DataPlaneConfigError::at(DataPlaneConfigErrorCode::InvalidRoute, &at));
        }
        proof {
            let prefix_seq = unwrapped.subrange(0, i as int);
            let item = unwrapped[i as int];
            assert(unwrapped.subrange(0, i as int + 1) =~= prefix_seq.push(item));
            let next = prefix_seq.push(item);
            assert forall|a: int, b: int| 0 <= a < b < next.len() implies #[trigger] next[a]
                != #[trigger] next[b] by {
                if b == prefix_seq.len() {
                    assert(next[a] == prefix_seq[a]);
                    assert(normalized_cidrs_view(normalized@)[a] == prefix_seq[a]);
                } else {
                    assert(next[a] == prefix_seq[a] && next[b] == prefix_seq[b]);
                }
            }
        }
        normalized.push(candidate);
        proof {
            assert(normalized_cidrs_view(normalized@) =~= unwrapped.subrange(0, i as int + 1));
        }
        i += 1;
    }
    proof {
        assert(unwrapped.subrange(0, values@.len() as int) =~= unwrapped);
    }
    Ok(normalized)
}

#[derive(Debug, Clone, Copy, PartialEq, Eq, Structural)]
pub enum WireOutboundKind {
    Shadowsocks,
    Trojan,
    Hysteria2,
    Selector,
}

/// One outbound of a subscription as delivered. `server_address` is what the
/// lower-cased `server` parses to as an IP address, where it parses to one.
pub struct WireOutbound {
    pub kind: WireOutboundKind,
    pub tag: String,
    pub server: Option<String>,
    pub server_address: Option<Vec<u8>>,
    pub server_port: Option<u16>,
    pub method: Option<String>,
    pub password: Option<String>,
    pub tls: Option<WireTls>,
    pub outbounds: Option<Vec<String>>,
    pub default: Option<String>,
}

pub struct WireRouteRule {
    pub domain_suffix: Vec<String>,
    pub ip_cidr: Vec<WireCidr>,
    pub protocol: Vec<String>,
    pub outbound: String,
}

pub struct WireRoute {
    pub rules: Vec<WireRouteRule>,
    pub final_outbound: String,
}

/// A subscription as delivered.
pub struct WireSubscription {
    pub outbounds: Vec<WireOutbound>,
    pub route: WireRoute,
}

pub enum NodeProtocol {
    Shadowsocks(ShadowsocksMethod),
    Trojan,
    Hysteria2,
    Vless { reality_public_key: String },
}

/// A node of a normalized subscription.
pub struct Node {
    pub tag: String,
    pub name: String,
    pub server: String,
    pub server_port: u16,
    pub protocol: NodeProtocol,
    pub credential: String,
    pub tls_server_name: Option<String>,
}

/// A selector of a normalized subscription, with the index of the outbound it
/// came from.
pub struct Selector {
    pub source_index: usize,
    pub tag: String,
    pub outbounds: Vec<String>,
    pub default: String,
}

pub struct RouteRule {
    pub domain_suffix: Vec<String>,
    pub ip_cidr: Vec<NormalizedCidr>,
    pub protocol: Vec<String>,
    pub outbound: String,
}

/// A subscription after every field was checked and normalized.
pub struct NormalizedSubscription {
    pub nodes: Vec<Node>,
    pub selectors: Vec<Selector>,
    pub rules: Vec<RouteRule>,
    pub final_outbound: String,
}

pub open spec fn is_node_kind(kind: WireOutboundKind) -> bool {
    kind != WireOutboundKind::Selector
}

pub open spec fn tag_bytes(o: WireOutbound) -> Seq<u8> {
    utf8_bytes(o.tag@)
}

/// Whether the fields of a node outbound are accepted: those its protocol does
/// not use are absent, and those it uses are present and valid.
pub open spec fn node_fields_accepted(o: WireOutbound) -> bool {
    &&& o.outbounds is None
    &&& o.default is None
    &&& (o.kind == WireOutboundKind::Shadowsocks ==> o.tls is None)
    &&& (o.kind != WireOutboundKind::Shadowsocks ==> o.method is None)
    &&& o.server matches Some(server) && server_accepted(
        lower_all(utf8_bytes(server@)),
        option_bytes(o.server_address),
    )
    &&& o.server_port matches Some(port) && port != 0
    &&& (o.kind == WireOutboundKind::Shadowsocks ==> (o.method matches Some(method)
        && method_named(method@) is Some))
    &&& o.password matches Some(password) && valid_credential(utf8_bytes(password@))
    &&& (o.kind != WireOutboundKind::Shadowsocks ==> (o.tls matches Some(tls) && tls_accepted(
        tls,
    )))
}

/// Whether the fields of a selector outbound are accepted: no server fields, one
/// to 64 distinct valid references, and a valid default.
pub open spec fn selector_fields_accepted(o: WireOutbound) -> bool {
    &&& o.server is None
    &&& o.server_port is None
    &&& o.method is None
    &&& o.password is None
    &&& o.tls is None
    &&& o.outbounds matches Some(refs) && {
        &&& 1 <= refs@.len() <= MAX_NODES
        &&& forall|k: int| 0 <= k < refs@.len() ==> valid_tag(#[trigger] texts_bytes(refs@)[k])
        &&& distinct_bytes(texts_bytes(refs@))
    }
    &&& o.default matches Some(default) && valid_tag(utf8_bytes(default@))
}

/// The node a node outbound becomes.
pub open spec fn node_matches(n: Node, o: WireOutbound) -> bool {
    &&& n.tag@ == o.tag@
    &&& n.name@ == o.tag@
    &&& utf8_bytes(n.server@) == lower_all(utf8_bytes(o.server->0@))
    &&& n.server_port == o.server_port->0
    &&& n.credential@ == o.password->0@
    &&& (match o.kind {
        WireOutboundKind::Shadowsocks => n.protocol == NodeProtocol::Shadowsocks(
            method_named(o.method->0@)->0,
        ) && n.tls_server_name is None,
        WireOutboundKind::Trojan => n.protocol == NodeProtocol::Trojan && (
        n.tls_server_name matches Some(name) && utf8_bytes(name@) == lower_all(
            utf8_bytes(o.tls->0.server_name@),
        )),
        WireOutboundKind::Hysteria2 => n.protocol == NodeProtocol::Hysteria2 && (
        n.tls_server_name matches Some(name) && utf8_bytes(name@) == lower_all(
            utf8_bytes(o.tls->0.server_name@),
        )),
        WireOutboundKind::Selector => false,
    })
}

/// The selector a selector outbound at `index` becomes.
pub open spec fn selector_matches(sel: Selector, o: WireOutbound, index: int) -> bool {
    &&& sel.source_index == index
    &&& sel.tag@ == o.tag@
    &&& texts_bytes(sel.outbounds@) == texts_bytes(o.outbounds->0@)
    &&& sel.default@ == o.default->0@
}

fn take_node(o: &WireOutbound, base: &Vec<u8>, tag: String) -> (r: Result<
    Node,
    DataPlaneConfigError,
>)
    requires
        is_node_kind(o.kind),
        all_ascii(base@),
        tag@ == o.tag@,
    ensures
        r is Ok <==> node_fields_accepted(*o),
        r matches Ok(n) ==> node_matches(n, *o),
        r matches Err(e) ==> e.spec_code() == DataPlaneConfigErrorCode::InvalidStructure
            || e.spec_code() == DataPlaneConfigErrorCode::InvalidServer || e.spec_code()
            == DataPlaneConfigErrorCode::InvalidMethod || e.spec_code()
            == DataPlaneConfigErrorCode::InvalidCredential || e.spec_code()
            == DataPlaneConfigErrorCode::InvalidTls,
{
    let shadowsocks = match o.kind {
        WireOutboundKind::Shadowsocks => true,
        _ => false,
    };
    let f_tls: [u8; 4] = [46u8, 116u8, 108u8, 115u8];
    let f_outbounds: [u8; 10] = [46u8, 111u8, 117u8, 116u8, 98u8, 111u8, 117u8, 110u8, 100u8, 115u8];
    let f_default: [u8; 8] = [46u8, 100u8, 101u8, 102u8, 97u8, 117u8, 108u8, 116u8];
    let f_method: [u8; 7] = [46u8, 109u8, 101u8, 116u8, 104u8, 111u8, 100u8];
    let f_server: [u8; 7] = [46u8, 115u8, 101u8, 114u8, 118u8, 101u8, 114u8];
    let f_port: [u8; 12] = [46u8, 115u8, 101u8, 114u8, 118u8, 101u8, 114u8, 95u8, 112u8, 111u8, 114u8, 116u8];
    let f_password: [u8; 9] = [46u8, 112u8, 97u8, 115u8, 115u8, 119u8, 111u8, 114u8, 100u8];
    if shadowsocks {
        if o.tls.is_some() {
            return Err(DataPlaneConfigError::at(DataPlaneConfigErrorCode::InvalidStructure, &join_path(base, &f_tls)));
        }
    } else if o.method.is_some() {
        return Err(DataPlaneConfigError::at(DataPlaneConfigErrorCode::InvalidStructure, &join_path(base, &f_method)));
    }
    if o.outbounds.is_some() {
        return Err(DataPlaneConfigError::at(DataPlaneConfigErrorCode::InvalidStructure, &join_path(base, &f_outbounds)));
    }
    if o.default.is_some() {
        return Err(DataPlaneConfigError::at(DataPlaneConfigErrorCode::InvalidStructure, &join_path(base, &f_default)));
    }
    let server_path = join_path(base, &f_server);
    let server = match &o.server {
        Some(server) => take_server(server.as_str(), &o.server_address, &server_path)?,
        None => return Err(DataPlaneConfigError::at(DataPlaneConfigErrorCode::InvalidStructure, &server_path)),
    };
    let port_path = join_path(base, &f_port);
    let server_port = match o.server_port {
        Some(port) => port,
        None => return Err(DataPlaneConfigError::at(DataPlaneConfigErrorCode::InvalidStructure, &port_path)),
    };
    validate_port(server_port, &port_path)?;
    let method_path = join_path(base, &f_method);
    let method = if shadowsocks {
        match &o.method {
            Some(method) => Some(take_method(method, &method_path)?),
            None => return Err(DataPlaneConfigError::at(DataPlaneConfigErrorCode::InvalidStructure, &method_path)),
        }
    } else {
        None
    };
    let password_path = join_path(base, &f_password);
    let credential = match &o.password {
        Some(password) => take_credential(password, &password_path)?,
        None => return Err(DataPlaneConfigError::at(DataPlaneConfigErrorCode::InvalidStructure, &password_path)),
    };
    let tls_path = join_path(base, &f_tls);
    let tls_server_name = if shadowsocks {
        None
    } else {
        match &o.tls {
            Some(tls) => Some(take_tls(tls, &tls_path)?),
            None => return Err(DataPlaneConfigError::at(DataPlaneConfigErrorCode::InvalidStructure, &tls_path)),
        }
    };
    let protocol = match o.kind {
        WireOutboundKind::Shadowsocks => NodeProtocol::Shadowsocks(method.unwrap()),
        WireOutboundKind::Trojan => NodeProtocol::Trojan,
        _ => NodeProtocol::Hysteria2,
    };
    let name = tag.clone();
    Ok(Node { tag, name, server, server_port, protocol, credential, tls_server_name })
}

#[verifier::rlimit(40)]
#[verifier::spinoff_prover]
fn take_selector(o: &WireOutbound, base: &Vec<u8>, tag: String, index: usize) -> (r: Result<
    Selector,
    DataPlaneConfigError,
>)
    requires
        o.kind == WireOutboundKind::Selector,
        all_ascii(base@),
        tag@ == o.tag@,
    ensures
        r is Ok <==> selector_fields_accepted(*o),
        r matches Ok(sel) ==> selector_matches(sel, *o, index as int),
        r matches Err(e) ==> e.spec_code() == DataPlaneConfigErrorCode::InvalidStructure
            || e.spec_code() == DataPlaneConfigErrorCode::InvalidSelector || e.spec_code()
            == DataPlaneConfigErrorCode::InvalidTag,
{
    let f_tls: [u8; 4] = [46u8, 116u8, 108u8, 115u8];
    let f_outbounds: [u8; 10] = [46u8, 111u8, 117u8, 116u8, 98u8, 111u8, 117u8, 110u8, 100u8, 115u8];
    let f_default: [u8; 8] = [46u8, 100u8, 101u8, 102u8, 97u8, 117u8, 108u8, 116u8];
    let f_method: [u8; 7] = [46u8, 109u8, 101u8, 116u8, 104u8, 111u8, 100u8];
    let f_server: [u8; 7] = [46u8, 115u8, 101u8, 114u8, 118u8, 101u8, 114u8];
    let f_port: [u8; 12] = [46u8, 115u8, 101u8, 114u8, 118u8, 101u8, 114u8, 95u8, 112u8, 111u8, 114u8, 116u8];
    let f_password: [u8; 9] = [46u8, 112u8, 97u8, 115u8, 115u8, 119u8, 111u8, 114u8, 100u8];
    if o.server.is_some() {
        return Err(DataPlaneConfigError::at(DataPlaneConfigErrorCode::InvalidStructure, &join_path(base, &f_server)));
    }
    if o.server_port.is_some() {
        return Err(DataPlaneConfigError::at(DataPlaneConfigErrorCode::InvalidStructure, &join_path(base, &f_port)));
    }
    if o.method.is_some() {
        return Err(DataPlaneConfigError::at(DataPlaneConfigErrorCode::InvalidStructure, &join_path(base, &f_method)));
    }
    if o.password.is_some() {
        return Err(DataPlaneConfigError::at(DataPlaneConfigErrorCode::InvalidStructure, &join_path(base, &f_password)));
    }
    if o.tls.is_some() {
        return Err(DataPlaneConfigError::at(DataPlaneConfigErrorCode::InvalidStructure, &join_path(base, &f_tls)));
    }
    let outbounds_path = join_path(base, &f_outbounds);
    let refs = match &o.outbounds {
        Some(refs) => refs,
        None => return Err(DataPlaneConfigError::at(DataPlaneConfigErrorCode::InvalidStructure, &outbounds_path)),
    };
    if refs.len() == 0 || refs.len() > MAX_NODES {
        return Err(DataPlaneConfigError::at(DataPlaneConfigErrorCode::InvalidSelector, &outbounds_path));
    }
    let ghost view = texts_bytes(refs@);
    let mut references: Vec<String> = Vec::new();
    let mut k: usize = 0;
    while k < refs.len()
        invariant
            k <= refs@.len() <= MAX_NODES,
            all_ascii(outbounds_path@),
            (o.outbounds matches Some(r) && r@ == refs@),
            view == texts_bytes(refs@),
            view.len() == refs@.len(),
            texts_bytes(references@) == view.subrange(0, k as int),
            forall|j: int| 0 <= j < k ==> valid_tag(#[trigger] view[j]),
            distinct_bytes(view.subrange(0, k as int)),
        decreases refs@.len() - k,
    {
        let at = index_path(&outbounds_path, &[], k);
        let reference = take_tag(&refs[k], &at)?;
        proof {
            assert(view[k as int] == utf8_bytes(reference@));
        }
        if index_of_bytes(&references, reference.as_str().as_bytes()) {
            proof {
                let seen = texts_bytes(references@);
                let j = choose|j: int| 0 <= j < seen.len() && seen[j] == utf8_bytes(reference@);
                assert(view.subrange(0, k as int)[j] == view[j]);
                assert(view[j] == view[k as int]);
            }
            return Err(DataPlaneConfigError::at(DataPlaneConfigErrorCode::InvalidSelector, &at));
        }
        proof {
            lemma_distinct_push(view.subrange(0, k as int), view[k as int]);
            assert(view.subrange(0, k as int + 1) =~= view.subrange(0, k as int).push(view[k as int]));
        }
        references.push(reference);
        proof {
            assert(texts_bytes(references@) =~= view.subrange(0, k as int + 1));
        }
        k += 1;
    }
    proof {
        assert(view.subrange(0, refs@.len() as int) =~= view);
    }
    let default_path = join_path(base, &f_default);
    let default = match &o.default {
        Some(default) => take_tag(default, &default_path)?,
        None => return Err(DataPlaneConfigError::at(DataPlaneConfigErrorCode::InvalidStructure, &default_path)),
    };
    Ok(Selector { source_index: index, tag, outbounds: references, default })
}

/// The indices of the node outbounds among the first `n`.
pub open spec fn node_indices_upto(outs: Seq<WireOutbound>, n: int) -> Seq<int>
    decreases n,
{
    if n <= 0 {
        Seq::empty()
    } else if is_node_kind(outs[n - 1].kind) {
        node_indices_upto(outs, n - 1).push(n - 1)
    } else {
        node_indices_upto(outs, n - 1)
    }
}

/// The indices of the selector outbounds among the first `n`.
pub open spec fn selector_indices_upto(outs: Seq<WireOutbound>, n: int) -> Seq<int>
    decreases n,
{
    if n <= 0 {
        Seq::empty()
    } else if !is_node_kind(outs[n - 1].kind) {
        selector_indices_upto(outs, n - 1).push(n - 1)
    } else {
        selector_indices_upto(outs, n - 1)
    }
}

pub open spec fn node_indices(outs: Seq<WireOutbound>) -> Seq<int> {
    node_indices_upto(outs, outs.len() as int)
}

pub open spec fn selector_indices(outs: Seq<WireOutbound>) -> Seq<int> {
    selector_indices_upto(outs, outs.len() as int)
}

pub open spec fn outbound_tags(outs: Seq<WireOutbound>) -> Seq<Seq<u8>> {
    outs.map_values(|o: WireOutbound| tag_bytes(o))
}

/// The references of the selector outbound `o`, as bytes.
pub open spec fn reference_bytes(o: WireOutbound) -> Seq<Seq<u8>> {
    texts_bytes(o.outbounds->0@)
}

pub open spec fn is_node_tag(outs: Seq<WireOutbound>, t: Seq<u8>) -> bool {
    exists|k: int| 0 <= k < outs.len() && is_node_kind(outs[k].kind) && #[trigger] tag_bytes(outs[k]) == t
}

pub open spec fn is_selector_tag(outs: Seq<WireOutbound>, t: Seq<u8>) -> bool {
    exists|k: int|
        0 <= k < outs.len() && outs[k].kind == WireOutboundKind::Selector && #[trigger] tag_bytes(
            outs[k],
        ) == t
}

pub open spec fn is_outbound_tag(outs: Seq<WireOutbound>, t: Seq<u8>) -> bool {
    exists|k: int| 0 <= k < outs.len() && #[trigger] tag_bytes(outs[k]) == t
}

/// Whether each outbound on its own is accepted, the tags are valid and
/// distinct, and there are at most 64 nodes and 8 selectors.
pub open spec fn outbound_list_accepted(outs: Seq<WireOutbound>) -> bool {
    &&& 1 <= outs.len() <= MAX_OUTBOUNDS
    &&& forall|k: int| 0 <= k < outs.len() ==> valid_tag(#[trigger] tag_bytes(outs[k]))
    &&& distinct_bytes(outbound_tags(outs))
    &&& node_indices(outs).len() <= MAX_NODES
    &&& selector_indices(outs).len() <= MAX_SELECTORS
    &&& forall|k: int|
        0 <= k < outs.len() ==> if is_node_kind(#[trigger] outs[k].kind) {
            node_fields_accepted(outs[k])
        } else {
            selector_fields_accepted(outs[k])
        }
}

/// Whether the selectors and nodes fit together: there is at least one of each,
/// every reference names a node, every default is among its selector's
/// references, and every node is referenced by some selector.
pub open spec fn references_accepted(outs: Seq<WireOutbound>) -> bool {
    &&& node_indices(outs).len() >= 1
    &&& selector_indices(outs).len() >= 1
    &&& forall|k: int, j: int|
        0 <= k < outs.len() && outs[k].kind == WireOutboundKind::Selector && 0 <= j
            < reference_bytes(outs[k]).len() ==> is_node_tag(
            outs,
            #[trigger] reference_bytes(outs[k])[j],
        )
    &&& forall|k: int|
        0 <= k < outs.len() && #[trigger] outs[k].kind == WireOutboundKind::Selector
            ==> reference_bytes(outs[k]).contains(utf8_bytes(outs[k].default->0@))
    &&& forall|k: int|
        0 <= k < outs.len() && is_node_kind(#[trigger] outs[k].kind) ==> exists|s: int|
            0 <= s < outs.len() && outs[s].kind == WireOutboundKind::Selector
                && #[trigger] reference_bytes(outs[s]).contains(tag_bytes(outs[k]))
}

/// Whether the selectors fit the nodes: there is at least one node and one
/// selector, every reference names a node, and every default is among its
/// selector's references.
pub open spec fn selector_references_accepted(outs: Seq<WireOutbound>) -> bool {
    &&& node_indices(outs).len() >= 1
    &&& selector_indices(outs).len() >= 1
    &&& forall|k: int, j: int|
        0 <= k < outs.len() && outs[k].kind == WireOutboundKind::Selector && 0 <= j
            < reference_bytes(outs[k]).len() ==> is_node_tag(
            outs,
            #[trigger] reference_bytes(outs[k])[j],
        )
    &&& forall|k: int|
        0 <= k < outs.len() && #[trigger] outs[k].kind == WireOutboundKind::Selector
            ==> reference_bytes(outs[k]).contains(utf8_bytes(outs[k].default->0@))
}

/// Whether a route rule is accepted: its match lists are, at least one is not
/// empty, and it routes to an outbound that exists.
pub open spec fn rule_accepted(rule: WireRouteRule, outs: Seq<WireOutbound>) -> bool {
    &&& domains_accepted(rule.domain_suffix@)
    &&& cidrs_accepted(rule.ip_cidr@)
    &&& protocols_accepted(rule.protocol@)
    &&& !(rule.domain_suffix@.len() == 0 && rule.ip_cidr@.len() == 0 && rule.protocol@.len() == 0)
    &&& valid_tag(utf8_bytes(rule.outbound@))
    &&& is_outbound_tag(outs, utf8_bytes(rule.outbound@))
}

/// Whether the route is accepted: its final outbound is a selector, and there
/// are at most 256 rules, each accepted.
pub open spec fn route_accepted(route: WireRoute, outs: Seq<WireOutbound>) -> bool {
    &&& valid_tag(utf8_bytes(route.final_outbound@))
    &&& is_selector_tag(outs, utf8_bytes(route.final_outbound@))
    &&& route.rules@.len() <= MAX_ROUTE_RULES
    &&& forall|i: int| 0 <= i < route.rules@.len() ==> rule_accepted(#[trigger] route.rules@[i], outs)
}

/// Whether a delivered subscription is accepted.
pub open spec fn wire_accepted(wire: WireSubscription) -> bool {
    &&& outbound_list_accepted(wire.outbounds@)
    &&& references_accepted(wire.outbounds@)
    &&& route_accepted(wire.route, wire.outbounds@)
}

/// The normalized form of a route rule.
pub open spec fn rule_matches(rule: RouteRule, wire: WireRouteRule) -> bool {
    &&& texts_bytes(rule.domain_suffix@) == lowered_all(wire.domain_suffix@)
    &&& normalized_cidrs_view(rule.ip_cidr@) == cidrs_normalized(wire.ip_cidr@).map_values(
        |n: Option<(Seq<u8>, u8)>| n->0,
    )
    &&& texts_bytes(rule.protocol@) == lowered_all(wire.protocol@)
    &&& rule.outbound@ == wire.outbound@
}

/// Whether `model` is the normal form of `wire`: its nodes and selectors are the
/// node and selector outbounds in order, its rules the rules in order.
pub open spec fn model_matches(model: NormalizedSubscription, wire: WireSubscription) -> bool {
    let outs = wire.outbounds@;
    let ni = node_indices(outs);
    let si = selector_indices(outs);
    &&& model.nodes@.len() == ni.len()
    &&& forall|j: int| 0 <= j < ni.len() ==> node_matches(#[trigger] model.nodes@[j], outs[ni[j]])
    &&& model.selectors@.len() == si.len()
    &&& forall|j: int|
        0 <= j < si.len() ==> selector_matches(#[trigger] model.selectors@[j], outs[si[j]], si[j])
    &&& model.final_outbound@ == wire.route.final_outbound@
    &&& model.rules@.len() == wire.route.rules@.len()
    &&& forall|i: int|
        0 <= i < wire.route.rules@.len() ==> rule_matches(#[trigger] model.rules@[i], wire.route.rules@[i])
}

proof fn lemma_indices(outs: Seq<WireOutbound>, n: int)
    requires
        0 <= n <= outs.len(),
    ensures
        node_indices_upto(outs, n).len() + selector_indices_upto(outs, n).len() == n,
        forall|j: int|
            0 <= j < node_indices_upto(outs, n).len() ==> 0 <= #[trigger] node_indices_upto(
                outs,
                n,
            )[j] < n && is_node_kind(outs[node_indices_upto(outs, n)[j]].kind),
        forall|j: int|
            0 <= j < selector_indices_upto(outs, n).len() ==> 0 <= #[trigger] selector_indices_upto(
                outs,
                n,
            )[j] < n && !is_node_kind(outs[selector_indices_upto(outs, n)[j]].kind),
        forall|k: int|
            0 <= k < n && is_node_kind(#[trigger] outs[k].kind) ==> exists|j: int|
                0 <= j < node_indices_upto(outs, n).len() && node_indices_upto(outs, n)[j] == k,
        forall|k: int|
            0 <= k < n && !is_node_kind(#[trigger] outs[k].kind) ==> exists|j: int|
                0 <= j < selector_indices_upto(outs, n).len() && selector_indices_upto(outs, n)[j]
                    == k,
    decreases n,
{
    if n > 0 {
        lemma_indices(outs, n - 1);
        let pn = node_indices_upto(outs, n - 1);
        let ps = selector_indices_upto(outs, n - 1);
        if is_node_kind(outs[n - 1].kind) {
            assert forall|k: int| 0 <= k < n && is_node_kind(#[trigger] outs[k].kind) implies exists|
                j: int,
            | 0 <= j < node_indices_upto(outs, n).len() && node_indices_upto(outs, n)[j] == k by {
                if k == n - 1 {
                    assert(node_indices_upto(outs, n)[pn.len() as int] == k);
                } else {
                    let j = choose|j: int| 0 <= j < pn.len() && pn[j] == k;
                    assert(node_indices_upto(outs, n)[j] == k);
                }
            }
        } else {
            assert forall|k: int| 0 <= k < n && !is_node_kind(#[trigger] outs[k].kind) implies exists|
                j: int,
            | 0 <= j < selector_indices_upto(outs, n).len() && selector_indices_upto(outs, n)[j] == k by {
                if k == n - 1 {
                    assert(selector_indices_upto(outs, n)[ps.len() as int] == k);
                } else {
                    let j = choose|j: int| 0 <= j < ps.len() && ps[j] == k;
                    assert(selector_indices_upto(outs, n)[j] == k);
                }
            }
        }
    }
}

proof fn lemma_indices_grow(outs: Seq<WireOutbound>, a: int, b: int)
    requires
        0 <= a <= b <= outs.len(),
    ensures
        node_indices_upto(outs, a).len() <= node_indices_upto(outs, b).len(),
        selector_indices_upto(outs, a).len() <= selector_indices_upto(outs, b).len(),
    decreases b - a,
{
    if a < b {
        lemma_indices_grow(outs, a, b - 1);
    }
}

/// `$.outbounds`
pub open spec fn outbounds_path() -> Seq<u8> {
    seq![36u8, 46u8, 111u8, 117u8, 116u8, 98u8, 111u8, 117u8, 110u8, 100u8, 115u8]
}

fn outbounds_path_bytes() -> (path: Vec<u8>)
    ensures
        path@ == outbounds_path(),
        all_ascii(path@),
{
    let path = vec![36u8, 46u8, 111u8, 117u8, 116u8, 98u8, 111u8, 117u8, 110u8, 100u8, 115u8];
    proof {
        assert(path@ =~= outbounds_path());
    }
    path
}

/// Checks every outbound on its own and splits them into nodes and selectors;
/// gives the tags of all outbounds too.
fn check_outbounds(outs: &Vec<WireOutbound>) -> (r: Result<
    (Vec<Node>, Vec<Selector>, Vec<String>),
    DataPlaneConfigError,
>)
    ensures
        r is Ok <==> outbound_list_accepted(outs@),
        r matches Ok((nodes, selectors, tags)) ==> {
            &&& nodes@.len() == node_indices(outs@).len()
            &&& forall|j: int|
                0 <= j < nodes@.len() ==> node_matches(
                    #[trigger] nodes@[j],
                    outs@[node_indices(outs@)[j]],
                )
            &&& selectors@.len() == selector_indices(outs@).len()
            &&& forall|j: int|
                0 <= j < selectors@.len() ==> selector_matches(
                    #[trigger] selectors@[j],
                    outs@[selector_indices(outs@)[j]],
                    selector_indices(outs@)[j],
                )
            &&& texts_bytes(tags@) == outbound_tags(outs@)
        },
        !(1 <= outs@.len() <= MAX_OUTBOUNDS) ==> (r matches Err(e) && is_error_at(
            e,
            DataPlaneConfigErrorCode::ResourceLimit,
            outbounds_path(),
        )),
        r matches Err(e) ==> e.spec_code() != DataPlaneConfigErrorCode::EmptyInput
            && e.spec_code() != DataPlaneConfigErrorCode::InputTooLarge && e.spec_code()
            != DataPlaneConfigErrorCode::Serialization,
{
    let list_path = outbounds_path_bytes();
    if outs.len() == 0 || outs.len() > MAX_OUTBOUNDS {
        return Err(DataPlaneConfigError::at(DataPlaneConfigErrorCode::ResourceLimit, &list_path));
    }
    let root: Vec<u8> = vec![36u8];
    proof {
        assert(all_ascii(root@));
    }
    let ghost all_tags = outbound_tags(outs@);
    let mut nodes: Vec<Node> = Vec::new();
    let mut selectors: Vec<Selector> = Vec::new();
    let mut tags: Vec<String> = Vec::new();
    let mut i: usize = 0;
    proof {
        assert(texts_bytes(tags@) =~= all_tags.subrange(0, 0));
    }
    while i < outs.len()
        invariant
            i <= outs@.len() <= MAX_OUTBOUNDS,
            all_ascii(root@),
            all_ascii(list_path@),
            list_path@ == outbounds_path(),
            all_tags == outbound_tags(outs@),
            all_tags.len() == outs@.len(),
            texts_bytes(tags@) == all_tags.subrange(0, i as int),
            forall|k: int| 0 <= k < i ==> valid_tag(#[trigger] tag_bytes(outs@[k])),
            distinct_bytes(all_tags.subrange(0, i as int)),
            nodes@.len() == node_indices_upto(outs@, i as int).len(),
            nodes@.len() <= MAX_NODES,
            forall|j: int|
                0 <= j < nodes@.len() ==> node_matches(
                    #[trigger] nodes@[j],
                    outs@[node_indices_upto(outs@, i as int)[j]],
                ),
            selectors@.len() == selector_indices_upto(outs@, i as int).len(),
            selectors@.len() <= MAX_SELECTORS,
            forall|j: int|
                0 <= j < selectors@.len() ==> selector_matches(
                    #[trigger] selectors@[j],
                    outs@[selector_indices_upto(outs@, i as int)[j]],
                    selector_indices_upto(outs@, i as int)[j],
                ),
            forall|k: int|
                0 <= k < i ==> if is_node_kind(#[trigger] outs@[k].kind) {
                    node_fields_accepted(outs@[k])
                } else {
                    selector_fields_accepted(outs@[k])
                },
        decreases outs@.len() - i,
    {
        let f_outbounds: [u8; 10] = [46u8, 111u8, 117u8, 116u8, 98u8, 111u8, 117u8, 110u8, 100u8, 115u8];
        let f_tag: [u8; 4] = [46u8, 116u8, 97u8, 103u8];
        let base = index_path(&root, &f_outbounds, i);
        let tag_path = join_path(&base, &f_tag);
        let outbound = &outs[i];
        proof {
            assert(all_tags[i as int] == tag_bytes(outs@[i as int]));
        }
        let tag = match take_tag(&outbound.tag, &tag_path) {
            Ok(tag) => tag,
            Err(e) => {
                proof {
                    assert(!valid_tag(tag_bytes(outs@[i as int])));
                }
                return Err(e);
            },
        };
        if index_of_bytes(&tags, tag.as_str().as_bytes()) {
            proof {
                let seen = texts_bytes(tags@);
                let j = choose|j: int| 0 <= j < seen.len() && seen[j] == utf8_bytes(tag@);
                assert(all_tags.subrange(0, i as int)[j] == all_tags[j]);
                assert(all_tags[j] == all_tags[i as int]);
                assert(!distinct_bytes(all_tags));
            }
            return Err(DataPlaneConfigError::at(DataPlaneConfigErrorCode::DuplicateTag, &tag_path));
        }
        let ghost ni = node_indices_upto(outs@, i as int);
        let ghost si = selector_indices_upto(outs@, i as int);
        match outbound.kind {
            WireOutboundKind::Selector => {
                if selectors.len() >= MAX_SELECTORS {
                    proof {
                        lemma_indices_grow(outs@, i as int + 1, outs@.len() as int);
                    }
                    return Err(
                        DataPlaneConfigError::at(DataPlaneConfigErrorCode::ResourceLimit, &list_path),
                    );
                }
                let selector = match take_selector(outbound, &base, tag.clone(), i) {
                    Ok(selector) => selector,
                    Err(e) => {
                        proof {
                            assert(!selector_fields_accepted(outs@[i as int]));
                        }
                        return Err(e);
                    },
                };
                selectors.push(selector);
                proof {
                    assert(selector_indices_upto(outs@, i as int + 1) == si.push(i as int));
                    assert(node_indices_upto(outs@, i as int + 1) == ni);
                }
            },
            _ => {
                if nodes.len() >= MAX_NODES {
                    proof {
                        lemma_indices_grow(outs@, i as int + 1, outs@.len() as int);
                    }
                    return Err(
                        DataPlaneConfigError::at(DataPlaneConfigErrorCode::ResourceLimit, &list_path),
                    );
                }
                let node = match take_node(outbound, &base, tag.clone()) {
                    Ok(node) => node,
                    Err(e) => {
                        proof {
                            assert(!node_fields_accepted(outs@[i as int]));
                        }
                        return Err(e);
                    },
                };
                nodes.push(node);
                proof {
                    assert(node_indices_upto(outs@, i as int + 1) == ni.push(i as int));
                    assert(selector_indices_upto(outs@, i as int + 1) == si);
                }
            },
        }
        proof {
            lemma_distinct_push(all_tags.subrange(0, i as int), all_tags[i as int]);
            assert(all_tags.subrange(0, i as int + 1) =~= all_tags.subrange(0, i as int).push(
                all_tags[i as int],
            ));
        }
        tags.push(tag);
        proof {
            assert(texts_bytes(tags@) =~= all_tags.subrange(0, i as int + 1));
        }
        i += 1;
    }
    proof {
        assert(all_tags.subrange(0, outs@.len() as int) =~= all_tags);
    }
    Ok((nodes, selectors, tags))
}

fn node_tag_exists(nodes: &Vec<Node>, tag: &[u8]) -> (r: bool)
    ensures
        r == exists|j: int| 0 <= j < nodes@.len() && utf8_bytes(#[trigger] nodes@[j].tag@) == tag@,
{
    let mut j: usize = 0;
    while j < nodes.len()
        invariant
            j <= nodes@.len(),
            forall|k: int| 0 <= k < j ==> utf8_bytes(#[trigger] nodes@[k].tag@) != tag@,
        decreases nodes@.len() - j,
    {
        if bytes_equal(nodes[j].tag.as_str().as_bytes(), tag) {
            return true;
        }
        j += 1;
    }
    false
}

fn referenced_by_any(selectors: &Vec<Selector>, tag: &[u8]) -> (r: bool)
    ensures
        r == exists|s: int|
            0 <= s < selectors@.len() && texts_bytes(#[trigger] selectors@[s].outbounds@).contains(
                tag@,
            ),
{
    let mut s: usize = 0;
    while s < selectors.len()
        invariant
            s <= selectors@.len(),
            forall|k: int|
                0 <= k < s ==> !texts_bytes(#[trigger] selectors@[k].outbounds@).contains(tag@),
        decreases selectors@.len() - s,
    {
        if index_of_bytes(&selectors[s].outbounds, tag) {
            return true;
        }
        s += 1;
    }
    false
}

/// The nodes and selectors that [`check_outbounds`] split off `outs`.
pub open spec fn split_matches(
    outs: Seq<WireOutbound>,
    nodes: Seq<Node>,
    selectors: Seq<Selector>,
) -> bool {
    &&& nodes.len() == node_indices(outs).len()
    &&& forall|j: int| 0 <= j < nodes.len() ==> node_matches(#[trigger] nodes[j], outs[node_indices(outs)[j]])
    &&& selectors.len() == selector_indices(outs).len()
    &&& forall|j: int|
        0 <= j < selectors.len() ==> selector_matches(
            #[trigger] selectors[j],
            outs[selector_indices(outs)[j]],
            selector_indices(outs)[j],
        )
}

pub open spec fn node_tag_bytes(nodes: Seq<Node>, j: int) -> Seq<u8> {
    utf8_bytes(nodes[j].tag@)
}

pub open spec fn is_model_node_tag(nodes: Seq<Node>, t: Seq<u8>) -> bool {
    exists|j: int| 0 <= j < nodes.len() && #[trigger] node_tag_bytes(nodes, j) == t
}

/// A selector of the model whose references all name nodes and whose default
/// is among them.
pub open spec fn model_selector_ok(nodes: Seq<Node>, sel: Selector) -> bool {
    &&& forall|k: int|
        0 <= k < sel.outbounds@.len() ==> is_model_node_tag(nodes, #[trigger] texts_bytes(sel.outbounds@)[k])
    &&& texts_bytes(sel.outbounds@).contains(utf8_bytes(sel.default@))
}

pub open spec fn model_node_referenced(nodes: Seq<Node>, selectors: Seq<Selector>, j: int) -> bool {
    exists|t: int|
        0 <= t < selectors.len() && #[trigger] texts_bytes(selectors[t].outbounds@).contains(
            node_tag_bytes(nodes, j),
        )
}

pub open spec fn model_selectors_ok(nodes: Seq<Node>, selectors: Seq<Selector>) -> bool {
    &&& nodes.len() >= 1
    &&& selectors.len() >= 1
    &&& forall|t: int| 0 <= t < selectors.len() ==> model_selector_ok(nodes, #[trigger] selectors[t])
}

pub open spec fn model_references_ok(nodes: Seq<Node>, selectors: Seq<Selector>) -> bool {
    &&& nodes.len() >= 1
    &&& selectors.len() >= 1
    &&& forall|t: int| 0 <= t < selectors.len() ==> model_selector_ok(nodes, #[trigger] selectors[t])
    &&& forall|j: int| 0 <= j < nodes.len() ==> #[trigger] model_node_referenced(nodes, selectors, j)
}

#[verifier::rlimit(40)]
#[verifier::spinoff_prover]
proof fn lemma_references_model(os: Seq<WireOutbound>, nodes: Seq<Node>, selectors: Seq<Selector>)
    requires
        split_matches(os, nodes, selectors),
    ensures
        references_accepted(os) == model_references_ok(nodes, selectors),
        selector_references_accepted(os) == model_selectors_ok(nodes, selectors),
{
    lemma_indices(os, os.len() as int);
    let ni = node_indices(os);
    let si = selector_indices(os);
    assert forall|t: Seq<u8>| #[trigger] is_node_tag(os, t) == is_model_node_tag(nodes, t) by {
        if is_node_tag(os, t) {
            let k = choose|k: int|
                0 <= k < os.len() && is_node_kind(os[k].kind) && #[trigger] tag_bytes(os[k]) == t;
            let j = choose|j: int| 0 <= j < ni.len() && ni[j] == k;
            assert(node_matches(nodes[j], os[ni[j]]));
            assert(node_tag_bytes(nodes, j) == t);
        }
        if is_model_node_tag(nodes, t) {
            let j = choose|j: int| 0 <= j < nodes.len() && #[trigger] node_tag_bytes(nodes, j) == t;
            assert(node_matches(nodes[j], os[ni[j]]));
            assert(tag_bytes(os[ni[j]]) == t);
        }
    }
    // Selectors of the model are the selector outbounds.
    assert forall|t: int| 0 <= t < selectors.len() implies texts_bytes(
        #[trigger] selectors[t].outbounds@,
    ) == reference_bytes(os[si[t]]) && utf8_bytes(selectors[t].default@) == utf8_bytes(
        os[si[t]].default->0@,
    ) by {
        assert(selector_matches(selectors[t], os[si[t]], si[t]));
    }
    assert(selector_references_accepted(os) ==> model_selectors_ok(nodes, selectors)) by {
        if selector_references_accepted(os) {
            assert forall|t: int| 0 <= t < selectors.len() implies model_selector_ok(
                nodes,
                #[trigger] selectors[t],
            ) by {
                let k = si[t];
                assert(os[k].kind == WireOutboundKind::Selector);
                assert forall|m: int| 0 <= m < selectors[t].outbounds@.len() implies is_model_node_tag(
                    nodes,
                    #[trigger] texts_bytes(selectors[t].outbounds@)[m],
                ) by {
                    assert(is_node_tag(os, reference_bytes(os[k])[m]));
                }
            }
        }
    }
    assert(references_accepted(os) ==> model_references_ok(nodes, selectors)) by {
        if references_accepted(os) {
            assert forall|j: int| 0 <= j < nodes.len() implies #[trigger] model_node_referenced(
                nodes,
                selectors,
                j,
            ) by {
                let k = ni[j];
                assert(node_matches(nodes[j], os[k]));
                assert(is_node_kind(os[k].kind));
                let q = choose|q: int|
                    0 <= q < os.len() && os[q].kind == WireOutboundKind::Selector
                        && #[trigger] reference_bytes(os[q]).contains(tag_bytes(os[k]));
                let t = choose|t: int| 0 <= t < si.len() && si[t] == q;
                assert(texts_bytes(selectors[t].outbounds@).contains(node_tag_bytes(nodes, j)));
            }
        }
    }
    assert(model_selectors_ok(nodes, selectors) ==> selector_references_accepted(os)) by {
        if model_selectors_ok(nodes, selectors) {
            assert forall|k: int, m: int|
                0 <= k < os.len() && os[k].kind == WireOutboundKind::Selector && 0 <= m
                    < reference_bytes(os[k]).len() implies is_node_tag(
                os,
                #[trigger] reference_bytes(os[k])[m],
            ) by {
                let t = choose|t: int| 0 <= t < si.len() && si[t] == k;
                assert(model_selector_ok(nodes, selectors[t]));
                assert(is_model_node_tag(nodes, texts_bytes(selectors[t].outbounds@)[m]));
            }
            assert forall|k: int|
                0 <= k < os.len() && #[trigger] os[k].kind == WireOutboundKind::Selector
                    implies reference_bytes(os[k]).contains(utf8_bytes(os[k].default->0@)) by {
                let t = choose|t: int| 0 <= t < si.len() && si[t] == k;
                assert(model_selector_ok(nodes, selectors[t]));
            }
        }
    }
    assert(model_references_ok(nodes, selectors) ==> references_accepted(os)) by {
        if model_references_ok(nodes, selectors) {
            assert forall|k: int|
                0 <= k < os.len() && is_node_kind(#[trigger] os[k].kind) implies exists|q: int|
                0 <= q < os.len() && os[q].kind == WireOutboundKind::Selector
                    && #[trigger] reference_bytes(os[q]).contains(tag_bytes(os[k])) by {
                let j = choose|j: int| 0 <= j < ni.len() && ni[j] == k;
                assert(model_node_referenced(nodes, selectors, j));
                assert(node_matches(nodes[j], os[k]));
                let t = choose|t: int|
                    0 <= t < selectors.len() && #[trigger] texts_bytes(selectors[t].outbounds@).contains(
                        node_tag_bytes(nodes, j),
                    );
                assert(reference_bytes(os[si[t]]).contains(tag_bytes(os[k])));
            }
        }
    }
}

fn check_selector_refs(nodes: &Vec<Node>, selector: &Selector, base: &Vec<u8>) -> (r: Result<
    (),
    DataPlaneConfigError,
>)
    requires
        all_ascii(base@),
    ensures
        r is Ok <==> model_selector_ok(nodes@, *selector),
        r matches Err(e) ==> e.spec_code() == DataPlaneConfigErrorCode::InvalidSelector,
{
    let ghost refs = texts_bytes(selector.outbounds@);
    let mut j: usize = 0;
    while j < selector.outbounds.len()
        invariant
            j <= selector.outbounds@.len(),
            all_ascii(base@),
            refs == texts_bytes(selector.outbounds@),
            refs.len() == selector.outbounds@.len(),
            forall|k: int| 0 <= k < j ==> is_model_node_tag(nodes@, #[trigger] refs[k]),
        decreases selector.outbounds@.len() - j,
    {
        proof {
            assert(refs[j as int] == utf8_bytes(selector.outbounds@[j as int]@));
        }
        if !node_tag_exists(nodes, selector.outbounds[j].as_str().as_bytes()) {
            proof {
                if is_model_node_tag(nodes@, refs[j as int]) {
                    let q = choose|q: int|
                        0 <= q < nodes@.len() && #[trigger] node_tag_bytes(nodes@, q) == refs[j as int];
                    assert(utf8_bytes(nodes@[q].tag@) == refs[j as int]);
                }
            }
            let f_refs: [u8; 10] = [46u8, 111u8, 117u8, 116u8, 98u8, 111u8, 117u8, 110u8, 100u8, 115u8];
            let at = index_path(base, &f_refs, j);
            return Err(DataPlaneConfigError::at(DataPlaneConfigErrorCode::InvalidSelector, &at));
        }
        proof {
            let q = choose|q: int| 0 <= q < nodes@.len() && utf8_bytes(#[trigger] nodes@[q].tag@) == refs[j as int];
            assert(node_tag_bytes(nodes@, q) == refs[j as int]);
        }
        j += 1;
    }
    if !index_of_bytes(&selector.outbounds, selector.default.as_str().as_bytes()) {
        let f_default: [u8; 8] = [46u8, 100u8, 101u8, 102u8, 97u8, 117u8, 108u8, 116u8];
        let at = join_path(base, &f_default);
        return Err(DataPlaneConfigError::at(DataPlaneConfigErrorCode::InvalidSelector, &at));
    }
    Ok(())
}

/// Checks that the selectors and nodes fit together.
fn check_references(outs: &Vec<WireOutbound>, nodes: &Vec<Node>, selectors: &Vec<Selector>) -> (r:
    Result<(), DataPlaneConfigError>)
    requires
        split_matches(outs@, nodes@, selectors@),
    ensures
        r is Ok <==> references_accepted(outs@),
        r matches Err(e) ==> e.spec_code() == DataPlaneConfigErrorCode::InvalidSelector,
        selector_references_accepted(outs@) && !references_accepted(outs@) ==> (r matches Err(e)
            && is_error_at(e, DataPlaneConfigErrorCode::InvalidSelector, outbounds_path())),
        !(node_indices(outs@).len() >= 1 && selector_indices(outs@).len() >= 1) ==> (r matches Err(
            e,
        ) && is_error_at(e, DataPlaneConfigErrorCode::InvalidSelector, outbounds_path())),
{
    proof {
        lemma_references_model(outs@, nodes@, selectors@);
    }
    let list_path = outbounds_path_bytes();
    if nodes.len() == 0 || selectors.len() == 0 {
        return Err(DataPlaneConfigError::at(DataPlaneConfigErrorCode::InvalidSelector, &list_path));
    }
    let root: Vec<u8> = vec![36u8];
    let mut s: usize = 0;
    while s < selectors.len()
        invariant
            s <= selectors@.len(),
            all_ascii(root@),
            references_accepted(outs@) == model_references_ok(nodes@, selectors@),
            selector_references_accepted(outs@) == model_selectors_ok(nodes@, selectors@),
            nodes@.len() >= 1,
            selectors@.len() >= 1,
            nodes@.len() == node_indices(outs@).len(),
            selectors@.len() == selector_indices(outs@).len(),
            forall|t: int| 0 <= t < s ==> model_selector_ok(nodes@, #[trigger] selectors@[t]),
        decreases selectors@.len() - s,
    {
        let f_outbounds: [u8; 10] = [46u8, 111u8, 117u8, 116u8, 98u8, 111u8, 117u8, 110u8, 100u8, 115u8];
        let base = index_path(&root, &f_outbounds, selectors[s].source_index);
        match check_selector_refs(nodes, &selectors[s], &base) {
            Ok(()) => {},
            Err(error) => {
                assert(!model_selectors_ok(nodes@, selectors@));
                return Err(error);
            },
        }
        s += 1;
    }
    let mut n: usize = 0;
    while n < nodes.len()
        invariant
            n <= nodes@.len(),
            all_ascii(list_path@),
            list_path@ == outbounds_path(),
            references_accepted(outs@) == model_references_ok(nodes@, selectors@),
            forall|t: int| 0 <= t < selectors@.len() ==> model_selector_ok(nodes@, #[trigger] selectors@[t]),
            nodes@.len() >= 1,
            selectors@.len() >= 1,
            forall|j: int| 0 <= j < n ==> #[trigger] model_node_referenced(nodes@, selectors@, j),
        decreases nodes@.len() - n,
    {
        let tag = nodes[n].tag.as_str().as_bytes();
        proof {
            assert(tag@ == node_tag_bytes(nodes@, n as int));
        }
        if !referenced_by_any(selectors, tag) {
            proof {
                if model_node_referenced(nodes@, selectors@, n as int) {
                    let t = choose|t: int|
                        0 <= t < selectors@.len() && #[trigger] texts_bytes(
                            selectors@[t].outbounds@,
                        ).contains(node_tag_bytes(nodes@, n as int));
                    assert(texts_bytes(selectors@[t].outbounds@).contains(tag@));
                }
                assert(!model_references_ok(nodes@, selectors@));
            }
            return Err(DataPlaneConfigError::at(DataPlaneConfigErrorCode::InvalidSelector, &list_path));
        }
        proof {
            assert(model_node_referenced(nodes@, selectors@, n as int));
        }
        n += 1;
    }
    Ok(())
}

fn selector_tag_exists(selectors: &Vec<Selector>, tag: &[u8]) -> (r: bool)
    ensures
        r == exists|j: int| 0 <= j < selectors@.len() && utf8_bytes(#[trigger] selectors@[j].tag@) == tag@,
{
    let mut j: usize = 0;
    while j < selectors.len()
        invariant
            j <= selectors@.len(),
            forall|k: int| 0 <= k < j ==> utf8_bytes(#[trigger] selectors@[k].tag@) != tag@,
        decreases selectors@.len() - j,
    {
        if bytes_equal(selectors[j].tag.as_str().as_bytes(), tag) {
            return true;
        }
        j += 1;
    }
    false
}

proof fn lemma_selector_tags(os: Seq<WireOutbound>, selectors: Seq<Selector>, t: Seq<u8>)
    requires
        selectors.len() == selector_indices(os).len(),
        forall|j: int|
            0 <= j < selectors.len() ==> selector_matches(
                #[trigger] selectors[j],
                os[selector_indices(os)[j]],
                selector_indices(os)[j],
            ),
    ensures
        is_selector_tag(os, t) == exists|j: int|
            0 <= j < selectors.len() && utf8_bytes(#[trigger] selectors[j].tag@) == t,
{
    lemma_indices(os, os.len() as int);
    let si = selector_indices(os);
    if is_selector_tag(os, t) {
        let k = choose|k: int|
            0 <= k < os.len() && os[k].kind == WireOutboundKind::Selector && #[trigger] tag_bytes(
                os[k],
            ) == t;
        let j = choose|j: int| 0 <= j < si.len() && si[j] == k;
        assert(selector_matches(selectors[j], os[si[j]], si[j]));
        assert(utf8_bytes(selectors[j].tag@) == t);
    }
    if exists|j: int| 0 <= j < selectors.len() && utf8_bytes(#[trigger] selectors[j].tag@) == t {
        let j = choose|j: int| 0 <= j < selectors.len() && utf8_bytes(#[trigger] selectors[j].tag@) == t;
        assert(selector_matches(selectors[j], os[si[j]], si[j]));
        assert(tag_bytes(os[si[j]]) == t);
    }
}

proof fn lemma_outbound_tags(os: Seq<WireOutbound>, tags: Seq<String>, t: Seq<u8>)
    requires
        texts_bytes(tags) == outbound_tags(os),
    ensures
        is_outbound_tag(os, t) == texts_bytes(tags).contains(t),
{
    if is_outbound_tag(os, t) {
        let k = choose|k: int| 0 <= k < os.len() && #[trigger] tag_bytes(os[k]) == t;
        assert(outbound_tags(os)[k] == t);
    }
    if texts_bytes(tags).contains(t) {
        let k = choose|k: int| 0 <= k < texts_bytes(tags).len() && texts_bytes(tags)[k] == t;
        assert(outbound_tags(os)[k] == tag_bytes(os[k]));
    }
}

fn check_rule(rule: &WireRouteRule, tags: &Vec<String>, base: &Vec<u8>) -> (r: Result<
    RouteRule,
    DataPlaneConfigError,
>)
    requires
        all_ascii(base@),
    ensures
        r is Ok <==> {
            &&& domains_accepted(rule.domain_suffix@)
            &&& cidrs_accepted(rule.ip_cidr@)
            &&& protocols_accepted(rule.protocol@)
            &&& !(rule.domain_suffix@.len() == 0 && rule.ip_cidr@.len() == 0 && rule.protocol@.len()
                == 0)
            &&& valid_tag(utf8_bytes(rule.outbound@))
            &&& texts_bytes(tags@).contains(utf8_bytes(rule.outbound@))
        },
        r matches Ok(normalized) ==> rule_matches(normalized, *rule),
        r matches Err(e) ==> e.spec_code() == DataPlaneConfigErrorCode::ResourceLimit || e.spec_code()
            == DataPlaneConfigErrorCode::InvalidRoute || e.spec_code()
            == DataPlaneConfigErrorCode::InvalidTag,
{
    let f_domains: [u8; 14] = [46u8, 100u8, 111u8, 109u8, 97u8, 105u8, 110u8, 95u8, 115u8, 117u8, 102u8, 102u8, 105u8, 120u8];
    let f_cidrs: [u8; 8] = [46u8, 105u8, 112u8, 95u8, 99u8, 105u8, 100u8, 114u8];
    let f_protocols: [u8; 9] = [46u8, 112u8, 114u8, 111u8, 116u8, 111u8, 99u8, 111u8, 108u8];
    let f_outbound: [u8; 9] = [46u8, 111u8, 117u8, 116u8, 98u8, 111u8, 117u8, 110u8, 100u8];
    let domain_suffix = take_domains(&rule.domain_suffix, &join_path(base, &f_domains))?;
    let ip_cidr = take_cidrs(&rule.ip_cidr, &join_path(base, &f_cidrs))?;
    let protocol = take_protocols(&rule.protocol, &join_path(base, &f_protocols))?;
    if rule.domain_suffix.len() == 0 && rule.ip_cidr.len() == 0 && rule.protocol.len() == 0 {
        return Err(DataPlaneConfigError::at(DataPlaneConfigErrorCode::InvalidRoute, base));
    }
    let outbound_path = join_path(base, &f_outbound);
    let outbound = take_tag(&rule.outbound, &outbound_path)?;
    if !index_of_bytes(tags, outbound.as_str().as_bytes()) {
        return Err(DataPlaneConfigError::at(DataPlaneConfigErrorCode::InvalidRoute, &outbound_path));
    }
    Ok(RouteRule { domain_suffix, ip_cidr, protocol, outbound })
}

/// Checks the route: its final outbound and its rules.
fn check_route(
    route: &WireRoute,
    outs: &Vec<WireOutbound>,
    tags: &Vec<String>,
    selectors: &Vec<Selector>,
) -> (r: Result<(String, Vec<RouteRule>), DataPlaneConfigError>)
    requires
        texts_bytes(tags@) == outbound_tags(outs@),
        selectors@.len() == selector_indices(outs@).len(),
        forall|j: int|
            0 <= j < selectors@.len() ==> selector_matches(
                #[trigger] selectors@[j],
                outs@[selector_indices(outs@)[j]],
                selector_indices(outs@)[j],
            ),
    ensures
        r is Ok <==> route_accepted(*route, outs@),
        r matches Ok((final_outbound, rules)) ==> {
            &&& final_outbound@ == route.final_outbound@
            &&& rules@.len() == route.rules@.len()
            &&& forall|i: int| 0 <= i < rules@.len() ==> rule_matches(#[trigger] rules@[i], route.rules@[i])
        },
        r matches Err(e) ==> e.spec_code() == DataPlaneConfigErrorCode::ResourceLimit || e.spec_code()
            == DataPlaneConfigErrorCode::InvalidRoute || e.spec_code()
            == DataPlaneConfigErrorCode::InvalidTag,
{
    let root: Vec<u8> = vec![36u8];
    let f_route: [u8; 6] = [46u8, 114u8, 111u8, 117u8, 116u8, 101u8];
    let f_final: [u8; 15] = [46u8, 102u8, 105u8, 110u8, 97u8, 108u8, 95u8, 111u8, 117u8, 116u8, 98u8, 111u8, 117u8, 110u8, 100u8];
    let f_rules: [u8; 6] = [46u8, 114u8, 117u8, 108u8, 101u8, 115u8];
    let route_path = join_path(&root, &f_route);
    let final_path = join_path(&route_path, &f_final);
    let final_outbound = take_tag(&route.final_outbound, &final_path)?;
    proof {
        lemma_selector_tags(outs@, selectors@, utf8_bytes(route.final_outbound@));
    }
    if !selector_tag_exists(selectors, final_outbound.as_str().as_bytes()) {
        return Err(DataPlaneConfigError::at(DataPlaneConfigErrorCode::InvalidRoute, &final_path));
    }
    let rules_path = join_path(&route_path, &f_rules);
    if route.rules.len() > MAX_ROUTE_RULES {
        return Err(DataPlaneConfigError::at(DataPlaneConfigErrorCode::ResourceLimit, &rules_path));
    }
    let mut rules: Vec<RouteRule> = Vec::new();
    let mut i: usize = 0;
    while i < route.rules.len()
        invariant
            i <= route.rules@.len(),
            all_ascii(rules_path@),
            texts_bytes(tags@) == outbound_tags(outs@),
            valid_tag(utf8_bytes(route.final_outbound@)),
            is_selector_tag(outs@, utf8_bytes(route.final_outbound@)),
            route.rules@.len() <= MAX_ROUTE_RULES,
            final_outbound@ == route.final_outbound@,
            rules@.len() == i,
            forall|k: int| 0 <= k < i ==> rule_accepted(#[trigger] route.rules@[k], outs@),
            forall|k: int| 0 <= k < i ==> rule_matches(#[trigger] rules@[k], route.rules@[k]),
        decreases route.rules@.len() - i,
    {
        let base = index_path(&rules_path, &[], i);
        let rule = &route.rules[i];
        proof {
            lemma_outbound_tags(outs@, tags@, utf8_bytes(rule.outbound@));
        }
        let normalized = check_rule(rule, tags, &base)?;
        rules.push(normalized);
        i += 1;
    }
    Ok((final_outbound, rules))
}

impl NormalizedSubscription {
    /// Checks a delivered subscription field by field and normalizes it; refused
    /// unless [`wire_accepted`].
    pub fn from_wire(wire: &WireSubscription) -> (r: Result<Self, DataPlaneConfigError>)
        ensures
            r is Ok <==> wire_accepted(*wire),
            r matches Ok(model) ==> model_matches(model, *wire),
            r matches Ok(model) ==> references_resolve(model) && model.rules@.len()
                <= MAX_ROUTE_RULES,
            !(1 <= wire.outbounds@.len() <= MAX_OUTBOUNDS) ==> (r matches Err(e) && is_error_at(
                e,
                DataPlaneConfigErrorCode::ResourceLimit,
                outbounds_path(),
            )),
            r matches Err(e) ==> e.spec_code() != DataPlaneConfigErrorCode::EmptyInput
                && e.spec_code() != DataPlaneConfigErrorCode::InputTooLarge && e.spec_code()
                != DataPlaneConfigErrorCode::Serialization,
            outbound_list_accepted(wire.outbounds@) && !references_accepted(wire.outbounds@) ==> (r matches Err(
                e,
            ) && e.spec_code() == DataPlaneConfigErrorCode::InvalidSelector),
            outbound_list_accepted(wire.outbounds@) && selector_references_accepted(wire.outbounds@)
                && !references_accepted(wire.outbounds@) ==> (r matches Err(e) && is_error_at(
                e,
                DataPlaneConfigErrorCode::InvalidSelector,
                outbounds_path(),
            )),
            outbound_list_accepted(wire.outbounds@) && references_accepted(wire.outbounds@)
                && !route_accepted(wire.route, wire.outbounds@) ==> (r matches Err(e) && (
            e.spec_code() == DataPlaneConfigErrorCode::ResourceLimit || e.spec_code()
                == DataPlaneConfigErrorCode::InvalidRoute || e.spec_code()
                == DataPlaneConfigErrorCode::InvalidTag)),
    {
        let (nodes, selectors, tags) = check_outbounds(&wire.outbounds)?;
        check_references(&wire.outbounds, &nodes, &selectors)?;
        let (final_outbound, rules) = check_route(&wire.route, &wire.outbounds, &tags, &selectors)?;
        let model = NormalizedSubscription { nodes, selectors, rules, final_outbound };
        proof {
            lemma_references_model(wire.outbounds@, model.nodes@, model.selectors@);
            assert forall|j: int, k: int|
                0 <= j < model.selectors@.len() && 0 <= k < model.selectors@[j].outbounds@.len()
                    implies is_model_node_tag(
                model.nodes@,
                #[trigger] texts_bytes(model.selectors@[j].outbounds@)[k],
            ) by {
                assert(model_selector_ok(model.nodes@, model.selectors@[j]));
            }
        }
        Ok(model)
    }
}

/// Where the rule sets of smart routing are stored.
#[derive(Debug, Clone)]
pub struct RoutingRuleResources {
    geoip_cn: String,
    geosite_cn: String,
}

impl RoutingRuleResources {
    pub closed spec fn spec_geoip_cn(&self) -> Seq<char> {
        self.geoip_cn@
    }

    pub closed spec fn spec_geosite_cn(&self) -> Seq<char> {
        self.geosite_cn@
    }

    pub fn new(geoip_cn: String, geosite_cn: String) -> (r: Self)
        ensures
            r.spec_geoip_cn() == geoip_cn@,
            r.spec_geosite_cn() == geosite_cn@,
    {
        RoutingRuleResources { geoip_cn, geosite_cn }
    }

    pub fn geoip_cn(&self) -> (v: &str)
        ensures
            v@ == self.spec_geoip_cn(),
    {
        self.geoip_cn.as_str()
    }

    pub fn geosite_cn(&self) -> (v: &str)
        ensures
            v@ == self.spec_geosite_cn(),
    {
        self.geosite_cn.as_str()
    }
}

pub struct RenderedLog {
    pub disabled: bool,
}

pub struct RenderedTls {
    pub enabled: bool,
    pub server_name: String,
    pub insecure: bool,
    pub min_version: &'static str,
}

pub struct RenderedTlsDns {
    pub kind: &'static str,
    pub tag: &'static str,
    pub server: &'static str,
    pub server_port: u16,
    pub tls: RenderedTls,
}

pub struct RenderedDns {
    pub server: RenderedTlsDns,
    pub final_server: &'static str,
    pub strategy: &'static str,
}

pub enum RenderedInbound {
    Mixed {
        kind: &'static str,
        tag: &'static str,
        listen: &'static str,
        listen_port: u16,
        set_system_proxy: bool,
    },
    Tun {
        kind: &'static str,
        tag: &'static str,
        interface_name: &'static str,
        address_v4: &'static str,
        address_v6: &'static str,
        auto_route: bool,
        strict_route: bool,
        stack: &'static str,
    },
}

pub struct RenderedVlessTls {
    pub enabled: bool,
    pub server_name: String,
    pub insecure: bool,
    pub min_version: &'static str,
    pub utls_enabled: bool,
    pub utls_fingerprint: &'static str,
    pub reality_enabled: bool,
    pub reality_public_key: String,
}

pub enum RenderedOutbound {
    Direct { tag: &'static str },
    Shadowsocks {
        tag: String,
        server: String,
        server_port: u16,
        method: ShadowsocksMethod,
        password: String,
        domain_resolver: &'static str,
    },
    Trojan {
        tag: String,
        server: String,
        server_port: u16,
        password: String,
        domain_resolver: &'static str,
        tls: RenderedTls,
    },
    Hysteria2 {
        tag: String,
        server: String,
        server_port: u16,
        password: String,
        domain_resolver: &'static str,
        tls: RenderedTls,
    },
    Vless {
        tag: String,
        server: String,
        server_port: u16,
        uuid: String,
        flow: &'static str,
        network: &'static str,
        domain_resolver: &'static str,
        tls: RenderedVlessTls,
    },
    Selector {
        tag: String,
        outbounds: Vec<String>,
        default: String,
        interrupt_exist_connections: bool,
    },
}

pub enum RenderedRouteRule {
    Sniff { action: &'static str },
    DnsHijack { protocol: &'static str, action: &'static str },
    Private { ip_is_private: bool, action: &'static str, outbound: &'static str },
    RuleSet {
        first_rule_set: &'static str,
        second_rule_set: &'static str,
        action: &'static str,
        outbound: &'static str,
    },
    Subscription {
        domain_suffix: Vec<String>,
        ip_cidr: Vec<NormalizedCidr>,
        protocol: Vec<String>,
        action: &'static str,
        outbound: String,
    },
}

pub struct RenderedLocalRuleSet {
    pub kind: &'static str,
    pub tag: &'static str,
    pub format: &'static str,
    pub path: String,
}

pub struct RenderedRoute {
    pub rules: Vec<RenderedRouteRule>,
    pub rule_set: Vec<RenderedLocalRuleSet>,
    pub final_outbound: String,
    pub auto_detect_interface: bool,
}

/// The configuration the data plane runs, ready to be written out.
pub struct RenderedConfig {
    pub log: RenderedLog,
    pub dns: RenderedDns,
    pub inbound: RenderedInbound,
    pub outbounds: Vec<RenderedOutbound>,
    pub route: RenderedRoute,
}

pub open spec fn direct_tag() -> Seq<char> {
    "orange-direct"@
}

pub open spec fn dns_tag() -> Seq<char> {
    "orange-dot-dns"@
}

/// The TLS server name of a node; empty where it has none.
pub open spec fn tls_name(n: Node) -> Seq<char> {
    match n.tls_server_name {
        Some(name) => name@,
        None => Seq::empty(),
    }
}

/// Whether the rendered outbound is the one of node `n`: same tag, server,
/// port and credential, resolving through the fixed DNS, with TLS where the
/// protocol has it.
pub open spec fn rendered_node_matches(o: RenderedOutbound, n: Node) -> bool {
    match n.protocol {
        NodeProtocol::Shadowsocks(method) => o matches RenderedOutbound::Shadowsocks {
            tag,
            server,
            server_port,
            method: m,
            password,
            domain_resolver,
        } && tag@ == n.tag@ && server@ == n.server@ && server_port == n.server_port && m == method
            && password@ == n.credential@ && domain_resolver@ == dns_tag(),
        NodeProtocol::Trojan => o matches RenderedOutbound::Trojan {
            tag,
            server,
            server_port,
            password,
            domain_resolver,
            tls,
        } && tag@ == n.tag@ && server@ == n.server@ && server_port == n.server_port && password@
            == n.credential@ && domain_resolver@ == dns_tag() && tls.enabled && !tls.insecure
            && tls.server_name@ == tls_name(n),
        NodeProtocol::Hysteria2 => o matches RenderedOutbound::Hysteria2 {
            tag,
            server,
            server_port,
            password,
            domain_resolver,
            tls,
        } && tag@ == n.tag@ && server@ == n.server@ && server_port == n.server_port && password@
            == n.credential@ && domain_resolver@ == dns_tag() && tls.enabled && !tls.insecure
            && tls.server_name@ == tls_name(n),
        NodeProtocol::Vless { reality_public_key } => o matches RenderedOutbound::Vless {
            tag,
            server,
            server_port,
            uuid,
            domain_resolver,
            tls,
            ..
        } && tag@ == n.tag@ && server@ == n.server@ && server_port == n.server_port && uuid@
            == n.credential@ && domain_resolver@ == dns_tag() && tls.enabled && !tls.insecure
            && tls.server_name@ == tls_name(n) && tls.reality_enabled
            && tls.reality_public_key@ == reality_public_key@,
    }
}

pub open spec fn rendered_selector_matches(o: RenderedOutbound, sel: Selector) -> bool {
    o matches RenderedOutbound::Selector { tag, outbounds, default, interrupt_exist_connections }
        && tag@ == sel.tag@ && texts_bytes(outbounds@) == texts_bytes(sel.outbounds@) && default@
        == sel.default@ && interrupt_exist_connections
}

pub open spec fn rendered_rule_matches(o: RenderedRouteRule, rule: RouteRule) -> bool {
    o matches RenderedRouteRule::Subscription { domain_suffix, ip_cidr, protocol, outbound, .. }
        && texts_bytes(domain_suffix@) == texts_bytes(rule.domain_suffix@)
        && normalized_cidrs_view(ip_cidr@) == normalized_cidrs_view(rule.ip_cidr@)
        && texts_bytes(protocol@) == texts_bytes(rule.protocol@) && outbound@ == rule.outbound@
}

/// Whether the routing mode routes some traffic directly.
pub open spec fn routes_directly(routing: Option<RoutingMode>) -> bool {
    routing matches Some(mode) && mode != RoutingMode::Global
}

/// Whether the subscription's own rules are kept: without a routing mode, and
/// in smart routing.
pub open spec fn keeps_subscription_rules(routing: Option<RoutingMode>) -> bool {
    routing is None || routing == Some(RoutingMode::Smart)
}

/// What the rendered configuration routes to when no rule matches.
pub open spec fn rendered_final(model_final: Seq<char>, routing: Option<RoutingMode>) -> Seq<char> {
    if routing == Some(RoutingMode::Direct) {
        direct_tag()
    } else {
        model_final
    }
}

/// Whether `config` renders `model` with `template` and the routing mode: the
/// nodes, then the selectors, then a direct outbound where traffic may go
/// directly; the sniff and DNS rules first, the subscription's rules where
/// they are kept, and in smart routing private and mainland-China traffic
/// directly through the two local rule sets.
pub open spec fn rendered_matches(
    config: RenderedConfig,
    model: NormalizedSubscription,
    template: ClientInboundTemplate,
    routing: Option<RoutingMode>,
    resources: Option<RoutingRuleResources>,
) -> bool {
    let nodes = model.nodes@;
    let selectors = model.selectors@;
    let outbounds = config.outbounds@;
    let rules = config.route.rules@;
    let kept: int = if keeps_subscription_rules(routing) {
        model.rules@.len() as int
    } else {
        0
    };
    &&& config.log.disabled
    &&& (template == ClientInboundTemplate::Mixed <==> config.inbound is Mixed)
    &&& outbounds.len() == nodes.len() + selectors.len() + if routes_directly(routing) {
        1int
    } else {
        0int
    }
    &&& forall|i: int| 0 <= i < nodes.len() ==> rendered_node_matches(#[trigger] outbounds[i], nodes[i])
    &&& forall|j: int|
        0 <= j < selectors.len() ==> rendered_selector_matches(
            #[trigger] outbounds[nodes.len() + j],
            selectors[j],
        )
    &&& routes_directly(routing) ==> (outbounds[outbounds.len() - 1] matches RenderedOutbound::Direct {
        tag,
    } && tag@ == direct_tag())
    &&& rules.len() == 2 + kept + if routing == Some(RoutingMode::Smart) {
        2int
    } else {
        0int
    }
    &&& rules[0] is Sniff
    &&& rules[1] is DnsHijack
    &&& forall|k: int| 0 <= k < kept ==> rendered_rule_matches(#[trigger] rules[2 + k], model.rules@[k])
    &&& routing == Some(RoutingMode::Smart) ==> {
        &&& (rules[2 + kept] matches RenderedRouteRule::Private { ip_is_private, outbound, .. }
            && ip_is_private && outbound@ == direct_tag())
        &&& (rules[3 + kept] matches RenderedRouteRule::RuleSet { outbound, .. } && outbound@
            == direct_tag())
        &&& config.route.rule_set@.len() == 2
        &&& config.route.rule_set@[0].path@ == resources->0.spec_geosite_cn()
        &&& config.route.rule_set@[1].path@ == resources->0.spec_geoip_cn()
    }
    &&& routing != Some(RoutingMode::Smart) ==> config.route.rule_set@.len() == 0
    &&& config.route.final_outbound@ == rendered_final(model.final_outbound@, routing)
    &&& config.route.auto_detect_interface
}

/// In direct routing, traffic that no rule matches leaves through the direct
/// outbound: the rendered final outbound is "orange-direct", the tag of the
/// last rendered outbound, which is the direct one, and not the
/// subscription's final selector. In every other routing mode the final
/// outbound stays the subscription's own.
pub proof fn law_direct_routing_goes_out_directly(
    config: RenderedConfig,
    model: NormalizedSubscription,
    template: ClientInboundTemplate,
    routing: Option<RoutingMode>,
    resources: Option<RoutingRuleResources>,
)
    requires
        rendered_matches(config, model, template, routing, resources),
    ensures
        routing == Some(RoutingMode::Direct) ==> config.route.final_outbound@ == "orange-direct"@,
        routing == Some(RoutingMode::Direct) ==> (config.outbounds@.last() matches RenderedOutbound::Direct {
            tag,
        } && tag@ == config.route.final_outbound@),
        routing == Some(RoutingMode::Direct) && model.final_outbound@ != "orange-direct"@
            ==> config.route.final_outbound@ != model.final_outbound@,
        routing != Some(RoutingMode::Direct) ==> config.route.final_outbound@
            == model.final_outbound@,
{
}

fn rendered_tls(server_name: &String) -> (tls: RenderedTls)
    ensures
        tls.enabled,
        !tls.insecure,
        tls.server_name@ == server_name@,
{
    RenderedTls { enabled: true, server_name: server_name.clone(), insecure: false, min_version: "1.2" }
}

fn tls_name_of(node: &Node) -> (name: String)
    ensures
        name@ == tls_name(*node),
{
    match &node.tls_server_name {
        Some(name) => name.clone(),
        None => String::new(),
    }
}

fn render_node(node: &Node) -> (o: RenderedOutbound)
    ensures
        rendered_node_matches(o, *node),
{
    let tag = node.tag.clone();
    let server = node.server.clone();
    let password = node.credential.clone();
    proof {
        reveal_strlit("orange-dot-dns");
    }
    match &node.protocol {
        NodeProtocol::Shadowsocks(method) => RenderedOutbound::Shadowsocks {
            tag,
            server,
            server_port: node.server_port,
            method: *method,
            password,
            domain_resolver: "orange-dot-dns",
        },
        NodeProtocol::Trojan => RenderedOutbound::Trojan {
            tag,
            server,
            server_port: node.server_port,
            password,
            domain_resolver: "orange-dot-dns",
            tls: rendered_tls(&tls_name_of(node)),
        },
        NodeProtocol::Hysteria2 => RenderedOutbound::Hysteria2 {
            tag,
            server,
            server_port: node.server_port,
            password,
            domain_resolver: "orange-dot-dns",
            tls: rendered_tls(&tls_name_of(node)),
        },
        NodeProtocol::Vless { reality_public_key } => RenderedOutbound::Vless {
            tag,
            server,
            server_port: node.server_port,
            uuid: password,
            flow: "xtls-rprx-vision",
            network: "tcp",
            domain_resolver: "orange-dot-dns",
            tls: RenderedVlessTls {
                enabled: true,
                server_name: tls_name_of(node),
                insecure: false,
                min_version: "1.2",
                utls_enabled: true,
                utls_fingerprint: "chrome",
                reality_enabled: true,
                reality_public_key: reality_public_key.clone(),
            },
        },
    }
}

fn clone_texts(values: &Vec<String>) -> (copy: Vec<String>)
    ensures
        texts_bytes(copy@) == texts_bytes(values@),
{
    let mut copy: Vec<String> = Vec::new();
    let mut i: usize = 0;
    while i < values.len()
        invariant
            i <= values@.len(),
            copy@.len() == i,
            forall|k: int| 0 <= k < i ==> (#[trigger] copy@[k])@ == values@[k]@,
        decreases values@.len() - i,
    {
        copy.push(values[i].clone());
        i += 1;
    }
    proof {
        assert(texts_bytes(copy@) =~= texts_bytes(values@));
    }
    copy
}

fn clone_cidrs(values: &Vec<NormalizedCidr>) -> (copy: Vec<NormalizedCidr>)
    ensures
        normalized_cidrs_view(copy@) == normalized_cidrs_view(values@),
{
    let mut copy: Vec<NormalizedCidr> = Vec::new();
    let mut i: usize = 0;
    while i < values.len()
        invariant
            i <= values@.len(),
            copy@.len() == i,
            forall|k: int|
                0 <= k < i ==> (#[trigger] copy@[k]).address@ == values@[k].address@ && copy@[k].prefix
                    == values@[k].prefix,
        decreases values@.len() - i,
    {
        let address = values[i].address.clone();
        copy.push(NormalizedCidr { address, prefix: values[i].prefix });
        i += 1;
    }
    proof {
        assert(normalized_cidrs_view(copy@) =~= normalized_cidrs_view(values@));
    }
    copy
}

impl RenderedConfig {
    /// Renders a normalized subscription for the data plane.
    pub fn new(
        model: &NormalizedSubscription,
        template: ClientInboundTemplate,
        routing: Option<RoutingMode>,
        resources: Option<&RoutingRuleResources>,
    ) -> (config: Self)
        requires
            routing is Some ==> resources is Some,
        ensures
            rendered_matches(
                config,
                *model,
                template,
                routing,
                match resources {
                    Some(r) => Some(*r),
                    None => None,
                },
            ),
    {
        proof {
            reveal_strlit("orange-direct");
        }
        let include_direct = match routing {
            Some(RoutingMode::Smart) => true,
            Some(RoutingMode::Direct) => true,
            _ => false,
        };
        let mut outbounds: Vec<RenderedOutbound> = Vec::new();
        let mut i: usize = 0;
        while i < model.nodes.len()
            invariant
                i <= model.nodes@.len(),
                outbounds@.len() == i,
                forall|k: int| 0 <= k < i ==> rendered_node_matches(#[trigger] outbounds@[k], model.nodes@[k]),
            decreases model.nodes@.len() - i,
        {
            outbounds.push(render_node(&model.nodes[i]));
            i += 1;
        }
        let mut j: usize = 0;
        while j < model.selectors.len()
            invariant
                j <= model.selectors@.len(),
                outbounds@.len() == model.nodes@.len() + j,
                forall|k: int|
                    0 <= k < model.nodes@.len() ==> rendered_node_matches(
                        #[trigger] outbounds@[k],
                        model.nodes@[k],
                    ),
                forall|k: int|
                    0 <= k < j ==> rendered_selector_matches(
                        #[trigger] outbounds@[model.nodes@.len() + k],
                        model.selectors@[k],
                    ),
            decreases model.selectors@.len() - j,
        {
            let selector = &model.selectors[j];
            outbounds.push(
                RenderedOutbound::Selector {
                    tag: selector.tag.clone(),
                    outbounds: clone_texts(&selector.outbounds),
                    default: selector.default.clone(),
                    interrupt_exist_connections: true,
                },
            );
            proof {
                assert(outbounds@[model.nodes@.len() + j] == outbounds@[outbounds@.len() - 1]);
            }
            j += 1;
        }
        if include_direct {
            outbounds.push(RenderedOutbound::Direct { tag: "orange-direct" });
        }
        let inbound = match template {
            ClientInboundTemplate::Mixed => RenderedInbound::Mixed {
                kind: "mixed",
                tag: "orange-mixed",
                listen: "127.0.0.1",
                listen_port: SYSTEM_PROXY_LISTEN_PORT,
                set_system_proxy: false,
            },
            ClientInboundTemplate::Tun => RenderedInbound::Tun {
                kind: "tun",
                tag: "orange-tun",
                interface_name: "orange-tun",
                address_v4: "172.19.0.1/30",
                address_v6: "fdfe:dcba:9876::1/126",
                auto_route: true,
                strict_route: true,
                stack: "system",
            },
        };
        let mut rules: Vec<RenderedRouteRule> = Vec::new();
        rules.push(RenderedRouteRule::Sniff { action: "sniff" });
        rules.push(RenderedRouteRule::DnsHijack { protocol: "dns", action: "hijack-dns" });
        let keep_rules = match routing {
            None => true,
            Some(RoutingMode::Smart) => true,
            _ => false,
        };
        if keep_rules {
            let mut k: usize = 0;
            while k < model.rules.len()
                invariant
                    k <= model.rules@.len(),
                    rules@.len() == 2 + k,
                    rules@[0] is Sniff,
                    rules@[1] is DnsHijack,
                    forall|m: int| 0 <= m < k ==> rendered_rule_matches(#[trigger] rules@[2 + m], model.rules@[m]),
                decreases model.rules@.len() - k,
            {
                let rule = &model.rules[k];
                rules.push(
                    RenderedRouteRule::Subscription {
                        domain_suffix: clone_texts(&rule.domain_suffix),
                        ip_cidr: clone_cidrs(&rule.ip_cidr),
                        protocol: clone_texts(&rule.protocol),
                        action: "route",
                        outbound: rule.outbound.clone(),
                    },
                );
                proof {
                    assert(rules@[2 + k] == rules@[rules@.len() - 1]);
                }
                k += 1;
            }
        }
        let mut rule_set: Vec<RenderedLocalRuleSet> = Vec::new();
        let smart = match routing {
            Some(RoutingMode::Smart) => true,
            _ => false,
        };
        if smart {
            let resources = resources.unwrap();
            rules.push(
                RenderedRouteRule::Private {
                    ip_is_private: true,
                    action: "route",
                    outbound: "orange-direct",
                },
            );
            rules.push(
                RenderedRouteRule::RuleSet {
                    first_rule_set: "orange-geosite-cn",
                    second_rule_set: "orange-geoip-cn",
                    action: "route",
                    outbound: "orange-direct",
                },
            );
            rule_set.push(
                RenderedLocalRuleSet {
                    kind: "local",
                    tag: "orange-geosite-cn",
                    format: "binary",
                    path: resources.geosite_cn.clone(),
                },
            );
            rule_set.push(
                RenderedLocalRuleSet {
                    kind: "local",
                    tag: "orange-geoip-cn",
                    format: "binary",
                    path: resources.geoip_cn.clone(),
                },
            );
        }
        let direct = match routing {
            Some(RoutingMode::Direct) => true,
            _ => false,
        };
        let final_outbound = if direct {
            "orange-direct".to_owned()
        } else {
            model.final_outbound.clone()
        };
        RenderedConfig {
            log: RenderedLog { disabled: true },
            dns: RenderedDns {
                server: RenderedTlsDns {
                    kind: "tls",
                    tag: "orange-dot-dns",
                    server: "223.5.5.5",
                    server_port: 853,
                    tls: RenderedTls {
                        enabled: true,
                        server_name: "dns.alidns.com".to_owned(),
                        insecure: false,
                        min_version: "1.2",
                    },
                },
                final_server: "orange-dot-dns",
                strategy: "prefer_ipv4",
            },
            inbound,
            outbounds,
            route: RenderedRoute { rules, rule_set, final_outbound, auto_detect_interface: true },
        }
    }
}

pub open spec fn selectable_protocol(p: NodeProtocol) -> SelectableNodeProtocol {
    match p {
        NodeProtocol::Shadowsocks(_) => SelectableNodeProtocol::Shadowsocks,
        NodeProtocol::Trojan => SelectableNodeProtocol::Trojan,
        NodeProtocol::Hysteria2 => SelectableNodeProtocol::Hysteria2,
        NodeProtocol::Vless { .. } => SelectableNodeProtocol::Vless,
    }
}

/// The first node of `nodes` whose tag is `t`.
pub open spec fn first_node_index(nodes: Seq<Node>, t: Seq<u8>) -> int {
    choose|i: int|
        0 <= i < nodes.len() && node_tag_bytes(nodes, i) == t && forall|k: int|
            0 <= k < i ==> #[trigger] node_tag_bytes(nodes, k) != t
}

/// Every reference of every selector names a node.
pub open spec fn references_resolve(model: NormalizedSubscription) -> bool {
    forall|j: int, k: int|
        0 <= j < model.selectors@.len() && 0 <= k < model.selectors@[j].outbounds@.len()
            ==> is_model_node_tag(model.nodes@, #[trigger] texts_bytes(model.selectors@[j].outbounds@)[k])
}

/// Whether `group` offers the selector `sel`: its id and default, and for each
/// reference the node of that tag, by its name and protocol.
pub open spec fn group_matches(group: crate::data_plane_nodes::GroupView, sel: Selector, nodes: Seq<Node>) -> bool {
    let refs = texts_bytes(sel.outbounds@);
    &&& group.id == utf8_bytes(sel.tag@)
    &&& group.default_node_id == utf8_bytes(sel.default@)
    &&& group.nodes.len() == refs.len()
    &&& forall|k: int|
        0 <= k < refs.len() ==> {
            let n = nodes[first_node_index(nodes, refs[k])];
            &&& (#[trigger] group.nodes[k]).id == refs[k]
            &&& group.nodes[k].name == utf8_bytes(n.name@)
            &&& group.nodes[k].protocol == selectable_protocol(n.protocol)
        }
}

fn first_node_with_tag(nodes: &Vec<Node>, tag: &[u8]) -> (r: usize)
    requires
        is_model_node_tag(nodes@, tag@),
    ensures
        r == first_node_index(nodes@, tag@),
        r < nodes@.len(),
{
    let mut i: usize = 0;
    while i < nodes.len()
        invariant
            i <= nodes@.len(),
            is_model_node_tag(nodes@, tag@),
            forall|k: int| 0 <= k < i ==> #[trigger] node_tag_bytes(nodes@, k) != tag@,
        decreases nodes@.len() - i,
    {
        if bytes_equal(nodes[i].tag.as_str().as_bytes(), tag) {
            proof {
                assert(node_tag_bytes(nodes@, i as int) == tag@);
                let c = first_node_index(nodes@, tag@);
                assert(0 <= i < nodes@.len() && node_tag_bytes(nodes@, i as int) == tag@ && forall|
                    k: int,
                | 0 <= k < i ==> #[trigger] node_tag_bytes(nodes@, k) != tag@);
                if c < i {
                    assert(node_tag_bytes(nodes@, c) != tag@);
                } else if c > i {
                    assert(node_tag_bytes(nodes@, i as int) != tag@);
                }
            }
            return i;
        }
        i += 1;
    }
    proof {
        let j = choose|j: int| 0 <= j < nodes@.len() && #[trigger] node_tag_bytes(nodes@, j) == tag@;
        assert(node_tag_bytes(nodes@, j) != tag@);
    }
    0
}

fn selectable_of(protocol: &NodeProtocol) -> (p: SelectableNodeProtocol)
    ensures
        p == selectable_protocol(*protocol),
{
    match protocol {
        NodeProtocol::Shadowsocks(_) => SelectableNodeProtocol::Shadowsocks,
        NodeProtocol::Trojan => SelectableNodeProtocol::Trojan,
        NodeProtocol::Hysteria2 => SelectableNodeProtocol::Hysteria2,
        NodeProtocol::Vless { .. } => SelectableNodeProtocol::Vless,
    }
}

/// The selector catalog a normalized subscription offers.
pub fn build_selector_catalog(model: &NormalizedSubscription) -> (catalog: SelectorCatalog)
    requires
        references_resolve(*model),
    ensures
        catalog@.schema_version == crate::data_plane_nodes::NODE_RUNTIME_SCHEMA_VERSION,
        catalog@.groups.len() == model.selectors@.len(),
        forall|j: int|
            0 <= j < model.selectors@.len() ==> group_matches(
                #[trigger] catalog@.groups[j],
                model.selectors@[j],
                model.nodes@,
            ),
{
    let mut groups: Vec<SelectorGroup> = Vec::new();
    let mut j: usize = 0;
    while j < model.selectors.len()
        invariant
            j <= model.selectors@.len(),
            references_resolve(*model),
            groups@.len() == j,
            forall|g: int|
                0 <= g < j ==> group_matches(
                    (#[trigger] groups@[g])@,
                    model.selectors@[g],
                    model.nodes@,
                ),
        decreases model.selectors@.len() - j,
    {
        let selector = &model.selectors[j];
        let ghost refs = texts_bytes(selector.outbounds@);
        let mut members: Vec<SelectableNode> = Vec::new();
        let mut k: usize = 0;
        while k < selector.outbounds.len()
            invariant
                k <= selector.outbounds@.len(),
                references_resolve(*model),
                j < model.selectors@.len(),
                *selector == model.selectors@[j as int],
                refs == texts_bytes(selector.outbounds@),
                refs.len() == selector.outbounds@.len(),
                members@.len() == k,
                forall|m: int|
                    0 <= m < k ==> {
                        let n = model.nodes@[first_node_index(model.nodes@, refs[m])];
                        &&& (#[trigger] members@[m])@.id == refs[m]
                        &&& members@[m]@.name == utf8_bytes(n.name@)
                        &&& members@[m]@.protocol == selectable_protocol(n.protocol)
                    },
            decreases selector.outbounds@.len() - k,
        {
            let reference = &selector.outbounds[k];
            proof {
                assert(refs[k as int] == utf8_bytes(reference@));
                assert(is_model_node_tag(model.nodes@, texts_bytes(model.selectors@[j as int].outbounds@)[k as int]));
            }
            let index = first_node_with_tag(&model.nodes, reference.as_str().as_bytes());
            let node = &model.nodes[index];
            members.push(
                SelectableNode::new(reference.clone(), node.name.clone(), selectable_of(&node.protocol)),
            );
            k += 1;
        }
        let group = SelectorGroup::new(selector.tag.clone(), selector.default.clone(), members);
        proof {
            assert forall|m: int| 0 <= m < refs.len() implies {
                let n = model.nodes@[first_node_index(model.nodes@, refs[m])];
                &&& (#[trigger] group@.nodes[m]).id == refs[m]
                &&& group@.nodes[m].name == utf8_bytes(n.name@)
                &&& group@.nodes[m].protocol == selectable_protocol(n.protocol)
            } by {
                assert(group@.nodes[m] == members@[m]@);
            }
        }
        groups.push(group);
        j += 1;
    }
    SelectorCatalog::new(groups)
}

/// A rendered configuration with what will be known of it once it is written.
pub struct PreparedConfig {
    pub rendered: RenderedConfig,
    pub selector_catalog: SelectorCatalog,
    pub node_count: usize,
    pub selector_count: usize,
    pub rule_count: usize,
}

/// Renders a normalized subscription and builds its selector catalog; the
/// rule count includes the two rules smart routing adds.
pub fn prepare_sanitized_config(
    model: &NormalizedSubscription,
    template: ClientInboundTemplate,
    routing: Option<RoutingMode>,
    resources: Option<&RoutingRuleResources>,
) -> (prepared: PreparedConfig)
    requires
        routing is Some ==> resources is Some,
        references_resolve(*model),
        model.rules@.len() <= MAX_ROUTE_RULES,
    ensures
        rendered_matches(
            prepared.rendered,
            *model,
            template,
            routing,
            match resources {
                Some(r) => Some(*r),
                None => None,
            },
        ),
        prepared.selector_catalog@.groups.len() == model.selectors@.len(),
        forall|j: int|
            0 <= j < model.selectors@.len() ==> group_matches(
                #[trigger] prepared.selector_catalog@.groups[j],
                model.selectors@[j],
                model.nodes@,
            ),
        prepared.node_count == model.nodes@.len(),
        prepared.selector_count == model.selectors@.len(),
        prepared.rule_count == model.rules@.len() + if routing == Some(RoutingMode::Smart) {
            2int
        } else {
            0int
        },
{
    let selector_catalog = build_selector_catalog(model);
    let generated: usize = match routing {
        Some(RoutingMode::Smart) => 2,
        _ => 0,
    };
    let rendered = RenderedConfig::new(model, template, routing, resources);
    PreparedConfig {
        rendered,
        selector_catalog,
        node_count: model.nodes.len(),
        selector_count: model.selectors.len(),
        rule_count: model.rules.len() + generated,
    }
}

/// A sanitized configuration: the bytes the data plane runs, and the catalog of
/// its selectors.
pub struct SanitizedDataPlaneConfig {
    json: Vec<u8>,
    selector_catalog: SelectorCatalog,
    node_count: usize,
    selector_count: usize,
    rule_count: usize,
}

impl SanitizedDataPlaneConfig {
    pub closed spec fn spec_json(&self) -> Seq<u8> {
        self.json@
    }

    pub closed spec fn spec_catalog(&self) -> crate::data_plane_nodes::CatalogView {
        self.selector_catalog@
    }

    pub closed spec fn spec_counts(&self) -> (usize, usize, usize) {
        (self.node_count, self.selector_count, self.rule_count)
    }

    pub fn with_json<R, F: FnOnce(&[u8]) -> R>(&self, consumer: F) -> (r: R)
        requires
            forall|b: &[u8]| #[trigger] consumer.requires((b,)),
        ensures
            exists|b: &[u8]| b@ == self.spec_json() && #[trigger] consumer.ensures((b,), r),
    {
        consumer(self.json.as_slice())
    }

    pub fn json_bytes(&self) -> (n: usize)
        ensures
            n == self.spec_json().len(),
    {
        self.json.len()
    }

    pub fn selector_catalog(&self) -> (v: &SelectorCatalog)
        ensures
            v@ == self.spec_catalog(),
    {
        &self.selector_catalog
    }

    pub fn node_count(&self) -> (n: usize)
        ensures
            n == self.spec_counts().0,
    {
        self.node_count
    }

    pub fn selector_count(&self) -> (n: usize)
        ensures
            n == self.spec_counts().1,
    {
        self.selector_count
    }

    pub fn rule_count(&self) -> (n: usize)
        ensures
            n == self.spec_counts().2,
    {
        self.rule_count
    }

    /// Overwrites the configuration bytes and forgets them.
    pub fn clear(&mut self)
        ensures
            final(self).spec_json().len() == 0,
            final(self).spec_catalog() == old(self).spec_catalog(),
            final(self).spec_counts() == old(self).spec_counts(),
    {
        crate::secret_store::zeroize_bytes(&mut self.json);
    }

    pub fn is_cleared(&self) -> (r: bool)
        ensures
            r == (self.spec_json().len() == 0),
    {
        self.json.len() == 0
    }
}

/// `$`
pub open spec fn root_path() -> Seq<u8> {
    seq![36u8]
}

/// Completes a prepared configuration with its bytes, as written out: refused
/// when writing failed (`None`) or the bytes exceed the size limit.
pub fn finish_sanitized_config(prepared: PreparedConfig, json: Option<Vec<u8>>) -> (r: Result<
    SanitizedDataPlaneConfig,
    DataPlaneConfigError,
>)
    ensures
        json is None ==> (r matches Err(e) && is_error_at(
            e,
            DataPlaneConfigErrorCode::Serialization,
            root_path(),
        )),
        json matches Some(bytes) ==> (bytes@.len() > MAX_SUBSCRIPTION_CONFIG_BYTES <==> r is Err),
        json matches Some(bytes) && bytes@.len() > MAX_SUBSCRIPTION_CONFIG_BYTES ==> (r matches Err(
            e,
        ) && is_error_at(e, DataPlaneConfigErrorCode::ResourceLimit, root_path())),
        r matches Ok(config) ==> {
            &&& json matches Some(bytes) && config.spec_json() == bytes@
            &&& config.spec_catalog() == prepared.selector_catalog@
            &&& config.spec_counts() == (
                prepared.node_count,
                prepared.selector_count,
                prepared.rule_count,
            )
        },
{
    let root: Vec<u8> = vec![36u8];
    proof {
        assert(root@ =~= root_path());
    }
    let json = match json {
        Some(json) => json,
        None => return Err(DataPlaneConfigError::at(DataPlaneConfigErrorCode::Serialization, &root)),
    };
    if json.len() > MAX_SUBSCRIPTION_CONFIG_BYTES {
        return Err(DataPlaneConfigError::at(DataPlaneConfigErrorCode::ResourceLimit, &root));
    }
    Ok(
        SanitizedDataPlaneConfig {
            json,
            selector_catalog: prepared.selector_catalog,
            node_count: prepared.node_count,
            selector_count: prepared.selector_count,
            rule_count: prepared.rule_count,
        },
    )
}

/// Checks the size of a subscription before it is read.
pub fn check_subscription_input(length: usize) -> (r: Result<(), DataPlaneConfigError>)
    ensures
        length == 0 ==> (r matches Err(e) && is_error_at(
            e,
            DataPlaneConfigErrorCode::EmptyInput,
            root_path(),
        )),
        length > MAX_SUBSCRIPTION_CONFIG_BYTES ==> (r matches Err(e) && is_error_at(
            e,
            DataPlaneConfigErrorCode::InputTooLarge,
            root_path(),
        )),
        r is Ok <==> 1 <= length <= MAX_SUBSCRIPTION_CONFIG_BYTES,
{
    let root: Vec<u8> = vec![36u8];
    proof {
        assert(root@ =~= root_path());
    }
    if length == 0 {
        return Err(DataPlaneConfigError::at(DataPlaneConfigErrorCode::EmptyInput, &root));
    }
    if length > MAX_SUBSCRIPTION_CONFIG_BYTES {
        return Err(DataPlaneConfigError::at(DataPlaneConfigErrorCode::InputTooLarge, &root));
    }
    Ok(())
}

/// The path of a structure error, from the path a deserializer reports: `$`
/// for the root, `$` before an index, `$.` before a field.
pub open spec fn structure_error_path(path: Seq<u8>) -> Seq<u8> {
    if path.len() == 0 || path == seq![46u8] {
        root_path()
    } else if path[0] == 91 {
        root_path() + path
    } else {
        seq![36u8, 46u8] + path
    }
}

/// The error for an input whose structure the deserializer refused at
/// `path`; the path must be ASCII, as deserializer paths of accepted field
/// names are.
pub fn structure_error_at(path: &str) -> (e: DataPlaneConfigError)
    requires
        all_ascii(utf8_bytes(path@)),
    ensures
        is_error_at(
            e,
            DataPlaneConfigErrorCode::InvalidStructure,
            structure_error_path(utf8_bytes(path@)),
        ),
{
    let bytes = path.as_bytes();
    let mut full: Vec<u8> = vec![36u8];
    if bytes.len() == 0 || (bytes.len() == 1 && bytes[0] == 46) {
        proof {
            assert(full@ =~= root_path());
            if bytes@.len() == 1 {
                assert(bytes@ =~= seq![46u8]);
            }
        }
        return DataPlaneConfigError::at(DataPlaneConfigErrorCode::InvalidStructure, &full);
    }
    if bytes[0] != 91 {
        full.push(46u8);
    }
    let start = full.len();
    push_all(&mut full, bytes);
    proof {
        if bytes@ == seq![46u8] {
            assert(bytes@.len() == 1);
        }
        if bytes@[0] == 91 {
            assert(full@ =~= root_path() + bytes@);
        } else {
            assert(full@ =~= seq![36u8, 46u8] + bytes@);
        }
    }
    DataPlaneConfigError::at(DataPlaneConfigErrorCode::InvalidStructure, &full)
}

/// What the standard base64 engine (with padding) decodes `input` to; `None`
/// where it refuses the input.
pub uninterp spec fn standard_base64_decoded(input: Seq<u8>) -> Option<Seq<u8>>;

/// What the URL-safe base64 engine without padding decodes `input` to.
pub uninterp spec fn url_safe_base64_decoded(input: Seq<u8>) -> Option<Seq<u8>>;

/// A line without the `\r` of a `\r\n` ending.
pub open spec fn without_carriage_return(line: Seq<char>) -> Seq<char> {
    if line.len() > 0 && line.last() == '\r' {
        line.drop_last()
    } else {
        line
    }
}

/// The lines of `text` once `current` was read of the line being read: each
/// `\n` ends a line, dropping a `\r` before it; a last line without `\n`
/// counts unless it is empty.
pub open spec fn lines_from(text: Seq<char>, current: Seq<char>) -> Seq<Seq<char>>
    decreases text.len(),
{
    if text.len() == 0 {
        if current.len() == 0 {
            Seq::empty()
        } else {
            seq![current]
        }
    } else if text[0] == '\n' {
        seq![without_carriage_return(current)] + lines_from(text.drop_first(), Seq::empty())
    } else {
        lines_from(text.drop_first(), current.push(text[0]))
    }
}

/// The lines of a text as `str::lines` gives them: split at `\n` or `\r\n`,
/// without the endings, a final ending giving no empty last line.
pub open spec fn lines_of(text: Seq<char>) -> Seq<Seq<char>> {
    lines_from(text, Seq::empty())
}

/// Whether `char::is_whitespace` holds of `c`: the characters with the
/// Unicode White_Space property.
pub open spec fn is_white_space(c: char) -> bool {
    let u = c as u32;
    ||| 0x09 <= u <= 0x0D
    ||| u == 0x20
    ||| u == 0x85
    ||| u == 0xA0
    ||| u == 0x1680
    ||| 0x2000 <= u <= 0x200A
    ||| u == 0x2028
    ||| u == 0x2029
    ||| u == 0x202F
    ||| u == 0x205F
    ||| u == 0x3000
}

/// The text without its leading white space.
pub open spec fn trimmed_start(text: Seq<char>) -> Seq<char>
    decreases text.len(),
{
    if text.len() > 0 && is_white_space(text[0]) {
        trimmed_start(text.drop_first())
    } else {
        text
    }
}

/// The text without its trailing white space.
pub open spec fn trimmed_end(text: Seq<char>) -> Seq<char>
    decreases text.len(),
{
    if text.len() > 0 && is_white_space(text.last()) {
        trimmed_end(text.drop_last())
    } else {
        text
    }
}

/// A text without the leading and trailing white space that `str::trim`
/// removes.
pub open spec fn trimmed(text: Seq<char>) -> Seq<char> {
    trimmed_end(trimmed_start(text))
}

/// The name-value pairs of an `application/x-www-form-urlencoded` query, as
/// `form_urlencoded::parse` decodes them, in order.
pub uninterp spec fn query_pairs_of(query: Seq<char>) -> Seq<(Seq<char>, Seq<char>)>;

/// `base64::Engine::decode` with the standard engine.
#[verifier::external_body]
pub(crate) fn decode_standard_base64(input: &[u8]) -> (r: Option<Vec<u8>>)
    ensures
        match standard_base64_decoded(input@) {
            Some(bytes) => r matches Some(v) && v@ == bytes,
            None => r is None,
        },
{
    base64::Engine::decode(&base64::engine::general_purpose::STANDARD, input).ok()
}

/// `base64::Engine::decode` with the URL-safe engine without padding.
#[verifier::external_body]
fn decode_url_safe_base64(input: &[u8]) -> (r: Option<Vec<u8>>)
    ensures
        match url_safe_base64_decoded(input@) {
            Some(bytes) => r matches Some(v) && v@ == bytes,
            None => r is None,
        },
{
    base64::Engine::decode(&base64::engine::general_purpose::URL_SAFE_NO_PAD, input).ok()
}

/// `str::lines`, each line copied out.
#[verifier::external_body]
fn split_lines(text: &str) -> (r: Vec<String>)
    ensures
        r@.len() == lines_of(text@).len(),
        forall|i: int| 0 <= i < r@.len() ==> (#[trigger] r@[i])@ == lines_of(text@)[i],
{
    text.lines().map(str::to_owned).collect()
}

/// `str::trim`, copied out: the text without the leading and trailing
/// characters for which `char::is_whitespace` holds.
#[verifier::external_body]
pub(crate) fn trim_text(text: &str) -> (r: String)
    ensures
        r@ == trimmed(text@),
{
    text.trim().to_owned()
}

/// `form_urlencoded::parse` on a query, which is what `Url::query_pairs` reads.
#[verifier::external_body]
fn parse_query_pairs(query: &str) -> (r: Vec<(String, String)>)
    ensures
        r@.len() == query_pairs_of(query@).len(),
        forall|i: int|
            0 <= i < r@.len() ==> (#[trigger] r@[i]).0@ == query_pairs_of(query@)[i].0
                && r@[i].1@ == query_pairs_of(query@)[i].1,
{
    url::form_urlencoded::parse(query.as_bytes()).map(|(k, v)| (k.into_owned(), v.into_owned())).collect()
}

pub open spec fn hex_value(b: u8) -> int {
    if 48 <= b <= 57 {
        b - 48
    } else if 97 <= b <= 102 {
        b - 87
    } else {
        b - 55
    }
}

/// Percent-decoding: `%` and two hexadecimal digits become the byte they spell;
/// every other byte, a `%` without two digits after it included, stays.
pub open spec fn percent_decoded(s: Seq<u8>) -> Seq<u8>
    decreases s.len(),
{
    if s.len() == 0 {
        s
    } else if s[0] == 37 && s.len() >= 3 && crate::text::is_hex_digit(s[1])
        && crate::text::is_hex_digit(s[2]) {
        seq![(hex_value(s[1]) * 16 + hex_value(s[2])) as u8] + percent_decoded(s.subrange(3, s.len() as int))
    } else {
        seq![s[0]] + percent_decoded(s.drop_first())
    }
}

/// `percent_encoding::percent_decode(..).decode_utf8()`: the percent-decoded
/// bytes, where they are valid UTF-8.
#[verifier::external_body]
fn percent_decode_text(bytes: &[u8]) -> (r: Option<String>)
    ensures
        r is Some <==> vstd::utf8::valid_utf8(percent_decoded(bytes@)),
        r matches Some(decoded) ==> utf8_bytes(decoded@) == percent_decoded(bytes@),
{
    percent_encoding::percent_decode(bytes).decode_utf8().ok().map(|decoded| decoded.into_owned())
}

/// The value of a dotted-quad part: one to three decimal digits without a
/// leading zero, at most 255.
pub open spec fn octet_value(s: Seq<u8>) -> Option<u8> {
    if 1 <= s.len() <= 3 && crate::persistence::all_digits(s) && !(s.len() > 1 && s[0] == 48)
        && crate::persistence::decimal_value(s) <= 255 {
        Some(crate::persistence::decimal_value(s) as u8)
    } else {
        None
    }
}

/// The index of the first `.` at or after `i`, or the length.
pub open spec fn next_dot(t: Seq<u8>, i: int) -> int
    decreases t.len() - i,
{
    if i < 0 || i >= t.len() {
        t.len() as int
    } else if t[i] == 46 {
        i
    } else {
        next_dot(t, i + 1)
    }
}

/// What `Ipv4Addr::from_str` reads from a text: exactly four dot-separated
/// octets.
pub open spec fn parsed_ipv4(t: Seq<u8>) -> Option<Seq<u8>> {
    let d0 = next_dot(t, 0);
    let d1 = next_dot(t, d0 + 1);
    let d2 = next_dot(t, d1 + 1);
    let d3 = next_dot(t, d2 + 1);
    if d0 < t.len() && d1 < t.len() && d2 < t.len() && d3 == t.len() {
        match (
            octet_value(t.subrange(0, d0)),
            octet_value(t.subrange(d0 + 1, d1)),
            octet_value(t.subrange(d1 + 1, d2)),
            octet_value(t.subrange(d2 + 1, t.len() as int)),
        ) {
            (Some(a), Some(b), Some(c), Some(d)) => Some(seq![a, b, c, d]),
            _ => None,
        }
    } else {
        None
    }
}

proof fn lemma_next_dot(t: Seq<u8>, i: int)
    requires
        0 <= i <= t.len(),
    ensures
        i <= next_dot(t, i) <= t.len(),
        next_dot(t, i) < t.len() ==> t[next_dot(t, i)] == 46,
        forall|k: int| i <= k < next_dot(t, i) ==> t[k] != 46,
    decreases t.len() - i,
{
    if i < t.len() && t[i] != 46 {
        lemma_next_dot(t, i + 1);
    }
}

fn find_dot(t: &[u8], start: usize) -> (d: usize)
    requires
        start <= t@.len(),
    ensures
        d as int == next_dot(t@, start as int),
        start <= d <= t@.len(),
{
    proof {
        lemma_next_dot(t@, start as int);
    }
    let mut i = start;
    while i < t.len() && t[i] != 46
        invariant
            start <= i <= t@.len(),
            next_dot(t@, start as int) == next_dot(t@, i as int),
        decreases t@.len() - i,
    {
        i += 1;
    }
    i
}

fn octet_of(t: &[u8], from: usize, to: usize) -> (r: Option<u8>)
    requires
        from <= to <= t@.len(),
    ensures
        r == octet_value(t@.subrange(from as int, to as int)),
{
    let ghost part = t@.subrange(from as int, to as int);
    let n = to - from;
    if n < 1 || n > 3 {
        return None;
    }
    if n > 1 && t[from] == 48 {
        return None;
    }
    let mut value: u16 = 0;
    let mut i = from;
    proof {
        assert(t@.subrange(from as int, from as int) =~= Seq::<u8>::empty());
    }
    while i < to
        invariant
            from <= i <= to <= t@.len(),
            to - from <= 3,
            part == t@.subrange(from as int, to as int),
            crate::persistence::all_digits(t@.subrange(from as int, i as int)),
            value as nat == crate::persistence::decimal_value(t@.subrange(from as int, i as int)),
            value < 1000,
        decreases to - i,
    {
        let b = t[i];
        if b < 48 || b > 57 {
            proof {
                assert(part[i - from] == b);
            }
            return None;
        }
        proof {
            assert(t@.subrange(from as int, i as int + 1).drop_last() =~= t@.subrange(from as int, i as int));
            assert(crate::persistence::decimal_value(t@.subrange(from as int, i as int)) < pow_ten(
                (i - from) as nat,
            )) by {
                lemma_decimal_below(t@.subrange(from as int, i as int));
            }
            assert(pow_ten((i - from) as nat) <= 100) by {
                reveal_with_fuel(pow_ten, 4);
            }
        }
        value = value * 10 + (b - 48) as u16;
        i += 1;
    }
    proof {
        assert(t@.subrange(from as int, to as int) =~= part);
    }
    if value > 255 {
        return None;
    }
    Some(value as u8)
}

pub open spec fn pow_ten(n: nat) -> nat
    decreases n,
{
    if n == 0 {
        1
    } else {
        10 * pow_ten((n - 1) as nat)
    }
}

proof fn lemma_decimal_below(s: Seq<u8>)
    requires
        crate::persistence::all_digits(s),
    ensures
        crate::persistence::decimal_value(s) < pow_ten(s.len()),
    decreases s.len(),
{
    if s.len() > 0 {
        lemma_decimal_below(s.drop_last());
    }
}

/// `Ipv4Addr::from_str`: four octets, or `None`.
pub fn parse_ipv4(t: &[u8]) -> (r: Option<Vec<u8>>)
    ensures
        match parsed_ipv4(t@) {
            Some(octets) => r matches Some(v) && v@ == octets,
            None => r is None,
        },
{
    let n = t.len();
    let d0 = find_dot(t, 0);
    if d0 >= n {
        return None;
    }
    let d1 = find_dot(t, d0 + 1);
    if d1 >= n {
        return None;
    }
    let d2 = find_dot(t, d1 + 1);
    if d2 >= n {
        return None;
    }
    let d3 = find_dot(t, d2 + 1);
    if d3 != n {
        return None;
    }
    let a = octet_of(t, 0, d0);
    let b = octet_of(t, d0 + 1, d1);
    let c = octet_of(t, d1 + 1, d2);
    let d = octet_of(t, d2 + 1, n);
    match (a, b, c, d) {
        (Some(a), Some(b), Some(c), Some(d)) => {
            let v = vec![a, b, c, d];
            proof {
                assert(v@ =~= seq![a, b, c, d]);
            }
            Some(v)
        },
        _ => None,
    }
}

/// A VLESS user id: 36 bytes, hexadecimal digits with `-` at 8, 13, 18 and 23.
pub open spec fn valid_vless_uuid(v: Seq<u8>) -> bool {
    v.len() == 36 && forall|i: int|
        0 <= i < 36 ==> if i == 8 || i == 13 || i == 18 || i == 23 {
            #[trigger] v[i] == 45
        } else {
            crate::text::is_hex_digit(v[i])
        }
}

fn is_valid_vless_uuid(v: &[u8]) -> (r: bool)
    ensures
        r == valid_vless_uuid(v@),
{
    if v.len() != 36 {
        return false;
    }
    let mut i: usize = 0;
    while i < 36
        invariant
            i <= 36,
            v@.len() == 36,
            forall|k: int|
                0 <= k < i ==> if k == 8 || k == 13 || k == 18 || k == 23 {
                    #[trigger] v@[k] == 45
                } else {
                    crate::text::is_hex_digit(v@[k])
                },
        decreases 36 - i,
    {
        let b = v[i];
        if i == 8 || i == 13 || i == 18 || i == 23 {
            if b != 45 {
                return false;
            }
        } else if !crate::text::byte_is_hex_digit(b) {
            return false;
        }
        i += 1;
    }
    true
}

/// The query keys a VLESS line must carry, each once: `encryption`, `flow`,
/// `fp`, `mode`, `pbk`, `security`, `servername`, `sni`, `spx` and `type`.
pub open spec fn vless_query_keys() -> Seq<Seq<char>> {
    seq![
        "encryption"@,
        "flow"@,
        "fp"@,
        "mode"@,
        "pbk"@,
        "security"@,
        "servername"@,
        "sni"@,
        "spx"@,
        "type"@,
    ]
}

/// The value of the first pair named `key`.
pub open spec fn query_value(pairs: Seq<(Seq<char>, Seq<char>)>, key: Seq<char>) -> Option<Seq<char>> {
    if exists|i: int| 0 <= i < pairs.len() && #[trigger] pairs[i].0 == key {
        Some(
            pairs[choose|i: int|
                0 <= i < pairs.len() && #[trigger] pairs[i].0 == key && forall|k: int|
                    0 <= k < i ==> #[trigger] pairs[k].0 != key].1,
        )
    } else {
        None
    }
}

pub open spec fn query_keys_distinct(pairs: Seq<(Seq<char>, Seq<char>)>) -> bool {
    forall|i: int, j: int| 0 <= i < j < pairs.len() ==> #[trigger] pairs[i].0 != #[trigger] pairs[j].0
}

/// The query of a VLESS line is the fixed REALITY profile: exactly the expected
/// keys, with the fixed values and the same server name twice.
pub open spec fn vless_query_accepted(pairs: Seq<(Seq<char>, Seq<char>)>) -> bool {
    &&& pairs.len() == 10
    &&& forall|k: int| 0 <= k < 10 ==> (#[trigger] query_value(pairs, vless_query_keys()[k])) is Some
    &&& query_value(pairs, "encryption"@) == Some("none"@)
    &&& query_value(pairs, "flow"@) == Some("xtls-rprx-vision"@)
    &&& query_value(pairs, "fp"@) == Some("chrome"@)
    &&& query_value(pairs, "mode"@) == Some("multi"@)
    &&& query_value(pairs, "security"@) == Some("reality"@)
    &&& query_value(pairs, "spx"@) == Some("/"@)
    &&& query_value(pairs, "type"@) == Some("tcp"@)
    &&& query_value(pairs, "servername"@) == query_value(pairs, "sni"@)
}

fn lookup_query(pairs: &Vec<(String, String)>, key: &str) -> (r: Option<usize>)
    ensures
        match query_value(query_view(pairs@), key@) {
            Some(v) => r matches Some(i) && i < pairs@.len() && pairs@[i as int].1@ == v
                && pairs@[i as int].0@ == key@,
            None => r is None,
        },
{
    let ghost view = query_view(pairs@);
    let mut i: usize = 0;
    while i < pairs.len()
        invariant
            i <= pairs@.len(),
            view == query_view(pairs@),
            view.len() == pairs@.len(),
            forall|k: int| 0 <= k < i ==> #[trigger] view[k].0 != key@,
        decreases pairs@.len() - i,
    {
        proof {
            assert(view[i as int] == (pairs@[i as int].0@, pairs@[i as int].1@));
        }
        if text_is(pairs[i].0.as_str(), key) {
            proof {
                assert(view[i as int].0 == key@);
                assert(0 <= i < view.len() && view[i as int].0 == key@ && forall|k: int|
                    0 <= k < i ==> #[trigger] view[k].0 != key@);
                let c = choose|c: int|
                    0 <= c < view.len() && #[trigger] view[c].0 == key@ && forall|k: int|
                        0 <= k < c ==> #[trigger] view[k].0 != key@;
                if c < i {
                    assert(view[c].0 != key@);
                } else if c > i {
                    assert(view[i as int].0 != key@);
                }
            }
            return Some(i);
        }
        i += 1;
    }
    None
}

pub open spec fn query_view(pairs: Seq<(String, String)>) -> Seq<(Seq<char>, Seq<char>)> {
    pairs.map_values(|p: (String, String)| (p.0@, p.1@))
}

pub open spec fn host_text(u: UrlPartsView) -> Seq<char> {
    match u.host {
        Some(h) => h,
        None => Seq::empty(),
    }
}

/// The bytes with every `+` made a space.
pub open spec fn plus_to_space(s: Seq<u8>) -> Seq<u8> {
    Seq::new(s.len(), |i: int| if s[i] == 43 { 32u8 } else { s[i] })
}

/// The display name a VLESS line's fragment gives: `+` read as a space, then
/// percent-decoded, trimmed, and kept when it is a non-empty name of at most
/// 128 bytes without control characters.
pub open spec fn node_name_of(fragment: Option<Seq<char>>) -> Option<Seq<char>> {
    match fragment {
        None => None,
        Some(f) => {
            let decoded = percent_decoded(plus_to_space(utf8_bytes(f)));
            if !vstd::utf8::valid_utf8(decoded) {
                None
            } else {
                let name = trimmed(vstd::utf8::decode_utf8(decoded));
                if name.len() == 0 || utf8_bytes(name).len() > MAX_NODE_NAME_BYTES
                    || has_control_char(utf8_bytes(name)) {
                    None
                } else {
                    Some(name)
                }
            }
        },
    }
}

/// The tag of the node on line `index`: `node-` and the line number in two
/// digits.
pub open spec fn vless_tag_bytes(index: int) -> Seq<u8> {
    seq![110u8, 111u8, 100u8, 101u8, 45u8, (48 + (index + 1) / 10) as u8, (48 + (index + 1) % 10) as u8]
}

/// Whether a VLESS line is accepted: a `vless` URL with a port, no path and no
/// password, a valid user id, an accepted server, the fixed REALITY query with
/// a dotted server name, and a 43-character public key of 32 bytes.
pub open spec fn vless_line_accepted(line: Seq<char>) -> bool {
    match url_parse(line) {
        None => false,
        Some(u) => {
            let host = lower_all(utf8_bytes(host_text(u)));
            let pairs = query_pairs_of(u.query->0);
            let key = query_value(pairs, "pbk"@)->0;
            &&& u.scheme == "vless"@
            &&& !u.cannot_be_a_base
            &&& !u.has_password
            &&& u.port_or_known_default is Some
            &&& u.path.len() == 0
            &&& u.query is Some
            &&& valid_vless_uuid(utf8_bytes(u.username))
            &&& server_accepted(host, parsed_ipv4(host))
            &&& u.port_or_known_default->0 != 0
            &&& query_keys_distinct(pairs)
            &&& vless_query_accepted(pairs)
            &&& valid_dotted_domain(lower_all(utf8_bytes(query_value(pairs, "servername"@)->0)))
            &&& utf8_bytes(key).len() == 43
            &&& url_safe_base64_decoded(utf8_bytes(key)) matches Some(decoded) && decoded.len() == 32
        },
    }
}

/// The node an accepted VLESS line at `index` becomes.
pub open spec fn vless_node_matches(node: Node, line: Seq<char>, index: int) -> bool {
    let u = url_parse(line)->0;
    let pairs = query_pairs_of(u.query->0);
    &&& utf8_bytes(node.tag@) == vless_tag_bytes(index)
    &&& utf8_bytes(node.name@) == match node_name_of(u.fragment) {
        Some(name) => utf8_bytes(name),
        None => vless_tag_bytes(index),
    }
    &&& utf8_bytes(node.server@) == lower_all(utf8_bytes(host_text(u)))
    &&& node.server_port == u.port_or_known_default->0
    &&& node.credential@ == u.username
    &&& (node.protocol matches NodeProtocol::Vless { reality_public_key }
        && reality_public_key@ == query_value(pairs, "pbk"@)->0)
    &&& (node.tls_server_name matches Some(name) && utf8_bytes(name@) == lower_all(
        utf8_bytes(query_value(pairs, "servername"@)->0),
    ))
}

fn decode_node_name(fragment: &Option<String>) -> (r: Option<String>)
    ensures
        match node_name_of(
            match fragment {
                Some(f) => Some(f@),
                None => None,
            },
        ) {
            Some(name) => r matches Some(n) && n@ == name,
            None => r is None,
        },
{
    let fragment = match fragment {
        Some(f) => f,
        None => return None,
    };
    let bytes = fragment.as_str().as_bytes();
    let mut replaced: Vec<u8> = Vec::new();
    let mut i: usize = 0;
    while i < bytes.len()
        invariant
            i <= bytes@.len(),
            replaced@ == plus_to_space(bytes@).subrange(0, i as int),
        decreases bytes@.len() - i,
    {
        let b = bytes[i];
        replaced.push(if b == 43 { 32u8 } else { b });
        proof {
            assert(replaced@ =~= plus_to_space(bytes@).subrange(0, i as int + 1));
        }
        i += 1;
    }
    proof {
        assert(plus_to_space(bytes@).subrange(0, bytes@.len() as int) =~= plus_to_space(bytes@));
    }
    let decoded = match percent_decode_text(replaced.as_slice()) {
        Some(decoded) => decoded,
        None => return None,
    };
    proof {
        vstd::utf8::encode_utf8_decode_utf8(decoded@);
    }
    let name = trim_text(decoded.as_str());
    let name_bytes = name.as_str().as_bytes();
    if name_bytes.len() == 0 || name_bytes.len() > MAX_NODE_NAME_BYTES || bytes_have_control_char(
        name_bytes,
    ) {
        proof {
            if name_bytes@.len() == 0 {
                crate::text::lemma_utf8_bytes_injective(name@, Seq::<char>::empty());
                assert(utf8_bytes(Seq::<char>::empty()) =~= Seq::<u8>::empty());
            }
        }
        return None;
    }
    proof {
        if name@.len() == 0 {
            assert(utf8_bytes(name@) =~= Seq::<u8>::empty());
        }
    }
    Some(name)
}

fn vless_tag(index: usize) -> (tag: String)
    requires
        index < 99,
    ensures
        utf8_bytes(tag@) == vless_tag_bytes(index as int),
{
    let number = index + 1;
    let bytes = vec![
        110u8,
        111u8,
        100u8,
        101u8,
        45u8,
        (48 + number / 10) as u8,
        (48 + number % 10) as u8,
    ];
    proof {
        assert(bytes@ =~= vless_tag_bytes(index as int));
    }
    string_from_ascii(bytes)
}

fn query_keys_are_distinct(pairs: &Vec<(String, String)>) -> (r: bool)
    ensures
        r == query_keys_distinct(query_view(pairs@)),
{
    let ghost pv = query_view(pairs@);
    let mut j: usize = 0;
    while j < pairs.len()
        invariant
            j <= pairs@.len(),
            pv == query_view(pairs@),
            pv.len() == pairs@.len(),
            forall|a: int, b: int| 0 <= a < b < j ==> #[trigger] pv[a].0 != #[trigger] pv[b].0,
        decreases pairs@.len() - j,
    {
        let mut k: usize = 0;
        while k < j
            invariant
                k <= j < pairs@.len(),
                pv == query_view(pairs@),
                pv.len() == pairs@.len(),
                forall|a: int| 0 <= a < k ==> #[trigger] pv[a].0 != pv[j as int].0,
            decreases j - k,
        {
            proof {
                assert(pv[k as int] == (pairs@[k as int].0@, pairs@[k as int].1@));
                assert(pv[j as int] == (pairs@[j as int].0@, pairs@[j as int].1@));
            }
            if text_is(pairs[k].0.as_str(), pairs[j].0.as_str()) {
                proof {
                    assert(pv[k as int].0 == pv[j as int].0);
                    assert(!query_keys_distinct(pv));
                }
                return false;
            }
            k += 1;
        }
        j += 1;
    }
    true
}

/// Where the public key and the server name stand in an accepted query.
#[verifier::rlimit(40)]
fn accept_vless_query(pairs: &Vec<(String, String)>) -> (r: Option<(usize, usize)>)
    ensures
        r is Some <==> vless_query_accepted(query_view(pairs@)),
        r matches Some((k, n)) ==> k < pairs@.len() && n < pairs@.len() && pairs@[k as int].1@
            == query_value(query_view(pairs@), "pbk"@)->0 && pairs@[n as int].1@ == query_value(
            query_view(pairs@),
            "servername"@,
        )->0,
{
    let ghost pv = query_view(pairs@);
    let encryption = lookup_query(pairs, "encryption");
    let flow = lookup_query(pairs, "flow");
    let fp = lookup_query(pairs, "fp");
    let mode = lookup_query(pairs, "mode");
    let pbk = lookup_query(pairs, "pbk");
    let security = lookup_query(pairs, "security");
    let servername = lookup_query(pairs, "servername");
    let sni = lookup_query(pairs, "sni");
    let spx = lookup_query(pairs, "spx");
    let kind = lookup_query(pairs, "type");
    let keys = ["encryption", "flow", "fp", "mode", "pbk", "security", "servername", "sni", "spx", "type"];
    proof {
        assert(keys@.map_values(|k: &str| k@) =~= vless_query_keys());
        let vk = vless_query_keys();
        assert(vk[0] == "encryption"@);
        assert(vk[1] == "flow"@);
        assert(vk[2] == "fp"@);
        assert(vk[3] == "mode"@);
        assert(vk[4] == "pbk"@);
        assert(vk[5] == "security"@);
        assert(vk[6] == "servername"@);
        assert(vk[7] == "sni"@);
        assert(vk[8] == "spx"@);
        assert(vk[9] == "type"@);
    }
    match (encryption, flow, fp, mode, pbk, security, servername, sni, spx, kind) {
        (Some(a), Some(b), Some(c), Some(d), Some(e), Some(f), Some(g), Some(h), Some(i), Some(t)) => {
            if pairs.len() != 10 || !text_is(pairs[a].1.as_str(), "none") || !text_is(
                pairs[b].1.as_str(),
                "xtls-rprx-vision",
            ) || !text_is(pairs[c].1.as_str(), "chrome") || !text_is(pairs[d].1.as_str(), "multi")
                || !text_is(pairs[f].1.as_str(), "reality") || !text_is(pairs[i].1.as_str(), "/")
                || !text_is(pairs[t].1.as_str(), "tcp") || !text_is(
                pairs[g].1.as_str(),
                pairs[h].1.as_str(),
            ) {
                return None;
            }
            proof {
                let vk = vless_query_keys();
                assert forall|k: int| 0 <= k < 10 implies (#[trigger] query_value(pv, vk[k])) is Some by {
                    if k == 0 {
                    } else if k == 1 {
                    } else if k == 2 {
                    } else if k == 3 {
                    } else if k == 4 {
                    } else if k == 5 {
                    } else if k == 6 {
                    } else if k == 7 {
                    } else if k == 8 {
                    } else {
                    }
                }
            }
            Some((e, g))
        },
        _ => {
            proof {
                let vk = vless_query_keys();
                if query_value(pv, "encryption"@) is None {
                    assert(query_value(pv, vk[0]) is None);
                } else if query_value(pv, "flow"@) is None {
                    assert(query_value(pv, vk[1]) is None);
                } else if query_value(pv, "fp"@) is None {
                    assert(query_value(pv, vk[2]) is None);
                } else if query_value(pv, "mode"@) is None {
                    assert(query_value(pv, vk[3]) is None);
                } else if query_value(pv, "pbk"@) is None {
                    assert(query_value(pv, vk[4]) is None);
                } else if query_value(pv, "security"@) is None {
                    assert(query_value(pv, vk[5]) is None);
                } else if query_value(pv, "servername"@) is None {
                    assert(query_value(pv, vk[6]) is None);
                } else if query_value(pv, "sni"@) is None {
                    assert(query_value(pv, vk[7]) is None);
                } else if query_value(pv, "spx"@) is None {
                    assert(query_value(pv, vk[8]) is None);
                } else {
                    assert(query_value(pv, vk[9]) is None);
                }
            }
            None
        },
    }
}

/// Reads line `index` of a VLESS subscription as a node.
#[verifier::rlimit(80)]
fn parse_vless_uri(line: &str, index: usize) -> (r: Result<Node, DataPlaneConfigError>)
    requires
        index < 99,
    ensures
        r is Ok <==> vless_line_accepted(line@),
        r matches Ok(node) ==> vless_node_matches(node, line@, index as int),
        r matches Err(e) ==> e.spec_code() == DataPlaneConfigErrorCode::InvalidStructure
            || e.spec_code() == DataPlaneConfigErrorCode::InvalidCredential || e.spec_code()
            == DataPlaneConfigErrorCode::InvalidServer || e.spec_code()
            == DataPlaneConfigErrorCode::InvalidTls,
{
    let root: Vec<u8> = vec![36u8];
    let f_lines: [u8; 6] = [46u8, 108u8, 105u8, 110u8, 101u8, 115u8];
    let base = index_path(&root, &f_lines, index);
    let url = match parse_url(line) {
        Some(url) => url,
        None => return Err(DataPlaneConfigError::at(DataPlaneConfigErrorCode::InvalidStructure, &base)),
    };
    let port = match url.port_or_known_default {
        Some(port) => port,
        None => return Err(DataPlaneConfigError::at(DataPlaneConfigErrorCode::InvalidStructure, &base)),
    };
    let query = match &url.query {
        Some(query) => query,
        None => return Err(DataPlaneConfigError::at(DataPlaneConfigErrorCode::InvalidStructure, &base)),
    };
    if !text_is(url.scheme.as_str(), "vless") || url.cannot_be_a_base || url.has_password
        || url.path.as_str().as_bytes().len() != 0 {
        proof {
            if url.path@.len() == 0 {
                assert(utf8_bytes(url.path@) =~= Seq::<u8>::empty());
            }
        }
        return Err(DataPlaneConfigError::at(DataPlaneConfigErrorCode::InvalidStructure, &base));
    }
    proof {
        if utf8_bytes(url.path@).len() == 0 {
            crate::text::lemma_utf8_bytes_injective(url.path@, Seq::<char>::empty());
            assert(utf8_bytes(Seq::<char>::empty()) =~= Seq::<u8>::empty());
        }
    }
    let f_uuid: [u8; 5] = [46u8, 117u8, 117u8, 105u8, 100u8];
    if !is_valid_vless_uuid(url.username.as_str().as_bytes()) {
        return Err(DataPlaneConfigError::at(DataPlaneConfigErrorCode::InvalidCredential, &join_path(&base, &f_uuid)));
    }
    let host = match &url.host {
        Some(host) => host.clone(),
        None => String::new(),
    };
    let lowered_host = str_to_ascii_lowercase(host.as_str());
    let address = parse_ipv4(lowered_host.as_str().as_bytes());
    let f_server: [u8; 7] = [46u8, 115u8, 101u8, 114u8, 118u8, 101u8, 114u8];
    let server = take_server(host.as_str(), &address, &join_path(&base, &f_server))?;
    let f_port: [u8; 5] = [46u8, 112u8, 111u8, 114u8, 116u8];
    validate_port(port, &join_path(&base, &f_port))?;
    let f_query: [u8; 6] = [46u8, 113u8, 117u8, 101u8, 114u8, 121u8];
    let query_path = join_path(&base, &f_query);
    let pairs = parse_query_pairs(query.as_str());
    proof {
        assert(query_view(pairs@) =~= query_pairs_of(url@.query->0));
    }
    if !query_keys_are_distinct(&pairs) {
        return Err(DataPlaneConfigError::at(DataPlaneConfigErrorCode::InvalidStructure, &query_path));
    }
    let (pbk, servername) = match accept_vless_query(&pairs) {
        Some(found) => found,
        None => return Err(DataPlaneConfigError::at(DataPlaneConfigErrorCode::InvalidTls, &query_path)),
    };
    let tls_server_name = str_to_ascii_lowercase(pairs[servername].1.as_str());
    let name_bytes = tls_server_name.as_str().as_bytes();
    if !is_valid_domain(name_bytes) || !contains_dot(name_bytes) {
        let f_servername: [u8; 11] = [46u8, 115u8, 101u8, 114u8, 118u8, 101u8, 114u8, 110u8, 97u8, 109u8, 101u8];
        return Err(DataPlaneConfigError::at(DataPlaneConfigErrorCode::InvalidTls, &join_path(&query_path, &f_servername)));
    }
    let f_pbk: [u8; 4] = [46u8, 112u8, 98u8, 107u8];
    let key_bytes = pairs[pbk].1.as_str().as_bytes();
    let decoded = match decode_url_safe_base64(key_bytes) {
        Some(decoded) => decoded,
        None => return Err(DataPlaneConfigError::at(DataPlaneConfigErrorCode::InvalidTls, &join_path(&query_path, &f_pbk))),
    };
    if key_bytes.len() != 43 || decoded.len() != 32 {
        return Err(DataPlaneConfigError::at(DataPlaneConfigErrorCode::InvalidTls, &join_path(&query_path, &f_pbk)));
    }
    let tag = vless_tag(index);
    let name = match decode_node_name(&url.fragment) {
        Some(name) => name,
        None => tag.clone(),
    };
    Ok(
        Node {
            tag,
            name,
            server,
            server_port: port,
            protocol: NodeProtocol::Vless { reality_public_key: pairs[pbk].1.clone() },
            credential: url.username.clone(),
            tls_server_name: Some(tls_server_name),
        },
    )
}

pub open spec fn is_ascii_whitespace(b: u8) -> bool {
    b == 32 || b == 9 || b == 10 || b == 12 || b == 13
}

/// The bytes without ASCII white space.
pub open spec fn without_whitespace(s: Seq<u8>) -> Seq<u8>
    decreases s.len(),
{
    if s.len() == 0 {
        s
    } else if is_ascii_whitespace(s.last()) {
        without_whitespace(s.drop_last())
    } else {
        without_whitespace(s.drop_last()).push(s.last())
    }
}

/// The trimmed lines that are not empty.
pub open spec fn nonempty_trimmed(lines: Seq<Seq<char>>) -> Seq<Seq<char>>
    decreases lines.len(),
{
    if lines.len() == 0 {
        Seq::empty()
    } else if trimmed(lines.last()).len() == 0 {
        nonempty_trimmed(lines.drop_last())
    } else {
        nonempty_trimmed(lines.drop_last()).push(trimmed(lines.last()))
    }
}

/// The lines of a VLESS subscription: the input without white space, decoded
/// as standard base64 into 1 byte to 1 MiB of UTF-8, split into lines, trimmed,
/// the empty ones left out.
pub open spec fn vless_lines(input: Seq<u8>) -> Option<Seq<Seq<char>>> {
    match standard_base64_decoded(without_whitespace(input)) {
        None => None,
        Some(decoded) => if decoded.len() == 0 || decoded.len() > MAX_SUBSCRIPTION_CONFIG_BYTES
            || !vstd::utf8::valid_utf8(decoded) {
            None
        } else {
            Some(nonempty_trimmed(lines_of(vstd::utf8::decode_utf8(decoded))))
        },
    }
}

/// Whether a VLESS subscription is accepted: one to 64 lines, each accepted.
pub open spec fn vless_input_accepted(input: Seq<u8>) -> bool {
    &&& 1 <= input.len() <= MAX_SUBSCRIPTION_CONFIG_BYTES
    &&& vless_lines(input) matches Some(lines) && {
        &&& 1 <= lines.len() <= MAX_NODES
        &&& forall|i: int| 0 <= i < lines.len() ==> vless_line_accepted(#[trigger] lines[i])
    }
}

fn strip_whitespace(input: &[u8]) -> (r: Vec<u8>)
    ensures
        r@ == without_whitespace(input@),
{
    let mut out: Vec<u8> = Vec::new();
    let mut i: usize = 0;
    while i < input.len()
        invariant
            i <= input@.len(),
            out@ == without_whitespace(input@.subrange(0, i as int)),
        decreases input@.len() - i,
    {
        let b = input[i];
        proof {
            assert(input@.subrange(0, i as int + 1).drop_last() =~= input@.subrange(0, i as int));
        }
        if !(b == 32 || b == 9 || b == 10 || b == 12 || b == 13) {
            out.push(b);
        }
        i += 1;
    }
    proof {
        assert(input@.subrange(0, input@.len() as int) =~= input@);
    }
    out
}

fn nonempty_trimmed_lines(lines: &Vec<String>) -> (r: Vec<String>)
    ensures
        r@.map_values(|l: String| l@) == nonempty_trimmed(lines@.map_values(|l: String| l@)),
{
    let ghost view = lines@.map_values(|l: String| l@);
    let mut out: Vec<String> = Vec::new();
    let mut i: usize = 0;
    while i < lines.len()
        invariant
            i <= lines@.len(),
            view == lines@.map_values(|l: String| l@),
            out@.map_values(|l: String| l@) == nonempty_trimmed(view.subrange(0, i as int)),
        decreases lines@.len() - i,
    {
        let trimmed_line = trim_text(lines[i].as_str());
        proof {
            assert(view.subrange(0, i as int + 1).drop_last() =~= view.subrange(0, i as int));
            assert(view.subrange(0, i as int + 1).last() == lines@[i as int]@);
        }
        if trimmed_line.as_str().as_bytes().len() != 0 {
            proof {
                if trimmed_line@.len() == 0 {
                    assert(utf8_bytes(trimmed_line@) =~= Seq::<u8>::empty());
                }
            }
            out.push(trimmed_line);
            proof {
                assert(out@.map_values(|l: String| l@) =~= nonempty_trimmed(view.subrange(0, i as int)).push(
                    trimmed(lines@[i as int]@),
                ));
            }
        } else {
            proof {
                crate::text::lemma_utf8_bytes_injective(trimmed_line@, Seq::<char>::empty());
                assert(utf8_bytes(Seq::<char>::empty()) =~= Seq::<u8>::empty());
            }
        }
        i += 1;
    }
    proof {
        assert(view.subrange(0, lines@.len() as int) =~= view);
    }
    out
}

/// `proxy`
pub open spec fn proxy_tag() -> Seq<char> {
    "proxy"@
}

/// Reads a VLESS subscription as a normalized subscription: one node per line,
/// all in one selector `proxy` whose default is the first, which is also where
/// traffic goes.
#[verifier::rlimit(40)]
pub fn normalize_vless_subscription(input: &[u8]) -> (r: Result<
    NormalizedSubscription,
    DataPlaneConfigError,
>)
    ensures
        input@.len() == 0 ==> (r matches Err(e) && is_error_at(
            e,
            DataPlaneConfigErrorCode::EmptyInput,
            root_path(),
        )),
        input@.len() > MAX_SUBSCRIPTION_CONFIG_BYTES ==> (r matches Err(e) && is_error_at(
            e,
            DataPlaneConfigErrorCode::InputTooLarge,
            root_path(),
        )),
        r is Ok <==> vless_input_accepted(input@),
        r matches Ok(model) ==> {
            let lines = vless_lines(input@)->0;
            &&& model.nodes@.len() == lines.len()
            &&& forall|i: int|
                0 <= i < lines.len() ==> vless_node_matches(#[trigger] model.nodes@[i], lines[i], i)
            &&& model.selectors@.len() == 1
            &&& model.selectors@[0].tag@ == proxy_tag()
            &&& model.selectors@[0].source_index == 0
            &&& texts_bytes(model.selectors@[0].outbounds@) == Seq::new(
                lines.len(),
                |i: int| utf8_bytes(model.nodes@[i].tag@),
            )
            &&& model.selectors@[0].default@ == model.nodes@[0].tag@
            &&& model.rules@.len() == 0
            &&& model.final_outbound@ == proxy_tag()
            &&& references_resolve(model)
        },
{
    check_subscription_input(input.len())?;
    let compact = strip_whitespace(input);
    let f_base64: Vec<u8> = vec![36u8, 46u8, 98u8, 97u8, 115u8, 101u8, 54u8, 52u8];
    let decoded = match decode_standard_base64(compact.as_slice()) {
        Some(decoded) => decoded,
        None => return Err(DataPlaneConfigError::at(DataPlaneConfigErrorCode::InvalidStructure, &f_base64)),
    };
    if decoded.len() == 0 || decoded.len() > MAX_SUBSCRIPTION_CONFIG_BYTES {
        return Err(DataPlaneConfigError::at(DataPlaneConfigErrorCode::InvalidStructure, &f_base64));
    }
    let f_utf8: Vec<u8> = vec![36u8, 46u8, 117u8, 116u8, 102u8, 56u8];
    let text = match str_from_utf8(decoded.as_slice()) {
        Some(text) => text,
        None => return Err(DataPlaneConfigError::at(DataPlaneConfigErrorCode::InvalidStructure, &f_utf8)),
    };
    proof {
        vstd::utf8::encode_utf8_decode_utf8(text@);
    }
    let raw_lines = split_lines(text);
    proof {
        assert(raw_lines@.map_values(|l: String| l@) =~= lines_of(text@));
    }
    let lines = nonempty_trimmed_lines(&raw_lines);
    let ghost line_view = lines@.map_values(|l: String| l@);
    proof {
        assert(line_view == vless_lines(input@)->0);
    }
    let f_lines: Vec<u8> = vec![36u8, 46u8, 108u8, 105u8, 110u8, 101u8, 115u8];
    if lines.len() == 0 || lines.len() > MAX_NODES {
        return Err(DataPlaneConfigError::at(DataPlaneConfigErrorCode::ResourceLimit, &f_lines));
    }
    let mut nodes: Vec<Node> = Vec::new();
    let mut references: Vec<String> = Vec::new();
    let mut i: usize = 0;
    while i < lines.len()
        invariant
            i <= lines@.len() <= MAX_NODES,
            line_view == lines@.map_values(|l: String| l@),
            line_view == vless_lines(input@)->0,
            vless_lines(input@) is Some,
            1 <= input@.len() <= MAX_SUBSCRIPTION_CONFIG_BYTES,
            nodes@.len() == i,
            references@.len() == i,
            forall|k: int| 0 <= k < i ==> vless_line_accepted(#[trigger] line_view[k]),
            forall|k: int| 0 <= k < i ==> vless_node_matches(#[trigger] nodes@[k], line_view[k], k),
            forall|k: int| 0 <= k < i ==> (#[trigger] references@[k])@ == nodes@[k].tag@,
        decreases lines@.len() - i,
    {
        proof {
            assert(line_view[i as int] == lines@[i as int]@);
        }
        let node = parse_vless_uri(lines[i].as_str(), i)?;
        references.push(node.tag.clone());
        nodes.push(node);
        i += 1;
    }
    let default = references[0].clone();
    let selector = Selector {
        source_index: 0,
        tag: "proxy".to_owned(),
        outbounds: references,
        default,
    };
    let model = NormalizedSubscription {
        nodes,
        selectors: vec![selector],
        rules: Vec::new(),
        final_outbound: "proxy".to_owned(),
    };
    proof {
        let sel = model.selectors@[0];
        assert(texts_bytes(sel.outbounds@) =~= Seq::new(
            line_view.len(),
            |k: int| utf8_bytes(model.nodes@[k].tag@),
        ));
        assert forall|j: int, k: int|
            0 <= j < model.selectors@.len() && 0 <= k < model.selectors@[j].outbounds@.len()
                implies is_model_node_tag(
            model.nodes@,
            #[trigger] texts_bytes(model.selectors@[j].outbounds@)[k],
        ) by {
            assert(j == 0);
            assert(node_tag_bytes(model.nodes@, k) == texts_bytes(sel.outbounds@)[k]);
        }
    }
    Ok(model)
}

} // verus!
