//! The rules that a rule-resource manifest and its files must meet before a
//! data plane may use them.
//!
//! Reading the manifest and the files is the application's part; this module
//! decides what is accepted, entry by entry, in the order the store checks them.
use vstd::prelude::*;
use crate::text::{
    utf8_bytes,
    is_digit,
    is_lower,
    is_alnum,
    is_lower_hex_digit,
    is_graphic,
    has_suffix,
    occurs_at,
    lower_all,
    bytes_lt,
    byte_is_digit,
    byte_is_alnum,
    byte_is_lower_hex_digit,
    bytes_have_suffix,
    bytes_occur_at,
    bytes_less,
    bytes_equal,
    bytes_to_lower,
    text_is,
};

verus! {

pub const RULE_RESOURCE_MANIFEST_SCHEMA_VERSION: u16 = 1;

pub const PINNED_SRS_VERSION: u16 = 2;

pub const MAX_MANIFEST_BYTES: usize = 65536;

pub const MAX_RESOURCE_BYTES: u64 = 67108864;

pub const MAX_RESOURCE_COUNT: usize = 64;

pub const MAX_ID_BYTES: usize = 64;

pub const MAX_NAME_BYTES: usize = 96;

pub const MAX_SOURCE_BYTES: usize = 256;

pub const MAX_LICENSE_BYTES: usize = 128;

/// The Windows attribute bit of a reparse point.
pub const WINDOWS_REPARSE_POINT_ATTRIBUTE: u32 = 1024;

/// How many trailing windows of a database file are searched for its
/// metadata marker.
pub const MMDB_MARKER_SEARCH_WINDOWS: usize = 131072;

#[derive(Debug, Clone, Copy, PartialEq, Eq, PartialOrd, Ord, Structural)]
pub enum RuleResourceFormat {
    Srs,
    Mmdb,
}

#[derive(Debug, Clone, Copy, PartialEq, Eq, Structural)]
pub enum RuleResourceError {
    InvalidRoot,
    InvalidManifest,
    ManifestTooLarge,
    UnsupportedSchema,
    UnsupportedSingBoxVersion,
    InvalidResourceId,
    DuplicateResource,
    UnsafePath,
    MissingResource,
    PermissionDenied,
    SizeMismatch,
    HashMismatch,
    FormatMismatch,
    NoActiveManifest,
    UnknownResource,
    StateUnavailable,
}

/// An identifier: 1 to 64 bytes of lower-case letters, digits and single
/// inner `-`.
pub open spec fn valid_identifier(v: Seq<u8>) -> bool {
    &&& 1 <= v.len() <= MAX_ID_BYTES
    &&& forall|i: int|
        0 <= i < v.len() ==> is_lower(#[trigger] v[i]) || is_digit(v[i]) || (v[i] == 45 && 0 < i
            < v.len() - 1)
    &&& forall|i: int| 0 <= i < v.len() - 1 ==> !(#[trigger] v[i] == 45 && v[i + 1] == 45)
}

pub fn is_valid_identifier(v: &[u8]) -> (r: bool)
    ensures
        r == valid_identifier(v@),
{
    let n = v.len();
    if n == 0 || n > MAX_ID_BYTES {
        return false;
    }
    let mut i: usize = 0;
    while i < n
        invariant
            n == v@.len(),
            1 <= n <= MAX_ID_BYTES,
            i <= n,
            forall|k: int|
                0 <= k < i ==> is_lower(#[trigger] v@[k]) || is_digit(v@[k]) || (v@[k] == 45 && 0
                    < k < n - 1),
            forall|k: int| 0 <= k < i && k < n - 1 ==> !(#[trigger] v@[k] == 45 && v@[k + 1] == 45),
        decreases n - i,
    {
        let b = v[i];
        let ok = (97 <= b && b <= 122) || (48 <= b && b <= 57) || (b == 45 && i > 0 && i + 1 < n);
        if !ok {
            return false;
        }
        if b == 45 && v[i + 1] == 45 {
            assert(v@[i as int] == 45 && v@[i + 1] == 45);
            return false;
        }
        i += 1;
    }
    true
}

/// The identifier of one resource of a manifest.
#[derive(Debug, Clone, PartialEq, Eq, PartialOrd, Ord, Hash)]
pub struct RuleResourceId(String);

impl View for RuleResourceId {
    type V = Seq<char>;

    closed spec fn view(&self) -> Seq<char> {
        self.0@
    }
}

impl RuleResourceId {
    pub fn new(value: String) -> (r: Result<Self, RuleResourceError>)
        ensures
            valid_identifier(utf8_bytes(value@)) ==> (r matches Ok(id) && id@ == value@),
            !valid_identifier(utf8_bytes(value@)) ==> r == Err::<Self, RuleResourceError>(
                RuleResourceError::InvalidResourceId,
            ),
    {
        if !is_valid_identifier(value.as_str().as_bytes()) {
            return Err(RuleResourceError::InvalidResourceId);
        }
        Ok(RuleResourceId(value))
    }

    pub fn as_str(&self) -> (s: &str)
        ensures
            s@ == self@,
    {
        self.0.as_str()
    }
}

/// What activating a manifest reports.
#[derive(Debug, Clone, PartialEq, Eq)]
pub struct RuleResourceActivation {
    manifest_id: String,
    resource_count: usize,
}

impl RuleResourceActivation {
    pub closed spec fn spec_manifest_id(&self) -> Seq<char> {
        self.manifest_id@
    }

    pub closed spec fn spec_resource_count(&self) -> usize {
        self.resource_count
    }

    pub fn new(manifest_id: String, resource_count: usize) -> (r: Self)
        ensures
            r.spec_manifest_id() == manifest_id@,
            r.spec_resource_count() == resource_count,
    {
        RuleResourceActivation { manifest_id, resource_count }
    }

    pub fn manifest_id(&self) -> (s: &str)
        ensures
            s@ == self.spec_manifest_id(),
    {
        self.manifest_id.as_str()
    }

    pub fn resource_count(&self) -> (n: usize)
        ensures
            n == self.spec_resource_count(),
    {
        self.resource_count
    }
}

/// Where the data of a resource was built from.
#[derive(Debug, Clone)]
pub struct RuleResourceSource {
    pub repository: String,
    pub commit: String,
    pub output_commit: String,
}

/// How a resource is signed.
#[derive(Debug, Clone)]
pub struct RuleResourceSignature {
    pub status: String,
    pub algorithm: String,
    pub key_id: String,
    pub value: String,
}

/// One resource as a manifest lists it.
#[derive(Debug, Clone)]
pub struct RuleResourceEntry {
    pub id: String,
    pub name: String,
    pub format: RuleResourceFormat,
    pub format_version: u16,
    pub sing_box_version: String,
    pub sha256: String,
    pub size_bytes: u64,
    pub source: RuleResourceSource,
    pub license: String,
    pub generated_at: String,
    pub expires_at: String,
    pub signature: RuleResourceSignature,
}

/// A file name of a resource: 1 to 96 bytes of lower-case letters, digits,
/// `.`, `!` and `-`, ending in the format's extension. (Such a name is one
/// normal path component, already in lower case.)
pub open spec fn valid_resource_name(v: Seq<u8>, format: RuleResourceFormat) -> bool {
    &&& 1 <= v.len() <= MAX_NAME_BYTES
    &&& forall|i: int|
        0 <= i < v.len() ==> is_lower(#[trigger] v[i]) || is_digit(v[i]) || v[i] == 46 || v[i]
            == 33 || v[i] == 45
    &&& match format {
        RuleResourceFormat::Srs => has_suffix(v, seq![46u8, 115u8, 114u8, 115u8]),
        RuleResourceFormat::Mmdb => has_suffix(v, seq![46u8, 109u8, 109u8, 100u8, 98u8]),
    }
}

pub fn is_valid_resource_name(v: &[u8], format: RuleResourceFormat) -> (r: bool)
    ensures
        r == valid_resource_name(v@, format),
{
    let n = v.len();
    if n == 0 || n > MAX_NAME_BYTES {
        return false;
    }
    let mut i: usize = 0;
    while i < n
        invariant
            n == v@.len(),
            i <= n,
            forall|k: int|
                0 <= k < i ==> is_lower(#[trigger] v@[k]) || is_digit(v@[k]) || v@[k] == 46 || v@[k]
                    == 33 || v@[k] == 45,
        decreases n - i,
    {
        let b = v[i];
        if !((97 <= b && b <= 122) || (48 <= b && b <= 57) || b == 46 || b == 33 || b == 45) {
            return false;
        }
        i += 1;
    }
    match format {
        RuleResourceFormat::Srs => {
            let ext: Vec<u8> = vec![46u8, 115u8, 114u8, 115u8];
            bytes_have_suffix(v, ext.as_slice())
        },
        RuleResourceFormat::Mmdb => {
            let ext: Vec<u8> = vec![46u8, 109u8, 109u8, 100u8, 98u8];
            bytes_have_suffix(v, ext.as_slice())
        },
    }
}

/// Free text of 1 to `maximum` bytes of printable ASCII without `<`, `>`, `"`
/// and `'`.
pub open spec fn valid_bounded_text(v: Seq<u8>, maximum: int) -> bool {
    &&& 1 <= v.len() <= maximum
    &&& forall|i: int|
        0 <= i < v.len() ==> is_graphic(#[trigger] v[i]) && v[i] != 60 && v[i] != 62 && v[i] != 34
            && v[i] != 39
}

pub fn is_valid_bounded_text(v: &[u8], maximum: usize) -> (r: bool)
    ensures
        r == valid_bounded_text(v@, maximum as int),
{
    let n = v.len();
    if n == 0 || n > maximum {
        return false;
    }
    let mut i: usize = 0;
    while i < n
        invariant
            n == v@.len(),
            i <= n,
            forall|k: int|
                0 <= k < i ==> is_graphic(#[trigger] v@[k]) && v@[k] != 60 && v@[k] != 62 && v@[k]
                    != 34 && v@[k] != 39,
        decreases n - i,
    {
        let b = v[i];
        if !(33 <= b && b <= 126) || b == 60 || b == 62 || b == 34 || b == 39 {
            return false;
        }
        i += 1;
    }
    true
}

/// Exactly `length` lower-case hexadecimal digits.
pub open spec fn valid_lower_hex(v: Seq<u8>, length: int) -> bool {
    v.len() == length && forall|i: int| 0 <= i < v.len() ==> is_lower_hex_digit(#[trigger] v[i])
}

pub fn is_valid_lower_hex(v: &[u8], length: usize) -> (r: bool)
    ensures
        r == valid_lower_hex(v@, length as int),
{
    if v.len() != length {
        return false;
    }
    let mut i: usize = 0;
    while i < v.len()
        invariant
            i <= v@.len(),
            forall|k: int| 0 <= k < i ==> is_lower_hex_digit(#[trigger] v@[k]),
        decreases v@.len() - i,
    {
        if !byte_is_lower_hex_digit(v[i]) {
            return false;
        }
        i += 1;
    }
    true
}

/// A repository as `owner/name`: two non-empty parts of letters, digits, `.`,
/// `_` and `-`, within the bounded-text rule.
pub open spec fn valid_repository(v: Seq<u8>) -> bool {
    &&& valid_bounded_text(v, MAX_SOURCE_BYTES as int)
    &&& exists|p: int|
        0 < p < v.len() - 1 && v[p] == 47 && forall|k: int|
            0 <= k < v.len() && k != p ==> is_alnum(#[trigger] v[k]) || v[k] == 46 || v[k] == 95
                || v[k] == 45
}

pub fn is_valid_repository(v: &[u8]) -> (r: bool)
    ensures
        r == valid_repository(v@),
{
    if !is_valid_bounded_text(v, MAX_SOURCE_BYTES) {
        return false;
    }
    let n = v.len();
    let mut slash: usize = n;
    let mut i: usize = 0;
    while i < n
        invariant
            n == v@.len(),
            i <= n,
            slash == n || (slash < i && v@[slash as int] == 47),
            forall|k: int|
                0 <= k < i && k != slash ==> is_alnum(#[trigger] v@[k]) || v@[k] == 46 || v@[k]
                    == 95 || v@[k] == 45,
        decreases n - i,
    {
        let b = v[i];
        if b == 47 {
            if slash < n {
                proof {
                    assert forall|p: int|
                        0 < p < v@.len() - 1 && v@[p] == 47 implies !(forall|k: int|
                        0 <= k < v@.len() && k != p ==> is_alnum(#[trigger] v@[k]) || v@[k] == 46
                            || v@[k] == 95 || v@[k] == 45) by {
                        if p != slash {
                            assert(!is_alnum(v@[slash as int]));
                        } else {
                            assert(!is_alnum(v@[i as int]));
                        }
                    }
                }
                return false;
            }
            slash = i;
        } else if !(byte_is_alnum(b) || b == 46 || b == 95 || b == 45) {
            return false;
        }
        i += 1;
    }
    if slash == n || slash == 0 || slash + 1 == n {
        proof {
            assert forall|p: int|
                0 < p < v@.len() - 1 && v@[p] == 47 implies !(forall|k: int|
                0 <= k < v@.len() && k != p ==> is_alnum(#[trigger] v@[k]) || v@[k] == 46 || v@[k]
                    == 95 || v@[k] == 45) by {
                if slash < n {
                    assert(p != slash);
                    assert(!is_alnum(v@[slash as int]));
                } else {
                    assert(!is_alnum(v@[p]));
                }
            }
        }
        return false;
    }
    true
}

/// The value of the two decimal digits at `i`.
pub open spec fn two_digits(v: Seq<u8>, i: int) -> int {
    (v[i] - 48) * 10 + (v[i + 1] - 48)
}

pub open spec fn is_leap_year(year: int) -> bool {
    year % 400 == 0 || (year % 4 == 0 && year % 100 != 0)
}

pub open spec fn days_in_month(year: int, month: int) -> int {
    if month == 2 {
        if is_leap_year(year) {
            29
        } else {
            28
        }
    } else if month == 4 || month == 6 || month == 9 || month == 11 {
        30
    } else {
        31
    }
}

pub open spec fn timestamp_separator(i: int) -> bool {
    i == 4 || i == 7 || i == 10 || i == 13 || i == 16 || i == 19
}

/// A UTC time `YYYY-MM-DDThh:mm:ssZ` from the year 2000 on, with a day that
/// exists in its month.
pub open spec fn valid_utc_timestamp(v: Seq<u8>) -> bool {
    &&& v.len() == 20
    &&& v[4] == 45 && v[7] == 45 && v[10] == 84 && v[13] == 58 && v[16] == 58 && v[19] == 90
    &&& forall|i: int| 0 <= i < 20 && !timestamp_separator(i) ==> is_digit(#[trigger] v[i])
    &&& 2000 <= two_digits(v, 0) * 100 + two_digits(v, 2)
    &&& 1 <= two_digits(v, 5) <= 12
    &&& 1 <= two_digits(v, 8) <= days_in_month(
        two_digits(v, 0) * 100 + two_digits(v, 2),
        two_digits(v, 5),
    )
    &&& two_digits(v, 11) <= 23
    &&& two_digits(v, 14) <= 59
    &&& two_digits(v, 17) <= 59
}

fn digits_at(v: &[u8], i: usize) -> (r: u32)
    requires
        i + 1 < v@.len(),
        is_digit(v@[i as int]),
        is_digit(v@[i + 1]),
    ensures
        r == two_digits(v@, i as int),
        r <= 99,
{
    ((v[i] - 48) as u32) * 10 + ((v[i + 1] - 48) as u32)
}

pub fn is_valid_utc_timestamp(v: &[u8]) -> (r: bool)
    ensures
        r == valid_utc_timestamp(v@),
{
    if v.len() != 20 || v[4] != 45 || v[7] != 45 || v[10] != 84 || v[13] != 58 || v[16] != 58
        || v[19] != 90 {
        return false;
    }
    let mut i: usize = 0;
    while i < 20
        invariant
            v@.len() == 20,
            i <= 20,
            forall|k: int| 0 <= k < i && !timestamp_separator(k) ==> is_digit(#[trigger] v@[k]),
        decreases 20 - i,
    {
        if !(i == 4 || i == 7 || i == 10 || i == 13 || i == 16 || i == 19) && !byte_is_digit(v[i]) {
            return false;
        }
        i += 1;
    }
    proof {
        assert(is_digit(v@[0]) && is_digit(v@[1]) && is_digit(v@[2]) && is_digit(v@[3]));
        assert(is_digit(v@[5]) && is_digit(v@[6]) && is_digit(v@[8]) && is_digit(v@[9]));
        assert(is_digit(v@[11]) && is_digit(v@[12]) && is_digit(v@[14]) && is_digit(v@[15]));
        assert(is_digit(v@[17]) && is_digit(v@[18]));
    }
    let year = digits_at(v, 0) * 100 + digits_at(v, 2);
    let month = digits_at(v, 5);
    let day = digits_at(v, 8);
    if year < 2000 || month < 1 || month > 12 {
        return false;
    }
    let days = if month == 2 {
        if year % 400 == 0 || (year % 4 == 0 && year % 100 != 0) {
            29
        } else {
            28
        }
    } else if month == 4 || month == 6 || month == 9 || month == 11 {
        30
    } else {
        31
    };
    day >= 1 && day <= days && digits_at(v, 11) <= 23 && digits_at(v, 14) <= 59 && digits_at(v, 17)
        <= 59
}

/// A signature block: either the development marker with `none` everywhere, or
/// an ed25519 release signature with a key identifier and a value.
pub open spec fn valid_signature(signature: RuleResourceSignature) -> bool {
    if signature.status@ == "unsigned-development-bundle"@ {
        signature.algorithm@ == "none"@ && signature.key_id@ == "none"@ && signature.value@
            == "none"@
    } else if signature.status@ == "verified-release-signature"@ {
        &&& signature.algorithm@ == "ed25519"@
        &&& valid_identifier(utf8_bytes(signature.key_id@))
        &&& valid_bounded_text(utf8_bytes(signature.value@), 256)
        &&& signature.value@ != "none"@
    } else {
        false
    }
}

pub fn is_valid_signature(signature: &RuleResourceSignature) -> (r: bool)
    ensures
        r == valid_signature(*signature),
{
    if text_is(signature.status.as_str(), "unsigned-development-bundle") {
        text_is(signature.algorithm.as_str(), "none") && text_is(signature.key_id.as_str(), "none")
            && text_is(signature.value.as_str(), "none")
    } else if text_is(signature.status.as_str(), "verified-release-signature") {
        text_is(signature.algorithm.as_str(), "ed25519") && is_valid_identifier(
            signature.key_id.as_str().as_bytes(),
        ) && is_valid_bounded_text(signature.value.as_str().as_bytes(), 256) && !text_is(
            signature.value.as_str(),
            "none",
        )
    } else {
        false
    }
}

/// Whether every field of an entry other than its format version is well
/// formed.
pub open spec fn entry_fields_valid(entry: RuleResourceEntry) -> bool {
    &&& valid_resource_name(utf8_bytes(entry.name@), entry.format)
    &&& entry.sing_box_version@ == "1.13.14"@
    &&& 0 < entry.size_bytes <= MAX_RESOURCE_BYTES
    &&& valid_lower_hex(utf8_bytes(entry.sha256@), 64)
    &&& valid_repository(utf8_bytes(entry.source.repository@))
    &&& valid_lower_hex(utf8_bytes(entry.source.commit@), 40)
    &&& valid_lower_hex(utf8_bytes(entry.source.output_commit@), 40)
    &&& valid_bounded_text(utf8_bytes(entry.license@), MAX_LICENSE_BYTES as int)
    &&& valid_utc_timestamp(utf8_bytes(entry.generated_at@))
    &&& valid_utc_timestamp(utf8_bytes(entry.expires_at@))
    &&& bytes_lt(utf8_bytes(entry.generated_at@), utf8_bytes(entry.expires_at@))
    &&& valid_signature(entry.signature)
}

/// The verdict on one manifest entry.
pub open spec fn spec_validate_entry(entry: RuleResourceEntry) -> Result<(), RuleResourceError> {
    if !entry_fields_valid(entry) {
        Err(RuleResourceError::InvalidManifest)
    } else {
        match entry.format {
            RuleResourceFormat::Srs => if entry.format_version == PINNED_SRS_VERSION {
                Ok(())
            } else {
                Err(RuleResourceError::FormatMismatch)
            },
            RuleResourceFormat::Mmdb => if entry.format_version > 0 {
                Ok(())
            } else {
                Err(RuleResourceError::FormatMismatch)
            },
        }
    }
}

fn entry_fields_are_valid(entry: &RuleResourceEntry) -> (r: bool)
    ensures
        r == entry_fields_valid(*entry),
{
    is_valid_resource_name(entry.name.as_str().as_bytes(), entry.format) && text_is(
        entry.sing_box_version.as_str(),
        "1.13.14",
    ) && entry.size_bytes != 0 && entry.size_bytes <= MAX_RESOURCE_BYTES && is_valid_lower_hex(
        entry.sha256.as_str().as_bytes(),
        64,
    ) && is_valid_repository(entry.source.repository.as_str().as_bytes()) && is_valid_lower_hex(
        entry.source.commit.as_str().as_bytes(),
        40,
    ) && is_valid_lower_hex(entry.source.output_commit.as_str().as_bytes(), 40)
        && is_valid_bounded_text(entry.license.as_str().as_bytes(), MAX_LICENSE_BYTES)
        && is_valid_utc_timestamp(entry.generated_at.as_str().as_bytes()) && is_valid_utc_timestamp(
        entry.expires_at.as_str().as_bytes(),
    ) && bytes_less(entry.generated_at.as_str().as_bytes(), entry.expires_at.as_str().as_bytes())
        && is_valid_signature(&entry.signature)
}

/// Checks one manifest entry's fields and format version.
pub fn validate_entry(entry: &RuleResourceEntry) -> (r: Result<(), RuleResourceError>)
    ensures
        r == spec_validate_entry(*entry),
{
    if !entry_fields_are_valid(entry) {
        return Err(RuleResourceError::InvalidManifest);
    }
    match entry.format {
        RuleResourceFormat::Srs => if entry.format_version == PINNED_SRS_VERSION {
            Ok(())
        } else {
            Err(RuleResourceError::FormatMismatch)
        },
        RuleResourceFormat::Mmdb => if entry.format_version > 0 {
            Ok(())
        } else {
            Err(RuleResourceError::FormatMismatch)
        },
    }
}

/// The metadata marker of a MaxMind database: `AB CD EF` and `MaxMind.com`.
pub open spec fn mmdb_marker() -> Seq<u8> {
    seq![0xABu8, 0xCDu8, 0xEFu8, 77u8, 97u8, 120u8, 77u8, 105u8, 110u8, 100u8, 46u8, 99u8, 111u8, 109u8]
}

/// Whether the content of a file matches its format: a rule set starts with
/// `SRS` and its version byte; a database has the metadata marker in one of
/// its last 131072 windows of the marker's length.
pub open spec fn format_matches(format: RuleResourceFormat, version: u16, content: Seq<u8>) -> bool {
    match format {
        RuleResourceFormat::Srs => content.len() >= 4 && content.subrange(0, 4) == seq![
            83u8,
            82u8,
            83u8,
            (version % 256) as u8,
        ],
        RuleResourceFormat::Mmdb => exists|i: int|
            content.len() - 13 - MMDB_MARKER_SEARCH_WINDOWS <= i && occurs_at(
                content,
                mmdb_marker(),
                i,
            ),
    }
}

pub fn validate_format(entry: &RuleResourceEntry, content: &[u8]) -> (r: Result<
    (),
    RuleResourceError,
>)
    ensures
        format_matches(entry.format, entry.format_version, content@) ==> r is Ok,
        !format_matches(entry.format, entry.format_version, content@) ==> r == Err::<
            (),
            RuleResourceError,
        >(RuleResourceError::FormatMismatch),
{
    let valid = match entry.format {
        RuleResourceFormat::Srs => {
            if content.len() < 4 {
                false
            } else {
                let version = (entry.format_version % 256) as u8;
                let r = content[0] == 83 && content[1] == 82 && content[2] == 83 && content[3]
                    == version;
                proof {
                    if r {
                        assert(content@.subrange(0, 4) =~= seq![83u8, 82u8, 83u8, version]);
                    } else {
                        if content@.subrange(0, 4) == seq![83u8, 82u8, 83u8, version] {
                            assert(content@.subrange(0, 4)[0] == content@[0]);
                            assert(content@.subrange(0, 4)[1] == content@[1]);
                            assert(content@.subrange(0, 4)[2] == content@[2]);
                            assert(content@.subrange(0, 4)[3] == content@[3]);
                        }
                    }
                }
                r
            }
        },
        RuleResourceFormat::Mmdb => {
            let marker: Vec<u8> = vec![
                0xABu8,
                0xCDu8,
                0xEFu8,
                77u8,
                97u8,
                120u8,
                77u8,
                105u8,
                110u8,
                100u8,
                46u8,
                99u8,
                111u8,
                109u8,
            ];
            assert(marker@ =~= mmdb_marker());
            if content.len() < 14 {
                proof {
                    assert forall|i: int| !occurs_at(content@, mmdb_marker(), i) by {}
                }
                false
            } else {
                let last = content.len() - 14;
                let first = if last >= MMDB_MARKER_SEARCH_WINDOWS - 1 {
                    last - (MMDB_MARKER_SEARCH_WINDOWS - 1)
                } else {
                    0
                };
                let mut i: usize = first;
                let mut found = false;
                while i <= last && !found
                    invariant
                        last == content@.len() - 14,
                        last < content@.len(),
                        content@.len() == content.len(),
                        first == 0 || first + 13 + MMDB_MARKER_SEARCH_WINDOWS == content@.len(),
                        content@.len() - 13 - MMDB_MARKER_SEARCH_WINDOWS <= first,
                        first <= i <= last + 1,
                        marker@ == mmdb_marker(),
                        found ==> exists|j: int|
                            content@.len() - 13 - MMDB_MARKER_SEARCH_WINDOWS <= j && occurs_at(
                                content@,
                                mmdb_marker(),
                                j,
                            ),
                        !found ==> forall|j: int|
                            first <= j < i ==> !occurs_at(content@, mmdb_marker(), j),
                    decreases last + 1 - i,
                {
                    if bytes_occur_at(content, marker.as_slice(), i) {
                        found = true;
                    }
                    i += 1;
                }
                proof {
                    if !found {
                        assert forall|j: int|
                            content@.len() - 13 - MMDB_MARKER_SEARCH_WINDOWS <= j implies !occurs_at(
                            content@,
                            mmdb_marker(),
                            j,
                        ) by {
                            if first <= j < i {
                            } else if j > last {
                            } else if j < first {
                                if first != 0 {
                                    assert(first + 13 + MMDB_MARKER_SEARCH_WINDOWS == content@.len());
                                }
                            }
                        }
                    }
                }
                found
            }
        },
    };
    if valid {
        Ok(())
    } else {
        Err(RuleResourceError::FormatMismatch)
    }
}

/// Whether file metadata marks a link: a symbolic link, or a Windows reparse
/// point.
pub fn unsafe_path_flags(is_symlink: bool, windows_attributes: u32) -> (r: bool)
    ensures
        r == (is_symlink || windows_attributes & WINDOWS_REPARSE_POINT_ATTRIBUTE != 0),
{
    is_symlink || windows_attributes & WINDOWS_REPARSE_POINT_ATTRIBUTE != 0
}

/// Whether a resource file's Unix mode has no execute bit.
pub fn validate_non_executable_mode(mode: u32) -> (r: Result<(), RuleResourceError>)
    ensures
        mode & 73u32 == 0 ==> r is Ok,
        mode & 73u32 != 0 ==> r == Err::<(), RuleResourceError>(
            RuleResourceError::PermissionDenied,
        ),
{
    if mode & 73u32 == 0 {
        Ok(())
    } else {
        Err(RuleResourceError::PermissionDenied)
    }
}

/// Whether a shared file or directory's Unix mode lets neither the group nor
/// others write.
pub fn validate_shared_mode(mode: u32) -> (r: Result<(), RuleResourceError>)
    ensures
        mode & 18u32 == 0 ==> r is Ok,
        mode & 18u32 != 0 ==> r == Err::<(), RuleResourceError>(
            RuleResourceError::PermissionDenied,
        ),
{
    if mode & 18u32 == 0 {
        Ok(())
    } else {
        Err(RuleResourceError::PermissionDenied)
    }
}

/// The verdict on a manifest document's size before it is parsed.
pub fn check_manifest_document(len: usize) -> (r: Result<(), RuleResourceError>)
    ensures
        len == 0 ==> r == Err::<(), RuleResourceError>(RuleResourceError::InvalidManifest),
        len > MAX_MANIFEST_BYTES ==> r == Err::<(), RuleResourceError>(
            RuleResourceError::ManifestTooLarge,
        ),
        0 < len <= MAX_MANIFEST_BYTES ==> r is Ok,
{
    if len > MAX_MANIFEST_BYTES {
        Err(RuleResourceError::ManifestTooLarge)
    } else if len == 0 {
        Err(RuleResourceError::InvalidManifest)
    } else {
        Ok(())
    }
}

/// The verdict on a parsed manifest's header.
pub open spec fn spec_manifest_header(schema_version: u16, manifest_id: Seq<u8>, count: int) -> Result<
    (),
    RuleResourceError,
> {
    if schema_version != RULE_RESOURCE_MANIFEST_SCHEMA_VERSION {
        Err(RuleResourceError::UnsupportedSchema)
    } else if !valid_identifier(manifest_id) || count == 0 || count > MAX_RESOURCE_COUNT {
        Err(RuleResourceError::InvalidManifest)
    } else {
        Ok(())
    }
}

pub fn check_manifest_header(schema_version: u16, manifest_id: &str, resource_count: usize) -> (r:
    Result<(), RuleResourceError>)
    ensures
        r == spec_manifest_header(schema_version, utf8_bytes(manifest_id@), resource_count as int),
{
    if schema_version != RULE_RESOURCE_MANIFEST_SCHEMA_VERSION {
        return Err(RuleResourceError::UnsupportedSchema);
    }
    if !is_valid_identifier(manifest_id.as_bytes()) || resource_count == 0 || resource_count
        > MAX_RESOURCE_COUNT {
        return Err(RuleResourceError::InvalidManifest);
    }
    Ok(())
}

/// The entries of a manifest admitted so far: their identifiers and their
/// lower-cased file names.
pub struct ManifestAdmission {
    ids: Vec<String>,
    names: Vec<Vec<u8>>,
}

/// The admitted identifiers and names.
pub struct AdmissionView {
    pub ids: Seq<Seq<u8>>,
    pub names: Seq<Seq<u8>>,
}

impl View for ManifestAdmission {
    type V = AdmissionView;

    closed spec fn view(&self) -> AdmissionView {
        AdmissionView {
            ids: self.ids@.map_values(|s: String| utf8_bytes(s@)),
            names: self.names@.map_values(|n: Vec<u8>| n@),
        }
    }
}

/// The verdict on the next entry, given what was admitted: its identifier,
/// its fields, then that neither its lower-cased name nor its identifier was
/// seen.
pub open spec fn spec_entry_verdict(state: AdmissionView, entry: RuleResourceEntry) -> Result<
    (),
    RuleResourceError,
> {
    if !valid_identifier(utf8_bytes(entry.id@)) {
        Err(RuleResourceError::InvalidResourceId)
    } else if spec_validate_entry(entry) is Err {
        spec_validate_entry(entry)
    } else if state.names.contains(lower_all(utf8_bytes(entry.name@))) || state.ids.contains(
        utf8_bytes(entry.id@),
    ) {
        Err(RuleResourceError::DuplicateResource)
    } else {
        Ok(())
    }
}

fn contains_bytes(list: &Vec<Vec<u8>>, item: &[u8]) -> (r: bool)
    ensures
        r == list@.map_values(|n: Vec<u8>| n@).contains(item@),
{
    let ghost views = list@.map_values(|n: Vec<u8>| n@);
    let mut i: usize = 0;
    while i < list.len()
        invariant
            i <= list@.len(),
            views == list@.map_values(|n: Vec<u8>| n@),
            forall|k: int| 0 <= k < i ==> views[k] != item@,
        decreases list@.len() - i,
    {
        if bytes_equal(list[i].as_slice(), item) {
            assert(views[i as int] == item@);
            return true;
        }
        i += 1;
    }
    false
}

fn contains_text(list: &Vec<String>, item: &str) -> (r: bool)
    ensures
        r == list@.map_values(|s: String| utf8_bytes(s@)).contains(utf8_bytes(item@)),
{
    let ghost views = list@.map_values(|s: String| utf8_bytes(s@));
    let mut i: usize = 0;
    while i < list.len()
        invariant
            i <= list@.len(),
            views == list@.map_values(|s: String| utf8_bytes(s@)),
            forall|k: int| 0 <= k < i ==> views[k] != utf8_bytes(item@),
        decreases list@.len() - i,
    {
        if bytes_equal(list[i].as_str().as_bytes(), item.as_bytes()) {
            assert(views[i as int] == utf8_bytes(item@));
            return true;
        }
        i += 1;
    }
    false
}

impl ManifestAdmission {
    pub fn new() -> (r: Self)
        ensures
            r@.ids.len() == 0,
            r@.names.len() == 0,
    {
        ManifestAdmission { ids: Vec::new(), names: Vec::new() }
    }

    /// Admits the next entry of a manifest, before its file is checked. On
    /// success the entry's identifier and lower-cased name are remembered.
    pub fn accept_entry(&mut self, entry: &RuleResourceEntry) -> (r: Result<RuleResourceId, RuleResourceError>)
        ensures
            match spec_entry_verdict(old(self)@, *entry) {
                Ok(()) => r matches Ok(id) && id@ == entry.id@ && final(self)@ == (AdmissionView {
                    ids: old(self)@.ids.push(utf8_bytes(entry.id@)),
                    names: old(self)@.names.push(lower_all(utf8_bytes(entry.name@))),
                }),
                Err(e) => r == Err::<RuleResourceId, RuleResourceError>(e) && final(self)@ == old(self)@,
            },
    {
        let id = RuleResourceId::new(entry.id.clone())?;
        validate_entry(entry)?;
        let name = bytes_to_lower(entry.name.as_str().as_bytes());
        if contains_bytes(&self.names, name.as_slice()) || contains_text(
            &self.ids,
            entry.id.as_str(),
        ) {
            return Err(RuleResourceError::DuplicateResource);
        }
        self.ids.push(entry.id.clone());
        self.names.push(name);
        proof {
            assert(self@.ids =~= old(self)@.ids.push(utf8_bytes(entry.id@)));
            assert(self@.names =~= old(self)@.names.push(lower_all(utf8_bytes(entry.name@))));
        }
        Ok(id)
    }
}

} // verus!
