use orange_platform::rule_resources::{
    check_manifest_document, check_manifest_header, is_valid_identifier, is_valid_repository,
    is_valid_resource_name, is_valid_utc_timestamp, unsafe_path_flags, validate_entry,
    validate_format, validate_non_executable_mode, validate_shared_mode, ManifestAdmission,
    RuleResourceActivation, RuleResourceEntry, RuleResourceError, RuleResourceFormat,
    RuleResourceId, RuleResourceSignature, RuleResourceSource,
};

fn entry(id: &str, name: &str, format: RuleResourceFormat, version: u16) -> RuleResourceEntry {
    RuleResourceEntry {
        id: id.to_owned(),
        name: name.to_owned(),
        format,
        format_version: version,
        sing_box_version: "1.13.14".to_owned(),
        sha256: "a".repeat(64),
        size_bytes: 1024,
        source: RuleResourceSource {
            repository: "SagerNet/sing-geosite".to_owned(),
            commit: "0".repeat(40),
            output_commit: "f".repeat(40),
        },
        license: "GPL-3.0".to_owned(),
        generated_at: "2024-02-29T23:59:59Z".to_owned(),
        expires_at: "2025-01-01T00:00:00Z".to_owned(),
        signature: RuleResourceSignature {
            status: "unsigned-development-bundle".to_owned(),
            algorithm: "none".to_owned(),
            key_id: "none".to_owned(),
            value: "none".to_owned(),
        },
    }
}

#[test]
fn identifiers_are_lower_case_words_joined_by_single_dashes() {
    assert!(is_valid_identifier(b"geosite-cn"));
    assert!(!is_valid_identifier(b"geosite--cn"));
    assert!(!is_valid_identifier(b"-geosite"));
    assert!(!is_valid_identifier(b"geosite-"));
    assert!(!is_valid_identifier(b"GeoSite"));
    assert!(!is_valid_identifier(b""));
    assert_eq!(
        RuleResourceId::new("Bad".to_owned()),
        Err(RuleResourceError::InvalidResourceId)
    );
    assert_eq!(RuleResourceId::new("good-1".to_owned()).unwrap().as_str(), "good-1");
}

#[test]
fn resource_names_carry_their_format_extension() {
    assert!(is_valid_resource_name(b"geosite-cn.srs", RuleResourceFormat::Srs));
    assert!(!is_valid_resource_name(b"geosite-cn.srs", RuleResourceFormat::Mmdb));
    assert!(is_valid_resource_name(b"country.mmdb", RuleResourceFormat::Mmdb));
    assert!(!is_valid_resource_name(b"../x.srs", RuleResourceFormat::Srs));
    assert!(!is_valid_resource_name(b"Geo.srs", RuleResourceFormat::Srs));
}

#[test]
fn repositories_and_timestamps() {
    assert!(is_valid_repository(b"owner/repo.name"));
    assert!(!is_valid_repository(b"owner/repo/extra"));
    assert!(!is_valid_repository(b"/repo"));
    assert!(!is_valid_repository(b"owner/"));
    assert!(is_valid_utc_timestamp(b"2024-02-29T23:59:59Z"));
    assert!(!is_valid_utc_timestamp(b"2023-02-29T00:00:00Z"));
    assert!(!is_valid_utc_timestamp(b"1999-01-01T00:00:00Z"));
    assert!(!is_valid_utc_timestamp(b"2024-04-31T00:00:00Z"));
    assert!(!is_valid_utc_timestamp(b"2024-01-01T24:00:00Z"));
    assert!(!is_valid_utc_timestamp(b"2024-01-01 00:00:00Z"));
}

#[test]
fn entries_are_checked_field_by_field_then_by_format_version() {
    assert_eq!(validate_entry(&entry("geo", "geo.srs", RuleResourceFormat::Srs, 2)), Ok(()));
    assert_eq!(
        validate_entry(&entry("geo", "geo.srs", RuleResourceFormat::Srs, 3)),
        Err(RuleResourceError::FormatMismatch)
    );
    assert_eq!(
        validate_entry(&entry("geo", "geo.mmdb", RuleResourceFormat::Mmdb, 0)),
        Err(RuleResourceError::FormatMismatch)
    );
    let mut late = entry("geo", "geo.srs", RuleResourceFormat::Srs, 2);
    late.generated_at = "2026-01-01T00:00:00Z".to_owned();
    assert_eq!(validate_entry(&late), Err(RuleResourceError::InvalidManifest));
    let mut signed = entry("geo", "geo.srs", RuleResourceFormat::Srs, 2);
    signed.signature = RuleResourceSignature {
        status: "verified-release-signature".to_owned(),
        algorithm: "ed25519".to_owned(),
        key_id: "release-1".to_owned(),
        value: "c2lnbmF0dXJl".to_owned(),
    };
    assert_eq!(validate_entry(&signed), Ok(()));
    signed.signature.value = "none".to_owned();
    assert_eq!(validate_entry(&signed), Err(RuleResourceError::InvalidManifest));
}

#[test]
fn manifest_entries_must_be_distinct() {
    let mut admission = ManifestAdmission::new();
    let first = admission
        .accept_entry(&entry("geo", "geo.srs", RuleResourceFormat::Srs, 2))
        .unwrap();
    assert_eq!(first.as_str(), "geo");
    assert_eq!(
        admission.accept_entry(&entry("geo", "other.srs", RuleResourceFormat::Srs, 2)),
        Err(RuleResourceError::DuplicateResource)
    );
    assert_eq!(
        admission.accept_entry(&entry("other", "geo.srs", RuleResourceFormat::Srs, 2)),
        Err(RuleResourceError::DuplicateResource)
    );
    assert_eq!(
        admission.accept_entry(&entry("Bad", "bad.srs", RuleResourceFormat::Srs, 2)),
        Err(RuleResourceError::InvalidResourceId)
    );
    assert!(admission
        .accept_entry(&entry("other", "other.srs", RuleResourceFormat::Srs, 2))
        .is_ok());
}

#[test]
fn documents_and_headers() {
    assert_eq!(check_manifest_document(0), Err(RuleResourceError::InvalidManifest));
    assert_eq!(
        check_manifest_document(65_537),
        Err(RuleResourceError::ManifestTooLarge)
    );
    assert_eq!(check_manifest_document(65_536), Ok(()));
    assert_eq!(
        check_manifest_header(2, "bundle", 1),
        Err(RuleResourceError::UnsupportedSchema)
    );
    assert_eq!(
        check_manifest_header(1, "bundle", 0),
        Err(RuleResourceError::InvalidManifest)
    );
    assert_eq!(
        check_manifest_header(1, "bundle", 65),
        Err(RuleResourceError::InvalidManifest)
    );
    assert_eq!(check_manifest_header(1, "bundle", 64), Ok(()));
    let activation = RuleResourceActivation::new("bundle".to_owned(), 3);
    assert_eq!(activation.manifest_id(), "bundle");
    assert_eq!(activation.resource_count(), 3);
}

#[test]
fn file_contents_match_their_format() {
    let srs = entry("geo", "geo.srs", RuleResourceFormat::Srs, 2);
    assert_eq!(validate_format(&srs, b"SRS\x02rest"), Ok(()));
    assert_eq!(
        validate_format(&srs, b"SRS\x01rest"),
        Err(RuleResourceError::FormatMismatch)
    );
    assert_eq!(validate_format(&srs, b"SR"), Err(RuleResourceError::FormatMismatch));
    let mmdb = entry("db", "db.mmdb", RuleResourceFormat::Mmdb, 1);
    let mut content = vec![0u8; 100];
    content.extend_from_slice(b"\xAB\xCD\xEFMaxMind.com");
    content.extend_from_slice(&[1, 2, 3]);
    assert_eq!(validate_format(&mmdb, &content), Ok(()));
    assert_eq!(
        validate_format(&mmdb, &vec![0u8; 200]),
        Err(RuleResourceError::FormatMismatch)
    );
    let mut far = b"\xAB\xCD\xEFMaxMind.com".to_vec();
    far.extend(std::iter::repeat(0u8).take(131_072));
    assert_eq!(validate_format(&mmdb, &far), Err(RuleResourceError::FormatMismatch));
}

#[test]
fn file_metadata_flags() {
    assert!(unsafe_path_flags(true, 0));
    assert!(unsafe_path_flags(false, 0x0400));
    assert!(!unsafe_path_flags(false, 0x0020));
    assert_eq!(validate_non_executable_mode(0o644), Ok(()));
    assert_eq!(
        validate_non_executable_mode(0o744),
        Err(RuleResourceError::PermissionDenied)
    );
    assert_eq!(validate_shared_mode(0o755), Ok(()));
    assert_eq!(validate_shared_mode(0o775), Err(RuleResourceError::PermissionDenied));
}
