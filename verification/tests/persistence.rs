use orange_platform::persistence::{
    check_document_size, classify_schema_version, encode_installation_id, file_name,
    is_retained_generation, is_valid_installation_id, migrate_legacy_settings, next_generation,
    parse_generation, AppSettings, DataPlaneNodeSelectionLedger, DataPlaneRevisionLedger,
    LegacySettings, LocalePreference,
    PersistenceError, PersistenceUpdateOutcome, ReducedMotionPreference, ThemePreference,
    SETTINGS_SCHEMA_VERSION,
};
use orange_platform::plane_state::{ConnectionMode, NodeSelectionMode, RoutingMode};
use orange_platform::vpn::ConfigurationRevision;

fn revision(value: u64) -> ConfigurationRevision {
    ConfigurationRevision::new(value).unwrap()
}

#[test]
fn staging_then_committing_makes_the_candidate_current() {
    let mut ledger = DataPlaneRevisionLedger::from_stored(Some(1), None, None).unwrap();
    assert_eq!(ledger.stage_candidate(revision(2)), Ok(PersistenceUpdateOutcome::Changed));
    assert_eq!(ledger.stored_parts(), (Some(1), None, Some(2)));
    assert_eq!(
        ledger.stage_candidate(revision(3)),
        Err(PersistenceError::InvalidState)
    );
    assert_eq!(
        ledger.commit_candidate_online(revision(2)),
        Ok(PersistenceUpdateOutcome::Changed)
    );
    assert_eq!(ledger.stored_parts(), (Some(2), Some(1), None));
    assert_eq!(
        ledger.commit_candidate_online(revision(2)),
        Ok(PersistenceUpdateOutcome::Unchanged)
    );
}

#[test]
fn rejecting_a_candidate_restores_the_ledger() {
    let mut ledger = DataPlaneRevisionLedger::from_stored(Some(5), Some(4), None).unwrap();
    let before = ledger.stored_parts();
    ledger.stage_candidate(revision(6)).unwrap();
    assert_eq!(ledger.reject_candidate(revision(6)), Ok(Some(revision(5))));
    assert_eq!(ledger.stored_parts(), before);
}

#[test]
fn rollback_swaps_current_and_previous() {
    let mut ledger = DataPlaneRevisionLedger::from_stored(Some(5), Some(4), None).unwrap();
    assert_eq!(ledger.commit_rollback(revision(4)), Ok(PersistenceUpdateOutcome::Changed));
    assert_eq!(ledger.stored_parts(), (Some(4), Some(5), None));
    assert_eq!(
        ledger.commit_rollback(revision(9)),
        Err(PersistenceError::InvalidState)
    );
    assert!(DataPlaneRevisionLedger::from_stored(Some(1), Some(1), None).is_err());
}

#[test]
fn generation_files_are_named_by_twenty_digits() {
    let name = file_name(42);
    assert_eq!(name, "settings-00000000000000000042.json");
    assert_eq!(parse_generation(&name), Some(42));
    assert_eq!(parse_generation("settings-00000000000000000000.json"), None);
    assert_eq!(parse_generation("settings-42.json"), None);
    assert_eq!(parse_generation(&file_name(u64::MAX)), Some(u64::MAX));
    assert_eq!(next_generation(None), Ok(1));
    assert_eq!(next_generation(Some(7)), Ok(8));
    assert_eq!(
        next_generation(Some(u64::MAX)),
        Err(PersistenceError::GenerationOverflow)
    );
    assert!(is_retained_generation(8, 8, Some(7)));
    assert!(is_retained_generation(7, 8, Some(7)));
    assert!(!is_retained_generation(6, 8, Some(7)));
}

#[test]
fn documents_and_schema_versions() {
    assert_eq!(check_document_size(65_536), Ok(()));
    assert_eq!(
        check_document_size(65_537),
        Err(PersistenceError::DocumentTooLarge)
    );
    assert_eq!(classify_schema_version(6), Ok(None));
    assert_eq!(classify_schema_version(3), Ok(Some(3)));
    assert_eq!(classify_schema_version(0), Err(PersistenceError::CorruptData));
    assert_eq!(
        classify_schema_version(7),
        Err(PersistenceError::UnsupportedSchemaVersion {
            found: 7,
            supported: SETTINGS_SCHEMA_VERSION
        })
    );
}

#[test]
fn installation_ids_are_lower_hex() {
    let id = encode_installation_id(&[0x00, 0xab, 0x10, 0xff]);
    assert_eq!(id, "00ab10ff");
    assert!(is_valid_installation_id(&"0123456789abcdef".repeat(2)));
    assert!(!is_valid_installation_id(&"0123456789ABCDEF".repeat(2)));
    assert!(!is_valid_installation_id("abc"));
    let settings = AppSettings::new().unwrap();
    assert!(is_valid_installation_id(settings.installation_id()));
    assert_eq!(settings.schema_version(), SETTINGS_SCHEMA_VERSION);
    assert_eq!(settings.node_selection_mode(), NodeSelectionMode::Auto);
}

#[test]
fn schema_five_migration_resets_selection_and_enables_auto_mode() {
    let legacy = LegacySettings {
        schema_version: 5,
        locale: LocalePreference::EnUs,
        launch_on_startup: true,
        connection_mode: Some(ConnectionMode::Tun),
        routing_mode: Some(RoutingMode::Global),
        theme: Some(ThemePreference::Dark),
        reduced_motion: Some(ReducedMotionPreference::Reduce),
        data_plane: Some(DataPlaneRevisionLedger::from_stored(Some(3), None, None).unwrap()),
    };
    let parsed = migrate_legacy_settings(legacy, 5).unwrap();
    assert_eq!(parsed.migrated_from_schema, Some(5));
    let settings = parsed.settings;
    assert_eq!(settings.locale(), LocalePreference::EnUs);
    assert!(settings.launch_on_startup());
    assert_eq!(settings.connection_mode(), ConnectionMode::Tun);
    assert_eq!(settings.routing_mode(), RoutingMode::Global);
    assert_eq!(settings.theme(), ThemePreference::Dark);
    assert_eq!(settings.node_selection_mode(), NodeSelectionMode::Auto);
    assert!(settings.node_selection().selections().is_empty());
    assert_eq!(settings.installation_id().len(), 32);
    assert_eq!(settings.data_plane().current_revision(), Some(revision(3)));
}

#[test]
fn older_schemas_take_defaults_for_missing_fields() {
    let legacy = LegacySettings {
        schema_version: 1,
        locale: LocalePreference::ZhCn,
        launch_on_startup: false,
        connection_mode: None,
        routing_mode: None,
        theme: None,
        reduced_motion: None,
        data_plane: None,
    };
    let settings = migrate_legacy_settings(legacy, 1).unwrap().settings;
    assert_eq!(settings.connection_mode(), ConnectionMode::SystemProxy);
    assert_eq!(settings.theme(), ThemePreference::System);
    let mismatched = LegacySettings {
        schema_version: 4,
        locale: LocalePreference::ZhCn,
        launch_on_startup: false,
        connection_mode: None,
        routing_mode: None,
        theme: None,
        reduced_motion: None,
        data_plane: None,
    };
    assert_eq!(
        migrate_legacy_settings(mismatched, 4).err(),
        Some(PersistenceError::CorruptData)
    );
}

fn settings_with_selection() -> (AppSettings, DataPlaneNodeSelectionLedger) {
    let ledger = DataPlaneNodeSelectionLedger::new(
        ConfigurationRevision::new(7).expect("non-zero revision"),
        vec![("proxy".to_owned(), "node-02".to_owned())],
    )
    .expect("valid selection ledger");
    let mut settings = AppSettings::new().unwrap();
    settings.set_node_selection(ledger.clone());
    settings.set_node_selection_mode(NodeSelectionMode::Manual);
    (settings, ledger)
}

#[test]
fn current_schema_retains_selection_preferences() {
    let (settings, ledger) = settings_with_selection();
    let installation_id = settings.installation_id().to_owned();
    // The stored form of the current schema: its version, then each field.
    assert_eq!(classify_schema_version(u64::from(settings.schema_version())), Ok(None));
    let (current, previous, candidate) = settings.data_plane().stored_parts();
    let parsed = AppSettings::from_stored(
        settings.schema_version(),
        settings.locale(),
        settings.launch_on_startup(),
        settings.connection_mode(),
        settings.routing_mode(),
        settings.theme(),
        settings.reduced_motion(),
        DataPlaneRevisionLedger::from_stored(current, previous, candidate).unwrap(),
        DataPlaneNodeSelectionLedger::from_stored(
            settings.node_selection().revision().map(ConfigurationRevision::get),
            settings.node_selection().selections(),
        )
        .unwrap(),
        settings.node_selection_mode(),
        installation_id.clone(),
    )
    .expect("current settings parse");
    assert_eq!(parsed.node_selection(), &ledger);
    assert_eq!(parsed.node_selection_mode(), NodeSelectionMode::Manual);
    assert_eq!(parsed.installation_id(), installation_id);
}
