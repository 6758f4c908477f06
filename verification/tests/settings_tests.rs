use harnessd::settings::{
    store_path, HarnessSettings, ReadScope, ScratchStorageMode, SettingsError, SettingsStore,
    SettingsUpdateParams,
};

#[test]
fn defaults_and_updates() {
    let mut store = SettingsStore::new("/r/settings.json".to_string());
    assert_eq!(store.get().settings, HarnessSettings::default());
    assert_eq!(store.load().scratch_storage_mode, ScratchStorageMode::Runtime);
    let updated = store.update(&SettingsUpdateParams {
        scratch_storage_mode: Some(ScratchStorageMode::Temp),
        read_scope: None,
    });
    assert_eq!(updated.settings.scratch_storage_mode, ScratchStorageMode::Temp);
    assert_eq!(updated.settings.read_scope, ReadScope::CurrentContext);
    let again = store.update(&SettingsUpdateParams::default());
    assert_eq!(again.settings.scratch_storage_mode, ScratchStorageMode::Temp);
    assert_eq!(store.path(), "/r/settings.json");
    assert_eq!(store_path("/r"), "/r/settings.json");
}

#[test]
fn labels_round_trip() {
    assert_eq!(ScratchStorageMode::Runtime.as_str(), "runtime");
    assert_eq!(ScratchStorageMode::Temp.as_str(), "temp");
    assert_eq!(ReadScope::CurrentContext.as_str(), "current_context");
    assert_eq!("temp".parse::<ScratchStorageMode>(), Ok(ScratchStorageMode::Temp));
    assert_eq!(ScratchStorageMode::parse("runtime"), Ok(ScratchStorageMode::Runtime));
    assert_eq!(
        ScratchStorageMode::parse("disk"),
        Err(SettingsError::UnsupportedMode("disk".to_string()))
    );
    assert_eq!(
        SettingsError::UnsupportedMode("disk".to_string()).message(),
        "unsupported scratch storage mode: disk"
    );
    assert_eq!("current_context".parse::<ReadScope>(), Ok(ReadScope::CurrentContext));
    assert!(ReadScope::parse("all").is_err());
}
