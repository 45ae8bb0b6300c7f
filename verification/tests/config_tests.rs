use whatnull::config::{new_account_profile, AppConfig, ConfigManager, StoredConfig};
use whatnull::types::{AppError, CloseBehavior};

#[test]
fn test_config_defaults() {
    let config = AppConfig::default();
    assert_eq!(config.schema_version, 1);
    assert!(!config.privacy.telemetry);
    assert!(!config.privacy.analytics);
    assert!(!config.privacy.crash_upload);
    assert_eq!(config.general.close_behavior, CloseBehavior::HideToTray);
}

#[test]
fn validate_accepts_defaults() {
    assert!(AppConfig::default().validate().is_ok());
}

#[test]
fn validate_rejects_dangling_active_profile() {
    let mut config = AppConfig::default();
    config.accounts.active_profile_id = "does-not-exist".to_string();
    assert!(config.validate().is_err());
}

#[test]
fn validate_rejects_duplicate_profile_ids() {
    let mut config = AppConfig::default();
    let duplicate = config.accounts.profiles[0].clone();
    config.accounts.profiles.push(duplicate);
    assert!(config.validate().is_err());
}

#[test]
fn validate_rejects_unsafe_profile_id() {
    let mut config = AppConfig::default();
    config.accounts.profiles[0].id = "../../etc".to_string();
    config.accounts.active_profile_id = "../../etc".to_string();
    assert!(config.validate().is_err());
}

#[test]
fn validate_rejects_out_of_range_zoom() {
    let mut config = AppConfig::default();
    config.general.zoom_level_bits = 42.0f64.to_bits();
    assert!(config.validate().is_err());
    config.general.zoom_level_bits = f64::NAN.to_bits();
    assert!(config.validate().is_err());
}

#[test]
fn validate_rejects_relative_download_directory() {
    let mut config = AppConfig::default();
    config.downloads.default_directory = Some("relative/path".to_string());
    assert!(config.validate().is_err());
    config.downloads.default_directory = Some("/tmp/downloads".to_string());
    assert!(config.validate().is_ok());
}

#[test]
fn repair_points_active_profile_at_an_existing_one() {
    let mut config = AppConfig::default();
    config.accounts.active_profile_id = "missing".to_string();
    config.repair();
    assert_eq!(config.accounts.active_profile_id, "default");
    assert!(config.validate().is_ok());
}

#[test]
fn repair_restores_an_empty_profile_list() {
    let mut config = AppConfig::default();
    config.accounts.profiles.clear();
    config.repair();
    assert!(!config.accounts.profiles.is_empty());
    assert!(config.validate().is_ok());
}

#[test]
fn permissions_default_to_calls_on_and_screen_share_off() {
    let permissions = AppConfig::default().permissions;
    assert!(permissions.microphone);
    assert!(permissions.camera);
    assert!(!permissions.screen_share);
}

fn message(e: AppError) -> String {
    match e {
        AppError::Config(m) => m,
        other => panic!("expected a configuration error, got {:?}", other),
    }
}

#[test]
fn validation_messages_name_the_broken_rule() {
    let mut config = AppConfig::default();
    config.schema_version = 7;
    assert_eq!(message(config.validate().unwrap_err()), "Unsupported schema version: 7");

    let mut config = AppConfig::default();
    config.accounts.profiles.clear();
    assert_eq!(message(config.validate().unwrap_err()), "At least one account profile is required");

    let mut config = AppConfig::default();
    config.accounts.profiles[0].avatar_color = "blue".to_string();
    assert_eq!(
        message(config.validate().unwrap_err()),
        "Avatar color must be a hex RGB value for profile default"
    );

    let mut config = AppConfig::default();
    config.accounts.profiles[0].display_name = "  ".to_string();
    assert_eq!(
        message(config.validate().unwrap_err()),
        "Profile name must be between 1 and 64 characters"
    );

    let mut config = AppConfig::default();
    config.privacy.lock_timeout_mins = 1441;
    assert_eq!(message(config.validate().unwrap_err()), "Lock timeout must not exceed 1440 minutes");

    let mut config = AppConfig::default();
    config.general.language = "en US".to_string();
    assert_eq!(message(config.validate().unwrap_err()), "Invalid language tag: en US");

    let mut config = AppConfig::default();
    config.general.zoom_level_bits = (-1.0f64).to_bits();
    assert_eq!(message(config.validate().unwrap_err()), "Zoom level must be between 0.5 and 3");
}

#[test]
fn zoom_range_is_inclusive() {
    let mut config = AppConfig::default();
    for zoom in [0.5f64, 1.25, 3.0] {
        config.general.zoom_level_bits = zoom.to_bits();
        assert!(config.validate().is_ok());
    }
    for zoom in [0.49f64, 3.01, f64::INFINITY, -0.0, 0.0] {
        config.general.zoom_level_bits = zoom.to_bits();
        assert!(config.validate().is_err());
    }
}

#[test]
fn update_refuses_an_invalid_config() {
    let mut manager =
        ConfigManager::load("/tmp/whatnull-config.json".to_string(), StoredConfig::Missing).unwrap();
    let mut candidate = manager.get().clone();
    candidate.accounts.active_profile_id = "ghost".to_string();
    assert!(manager.update(candidate).is_err());
    assert_eq!(manager.get().accounts.active_profile_id, "default");

    let mut candidate = manager.get().clone();
    candidate.general.language = "tr".to_string();
    assert!(manager.update(candidate).is_ok());
    assert_eq!(manager.get().general.language, "tr");
}

#[test]
fn load_checks_schema_then_repairs_and_validates() {
    let path = "/tmp/whatnull-config.json".to_string();
    let too_old = ConfigManager::load(
        path.clone(),
        StoredConfig::Found { schema_version: None, decoded: Ok(AppConfig::default()) },
    );
    assert_eq!(message(too_old.err().unwrap()), "Unsupported config schema version");

    let too_new = ConfigManager::load(
        path.clone(),
        StoredConfig::Found { schema_version: Some(2), decoded: Ok(AppConfig::default()) },
    );
    assert_eq!(message(too_new.err().unwrap()), "Config schema version is from a newer app version");

    let broken = ConfigManager::load(
        path.clone(),
        StoredConfig::Found { schema_version: Some(1), decoded: Err("missing field".to_string()) },
    );
    assert_eq!(message(broken.err().unwrap()), "Invalid config structure: missing field");

    let mut dangling = AppConfig::default();
    dangling.accounts.active_profile_id = "gone".to_string();
    let repaired = ConfigManager::load(
        path.clone(),
        StoredConfig::Found { schema_version: Some(1), decoded: Ok(dangling) },
    )
    .unwrap();
    assert_eq!(repaired.get().accounts.active_profile_id, "default");
    assert_eq!(repaired.config_path(), path);
}

#[test]
fn profiles_can_be_added_switched_and_removed() {
    let mut config = AppConfig::default();
    let profile = new_account_profile(1787774426, "Work".to_string(), "#123456".to_string());
    assert_eq!(profile.id, "profile-1787774426");
    assert_eq!(profile.storage_partition, "profile-1787774426");
    assert_eq!(profile.created_at, 1787774426);
    config.accounts.add_profile(profile);
    config.accounts.set_active("profile-1787774426".to_string());
    assert!(config.validate().is_ok());
    config.accounts.remove_profile("profile-1787774426");
    assert_eq!(config.accounts.profiles.len(), 1);
    assert!(config.validate().is_err());
}

#[test]
fn an_updated_config_loads_back_unchanged() {
    let path = "/tmp/whatnull-config.json".to_string();
    let mut manager = ConfigManager::load(path.clone(), StoredConfig::Missing).unwrap();
    assert!(!manager.get().privacy.telemetry);
    let mut candidate = manager.get().clone();
    candidate.general.language = "tr".to_string();
    candidate.privacy.telemetry = true;
    manager.update(candidate).unwrap();

    let stored = StoredConfig::Found {
        schema_version: Some(manager.get().schema_version as u64),
        decoded: Ok(manager.get().clone()),
    };
    let reloaded = ConfigManager::load(path, stored).unwrap();
    assert_eq!(reloaded.get().general.language, "tr");
    assert!(reloaded.get().privacy.telemetry);
    assert_eq!(reloaded.get(), manager.get());
}

#[test]
fn the_active_profile_cannot_be_deleted() {
    let mut config = AppConfig::default();
    let before = config.clone();
    match config.accounts.delete_profile("default") {
        Err(AppError::Account(m)) => assert_eq!(m, "Cannot delete the active profile"),
        other => panic!("unexpected {:?}", other),
    }
    assert_eq!(config, before);

    let profile = new_account_profile(42, "Work".to_string(), "#123456".to_string());
    config.accounts.add_profile(profile);
    assert!(config.accounts.delete_profile("profile-42").is_ok());
    assert_eq!(config.accounts.profiles.len(), 1);
    assert!(config.validate().is_ok());
}
