use ghd::bg::types::PRList;
use ghd::config::{Config, ConfigEntry};
use ghd::db::{plan_migration, GHD_DB_VERSION};
use ghd::gh::rest::classify_status;
use ghd::GHDError;

fn entry(key: &str, value: &str) -> ConfigEntry {
    ConfigEntry { key: String::from(key), value: String::from(value) }
}

#[test]
fn config_loads_settings_and_token() {
    let mut cfg = Config::default();
    assert!(cfg.api_token.is_none());
    let rows = vec![
        entry("theme", "dark"),
        entry("api_token", "SECRET-REDACTED"),
        entry("theme", "light"),
    ];
    cfg.init(&rows);
    assert_eq!(cfg.api_token.as_deref(), Some("SECRET-REDACTED"));
    // later rows win for a repeated key
    let theme = cfg.settings.iter().find(|e| e.key == "theme").unwrap();
    assert_eq!(theme.value, "light");
    assert_eq!(cfg.settings.len(), 2);
}

#[test]
fn config_set_api_token_updates_setting_and_projection() {
    let mut cfg = Config::default();
    let token = String::from("SECRET-REDACTED");
    cfg.set_api_token(&token).unwrap();
    assert_eq!(cfg.api_token.as_deref(), Some("SECRET-REDACTED"));
    let row = cfg.settings.iter().find(|e| e.key == "api_token").unwrap();
    assert_eq!(row.value, "SECRET-REDACTED");
    // replacing the token keeps a single row
    let token2 = String::from("other");
    cfg.set_api_token(&token2).unwrap();
    assert_eq!(cfg.api_token.as_deref(), Some("other"));
    assert_eq!(cfg.settings.iter().filter(|e| e.key == "api_token").count(), 1);
}

#[test]
fn status_codes_classify_into_the_error_taxonomy() {
    assert_eq!(classify_status(401), GHDError::CredentialInvalid);
    assert_eq!(classify_status(403), GHDError::CredentialInvalid);
    assert_eq!(classify_status(404), GHDError::ResourceNotFound);
    assert_eq!(classify_status(400), GHDError::TransientError);
    assert_eq!(classify_status(429), GHDError::TransientError);
    assert_eq!(classify_status(500), GHDError::UnknownError);
    assert_eq!(classify_status(200), GHDError::UnknownError);
}

#[test]
fn migration_plans_are_forward_only_single_steps() {
    assert_eq!(plan_migration(0).unwrap(), vec![1, 2]);
    assert_eq!(plan_migration(1).unwrap(), vec![2]);
    assert_eq!(plan_migration(GHD_DB_VERSION).unwrap(), Vec::<u32>::new());
    assert!(matches!(
        plan_migration(GHD_DB_VERSION + 1),
        Err(GHDError::SchemaFromFuture)
    ));
}

#[test]
fn error_messages_are_short_labels() {
    assert_eq!(GHDError::CredentialMissing.message(), "no credential set");
    assert_eq!(GHDError::CredentialInvalid.message(), "credential invalid");
    assert_eq!(GHDError::ResourceNotFound.message(), "resource not found");
    assert_eq!(GHDError::RepositoryNotFound.message(), "repository not found");
    assert_eq!(GHDError::NeverRefreshed.message(), "never refreshed");
    assert_eq!(GHDError::TransientError.message(), "transient error");
    assert_eq!(GHDError::UnknownError.message(), "unknown error");
    assert_eq!(GHDError::SchemaFromFuture.message(), "schema version from the future");
}

#[test]
fn pr_list_defaults_to_empty() {
    let list = PRList::default();
    assert!(list.entries.is_empty());
}
