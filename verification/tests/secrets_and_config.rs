use telegram_gui::blob::{open_cache_key, stored_key_outcome, written_key_outcome, KEY_SECRET_NAME};
use telegram_gui::errors::CacheError;
use telegram_gui::config::{apply_env_overrides, resolve_dir, resolve_platform_defaults, AppConfig, ConfigError};
use telegram_gui::errors::SecretError;
use telegram_gui::secrets::{
    keychain_delete_outcome, keychain_read_outcome, keychain_write_outcome, KeychainSecretStore,
    KeyringFailure, MemorySecretStore, SecretStore,
};
use telegram_gui::errors::TgError;
use telegram_gui::session::{session_secret_name, session_store_outcome, SessionPersistence, PENDING_SECRET};

#[test]
fn memory_store_roundtrip() {
    let mut store = MemorySecretStore::new();
    assert!(store.get("k").expect("get").is_none());
    store.set("k", b"v").expect("set");
    assert_eq!(store.get("k").expect("get").as_deref(), Some(&b"v"[..]));
    store.delete("k").expect("delete");
    store.delete("k").expect("idempotent delete");
    assert!(store.get("k").expect("get").is_none());
}

#[test]
fn default_config_reports_missing_credentials() {
    let cfg = AppConfig::default();
    assert!(cfg.require_api_credentials().is_err());
}

#[test]
fn configured_credentials_pass() {
    let mut cfg = AppConfig::default();
    cfg.telegram.api_id = 123456;
    cfg.telegram.api_hash = "0123456789abcdef".to_string();
    assert!(cfg.require_api_credentials().is_ok());
    cfg.telegram.api_hash = String::new();
    assert_eq!(cfg.require_api_credentials(), Err(ConfigError::MissingApiCredentials));
}

#[test]
fn defaults_match_documented_values() {
    let cfg = AppConfig::default();
    assert_eq!(cfg.log.filter, "info");
    assert!(cfg.log.file);
    assert_eq!(cfg.sync.dialogs_page_size, 100);
    assert_eq!(cfg.sync.history_page_size, 50);
    assert_eq!(cfg.sync.backoff_initial_secs, 2);
    assert_eq!(cfg.sync.backoff_max_secs, 300);
    assert_eq!(cfg.telegram.api_id, 0);
}

#[test]
fn env_overrides_trim_and_parse() {
    let mut cfg = AppConfig::default();
    apply_env_overrides(&mut cfg, Some(" 123456 \n"), Some("  abcdef  "));
    assert_eq!(cfg.telegram.api_id, 123456);
    assert_eq!(cfg.telegram.api_hash, "abcdef");

    // An id that does not parse keeps the previous value.
    apply_env_overrides(&mut cfg, Some("12x"), None);
    assert_eq!(cfg.telegram.api_id, 123456);
    assert_eq!(cfg.telegram.api_hash, "abcdef");
    apply_env_overrides(&mut cfg, Some("+7"), None);
    assert_eq!(cfg.telegram.api_id, 7);
    apply_env_overrides(&mut cfg, Some("99999999999"), None);
    assert_eq!(cfg.telegram.api_id, 7);
}

#[test]
fn platform_defaults_fill_empty_values_only() {
    let mut cfg = AppConfig::default();
    resolve_platform_defaults(&mut cfg, "/home/u", "/data", "/cache");
    assert_eq!(cfg.storage.data_dir, "/data");
    assert_eq!(cfg.storage.cache_dir, "/cache");
    assert_eq!(cfg.storage.cache_max_bytes, 2 * 1024 * 1024 * 1024);
    assert_eq!(cfg.telegram.device_model, "TelegramGui (macOS)");

    let mut custom = AppConfig::default();
    custom.storage.data_dir = "/mine".to_string();
    custom.storage.cache_max_bytes = 10;
    custom.telegram.device_model = "Laptop".to_string();
    resolve_platform_defaults(&mut custom, "/home/u", "/data", "/cache");
    assert_eq!(custom.storage.data_dir, "/mine");
    assert_eq!(custom.storage.cache_dir, "/cache");
    assert_eq!(custom.storage.cache_max_bytes, 10);
    assert_eq!(custom.telegram.device_model, "Laptop");

    // Relative paths are taken relative to the base directory.
    let mut relative = AppConfig::default();
    relative.storage.data_dir = "data".to_string();
    relative.storage.cache_dir = "cache/media".to_string();
    resolve_platform_defaults(&mut relative, "/home/u/", "/data", "/cache");
    assert_eq!(relative.storage.data_dir, "/home/u/data");
    assert_eq!(relative.storage.cache_dir, "/home/u/cache/media");
    assert_eq!(resolve_dir("logs", "/srv", "/p"), "/srv/logs");
    assert_eq!(resolve_dir("", "/srv", "/p"), "/p");
    assert_eq!(resolve_dir("/abs", "/srv", "/p"), "/abs");
    assert_eq!(resolve_dir("rel", "", "/p"), "rel");
}

#[test]
fn keychain_store_uses_app_service_name() {
    // Constructing the store touches no keychain.
    let _store = KeychainSecretStore::new();
}

#[test]
fn cache_key_persists_across_reopen() {
    let mut store = MemorySecretStore::new();
    let first = open_cache_key(&mut store).expect("create");
    let stored = store.get(KEY_SECRET_NAME).expect("get").expect("stored");
    assert_eq!(stored.len(), 32);
    // A second opening finds the stored key rather than a new one.
    let _second = open_cache_key(&mut store).expect("reopen");
    assert_eq!(store.get(KEY_SECRET_NAME).expect("get").expect("stored"), stored);
    drop(first);
}

#[test]
fn store_answers_for_the_cache_key() {
    // A stored key of the right size is used; a short one is refused.
    assert!(matches!(stored_key_outcome(Ok(Some(vec![5u8; 32]))), Ok(Some(_))));
    assert!(matches!(stored_key_outcome(Ok(Some(vec![5u8; 3]))), Err(CacheError::BadKey)));
    // No key yet: a fresh one is drawn and written.
    assert!(matches!(stored_key_outcome(Ok(None)), Ok(None)));
    // A failing store is a secret-store error, never a bad key.
    assert_eq!(
        stored_key_outcome(Err(SecretError::Backend("locked".into()))).err(),
        Some(CacheError::Secret(SecretError::Backend("locked".into())))
    );
    assert!(written_key_outcome(vec![6u8; 32], Ok(())).is_ok());
    assert_eq!(
        written_key_outcome(vec![6u8; 32], Err(SecretError::Backend("denied".into()))).err(),
        Some(CacheError::Secret(SecretError::Backend("denied".into())))
    );
}

#[test]
fn bad_stored_key_is_rejected() {
    let mut store = MemorySecretStore::new();
    store.set(KEY_SECRET_NAME, &[1, 2, 3]).expect("set");
    assert!(matches!(
        open_cache_key(&mut store),
        Err(CacheError::BadKey)
    ));
}

#[test]
fn session_names() {
    assert_eq!(session_secret_name(42), "session-42");
    assert_eq!(session_secret_name(-7), "session--7");
    assert_eq!(session_secret_name(i64::MIN), format!("session-{}", i64::MIN));
    assert_eq!(PENDING_SECRET, "session-pending");
}

#[test]
fn dirty_session_flushes_once() {
    let mut store = MemorySecretStore::new();
    let mut persistence = SessionPersistence::new("session-test");
    assert!(!persistence.take_dirty(), "fresh session is clean");
    persistence.mark_dirty();
    assert!(persistence.take_dirty(), "dirty session flushes");
    assert!(persistence.write_snapshot(&mut store, b"{}").expect("write"));
    assert!(!persistence.take_dirty(), "clean session skips write");
    assert_eq!(store.get("session-test").expect("get").as_deref(), Some(&b"{}"[..]));
    persistence.mark_dirty();
    persistence.destroy(&mut store).expect("destroy");
    assert!(!persistence.take_dirty());
    assert!(store.get("session-test").expect("get").is_none());
}

#[test]
fn keychain_outcomes() {
    assert_eq!(keychain_write_outcome(Ok(())), Ok(()));
    assert_eq!(
        keychain_write_outcome(Err(KeyringFailure::Other("locked".into()))),
        Err(SecretError::Backend("locked".into()))
    );
    assert_eq!(
        keychain_write_outcome(Err(KeyringFailure::NoEntry)),
        Err(SecretError::Backend("No matching credential found".into()))
    );
    assert_eq!(keychain_read_outcome(Ok(vec![1, 2])), Ok(Some(vec![1, 2])));
    assert_eq!(keychain_read_outcome(Err(KeyringFailure::NoEntry)), Ok(None));
    assert_eq!(
        keychain_read_outcome(Err(KeyringFailure::Other("denied".into()))),
        Err(SecretError::Backend("denied".into()))
    );
    assert_eq!(keychain_delete_outcome(Err(KeyringFailure::NoEntry)), Ok(()));
    assert_eq!(
        keychain_delete_outcome(Err(KeyringFailure::Other("denied".into()))),
        Err(SecretError::Backend("denied".into()))
    );
}

#[test]
fn session_store_failures_carry_the_store_message() {
    assert_eq!(session_store_outcome(Ok(())), Ok(()));
    assert_eq!(
        session_store_outcome(Err(SecretError::Backend("locked".into()))),
        Err(TgError::Session("secret store backend error: locked".into()))
    );
}
