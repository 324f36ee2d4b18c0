use rockola::config::{Config, ConfigError, ConfigVars};
use rockola::models::UpdateSettingsRequest;
use rockola::settings::{plan_update_settings, update_settings_from_stored};
use std::collections::HashMap;

fn vars() -> ConfigVars {
    ConfigVars { database_url: None, port: None, cost_per_song: None, media_root: None, yt_dlp_path: None, admin_pin: None }
}

#[test]
fn from_env_with_memory_db() {
    let mut v = vars();
    v.database_url = Some("sqlite::memory:".to_string());
    let config = Config::from_vars(v, "sqlite:/srv/rockola/data/rockola.db", Some("/work".to_string())).unwrap();
    assert!(config.database_url.contains("memory"), "database_url should contain 'memory': {:?}", config.database_url);
    assert_eq!(config.port, 3000);
    assert_eq!(config.cost_per_song, 100);
    assert_eq!(config.yt_dlp_path, "yt-dlp");
}

#[test]
fn config_resolves_relative_paths() {
    let mut v = vars();
    v.database_url = Some("sqlite:./data/r.db".to_string());
    v.media_root = Some("media".to_string());
    v.port = Some("8080".to_string());
    v.cost_per_song = Some("-7".to_string());
    v.admin_pin = Some("  ".to_string());
    let c = Config::from_vars(v, "unused", Some("/home/u/".to_string())).unwrap();
    assert_eq!(c.database_url, "sqlite:/home/u/./data/r.db");
    assert_eq!(c.media_root, "/home/u/media");
    assert_eq!(c.port, 8080);
    assert_eq!(c.cost_per_song, -7);
    assert_eq!(c.admin_pin, None);
}

#[test]
fn config_defaults_and_unreadable_numbers() {
    let mut v = vars();
    v.port = Some("70000".to_string());
    v.cost_per_song = Some("ten".to_string());
    v.media_root = Some("/abs/media".to_string());
    v.admin_pin = Some(" 42 ".to_string());
    let c = Config::from_vars(v, "sqlite:/abs/db.sqlite", None).unwrap();
    assert_eq!(c.port, 3000);
    assert_eq!(c.cost_per_song, 100);
    assert_eq!(c.database_url, "sqlite:/abs/db.sqlite");
    assert_eq!(c.media_root, "/abs/media");
    assert_eq!(c.admin_pin, Some(" 42 ".to_string()));
}

#[test]
fn config_needs_the_working_directory_for_relative_paths() {
    let v = vars();
    let e = Config::from_vars(v, "sqlite:/abs/db.sqlite", None).err().unwrap();
    assert_eq!(e, ConfigError::NoCurrentDir);
}

#[test]
fn stored_settings_with_defaults() {
    let d = update_settings_from_stored(None, None, None, None, None);
    assert!(d.enabled);
    assert_eq!(d.channel, "stable");
    assert!(d.auto_check);
    assert_eq!(d.check_interval_minutes, 720);
    assert_eq!(d.endpoint_override, None);
    let d = update_settings_from_stored(
        Some("TRUE".into()),
        Some("".into()),
        Some("0".into()),
        Some("abc".into()),
        Some("".into()),
    );
    assert!(d.enabled);
    assert_eq!(d.channel, "stable");
    assert!(!d.auto_check);
    assert_eq!(d.check_interval_minutes, 720);
    assert_eq!(d.endpoint_override, None);
}

#[test]
fn update_request_writes() {
    let req = UpdateSettingsRequest {
        enabled: Some(false),
        channel: Some("nightly".into()),
        auto_check: None,
        check_interval_minutes: Some(20000),
        endpoint_override: Some("  https://feed.example/x.json ".into()),
    };
    let w = plan_update_settings(&req);
    assert_eq!(
        w,
        vec![
            ("updates.enabled".to_string(), "false".to_string()),
            ("updates.endpointOverride".to_string(), "https://feed.example/x.json".to_string()),
        ]
    );
    let req = UpdateSettingsRequest {
        enabled: None,
        channel: Some("".into()),
        auto_check: Some(true),
        check_interval_minutes: Some(10080),
        endpoint_override: None,
    };
    let w = plan_update_settings(&req);
    assert_eq!(
        w,
        vec![
            ("updates.channel".to_string(), "stable".to_string()),
            ("updates.autoCheck".to_string(), "true".to_string()),
            ("updates.checkIntervalMinutes".to_string(), "10080".to_string()),
        ]
    );
}

#[test]
fn settings_read_back_what_was_written() {
    let mut store: HashMap<String, String> = HashMap::new();
    store.insert("updates.checkIntervalMinutes".into(), "60".into());
    let req = UpdateSettingsRequest {
        enabled: Some(false),
        channel: Some("beta".into()),
        auto_check: Some(false),
        check_interval_minutes: Some(1440),
        endpoint_override: Some(" http://x ".into()),
    };
    for (k, v) in plan_update_settings(&req) {
        store.insert(k, v);
    }
    let get = |k: &str| store.get(k).cloned();
    let d = update_settings_from_stored(
        get("updates.enabled"),
        get("updates.channel"),
        get("updates.autoCheck"),
        get("updates.checkIntervalMinutes"),
        get("updates.endpointOverride"),
    );
    assert!(!d.enabled);
    assert_eq!(d.channel, "beta");
    assert!(!d.auto_check);
    assert_eq!(d.check_interval_minutes, 1440);
    assert_eq!(d.endpoint_override, Some("http://x".to_string()));
}

#[test]
fn resolved_paths_are_absolute() {
    let mut v = vars();
    v.database_url = Some("sqlite:rel.db".to_string());
    v.media_root = Some("m".to_string());
    let c = Config::from_vars(v, "x", Some("/cwd".to_string())).unwrap();
    assert!(c.database_url.starts_with("sqlite:/"));
    assert!(c.media_root.starts_with('/'));
}
