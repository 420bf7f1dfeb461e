use erebus::config::{AppConfig, DatabaseConfig, EnvOverrides};
use erebus::strmap::StrMap;

fn secrets(pairs: &[(&str, &str)]) -> Option<StrMap<String>> {
    let mut m = StrMap::new();
    for (k, v) in pairs {
        m.insert(k.to_string(), v.to_string());
    }
    Some(m)
}

#[test]
fn test_config_default() {
    let config = AppConfig::default();
    assert!(config.database.is_none());
    assert!(config.secrets.is_none());
    assert!(config.extra.is_empty());
}

#[test]
fn test_config_merge() {
    let config1 = AppConfig {
        database: Some(DatabaseConfig {
            url: Some("postgres://localhost/test".to_string()),
            ..Default::default()
        }),
        secrets: secrets(&[("api_key", "secret123")]),
        extra: StrMap::new(),
    };
    let config2 = AppConfig {
        database: None,
        secrets: secrets(&[("db_password", "pass456")]),
        extra: StrMap::new(),
    };

    let mut merged = config1.clone();
    merged.merge(config2);

    assert_eq!(
        merged.get_database_url(),
        Some("postgres://localhost/test".to_string())
    );
    assert_eq!(
        merged.get_secret("db_password"),
        Some(&"pass456".to_string())
    );
}

#[test]
fn test_set_secret_creates_map() {
    let mut config = AppConfig::default();
    assert!(config.secrets.is_none());

    config.set_secret("key", "value".to_string());
    assert!(config.secrets.is_some());
    assert_eq!(config.get_secret("key"), Some(&"value".to_string()));
}

#[test]
fn test_merge_local_wins_over_global() {
    let mut local = AppConfig {
        database: Some(DatabaseConfig {
            url: Some("postgres://local/db".to_string()),
            host: None,
            ..Default::default()
        }),
        secrets: secrets(&[("api_key", "local-key")]),
        extra: StrMap::new(),
    };
    let global = AppConfig {
        database: Some(DatabaseConfig {
            url: Some("postgres://global/db".to_string()),
            host: Some("db.example.com".to_string()),
            ..Default::default()
        }),
        secrets: secrets(&[("api_key", "global-key"), ("other", "global-other")]),
        extra: StrMap::new(),
    };

    local.merge(global);

    assert_eq!(
        local.get_database_url(),
        Some("postgres://local/db".to_string())
    );
    assert_eq!(local.get_secret("api_key"), Some(&"local-key".to_string()));
    assert_eq!(
        local.database.as_ref().unwrap().host.as_deref(),
        Some("db.example.com")
    );
    assert_eq!(local.get_secret("other"), Some(&"global-other".to_string()));
}

#[test]
fn generic_config_name_is_perilous() {
    assert!(AppConfig::config_file_perilous(Some("config.toml"), Some(0o644)).is_some());
    assert!(AppConfig::config_file_perilous(Some("daedalus.toml"), Some(0o644)).is_none());
}

#[test]
fn world_writable_config_is_perilous() {
    assert!(AppConfig::config_file_perilous(Some("daedalus.toml"), Some(0o666)).is_some());
    assert!(AppConfig::config_file_perilous(Some("daedalus.toml"), Some(0o644)).is_none());
}

#[test]
fn group_writable_config_is_perilous() {
    assert!(AppConfig::config_file_perilous(Some("daedalus.toml"), Some(0o620)).is_some());
    assert!(AppConfig::config_file_perilous(Some("daedalus.toml"), None).is_none());
}

fn no_env() -> EnvOverrides {
    EnvOverrides {
        database_url: None,
        db_host: None,
        db_port: None,
        db_name: None,
        db_user: None,
        db_password: None,
    }
}

#[test]
fn env_overrides_replace_file_values() {
    let mut config = AppConfig {
        database: Some(DatabaseConfig {
            url: Some("postgres://file/db".to_string()),
            ..Default::default()
        }),
        secrets: None,
        extra: StrMap::new(),
    };
    let mut env = no_env();
    env.database_url = Some("postgres://env/db".to_string());
    env.db_port = Some("6543".to_string());
    config.apply_env_overrides(&env);
    assert_eq!(config.get_database_url(), Some("postgres://env/db".to_string()));
    assert_eq!(config.database.as_ref().unwrap().port, Some(6543));
}

#[test]
fn env_override_with_bad_port_keeps_port_unset() {
    let mut config = AppConfig::default();
    let mut env = no_env();
    env.db_port = Some("not-a-port".to_string());
    config.apply_env_overrides(&env);
    assert!(config.database.as_ref().map_or(true, |d| d.port.is_none()));
}

#[test]
fn load_prefers_local_then_global_then_env() {
    let local = AppConfig {
        database: None,
        secrets: secrets(&[("a", "local")]),
        extra: StrMap::new(),
    };
    let global = AppConfig {
        database: Some(DatabaseConfig {
            url: Some("postgres://global/db".to_string()),
            ..Default::default()
        }),
        secrets: secrets(&[("a", "global"), ("b", "global")]),
        extra: StrMap::new(),
    };
    let config = AppConfig::load(Some(local), Some(global), &no_env());
    assert_eq!(config.get_secret("a"), Some(&"local".to_string()));
    assert_eq!(config.get_secret("b"), Some(&"global".to_string()));
    assert_eq!(config.get_database_url(), Some("postgres://global/db".to_string()));
}

#[test]
fn load_keeps_secrets_only_where_a_layer_has_them() {
    let bare = AppConfig {
        database: None,
        secrets: None,
        extra: StrMap::new(),
    };
    let none = AppConfig::load(Some(bare), None, &no_env());
    assert!(none.secrets.is_none());
    let global = AppConfig {
        database: None,
        secrets: secrets(&[("token", "g")]),
        extra: StrMap::new(),
    };
    let from_global = AppConfig::load(None, Some(global), &no_env());
    assert_eq!(from_global.get_secret("token"), Some(&"g".to_string()));
    assert_eq!(from_global.get_secret("missing"), None);
}
