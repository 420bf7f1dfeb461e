use erebus::paths::{
    backup_path_for, cache_dir, cache_key, default_key_dir, default_trusted_dir, eviction_plan,
    get_persist_dir, get_persist_env, trusted_keys_dir, ttl_expired, BuildCache, FsRemoteCache,
    BACKUP_SUFFIX,
};

#[test]
fn backup_path_is_co_located() {
    assert_eq!(backup_path_for("/home/u/app.erebus"), "/home/u/app.erebus.bak");
    assert_eq!(backup_path_for("/opt/tools/bin/tool"), "/opt/tools/bin/tool.bak");
}

#[test]
fn backup_path_handles_extensionless_binary() {
    assert_eq!(backup_path_for("/srv/runner"), "/srv/runner.bak");
}

#[test]
fn backup_suffix_is_bak() {
    assert_eq!(BACKUP_SUFFIX, ".bak");
    assert_eq!(backup_path_for("app"), "app.bak");
}

#[test]
fn trusted_keys_dir_matches_stub_default() {
    assert_eq!(
        trusted_keys_dir(None, Some("/fake/home")),
        "/fake/home/.xbin/trusted-keys"
    );
    assert_eq!(trusted_keys_dir(Some("/custom/keys"), Some("/fake/home")), "/custom/keys");
    assert_eq!(
        trusted_keys_dir(None, Some("/fake/home")),
        "/fake/home/.xbin/trusted-keys"
    );
    assert_eq!(trusted_keys_dir(None, None), ".xbin/trusted-keys");
}

#[test]
fn test_get_persist_dir_uses_xdg() {
    assert_eq!(
        get_persist_dir("myapp", Some("/custom/xdg"), Some("/home/x")),
        "/custom/xdg/erebus/myapp"
    );
}

#[test]
fn test_get_persist_dir_fallback() {
    assert_eq!(
        get_persist_dir("myapp", None, Some("/home/testuser")),
        "/home/testuser/.local/share/erebus/myapp"
    );
    assert_eq!(get_persist_dir("myapp", None, None), "/tmp/erebus/myapp");
}

#[test]
fn test_get_persist_env() {
    let env = get_persist_env("myapp", Some("/custom/xdg"), None);
    assert_eq!(env.len(), 1);
    assert_eq!(
        env.get("XBIN_PERSIST_DIR"),
        Some(&"/custom/xdg/erebus/myapp".to_string())
    );
}

#[test]
fn cache_dir_precedence() {
    assert_eq!(cache_dir(Some("C:/Local"), Some("/x"), Some("/h")), "C:/Local/xbin");
    assert_eq!(cache_dir(None, Some("/x"), Some("/h")), "/x/xbin");
    assert_eq!(cache_dir(None, None, Some("/h")), "/h/.cache/xbin");
    assert_eq!(cache_dir(None, None, None), ".xbin/cache");
}

#[test]
fn key_dirs_under_data_home() {
    assert!(default_key_dir(Some("/d"), Some("/h")).starts_with("/d"));
    assert!(default_trusted_dir(Some("/d"), Some("/h")).ends_with("trusted-keys"));
}

#[test]
fn cache_artifact_paths_differ_per_target() {
    let cache = BuildCache::new("/c", 10);
    assert_eq!(cache.base_dir(), "/c/builds");
    assert_eq!(cache.max_entries(), 10);
    assert_ne!(
        cache.artifact_path("aaa", "cfg1", None),
        cache.artifact_path("aaa", "cfg1", Some("win-x64"))
    );
    assert_eq!(
        cache.artifact_path("aaa", "cfg1", Some("win-x64")),
        "/c/builds/aaa-cfg1-win-x64/output.xbin"
    );
}

#[test]
fn cache_artifact_paths_differ_per_config() {
    let cache = BuildCache::new("/c", 10);
    assert_ne!(
        cache.artifact_path("aaa", "cfg-plain", None),
        cache.artifact_path("aaa", "cfg-encrypt", None)
    );
    assert_eq!(cache.meta_path("aaa", "cfg1", None), "/c/builds/aaa-cfg1/.meta");
    assert_eq!(cache.entry_dir("aaa", "cfg1", None), "/c/builds/aaa-cfg1");
    assert_eq!(cache_key("aaa", "cfg1", None), "aaa-cfg1");
}

#[test]
fn eviction_plan_drops_oldest_first() {
    let entries = vec![
        ("a2".to_string(), 20u64),
        ("a1".to_string(), 10u64),
        ("a3".to_string(), 30u64),
    ];
    assert_eq!(eviction_plan(&entries, 2), vec!["a1".to_string()]);
    assert_eq!(eviction_plan(&entries, 1), vec!["a1".to_string(), "a2".to_string()]);
    assert!(eviction_plan(&entries, 5).is_empty());
}

#[test]
fn ttl_expiry_saturates() {
    assert!(!ttl_expired(100, 200, 1));
    assert!(ttl_expired(3601 + 5, 5, 1));
    assert!(!ttl_expired(3600 + 5, 5, 1));
    assert!(!ttl_expired(u64::MAX, 0, u64::MAX));
}

#[test]
fn remote_cache_path_is_under_root() {
    let remote = FsRemoteCache::new("/remote");
    assert_eq!(remote.path_for("h1"), "/remote/h1");
}

#[test]
fn cache_find_hits_only_an_existing_artifact() {
    let cache = BuildCache::new("/c", 10);
    let expected = cache.artifact_path("aaa", "cfg1", Some("linux-x64"));
    let hit = cache.find("aaa", "cfg1", Some("linux-x64"), |p: &str| p == expected);
    assert_eq!(hit, Some(expected.clone()));
    assert_eq!(cache.find("aaa", "cfg1", None, |p: &str| p == expected), None);
    assert_eq!(cache.find("aaa", "cfg2", Some("linux-x64"), |_: &str| false), None);
}
