use erebus::error::Error;
use erebus::launcher::{
    decode_exit_status, env_timeout_ms, human_bytes, reject_downgraded_sig_block,
    sig_block_probe, LayerManifest, Metadata, SigBlockProbe, SIG_BLOCK_SIZE, SIG_LEN,
    V2_FOOTER_SIZE,
};
use erebus::layer::{Capability, ConfigLayer, RuntimeLayer, SerializableLayer};

#[test]
fn human_bytes_formats_all_scales() {
    assert_eq!(human_bytes(0), "0 B");
    assert_eq!(human_bytes(512), "512 B");
    assert_eq!(human_bytes(1024), "1.0 KiB");
    assert_eq!(human_bytes(1536), "1.5 KiB");
    assert_eq!(human_bytes(1024 * 1024), "1.0 MiB");
    assert_eq!(human_bytes((1024 * 1024) + (512 * 1024)), "1.5 MiB");
}

#[test]
fn human_bytes_truncates_the_tenth() {
    assert_eq!(human_bytes(2047), "1.9 KiB");
    assert_eq!(human_bytes(1023), "1023 B");
}

#[test]
fn env_timeout_ms_reads_int_and_falls_back() {
    assert_eq!(env_timeout_ms(Some("2500"), 10_000), 2500);
    assert_eq!(env_timeout_ms(None, 10_000), 10_000);
    assert_eq!(env_timeout_ms(Some("garbage"), 10_000), 10_000);
}

/// A v2 layout `[stub][payload][meta][tail][84-byte footer]`, with the
/// metadata offset and size the footer would record.
fn build_v2_bytes(payload: &[u8], meta: &[u8], tail: &[u8]) -> (Vec<u8>, u64, u64) {
    let stub = [0u8; 64];
    let mut data = stub.to_vec();
    data.extend_from_slice(payload);
    data.extend_from_slice(meta);
    data.extend_from_slice(tail);
    data.extend_from_slice(&[0u8; V2_FOOTER_SIZE as usize]);
    (data, (stub.len() + payload.len()) as u64, meta.len() as u64)
}

/// The downgrade check over a whole file.
fn check(data: &[u8], meta_offset: u64, meta_size: u64) -> Result<(), Error> {
    match sig_block_probe(data.len() as u64, meta_offset, meta_size)? {
        SigBlockProbe::Clean => Ok(()),
        SigBlockProbe::ReadSizeAt(at) => {
            let at = at as usize;
            let mut size = [0u8; 4];
            size.copy_from_slice(&data[at..at + 4]);
            reject_downgraded_sig_block(size)
        }
    }
}

#[test]
fn downgrade_reject_detects_leftover_sig_block() {
    let mut leftover = Vec::new();
    leftover.extend_from_slice(&(SIG_LEN as u32).to_le_bytes());
    leftover.extend_from_slice(&[0xAAu8; SIG_LEN as usize]);
    let mut with_prefix = leftover.clone();
    with_prefix.extend_from_slice(&[0u8; 8]);
    let (data, off, size) = build_v2_bytes(b"payload", b"{}", &with_prefix);
    assert!(
        check(&data, off, size).is_err(),
        "leftover sig block (prefix kept) must be rejected"
    );
    let (data, off, size) = build_v2_bytes(b"payload", b"{}", &leftover);
    assert!(
        check(&data, off, size).is_err(),
        "leftover sig block (prefix stripped) must be rejected"
    );
}

#[test]
fn downgrade_reject_accepts_clean_v2_layout() {
    let (data, off, size) = build_v2_bytes(b"payload", b"{}", &[]);
    assert!(check(&data, off, size).is_ok());
}

#[test]
fn downgrade_reject_ignores_unrelated_gaps() {
    let (data, off, size) = build_v2_bytes(b"payload", b"{}", &[0x00; 20]);
    assert!(check(&data, off, size).is_ok());
    let (data, off, size) = build_v2_bytes(b"payload", b"{}", &[0x00; SIG_BLOCK_SIZE as usize]);
    assert!(
        check(&data, off, size).is_ok(),
        "a sig-sized gap without size field 64 is not a signature block"
    );
}

#[test]
fn downgrade_probe_reports_overflow() {
    assert_eq!(
        sig_block_probe(100, u64::MAX, 1),
        Err(Error::MetadataRegionOverflow)
    );
    assert_eq!(
        reject_downgraded_sig_block(64u32.to_le_bytes()),
        Err(Error::DowngradedSignatureBlock)
    );
}

fn meta(layers: Vec<SerializableLayer>, entrypoint_layer: Option<&str>) -> Metadata {
    Metadata {
        name: "test-app".into(),
        version: None,
        runtime: "python3".into(),
        entrypoint: vec!["legacy".into()],
        env: std::collections::BTreeMap::new(),
        cwd: None,
        isolation: 0,
        seccomp: false,
        landlock: false,
        gui: false,
        cpu_limit: None,
        memory_limit_mb: None,
        pid_limit: None,
        services: vec![],
        payload_format: "zstd+tar".into(),
        health_check: None,
        update_url: None,
        layers,
        entrypoint_layer: entrypoint_layer.map(String::from),
        hooks: None,
        encryption: None,
    }
}

#[test]
fn layer_manifest_roundtrip_from_metadata() {
    let rt = RuntimeLayer {
        name: "python3".into(),
        interpreter: "python3".into(),
        entrypoint: vec!["python3 /app/main.py".into()],
        version: Some("3.11".into()),
        env: vec![("FOO".into(), "bar".into())],
        capabilities: vec![Capability::ReadFile],
    };
    let cfg = ConfigLayer {
        name: "app-config".into(),
        format: "toml".to_string(),
        data: serde_json::from_str(r#"{ "port": 8080 }"#).unwrap(),
    };
    let m = meta(
        vec![SerializableLayer::Runtime(rt), SerializableLayer::Config(cfg)],
        Some("python3"),
    );
    let manifest = LayerManifest::from_metadata(&m);
    assert_eq!(manifest.version, 1);
    assert_eq!(manifest.layers.len(), 2);
    assert_eq!(manifest.layers[0].name, "python3");
    assert_eq!(manifest.layers[0].kind, "runtime");
    assert_eq!(manifest.layers[0].rootfs_path, Some("/app".to_string()));
    assert_eq!(manifest.layers[1].name, "app-config");
    assert_eq!(manifest.layers[1].kind, "config");
    assert_eq!(manifest.layers[1].rootfs_path, Some("/app".to_string()));
    assert_eq!(manifest.clone(), manifest);
}

#[test]
fn effective_launch_settings_prefer_the_entrypoint_layer() {
    let rt = RuntimeLayer {
        name: "node".into(),
        interpreter: "node".into(),
        entrypoint: vec!["node".into(), "/app/index.js".into()],
        version: None,
        env: vec![],
        capabilities: vec![Capability::Network],
    };
    let layered = meta(vec![SerializableLayer::Runtime(rt)], Some("node"));
    assert_eq!(layered.effective_runtime(), "node");
    assert_eq!(layered.effective_entrypoint(), &["node".to_string(), "/app/index.js".to_string()]);
    assert_eq!(layered.effective_capabilities(), &[Capability::Network]);

    let legacy = meta(vec![], None);
    assert_eq!(legacy.effective_runtime(), "python3");
    assert_eq!(legacy.effective_entrypoint(), &["legacy".to_string()]);
    assert!(legacy.effective_capabilities().is_empty());
}

#[test]
fn exit_status_decoding() {
    assert_eq!(decode_exit_status(0), 0);
    assert_eq!(decode_exit_status(3 << 8), 3);
    assert_eq!(decode_exit_status(9), 128 + 9);
}
