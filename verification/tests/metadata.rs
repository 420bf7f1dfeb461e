use erebus::layer::{Capability, Layer, LayerKind, ModelLayer, RuntimeLayer, SerializableLayer};
use erebus::metadata::{
    ArtifactMetadata, BuildCacheConfig, BunFeatures, EmbeddedInterpreter, HealthCheck, PathProbe,
    WasmConfig,
};

#[test]
fn embedded_interpreter_display() {
    assert_eq!(EmbeddedInterpreter::Python3.to_string(), "python3");
    assert_eq!(EmbeddedInterpreter::Node.to_string(), "node");
    assert_eq!(
        EmbeddedInterpreter::Custom("/path/to/bin".into()).to_string(),
        "/path/to/bin"
    );
}

#[test]
fn health_check_defaults() {
    let hc = HealthCheck::default();
    assert_eq!(hc.port, 0);
    assert_eq!(hc.endpoint, "/health");
    assert!(!hc.enabled);
}

#[test]
fn wasm_config_defaults() {
    let wc = WasmConfig::default();
    assert!(!wc.enabled);
}

#[test]
fn build_cache_defaults() {
    let bc = BuildCacheConfig::default();
    assert!(bc.enabled);
    assert_eq!(bc.max_entries, 50);
    assert_eq!(bc.ttl_hours, Some(24));
}

#[test]
fn artifact_metadata_layers() {
    let runtime_layer = RuntimeLayer {
        name: "python3".into(),
        interpreter: "python3".into(),
        entrypoint: vec!["{app}/main.py".into()],
        version: Some("3.11".into()),
        env: vec![],
        capabilities: vec![Capability::ReadFile, Capability::Network],
    };

    let metadata = ArtifactMetadata {
        name: "test-app".into(),
        erebus_version: "0.5.0".into(),
        created: "2024-01-01T00:00:00Z".into(),
        layers: vec![SerializableLayer::Runtime(runtime_layer)],
        entrypoint_layer: Some("python3".into()),
        ..Default::default()
    };

    let entry_layer = metadata.get_entrypoint_layer().unwrap();
    assert_eq!(entry_layer.name(), "python3");
    assert_eq!(entry_layer.kind(), LayerKind::Runtime);

    let runtime_layers = metadata.layers_of_kind(LayerKind::Runtime);
    assert_eq!(runtime_layers.len(), 1);

    let model_layers = metadata.layers_of_kind(LayerKind::Model);
    assert_eq!(model_layers.len(), 0);
}

#[test]
fn entrypoint_layer_missing_when_not_named() {
    let metadata = ArtifactMetadata {
        layers: vec![SerializableLayer::Model(ModelLayer {
            name: "m".into(),
            format: "gguf".into(),
            path: "m.gguf".into(),
            size: 1,
            metadata: None,
        })],
        entrypoint_layer: Some("other".into()),
        ..Default::default()
    };
    assert!(metadata.get_entrypoint_layer().is_none());
    assert_eq!(metadata.runtime_layers().len(), 0);
    assert_eq!(metadata.layers_of_kind(LayerKind::Model).len(), 1);
}

fn probe() -> PathProbe {
    PathProbe {
        custom_interpreter_not_file: false,
        wasmtime_exists: true,
    }
}

#[test]
fn default_features_validate() {
    assert_eq!(BunFeatures::default().validate(&probe()), Ok(()));
}

#[test]
fn health_check_port_zero_is_refused() {
    let f = BunFeatures::default().with_health_check(0, None);
    assert_eq!(
        f.validate(&probe()).unwrap_err(),
        "Health check port cannot be 0 - specify a valid port (1-65535)"
    );
}

#[test]
fn health_check_endpoint_needs_leading_slash() {
    let f = BunFeatures::default().with_health_check(8080, Some("health".into()));
    assert_eq!(
        f.validate(&probe()).unwrap_err(),
        "Health check endpoint must start with '/': health"
    );
    let f = BunFeatures::default().with_health_check(8080, Some(String::new()));
    assert_eq!(
        f.validate(&probe()).unwrap_err(),
        "Health check endpoint cannot be empty"
    );
    let f = BunFeatures::default().with_health_check(8080, None);
    assert!(f.validate(&probe()).is_ok());
}

#[test]
fn custom_interpreter_checks() {
    let f = BunFeatures::default().with_embedded_runtime(EmbeddedInterpreter::Custom(String::new()));
    assert_eq!(
        f.validate(&probe()).unwrap_err(),
        "Custom interpreter path cannot be empty"
    );
    let f = BunFeatures::default()
        .with_embedded_runtime(EmbeddedInterpreter::Custom("/opt/py".into()));
    let not_file = PathProbe {
        custom_interpreter_not_file: true,
        wasmtime_exists: true,
    };
    assert_eq!(
        f.validate(&not_file).unwrap_err(),
        "Custom interpreter path is not a file: /opt/py"
    );
}

#[test]
fn missing_wasmtime_is_refused() {
    let f = BunFeatures::default().with_wasm(Some("/opt/wasmtime".into()));
    let missing = PathProbe {
        custom_interpreter_not_file: false,
        wasmtime_exists: false,
    };
    assert_eq!(
        f.validate(&missing).unwrap_err(),
        "wasmtime binary not found at: /opt/wasmtime"
    );
}

#[test]
fn oversized_build_cache_is_refused() {
    let mut f = BunFeatures::default();
    f.build_cache.max_entries = 1001;
    assert_eq!(
        f.validate(&probe()).unwrap_err(),
        "Build cache max_entries 1001 is too high - use 1000 or less to prevent memory issues"
    );
}

#[test]
fn cross_compile_targets_are_kept() {
    let f = BunFeatures::default().with_cross_compile(vec!["aarch64".into(), "arm64".into()]);
    assert_eq!(f.cross_compile_targets, vec!["aarch64", "arm64"]);
}
