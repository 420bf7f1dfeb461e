use erebus::layer::{
    Capability, ConfigLayer, Entrypoint, EntrypointRegistry, ExecutionContext, Layer, LayerKind,
    ModelLayer, RuntimeEntrypoint, RuntimeLayer, SerializableLayer, ToolLayer,
};
use sha2::{Digest, Sha256};

fn runtime(name: &str) -> RuntimeLayer {
    RuntimeLayer {
        name: name.into(),
        interpreter: "echo".into(),
        entrypoint: vec![],
        version: None,
        env: vec![],
        capabilities: vec![],
    }
}

#[test]
fn model_layer_kind() {
    let layer = ModelLayer {
        name: "llama-7b".into(),
        format: "gguf".into(),
        path: "models/llama-7b.gguf".into(),
        size: 4_000_000_000,
        metadata: None,
    };
    assert_eq!(layer.kind(), LayerKind::Model);
}

#[test]
fn registry_basic() {
    let mut registry = EntrypointRegistry::new();
    registry.register(RuntimeEntrypoint::new(runtime("test")));
    assert!(registry.get("test").is_some());
    assert!(registry.get("unknown").is_none());
}

#[test]
fn registry_replaces_same_name_and_keeps_order() {
    let mut registry = EntrypointRegistry::new();
    registry.register(RuntimeEntrypoint::new(runtime("a")));
    registry.register(RuntimeEntrypoint::new(runtime("b")));
    let mut again = runtime("a");
    again.interpreter = "python3".into();
    registry.register(RuntimeEntrypoint::new(again));
    assert_eq!(registry.names(), vec!["a".to_string(), "b".to_string()]);
    assert_eq!(registry.get("a").unwrap().layer().interpreter, "python3");
}

#[test]
fn runtime_entrypoint_substitutes_app_dir() {
    let layer = RuntimeLayer {
        name: "py".into(),
        interpreter: "python3".into(),
        entrypoint: vec!["{app}/main.py".into()],
        version: None,
        env: vec![("A".into(), "1".into())],
        capabilities: vec![Capability::Network],
    };
    let ep = RuntimeEntrypoint::new(layer);
    assert_eq!(ep.layer_name(), "py");
    let ctx = ExecutionContext {
        rootfs: "/tmp/root".into(),
        layer_dir: "/tmp/root/py".into(),
        env: vec![("B".into(), "2".into())],
        args: vec!["--flag".into()],
        cwd: "/tmp/root/app".into(),
    };
    let (argv, env) = ep.command(&ctx);
    assert_eq!(argv, vec!["python3", "/tmp/root/app/main.py", "--flag"]);
    assert_eq!(
        env,
        vec![("B".to_string(), "2".to_string()), ("A".to_string(), "1".to_string())]
    );
}

#[test]
fn layer_kinds_and_names() {
    let tool = ToolLayer {
        name: "fmt".into(),
        command: vec!["fmt".into()],
        input_schema: None,
        output_schema: None,
    };
    let config = ConfigLayer {
        name: "cfg".into(),
        format: "json".into(),
        data: serde_json::Value::Null,
    };
    assert_eq!(tool.kind(), LayerKind::Tool);
    assert_eq!(config.kind(), LayerKind::Config);
    let s = SerializableLayer::Tool(tool);
    assert_eq!(s.name(), "fmt");
    assert_eq!(s.kind(), LayerKind::Tool);
    assert_eq!(SerializableLayer::Runtime(runtime("r")).kind(), LayerKind::Runtime);
}

#[test]
fn runtime_layer_payload_hash_covers_entrypoint() {
    let mut layer = runtime("r");
    layer.entrypoint = vec!["a".into(), "bc".into()];
    let expect: [u8; 32] = Sha256::digest(b"rechoabc").into();
    assert_eq!(layer.payload_sha256(), expect);
}

#[test]
fn config_layer_payload_hash_covers_json() {
    let config = ConfigLayer {
        name: "cfg".into(),
        format: "json".into(),
        data: serde_json::from_str(r#"{"k": 1}"#).unwrap(),
    };
    let mut bytes = b"cfg".to_vec();
    bytes.extend(serde_json::to_vec(&config.data).unwrap());
    let expect: [u8; 32] = Sha256::digest(&bytes).into();
    assert_eq!(config.payload_sha256(), expect);
}
