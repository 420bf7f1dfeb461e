use erebus::build_args::{
    config_fingerprint, output_paths, output_paths_for, parse_isolation, parse_target, resolve_targets,
    target_slug, BuildArgs, BuildPlan,
};
use erebus::detect::Runtime;

fn default_build_args() -> BuildArgs {
    build_args_with_output("app.erebus")
}

fn legacy_build_args() -> BuildArgs {
    build_args_with_output("app.xbin")
}

fn build_args_with_output(output: &str) -> BuildArgs {
    BuildArgs {
        app: ".".to_string(),
        output: output.to_string(),
        target: None,
        isolation: "sandbox".into(),
        seccomp: false,
        gui: false,
        landlock: false,
        encrypt: false,
        squashfs: false,
        key: None,
        enable_sisr: false,
        update_url: None,
        no_install: false,
        env_file: None,
        env: Vec::new(),
        define: Vec::new(),
        version_info: None,
        author: None,
        description: None,
        license: None,
        dry_run: false,
        update: false,
        include_paths: Vec::new(),
        persist: false,
        tree_shake: false,
        minify: false,
        health_port: None,
        otel_endpoint: None,
        otel_protocol: "grpc".into(),
        cron: Vec::new(),
        redetect: false,
        embed_interpreter: None,
        interpreter_path: None,
        wasm: false,
        wasmtime_path: None,
        wasi: false,
        component_model: false,
        cross_compile: None,
        use_cache: false,
        clear_cache: false,
        remote_cache_url: None,
        remote_cache_max_entries: None,
        compression_level: 3,
        health_endpoint: None,
        json: false,
        quiet: false,
        embed_model: None,
        package_format: "erebus".into(),
        entrypoint: Vec::new(),
    }
}

fn file_name(p: &str) -> String {
    std::path::Path::new(p)
        .file_name()
        .unwrap()
        .to_string_lossy()
        .into_owned()
}

fn pt(t: &str) -> (String, String) {
    parse_target(t, "x86_64")
}

fn plan(encrypt: bool, squashfs: bool, output: &str) -> BuildPlan {
    BuildPlan {
        verbose: false,
        app_dir: "/tmp/fake-app".to_string(),
        runtime: Runtime::Python,
        runtime_name: "python".into(),
        isolation: "sandbox".into(),
        isolation_num: 2,
        no_install: false,
        seccomp: false,
        landlock: false,
        gui: false,
        encrypt,
        squashfs,
        version_info: None,
        author: None,
        description: None,
        license: None,
        env_file: None,
        targets: vec![None],
        outputs: vec![output.to_string()],
    }
}

#[test]
fn args_sandbox_default_maps_to_level_2() {
    assert_eq!(parse_isolation("sandbox").unwrap(), 2);
    assert_eq!(parse_isolation("2").unwrap(), 2);
}

#[test]
fn args_none_maps_to_level_0() {
    assert_eq!(parse_isolation("none").unwrap(), 0);
    assert_eq!(parse_isolation("0").unwrap(), 0);
}

#[test]
fn args_numeric_level_1_is_accepted() {
    assert_eq!(parse_isolation("1").unwrap(), 1);
}

#[test]
fn args_invalid_values_fail_closed() {
    assert!(parse_isolation("3").is_err());
    assert!(parse_isolation("root").is_err());
    assert!(parse_isolation("").is_err());
}

#[test]
fn args_parse_target_short_forms() {
    assert_eq!(pt("aarch64"), ("aarch64".into(), "linux".into()));
    assert_eq!(pt("x86_64"), ("x86_64".into(), "linux".into()));
}

#[test]
fn args_parse_target_full_triples() {
    assert_eq!(pt("aarch64-apple-darwin"), ("aarch64".into(), "darwin".into()));
    assert_eq!(pt("x86_64-unknown-linux-musl"), ("x86_64".into(), "linux".into()));
    assert_eq!(pt("aarch64-unknown-linux-gnu"), ("aarch64".into(), "linux".into()));
    assert_eq!(pt("x86_64-pc-windows-gnu"), ("x86_64".into(), "windows".into()));
}

#[test]
fn args_parse_target_windows_shorthands() {
    assert_eq!(pt("win-x64"), ("x86_64".into(), "windows".into()));
    assert_eq!(pt("win-arm64"), ("aarch64".into(), "windows".into()));
    assert_eq!(pt("linux-x64"), ("x86_64".into(), "linux".into()));
    assert_eq!(pt("linux-arm64"), ("aarch64".into(), "linux".into()));
}

#[test]
fn args_resolve_targets_comma_list_and_cross_compile() {
    let args = BuildArgs {
        target: Some("linux-x64,win-x64".into()),
        cross_compile: Some("aarch64".into()),
        ..default_build_args()
    };
    let targets = resolve_targets(&args, None);
    assert_eq!(
        targets,
        vec![
            Some("linux-x64".into()),
            Some("win-x64".into()),
            Some("aarch64".into()),
        ]
    );
}

#[test]
fn args_resolve_targets_defaults_to_host() {
    let args = default_build_args();
    assert_eq!(resolve_targets(&args, None), vec![None]);
    assert_eq!(
        resolve_targets(&args, Some("linux-x64")),
        vec![Some("linux-x64".into())]
    );
}

#[test]
fn args_resolve_targets_dedupes() {
    let args = BuildArgs {
        target: Some("win-x64".into()),
        cross_compile: Some("win-x64,win-arm64".into()),
        ..default_build_args()
    };
    let targets = resolve_targets(&args, None);
    assert_eq!(targets, vec![Some("win-x64".into()), Some("win-arm64".into())]);
}

#[test]
fn args_output_paths_single_target_keeps_name() {
    let args = BuildArgs {
        target: Some("linux-x64".into()),
        ..default_build_args()
    };
    let targets = resolve_targets(&args, None);
    let outputs = output_paths(&args, &targets);
    assert_eq!(outputs.len(), 1);
    assert_eq!(file_name(&outputs[0]), "app.erebus");
}

#[test]
fn args_output_paths_single_windows_explicit_name_kept() {
    let args = BuildArgs {
        target: Some("win-x64".into()),
        output: "myapp.exe".to_string(),
        ..default_build_args()
    };
    let targets = resolve_targets(&args, None);
    let outputs = output_paths(&args, &targets);
    assert_eq!(outputs.len(), 1);
    assert_eq!(file_name(&outputs[0]), "myapp.exe");
}

#[test]
fn args_output_paths_single_windows_dir_naming() {
    let args = BuildArgs {
        target: Some("win-x64".into()),
        output: "dist".to_string(),
        ..default_build_args()
    };
    let targets = resolve_targets(&args, None);
    let outputs = output_paths(&args, &targets);
    assert_eq!(file_name(&outputs[0]), "app.exe");
}

#[test]
fn args_output_paths_multi_target_suffixes() {
    let args = BuildArgs {
        target: Some("linux-x64,linux-arm64,win-x64".into()),
        ..default_build_args()
    };
    let targets = resolve_targets(&args, None);
    let outputs = output_paths(&args, &targets);
    let names: Vec<String> = outputs.iter().map(|p| file_name(p)).collect();
    assert_eq!(
        names,
        vec![
            "app-linux-x64.erebus",
            "app-linux-arm64.erebus",
            "app-win-x64.exe"
        ]
    );
}

#[test]
fn args_config_fingerprint_changes_with_build_options() {
    let key = [7u8; 32];
    let base = config_fingerprint(&default_build_args(), &plan(false, false, "app.erebus"), None, None);

    let signed = BuildArgs {
        key: Some("/tmp/test.key".to_string()),
        ..default_build_args()
    };
    assert_ne!(
        config_fingerprint(&signed, &plan(false, false, "app.erebus"), None, Some(&key)),
        base,
        "--key must change the cache key"
    );
    assert_ne!(
        config_fingerprint(&default_build_args(), &plan(true, false, "app.erebus"), None, None),
        base,
        "--encrypt must change the cache key"
    );
    assert_ne!(
        config_fingerprint(&default_build_args(), &plan(false, true, "app.erebus"), None, None),
        base,
        "--squashfs must change the cache key"
    );
    assert_eq!(
        config_fingerprint(&default_build_args(), &plan(false, false, "app.erebus"), None, None),
        config_fingerprint(&default_build_args(), &plan(false, false, "app.erebus"), None, None),
        "fingerprint must be deterministic"
    );
}

#[test]
fn build_sandbox_default_maps_to_level_2() {
    assert_eq!(parse_isolation("sandbox").unwrap(), 2);
    assert_eq!(parse_isolation("2").unwrap(), 2);
}

#[test]
fn build_none_maps_to_level_0() {
    assert_eq!(parse_isolation("none").unwrap(), 0);
    assert_eq!(parse_isolation("0").unwrap(), 0);
}

#[test]
fn build_numeric_level_1_is_accepted() {
    assert_eq!(parse_isolation("1").unwrap(), 1);
}

#[test]
fn build_invalid_values_fail_closed() {
    assert!(parse_isolation("3").is_err());
    assert!(parse_isolation("root").is_err());
    assert!(parse_isolation("").is_err());
}

#[test]
fn build_parse_target_short_forms() {
    assert_eq!(pt("aarch64"), ("aarch64".into(), "linux".into()));
    assert_eq!(pt("x86_64"), ("x86_64".into(), "linux".into()));
}

#[test]
fn build_parse_target_full_triples() {
    assert_eq!(pt("aarch64-apple-darwin"), ("aarch64".into(), "darwin".into()));
    assert_eq!(pt("x86_64-unknown-linux-musl"), ("x86_64".into(), "linux".into()));
    assert_eq!(pt("aarch64-unknown-linux-gnu"), ("aarch64".into(), "linux".into()));
    assert_eq!(pt("x86_64-pc-windows-gnu"), ("x86_64".into(), "windows".into()));
}

#[test]
fn build_parse_target_windows_shorthands() {
    assert_eq!(pt("win-x64"), ("x86_64".into(), "windows".into()));
    assert_eq!(pt("win-arm64"), ("aarch64".into(), "windows".into()));
    assert_eq!(pt("linux-x64"), ("x86_64".into(), "linux".into()));
    assert_eq!(pt("linux-arm64"), ("aarch64".into(), "linux".into()));
}

#[test]
fn build_resolve_targets_comma_list_and_cross_compile() {
    let args = BuildArgs {
        target: Some("linux-x64,win-x64".into()),
        cross_compile: Some("aarch64".into()),
        ..legacy_build_args()
    };
    let targets = resolve_targets(&args, None);
    assert_eq!(
        targets,
        vec![
            Some("linux-x64".into()),
            Some("win-x64".into()),
            Some("aarch64".into()),
        ]
    );
}

#[test]
fn build_resolve_targets_defaults_to_host() {
    let args = legacy_build_args();
    assert_eq!(resolve_targets(&args, None), vec![None]);
    assert_eq!(
        resolve_targets(&args, Some("linux-x64")),
        vec![Some("linux-x64".into())]
    );
}

#[test]
fn build_resolve_targets_dedupes() {
    let args = BuildArgs {
        target: Some("win-x64".into()),
        cross_compile: Some("win-x64,win-arm64".into()),
        ..legacy_build_args()
    };
    let targets = resolve_targets(&args, None);
    assert_eq!(targets, vec![Some("win-x64".into()), Some("win-arm64".into())]);
}

#[test]
fn build_output_paths_single_target_keeps_name() {
    let args = BuildArgs {
        target: Some("linux-x64".into()),
        ..legacy_build_args()
    };
    let targets = resolve_targets(&args, None);
    let outputs = output_paths_for(&args, &targets, "xbin");
    assert_eq!(outputs.len(), 1);
    assert_eq!(file_name(&outputs[0]), "app.xbin");
}

#[test]
fn build_output_paths_single_windows_explicit_name_kept() {
    let args = BuildArgs {
        target: Some("win-x64".into()),
        output: "myapp.exe".to_string(),
        ..legacy_build_args()
    };
    let targets = resolve_targets(&args, None);
    let outputs = output_paths_for(&args, &targets, "xbin");
    assert_eq!(outputs.len(), 1);
    assert_eq!(file_name(&outputs[0]), "myapp.exe");
}

#[test]
fn build_output_paths_single_windows_dir_naming() {
    let args = BuildArgs {
        target: Some("win-x64".into()),
        output: "dist".to_string(),
        ..legacy_build_args()
    };
    let targets = resolve_targets(&args, None);
    let outputs = output_paths_for(&args, &targets, "xbin");
    assert_eq!(file_name(&outputs[0]), "app.exe");
}

#[test]
fn build_output_paths_multi_target_suffixes() {
    let args = BuildArgs {
        target: Some("linux-x64,linux-arm64,win-x64".into()),
        ..legacy_build_args()
    };
    let targets = resolve_targets(&args, None);
    let outputs = output_paths_for(&args, &targets, "xbin");
    let names: Vec<String> = outputs.iter().map(|p| file_name(p)).collect();
    assert_eq!(
        names,
        vec![
            "app-linux-x64.xbin",
            "app-linux-arm64.xbin",
            "app-win-x64.exe"
        ]
    );
}

#[test]
fn build_config_fingerprint_changes_with_build_options() {
    let key = [7u8; 32];
    let base = config_fingerprint(&legacy_build_args(), &plan(false, false, "app.xbin"), None, None);

    let signed = BuildArgs {
        key: Some("/tmp/test.key".to_string()),
        ..legacy_build_args()
    };
    assert_ne!(
        config_fingerprint(&signed, &plan(false, false, "app.xbin"), None, Some(&key)),
        base,
        "--key must change the cache key"
    );
    assert_ne!(
        config_fingerprint(&legacy_build_args(), &plan(true, false, "app.xbin"), None, None),
        base,
        "--encrypt must change the cache key"
    );
    assert_ne!(
        config_fingerprint(&legacy_build_args(), &plan(false, true, "app.xbin"), None, None),
        base,
        "--squashfs must change the cache key"
    );
    assert_eq!(
        config_fingerprint(&legacy_build_args(), &plan(false, false, "app.xbin"), None, None),
        config_fingerprint(&legacy_build_args(), &plan(false, false, "app.xbin"), None, None),
        "fingerprint must be deterministic"
    );
}

#[test]
fn cross_compile_targets_parsed() {
    let args = BuildArgs {
        cross_compile: Some("aarch64, arm64".into()),
        ..default_build_args()
    };
    let targets: Vec<String> = resolve_targets(&args, None)
        .into_iter()
        .map(|t| t.unwrap())
        .collect();
    assert_eq!(targets, vec!["aarch64", "arm64"]);
}

#[test]
fn fingerprint_is_sixteen_hex_digits() {
    let fp = config_fingerprint(&default_build_args(), &plan(false, false, "app.erebus"), None, None);
    assert_eq!(fp.len(), 16);
    assert!(fp.chars().all(|c| c.is_ascii_hexdigit() && !c.is_ascii_uppercase()));
}

#[test]
fn fingerprint_ignores_order_of_env_entries() {
    let a = BuildArgs {
        env: vec!["A=1".into(), "B=2".into()],
        ..default_build_args()
    };
    let b = BuildArgs {
        env: vec!["B=2".into(), "A=1".into()],
        ..default_build_args()
    };
    let p = plan(false, false, "app.erebus");
    assert_eq!(
        config_fingerprint(&a, &p, None, None),
        config_fingerprint(&b, &p, None, None)
    );
}

#[test]
fn fingerprint_depends_on_env_file_content() {
    let args = default_build_args();
    let mut p = plan(false, false, "app.erebus");
    p.env_file = Some(".env".into());
    assert_ne!(
        config_fingerprint(&args, &p, Some(b"A=1"), None),
        config_fingerprint(&args, &p, Some(b"A=2"), None)
    );
}

#[test]
fn isolation_spec_is_trimmed_and_case_sensitive() {
    assert_eq!(parse_isolation(" sandbox ").unwrap(), 2);
    assert_eq!(
        parse_isolation("NONE").unwrap_err(),
        "expected 'sandbox', 'none', or a level 0-2, got 'NONE'"
    );
}

#[test]
fn target_slug_names_targets_for_file_suffixes() {
    assert_eq!(target_slug(None), None);
    assert_eq!(target_slug(Some("linux-x64")).as_deref(), Some("linux-x64"));
}

#[test]
fn unknown_short_target_uses_host_arch() {
    assert_eq!(
        parse_target("linux", "aarch64"),
        ("aarch64".to_string(), "linux".to_string())
    );
    assert_eq!(parse_target("riscv64", "x86_64").0, "riscv64");
}
