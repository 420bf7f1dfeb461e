use erebus::build_args::{BuildArgs, BuildPlan};
use erebus::build_env::{app_name_of, build_app_env, check_cron_entries, split_once_chars};
use erebus::build_steps::{
    dry_run_report, has_workspace_protocol, is_skipped_entry, plan_build, sandbox_noop_warning,
    sisr_build_config, stub_candidates, BuildFileConfig, PackageManagerFact,
};
use erebus::build_target::{
    build_report, check_update, cross_compile_targets, embedded_interpreter_name, entrypoint_for,
    install_arguments, interpreter_choice, needs_macos_signing, payload_format, preflight, tool_source,
    PackageManagerKind, ToolSource, UpdateCheck,
};
use erebus::detect::Runtime;
use erebus::metadata::EmbeddedInterpreter;
use erebus::strmap::StrMap;

fn args() -> BuildArgs {
    BuildArgs {
        app: ".".to_string(),
        output: "app.erebus".to_string(),
        target: None,
        isolation: "sandbox".into(),
        seccomp: false,
        gui: false,
        landlock: false,
        encrypt: false,
        squashfs: false,
        key: None,
        enable_sisr: false,
        update_url: None,
        no_install: false,
        env_file: None,
        env: Vec::new(),
        define: Vec::new(),
        version_info: None,
        author: None,
        description: None,
        license: None,
        dry_run: false,
        update: false,
        include_paths: Vec::new(),
        persist: false,
        tree_shake: false,
        minify: false,
        health_port: None,
        otel_endpoint: None,
        otel_protocol: "grpc".into(),
        cron: Vec::new(),
        redetect: false,
        embed_interpreter: None,
        interpreter_path: None,
        wasm: false,
        wasmtime_path: None,
        wasi: false,
        component_model: false,
        cross_compile: None,
        use_cache: false,
        clear_cache: false,
        remote_cache_url: None,
        remote_cache_max_entries: None,
        compression_level: 3,
        health_endpoint: None,
        json: false,
        quiet: false,
        embed_model: None,
        package_format: "erebus".into(),
        entrypoint: Vec::new(),
    }
}

fn plan(runtime_name: &str, app_dir: &str) -> BuildPlan {
    BuildPlan {
        verbose: false,
        app_dir: app_dir.to_string(),
        runtime: Runtime::Python,
        runtime_name: runtime_name.into(),
        isolation: "sandbox".into(),
        isolation_num: 2,
        no_install: false,
        seccomp: false,
        landlock: false,
        gui: false,
        encrypt: false,
        squashfs: false,
        version_info: None,
        author: None,
        description: None,
        license: None,
        env_file: None,
        targets: vec![None],
        outputs: vec!["app.erebus".to_string()],
    }
}

fn strings(v: &[&str]) -> Vec<String> {
    v.iter().map(|s| s.to_string()).collect()
}

fn entries(m: &StrMap<String>) -> Vec<(String, String)> {
    (0..m.len())
        .map(|i| (m.key_at(i).clone(), m.value_at(i).clone()))
        .collect()
}

fn pairs(v: &[(&str, &str)]) -> Vec<(String, String)> {
    v.iter().map(|(k, v)| (k.to_string(), v.to_string())).collect()
}

// ── stub lookup ──────────────────────────────────────────────────────────

#[test]
fn stub_candidates_default_to_x86_64_musl() {
    assert_eq!(
        stub_candidates("target", None, "x86_64"),
        strings(&[
            "target/x86_64-unknown-linux-musl/release/erebus-stub",
            "/tmp/erebus-stub-target/x86_64-unknown-linux-musl/release/erebus-stub",
            "stub/target/x86_64-unknown-linux-musl/release/erebus-stub",
        ])
    );
}

#[test]
fn stub_candidates_short_aarch64_maps_to_musl_triple() {
    let c = stub_candidates("target", Some("aarch64"), "x86_64");
    assert_eq!(c[0], "target/aarch64-unknown-linux-musl/release/erebus-stub");
}

#[test]
fn stub_candidates_darwin_and_windows() {
    let d = stub_candidates("out", Some("aarch64-apple-darwin"), "x86_64");
    assert_eq!(d[0], "out/aarch64-apple-darwin/release/erebus-stub");
    let w = stub_candidates("out", Some("win-x64"), "aarch64");
    assert_eq!(w[0], "out/x86_64-pc-windows-gnu/release/erebus-stub.exe");
    assert_eq!(
        w[2],
        "stub/target/x86_64-pc-windows-gnu/release/erebus-stub.exe"
    );
}

// ── workspace protocol ───────────────────────────────────────────────────

#[test]
fn has_workspace_protocol_detects_workspace_deps() {
    let pkg = r#"{"dependencies": {"foo": "workspace:*", "bar": "1.0.0"}}"#;
    assert!(has_workspace_protocol(Some(pkg)));
}

#[test]
fn has_workspace_protocol_no_match() {
    let pkg = r#"{"dependencies": {"foo": "1.0.0", "bar": "^2.0"}}"#;
    assert!(!has_workspace_protocol(Some(pkg)));
}

#[test]
fn has_workspace_protocol_no_package_json() {
    assert!(!has_workspace_protocol(None));
}

#[test]
fn has_workspace_protocol_dev_deps() {
    let pkg = r#"{"devDependencies": {"tool": "workspace:^1.0.0"}}"#;
    assert!(has_workspace_protocol(Some(pkg)));
}

#[test]
fn has_workspace_protocol_ignores_other_sections_and_bad_json() {
    assert!(!has_workspace_protocol(Some(
        r#"{"scripts": {"x": "workspace:*"}}"#
    )));
    assert!(!has_workspace_protocol(Some("not json")));
    assert!(has_workspace_protocol(Some(
        r#"{"optionalDependencies": {"a": 1, "b": "workspace:~"}}"#
    )));
}

// ── sandbox no-op warning ────────────────────────────────────────────────

#[test]
fn sandbox_flags_below_level_two_are_warned_about() {
    assert_eq!(
        sandbox_noop_warning(0, true, false).unwrap(),
        "[erebus] warning: seccomp require --isolation sandbox (2) to take effect — ignored at isolation level 0"
    );
    assert_eq!(
        sandbox_noop_warning(1, true, true).unwrap(),
        "[erebus] warning: seccomp, landlock require --isolation sandbox (2) to take effect — ignored at isolation level 1"
    );
    assert_eq!(
        sandbox_noop_warning(1, false, true).unwrap(),
        "[erebus] warning: landlock require --isolation sandbox (2) to take effect — ignored at isolation level 1"
    );
    assert_eq!(sandbox_noop_warning(2, true, true), None);
    assert_eq!(sandbox_noop_warning(0, false, false), None);
}

// ── dry run ──────────────────────────────────────────────────────────────

#[test]
fn dry_run_reports_plan_and_package_managers() {
    let a = args();
    let p = plan("python", "/tmp/fake-app");
    let mgrs = vec![PackageManagerFact {
        name: "npm".into(),
        install_cmd: strings(&["npm", "install"]),
    }];
    let lines = dry_run_report(&a, &p, Some("linux-x64"), "out.erebus", &mgrs, 12);
    assert_eq!(
        lines,
        strings(&[
            "Dry run — would build:",
            "  App:       /tmp/fake-app",
            "  Output:    out.erebus",
            "  Runtime:   python",
            "  Isolation: sandbox",
            "  Seccomp:   false",
            "  Landlock:  false",
            "  GUI:       false",
            "  Encrypt:   false",
            "  SquashFS:  false",
            "  Target:    linux-x64",
            "  Pkg mgr:   npm",
            "  Install:   npm install",
            "  Files:     12",
        ])
    );
}

#[test]
fn dry_run_reports_optional_details() {
    let mut a = args();
    a.enable_sisr = true;
    a.update = true;
    a.persist = true;
    a.health_port = Some(8080);
    a.otel_endpoint = Some("http://otel:4317".into());
    a.cron = strings(&["tick:5m", "tock:1h"]);
    a.include_paths = strings(&["extra/data"]);
    let mut p = plan("node", "/srv/app");
    p.isolation = "1".into();
    p.isolation_num = 1;
    p.seccomp = true;
    p.no_install = true;
    p.version_info = Some("1.2.3".into());
    p.license = Some("MIT".into());
    let mgrs = vec![PackageManagerFact {
        name: "npm".into(),
        install_cmd: strings(&["npm", "ci"]),
    }];
    let lines = dry_run_report(&a, &p, None, "app.erebus", &mgrs, 3);
    assert_eq!(
        lines,
        strings(&[
            "Dry run — would build:",
            "  App:       /srv/app",
            "  Output:    app.erebus",
            "  Runtime:   node",
            "  Isolation: 1",
            "  Seccomp:   true",
            "  Landlock:  false",
            "  GUI:       false",
            "[erebus] warning: seccomp require --isolation sandbox (2) to take effect — ignored at isolation level 1",
            "  Encrypt:   false",
            "  SquashFS:  false",
            "  SISR:      enabled (delta-indexed, <output>.manifest)",
            "  Update URL: (none — updates must pass a URL or set ERE_UPDATE_URL)",
            "  Version:   1.2.3",
            "  License:   MIT",
            "  No install: yes",
            "  Update:    yes (incremental)",
            "  Persist:   yes",
            "  Health:    port 8080",
            "  OTel:      http://otel:4317",
            "  Cron:      2 task(s)",
            "  Include:   extra/data",
            "  Pkg mgr:   npm",
            "  Files:     3",
        ])
    );
}

#[test]
fn dry_run_without_package_managers_says_none() {
    let mut a = args();
    a.enable_sisr = true;
    a.update_url = Some("https://example.com/app.erebus".into());
    let lines = dry_run_report(&a, &plan("go", "/a"), None, "o", &Vec::new(), 0);
    assert!(lines.contains(&"  Update URL: https://example.com/app.erebus".to_string()));
    assert_eq!(lines[lines.len() - 2], "  Pkg mgr:   (none)");
    assert_eq!(lines[lines.len() - 1], "  Files:     0");
}

#[test]
fn skipped_entries_are_vcs_dependency_and_cache_dirs() {
    for n in [".git", "node_modules", "__pycache__", ".venv", "venv", ".erebus"] {
        assert!(is_skipped_entry(n), "{n}");
    }
    for n in ["src", "app.py", ".gitignore", "venvs"] {
        assert!(!is_skipped_entry(n), "{n}");
    }
}

// ── SISR build settings ──────────────────────────────────────────────────

#[test]
fn build_sisr_config_defaults_to_64k_chunks_without_key() {
    let config = sisr_build_config(None).unwrap();
    assert!(config.enabled);
    assert_eq!(config.chunk_target_size, 64 << 10);
    assert!(config.signing_key.is_none());
}

#[test]
fn build_sisr_config_loads_32_byte_key() {
    let key = ed25519_dalek::SigningKey::from_bytes(&[7u8; 32]);
    let bytes = key.to_bytes();
    let config = sisr_build_config(Some(&bytes[..])).unwrap();
    let loaded = config.signing_key.expect("key should be loaded");
    assert_eq!(loaded, key.to_bytes());
}

#[test]
fn build_sisr_config_rejects_wrong_key_length() {
    let err = sisr_build_config(Some(&[1u8; 16][..])).unwrap_err();
    assert!(err.contains("32 bytes"), "error: {err}");
    assert_eq!(err, "key must be 32 bytes, got 16");
}

// ── app environment ──────────────────────────────────────────────────────

#[test]
fn split_once_splits_at_first_separator() {
    let c: Vec<char> = "a=b=c".chars().collect();
    assert_eq!(
        split_once_chars(&c, '='),
        Some(("a".to_string(), "b=c".to_string()))
    );
    let d: Vec<char> = "abc".chars().collect();
    assert_eq!(split_once_chars(&d, '='), None);
    let e: Vec<char> = "=x".chars().collect();
    assert_eq!(
        split_once_chars(&e, '='),
        Some((String::new(), "x".to_string()))
    );
}

#[test]
fn app_env_layers_file_env_and_define() {
    let mut a = args();
    a.env = strings(&["A=1", " B = two ", "bad"]);
    a.define = strings(&["A=3"]);
    a.health_port = Some(8080);
    a.cron = strings(&["tick:5m"]);
    let p = plan("php", "/srv/myapp");
    let file = "# comment\n\nA=0\nC = x=y\n  \nD=4\r\n";
    let env = build_app_env(&a, &p, Some(file), None, None, &Vec::new()).unwrap();
    assert_eq!(
        entries(&env),
        pairs(&[
            ("A", "3"),
            ("B", "two"),
            ("C", "x=y"),
            ("D", "4"),
            ("ERE_APP_NAME", "myapp"),
            ("ERE_CRON_TASKS", ""),
            ("ERE_HEALTH_PORT", "8080"),
            ("ERE_RUNTIME", "php"),
            ("XDEBUG_MODE", "off"),
        ])
    );
}

#[test]
fn app_env_define_overrides_env_which_overrides_file() {
    let mut a = args();
    a.env = strings(&["K=from-env", "E=env"]);
    a.define = strings(&["K=from-define"]);
    let p = plan("python", "/srv/app");
    let env = build_app_env(&a, &p, Some("K=file\nE=file\nF=file"), None, None, &Vec::new()).unwrap();
    assert_eq!(env.get("K").unwrap(), "from-define");
    assert_eq!(env.get("E").unwrap(), "env");
    assert_eq!(env.get("F").unwrap(), "file");
    assert!(env.get("XDEBUG_MODE").is_none());
}

#[test]
fn app_env_keeps_user_xdebug_mode_and_adds_persist_and_otel() {
    let mut a = args();
    a.env = strings(&["XDEBUG_MODE=debug"]);
    a.persist = true;
    let p = plan("php", "/srv/shop");
    let otel = pairs(&[("OTEL_SERVICE_NAME", "shop"), ("ERE_APP_NAME", "renamed")]);
    let env = build_app_env(&a, &p, None, Some("/data"), Some("/home/u"), &otel).unwrap();
    assert_eq!(env.get("XDEBUG_MODE").unwrap(), "debug");
    assert_eq!(env.get("ERE_PERSIST_DIR").unwrap(), "/data/erebus/shop");
    assert_eq!(env.get("OTEL_SERVICE_NAME").unwrap(), "shop");
    assert_eq!(env.get("ERE_APP_NAME").unwrap(), "renamed");
    assert!(env.get("ERE_HEALTH_PORT").is_none());
    assert!(env.get("ERE_CRON_TASKS").is_none());
}

#[test]
fn app_env_rejects_malformed_cron_entry() {
    let mut a = args();
    a.cron = strings(&["ok:5m", "nocolon", "also-bad"]);
    let err = build_app_env(&a, &plan("python", "/a"), None, None, None, &Vec::new()).unwrap_err();
    assert_eq!(err, "--cron format: NAME:SCHEDULE (got 'nocolon')");
    assert_eq!(check_cron_entries(&strings(&["a:1", "b:2"])), None);
}

#[test]
fn app_name_falls_back_to_app() {
    assert_eq!(app_name_of("/srv/myapp"), "myapp");
    assert_eq!(app_name_of("/"), "app");
}

// ── target build decisions ───────────────────────────────────────────────

#[test]
fn preflight_refuses_encrypt_with_sisr_and_unincluded_env() {
    assert_eq!(
        preflight(true, true, "/app", false, false).unwrap_err(),
        "--encrypt and --enable-sisr cannot be combined: chunk-encrypted SISR binaries are not decryptable by the current stub — use one or the other"
    );
    assert_eq!(
        preflight(false, false, "/app", true, false).unwrap_err(),
        "/app contains a .env file, which is excluded from the payload by default (its secrets would be extractable from the binary). Bundle it explicitly with `--include /app/.env` to accept that risk, or provide configuration via `--env-file` / `--env` instead."
    );
    assert!(preflight(false, true, "/app", true, true).is_ok());
    assert!(preflight(true, false, "/app", false, false).is_ok());
}

#[test]
fn update_check_compares_both_hashes() {
    let h = |a: &str, b: &str| Some((a.to_string(), b.to_string()));
    assert_eq!(check_update(&None, "a", "r"), UpdateCheck::NoPrevious);
    assert_eq!(check_update(&h("a", "r"), "a", "r"), UpdateCheck::UpToDate);
    assert_eq!(check_update(&h("a", "r"), "b", "r"), UpdateCheck::AppChanged);
    assert_eq!(check_update(&h("a", "r"), "a", "s"), UpdateCheck::DepsChanged);
}

#[test]
fn install_tool_source_fetches_node_for_targets() {
    assert_eq!(tool_source(PackageManagerKind::Npm, true, true), ToolSource::DownloadNode);
    assert_eq!(tool_source(PackageManagerKind::Bun, false, false), ToolSource::DownloadNode);
    assert_eq!(tool_source(PackageManagerKind::Npm, true, false), ToolSource::Host);
    assert_eq!(tool_source(PackageManagerKind::Pip, true, true), ToolSource::Host);
    assert_eq!(tool_source(PackageManagerKind::Pip, false, false), ToolSource::Skip);
}

#[test]
fn install_arguments_for_cross_node_targets() {
    let npm = install_arguments(
        PackageManagerKind::Npm,
        &Vec::new(),
        &strings(&["npm", "install"]),
        None,
        Some("aarch64-apple-darwin"),
        "x86_64",
        "linux",
    );
    assert_eq!(
        npm,
        strings(&["install", "--platform", "darwin", "--arch", "arm64", "--ignore-scripts"])
    );
    let yarn = install_arguments(
        PackageManagerKind::Yarn,
        &Vec::new(),
        &strings(&["yarn", "install"]),
        None,
        Some("win-x64"),
        "x86_64",
        "linux",
    );
    assert_eq!(yarn, strings(&["install", "--platform", "win32", "--ignore-scripts"]));
    let same = install_arguments(
        PackageManagerKind::Pnpm,
        &Vec::new(),
        &strings(&["pnpm", "install"]),
        None,
        Some("linux-x64"),
        "x86_64",
        "linux",
    );
    assert_eq!(same, strings(&["install"]));
    let x86 = install_arguments(
        PackageManagerKind::Bun,
        &Vec::new(),
        &strings(&["bun", "install"]),
        None,
        Some("win-x86"),
        "x86_64",
        "linux",
    );
    assert_eq!(
        x86,
        strings(&["install", "--platform", "win32", "--arch", "ia32", "--ignore-scripts"])
    );
}

#[test]
fn install_arguments_for_pip_and_composer() {
    let pip = install_arguments(
        PackageManagerKind::Pip,
        &Vec::new(),
        &strings(&["pip", "install", "-r", "requirements.txt"]),
        Some("x86_64, aarch64"),
        None,
        "x86_64",
        "linux",
    );
    assert_eq!(
        pip,
        strings(&["install", "-r", "requirements.txt", "--no-binary", ":all:"])
    );
    let native = install_arguments(
        PackageManagerKind::Pip,
        &Vec::new(),
        &strings(&["pip", "install"]),
        Some(" x86_64 "),
        None,
        "x86_64",
        "linux",
    );
    assert_eq!(native, strings(&["install"]));
    let composer = install_arguments(
        PackageManagerKind::Composer,
        &strings(&["/cache/composer.phar"]),
        &strings(&["composer", "install", "--no-dev"]),
        None,
        Some("aarch64"),
        "x86_64",
        "linux",
    );
    assert_eq!(composer, strings(&["/cache/composer.phar", "install", "--no-dev"]));
}

#[test]
fn embedded_interpreter_defaults_to_runtime() {
    assert_eq!(embedded_interpreter_name(None, "python").unwrap(), "python3");
    assert_eq!(embedded_interpreter_name(None, "deno").unwrap(), "deno");
    assert_eq!(embedded_interpreter_name(None, "go"), None);
    assert_eq!(embedded_interpreter_name(Some("ruby3"), "python").unwrap(), "ruby3");
}

#[test]
fn interpreter_choice_matches_names_case_insensitively() {
    let (i, p) = interpreter_choice(Some("Python"), Some("/opt/py"), "node");
    assert_eq!(i, Some(EmbeddedInterpreter::Python3));
    assert_eq!(p.unwrap(), "/opt/py");
    let (i, _) = interpreter_choice(Some("MyInterp"), None, "node");
    assert_eq!(i, Some(EmbeddedInterpreter::Custom("myinterp".into())));
    let (i, p) = interpreter_choice(None, Some("/ignored"), "deno");
    assert_eq!(i, Some(EmbeddedInterpreter::Deno));
    assert_eq!(p, None);
    assert_eq!(interpreter_choice(None, None, "binary").0, None);
}

#[test]
fn wasm_entrypoint_gets_runtime_flags_after_program() {
    assert_eq!(
        entrypoint_for(Some(strings(&["wasmtime", "app.wasm"])), true, true, true),
        strings(&["wasmtime", "--wasi", "--component-model", "app.wasm"])
    );
    assert_eq!(
        entrypoint_for(Some(strings(&["wasmtime", "app.wasm"])), true, false, true),
        strings(&["wasmtime", "--component-model", "app.wasm"])
    );
    assert_eq!(
        entrypoint_for(Some(strings(&["python3", "app.py"])), false, true, true),
        strings(&["python3", "app.py"])
    );
    assert_eq!(entrypoint_for(None, false, false, false), strings(&["run"]));
}

#[test]
fn cross_compile_list_is_split_and_trimmed() {
    assert_eq!(cross_compile_targets("aarch64, arm64"), strings(&["aarch64", "arm64"]));
    assert_eq!(cross_compile_targets(" x86_64 "), strings(&["x86_64"]));
}

#[test]
fn macos_targets_are_resigned() {
    assert!(needs_macos_signing(Some("aarch64-apple-darwin")));
    assert!(needs_macos_signing(Some("macos-arm64")));
    assert!(!needs_macos_signing(Some("linux-x64")));
    assert!(!needs_macos_signing(None));
}

#[test]
fn build_report_signs_binary_or_manifest() {
    let mut a = args();
    a.key = Some("k.key".into());
    let r = build_report(&a, "python", "out.erebus", 42);
    assert!(r.signed && !r.manifest_signed && !r.sisr);
    assert_eq!(r.format, "zstd-tar");
    assert_eq!(r.size_bytes, 42);
    a.enable_sisr = true;
    a.encrypt = true;
    let r = build_report(&a, "python", "out.erebus", 1);
    assert!(!r.signed && r.manifest_signed && r.sisr && r.encrypted);
    assert_eq!(payload_format(true), "squashfs");
    assert_eq!(payload_format(false), "zstd-tar");
}

// ── build plan ───────────────────────────────────────────────────────────

fn no_config() -> BuildFileConfig {
    BuildFileConfig {
        isolation: None,
        seccomp: None,
        landlock: None,
        gui: None,
        encrypt: None,
        squashfs: None,
        target: None,
        no_install: None,
        env_file: None,
        version: None,
        author: None,
        description: None,
        license: None,
    }
}

#[test]
fn plan_merges_command_line_over_configuration() {
    let mut a = args();
    a.author = Some("cli".into());
    a.seccomp = false;
    let mut c = no_config();
    c.isolation = Some("none".into());
    c.seccomp = Some(true);
    c.gui = Some(false);
    c.author = Some("config".into());
    c.version = Some("2.0".into());
    c.target = Some("linux-arm64".into());
    let p = plan_build(&a, &c, "/srv/app", Runtime::Node, true).unwrap();
    assert_eq!(p.isolation, "none");
    assert_eq!(p.isolation_num, 0);
    assert!(p.seccomp && !p.gui && p.verbose);
    assert_eq!(p.author.as_deref(), Some("cli"));
    assert_eq!(p.version_info.as_deref(), Some("2.0"));
    assert_eq!(p.runtime_name, "node");
    assert_eq!(p.app_dir, "/srv/app");
    assert_eq!(p.targets, vec![Some("linux-arm64".to_string())]);
    assert_eq!(p.outputs, vec!["app.erebus".to_string()]);
}

#[test]
fn plan_keeps_explicit_isolation_and_reports_bad_values() {
    let mut a = args();
    a.isolation = "1".into();
    let mut c = no_config();
    c.isolation = Some("none".into());
    let p = plan_build(&a, &c, "/a", Runtime::Go, false).unwrap();
    assert_eq!(p.isolation_num, 1);
    a.isolation = "root".into();
    assert_eq!(
        plan_build(&a, &c, "/a", Runtime::Go, false).unwrap_err(),
        "invalid --isolation value: 'root': expected 'sandbox', 'none', or a level 0-2, got 'root'"
    );
    let d = plan_build(&args(), &no_config(), "/a", Runtime::Go, false).unwrap();
    assert_eq!(d.isolation, "sandbox");
    assert_eq!(d.isolation_num, 2);
}
