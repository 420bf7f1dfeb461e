use erebus::flatpak::{
    generate_desktop_file, generate_manifest, runtime_mapping, sanitize_app_id, PackageFormat,
};

#[test]
fn package_format_parse() {
    assert_eq!(PackageFormat::default(), PackageFormat::Erebus);
    assert_eq!(
        "flatpak".parse::<PackageFormat>().unwrap(),
        PackageFormat::Flatpak
    );
    assert!(".snap".parse::<PackageFormat>().is_err());
}

#[test]
fn flatpak_runtime_mapping() {
    assert_eq!(
        runtime_mapping("python3"),
        Some(("org.freedesktop.Platform", "org.freedesktop.Sdk"))
    );
    assert_eq!(
        runtime_mapping("node"),
        Some(("org.freedesktop.Platform", "org.freedesktop.Sdk"))
    );
    assert_eq!(
        runtime_mapping("binary:/app/app"),
        Some(("org.freedesktop.Sdk", "org.freedesktop.Sdk"))
    );
    assert!(runtime_mapping("unknown-runtime").is_none());
}

#[test]
fn sanitize_app_id_tests() {
    assert_eq!(sanitize_app_id("my-app"), "my-app");
    assert_eq!(sanitize_app_id("my app"), "my app");
    assert_eq!(sanitize_app_id("123app"), "app.123app");
}

#[test]
fn manifest_generation() {
    let manifest = generate_manifest(
        "myapp",
        "python3",
        &["python3".to_string(), "/app/main.py".to_string()],
        &[],
    )
    .unwrap();

    assert_eq!(manifest.app_id, "myapp");
    assert_eq!(manifest.runtime, "org.freedesktop.Platform");
    assert_eq!(manifest.sdk, "org.freedesktop.Sdk");
    assert_eq!(manifest.command, "python3");
    assert!(!manifest.modules.is_empty());
}

#[test]
fn desktop_file_generation() {
    let desktop = generate_desktop_file("myapp", "My App");
    assert!(desktop.contains("Name=My App"));
    assert!(desktop.contains("Exec=myapp"));
    assert!(desktop.contains("[Desktop Entry]"));
}

#[test]
fn package_format_names_roundtrip() {
    for f in [PackageFormat::Erebus, PackageFormat::Flatpak, PackageFormat::Snap] {
        assert_eq!(PackageFormat::parse(&f.to_string()).unwrap(), f);
    }
    assert_eq!(PackageFormat::parse("SNAP").unwrap(), PackageFormat::Snap);
    assert_eq!(
        PackageFormat::parse("deb").unwrap_err(),
        "unknown package format: deb"
    );
}

#[test]
fn manifest_for_unknown_runtime_falls_back_to_platform() {
    let manifest = generate_manifest("tool", "cobol", &[], &[]).unwrap();
    assert_eq!(manifest.runtime, "org.freedesktop.Platform");
    assert_eq!(manifest.sdk, "org.freedesktop.Sdk");
}

#[test]
fn package_format_names_round_trip() {
    for f in [PackageFormat::Erebus, PackageFormat::Flatpak, PackageFormat::Snap] {
        assert_eq!(PackageFormat::parse(&f.to_string()), Ok(f));
        assert_eq!(PackageFormat::parse(&f.to_string().to_uppercase()), Ok(f));
    }
    assert_eq!(PackageFormat::parse("FlatPak"), Ok(PackageFormat::Flatpak));
    assert_eq!(PackageFormat::parse(".snap"), Err("unknown package format: .snap".to_string()));
}
