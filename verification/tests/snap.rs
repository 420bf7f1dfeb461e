use erebus::snap::{
    build_services, desktop_plugs, generate_snapcraft_yaml, generate_yaml_string, DesktopEnv,
};

fn entry(script: &str) -> Vec<String> {
    vec!["python3".to_string(), script.to_string()]
}

#[test]
fn snap_config_generation() {
    let config = generate_snapcraft_yaml(
        "myapp",
        "1.0.0",
        Some("A test app"),
        "python3",
        &entry("/app/main.py"),
        false,
        false,
    )
    .unwrap();

    assert_eq!(config.name, "myapp");
    assert_eq!(config.version, "1.0.0");
    assert!(config.apps.is_some());
    assert!(config.apps.as_ref().unwrap().contains_key("myapp"));
}

#[test]
fn snap_config_generation_desktop() {
    let config = generate_snapcraft_yaml(
        "myguiapp",
        "1.0.0",
        None,
        "python3",
        &entry("/app/main.py"),
        false,
        true,
    )
    .unwrap();

    let app = config.apps.as_ref().unwrap().get("myguiapp").unwrap();
    assert!(app.command_chain.is_some());
    assert!(app.desktop.is_some());
    assert!(app.plugs.as_ref().unwrap().contains(&"x11".to_string()));
    assert!(app.plugs.as_ref().unwrap().contains(&"wayland".to_string()));
}

#[test]
fn snap_service_generation() {
    let config = generate_snapcraft_yaml(
        "myapi",
        "2.0.0",
        None,
        "python3",
        &entry("/app/api.py"),
        true,
        false,
    )
    .unwrap();

    assert!(config.services.is_some());
    assert!(config.apps.is_some());
}

#[test]
fn yaml_string_generation() {
    let config = generate_snapcraft_yaml(
        "test",
        "1.0.0",
        Some("test"),
        "python3",
        &entry("/app/main.py"),
        false,
        false,
    )
    .unwrap();

    let yaml = generate_yaml_string(&config).unwrap();
    assert!(yaml.contains("name: test"));
    assert!(yaml.contains("version: 1.0.0"));
}

#[test]
fn yaml_string_generation_desktop() {
    let config = generate_snapcraft_yaml(
        "guiapp",
        "1.0.0",
        Some("GUI app"),
        "python3",
        &entry("/app/main.py"),
        false,
        true,
    )
    .unwrap();

    let yaml = generate_yaml_string(&config).unwrap();
    assert!(yaml.contains("command-chain:"));
    assert!(yaml.contains("base: core22"));
    assert!(yaml.contains("GTK_USE_PORTAL"));
}

#[test]
fn cli_app_has_no_desktop_extras() {
    let config = generate_snapcraft_yaml(
        "cli",
        "0.1.0",
        None,
        "python3",
        &entry("/app/main.py"),
        false,
        false,
    )
    .unwrap();
    let app = config.apps.as_ref().unwrap().get("cli").unwrap();
    assert!(app.command_chain.is_none());
    assert!(app.desktop.is_none());
    assert!(config.layout.is_none());
    assert!(config.services.is_none());
}

#[test]
fn services_only_when_requested() {
    assert!(build_services("/app/run", false).is_none());
    let services = build_services("/app/run", true).unwrap();
    assert_eq!(services.len(), 1);
}

#[test]
fn desktop_plugs_cover_display_servers() {
    let plugs = desktop_plugs();
    assert!(plugs.contains(&"x11"));
    assert!(plugs.contains(&"wayland"));
}

#[test]
fn desktop_names_are_recognised() {
    assert_eq!(DesktopEnv::from_desktop_name("ubuntu:GNOME"), DesktopEnv::Gnome);
    assert_eq!(DesktopEnv::from_desktop_name("KDE"), DesktopEnv::KDE);
    assert_eq!(DesktopEnv::from_desktop_name("XFCE"), DesktopEnv::XFCE);
    assert_eq!(DesktopEnv::from_desktop_name("Unity"), DesktopEnv::Any);
    assert_eq!(DesktopEnv::from_desktop_name("sway"), DesktopEnv::Unknown);
}
