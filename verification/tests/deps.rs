use erebus::deps::{
    composer_requirements, dotted_numbers_of, extension_report_lines, missing_extensions, node_archive,
    node_dist_platform, php_binary_candidates, php_version_from_output, version_satisfies, PieceReading,
};

fn strings(v: &[&str]) -> Vec<String> {
    v.iter().map(|s| s.to_string()).collect()
}

fn chars(s: &str) -> Vec<char> {
    s.chars().collect()
}

#[test]
fn caret_and_tilde_constraints() {
    assert!(version_satisfies("8.2.1", "^8.2"));
    assert!(!version_satisfies("8.1.0", "^8.2"));
    assert!(!version_satisfies("9.0.0", "^8.2"));
    assert!(version_satisfies("8.2.0", "^ 8.2"));
    assert!(version_satisfies("8.1.5", "~8.1.0"));
    assert!(!version_satisfies("8.2.0", "~8.1.0"));
    assert!(!version_satisfies("8.1.0", "~8.1.3"));
}

#[test]
fn wildcard_and_comparison_constraints() {
    assert!(version_satisfies("8.3.2", "8.*"));
    assert!(!version_satisfies("7.4.3", "8.*"));
    assert!(version_satisfies("8.0.30", ">=8.0"));
    assert!(!version_satisfies("7.4", ">=8.0"));
    assert!(version_satisfies("7.4.1", "<8"));
    assert!(!version_satisfies("8.0", "<8"));
    assert!(version_satisfies("8.0.1", ">8.0"));
    assert!(version_satisfies("8.0", "<= 8.0"));
    assert!(version_satisfies("8.1.0", "==8.1.0"));
    assert!(!version_satisfies("8.1", "==8.1.0"));
    // A wildcard is checked before `>=`, so its prefix is read as plain numbers.
    assert!(version_satisfies("7.0", ">=8.*"));
}

#[test]
fn exact_and_alternative_constraints() {
    assert!(version_satisfies("8.1", "8.1"));
    assert!(!version_satisfies("8.1.0", "8.1"));
    assert!(version_satisfies("8.2", "8.1 || 8.2"));
    assert!(!version_satisfies("8.3", "8.1 || 8.2"));
    assert!(version_satisfies("8.1", ">=8.0 || "));
    assert!(version_satisfies("8.2.1-dev", "^8.2"));
    assert!(!version_satisfies("", "^8"));
    assert!(!version_satisfies("abc", "*"));
}

#[test]
fn dotted_numbers_follow_the_reading() {
    assert_eq!(dotted_numbers_of(&chars("8.2.1-dev"), PieceReading::LeadingDigits), vec![8, 2, 1]);
    assert_eq!(dotted_numbers_of(&chars(" 8 . x.3"), PieceReading::Trimmed), vec![8, 3]);
    assert_eq!(dotted_numbers_of(&chars("8.x.4294967296"), PieceReading::Raw), vec![8]);
}

#[test]
fn php_version_is_second_word_of_first_line() {
    assert_eq!(
        php_version_from_output("PHP 8.2.7 (cli) (built: Jun  9 2023)\nCopyright (c) The PHP Group\n").unwrap(),
        "8.2.7"
    );
    assert_eq!(php_version_from_output(""), None);
    assert_eq!(php_version_from_output("PHP\n8.2"), None);
}

#[test]
fn check_php_platform_reqs_no_require() {
    let r = composer_requirements("{}").unwrap();
    assert_eq!(r.php, None);
    assert!(r.extensions.is_empty());
}

#[test]
fn check_php_platform_reqs_finds_extensions() {
    let composer = r#"{"require": {"php": ">=8.0", "ext-json": "*", "ext-mbstring": "*"}}"#;
    let r = composer_requirements(composer).unwrap();
    assert_eq!(r.php.as_deref(), Some(">=8.0"));
    let mut exts = r.extensions.clone();
    exts.sort();
    assert_eq!(exts, strings(&["json", "mbstring"]));
}

#[test]
fn composer_json_that_is_not_json_is_refused() {
    let err = composer_requirements("{not json").unwrap_err();
    assert!(err.starts_with("failed to parse composer.json: "), "{err}");
    let r = composer_requirements(r#"{"require": "php"}"#).unwrap();
    assert_eq!(r.php, None);
    assert!(r.extensions.is_empty());
}

#[test]
fn missing_extensions_compare_in_lowercase() {
    let out = "[PHP Modules]\njson\nmbstring\n\n[Zend Modules]\n";
    assert_eq!(
        missing_extensions(&strings(&["json", "MBString", "gd"]), out),
        strings(&["gd"])
    );
    assert_eq!(missing_extensions(&strings(&["json"]), ""), strings(&["json"]));
}

#[test]
fn extension_report_names_missing_packages() {
    assert_eq!(
        extension_report_lines(&strings(&["gd", "intl"]), 3, true),
        strings(&[
            "[erebus] warning: PHP extensions required by composer but not installed:",
            "  ext-gd",
            "  ext-intl",
            "  Run: sudo apt install php-gd php-intl",
            "  or: composer install --ignore-platform-reqs (will be used as fallback)",
            "  Proceeding with --ignore-platform-reqs — runtime may fail if extensions are needed.",
        ])
    );
    assert_eq!(
        extension_report_lines(&Vec::new(), 2, true),
        strings(&["  PHP platform extensions: all 2 required extension(s) available"])
    );
    assert!(extension_report_lines(&Vec::new(), 2, false).is_empty());
    assert_eq!(extension_report_lines(&strings(&["gd"]), 1, false).len(), 4);
}

#[test]
fn php_candidates_for_caret_constraints() {
    assert_eq!(php_binary_candidates("^8.2").unwrap(), strings(&["php", "php8"]));
    assert_eq!(php_binary_candidates(">=8"), None);
}

#[test]
fn ensure_node_download_rejects_bad_arch() {
    let err = node_dist_platform(Some("riscv64"), "x86_64", "linux").unwrap_err();
    assert!(err.contains("unsupported"), "should mention unsupported arch");
    assert_eq!(err, "unsupported cross-compile architecture: riscv64");
}

#[test]
fn ensure_node_download_accepts_x86_64() {
    assert_eq!(
        node_dist_platform(Some("x86_64"), "aarch64", "linux").unwrap(),
        ("x64".to_string(), "linux".to_string())
    );
}

#[test]
fn ensure_node_download_accepts_aarch64() {
    assert_eq!(
        node_dist_platform(Some("aarch64"), "x86_64", "linux").unwrap(),
        ("arm64".to_string(), "linux".to_string())
    );
}

#[test]
fn node_platform_names_for_other_systems() {
    assert_eq!(
        node_dist_platform(Some("win-x64"), "x86_64", "linux").unwrap(),
        ("x64".to_string(), "win".to_string())
    );
    assert_eq!(
        node_dist_platform(Some("aarch64-apple-darwin"), "x86_64", "linux").unwrap(),
        ("arm64".to_string(), "darwin".to_string())
    );
    assert_eq!(
        node_dist_platform(None, "aarch64", "macos").unwrap(),
        ("arm64".to_string(), "darwin".to_string())
    );
    assert_eq!(
        node_dist_platform(None, "riscv64", "linux").unwrap(),
        ("riscv64".to_string(), "linux".to_string())
    );
}

#[test]
fn node_archive_extension_depends_on_os() {
    assert_eq!(
        node_archive("20.11.0", "linux", "x64"),
        (
            "node-v20.11.0-linux-x64.tar.xz".to_string(),
            "https://nodejs.org/dist/v20.11.0/node-v20.11.0-linux-x64.tar.xz".to_string()
        )
    );
    assert_eq!(node_archive("20.11.0", "darwin", "arm64").0, "node-v20.11.0-darwin-arm64.tar.gz");
    assert_eq!(node_archive("20.11.0", "win", "x64").0, "node-v20.11.0-win-x64.zip");
}
