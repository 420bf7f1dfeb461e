use erebus::detect::{
    detect_runtime, detect_runtime_candidates, find_node_entry, AppDirFacts, DirListing,
    EntryFact, Runtime,
};
use erebus::entrypoint::resolve_entrypoint;

/// Facts of an in-memory application directory: `(relative path, bytes)`
/// for every file, top-level entries in the order given.
fn facts(files: &[(&str, &[u8])]) -> AppDirFacts {
    let mut dirs: Vec<String> = Vec::new();
    let mut entries: Vec<EntryFact> = Vec::new();
    for (path, _) in files {
        let parts: Vec<&str> = path.split('/').collect();
        for k in 1..parts.len() {
            let d = parts[..k].join("/");
            if !dirs.contains(&d) {
                dirs.push(d);
            }
        }
        let top = parts[0].to_string();
        if !entries.iter().any(|e| e.name == top) {
            entries.push(EntryFact {
                name: top,
                is_file: parts.len() == 1,
                is_dir: parts.len() > 1,
            });
        }
    }
    let listing = |dir: &str| -> DirListing {
        let prefix = format!("{dir}/");
        let mut es: Vec<EntryFact> = Vec::new();
        for (path, _) in files {
            if let Some(rest) = path.strip_prefix(&prefix) {
                let parts: Vec<&str> = rest.split('/').collect();
                if !es.iter().any(|e| e.name == parts[0]) {
                    es.push(EntryFact {
                        name: parts[0].to_string(),
                        is_file: parts.len() == 1,
                        is_dir: parts.len() > 1,
                    });
                }
            }
        }
        DirListing {
            path: dir.to_string(),
            entries: es,
        }
    };
    let mut listings = Vec::new();
    for base in ["publish", "bin/Release"] {
        if dirs.contains(&base.to_string()) {
            let l = listing(base);
            for e in &l.entries {
                if e.is_dir {
                    listings.push(listing(&format!("{base}/{}", e.name)));
                }
            }
            listings.insert(0, l);
        }
    }
    let text = |name: &str| {
        files
            .iter()
            .find(|(p, _)| *p == name)
            .map(|(_, b)| String::from_utf8_lossy(b).into_owned())
    };
    AppDirFacts {
        files: files.iter().map(|(p, _)| p.to_string()).collect(),
        dirs,
        entries,
        listings,
        native: files
            .iter()
            .filter(|(_, b)| b.starts_with(b"\x7fELF") || b.starts_with(b"MZ"))
            .map(|(p, _)| p.to_string())
            .collect(),
        package_json: text("package.json"),
        pyproject: text("pyproject.toml"),
        requirements: text("requirements.txt"),
        php_ini_exists: false,
        dir_is_wasm: false,
    }
}

fn resolve(f: &AppDirFacts, r: Runtime) -> Option<Vec<String>> {
    resolve_entrypoint(f, r, None, None)
}

fn argv(v: &[&str]) -> Option<Vec<String>> {
    Some(v.iter().map(|s| s.to_string()).collect())
}

#[test]
fn detect_python_app() {
    assert_eq!(detect_runtime(&facts(&[("app.py", b"print('hi')")])), Some(Runtime::Python));
}

#[test]
fn detect_python_pyproject_only() {
    let f = facts(&[("pyproject.toml", b"[project]\nname = \"myapp\"")]);
    assert_eq!(detect_runtime(&f), Some(Runtime::Python));
}

#[test]
fn detect_python_setup_py() {
    assert_eq!(detect_runtime(&facts(&[("setup.py", b"")])), Some(Runtime::Python));
}

#[test]
fn detect_node_app() {
    assert_eq!(detect_runtime(&facts(&[("package.json", b"{}")])), Some(Runtime::Node));
}

#[test]
fn detect_deno_app() {
    assert_eq!(detect_runtime(&facts(&[("deno.json", b"{}")])), Some(Runtime::Deno));
}

#[test]
fn python_beats_node() {
    let f = facts(&[("app.py", b""), ("package.json", b"{}")]);
    assert_eq!(detect_runtime(&f), Some(Runtime::Python));
}

#[test]
fn no_runtime_returns_none() {
    assert_eq!(detect_runtime(&facts(&[("README.md", b"hi")])), None);
}

#[test]
fn php_beats_node_for_laravel() {
    let f = facts(&[("composer.json", b"{}"), ("artisan", b""), ("package.json", b"{}")]);
    assert_eq!(detect_runtime(&f), Some(Runtime::Php));
}

#[test]
fn detect_hugo_app() {
    assert_eq!(detect_runtime(&facts(&[("config.toml", b"[server]")])), Some(Runtime::Hugo));
}

#[test]
fn detect_electron_app() {
    let f = facts(&[("package.json", br#"{"dependencies": {"electron": "^30.0.0"}}"#)]);
    assert_eq!(detect_runtime(&f), Some(Runtime::Electron));
}

#[test]
fn detect_electron_requires_dep() {
    let f = facts(&[("package.json", b"{}"), ("main.js", b"console.log('hello')")]);
    assert_eq!(detect_runtime(&f), Some(Runtime::Node));
}

#[test]
fn electron_entrypoint_uses_main_js() {
    let f = facts(&[
        ("package.json", br#"{"dependencies": {"electron": "^30.0.0"}}"#),
        ("main.js", b"console.log('hello')"),
    ]);
    assert_eq!(resolve(&f, Runtime::Electron), argv(&["electron", "/app/main.js"]));
}

#[test]
fn detect_pe_exe_as_binary() {
    let f = facts(&[("app.exe", b"MZ\x90\x00")]);
    assert_eq!(detect_runtime(&f), Some(Runtime::Binary));
    assert_eq!(resolve(&f, Runtime::Binary), argv(&["/app/app.exe"]));
}

#[test]
fn pe_and_elf_is_not_binary() {
    let f = facts(&[("app.exe", b"MZ\x90\x00"), ("app2", b"\x7fELF\x02\x01")]);
    assert_ne!(detect_runtime(&f), Some(Runtime::Binary));
}

#[test]
fn detect_wasm_by_filename() {
    assert_eq!(detect_runtime(&facts(&[("app.wasm", b"\x00asm")])), Some(Runtime::Wasm));
}

#[test]
fn detect_wasm_by_extension() {
    assert_eq!(detect_runtime(&facts(&[("main.wasm", b"\x00asm")])), Some(Runtime::Wasm));
}

#[test]
fn detect_wasm_entrypoint() {
    let f = facts(&[("index.wasm", b"\x00asm")]);
    assert_eq!(resolve(&f, Runtime::Wasm), argv(&["wasmtime", "/app/index.wasm"]));
}

#[test]
fn detect_python_fastapi_module_entrypoint() {
    let f = facts(&[
        ("pyproject.toml", b"[tool.fastapi]\nentrypoint = \"app.main:app\"\n"),
        ("app/__init__.py", b""),
        ("app/main.py", b""),
    ]);
    assert_eq!(detect_runtime(&f), Some(Runtime::Python));
    assert_eq!(resolve(&f, Runtime::Python), argv(&["python3", "-m", "app.main"]));
}

#[test]
fn detect_python_package_main_entrypoint() {
    let f = facts(&[("__main__.py", b"print('hi')"), ("mypackage/__init__.py", b"")]);
    assert_eq!(resolve(&f, Runtime::Python), argv(&["python3", "-m", "mypackage"]));
}

#[test]
fn detect_python_script_fallback() {
    let f = facts(&[("app.py", b"print('hi')")]);
    assert_eq!(resolve(&f, Runtime::Python), argv(&["python3", "/app/app.py"]));
}

#[test]
fn detect_django_manage_py() {
    let f = facts(&[("manage.py", b"#!/usr/bin/env python\n"), ("requirements.txt", b"Django\n")]);
    assert_eq!(
        resolve(&f, Runtime::Python),
        argv(&["python3", "/app/manage.py", "runserver", "0.0.0.0:8000"])
    );
}

#[test]
fn detect_fastapi_uvicorn_entrypoint() {
    let f = facts(&[("requirements.txt", b"fastapi\nuvicorn\n"), ("main.py", b"app = FastAPI()\n")]);
    assert_eq!(
        resolve(&f, Runtime::Python),
        argv(&["uvicorn", "main:app", "--host", "0.0.0.0", "--port", "8000"])
    );
}

#[test]
fn detect_python_pyproject_scripts() {
    let f = facts(&[
        ("pyproject.toml", b"[project.scripts]\nstart = \"uvicorn main:app\"\n"),
        ("main.py", b""),
    ]);
    assert_eq!(resolve(&f, Runtime::Python), argv(&["uvicorn", "main:app"]));
}

#[test]
fn detect_node_express_bin_www() {
    let f = facts(&[("package.json", b"{}"), ("bin/www", b"#!/usr/bin/env node\n")]);
    assert_eq!(resolve(&f, Runtime::Node), argv(&["node", "/app/bin/www"]));
}

#[test]
fn detect_node_nestjs_dist_main() {
    let f = facts(&[("package.json", b"{}"), ("dist/main.js", b"console.log('hi')")]);
    assert_eq!(resolve(&f, Runtime::Node), argv(&["node", "/app/dist/main.js"]));
}

#[test]
fn detect_nextjs_standalone() {
    let f = facts(&[
        ("package.json", b"{}"),
        (".next/standalone/server.js", b"console.log('next')"),
    ]);
    assert_eq!(
        resolve(&f, Runtime::Node),
        argv(&["node", "/app/.next/standalone/server.js"])
    );
}

#[test]
fn detect_rails_bin_rails() {
    let f = facts(&[("Gemfile", b"gem 'rails'\n"), ("bin/rails", b"#!/usr/bin/env ruby\n")]);
    assert_eq!(
        resolve(&f, Runtime::Ruby),
        argv(&["ruby", "/app/bin/rails", "server", "-b", "0.0.0.0"])
    );
}

#[test]
fn detect_php_frankenphp() {
    let f = facts(&[
        ("composer.json", b"{}"),
        ("artisan", b"#!/usr/bin/env php\n"),
        ("frankenphp", b"#!/usr/bin/env php\n"),
        ("Caddyfile", b"{\n\tfrankenphp\n}\n"),
    ]);
    assert_eq!(resolve(&f, Runtime::Php), argv(&["/app/frankenphp", "php-server"]));
}

#[test]
fn detect_php_listen_port_is_env_overridable() {
    let f = facts(&[("index.php", b"<?php")]);
    let ep = resolve_entrypoint(&f, Runtime::Php, None, Some("9090")).unwrap();
    assert_eq!(ep[0], "php");
    assert_eq!(ep[1], "-S");
    assert_eq!(ep[2], "0.0.0.0:9090");
    let ep = resolve(&f, Runtime::Php).unwrap();
    assert_eq!(ep, vec!["php", "-S", "0.0.0.0:8080", "-t", "/app"]);
}

#[test]
fn detect_dotnet_self_contained() {
    let f = facts(&[("app.csproj", b"<Project />"), ("bin/Release/myapp", b"\x7fELF")]);
    assert_eq!(resolve(&f, Runtime::Dotnet), argv(&["/app/bin/Release/myapp"]));
}

#[test]
fn java_opts_split_into_individual_args() {
    let f = facts(&[("app.jar", b"\x50\x4b\x03\x04")]);
    let ep = resolve_entrypoint(&f, Runtime::Java, Some("-Xmx512m -XX:+UseG1GC"), None).unwrap();
    assert_eq!(
        ep,
        vec![
            "java".to_string(),
            "-Xmx512m".to_string(),
            "-XX:+UseG1GC".to_string(),
            "-jar".to_string(),
            "/app/app.jar".to_string(),
            "-Dserver.port=$PORT".to_string(),
        ]
    );
}

#[test]
fn java_entrypoint_emits_port_placeholder() {
    let f = facts(&[("app.jar", b"\x50\x4b\x03\x04")]);
    let ep = resolve(&f, Runtime::Java).unwrap();
    assert_eq!(ep.last().map(String::as_str), Some("-Dserver.port=$PORT"));
}

#[test]
fn bun_exact_bun_falls_through_to_file_search() {
    let f = facts(&[
        ("package.json", br#"{"scripts":{"start":"bun"}}"#),
        ("index.js", b"console.log('hi')"),
    ]);
    assert_eq!(resolve(&f, Runtime::Node), argv(&["node", "/app/index.js"]));
}

#[test]
fn from_name_roundtrips_all_runtimes() {
    for runtime in [
        Runtime::Python,
        Runtime::Deno,
        Runtime::Node,
        Runtime::Electron,
        Runtime::Java,
        Runtime::Ruby,
        Runtime::Dotnet,
        Runtime::Go,
        Runtime::Php,
        Runtime::Perl,
        Runtime::Hugo,
        Runtime::Wasm,
        Runtime::Binary,
    ] {
        let name = runtime.name();
        assert_eq!(Runtime::from_name(name), Some(runtime), "name: {name}");
    }
    assert_eq!(Runtime::from_name("cobol"), None);
    assert_eq!(Runtime::from_name(""), None);
}

#[test]
fn candidates_keep_detection_order() {
    let f = facts(&[("app.py", b""), ("package.json", b"{}"), ("go.mod", b"")]);
    assert_eq!(
        detect_runtime_candidates(&f),
        vec![Runtime::Python, Runtime::Node, Runtime::Go]
    );
}

#[test]
fn node_entry_prefers_package_main() {
    let f = facts(&[("package.json", br#"{"main": "srv.js"}"#), ("index.js", b"")]);
    assert_eq!(find_node_entry(&f), Some("srv.js".to_string()));
    let f = facts(&[
        ("package.json", br#"{"scripts": {"start": "node ./server/app.js"}}"#),
        ("server/app.js", b""),
    ]);
    assert_eq!(find_node_entry(&f), Some("server/app.js".to_string()));
}

#[test]
fn bun_lockfile_selects_bun_run() {
    let f = facts(&[
        ("package.json", br#"{"scripts": {"start": "bun src/index.ts"}}"#),
        ("bun.lockb", b""),
    ]);
    assert_eq!(resolve(&f, Runtime::Node), argv(&["bun", "run", "src/index.ts"]));
    let f = facts(&[("package.json", b"{}"), ("bunfig.toml", b""), ("main.ts", b"")]);
    assert_eq!(resolve(&f, Runtime::Node), argv(&["bun", "run", "main.ts"]));
}

#[test]
fn uvicorn_tool_table_names_the_app() {
    let f = facts(&[("pyproject.toml", b"[tool.uvicorn]\napp = \" \\\"svc:app\\\" \"\n")]);
    assert_eq!(
        resolve(&f, Runtime::Python),
        argv(&["uvicorn", "svc:app", "--host", "0.0.0.0", "--port", "8000"])
    );
}

#[test]
fn dotnet_project_without_publish_uses_dotnet_run() {
    let f = facts(&[("web.csproj", b"<Project />")]);
    assert_eq!(
        resolve(&f, Runtime::Dotnet),
        argv(&["dotnet", "run", "--project", "/app/web"])
    );
}

#[test]
fn php_web_root_and_subdirectory_fallback() {
    let f = facts(&[("composer.json", b"{}"), ("webroot/index.php", b"<?php")]);
    assert_eq!(
        resolve(&f, Runtime::Php),
        argv(&["php", "-S", "0.0.0.0:8080", "-t", "/app/webroot"])
    );
    let f = facts(&[("vendor/index.php", b"<?php"), ("site/index.php", b"<?php")]);
    assert_eq!(
        resolve(&f, Runtime::Php),
        argv(&["php", "-S", "0.0.0.0:8080", "-t", "/app/site"])
    );
    assert_eq!(resolve(&facts(&[("rr.yaml", b"")]), Runtime::Php), argv(&["rr", "/app"]));
}

#[test]
fn fixed_runtimes_and_missing_entries() {
    let empty = facts(&[]);
    assert_eq!(resolve(&empty, Runtime::Hugo), argv(&["hugo", "server"]));
    assert_eq!(resolve(&empty, Runtime::Perl), None);
    assert_eq!(resolve(&empty, Runtime::Deno), None);
    let f = facts(&[("main.ts", b"")]);
    assert_eq!(
        resolve(&f, Runtime::Deno),
        argv(&["deno", "run", "--allow-all", "/app/main.ts"])
    );
}
