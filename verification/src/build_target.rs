//! The decisions of one target's build: which option combinations are
//! refused, whether an incremental build can be skipped, how dependencies
//! are installed for a foreign target, which interpreter is embedded, how the
//! entrypoint and cross-compile list are formed, whether the result is
//! re-signed for macOS, and what the JSON report says.
use crate::build_args::{parse_target, target_arch, target_os, BuildArgs};
use crate::fspath::{join, opt_chars, opt_view};
use crate::metadata::EmbeddedInterpreter;
use crate::strmap::{opt_views, string_views};
use crate::text::{
    chars_of, has_substring, join_path, lowercase, owned, push_str, split_chars, split_on, str_contains, str_eq,
    string_from_chars, to_lowercase, trim_bounds, trimmed,
};
use vstd::prelude::*;
use vstd::slice::slice_subrange;

verus! {

/// Why `--encrypt` and `--enable-sisr` cannot be combined.
pub open spec fn encrypt_sisr_message() -> Seq<char> {
    "--encrypt and --enable-sisr cannot be combined: chunk-encrypted SISR binaries are not decryptable by the current stub — use one or the other"@
}

/// Why a `.env` in the app directory stops the build unless it is included
/// explicitly.
pub open spec fn env_file_message(app_dir: Seq<char>) -> Seq<char> {
    app_dir
        + " contains a .env file, which is excluded from the payload by default (its secrets would be extractable from the binary). Bundle it explicitly with `--include "@
        + join_path(app_dir, ".env"@)
        + "` to accept that risk, or provide configuration via `--env-file` / `--env` instead."@
}

/// The checks made before a target is built: encryption and SISR are never
/// combined, and a `.env` file is only bundled when an `--include` names it.
pub open spec fn preflight_error(
    encrypt: bool,
    enable_sisr: bool,
    app_dir: Seq<char>,
    has_env_file: bool,
    env_included: bool,
) -> Option<Seq<char>> {
    if encrypt && enable_sisr {
        Some(encrypt_sisr_message())
    } else if has_env_file && !env_included {
        Some(env_file_message(app_dir))
    } else {
        None
    }
}

/// Refuses a build before it starts. `has_env_file` says whether the app
/// directory holds a `.env` file, `env_included` whether an `--include` path
/// resolves to it.
pub fn preflight(encrypt: bool, enable_sisr: bool, app_dir: &str, has_env_file: bool, env_included: bool) -> (r:
    Result<(), String>)
    ensures
        match r {
            Ok(()) => preflight_error(encrypt, enable_sisr, app_dir@, has_env_file, env_included) is None,
            Err(e) => preflight_error(encrypt, enable_sisr, app_dir@, has_env_file, env_included) == Some(e@),
        },
{
    if encrypt && enable_sisr {
        return Err(
            owned(
                "--encrypt and --enable-sisr cannot be combined: chunk-encrypted SISR binaries are not decryptable by the current stub — use one or the other",
            ),
        );
    }
    if has_env_file && !env_included {
        let mut m = owned(app_dir);
        push_str(
            &mut m,
            " contains a .env file, which is excluded from the payload by default (its secrets would be extractable from the binary). Bundle it explicitly with `--include ",
        );
        let env_path = join(app_dir, ".env");
        push_str(&mut m, env_path.as_str());
        push_str(&mut m, "` to accept that risk, or provide configuration via `--env-file` / `--env` instead.");
        return Err(m);
    }
    Ok(())
}

/// What an incremental (`--update`) build finds when it compares the hashes
/// stored in the existing output with those of the sources.
#[derive(Debug, Clone, Copy, PartialEq, Eq, Structural)]
pub enum UpdateCheck {
    /// No hashes could be read: build.
    NoPrevious,
    /// Nothing changed: the build is skipped.
    UpToDate,
    /// Only the app changed (it is rebuilt in full).
    AppChanged,
    /// The runtime dependencies changed: full rebuild.
    DepsChanged,
}

/// The outcome of comparing the stored hashes (app, runtime dependencies)
/// with the current ones.
pub open spec fn update_outcome(
    existing: Option<(Seq<char>, Seq<char>)>,
    app_hash: Seq<char>,
    rt_hash: Seq<char>,
) -> UpdateCheck {
    match existing {
        None => UpdateCheck::NoPrevious,
        Some(h) => if h.0 == app_hash && h.1 == rt_hash {
            UpdateCheck::UpToDate
        } else if h.1 == rt_hash {
            UpdateCheck::AppChanged
        } else {
            UpdateCheck::DepsChanged
        },
    }
}

/// The hashes an existing output carries, as character sequences.
pub open spec fn hash_pair_view(existing: Option<(String, String)>) -> Option<(Seq<char>, Seq<char>)> {
    match existing {
        Some(h) => Some((h.0@, h.1@)),
        None => None,
    }
}

/// Compares the hashes stored in an existing output with the current ones.
pub fn check_update(existing: &Option<(String, String)>, app_hash: &str, rt_hash: &str) -> (r: UpdateCheck)
    ensures
        r == update_outcome(hash_pair_view(*existing), app_hash@, rt_hash@),
{
    match existing {
        None => UpdateCheck::NoPrevious,
        Some((a, d)) => {
            let same_app = str_eq(a.as_str(), app_hash);
            let same_rt = str_eq(d.as_str(), rt_hash);
            if same_app && same_rt {
                UpdateCheck::UpToDate
            } else if same_rt {
                UpdateCheck::AppChanged
            } else {
                UpdateCheck::DepsChanged
            }
        },
    }
}

/// The package managers whose install step is adapted to the target.
#[derive(Debug, Clone, Copy, PartialEq, Eq, Structural)]
pub enum PackageManagerKind {
    Npm,
    Pnpm,
    Yarn,
    Bun,
    Pip,
    Composer,
    /// Any other package manager: installed with its command as it is.
    Other,
}

/// Whether the package manager runs on Node (npm, pnpm, Yarn, Bun).
pub open spec fn is_node_manager(k: PackageManagerKind) -> bool {
    k == PackageManagerKind::Npm || k == PackageManagerKind::Pnpm || k == PackageManagerKind::Yarn || k
        == PackageManagerKind::Bun
}

/// How the install tool of a package manager is obtained.
#[derive(Debug, Clone, Copy, PartialEq, Eq, Structural)]
pub enum ToolSource {
    /// The tool on the builder's `PATH` is used.
    Host,
    /// A Node build for the target is downloaded first.
    DownloadNode,
    /// The tool is missing and cannot be fetched: this manager is skipped.
    Skip,
}

/// Where the install tool comes from: a cross-target build of a Node
/// manager always fetches the target's Node, as does a missing Node tool; a
/// missing tool of another manager is skipped.
pub open spec fn tool_source_of(k: PackageManagerKind, available: bool, has_target: bool) -> ToolSource {
    if !available || (has_target && is_node_manager(k)) {
        if is_node_manager(k) {
            ToolSource::DownloadNode
        } else {
            ToolSource::Skip
        }
    } else {
        ToolSource::Host
    }
}

/// Decides where the install tool comes from (`available`: whether its
/// command is on `PATH`; `has_target`: whether a target was given).
pub fn tool_source(k: PackageManagerKind, available: bool, has_target: bool) -> (r: ToolSource)
    ensures
        r == tool_source_of(k, available, has_target),
{
    let node = match k {
        PackageManagerKind::Npm | PackageManagerKind::Pnpm | PackageManagerKind::Yarn | PackageManagerKind::Bun => true,
        _ => false,
    };
    if !available || (has_target && node) {
        if node {
            ToolSource::DownloadNode
        } else {
            ToolSource::Skip
        }
    } else {
        ToolSource::Host
    }
}

/// The architecture name npm uses for a Rust architecture name.
pub open spec fn npm_arch(arch: Seq<char>) -> Seq<char> {
    if arch == "x86_64"@ {
        "x64"@
    } else if arch == "aarch64"@ || arch == "arm64"@ {
        "arm64"@
    } else if arch == "i686"@ || arch == "i386"@ || arch == "x86"@ {
        "ia32"@
    } else {
        arch
    }
}

/// The platform name npm uses for an OS name.
pub open spec fn npm_platform(os: Seq<char>) -> Seq<char> {
    if os == "windows"@ {
        "win32"@
    } else {
        os
    }
}

/// Whether a `--cross-compile` list names an architecture other than the host's.
pub open spec fn cross_pip(cross_compile: Option<Seq<char>>, host_arch: Seq<char>) -> bool {
    match cross_compile {
        Some(c) => names_other_arch_spec(c, host_arch),
        None => false,
    }
}

/// Whether some comma-separated piece of `list`, trimmed, differs from `host_arch`.
pub open spec fn names_other_arch_spec(list: Seq<char>, host_arch: Seq<char>) -> bool {
    exists|i: int| 0 <= i < split_on(list, ',').len() && #[trigger] trimmed(split_on(list, ',')[i]) != host_arch
}

/// The flags that make a Node manager install for the target's platform
/// (without running install scripts, which cannot run on the host).
pub open spec fn node_cross_flags(k: PackageManagerKind, arch: Seq<char>, os: Seq<char>) -> Seq<Seq<char>> {
    if k == PackageManagerKind::Yarn {
        seq!["--platform"@, npm_platform(os), "--ignore-scripts"@]
    } else {
        seq!["--platform"@, npm_platform(os), "--arch"@, npm_arch(arch), "--ignore-scripts"@]
    }
}

/// The arguments of an install command: `extra` (what fetching the tool
/// adds in front), the command's own arguments after its program, then
/// `--no-binary :all:` for pip when cross-compiling to another architecture,
/// and the target-platform flags for a Node manager building for another
/// architecture or OS.
pub open spec fn install_argv(
    k: PackageManagerKind,
    extra: Seq<Seq<char>>,
    cmd: Seq<Seq<char>>,
    cross_compile: Option<Seq<char>>,
    target: Option<Seq<char>>,
    host_arch: Seq<char>,
    host_os: Seq<char>,
) -> Seq<Seq<char>> {
    extra + cmd.skip(1) + (if k == PackageManagerKind::Pip && cross_pip(cross_compile, host_arch) {
        seq!["--no-binary"@, ":all:"@]
    } else {
        Seq::empty()
    }) + match target {
        Some(t) => if is_node_manager(k) && (target_arch(t, host_arch) != host_arch || target_os(t) != host_os) {
            node_cross_flags(k, target_arch(t, host_arch), target_os(t))
        } else {
            Seq::empty()
        },
        None => Seq::empty(),
    }
}

/// Appends the strings of `more`.
fn push_all(out: &mut Vec<String>, more: &Vec<String>, from: usize)
    requires
        from <= more@.len(),
    ensures
        string_views(final(out)@) == string_views(old(out)@) + string_views(more@).skip(from as int),
{
    let ghost start = string_views(out@);
    let mut i: usize = from;
    assert(string_views(more@).skip(from as int).take(0) =~= Seq::<Seq<char>>::empty());
    assert(string_views(out@) =~= start + string_views(more@).skip(from as int).take(0));
    while i < more.len()
        invariant
            from <= i <= more@.len(),
            string_views(out@) == start + string_views(more@).skip(from as int).take(i - from),
        decreases more@.len() - i,
    {
        let ghost prev = string_views(out@);
        out.push(owned(more[i].as_str()));
        assert(string_views(more@)[i as int] == more@[i as int]@);
        assert(string_views(out@) =~= prev.push(more@[i as int]@));
        assert(string_views(more@).skip(from as int).take(i + 1 - from) =~= string_views(more@).skip(from as int).take(
            i - from,
        ).push(string_views(more@)[i as int]));
        assert(string_views(out@) =~= start + string_views(more@).skip(from as int).take(i + 1 - from));
        i = i + 1;
    }
    assert(string_views(more@).skip(from as int).take(more@.len() - from) =~= string_views(more@).skip(from as int));
}

/// Appends one string.
fn push_one(out: &mut Vec<String>, s: &str)
    ensures
        string_views(final(out)@) == string_views(old(out)@).push(s@),
{
    let ghost start = string_views(out@);
    out.push(owned(s));
    assert(string_views(out@) =~= start.push(s@));
}

/// Whether some piece of a comma-separated list, trimmed, differs from `host_arch`.
fn names_other_arch(list: &str, host_arch: &str) -> (r: bool)
    ensures
        r == cross_pip(Some(list@), host_arch@),
{
    let cs = chars_of(list);
    let parts = split_chars(cs.as_slice(), ',');
    let ghost ps = split_on(list@, ',');
    let mut i: usize = 0;
    while i < parts.len()
        invariant
            i <= parts@.len(),
            parts@.len() == ps.len(),
            cs@ == list@,
            ps == split_on(list@, ','),
            forall|j: int| 0 <= j < parts@.len() ==> #[trigger] parts@[j]@ == ps[j],
            forall|j: int| 0 <= j < i ==> #[trigger] trimmed(ps[j]) == host_arch@,
        decreases parts@.len() - i,
    {
        let (a, b) = trim_bounds(parts[i].as_slice());
        let t = string_from_chars(slice_subrange(parts[i].as_slice(), a, b));
        assert(t@ == trimmed(ps[i as int]));
        if !str_eq(t.as_str(), host_arch) {
            assert(trimmed(split_on(list@, ',')[i as int]) != host_arch@);
            assert(0 <= i < split_on(list@, ',').len());
            assert(exists|j: int|
                0 <= j < split_on(list@, ',').len() && #[trigger] trimmed(split_on(list@, ',')[j]) != host_arch@);
            return true;
        }
        i = i + 1;
    }
    false
}

/// The npm architecture name.
fn npm_arch_of(arch: &str) -> (r: String)
    ensures
        r@ == npm_arch(arch@),
{
    if str_eq(arch, "x86_64") {
        owned("x64")
    } else if str_eq(arch, "aarch64") || str_eq(arch, "arm64") {
        owned("arm64")
    } else if str_eq(arch, "i686") || str_eq(arch, "i386") || str_eq(arch, "x86") {
        owned("ia32")
    } else {
        owned(arch)
    }
}

/// The npm platform name.
fn npm_platform_of(os: &str) -> (r: String)
    ensures
        r@ == npm_platform(os@),
{
    if str_eq(os, "windows") {
        owned("win32")
    } else {
        owned(os)
    }
}

/// The arguments of an install command (`cmd` is the command with its
/// program first; `extra` goes in front of its arguments). `host_arch` and
/// `host_os` describe the builder.
pub fn install_arguments(
    k: PackageManagerKind,
    extra: &Vec<String>,
    cmd: &Vec<String>,
    cross_compile: Option<&str>,
    target: Option<&str>,
    host_arch: &str,
    host_os: &str,
) -> (r: Vec<String>)
    requires
        cmd@.len() >= 1,
    ensures
        string_views(r@) == install_argv(
            k,
            string_views(extra@),
            string_views(cmd@),
            opt_view(cross_compile),
            opt_view(target),
            host_arch@,
            host_os@,
        ),
{
    let mut out: Vec<String> = Vec::new();
    push_all(&mut out, extra, 0);
    assert(string_views(extra@).skip(0) =~= string_views(extra@));
    assert(Seq::<Seq<char>>::empty() + string_views(extra@) =~= string_views(extra@));
    push_all(&mut out, cmd, 1);
    let ghost base = string_views(out@);
    let pip = match k {
        PackageManagerKind::Pip => true,
        _ => false,
    };
    let cross = match cross_compile {
        Some(c) => names_other_arch(c, host_arch),
        None => false,
    };
    if pip && cross {
        push_one(&mut out, "--no-binary");
        push_one(&mut out, ":all:");
    }
    assert(string_views(out@) =~= base + (if k == PackageManagerKind::Pip && cross_pip(opt_view(cross_compile), host_arch@) {
        seq!["--no-binary"@, ":all:"@]
    } else {
        Seq::empty()
    }));
    let ghost mid = string_views(out@);
    let node = match k {
        PackageManagerKind::Npm | PackageManagerKind::Pnpm | PackageManagerKind::Yarn | PackageManagerKind::Bun => true,
        _ => false,
    };
    match target {
        Some(t) => {
            let (arch, os) = parse_target(t, host_arch);
            if node && (!str_eq(arch.as_str(), host_arch) || !str_eq(os.as_str(), host_os)) {
                let platform = npm_platform_of(os.as_str());
                push_one(&mut out, "--platform");
                push_one(&mut out, platform.as_str());
                match k {
                    PackageManagerKind::Yarn => {},
                    _ => {
                        let a = npm_arch_of(arch.as_str());
                        push_one(&mut out, "--arch");
                        push_one(&mut out, a.as_str());
                    },
                }
                push_one(&mut out, "--ignore-scripts");
                assert(string_views(out@) =~= mid + node_cross_flags(k, arch@, os@));
            } else {
                assert(string_views(out@) =~= mid + Seq::<Seq<char>>::empty());
            }
        },
        None => {
            assert(string_views(out@) =~= mid + Seq::<Seq<char>>::empty());
        },
    }
    out
}

/// The interpreter to embed when none is named: the runtime's own.
pub open spec fn runtime_interpreter_name(runtime_name: Seq<char>) -> Option<Seq<char>> {
    if runtime_name == "python"@ {
        Some("python3"@)
    } else if runtime_name == "node"@ || runtime_name == "php"@ || runtime_name == "ruby"@ || runtime_name
        == "deno"@ {
        Some(runtime_name)
    } else {
        None
    }
}

/// The interpreter whose files are copied into the payload: the one
/// `--embed-interpreter` names, else the runtime's own.
pub open spec fn interpreter_to_embed(embed: Option<Seq<char>>, runtime_name: Seq<char>) -> Option<Seq<char>> {
    match embed {
        Some(e) => Some(e),
        None => runtime_interpreter_name(runtime_name),
    }
}

/// The interpreter whose files are copied into the payload.
pub fn embedded_interpreter_name(embed: Option<&str>, runtime_name: &str) -> (r: Option<String>)
    ensures
        opt_chars(r) == interpreter_to_embed(opt_view(embed), runtime_name@),
{
    match embed {
        Some(e) => Some(owned(e)),
        None => if str_eq(runtime_name, "python") {
            Some(owned("python3"))
        } else if str_eq(runtime_name, "node") || str_eq(runtime_name, "php") || str_eq(runtime_name, "ruby")
            || str_eq(runtime_name, "deno") {
            Some(owned(runtime_name))
        } else {
            None
        },
    }
}

/// The known interpreter a (lowercased) `--embed-interpreter` name stands for.
pub open spec fn known_interpreter(lower: Seq<char>) -> Option<EmbeddedInterpreter> {
    if lower == "python3"@ || lower == "python"@ {
        Some(EmbeddedInterpreter::Python3)
    } else if lower == "node"@ {
        Some(EmbeddedInterpreter::Node)
    } else if lower == "deno"@ {
        Some(EmbeddedInterpreter::Deno)
    } else if lower == "ruby"@ {
        Some(EmbeddedInterpreter::Ruby)
    } else if lower == "php"@ {
        Some(EmbeddedInterpreter::Php)
    } else if lower == "perl"@ {
        Some(EmbeddedInterpreter::Perl)
    } else if lower == "java"@ {
        Some(EmbeddedInterpreter::Java)
    } else if lower == "go"@ {
        Some(EmbeddedInterpreter::Go)
    } else if lower == "wasm"@ {
        Some(EmbeddedInterpreter::Wasm)
    } else {
        None
    }
}

/// Whether `i` is the interpreter the lowercased name stands for: a known
/// one, else a custom interpreter of that name.
pub open spec fn names_interpreter(i: EmbeddedInterpreter, lower: Seq<char>) -> bool {
    match known_interpreter(lower) {
        Some(k) => i == k,
        None => i matches EmbeddedInterpreter::Custom(p) && p@ == lower,
    }
}

/// The interpreter recorded in the metadata when none is named: the runtime's own.
pub open spec fn runtime_interpreter(runtime_name: Seq<char>) -> Option<EmbeddedInterpreter> {
    if runtime_name == "python"@ {
        Some(EmbeddedInterpreter::Python3)
    } else if runtime_name == "node"@ {
        Some(EmbeddedInterpreter::Node)
    } else if runtime_name == "php"@ {
        Some(EmbeddedInterpreter::Php)
    } else if runtime_name == "ruby"@ {
        Some(EmbeddedInterpreter::Ruby)
    } else if runtime_name == "deno"@ {
        Some(EmbeddedInterpreter::Deno)
    } else {
        None
    }
}

/// The interpreter a lowercased name stands for.
fn interpreter_of(lower: &str) -> (r: EmbeddedInterpreter)
    ensures
        names_interpreter(r, lower@),
{
    if str_eq(lower, "python3") || str_eq(lower, "python") {
        EmbeddedInterpreter::Python3
    } else if str_eq(lower, "node") {
        EmbeddedInterpreter::Node
    } else if str_eq(lower, "deno") {
        EmbeddedInterpreter::Deno
    } else if str_eq(lower, "ruby") {
        EmbeddedInterpreter::Ruby
    } else if str_eq(lower, "php") {
        EmbeddedInterpreter::Php
    } else if str_eq(lower, "perl") {
        EmbeddedInterpreter::Perl
    } else if str_eq(lower, "java") {
        EmbeddedInterpreter::Java
    } else if str_eq(lower, "go") {
        EmbeddedInterpreter::Go
    } else if str_eq(lower, "wasm") {
        EmbeddedInterpreter::Wasm
    } else {
        EmbeddedInterpreter::Custom(owned(lower))
    }
}

/// The interpreter recorded in the metadata, with its path: the one
/// `--embed-interpreter` names (matched case-insensitively) with
/// `--interpreter-path`, else the runtime's own and no path.
pub fn interpreter_choice(embed: Option<&str>, interpreter_path: Option<&str>, runtime_name: &str) -> (r: (
    Option<EmbeddedInterpreter>,
    Option<String>,
))
    ensures
        match embed {
            Some(e) => r.0 matches Some(i) && names_interpreter(i, lowercase(e@)) && opt_chars(r.1) == opt_view(
                interpreter_path,
            ),
            None => r.0 == runtime_interpreter(runtime_name@) && r.1 is None,
        },
{
    match embed {
        Some(e) => {
            let lower = to_lowercase(e);
            let i = interpreter_of(lower.as_str());
            let p = match interpreter_path {
                Some(p) => Some(owned(p)),
                None => None,
            };
            (Some(i), p)
        },
        None => {
            let i = if str_eq(runtime_name, "python") {
                Some(EmbeddedInterpreter::Python3)
            } else if str_eq(runtime_name, "node") {
                Some(EmbeddedInterpreter::Node)
            } else if str_eq(runtime_name, "php") {
                Some(EmbeddedInterpreter::Php)
            } else if str_eq(runtime_name, "ruby") {
                Some(EmbeddedInterpreter::Ruby)
            } else if str_eq(runtime_name, "deno") {
                Some(EmbeddedInterpreter::Deno)
            } else {
                None
            };
            (i, None)
        },
    }
}

/// The entrypoint recorded for the app: the resolved one (`run` when none
/// was found), and for a WebAssembly app run with `--wasi` or
/// `--component-model`, those flags after the program.
pub open spec fn final_entrypoint(
    resolved: Option<Seq<Seq<char>>>,
    is_wasm: bool,
    wasi: bool,
    component_model: bool,
) -> Seq<Seq<char>> {
    let ep = match resolved {
        Some(e) => e,
        None => seq!["run"@],
    };
    if is_wasm && (wasi || component_model) && ep.len() >= 1 {
        seq![ep[0]] + (if wasi {
            seq!["--wasi"@]
        } else {
            Seq::empty()
        }) + (if component_model {
            seq!["--component-model"@]
        } else {
            Seq::empty()
        }) + ep.skip(1)
    } else {
        ep
    }
}

/// Forms the recorded entrypoint from the resolved one.
pub fn entrypoint_for(resolved: Option<Vec<String>>, is_wasm: bool, wasi: bool, component_model: bool) -> (r: Vec<
    String,
>)
    requires
        is_wasm && (wasi || component_model) ==> (resolved matches Some(e) ==> e@.len() >= 1),
    ensures
        string_views(r@) == final_entrypoint(opt_views(resolved), is_wasm, wasi, component_model),
{
    let ep = match resolved {
        Some(e) => e,
        None => vec![owned("run")],
    };
    assert(string_views(ep@) == match opt_views(resolved) {
        Some(e) => e,
        None => seq!["run"@],
    }) by {
        if resolved is None {
            assert(string_views(ep@) =~= seq!["run"@]);
        }
    }
    if is_wasm && (wasi || component_model) {
        let mut out: Vec<String> = Vec::new();
        push_one(&mut out, ep[0].as_str());
        if wasi {
            push_one(&mut out, "--wasi");
        }
        if component_model {
            push_one(&mut out, "--component-model");
        }
        let ghost head = string_views(out@);
        push_all(&mut out, &ep, 1);
        assert(string_views(out@) =~= final_entrypoint(opt_views(resolved), is_wasm, wasi, component_model));
        out
    } else {
        ep
    }
}

/// The targets of `--cross-compile`: its comma-separated pieces, trimmed.
pub open spec fn cross_targets(list: Seq<char>) -> Seq<Seq<char>> {
    split_on(list, ',').map_values(|p: Seq<char>| trimmed(p))
}

/// Splits the `--cross-compile` list into its targets.
pub fn cross_compile_targets(list: &str) -> (r: Vec<String>)
    ensures
        string_views(r@) == cross_targets(list@),
{
    let cs = chars_of(list);
    let parts = split_chars(cs.as_slice(), ',');
    let mut out: Vec<String> = Vec::new();
    let mut i: usize = 0;
    while i < parts.len()
        invariant
            i <= parts@.len(),
            parts@.len() == split_on(list@, ',').len(),
            cs@ == list@,
            forall|j: int| 0 <= j < parts@.len() ==> #[trigger] parts@[j]@ == split_on(list@, ',')[j],
            string_views(out@) == cross_targets(list@).take(i as int),
        decreases parts@.len() - i,
    {
        let (a, b) = trim_bounds(parts[i].as_slice());
        let t = string_from_chars(slice_subrange(parts[i].as_slice(), a, b));
        let ghost before = string_views(out@);
        assert(t@ == trimmed(split_on(list@, ',')[i as int]));
        assert(cross_targets(list@)[i as int] == trimmed(split_on(list@, ',')[i as int]));
        out.push(t);
        assert(string_views(out@) =~= before.push(t@));
        assert(cross_targets(list@).take(i + 1) =~= cross_targets(list@).take(i as int).push(
            cross_targets(list@)[i as int],
        ));
        assert(string_views(out@) =~= cross_targets(list@).take(i + 1));
        i = i + 1;
    }
    assert(cross_targets(list@).take(parts@.len() as int) =~= cross_targets(list@));
    out
}

/// Whether a target builds for macOS, whose binaries are re-signed after
/// assembly.
pub open spec fn is_macos_target(target: Seq<char>) -> bool {
    has_substring(target, "darwin"@) || has_substring(target, "apple"@) || has_substring(target, "macos"@)
}

/// Whether the assembled binary must be re-signed for macOS.
pub fn needs_macos_signing(target: Option<&str>) -> (r: bool)
    ensures
        r == match target {
            Some(t) => is_macos_target(t@),
            None => false,
        },
{
    match target {
        Some(t) => str_contains(t, "darwin") || str_contains(t, "apple") || str_contains(t, "macos"),
        None => false,
    }
}

/// The name of the payload format.
pub open spec fn payload_format_name(squashfs: bool) -> Seq<char> {
    if squashfs {
        "squashfs"@
    } else {
        "zstd-tar"@
    }
}

/// The name of the payload format: a SquashFS image or a zstd-compressed tar.
pub fn payload_format(squashfs: bool) -> (r: &'static str)
    ensures
        r@ == payload_format_name(squashfs),
{
    if squashfs {
        "squashfs"
    } else {
        "zstd-tar"
    }
}

/// What `--json` reports of a finished build.
#[derive(Debug)]
pub struct BuildReport {
    pub output: String,
    pub size_bytes: u64,
    pub runtime: String,
    pub format: String,
    /// Whether the binary itself was signed (never with SISR).
    pub signed: bool,
    pub encrypted: bool,
    pub sisr: bool,
    /// Whether the SISR manifest was signed.
    pub manifest_signed: bool,
}

/// The JSON report of a finished build: a binary is signed when a key was
/// given without SISR; with SISR the key signs the manifest instead. The
/// format is reported as `zstd-tar`.
pub fn build_report(args: &BuildArgs, runtime_name: &str, output: &str, size_bytes: u64) -> (r: BuildReport)
    ensures
        r.output@ == output@,
        r.size_bytes == size_bytes,
        r.runtime@ == runtime_name@,
        r.format@ == "zstd-tar"@,
        r.signed == (args.key is Some && !args.enable_sisr),
        r.encrypted == args.encrypt,
        r.sisr == args.enable_sisr,
        r.manifest_signed == (args.enable_sisr && args.key is Some),
{
    let keyed = match &args.key {
        Some(_) => true,
        None => false,
    };
    BuildReport {
        output: owned(output),
        size_bytes,
        runtime: owned(runtime_name),
        format: owned("zstd-tar"),
        signed: keyed && !args.enable_sisr,
        encrypted: args.encrypt,
        sisr: args.enable_sisr,
        manifest_signed: args.enable_sisr && keyed,
    }
}

} // verus!
