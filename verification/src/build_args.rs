//! Build command options and the target/output planning derived from them.
use crate::detect::Runtime;
use crate::fspath::{extension_of, file_stem_of, join, opt_chars, parent_of, path_extension, path_file_stem, path_parent};
use crate::hashing::{hex_encode, hex_lower, lemma_hex_len, sha256, sha256_digest};
use crate::layer::{extend_utf8, utf8};
use crate::strmap::{ascending, sort_strings, string_views};
use crate::text::{decimal, decimal_string};
use crate::text::{
    chars_eq, chars_of, join_path, owned, push_str, split_chars, split_on, string_from_chars,
    trim_bounds, trimmed,
};
use vstd::prelude::*;
use vstd::slice::slice_subrange;

verus! {

/// Options of the `build` command.
#[derive(Debug, Clone)]
pub struct BuildArgs {
    /// Path to the app directory.
    pub app: String,
    /// Output file path.
    pub output: String,
    /// Signing key path.
    pub key: Option<String>,
    /// Isolation mode: sandbox, none, or 0-2.
    pub isolation: String,
    pub seccomp: bool,
    pub gui: bool,
    pub landlock: bool,
    pub encrypt: bool,
    pub squashfs: bool,
    pub enable_sisr: bool,
    pub update_url: Option<String>,
    /// Target architectures, comma-separated.
    pub target: Option<String>,
    pub no_install: bool,
    pub env_file: Option<String>,
    pub env: Vec<String>,
    pub define: Vec<String>,
    pub version_info: Option<String>,
    pub author: Option<String>,
    pub description: Option<String>,
    pub license: Option<String>,
    pub dry_run: bool,
    pub update: bool,
    pub include_paths: Vec<String>,
    pub persist: bool,
    pub tree_shake: bool,
    pub minify: bool,
    pub health_port: Option<u16>,
    pub otel_endpoint: Option<String>,
    pub otel_protocol: String,
    pub cron: Vec<String>,
    pub redetect: bool,
    pub quiet: bool,
    pub json: bool,
    pub embed_interpreter: Option<String>,
    pub interpreter_path: Option<String>,
    pub entrypoint: Vec<String>,
    pub wasm: bool,
    pub wasmtime_path: Option<String>,
    pub wasi: bool,
    pub component_model: bool,
    /// Further target architectures, comma-separated.
    pub cross_compile: Option<String>,
    pub use_cache: bool,
    pub clear_cache: bool,
    pub remote_cache_url: Option<String>,
    pub remote_cache_max_entries: Option<usize>,
    pub compression_level: i32,
    pub health_endpoint: Option<String>,
    pub embed_model: Option<String>,
    pub package_format: String,
}

/// Options of the `env` command.
#[derive(Debug, Clone, Copy)]
pub struct EnvArgs {
    /// Output as JSON.
    pub json: bool,
}

/// Options of the `keygen` command.
#[derive(Debug, Clone)]
pub struct KeygenArgs {
    /// Directory to write keys to.
    pub key_dir: String,
    pub quiet: bool,
    /// Overwrite existing keys.
    pub force: bool,
    pub json: bool,
}

/// Resolved, target-independent settings shared by every target of a build.
#[derive(Debug, Clone)]
pub struct BuildPlan {
    pub verbose: bool,
    pub app_dir: String,
    pub runtime: Runtime,
    pub runtime_name: String,
    pub isolation: String,
    pub isolation_num: u32,
    pub no_install: bool,
    pub seccomp: bool,
    pub landlock: bool,
    pub gui: bool,
    pub encrypt: bool,
    pub squashfs: bool,
    pub version_info: Option<String>,
    pub author: Option<String>,
    pub description: Option<String>,
    pub license: Option<String>,
    pub env_file: Option<String>,
    pub targets: Vec<Option<String>>,
    pub outputs: Vec<String>,
}

/// The isolation level an isolation spec maps to, or the error message.
/// `sandbox` (the default) is level 2, never silently weaker.
pub open spec fn isolation_level(v: Seq<char>) -> Result<u32, Seq<char>> {
    let t = trimmed(v);
    if t == "sandbox"@ || t == "2"@ {
        Ok(2)
    } else if t == "1"@ {
        Ok(1)
    } else if t == "0"@ || t == "none"@ {
        Ok(0)
    } else {
        Err("expected 'sandbox', 'none', or a level 0-2, got '"@ + t + "'"@)
    }
}

/// Whether `v` holds the characters of `lit`.
fn chars_are(v: &[char], lit: &str) -> (r: bool)
    ensures
        r == (v@ == lit@),
{
    let l = chars_of(lit);
    chars_eq(v, l.as_slice())
}

/// The characters of `s` without surrounding whitespace.
fn trimmed_chars(s: &[char]) -> (r: Vec<char>)
    ensures
        r@ == trimmed(s@),
{
    let (a, b) = trim_bounds(s);
    let t = slice_subrange(s, a, b);
    let mut r: Vec<char> = Vec::new();
    let mut i: usize = 0;
    while i < t.len()
        invariant
            i <= t@.len(),
            r@ == t@.take(i as int),
        decreases t@.len() - i,
    {
        r.push(t[i]);
        assert(r@ =~= t@.take(i + 1));
        i = i + 1;
    }
    assert(t@.take(t@.len() as int) =~= t@);
    r
}

/// Maps an isolation spec to the numeric level stored in metadata: 0 runs
/// without a sandbox, 1 is accepted as is, 2 is user and mount namespaces
/// with `pivot_root`.
pub fn parse_isolation(value: &str) -> (r: Result<u32, String>)
    ensures
        isolation_level(value@) matches Ok(n) ==> r == Ok::<u32, String>(n),
        isolation_level(value@) matches Err(m) ==> r matches Err(e) && e@ == m,
{
    let v = chars_of(value);
    let t = trimmed_chars(v.as_slice());
    if chars_are(t.as_slice(), "sandbox") || chars_are(t.as_slice(), "2") {
        Ok(2)
    } else if chars_are(t.as_slice(), "1") {
        Ok(1)
    } else if chars_are(t.as_slice(), "0") || chars_are(t.as_slice(), "none") {
        Ok(0)
    } else {
        let mut m = owned("expected 'sandbox', 'none', or a level 0-2, got '");
        let ts = string_from_chars(t.as_slice());
        push_str(&mut m, ts.as_str());
        push_str(&mut m, "'");
        Err(m)
    }
}

/// The architecture a `--target` value names; an OS shorthand with an
/// unknown architecture means the host's.
pub open spec fn target_arch(target: Seq<char>, host_arch: Seq<char>) -> Seq<char> {
    let parts = split_on(target, '-');
    let p0 = parts[0];
    if p0 == "win"@ || p0 == "macos"@ || p0 == "linux"@ {
        if parts.len() > 1 && (parts[1] == "x64"@ || parts[1] == "amd64"@) {
            "x86_64"@
        } else if parts.len() > 1 && (parts[1] == "arm64"@ || parts[1] == "aarch64"@) {
            "aarch64"@
        } else if parts.len() > 1 && (parts[1] == "x86"@ || parts[1] == "i686"@ || parts[1]
            == "i386"@) {
            "x86"@
        } else {
            host_arch
        }
    } else if p0 == "x86_64"@ || p0 == "amd64"@ {
        "x86_64"@
    } else if p0 == "aarch64"@ || p0 == "arm64"@ {
        "aarch64"@
    } else if p0 == "i686"@ || p0 == "x86"@ || p0 == "i386"@ {
        "x86"@
    } else {
        p0
    }
}

/// The operating system a `--target` value names (Linux unless it says
/// otherwise).
pub open spec fn target_os(target: Seq<char>) -> Seq<char> {
    let parts = split_on(target, '-');
    if parts.contains("apple"@) || parts[0] == "macos"@ {
        "darwin"@
    } else if parts.contains("pc"@) || parts.contains("windows"@) || parts[0] == "win"@ {
        "windows"@
    } else {
        "linux"@
    }
}

/// Targets for macOS name Darwin: every `--target` value whose first
/// dash-separated piece is `macos`, or that has a piece `apple` (a Rust
/// triple such as `aarch64-apple-darwin`), is built for `darwin`; no other
/// value is.
pub proof fn lemma_macos_targets_are_darwin(target: Seq<char>)
    ensures
        (split_on(target, '-')[0] == "macos"@ || split_on(target, '-').contains("apple"@)) ==> target_os(target)
            == "darwin"@,
        !(split_on(target, '-')[0] == "macos"@ || split_on(target, '-').contains("apple"@)) ==> target_os(
            target,
        ) != "darwin"@,
{
    reveal_strlit("darwin");
    reveal_strlit("windows");
    reveal_strlit("linux");
    assert("windows"@.len() != "darwin"@.len());
    assert("linux"@.len() != "darwin"@.len());
}

/// Windows targets: a value that is not a macOS one and whose first piece
/// is `win` or that has a piece `pc` or `windows` (such as
/// `x86_64-pc-windows-msvc`) is built for `windows`; any other non-macOS
/// value is built for `linux`.
pub proof fn lemma_windows_and_linux_targets(target: Seq<char>)
    ensures
        ({
            let v = split_on(target, '-');
            let mac = v[0] == "macos"@ || v.contains("apple"@);
            let win = v[0] == "win"@ || v.contains("pc"@) || v.contains("windows"@);
            &&& (!mac && win) ==> target_os(target) == "windows"@
            &&& (!mac && !win) ==> target_os(target) == "linux"@
        }),
{
}

/// The architecture a target names: the second piece of an OS shorthand
/// (`x64`/`amd64` is `x86_64`, `arm64`/`aarch64` is `aarch64`), or the first
/// piece of a short form or Rust triple (`x86_64`/`amd64`, `aarch64`/`arm64`),
/// whatever the host is.
pub proof fn lemma_target_arch_names(target: Seq<char>, host_arch: Seq<char>)
    ensures
        ({
            let v = split_on(target, '-');
            let short = v[0] == "win"@ || v[0] == "macos"@ || v[0] == "linux"@;
            &&& (short && v.len() > 1 && (v[1] == "x64"@ || v[1] == "amd64"@)) ==> target_arch(target, host_arch) == "x86_64"@
            &&& (short && v.len() > 1 && (v[1] == "arm64"@ || v[1] == "aarch64"@)) ==> target_arch(target, host_arch)
                == "aarch64"@
            &&& (v[0] == "x86_64"@ || v[0] == "amd64"@) ==> target_arch(target, host_arch) == "x86_64"@
            &&& (v[0] == "aarch64"@ || v[0] == "arm64"@) ==> target_arch(target, host_arch) == "aarch64"@
        }),
{
    reveal_strlit("win");
    reveal_strlit("macos");
    reveal_strlit("linux");
    reveal_strlit("x86_64");
    reveal_strlit("amd64");
    reveal_strlit("aarch64");
    reveal_strlit("arm64");
    reveal_strlit("x64");
    reveal_strlit("x86");
    reveal_strlit("i686");
    reveal_strlit("i386");
    let v = split_on(target, '-');
    if v[0] == "x86_64"@ || v[0] == "amd64"@ || v[0] == "aarch64"@ || v[0] == "arm64"@ {
        assert(v[0] != "win"@ && v[0] != "macos"@ && v[0] != "linux"@) by {
            if v[0] == "x86_64"@ {
                assert(v[0][0] == 'x');
            }
            if v[0] == "amd64"@ {
                assert(v[0][0] == 'a');
            }
            if v[0] == "aarch64"@ {
                assert(v[0][0] == 'a');
            }
            if v[0] == "arm64"@ {
                assert(v[0][1] == 'r');
                assert("macos"@[1] == 'a');
            }
        }
    }
    if v.len() > 1 && (v[1] == "arm64"@ || v[1] == "aarch64"@) {
        assert(v[1] != "x64"@ && v[1] != "amd64"@) by {
            if v[1] == "arm64"@ {
                assert(v[1][1] == 'r');
            }
            if v[1] == "aarch64"@ {
                assert(v[1].len() == 7);
            }
        }
    }
    if v[0] == "aarch64"@ || v[0] == "arm64"@ {
        assert(v[0] != "x86_64"@ && v[0] != "amd64"@) by {
            if v[0] == "arm64"@ {
                assert(v[0][1] == 'r');
            }
            if v[0] == "aarch64"@ {
                assert(v[0].len() == 7);
            }
        }
    }
}

/// Whether some piece holds the characters of `lit`.
fn has_piece(parts: &Vec<Vec<char>>, lit: &str) -> (r: bool)
    ensures
        r == Seq::new(parts@.len(), |i: int| parts@[i]@).contains(lit@),
{
    let ghost views = Seq::new(parts@.len(), |i: int| parts@[i]@);
    let n = parts.len();
    let mut i: usize = 0;
    while i < n
        invariant
            n == parts@.len(),
            i <= n,
            views == Seq::new(parts@.len(), |i: int| parts@[i]@),
            forall|j: int| 0 <= j < i ==> #[trigger] views[j] != lit@,
        decreases n - i,
    {
        if chars_are(parts[i].as_slice(), lit) {
            assert(views[i as int] == lit@);
            return true;
        }
        i = i + 1;
    }
    false
}

/// The OS a target names.
fn os_of(parts: &Vec<Vec<char>>) -> (r: &'static str)
    requires
        parts@.len() >= 1,
    ensures
        r@ == ({
            let v = Seq::new(parts@.len(), |i: int| parts@[i]@);
            if v.contains("apple"@) || v[0] == "macos"@ {
                "darwin"@
            } else if v.contains("pc"@) || v.contains("windows"@) || v[0] == "win"@ {
                "windows"@
            } else {
                "linux"@
            }
        }),
{
    if has_piece(parts, "apple") || chars_are(parts[0].as_slice(), "macos") {
        "darwin"
    } else if has_piece(parts, "pc") || has_piece(parts, "windows") || chars_are(
        parts[0].as_slice(),
        "win",
    ) {
        "windows"
    } else {
        "linux"
    }
}

/// The pieces of a target value between dashes.
fn target_parts(target: &str) -> (r: Vec<Vec<char>>)
    ensures
        r@.len() >= 1,
        Seq::new(r@.len(), |i: int| r@[i]@) == split_on(target@, '-'),
{
    let c = chars_of(target);
    let parts = split_chars(c.as_slice(), '-');
    proof {
        crate::text::lemma_split_on_nonempty(target@, '-');
    }
    assert(Seq::new(parts@.len(), |i: int| parts@[i]@) =~= split_on(target@, '-'));
    parts
}

/// Parses a `--target` value into `(arch, os)`: short forms (`aarch64`,
/// `x86_64`, defaulting to Linux), OS shorthands (`win-x64`, `linux-arm64`,
/// ...) and full Rust triples (`aarch64-apple-darwin`, ...). `host_arch` is
/// the architecture of the machine running the build.
pub fn parse_target(target: &str, host_arch: &str) -> (r: (String, String))
    ensures
        r.0@ == target_arch(target@, host_arch@),
        r.1@ == target_os(target@),
{
    let parts = target_parts(target);
    let ghost v = split_on(target@, '-');
    assert(v[0] == parts@[0]@);
    let p0 = parts[0].as_slice();
    let shorthand = chars_are(p0, "win") || chars_are(p0, "macos") || chars_are(p0, "linux");
    let arch: String = if shorthand {
        if parts.len() > 1 {
            assert(v[1] == parts@[1]@);
            let p1 = parts[1].as_slice();
            if chars_are(p1, "x64") || chars_are(p1, "amd64") {
                owned("x86_64")
            } else if chars_are(p1, "arm64") || chars_are(p1, "aarch64") {
                owned("aarch64")
            } else if chars_are(p1, "x86") || chars_are(p1, "i686") || chars_are(p1, "i386") {
                owned("x86")
            } else {
                owned(host_arch)
            }
        } else {
            owned(host_arch)
        }
    } else if chars_are(p0, "x86_64") || chars_are(p0, "amd64") {
        owned("x86_64")
    } else if chars_are(p0, "aarch64") || chars_are(p0, "arm64") {
        owned("aarch64")
    } else if chars_are(p0, "i686") || chars_are(p0, "x86") || chars_are(p0, "i386") {
        owned("x86")
    } else {
        string_from_chars(p0)
    };
    let os = owned(os_of(&parts));
    (arch, os)
}

/// The dash-separated target pieces named on the command line: `--target`
/// (or, without it, the configured default), then `--cross-compile`.
pub open spec fn target_pieces(
    target: Option<Seq<char>>,
    config_target: Option<Seq<char>>,
    cross: Option<Seq<char>>,
) -> Seq<Seq<char>> {
    (match target {
        Some(t) => split_on(t, ','),
        None => match config_target {
            Some(t) => split_on(t, ','),
            None => Seq::empty(),
        },
    }) + (match cross {
        Some(c) => split_on(c, ','),
        None => Seq::empty(),
    })
}

/// The trimmed, non-empty pieces, each kept at its first occurrence.
pub open spec fn distinct_targets(pieces: Seq<Seq<char>>) -> Seq<Seq<char>>
    decreases pieces.len(),
{
    if pieces.len() == 0 {
        Seq::empty()
    } else {
        let prev = distinct_targets(pieces.drop_last());
        let t = trimmed(pieces.last());
        if t.len() == 0 || prev.contains(t) {
            prev
        } else {
            prev.push(t)
        }
    }
}

/// A target: `host` (no target) or a named one.
pub open spec fn target_choice(t: Seq<char>) -> Option<Seq<char>> {
    if t == "host"@ {
        None
    } else {
        Some(t)
    }
}

/// The targets to build, in order; the host alone when none is named.
pub open spec fn resolved_targets(pieces: Seq<Seq<char>>) -> Seq<Option<Seq<char>>> {
    let d = distinct_targets(pieces);
    if d.len() == 0 {
        seq![None]
    } else {
        Seq::new(d.len(), |i: int| target_choice(d[i]))
    }
}

/// Appends the comma-separated pieces of `s`.
fn push_pieces(out: &mut Vec<Vec<char>>, s: &str)
    ensures
        Seq::new(final(out)@.len(), |i: int| final(out)@[i]@) == Seq::new(
            old(out)@.len(),
            |i: int| old(out)@[i]@,
        ) + split_on(s@, ','),
{
    let c = chars_of(s);
    let mut parts = split_chars(c.as_slice(), ',');
    let ghost before = Seq::new(out@.len(), |i: int| out@[i]@);
    let ghost pv = Seq::new(parts@.len(), |i: int| parts@[i]@);
    assert(pv =~= split_on(s@, ','));
    out.append(&mut parts);
    assert(Seq::new(out@.len(), |i: int| out@[i]@) =~= before + pv);
}

/// Expands `--target` and `--cross-compile` (each comma-separated), with the
/// configured default target standing in for a missing `--target`, into the
/// ordered list of targets to build. `None` is the host; duplicates are
/// dropped, the first occurrence wins.
pub fn resolve_targets(args: &BuildArgs, config_target: Option<&str>) -> (r: Vec<Option<String>>)
    ensures
        r@.len() == resolved_targets(
            target_pieces(
                opt_chars(args.target),
                match config_target {
                    Some(t) => Some(t@),
                    None => None,
                },
                opt_chars(args.cross_compile),
            ),
        ).len(),
        forall|i: int|
            0 <= i < r@.len() ==> opt_chars(#[trigger] r@[i]) == resolved_targets(
                target_pieces(
                    opt_chars(args.target),
                    match config_target {
                        Some(t) => Some(t@),
                        None => None,
                    },
                    opt_chars(args.cross_compile),
                ),
            )[i],
{
    let mut pieces: Vec<Vec<char>> = Vec::new();
    assert(Seq::new(pieces@.len(), |i: int| pieces@[i]@) =~= Seq::<Seq<char>>::empty());
    match &args.target {
        Some(t) => push_pieces(&mut pieces, t.as_str()),
        None => match config_target {
            Some(t) => push_pieces(&mut pieces, t),
            None => {},
        },
    }
    let ghost first = Seq::new(pieces@.len(), |i: int| pieces@[i]@);
    match &args.cross_compile {
        Some(c) => push_pieces(&mut pieces, c.as_str()),
        None => {
            assert(first + Seq::<Seq<char>>::empty() =~= first);
        },
    }
    let ghost pv = Seq::new(pieces@.len(), |i: int| pieces@[i]@);
    assert(pv == target_pieces(
        opt_chars(args.target),
        match config_target {
            Some(t) => Some(t@),
            None => None,
        },
        opt_chars(args.cross_compile),
    ));
    let n = pieces.len();
    let mut seen: Vec<Vec<char>> = Vec::new();
    let mut out: Vec<Option<String>> = Vec::new();
    let mut i: usize = 0;
    assert(pv.take(0) =~= Seq::<Seq<char>>::empty());
    while i < n
        invariant
            n == pieces@.len(),
            i <= n,
            pv == Seq::new(pieces@.len(), |i: int| pieces@[i]@),
            seen@.len() == distinct_targets(pv.take(i as int)).len(),
            forall|k: int| 0 <= k < seen@.len() ==> #[trigger] seen@[k]@ == distinct_targets(
                pv.take(i as int),
            )[k],
            out@.len() == seen@.len(),
            forall|k: int| 0 <= k < out@.len() ==> opt_chars(#[trigger] out@[k]) == target_choice(
                seen@[k]@,
            ),
        decreases n - i,
    {
        let t = trimmed_chars(pieces[i].as_slice());
        let ghost prev = distinct_targets(pv.take(i as int));
        assert(pv.take(i + 1).drop_last() =~= pv.take(i as int));
        assert(pv.take(i + 1).last() == pieces@[i as int]@);
        let mut found = false;
        let mut k: usize = 0;
        while k < seen.len()
            invariant
                k <= seen@.len(),
                seen@.len() == prev.len(),
                forall|q: int| 0 <= q < seen@.len() ==> #[trigger] seen@[q]@ == prev[q],
                found == exists|q: int| 0 <= q < k && #[trigger] prev[q] == t@,
            decreases seen@.len() - k,
        {
            if chars_eq(seen[k].as_slice(), t.as_slice()) {
                found = true;
            }
            k = k + 1;
        }
        assert(found == prev.contains(t@));
        if t.len() > 0 && !found {
            let is_host = chars_are(t.as_slice(), "host");
            if is_host {
                out.push(None);
            } else {
                out.push(Some(string_from_chars(t.as_slice())));
            }
            seen.push(t);
        }
        i = i + 1;
    }
    assert(pv.take(n as int) =~= pv);
    if out.len() == 0 {
        out.push(None);
    }
    out
}

/// The file-name slug of a target: path separators become dashes.
pub open spec fn slug_of(t: Seq<char>) -> Seq<char> {
    Seq::new(t.len(), |i: int| if t[i] == '/' || t[i] == '\\' { '-' } else { t[i] })
}

/// The file-name slug of a target, disambiguating multi-target artifacts;
/// the host keeps the plain output name.
pub fn target_slug(target: Option<&str>) -> (r: Option<String>)
    ensures
        target is None ==> r is None,
        target matches Some(t) ==> r matches Some(s) && s@ == slug_of(t@),
{
    match target {
        None => None,
        Some(t) => {
            let c = chars_of(t);
            let mut v: Vec<char> = Vec::new();
            let mut i: usize = 0;
            while i < c.len()
                invariant
                    i <= c@.len(),
                    v@ == slug_of(c@).take(i as int),
                decreases c@.len() - i,
            {
                let ch = c[i];
                if ch == '/' || ch == '\\' {
                    v.push('-');
                } else {
                    v.push(ch);
                }
                assert(v@ =~= slug_of(c@).take(i + 1));
                i = i + 1;
            }
            assert(slug_of(c@).take(c@.len() as int) =~= slug_of(c@));
            Some(string_from_chars(v.as_slice()))
        },
    }
}

/// Whether an optional target builds for Windows.
pub open spec fn is_windows_target(t: Option<Seq<char>>) -> bool {
    t is Some && target_os(t->0) == "windows"@
}

/// The output path of one target of a multi-target build:
/// `<dir>/<name>-<slug>.<ext>`, the extension being `exe` for Windows and
/// the artifact extension `art` otherwise.
pub open spec fn multi_output(output: Seq<char>, t: Option<Seq<char>>, art: Seq<char>) -> Seq<char> {
    let slug = match t {
        Some(s) => slug_of(s),
        None => "host"@,
    };
    let name = match path_file_stem(output) {
        Some(n) => n,
        None => "app"@,
    };
    let ext = if is_windows_target(t) {
        "exe"@
    } else {
        art
    };
    let dir = match path_parent(output) {
        Some(d) => d,
        None => Seq::empty(),
    };
    join_path(dir, name + "-"@ + slug + "."@ + ext)
}

/// The output paths of a build whose artifacts have the extension `art`,
/// one per target. A single target keeps the output name when it ends in
/// `.<art>` or `.exe`, and otherwise writes `app.<art>` (`app.exe` for
/// Windows) inside it; several targets each get a `<name>-<target>` suffix,
/// so their artifacts never overwrite each other.
pub open spec fn planned_outputs(output: Seq<char>, targets: Seq<Option<Seq<char>>>, art: Seq<char>) -> Seq<
    Seq<char>,
> {
    if targets.len() == 1 {
        if path_extension(output) == Some(art) || path_extension(output) == Some("exe"@) {
            seq![output]
        } else {
            seq![
                join_path(
                    output,
                    if is_windows_target(targets[0]) {
                        "app.exe"@
                    } else {
                        "app."@ + art
                    },
                ),
            ]
        }
    } else {
        Seq::new(targets.len(), |i: int| multi_output(output, targets[i], art))
    }
}

/// Whether a target builds for Windows.
fn windows_target(t: &Option<String>) -> (r: bool)
    ensures
        r == is_windows_target(opt_chars(*t)),
{
    match t {
        Some(s) => {
            let parts = target_parts(s.as_str());
            let os = os_of(&parts);
            crate::text::str_eq(os, "windows")
        },
        None => false,
    }
}

/// One output path per target, for `.erebus` artifacts.
pub fn output_paths(args: &BuildArgs, targets: &[Option<String>]) -> (r: Vec<String>)
    ensures
        r@.len() == planned_outputs(
            args.output@,
            Seq::new(targets@.len(), |i: int| opt_chars(targets@[i])),
            "erebus"@,
        ).len(),
        forall|i: int|
            0 <= i < r@.len() ==> #[trigger] r@[i]@ == planned_outputs(
                args.output@,
                Seq::new(targets@.len(), |i: int| opt_chars(targets@[i])),
                "erebus"@,
            )[i],
{
    output_paths_for(args, targets, "erebus")
}

/// One output path per target, for artifacts with the extension
/// `artifact_ext` (the legacy packager writes `.xbin`).
pub fn output_paths_for(args: &BuildArgs, targets: &[Option<String>], artifact_ext: &str) -> (r: Vec<
    String,
>)
    ensures
        r@.len() == planned_outputs(
            args.output@,
            Seq::new(targets@.len(), |i: int| opt_chars(targets@[i])),
            artifact_ext@,
        ).len(),
        forall|i: int|
            0 <= i < r@.len() ==> #[trigger] r@[i]@ == planned_outputs(
                args.output@,
                Seq::new(targets@.len(), |i: int| opt_chars(targets@[i])),
                artifact_ext@,
            )[i],
{
    let ghost tv = Seq::new(targets@.len(), |i: int| opt_chars(targets@[i]));
    let mut out: Vec<String> = Vec::new();
    if targets.len() == 1 {
        let win = windows_target(&targets[0]);
        let ext = extension_of(args.output.as_str());
        let keep = match &ext {
            Some(e) => crate::text::str_eq(e.as_str(), artifact_ext) || crate::text::str_eq(
                e.as_str(),
                "exe",
            ),
            None => false,
        };
        if keep {
            out.push(args.output.clone());
        } else if win {
            out.push(join(args.output.as_str(), "app.exe"));
        } else {
            let mut name = owned("app.");
            push_str(&mut name, artifact_ext);
            out.push(join(args.output.as_str(), name.as_str()));
        }
        return out;
    }
    let stem = file_stem_of(args.output.as_str());
    let parent = parent_of(args.output.as_str());
    let n = targets.len();
    let mut i: usize = 0;
    while i < n
        invariant
            n == targets@.len(),
            n != 1,
            i <= n,
            tv == Seq::new(targets@.len(), |i: int| opt_chars(targets@[i])),
            opt_chars(stem) == path_file_stem(args.output@),
            opt_chars(parent) == path_parent(args.output@),
            out@.len() == i,
            forall|j: int| 0 <= j < i ==> #[trigger] out@[j]@ == multi_output(
                args.output@,
                tv[j],
                artifact_ext@,
            ),
        decreases n - i,
    {
        let t = &targets[i];
        let slug = match t {
            Some(s) => match target_slug(Some(s.as_str())) {
                Some(x) => x,
                None => owned("host"),
            },
            None => owned("host"),
        };
        let mut file = match &stem {
            Some(s) => s.clone(),
            None => owned("app"),
        };
        push_str(&mut file, "-");
        push_str(&mut file, slug.as_str());
        push_str(&mut file, ".");
        if windows_target(t) {
            push_str(&mut file, "exe");
        } else {
            push_str(&mut file, artifact_ext);
        }
        let dir = match &parent {
            Some(d) => d.clone(),
            None => String::new(),
        };
        out.push(join(dir.as_str(), file.as_str()));
        i = i + 1;
    }
    out
}

/// How a flag is written.
pub open spec fn bool_text(b: bool) -> Seq<char> {
    if b {
        "true"@
    } else {
        "false"@
    }
}

/// A flag's text.
pub(crate) fn bool_str(b: bool) -> (r: &'static str)
    ensures
        r@ == bool_text(b),
{
    if b {
        "true"
    } else {
        "false"
    }
}

/// How a signed integer is written in decimal.
pub open spec fn int_text(v: int) -> Seq<char> {
    if v < 0 {
        "-"@ + decimal((-v) as nat)
    } else {
        decimal(v as nat)
    }
}

/// How an optional port is written for debugging: `Some(8080)` or `None`.
pub open spec fn port_debug_text(p: Option<u16>) -> Seq<char> {
    match p {
        Some(v) => "Some("@ + decimal(v as nat) + ")"@,
        None => "None"@,
    }
}

/// What a digest line holds: the hex SHA-256 of the file, or `unreadable`.
pub open spec fn digest_text(content: Option<Seq<u8>>) -> Seq<char> {
    match content {
        Some(b) => hex_lower(sha256(b)),
        None => "unreadable"@,
    }
}

/// One line per string, each after `prefix`.
pub open spec fn prefixed(prefix: Seq<char>, v: Seq<Seq<char>>) -> Seq<Seq<char>> {
    Seq::new(v.len(), |i: int| prefix + v[i])
}

/// `prefix` followed by the string, when there is one.
pub open spec fn opt_entry(prefix: Seq<char>, o: Option<String>) -> Seq<Seq<char>> {
    match o {
        Some(v) => seq![prefix + v@],
        None => Seq::empty(),
    }
}

/// The relative display form of a path under `base`, as `strip_prefix`
/// followed by `display` gives it (the path itself when it is not under `base`). Path rules are those of the
/// target the crate is built for (Windows separators and prefixes differ
/// from Unix ones).
pub uninterp spec fn path_relative(p: Seq<char>, base: Seq<char>) -> Seq<char>;

/// The paths in the order `sort` gives a list of `PathBuf`s (component-wise). Path rules are those of the
/// target the crate is built for (Windows separators and prefixes differ
/// from Unix ones).
pub uninterp spec fn sorted_paths(v: Seq<Seq<char>>) -> Seq<Seq<char>>;

/// Calls `Path::strip_prefix` and `display`.
///
/// Trusted: the result is std's display of `p` relative to `base`, or of `p`
/// itself when `base` is not a prefix (named `path_relative`).
#[verifier::external_body]
fn relative_display(p: &str, base: &str) -> (r: String)
    ensures
        r@ == path_relative(p@, base@),
{
    let path = std::path::Path::new(p);
    path.strip_prefix(base).unwrap_or(path).display().to_string()
}

/// Calls `sort` on the paths as `PathBuf`s.
///
/// Trusted: the result is the paths in std's path order (named
/// `sorted_paths`), a permutation of the input.
#[verifier::external_body]
fn sort_paths(v: &Vec<String>) -> (r: Vec<String>)
    ensures
        string_views(r@) == sorted_paths(string_views(v@)),
        string_views(r@).to_multiset() == string_views(v@).to_multiset(),
{
    let mut paths: Vec<std::path::PathBuf> = v.iter().map(std::path::PathBuf::from).collect();
    paths.sort();
    paths.into_iter().map(|p| p.to_string_lossy().into_owned()).collect()
}

/// The leading fingerprint lines: the build flags and the package fields.
pub open spec fn head_lines(args: BuildArgs, plan: BuildPlan) -> Seq<Seq<char>> {
    flag_lines(args, plan) + service_lines(args) + (if args.embed_model is Some {
        seq!["embed_model=true"@]
    } else {
        Seq::empty()
    }) + package_lines(plan)
}

/// The update, persistence and health-check lines.
pub open spec fn service_lines(args: BuildArgs) -> Seq<Seq<char>> {
    opt_entry("update_url="@, args.update_url) + seq![
        "persist="@ + bool_text(args.persist),
        "health_port="@ + port_debug_text(args.health_port),
    ] + opt_entry("health_endpoint="@, args.health_endpoint)
}

/// The package metadata lines.
pub open spec fn package_lines(plan: BuildPlan) -> Seq<Seq<char>> {
    opt_entry("version="@, plan.version_info) + opt_entry("author="@, plan.author) + opt_entry(
        "description="@,
        plan.description,
    ) + opt_entry("license="@, plan.license)
}

/// The environment-file line, when the build bakes one in.
pub open spec fn env_file_lines(plan: BuildPlan, env_file_content: Option<Seq<u8>>) -> Seq<Seq<char>> {
    match plan.env_file {
        Some(f) => seq!["env_file="@ + f@ + ":"@ + digest_text(env_file_content)],
        None => Seq::empty(),
    }
}

/// The sorted `env` and `define` lines and the interpreter and size flags.
pub open spec fn middle_lines(args: BuildArgs, env_sorted: Seq<Seq<char>>, define_sorted: Seq<Seq<char>>) -> Seq<
    Seq<char>,
> {
    prefixed("env="@, env_sorted) + prefixed("define="@, define_sorted) + opt_entry(
        "embed="@,
        args.embed_interpreter,
    ) + opt_entry("interpreter_path="@, args.interpreter_path) + seq![
        "tree_shake="@ + bool_text(args.tree_shake),
        "minify="@ + bool_text(args.minify),
    ]
}

/// The telemetry, scheduled-task and bundled-path lines.
pub open spec fn tail_lines(args: BuildArgs, plan: BuildPlan, cron_sorted: Seq<Seq<char>>) -> Seq<Seq<char>> {
    (match args.otel_endpoint {
        Some(ep) => seq!["otel="@ + ep@ + "/"@ + args.otel_protocol@],
        None => Seq::empty(),
    }) + prefixed("cron="@, cron_sorted) + Seq::new(
        args.include_paths@.len(),
        |i: int|
            "include="@ + path_relative(
                sorted_paths(string_views(args.include_paths@))[i],
                plan.app_dir@,
            ),
    )
}

/// The signing-key line, when the build is signed.
pub open spec fn key_lines(args: BuildArgs, key_content: Option<Seq<u8>>) -> Seq<Seq<char>> {
    if args.key is Some {
        seq!["key="@ + digest_text(key_content)]
    } else {
        Seq::empty()
    }
}

/// The canonical lines that make up a build's configuration fingerprint,
/// given the sorted `env`, `define` and `cron` values.
pub open spec fn fingerprint_lines(
    args: BuildArgs,
    plan: BuildPlan,
    env_file_content: Option<Seq<u8>>,
    key_content: Option<Seq<u8>>,
    env_sorted: Seq<Seq<char>>,
    define_sorted: Seq<Seq<char>>,
    cron_sorted: Seq<Seq<char>>,
) -> Seq<Seq<char>> {
    head_lines(args, plan) + env_file_lines(plan, env_file_content) + middle_lines(
        args,
        env_sorted,
        define_sorted,
    ) + tail_lines(args, plan, cron_sorted) + key_lines(args, key_content)
}

/// The bytes hashed for a fingerprint: each line's UTF-8 bytes, then a newline.
pub open spec fn lines_bytes(lines: Seq<Seq<char>>) -> Seq<u8>
    decreases lines.len(),
{
    if lines.len() == 0 {
        Seq::empty()
    } else {
        lines_bytes(lines.drop_last()) + utf8(lines.last()) + seq![10u8]
    }
}

/// Whether `s` is `v` put in ascending string order.
pub open spec fn sorted_version(s: Seq<Seq<char>>, v: Seq<String>) -> bool {
    ascending(s) && s.to_multiset() == string_views(v).to_multiset()
}

/// Appends `prefix` + each string of `v` as lines.
fn push_prefixed(lines: &mut Vec<String>, prefix: &str, v: &Vec<String>)
    ensures
        string_views(final(lines)@) == string_views(old(lines)@) + prefixed(prefix@, string_views(v@)),
{
    let ghost start = string_views(lines@);
    let n = v.len();
    let mut i: usize = 0;
    while i < n
        invariant
            n == v@.len(),
            i <= n,
            string_views(lines@) == start + prefixed(prefix@, string_views(v@)).take(i as int),
        decreases n - i,
    {
        let mut l = owned(prefix);
        push_str(&mut l, v[i].as_str());
        let ghost before = string_views(lines@);
        let ghost lv = l@;
        lines.push(l);
        assert(string_views(lines@) =~= before.push(lv));
        assert(prefixed(prefix@, string_views(v@)).take(i + 1) =~= prefixed(prefix@, string_views(v@)).take(i as int).push(lv));
        assert(string_views(lines@) =~= start + prefixed(prefix@, string_views(v@)).take(i + 1));
        i = i + 1;
    }
    assert(prefixed(prefix@, string_views(v@)).take(n as int) =~= prefixed(prefix@, string_views(v@)));
}

/// Appends `prefix` + the string as a line, when there is a string.
pub(crate) fn push_opt(lines: &mut Vec<String>, prefix: &str, o: &Option<String>)
    ensures
        string_views(final(lines)@) == string_views(old(lines)@) + opt_entry(prefix@, *o),
{
    let ghost start = string_views(lines@);
    if let Some(v) = o {
        let mut l = owned(prefix);
        push_str(&mut l, v.as_str());
        let ghost lv = l@;
        lines.push(l);
        assert(string_views(lines@) =~= start.push(lv));
        assert(string_views(lines@) =~= start + opt_entry(prefix@, *o));
    } else {
        assert(string_views(lines@) =~= start + opt_entry(prefix@, *o));
    }
}

/// Appends `prefix` + `value` as a line.
pub(crate) fn push_line(lines: &mut Vec<String>, prefix: &str, value: &str)
    ensures
        string_views(final(lines)@) == string_views(old(lines)@).push(prefix@ + value@),
{
    let ghost start = string_views(lines@);
    let mut l = owned(prefix);
    push_str(&mut l, value);
    let ghost lv = l@;
    lines.push(l);
    assert(string_views(lines@) =~= start.push(lv));
    assert(string_views(lines@) =~= start.push(prefix@ + value@));
}

/// A signed integer in decimal.
pub(crate) fn int_string(v: i32) -> (r: String)
    ensures
        r@ == int_text(v as int),
{
    if v < 0 {
        let m: u64 = (0i64 - (v as i64)) as u64;
        let mut s = owned("-");
        let d = decimal_string(m);
        push_str(&mut s, d.as_str());
        s
    } else {
        decimal_string(v as u64)
    }
}

/// The digest text of a file's content.
fn digest_string(content: Option<&[u8]>) -> (r: String)
    ensures
        r@ == digest_text(
            match content {
                Some(b) => Some(b@),
                None => None,
            },
        ),
{
    match content {
        Some(b) => {
            let d = sha256_digest(b);
            hex_encode(&d)
        },
        None => owned("unreadable"),
    }
}

/// Appends the literal `lit` as a line.
fn push_lit(lines: &mut Vec<String>, lit: &str)
    ensures
        string_views(final(lines)@) == string_views(old(lines)@).push(lit@),
{
    let ghost start = string_views(lines@);
    let l = owned(lit);
    lines.push(l);
    assert(string_views(lines@) =~= start.push(lit@));
}

/// The build-flag lines.
pub open spec fn flag_lines(args: BuildArgs, plan: BuildPlan) -> Seq<Seq<char>> {
    seq![
        "isolation="@ + plan.isolation@,
        "no_install="@ + bool_text(plan.no_install),
        "seccomp="@ + bool_text(plan.seccomp),
        "landlock="@ + bool_text(plan.landlock),
        "encrypt="@ + bool_text(plan.encrypt),
        "squashfs="@ + bool_text(plan.squashfs),
        "compress="@ + int_text(args.compression_level as int),
        "sisr="@ + bool_text(args.enable_sisr),
        "redetect="@ + bool_text(args.redetect),
    ]
}

/// Appends the build-flag lines.
fn push_flags(lines: &mut Vec<String>, args: &BuildArgs, plan: &BuildPlan)
    ensures
        string_views(final(lines)@) == string_views(old(lines)@) + flag_lines(*args, *plan),
{
    let ghost start = string_views(lines@);
    push_line(lines, "isolation=", plan.isolation.as_str());
    push_line(lines, "no_install=", bool_str(plan.no_install));
    push_line(lines, "seccomp=", bool_str(plan.seccomp));
    push_line(lines, "landlock=", bool_str(plan.landlock));
    push_line(lines, "encrypt=", bool_str(plan.encrypt));
    push_line(lines, "squashfs=", bool_str(plan.squashfs));
    let cl = int_string(args.compression_level);
    push_line(lines, "compress=", cl.as_str());
    push_line(lines, "sisr=", bool_str(args.enable_sisr));
    push_line(lines, "redetect=", bool_str(args.redetect));
    assert(string_views(lines@) =~= start + flag_lines(*args, *plan));
}

/// Appends the update, persistence and health-check lines.
fn push_service(lines: &mut Vec<String>, args: &BuildArgs)
    ensures
        string_views(final(lines)@) == string_views(old(lines)@) + service_lines(*args),
{
    let ghost start = string_views(lines@);
    push_opt(lines, "update_url=", &args.update_url);
    push_line(lines, "persist=", bool_str(args.persist));
    let hp = match args.health_port {
        Some(p) => {
            let mut s = owned("Some(");
            let d = decimal_string(p as u64);
            push_str(&mut s, d.as_str());
            push_str(&mut s, ")");
            s
        },
        None => owned("None"),
    };
    push_line(lines, "health_port=", hp.as_str());
    push_opt(lines, "health_endpoint=", &args.health_endpoint);
    assert(string_views(lines@) =~= start + service_lines(*args));
}

/// Appends the package metadata lines.
fn push_package(lines: &mut Vec<String>, plan: &BuildPlan)
    ensures
        string_views(final(lines)@) == string_views(old(lines)@) + package_lines(*plan),
{
    let ghost start = string_views(lines@);
    push_opt(lines, "version=", &plan.version_info);
    push_opt(lines, "author=", &plan.author);
    push_opt(lines, "description=", &plan.description);
    push_opt(lines, "license=", &plan.license);
    assert(string_views(lines@) =~= start + package_lines(*plan));
}

/// Appends the leading fingerprint lines.
fn push_head(lines: &mut Vec<String>, args: &BuildArgs, plan: &BuildPlan)
    ensures
        string_views(final(lines)@) == string_views(old(lines)@) + head_lines(*args, *plan),
{
    let ghost start = string_views(lines@);
    push_flags(lines, args, plan);
    push_service(lines, args);
    let ghost l2 = string_views(lines@);
    if args.embed_model.is_some() {
        push_lit(lines, "embed_model=true");
    }
    let ghost l3 = string_views(lines@);
    assert(l3 =~= l2 + (if args.embed_model is Some {
        seq!["embed_model=true"@]
    } else {
        Seq::<Seq<char>>::empty()
    }));
    push_package(lines, plan);
    assert(string_views(lines@) =~= start + head_lines(*args, *plan));
}

/// Appends the sorted `env` and `define` lines and the interpreter and size flags.
fn push_middle(lines: &mut Vec<String>, args: &BuildArgs, env_sorted: &Vec<String>, define_sorted: &Vec<String>)
    ensures
        string_views(final(lines)@) == string_views(old(lines)@) + middle_lines(
            *args,
            string_views(env_sorted@),
            string_views(define_sorted@),
        ),
{
    let ghost start = string_views(lines@);
    push_prefixed(lines, "env=", env_sorted);
    push_prefixed(lines, "define=", define_sorted);
    push_opt(lines, "embed=", &args.embed_interpreter);
    push_opt(lines, "interpreter_path=", &args.interpreter_path);
    push_line(lines, "tree_shake=", bool_str(args.tree_shake));
    push_line(lines, "minify=", bool_str(args.minify));
    assert(string_views(lines@) =~= start + middle_lines(
        *args,
        string_views(env_sorted@),
        string_views(define_sorted@),
    ));
}

/// Appends the telemetry, scheduled-task and bundled-path lines.
fn push_tail(lines: &mut Vec<String>, args: &BuildArgs, plan: &BuildPlan, cron_sorted: &Vec<String>)
    ensures
        string_views(final(lines)@) == string_views(old(lines)@) + tail_lines(
            *args,
            *plan,
            string_views(cron_sorted@),
        ),
{
    let ghost start = string_views(lines@);
    if let Some(ep) = &args.otel_endpoint {
        let mut v = ep.clone();
        push_str(&mut v, "/");
        push_str(&mut v, args.otel_protocol.as_str());
        push_line(lines, "otel=", v.as_str());
        assert("otel="@ + v@ =~= "otel="@ + ep@ + "/"@ + args.otel_protocol@);
    }
    let ghost l7 = string_views(lines@);
    assert(l7 =~= start + (match args.otel_endpoint {
        Some(ep) => seq!["otel="@ + ep@ + "/"@ + args.otel_protocol@],
        None => Seq::<Seq<char>>::empty(),
    }));
    push_prefixed(lines, "cron=", cron_sorted);
    let ghost l8 = string_views(lines@);
    let inc = sort_paths(&args.include_paths);
    proof {
        vstd::seq_lib::to_multiset_len(string_views(inc@));
        vstd::seq_lib::to_multiset_len(string_views(args.include_paths@));
    }
    let m = inc.len();
    let mut j: usize = 0;
    while j < m
        invariant
            m == inc@.len(),
            m == args.include_paths@.len(),
            string_views(inc@) == sorted_paths(string_views(args.include_paths@)),
            j <= m,
            string_views(lines@) == l8 + Seq::new(
                j as nat,
                |i: int|
                    "include="@ + path_relative(
                        sorted_paths(string_views(args.include_paths@))[i],
                        plan.app_dir@,
                    ),
            ),
        decreases m - j,
    {
        let rel = relative_display(inc[j].as_str(), plan.app_dir.as_str());
        assert(inc@[j as int]@ == sorted_paths(string_views(args.include_paths@))[j as int]);
        push_line(lines, "include=", rel.as_str());
        assert(string_views(lines@) =~= l8 + Seq::new(
            (j + 1) as nat,
            |i: int|
                "include="@ + path_relative(
                    sorted_paths(string_views(args.include_paths@))[i],
                    plan.app_dir@,
                ),
        ));
        j = j + 1;
    }
    assert(string_views(lines@) =~= start + tail_lines(*args, *plan, string_views(cron_sorted@)));
}

/// Canonical fingerprint of every build option that changes the output
/// artifact: the first 16 hex digits of the SHA-256 of the canonical lines.
/// The build cache keys on it alongside the application's source hash, so
/// builds with different flags never share a cache entry. The contents of the
/// environment file and of the signing key are passed in (`None` where the
/// file could not be read).
pub fn config_fingerprint(
    args: &BuildArgs,
    plan: &BuildPlan,
    env_file_content: Option<&[u8]>,
    key_content: Option<&[u8]>,
) -> (r: String)
    ensures
        r@.len() == 16,
        exists|e: Seq<Seq<char>>, d: Seq<Seq<char>>, c: Seq<Seq<char>>|
            sorted_version(e, args.env@) && sorted_version(d, args.define@) && sorted_version(c, args.cron@)
                && r@ == hex_lower(
                sha256(
                    lines_bytes(
                        fingerprint_lines(
                            *args,
                            *plan,
                            match env_file_content {
                                Some(b) => Some(b@),
                                None => None,
                            },
                            match key_content {
                                Some(b) => Some(b@),
                                None => None,
                            },
                            e,
                            d,
                            c,
                        ),
                    ),
                ),
            ).take(16),
{
    let ghost ef = match env_file_content {
        Some(b) => Some(b@),
        None => None,
    };
    let ghost kf = match key_content {
        Some(b) => Some(b@),
        None => None,
    };
    let mut lines: Vec<String> = Vec::new();
    push_head(&mut lines, args, plan);
    let ghost l1 = string_views(lines@);
    if let Some(f) = &plan.env_file {
        let mut v = f.clone();
        push_str(&mut v, ":");
        let dg = digest_string(env_file_content);
        push_str(&mut v, dg.as_str());
        assert(v@ =~= f@ + ":"@ + digest_text(ef));
        push_line(&mut lines, "env_file=", v.as_str());
        assert("env_file="@ + v@ =~= "env_file="@ + f@ + ":"@ + digest_text(ef));
    }
    let ghost l2 = string_views(lines@);
    assert(l2 =~= l1 + env_file_lines(*plan, ef));
    let env_sorted = sort_strings(&args.env);
    let define_sorted = sort_strings(&args.define);
    push_middle(&mut lines, args, &env_sorted, &define_sorted);
    let cron_sorted = sort_strings(&args.cron);
    push_tail(&mut lines, args, plan, &cron_sorted);
    let ghost l3 = string_views(lines@);
    if args.key.is_some() {
        let dg = digest_string(key_content);
        push_line(&mut lines, "key=", dg.as_str());
    }
    let ghost e = string_views(env_sorted@);
    let ghost d = string_views(define_sorted@);
    let ghost c = string_views(cron_sorted@);
    let ghost spec_lines = fingerprint_lines(*args, *plan, ef, kf, e, d, c);
    assert(string_views(lines@) =~= l3 + key_lines(*args, kf));
    assert(string_views(lines@) =~= spec_lines);
    assert(sorted_version(e, args.env@));
    assert(sorted_version(d, args.define@));
    assert(sorted_version(c, args.cron@));
    let mut bytes: Vec<u8> = Vec::new();
    let nl = lines.len();
    let mut k: usize = 0;
    assert(string_views(lines@).take(0) =~= Seq::<Seq<char>>::empty());
    while k < nl
        invariant
            nl == lines@.len(),
            k <= nl,
            bytes@ == lines_bytes(string_views(lines@).take(k as int)),
        decreases nl - k,
    {
        extend_utf8(&mut bytes, lines[k].as_str());
        bytes.push(10u8);
        assert(string_views(lines@).take(k + 1).drop_last() =~= string_views(lines@).take(k as int));
        assert(bytes@ =~= lines_bytes(string_views(lines@).take(k + 1)));
        k = k + 1;
    }
    assert(string_views(lines@).take(nl as int) =~= string_views(lines@));
    let digest = sha256_digest(bytes.as_slice());
    let hex = hex_encode(&digest);
    let hc = chars_of(hex.as_str());
    proof {
        lemma_hex_len(digest@);
    }
    assert(digest@.len() == 32);
    let first = slice_subrange(hc.as_slice(), 0, 16);
    assert(first@ =~= hex_lower(sha256(lines_bytes(spec_lines))).take(16));
    string_from_chars(first)
}

} // verus!
