//! Runtime detection: which runtime an application directory uses, decided
//! from what the directory holds.
//!
//! Detection order: Python > Deno > Electron > Node > Java > Ruby > .NET >
//! Go > PHP > Perl > Hugo > Wasm > Binary.
use crate::fspath::{extension_of, opt_chars, path_extension};
use crate::jsonread::{json_string_at, json_string_at_path, path_view};
use crate::text::{
    chars_of, has_prefix, has_substring, owned, str_contains, str_eq, str_starts_with, words,
    split_whitespace, string_from_chars,
};
use crate::strmap::string_views;
use vstd::prelude::*;

verus! {

/// A runtime an application can use.
#[derive(Debug, Clone, Copy, PartialEq, Eq, Structural)]
pub enum Runtime {
    Python,
    Deno,
    Node,
    Electron,
    Java,
    Ruby,
    Dotnet,
    Go,
    Php,
    Perl,
    Hugo,
    Wasm,
    Binary,
}

/// The name of a runtime as written in artifact metadata.
pub open spec fn runtime_name(r: Runtime) -> Seq<char> {
    match r {
        Runtime::Python => "python"@,
        Runtime::Deno => "deno"@,
        Runtime::Node => "node"@,
        Runtime::Electron => "electron"@,
        Runtime::Java => "java"@,
        Runtime::Ruby => "ruby"@,
        Runtime::Dotnet => "dotnet"@,
        Runtime::Go => "go"@,
        Runtime::Php => "php"@,
        Runtime::Perl => "perl"@,
        Runtime::Hugo => "hugo"@,
        Runtime::Wasm => "wasm"@,
        Runtime::Binary => "binary"@,
    }
}

/// The runtime with name `n`, if any.
pub open spec fn runtime_named(n: Seq<char>) -> Option<Runtime> {
    if n == "python"@ {
        Some(Runtime::Python)
    } else if n == "deno"@ {
        Some(Runtime::Deno)
    } else if n == "node"@ {
        Some(Runtime::Node)
    } else if n == "electron"@ {
        Some(Runtime::Electron)
    } else if n == "java"@ {
        Some(Runtime::Java)
    } else if n == "ruby"@ {
        Some(Runtime::Ruby)
    } else if n == "dotnet"@ {
        Some(Runtime::Dotnet)
    } else if n == "go"@ {
        Some(Runtime::Go)
    } else if n == "php"@ {
        Some(Runtime::Php)
    } else if n == "perl"@ {
        Some(Runtime::Perl)
    } else if n == "hugo"@ {
        Some(Runtime::Hugo)
    } else if n == "wasm"@ {
        Some(Runtime::Wasm)
    } else if n == "binary"@ {
        Some(Runtime::Binary)
    } else {
        None
    }
}

impl Runtime {
    /// The runtime's name.
    pub fn name(&self) -> (r: &'static str)
        ensures
            r@ == runtime_name(*self),
    {
        match self {
            Runtime::Python => "python",
            Runtime::Deno => "deno",
            Runtime::Node => "node",
            Runtime::Electron => "electron",
            Runtime::Java => "java",
            Runtime::Ruby => "ruby",
            Runtime::Dotnet => "dotnet",
            Runtime::Go => "go",
            Runtime::Php => "php",
            Runtime::Perl => "perl",
            Runtime::Hugo => "hugo",
            Runtime::Wasm => "wasm",
            Runtime::Binary => "binary",
        }
    }

    /// Parses a runtime name as written in artifact metadata; unknown names
    /// give `None`, so crafted metadata is refused rather than defaulted.
    pub fn from_name(name: &str) -> (r: Option<Self>)
        ensures
            r == runtime_named(name@),
    {
        if str_eq(name, "python") {
            Some(Runtime::Python)
        } else if str_eq(name, "deno") {
            Some(Runtime::Deno)
        } else if str_eq(name, "node") {
            Some(Runtime::Node)
        } else if str_eq(name, "electron") {
            Some(Runtime::Electron)
        } else if str_eq(name, "java") {
            Some(Runtime::Java)
        } else if str_eq(name, "ruby") {
            Some(Runtime::Ruby)
        } else if str_eq(name, "dotnet") {
            Some(Runtime::Dotnet)
        } else if str_eq(name, "go") {
            Some(Runtime::Go)
        } else if str_eq(name, "php") {
            Some(Runtime::Php)
        } else if str_eq(name, "perl") {
            Some(Runtime::Perl)
        } else if str_eq(name, "hugo") {
            Some(Runtime::Hugo)
        } else if str_eq(name, "wasm") {
            Some(Runtime::Wasm)
        } else if str_eq(name, "binary") {
            Some(Runtime::Binary)
        } else {
            None
        }
    }
}

/// Every runtime's name parses back to that runtime.
pub proof fn lemma_name_roundtrip(r: Runtime)
    ensures
        runtime_named(runtime_name(r)) == Some(r),
{
    reveal_strlit("python");
    reveal_strlit("deno");
    reveal_strlit("node");
    reveal_strlit("electron");
    reveal_strlit("java");
    reveal_strlit("ruby");
    reveal_strlit("dotnet");
    reveal_strlit("go");
    reveal_strlit("php");
    reveal_strlit("perl");
    reveal_strlit("hugo");
    reveal_strlit("wasm");
    reveal_strlit("binary");
    match r {
        Runtime::Python => {
        },
        Runtime::Deno => {
            assert("deno"@.len() != "python"@.len());
        },
        Runtime::Node => {
            assert("node"@.len() != "python"@.len());
            assert("node"@[0] != "deno"@[0]);
        },
        Runtime::Electron => {
            assert("electron"@.len() != "python"@.len());
            assert("electron"@.len() != "deno"@.len());
            assert("electron"@.len() != "node"@.len());
        },
        Runtime::Java => {
            assert("java"@.len() != "python"@.len());
            assert("java"@[0] != "deno"@[0]);
            assert("java"@[0] != "node"@[0]);
            assert("java"@.len() != "electron"@.len());
        },
        Runtime::Ruby => {
            assert("ruby"@.len() != "python"@.len());
            assert("ruby"@[0] != "deno"@[0]);
            assert("ruby"@[0] != "node"@[0]);
            assert("ruby"@.len() != "electron"@.len());
            assert("ruby"@[0] != "java"@[0]);
        },
        Runtime::Dotnet => {
            assert("dotnet"@[0] != "python"@[0]);
            assert("dotnet"@.len() != "deno"@.len());
            assert("dotnet"@.len() != "node"@.len());
            assert("dotnet"@.len() != "electron"@.len());
            assert("dotnet"@.len() != "java"@.len());
            assert("dotnet"@.len() != "ruby"@.len());
        },
        Runtime::Go => {
            assert("go"@.len() != "python"@.len());
            assert("go"@.len() != "deno"@.len());
            assert("go"@.len() != "node"@.len());
            assert("go"@.len() != "electron"@.len());
            assert("go"@.len() != "java"@.len());
            assert("go"@.len() != "ruby"@.len());
            assert("go"@.len() != "dotnet"@.len());
        },
        Runtime::Php => {
            assert("php"@.len() != "python"@.len());
            assert("php"@.len() != "deno"@.len());
            assert("php"@.len() != "node"@.len());
            assert("php"@.len() != "electron"@.len());
            assert("php"@.len() != "java"@.len());
            assert("php"@.len() != "ruby"@.len());
            assert("php"@.len() != "dotnet"@.len());
            assert("php"@.len() != "go"@.len());
        },
        Runtime::Perl => {
            assert("perl"@.len() != "python"@.len());
            assert("perl"@[0] != "deno"@[0]);
            assert("perl"@[0] != "node"@[0]);
            assert("perl"@.len() != "electron"@.len());
            assert("perl"@[0] != "java"@[0]);
            assert("perl"@[0] != "ruby"@[0]);
            assert("perl"@.len() != "dotnet"@.len());
            assert("perl"@.len() != "go"@.len());
            assert("perl"@.len() != "php"@.len());
        },
        Runtime::Hugo => {
            assert("hugo"@.len() != "python"@.len());
            assert("hugo"@[0] != "deno"@[0]);
            assert("hugo"@[0] != "node"@[0]);
            assert("hugo"@.len() != "electron"@.len());
            assert("hugo"@[0] != "java"@[0]);
            assert("hugo"@[0] != "ruby"@[0]);
            assert("hugo"@.len() != "dotnet"@.len());
            assert("hugo"@.len() != "go"@.len());
            assert("hugo"@.len() != "php"@.len());
            assert("hugo"@[0] != "perl"@[0]);
        },
        Runtime::Wasm => {
            assert("wasm"@.len() != "python"@.len());
            assert("wasm"@[0] != "deno"@[0]);
            assert("wasm"@[0] != "node"@[0]);
            assert("wasm"@.len() != "electron"@.len());
            assert("wasm"@[0] != "java"@[0]);
            assert("wasm"@[0] != "ruby"@[0]);
            assert("wasm"@.len() != "dotnet"@.len());
            assert("wasm"@.len() != "go"@.len());
            assert("wasm"@.len() != "php"@.len());
            assert("wasm"@[0] != "perl"@[0]);
            assert("wasm"@[0] != "hugo"@[0]);
        },
        Runtime::Binary => {
            assert("binary"@[0] != "python"@[0]);
            assert("binary"@.len() != "deno"@.len());
            assert("binary"@.len() != "node"@.len());
            assert("binary"@.len() != "electron"@.len());
            assert("binary"@.len() != "java"@.len());
            assert("binary"@.len() != "ruby"@.len());
            assert("binary"@[0] != "dotnet"@[0]);
            assert("binary"@.len() != "go"@.len());
            assert("binary"@.len() != "php"@.len());
            assert("binary"@.len() != "perl"@.len());
            assert("binary"@.len() != "hugo"@.len());
            assert("binary"@.len() != "wasm"@.len());
        },
    }
}

/// A top-level entry of an application directory, in directory order.
#[derive(Debug, Clone)]
pub struct EntryFact {
    pub name: String,
    pub is_file: bool,
    pub is_dir: bool,
}

/// The entries of one directory below the application directory, in the
/// order the directory lists them.
#[derive(Debug, Clone)]
pub struct DirListing {
    /// The directory's relative path (`/`-separated).
    pub path: String,
    pub entries: Vec<EntryFact>,
}

/// What detection reads from an application directory.
#[derive(Debug, Clone)]
pub struct AppDirFacts {
    /// Relative paths (`/`-separated) of the regular files in the directory
    /// and below it.
    pub files: Vec<String>,
    /// Relative paths of the directories below it.
    pub dirs: Vec<String>,
    /// The top-level entries, in the order the directory lists them.
    pub entries: Vec<EntryFact>,
    /// Listings of subdirectories that entrypoint resolution searches
    /// (`publish`, `bin/Release` and the directories directly in them).
    pub listings: Vec<DirListing>,
    /// Relative paths of the files that start with an ELF or PE magic.
    pub native: Vec<String>,
    /// The text of `package.json`, if it could be read.
    pub package_json: Option<String>,
    /// The text of `pyproject.toml`, if it could be read.
    pub pyproject: Option<String>,
    /// The text of `requirements.txt`, if it could be read.
    pub requirements: Option<String>,
    /// Whether `php.ini` exists.
    pub php_ini_exists: bool,
    /// Whether the directory's own name has the extension `wasm`.
    pub dir_is_wasm: bool,
}

/// The string `main` of `package.json`, when it was read and has one.
pub open spec fn pkg_main(f: AppDirFacts) -> Option<Seq<char>> {
    match f.package_json {
        Some(c) => json_string_at_path(c@, seq!["main"@]),
        None => None,
    }
}

/// The string `scripts.start` of `package.json`, when it was read and has one.
pub open spec fn pkg_start(f: AppDirFacts) -> Option<Seq<char>> {
    match f.package_json {
        Some(c) => json_string_at_path(c@, seq!["scripts"@, "start"@]),
        None => None,
    }
}

/// `main` and `scripts.start` of `package.json`.
pub fn package_main_and_start(f: &AppDirFacts) -> (r: (Option<String>, Option<String>))
    ensures
        opt_chars(r.0) == pkg_main(*f),
        opt_chars(r.1) == pkg_start(*f),
{
    match &f.package_json {
        Some(c) => {
            let main_path: [&str; 1] = ["main"];
            let start_path: [&str; 2] = ["scripts", "start"];
            assert(path_view(main_path@) =~= seq!["main"@]);
            assert(path_view(start_path@) =~= seq!["scripts"@, "start"@]);
            (json_string_at(c.as_str(), main_path.as_slice()), json_string_at(c.as_str(), start_path.as_slice()))
        },
        None => (None, None),
    }
}

/// Whether the directory holds the regular file `p`.
pub open spec fn has_file(f: AppDirFacts, p: Seq<char>) -> bool {
    string_views(f.files@).contains(p)
}

/// Whether the directory holds one of the files `names`.
pub open spec fn has_any(f: AppDirFacts, names: Seq<Seq<char>>) -> bool {
    exists|i: int| 0 <= i < names.len() && has_file(f, #[trigger] names[i])
}

/// The first of `names` that the directory holds.
pub open spec fn first_file(f: AppDirFacts, names: Seq<Seq<char>>) -> Option<Seq<char>>
    decreases names.len(),
{
    if names.len() == 0 {
        None
    } else if has_file(f, names[0]) {
        Some(names[0])
    } else {
        first_file(f, names.drop_first())
    }
}

/// Python entry files.
pub open spec fn python_entries() -> Seq<Seq<char>> {
    seq!["app.py"@, "main.py"@, "__main__.py"@, "server.py"@]
}

/// Electron entry files.
pub open spec fn electron_entries() -> Seq<Seq<char>> {
    seq!["main.js"@, "main.ts"@, "index.js"@, "index.ts"@]
}

/// PHP entry files.
pub open spec fn php_entries() -> Seq<Seq<char>> {
    seq!["index.php"@, "public/index.php"@, "artisan"@, "entry.php"@]
}

/// Node entry files tried when `package.json` names none.
pub open spec fn node_fallback_entries() -> Seq<Seq<char>> {
    seq![
        "bin/www"@,
        "dist/main.js"@,
        ".next/standalone/server.js"@,
        "index.js"@,
        "app.js"@,
        "server.js"@,
        "main.js"@,
        "server/server.js"@,
    ]
}

/// `s` without its leading `./` prefixes.
pub open spec fn strip_dot_slash(s: Seq<char>) -> Seq<char>
    decreases s.len(),
{
    if s.len() >= 2 && s[0] == '.' && s[1] == '/' {
        strip_dot_slash(s.skip(2))
    } else {
        s
    }
}

/// The Node entry file: `main` of `package.json`, else the file the start
/// script runs (its last word, without `./`) when it exists, else the first
/// usual entry file.
pub open spec fn node_entry(f: AppDirFacts) -> Option<Seq<char>> {
    let from_pkg: Option<Seq<char>> = if has_file(f, "package.json"@) {
        match pkg_main(f) {
            Some(m) => Some(m),
            None => match pkg_start(f) {
                Some(cmd) => if words(cmd).len() > 0 && has_file(
                    f,
                    strip_dot_slash(words(cmd).last()),
                ) {
                    Some(strip_dot_slash(words(cmd).last()))
                } else {
                    None
                },
                None => None,
            },
        }
    } else {
        None
    };
    match from_pkg {
        Some(e) => Some(e),
        None => first_file(f, node_fallback_entries()),
    }
}

/// Whether a top-level entry is a file with the extension `ext`.
pub open spec fn entry_has_ext(e: EntryFact, ext: Seq<char>) -> bool {
    path_extension(e.name@) == Some(ext)
}

/// Whether a file sits directly inside the top-level directory `dir` and has
/// the extension `ext`.
pub open spec fn sub_file_has_ext(file: Seq<char>, dir: Seq<char>, ext: Seq<char>) -> bool {
    &&& has_prefix(file, dir + "/"@)
    &&& !file.skip(dir.len() as int + 1).contains('/')
    &&& path_extension(file) == Some(ext)
}

/// Whether the directory is a Python application.
pub open spec fn is_python(f: AppDirFacts) -> bool {
    has_any(f, python_entries()) || has_file(f, "pyproject.toml"@) || has_file(f, "setup.py"@)
        || has_file(f, "requirements.txt"@)
}

/// Whether the directory is an Electron application.
pub open spec fn is_electron(f: AppDirFacts) -> bool {
    has_file(f, "package.json"@) && match f.package_json {
        Some(c) => has_substring(c@, "\"electron\""@) || has_substring(c@, "'electron'"@),
        None => false,
    }
}

/// Whether the directory is a .NET application.
pub open spec fn is_dotnet(f: AppDirFacts) -> bool {
    exists|i: int| 0 <= i < f.entries@.len() && entry_has_ext(#[trigger] f.entries@[i], "csproj"@)
}

/// Whether the directory is a PHP application.
pub open spec fn is_php(f: AppDirFacts) -> bool {
    ||| has_file(f, "composer.json"@)
    ||| exists|i: int|
        0 <= i < f.entries@.len() && (#[trigger] f.entries@[i]).is_file && entry_has_ext(
            f.entries@[i],
            "php"@,
        )
    ||| exists|i: int, j: int|
        0 <= i < f.entries@.len() && 0 <= j < f.files@.len() && !(#[trigger] f.entries@[i]).is_file
            && f.entries@[i].is_dir && sub_file_has_ext(
            #[trigger] f.files@[j]@,
            f.entries@[i].name@,
            "php"@,
        )
    ||| f.php_ini_exists
}

/// The number of top-level regular files that are native executables.
pub open spec fn native_count(f: AppDirFacts) -> nat {
    f.entries@.filter(|e: EntryFact| e.is_file && string_views(f.native@).contains(e.name@)).len()
}

/// Whether the runtime `r`'s markers are in the directory.
pub open spec fn detected(f: AppDirFacts, r: Runtime) -> bool {
    match r {
        Runtime::Python => is_python(f),
        Runtime::Deno => has_file(f, "deno.json"@) || has_file(f, "deno.jsonc"@),
        Runtime::Electron => is_electron(f),
        Runtime::Node => has_file(f, "package.json"@),
        Runtime::Java => has_file(f, "pom.xml"@) || has_file(f, "build.gradle"@) || has_file(
            f,
            "build.gradle.kts"@,
        ),
        Runtime::Ruby => has_file(f, "Gemfile"@),
        Runtime::Dotnet => is_dotnet(f),
        Runtime::Go => has_file(f, "go.mod"@),
        Runtime::Php => is_php(f),
        Runtime::Perl => has_file(f, "Makefile.PL"@) || has_file(f, "cpanfile"@),
        Runtime::Hugo => has_file(f, "config.toml"@) || has_file(f, "hugo.toml"@) || has_file(
            f,
            "config.yaml"@,
        ),
        Runtime::Wasm => has_file(f, "index.wasm"@) || has_file(f, "app.wasm"@) || has_file(
            f,
            "main.wasm"@,
        ) || f.dir_is_wasm,
        Runtime::Binary => native_count(f) == 1,
    }
}

/// Every runtime, in detection order.
pub open spec fn detection_order() -> Seq<Runtime> {
    seq![
        Runtime::Python,
        Runtime::Deno,
        Runtime::Electron,
        Runtime::Node,
        Runtime::Java,
        Runtime::Ruby,
        Runtime::Dotnet,
        Runtime::Go,
        Runtime::Php,
        Runtime::Perl,
        Runtime::Hugo,
        Runtime::Wasm,
        Runtime::Binary,
    ]
}

/// The runtimes whose markers are present, in detection order.
pub open spec fn candidates(f: AppDirFacts) -> Seq<Runtime> {
    detection_order().filter(|r: Runtime| detected(f, r))
}

/// Whether a detected runtime also has an identifiable entry file.
pub open spec fn has_entry(f: AppDirFacts, r: Runtime) -> bool {
    match r {
        Runtime::Php => has_any(f, php_entries()),
        Runtime::Node => node_entry(f) is Some,
        Runtime::Electron => has_any(f, electron_entries()),
        Runtime::Python => has_any(f, python_entries()),
        _ => false,
    }
}

/// The first runtime of `c` with an entry file.
pub open spec fn first_with_entry(f: AppDirFacts, c: Seq<Runtime>) -> Option<Runtime>
    decreases c.len(),
{
    if c.len() == 0 {
        None
    } else if has_entry(f, c[0]) {
        Some(c[0])
    } else {
        first_with_entry(f, c.drop_first())
    }
}

/// The detected runtime: the first candidate with an entry file, else the
/// first candidate.
pub open spec fn detected_runtime(f: AppDirFacts) -> Option<Runtime> {
    let c = candidates(f);
    match first_with_entry(f, c) {
        Some(r) => Some(r),
        None => if c.len() > 0 {
            Some(c[0])
        } else {
            None
        },
    }
}

/// Whether the directory holds the regular file `p`.
pub fn file_exists(f: &AppDirFacts, p: &str) -> (r: bool)
    ensures
        r == has_file(*f, p@),
{
    let n = f.files.len();
    let mut i: usize = 0;
    while i < n
        invariant
            n == f.files@.len(),
            i <= n,
            forall|j: int| 0 <= j < i ==> string_views(f.files@)[j] != p@,
        decreases n - i,
    {
        if str_eq(f.files[i].as_str(), p) {
            assert(string_views(f.files@)[i as int] == p@);
            return true;
        }
        i = i + 1;
    }
    false
}

/// The first of `names` that the directory holds.
pub fn find_first_file(f: &AppDirFacts, names: &[&str]) -> (r: Option<String>)
    ensures
        match r {
            Some(s) => first_file(*f, Seq::new(names@.len(), |i: int| names@[i]@)) == Some(s@),
            None => first_file(*f, Seq::new(names@.len(), |i: int| names@[i]@)) is None,
        },
{
    let ghost nv = Seq::new(names@.len(), |i: int| names@[i]@);
    let n = names.len();
    let mut i: usize = 0;
    assert(nv.skip(0) =~= nv);
    while i < n
        invariant
            n == names@.len(),
            nv == Seq::new(names@.len(), |i: int| names@[i]@),
            i <= n,
            first_file(*f, nv) == first_file(*f, nv.skip(i as int)),
        decreases n - i,
    {
        assert(nv.skip(i as int)[0] == names@[i as int]@);
        if file_exists(f, names[i]) {
            return Some(owned(names[i]));
        }
        assert(nv.skip(i as int).drop_first() =~= nv.skip(i + 1));
        i = i + 1;
    }
    None
}

/// Whether the directory holds one of `names`.
fn any_file(f: &AppDirFacts, names: &[&str]) -> (r: bool)
    ensures
        r == has_any(*f, Seq::new(names@.len(), |i: int| names@[i]@)),
{
    let ghost nv = Seq::new(names@.len(), |i: int| names@[i]@);
    let n = names.len();
    let mut i: usize = 0;
    while i < n
        invariant
            n == names@.len(),
            nv == Seq::new(names@.len(), |i: int| names@[i]@),
            i <= n,
            forall|j: int| 0 <= j < i ==> !has_file(*f, #[trigger] nv[j]),
        decreases n - i,
    {
        if file_exists(f, names[i]) {
            assert(has_file(*f, nv[i as int]));
            return true;
        }
        i = i + 1;
    }
    false
}

/// `s` without its leading `./` prefixes.
fn strip_dot_slash_chars(s: &Vec<char>) -> (r: Vec<char>)
    ensures
        r@ == strip_dot_slash(s@),
{
    let n = s.len();
    let mut i: usize = 0;
    assert(s@.skip(0) =~= s@);
    while n >= 2 && i <= n - 2 && s[i] == '.' && s[i + 1] == '/'
        invariant
            n == s@.len(),
            i <= n,
            strip_dot_slash(s@) == strip_dot_slash(s@.skip(i as int)),
        decreases n - i,
    {
        assert(s@.skip(i as int).skip(2) =~= s@.skip(i + 2));
        i = i + 2;
    }
    let mut r: Vec<char> = Vec::new();
    let mut j: usize = i;
    while j < n
        invariant
            n == s@.len(),
            i <= j <= n,
            r@ == s@.subrange(i as int, j as int),
        decreases n - j,
    {
        r.push(s[j]);
        assert(r@ =~= s@.subrange(i as int, j + 1));
        j = j + 1;
    }
    assert(r@ =~= s@.skip(i as int));
    r
}

/// The Node entry file.
pub fn find_node_entry(f: &AppDirFacts) -> (r: Option<String>)
    ensures
        match r {
            Some(e) => node_entry(*f) == Some(e@),
            None => node_entry(*f) is None,
        },
{
    if file_exists(f, "package.json") {
        let (main, start) = package_main_and_start(f);
        match main {
            Some(m) => {
                return Some(m);
            },
            None => match start {
                Some(cmd) => {
                    let c = chars_of(cmd.as_str());
                    let ws = split_whitespace(c.as_slice());
                    if ws.len() > 0 {
                        let last = &ws[ws.len() - 1];
                        assert(last@ == words(cmd@).last());
                        let name = strip_dot_slash_chars(last);
                        let s = string_from_chars(name.as_slice());
                        if file_exists(f, s.as_str()) {
                            return Some(s);
                        }
                    }
                },
                None => {},
            },
        }
    }
    let names: [&str; 8] = [
        "bin/www",
        "dist/main.js",
        ".next/standalone/server.js",
        "index.js",
        "app.js",
        "server.js",
        "main.js",
        "server/server.js",
    ];
    assert(Seq::new(names@.len(), |i: int| names@[i]@) =~= node_fallback_entries());
    find_first_file(f, names.as_slice())
}

/// Whether a top-level entry has the extension `ext`.
fn entry_ext_is(e: &EntryFact, ext: &str) -> (r: bool)
    ensures
        r == entry_has_ext(*e, ext@),
{
    match extension_of(e.name.as_str()) {
        Some(x) => str_eq(x.as_str(), ext),
        None => false,
    }
}

/// Whether some top-level entry has the extension `csproj`.
fn dotnet_detected(f: &AppDirFacts) -> (r: bool)
    ensures
        r == is_dotnet(*f),
{
    let n = f.entries.len();
    let mut i: usize = 0;
    while i < n
        invariant
            n == f.entries@.len(),
            i <= n,
            forall|j: int| 0 <= j < i ==> !entry_has_ext(#[trigger] f.entries@[j], "csproj"@),
        decreases n - i,
    {
        if entry_ext_is(&f.entries[i], "csproj") {
            return true;
        }
        i = i + 1;
    }
    false
}

/// Whether `file` sits directly inside `dir` and has the extension `ext`.
fn sub_file_ext_is(file: &str, dir: &str, ext: &str) -> (r: bool)
    ensures
        r == sub_file_has_ext(file@, dir@, ext@),
{
    let mut prefix = owned(dir);
    crate::text::push_str(&mut prefix, "/");
    if !str_starts_with(file, prefix.as_str()) {
        return false;
    }
    let c = chars_of(file);
    let dl = chars_of(dir).len();
    assert(prefix@.len() == dir@.len() + 1) by {
        reveal_strlit("/");
    }
    assert(dl + 1 <= c.len());
    let start = dl + 1;
    let mut i: usize = start;
    let ghost rest = file@.skip(dir@.len() as int + 1);
    assert(prefix@.len() == dir@.len() + 1) by {
        reveal_strlit("/");
    }
    while i < c.len()
        invariant
            c@ == file@,
            start == dir@.len() + 1,
            start <= i <= c@.len(),
            rest == file@.skip(dir@.len() as int + 1),
            forall|j: int| 0 <= j < i - start ==> rest[j] != '/',
        decreases c@.len() - i,
    {
        if c[i] == '/' {
            assert(rest[i - start] == '/');
            return false;
        }
        i = i + 1;
    }
    assert(!rest.contains('/'));
    match extension_of(file) {
        Some(x) => str_eq(x.as_str(), ext),
        None => false,
    }
}

/// Whether the directory is a PHP application.
fn php_detected(f: &AppDirFacts) -> (r: bool)
    ensures
        r == is_php(*f),
{
    if file_exists(f, "composer.json") {
        return true;
    }
    let n = f.entries.len();
    let m = f.files.len();
    let mut i: usize = 0;
    while i < n
        invariant
            n == f.entries@.len(),
            m == f.files@.len(),
            i <= n,
            !has_file(*f, "composer.json"@),
            forall|j: int|
                0 <= j < i ==> !((#[trigger] f.entries@[j]).is_file && entry_has_ext(f.entries@[j], "php"@)),
            forall|j: int, q: int|
                0 <= j < i && 0 <= q < m ==> !(!(#[trigger] f.entries@[j]).is_file && f.entries@[j].is_dir
                    && sub_file_has_ext(#[trigger] f.files@[q]@, f.entries@[j].name@, "php"@)),
        decreases n - i,
    {
        let e = &f.entries[i];
        if e.is_file {
            if entry_ext_is(e, "php") {
                return true;
            }
        } else if e.is_dir {
            let mut q: usize = 0;
            while q < m
                invariant
                    m == f.files@.len(),
                    n == f.entries@.len(),
                    i < n,
                    q <= m,
                    *e == f.entries@[i as int],
                    !e.is_file && e.is_dir,
                    forall|k: int| 0 <= k < q ==> !sub_file_has_ext(#[trigger] f.files@[k]@, e.name@, "php"@),
                decreases m - q,
            {
                if sub_file_ext_is(f.files[q].as_str(), e.name.as_str(), "php") {
                    assert(!f.entries@[i as int].is_file && f.entries@[i as int].is_dir && sub_file_has_ext(
                        f.files@[q as int]@,
                        f.entries@[i as int].name@,
                        "php"@,
                    ));
                    return true;
                }
                q = q + 1;
            }
        }
        i = i + 1;
    }
    f.php_ini_exists
}

/// The number of top-level regular files that are native executables.
fn count_native(f: &AppDirFacts) -> (r: usize)
    ensures
        r == native_count(*f),
{
    let n = f.entries.len();
    let mut count: usize = 0;
    let mut i: usize = 0;
    let ghost pred = |e: EntryFact| e.is_file && string_views(f.native@).contains(e.name@);
    assert(f.entries@.take(0) =~= Seq::<EntryFact>::empty());
    while i < n
        invariant
            n == f.entries@.len(),
            i <= n,
            pred == (|e: EntryFact| e.is_file && string_views(f.native@).contains(e.name@)),
            count == f.entries@.take(i as int).filter(pred).len(),
            count <= i,
        decreases n - i,
    {
        let e = &f.entries[i];
        let mut native = false;
        let mut k: usize = 0;
        while k < f.native.len()
            invariant
                k <= f.native@.len(),
                native == exists|q: int| 0 <= q < k && string_views(f.native@)[q] == e.name@,
            decreases f.native@.len() - k,
        {
            if str_eq(f.native[k].as_str(), e.name.as_str()) {
                assert(string_views(f.native@)[k as int] == e.name@);
                native = true;
            }
            k = k + 1;
        }
        proof {
            assert(f.entries@.take(i + 1).drop_last() =~= f.entries@.take(i as int));
            reveal(Seq::filter);
        }
        if e.is_file && native {
            count = count + 1;
        }
        i = i + 1;
    }
    assert(f.entries@.take(n as int) =~= f.entries@);
    count
}

/// Whether the runtime `r`'s markers are in the directory.
pub fn runtime_detected(f: &AppDirFacts, r: Runtime) -> (b: bool)
    ensures
        b == detected(*f, r),
{
    match r {
        Runtime::Python => {
            let names: [&str; 4] = ["app.py", "main.py", "__main__.py", "server.py"];
            assert(Seq::new(names@.len(), |i: int| names@[i]@) =~= python_entries());
            any_file(f, names.as_slice()) || file_exists(f, "pyproject.toml") || file_exists(
                f,
                "setup.py",
            ) || file_exists(f, "requirements.txt")
        },
        Runtime::Deno => file_exists(f, "deno.json") || file_exists(f, "deno.jsonc"),
        Runtime::Electron => {
            if !file_exists(f, "package.json") {
                return false;
            }
            match &f.package_json {
                Some(c) => str_contains(c.as_str(), "\"electron\"") || str_contains(
                    c.as_str(),
                    "'electron'",
                ),
                None => false,
            }
        },
        Runtime::Node => file_exists(f, "package.json"),
        Runtime::Java => file_exists(f, "pom.xml") || file_exists(f, "build.gradle") || file_exists(
            f,
            "build.gradle.kts",
        ),
        Runtime::Ruby => file_exists(f, "Gemfile"),
        Runtime::Dotnet => dotnet_detected(f),
        Runtime::Go => file_exists(f, "go.mod"),
        Runtime::Php => php_detected(f),
        Runtime::Perl => file_exists(f, "Makefile.PL") || file_exists(f, "cpanfile"),
        Runtime::Hugo => file_exists(f, "config.toml") || file_exists(f, "hugo.toml") || file_exists(
            f,
            "config.yaml",
        ),
        Runtime::Wasm => file_exists(f, "index.wasm") || file_exists(f, "app.wasm") || file_exists(
            f,
            "main.wasm",
        ) || f.dir_is_wasm,
        Runtime::Binary => count_native(f) == 1,
    }
}

/// Whether a detected runtime has an identifiable entry file.
pub fn runtime_has_entry(f: &AppDirFacts, r: Runtime) -> (b: bool)
    ensures
        b == has_entry(*f, r),
{
    match r {
        Runtime::Php => {
            let names: [&str; 4] = ["index.php", "public/index.php", "artisan", "entry.php"];
            assert(Seq::new(names@.len(), |i: int| names@[i]@) =~= php_entries());
            any_file(f, names.as_slice())
        },
        Runtime::Node => find_node_entry(f).is_some(),
        Runtime::Electron => {
            let names: [&str; 4] = ["main.js", "main.ts", "index.js", "index.ts"];
            assert(Seq::new(names@.len(), |i: int| names@[i]@) =~= electron_entries());
            any_file(f, names.as_slice())
        },
        Runtime::Python => {
            let names: [&str; 4] = ["app.py", "main.py", "__main__.py", "server.py"];
            assert(Seq::new(names@.len(), |i: int| names@[i]@) =~= python_entries());
            any_file(f, names.as_slice())
        },
        _ => false,
    }
}

/// The runtimes whose markers are present, in detection order.
pub fn detect_runtime_candidates(f: &AppDirFacts) -> (r: Vec<Runtime>)
    ensures
        r@ == candidates(*f),
{
    let order: [Runtime; 13] = [
        Runtime::Python,
        Runtime::Deno,
        Runtime::Electron,
        Runtime::Node,
        Runtime::Java,
        Runtime::Ruby,
        Runtime::Dotnet,
        Runtime::Go,
        Runtime::Php,
        Runtime::Perl,
        Runtime::Hugo,
        Runtime::Wasm,
        Runtime::Binary,
    ];
    assert(order@ =~= detection_order());
    let ghost pred = |r: Runtime| detected(*f, r);
    let mut out: Vec<Runtime> = Vec::new();
    let mut i: usize = 0;
    assert(order@.take(0) =~= Seq::<Runtime>::empty());
    while i < 13
        invariant
            i <= 13,
            order@ == detection_order(),
            pred == (|r: Runtime| detected(*f, r)),
            out@ == order@.take(i as int).filter(pred),
        decreases 13 - i,
    {
        proof {
            assert(order@.take(i + 1).drop_last() =~= order@.take(i as int));
            reveal(Seq::filter);
        }
        if runtime_detected(f, order[i]) {
            out.push(order[i]);
        }
        i = i + 1;
    }
    assert(order@.take(13) =~= order@);
    out
}

/// Detects the runtime of an application directory: the first candidate
/// (in detection order) with an identifiable entry file, else the first
/// candidate.
pub fn detect_runtime(f: &AppDirFacts) -> (r: Option<Runtime>)
    ensures
        r == detected_runtime(*f),
{
    let c = detect_runtime_candidates(f);
    let n = c.len();
    let mut i: usize = 0;
    assert(c@.skip(0) =~= c@);
    while i < n
        invariant
            n == c@.len(),
            i <= n,
            first_with_entry(*f, c@) == first_with_entry(*f, c@.skip(i as int)),
            c@ == candidates(*f),
        decreases n - i,
    {
        assert(c@.skip(i as int)[0] == c@[i as int]);
        if runtime_has_entry(f, c[i]) {
            assert(c@.skip(i as int).len() > 0);
            assert(first_with_entry(*f, c@.skip(i as int)) == Some(c@[i as int]));
            assert(first_with_entry(*f, c@) == Some(c@[i as int]));
            assert(c@ == candidates(*f));
            assert(detected_runtime(*f) == Some(c@[i as int]));
            return Some(c[i]);
        }
        assert(c@.skip(i as int).drop_first() =~= c@.skip(i + 1));
        i = i + 1;
    }
    if n > 0 {
        Some(c[0])
    } else {
        None
    }
}

/// Whether `p` is a Java build file: Maven's `pom.xml` or Gradle's
/// `build.gradle` / `build.gradle.kts`.
pub open spec fn java_build_file(p: Seq<char>) -> bool {
    p == "pom.xml"@ || p == "build.gradle"@ || p == "build.gradle.kts"@
}

proof fn lemma_not_java_build_file(q: Seq<char>)
    requires
        q.len() != 7 || q[0] != 'p',
        q.len() != 12 || q[0] != 'b',
        q.len() != 16 || q[0] != 'b',
    ensures
        !java_build_file(q),
{
    reveal_strlit("pom.xml");
    reveal_strlit("build.gradle");
    reveal_strlit("build.gradle.kts");
    if q == "pom.xml"@ {
        assert(q[0] == "pom.xml"@[0]);
    }
    if q == "build.gradle"@ {
        assert(q[0] == "build.gradle"@[0]);
    }
    if q == "build.gradle.kts"@ {
        assert(q[0] == "build.gradle.kts"@[0]);
    }
}

/// In a directory whose regular files are all Java build files, no other
/// file is present.
proof fn lemma_absent_when_only_java(f: AppDirFacts, q: Seq<char>)
    requires
        forall|i: int| 0 <= i < f.files@.len() ==> java_build_file(#[trigger] f.files@[i]@),
        !java_build_file(q),
    ensures
        !has_file(f, q),
{
    if has_file(f, q) {
        let i = choose|i: int| 0 <= i < string_views(f.files@).len() && string_views(f.files@)[i] == q;
        assert(string_views(f.files@)[i] == f.files@[i]@);
    }
}

proof fn lemma_first_file_none(f: AppDirFacts, names: Seq<Seq<char>>)
    requires
        forall|i: int| 0 <= i < names.len() ==> !has_file(f, #[trigger] names[i]),
    ensures
        first_file(f, names) is None,
    decreases names.len(),
{
    if names.len() > 0 {
        assert(!has_file(f, names[0]));
        assert forall|i: int| 0 <= i < names.drop_first().len() implies !has_file(f, #[trigger] names.drop_first()[i]) by {
            assert(names.drop_first()[i] == names[i + 1]);
        }
        lemma_first_file_none(f, names.drop_first());
    }
}

proof fn lemma_first_with_entry_none(f: AppDirFacts, c: Seq<Runtime>)
    requires
        forall|r: Runtime| !#[trigger] has_entry(f, r),
    ensures
        first_with_entry(f, c) is None,
    decreases c.len(),
{
    if c.len() > 0 {
        lemma_first_with_entry_none(f, c.drop_first());
    }
}

/// A Maven or Gradle build file (`pom.xml`, `build.gradle`,
/// `build.gradle.kts`) makes Java a candidate runtime, and Java is a
/// candidate only with one of them.
pub proof fn lemma_java_build_file_is_java(f: AppDirFacts)
    ensures
        candidates(f).contains(Runtime::Java) <==> (has_file(f, "pom.xml"@) || has_file(f, "build.gradle"@)
            || has_file(f, "build.gradle.kts"@)),
{
    let p = |r: Runtime| detected(f, r);
    detection_order().filter_lemma(p);
    assert(detection_order()[4] == Runtime::Java);
    if candidates(f).contains(Runtime::Java) {
        let i = choose|i: int| 0 <= i < candidates(f).len() && candidates(f)[i] == Runtime::Java;
        assert(p(candidates(f)[i]));
    }
}

/// A directory whose regular files are only Java build files, at least one
/// of them present, is detected as a Java application, whatever else it
/// holds (directories, native executables, `php.ini`, a `.wasm` name).
pub proof fn lemma_only_java_build_files_detect_java(f: AppDirFacts)
    requires
        has_file(f, "pom.xml"@) || has_file(f, "build.gradle"@) || has_file(f, "build.gradle.kts"@),
        forall|i: int| 0 <= i < f.files@.len() ==> java_build_file(#[trigger] f.files@[i]@),
    ensures
        detected_runtime(f) == Some(Runtime::Java),
{
    reveal_strlit("app.py");
    lemma_not_java_build_file("app.py"@);
    reveal_strlit("main.py");
    lemma_not_java_build_file("main.py"@);
    reveal_strlit("__main__.py");
    lemma_not_java_build_file("__main__.py"@);
    reveal_strlit("server.py");
    lemma_not_java_build_file("server.py"@);
    reveal_strlit("pyproject.toml");
    lemma_not_java_build_file("pyproject.toml"@);
    reveal_strlit("setup.py");
    lemma_not_java_build_file("setup.py"@);
    reveal_strlit("requirements.txt");
    lemma_not_java_build_file("requirements.txt"@);
    reveal_strlit("deno.json");
    lemma_not_java_build_file("deno.json"@);
    reveal_strlit("deno.jsonc");
    lemma_not_java_build_file("deno.jsonc"@);
    reveal_strlit("package.json");
    lemma_not_java_build_file("package.json"@);
    reveal_strlit("main.js");
    lemma_not_java_build_file("main.js"@);
    reveal_strlit("main.ts");
    lemma_not_java_build_file("main.ts"@);
    reveal_strlit("index.js");
    lemma_not_java_build_file("index.js"@);
    reveal_strlit("index.ts");
    lemma_not_java_build_file("index.ts"@);
    reveal_strlit("index.php");
    lemma_not_java_build_file("index.php"@);
    reveal_strlit("public/index.php");
    lemma_not_java_build_file("public/index.php"@);
    reveal_strlit("artisan");
    lemma_not_java_build_file("artisan"@);
    reveal_strlit("entry.php");
    lemma_not_java_build_file("entry.php"@);
    reveal_strlit("bin/www");
    lemma_not_java_build_file("bin/www"@);
    reveal_strlit("dist/main.js");
    lemma_not_java_build_file("dist/main.js"@);
    reveal_strlit(".next/standalone/server.js");
    lemma_not_java_build_file(".next/standalone/server.js"@);
    reveal_strlit("app.js");
    lemma_not_java_build_file("app.js"@);
    reveal_strlit("server.js");
    lemma_not_java_build_file("server.js"@);
    reveal_strlit("server/server.js");
    lemma_not_java_build_file("server/server.js"@);
    assert forall|q: Seq<char>| !java_build_file(q) implies !has_file(f, q) by {
        lemma_absent_when_only_java(f, q);
    }
    assert(!has_any(f, python_entries()));
    assert(!has_any(f, electron_entries()));
    assert(!has_any(f, php_entries()));
    assert forall|i: int| 0 <= i < node_fallback_entries().len() implies !has_file(
        f,
        #[trigger] node_fallback_entries()[i],
    ) by {}
    lemma_first_file_none(f, node_fallback_entries());
    assert(node_entry(f) is None);
    assert forall|r: Runtime| !#[trigger] has_entry(f, r) by {}
    let p = |r: Runtime| detected(f, r);
    let rest = seq![
        Runtime::Ruby,
        Runtime::Dotnet,
        Runtime::Go,
        Runtime::Php,
        Runtime::Perl,
        Runtime::Hugo,
        Runtime::Wasm,
        Runtime::Binary,
    ];
    let s4 = seq![Runtime::Java] + rest;
    let s3 = seq![Runtime::Node] + s4;
    let s2 = seq![Runtime::Electron] + s3;
    let s1 = seq![Runtime::Deno] + s2;
    assert(detection_order() =~= seq![Runtime::Python] + s1);
    s1.lemma_filter_prepend(Runtime::Python, p);
    s2.lemma_filter_prepend(Runtime::Deno, p);
    s3.lemma_filter_prepend(Runtime::Electron, p);
    s4.lemma_filter_prepend(Runtime::Node, p);
    rest.lemma_filter_prepend(Runtime::Java, p);
    assert(!p(Runtime::Python));
    assert(!p(Runtime::Deno));
    assert(!p(Runtime::Electron));
    assert(!p(Runtime::Node));
    assert(p(Runtime::Java));
    assert(candidates(f) =~= seq![Runtime::Java] + rest.filter(p));
    lemma_first_with_entry_none(f, candidates(f));
}

/// The marker files of each runtime: a runtime is a detection candidate
/// exactly when the directory holds one of its markers (`deno.json` or
/// `deno.jsonc` for Deno, `package.json` for Node, `Gemfile` for Ruby,
/// `go.mod` for Go, `Makefile.PL` or `cpanfile` for Perl, `config.toml`,
/// `hugo.toml` or `config.yaml` for Hugo, a `.wasm` entry file or a
/// `.wasm`-named directory for WebAssembly, exactly one native executable
/// at the top level for a plain binary).
pub proof fn lemma_marker_files(f: AppDirFacts)
    ensures
        candidates(f).contains(Runtime::Deno) <==> (has_file(f, "deno.json"@) || has_file(f, "deno.jsonc"@)),
        candidates(f).contains(Runtime::Node) <==> has_file(f, "package.json"@),
        candidates(f).contains(Runtime::Ruby) <==> has_file(f, "Gemfile"@),
        candidates(f).contains(Runtime::Go) <==> has_file(f, "go.mod"@),
        candidates(f).contains(Runtime::Perl) <==> (has_file(f, "Makefile.PL"@) || has_file(f, "cpanfile"@)),
        candidates(f).contains(Runtime::Hugo) <==> (has_file(f, "config.toml"@) || has_file(f, "hugo.toml"@)
            || has_file(f, "config.yaml"@)),
        candidates(f).contains(Runtime::Wasm) <==> (has_file(f, "index.wasm"@) || has_file(f, "app.wasm"@)
            || has_file(f, "main.wasm"@) || f.dir_is_wasm),
        candidates(f).contains(Runtime::Python) <==> (has_file(f, "app.py"@) || has_file(f, "main.py"@)
            || has_file(f, "__main__.py"@) || has_file(f, "server.py"@) || has_file(f, "pyproject.toml"@)
            || has_file(f, "setup.py"@) || has_file(f, "requirements.txt"@)),
        candidates(f).contains(Runtime::Binary) <==> f.entries@.filter(
            |e: EntryFact| e.is_file && string_views(f.native@).contains(e.name@),
        ).len() == 1,
{
    let p = |r: Runtime| detected(f, r);
    let d = detection_order();
    d.filter_lemma(p);
    assert(d[0] == Runtime::Python);
    assert(d[1] == Runtime::Deno);
    assert(d[3] == Runtime::Node);
    let pe = python_entries();
    if has_any(f, pe) {
        let i = choose|i: int| 0 <= i < pe.len() && has_file(f, #[trigger] pe[i]);
        assert(i == 0 || i == 1 || i == 2 || i == 3);
    }
    if has_file(f, "app.py"@) {
        assert(has_file(f, pe[0]));
    }
    if has_file(f, "main.py"@) {
        assert(has_file(f, pe[1]));
    }
    if has_file(f, "__main__.py"@) {
        assert(has_file(f, pe[2]));
    }
    if has_file(f, "server.py"@) {
        assert(has_file(f, pe[3]));
    }
    assert(d[5] == Runtime::Ruby);
    assert(d[7] == Runtime::Go);
    assert(d[9] == Runtime::Perl);
    assert(d[10] == Runtime::Hugo);
    assert(d[11] == Runtime::Wasm);
    assert(d[12] == Runtime::Binary);
    assert forall|r: Runtime| #[trigger] candidates(f).contains(r) implies detected(f, r) by {
        let i = choose|i: int| 0 <= i < candidates(f).len() && candidates(f)[i] == r;
        assert(p(candidates(f)[i]));
    }
}

} // verus!
