//! Flatpak packaging: the manifest model and the `.desktop` entry.
use crate::error::Error;
use crate::layer::SerializableLayer;
use crate::text::{
    all_ascii, ascii_lower, chars_of, is_digit, lowercase, owned, push_str, replace_all, replaced, str_eq,
    str_starts_with, has_prefix, string_from_chars, to_lowercase,
};
use vstd::prelude::*;

verus! {

/// Packaging format selected with `--package-format`.
#[derive(Debug, Clone, Copy, PartialEq, Eq, Structural)]
pub enum PackageFormat {
    Erebus,
    Flatpak,
    Snap,
}

impl Default for PackageFormat {
    fn default() -> (r: Self)
        ensures
            r == PackageFormat::Erebus,
    {
        PackageFormat::Erebus
    }
}

/// How a package format is written.
pub open spec fn format_name(f: PackageFormat) -> Seq<char> {
    match f {
        PackageFormat::Erebus => "erebus"@,
        PackageFormat::Flatpak => "flatpak"@,
        PackageFormat::Snap => "snap"@,
    }
}

/// The format named by an already lowercased name, or the error message.
pub open spec fn format_from_lowercase(t: Seq<char>) -> Result<PackageFormat, Seq<char>> {
    if t == "erebus"@ {
        Ok(PackageFormat::Erebus)
    } else if t == "flatpak"@ {
        Ok(PackageFormat::Flatpak)
    } else if t == "snap"@ {
        Ok(PackageFormat::Snap)
    } else {
        Err("unknown package format: "@ + t)
    }
}

/// A format's name parses back to that format, and the only names that
/// parse are the formats' names: the name of `f` is all ASCII and already
/// lowercase, `format_from_lowercase` maps it to `f`, and whatever that
/// function accepts is the name of what it returns.
pub proof fn lemma_format_name_roundtrip(f: PackageFormat)
    ensures
        all_ascii(format_name(f)),
        ascii_lower(format_name(f)) == format_name(f),
        format_from_lowercase(format_name(f)) == Ok::<PackageFormat, Seq<char>>(f),
        forall|t: Seq<char>|
            #[trigger] format_from_lowercase(t) matches Ok(g) ==> format_name(g) == t,
{
    reveal_strlit("erebus");
    reveal_strlit("flatpak");
    reveal_strlit("snap");
    assert(ascii_lower(format_name(f)) =~= format_name(f));
}

impl PackageFormat {
    /// The format's name.
    pub fn to_string(&self) -> (s: String)
        ensures
            s@ == format_name(*self),
    {
        match self {
            PackageFormat::Erebus => owned("erebus"),
            PackageFormat::Flatpak => owned("flatpak"),
            PackageFormat::Snap => owned("snap"),
        }
    }

    /// The format named by `t`, which is already lowercase.
    pub fn from_lowercase(t: &str) -> (r: Result<Self, String>)
        ensures
            format_from_lowercase(t@) matches Ok(f) ==> r == Ok::<Self, String>(f),
            format_from_lowercase(t@) matches Err(m) ==> r matches Err(e) && e@ == m,
    {
        if str_eq(t, "erebus") {
            Ok(PackageFormat::Erebus)
        } else if str_eq(t, "flatpak") {
            Ok(PackageFormat::Flatpak)
        } else if str_eq(t, "snap") {
            Ok(PackageFormat::Snap)
        } else {
            let mut m = owned("unknown package format: ");
            push_str(&mut m, t);
            Err(m)
        }
    }

    /// The format named by `s`, case-insensitively.
    pub fn parse(s: &str) -> (r: Result<Self, String>)
        ensures
            format_from_lowercase(lowercase(s@)) matches Ok(f) ==> r == Ok::<Self, String>(f),
            format_from_lowercase(lowercase(s@)) matches Err(m) ==> r matches Err(e) && e@ == m,
            all_ascii(s@) ==> (format_from_lowercase(ascii_lower(s@)) matches Ok(f) ==> r == Ok::<
                Self,
                String,
            >(f)),
            all_ascii(s@) ==> (format_from_lowercase(ascii_lower(s@)) matches Err(m) ==> r matches Err(e)
                && e@ == m),
    {
        let t = to_lowercase(s);
        PackageFormat::from_lowercase(t.as_str())
    }
}

impl std::str::FromStr for PackageFormat {
    type Err = String;

    fn from_str(s: &str) -> (r: Result<Self, String>)
        ensures
            format_from_lowercase(lowercase(s@)) matches Ok(f) ==> r == Ok::<Self, String>(f),
            format_from_lowercase(lowercase(s@)) matches Err(m) ==> r matches Err(e) && e@ == m,
            all_ascii(s@) ==> (format_from_lowercase(ascii_lower(s@)) matches Ok(f) ==> r == Ok::<
                Self,
                String,
            >(f)),
            all_ascii(s@) ==> (format_from_lowercase(ascii_lower(s@)) matches Err(m) ==> r matches Err(e)
                && e@ == m),
    {
        PackageFormat::parse(s)
    }
}

/// The Flatpak runtime and SDK for a runtime tag, if the tag is known.
pub open spec fn flatpak_runtime(tag: Seq<char>) -> Option<(Seq<char>, Seq<char>)> {
    if tag == "python3"@ || tag == "python"@ || tag == "python3.11"@ || tag == "python3.10"@ || tag
        == "node"@ || tag == "nodejs"@ || tag == "node20"@ || tag == "node18"@ || tag == "ruby"@ {
        Some(("org.freedesktop.Platform"@, "org.freedesktop.Sdk"@))
    } else if tag == "rust"@ || tag == "cargo"@ || tag == "go"@ || has_prefix(tag, "binary:"@) {
        Some(("org.freedesktop.Sdk"@, "org.freedesktop.Sdk"@))
    } else {
        None
    }
}

/// Compiled toolchains build and run on the SDK: for `rust`, `cargo`, `go`
/// and every `binary:` tag, the Flatpak runtime and the SDK are both
/// `org.freedesktop.Sdk`; interpreted runtimes (Python, Node, Ruby tags) run
/// on `org.freedesktop.Platform`; and whatever the tag, a known mapping's SDK
/// is `org.freedesktop.Sdk`.
pub proof fn lemma_flatpak_runtime_families(tag: Seq<char>)
    ensures
        (tag == "rust"@ || tag == "cargo"@ || tag == "go"@ || has_prefix(tag, "binary:"@)) ==> flatpak_runtime(tag)
            == Some(("org.freedesktop.Sdk"@, "org.freedesktop.Sdk"@)),
        (tag == "python3"@ || tag == "python"@ || tag == "python3.11"@ || tag == "python3.10"@ || tag
            == "node"@ || tag == "nodejs"@ || tag == "node20"@ || tag == "node18"@ || tag == "ruby"@)
            ==> flatpak_runtime(tag) == Some(("org.freedesktop.Platform"@, "org.freedesktop.Sdk"@)),
        flatpak_runtime(tag) matches Some(p) ==> p.1 == "org.freedesktop.Sdk"@,
{
    reveal_strlit("python3");
    reveal_strlit("python");
    reveal_strlit("python3.11");
    reveal_strlit("python3.10");
    reveal_strlit("node");
    reveal_strlit("nodejs");
    reveal_strlit("node20");
    reveal_strlit("node18");
    reveal_strlit("ruby");
    reveal_strlit("rust");
    reveal_strlit("cargo");
    reveal_strlit("go");
    reveal_strlit("binary:");
    reveal_strlit("org.freedesktop.Sdk");
    reveal_strlit("org.freedesktop.Platform");
    if has_prefix(tag, "binary:"@) {
        assert(tag.take(7)[0] == tag[0]);
        assert(tag[0] == 'b');
        assert(tag != "python3"@) by { if tag == "python3"@ { assert(tag[0] == "python3"@[0]); } }
        assert(tag != "python"@) by { if tag == "python"@ { assert(tag[0] == "python"@[0]); } }
        assert(tag != "python3.11"@) by { if tag == "python3.11"@ { assert(tag[0] == "python3.11"@[0]); } }
        assert(tag != "python3.10"@) by { if tag == "python3.10"@ { assert(tag[0] == "python3.10"@[0]); } }
        assert(tag != "node"@) by { if tag == "node"@ { assert(tag[0] == "node"@[0]); } }
        assert(tag != "nodejs"@) by { if tag == "nodejs"@ { assert(tag[0] == "nodejs"@[0]); } }
        assert(tag != "node20"@) by { if tag == "node20"@ { assert(tag[0] == "node20"@[0]); } }
        assert(tag != "node18"@) by { if tag == "node18"@ { assert(tag[0] == "node18"@[0]); } }
        assert(tag != "ruby"@) by { if tag == "ruby"@ { assert(tag[0] == "ruby"@[0]); } }
    }
    if tag == "rust"@ {
        assert(tag.len() != "python3"@.len());
        assert(tag.len() != "python"@.len());
        assert(tag.len() != "python3.11"@.len());
        assert(tag.len() != "python3.10"@.len());
        assert(tag[0] != "node"@[0]);
        assert(tag.len() != "nodejs"@.len());
        assert(tag.len() != "node20"@.len());
        assert(tag.len() != "node18"@.len());
        assert(tag[2] != "ruby"@[2]);
    }
    if tag == "cargo"@ {
        assert(tag.len() != "python3"@.len());
        assert(tag.len() != "python"@.len());
        assert(tag.len() != "python3.11"@.len());
        assert(tag.len() != "python3.10"@.len());
        assert(tag.len() != "node"@.len());
        assert(tag.len() != "nodejs"@.len());
        assert(tag.len() != "node20"@.len());
        assert(tag.len() != "node18"@.len());
        assert(tag.len() != "ruby"@.len());
    }
    if tag == "go"@ {
        assert(tag.len() != "python3"@.len());
        assert(tag.len() != "python"@.len());
        assert(tag.len() != "python3.11"@.len());
        assert(tag.len() != "python3.10"@.len());
        assert(tag.len() != "node"@.len());
        assert(tag.len() != "nodejs"@.len());
        assert(tag.len() != "node20"@.len());
        assert(tag.len() != "node18"@.len());
        assert(tag.len() != "ruby"@.len());
    }
}

/// Maps a runtime tag to a Flatpak runtime and SDK.
pub fn runtime_mapping(runtime: &str) -> (r: Option<(&'static str, &'static str)>)
    ensures
        flatpak_runtime(runtime@) is None ==> r is None,
        flatpak_runtime(runtime@) matches Some(p) ==> r matches Some(q) && q.0@ == p.0 && q.1@
            == p.1,
{
    if str_eq(runtime, "python3") || str_eq(runtime, "python") || str_eq(runtime, "python3.11")
        || str_eq(runtime, "python3.10") || str_eq(runtime, "node") || str_eq(runtime, "nodejs")
        || str_eq(runtime, "node20") || str_eq(runtime, "node18") || str_eq(runtime, "ruby") {
        Some(("org.freedesktop.Platform", "org.freedesktop.Sdk"))
    } else if str_eq(runtime, "rust") || str_eq(runtime, "cargo") || str_eq(runtime, "go")
        || str_starts_with(runtime, "binary:") {
        Some(("org.freedesktop.Sdk", "org.freedesktop.Sdk"))
    } else {
        None
    }
}

/// A Flatpak application id for `name`: prefixed with `app.` when it starts
/// with a digit.
pub open spec fn sanitized_id(name: Seq<char>) -> Seq<char> {
    if name.len() > 0 && is_digit(name[0]) {
        "app."@ + name
    } else {
        name
    }
}

/// Sanitizes a name into a Flatpak application id.
pub fn sanitize_app_id(name: &str) -> (r: String)
    ensures
        r@ == sanitized_id(name@),
{
    let c = chars_of(name);
    if c.len() > 0 && '0' <= c[0] && c[0] <= '9' {
        let mut s = owned("app.");
        push_str(&mut s, name);
        s
    } else {
        owned(name)
    }
}

/// A source of a Flatpak module.
#[derive(Debug, Clone)]
pub enum FlatpakSource {
    File { path: String, dest: Option<String> },
    Dir { path: String },
}

/// A module of a Flatpak manifest.
#[derive(Debug, Clone)]
pub struct FlatpakModule {
    pub name: String,
    pub buildsystem: Option<String>,
    pub sources: Vec<FlatpakSource>,
}

/// A Flatpak manifest.
#[derive(Debug, Clone)]
pub struct FlatpakManifest {
    pub app_id: String,
    pub runtime: String,
    pub runtime_version: String,
    pub sdk: String,
    pub command: String,
    pub finish_args: Vec<String>,
    pub modules: Vec<FlatpakModule>,
}

/// Whether `s` is the file `path` installed as `dest`.
pub open spec fn is_file_source(s: FlatpakSource, path: Seq<char>, dest: Seq<char>) -> bool {
    match s {
        FlatpakSource::File { path: p, dest: Some(d) } => p@ == path && d@ == dest,
        _ => false,
    }
}

/// Whether `s` is the directory `path`.
pub open spec fn is_dir_source(s: FlatpakSource, path: Seq<char>) -> bool {
    match s {
        FlatpakSource::Dir { path: p } => p@ == path,
        _ => false,
    }
}

/// Whether `m` is the module that installs the application payload.
pub open spec fn is_app_module(m: FlatpakModule, app_name: Seq<char>) -> bool {
    &&& m.name@ == app_name
    &&& m.buildsystem matches Some(b) && b@ == "simple"@
    &&& m.sources@.len() == 1
    &&& is_file_source(m.sources@[0], app_name + ".ere"@, "rootfs"@)
}

/// Whether `m` is the module for a layer named `layer_name`.
pub open spec fn is_layer_module(m: FlatpakModule, layer_name: Seq<char>) -> bool {
    &&& m.name@ == replaced(sanitized_id(layer_name), seq!['.'], seq!['-'])
    &&& m.buildsystem matches Some(b) && b@ == "simple"@
    &&& m.sources@.len() == 1
    &&& is_dir_source(m.sources@[0], layer_name)
}

/// A module whose single source is a file.
fn file_module(name: String, path: String, dest: &str) -> (m: FlatpakModule)
    ensures
        m.name == name,
        m.buildsystem matches Some(b) && b@ == "simple"@,
        m.sources@.len() == 1,
        is_file_source(m.sources@[0], path@, dest@),
{
    let mut sources: Vec<FlatpakSource> = Vec::new();
    sources.push(FlatpakSource::File { path, dest: Some(owned(dest)) });
    FlatpakModule { name, buildsystem: Some(owned("simple")), sources }
}

/// A module whose single source is a directory.
fn dir_module(name: String, path: String) -> (m: FlatpakModule)
    ensures
        m.name == name,
        m.buildsystem matches Some(b) && b@ == "simple"@,
        m.sources@.len() == 1,
        is_dir_source(m.sources@[0], path@),
{
    let mut sources: Vec<FlatpakSource> = Vec::new();
    sources.push(FlatpakSource::Dir { path });
    FlatpakModule { name, buildsystem: Some(owned("simple")), sources }
}

/// Generates a Flatpak manifest: the application payload as the first
/// module, then one module per layer, in order.
pub fn generate_manifest(
    app_name: &str,
    runtime: &str,
    entrypoint: &[String],
    layers: &[SerializableLayer],
) -> (r: Result<FlatpakManifest, Error>)
    ensures
        r matches Ok(m) && {
            &&& m.app_id@ == sanitized_id(app_name@)
            &&& m.runtime@ == match flatpak_runtime(runtime@) {
                Some(p) => p.0,
                None => "org.freedesktop.Platform"@,
            }
            &&& m.sdk@ == match flatpak_runtime(runtime@) {
                Some(p) => p.1,
                None => "org.freedesktop.Sdk"@,
            }
            &&& m.runtime_version@ == "22.08"@
            &&& m.command@ == if entrypoint@.len() > 0 {
                entrypoint@[0]@
            } else {
                runtime@
            }
            &&& m.finish_args@.len() == 2
            &&& m.finish_args@[0]@ == "--share=network"@
            &&& m.finish_args@[1]@ == "--share=ipc"@
            &&& m.modules@.len() == layers@.len() + 1
            &&& is_app_module(m.modules@[0], app_name@)
            &&& forall|i: int|
                0 <= i < layers@.len() ==> is_layer_module(
                    #[trigger] m.modules@[i + 1],
                    layers@[i].spec_name(),
                )
        },
{
    let (flatpak_runtime_name, flatpak_sdk) = match runtime_mapping(runtime) {
        Some(p) => p,
        None => ("org.freedesktop.Platform", "org.freedesktop.Sdk"),
    };
    let command = if entrypoint.len() > 0 {
        entrypoint[0].clone()
    } else {
        owned(runtime)
    };
    let app_id = sanitize_app_id(app_name);
    let mut modules: Vec<FlatpakModule> = Vec::new();
    let mut payload = owned(app_name);
    push_str(&mut payload, ".ere");
    modules.push(file_module(owned(app_name), payload, "rootfs"));
    let dot: Vec<char> = vec!['.'];
    let dash: Vec<char> = vec!['-'];
    assert(dot@ =~= seq!['.']);
    assert(dash@ =~= seq!['-']);
    let n = layers.len();
    let mut i: usize = 0;
    while i < n
        invariant
            n == layers@.len(),
            i <= n,
            dot@ == seq!['.'],
            dash@ == seq!['-'],
            modules@.len() == i + 1,
            is_app_module(modules@[0], app_name@),
            forall|j: int|
                0 <= j < i ==> is_layer_module(#[trigger] modules@[j + 1], layers@[j].spec_name()),
        decreases n - i,
    {
        let layer_name = layers[i].name();
        let id = sanitize_app_id(layer_name);
        let id_chars = chars_of(id.as_str());
        let module_name = replace_all(id_chars.as_slice(), dot.as_slice(), dash.as_slice());
        let m = dir_module(string_from_chars(module_name.as_slice()), owned(layer_name));
        modules.push(m);
        assert(is_layer_module(modules@[i + 1], layers@[i as int].spec_name()));
        i = i + 1;
    }
    let mut finish_args: Vec<String> = Vec::new();
    finish_args.push(owned("--share=network"));
    finish_args.push(owned("--share=ipc"));
    Ok(
        FlatpakManifest {
            app_id,
            runtime: owned(flatpak_runtime_name),
            runtime_version: owned("22.08"),
            sdk: owned(flatpak_sdk),
            command,
            finish_args,
            modules,
        },
    )
}

/// The `.desktop` entry for an application.
pub open spec fn desktop_entry(app_id: Seq<char>, app_name: Seq<char>) -> Seq<char> {
    "[Desktop Entry]\nType=Application\nName="@ + app_name + "\nExec="@ + app_id
        + "\nTerminal=false\nCategories=Application;\nIcon=application-default-icon\n"@
}

/// Generates a `.desktop` file for GNOME/KDE menus.
pub fn generate_desktop_file(app_id: &str, app_name: &str) -> (r: String)
    ensures
        r@ == desktop_entry(app_id@, app_name@),
{
    let mut s = owned("[Desktop Entry]\nType=Application\nName=");
    push_str(&mut s, app_name);
    push_str(&mut s, "\nExec=");
    push_str(&mut s, app_id);
    push_str(&mut s, "\nTerminal=false\nCategories=Application;\nIcon=application-default-icon\n");
    s
}

} // verus!
