//! Snap packaging: a `snapcraft.yaml` model built from artifact metadata,
//! and its YAML text.
//!
//! Desktop-aware: GUI applications get the desktop plugs, the desktop-launch
//! command chain, the desktop environment and the GPU layout.
use crate::error::Error;
use crate::strmap::{is_slot, key_lt, stored, StrMap};
use crate::text::{has_substring, lowercase, owned, push_str, str_contains, to_lowercase};
use crate::strmap::{opt_views, string_views};
use crate::fspath::opt_chars;
use vstd::prelude::*;

verus! {

/// An application of a snap.
#[derive(Debug)]
pub struct SnapApp {
    pub command: Option<String>,
    pub plugs: Option<Vec<String>>,
    pub command_chain: Option<Vec<String>>,
    pub environment: Option<StrMap<String>>,
    pub common_id: Option<String>,
    pub desktop: Option<String>,
}

/// A service of a snap.
#[derive(Debug)]
pub struct SnapService {
    pub command: Option<String>,
    pub plugs: Option<Vec<String>>,
}

/// A part of a snap.
#[derive(Debug)]
pub struct SnapPart {
    pub plugin: Option<String>,
    pub source: Option<String>,
    pub stage: Vec<String>,
    pub organize: StrMap<String>,
}

impl Default for SnapPart {
    fn default() -> (r: Self)
        ensures
            r.plugin is None,
            r.source is None,
            r.stage@.len() == 0,
            r.organize@.len() == 0,
    {
        SnapPart { plugin: None, source: None, stage: Vec::new(), organize: StrMap::new() }
    }
}

/// A layout directive binding shared files into the snap.
#[derive(Debug, Clone)]
pub struct SnapLayoutEntry {
    pub bind: Option<String>,
    pub symlink: Option<String>,
    pub bind_file: Option<String>,
}

/// Layout directives, by target path.
pub type SnapLayout = StrMap<SnapLayoutEntry>;

/// A `snapcraft.yaml` configuration.
#[derive(Debug)]
pub struct SnapConfig {
    pub name: String,
    pub version: String,
    pub summary: Option<String>,
    pub description: Option<String>,
    pub apps: Option<StrMap<SnapApp>>,
    pub services: Option<StrMap<SnapService>>,
    pub parts: StrMap<SnapPart>,
    pub base: Option<String>,
    pub confinement: Option<String>,
    pub grade: Option<String>,
    pub environment: StrMap<String>,
    pub layout: Option<SnapLayout>,
}

/// Desktop environment targeted by runtime-specific packaging.
#[derive(Debug, Clone, Copy, PartialEq, Eq, Structural)]
pub enum DesktopEnv {
    Gnome,
    KDE,
    XFCE,
    Any,
    Unknown,
}

/// The desktop environment a lowercased desktop name denotes.
pub open spec fn desktop_from_lowercase(t: Seq<char>) -> DesktopEnv {
    if has_substring(t, "gnome"@) {
        DesktopEnv::Gnome
    } else if has_substring(t, "kde"@) {
        DesktopEnv::KDE
    } else if has_substring(t, "xfce"@) {
        DesktopEnv::XFCE
    } else if has_substring(t, "ubuntu:unity"@) || has_substring(t, "unity"@) {
        DesktopEnv::Any
    } else {
        DesktopEnv::Unknown
    }
}

impl DesktopEnv {
    /// The desktop environment named by an already lowercased desktop name.
    pub fn from_lowercase_name(t: &str) -> (r: Self)
        ensures
            r == desktop_from_lowercase(t@),
    {
        if str_contains(t, "gnome") {
            DesktopEnv::Gnome
        } else if str_contains(t, "kde") {
            DesktopEnv::KDE
        } else if str_contains(t, "xfce") {
            DesktopEnv::XFCE
        } else if str_contains(t, "ubuntu:unity") || str_contains(t, "unity") {
            DesktopEnv::Any
        } else {
            DesktopEnv::Unknown
        }
    }

    /// The desktop environment named by `XDG_CURRENT_DESKTOP` (or
    /// `XDG_SESSION_DESKTOP`), case-insensitively.
    pub fn from_desktop_name(name: &str) -> (r: Self)
        ensures
            r == desktop_from_lowercase(lowercase(name@)),
    {
        let t = to_lowercase(name);
        DesktopEnv::from_lowercase_name(t.as_str())
    }
}

/// The plugs of a desktop GUI application.
pub open spec fn desktop_plug_names() -> Seq<Seq<char>> {
    seq![
        "desktop"@,
        "desktop-legacy"@,
        "gsettings"@,
        "opengl"@,
        "wayland"@,
        "x11"@,
        "audio-playback"@,
        "audio-record"@,
        "camera"@,
        "home"@,
        "network"@,
        "network-bind"@,
        "removable-media"@,
        "screen-inhibit-control"@,
        "shmem"@,
        "unity7"@,
        "upower-observe"@,
    ]
}

/// The plugs of a command-line application or service.
pub open spec fn cli_plug_names() -> Seq<Seq<char>> {
    seq!["network"@, "home"@]
}

/// Plugs (interfaces) for desktop GUI apps.
pub fn desktop_plugs() -> (r: Vec<&'static str>)
    ensures
        r@.len() == desktop_plug_names().len(),
        forall|i: int| 0 <= i < r@.len() ==> #[trigger] r@[i]@ == desktop_plug_names()[i],
{
    let r: Vec<&'static str> = vec![
        "desktop",
        "desktop-legacy",
        "gsettings",
        "opengl",
        "wayland",
        "x11",
        "audio-playback",
        "audio-record",
        "camera",
        "home",
        "network",
        "network-bind",
        "removable-media",
        "screen-inhibit-control",
        "shmem",
        "unity7",
        "upower-observe",
    ];
    r
}

/// Plugs for command-line apps and services.
pub fn cli_plugs() -> (r: Vec<&'static str>)
    ensures
        r@.len() == cli_plug_names().len(),
        forall|i: int| 0 <= i < r@.len() ==> #[trigger] r@[i]@ == cli_plug_names()[i],
{
    let r: Vec<&'static str> = vec!["network", "home"];
    r
}

/// Owned copies of a list of string literals.
fn owned_all(v: Vec<&'static str>) -> (r: Vec<String>)
    ensures
        r@.len() == v@.len(),
        forall|i: int| 0 <= i < r@.len() ==> #[trigger] r@[i]@ == v@[i]@,
{
    let n = v.len();
    let mut r: Vec<String> = Vec::new();
    let mut i: usize = 0;
    while i < n
        invariant
            n == v@.len(),
            i <= n,
            r@.len() == i,
            forall|j: int| 0 <= j < i ==> #[trigger] r@[j]@ == v@[j]@,
        decreases n - i,
    {
        r.push(owned(v[i]));
        i = i + 1;
    }
    r
}

/// The command chain of a desktop launch.
pub fn desktop_command_chain() -> (r: Vec<String>)
    ensures
        r@.len() == 1,
        r@[0]@ == "snap/command-chain/desktop-launch"@,
{
    let mut r: Vec<String> = Vec::new();
    r.push(owned("snap/command-chain/desktop-launch"));
    r
}

/// The value of `LD_LIBRARY_PATH` for desktop integration.
pub open spec fn desktop_library_path() -> Seq<char> {
    "${SNAP_LIBRARY_PATH}${LD_LIBRARY_PATH:+:$LD_LIBRARY_PATH}:$SNAP/usr/lib:$SNAP/usr/lib/x86_64-linux-gnu"@
}

/// The value of `PATH` for desktop integration.
pub open spec fn desktop_path() -> Seq<char> {
    "$SNAP/usr/sbin:$SNAP/usr/bin:$SNAP/sbin:$SNAP/bin:$PATH"@
}

/// Whether `s` is the desktop environment, in key order.
pub open spec fn is_desktop_environment(s: Seq<(String, String)>) -> bool {
    &&& s.len() == 3
    &&& s[0].0@ == "GTK_USE_PORTAL"@ && s[0].1@ == "1"@
    &&& s[1].0@ == "LD_LIBRARY_PATH"@ && s[1].1@ == desktop_library_path()
    &&& s[2].0@ == "PATH"@ && s[2].1@ == desktop_path()
}

/// Environment variables for desktop integration.
pub fn desktop_environment() -> (r: StrMap<String>)
    ensures
        is_desktop_environment(r@),
{
    let mut env: StrMap<String> = StrMap::new();
    let k1 = owned("GTK_USE_PORTAL");
    let k2 = owned("LD_LIBRARY_PATH");
    let k3 = owned("PATH");
    proof {
        reveal_strlit("GTK_USE_PORTAL");
        reveal_strlit("LD_LIBRARY_PATH");
        reveal_strlit("PATH");
    }
    let ghost e0 = env@;
    env.insert(k1, owned("1"));
    let ghost e1 = env@;
    proof {
        let p = choose|p: int| is_slot(e0, "GTK_USE_PORTAL"@, p) && e1 == stored(e0, p, k1, e1[0].1);
    }
    assert(e1.len() == 1 && e1[0].0@ == "GTK_USE_PORTAL"@);
    env.insert(
        k2,
        owned(
            "${SNAP_LIBRARY_PATH}${LD_LIBRARY_PATH:+:$LD_LIBRARY_PATH}:$SNAP/usr/lib:$SNAP/usr/lib/x86_64-linux-gnu",
        ),
    );
    let ghost e2 = env@;
    assert(key_lt("GTK_USE_PORTAL"@, "LD_LIBRARY_PATH"@));
    assert(e2.len() == 2 && e2[0] == e1[0] && e2[1].0@ == "LD_LIBRARY_PATH"@);
    env.insert(k3, owned("$SNAP/usr/sbin:$SNAP/usr/bin:$SNAP/sbin:$SNAP/bin:$PATH"));
    assert(key_lt("GTK_USE_PORTAL"@, "PATH"@));
    assert(key_lt("LD_LIBRARY_PATH"@, "PATH"@));
    env
}

/// The entries of an optional map.
pub open spec fn opt_entries<V>(o: Option<StrMap<V>>) -> Option<Seq<(String, V)>> {
    match o {
        Some(m) => Some(m@),
        None => None,
    }
}

/// Whether `o` holds the desktop environment.
pub open spec fn holds_desktop_environment(o: Option<StrMap<String>>) -> bool {
    match o {
        Some(m) => is_desktop_environment(m@),
        None => false,
    }
}

/// The plugs, command chain and environment of an application.
pub fn desktop_config(is_desktop: bool) -> (r: (Vec<String>, Option<Vec<String>>, Option<StrMap<String>>))
    ensures
        string_views(r.0@) == if is_desktop {
            desktop_plug_names()
        } else {
            cli_plug_names()
        },
        is_desktop ==> opt_views(r.1) == Some(seq!["snap/command-chain/desktop-launch"@]),
        !is_desktop ==> r.1 is None,
        is_desktop ==> holds_desktop_environment(r.2),
        !is_desktop ==> r.2 is None,
{
    if is_desktop {
        let plugs = owned_all(desktop_plugs());
        let chain = desktop_command_chain();
        assert(string_views(plugs@) =~= desktop_plug_names());
        assert(string_views(chain@) =~= seq!["snap/command-chain/desktop-launch"@]);
        (plugs, Some(chain), Some(desktop_environment()))
    } else {
        let plugs = owned_all(cli_plugs());
        assert(string_views(plugs@) =~= cli_plug_names());
        (plugs, None, None)
    }
}

/// Whether `e` is a layout entry with exactly these directives.
pub open spec fn is_layout_entry(
    e: SnapLayoutEntry,
    bind: Option<Seq<char>>,
    symlink: Option<Seq<char>>,
) -> bool {
    opt_chars(e.bind) == bind && opt_chars(e.symlink) == symlink && e.bind_file is None
}

/// Whether `s` is the GPU layout of a desktop application, in key order.
pub open spec fn is_desktop_layout(s: Seq<(String, SnapLayoutEntry)>) -> bool {
    &&& s.len() == 2
    &&& s[0].0@ == "/usr/share/drirc.d"@
    &&& is_layout_entry(s[0].1, None, Some("$SNAP/gpu-2404/drirc.d"@))
    &&& s[1].0@ == "/usr/share/libdrm"@
    &&& is_layout_entry(s[1].1, Some("$SNAP/gpu-2404/libdrm"@), None)
}

/// GPU layout directives for desktop applications.
pub fn desktop_layout(is_desktop: bool) -> (r: Option<SnapLayout>)
    ensures
        !is_desktop ==> r is None,
        is_desktop ==> (r matches Some(l) && is_desktop_layout(l@)),
{
    if !is_desktop {
        return None;
    }
    let mut l: SnapLayout = StrMap::new();
    let k1 = owned("/usr/share/libdrm");
    let k2 = owned("/usr/share/drirc.d");
    proof {
        reveal_strlit("/usr/share/libdrm");
        reveal_strlit("/usr/share/drirc.d");
    }
    l.insert(
        k1,
        SnapLayoutEntry { bind: Some(owned("$SNAP/gpu-2404/libdrm")), symlink: None, bind_file: None },
    );
    let ghost e1 = l@;
    assert(e1.len() == 1 && e1[0].0@ == "/usr/share/libdrm"@);
    l.insert(
        k2,
        SnapLayoutEntry {
            bind: None,
            symlink: Some(owned("$SNAP/gpu-2404/drirc.d")),
            bind_file: None,
        },
    );
    assert(key_lt("/usr/share/drirc.d"@, "/usr/share/libdrm"@)) by {
        reveal_with_fuel(key_lt, 13);
    }
    assert(!key_lt("/usr/share/libdrm"@, "/usr/share/drirc.d"@)) by {
        crate::strmap::lemma_key_lt_asymmetric("/usr/share/drirc.d"@, "/usr/share/libdrm"@);
    }
    Some(l)
}

/// Whether `o` is the service map of a service whose command is `command`.
pub open spec fn is_service_map(o: Option<StrMap<SnapService>>, command: Seq<char>) -> bool {
    match o {
        Some(m) => m@.len() == 1 && m@[0].0@ == command && opt_chars(m@[0].1.command) == Some(command)
            && opt_views(m@[0].1.plugs) == Some(cli_plug_names()),
        None => false,
    }
}

/// The services of a snap: the command itself when it runs as a service.
pub fn build_services(command: &str, is_service: bool) -> (r: Option<StrMap<SnapService>>)
    ensures
        !is_service ==> r is None,
        is_service ==> is_service_map(r, command@),
{
    if !is_service {
        return None;
    }
    let plugs = owned_all(cli_plugs());
    assert(string_views(plugs@) =~= cli_plug_names());
    let mut services: StrMap<SnapService> = StrMap::new();
    services.insert(owned(command), SnapService { command: Some(owned(command)), plugs: Some(plugs) });
    Some(services)
}

/// Whether `a` is the application made for `app_name` running `command`.
pub open spec fn is_snap_app_for(a: SnapApp, app_name: Seq<char>, command: Seq<char>, is_desktop: bool) -> bool {
    &&& opt_chars(a.command) == Some(command)
    &&& opt_views(a.plugs) == Some(
        if is_desktop {
            desktop_plug_names()
        } else {
            cli_plug_names()
        },
    )
    &&& is_desktop ==> opt_views(a.command_chain) == Some(seq!["snap/command-chain/desktop-launch"@])
    &&& !is_desktop ==> a.command_chain is None
    &&& is_desktop ==> holds_desktop_environment(a.environment)
    &&& !is_desktop ==> a.environment is None
    &&& opt_chars(a.common_id) == if is_desktop {
        Some(app_name + ".desktop"@)
    } else {
        None
    }
    &&& opt_chars(a.desktop) == if is_desktop {
        Some("usr/share/applications/"@ + app_name + ".desktop"@)
    } else {
        None
    }
}

/// Whether `o` is the single-application map of `app_name`.
pub open spec fn is_app_map(o: Option<StrMap<SnapApp>>, app_name: Seq<char>, command: Seq<char>, is_desktop: bool) -> bool {
    match o {
        Some(m) => m@.len() == 1 && m@[0].0@ == app_name && is_snap_app_for(
            m@[0].1,
            app_name,
            command,
            is_desktop,
        ),
        None => false,
    }
}

/// Whether `s` is the single part that dumps the payload.
pub open spec fn is_payload_parts(s: Seq<(String, SnapPart)>) -> bool {
    &&& s.len() == 1
    &&& s[0].0@ == "erebus-app"@
    &&& opt_chars(s[0].1.plugin) == Some("dump"@)
    &&& opt_chars(s[0].1.source) == Some("."@)
    &&& s[0].1.stage@.len() == 0
    &&& s[0].1.organize@.len() == 0
}

/// Generates the snapcraft configuration of an application.
pub fn generate_snapcraft_yaml(
    app_name: &str,
    version: &str,
    description: Option<&str>,
    runtime: &str,
    entrypoint: &[String],
    is_service: bool,
    is_desktop: bool,
) -> (r: Result<SnapConfig, Error>)
    ensures
        r matches Ok(c) && {
            let command = if entrypoint@.len() > 0 {
                entrypoint@[0]@
            } else {
                runtime@
            };
            &&& c.name@ == app_name@
            &&& c.version@ == version@
            &&& opt_chars(c.summary) == Some(app_name@ + " application"@)
            &&& opt_chars(c.description) == Some(
                match description {
                    Some(d) => d@,
                    None => app_name@ + " application"@,
                },
            )
            &&& is_app_map(c.apps, app_name@, command, is_desktop)
            &&& !is_service ==> c.services is None
            &&& is_service ==> is_service_map(c.services, command)
            &&& is_payload_parts(c.parts@)
            &&& opt_chars(c.base) == Some("core22"@)
            &&& opt_chars(c.confinement) == Some("strict"@)
            &&& opt_chars(c.grade) == Some("stable"@)
            &&& is_desktop ==> is_desktop_environment(c.environment@)
            &&& !is_desktop ==> c.environment@.len() == 0
            &&& !is_desktop ==> c.layout is None
            &&& is_desktop ==> (c.layout matches Some(l) && is_desktop_layout(l@))
        },
{
    let command = if entrypoint.len() > 0 {
        entrypoint[0].clone()
    } else {
        owned(runtime)
    };
    let (plugs, command_chain, env) = desktop_config(is_desktop);
    let common_id = if is_desktop {
        let mut c = owned(app_name);
        push_str(&mut c, ".desktop");
        Some(c)
    } else {
        None
    };
    let desktop = if is_desktop {
        let mut d = owned("usr/share/applications/");
        push_str(&mut d, app_name);
        push_str(&mut d, ".desktop");
        Some(d)
    } else {
        None
    };
    let app = SnapApp {
        command: Some(command.clone()),
        plugs: Some(plugs),
        command_chain,
        environment: env,
        common_id,
        desktop,
    };
    let mut apps: StrMap<SnapApp> = StrMap::new();
    apps.insert(owned(app_name), app);
    let mut parts: StrMap<SnapPart> = StrMap::new();
    parts.insert(
        owned("erebus-app"),
        SnapPart {
            plugin: Some(owned("dump")),
            source: Some(owned(".")),
            stage: Vec::new(),
            organize: StrMap::new(),
        },
    );
    let mut summary = owned(app_name);
    push_str(&mut summary, " application");
    let desc = match description {
        Some(d) => owned(d),
        None => {
            let mut d = owned(app_name);
            push_str(&mut d, " application");
            d
        },
    };
    let services = build_services(command.as_str(), is_service);
    let environment = if is_desktop {
        desktop_environment()
    } else {
        StrMap::new()
    };
    let layout = desktop_layout(is_desktop);
    Ok(
        SnapConfig {
            name: owned(app_name),
            version: owned(version),
            summary: Some(summary),
            description: Some(desc),
            apps: Some(apps),
            services,
            parts,
            base: Some(owned("core22")),
            confinement: Some(owned("strict")),
            grade: Some(owned("stable")),
            environment,
            layout,
        },
    )
}

/// `prefix`, the string and a newline, when there is a string.
pub open spec fn opt_line(prefix: Seq<char>, o: Option<String>) -> Seq<char> {
    match o {
        Some(v) => prefix + v@ + "\n"@,
        None => Seq::empty(),
    }
}

/// One `key: value` line per entry, each after `indent`.
pub open spec fn pairs_text(s: Seq<(String, String)>, indent: Seq<char>) -> Seq<char>
    decreases s.len(),
{
    if s.len() == 0 {
        Seq::empty()
    } else {
        pairs_text(s.drop_last(), indent) + indent + s.last().0@ + ": "@ + s.last().1@ + "\n"@
    }
}

/// The strings of `v` with `sep` between them.
pub open spec fn joined(v: Seq<String>, sep: Seq<char>) -> Seq<char>
    decreases v.len(),
{
    if v.len() == 0 {
        Seq::empty()
    } else if v.len() == 1 {
        v[0]@
    } else {
        joined(v.drop_last(), sep) + sep + v.last()@
    }
}

/// One line per string of `v`, each after `indent`.
pub open spec fn items_text(v: Seq<String>, indent: Seq<char>) -> Seq<char>
    decreases v.len(),
{
    if v.len() == 0 {
        Seq::empty()
    } else {
        items_text(v.drop_last(), indent) + indent + v.last()@ + "\n"@
    }
}

/// The header lines of a snapcraft file.
pub open spec fn header_text(c: SnapConfig) -> Seq<char> {
    "name: "@ + c.name@ + "\n"@ + "version: "@ + c.version@ + "\n"@ + opt_line("summary: "@, c.summary)
        + opt_line("description:\n  "@, c.description) + opt_line("base: "@, c.base) + opt_line(
        "confinement: "@,
        c.confinement,
    ) + opt_line("grade: "@, c.grade)
}

/// The top-level environment section.
pub open spec fn environment_text(s: Seq<(String, String)>) -> Seq<char> {
    if s.len() == 0 {
        Seq::empty()
    } else {
        "environment:\n"@ + pairs_text(s, "  "@)
    }
}

/// A `plugs` list.
pub open spec fn plugs_text(o: Option<Vec<String>>) -> Seq<char> {
    match o {
        Some(p) => "    plugs:\n      - "@ + joined(p@, "\n      - "@) + "\n"@,
        None => Seq::empty(),
    }
}

/// A `command-chain` list.
pub open spec fn chain_text(o: Option<Vec<String>>) -> Seq<char> {
    match o {
        Some(c) => "    command-chain:\n"@ + items_text(c@, "      - "@),
        None => Seq::empty(),
    }
}

/// An application's environment.
pub open spec fn app_env_text(o: Option<StrMap<String>>) -> Seq<char> {
    match o {
        Some(m) => "    environment:\n"@ + pairs_text(m@, "      "@),
        None => Seq::empty(),
    }
}

/// One application.
pub open spec fn app_text(name: String, a: SnapApp) -> Seq<char> {
    "  "@ + name@ + ":\n"@ + opt_line("    command: "@, a.command) + opt_line("    common-id: "@, a.common_id)
        + opt_line("    desktop: "@, a.desktop) + plugs_text(a.plugs) + chain_text(a.command_chain)
        + app_env_text(a.environment)
}

/// The applications, in key order.
pub open spec fn apps_body(s: Seq<(String, SnapApp)>) -> Seq<char>
    decreases s.len(),
{
    if s.len() == 0 {
        Seq::empty()
    } else {
        apps_body(s.drop_last()) + app_text(s.last().0, s.last().1)
    }
}

/// The applications section.
pub open spec fn apps_text(o: Option<StrMap<SnapApp>>) -> Seq<char> {
    match o {
        Some(m) => "apps:\n"@ + apps_body(m@),
        None => Seq::empty(),
    }
}

/// One service.
pub open spec fn service_text(name: String, v: SnapService) -> Seq<char> {
    "  "@ + name@ + ":\n"@ + opt_line("    command: "@, v.command) + plugs_text(v.plugs)
}

/// The services, in key order.
pub open spec fn services_body(s: Seq<(String, SnapService)>) -> Seq<char>
    decreases s.len(),
{
    if s.len() == 0 {
        Seq::empty()
    } else {
        services_body(s.drop_last()) + service_text(s.last().0, s.last().1)
    }
}

/// The services section.
pub open spec fn services_text(o: Option<StrMap<SnapService>>) -> Seq<char> {
    match o {
        Some(m) => "services:\n"@ + services_body(m@),
        None => Seq::empty(),
    }
}

/// One part.
pub open spec fn part_text(name: String, p: SnapPart) -> Seq<char> {
    "  "@ + name@ + ":\n"@ + opt_line("    plugin: "@, p.plugin) + opt_line("    source: "@, p.source)
        + (if p.stage@.len() > 0 {
        "    stage:\n      - "@ + joined(p.stage@, "\n      - "@) + "\n"@
    } else {
        Seq::empty()
    }) + (if p.organize@.len() > 0 {
        "    organize:\n"@ + pairs_text(p.organize@, "      "@)
    } else {
        Seq::empty()
    })
}

/// The parts, in key order.
pub open spec fn parts_body(s: Seq<(String, SnapPart)>) -> Seq<char>
    decreases s.len(),
{
    if s.len() == 0 {
        Seq::empty()
    } else {
        parts_body(s.drop_last()) + part_text(s.last().0, s.last().1)
    }
}

/// The parts section.
pub open spec fn parts_text(s: Seq<(String, SnapPart)>) -> Seq<char> {
    if s.len() == 0 {
        Seq::empty()
    } else {
        "parts:\n"@ + parts_body(s)
    }
}

/// One layout directive.
pub open spec fn layout_entry_text(path: String, e: SnapLayoutEntry) -> Seq<char> {
    "  "@ + path@ + ":\n"@ + opt_line("    bind: "@, e.bind) + opt_line("    symlink: "@, e.symlink)
        + opt_line("    bind-file: "@, e.bind_file)
}

/// The layout directives, in key order.
pub open spec fn layout_body(s: Seq<(String, SnapLayoutEntry)>) -> Seq<char>
    decreases s.len(),
{
    if s.len() == 0 {
        Seq::empty()
    } else {
        layout_body(s.drop_last()) + layout_entry_text(s.last().0, s.last().1)
    }
}

/// The layout section.
pub open spec fn layout_text(o: Option<SnapLayout>) -> Seq<char> {
    match o {
        Some(m) => "layout:\n"@ + layout_body(m@),
        None => Seq::empty(),
    }
}

/// The whole snapcraft file.
pub open spec fn yaml_text(c: SnapConfig) -> Seq<char> {
    header_text(c) + environment_text(c.environment@) + apps_text(c.apps) + services_text(c.services)
        + parts_text(c.parts@) + layout_text(c.layout)
}

fn write_opt_line(out: &mut String, prefix: &str, o: &Option<String>)
    ensures
        final(out)@ == old(out)@ + opt_line(prefix@, *o),
{
    if let Some(v) = o {
        push_str(out, prefix);
        push_str(out, v.as_str());
        push_str(out, "\n");
    } else {
        assert(old(out)@ + Seq::<char>::empty() =~= old(out)@);
    }
}

fn write_pairs(out: &mut String, m: &StrMap<String>, indent: &str)
    ensures
        final(out)@ == old(out)@ + pairs_text(m@, indent@),
{
    let ghost start = out@;
    let n = m.len();
    let mut i: usize = 0;
    assert(m@.take(0) =~= Seq::<(String, String)>::empty());
    assert(start + Seq::<char>::empty() =~= start);
    while i < n
        invariant
            n == m@.len(),
            i <= n,
            out@ == start + pairs_text(m@.take(i as int), indent@),
        decreases n - i,
    {
        push_str(out, indent);
        push_str(out, m.key_at(i).as_str());
        push_str(out, ": ");
        push_str(out, m.value_at(i).as_str());
        push_str(out, "\n");
        assert(m@.take(i + 1).drop_last() =~= m@.take(i as int));
        assert(out@ =~= start + pairs_text(m@.take(i + 1), indent@));
        i = i + 1;
    }
    assert(m@.take(n as int) =~= m@);
}

pub(crate) fn write_joined(out: &mut String, v: &Vec<String>, sep: &str)
    ensures
        final(out)@ == old(out)@ + joined(v@, sep@),
{
    let ghost start = out@;
    let n = v.len();
    if n == 0 {
        assert(start + Seq::<char>::empty() =~= start);
        return;
    }
    push_str(out, v[0].as_str());
    assert(v@.take(1).len() == 1);
    assert(out@ == start + joined(v@.take(1), sep@));
    let mut i: usize = 1;
    while i < n
        invariant
            n == v@.len(),
            1 <= i <= n,
            out@ == start + joined(v@.take(i as int), sep@),
        decreases n - i,
    {
        push_str(out, sep);
        push_str(out, v[i].as_str());
        assert(v@.take(i + 1).drop_last() =~= v@.take(i as int));
        assert(out@ =~= start + joined(v@.take(i + 1), sep@));
        i = i + 1;
    }
    assert(v@.take(n as int) =~= v@);
}

fn write_items(out: &mut String, v: &Vec<String>, indent: &str)
    ensures
        final(out)@ == old(out)@ + items_text(v@, indent@),
{
    let ghost start = out@;
    let n = v.len();
    let mut i: usize = 0;
    assert(v@.take(0) =~= Seq::<String>::empty());
    assert(start + Seq::<char>::empty() =~= start);
    while i < n
        invariant
            n == v@.len(),
            i <= n,
            out@ == start + items_text(v@.take(i as int), indent@),
        decreases n - i,
    {
        push_str(out, indent);
        push_str(out, v[i].as_str());
        push_str(out, "\n");
        assert(v@.take(i + 1).drop_last() =~= v@.take(i as int));
        assert(out@ =~= start + items_text(v@.take(i + 1), indent@));
        i = i + 1;
    }
    assert(v@.take(n as int) =~= v@);
}

fn write_plugs(out: &mut String, plugs: &Option<Vec<String>>)
    ensures
        final(out)@ == old(out)@ + plugs_text(*plugs),
{
    if let Some(p) = plugs {
        push_str(out, "    plugs:\n      - ");
        write_joined(out, p, "\n      - ");
        push_str(out, "\n");
    } else {
        assert(old(out)@ + Seq::<char>::empty() =~= old(out)@);
    }
}

fn write_header(out: &mut String, config: &SnapConfig)
    ensures
        final(out)@ == old(out)@ + header_text(*config),
{
    let ghost start = out@;
    push_str(out, "name: ");
    push_str(out, config.name.as_str());
    push_str(out, "\n");
    push_str(out, "version: ");
    push_str(out, config.version.as_str());
    push_str(out, "\n");
    let ghost a = out@;
    assert(a =~= start + ("name: "@ + config.name@ + "\n"@ + "version: "@ + config.version@ + "\n"@));
    write_opt_line(out, "summary: ", &config.summary);
    write_opt_line(out, "description:\n  ", &config.description);
    let ghost b = out@;
    assert(b =~= a + (opt_line("summary: "@, config.summary) + opt_line("description:\n  "@, config.description)));
    write_opt_line(out, "base: ", &config.base);
    write_opt_line(out, "confinement: ", &config.confinement);
    write_opt_line(out, "grade: ", &config.grade);
    let ghost c = out@;
    assert(c =~= b + (opt_line("base: "@, config.base) + opt_line("confinement: "@, config.confinement) + opt_line("grade: "@, config.grade)));
    assert(out@ =~= start + header_text(*config));
}

fn write_environment(out: &mut String, env: &StrMap<String>)
    ensures
        final(out)@ == old(out)@ + environment_text(env@),
{
    if env.is_empty() {
        assert(old(out)@ + Seq::<char>::empty() =~= old(out)@);
        return;
    }
    let ghost start = out@;
    push_str(out, "environment:\n");
    write_pairs(out, env, "  ");
    assert(out@ =~= start + environment_text(env@));
}

fn write_app(out: &mut String, name: &String, app: &SnapApp)
    ensures
        final(out)@ == old(out)@ + app_text(*name, *app),
{
    let ghost start = out@;
    push_str(out, "  ");
    push_str(out, name.as_str());
    push_str(out, ":\n");
    write_opt_line(out, "    command: ", &app.command);
    write_opt_line(out, "    common-id: ", &app.common_id);
    write_opt_line(out, "    desktop: ", &app.desktop);
    write_plugs(out, &app.plugs);
    let ghost mid = out@;
    if let Some(chain) = &app.command_chain {
        push_str(out, "    command-chain:\n");
        write_items(out, chain, "      - ");
    }
    assert(out@ =~= mid + chain_text(app.command_chain));
    let ghost mid2 = out@;
    if let Some(env) = &app.environment {
        push_str(out, "    environment:\n");
        write_pairs(out, env, "      ");
    }
    assert(out@ =~= mid2 + app_env_text(app.environment));
    assert(out@ =~= start + app_text(*name, *app));
}

fn write_apps(out: &mut String, apps: Option<&StrMap<SnapApp>>)
    ensures
        final(out)@ == old(out)@ + match apps {
            Some(m) => "apps:\n"@ + apps_body(m@),
            None => Seq::empty(),
        },
{
    let apps = match apps {
        Some(a) => a,
        None => {
            assert(old(out)@ + Seq::<char>::empty() =~= old(out)@);
            return;
        },
    };
    let ghost start = out@;
    push_str(out, "apps:\n");
    let ghost body_start = out@;
    let n = apps.len();
    let mut i: usize = 0;
    assert(apps@.take(0) =~= Seq::<(String, SnapApp)>::empty());
    assert(body_start + Seq::<char>::empty() =~= body_start);
    while i < n
        invariant
            n == apps@.len(),
            i <= n,
            out@ == body_start + apps_body(apps@.take(i as int)),
        decreases n - i,
    {
        write_app(out, apps.key_at(i), apps.value_at(i));
        assert(apps@.take(i + 1).drop_last() =~= apps@.take(i as int));
        assert(out@ =~= body_start + apps_body(apps@.take(i + 1)));
        i = i + 1;
    }
    assert(apps@.take(n as int) =~= apps@);
    assert(out@ =~= start + ("apps:\n"@ + apps_body(apps@)));
}

fn write_services(out: &mut String, services: Option<&StrMap<SnapService>>)
    ensures
        final(out)@ == old(out)@ + match services {
            Some(m) => "services:\n"@ + services_body(m@),
            None => Seq::empty(),
        },
{
    let services = match services {
        Some(a) => a,
        None => {
            assert(old(out)@ + Seq::<char>::empty() =~= old(out)@);
            return;
        },
    };
    let ghost start = out@;
    push_str(out, "services:\n");
    let ghost body_start = out@;
    let n = services.len();
    let mut i: usize = 0;
    assert(services@.take(0) =~= Seq::<(String, SnapService)>::empty());
    assert(body_start + Seq::<char>::empty() =~= body_start);
    while i < n
        invariant
            n == services@.len(),
            i <= n,
            out@ == body_start + services_body(services@.take(i as int)),
        decreases n - i,
    {
        let name = services.key_at(i);
        let svc = services.value_at(i);
        let ghost before = out@;
        push_str(out, "  ");
        push_str(out, name.as_str());
        push_str(out, ":\n");
        write_opt_line(out, "    command: ", &svc.command);
        write_plugs(out, &svc.plugs);
        assert(out@ =~= before + service_text(*name, *svc));
        assert(services@.take(i + 1).drop_last() =~= services@.take(i as int));
        assert(out@ =~= body_start + services_body(services@.take(i + 1)));
        i = i + 1;
    }
    assert(services@.take(n as int) =~= services@);
    assert(out@ =~= start + ("services:\n"@ + services_body(services@)));
}

fn write_part(out: &mut String, name: &String, part: &SnapPart)
    ensures
        final(out)@ == old(out)@ + part_text(*name, *part),
{
    let ghost start = out@;
    push_str(out, "  ");
    push_str(out, name.as_str());
    push_str(out, ":\n");
    write_opt_line(out, "    plugin: ", &part.plugin);
    write_opt_line(out, "    source: ", &part.source);
    let ghost mid = out@;
    if part.stage.len() > 0 {
        push_str(out, "    stage:\n      - ");
        write_joined(out, &part.stage, "\n      - ");
        push_str(out, "\n");
    }
    let ghost mid2 = out@;
    if !part.organize.is_empty() {
        push_str(out, "    organize:\n");
        write_pairs(out, &part.organize, "      ");
    }
    assert(out@ =~= start + part_text(*name, *part));
}

fn write_parts(out: &mut String, parts: &StrMap<SnapPart>)
    ensures
        final(out)@ == old(out)@ + parts_text(parts@),
{
    if parts.is_empty() {
        assert(old(out)@ + Seq::<char>::empty() =~= old(out)@);
        return;
    }
    let ghost start = out@;
    push_str(out, "parts:\n");
    let ghost body_start = out@;
    let n = parts.len();
    let mut i: usize = 0;
    assert(parts@.take(0) =~= Seq::<(String, SnapPart)>::empty());
    assert(body_start + Seq::<char>::empty() =~= body_start);
    while i < n
        invariant
            n == parts@.len(),
            i <= n,
            out@ == body_start + parts_body(parts@.take(i as int)),
        decreases n - i,
    {
        write_part(out, parts.key_at(i), parts.value_at(i));
        assert(parts@.take(i + 1).drop_last() =~= parts@.take(i as int));
        assert(out@ =~= body_start + parts_body(parts@.take(i + 1)));
        i = i + 1;
    }
    assert(parts@.take(n as int) =~= parts@);
    assert(out@ =~= start + parts_text(parts@));
}

fn write_layout(out: &mut String, layout: Option<&SnapLayout>)
    ensures
        final(out)@ == old(out)@ + match layout {
            Some(m) => "layout:\n"@ + layout_body(m@),
            None => Seq::empty(),
        },
{
    let layout = match layout {
        Some(a) => a,
        None => {
            assert(old(out)@ + Seq::<char>::empty() =~= old(out)@);
            return;
        },
    };
    let ghost start = out@;
    push_str(out, "layout:\n");
    let ghost body_start = out@;
    let n = layout.len();
    let mut i: usize = 0;
    assert(layout@.take(0) =~= Seq::<(String, SnapLayoutEntry)>::empty());
    assert(body_start + Seq::<char>::empty() =~= body_start);
    while i < n
        invariant
            n == layout@.len(),
            i <= n,
            out@ == body_start + layout_body(layout@.take(i as int)),
        decreases n - i,
    {
        let path = layout.key_at(i);
        let entry = layout.value_at(i);
        let ghost before = out@;
        push_str(out, "  ");
        push_str(out, path.as_str());
        push_str(out, ":\n");
        write_opt_line(out, "    bind: ", &entry.bind);
        write_opt_line(out, "    symlink: ", &entry.symlink);
        write_opt_line(out, "    bind-file: ", &entry.bind_file);
        assert(out@ =~= before + layout_entry_text(*path, *entry));
        assert(layout@.take(i + 1).drop_last() =~= layout@.take(i as int));
        assert(out@ =~= body_start + layout_body(layout@.take(i + 1)));
        i = i + 1;
    }
    assert(layout@.take(n as int) =~= layout@);
    assert(out@ =~= start + ("layout:\n"@ + layout_body(layout@)));
}

/// The snapcraft file of `config`.
pub fn generate_yaml_string(config: &SnapConfig) -> (r: Result<String, Error>)
    ensures
        r matches Ok(s) && s@ == yaml_text(*config),
{
    let mut out = String::new();
    write_header(&mut out, config);
    write_environment(&mut out, &config.environment);
    write_apps(&mut out, config.apps.as_ref());
    write_services(&mut out, config.services.as_ref());
    write_parts(&mut out, &config.parts);
    write_layout(&mut out, config.layout.as_ref());
    assert(out@ =~= yaml_text(*config));
    Ok(out)
}

} // verus!
