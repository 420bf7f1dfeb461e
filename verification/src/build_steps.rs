//! Decisions of the build command around the packaging itself: where the
//! launcher stub is looked for, whether a Node project uses workspace
//! dependencies, which sandbox flags would be ignored, and what a dry run
//! reports.
use crate::build_args::{
    isolation_level, output_paths, parse_isolation, planned_outputs, resolve_targets, resolved_targets,
    target_pieces,
    bool_str, bool_text, opt_entry, parse_target, push_line, push_opt, target_arch, target_os, BuildArgs,
    BuildPlan,
};
use crate::bytes::read_array32;
use crate::detect::{runtime_name, Runtime};
use crate::sisr_stage::SisrBuildConfig;
use crate::snap::{joined, write_joined};
use crate::strmap::string_views;
use crate::fspath::{join, opt_chars, opt_view};
use crate::jsonread::{json_object_values, json_object_values_at, opt_strings_view};
use crate::text::{decimal, decimal_string, has_prefix, join_path, owned, push_str, str_eq, str_starts_with};
use vstd::prelude::*;

verus! {

/// The build triple of the stub for a target (`None`: the host default).
pub open spec fn stub_triple(target: Option<Seq<char>>, host_arch: Seq<char>) -> Seq<char> {
    match target {
        None => "x86_64-unknown-linux-musl"@,
        Some(t) => {
            let arch = target_arch(t, host_arch);
            let os = target_os(t);
            if os == "darwin"@ {
                arch + "-apple-darwin"@
            } else if os == "windows"@ {
                arch + "-pc-windows-gnu"@
            } else {
                arch + "-unknown-linux-musl"@
            }
        },
    }
}

/// The stub's file name: `erebus-stub.exe` for Windows targets.
pub open spec fn stub_name(target: Option<Seq<char>>) -> Seq<char> {
    match target {
        Some(t) => if target_os(t) == "windows"@ {
            "erebus-stub.exe"@
        } else {
            "erebus-stub"@
        },
        None => "erebus-stub"@,
    }
}

/// Where a built stub is looked for, in order: under the Cargo target
/// directory, under `/tmp/erebus-stub-target`, and under `stub/target`,
/// each in `<triple>/release/<name>`.
pub open spec fn stub_candidate_paths(target_dir: Seq<char>, target: Option<Seq<char>>, host_arch: Seq<char>) -> Seq<
    Seq<char>,
> {
    let tail = |root: Seq<char>|
        join_path(
            join_path(join_path(root, stub_triple(target, host_arch)), "release"@),
            stub_name(target),
        );
    seq![tail(target_dir), tail("/tmp/erebus-stub-target"@), tail("stub/target"@)]
}

/// `<root>/<triple>/release/<name>`.
fn stub_path(root: &str, triple: &str, name: &str) -> (r: String)
    ensures
        r@ == join_path(join_path(join_path(root@, triple@), "release"@), name@),
{
    let a = join(root, triple);
    let b = join(a.as_str(), "release");
    join(b.as_str(), name)
}

/// The places a built stub is looked for, in order.
pub fn stub_candidates(target_dir: &str, target: Option<&str>, host_arch: &str) -> (r: Vec<String>)
    ensures
        r@.len() == 3,
        forall|i: int|
            0 <= i < 3 ==> #[trigger] r@[i]@ == stub_candidate_paths(
                target_dir@,
                opt_view(target),
                host_arch@,
            )[i],
{
    let (triple, name) = match target {
        None => (owned("x86_64-unknown-linux-musl"), owned("erebus-stub")),
        Some(t) => {
            let (arch, os) = parse_target(t, host_arch);
            let mut triple = owned(arch.as_str());
            let windows = crate::text::str_eq(os.as_str(), "windows");
            if crate::text::str_eq(os.as_str(), "darwin") {
                push_str(&mut triple, "-apple-darwin");
            } else if windows {
                push_str(&mut triple, "-pc-windows-gnu");
            } else {
                push_str(&mut triple, "-unknown-linux-musl");
            }
            let name = if windows {
                owned("erebus-stub.exe")
            } else {
                owned("erebus-stub")
            };
            (triple, name)
        },
    };
    assert(triple@ == stub_triple(opt_view(target), host_arch@));
    assert(name@ == stub_name(opt_view(target)));
    let r = vec![
        stub_path(target_dir, triple.as_str(), name.as_str()),
        stub_path("/tmp/erebus-stub-target", triple.as_str(), name.as_str()),
        stub_path("stub/target", triple.as_str(), name.as_str()),
    ];
    r
}

/// The dependency sections a workspace dependency may sit in.
pub open spec fn dependency_sections() -> Seq<Seq<char>> {
    seq!["dependencies"@, "devDependencies"@, "peerDependencies"@, "optionalDependencies"@]
}

/// Whether some value is a string starting with `workspace:`.
pub open spec fn has_workspace_spec(vals: Seq<Option<Seq<char>>>) -> bool {
    exists|i: int|
        0 <= i < vals.len() && (#[trigger] vals[i]) is Some && has_prefix(vals[i]->0, "workspace:"@)
}

/// Whether a `package.json` text declares a dependency with the pnpm
/// `workspace:` protocol in one of the dependency sections.
pub open spec fn uses_workspace_protocol(content: Seq<char>) -> bool {
    exists|k: int|
        0 <= k < 4 && match json_object_values_at(content, #[trigger] dependency_sections()[k]) {
            Some(v) => has_workspace_spec(v),
            None => false,
        }
}

/// Whether the project's `package.json` (its text, `None` when it could not
/// be read) uses the `workspace:` protocol, which npm cannot install.
pub fn has_workspace_protocol(package_json: Option<&str>) -> (r: bool)
    ensures
        r == match package_json {
            Some(c) => uses_workspace_protocol(c@),
            None => false,
        },
{
    let content = match package_json {
        Some(c) => c,
        None => {
            return false;
        },
    };
    let sections: [&str; 4] = ["dependencies", "devDependencies", "peerDependencies", "optionalDependencies"];
    assert(Seq::new(4, |i: int| sections@[i]@) =~= dependency_sections());
    let mut k: usize = 0;
    while k < 4
        invariant
            k <= 4,
            package_json == Some(content),
            sections@.len() == 4,
            forall|q: int| 0 <= q < 4 ==> #[trigger] sections@[q]@ == dependency_sections()[q],
            forall|q: int|
                0 <= q < k ==> !match json_object_values_at(content@, #[trigger] dependency_sections()[q]) {
                    Some(v) => has_workspace_spec(v),
                    None => false,
                },
        decreases 4 - k,
    {
        assert(sections@[k as int]@ == dependency_sections()[k as int]);
        match json_object_values(content, sections[k]) {
            Some(vals) => {
                let mut i: usize = 0;
                while i < vals.len()
                    invariant
                        i <= vals@.len(),
                        k < 4,
                        package_json == Some(content),
                        forall|q: int|
                            0 <= q < k ==> !match json_object_values_at(content@, #[trigger] dependency_sections()[q]) {
                                Some(v) => has_workspace_spec(v),
                                None => false,
                            },
                        json_object_values_at(content@, dependency_sections()[k as int]) == Some(
                            opt_strings_view(vals@),
                        ),
                        forall|q: int|
                            0 <= q < i ==> !(opt_strings_view(vals@)[q] is Some && has_prefix(
                                opt_strings_view(vals@)[q]->0,
                                "workspace:"@,
                            )),
                    decreases vals@.len() - i,
                {
                    match &vals[i] {
                        Some(s) => {
                            if str_starts_with(s.as_str(), "workspace:") {
                                assert(opt_strings_view(vals@)[i as int] == Some(s@));
                                assert(has_workspace_spec(opt_strings_view(vals@)));
                                assert(match json_object_values_at(
                                    content@,
                                    dependency_sections()[k as int],
                                ) {
                                    Some(v) => has_workspace_spec(v),
                                    None => false,
                                });
                                return true;
                            }
                        },
                        None => {},
                    }
                    i = i + 1;
                }
                assert(!has_workspace_spec(opt_strings_view(vals@)));
            },
            None => {},
        }
        k = k + 1;
    }
    false
}

/// The warning that `--seccomp`/`--landlock` would be ignored: they only
/// take effect at isolation level 2.
pub open spec fn sandbox_noop_text(isolation_num: u32, seccomp: bool, landlock: bool) -> Option<Seq<char>> {
    if isolation_num < 2 && (seccomp || landlock) {
        let flags = if seccomp && landlock {
            "seccomp, landlock"@
        } else if seccomp {
            "seccomp"@
        } else {
            "landlock"@
        };
        Some(
            "[erebus] warning: "@ + flags
                + " require --isolation sandbox (2) to take effect — ignored at isolation level "@
                + decimal(isolation_num as nat),
        )
    } else {
        None
    }
}

/// The warning that sandbox flags would be ignored, if they would.
pub fn sandbox_noop_warning(isolation_num: u32, seccomp: bool, landlock: bool) -> (r: Option<String>)
    ensures
        opt_chars(r) == sandbox_noop_text(isolation_num, seccomp, landlock),
{
    if isolation_num < 2 && (seccomp || landlock) {
        let mut m = owned("[erebus] warning: ");
        if seccomp && landlock {
            push_str(&mut m, "seccomp, landlock");
        } else if seccomp {
            push_str(&mut m, "seccomp");
        } else {
            push_str(&mut m, "landlock");
        }
        push_str(&mut m, " require --isolation sandbox (2) to take effect — ignored at isolation level ");
        let d = decimal_string(isolation_num as u64);
        push_str(&mut m, d.as_str());
        Some(m)
    } else {
        None
    }
}

/// A package manager found in the app directory: its name and the command
/// that installs the dependencies.
#[derive(Debug)]
pub struct PackageManagerFact {
    pub name: String,
    pub install_cmd: Vec<String>,
}

/// `line` when `on`, else nothing.
pub open spec fn flag_entry(on: bool, line: Seq<char>) -> Seq<Seq<char>> {
    if on {
        seq![line]
    } else {
        Seq::empty()
    }
}

/// The line an optional text gives, if any.
pub open spec fn some_entry(o: Option<Seq<char>>) -> Seq<Seq<char>> {
    match o {
        Some(l) => seq![l],
        None => Seq::empty(),
    }
}

/// The report lines of the package managers: each name, and its install
/// command unless installation is skipped.
pub open spec fn manager_lines(mgrs: Seq<PackageManagerFact>, no_install: bool) -> Seq<Seq<char>>
    decreases mgrs.len(),
{
    if mgrs.len() == 0 {
        Seq::empty()
    } else {
        let m = mgrs.last();
        manager_lines(mgrs.drop_last(), no_install) + seq!["  Pkg mgr:   "@ + m.name@] + flag_entry(
            !no_install,
            "  Install:   "@ + joined(m.install_cmd@, " "@),
        )
    }
}

/// One line per `--include` path.
pub open spec fn include_lines(incs: Seq<String>) -> Seq<Seq<char>> {
    Seq::new(incs.len(), |i: int| "  Include:   "@ + incs[i]@)
}

/// The lines of the SISR part of the report.
pub open spec fn sisr_lines(enabled: bool, update_url: Option<String>) -> Seq<Seq<char>> {
    if enabled {
        seq![
            "  SISR:      enabled (delta-indexed, <output>.manifest)"@,
            match update_url {
                Some(u) => "  Update URL: "@ + u@,
                None => "  Update URL: (none — updates must pass a URL or set ERE_UPDATE_URL)"@,
            },
        ]
    } else {
        Seq::empty()
    }
}

/// The settings a dry-run report starts with.
pub open spec fn dry_run_settings(plan: BuildPlan, output: Seq<char>) -> Seq<Seq<char>> {
    seq![
        "Dry run — would build:"@,
        "  App:       "@ + plan.app_dir@,
        "  Output:    "@ + output,
        "  Runtime:   "@ + plan.runtime_name@,
        "  Isolation: "@ + plan.isolation@,
        "  Seccomp:   "@ + bool_text(plan.seccomp),
        "  Landlock:  "@ + bool_text(plan.landlock),
        "  GUI:       "@ + bool_text(plan.gui),
    ]
}

/// The first part of a dry-run report: the plan's settings, the warning
/// that sandbox flags would be ignored, and the SISR settings.
pub open spec fn dry_run_head(args: BuildArgs, plan: BuildPlan, output: Seq<char>) -> Seq<Seq<char>> {
    dry_run_settings(plan, output) + some_entry(sandbox_noop_text(plan.isolation_num, plan.seccomp, plan.landlock))
        + seq!["  Encrypt:   "@ + bool_text(plan.encrypt), "  SquashFS:  "@ + bool_text(plan.squashfs)]
        + sisr_lines(args.enable_sisr, args.update_url)
}

/// The details of a dry-run report that describe the app, each only when
/// it was given.
pub open spec fn dry_run_about(plan: BuildPlan, target: Option<Seq<char>>) -> Seq<Seq<char>> {
    opt_entry("  Version:   "@, plan.version_info) + opt_entry("  Author:    "@, plan.author) + opt_entry(
        "  Desc:      "@,
        plan.description,
    ) + opt_entry("  License:   "@, plan.license) + some_entry(
        match target {
            Some(t) => Some("  Target:    "@ + t),
            None => None,
        },
    ) + opt_entry("  Env file:  "@, plan.env_file)
}

/// The build switches a dry-run report names, each only when it is on.
pub open spec fn dry_run_switches(args: BuildArgs, no_install: bool) -> Seq<Seq<char>> {
    flag_entry(no_install, "  No install: yes"@) + flag_entry(args.update, "  Update:    yes (incremental)"@)
        + flag_entry(args.tree_shake, "  Tree-shake: yes"@) + flag_entry(args.minify, "  Minify:    yes"@)
        + flag_entry(args.persist, "  Persist:   yes"@)
}

/// The runtime services a dry-run report names, each only when configured.
pub open spec fn dry_run_services(args: BuildArgs) -> Seq<Seq<char>> {
    some_entry(
        match args.health_port {
            Some(p) => Some("  Health:    port "@ + decimal(p as nat)),
            None => None,
        },
    ) + opt_entry("  OTel:      "@, args.otel_endpoint) + flag_entry(
        args.cron.len() > 0,
        "  Cron:      "@ + decimal(args.cron.len() as nat) + " task(s)"@,
    )
}

/// The optional details of a dry-run report, each only when it was given.
pub open spec fn dry_run_details(args: BuildArgs, plan: BuildPlan, target: Option<Seq<char>>) -> Seq<Seq<char>> {
    dry_run_about(plan, target) + dry_run_switches(args, plan.no_install) + dry_run_services(args)
}

/// The last part of a dry-run report: the included paths, the package
/// managers found (or `(none)`) and the number of files.
pub open spec fn dry_run_tail(
    includes: Seq<String>,
    mgrs: Seq<PackageManagerFact>,
    no_install: bool,
    file_count: nat,
) -> Seq<Seq<char>> {
    include_lines(includes) + (if mgrs.len() == 0 {
        seq!["  Pkg mgr:   (none)"@]
    } else {
        manager_lines(mgrs, no_install)
    }) + seq!["  Files:     "@ + decimal(file_count)]
}

/// What a dry run reports of a build: the plan's settings, the optional
/// details that were given, the package managers found and the number of
/// files. `output` is the output path as displayed.
pub open spec fn dry_run_text(
    args: BuildArgs,
    plan: BuildPlan,
    target: Option<Seq<char>>,
    output: Seq<char>,
    mgrs: Seq<PackageManagerFact>,
    file_count: nat,
) -> Seq<Seq<char>> {
    dry_run_head(args, plan, output) + dry_run_details(args, plan, target) + dry_run_tail(
        args.include_paths@,
        mgrs,
        plan.no_install,
        file_count,
    )
}

/// Appends `line` when `on`.
fn push_flag(lines: &mut Vec<String>, on: bool, line: &str)
    ensures
        string_views(final(lines)@) == string_views(old(lines)@) + flag_entry(on, line@),
{
    let ghost start = string_views(lines@);
    if on {
        lines.push(owned(line));
        assert(string_views(lines@) =~= start + flag_entry(on, line@));
    } else {
        assert(string_views(lines@) =~= start + flag_entry(on, line@));
    }
}

/// Appends an optional line.
fn push_some(lines: &mut Vec<String>, o: Option<String>)
    ensures
        string_views(final(lines)@) == string_views(old(lines)@) + some_entry(opt_chars(o)),
{
    let ghost start = string_views(lines@);
    match o {
        Some(l) => {
            let ghost lv = l@;
            lines.push(l);
            assert(string_views(lines@) =~= start + some_entry(Some(lv)));
        },
        None => {
            assert(string_views(lines@) =~= start + some_entry(None));
        },
    }
}

/// Appends the package manager lines.
fn push_managers(lines: &mut Vec<String>, mgrs: &Vec<PackageManagerFact>, no_install: bool)
    ensures
        string_views(final(lines)@) == string_views(old(lines)@) + manager_lines(mgrs@, no_install),
{
    let ghost start = string_views(lines@);
    let mut i: usize = 0;
    assert(mgrs@.take(0) =~= Seq::<PackageManagerFact>::empty());
    assert(start + Seq::<Seq<char>>::empty() =~= start);
    while i < mgrs.len()
        invariant
            i <= mgrs@.len(),
            string_views(lines@) == start + manager_lines(mgrs@.take(i as int), no_install),
        decreases mgrs@.len() - i,
    {
        let m = &mgrs[i];
        push_line(lines, "  Pkg mgr:   ", m.name.as_str());
        let mut cmd = owned("  Install:   ");
        write_joined(&mut cmd, &m.install_cmd, " ");
        push_flag(lines, !no_install, cmd.as_str());
        assert(mgrs@.take(i + 1).drop_last() =~= mgrs@.take(i as int));
        assert(mgrs@.take(i + 1).last() == mgrs@[i as int]);
        assert(string_views(lines@) =~= start + manager_lines(mgrs@.take(i + 1), no_install));
        i = i + 1;
    }
    assert(mgrs@.take(mgrs@.len() as int) =~= mgrs@);
}

/// Appends one line per `--include` path.
fn push_includes(lines: &mut Vec<String>, incs: &Vec<String>)
    ensures
        string_views(final(lines)@) == string_views(old(lines)@) + include_lines(incs@),
{
    let ghost start = string_views(lines@);
    let mut i: usize = 0;
    assert(start + include_lines(incs@.take(0)) =~= start);
    while i < incs.len()
        invariant
            i <= incs@.len(),
            string_views(lines@) == start + include_lines(incs@.take(i as int)),
        decreases incs@.len() - i,
    {
        push_line(lines, "  Include:   ", incs[i].as_str());
        assert(string_views(lines@) =~= start + include_lines(incs@.take(i + 1)));
        i = i + 1;
    }
    assert(incs@.take(incs@.len() as int) =~= incs@);
}

/// Appends `text` as a line.
fn push_text(lines: &mut Vec<String>, text: &str)
    ensures
        string_views(final(lines)@) == string_views(old(lines)@).push(text@),
{
    let ghost start = string_views(lines@);
    let l = owned(text);
    lines.push(l);
    assert(string_views(lines@) =~= start.push(text@));
}

/// Appends the settings a dry-run report starts with.
fn push_settings(lines: &mut Vec<String>, plan: &BuildPlan, output: &str)
    ensures
        string_views(final(lines)@) == string_views(old(lines)@) + dry_run_settings(*plan, output@),
{
    let ghost start = string_views(lines@);
    push_text(lines, "Dry run — would build:");
    push_line(lines, "  App:       ", plan.app_dir.as_str());
    push_line(lines, "  Output:    ", output);
    push_line(lines, "  Runtime:   ", plan.runtime_name.as_str());
    push_line(lines, "  Isolation: ", plan.isolation.as_str());
    push_line(lines, "  Seccomp:   ", bool_str(plan.seccomp));
    push_line(lines, "  Landlock:  ", bool_str(plan.landlock));
    push_line(lines, "  GUI:       ", bool_str(plan.gui));
    assert(string_views(lines@) =~= start + dry_run_settings(*plan, output@));
}

/// Appends the SISR lines of a dry-run report.
fn push_sisr(lines: &mut Vec<String>, enabled: bool, update_url: &Option<String>)
    ensures
        string_views(final(lines)@) == string_views(old(lines)@) + sisr_lines(enabled, *update_url),
{
    let ghost start = string_views(lines@);
    if enabled {
        push_text(lines, "  SISR:      enabled (delta-indexed, <output>.manifest)");
        match update_url {
            Some(url) => push_line(lines, "  Update URL: ", url.as_str()),
            None => push_text(lines, "  Update URL: (none — updates must pass a URL or set ERE_UPDATE_URL)"),
        }
    }
    assert(string_views(lines@) =~= start + sisr_lines(enabled, *update_url));
}

/// Appends the first part of a dry-run report.
fn push_head(lines: &mut Vec<String>, args: &BuildArgs, plan: &BuildPlan, output: &str)
    ensures
        string_views(final(lines)@) == string_views(old(lines)@) + dry_run_head(*args, *plan, output@),
{
    let ghost start = string_views(lines@);
    push_settings(lines, plan, output);
    let ghost p1 = dry_run_settings(*plan, output@);
    push_some(lines, sandbox_noop_warning(plan.isolation_num, plan.seccomp, plan.landlock));
    let ghost p2 = p1 + some_entry(sandbox_noop_text(plan.isolation_num, plan.seccomp, plan.landlock));
    assert(string_views(lines@) =~= start + p2);
    push_line(lines, "  Encrypt:   ", bool_str(plan.encrypt));
    push_line(lines, "  SquashFS:  ", bool_str(plan.squashfs));
    let ghost p3 = p2 + seq!["  Encrypt:   "@ + bool_text(plan.encrypt), "  SquashFS:  "@ + bool_text(plan.squashfs)];
    assert(string_views(lines@) =~= start + p3);
    push_sisr(lines, args.enable_sisr, &args.update_url);
    assert(string_views(lines@) =~= start + dry_run_head(*args, *plan, output@));
}

/// Appends the details that describe the app.
fn push_about(lines: &mut Vec<String>, plan: &BuildPlan, target: Option<&str>)
    ensures
        string_views(final(lines)@) == string_views(old(lines)@) + dry_run_about(*plan, opt_view(target)),
{
    let ghost start = string_views(lines@);
    push_opt(lines, "  Version:   ", &plan.version_info);
    push_opt(lines, "  Author:    ", &plan.author);
    let ghost p1 = opt_entry("  Version:   "@, plan.version_info) + opt_entry("  Author:    "@, plan.author);
    assert(string_views(lines@) =~= start + p1);
    push_opt(lines, "  Desc:      ", &plan.description);
    push_opt(lines, "  License:   ", &plan.license);
    let ghost p2 = p1 + opt_entry("  Desc:      "@, plan.description) + opt_entry("  License:   "@, plan.license);
    assert(string_views(lines@) =~= start + p2);
    let ghost before_target = string_views(lines@);
    match target {
        Some(t) => push_line(lines, "  Target:    ", t),
        None => {},
    }
    let ghost p3 = p2 + some_entry(
        match opt_view(target) {
            Some(t) => Some("  Target:    "@ + t),
            None => None,
        },
    );
    assert(string_views(lines@) =~= start + p3);
    push_opt(lines, "  Env file:  ", &plan.env_file);
    assert(string_views(lines@) =~= start + dry_run_about(*plan, opt_view(target)));
}

/// Appends the build switches that are on.
fn push_switches(lines: &mut Vec<String>, args: &BuildArgs, no_install: bool)
    ensures
        string_views(final(lines)@) == string_views(old(lines)@) + dry_run_switches(*args, no_install),
{
    let ghost start = string_views(lines@);
    push_flag(lines, no_install, "  No install: yes");
    push_flag(lines, args.update, "  Update:    yes (incremental)");
    let ghost p1 = flag_entry(no_install, "  No install: yes"@) + flag_entry(args.update, "  Update:    yes (incremental)"@);
    assert(string_views(lines@) =~= start + p1);
    push_flag(lines, args.tree_shake, "  Tree-shake: yes");
    push_flag(lines, args.minify, "  Minify:    yes");
    let ghost p2 = p1 + flag_entry(args.tree_shake, "  Tree-shake: yes"@) + flag_entry(args.minify, "  Minify:    yes"@);
    assert(string_views(lines@) =~= start + p2);
    push_flag(lines, args.persist, "  Persist:   yes");
    assert(string_views(lines@) =~= start + dry_run_switches(*args, no_install));
}

/// Appends the runtime services that are configured.
fn push_services(lines: &mut Vec<String>, args: &BuildArgs)
    ensures
        string_views(final(lines)@) == string_views(old(lines)@) + dry_run_services(*args),
{
    let ghost start = string_views(lines@);
    match args.health_port {
        Some(p) => {
            let d = decimal_string(p as u64);
            push_line(lines, "  Health:    port ", d.as_str());
        },
        None => {},
    }
    let ghost p1 = some_entry(
        match args.health_port {
            Some(p) => Some("  Health:    port "@ + decimal(p as nat)),
            None => None,
        },
    );
    assert(string_views(lines@) =~= start + p1);
    push_opt(lines, "  OTel:      ", &args.otel_endpoint);
    let mut cron = owned("  Cron:      ");
    let d = decimal_string(args.cron.len() as u64);
    push_str(&mut cron, d.as_str());
    push_str(&mut cron, " task(s)");
    push_flag(lines, args.cron.len() > 0, cron.as_str());
    assert(string_views(lines@) =~= start + dry_run_services(*args));
}

/// Appends the last part of a dry-run report.
fn push_tail(lines: &mut Vec<String>, includes: &Vec<String>, mgrs: &Vec<PackageManagerFact>, no_install: bool, file_count: usize)
    ensures
        string_views(final(lines)@) == string_views(old(lines)@) + dry_run_tail(includes@, mgrs@, no_install, file_count as nat),
{
    let ghost start = string_views(lines@);
    push_includes(lines, includes);
    let ghost before_mgrs = string_views(lines@);
    if mgrs.len() == 0 {
        push_text(lines, "  Pkg mgr:   (none)");
        assert(string_views(lines@) =~= before_mgrs + seq!["  Pkg mgr:   (none)"@]);
    } else {
        push_managers(lines, mgrs, no_install);
    }
    let fc = decimal_string(file_count as u64);
    push_line(lines, "  Files:     ", fc.as_str());
    assert(string_views(lines@) =~= start + dry_run_tail(includes@, mgrs@, no_install, file_count as nat));
}

/// The lines a dry run reports (the file tree of a verbose run follows them).
/// `output` is the output path as displayed; `mgrs` are the package managers
/// found in the app directory and `file_count` the number of files counted.
#[verifier::rlimit(40)]
pub fn dry_run_report(
    args: &BuildArgs,
    plan: &BuildPlan,
    target: Option<&str>,
    output: &str,
    mgrs: &Vec<PackageManagerFact>,
    file_count: usize,
) -> (r: Vec<String>)
    ensures
        string_views(r@) == dry_run_text(*args, *plan, opt_view(target), output@, mgrs@, file_count as nat),
{
    let mut lines: Vec<String> = Vec::new();
    assert(string_views(lines@) =~= Seq::<Seq<char>>::empty());
    push_head(&mut lines, args, plan, output);
    assert(string_views(lines@) =~= dry_run_head(*args, *plan, output@));
    let ghost h = string_views(lines@);
    push_about(&mut lines, plan, target);
    push_switches(&mut lines, args, plan.no_install);
    push_services(&mut lines, args);
    assert(string_views(lines@) =~= h + dry_run_details(*args, *plan, opt_view(target)));
    push_tail(&mut lines, &args.include_paths, mgrs, plan.no_install, file_count);
    lines
}

/// Whether a directory entry is left out when files are counted or listed:
/// version control, dependency and cache directories.
pub open spec fn skipped_entry(name: Seq<char>) -> bool {
    name == ".git"@ || name == "node_modules"@ || name == "__pycache__"@ || name == ".venv"@ || name
        == "venv"@ || name == ".erebus"@
}

/// Whether a directory entry is left out when files are counted or listed.
pub fn is_skipped_entry(name: &str) -> (r: bool)
    ensures
        r == skipped_entry(name@),
{
    str_eq(name, ".git") || str_eq(name, "node_modules") || str_eq(name, "__pycache__") || str_eq(
        name,
        ".venv",
    ) || str_eq(name, "venv") || str_eq(name, ".erebus")
}

/// The SISR settings of a build: enabled, 64 KiB chunks, and the manifest
/// signed with the 32-byte `--key` when one is given (its bytes are never shown).
pub open spec fn sisr_config_for(key: Option<Seq<u8>>) -> Result<(bool, nat, Option<Seq<u8>>), Seq<char>> {
    match key {
        None => Ok((true, 65536, None)),
        Some(k) => if k.len() == 32 {
            Ok((true, 65536, Some(k)))
        } else {
            Err("key must be 32 bytes, got "@ + decimal(k.len()))
        },
    }
}

/// The optional key bytes.
pub open spec fn opt_bytes(o: Option<&[u8]>) -> Option<Seq<u8>> {
    match o {
        Some(b) => Some(b@),
        None => None,
    }
}

/// The SISR settings as values.
pub open spec fn config_values(c: SisrBuildConfig) -> (bool, nat, Option<Seq<u8>>) {
    (
        c.enabled,
        c.chunk_target_size as nat,
        match c.signing_key {
            Some(k) => Some(k@),
            None => None,
        },
    )
}

/// The SISR build settings for the bytes of the `--key` file, if one was given.
pub fn sisr_build_config(key: Option<&[u8]>) -> (r: Result<SisrBuildConfig, String>)
    ensures
        match r {
            Ok(c) => sisr_config_for(opt_bytes(key)) == Ok::<(bool, nat, Option<Seq<u8>>), Seq<char>>(config_values(c)),
            Err(e) => sisr_config_for(opt_bytes(key)) == Err::<(bool, nat, Option<Seq<u8>>), Seq<char>>(e@),
        },
{
    let signing_key = match key {
        Some(bytes) => {
            if bytes.len() != 32 {
                let mut m = owned("key must be 32 bytes, got ");
                let d = decimal_string(bytes.len() as u64);
                push_str(&mut m, d.as_str());
                return Err(m);
            }
            let arr = read_array32(bytes, 0);
            assert(bytes@.subrange(0, 32) =~= bytes@);
            Some(arr)
        },
        None => None,
    };
    Ok(SisrBuildConfig { enabled: true, chunk_target_size: 64 * 1024, signing_key })
}

/// The settings of an app's `.erebus.toml`, its `[build]` and `[package]`
/// tables (each absent when not set).
#[derive(Debug)]
pub struct BuildFileConfig {
    pub isolation: Option<String>,
    pub seccomp: Option<bool>,
    pub landlock: Option<bool>,
    pub gui: Option<bool>,
    pub encrypt: Option<bool>,
    pub squashfs: Option<bool>,
    pub target: Option<String>,
    pub no_install: Option<bool>,
    pub env_file: Option<String>,
    pub version: Option<String>,
    pub author: Option<String>,
    pub description: Option<String>,
    pub license: Option<String>,
}

/// The isolation spec in force: `--isolation` when it is not the default,
/// else the configured one, else `sandbox`.
pub open spec fn chosen_isolation(flag: Seq<char>, configured: Option<Seq<char>>) -> Seq<char> {
    if flag != "sandbox"@ {
        flag
    } else {
        match configured {
            Some(c) => c,
            None => "sandbox"@,
        }
    }
}

/// A switch is on when the flag or the configuration turns it on.
pub open spec fn switch_on(flag: bool, configured: Option<bool>) -> bool {
    flag || configured == Some(true)
}

/// A detail given on the command line, else the configured one.
pub open spec fn detail_of(flag: Option<String>, configured: Option<String>) -> Option<Seq<char>> {
    match flag {
        Some(f) => Some(f@),
        None => opt_chars(configured),
    }
}

/// The refusal of an isolation spec.
pub open spec fn isolation_error(isolation: Seq<char>, cause: Seq<char>) -> Seq<char> {
    "invalid --isolation value: '"@ + isolation + "': "@ + cause
}

/// Whether `p` is the plan of a build of the app in `app_dir` with the
/// detected `runtime`: the command line wins over the configuration, and one
/// output is planned per target.
pub open spec fn plan_matches(
    p: BuildPlan,
    args: BuildArgs,
    config: BuildFileConfig,
    app_dir: Seq<char>,
    runtime: Runtime,
    verbose: bool,
    level: u32,
) -> bool {
    let pieces = target_pieces(opt_chars(args.target), opt_chars(config.target), opt_chars(args.cross_compile));
    &&& p.verbose == verbose
    &&& p.app_dir@ == app_dir
    &&& p.runtime == runtime
    &&& p.runtime_name@ == runtime_name(runtime)
    &&& p.isolation@ == chosen_isolation(args.isolation@, opt_chars(config.isolation))
    &&& p.isolation_num == level
    &&& p.no_install == switch_on(args.no_install, config.no_install)
    &&& p.seccomp == switch_on(args.seccomp, config.seccomp)
    &&& p.landlock == switch_on(args.landlock, config.landlock)
    &&& p.gui == switch_on(args.gui, config.gui)
    &&& p.encrypt == switch_on(args.encrypt, config.encrypt)
    &&& p.squashfs == switch_on(args.squashfs, config.squashfs)
    &&& opt_chars(p.version_info) == detail_of(args.version_info, config.version)
    &&& opt_chars(p.author) == detail_of(args.author, config.author)
    &&& opt_chars(p.description) == detail_of(args.description, config.description)
    &&& opt_chars(p.license) == detail_of(args.license, config.license)
    &&& opt_chars(p.env_file) == detail_of(args.env_file, config.env_file)
    &&& p.targets@.len() == resolved_targets(pieces).len()
    &&& forall|i: int| 0 <= i < p.targets@.len() ==> opt_chars(#[trigger] p.targets@[i]) == resolved_targets(pieces)[i]
    &&& p.outputs@.len() == planned_outputs(
        args.output@,
        Seq::new(p.targets@.len(), |i: int| opt_chars(p.targets@[i])),
        "erebus"@,
    ).len()
    &&& forall|i: int|
        0 <= i < p.outputs@.len() ==> #[trigger] p.outputs@[i]@ == planned_outputs(
            args.output@,
            Seq::new(p.targets@.len(), |i: int| opt_chars(p.targets@[i])),
            "erebus"@,
        )[i]
}

/// A copy of an optional string.
fn copy_opt(o: &Option<String>) -> (r: Option<String>)
    ensures
        opt_chars(r) == opt_chars(*o),
{
    match o {
        Some(s) => Some(owned(s.as_str())),
        None => None,
    }
}

/// The command line's detail, else the configured one.
fn detail(flag: &Option<String>, configured: &Option<String>) -> (r: Option<String>)
    ensures
        opt_chars(r) == detail_of(*flag, *configured),
{
    match flag {
        Some(f) => Some(owned(f.as_str())),
        None => copy_opt(configured),
    }
}

/// Whether the configuration turns a switch on.
fn configured_on(c: Option<bool>) -> (r: bool)
    ensures
        r == (c == Some(true)),
{
    match c {
        Some(b) => b,
        None => false,
    }
}

/// The plan of a build: the command line merged over the app's
/// configuration, the isolation level checked, and the targets and their
/// outputs resolved. `runtime` is the runtime detected in `app_dir`.
pub fn plan_build(args: &BuildArgs, config: &BuildFileConfig, app_dir: &str, runtime: Runtime, verbose: bool) -> (r:
    Result<BuildPlan, String>)
    ensures
        match isolation_level(chosen_isolation(args.isolation@, opt_chars(config.isolation))) {
            Ok(level) => r matches Ok(p) && plan_matches(p, *args, *config, app_dir@, runtime, verbose, level),
            Err(m) => r matches Err(e) && e@ == isolation_error(
                chosen_isolation(args.isolation@, opt_chars(config.isolation)),
                m,
            ),
        },
{
    let isolation = if !str_eq(args.isolation.as_str(), "sandbox") {
        owned(args.isolation.as_str())
    } else {
        match &config.isolation {
            Some(c) => owned(c.as_str()),
            None => owned("sandbox"),
        }
    };
    let isolation_num = match parse_isolation(isolation.as_str()) {
        Ok(n) => n,
        Err(m) => {
            let mut e = owned("invalid --isolation value: '");
            push_str(&mut e, isolation.as_str());
            push_str(&mut e, "': ");
            push_str(&mut e, m.as_str());
            return Err(e);
        },
    };
    let config_target = match &config.target {
        Some(t) => Some(t.as_str()),
        None => None,
    };
    let targets = resolve_targets(args, config_target);
    assert(match config_target {
        Some(t) => Some(t@),
        None => None,
    } == opt_chars(config.target));
    let outputs = output_paths(args, targets.as_slice());
    let p = BuildPlan {
        verbose,
        app_dir: owned(app_dir),
        runtime,
        runtime_name: owned(runtime.name()),
        isolation,
        isolation_num,
        no_install: args.no_install || configured_on(config.no_install),
        seccomp: args.seccomp || configured_on(config.seccomp),
        landlock: args.landlock || configured_on(config.landlock),
        gui: args.gui || configured_on(config.gui),
        encrypt: args.encrypt || configured_on(config.encrypt),
        squashfs: args.squashfs || configured_on(config.squashfs),
        version_info: detail(&args.version_info, &config.version),
        author: detail(&args.author, &config.author),
        description: detail(&args.description, &config.description),
        license: detail(&args.license, &config.license),
        env_file: detail(&args.env_file, &config.env_file),
        targets,
        outputs,
    };
    Ok(p)
}

} // verus!
