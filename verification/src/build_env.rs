//! The environment a built application starts with, as the build command
//! assembles it: the runtime and app name, then the `KEY=VALUE` lines of the
//! env file, the `--env` and `--define` assignments (each overriding what
//! came before), the PHP debugger default, and the variables of the
//! persistence, health, telemetry and cron options.
use crate::build_args::{BuildArgs, BuildPlan};
use crate::fspath::{file_name_of, opt_chars, opt_view, path_file_name};
use crate::paths::{get_persist_dir, persist_dir_path};
use crate::strmap::{lookup, StrMap};
use crate::text::{
    chars_of, decimal, decimal_string, owned, push_str, split_chars, split_on, str_eq, string_from_chars,
    trim_bounds, trimmed,
};
use vstd::prelude::*;
use vstd::slice::slice_subrange;

verus! {

/// The two sides of `s` around its first `c`, if it has one.
pub open spec fn split_once(s: Seq<char>, c: char) -> Option<(Seq<char>, Seq<char>)>
    decreases s.len(),
{
    if s.len() == 0 {
        None
    } else if s[0] == c {
        Some((Seq::empty(), s.drop_first()))
    } else {
        match split_once(s.drop_first(), c) {
            Some(p) => Some((seq![s[0]] + p.0, p.1)),
            None => None,
        }
    }
}

/// Where `c` first occurs at `i`, `s` splits there.
proof fn lemma_split_once_at(s: Seq<char>, c: char, i: int)
    requires
        0 <= i < s.len(),
        s[i] == c,
        forall|j: int| 0 <= j < i ==> s[j] != c,
    ensures
        split_once(s, c) == Some((s.take(i), s.skip(i + 1))),
    decreases i,
{
    if i == 0 {
        assert(s.take(0) =~= Seq::<char>::empty());
        assert(s.skip(1) =~= s.drop_first());
    } else {
        let t = s.drop_first();
        assert forall|j: int| 0 <= j < i - 1 implies t[j] != c by {
            assert(t[j] == s[j + 1]);
        }
        lemma_split_once_at(t, c, i - 1);
        assert(seq![s[0]] + t.take(i - 1) =~= s.take(i));
        assert(t.skip(i) =~= s.skip(i + 1));
    }
}

/// Without `c`, `s` does not split.
proof fn lemma_split_once_none(s: Seq<char>, c: char)
    requires
        forall|j: int| 0 <= j < s.len() ==> s[j] != c,
    ensures
        split_once(s, c) is None,
    decreases s.len(),
{
    if s.len() > 0 {
        let t = s.drop_first();
        assert forall|j: int| 0 <= j < t.len() implies t[j] != c by {
            assert(t[j] == s[j + 1]);
        }
        lemma_split_once_none(t, c);
    }
}

/// Splits `s` at its first `c`.
pub fn split_once_chars(s: &[char], c: char) -> (r: Option<(String, String)>)
    ensures
        match r {
            Some(p) => split_once(s@, c) == Some((p.0@, p.1@)),
            None => split_once(s@, c) is None,
        },
{
    let n = s.len();
    let mut i: usize = 0;
    while i < n && s[i] != c
        invariant
            n == s@.len(),
            i <= n,
            forall|j: int| 0 <= j < i ==> s@[j] != c,
        decreases n - i,
    {
        i = i + 1;
    }
    if i == n {
        proof {
            lemma_split_once_none(s@, c);
        }
        None
    } else {
        proof {
            lemma_split_once_at(s@, c, i as int);
        }
        let a = string_from_chars(slice_subrange(s, 0, i));
        let b = string_from_chars(slice_subrange(s, i + 1, n));
        assert(s@.subrange(0, i as int) =~= s@.take(i as int));
        assert(s@.subrange(i + 1, n as int) =~= s@.skip(i + 1));
        Some((a, b))
    }
}

/// The `KEY=VALUE` assignment an entry gives: split at its first `=`, both
/// sides trimmed.
pub open spec fn assignment(entry: Seq<char>) -> Option<(Seq<char>, Seq<char>)> {
    match split_once(entry, '=') {
        Some(p) => Some((trimmed(p.0), trimmed(p.1))),
        None => None,
    }
}

/// The assignment a line of an env file gives: none for a blank line or a
/// `#` comment, else the trimmed line's assignment.
pub open spec fn env_file_line(line: Seq<char>) -> Option<(Seq<char>, Seq<char>)> {
    let t = trimmed(line);
    if t.len() == 0 || t[0] == '#' {
        None
    } else {
        assignment(t)
    }
}

/// The assignments that are there, in order.
pub open spec fn present(ps: Seq<Option<(Seq<char>, Seq<char>)>>) -> Seq<(Seq<char>, Seq<char>)>
    decreases ps.len(),
{
    if ps.len() == 0 {
        Seq::empty()
    } else {
        present(ps.drop_last()) + match ps.last() {
            Some(p) => seq![p],
            None => Seq::empty(),
        }
    }
}

/// The assignments of an env file's text, line by line.
pub open spec fn file_assignments(content: Seq<char>) -> Seq<(Seq<char>, Seq<char>)> {
    present(split_on(content, '\n').map_values(|l: Seq<char>| env_file_line(l)))
}

/// The assignments of `--env` or `--define` entries (those without `=` give none).
pub open spec fn flag_assignments(entries: Seq<String>) -> Seq<(Seq<char>, Seq<char>)> {
    present(entries.map_values(|e: String| assignment(e@)))
}

/// The value `k` has after the assignments `ps`, made in order.
pub open spec fn value_after(ps: Seq<(Seq<char>, Seq<char>)>, k: Seq<char>) -> Option<Seq<char>>
    decreases ps.len(),
{
    if ps.len() == 0 {
        None
    } else if ps.last().0 == k {
        Some(ps.last().1)
    } else {
        value_after(ps.drop_last(), k)
    }
}

/// The app's name: the last component of its directory, else `app`.
pub open spec fn app_name(app_dir: Seq<char>) -> Seq<char> {
    match path_file_name(app_dir) {
        Some(n) => n,
        None => "app"@,
    }
}

/// The assignments the user's inputs make, after the runtime and app name:
/// the env file's (when it could be read), then `--env`, then `--define`.
pub open spec fn user_assignments(
    runtime: Seq<char>,
    app_dir: Seq<char>,
    env_file: Option<Seq<char>>,
    env: Seq<String>,
    define: Seq<String>,
) -> Seq<(Seq<char>, Seq<char>)> {
    seq![("ERE_RUNTIME"@, runtime), ("ERE_APP_NAME"@, app_name(app_dir))] + match env_file {
        Some(c) => file_assignments(c),
        None => Seq::empty(),
    } + flag_assignments(env) + flag_assignments(define)
}

/// The telemetry variables, as character sequences.
pub open spec fn pair_views(ps: Seq<(String, String)>) -> Seq<(Seq<char>, Seq<char>)> {
    ps.map_values(|p: (String, String)| (p.0@, p.1@))
}

/// All assignments of the app's environment, in the order they are made.
/// PHP apps get `XDEBUG_MODE=off` unless the user set it. The cron tasks
/// variable is carried with an empty text value.
pub open spec fn env_assignments(
    args: BuildArgs,
    plan: BuildPlan,
    env_file: Option<Seq<char>>,
    xdg_data_home: Option<Seq<char>>,
    home: Option<Seq<char>>,
    otel_env: Seq<(String, String)>,
) -> Seq<(Seq<char>, Seq<char>)> {
    let u = user_assignments(plan.runtime_name@, plan.app_dir@, env_file, args.env@, args.define@);
    u + (if plan.runtime_name@ == "php"@ && value_after(u, "XDEBUG_MODE"@) is None {
        seq![("XDEBUG_MODE"@, "off"@)]
    } else {
        Seq::empty()
    }) + (if args.persist {
        seq![("ERE_PERSIST_DIR"@, persist_dir_path(xdg_data_home, home, app_name(plan.app_dir@)))]
    } else {
        Seq::empty()
    }) + match args.health_port {
        Some(p) => seq![("ERE_HEALTH_PORT"@, decimal(p as nat))],
        None => Seq::empty(),
    } + pair_views(otel_env) + (if args.cron.len() > 0 {
        seq![("ERE_CRON_TASKS"@, Seq::<char>::empty())]
    } else {
        Seq::empty()
    })
}

/// The error for the first `--cron` entry without a `NAME:SCHEDULE` colon.
pub open spec fn cron_format_error(cron: Seq<String>) -> Option<Seq<char>>
    decreases cron.len(),
{
    if cron.len() == 0 {
        None
    } else if split_once(cron[0]@, ':') is None {
        Some("--cron format: NAME:SCHEDULE (got '"@ + cron[0]@ + "')"@)
    } else {
        cron_format_error(cron.drop_first())
    }
}

/// Whether the map's values are those the assignments `ps` leave.
pub open spec fn holds_values(m: Seq<(String, String)>, ps: Seq<(Seq<char>, Seq<char>)>) -> bool {
    forall|q: Seq<char>| #[trigger] opt_chars(lookup(m, q)) == value_after(ps, q)
}

/// Makes one more assignment.
fn assign(m: &mut StrMap<String>, k: String, v: String, Ghost(ps): Ghost<Seq<(Seq<char>, Seq<char>)>>)
    requires
        holds_values(old(m)@, ps),
    ensures
        holds_values(final(m)@, ps.push((k@, v@))),
{
    let ghost kv = k@;
    let ghost vv = v@;
    let ghost before = m@;
    m.insert(k, v);
    assert(ps.push((kv, vv)).drop_last() =~= ps);
    assert forall|q: Seq<char>| #[trigger] opt_chars(lookup(m@, q)) == value_after(ps.push((kv, vv)), q) by {
        if q != kv {
            assert(lookup(m@, q) == lookup(before, q));
            assert(opt_chars(lookup(before, q)) == value_after(ps, q));
        }
    }
}

/// The assignment of an entry, split at its first `=` and trimmed.
fn assignment_of(e: &[char]) -> (r: Option<(String, String)>)
    ensures
        match r {
            Some(p) => assignment(e@) == Some((p.0@, p.1@)),
            None => assignment(e@) is None,
        },
{
    match split_once_chars(e, '=') {
        Some((k, v)) => {
            let kc = chars_of(k.as_str());
            let (a, b) = trim_bounds(kc.as_slice());
            let kt = string_from_chars(slice_subrange(kc.as_slice(), a, b));
            let vc = chars_of(v.as_str());
            let (c, d) = trim_bounds(vc.as_slice());
            let vt = string_from_chars(slice_subrange(vc.as_slice(), c, d));
            Some((kt, vt))
        },
        None => None,
    }
}

/// The assignment a line of an env file gives.
fn env_file_line_of(line: &[char]) -> (r: Option<(String, String)>)
    ensures
        match r {
            Some(p) => env_file_line(line@) == Some((p.0@, p.1@)),
            None => env_file_line(line@) is None,
        },
{
    let (a, b) = trim_bounds(line);
    let t = slice_subrange(line, a, b);
    if t.len() == 0 || t[0] == '#' {
        None
    } else {
        assignment_of(t)
    }
}

/// Makes the assignments of an env file, line by line.
fn assign_file(m: &mut StrMap<String>, content: &str, Ghost(ps): Ghost<Seq<(Seq<char>, Seq<char>)>>)
    requires
        holds_values(old(m)@, ps),
    ensures
        holds_values(final(m)@, ps + file_assignments(content@)),
{
    let cs = chars_of(content);
    let lines = split_chars(cs.as_slice(), '\n');
    let ghost all = split_on(content@, '\n').map_values(|l: Seq<char>| env_file_line(l));
    let mut i: usize = 0;
    assert(all.take(0) =~= Seq::<Option<(Seq<char>, Seq<char>)>>::empty());
    assert(ps + present(all.take(0)) =~= ps);
    while i < lines.len()
        invariant
            i <= lines@.len(),
            lines@.len() == all.len(),
            cs@ == content@,
            forall|j: int| 0 <= j < lines@.len() ==> #[trigger] lines@[j]@ == split_on(content@, '\n')[j],
            all == split_on(content@, '\n').map_values(|l: Seq<char>| env_file_line(l)),
            holds_values(m@, ps + present(all.take(i as int))),
        decreases lines@.len() - i,
    {
        let ghost before = ps + present(all.take(i as int));
        assert(all.take(i + 1).drop_last() =~= all.take(i as int));
        assert(all[i as int] == env_file_line(lines@[i as int]@));
        match env_file_line_of(lines[i].as_slice()) {
            Some((k, v)) => {
                assign(m, k, v, Ghost(before));
                assert(before.push((k@, v@)) =~= ps + present(all.take(i + 1)));
            },
            None => {
                assert(before =~= ps + present(all.take(i + 1)));
            },
        }
        i = i + 1;
    }
    assert(all.take(lines@.len() as int) =~= all);
}

/// Makes the assignments of `--env` or `--define` entries, in order.
fn assign_flags(m: &mut StrMap<String>, entries: &Vec<String>, Ghost(ps): Ghost<Seq<(Seq<char>, Seq<char>)>>)
    requires
        holds_values(old(m)@, ps),
    ensures
        holds_values(final(m)@, ps + flag_assignments(entries@)),
{
    let ghost all = entries@.map_values(|e: String| assignment(e@));
    let mut i: usize = 0;
    assert(all.take(0) =~= Seq::<Option<(Seq<char>, Seq<char>)>>::empty());
    assert(ps + present(all.take(0)) =~= ps);
    while i < entries.len()
        invariant
            i <= entries@.len(),
            all == entries@.map_values(|e: String| assignment(e@)),
            holds_values(m@, ps + present(all.take(i as int))),
        decreases entries@.len() - i,
    {
        let ghost before = ps + present(all.take(i as int));
        assert(all.take(i + 1).drop_last() =~= all.take(i as int));
        let cs = chars_of(entries[i].as_str());
        match assignment_of(cs.as_slice()) {
            Some((k, v)) => {
                assign(m, k, v, Ghost(before));
                assert(before.push((k@, v@)) =~= ps + present(all.take(i + 1)));
            },
            None => {
                assert(before =~= ps + present(all.take(i + 1)));
            },
        }
        i = i + 1;
    }
    assert(all.take(entries@.len() as int) =~= all);
}

/// The error for the first `--cron` entry that is not `NAME:SCHEDULE`.
pub fn check_cron_entries(cron: &Vec<String>) -> (r: Option<String>)
    ensures
        opt_chars(r) == cron_format_error(cron@),
{
    let mut i: usize = 0;
    assert(cron@.skip(0) =~= cron@);
    while i < cron.len()
        invariant
            i <= cron@.len(),
            cron_format_error(cron@) == cron_format_error(cron@.skip(i as int)),
        decreases cron@.len() - i,
    {
        assert(cron@.skip(i as int)[0] == cron@[i as int]);
        assert(cron@.skip(i as int).drop_first() =~= cron@.skip(i + 1));
        let cs = chars_of(cron[i].as_str());
        if split_once_chars(cs.as_slice(), ':').is_none() {
            let mut msg = owned("--cron format: NAME:SCHEDULE (got '");
            push_str(&mut msg, cron[i].as_str());
            push_str(&mut msg, "')");
            return Some(msg);
        }
        i = i + 1;
    }
    assert(cron@.skip(i as int) =~= Seq::<String>::empty());
    None
}

/// The app's name: the last component of its directory, else `app`.
pub fn app_name_of(app_dir: &str) -> (r: String)
    ensures
        r@ == app_name(app_dir@),
{
    match file_name_of(app_dir) {
        Some(n) => n,
        None => owned("app"),
    }
}

/// The environment of the built app, keyed in order: see `env_assignments`
/// for what each variable is set to. `env_file_content` is the env file's
/// text when one was given and could be read; `xdg_data_home` and `home`
/// are the builder's environment values that place the persistent data
/// directory; `otel_env` are the telemetry variables for `--otel-endpoint`.
/// Fails with the message of the first malformed `--cron` entry.
pub fn build_app_env(
    args: &BuildArgs,
    plan: &BuildPlan,
    env_file_content: Option<&str>,
    xdg_data_home: Option<&str>,
    home: Option<&str>,
    otel_env: &Vec<(String, String)>,
) -> (r: Result<StrMap<String>, String>)
    ensures
        match r {
            Ok(m) => cron_format_error(args.cron@) is None && holds_values(
                m@,
                env_assignments(
                    *args,
                    *plan,
                    opt_view(env_file_content),
                    opt_view(xdg_data_home),
                    opt_view(home),
                    otel_env@,
                ),
            ),
            Err(e) => cron_format_error(args.cron@) == Some(e@),
        },
{
    if let Some(e) = check_cron_entries(&args.cron) {
        return Err(e);
    }
    let mut m: StrMap<String> = StrMap::new();
    let ghost ps0 = Seq::<(Seq<char>, Seq<char>)>::empty();
    assert(holds_values(m@, ps0));
    let name = app_name_of(plan.app_dir.as_str());
    let ghost nv = name@;
    assign(&mut m, owned("ERE_RUNTIME"), owned(plan.runtime_name.as_str()), Ghost(ps0));
    let ghost ps1 = ps0.push(("ERE_RUNTIME"@, plan.runtime_name@));
    let name2 = owned(name.as_str());
    assign(&mut m, owned("ERE_APP_NAME"), name2, Ghost(ps1));
    let ghost ps2 = ps1.push(("ERE_APP_NAME"@, nv));
    assert(ps2 =~= seq![("ERE_RUNTIME"@, plan.runtime_name@), ("ERE_APP_NAME"@, app_name(plan.app_dir@))]);
    let ghost ps3 = ps2 + match opt_view(env_file_content) {
        Some(c) => file_assignments(c),
        None => Seq::empty(),
    };
    match env_file_content {
        Some(c) => assign_file(&mut m, c, Ghost(ps2)),
        None => {
            assert(ps2 + Seq::<(Seq<char>, Seq<char>)>::empty() =~= ps2);
        },
    }
    assign_flags(&mut m, &args.env, Ghost(ps3));
    let ghost ps4 = ps3 + flag_assignments(args.env@);
    assign_flags(&mut m, &args.define, Ghost(ps4));
    let ghost u = ps4 + flag_assignments(args.define@);
    assert(u =~= user_assignments(
        plan.runtime_name@,
        plan.app_dir@,
        opt_view(env_file_content),
        args.env@,
        args.define@,
    ));
    let ghost mut acc = u;
    if str_eq(plan.runtime_name.as_str(), "php") && !m.contains_key("XDEBUG_MODE") {
        assert(opt_chars(lookup(m@, "XDEBUG_MODE"@)) == value_after(u, "XDEBUG_MODE"@));
        assign(&mut m, owned("XDEBUG_MODE"), owned("off"), Ghost(acc));
        proof {
            acc = acc.push(("XDEBUG_MODE"@, "off"@));
        }
    } else {
        assert(opt_chars(lookup(m@, "XDEBUG_MODE"@)) == value_after(u, "XDEBUG_MODE"@));
    }
    assert(acc =~= u + (if plan.runtime_name@ == "php"@ && value_after(u, "XDEBUG_MODE"@) is None {
        seq![("XDEBUG_MODE"@, "off"@)]
    } else {
        Seq::empty()
    }));
    let ghost a1 = acc;
    if args.persist {
        let dir = get_persist_dir(name.as_str(), xdg_data_home, home);
        assign(&mut m, owned("ERE_PERSIST_DIR"), dir, Ghost(acc));
        proof {
            acc = acc.push(("ERE_PERSIST_DIR"@, dir@));
        }
    }
    assert(acc =~= a1 + (if args.persist {
        seq![("ERE_PERSIST_DIR"@, persist_dir_path(opt_view(xdg_data_home), opt_view(home), app_name(plan.app_dir@)))]
    } else {
        Seq::empty()
    }));
    let ghost a2 = acc;
    match args.health_port {
        Some(p) => {
            let d = decimal_string(p as u64);
            assign(&mut m, owned("ERE_HEALTH_PORT"), d, Ghost(acc));
            proof {
                acc = acc.push(("ERE_HEALTH_PORT"@, decimal(p as nat)));
            }
        },
        None => {},
    }
    assert(acc =~= a2 + match args.health_port {
        Some(p) => seq![("ERE_HEALTH_PORT"@, decimal(p as nat))],
        None => Seq::empty(),
    });
    let ghost a3 = acc;
    let mut i: usize = 0;
    assert(a3 + pair_views(otel_env@.take(0)) =~= a3);
    while i < otel_env.len()
        invariant
            i <= otel_env@.len(),
            holds_values(m@, a3 + pair_views(otel_env@.take(i as int))),
        decreases otel_env@.len() - i,
    {
        let k = owned(otel_env[i].0.as_str());
        let v = owned(otel_env[i].1.as_str());
        assign(&mut m, k, v, Ghost(a3 + pair_views(otel_env@.take(i as int))));
        assert((a3 + pair_views(otel_env@.take(i as int))).push((k@, v@)) =~= a3 + pair_views(
            otel_env@.take(i + 1),
        ));
        i = i + 1;
    }
    assert(otel_env@.take(otel_env@.len() as int) =~= otel_env@);
    proof {
        acc = a3 + pair_views(otel_env@);
    }
    let ghost a4 = acc;
    if args.cron.len() > 0 {
        assign(&mut m, owned("ERE_CRON_TASKS"), String::new(), Ghost(acc));
        proof {
            acc = acc.push(("ERE_CRON_TASKS"@, Seq::<char>::empty()));
        }
    }
    assert(acc =~= a4 + (if args.cron.len() > 0 {
        seq![("ERE_CRON_TASKS"@, Seq::<char>::empty())]
    } else {
        Seq::empty()
    }));
    assert(acc =~= env_assignments(
        *args,
        *plan,
        opt_view(env_file_content),
        opt_view(xdg_data_home),
        opt_view(home),
        otel_env@,
    ));
    Ok(m)
}

/// After the assignments `a` and then `b`, a key has the value `b` last
/// gave it, or else the value `a` left.
pub proof fn lemma_value_after_concat(a: Seq<(Seq<char>, Seq<char>)>, b: Seq<(Seq<char>, Seq<char>)>, k: Seq<char>)
    ensures
        value_after(a + b, k) == match value_after(b, k) {
            Some(v) => Some(v),
            None => value_after(a, k),
        },
    decreases b.len(),
{
    if b.len() == 0 {
        assert(a + b =~= a);
    } else {
        assert((a + b).drop_last() =~= a + b.drop_last());
        assert((a + b).last() == b.last());
        lemma_value_after_concat(a, b.drop_last(), k);
    }
}

/// Whether the option variables set after the user's assignments (the
/// persistence, health and cron variables and the telemetry ones) leave `k` alone.
pub open spec fn untouched_by_options(k: Seq<char>, otel_env: Seq<(String, String)>) -> bool {
    k != "ERE_PERSIST_DIR"@ && k != "ERE_HEALTH_PORT"@ && k != "ERE_CRON_TASKS"@ && value_after(
        pair_views(otel_env),
        k,
    ) is None
}

/// The assignments the options make after the user's: every one of them
/// sets an option variable or the PHP debugger default.
proof fn lemma_option_tail(
    args: BuildArgs,
    plan: BuildPlan,
    env_file: Option<Seq<char>>,
    xdg_data_home: Option<Seq<char>>,
    home: Option<Seq<char>>,
    otel_env: Seq<(String, String)>,
    k: Seq<char>,
)
    requires
        untouched_by_options(k, otel_env),
    ensures
        value_after(env_assignments(args, plan, env_file, xdg_data_home, home, otel_env), k) == {
            let u = user_assignments(plan.runtime_name@, plan.app_dir@, env_file, args.env@, args.define@);
            if k == "XDEBUG_MODE"@ && plan.runtime_name@ == "php"@ && value_after(u, k) is None {
                Some("off"@)
            } else {
                value_after(u, k)
            }
        },
{
    let u = user_assignments(plan.runtime_name@, plan.app_dir@, env_file, args.env@, args.define@);
    let x: Seq<(Seq<char>, Seq<char>)> = if plan.runtime_name@ == "php"@ && value_after(u, "XDEBUG_MODE"@) is None {
        seq![("XDEBUG_MODE"@, "off"@)]
    } else {
        Seq::empty()
    };
    let p: Seq<(Seq<char>, Seq<char>)> = if args.persist {
        seq![("ERE_PERSIST_DIR"@, persist_dir_path(xdg_data_home, home, app_name(plan.app_dir@)))]
    } else {
        Seq::empty()
    };
    let h: Seq<(Seq<char>, Seq<char>)> = match args.health_port {
        Some(port) => seq![("ERE_HEALTH_PORT"@, decimal(port as nat))],
        None => Seq::empty(),
    };
    let o = pair_views(otel_env);
    let c: Seq<(Seq<char>, Seq<char>)> = if args.cron.len() > 0 {
        seq![("ERE_CRON_TASKS"@, Seq::<char>::empty())]
    } else {
        Seq::empty()
    };
    lemma_value_after_concat(u + x + p + h + o, c, k);
    lemma_value_after_concat(u + x + p + h, o, k);
    lemma_value_after_concat(u + x + p, h, k);
    lemma_value_after_concat(u + x, p, k);
    lemma_value_after_concat(u, x, k);
    reveal_with_fuel(value_after, 2);
    assert(value_after(c, k) is None);
    assert(value_after(h, k) is None);
    assert(value_after(p, k) is None);
    assert(value_after(o, k) is None);
    assert(env_assignments(args, plan, env_file, xdg_data_home, home, otel_env) == u + x + p + h + o + c);
}

/// A `--define` assignment wins over `--env`, the env file and the built-in
/// variables: the app starts with the value the last `--define` of that name
/// gave (unless an option variable of the same name is set after it).
pub proof fn lemma_define_overrides(
    args: BuildArgs,
    plan: BuildPlan,
    env_file: Option<Seq<char>>,
    xdg_data_home: Option<Seq<char>>,
    home: Option<Seq<char>>,
    otel_env: Seq<(String, String)>,
    k: Seq<char>,
)
    requires
        value_after(flag_assignments(args.define@), k) is Some,
        untouched_by_options(k, otel_env),
    ensures
        value_after(env_assignments(args, plan, env_file, xdg_data_home, home, otel_env), k) == value_after(
            flag_assignments(args.define@),
            k,
        ),
{
    let before = seq![("ERE_RUNTIME"@, plan.runtime_name@), ("ERE_APP_NAME"@, app_name(plan.app_dir@))]
        + match env_file {
        Some(c) => file_assignments(c),
        None => Seq::empty(),
    } + flag_assignments(args.env@);
    lemma_value_after_concat(before, flag_assignments(args.define@), k);
    lemma_option_tail(args, plan, env_file, xdg_data_home, home, otel_env, k);
}

/// An `--env` assignment wins over the env file and the built-in variables,
/// unless a `--define` (or an option variable) sets the same name after it.
pub proof fn lemma_env_overrides_file(
    args: BuildArgs,
    plan: BuildPlan,
    env_file: Option<Seq<char>>,
    xdg_data_home: Option<Seq<char>>,
    home: Option<Seq<char>>,
    otel_env: Seq<(String, String)>,
    k: Seq<char>,
)
    requires
        value_after(flag_assignments(args.env@), k) is Some,
        value_after(flag_assignments(args.define@), k) is None,
        untouched_by_options(k, otel_env),
    ensures
        value_after(env_assignments(args, plan, env_file, xdg_data_home, home, otel_env), k) == value_after(
            flag_assignments(args.env@),
            k,
        ),
{
    let base = seq![("ERE_RUNTIME"@, plan.runtime_name@), ("ERE_APP_NAME"@, app_name(plan.app_dir@))]
        + match env_file {
        Some(c) => file_assignments(c),
        None => Seq::empty(),
    };
    lemma_value_after_concat(base, flag_assignments(args.env@), k);
    lemma_value_after_concat(base + flag_assignments(args.env@), flag_assignments(args.define@), k);
    lemma_option_tail(args, plan, env_file, xdg_data_home, home, otel_env, k);
}

} // verus!
