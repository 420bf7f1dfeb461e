//! Entrypoint resolution: the command that launches an application of a
//! detected runtime, decided from what its directory holds.
//!
//! Interpreter names are bare (`python3`, `node`): the launcher resolves them
//! through `PATH`. Application paths carry the `/app/` prefix.
use crate::detect::{
    entry_has_ext, file_exists, find_first_file, find_node_entry, first_file, has_file,
    node_entry, package_main_and_start, pkg_start, python_entries, AppDirFacts,
    DirListing, EntryFact, Runtime,
};
use crate::fspath::{opt_chars, opt_view};
use crate::text::{
    chars_of, has_prefix, has_substring, lemma_split_on_nonempty, owned, push_str, split_chars,
    split_on, split_whitespace, str_contains, str_eq, str_starts_with, string_from_chars, trim,
    trimmed, words,
};
use crate::strmap::string_views;
use vstd::prelude::*;

verus! {

/// What entrypoint detection reads of one key of the `[tool]` table of
/// `pyproject.toml`.
#[derive(Debug, Clone)]
pub struct ToolEntry {
    pub key: String,
    /// The value, when it is a string.
    pub text: Option<String>,
    /// The string `app` of the value, when it is a table that has one.
    pub app: Option<String>,
    /// The string `entrypoint` of the value, when it is a table that has one.
    pub entrypoint: Option<String>,
}

/// A tool-table entry as plain values: key, string value, `app`, `entrypoint`.
pub open spec fn tool_view(e: ToolEntry) -> (
    Seq<char>,
    Option<Seq<char>>,
    Option<Seq<char>>,
    Option<Seq<char>>,
) {
    (e.key@, opt_chars(e.text), opt_chars(e.app), opt_chars(e.entrypoint))
}

/// The plain values of a tool table.
pub open spec fn tool_views(v: Seq<ToolEntry>) -> Seq<
    (Seq<char>, Option<Seq<char>>, Option<Seq<char>>, Option<Seq<char>>),
> {
    Seq::new(v.len(), |i: int| tool_view(v[i]))
}

/// What `toml` parses from a TOML text, read as the entries of its table
/// `table` in key order (`toml` keeps tables in a sorted map): each key, its string value, and the strings
/// under the keys `k1` and `k2` of its table value (empty when the text does
/// not parse or has no such table).
pub uninterp spec fn toml_table_entries(content: Seq<char>, table: Seq<char>, k1: Seq<char>, k2: Seq<char>) -> Seq<
    (Seq<char>, Option<Seq<char>>, Option<Seq<char>>, Option<Seq<char>>),
>;

/// Parses a TOML text with `toml` (`str::parse::<toml::Value>`) and returns,
/// for each key of its table `table` in key order, the key, its
/// string value, and the strings under `k1` and `k2` of its table value. The
/// contract names the result and states nothing more.
#[verifier::external_body]
fn toml_table(content: &str, table: &str, k1: &str, k2: &str) -> (r: Vec<ToolEntry>)
    ensures
        tool_views(r@) == toml_table_entries(content@, table@, k1@, k2@),
{
    let doc = match content.parse::<toml::Value>() {
        Ok(d) => d,
        Err(_) => return Vec::new(),
    };
    match doc.get(table) {
        Some(toml::Value::Table(t)) => t.iter().map(|(k, v)| ToolEntry {
            key: k.clone(),
            text: v.as_str().map(String::from),
            app: v.get(k1).and_then(|a| a.as_str()).map(String::from),
            entrypoint: v.get(k2).and_then(|a| a.as_str()).map(String::from),
        }).collect(),
        _ => Vec::new(),
    }
}

/// Whether the tool table has the key `k`.
pub open spec fn tool_has(
    t: Seq<(Seq<char>, Option<Seq<char>>, Option<Seq<char>>, Option<Seq<char>>)>,
    k: Seq<char>,
) -> bool
    decreases t.len(),
{
    if t.len() == 0 {
        false
    } else if t[0].0 == k {
        true
    } else {
        tool_has(t.drop_first(), k)
    }
}

/// The string value of the key `k` of the tool table.
pub open spec fn tool_text(
    t: Seq<(Seq<char>, Option<Seq<char>>, Option<Seq<char>>, Option<Seq<char>>)>,
    k: Seq<char>,
) -> Option<Seq<char>>
    decreases t.len(),
{
    if t.len() == 0 {
        None
    } else if t[0].0 == k {
        t[0].1
    } else {
        tool_text(t.drop_first(), k)
    }
}

/// The first `app` string among the tool table's values.
pub open spec fn first_app(
    t: Seq<(Seq<char>, Option<Seq<char>>, Option<Seq<char>>, Option<Seq<char>>)>,
) -> Option<Seq<char>>
    decreases t.len(),
{
    if t.len() == 0 {
        None
    } else if t[0].2 is Some {
        t[0].2
    } else {
        first_app(t.drop_first())
    }
}

/// The first `entrypoint` string among the tool table's values.
pub open spec fn first_entrypoint(
    t: Seq<(Seq<char>, Option<Seq<char>>, Option<Seq<char>>, Option<Seq<char>>)>,
) -> Option<Seq<char>>
    decreases t.len(),
{
    if t.len() == 0 {
        None
    } else if t[0].3 is Some {
        t[0].3
    } else {
        first_entrypoint(t.drop_first())
    }
}

/// The string `k` of the tool table, else the first `field` (2: `app`,
/// 3: `entrypoint`) among its values.
pub open spec fn tool_setting(
    t: Seq<(Seq<char>, Option<Seq<char>>, Option<Seq<char>>, Option<Seq<char>>)>,
    k: Seq<char>,
) -> Option<Seq<char>> {
    match tool_text(t, k) {
        Some(a) => Some(a),
        None => if k == "app"@ {
            first_app(t)
        } else {
            first_entrypoint(t)
        },
    }
}

/// Which of the tool lookups a loop performs.
enum ToolField {
    App,
    Entrypoint,
}

/// Whether the tool table has the key `k`.
fn tool_has_key(t: &Vec<ToolEntry>, k: &str) -> (r: bool)
    ensures
        r == tool_has(tool_views(t@), k@),
{
    let ghost tv = tool_views(t@);
    let mut i: usize = 0;
    assert(tv.skip(0) =~= tv);
    while i < t.len()
        invariant
            i <= t@.len(),
            tv == tool_views(t@),
            tool_has(tv, k@) == tool_has(tv.skip(i as int), k@),
        decreases t@.len() - i,
    {
        assert(tv.skip(i as int)[0] == tool_view(t@[i as int]));
        assert(tv.skip(i as int).drop_first() =~= tv.skip(i + 1));
        if str_eq(t[i].key.as_str(), k) {
            return true;
        }
        i = i + 1;
    }
    false
}

/// A copy of an optional string.
fn copy_opt(o: &Option<String>) -> (r: Option<String>)
    ensures
        opt_chars(r) == opt_chars(*o),
{
    match o {
        Some(s) => Some(owned(s.as_str())),
        None => None,
    }
}

/// The string value of the key `k` of the tool table.
fn tool_text_of(t: &Vec<ToolEntry>, k: &str) -> (r: Option<String>)
    ensures
        opt_chars(r) == tool_text(tool_views(t@), k@),
{
    let ghost tv = tool_views(t@);
    let mut i: usize = 0;
    assert(tv.skip(0) =~= tv);
    while i < t.len()
        invariant
            i <= t@.len(),
            tv == tool_views(t@),
            tool_text(tv, k@) == tool_text(tv.skip(i as int), k@),
        decreases t@.len() - i,
    {
        assert(tv.skip(i as int)[0] == tool_view(t@[i as int]));
        assert(tv.skip(i as int).drop_first() =~= tv.skip(i + 1));
        if str_eq(t[i].key.as_str(), k) {
            return copy_opt(&t[i].text);
        }
        i = i + 1;
    }
    None
}

/// The first `app` (or `entrypoint`) string among the tool table's values.
fn tool_first(t: &Vec<ToolEntry>, field: ToolField) -> (r: Option<String>)
    ensures
        opt_chars(r) == match field {
            ToolField::App => first_app(tool_views(t@)),
            ToolField::Entrypoint => first_entrypoint(tool_views(t@)),
        },
{
    let ghost tv = tool_views(t@);
    let mut i: usize = 0;
    assert(tv.skip(0) =~= tv);
    while i < t.len()
        invariant
            i <= t@.len(),
            tv == tool_views(t@),
            match field {
                ToolField::App => first_app(tv) == first_app(tv.skip(i as int)),
                ToolField::Entrypoint => first_entrypoint(tv) == first_entrypoint(
                    tv.skip(i as int),
                ),
            },
        decreases t@.len() - i,
    {
        assert(tv.skip(i as int)[0] == tool_view(t@[i as int]));
        assert(tv.skip(i as int).drop_first() =~= tv.skip(i + 1));
        let v = match field {
            ToolField::App => &t[i].app,
            ToolField::Entrypoint => &t[i].entrypoint,
        };
        if v.is_some() {
            return copy_opt(v);
        }
        i = i + 1;
    }
    None
}

/// The string `k` of the tool table, else the first `app` (when `k` is
/// `app`) or `entrypoint` among its values.
fn tool_setting_of(t: &Vec<ToolEntry>, k: &str) -> (r: Option<String>)
    requires
        k@ == "app"@ || k@ == "entrypoint"@,
    ensures
        opt_chars(r) == tool_setting(tool_views(t@), k@),
{
    match tool_text_of(t, k) {
        Some(a) => Some(a),
        None => {
            if str_eq(k, "app") {
                tool_first(t, ToolField::App)
            } else {
                tool_first(t, ToolField::Entrypoint)
            }
        },
    }
}

/// `a` followed by `b`.
fn cat(a: &str, b: &str) -> (r: String)
    ensures
        r@ == a@ + b@,
{
    let mut s = owned(a);
    push_str(&mut s, b);
    s
}

/// The module a tool table names for `python -m`: the part before the first
/// `:` of its `entrypoint`, when that part is not empty.
pub open spec fn tool_module(
    t: Seq<(Seq<char>, Option<Seq<char>>, Option<Seq<char>>, Option<Seq<char>>)>,
) -> Option<Seq<char>> {
    match tool_setting(t, "entrypoint"@) {
        Some(e) => if split_on(e, ':')[0].len() > 0 {
            Some(split_on(e, ':')[0])
        } else {
            None
        },
        None => None,
    }
}

/// The tool table of the directory's `pyproject.toml` (empty when it was
/// not read).
pub open spec fn tool_table(f: AppDirFacts) -> Seq<
    (Seq<char>, Option<Seq<char>>, Option<Seq<char>>, Option<Seq<char>>),
> {
    match f.pyproject {
        Some(c) => toml_table_entries(c@, "tool"@, "app"@, "entrypoint"@),
        None => Seq::empty(),
    }
}

/// The tool table of the directory's `pyproject.toml`.
fn tool_table_of(f: &AppDirFacts) -> (r: Vec<ToolEntry>)
    ensures
        tool_views(r@) == tool_table(*f),
{
    match &f.pyproject {
        Some(c) => toml_table(c.as_str(), "tool", "app", "entrypoint"),
        None => {
            let v: Vec<ToolEntry> = Vec::new();
            assert(tool_views(v@) =~= Seq::empty());
            v
        },
    }
}

/// A top-level directory holding `__init__.py` whose name does not start
/// with a dot.
pub open spec fn is_package_dir(f: AppDirFacts, e: EntryFact) -> bool {
    e.is_dir && has_file(f, e.name@ + "/__init__.py"@) && !has_prefix(e.name@, "."@)
}

/// The name of the first package directory among `es`.
pub open spec fn first_package(f: AppDirFacts, es: Seq<EntryFact>) -> Option<Seq<char>>
    decreases es.len(),
{
    if es.len() == 0 {
        None
    } else if is_package_dir(f, es[0]) {
        Some(es[0].name@)
    } else {
        first_package(f, es.drop_first())
    }
}

/// The module to launch with `python3 -m`: the one the `[tool]` table of
/// `pyproject.toml` names, else, when `__main__.py` exists, the first
/// top-level package directory.
pub open spec fn python_module(f: AppDirFacts) -> Option<Seq<char>> {
    match tool_module(tool_table(f)) {
        Some(m) => Some(m),
        None => if has_file(f, "__main__.py"@) {
            first_package(f, f.entries@)
        } else {
            None
        },
    }
}

/// The name of the first top-level package directory.
fn find_package_dir(f: &AppDirFacts) -> (r: Option<String>)
    ensures
        opt_chars(r) == first_package(*f, f.entries@),
{
    let n = f.entries.len();
    let mut i: usize = 0;
    assert(f.entries@.skip(0) =~= f.entries@);
    while i < n
        invariant
            n == f.entries@.len(),
            i <= n,
            first_package(*f, f.entries@) == first_package(*f, f.entries@.skip(i as int)),
        decreases n - i,
    {
        assert(f.entries@.skip(i as int).drop_first() =~= f.entries@.skip(i + 1));
        let e = &f.entries[i];
        if e.is_dir {
            let init = cat(e.name.as_str(), "/__init__.py");
            if file_exists(f, init.as_str()) && !str_starts_with(e.name.as_str(), ".") {
                return Some(owned(e.name.as_str()));
            }
        }
        i = i + 1;
    }
    None
}

/// The part of `s` before its first `c`.
fn before_char(s: &str, c: char) -> (r: String)
    ensures
        r@ == split_on(s@, c)[0],
{
    let v = chars_of(s);
    let parts = split_chars(v.as_slice(), c);
    proof {
        lemma_split_on_nonempty(s@, c);
    }
    string_from_chars(parts[0].as_slice())
}

/// The module to launch with `python3 -m`.
pub fn detect_python_module(f: &AppDirFacts) -> (r: Option<String>)
    ensures
        opt_chars(r) == python_module(*f),
{
    let t = tool_table_of(f);
    match tool_setting_of(&t, "entrypoint") {
        Some(e) => {
            let m = before_char(e.as_str(), ':');
            if chars_of(m.as_str()).len() > 0 {
                return Some(m);
            }
        },
        None => {},
    }
    if file_exists(f, "__main__.py") {
        find_package_dir(f)
    } else {
        None
    }
}

/// The characters `i..j` of `v` as a string.
fn chars_range(v: &[char], i: usize, j: usize) -> (r: String)
    requires
        i <= j <= v@.len(),
    ensures
        r@ == v@.subrange(i as int, j as int),
{
    let mut out: Vec<char> = Vec::new();
    let mut k: usize = i;
    while k < j
        invariant
            i <= k <= j <= v@.len(),
            out@ == v@.subrange(i as int, k as int),
        decreases j - k,
    {
        out.push(v[k]);
        assert(out@ =~= v@.subrange(i as int, k + 1));
        k = k + 1;
    }
    string_from_chars(out.as_slice())
}

/// `s` without its leading `c`s.
pub open spec fn strip_lead(s: Seq<char>, c: char) -> Seq<char>
    decreases s.len(),
{
    if s.len() > 0 && s[0] == c {
        strip_lead(s.drop_first(), c)
    } else {
        s
    }
}

/// `s` without its trailing `c`s.
pub open spec fn strip_trail(s: Seq<char>, c: char) -> Seq<char>
    decreases s.len(),
{
    if s.len() > 0 && s.last() == c {
        strip_trail(s.drop_last(), c)
    } else {
        s
    }
}

/// `s` without its leading and trailing `c`s, as `str::trim_matches(c)`
/// gives it.
pub open spec fn trim_char(s: Seq<char>, c: char) -> Seq<char> {
    strip_trail(strip_lead(s, c), c)
}

/// `s` without its leading and trailing `c`s.
fn trim_char_of(s: &str, c: char) -> (r: String)
    ensures
        r@ == trim_char(s@, c),
{
    let v = chars_of(s);
    let n = v.len();
    let mut i: usize = 0;
    assert(v@.skip(0) =~= v@);
    while i < n && v[i] == c
        invariant
            n == v@.len(),
            i <= n,
            strip_lead(v@, c) == strip_lead(v@.skip(i as int), c),
        decreases n - i,
    {
        assert(v@.skip(i as int).drop_first() =~= v@.skip(i + 1));
        i = i + 1;
    }
    let ghost mid = v@.skip(i as int);
    let mut j: usize = n;
    assert(mid.take(mid.len() as int) =~= mid);
    while j > i && v[j - 1] == c
        invariant
            n == v@.len(),
            i <= j <= n,
            mid == v@.skip(i as int),
            strip_trail(mid, c) == strip_trail(v@.subrange(i as int, j as int), c),
        decreases j - i,
    {
        assert(v@.subrange(i as int, j as int).drop_last() =~= v@.subrange(i as int, j - 1));
        j = j - 1;
    }
    assert(v@.subrange(i as int, n as int) =~= mid);
    chars_range(v.as_slice(), i, j)
}

/// Whether `s` ends with `suf`.
pub open spec fn has_suffix(s: Seq<char>, suf: Seq<char>) -> bool {
    suf.len() <= s.len() && s.skip(s.len() - suf.len()) == suf
}

/// `s` without the suffix `suf`, when it has it, as `str::strip_suffix`
/// (falling back to `s`) gives it.
pub open spec fn without_suffix(s: Seq<char>, suf: Seq<char>) -> Seq<char> {
    if has_suffix(s, suf) {
        s.take(s.len() - suf.len())
    } else {
        s
    }
}

/// `s` with every trailing repetition of a non-empty `suf` removed, as
/// `str::trim_end_matches(suf)` gives it.
pub open spec fn strip_suffixes(s: Seq<char>, suf: Seq<char>) -> Seq<char>
    decreases s.len(),
{
    if suf.len() > 0 && has_suffix(s, suf) {
        strip_suffixes(s.take(s.len() - suf.len()), suf)
    } else {
        s
    }
}

/// The length of `s` once the trailing repetitions of `suf` are removed.
fn suffix_cut(s: &[char], suf: &[char], n: usize) -> (r: usize)
    requires
        n <= s@.len(),
    ensures
        r <= n,
        strip_suffixes(s@.take(n as int), suf@) == s@.take(r as int),
        r == n <==> !(suf@.len() > 0 && has_suffix(s@.take(n as int), suf@)),
    decreases n,
{
    let m = suf.len();
    if m == 0 || m > n {
        return n;
    }
    let mut k: usize = 0;
    while k < m
        invariant
            m == suf@.len(),
            0 < m <= n <= s@.len(),
            k <= m,
            forall|q: int| 0 <= q < k ==> s@[n - m + q] == suf@[q],
        decreases m - k,
    {
        if s[n - m + k] != suf[k] {
            assert(s@.take(n as int).skip(n - m)[k as int] != suf@[k as int]);
            return n;
        }
        k = k + 1;
    }
    assert(s@.take(n as int).skip(n - m) =~= suf@);
    assert(s@.take(n as int).take(n - m) =~= s@.take(n - m));
    suffix_cut(s, suf, n - m)
}

/// `s` with every trailing repetition of `suf` removed.
fn strip_suffixes_of(s: &str, suf: &str) -> (r: String)
    ensures
        r@ == strip_suffixes(s@, suf@),
{
    let v = chars_of(s);
    let w = chars_of(suf);
    let k = suffix_cut(v.as_slice(), w.as_slice(), v.len());
    assert(v@.take(v@.len() as int) =~= v@);
    chars_range(v.as_slice(), 0, k)
}

/// `s` without the suffix `suf`, when it has it.
fn without_suffix_of(s: &str, suf: &str) -> (r: String)
    ensures
        r@ == without_suffix(s@, suf@),
{
    let v = chars_of(s);
    let w = chars_of(suf);
    let n = v.len();
    let m = w.len();
    if m > n {
        return owned(s);
    }
    let mut k: usize = 0;
    while k < m
        invariant
            v@ == s@,
            w@ == suf@,
            n == v@.len(),
            m == w@.len(),
            m <= n,
            k <= m,
            forall|q: int| 0 <= q < k ==> v@[n - m + q] == w@[q],
        decreases m - k,
    {
        if v[n - m + k] != w[k] {
            assert(v@.skip(n - m)[k as int] != w@[k as int]);
            return owned(s);
        }
        k = k + 1;
    }
    assert(v@.skip(n - m) =~= w@);
    chars_range(v.as_slice(), 0, n - m)
}

/// The part of `s` after its first `c` (empty when it has none).
pub open spec fn after_char(s: Seq<char>, c: char) -> Seq<char>
    decreases s.len(),
{
    if s.len() == 0 {
        s
    } else if s[0] == c {
        s.drop_first()
    } else {
        after_char(s.drop_first(), c)
    }
}

/// The part of `s` after its first `c`.
fn after_char_of(s: &[char], c: char) -> (r: Vec<char>)
    ensures
        r@ == after_char(s@, c),
{
    let n = s.len();
    let mut i: usize = 0;
    assert(s@.skip(0) =~= s@);
    while i < n && s[i] != c
        invariant
            n == s@.len(),
            i <= n,
            after_char(s@, c) == after_char(s@.skip(i as int), c),
        decreases n - i,
    {
        assert(s@.skip(i as int).drop_first() =~= s@.skip(i + 1));
        i = i + 1;
    }
    let mut r: Vec<char> = Vec::new();
    if i < n {
        assert(s@.skip(i as int).drop_first() =~= s@.skip(i + 1));
        let mut j: usize = i + 1;
        while j < n
            invariant
                n == s@.len(),
                i < j <= n,
                r@ == s@.subrange(i + 1, j as int),
            decreases n - j,
        {
            r.push(s[j]);
            assert(r@ =~= s@.subrange(i + 1, j + 1));
            j = j + 1;
        }
        assert(r@ =~= s@.skip(i + 1));
    } else {
        assert(s@.skip(i as int) =~= Seq::<char>::empty());
        assert(r@ =~= Seq::<char>::empty());
    }
    r
}

/// The `uvicorn` command serving the ASGI application `app`.
pub open spec fn uvicorn_argv(app: Seq<char>) -> Seq<Seq<char>> {
    seq!["uvicorn"@, app, "--host"@, "0.0.0.0"@, "--port"@, "8000"@]
}

/// The ASGI application a tool table names: with a `uvicorn` or `gunicorn`
/// key, its `app` setting, trimmed of whitespace and quotes, when not empty.
pub open spec fn tool_asgi_app(
    t: Seq<(Seq<char>, Option<Seq<char>>, Option<Seq<char>>, Option<Seq<char>>)>,
) -> Option<Seq<char>> {
    if tool_has(t, "uvicorn"@) || tool_has(t, "gunicorn"@) {
        match tool_setting(t, "app"@) {
            Some(a) => if trim_char(trimmed(a), '"').len() > 0 {
                Some(trim_char(trimmed(a), '"'))
            } else {
                None
            },
            None => None,
        }
    } else {
        None
    }
}

/// The ASGI module named from `requirements.txt`: `main.py` or `app.py`,
/// else the `python -m` module with `:app` appended.
pub open spec fn requirements_module(f: AppDirFacts) -> Option<Seq<char>> {
    match first_file(f, seq!["main.py"@, "app.py"@]) {
        Some(x) => Some(x),
        None => match python_module(f) {
            Some(m) => Some(m + ":app"@),
            None => None,
        },
    }
}

/// The ASGI server command: from the `[tool]` table of `pyproject.toml`,
/// else, when `requirements.txt` mentions `uvicorn` or `gunicorn`, from the
/// application module.
pub open spec fn asgi_entrypoint(f: AppDirFacts) -> Option<Seq<Seq<char>>> {
    match tool_asgi_app(tool_table(f)) {
        Some(app) => Some(uvicorn_argv(app)),
        None => match f.requirements {
            Some(req) => if has_substring(req@, "uvicorn"@) || has_substring(req@, "gunicorn"@) {
                match requirements_module(f) {
                    Some(m) => Some(uvicorn_argv(without_suffix(m, ".py"@) + ":app"@)),
                    None => None,
                }
            } else {
                None
            },
            None => None,
        },
    }
}

/// The `uvicorn` command serving `app`.
fn uvicorn_cmd(app: String) -> (r: Vec<String>)
    ensures
        string_views(r@) == uvicorn_argv(app@),
{
    let r = vec![
        owned("uvicorn"),
        app,
        owned("--host"),
        owned("0.0.0.0"),
        owned("--port"),
        owned("8000"),
    ];
    assert(string_views(r@) =~= uvicorn_argv(app@));
    r
}

/// The ASGI server command.
pub fn detect_asgi_entrypoint(f: &AppDirFacts) -> (r: Option<Vec<String>>)
    ensures
        match r {
            Some(v) => asgi_entrypoint(*f) == Some(string_views(v@)),
            None => asgi_entrypoint(*f) is None,
        },
{
    let t = tool_table_of(f);
    if tool_has_key(&t, "uvicorn") || tool_has_key(&t, "gunicorn") {
        match tool_setting_of(&t, "app") {
            Some(a) => {
                let app = trim_char_of(trim(a.as_str()), '"');
                if chars_of(app.as_str()).len() > 0 {
                    return Some(uvicorn_cmd(app));
                }
            },
            None => {},
        }
    }
    match &f.requirements {
        Some(req) => {
            if str_contains(req.as_str(), "uvicorn") || str_contains(req.as_str(), "gunicorn") {
                let names: [&str; 2] = ["main.py", "app.py"];
                assert(Seq::new(names@.len(), |i: int| names@[i]@) =~= seq!["main.py"@, "app.py"@]);
                let m = match find_first_file(f, names.as_slice()) {
                    Some(x) => x,
                    None => match detect_python_module(f) {
                        Some(pm) => cat(pm.as_str(), ":app"),
                        None => {
                            return None;
                        },
                    },
                };
                let module = without_suffix_of(m.as_str(), ".py");
                return Some(uvicorn_cmd(cat(module.as_str(), ":app")));
            }
            None
        },
        None => None,
    }
}

/// The `start` script of the `[project.scripts]` section of a
/// `pyproject.toml` read line by line.
pub open spec fn scripts_start(lines: Seq<Seq<char>>, in_scripts: bool) -> Option<Seq<char>>
    decreases lines.len(),
{
    if lines.len() == 0 {
        None
    } else {
        let t = trimmed(lines[0]);
        if has_prefix(t, "[project.scripts]"@) {
            scripts_start(lines.drop_first(), true)
        } else if in_scripts && has_prefix(t, "["@) {
            None
        } else if in_scripts && has_prefix(t, "start"@) && t.contains('=') {
            Some(trim_char(trimmed(after_char(t, '=')), '"'))
        } else {
            scripts_start(lines.drop_first(), in_scripts)
        }
    }
}

/// The `[project.scripts]` `start` command of `pyproject.toml`, split into
/// words.
pub open spec fn pyproject_scripts(f: AppDirFacts) -> Option<Seq<Seq<char>>> {
    match f.pyproject {
        Some(c) => match scripts_start(split_on(c@, '\n'), false) {
            Some(cmd) => Some(words(cmd)),
            None => None,
        },
        None => None,
    }
}

/// Whether `s` contains `c`.
fn has_char(s: &[char], c: char) -> (r: bool)
    ensures
        r == s@.contains(c),
{
    let mut i: usize = 0;
    while i < s.len()
        invariant
            i <= s@.len(),
            forall|j: int| 0 <= j < i ==> s@[j] != c,
        decreases s@.len() - i,
    {
        if s[i] == c {
            assert(s@[i as int] == c);
            return true;
        }
        i = i + 1;
    }
    false
}

/// The words of `s` as strings.
fn words_of(s: &str) -> (r: Vec<String>)
    ensures
        string_views(r@) == words(s@),
{
    let c = chars_of(s);
    let ws = split_whitespace(c.as_slice());
    let mut r: Vec<String> = Vec::new();
    let mut i: usize = 0;
    while i < ws.len()
        invariant
            i <= ws@.len(),
            ws@.len() == words(s@).len(),
            forall|k: int| 0 <= k < ws@.len() ==> #[trigger] ws@[k]@ == words(s@)[k],
            r@.len() == i,
            forall|k: int| 0 <= k < i ==> #[trigger] r@[k]@ == words(s@)[k],
        decreases ws@.len() - i,
    {
        r.push(string_from_chars(ws[i].as_slice()));
        i = i + 1;
    }
    assert(string_views(r@) =~= words(s@));
    r
}

/// The `[project.scripts]` `start` command of `pyproject.toml`.
pub fn detect_pyproject_scripts(f: &AppDirFacts) -> (r: Option<Vec<String>>)
    ensures
        match r {
            Some(v) => pyproject_scripts(*f) == Some(string_views(v@)),
            None => pyproject_scripts(*f) is None,
        },
{
    let content = match &f.pyproject {
        Some(c) => c,
        None => {
            return None;
        },
    };
    let lines = split_chars(chars_of(content.as_str()).as_slice(), '\n');
    let ghost ls = split_on(content@, '\n');
    let mut in_scripts = false;
    let mut i: usize = 0;
    assert(ls.skip(0) =~= ls);
    while i < lines.len()
        invariant
            i <= lines@.len(),
            ls == split_on(content@, '\n'),
            pyproject_scripts(*f) == match scripts_start(ls, false) {
                Some(cmd) => Some(words(cmd)),
                None => None,
            },
            lines@.len() == ls.len(),
            forall|k: int| 0 <= k < lines@.len() ==> #[trigger] lines@[k]@ == ls[k],
            scripts_start(ls, false) == scripts_start(ls.skip(i as int), in_scripts),
        decreases lines@.len() - i,
    {
        assert(ls.skip(i as int)[0] == ls[i as int]);
        assert(ls.skip(i as int).drop_first() =~= ls.skip(i + 1));
        let line = string_from_chars(lines[i].as_slice());
        let t = trim(line.as_str());
        if str_starts_with(t, "[project.scripts]") {
            in_scripts = true;
        } else if in_scripts && str_starts_with(t, "[") {
            return None;
        } else if in_scripts && str_starts_with(t, "start") && has_char(
            chars_of(t).as_slice(),
            '=',
        ) {
            let rest = after_char_of(chars_of(t).as_slice(), '=');
            let rs = string_from_chars(rest.as_slice());
            let cmd = trim_char_of(trim(rs.as_str()), '"');
            return Some(words_of(cmd.as_str()));
        }
        i = i + 1;
    }
    None
}

/// Bun entry files.
pub open spec fn bun_entries() -> Seq<Seq<char>> {
    seq!["index.ts"@, "index.js"@, "main.ts"@, "main.js"@]
}

/// The Bun command: `bun run` with the rest of a `bun ...` start script of
/// `package.json`, else with the first Bun entry file.
pub open spec fn bun_entry(f: AppDirFacts) -> Option<Seq<Seq<char>>> {
    let from_pkg = if has_file(f, "package.json"@) {
        match pkg_start(f) {
            Some(cmd) => if has_prefix(cmd, "bun "@) {
                Some(seq!["bun"@, "run"@, cmd.skip(4)])
            } else {
                None
            },
            None => None,
        }
    } else {
        None
    };
    match from_pkg {
        Some(a) => Some(a),
        None => match first_file(f, bun_entries()) {
            Some(e) => Some(seq!["bun"@, "run"@, e]),
            None => None,
        },
    }
}

/// `s` without its first four characters.
fn skip4(s: &str) -> (r: String)
    requires
        s@.len() >= 4,
    ensures
        r@ == s@.skip(4),
{
    let v = chars_of(s);
    chars_range(v.as_slice(), 4, v.len())
}

/// The `bun run` command for `rest`.
fn bun_run(rest: String) -> (r: Vec<String>)
    ensures
        string_views(r@) == seq!["bun"@, "run"@, rest@],
{
    let r = vec![owned("bun"), owned("run"), rest];
    assert(string_views(r@) =~= seq!["bun"@, "run"@, rest@]);
    r
}

/// The Bun command.
pub fn detect_bun_entry(f: &AppDirFacts) -> (r: Option<Vec<String>>)
    ensures
        match r {
            Some(v) => bun_entry(*f) == Some(string_views(v@)),
            None => bun_entry(*f) is None,
        },
{
    if file_exists(f, "package.json") {
        let (_, start) = package_main_and_start(f);
        match start {
            Some(cmd) => {
                if str_starts_with(cmd.as_str(), "bun ") {
                    proof {
                        reveal_strlit("bun ");
                    }
                    return Some(bun_run(skip4(cmd.as_str())));
                }
            },
            None => {},
        }
    }
    let names: [&str; 4] = ["index.ts", "index.js", "main.ts", "main.js"];
    assert(Seq::new(names@.len(), |i: int| names@[i]@) =~= bun_entries());
    match find_first_file(f, names.as_slice()) {
        Some(e) => Some(bun_run(e)),
        None => None,
    }
}

/// Whether the directory holds the directory `p`.
pub open spec fn has_dir(f: AppDirFacts, p: Seq<char>) -> bool {
    string_views(f.dirs@).contains(p)
}

/// Whether the file `p` starts with an ELF or PE magic.
pub open spec fn is_native(f: AppDirFacts, p: Seq<char>) -> bool {
    string_views(f.native@).contains(p)
}

/// The entries of the first listing of the directory `p`.
pub open spec fn listing_in(ls: Seq<DirListing>, p: Seq<char>) -> Option<Seq<EntryFact>>
    decreases ls.len(),
{
    if ls.len() == 0 {
        None
    } else if ls[0].path@ == p {
        Some(ls[0].entries@)
    } else {
        listing_in(ls.drop_first(), p)
    }
}

/// The path of the first native file among the entries `es` of `dir`.
pub open spec fn first_native_file(f: AppDirFacts, dir: Seq<char>, es: Seq<EntryFact>) -> Option<
    Seq<char>,
>
    decreases es.len(),
{
    if es.len() == 0 {
        None
    } else if es[0].is_file && is_native(f, dir + "/"@ + es[0].name@) {
        Some(dir + "/"@ + es[0].name@)
    } else {
        first_native_file(f, dir, es.drop_first())
    }
}

/// The path of the first native file directly in the listed directory `p`.
pub open spec fn native_directly_in(f: AppDirFacts, p: Seq<char>) -> Option<Seq<char>> {
    match listing_in(f.listings@, p) {
        Some(es) => first_native_file(f, p, es),
        None => None,
    }
}

/// Among the entries `es` of `dir`, in order: the first that is a native
/// file, or a directory directly holding one.
pub open spec fn native_in(f: AppDirFacts, dir: Seq<char>, es: Seq<EntryFact>) -> Option<
    Seq<char>,
>
    decreases es.len(),
{
    if es.len() == 0 {
        None
    } else if es[0].is_file && is_native(f, dir + "/"@ + es[0].name@) {
        Some(dir + "/"@ + es[0].name@)
    } else if es[0].is_dir && native_directly_in(f, dir + "/"@ + es[0].name@) is Some {
        native_directly_in(f, dir + "/"@ + es[0].name@)
    } else {
        native_in(f, dir, es.drop_first())
    }
}

/// The native executable of a publish directory `dir`, when it exists and
/// was listed.
pub open spec fn native_in_dir(f: AppDirFacts, dir: Seq<char>) -> Option<Seq<char>> {
    if has_dir(f, dir) {
        match listing_in(f.listings@, dir) {
            Some(es) => native_in(f, dir, es),
            None => None,
        }
    } else {
        None
    }
}

/// The native executable of a self-contained .NET publish: in `publish`,
/// else in `bin/Release`.
pub open spec fn dotnet_native(f: AppDirFacts) -> Option<Seq<char>> {
    match native_in_dir(f, "publish"@) {
        Some(x) => Some(x),
        None => native_in_dir(f, "bin/Release"@),
    }
}

/// Whether the directory holds the directory `p`.
fn dir_exists(f: &AppDirFacts, p: &str) -> (r: bool)
    ensures
        r == has_dir(*f, p@),
{
    let n = f.dirs.len();
    let mut i: usize = 0;
    while i < n
        invariant
            n == f.dirs@.len(),
            i <= n,
            forall|j: int| 0 <= j < i ==> string_views(f.dirs@)[j] != p@,
        decreases n - i,
    {
        if str_eq(f.dirs[i].as_str(), p) {
            assert(string_views(f.dirs@)[i as int] == p@);
            return true;
        }
        i = i + 1;
    }
    false
}

/// Whether the file `p` starts with an ELF or PE magic.
fn native_file(f: &AppDirFacts, p: &str) -> (r: bool)
    ensures
        r == is_native(*f, p@),
{
    let n = f.native.len();
    let mut i: usize = 0;
    while i < n
        invariant
            n == f.native@.len(),
            i <= n,
            forall|j: int| 0 <= j < i ==> string_views(f.native@)[j] != p@,
        decreases n - i,
    {
        if str_eq(f.native[i].as_str(), p) {
            assert(string_views(f.native@)[i as int] == p@);
            return true;
        }
        i = i + 1;
    }
    false
}

/// The index of the first listing of the directory `p`.
fn listing_index(f: &AppDirFacts, p: &str) -> (r: Option<usize>)
    ensures
        match r {
            Some(k) => k < f.listings@.len() && listing_in(f.listings@, p@) == Some(
                f.listings@[k as int].entries@,
            ),
            None => listing_in(f.listings@, p@) is None,
        },
{
    let ls = &f.listings;
    let n = ls.len();
    let mut i: usize = 0;
    assert(ls@.skip(0) =~= ls@);
    while i < n
        invariant
            n == ls@.len(),
            ls@ == f.listings@,
            i <= n,
            listing_in(ls@, p@) == listing_in(ls@.skip(i as int), p@),
        decreases n - i,
    {
        assert(ls@.skip(i as int).drop_first() =~= ls@.skip(i + 1));
        if str_eq(ls[i].path.as_str(), p) {
            return Some(i);
        }
        i = i + 1;
    }
    None
}

/// `dir/name`.
fn child(dir: &str, name: &str) -> (r: String)
    ensures
        r@ == dir@ + "/"@ + name@,
{
    let mut s = cat(dir, "/");
    push_str(&mut s, name);
    s
}

/// The path of the first native file directly in the listed directory `p`.
fn find_native_directly_in(f: &AppDirFacts, p: &str) -> (r: Option<String>)
    ensures
        opt_chars(r) == native_directly_in(*f, p@),
{
    let k = match listing_index(f, p) {
        Some(k) => k,
        None => {
            return None;
        },
    };
    let es = &f.listings[k].entries;
    let n = es.len();
    let mut i: usize = 0;
    assert(es@.skip(0) =~= es@);
    while i < n
        invariant
            n == es@.len(),
            i <= n,
            native_directly_in(*f, p@) == first_native_file(*f, p@, es@.skip(i as int)),
        decreases n - i,
    {
        assert(es@.skip(i as int).drop_first() =~= es@.skip(i + 1));
        let e = &es[i];
        if e.is_file {
            let q = child(p, e.name.as_str());
            if native_file(f, q.as_str()) {
                return Some(q);
            }
        }
        i = i + 1;
    }
    None
}

/// The native executable of a publish directory `dir`.
fn find_native_in_dir(f: &AppDirFacts, dir: &str) -> (r: Option<String>)
    ensures
        opt_chars(r) == native_in_dir(*f, dir@),
{
    if !dir_exists(f, dir) {
        return None;
    }
    let k = match listing_index(f, dir) {
        Some(k) => k,
        None => {
            return None;
        },
    };
    let es = &f.listings[k].entries;
    let n = es.len();
    let mut i: usize = 0;
    assert(es@.skip(0) =~= es@);
    while i < n
        invariant
            n == es@.len(),
            i <= n,
            native_in_dir(*f, dir@) == native_in(*f, dir@, es@.skip(i as int)),
        decreases n - i,
    {
        assert(es@.skip(i as int).drop_first() =~= es@.skip(i + 1));
        let e = &es[i];
        let q = child(dir, e.name.as_str());
        if e.is_file && native_file(f, q.as_str()) {
            return Some(q);
        }
        if e.is_dir {
            match find_native_directly_in(f, q.as_str()) {
                Some(x) => {
                    return Some(x);
                },
                None => {},
            }
        }
        i = i + 1;
    }
    None
}

/// The native executable of a self-contained .NET publish.
pub fn find_dotnet_self_contained(f: &AppDirFacts) -> (r: Option<String>)
    ensures
        opt_chars(r) == dotnet_native(*f),
{
    match find_native_in_dir(f, "publish") {
        Some(x) => Some(x),
        None => find_native_in_dir(f, "bin/Release"),
    }
}

/// The name of the first top-level entry with the extension `ext`.
pub open spec fn first_with_ext(es: Seq<EntryFact>, ext: Seq<char>) -> Option<Seq<char>>
    decreases es.len(),
{
    if es.len() == 0 {
        None
    } else if entry_has_ext(es[0], ext) {
        Some(es[0].name@)
    } else {
        first_with_ext(es.drop_first(), ext)
    }
}

/// The name of the first top-level regular file that is native.
pub open spec fn first_native_entry(f: AppDirFacts, es: Seq<EntryFact>) -> Option<Seq<char>>
    decreases es.len(),
{
    if es.len() == 0 {
        None
    } else if es[0].is_file && is_native(f, es[0].name@) {
        Some(es[0].name@)
    } else {
        first_native_entry(f, es.drop_first())
    }
}

/// The name of the first top-level entry with the extension `ext`.
pub fn find_first_ext(f: &AppDirFacts, ext: &str) -> (r: Option<String>)
    ensures
        opt_chars(r) == first_with_ext(f.entries@, ext@),
{
    let es = &f.entries;
    let n = es.len();
    let mut i: usize = 0;
    assert(es@.skip(0) =~= es@);
    while i < n
        invariant
            n == es@.len(),
            es@ == f.entries@,
            i <= n,
            first_with_ext(es@, ext@) == first_with_ext(es@.skip(i as int), ext@),
        decreases n - i,
    {
        assert(es@.skip(i as int).drop_first() =~= es@.skip(i + 1));
        let e = &es[i];
        let hit = match crate::fspath::extension_of(e.name.as_str()) {
            Some(x) => str_eq(x.as_str(), ext),
            None => false,
        };
        if hit {
            return Some(owned(e.name.as_str()));
        }
        i = i + 1;
    }
    None
}

/// The name of the first top-level regular file that is native.
pub fn find_native_binary(f: &AppDirFacts) -> (r: Option<String>)
    ensures
        opt_chars(r) == first_native_entry(*f, f.entries@),
{
    let es = &f.entries;
    let n = es.len();
    let mut i: usize = 0;
    assert(es@.skip(0) =~= es@);
    while i < n
        invariant
            n == es@.len(),
            es@ == f.entries@,
            i <= n,
            first_native_entry(*f, es@) == first_native_entry(*f, es@.skip(i as int)),
        decreases n - i,
    {
        assert(es@.skip(i as int).drop_first() =~= es@.skip(i + 1));
        let e = &es[i];
        if e.is_file && native_file(f, e.name.as_str()) {
            return Some(owned(e.name.as_str()));
        }
        i = i + 1;
    }
    None
}

/// The PHP built-in server command for `doc_root`, listening on `port`
/// (8080 when no port is set).
pub open spec fn php_server(doc_root: Seq<char>, port: Option<Seq<char>>) -> Seq<Seq<char>> {
    seq![
        "php"@,
        "-S"@,
        "0.0.0.0:"@ + match port {
            Some(p) => p,
            None => "8080"@,
        },
        "-t"@,
        doc_root,
    ]
}

/// The FrankenPHP server command.
pub open spec fn frankenphp_argv() -> Seq<Seq<char>> {
    seq!["/app/frankenphp"@, "php-server"@]
}

/// Directories that hold a PHP application's `index.php`.
pub open spec fn web_roots() -> Seq<Seq<char>> {
    seq!["public"@, "webroot"@, "web"@, "htdocs"@, "www"@]
}

/// The first of `ds` holding `index.php`.
pub open spec fn first_web_root(f: AppDirFacts, ds: Seq<Seq<char>>) -> Option<Seq<char>>
    decreases ds.len(),
{
    if ds.len() == 0 {
        None
    } else if has_file(f, ds[0] + "/index.php"@) {
        Some(ds[0])
    } else {
        first_web_root(f, ds.drop_first())
    }
}

/// Directories never taken as a document root.
pub open spec fn skipped_dir(n: Seq<char>) -> bool {
    has_prefix(n, "."@) || n == "vendor"@ || n == "node_modules"@ || n == "tests"@
}

/// The first top-level directory, not skipped, that holds `index.php`.
pub open spec fn first_php_subdir(f: AppDirFacts, es: Seq<EntryFact>) -> Option<Seq<char>>
    decreases es.len(),
{
    if es.len() == 0 {
        None
    } else if es[0].is_dir && !skipped_dir(es[0].name@) && has_file(
        f,
        es[0].name@ + "/index.php"@,
    ) {
        Some(es[0].name@)
    } else {
        first_php_subdir(f, es.drop_first())
    }
}

/// The PHP server command: RoadRunner, FrankenPHP, Laravel's `public/`,
/// the root `index.php`, a known web root, or the first subdirectory
/// holding `index.php`.
pub open spec fn php_entrypoint(f: AppDirFacts, port: Option<Seq<char>>) -> Option<
    Seq<Seq<char>>,
> {
    if has_file(f, "rr.yaml"@) || has_file(f, ".rr.yaml"@) {
        Some(seq!["rr"@, "/app"@])
    } else if has_file(f, "frankenphp"@) && has_file(f, "Caddyfile"@) {
        Some(frankenphp_argv())
    } else if has_file(f, "artisan"@) {
        if has_dir(f, "vendor/laravel/octane"@) && (has_file(f, "frankenphp"@) || has_file(
            f,
            "Caddyfile"@,
        )) {
            Some(frankenphp_argv())
        } else {
            Some(php_server("/app/public"@, port))
        }
    } else if has_file(f, "index.php"@) {
        Some(php_server("/app"@, port))
    } else {
        php_fallback(f, port)
    }
}

/// The PHP server command for a known web root, else for the first
/// subdirectory holding `index.php`.
pub open spec fn php_fallback(f: AppDirFacts, port: Option<Seq<char>>) -> Option<Seq<Seq<char>>> {
    match first_web_root(f, web_roots()) {
        Some(d) => Some(php_server("/app/"@ + d, port)),
        None => match first_php_subdir(f, f.entries@) {
            Some(d) => Some(php_server("/app/"@ + d, port)),
            None => None,
        },
    }
}

/// The PHP built-in server command for `doc_root`.
fn server_cmd(doc_root: String, port: Option<&str>) -> (r: Vec<String>)
    ensures
        string_views(r@) == php_server(doc_root@, opt_view(port)),
{
    let listen = match port {
        Some(p) => cat("0.0.0.0:", p),
        None => owned("0.0.0.0:8080"),
    };
    proof {
        reveal_strlit("0.0.0.0:8080");
        reveal_strlit("0.0.0.0:");
        reveal_strlit("8080");
        assert("0.0.0.0:8080"@ =~= "0.0.0.0:"@ + "8080"@);
    }
    let r = vec![owned("php"), owned("-S"), listen, owned("-t"), doc_root];
    assert(string_views(r@) =~= php_server(doc_root@, opt_view(port)));
    r
}

/// A command of two fixed words.
fn argv2(a: &str, b: &str) -> (r: Vec<String>)
    ensures
        string_views(r@) == seq![a@, b@],
{
    let r = vec![owned(a), owned(b)];
    assert(string_views(r@) =~= seq![a@, b@]);
    r
}

/// The PHP server command.
pub fn resolve_php_entrypoint(f: &AppDirFacts, port: Option<&str>) -> (r: Option<Vec<String>>)
    ensures
        match r {
            Some(v) => php_entrypoint(*f, opt_view(port)) == Some(string_views(v@)),
            None => php_entrypoint(*f, opt_view(port)) is None,
        },
{
    if file_exists(f, "rr.yaml") || file_exists(f, ".rr.yaml") {
        return Some(argv2("rr", "/app"));
    }
    let franken = file_exists(f, "frankenphp");
    let caddy = file_exists(f, "Caddyfile");
    if franken && caddy {
        return Some(argv2("/app/frankenphp", "php-server"));
    }
    if file_exists(f, "artisan") {
        if dir_exists(f, "vendor/laravel/octane") && (franken || caddy) {
            return Some(argv2("/app/frankenphp", "php-server"));
        }
        return Some(server_cmd(owned("/app/public"), port));
    }
    if file_exists(f, "index.php") {
        return Some(server_cmd(owned("/app"), port));
    }
    let roots: [&str; 5] = ["public", "webroot", "web", "htdocs", "www"];
    let ghost rv = Seq::new(roots@.len(), |i: int| roots@[i]@);
    assert(rv =~= web_roots());
    let mut i: usize = 0;
    assert(rv.skip(0) =~= rv);
    while i < 5
        invariant
            i <= 5,
            roots@.len() == 5,
            rv == Seq::new(roots@.len(), |i: int| roots@[i]@),
            rv == web_roots(),
            php_entrypoint(*f, opt_view(port)) == php_fallback(*f, opt_view(port)),
            first_web_root(*f, rv) == first_web_root(*f, rv.skip(i as int)),
        decreases 5 - i,
    {
        assert(rv.skip(i as int)[0] == roots@[i as int]@);
        assert(rv.skip(i as int).drop_first() =~= rv.skip(i + 1));
        let idx = cat(roots[i], "/index.php");
        if file_exists(f, idx.as_str()) {
            return Some(server_cmd(cat("/app/", roots[i]), port));
        }
        i = i + 1;
    }
    let es = &f.entries;
    let n = es.len();
    let mut j: usize = 0;
    assert(es@.skip(0) =~= es@);
    while j < n
        invariant
            n == es@.len(),
            es@ == f.entries@,
            j <= n,
            php_entrypoint(*f, opt_view(port)) == php_fallback(*f, opt_view(port)),
            first_web_root(*f, web_roots()) is None,
            first_php_subdir(*f, es@) == first_php_subdir(*f, es@.skip(j as int)),
        decreases n - j,
    {
        assert(es@.skip(j as int).drop_first() =~= es@.skip(j + 1));
        let e = &es[j];
        if e.is_dir {
            let name = e.name.as_str();
            let skipped = str_starts_with(name, ".") || str_eq(name, "vendor") || str_eq(
                name,
                "node_modules",
            ) || str_eq(name, "tests");
            if !skipped {
                let idx = cat(name, "/index.php");
                if file_exists(f, idx.as_str()) {
                    return Some(server_cmd(cat("/app/", name), port));
                }
            }
        }
        j = j + 1;
    }
    None
}

/// The application path of the relative path `e`.
pub open spec fn app_path(e: Seq<char>) -> Seq<char> {
    "/app/"@ + e
}

/// `head` followed by the application path of the entry file, when there
/// is one.
pub open spec fn with_entry(head: Seq<Seq<char>>, e: Option<Seq<char>>) -> Option<Seq<Seq<char>>> {
    match e {
        Some(x) => Some(head.push(app_path(x))),
        None => None,
    }
}

/// The Python command: Django's `manage.py`, an ASGI server, the
/// `[project.scripts]` `start` command, `python3 -m` a module, or the first
/// Python entry file.
pub open spec fn python_entrypoint(f: AppDirFacts) -> Option<Seq<Seq<char>>> {
    if has_file(f, "manage.py"@) {
        Some(seq!["python3"@, "/app/manage.py"@, "runserver"@, "0.0.0.0:8000"@])
    } else {
        match asgi_entrypoint(f) {
            Some(a) => Some(a),
            None => match pyproject_scripts(f) {
                Some(c) => Some(c),
                None => match python_module(f) {
                    Some(m) => Some(seq!["python3"@, "-m"@, m]),
                    None => with_entry(seq!["python3"@], first_file(f, python_entries())),
                },
            },
        }
    }
}

/// Node entry files tried last.
pub open spec fn node_common_entries() -> Seq<Seq<char>> {
    seq![
        "bin/www"@,
        "dist/main.js"@,
        "index.js"@,
        "app.js"@,
        "server.js"@,
        "main.js"@,
        "server/server.js"@,
    ]
}

/// The Node command: Bun's when a Bun lockfile or config exists and names
/// one, Next.js standalone output, the `package.json` entry (`bun run` for a
/// `bun ...` entry), or the first usual entry file.
pub open spec fn node_entrypoint(f: AppDirFacts) -> Option<Seq<Seq<char>>> {
    let bun = if has_file(f, "bun.lockb"@) || has_file(f, "bunfig.toml"@) {
        bun_entry(f)
    } else {
        None
    };
    match bun {
        Some(b) => Some(b),
        None => if has_file(f, ".next/standalone/server.js"@) {
            Some(seq!["node"@, "/app/.next/standalone/server.js"@])
        } else {
            match node_entry(f) {
                Some(e) => if has_prefix(e, "bun "@) {
                    Some(seq!["bun"@, "run"@, e.skip(4)])
                } else {
                    Some(seq!["node"@, app_path(e)])
                },
                None => with_entry(seq!["node"@], first_file(f, node_common_entries())),
            }
        },
    }
}

/// The Electron command.
pub open spec fn electron_entrypoint(f: AppDirFacts) -> Option<Seq<Seq<char>>> {
    with_entry(
        seq!["electron"@],
        match first_file(f, crate::detect::electron_entries()) {
            Some(x) => Some(x),
            None => node_entry(f),
        },
    )
}

/// The .NET command: the self-contained executable, else `dotnet run` on
/// the first project file.
pub open spec fn dotnet_entrypoint(f: AppDirFacts) -> Option<Seq<Seq<char>>> {
    match dotnet_native(f) {
        Some(x) => Some(seq![app_path(x)]),
        None => match first_with_ext(f.entries@, "csproj"@) {
            Some(c) => Some(
                seq!["dotnet"@, "run"@, "--project"@, app_path(strip_suffixes(c, ".csproj"@))],
            ),
            None => None,
        },
    }
}

/// The Java command for the archive `jar`, with the JVM options `opts`
/// inserted after `java`, passing the runtime port as `server.port`.
pub open spec fn java_argv(jar: Seq<char>, opts: Option<Seq<char>>) -> Seq<Seq<char>> {
    seq!["java"@] + match opts {
        Some(o) => words(o),
        None => Seq::empty(),
    } + seq!["-jar"@, app_path(jar), "-Dserver.port=$PORT"@]
}

/// The Ruby command: Rails' `bin/rails server`, else the first Ruby entry
/// file.
pub open spec fn ruby_entrypoint(f: AppDirFacts) -> Option<Seq<Seq<char>>> {
    if has_file(f, "bin/rails"@) {
        Some(seq!["ruby"@, "/app/bin/rails"@, "server"@, "-b"@, "0.0.0.0"@])
    } else {
        with_entry(seq!["ruby"@], first_file(f, seq!["config.ru"@, "app.rb"@, "main.rb"@]))
    }
}

/// The command that launches an application of the runtime `r`, with the
/// JVM options `java_opts` and the PHP listen port `php_port` the
/// environment sets.
pub open spec fn resolved_entrypoint(
    f: AppDirFacts,
    r: Runtime,
    java_opts: Option<Seq<char>>,
    php_port: Option<Seq<char>>,
) -> Option<Seq<Seq<char>>> {
    match r {
        Runtime::Python => python_entrypoint(f),
        Runtime::Node => node_entrypoint(f),
        Runtime::Electron => electron_entrypoint(f),
        Runtime::Deno => with_entry(
            seq!["deno"@, "run"@, "--allow-all"@],
            first_file(f, seq!["main.ts"@, "main.js"@, "index.ts"@, "index.js"@]),
        ),
        Runtime::Go | Runtime::Binary => with_entry(
            Seq::empty(),
            first_native_entry(f, f.entries@),
        ),
        Runtime::Dotnet => dotnet_entrypoint(f),
        Runtime::Hugo => Some(seq!["hugo"@, "server"@]),
        Runtime::Java => match first_with_ext(f.entries@, "jar"@) {
            Some(j) => Some(java_argv(j, java_opts)),
            None => None,
        },
        Runtime::Ruby => ruby_entrypoint(f),
        Runtime::Php => php_entrypoint(f, php_port),
        Runtime::Perl => with_entry(
            seq!["perl"@],
            first_file(f, seq!["app.pl"@, "main.pl"@, "bin/app"@]),
        ),
        Runtime::Wasm => with_entry(
            seq!["wasmtime"@],
            first_file(f, seq!["index.wasm"@, "app.wasm"@, "main.wasm"@]),
        ),
    }
}

/// The plain values of fixed words.
pub open spec fn word_views(ws: Seq<&str>) -> Seq<Seq<char>> {
    Seq::new(ws.len(), |i: int| ws[i]@)
}

/// The fixed words `head` followed by the application path of `e`.
fn cmd_with_entry(head: &[&str], e: Option<String>) -> (r: Option<Vec<String>>)
    ensures
        match r {
            Some(v) => with_entry(word_views(head@), opt_chars(e)) == Some(string_views(v@)),
            None => with_entry(word_views(head@), opt_chars(e)) is None,
        },
{
    match e {
        Some(x) => {
            let mut v: Vec<String> = Vec::new();
            let mut i: usize = 0;
            while i < head.len()
                invariant
                    i <= head@.len(),
                    v@.len() == i,
                    forall|k: int| 0 <= k < i ==> #[trigger] v@[k]@ == head@[k]@,
                decreases head@.len() - i,
            {
                v.push(owned(head[i]));
                i = i + 1;
            }
            v.push(cat("/app/", x.as_str()));
            assert(string_views(v@) =~= word_views(head@).push(app_path(x@)));
            Some(v)
        },
        None => None,
    }
}

/// The first of `names` the directory holds.
fn first_of(f: &AppDirFacts, names: &[&str]) -> (r: Option<String>)
    ensures
        opt_chars(r) == first_file(*f, word_views(names@)),
{
    let r = find_first_file(f, names);
    assert(Seq::new(names@.len(), |i: int| names@[i]@) =~= word_views(names@));
    r
}

/// The Python command.
fn python_cmd(f: &AppDirFacts) -> (r: Option<Vec<String>>)
    ensures
        match r {
            Some(v) => python_entrypoint(*f) == Some(string_views(v@)),
            None => python_entrypoint(*f) is None,
        },
{
    if file_exists(f, "manage.py") {
        let v = vec![owned("python3"), owned("/app/manage.py"), owned("runserver"), owned("0.0.0.0:8000")];
        assert(string_views(v@) =~= seq!["python3"@, "/app/manage.py"@, "runserver"@, "0.0.0.0:8000"@]);
        return Some(v);
    }
    match detect_asgi_entrypoint(f) {
        Some(a) => {
            return Some(a);
        },
        None => {},
    }
    match detect_pyproject_scripts(f) {
        Some(c) => {
            return Some(c);
        },
        None => {},
    }
    match detect_python_module(f) {
        Some(m) => {
            let v = vec![owned("python3"), owned("-m"), m];
            assert(string_views(v@) =~= seq!["python3"@, "-m"@, m@]);
            return Some(v);
        },
        None => {},
    }
    let names: [&str; 4] = ["app.py", "main.py", "__main__.py", "server.py"];
    assert(word_views(names@) =~= python_entries());
    let head: [&str; 1] = ["python3"];
    assert(word_views(head@) =~= seq!["python3"@]);
    cmd_with_entry(head.as_slice(), first_of(f, names.as_slice()))
}

/// The Node command.
fn node_cmd(f: &AppDirFacts) -> (r: Option<Vec<String>>)
    ensures
        match r {
            Some(v) => node_entrypoint(*f) == Some(string_views(v@)),
            None => node_entrypoint(*f) is None,
        },
{
    if file_exists(f, "bun.lockb") || file_exists(f, "bunfig.toml") {
        match detect_bun_entry(f) {
            Some(b) => {
                return Some(b);
            },
            None => {},
        }
    }
    if file_exists(f, ".next/standalone/server.js") {
        return Some(argv2("node", "/app/.next/standalone/server.js"));
    }
    match find_node_entry(f) {
        Some(e) => {
            if str_starts_with(e.as_str(), "bun ") {
                proof {
                    reveal_strlit("bun ");
                }
                return Some(bun_run(skip4(e.as_str())));
            }
            let v = vec![owned("node"), cat("/app/", e.as_str())];
            assert(string_views(v@) =~= seq!["node"@, app_path(e@)]);
            return Some(v);
        },
        None => {},
    }
    let names: [&str; 7] = [
        "bin/www",
        "dist/main.js",
        "index.js",
        "app.js",
        "server.js",
        "main.js",
        "server/server.js",
    ];
    assert(word_views(names@) =~= node_common_entries());
    let head: [&str; 1] = ["node"];
    assert(word_views(head@) =~= seq!["node"@]);
    cmd_with_entry(head.as_slice(), first_of(f, names.as_slice()))
}

/// The Electron command.
fn electron_cmd(f: &AppDirFacts) -> (r: Option<Vec<String>>)
    ensures
        match r {
            Some(v) => electron_entrypoint(*f) == Some(string_views(v@)),
            None => electron_entrypoint(*f) is None,
        },
{
    let names: [&str; 4] = ["main.js", "main.ts", "index.js", "index.ts"];
    assert(word_views(names@) =~= crate::detect::electron_entries());
    let e = match first_of(f, names.as_slice()) {
        Some(x) => Some(x),
        None => find_node_entry(f),
    };
    let head: [&str; 1] = ["electron"];
    assert(word_views(head@) =~= seq!["electron"@]);
    cmd_with_entry(head.as_slice(), e)
}

/// The .NET command.
fn dotnet_cmd(f: &AppDirFacts) -> (r: Option<Vec<String>>)
    ensures
        match r {
            Some(v) => dotnet_entrypoint(*f) == Some(string_views(v@)),
            None => dotnet_entrypoint(*f) is None,
        },
{
    match find_dotnet_self_contained(f) {
        Some(x) => {
            let v = vec![cat("/app/", x.as_str())];
            assert(string_views(v@) =~= seq![app_path(x@)]);
            Some(v)
        },
        None => match find_first_ext(f, "csproj") {
            Some(c) => {
                let name = strip_suffixes_of(c.as_str(), ".csproj");
                let v = vec![
                    owned("dotnet"),
                    owned("run"),
                    owned("--project"),
                    cat("/app/", name.as_str()),
                ];
                assert(string_views(v@) =~= seq![
                    "dotnet"@,
                    "run"@,
                    "--project"@,
                    app_path(strip_suffixes(c@, ".csproj"@)),
                ]);
                Some(v)
            },
            None => None,
        },
    }
}

/// The Java command for the archive `jar`.
fn java_cmd(jar: &str, opts: Option<&str>) -> (r: Vec<String>)
    ensures
        string_views(r@) == java_argv(jar@, opt_view(opts)),
{
    let mut v: Vec<String> = vec![owned("java")];
    let ghost extra: Seq<Seq<char>> = match opt_view(opts) {
        Some(o) => words(o),
        None => Seq::empty(),
    };
    match opts {
        Some(o) => {
            let ws = words_of(o);
            let mut i: usize = 0;
            while i < ws.len()
                invariant
                    i <= ws@.len(),
                    string_views(ws@) == extra,
                    v@.len() == i + 1,
                    v@[0]@ == "java"@,
                    forall|k: int| 0 <= k < i ==> #[trigger] v@[k + 1]@ == extra[k],
                decreases ws@.len() - i,
            {
                assert(string_views(ws@)[i as int] == ws@[i as int]@);
                v.push(owned(ws[i].as_str()));
                i = i + 1;
            }
            assert(extra.len() == ws@.len());
            assert forall|k: int| 1 <= k < v@.len() implies #[trigger] string_views(v@)[k] == (seq![
                "java"@,
            ] + extra)[k] by {
                assert(v@[(k - 1) + 1]@ == extra[k - 1]);
            }
            assert(string_views(v@) =~= seq!["java"@] + extra);
        },
        None => {
            assert(string_views(v@) =~= seq!["java"@] + extra);
        },
    }
    let ghost before = string_views(v@);
    v.push(owned("-jar"));
    v.push(cat("/app/", jar));
    v.push(owned("-Dserver.port=$PORT"));
    assert(string_views(v@) =~= before + seq!["-jar"@, app_path(jar@), "-Dserver.port=$PORT"@]);
    v
}

/// The Ruby command.
fn ruby_cmd(f: &AppDirFacts) -> (r: Option<Vec<String>>)
    ensures
        match r {
            Some(v) => ruby_entrypoint(*f) == Some(string_views(v@)),
            None => ruby_entrypoint(*f) is None,
        },
{
    if file_exists(f, "bin/rails") {
        let v = vec![
            owned("ruby"),
            owned("/app/bin/rails"),
            owned("server"),
            owned("-b"),
            owned("0.0.0.0"),
        ];
        assert(string_views(v@) =~= seq!["ruby"@, "/app/bin/rails"@, "server"@, "-b"@, "0.0.0.0"@]);
        return Some(v);
    }
    let names: [&str; 3] = ["config.ru", "app.rb", "main.rb"];
    assert(word_views(names@) =~= seq!["config.ru"@, "app.rb"@, "main.rb"@]);
    let head: [&str; 1] = ["ruby"];
    assert(word_views(head@) =~= seq!["ruby"@]);
    cmd_with_entry(head.as_slice(), first_of(f, names.as_slice()))
}

/// The command that launches an application of `runtime`.
///
/// `java_opts` is the value of `JAVA_OPTS` (else `JVM_OPTS`) and `php_port`
/// that of `ERE_PHP_PORT`, when set. `None` when no entry can be found.
pub fn resolve_entrypoint(
    f: &AppDirFacts,
    runtime: Runtime,
    java_opts: Option<&str>,
    php_port: Option<&str>,
) -> (r: Option<Vec<String>>)
    ensures
        match r {
            Some(v) => resolved_entrypoint(*f, runtime, opt_view(java_opts), opt_view(php_port))
                == Some(string_views(v@)),
            None => resolved_entrypoint(
                *f,
                runtime,
                opt_view(java_opts),
                opt_view(php_port),
            ) is None,
        },
{
    match runtime {
        Runtime::Python => python_cmd(f),
        Runtime::Node => node_cmd(f),
        Runtime::Electron => electron_cmd(f),
        Runtime::Deno => {
            let names: [&str; 4] = ["main.ts", "main.js", "index.ts", "index.js"];
            assert(word_views(names@) =~= seq!["main.ts"@, "main.js"@, "index.ts"@, "index.js"@]);
            let head: [&str; 3] = ["deno", "run", "--allow-all"];
            assert(word_views(head@) =~= seq!["deno"@, "run"@, "--allow-all"@]);
            cmd_with_entry(head.as_slice(), first_of(f, names.as_slice()))
        },
        Runtime::Go | Runtime::Binary => {
            let head: [&str; 0] = [];
            assert(word_views(head@) =~= Seq::<Seq<char>>::empty());
            cmd_with_entry(head.as_slice(), find_native_binary(f))
        },
        Runtime::Dotnet => dotnet_cmd(f),
        Runtime::Hugo => Some(argv2("hugo", "server")),
        Runtime::Java => match find_first_ext(f, "jar") {
            Some(j) => Some(java_cmd(j.as_str(), java_opts)),
            None => None,
        },
        Runtime::Ruby => ruby_cmd(f),
        Runtime::Php => resolve_php_entrypoint(f, php_port),
        Runtime::Perl => {
            let names: [&str; 3] = ["app.pl", "main.pl", "bin/app"];
            assert(word_views(names@) =~= seq!["app.pl"@, "main.pl"@, "bin/app"@]);
            let head: [&str; 1] = ["perl"];
            assert(word_views(head@) =~= seq!["perl"@]);
            cmd_with_entry(head.as_slice(), first_of(f, names.as_slice()))
        },
        Runtime::Wasm => {
            let names: [&str; 3] = ["index.wasm", "app.wasm", "main.wasm"];
            assert(word_views(names@) =~= seq!["index.wasm"@, "app.wasm"@, "main.wasm"@]);
            let head: [&str; 1] = ["wasmtime"];
            assert(word_views(head@) =~= seq!["wasmtime"@]);
            cmd_with_entry(head.as_slice(), first_of(f, names.as_slice()))
        },
    }
}

/// A Perl application runs `perl` on the first of `app.pl`, `main.pl` and
/// `bin/app` that it holds, under `/app/`; with none of them it has no
/// entrypoint. Nothing else (Java options, PHP port) changes that.
pub proof fn lemma_perl_entrypoint(f: AppDirFacts, java_opts: Option<Seq<char>>, php_port: Option<Seq<char>>)
    ensures
        has_file(f, "app.pl"@) ==> resolved_entrypoint(f, Runtime::Perl, java_opts, php_port) == Some(
            seq!["perl"@, "/app/"@ + "app.pl"@],
        ),
        !has_file(f, "app.pl"@) && has_file(f, "main.pl"@) ==> resolved_entrypoint(
            f,
            Runtime::Perl,
            java_opts,
            php_port,
        ) == Some(seq!["perl"@, "/app/"@ + "main.pl"@]),
        !has_file(f, "app.pl"@) && !has_file(f, "main.pl"@) && has_file(f, "bin/app"@)
            ==> resolved_entrypoint(f, Runtime::Perl, java_opts, php_port) == Some(
            seq!["perl"@, "/app/"@ + "bin/app"@],
        ),
        !has_file(f, "app.pl"@) && !has_file(f, "main.pl"@) && !has_file(f, "bin/app"@)
            ==> resolved_entrypoint(f, Runtime::Perl, java_opts, php_port) is None,
{
    let names = seq!["app.pl"@, "main.pl"@, "bin/app"@];
    reveal_with_fuel(first_file, 4);
    assert(names.drop_first() =~= seq!["main.pl"@, "bin/app"@]);
    assert(names.drop_first().drop_first() =~= seq!["bin/app"@]);
    assert(names.drop_first().drop_first().drop_first() =~= Seq::<Seq<char>>::empty());
    assert(seq!["perl"@].push("/app/"@ + "app.pl"@) =~= seq!["perl"@, "/app/"@ + "app.pl"@]);
    assert(seq!["perl"@].push("/app/"@ + "main.pl"@) =~= seq!["perl"@, "/app/"@ + "main.pl"@]);
    assert(seq!["perl"@].push("/app/"@ + "bin/app"@) =~= seq!["perl"@, "/app/"@ + "bin/app"@]);
}

/// A Deno application runs `deno run --allow-all` on the first of `main.ts`,
/// `main.js`, `index.ts` and `index.js` that it holds, under `/app/`; with
/// none of them it has no entrypoint.
pub proof fn lemma_deno_entrypoint(f: AppDirFacts, java_opts: Option<Seq<char>>, php_port: Option<Seq<char>>)
    ensures
        has_file(f, "main.ts"@) ==> resolved_entrypoint(f, Runtime::Deno, java_opts, php_port) == Some(
            seq!["deno"@, "run"@, "--allow-all"@, "/app/"@ + "main.ts"@],
        ),
        !has_file(f, "main.ts"@) && has_file(f, "main.js"@) ==> resolved_entrypoint(f, Runtime::Deno, java_opts, php_port) == Some(
            seq!["deno"@, "run"@, "--allow-all"@, "/app/"@ + "main.js"@],
        ),
        !has_file(f, "main.ts"@) && !has_file(f, "main.js"@) && has_file(f, "index.ts"@) ==> resolved_entrypoint(f, Runtime::Deno, java_opts, php_port) == Some(
            seq!["deno"@, "run"@, "--allow-all"@, "/app/"@ + "index.ts"@],
        ),
        !has_file(f, "main.ts"@) && !has_file(f, "main.js"@) && !has_file(f, "index.ts"@) && has_file(f, "index.js"@) ==> resolved_entrypoint(f, Runtime::Deno, java_opts, php_port) == Some(
            seq!["deno"@, "run"@, "--allow-all"@, "/app/"@ + "index.js"@],
        ),
        !has_file(f, "main.ts"@) && !has_file(f, "main.js"@) && !has_file(f, "index.ts"@) && !has_file(f, "index.js"@) ==> resolved_entrypoint(f, Runtime::Deno, java_opts, php_port) is None,
{
    let names = seq!["main.ts"@, "main.js"@, "index.ts"@, "index.js"@];
    reveal_with_fuel(first_file, 5);
    assert(names.drop_first() =~= seq!["main.js"@, "index.ts"@, "index.js"@]);
    assert(names.drop_first().drop_first() =~= seq!["index.ts"@, "index.js"@]);
    assert(names.drop_first().drop_first().drop_first() =~= seq!["index.js"@]);
    assert(names.drop_first().drop_first().drop_first().drop_first() =~= Seq::<Seq<char>>::empty());
    assert(seq!["deno"@, "run"@, "--allow-all"@].push("/app/"@ + "main.ts"@) =~= seq!["deno"@, "run"@, "--allow-all"@, "/app/"@ + "main.ts"@]);
    assert(seq!["deno"@, "run"@, "--allow-all"@].push("/app/"@ + "main.js"@) =~= seq!["deno"@, "run"@, "--allow-all"@, "/app/"@ + "main.js"@]);
    assert(seq!["deno"@, "run"@, "--allow-all"@].push("/app/"@ + "index.ts"@) =~= seq!["deno"@, "run"@, "--allow-all"@, "/app/"@ + "index.ts"@]);
    assert(seq!["deno"@, "run"@, "--allow-all"@].push("/app/"@ + "index.js"@) =~= seq!["deno"@, "run"@, "--allow-all"@, "/app/"@ + "index.js"@]);
}

/// A WebAssembly application runs `wasmtime` on the first of `index.wasm`,
/// `app.wasm` and `main.wasm` that it holds, under `/app/`; with none of
/// them it has no entrypoint.
pub proof fn lemma_wasm_entrypoint(f: AppDirFacts, java_opts: Option<Seq<char>>, php_port: Option<Seq<char>>)
    ensures
        has_file(f, "index.wasm"@) ==> resolved_entrypoint(f, Runtime::Wasm, java_opts, php_port) == Some(
            seq!["wasmtime"@, "/app/"@ + "index.wasm"@],
        ),
        !has_file(f, "index.wasm"@) && has_file(f, "app.wasm"@) ==> resolved_entrypoint(f, Runtime::Wasm, java_opts, php_port) == Some(
            seq!["wasmtime"@, "/app/"@ + "app.wasm"@],
        ),
        !has_file(f, "index.wasm"@) && !has_file(f, "app.wasm"@) && has_file(f, "main.wasm"@) ==> resolved_entrypoint(f, Runtime::Wasm, java_opts, php_port) == Some(
            seq!["wasmtime"@, "/app/"@ + "main.wasm"@],
        ),
        !has_file(f, "index.wasm"@) && !has_file(f, "app.wasm"@) && !has_file(f, "main.wasm"@) ==> resolved_entrypoint(f, Runtime::Wasm, java_opts, php_port) is None,
{
    let names = seq!["index.wasm"@, "app.wasm"@, "main.wasm"@];
    reveal_with_fuel(first_file, 4);
    assert(names.drop_first() =~= seq!["app.wasm"@, "main.wasm"@]);
    assert(names.drop_first().drop_first() =~= seq!["main.wasm"@]);
    assert(names.drop_first().drop_first().drop_first() =~= Seq::<Seq<char>>::empty());
    assert(seq!["wasmtime"@].push("/app/"@ + "index.wasm"@) =~= seq!["wasmtime"@, "/app/"@ + "index.wasm"@]);
    assert(seq!["wasmtime"@].push("/app/"@ + "app.wasm"@) =~= seq!["wasmtime"@, "/app/"@ + "app.wasm"@]);
    assert(seq!["wasmtime"@].push("/app/"@ + "main.wasm"@) =~= seq!["wasmtime"@, "/app/"@ + "main.wasm"@]);
}

} // verus!
