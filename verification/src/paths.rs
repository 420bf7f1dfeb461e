//! Standard locations (cache, keys, trusted keys, persistent data), the
//! build cache's layout and its eviction and expiry decisions, and the
//! rollback snapshot's location.
use crate::fspath::{file_name_of, join, parent_of, path_file_name, path_parent};
use crate::strmap::StrMap;
use crate::text::{join_path, owned, push_str};
use crate::fspath::opt_view;
use vstd::prelude::*;

verus! {

/// The build tool's cache directory: `%LOCALAPPDATA%\xbin` where that is set
/// (Windows), else `$XDG_CACHE_HOME/xbin`, else `$HOME/.cache/xbin`, else
/// `.xbin/cache`.
pub open spec fn cache_dir_path(
    local_app_data: Option<Seq<char>>,
    xdg_cache_home: Option<Seq<char>>,
    home: Option<Seq<char>>,
) -> Seq<char> {
    match local_app_data {
        Some(d) => join_path(d, "xbin"@),
        None => match xdg_cache_home {
            Some(x) => join_path(x, "xbin"@),
            None => match home {
                Some(h) => join_path(join_path(h, ".cache"@), "xbin"@),
                None => join_path(".xbin"@, "cache"@),
            },
        },
    }
}

/// The build tool's cache directory, from the environment's values.
pub fn cache_dir(local_app_data: Option<&str>, xdg_cache_home: Option<&str>, home: Option<&str>) -> (r: String)
    ensures
        r@ == cache_dir_path(opt_view(local_app_data), opt_view(xdg_cache_home), opt_view(home)),
{
    match local_app_data {
        Some(d) => join(d, "xbin"),
        None => match xdg_cache_home {
            Some(x) => join(x, "xbin"),
            None => match home {
                Some(h) => {
                    let c = join(h, ".cache");
                    join(c.as_str(), "xbin")
                },
                None => join(".xbin", "cache"),
            },
        },
    }
}

/// The data directory for a leaf under `xbin`: `$XDG_DATA_HOME/xbin/<leaf>`,
/// else `$HOME/.local/share/xbin/<leaf>`, else `.xbin/<leaf>`.
pub open spec fn data_dir_path(xdg_data_home: Option<Seq<char>>, home: Option<Seq<char>>, leaf: Seq<char>) -> Seq<
    char,
> {
    match xdg_data_home {
        Some(x) => join_path(join_path(x, "xbin"@), leaf),
        None => match home {
            Some(h) => join_path(
                join_path(join_path(join_path(h, ".local"@), "share"@), "xbin"@),
                leaf,
            ),
            None => join_path(".xbin"@, leaf),
        },
    }
}

fn data_dir(xdg_data_home: Option<&str>, home: Option<&str>, leaf: &str) -> (r: String)
    ensures
        r@ == data_dir_path(opt_view(xdg_data_home), opt_view(home), leaf@),
{
    match xdg_data_home {
        Some(x) => {
            let a = join(x, "xbin");
            join(a.as_str(), leaf)
        },
        None => match home {
            Some(h) => {
                let a = join(h, ".local");
                let b = join(a.as_str(), "share");
                let c = join(b.as_str(), "xbin");
                join(c.as_str(), leaf)
            },
            None => join(".xbin", leaf),
        },
    }
}

/// Where new signing keys go.
pub fn default_key_dir(xdg_data_home: Option<&str>, home: Option<&str>) -> (r: String)
    ensures
        r@ == data_dir_path(opt_view(xdg_data_home), opt_view(home), "keys"@),
{
    data_dir(xdg_data_home, home, "keys")
}

/// Where the build tool keeps trusted public keys.
pub fn default_trusted_dir(xdg_data_home: Option<&str>, home: Option<&str>) -> (r: String)
    ensures
        r@ == data_dir_path(opt_view(xdg_data_home), opt_view(home), "trusted-keys"@),
{
    data_dir(xdg_data_home, home, "trusted-keys")
}

/// The directory the launcher reads trusted public keys from:
/// `$XBIN_TRUSTED_DIR`, else `$HOME/.xbin/trusted-keys`, else
/// `.xbin/trusted-keys`. The home-relative default (not `XDG_DATA_HOME`) is
/// deliberate: trust anchors are resolved without variables that could be
/// spoofed in elevated contexts.
pub open spec fn trusted_keys_path(trusted_dir: Option<Seq<char>>, home: Option<Seq<char>>) -> Seq<char> {
    match trusted_dir {
        Some(d) => d,
        None => match home {
            Some(h) => join_path(join_path(h, ".xbin"@), "trusted-keys"@),
            None => join_path(".xbin"@, "trusted-keys"@),
        },
    }
}

/// The launcher's trusted-keys directory, from the environment's values.
pub fn trusted_keys_dir(trusted_dir: Option<&str>, home: Option<&str>) -> (r: String)
    ensures
        r@ == trusted_keys_path(opt_view(trusted_dir), opt_view(home)),
{
    match trusted_dir {
        Some(d) => owned(d),
        None => match home {
            Some(h) => {
                let a = join(h, ".xbin");
                join(a.as_str(), "trusted-keys")
            },
            None => join(".xbin", "trusted-keys"),
        },
    }
}

/// The persistent data directory of an application:
/// `$XDG_DATA_HOME/erebus/<app>`, else `$HOME/.local/share/erebus/<app>`,
/// else `/tmp/erebus/<app>`.
pub open spec fn persist_dir_path(xdg_data_home: Option<Seq<char>>, home: Option<Seq<char>>, app: Seq<char>) -> Seq<
    char,
> {
    match xdg_data_home {
        Some(x) => join_path(join_path(x, "erebus"@), app),
        None => match home {
            Some(h) => join_path(
                join_path(join_path(join_path(h, ".local"@), "share"@), "erebus"@),
                app,
            ),
            None => "/tmp/erebus/"@ + app,
        },
    }
}

/// The persistent data directory of an application, from the environment's values.
pub fn get_persist_dir(app_name: &str, xdg_data_home: Option<&str>, home: Option<&str>) -> (r: String)
    ensures
        r@ == persist_dir_path(opt_view(xdg_data_home), opt_view(home), app_name@),
{
    match xdg_data_home {
        Some(x) => {
            let a = join(x, "erebus");
            join(a.as_str(), app_name)
        },
        None => match home {
            Some(h) => {
                let a = join(h, ".local");
                let b = join(a.as_str(), "share");
                let c = join(b.as_str(), "erebus");
                join(c.as_str(), app_name)
            },
            None => {
                let mut s = owned("/tmp/erebus/");
                push_str(&mut s, app_name);
                s
            },
        },
    }
}

/// The environment that tells an application where its persistent data lives.
pub fn get_persist_env(app_name: &str, xdg_data_home: Option<&str>, home: Option<&str>) -> (r: StrMap<String>)
    ensures
        r@.len() == 1,
        r@[0].0@ == "XBIN_PERSIST_DIR"@,
        r@[0].1@ == persist_dir_path(opt_view(xdg_data_home), opt_view(home), app_name@),
{
    let dir = get_persist_dir(app_name, xdg_data_home, home);
    let mut env: StrMap<String> = StrMap::new();
    env.insert(owned("XBIN_PERSIST_DIR"), dir);
    env
}

/// The cache entry directory name of a build: `<app>-<config>`, with
/// `-<target>` for cross-target builds so per-arch artifacts never collide.
pub open spec fn cache_key_text(app_hash: Seq<char>, config_hash: Seq<char>, target: Option<Seq<char>>) -> Seq<char> {
    match target {
        Some(t) => app_hash + "-"@ + config_hash + "-"@ + t,
        None => app_hash + "-"@ + config_hash,
    }
}

/// The cache entry directory name of a build.
pub fn cache_key(app_hash: &str, config_hash: &str, target: Option<&str>) -> (r: String)
    ensures
        r@ == cache_key_text(app_hash@, config_hash@, opt_view(target)),
{
    let mut s = owned(app_hash);
    push_str(&mut s, "-");
    push_str(&mut s, config_hash);
    if let Some(t) = target {
        push_str(&mut s, "-");
        push_str(&mut s, t);
    }
    s
}

/// A build cache: artifacts under `<cache>/builds/<key>/output.xbin`, at most
/// `max_entries` of them.
#[derive(Debug, Clone)]
pub struct BuildCache {
    base_dir: String,
    max_entries: usize,
}

impl BuildCache {
    /// The cache's base directory.
    pub closed spec fn spec_base_dir(&self) -> Seq<char> {
        self.base_dir@
    }

    /// The cache's entry limit.
    pub closed spec fn spec_max_entries(&self) -> usize {
        self.max_entries
    }

    /// A build cache rooted at `<cache_dir>/builds`, keeping at most
    /// `max_entries` builds.
    pub fn new(cache_dir: &str, max_entries: usize) -> (r: Self)
        ensures
            r.spec_base_dir() == join_path(cache_dir@, "builds"@),
            r.spec_max_entries() == max_entries,
    {
        BuildCache { base_dir: join(cache_dir, "builds"), max_entries }
    }

    /// The cache's base directory.
    pub fn base_dir(&self) -> (r: &str)
        ensures
            r@ == self.spec_base_dir(),
    {
        self.base_dir.as_str()
    }

    /// The cache's entry limit.
    pub fn max_entries(&self) -> (r: usize)
        ensures
            r == self.spec_max_entries(),
    {
        self.max_entries
    }

    /// The entry directory of a build.
    pub fn entry_dir(&self, app_hash: &str, config_hash: &str, target: Option<&str>) -> (r: String)
        ensures
            r@ == join_path(self.spec_base_dir(), cache_key_text(app_hash@, config_hash@, opt_view(target))),
    {
        let key = cache_key(app_hash, config_hash, target);
        join(self.base_dir.as_str(), key.as_str())
    }

    /// Where the artifact of a build is cached.
    pub fn artifact_path(&self, app_hash: &str, config_hash: &str, target: Option<&str>) -> (r: String)
        ensures
            r@ == join_path(
                join_path(self.spec_base_dir(), cache_key_text(app_hash@, config_hash@, opt_view(target))),
                "output.xbin"@,
            ),
    {
        let dir = self.entry_dir(app_hash, config_hash, target);
        join(dir.as_str(), "output.xbin")
    }

    /// Looks up the cached artifact of a build: its path when `is_file`
    /// reports a file there (a hit), `None` otherwise (a miss).
    pub fn find<F: Fn(&str) -> bool>(
        &self,
        app_hash: &str,
        config_hash: &str,
        target: Option<&str>,
        is_file: F,
    ) -> (r: Option<String>)
        requires
            forall|p: &str| #[trigger] is_file.requires((p,)),
        ensures
            ({
                let path = join_path(
                    join_path(self.spec_base_dir(), cache_key_text(app_hash@, config_hash@, opt_view(target))),
                    "output.xbin"@,
                );
                &&& r matches Some(p) ==> p@ == path && exists|q: &str, b: bool| q@ == path && is_file.ensures((q,), b) && b
                &&& r is None ==> exists|q: &str, b: bool| q@ == path && is_file.ensures((q,), b) && !b
            }),
    {
        let path = self.artifact_path(app_hash, config_hash, target);
        let hit = is_file(path.as_str());
        if hit {
            Some(path)
        } else {
            None
        }
    }

    /// Where the metadata of a cached build is kept.
    pub fn meta_path(&self, app_hash: &str, config_hash: &str, target: Option<&str>) -> (r: String)
        ensures
            r@ == join_path(
                join_path(self.spec_base_dir(), cache_key_text(app_hash@, config_hash@, opt_view(target))),
                ".meta"@,
            ),
    {
        let dir = self.entry_dir(app_hash, config_hash, target);
        join(dir.as_str(), ".meta")
    }
}

/// Whether a cache entry stored at `timestamp_secs` has outlived a TTL of
/// `ttl_hours` at `now_secs` (saturating arithmetic, so clock skew never
/// expires an entry early).
pub open spec fn expired(now_secs: u64, timestamp_secs: u64, ttl_hours: u64) -> bool {
    let age = if now_secs >= timestamp_secs {
        now_secs - timestamp_secs
    } else {
        0
    };
    let ttl = if ttl_hours * 3600 > u64::MAX {
        u64::MAX as int
    } else {
        ttl_hours * 3600
    };
    age > ttl
}

/// Whether a cache entry has outlived its TTL.
pub fn ttl_expired(now_secs: u64, timestamp_secs: u64, ttl_hours: u64) -> (r: bool)
    ensures
        r == expired(now_secs, timestamp_secs, ttl_hours),
{
    let age = now_secs.saturating_sub(timestamp_secs);
    let ttl = match ttl_hours.checked_mul(3600) {
        Some(t) => t,
        None => u64::MAX,
    };
    age > ttl
}

/// The index of the oldest entry (the first of the oldest on ties).
pub open spec fn oldest_index(s: Seq<(String, u64)>) -> int
    decreases s.len(),
{
    if s.len() <= 1 {
        0
    } else {
        let i = oldest_index(s.drop_last());
        if s.last().1 < s[i].1 {
            s.len() - 1
        } else {
            i
        }
    }
}

/// The `k` oldest entries, oldest first, ties in list order: the first `k`
/// of a stable sort by timestamp.
pub open spec fn oldest_entries(s: Seq<(String, u64)>, k: nat) -> Seq<(String, u64)>
    decreases k,
{
    if k == 0 || s.len() == 0 {
        Seq::empty()
    } else {
        seq![s[oldest_index(s)]] + oldest_entries(s.remove(oldest_index(s)), (k - 1) as nat)
    }
}

proof fn lemma_oldest_index(s: Seq<(String, u64)>)
    requires
        s.len() > 0,
    ensures
        0 <= oldest_index(s) < s.len(),
        forall|j: int| 0 <= j < s.len() ==> s[oldest_index(s)].1 <= #[trigger] s[j].1,
        forall|j: int| 0 <= j < oldest_index(s) ==> s[oldest_index(s)].1 < #[trigger] s[j].1,
    decreases s.len(),
{
    if s.len() > 1 {
        let t = s.drop_last();
        lemma_oldest_index(t);
        assert forall|j: int| 0 <= j < s.len() implies s[oldest_index(s)].1 <= #[trigger] s[j].1 by {
            if j < s.len() - 1 {
                assert(s[j] == t[j]);
            }
        }
        assert forall|j: int| 0 <= j < oldest_index(s) implies s[oldest_index(s)].1 < #[trigger] s[j].1 by {
            assert(s[j] == t[j]);
        }
    }
}

/// Eviction only ever picks entries of the list it is given: each of the
/// `k` oldest entries is an entry of `s`.
pub proof fn lemma_oldest_entries_from(s: Seq<(String, u64)>, k: nat)
    ensures
        forall|i: int|
            0 <= i < oldest_entries(s, k).len() ==> exists|j: int|
                0 <= j < s.len() && s[j] == #[trigger] oldest_entries(s, k)[i],
    decreases k,
{
    if k > 0 && s.len() > 0 {
        lemma_oldest_index(s);
        let oi = oldest_index(s);
        let rest = s.remove(oi);
        lemma_oldest_entries_from(rest, (k - 1) as nat);
        let oe = oldest_entries(s, k);
        assert(oe == seq![s[oi]] + oldest_entries(rest, (k - 1) as nat));
        assert forall|i: int| 0 <= i < oe.len() implies exists|j: int|
            0 <= j < s.len() && s[j] == #[trigger] oe[i] by {
            if i == 0 {
                assert(s[oi] == oe[0]);
            } else {
                let x = oldest_entries(rest, (k - 1) as nat)[i - 1];
                assert(oe[i] == x);
                let j2 = choose|j: int| 0 <= j < rest.len() && rest[j] == x;
                if j2 < oi {
                    assert(s[j2] == oe[i]);
                } else {
                    assert(s[j2 + 1] == oe[i]);
                }
            }
        }
    }
}

/// Index of the oldest entry of `v`.
fn find_oldest(v: &Vec<(String, u64)>) -> (r: usize)
    requires
        v@.len() > 0,
    ensures
        r == oldest_index(v@),
{
    proof {
        lemma_oldest_index(v@);
    }
    let n = v.len();
    let mut best: usize = 0;
    let mut i: usize = 1;
    while i < n
        invariant
            n == v@.len(),
            1 <= i <= n,
            best == oldest_index(v@.take(i as int)),
        decreases n - i,
    {
        assert(v@.take(i + 1).drop_last() =~= v@.take(i as int));
        proof {
            lemma_oldest_index(v@.take(i as int));
        }
        if v[i].1 < v[best].1 {
            best = i;
        }
        i = i + 1;
    }
    assert(v@.take(n as int) =~= v@);
    best
}

/// The entry directories to evict once a cache holds more than `max_entries`
/// builds: the oldest ones by stored timestamp, oldest first, until
/// `max_entries` remain.
pub fn eviction_plan(entries: &Vec<(String, u64)>, max_entries: usize) -> (r: Vec<String>)
    ensures
        ({
            let k = if entries@.len() > max_entries {
                (entries@.len() - max_entries) as nat
            } else {
                0
            };
            &&& r@.len() == oldest_entries(entries@, k).len()
            &&& forall|i: int| 0 <= i < r@.len() ==> #[trigger] r@[i] == oldest_entries(entries@, k)[i].0
        }),
{
    let n = entries.len();
    if n <= max_entries {
        return Vec::new();
    }
    let k = n - max_entries;
    let mut rest: Vec<(String, u64)> = Vec::new();
    let mut j: usize = 0;
    while j < n
        invariant
            n == entries@.len(),
            j <= n,
            rest@.len() == j,
            forall|q: int| 0 <= q < j ==> #[trigger] rest@[q] == entries@[q],
        decreases n - j,
    {
        let (a, b) = &entries[j];
        rest.push((a.clone(), *b));
        j = j + 1;
    }
    assert(rest@ =~= entries@);
    let mut out: Vec<String> = Vec::new();
    let ghost taken: Seq<(String, u64)> = Seq::empty();
    let mut i: usize = 0;
    while i < k
        invariant
            k <= n,
            i <= k,
            rest@.len() == n - i,
            out@.len() == taken.len(),
            forall|q: int| 0 <= q < out@.len() ==> #[trigger] out@[q] == taken[q].0,
            taken + oldest_entries(rest@, (k - i) as nat) == oldest_entries(entries@, k as nat),
        decreases k - i,
    {
        let o = find_oldest(&rest);
        proof {
            lemma_oldest_index(rest@);
        }
        let ghost before = rest@;
        let (name, ts) = rest.remove(o);
        assert(before[o as int] == (name, ts));
        assert(oldest_entries(before, (k - i) as nat) == seq![before[o as int]] + oldest_entries(
            before.remove(o as int),
            (k - i - 1) as nat,
        ));
        proof {
            let t0 = taken;
            taken = taken.push((name, ts));
            assert(taken + oldest_entries(rest@, (k - i - 1) as nat) =~= t0 + (seq![before[o as int]]
                + oldest_entries(before.remove(o as int), (k - i - 1) as nat)));
        }
        out.push(name);
        i = i + 1;
    }
    assert(oldest_entries(rest@, 0) =~= Seq::<(String, u64)>::empty());
    assert(taken =~= oldest_entries(entries@, k as nat));
    out
}

/// A local directory standing in for a remote cache: artifacts under
/// `<root>/<hash>`.
#[derive(Debug, Clone)]
pub struct FsRemoteCache {
    root: String,
}

impl FsRemoteCache {
    /// The cache's root directory.
    pub closed spec fn spec_root(&self) -> Seq<char> {
        self.root@
    }

    /// A cache rooted at `root`.
    pub fn new(root: &str) -> (r: Self)
        ensures
            r.spec_root() == root@,
    {
        FsRemoteCache { root: owned(root) }
    }

    /// Where the artifact with content hash `hash` is stored.
    pub fn path_for(&self, hash: &str) -> (r: String)
        ensures
            r@ == join_path(self.spec_root(), hash@),
    {
        join(self.root.as_str(), hash)
    }
}

/// Suffix of a binary's rollback snapshot.
pub const BACKUP_SUFFIX: &'static str = ".bak";

/// The rollback snapshot of a binary: next to it, its file name plus `.bak`
/// (`app.erebus` when the path has no file name), so the restoring rename
/// stays on one filesystem.
pub open spec fn backup_path_of(bin: Seq<char>) -> Seq<char> {
    let parent = match path_parent(bin) {
        Some(p) => p,
        None => Seq::empty(),
    };
    let file = match path_file_name(bin) {
        Some(f) => f,
        None => "app.erebus"@,
    };
    join_path(parent, file + ".bak"@)
}

/// `/dir/app.erebus` → `/dir/app.erebus.bak`.
pub fn backup_path_for(bin: &str) -> (r: String)
    ensures
        r@ == backup_path_of(bin@),
{
    let parent = match parent_of(bin) {
        Some(p) => p,
        None => String::new(),
    };
    let mut file = match file_name_of(bin) {
        Some(f) => f,
        None => owned("app.erebus"),
    };
    push_str(&mut file, ".bak");
    join(parent.as_str(), file.as_str())
}

} // verus!
