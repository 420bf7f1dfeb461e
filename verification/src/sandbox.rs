//! Launcher safety policy: decompression-bomb limits and link checks during
//! extraction, cache trust, the seccomp denylist program, the Landlock host
//! rule, payload integrity, and Windows process-argument encoding.
use crate::error::Error;
use crate::hashing::{sha256, sha256_digest};
use crate::layer::Capability;
use crate::strmap::StrMap;
use crate::text::{
    chars_of, decimal, decimal_string, has_prefix, has_substring, owned, parse_u64, parse_u64_spec,
    push_str, replace_all, replaced, str_contains, string_from_chars,
};
use crate::fspath::opt_view;
use crate::strmap::string_views;
use vstd::prelude::*;

verus! {

/// Default cap on the total decompressed bytes of a payload (1 GiB).
pub const DEFAULT_MAX_DECOMPRESSED_BYTES: u64 = 1073741824;

/// Default cap on the number of entries of a payload.
pub const DEFAULT_MAX_FILES: usize = 50000;

/// Highest total-size cap the environment may set (10 GiB).
pub const MAX_EXTRACT_SIZE_CEILING: u64 = 10737418240;

/// Highest entry-count cap the environment may set.
pub const MAX_EXTRACT_FILES_CEILING: usize = 500000;

/// Decompression-bomb limits of an extraction.
#[derive(Debug, Clone, Copy)]
pub struct ExtractLimits {
    pub max_bytes: u64,
    pub max_files: usize,
}

/// The limits the launcher's own environment sets (never the payload):
/// `DAEDALUS_MAX_EXTRACT_SIZE` and `DAEDALUS_MAX_EXTRACT_FILES`, each capped
/// at its ceiling, each defaulted when unset or unparsable.
pub open spec fn limits_from(size_var: Option<Seq<char>>, files_var: Option<Seq<char>>) -> ExtractLimits {
    ExtractLimits {
        max_bytes: match size_var {
            Some(s) => match parse_u64_spec(s) {
                Some(v) => if v < MAX_EXTRACT_SIZE_CEILING {
                    v
                } else {
                    MAX_EXTRACT_SIZE_CEILING
                },
                None => DEFAULT_MAX_DECOMPRESSED_BYTES,
            },
            None => DEFAULT_MAX_DECOMPRESSED_BYTES,
        },
        max_files: match files_var {
            Some(s) => match parse_u64_spec(s) {
                Some(v) => if v > usize::MAX {
                    DEFAULT_MAX_FILES
                } else if v < MAX_EXTRACT_FILES_CEILING {
                    v as usize
                } else {
                    MAX_EXTRACT_FILES_CEILING
                },
                None => DEFAULT_MAX_FILES,
            },
            None => DEFAULT_MAX_FILES,
        },
    }
}

impl ExtractLimits {
    /// The limits set by the values of the two environment variables.
    pub fn from_env(size_var: Option<&str>, files_var: Option<&str>) -> (r: Self)
        ensures
            r == limits_from(opt_view(size_var), opt_view(files_var)),
    {
        let max_bytes = match size_var {
            Some(s) => {
                let c = chars_of(s);
                match parse_u64(c.as_slice()) {
                    Some(v) => if v < MAX_EXTRACT_SIZE_CEILING {
                        v
                    } else {
                        MAX_EXTRACT_SIZE_CEILING
                    },
                    None => DEFAULT_MAX_DECOMPRESSED_BYTES,
                }
            },
            None => DEFAULT_MAX_DECOMPRESSED_BYTES,
        };
        let max_files = match files_var {
            Some(s) => {
                let c = chars_of(s);
                match parse_u64(c.as_slice()) {
                    Some(v) => if v > usize::MAX as u64 {
                        DEFAULT_MAX_FILES
                    } else if (v as usize) < MAX_EXTRACT_FILES_CEILING {
                        v as usize
                    } else {
                        MAX_EXTRACT_FILES_CEILING
                    },
                    None => DEFAULT_MAX_FILES,
                }
            },
            None => DEFAULT_MAX_FILES,
        };
        ExtractLimits { max_bytes, max_files }
    }
}

/// Running totals of an extraction, checked entry by entry.
#[derive(Debug, Clone, Copy)]
pub struct ExtractGuard {
    pub limits: ExtractLimits,
    /// Bytes accepted so far (saturating).
    pub total_bytes: u64,
    /// Entries accepted so far (saturating).
    pub file_count: usize,
}

/// `a + b`, or the maximum where it overflows.
pub open spec fn sat_add(a: int, b: int, max: int) -> int {
    if a + b > max {
        max
    } else {
        a + b
    }
}

/// The guard after an entry of `size` bytes, and the refusal, if any: an
/// entry over the size cap leaves the totals alone; otherwise the byte total
/// grows (saturating) and must stay within the cap, then the entry count
/// grows (saturating) and must stay within its cap.
pub open spec fn entry_outcome(g: ExtractGuard, size: u64) -> (ExtractGuard, Option<Seq<char>>) {
    let max = g.limits.max_bytes;
    if size > max {
        (g, Some("tar entry exceeds max size: "@ + decimal(size as nat) + " > "@ + decimal(max as nat)))
    } else {
        let total = sat_add(g.total_bytes as int, size as int, u64::MAX as int) as u64;
        let g1 = ExtractGuard { limits: g.limits, total_bytes: total, file_count: g.file_count };
        if total > max {
            (
                g1,
                Some(
                    "total decompressed size "@ + decimal(total as nat) + " exceeds "@ + decimal(
                        max as nat,
                    ),
                ),
            )
        } else {
            let count = sat_add(g.file_count as int, 1, usize::MAX as int) as usize;
            let g2 = ExtractGuard { limits: g.limits, total_bytes: total, file_count: count };
            if count > g.limits.max_files {
                (
                    g2,
                    Some(
                        "file count exceeds max: "@ + decimal(count as nat) + " > "@ + decimal(
                            g.limits.max_files as nat,
                        ),
                    ),
                )
            } else {
                (g2, None)
            }
        }
    }
}

impl ExtractGuard {
    /// A guard with nothing accepted yet.
    pub fn new(limits: ExtractLimits) -> (r: Self)
        ensures
            r.limits == limits,
            r.total_bytes == 0,
            r.file_count == 0,
    {
        ExtractGuard { limits, total_bytes: 0, file_count: 0 }
    }

    /// Accepts an entry of `size` bytes, or refuses it: an entry bigger than
    /// the size cap, a running total over it, or an entry count over the
    /// entry cap.
    pub fn accept_entry(&mut self, size: u64) -> (r: Result<(), String>)
        ensures
            *final(self) == entry_outcome(*old(self), size).0,
            r is Ok <==> entry_outcome(*old(self), size).1 is None,
            r matches Err(m) ==> entry_outcome(*old(self), size).1 == Some(m@),
    {
        if size > self.limits.max_bytes {
            let mut m = owned("tar entry exceeds max size: ");
            let a = decimal_string(size);
            push_str(&mut m, a.as_str());
            push_str(&mut m, " > ");
            let b = decimal_string(self.limits.max_bytes);
            push_str(&mut m, b.as_str());
            return Err(m);
        }
        self.total_bytes = match self.total_bytes.checked_add(size) {
            Some(t) => t,
            None => u64::MAX,
        };
        if self.total_bytes > self.limits.max_bytes {
            let mut m = owned("total decompressed size ");
            let a = decimal_string(self.total_bytes);
            push_str(&mut m, a.as_str());
            push_str(&mut m, " exceeds ");
            let b = decimal_string(self.limits.max_bytes);
            push_str(&mut m, b.as_str());
            return Err(m);
        }
        self.file_count = match self.file_count.checked_add(1) {
            Some(c) => c,
            None => usize::MAX,
        };
        if self.file_count > self.limits.max_files {
            let mut m = owned("file count exceeds max: ");
            let a = decimal_string(self.file_count as u64);
            push_str(&mut m, a.as_str());
            push_str(&mut m, " > ");
            let b = decimal_string(self.limits.max_files as u64);
            push_str(&mut m, b.as_str());
            return Err(m);
        }
        Ok(())
    }
}

/// Whether a link target escapes the rootfs: absolute, or with `..` in it.
pub open spec fn escapes_rootfs(link: Seq<char>) -> bool {
    has_prefix(link, "/"@) || has_substring(link, ".."@)
}

/// Refuses a symlink or hardlink whose target escapes the rootfs.
pub fn check_link(link: &str) -> (r: Result<(), String>)
    ensures
        r is Ok <==> !escapes_rootfs(link@),
        r matches Err(m) ==> m@ == "symlink/hardlink target escapes rootfs: "@ + link@,
{
    if crate::text::str_starts_with(link, "/") || str_contains(link, "..") {
        let mut m = owned("symlink/hardlink target escapes rootfs: ");
        push_str(&mut m, link);
        return Err(m);
    }
    Ok(())
}

/// The message refusing a link that escapes the rootfs.
pub open spec fn escape_message(link: Seq<char>) -> Seq<char> {
    "symlink/hardlink target escapes rootfs: "@ + link
}

/// The refusal of a link target, if it escapes the rootfs.
pub open spec fn link_refusal(link: Option<Seq<char>>) -> Option<Seq<char>> {
    match link {
        Some(l) => if escapes_rootfs(l) {
            Some(escape_message(l))
        } else {
            None
        },
        None => None,
    }
}

/// One tar entry of a full extraction (and of the background pass of a lazy
/// one), with its size and, for a link, its target: it counts against the
/// limits, a link must not escape the rootfs, and then it is unpacked.
pub fn full_entry_step(guard: &mut ExtractGuard, size: u64, link: Option<&str>) -> (r: Result<(), String>)
    ensures
        *final(guard) == entry_outcome(*old(guard), size).0,
        entry_outcome(*old(guard), size).1 matches Some(m) ==> (r matches Err(e) && e@ == m),
        entry_outcome(*old(guard), size).1 is None ==> match link_refusal(opt_view(link)) {
            Some(m) => r matches Err(e) && e@ == m,
            None => r is Ok,
        },
{
    guard.accept_entry(size)?;
    match link {
        Some(l) => check_link(l),
        None => Ok(()),
    }
}

/// What a lazy extraction does with an entry.
#[derive(Debug, Clone, Copy, PartialEq, Eq, Structural)]
pub enum EntryAction {
    /// Unpack it now: it is a priority file.
    Unpack,
    /// Leave it to the background pass.
    Skip,
}

/// One tar entry of the priority pass of a lazy extraction, at `path`: it
/// counts against the limits; a non-priority entry is skipped; a priority
/// link must not escape the rootfs; a priority entry is crossed off and
/// unpacked.
pub fn lazy_entry_step(
    guard: &mut ExtractGuard,
    pending: &mut PrioritySet,
    size: u64,
    path: &str,
    link: Option<&str>,
) -> (r: Result<EntryAction, String>)
    ensures
        *final(guard) == entry_outcome(*old(guard), size).0,
        entry_outcome(*old(guard), size).1 matches Some(m) ==> (r matches Err(e) && e@ == m
            && final(pending)@ == old(pending)@),
        entry_outcome(*old(guard), size).1 is None && !old(pending)@.contains(path@) ==> (r
            == Ok::<EntryAction, String>(EntryAction::Skip) && final(pending)@ == old(pending)@),
        entry_outcome(*old(guard), size).1 is None && old(pending)@.contains(path@) ==> match link_refusal(
            opt_view(link),
        ) {
            Some(m) => r matches Err(e) && e@ == m && final(pending)@ == old(pending)@,
            None => r == Ok::<EntryAction, String>(EntryAction::Unpack) && final(pending)@ == old(
                pending,
            )@.filter(|p: Seq<char>| p != path@),
        },
{
    match guard.accept_entry(size) {
        Ok(()) => {},
        Err(e) => {
            return Err(e);
        },
    }
    if !pending.contains(path) {
        return Ok(EntryAction::Skip);
    }
    match link {
        Some(l) => {
            match check_link(l) {
                Ok(()) => {},
                Err(e) => {
                    return Err(e);
                },
            }
        },
        None => {},
    }
    pending.remove(path);
    Ok(EntryAction::Unpack)
}

/// The paths of a lazy extraction that must be extracted before launch,
/// crossed off as they are found in the payload.
#[derive(Debug, Clone)]
pub struct PrioritySet {
    pending: Vec<String>,
}

impl PrioritySet {
    /// The paths still pending.
    pub closed spec fn view(&self) -> Seq<Seq<char>> {
        string_views(self.pending@)
    }

    /// A set of pending paths.
    pub fn new(paths: &Vec<String>) -> (r: Self)
        ensures
            r@ == string_views(paths@),
    {
        let mut pending: Vec<String> = Vec::new();
        let mut i: usize = 0;
        while i < paths.len()
            invariant
                i <= paths@.len(),
                string_views(pending@) == string_views(paths@).take(i as int),
            decreases paths@.len() - i,
        {
            let ghost before = string_views(pending@);
            let p = paths[i].clone();
            assert(p@ == paths@[i as int]@);
            pending.push(p);
            assert(string_views(pending@) =~= before.push(paths@[i as int]@));
            assert(string_views(pending@) =~= string_views(paths@).take(i + 1));
            i = i + 1;
        }
        assert(string_views(paths@).take(paths@.len() as int) =~= string_views(paths@));
        PrioritySet { pending }
    }

    /// Whether `path` is pending.
    pub fn contains(&self, path: &str) -> (r: bool)
        ensures
            r == self@.contains(path@),
    {
        let n = self.pending.len();
        let mut i: usize = 0;
        while i < n
            invariant
                n == self.pending@.len(),
                i <= n,
                forall|j: int| 0 <= j < i ==> #[trigger] self@[j] != path@,
            decreases n - i,
        {
            if crate::text::str_eq(self.pending[i].as_str(), path) {
                assert(self@[i as int] == path@);
                return true;
            }
            i = i + 1;
        }
        false
    }

    /// Crosses `path` off (every occurrence).
    pub fn remove(&mut self, path: &str)
        ensures
            final(self)@ == old(self)@.filter(|p: Seq<char>| p != path@),
    {
        let ghost old_v = self@;
        let mut kept: Vec<String> = Vec::new();
        let n = self.pending.len();
        let mut i: usize = 0;
        assert(old_v.take(0) =~= Seq::<Seq<char>>::empty());
        while i < n
            invariant
                n == self.pending@.len(),
                old_v == string_views(self.pending@),
                i <= n,
                string_views(kept@) == old_v.take(i as int).filter(|p: Seq<char>| p != path@),
            decreases n - i,
        {
            proof {
                assert(old_v.take(i + 1).drop_last() =~= old_v.take(i as int));
                reveal(Seq::filter);
            }
            if !crate::text::str_eq(self.pending[i].as_str(), path) {
                kept.push(self.pending[i].clone());
                assert(string_views(kept@) =~= old_v.take(i as int).filter(|p: Seq<char>| p != path@).push(
                    old_v[i as int],
                ));
            }
            i = i + 1;
        }
        assert(old_v.take(n as int) =~= old_v);
        self.pending = kept;
    }

    /// Refuses a lazy extraction that left priority paths unfound.
    pub fn finish(&self) -> (r: Result<(), String>)
        ensures
            r is Ok <==> self@.len() == 0,
            r matches Err(m) ==> m@ == "priority files not found in payload: "@ + joined(self@, ", "@),
    {
        if self.pending.len() == 0 {
            return Ok(());
        }
        let mut m = owned("priority files not found in payload: ");
        let ghost start = m@;
        push_str(&mut m, self.pending[0].as_str());
        assert(self@.take(1).len() == 1);
        let mut i: usize = 1;
        while i < self.pending.len()
            invariant
                1 <= i <= self.pending@.len(),
                m@ == start + joined(self@.take(i as int), ", "@),
            decreases self.pending@.len() - i,
        {
            push_str(&mut m, ", ");
            push_str(&mut m, self.pending[i].as_str());
            assert(self@.take(i + 1).drop_last() =~= self@.take(i as int));
            assert(m@ =~= start + joined(self@.take(i + 1), ", "@));
            i = i + 1;
        }
        assert(self@.take(self@.len() as int) =~= self@);
        Err(m)
    }
}

/// The strings of `v` with `sep` between them.
pub open spec fn joined(v: Seq<Seq<char>>, sep: Seq<char>) -> Seq<char>
    decreases v.len(),
{
    if v.len() == 0 {
        Seq::empty()
    } else if v.len() == 1 {
        v[0]
    } else {
        joined(v.drop_last(), sep) + sep + v.last()
    }
}

/// What the filesystem says of a cache directory.
#[derive(Debug, Clone, Copy)]
pub struct DirProbe {
    pub is_dir: bool,
    pub owner_uid: u32,
    pub mode: u32,
}

/// Whether a cached extraction can be trusted as is: a directory owned by
/// the effective user with no group/other write bits. A cache whose metadata
/// cannot be read is not trusted.
pub open spec fn trustworthy(probe: Option<DirProbe>, euid: u32) -> bool {
    match probe {
        Some(p) => p.is_dir && p.owner_uid == euid && p.mode & 0o022 == 0,
        None => false,
    }
}

/// Whether a cache root can be trusted, given its metadata (`None` when it
/// could not be read) and the effective user id.
pub fn cache_root_trustworthy(probe: Option<DirProbe>, euid: u32) -> (r: bool)
    ensures
        r == trustworthy(probe, euid),
{
    match probe {
        Some(p) => p.is_dir && p.owner_uid == euid && p.mode & 0o022 == 0,
        None => false,
    }
}

/// One classic BPF instruction.
#[derive(Debug, Clone, Copy, PartialEq, Eq, Structural)]
pub struct SockFilter {
    pub code: u16,
    pub jt: u8,
    pub jf: u8,
    pub k: u32,
}

/// `BPF_LD | BPF_W | BPF_ABS`.
pub const BPF_LD_W_ABS: u16 = 0x20;

/// `BPF_JMP | BPF_JEQ | BPF_K`.
pub const BPF_JMP_JEQ_K: u16 = 0x15;

/// `BPF_RET | BPF_K`.
pub const BPF_RET_K: u16 = 0x06;

/// The seccomp verdict that kills the process.
pub const SECCOMP_RET_KILL_PROCESS: u32 = 0x80000000;

/// The seccomp verdict that lets the syscall through.
pub const SECCOMP_RET_ALLOW: u32 = 0x7fff0000;

/// The denylist program for `syscalls` on the architecture `audit_arch`:
/// load the architecture, let any other architecture through, load the
/// syscall number, jump to the kill verdict on each denied number, and let
/// everything else through.
pub open spec fn denylist_program(syscalls: Seq<u32>, audit_arch: u32) -> Seq<SockFilter> {
    let n = syscalls.len();
    let kill_idx = 3 + n;
    let allow_idx = kill_idx + 1;
    seq![
        SockFilter { code: BPF_LD_W_ABS, jt: 0, jf: 0, k: 4 },
        SockFilter { code: BPF_JMP_JEQ_K, jt: 0, jf: (allow_idx - 2) as u8, k: audit_arch },
        SockFilter { code: BPF_LD_W_ABS, jt: 0, jf: 0, k: 0 },
    ] + Seq::new(
        n,
        |i: int|
            SockFilter {
                code: BPF_JMP_JEQ_K,
                jt: (kill_idx - 1 - (3 + i)) as u8,
                jf: if i == n - 1 {
                    (allow_idx - 1 - (3 + i)) as u8
                } else {
                    0u8
                },
                k: syscalls[i],
            },
    ) + seq![
        SockFilter { code: BPF_RET_K, jt: 0, jf: 0, k: SECCOMP_RET_KILL_PROCESS },
        SockFilter { code: BPF_RET_K, jt: 0, jf: 0, k: SECCOMP_RET_ALLOW },
    ]
}

/// Builds the seccomp denylist program for `syscalls`. Jump offsets are
/// single bytes, so at most 250 syscalls fit.
pub fn build_seccomp_filter_for_syscalls(syscalls: &[u32], audit_arch: u32) -> (r: Vec<SockFilter>)
    requires
        syscalls@.len() <= 250,
    ensures
        r@ == denylist_program(syscalls@, audit_arch),
        r@.len() == syscalls@.len() + 5,
        r@[syscalls@.len() as int + 4].k == SECCOMP_RET_ALLOW,
        r@[syscalls@.len() as int + 3].k == SECCOMP_RET_KILL_PROCESS,
        2 + r@[1].jf == syscalls@.len() + 4,
        forall|i: int|
            3 <= i < 3 + syscalls@.len() ==> i + 1 + #[trigger] r@[i].jt == syscalls@.len() + 3,
{
    let n = syscalls.len();
    let kill_idx = 3 + n;
    let allow_idx = kill_idx + 1;
    let ghost spec_prog = denylist_program(syscalls@, audit_arch);
    let mut filter: Vec<SockFilter> = Vec::new();
    filter.push(SockFilter { code: BPF_LD_W_ABS, jt: 0, jf: 0, k: 4 });
    filter.push(SockFilter { code: BPF_JMP_JEQ_K, jt: 0, jf: (allow_idx - 2) as u8, k: audit_arch });
    filter.push(SockFilter { code: BPF_LD_W_ABS, jt: 0, jf: 0, k: 0 });
    let mut i: usize = 0;
    while i < n
        invariant
            n == syscalls@.len(),
            n <= 250,
            kill_idx == 3 + n,
            allow_idx == kill_idx + 1,
            i <= n,
            spec_prog == denylist_program(syscalls@, audit_arch),
            filter@ == spec_prog.take(3 + i),
        decreases n - i,
    {
        let idx = 3 + i;
        let jump_to_kill = (kill_idx - 1 - idx) as u8;
        let jump_to_next: u8 = if i == n - 1 {
            (allow_idx - 1 - idx) as u8
        } else {
            0
        };
        filter.push(SockFilter { code: BPF_JMP_JEQ_K, jt: jump_to_kill, jf: jump_to_next, k: syscalls[i] });
        assert(filter@ =~= spec_prog.take(3 + i + 1));
        i = i + 1;
    }
    filter.push(SockFilter { code: BPF_RET_K, jt: 0, jf: 0, k: SECCOMP_RET_KILL_PROCESS });
    filter.push(SockFilter { code: BPF_RET_K, jt: 0, jf: 0, k: SECCOMP_RET_ALLOW });
    assert(filter@ =~= spec_prog);
    filter
}

/// The syscalls to deny: always the dangerous ones, plus the network family
/// without the `Network` capability and the exec family without `Exec`.
pub open spec fn denied_syscalls(caps: Seq<Capability>, always: Seq<u32>, network: Seq<u32>, exec: Seq<u32>) -> Seq<u32> {
    always + (if caps.contains(Capability::Network) {
        Seq::empty()
    } else {
        network
    }) + (if caps.contains(Capability::Exec) {
        Seq::empty()
    } else {
        exec
    })
}

/// Whether `caps` holds `c`.
fn has_capability(caps: &[Capability], c: Capability) -> (r: bool)
    ensures
        r == caps@.contains(c),
{
    let n = caps.len();
    let mut i: usize = 0;
    while i < n
        invariant
            n == caps@.len(),
            i <= n,
            forall|j: int| 0 <= j < i ==> caps@[j] != c,
        decreases n - i,
    {
        if caps[i] == c {
            return true;
        }
        i = i + 1;
    }
    false
}

/// The syscall numbers a capability set denies, given the platform's
/// always-denied, network and exec families.
pub fn select_denied_syscalls(caps: &[Capability], always: &[u32], network: &[u32], exec: &[u32]) -> (r: Vec<u32>)
    ensures
        r@ == denied_syscalls(caps@, always@, network@, exec@),
{
    let mut v: Vec<u32> = Vec::new();
    crate::sandbox::extend_u32(&mut v, always);
    if !has_capability(caps, Capability::Network) {
        extend_u32(&mut v, network);
    }
    if !has_capability(caps, Capability::Exec) {
        extend_u32(&mut v, exec);
    }
    assert(v@ =~= denied_syscalls(caps@, always@, network@, exec@));
    v
}

/// Appends every number of `src`.
fn extend_u32(out: &mut Vec<u32>, src: &[u32])
    ensures
        final(out)@ == old(out)@ + src@,
{
    let ghost start = out@;
    let mut i: usize = 0;
    while i < src.len()
        invariant
            i <= src@.len(),
            out@ == start + src@.take(i as int),
        decreases src@.len() - i,
    {
        out.push(src[i]);
        assert(out@ =~= start + src@.take(i + 1));
        i = i + 1;
    }
    assert(src@.take(src@.len() as int) =~= src@);
}

/// Landlock access right: write a file.
pub const LANDLOCK_ACCESS_FS_WRITE_FILE: u64 = 2;

/// Landlock access rights: read files and directories.
pub const LANDLOCK_READ_ONLY: u64 = 12;

/// The access granted outside the rootfs: read-only everywhere for a legacy
/// binary without capabilities; read (plus file writes with `WriteFile`) with
/// `ReadFile`; nothing at all otherwise.
pub open spec fn host_access_of(caps: Seq<Capability>) -> Option<u64> {
    if caps.len() == 0 {
        Some(LANDLOCK_READ_ONLY)
    } else if caps.contains(Capability::ReadFile) {
        if caps.contains(Capability::WriteFile) {
            Some(LANDLOCK_READ_ONLY | LANDLOCK_ACCESS_FS_WRITE_FILE)
        } else {
            Some(LANDLOCK_READ_ONLY)
        }
    } else {
        None
    }
}

/// The Landlock access rights of the rule beneath `/`, or `None` for no rule.
pub fn host_access(caps: &[Capability]) -> (r: Option<u64>)
    ensures
        r == host_access_of(caps@),
{
    let has_read = has_capability(caps, Capability::ReadFile);
    let has_write = has_capability(caps, Capability::WriteFile);
    if caps.len() == 0 {
        Some(LANDLOCK_READ_ONLY)
    } else if has_read {
        if has_write {
            Some(LANDLOCK_READ_ONLY | LANDLOCK_ACCESS_FS_WRITE_FILE)
        } else {
            Some(LANDLOCK_READ_ONLY)
        }
    } else {
        None
    }
}

/// Compares two digests without an early exit: every byte pair is folded
/// into the result.
pub fn ct_eq_sha256(got: &[u8; 32], expected: &[u8; 32]) -> (r: Result<(), Error>)
    ensures
        r is Ok <==> got@ == expected@,
        r is Err ==> r == Err::<(), Error>(Error::IntegrityMismatch),
{
    let mut acc: u8 = 0;
    let mut i: usize = 0;
    assert(got@.take(0) =~= expected@.take(0));
    while i < 32
        invariant
            i <= 32,
            acc == 0 <==> got@.take(i as int) == expected@.take(i as int),
        decreases 32 - i,
    {
        let a = got[i];
        let b = expected[i];
        let old_acc = acc;
        acc = acc | (a ^ b);
        assert((old_acc | (a ^ b)) == 0 <==> (old_acc == 0 && a == b)) by (bit_vector);
        assert(got@.take(i + 1) =~= got@.take(i as int).push(a));
        assert(expected@.take(i + 1) =~= expected@.take(i as int).push(b));
        proof {
            if got@.take(i + 1) == expected@.take(i + 1) {
                assert(got@.take(i + 1)[i as int] == expected@.take(i + 1)[i as int]);
                assert(got@.take(i as int) =~= got@.take(i + 1).take(i as int));
                assert(expected@.take(i as int) =~= expected@.take(i + 1).take(i as int));
            }
        }
        i = i + 1;
    }
    assert(got@.take(32) =~= got@);
    assert(expected@.take(32) =~= expected@);
    if acc != 0 {
        return Err(Error::IntegrityMismatch);
    }
    Ok(())
}

/// Checks that `data` hashes to `expected`.
pub fn verify_sha256(data: &[u8], expected: &[u8; 32]) -> (r: Result<(), Error>)
    ensures
        r is Ok <==> sha256(data@) == expected@,
        r is Err ==> r == Err::<(), Error>(Error::IntegrityMismatch),
{
    let got = sha256_digest(data);
    ct_eq_sha256(&got, expected)
}

/// Checks that `part1` followed by `part2` hashes to `expected`.
pub fn verify_sha256_parts(part1: &[u8], part2: &[u8], expected: &[u8; 32]) -> (r: Result<(), Error>)
    ensures
        r is Ok <==> sha256(part1@ + part2@) == expected@,
        r is Err ==> r == Err::<(), Error>(Error::IntegrityMismatch),
{
    let mut buf: Vec<u8> = Vec::new();
    crate::bytes::extend_bytes(&mut buf, part1);
    crate::bytes::extend_bytes(&mut buf, part2);
    let got = sha256_digest(buf.as_slice());
    ct_eq_sha256(&got, expected)
}

/// Whether an argument needs quoting on a Windows command line.
pub open spec fn needs_quotes(arg: Seq<char>) -> bool {
    arg.contains(' ') || arg.contains('\t') || arg.contains('"')
}

/// A Windows command-line argument: quoted, with inner quotes escaped, when
/// it holds a space, a tab or a quote.
pub open spec fn quoted(arg: Seq<char>) -> Seq<char> {
    if needs_quotes(arg) {
        seq!['"'] + replaced(arg, seq!['"'], seq!['\\', '"']) + seq!['"']
    } else {
        arg
    }
}

/// Whether `v` holds `c`.
fn chars_contain(v: &[char], c: char) -> (r: bool)
    ensures
        r == v@.contains(c),
{
    let mut i: usize = 0;
    while i < v.len()
        invariant
            i <= v@.len(),
            forall|j: int| 0 <= j < i ==> v@[j] != c,
        decreases v@.len() - i,
    {
        if v[i] == c {
            return true;
        }
        i = i + 1;
    }
    false
}

/// Quotes one command-line argument.
pub fn quote_arg(arg: &str) -> (r: String)
    ensures
        r@ == quoted(arg@),
{
    let c = chars_of(arg);
    if chars_contain(c.as_slice(), ' ') || chars_contain(c.as_slice(), '\t') || chars_contain(
        c.as_slice(),
        '"',
    ) {
        let pat: Vec<char> = vec!['"'];
        let with: Vec<char> = vec!['\\', '"'];
        assert(pat@ =~= seq!['"']);
        assert(with@ =~= seq!['\\', '"']);
        let inner = replace_all(c.as_slice(), pat.as_slice(), with.as_slice());
        let mut out: Vec<char> = Vec::new();
        out.push('"');
        let mut i: usize = 0;
        while i < inner.len()
            invariant
                i <= inner@.len(),
                out@ == seq!['"'] + inner@.take(i as int),
            decreases inner@.len() - i,
        {
            out.push(inner[i]);
            assert(out@ =~= seq!['"'] + inner@.take(i + 1));
            i = i + 1;
        }
        out.push('"');
        assert(inner@.take(inner@.len() as int) =~= inner@);
        string_from_chars(out.as_slice())
    } else {
        owned(arg)
    }
}

/// The arguments, each quoted, separated by spaces.
pub open spec fn command_line(args: Seq<Seq<char>>) -> Seq<char>
    decreases args.len(),
{
    if args.len() == 0 {
        Seq::empty()
    } else if args.len() == 1 {
        quoted(args[0])
    } else {
        command_line(args.drop_last()) + seq![' '] + quoted(args.last())
    }
}

/// Joins argv into a Windows command line.
pub fn build_command_line(argv: &Vec<String>) -> (r: String)
    ensures
        r@ == command_line(string_views(argv@)),
{
    let n = argv.len();
    let mut out = String::new();
    let ghost v = string_views(argv@);
    if n == 0 {
        assert(out@ =~= command_line(v));
        return out;
    }
    let first = quote_arg(argv[0].as_str());
    push_str(&mut out, first.as_str());
    assert(v.take(1).len() == 1 && v.take(1)[0] == v[0]);
    assert(out@ =~= command_line(v.take(1)));
    let mut i: usize = 1;
    while i < n
        invariant
            n == argv@.len(),
            v == string_views(argv@),
            1 <= i <= n,
            out@ == command_line(v.take(i as int)),
        decreases n - i,
    {
        let q = quote_arg(argv[i].as_str());
        push_str(&mut out, " ");
        push_str(&mut out, q.as_str());
        proof {
            reveal_strlit(" ");
        }
        assert(v.take(i + 1).drop_last() =~= v.take(i as int));
        assert(out@ =~= command_line(v.take(i + 1)));
        i = i + 1;
    }
    assert(v.take(n as int) =~= v);
    out
}

/// The UTF-16 code units of a character.
pub open spec fn utf16_of(c: char) -> Seq<u16> {
    let u = c as u32;
    if u < 0x10000 {
        seq![u as u16]
    } else {
        seq![(0xD800 + (u - 0x10000) / 1024) as u16, (0xDC00 + (u - 0x10000) % 1024) as u16]
    }
}

/// The UTF-16 encoding of a string.
pub open spec fn utf16(s: Seq<char>) -> Seq<u16>
    decreases s.len(),
{
    if s.len() == 0 {
        Seq::empty()
    } else {
        utf16(s.drop_last()) + utf16_of(s.last())
    }
}

/// Appends the UTF-16 encoding of `s`.
fn extend_utf16(out: &mut Vec<u16>, s: &str)
    ensures
        final(out)@ == old(out)@ + utf16(s@),
{
    let c = chars_of(s);
    let ghost start = out@;
    let mut i: usize = 0;
    assert(c@.take(0) =~= Seq::<char>::empty());
    assert(start + Seq::<u16>::empty() =~= start);
    while i < c.len()
        invariant
            i <= c@.len(),
            c@ == s@,
            out@ == start + utf16(c@.take(i as int)),
        decreases c@.len() - i,
    {
        let u = c[i] as u32;
        if u < 0x10000 {
            out.push(u as u16);
        } else {
            let v = u - 0x10000;
            out.push((0xD800 + v / 1024) as u16);
            out.push((0xDC00 + v % 1024) as u16);
        }
        assert(c@.take(i + 1).drop_last() =~= c@.take(i as int));
        assert(out@ =~= start + utf16(c@.take(i + 1)));
        i = i + 1;
    }
    assert(c@.take(c@.len() as int) =~= c@);
}

/// The UTF-16 encoding of `s`, as `str::encode_utf16` yields it.
pub fn to_wide(s: &str) -> (r: Vec<u16>)
    ensures
        r@ == utf16(s@),
{
    let mut v: Vec<u16> = Vec::new();
    extend_utf16(&mut v, s);
    assert(v@ =~= utf16(s@));
    v
}

/// The environment block of the pairs: `KEY=VALUE` and a NUL per pair, in
/// key order, then a final NUL.
pub open spec fn env_block(pairs: Seq<(String, String)>) -> Seq<u16>
    decreases pairs.len(),
{
    if pairs.len() == 0 {
        seq![0u16]
    } else {
        env_block(pairs.drop_last()).drop_last() + utf16(pairs.last().0@ + seq!['='] + pairs.last().1@)
            + seq![0u16, 0u16]
    }
}

/// The UTF-16 environment block of a process.
pub fn build_env_block(env: &StrMap<String>) -> (r: Result<Vec<u16>, Error>)
    ensures
        r matches Ok(b) && b@ == env_block(env@),
{
    let mut block: Vec<u16> = Vec::new();
    let n = env.len();
    let mut i: usize = 0;
    assert(env@.take(0) =~= Seq::<(String, String)>::empty());
    while i < n
        invariant
            n == env@.len(),
            i <= n,
            block@.push(0u16) == env_block(env@.take(i as int)),
        decreases n - i,
    {
        let mut kv = env.key_at(i).clone();
        push_str(&mut kv, "=");
        push_str(&mut kv, env.value_at(i).as_str());
        proof {
            reveal_strlit("=");
        }
        let ghost before = block@;
        extend_utf16(&mut block, kv.as_str());
        block.push(0u16);
        assert(env@.take(i + 1).drop_last() =~= env@.take(i as int));
        assert(env_block(env@.take(i as int)).drop_last() =~= before);
        assert(kv@ =~= env@[i as int].0@ + seq!['='] + env@[i as int].1@);
        assert(block@.push(0u16) =~= env_block(env@.take(i + 1)));
        i = i + 1;
    }
    assert(env@.take(n as int) =~= env@);
    block.push(0u16);
    Ok(block)
}

/// The identity of the source binary recorded next to its extraction
/// cache (`<cache_root>/.source`): its size and modification time in
/// nanoseconds since the Unix epoch.
#[derive(Debug, Clone, Copy, PartialEq, Eq)]
pub struct SourceManifest {
    pub size: u64,
    pub mtime_ns: u128,
}

/// Whether the extraction cache still belongs to the source binary on disk:
/// the recorded identity (`None` where it is missing or unreadable) has the
/// binary's size and modification time. A byte flip that keeps the footer's
/// hash key unchanged still changes one of them.
pub fn source_manifest_matches(recorded: Option<SourceManifest>, expected_size: u64, expected_mtime_ns: u128) -> (r: bool)
    ensures
        r == (recorded matches Some(m) && m.size == expected_size && m.mtime_ns == expected_mtime_ns),
{
    match recorded {
        Some(m) => m.size == expected_size && m.mtime_ns == expected_mtime_ns,
        None => false,
    }
}

} // verus!
