//! The launcher's start-up decisions: the arguments it reserves, which
//! signature checks a binary's layout calls for, how a signature block and a
//! remote update manifest are authenticated, which cached extractions are
//! evicted, and how the health gate reads the first launch of an update.
use crate::detect::{runtime_named, Runtime};
use crate::error::Error;
use crate::hashing::{hex_decode, hex_encode, hex_error_text, hex_lower, hex_value, sha256, sha256_digest};
use crate::launcher::{wexitstatus, wifsignaled, wtermsig, HealthCheckMeta};
use crate::manifest::{decodes_to, encodable};
use crate::paths::{eviction_plan, oldest_entries};
use crate::signing::{ed25519_key_decodes, ed25519_public_decodes, ed25519_verifies, ed25519_verify};
use crate::sisr_stage::{chunk_leaves, merkle_root_spec, remote_error, views32, RemoteManifest};
use crate::text::{decimal, decimal_string, has_prefix, owned, push_str, str_eq, str_starts_with};
use crate::strmap::string_views;
use crate::fspath::opt_view;
use vstd::prelude::*;

verus! {

/// The value following the first occurrence of `flag` among `args`, as
/// `args.windows(2).find(|w| w[0] == flag).map(|w| w[1])` gives it.
pub open spec fn flag_value(args: Seq<Seq<char>>, flag: Seq<char>) -> Option<Seq<char>>
    decreases args.len(),
{
    if args.len() < 2 {
        None
    } else if args[0] == flag {
        Some(args[1])
    } else {
        flag_value(args.drop_first(), flag)
    }
}

/// The value given to `flag` on the command line (`--decrypt-key <file>`).
pub fn flag_argument(args: &Vec<String>, flag: &str) -> (r: Option<String>)
    ensures
        match r {
            Some(v) => flag_value(string_views(args@), flag@) == Some(v@),
            None => flag_value(string_views(args@), flag@) is None,
        },
{
    let ghost av = string_views(args@);
    let n = args.len();
    let mut i: usize = 0;
    assert(av.skip(0) =~= av);
    while n > 0 && i < n - 1
        invariant
            n == args@.len(),
            av == string_views(args@),
            i <= n,
            flag_value(av, flag@) == flag_value(av.skip(i as int), flag@),
        decreases n - i,
    {
        assert(av.skip(i as int)[0] == args@[i as int]@);
        assert(av.skip(i as int)[1] == args@[i + 1]@);
        if str_eq(args[i].as_str(), flag) {
            return Some(owned(args[i + 1].as_str()));
        }
        assert(av.skip(i as int).drop_first() =~= av.skip(i + 1));
        i = i + 1;
    }
    None
}

/// The refusal of metadata naming a runtime the launcher does not know.
pub open spec fn unsupported_runtime_message(name: Seq<char>) -> Seq<char> {
    "unsupported runtime '"@ + name
        + "' in metadata — supported: python, deno, node, electron, java, ruby, dotnet, rust, go, php, perl, hugo, wasm, binary"@
}

/// The runtime metadata names, or the refusal: crafted metadata with an
/// unknown runtime is rejected before any extraction or update work.
pub fn check_runtime(name: &str) -> (r: Result<Runtime, String>)
    ensures
        runtime_named(name@) matches Some(x) ==> r == Ok::<Runtime, String>(x),
        runtime_named(name@) is None ==> (r matches Err(m) && m@ == unsupported_runtime_message(
            name@,
        )),
{
    match Runtime::from_name(name) {
        Some(x) => Ok(x),
        None => {
            let mut m = owned("unsupported runtime '");
            push_str(&mut m, name);
            push_str(
                &mut m,
                "' in metadata — supported: python, deno, node, electron, java, ruby, dotnet, rust, go, php, perl, hugo, wasm, binary",
            );
            Err(m)
        },
    }
}

/// A runtime flag the launcher handles itself, never passing it on.
#[derive(Debug, Clone, Copy, PartialEq, Eq, Structural)]
pub enum RuntimeFlag {
    /// `--daedalus-version`: print versions and exit.
    Version,
    /// `--daedalus-update[=<URL>]` at this argument index: update and exit.
    Update(usize),
    /// Neither: launch the application.
    Launch,
}

/// Whether an argument asks for an update.
pub open spec fn is_update_flag(a: Seq<char>) -> bool {
    a == "--daedalus-update"@ || has_prefix(a, "--daedalus-update="@)
}

/// The reserved flag among the arguments (program name excluded):
/// `--daedalus-version` anywhere wins, else the first update flag.
pub open spec fn runtime_flag_of(args: Seq<Seq<char>>) -> RuntimeFlag {
    if args.contains("--daedalus-version"@) {
        RuntimeFlag::Version
    } else if exists|i: int| 0 <= i < args.len() && is_update_flag(#[trigger] args[i]) {
        RuntimeFlag::Update(
            (choose|i: int|
                0 <= i < args.len() && is_update_flag(args[i]) && forall|j: int|
                    0 <= j < i ==> !is_update_flag(#[trigger] args[j])) as usize,
        )
    } else {
        RuntimeFlag::Launch
    }
}

/// The reserved flag among the arguments.
pub fn runtime_flag(args: &Vec<String>) -> (r: RuntimeFlag)
    ensures
        r == runtime_flag_of(string_views(args@)),
{
    let ghost av = string_views(args@);
    let n = args.len();
    let mut i: usize = 0;
    while i < n
        invariant
            n == args@.len(),
            av == string_views(args@),
            i <= n,
            forall|j: int| 0 <= j < i ==> av[j] != "--daedalus-version"@,
        decreases n - i,
    {
        if str_eq(args[i].as_str(), "--daedalus-version") {
            assert(av[i as int] == "--daedalus-version"@);
            return RuntimeFlag::Version;
        }
        i = i + 1;
    }
    assert(!av.contains("--daedalus-version"@));
    let mut k: usize = 0;
    while k < n
        invariant
            n == args@.len(),
            av == string_views(args@),
            !av.contains("--daedalus-version"@),
            k <= n,
            forall|j: int| 0 <= j < k ==> !is_update_flag(#[trigger] av[j]),
        decreases n - k,
    {
        let a = args[k].as_str();
        if str_eq(a, "--daedalus-update") || str_starts_with(a, "--daedalus-update=") {
            assert(is_update_flag(av[k as int]));
            let ghost c = choose|i: int|
                0 <= i < av.len() && is_update_flag(av[i]) && forall|j: int|
                    0 <= j < i ==> !is_update_flag(#[trigger] av[j]);
            assert(0 <= k < av.len() && is_update_flag(av[k as int]) && forall|j: int|
                0 <= j < k ==> !is_update_flag(#[trigger] av[j]));
            assert(c == k) by {
                if c < k {
                    assert(!is_update_flag(av[c]));
                } else if c > k {
                    assert(!is_update_flag(av[k as int]));
                }
            }
            return RuntimeFlag::Update(k);
        }
        k = k + 1;
    }
    RuntimeFlag::Launch
}

/// Which signature check a binary's layout calls for.
#[derive(Debug, Clone, Copy, PartialEq, Eq, Structural)]
pub enum SignatureCheck {
    /// Verify the Ed25519 signature block.
    Verify,
    /// An unsigned legacy layout: make sure no signature block was left
    /// behind by a downgrade.
    CheckDowngrade,
    /// Nothing to check (a SISR binary authenticates its own section).
    Skip,
}

/// The signature check of a layout. A signature block exists exactly when
/// the format version is at least 3 and the footer records its offset; it
/// must agree with the signed flag, or the file was tampered with.
pub open spec fn signature_check_of(
    format_version: u32,
    sig_offset: u64,
    signed_flag: bool,
    has_sisr: bool,
) -> Result<SignatureCheck, Error> {
    let has_block = format_version >= 3 && sig_offset != 0;
    if has_block != signed_flag {
        Err(Error::InconsistentSignatureState)
    } else if has_block {
        Ok(SignatureCheck::Verify)
    } else if format_version < 3 && !has_sisr {
        Ok(SignatureCheck::CheckDowngrade)
    } else {
        Ok(SignatureCheck::Skip)
    }
}

/// The signature check a layout calls for.
pub fn signature_check(format_version: u32, sig_offset: u64, signed_flag: bool, has_sisr: bool) -> (r:
    Result<SignatureCheck, Error>)
    ensures
        r == signature_check_of(format_version, sig_offset, signed_flag, has_sisr),
{
    let has_block = format_version >= 3 && sig_offset != 0;
    if has_block != signed_flag {
        Err(Error::InconsistentSignatureState)
    } else if has_block {
        Ok(SignatureCheck::Verify)
    } else if format_version < 3 && !has_sisr {
        Ok(SignatureCheck::CheckDowngrade)
    } else {
        Ok(SignatureCheck::Skip)
    }
}

/// The little-endian value of the first four bytes.
pub open spec fn le_u32(b: Seq<u8>) -> int {
    b[0] + b[1] * 256 + b[2] * 65536 + b[3] * 16777216
}

/// Whether some trusted key accepts `sig` over `msg`.
pub open spec fn some_key_accepts(keys: Seq<[u8; 32]>, msg: Seq<u8>, sig: Seq<u8>) -> bool {
    exists|i: int| 0 <= i < keys.len() && ed25519_verifies(#[trigger] keys[i]@, msg, sig)
}

/// Verifies a signature block `[size: u32 LE][signature: 64 bytes]`: the
/// size must be 64, and some trusted key must accept the signature over the
/// SHA-256 digest of `payload ‖ meta ‖ footer` (the footer is covered so a
/// downgrade of its version or flags breaks the signature).
pub fn verify_signature_block(
    block: &[u8; 68],
    payload: &[u8],
    meta: &[u8],
    footer: &[u8],
    keys: &[[u8; 32]],
) -> (r: Result<(), Error>)
    ensures
        le_u32(block@) != 64 ==> r == Err::<(), Error>(Error::InvalidSignatureSize),
        le_u32(block@) == 64 ==> (r is Ok <==> some_key_accepts(
            keys@,
            sha256(payload@ + meta@ + footer@),
            block@.subrange(4, 68),
        )),
        le_u32(block@) == 64 && r is Err ==> r == Err::<(), Error>(
            Error::SignatureVerificationFailed,
        ),
{
    let size: u64 = block[0] as u64 + block[1] as u64 * 256 + block[2] as u64 * 65536 + block[3] as u64
        * 16777216;
    if size != 64 {
        return Err(Error::InvalidSignatureSize);
    }
    assert(le_u32(block@) == 64);
    let mut sig = [0u8; 64];
    let mut i: usize = 0;
    while i < 64
        invariant
            i <= 64,
            forall|j: int| 0 <= j < i ==> sig@[j] == block@[j + 4],
        decreases 64 - i,
    {
        sig[i] = block[i + 4];
        i = i + 1;
    }
    assert(sig@ =~= block@.subrange(4, 68));
    let mut msg: Vec<u8> = Vec::new();
    crate::bytes::extend_bytes(&mut msg, payload);
    crate::bytes::extend_bytes(&mut msg, meta);
    crate::bytes::extend_bytes(&mut msg, footer);
    assert(msg@ =~= payload@ + meta@ + footer@);
    let digest = sha256_digest(msg.as_slice());
    let n = keys.len();
    let mut k: usize = 0;
    while k < n
        invariant
            n == keys@.len(),
            k <= n,
            digest@ == sha256(payload@ + meta@ + footer@),
            sig@ == block@.subrange(4, 68),
            le_u32(block@) == 64,
            forall|j: int| 0 <= j < k ==> !ed25519_verifies(#[trigger] keys@[j]@, digest@, sig@),
        decreases n - k,
    {
        if ed25519_verify(&keys[k], digest.as_slice(), &sig) {
            return Ok(());
        }
        k = k + 1;
    }
    Err(Error::SignatureVerificationFailed)
}

/// A file of the trusted-keys directory.
#[derive(Debug, Clone)]
pub struct KeyFileFact {
    /// Whether the entry is a regular file.
    pub is_file: bool,
    /// Its bytes, when they could be read.
    pub content: Option<Vec<u8>>,
}

/// Whether a trusted-keys entry holds a usable public key: a readable
/// regular file of exactly 32 bytes that decodes as an Ed25519 key.
pub open spec fn usable_key(f: KeyFileFact) -> bool {
    f.is_file && f.content is Some && f.content->0@.len() == 32 && ed25519_public_decodes(
        f.content->0@,
    )
}

/// The usable keys among the entries, in order; malformed entries are
/// skipped so a stray file never disables verification.
pub open spec fn usable_keys(files: Seq<KeyFileFact>) -> Seq<Seq<u8>>
    decreases files.len(),
{
    if files.len() == 0 {
        Seq::empty()
    } else if usable_key(files.last()) {
        usable_keys(files.drop_last()).push(files.last().content->0@)
    } else {
        usable_keys(files.drop_last())
    }
}

/// The trusted public keys among the entries of the trusted-keys directory.
pub fn trusted_keys_from(files: &Vec<KeyFileFact>) -> (r: Vec<[u8; 32]>)
    ensures
        views32(r@) == usable_keys(files@),
{
    let n = files.len();
    let mut keys: Vec<[u8; 32]> = Vec::new();
    let mut i: usize = 0;
    assert(files@.take(0) =~= Seq::<KeyFileFact>::empty());
    while i < n
        invariant
            n == files@.len(),
            i <= n,
            views32(keys@) == usable_keys(files@.take(i as int)),
        decreases n - i,
    {
        assert(files@.take(i + 1).drop_last() =~= files@.take(i as int));
        let f = &files[i];
        if f.is_file {
            match &f.content {
                Some(c) => {
                    if c.len() == 32 {
                        let mut arr = [0u8; 32];
                        let mut j: usize = 0;
                        while j < 32
                            invariant
                                j <= 32,
                                c@.len() == 32,
                                forall|q: int| 0 <= q < j ==> arr@[q] == c@[q],
                            decreases 32 - j,
                        {
                            arr[j] = c[j];
                            j = j + 1;
                        }
                        assert(arr@ =~= c@);
                        if ed25519_key_decodes(&arr) {
                            keys.push(arr);
                            assert(views32(keys@) =~= usable_keys(files@.take(i as int)).push(c@));
                        }
                    }
                },
                None => {},
            }
        }
        i = i + 1;
    }
    assert(files@.take(n as int) =~= files@);
    keys
}

/// Whether the remote manifest parsed from `bytes` is `m`: its header
/// fields and its chunk table.
pub open spec fn parsed_remote(bytes: Seq<u8>, m: RemoteManifest) -> bool {
    &&& m.merkle_root@ == bytes.subrange(8, 40)
    &&& m.signature@ == bytes.subrange(40, 104)
    &&& decodes_to(bytes.skip(104), m.manifest.version, m.manifest.payload_len, m.manifest.chunks@)
}

/// Whether some trusted key signed the manifest.
pub open spec fn signed_by_trusted(m: RemoteManifest, keys: Seq<[u8; 32]>) -> bool {
    exists|i: int|
        0 <= i < keys.len() && (encodable(m.manifest.chunks@) && ed25519_verifies(
            #[trigger] keys[i]@,
            m.merkle_root@ + m.manifest.spec_bytes(),
            m.signature@,
        ))
}

/// Whether the chunk table commits to the manifest's Merkle root.
pub open spec fn merkle_binds(m: RemoteManifest) -> bool {
    merkle_root_spec(chunk_leaves(m.manifest.chunks@)) == m.merkle_root@
}

/// Authenticates an update manifest before any of it is applied: it must
/// parse, carry a signature some trusted key accepts, and its chunk table
/// must commit to its Merkle root.
pub fn authenticate_update(bytes: &[u8], keys: &[[u8; 32]]) -> (r: Result<RemoteManifest, Error>)
    ensures
        remote_error(bytes@) matches Some(e) ==> r == Err::<RemoteManifest, Error>(e),
        remote_error(bytes@) is None ==> match r {
            Ok(m) => parsed_remote(bytes@, m) && signed_by_trusted(m, keys@) && merkle_binds(m),
            Err(e) => exists|m: RemoteManifest|
                #[trigger] parsed_remote(bytes@, m) && (if !signed_by_trusted(m, keys@) {
                    e == Error::UpdateSignatureRejected
                } else {
                    !merkle_binds(m) && e == Error::UpdateMerkleMismatch
                }),
        },
{
    let remote = RemoteManifest::from_bytes(bytes)?;
    if !remote.verify_any(keys) {
        assert(parsed_remote(bytes@, remote) && !signed_by_trusted(remote, keys@));
        return Err(Error::UpdateSignatureRejected);
    }
    if !remote.verify_merkle() {
        assert(parsed_remote(bytes@, remote) && signed_by_trusted(remote, keys@) && !merkle_binds(
            remote,
        ));
        return Err(Error::UpdateMerkleMismatch);
    }
    Ok(remote)
}

/// An entry of the extraction cache.
#[derive(Debug, Clone)]
pub struct CacheEntryFact {
    /// The entry's directory name.
    pub name: String,
    /// Whether its extraction completed (the `.ready` marker exists).
    pub ready: bool,
    /// The marker's modification time (seconds), the LRU signal.
    pub ready_mtime: u64,
}

/// The completed entries, as `(name, marker time)`, in listing order.
pub open spec fn ready_pairs(s: Seq<CacheEntryFact>) -> Seq<(String, u64)>
    decreases s.len(),
{
    if s.len() == 0 {
        Seq::empty()
    } else if s.last().ready {
        ready_pairs(s.drop_last()).push((s.last().name, s.last().ready_mtime))
    } else {
        ready_pairs(s.drop_last())
    }
}

/// How many of `n` completed entries go beyond `max_entries`.
pub open spec fn excess(n: nat, max_entries: usize) -> nat {
    if n > max_entries {
        (n - max_entries) as nat
    } else {
        0
    }
}

/// Whether the pair `p` is the name and marker time of a completed entry.
pub open spec fn from_ready_entry(s: Seq<CacheEntryFact>, p: (String, u64)) -> bool {
    exists|j: int| 0 <= j < s.len() && s[j].ready && s[j].name == p.0 && s[j].ready_mtime == p.1
}

/// Every completed pair comes from a completed entry.
proof fn lemma_ready_pairs_from(s: Seq<CacheEntryFact>)
    ensures
        forall|i: int| 0 <= i < ready_pairs(s).len() ==> from_ready_entry(s, #[trigger] ready_pairs(s)[i]),
    decreases s.len(),
{
    if s.len() > 0 {
        let t = s.drop_last();
        lemma_ready_pairs_from(t);
        let rp = ready_pairs(s);
        assert forall|i: int| 0 <= i < rp.len() implies from_ready_entry(s, #[trigger] rp[i]) by {
            if i < ready_pairs(t).len() {
                assert(rp[i] == ready_pairs(t)[i]);
                assert(from_ready_entry(t, ready_pairs(t)[i]));
                let j = choose|j: int|
                    0 <= j < t.len() && t[j].ready && t[j].name == ready_pairs(t)[i].0
                        && t[j].ready_mtime == ready_pairs(t)[i].1;
                assert(s[j] == t[j]);
                assert(s[j].ready && s[j].name == rp[i].0 && s[j].ready_mtime == rp[i].1);
            } else {
                let j = s.len() - 1;
                assert(s[j] == s.last());
                assert(rp[i] == (s.last().name, s.last().ready_mtime));
                assert(s[j].ready && s[j].name == rp[i].0 && s[j].ready_mtime == rp[i].1);
            }
        }
    }
}

/// The extraction-cache entries to evict: the oldest completed ones beyond
/// `max_entries`, oldest first. Entries without the `.ready` marker are
/// extractions in progress and are never picked.
pub fn gc_plan(entries: &Vec<CacheEntryFact>, max_entries: usize) -> (r: Vec<String>)
    ensures
        ({
            let rp = ready_pairs(entries@);
            let k = excess(rp.len(), max_entries);
            &&& r@.len() == oldest_entries(rp, k).len()
            &&& forall|i: int| 0 <= i < r@.len() ==> #[trigger] r@[i] == oldest_entries(rp, k)[i].0
        }),
        forall|i: int|
            0 <= i < r@.len() ==> exists|j: int|
                0 <= j < entries@.len() && entries@[j].ready && entries@[j].name == #[trigger] r@[i],
{
    let n = entries.len();
    let mut ready: Vec<(String, u64)> = Vec::new();
    let mut i: usize = 0;
    assert(entries@.take(0) =~= Seq::<CacheEntryFact>::empty());
    while i < n
        invariant
            n == entries@.len(),
            i <= n,
            ready@ == ready_pairs(entries@.take(i as int)),
        decreases n - i,
    {
        assert(entries@.take(i + 1).drop_last() =~= entries@.take(i as int));
        let e = &entries[i];
        if e.ready {
            ready.push((e.name.clone(), e.ready_mtime));
        }
        i = i + 1;
    }
    assert(entries@.take(n as int) =~= entries@);
    let r = eviction_plan(&ready, max_entries);
    proof {
        let rp = ready_pairs(entries@);
        let k = excess(rp.len(), max_entries);
        crate::paths::lemma_oldest_entries_from(rp, k);
        lemma_ready_pairs_from(entries@);
        assert forall|i: int| 0 <= i < r@.len() implies exists|j: int|
            0 <= j < entries@.len() && entries@[j].ready && entries@[j].name == #[trigger] r@[i] by {
            let x = oldest_entries(rp, k)[i];
            let q = choose|q: int| 0 <= q < rp.len() && rp[q] == x;
            assert(from_ready_entry(entries@, rp[q]));
            let j = choose|j: int|
                0 <= j < entries@.len() && entries@[j].ready && entries@[j].name == rp[q].0
                    && entries@[j].ready_mtime == rp[q].1;
            assert(entries@[j].name == r@[i]);
        }
    }
    r
}

/// What the launcher does once the binary is verified and extracted.
#[derive(Debug, Clone, Copy, PartialEq, Eq, Structural)]
pub enum LaunchStep {
    /// A freshly updated version not yet validated: run it under the health gate.
    Supervise,
    /// A quarantined version must never run: roll back to the snapshot.
    RollBack,
    /// Start the declared services under supervision.
    RunServices,
    /// Exec the application.
    RunApp,
}

/// The launch step for the version's health record (`pending`: an update
/// awaiting validation; `quarantined`: failed its health check) and whether
/// the metadata declares services.
pub open spec fn launch_step_of(pending: bool, quarantined: bool, has_services: bool) -> LaunchStep {
    if pending {
        LaunchStep::Supervise
    } else if quarantined {
        LaunchStep::RollBack
    } else if has_services {
        LaunchStep::RunServices
    } else {
        LaunchStep::RunApp
    }
}

/// The launch step.
pub fn launch_step(pending: bool, quarantined: bool, has_services: bool) -> (r: LaunchStep)
    ensures
        r == launch_step_of(pending, quarantined, has_services),
{
    if pending {
        LaunchStep::Supervise
    } else if quarantined {
        LaunchStep::RollBack
    } else if has_services {
        LaunchStep::RunServices
    } else {
        LaunchStep::RunApp
    }
}

/// How the first launch of an updated version went, at the end of the
/// health window.
#[derive(Debug, Clone, Copy, PartialEq, Eq, Structural)]
pub enum ChildStatus {
    StillRunning,
    Exited(i32),
    Signaled(i32),
}

/// The health gate's verdict on a first launch.
#[derive(Debug, Clone, Copy, PartialEq, Eq, Structural)]
pub enum GateVerdict {
    /// Confirm the version and drop the snapshot; keep supervising the app
    /// when it is still running, else exit cleanly.
    Healthy { still_running: bool },
    /// Record a failed launch with this exit code and roll back.
    Failed(i32),
}

/// A version is healthy when it survives the window or exits cleanly.
pub open spec fn gate_verdict_of(s: ChildStatus) -> GateVerdict {
    match s {
        ChildStatus::StillRunning => GateVerdict::Healthy { still_running: true },
        ChildStatus::Exited(c) => if c == 0 {
            GateVerdict::Healthy { still_running: false }
        } else {
            GateVerdict::Failed(c)
        },
        ChildStatus::Signaled(c) => GateVerdict::Failed(c),
    }
}

/// The health gate's verdict.
pub fn gate_verdict(s: ChildStatus) -> (r: GateVerdict)
    ensures
        r == gate_verdict_of(s),
{
    match s {
        ChildStatus::StillRunning => GateVerdict::Healthy { still_running: true },
        ChildStatus::Exited(c) => if c == 0 {
            GateVerdict::Healthy { still_running: false }
        } else {
            GateVerdict::Failed(c)
        },
        ChildStatus::Signaled(c) => GateVerdict::Failed(c),
    }
}

/// The status of a child that `waitpid` reports as finished: signalled
/// children report 128 plus the signal, others their exit code.
pub open spec fn finished_status_of(status: i32) -> ChildStatus {
    if 1 <= (status & 0x7f) <= 126 {
        ChildStatus::Signaled((128 + (status & 0x7f)) as i32)
    } else {
        ChildStatus::Exited((status >> 8) & 0xff)
    }
}

/// The status of a finished child from its `waitpid` status.
pub fn finished_status(status: i32) -> (r: ChildStatus)
    ensures
        r == finished_status_of(status),
{
    if wifsignaled(status) {
        let sig = wtermsig(status);
        assert(0 <= status & 0x7f <= 127) by (bit_vector);
        ChildStatus::Signaled(128 + sig)
    } else {
        ChildStatus::Exited(wexitstatus(status))
    }
}

/// The key material of an encrypted payload.
#[derive(Debug, Clone, Copy)]
pub struct DecryptMaterial {
    pub key: [u8; 32],
    pub nonce: [u8; 12],
    pub salt: [u8; 32],
}

/// The decryption key (from `--decrypt-key`, hexadecimal) and the salt and
/// nonce recorded in the metadata, decoded and checked: a 32-byte key, a
/// 32-byte salt and a 12-byte nonce; else the refusal.
pub open spec fn decrypt_material_of(
    key_hex: Option<Seq<char>>,
    salt_hex: Seq<char>,
    nonce_hex: Seq<char>,
) -> Result<(Seq<u8>, Seq<u8>, Seq<u8>), Seq<char>> {
    match key_hex {
        None => Err(
            "payload is encrypted — pass --decrypt-key <32-byte-hex-keyfile> to decrypt"@,
        ),
        Some(k) => match hex_value(k) {
            None => Err("invalid decrypt key hex: "@ + hex_error_text(k)),
            Some(kb) => if kb.len() != 32 {
                Err("decrypt key must be 32 bytes, got "@ + decimal(kb.len()))
            } else {
                match hex_value(salt_hex) {
                    None => Err("bad encryption salt hex: "@ + hex_error_text(salt_hex)),
                    Some(sb) => match hex_value(nonce_hex) {
                        None => Err("bad encryption nonce hex: "@ + hex_error_text(nonce_hex)),
                        Some(nb) => if sb.len() != 32 || nb.len() != 12 {
                            Err("encryption metadata has invalid salt/nonce length"@)
                        } else {
                            Ok((kb, sb, nb))
                        },
                    },
                }
            },
        },
    }
}

/// A fixed-size copy of a byte vector.
fn array32(v: &Vec<u8>) -> (r: [u8; 32])
    requires
        v@.len() == 32,
    ensures
        r@ == v@,
{
    let mut a = [0u8; 32];
    let mut i: usize = 0;
    while i < 32
        invariant
            i <= 32,
            v@.len() == 32,
            forall|j: int| 0 <= j < i ==> a@[j] == v@[j],
        decreases 32 - i,
    {
        a[i] = v[i];
        i = i + 1;
    }
    assert(a@ =~= v@);
    a
}

/// A fixed-size copy of a 12-byte vector.
fn array12(v: &Vec<u8>) -> (r: [u8; 12])
    requires
        v@.len() == 12,
    ensures
        r@ == v@,
{
    let mut a = [0u8; 12];
    let mut i: usize = 0;
    while i < 12
        invariant
            i <= 12,
            v@.len() == 12,
            forall|j: int| 0 <= j < i ==> a@[j] == v@[j],
        decreases 12 - i,
    {
        a[i] = v[i];
        i = i + 1;
    }
    assert(a@ =~= v@);
    a
}

/// `prefix` followed by `rest`.
fn prefixed(prefix: &str, rest: &str) -> (r: String)
    ensures
        r@ == prefix@ + rest@,
{
    let mut m = owned(prefix);
    push_str(&mut m, rest);
    m
}

/// The key material of an encrypted payload, decoded and checked.
pub fn decrypt_material(key_hex: Option<&str>, salt_hex: &str, nonce_hex: &str) -> (r: Result<
    DecryptMaterial,
    String,
>)
    ensures
        match r {
            Ok(m) => decrypt_material_of(opt_view(key_hex), salt_hex@, nonce_hex@) == Ok::<
                (Seq<u8>, Seq<u8>, Seq<u8>),
                Seq<char>,
            >((m.key@, m.salt@, m.nonce@)),
            Err(e) => decrypt_material_of(opt_view(key_hex), salt_hex@, nonce_hex@) == Err::<
                (Seq<u8>, Seq<u8>, Seq<u8>),
                Seq<char>,
            >(e@),
        },
{
    let k = match key_hex {
        Some(k) => k,
        None => {
            return Err(
                owned("payload is encrypted — pass --decrypt-key <32-byte-hex-keyfile> to decrypt"),
            );
        },
    };
    let kb = match hex_decode(k) {
        Ok(v) => v,
        Err(e) => {
            return Err(prefixed("invalid decrypt key hex: ", e.as_str()));
        },
    };
    if kb.len() != 32 {
        let n = decimal_string(kb.len() as u64);
        return Err(prefixed("decrypt key must be 32 bytes, got ", n.as_str()));
    }
    let sb = match hex_decode(salt_hex) {
        Ok(v) => v,
        Err(e) => {
            return Err(prefixed("bad encryption salt hex: ", e.as_str()));
        },
    };
    let nb = match hex_decode(nonce_hex) {
        Ok(v) => v,
        Err(e) => {
            return Err(prefixed("bad encryption nonce hex: ", e.as_str()));
        },
    };
    if sb.len() != 32 || nb.len() != 12 {
        return Err(owned("encryption metadata has invalid salt/nonce length"));
    }
    Ok(DecryptMaterial { key: array32(&kb), nonce: array12(&nb), salt: array32(&sb) })
}

/// The port and endpoint of the health server the metadata asks for: only
/// when the check is enabled on a nonzero port.
pub open spec fn health_server_of(hc: Option<HealthCheckMeta>) -> Option<(u16, Seq<char>)> {
    match hc {
        Some(h) => if h.enabled && h.port > 0 {
            Some((h.port, h.endpoint@))
        } else {
            None
        },
        None => None,
    }
}

/// The health server to start, if any.
pub fn health_server(hc: &Option<HealthCheckMeta>) -> (r: Option<(u16, String)>)
    ensures
        match r {
            Some(p) => health_server_of(*hc) == Some((p.0, p.1@)),
            None => health_server_of(*hc) is None,
        },
{
    match hc {
        Some(h) => if h.enabled && h.port > 0 {
            Some((h.port, owned(h.endpoint.as_str())))
        } else {
            None
        },
        None => None,
    }
}

/// The bytes of a request before its first line feed.
pub open spec fn first_line_bytes(b: Seq<u8>) -> Seq<u8>
    decreases b.len(),
{
    if b.len() == 0 || b[0] == 10u8 {
        Seq::empty()
    } else {
        seq![b[0]] + first_line_bytes(b.drop_first())
    }
}

/// Whether `w` occurs in `s` as a contiguous run.
pub open spec fn contains_run(s: Seq<u8>, w: Seq<u8>) -> bool {
    exists|i: int| 0 <= i && i + w.len() <= s.len() && #[trigger] s.subrange(i, i + w.len()) == w
}

/// Whether a health request is answered `200 OK`: its first line starts
/// with `GET` and holds the endpoint; anything else gets `404`.
pub open spec fn health_ok(request: Seq<u8>, endpoint: Seq<u8>) -> bool {
    let l = first_line_bytes(request);
    l.len() >= 3 && l.take(3) == seq![71u8, 69u8, 84u8] && contains_run(l, endpoint)
}

/// The first line ends at the first line feed.
proof fn lemma_first_line(b: Seq<u8>, k: int)
    requires
        0 <= k <= b.len(),
        forall|j: int| 0 <= j < k ==> b[j] != 10u8,
        k == b.len() || b[k] == 10u8,
    ensures
        first_line_bytes(b) == b.take(k),
    decreases k,
{
    if k == 0 {
        assert(b.take(0) =~= Seq::<u8>::empty());
    } else {
        let t = b.drop_first();
        assert forall|j: int| 0 <= j < k - 1 implies t[j] != 10u8 by {
            assert(t[j] == b[j + 1]);
        }
        if k < b.len() {
            assert(t[k - 1] == b[k]);
        }
        lemma_first_line(t, k - 1);
        assert(seq![b[0]] + t.take(k - 1) =~= b.take(k));
    }
}

/// Whether the health server answers a request `200 OK` (the first 1024
/// bytes read from the connection; `endpoint` is never empty).
pub fn health_request_ok(request: &[u8], endpoint: &[u8]) -> (r: bool)
    requires
        endpoint@.len() > 0,
    ensures
        r == health_ok(request@, endpoint@),
{
    let n = request.len();
    let mut k: usize = 0;
    while k < n && request[k] != 10u8
        invariant
            n == request@.len(),
            k <= n,
            forall|j: int| 0 <= j < k ==> request@[j] != 10u8,
        decreases n - k,
    {
        k = k + 1;
    }
    proof {
        lemma_first_line(request@, k as int);
    }
    let ghost l = request@.take(k as int);
    if k < 3 || request[0] != 71u8 || request[1] != 69u8 || request[2] != 84u8 {
        assert(!(l.len() >= 3 && l.take(3) == seq![71u8, 69u8, 84u8])) by {
            if l.len() >= 3 {
                assert(l.take(3)[0] == request@[0]);
                assert(l.take(3)[1] == request@[1]);
                assert(l.take(3)[2] == request@[2]);
            }
        }
        return false;
    }
    assert(l.take(3) =~= seq![71u8, 69u8, 84u8]);
    let m = endpoint.len();
    if m > k {
        assert(!contains_run(l, endpoint@));
        return false;
    }
    let mut i: usize = 0;
    while i <= k - m
        invariant
            n == request@.len(),
            k <= n,
            m == endpoint@.len(),
            m <= k,
            l == request@.take(k as int),
            first_line_bytes(request@) == l,
            l.len() >= 3 && l.take(3) == seq![71u8, 69u8, 84u8],
            i <= k - m + 1,
            forall|q: int| 0 <= q < i ==> #[trigger] l.subrange(q, q + m) != endpoint@,
        decreases k - i,
    {
        let mut j: usize = 0;
        while j < m && request[i + j] == endpoint[j]
            invariant
                n == request@.len(),
                k <= n,
                m == endpoint@.len(),
                i + m <= k,
                j <= m,
                forall|q: int| 0 <= q < j ==> request@[i + q] == endpoint@[q],
            decreases m - j,
        {
            j = j + 1;
        }
        if j == m {
            assert(l.subrange(i as int, i + m) =~= endpoint@);
            return true;
        }
        assert(l.subrange(i as int, i + m)[j as int] == request@[i + j]);
        i = i + 1;
    }
    assert(!contains_run(l, endpoint@)) by {
        assert forall|q: int| 0 <= q && q + m <= l.len() implies #[trigger] l.subrange(q, q + m) != endpoint@ by {
            assert(q < i);
        }
    }
    false
}

/// Where an update chunk is fetched: `<base>/<lowercase hex of its hash>`.
pub open spec fn chunk_location(base: Seq<char>, hash: Seq<u8>) -> Seq<char> {
    base + "/"@ + hex_lower(hash)
}

/// The URL of an update chunk under the channel's chunk base.
pub fn chunk_url(base: &str, hash: &[u8; 32]) -> (r: String)
    ensures
        r@ == chunk_location(base@, hash@),
{
    let mut u = owned(base);
    push_str(&mut u, "/");
    let h = hex_encode(hash);
    push_str(&mut u, h.as_str());
    u
}

/// A fetched chunk is used only when it has the length the manifest records
/// (its hash is checked when it is applied).
pub fn check_chunk_length(got: usize, expected: usize) -> (r: Result<(), String>)
    ensures
        got == expected <==> r is Ok,
        r matches Err(e) ==> e@ == "fetched chunk length mismatch"@,
{
    if got != expected {
        return Err(owned("fetched chunk length mismatch"));
    }
    Ok(())
}

} // verus!
