//! The SISR build stage — chunk the payload, build the Merkle tree, sign, and
//! package the embedded section and the standalone remote manifest.
use crate::bytes::{extend_bytes, read_array32, read_array64};
use crate::chunker::{bounds_from, lemma_bounds_tile, FastCDC};
use crate::error::Error;
use crate::hashing::{sha256, sha256_digest};
use crate::manifest::{decodes_to, encodable, encoding, manifest_error, well_formed, ChunkEntry, DeltaManifest, ENTRY_SIZE, HEADER_SIZE, VERSION};
use crate::signing::{ed25519_public_key, ed25519_sign, ed25519_signature, ed25519_verifies, ed25519_verify};
use vstd::prelude::*;
use vstd::slice::slice_subrange;

verus! {

/// Version of the remote manifest schema understood by this crate.
pub const REMOTE_VERSION: u8 = 1;

/// Fixed bytes before the embedded manifest in a remote manifest file:
/// magic (4) + version (1) + reserved (3) + merkle root (32) + signature (64).
pub const REMOTE_HEADER_SIZE: usize = 104;

/// Build options for the SISR stage.
#[derive(Debug, Clone, Copy)]
pub struct SisrBuildConfig {
    /// Set to inject a SISR section; clear keeps the classic layout.
    pub enabled: bool,
    /// Average content-defined chunk size (e.g. 64 KiB).
    pub chunk_target_size: usize,
    /// Optional 32-byte Ed25519 secret key to sign the manifest.
    pub signing_key: Option<[u8; 32]>,
}

impl SisrBuildConfig {
    /// A disabled SISR config — the packager produces a classic binary.
    pub fn disabled() -> (c: Self)
        ensures
            !c.enabled,
            c.chunk_target_size == 8192,
            c.signing_key is None,
    {
        SisrBuildConfig { enabled: false, chunk_target_size: 8192, signing_key: None }
    }
}

/// Result of the SISR stage, ready for injection into a binary.
#[derive(Debug)]
pub struct SisrArtifacts {
    pub manifest: DeltaManifest,
    pub manifest_bytes: Vec<u8>,
    pub merkle_root: [u8; 32],
    pub signature: [u8; 64],
}

/// Self-contained, signed remote manifest (the `.erebus.manifest` file).
#[derive(Debug, Clone, PartialEq, Eq)]
pub struct RemoteManifest {
    pub merkle_root: [u8; 32],
    pub signature: [u8; 64],
    pub manifest: DeltaManifest,
}

/// The magic bytes `XBMR` of a remote manifest.
pub open spec fn remote_magic() -> Seq<u8> {
    seq![0x58u8, 0x42u8, 0x4du8, 0x52u8]
}

/// The standalone file form of a remote manifest.
pub open spec fn remote_encoding(root: Seq<u8>, sig: Seq<u8>, manifest_bytes: Seq<u8>) -> Seq<u8> {
    remote_magic() + seq![REMOTE_VERSION, 0u8, 0u8, 0u8] + root + sig + manifest_bytes
}

/// Why a remote manifest buffer is refused, if it is.
pub open spec fn remote_error(bytes: Seq<u8>) -> Option<Error> {
    if bytes.len() < REMOTE_HEADER_SIZE {
        Some(Error::TruncatedRemoteHeader)
    } else if bytes.subrange(0, 4) != remote_magic() {
        Some(Error::BadRemoteMagic)
    } else if bytes[4] > REMOTE_VERSION {
        Some(Error::UnsupportedRemoteVersion)
    } else if !well_formed(bytes.skip(104)) {
        Some(manifest_error(bytes.skip(104)))
    } else {
        None
    }
}

/// One internal node: the hash of a pair, the last node paired with itself.
pub open spec fn merkle_parent(level: Seq<Seq<u8>>, j: int) -> Seq<u8> {
    let a = level[2 * j];
    let b = if 2 * j + 1 < level.len() {
        level[2 * j + 1]
    } else {
        a
    };
    sha256(a + b)
}

/// The level above `level` in the Merkle tree.
pub open spec fn next_level(level: Seq<Seq<u8>>) -> Seq<Seq<u8>> {
    Seq::new(((level.len() + 1) / 2) as nat, |j: int| merkle_parent(level, j))
}

/// The root of the tree built over `level`.
pub open spec fn reduce_levels(level: Seq<Seq<u8>>) -> Seq<u8>
    decreases level.len(),
{
    if level.len() == 0 {
        sha256(Seq::empty())
    } else if level.len() == 1 {
        level[0]
    } else {
        reduce_levels(next_level(level))
    }
}

/// Merkle root over leaf hashes: pairs hashed level by level, the last hash
/// duplicated on an odd level; a single leaf is its own root and an empty
/// tree hashes the empty input.
pub open spec fn merkle_root_spec(leaves: Seq<Seq<u8>>) -> Seq<u8> {
    reduce_levels(leaves)
}

/// The byte views of a list of 32-byte hashes.
pub open spec fn views32(s: Seq<[u8; 32]>) -> Seq<Seq<u8>> {
    Seq::new(s.len(), |i: int| s[i]@)
}

/// The leaves of a chunk table: its chunk hashes.
pub open spec fn chunk_leaves(chunks: Seq<ChunkEntry>) -> Seq<Seq<u8>> {
    Seq::new(chunks.len(), |i: int| chunks[i].hash@)
}

/// The content-defined pieces `chunk_payload` cuts a payload into.
pub open spec fn payload_bounds(payload: Seq<u8>, target: usize) -> Seq<(int, int)> {
    bounds_from(
        payload,
        0,
        (target / 4) as int,
        target as int,
        if target * 4 > usize::MAX {
            usize::MAX as int
        } else {
            target * 4
        },
    )
}

/// Whether `chunks` are the entries for the pieces `bounds` of `payload`.
pub open spec fn entries_for(chunks: Seq<ChunkEntry>, bounds: Seq<(int, int)>, payload: Seq<u8>) -> bool {
    &&& chunks.len() == bounds.len()
    &&& forall|i: int|
        0 <= i < chunks.len() ==> {
            &&& #[trigger] chunks[i].length == bounds[i].1
            &&& chunks[i].hash@ == sha256(payload.subrange(bounds[i].0, bounds[i].0 + bounds[i].1))
        }
}

/// The total length of the first `i` chunks: where chunk `i` starts when
/// the chunks are laid end to end from offset 0.
pub open spec fn lengths_before(chunks: Seq<ChunkEntry>, i: int) -> int
    decreases i,
{
    if i <= 0 {
        0
    } else {
        lengths_before(chunks, i - 1) + chunks[i - 1].length
    }
}

/// The chunk table of the SISR stage tiles the payload: laid end to end from
/// offset 0, each chunk hashes the bytes it covers, and together they end
/// exactly at the payload's end; no chunk is longer than four times the
/// target size.
pub proof fn lemma_chunks_tile_payload(payload: Seq<u8>, target: usize, chunks: Seq<ChunkEntry>)
    requires
        target >= 4,
        entries_for(chunks, payload_bounds(payload, target), payload),
    ensures
        lengths_before(chunks, chunks.len() as int) == payload.len(),
        forall|i: int|
            0 <= i < chunks.len() ==> #[trigger] chunks[i].hash@ == sha256(
                payload.subrange(lengths_before(chunks, i), lengths_before(chunks, i) + chunks[i].length),
            ),
        forall|i: int| 0 <= i < chunks.len() ==> #[trigger] chunks[i].length <= 4 * target,
{
    let b = payload_bounds(payload, target);
    let max: int = if target * 4 > usize::MAX { usize::MAX as int } else { target * 4 };
    lemma_bounds_tile(payload, 0, (target / 4) as int, target as int, max);
    assert forall|i: int| 0 <= i <= chunks.len() implies lengths_before(chunks, i) == if i < chunks.len() {
        b[i].0
    } else {
        payload.len() as int
    } by {
        lemma_offsets_from(payload, target, chunks, i);
    }
    assert forall|i: int| 0 <= i < chunks.len() implies #[trigger] chunks[i].hash@ == sha256(
        payload.subrange(lengths_before(chunks, i), lengths_before(chunks, i) + chunks[i].length),
    ) by {
        assert(chunks[i].length == b[i].1);
    }
    assert forall|i: int| 0 <= i < chunks.len() implies #[trigger] chunks[i].length <= 4 * target by {
        assert(chunks[i].length == b[i].1);
    }
}

proof fn lemma_offsets_from(payload: Seq<u8>, target: usize, chunks: Seq<ChunkEntry>, i: int)
    requires
        target >= 4,
        entries_for(chunks, payload_bounds(payload, target), payload),
        0 <= i <= chunks.len(),
    ensures
        lengths_before(chunks, i) == if i < chunks.len() {
            payload_bounds(payload, target)[i].0
        } else {
            payload.len() as int
        },
    decreases i,
{
    let b = payload_bounds(payload, target);
    let max: int = if target * 4 > usize::MAX { usize::MAX as int } else { target * 4 };
    lemma_bounds_tile(payload, 0, (target / 4) as int, target as int, max);
    if i > 0 {
        lemma_offsets_from(payload, target, chunks, i - 1);
        assert(chunks[i - 1].length == b[i - 1].1);
        if i < chunks.len() {
            assert(b[(i - 1) + 1].0 == b[i - 1].0 + b[i - 1].1);
        }
    } else if chunks.len() == 0 {
        assert(b.len() == 0);
    }
}

/// Whether every piece of `payload` fits a manifest entry.
pub open spec fn pieces_fit(payload: Seq<u8>, target: usize) -> bool {
    forall|i: int|
        0 <= i < payload_bounds(payload, target).len() ==> #[trigger] payload_bounds(payload, target)[i].1
            <= u32::MAX
}

/// Why the SISR stage refuses a payload, checked in this order: a chunk size
/// under 4, a piece too long for an entry, a chunk table too large to
/// serialize; `None` when it succeeds.
pub open spec fn build_refusal(payload: Seq<u8>, target: usize) -> Option<Error> {
    if target < 4 {
        Some(Error::InvalidAverageChunkSize)
    } else if !pieces_fit(payload, target) {
        Some(Error::ChunkTooLong)
    } else if !(payload_bounds(payload, target).len() <= u32::MAX && HEADER_SIZE + ENTRY_SIZE
        * payload_bounds(payload, target).len() <= usize::MAX) {
        Some(Error::ManifestTooLarge)
    } else {
        None
    }
}

/// The inputs on which the SISR stage succeeds: a usable chunk size, pieces
/// that fit an entry, and a chunk table small enough to serialize.
pub open spec fn buildable(payload: Seq<u8>, target: usize) -> bool {
    &&& target >= 4
    &&& pieces_fit(payload, target)
    &&& payload_bounds(payload, target).len() <= u32::MAX
    &&& HEADER_SIZE + ENTRY_SIZE * payload_bounds(payload, target).len() <= usize::MAX
}

impl RemoteManifest {
    /// Serializes the remote manifest into its standalone file form.
    pub fn to_bytes(&self) -> (r: Result<Vec<u8>, Error>)
        ensures
            encodable(self.manifest.chunks@) ==> (r matches Ok(v) && v@ == remote_encoding(
                self.merkle_root@,
                self.signature@,
                self.manifest.spec_bytes(),
            )),
            !encodable(self.manifest.chunks@) ==> r == Err::<Vec<u8>, Error>(
                Error::ManifestTooLarge,
            ),
    {
        let manifest_bytes = self.manifest.serialize()?;
        let mut out: Vec<u8> = Vec::new();
        out.push(0x58u8);
        out.push(0x42u8);
        out.push(0x4du8);
        out.push(0x52u8);
        out.push(REMOTE_VERSION);
        out.push(0u8);
        out.push(0u8);
        out.push(0u8);
        extend_bytes(&mut out, &self.merkle_root);
        extend_bytes(&mut out, &self.signature);
        extend_bytes(&mut out, manifest_bytes.as_slice());
        assert(out@ =~= remote_encoding(
            self.merkle_root@,
            self.signature@,
            self.manifest.spec_bytes(),
        ));
        Ok(out)
    }

    /// Parses a remote manifest from a complete file buffer.
    pub fn from_bytes(bytes: &[u8]) -> (r: Result<Self, Error>)
        ensures
            remote_error(bytes@) matches Some(e) ==> r == Err::<Self, Error>(e),
            remote_error(bytes@) is None ==> (r matches Ok(m) && m.merkle_root@ == bytes@.subrange(
                8,
                40,
            ) && m.signature@ == bytes@.subrange(40, 104) && decodes_to(
                bytes@.skip(104),
                m.manifest.version,
                m.manifest.payload_len,
                m.manifest.chunks@,
            )),
    {
        let len = bytes.len();
        if len < REMOTE_HEADER_SIZE {
            return Err(Error::TruncatedRemoteHeader);
        }
        if !(bytes[0] == 0x58u8 && bytes[1] == 0x42u8 && bytes[2] == 0x4du8 && bytes[3] == 0x52u8) {
            assert(bytes@.subrange(0, 4) != remote_magic()) by {
                if bytes@.subrange(0, 4) == remote_magic() {
                    assert(bytes@.subrange(0, 4)[0] == bytes@[0]);
                    assert(bytes@.subrange(0, 4)[1] == bytes@[1]);
                    assert(bytes@.subrange(0, 4)[2] == bytes@[2]);
                    assert(bytes@.subrange(0, 4)[3] == bytes@[3]);
                }
            }
            return Err(Error::BadRemoteMagic);
        }
        assert(bytes@.subrange(0, 4) =~= remote_magic());
        if bytes[4] > REMOTE_VERSION {
            return Err(Error::UnsupportedRemoteVersion);
        }
        let merkle_root = read_array32(bytes, 8);
        let signature = read_array64(bytes, 40);
        let rest = slice_subrange(bytes, REMOTE_HEADER_SIZE, len);
        assert(rest@ =~= bytes@.skip(104));
        let manifest = DeltaManifest::parse(rest)?;
        Ok(RemoteManifest { merkle_root, signature, manifest })
    }

    /// Verifies the Ed25519 signature over `merkle_root ‖ manifest` against `public`.
    pub fn verify_signature(&self, public: &[u8; 32]) -> (ok: bool)
        ensures
            ok == (encodable(self.manifest.chunks@) && ed25519_verifies(
                public@,
                self.merkle_root@ + self.manifest.spec_bytes(),
                self.signature@,
            )),
    {
        let manifest_bytes = match self.manifest.serialize() {
            Ok(b) => b,
            Err(_) => {
                return false;
            },
        };
        let msg = signing_message(&self.merkle_root, manifest_bytes.as_slice());
        ed25519_verify(public, msg.as_slice(), &self.signature)
    }

    /// Verifies the signature against any key in `publics`: an update is
    /// accepted when any trusted key signed it.
    pub fn verify_any(&self, publics: &[[u8; 32]]) -> (ok: bool)
        ensures
            ok == exists|i: int|
                0 <= i < publics@.len() && (encodable(self.manifest.chunks@) && ed25519_verifies(
                    #[trigger] publics@[i]@,
                    self.merkle_root@ + self.manifest.spec_bytes(),
                    self.signature@,
                )),
    {
        let n = publics.len();
        let mut i: usize = 0;
        while i < n
            invariant
                n == publics@.len(),
                i <= n,
                forall|j: int|
                    0 <= j < i ==> !(encodable(self.manifest.chunks@) && ed25519_verifies(
                        #[trigger] publics@[j]@,
                        self.merkle_root@ + self.manifest.spec_bytes(),
                        self.signature@,
                    )),
            decreases n - i,
        {
            if self.verify_signature(&publics[i]) {
                return true;
            }
            i = i + 1;
        }
        false
    }

    /// Verifies that the chunk table commits to the stored Merkle root.
    pub fn verify_merkle(&self) -> (ok: bool)
        ensures
            ok == (merkle_root_spec(chunk_leaves(self.manifest.chunks@)) == self.merkle_root@),
    {
        let root = merkle_root_of(&self.manifest);
        let mut i: usize = 0;
        while i < 32
            invariant
                i <= 32,
                root@ == merkle_root_spec(chunk_leaves(self.manifest.chunks@)),
                forall|j: int| 0 <= j < i ==> root@[j] == self.merkle_root@[j],
            decreases 32 - i,
        {
            if root[i] != self.merkle_root[i] {
                return false;
            }
            i = i + 1;
        }
        assert(root@ =~= self.merkle_root@);
        true
    }
}

/// A remote manifest file parses back to the manifest it was written from.
pub proof fn lemma_remote_roundtrip(root: Seq<u8>, sig: Seq<u8>, version: u16, payload_len: u64, chunks: Seq<ChunkEntry>)
    requires
        root.len() == 32,
        sig.len() == 64,
        version <= VERSION,
        chunks.len() <= u32::MAX,
    ensures
        ({
            let bytes = remote_encoding(root, sig, encoding(version, payload_len, chunks));
            &&& remote_error(bytes) is None
            &&& bytes.subrange(8, 40) == root
            &&& bytes.subrange(40, 104) == sig
            &&& decodes_to(bytes.skip(104), version, payload_len, chunks)
        }),
{
    let m = encoding(version, payload_len, chunks);
    let bytes = remote_encoding(root, sig, m);
    crate::manifest::lemma_encoding_decodes(version, payload_len, chunks);
    assert(bytes.subrange(0, 4) =~= remote_magic());
    assert(bytes.skip(104) =~= m);
    assert(bytes.subrange(8, 40) =~= root);
    assert(bytes.subrange(40, 104) =~= sig);
}

/// Writing a remote manifest and parsing it back gives the same manifest:
/// for `m` whose chunk table fits the format and whose inner manifest version
/// is one this crate reads, whatever `from_bytes` may return on the bytes
/// `to_bytes` writes (as their contracts state them) has `m`'s root,
/// signature, version, payload length and chunk table.
pub proof fn lemma_remote_manifest_roundtrip(m: RemoteManifest, out: RemoteManifest)
    requires
        m.manifest.version <= VERSION,
        encodable(m.manifest.chunks@),
        ({
            let bytes = remote_encoding(m.merkle_root@, m.signature@, m.manifest.spec_bytes());
            &&& out.merkle_root@ == bytes.subrange(8, 40)
            &&& out.signature@ == bytes.subrange(40, 104)
            &&& decodes_to(bytes.skip(104), out.manifest.version, out.manifest.payload_len, out.manifest.chunks@)
        }),
    ensures
        remote_error(remote_encoding(m.merkle_root@, m.signature@, m.manifest.spec_bytes())) is None,
        out.merkle_root == m.merkle_root,
        out.signature == m.signature,
        out.manifest.version == m.manifest.version,
        out.manifest.payload_len == m.manifest.payload_len,
        out.manifest.chunks@ == m.manifest.chunks@,
{
    lemma_remote_roundtrip(
        m.merkle_root@,
        m.signature@,
        m.manifest.version,
        m.manifest.payload_len,
        m.manifest.chunks@,
    );
    let bytes = remote_encoding(m.merkle_root@, m.signature@, m.manifest.spec_bytes());
    crate::manifest::lemma_decoding_unique(
        bytes.skip(104),
        out.manifest.version,
        out.manifest.payload_len,
        out.manifest.chunks@,
        m.manifest.version,
        m.manifest.payload_len,
        m.manifest.chunks@,
    );
    assert(out.merkle_root@ =~= m.merkle_root@);
    assert(out.signature@ =~= m.signature@);
    vstd::array::axiom_array_ext_equal(out.merkle_root, m.merkle_root);
    vstd::array::axiom_array_ext_equal(out.signature, m.signature);
}

/// Merkle root over chunk content hashes.
pub fn merkle_root(leaves: &[[u8; 32]]) -> (root: [u8; 32])
    ensures
        root@ == merkle_root_spec(views32(leaves@)),
{
    let n = leaves.len();
    if n == 0 {
        let empty: Vec<u8> = Vec::new();
        let r = sha256_digest(empty.as_slice());
        assert(empty@ =~= Seq::<u8>::empty());
        return r;
    }
    let mut level: Vec<[u8; 32]> = Vec::new();
    let mut k: usize = 0;
    while k < n
        invariant
            n == leaves@.len(),
            k <= n,
            level@ =~= leaves@.subrange(0, k as int),
        decreases n - k,
    {
        level.push(leaves[k]);
        k = k + 1;
    }
    assert(views32(level@) =~= views32(leaves@));
    while level.len() > 1
        invariant
            level@.len() >= 1,
            reduce_levels(views32(level@)) == reduce_levels(views32(leaves@)),
        decreases level@.len(),
    {
        let len = level.len();
        let ghost cur = views32(level@);
        let mut next: Vec<[u8; 32]> = Vec::new();
        let half = len / 2 + len % 2;
        let mut j: usize = 0;
        while j < half
            invariant
                len == level@.len(),
                len >= 2,
                half == (len + 1) / 2,
                cur == views32(level@),
                j <= half,
                next@.len() == j,
                forall|k: int| 0 <= k < next@.len() ==> #[trigger] next@[k]@ == merkle_parent(cur, k),
            decreases half - j,
        {
            let i = 2 * j;
            let a = level[i];
            let b = if i + 1 < len {
                level[i + 1]
            } else {
                a
            };
            let mut buf: Vec<u8> = Vec::new();
            extend_bytes(&mut buf, &a);
            extend_bytes(&mut buf, &b);
            let h = sha256_digest(buf.as_slice());
            proof {
                assert(cur[i as int] == a@);
                if i + 1 < len {
                    assert(cur[i + 1] == b@);
                }
                assert(h@ == merkle_parent(cur, j as int));
            }
            next.push(h);
            j = j + 1;
        }
        assert(views32(next@) =~= next_level(cur));
        level = next;
    }
    level[0]
}

/// Merkle root of the chunk hashes referenced by `manifest`.
pub fn merkle_root_of(manifest: &DeltaManifest) -> (root: [u8; 32])
    ensures
        root@ == merkle_root_spec(chunk_leaves(manifest.chunks@)),
{
    let n = manifest.chunks.len();
    let mut leaves: Vec<[u8; 32]> = Vec::new();
    let mut i: usize = 0;
    while i < n
        invariant
            n == manifest.chunks@.len(),
            i <= n,
            leaves@.len() == i,
            forall|j: int| 0 <= j < i ==> #[trigger] leaves@[j] == manifest.chunks@[j].hash,
        decreases n - i,
    {
        leaves.push(manifest.chunks[i].hash);
        i = i + 1;
    }
    assert(views32(leaves@) =~= chunk_leaves(manifest.chunks@));
    merkle_root(leaves.as_slice())
}

/// Splits the payload into content-addressed chunks around `target_size`.
pub fn chunk_payload(payload: &[u8], target_size: usize) -> (r: Result<Vec<ChunkEntry>, Error>)
    ensures
        target_size < 4 ==> r == Err::<Vec<ChunkEntry>, Error>(Error::InvalidAverageChunkSize),
        target_size >= 4 && pieces_fit(payload@, target_size) ==> (r matches Ok(v) && entries_for(
            v@,
            payload_bounds(payload@, target_size),
            payload@,
        )),
        target_size >= 4 && !pieces_fit(payload@, target_size) ==> r == Err::<Vec<ChunkEntry>, Error>(
            Error::ChunkTooLong,
        ),
{
    let chunker = FastCDC::new(target_size)?;
    let pieces = chunker.chunk(payload);
    let ghost b = payload_bounds(payload@, target_size);
    assert(b == chunker.spec_bounds(payload@));
    let n = pieces.len();
    let mut out: Vec<ChunkEntry> = Vec::new();
    let mut i: usize = 0;
    while i < n
        invariant
            n == pieces@.len(),
            n == b.len(),
            target_size >= 4,
            b == payload_bounds(payload@, target_size),
            i <= n,
            crate::chunker::describes(pieces@, b, payload@),
            out@.len() == i,
            forall|j: int| 0 <= j < i ==> #[trigger] b[j].1 <= u32::MAX,
            forall|j: int|
                0 <= j < i ==> {
                    &&& #[trigger] out@[j].length == b[j].1
                    &&& out@[j].hash@ == sha256(payload@.subrange(b[j].0, b[j].0 + b[j].1))
                },
        decreases n - i,
    {
        let piece = pieces[i];
        assert(pieces@[i as int].offset == b[i as int].0);
        assert(piece.length == b[i as int].1);
        if piece.length > 0xFFFF_FFFFusize {
            assert(!pieces_fit(payload@, target_size));
            return Err(Error::ChunkTooLong);
        }
        assert(piece.hash@ == sha256(payload@.subrange(b[i as int].0, b[i as int].0 + b[i as int].1)));
        let ghost before = out@;
        out.push(ChunkEntry { hash: piece.hash, length: piece.length as u32 });
        assert(forall|j: int| 0 <= j < i ==> out@[j] == before[j]);
        assert(out@[i as int].hash@ == piece.hash@);
        i = i + 1;
    }
    assert(entries_for(out@, b, payload@));
    Ok(out)
}

/// Whether `a` is what the SISR stage makes of `payload`: the manifest of
/// its content-defined chunks, its encoding, the Merkle root over the chunk
/// hashes, and the signature over `root ‖ manifest` under the configured key
/// (64 zero bytes without one).
pub open spec fn artifacts_for(a: SisrArtifacts, payload: Seq<u8>, config: SisrBuildConfig) -> bool {
    &&& a.manifest.version == VERSION
    &&& a.manifest.payload_len == payload.len()
    &&& entries_for(a.manifest.chunks@, payload_bounds(payload, config.chunk_target_size), payload)
    &&& a.manifest_bytes@ == a.manifest.spec_bytes()
    &&& a.merkle_root@ == merkle_root_spec(chunk_leaves(a.manifest.chunks@))
    &&& config.signing_key matches Some(k) ==> a.signature@ == ed25519_signature(
        k@,
        a.merkle_root@ + a.manifest_bytes@,
    ) && ed25519_verifies(ed25519_public_key(k@), a.merkle_root@ + a.manifest_bytes@, a.signature@)
    &&& config.signing_key is None ==> a.signature@ == Seq::new(64, |i: int| 0u8)
}

/// Runs the whole SISR stage over the payload.
pub fn build_artifacts(payload: &[u8], config: &SisrBuildConfig) -> (r: Result<SisrArtifacts, Error>)
    ensures
        r matches Ok(a) ==> artifacts_for(a, payload@, *config),
        r is Ok <==> buildable(payload@, config.chunk_target_size),
        build_refusal(payload@, config.chunk_target_size) matches Some(e) ==> r == Err::<SisrArtifacts, Error>(e),
{
    let chunks = chunk_payload(payload, config.chunk_target_size)?;
    let ghost n = chunks@.len();
    let manifest = DeltaManifest { version: VERSION, payload_len: payload.len() as u64, chunks };
    let manifest_bytes = match manifest.serialize() {
        Ok(b) => b,
        Err(e) => {
            return Err(e);
        },
    };
    let merkle_root = merkle_root_of(&manifest);
    let signature = match config.signing_key {
        Some(key) => sign(manifest_bytes.as_slice(), &merkle_root, &key),
        None => {
            let z = [0u8; 64];
            assert(z@ =~= Seq::new(64, |i: int| 0u8));
            z
        },
    };
    Ok(SisrArtifacts { manifest, manifest_bytes, merkle_root, signature })
}

/// Ed25519 signature over `merkle_root ‖ manifest_bytes`.
pub fn sign(manifest_bytes: &[u8], merkle_root: &[u8; 32], key: &[u8; 32]) -> (sig: [u8; 64])
    ensures
        sig@ == ed25519_signature(key@, merkle_root@ + manifest_bytes@),
        ed25519_verifies(ed25519_public_key(key@), merkle_root@ + manifest_bytes@, sig@),
{
    let msg = signing_message(merkle_root, manifest_bytes);
    ed25519_sign(key, msg.as_slice())
}

/// Verifies a signature over `merkle_root ‖ manifest_bytes`.
pub fn verify(
    manifest_bytes: &[u8],
    merkle_root: &[u8; 32],
    signature: &[u8; 64],
    public: &[u8; 32],
) -> (ok: bool)
    ensures
        ok == ed25519_verifies(public@, merkle_root@ + manifest_bytes@, signature@),
{
    let msg = signing_message(merkle_root, manifest_bytes);
    ed25519_verify(public, msg.as_slice(), signature)
}

/// `merkle_root ‖ manifest_bytes`.
fn signing_message(merkle_root: &[u8; 32], manifest_bytes: &[u8]) -> (msg: Vec<u8>)
    ensures
        msg@ == merkle_root@ + manifest_bytes@,
{
    let mut msg: Vec<u8> = Vec::new();
    extend_bytes(&mut msg, merkle_root);
    extend_bytes(&mut msg, manifest_bytes);
    msg
}

} // verus!
