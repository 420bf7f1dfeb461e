//! The delta manifest: the chunk table that describes a payload as an ordered
//! list of content-addressed chunks.
//!
//! Wire format (little-endian):
//! `magic "XBDM" (4) | version u16 | reserved u16 = 0 | payload_len u64 |
//! chunk_count u32 | chunk_count × (sha256 hash (32) | length u32)`.
use crate::bytes::{extend_bytes, extend_u16_le, extend_u32_le, extend_u64_le, read_array32, read_u16_le, read_u32_le, read_u64_le};
use crate::error::Error;
use vstd::bytes::*;
use vstd::prelude::*;

verus! {

/// Version of the manifest schema written by this crate.
pub const VERSION: u16 = 1;

/// Byte size of the fixed manifest header.
pub const HEADER_SIZE: usize = 20;

/// Byte size of one chunk entry.
pub const ENTRY_SIZE: usize = 36;

/// One content-addressed piece of the payload.
#[derive(Debug, Clone, Copy, PartialEq, Eq)]
pub struct ChunkEntry {
    /// SHA-256 of the chunk bytes.
    pub hash: [u8; 32],
    /// Length of the chunk in bytes.
    pub length: u32,
}

/// The chunk table of a payload.
#[derive(Debug, Clone, PartialEq, Eq)]
pub struct DeltaManifest {
    /// Schema version.
    pub version: u16,
    /// Total payload length in bytes.
    pub payload_len: u64,
    /// Chunks in payload order.
    pub chunks: Vec<ChunkEntry>,
}

/// The four magic bytes `XBDM`.
pub open spec fn magic() -> Seq<u8> {
    seq![0x58u8, 0x42u8, 0x44u8, 0x4du8]
}

/// Encoded form of one chunk entry.
pub open spec fn entry_bytes(e: ChunkEntry) -> Seq<u8> {
    e.hash@ + spec_u32_to_le_bytes(e.length)
}

/// Encoded form of a chunk list.
pub open spec fn entries_bytes(s: Seq<ChunkEntry>) -> Seq<u8>
    decreases s.len(),
{
    if s.len() == 0 {
        Seq::empty()
    } else {
        entries_bytes(s.drop_last()) + entry_bytes(s.last())
    }
}

/// Encoded manifest header.
pub open spec fn header_bytes(version: u16, payload_len: u64, count: u32) -> Seq<u8> {
    magic() + spec_u16_to_le_bytes(version) + seq![0u8, 0u8] + spec_u64_to_le_bytes(payload_len)
        + spec_u32_to_le_bytes(count)
}

/// The full encoding of a manifest.
pub open spec fn encoding(version: u16, payload_len: u64, chunks: Seq<ChunkEntry>) -> Seq<u8> {
    header_bytes(version, payload_len, chunks.len() as u32) + entries_bytes(chunks)
}

/// Whether a chunk list fits the format (a `u32` count, an in-memory size).
pub open spec fn encodable(chunks: Seq<ChunkEntry>) -> bool {
    &&& chunks.len() <= u32::MAX
    &&& HEADER_SIZE + ENTRY_SIZE * chunks.len() <= usize::MAX
}

/// The chunk count a buffer's header declares.
pub open spec fn declared_count(buf: Seq<u8>) -> u32 {
    spec_u32_from_le_bytes(buf.subrange(16, 20))
}

/// The schema version a buffer's header declares.
pub open spec fn declared_version(buf: Seq<u8>) -> u16 {
    spec_u16_from_le_bytes(buf.subrange(4, 6))
}

/// Whether `e` is the entry encoded at index `i` of `buf`.
pub open spec fn entry_decodes(buf: Seq<u8>, i: int, e: ChunkEntry) -> bool {
    &&& e.hash@ == buf.subrange(20 + 36 * i, 52 + 36 * i)
    &&& e.length == spec_u32_from_le_bytes(buf.subrange(52 + 36 * i, 56 + 36 * i))
}

/// Whether `buf` is a well-formed manifest encoding.
pub open spec fn well_formed(buf: Seq<u8>) -> bool {
    &&& buf.len() >= HEADER_SIZE
    &&& buf.subrange(0, 4) == magic()
    &&& declared_version(buf) <= VERSION
    &&& buf[6] == 0 && buf[7] == 0
    &&& buf.len() == HEADER_SIZE + ENTRY_SIZE * declared_count(buf)
}

/// Why a buffer that is not well formed is refused.
pub open spec fn manifest_error(buf: Seq<u8>) -> Error {
    if buf.len() < HEADER_SIZE {
        Error::TruncatedManifest
    } else if buf.subrange(0, 4) != magic() {
        Error::BadManifestMagic
    } else if declared_version(buf) > VERSION {
        Error::UnsupportedManifestVersion
    } else if buf[6] != 0 || buf[7] != 0 {
        Error::BadManifestHeader
    } else {
        Error::ManifestLengthMismatch
    }
}

/// Whether the manifest fields `(version, payload_len, chunks)` are what `buf` encodes.
pub open spec fn decodes_to(
    buf: Seq<u8>,
    version: u16,
    payload_len: u64,
    chunks: Seq<ChunkEntry>,
) -> bool {
    &&& well_formed(buf)
    &&& version == declared_version(buf)
    &&& payload_len == spec_u64_from_le_bytes(buf.subrange(8, 16))
    &&& chunks.len() == declared_count(buf)
    &&& forall|i: int| 0 <= i < chunks.len() ==> entry_decodes(buf, i, #[trigger] chunks[i])
}

proof fn lemma_entries_bytes(s: Seq<ChunkEntry>)
    ensures
        entries_bytes(s).len() == 36 * s.len(),
        forall|i: int|
            0 <= i < s.len() ==> entries_bytes(s).subrange(36 * i, 36 * i + 36) == entry_bytes(
                #[trigger] s[i],
            ),
    decreases s.len(),
{
    lemma_auto_spec_u32_to_from_le_bytes();
    if s.len() > 0 {
        let p = s.drop_last();
        lemma_entries_bytes(p);
        let b = entries_bytes(s);
        assert(b == entries_bytes(p) + entry_bytes(s.last()));
        assert forall|i: int| 0 <= i < s.len() implies b.subrange(36 * i, 36 * i + 36)
            == entry_bytes(#[trigger] s[i]) by {
            if i < s.len() - 1 {
                assert(p[i] == s[i]);
                assert(b.subrange(36 * i, 36 * i + 36) =~= entries_bytes(p).subrange(
                    36 * i,
                    36 * i + 36,
                ));
            } else {
                assert(b.subrange(36 * i, 36 * i + 36) =~= entry_bytes(s.last()));
            }
        }
    }
}

/// A manifest's encoding is its header followed by one entry per chunk.
pub proof fn lemma_encoding_len(version: u16, payload_len: u64, chunks: Seq<ChunkEntry>)
    ensures
        encoding(version, payload_len, chunks).len() == HEADER_SIZE + ENTRY_SIZE * chunks.len(),
{
    lemma_entries_bytes(chunks);
    lemma_auto_spec_u16_to_from_le_bytes();
    lemma_auto_spec_u32_to_from_le_bytes();
    lemma_auto_spec_u64_to_from_le_bytes();
    assert(header_bytes(version, payload_len, chunks.len() as u32).len() == HEADER_SIZE);
}

/// An encoded manifest decodes to exactly the fields it was encoded from.
pub proof fn lemma_encoding_decodes(version: u16, payload_len: u64, chunks: Seq<ChunkEntry>)
    requires
        version <= VERSION,
        chunks.len() <= u32::MAX,
    ensures
        decodes_to(encoding(version, payload_len, chunks), version, payload_len, chunks),
{
    lemma_auto_spec_u16_to_from_le_bytes();
    lemma_auto_spec_u32_to_from_le_bytes();
    lemma_auto_spec_u64_to_from_le_bytes();
    lemma_entries_bytes(chunks);
    let b = encoding(version, payload_len, chunks);
    let h = header_bytes(version, payload_len, chunks.len() as u32);
    let e = entries_bytes(chunks);
    assert(h.len() == 20);
    assert(b.subrange(0, 4) =~= magic());
    assert(b.subrange(4, 6) =~= spec_u16_to_le_bytes(version));
    assert(b.subrange(8, 16) =~= spec_u64_to_le_bytes(payload_len));
    assert(b.subrange(16, 20) =~= spec_u32_to_le_bytes(chunks.len() as u32));
    assert(b[6] == 0 && b[7] == 0);
    assert forall|i: int| 0 <= i < chunks.len() implies entry_decodes(b, i, #[trigger] chunks[i]) by {
        assert(e.subrange(36 * i, 36 * i + 36) == entry_bytes(chunks[i]));
        assert(b.subrange(20 + 36 * i, 52 + 36 * i) =~= e.subrange(36 * i, 36 * i + 36).subrange(0, 32));
        assert(b.subrange(52 + 36 * i, 56 + 36 * i) =~= e.subrange(36 * i, 36 * i + 36).subrange(32, 36));
        assert(entry_bytes(chunks[i]).subrange(0, 32) =~= chunks[i].hash@);
        assert(entry_bytes(chunks[i]).subrange(32, 36) =~= spec_u32_to_le_bytes(chunks[i].length));
    }
}

/// A buffer that decodes to some fields is exactly the encoding of those fields.
pub proof fn lemma_decoding_encodes(
    buf: Seq<u8>,
    version: u16,
    payload_len: u64,
    chunks: Seq<ChunkEntry>,
)
    requires
        decodes_to(buf, version, payload_len, chunks),
    ensures
        encoding(version, payload_len, chunks) == buf,
{
    lemma_auto_spec_u16_to_from_le_bytes();
    lemma_auto_spec_u32_to_from_le_bytes();
    lemma_auto_spec_u64_to_from_le_bytes();
    lemma_entries_bytes(chunks);
    let enc = encoding(version, payload_len, chunks);
    let e = entries_bytes(chunks);
    assert(spec_u32_to_le_bytes(chunks.len() as u32) == buf.subrange(16, 20));
    assert(spec_u16_to_le_bytes(version) == buf.subrange(4, 6));
    assert(spec_u64_to_le_bytes(payload_len) == buf.subrange(8, 16));
    assert(enc.len() == buf.len());
    assert forall|k: int| 0 <= k < buf.len() implies enc[k] == buf[k] by {
        if k < 4 {
            assert(buf.subrange(0, 4)[k] == buf[k]);
        } else if k < 6 {
            assert(buf.subrange(4, 6)[k - 4] == buf[k]);
        } else if k < 8 {
        } else if k < 16 {
            assert(buf.subrange(8, 16)[k - 8] == buf[k]);
        } else if k < 20 {
            assert(buf.subrange(16, 20)[k - 16] == buf[k]);
        } else {
            let i = (k - 20) / 36;
            let r = (k - 20) % 36;
            assert(0 <= i < chunks.len()) by (nonlinear_arith)
                requires
                    20 <= k < buf.len(),
                    buf.len() == 20 + 36 * chunks.len(),
                    i == (k - 20) / 36,
            ;
            assert(k == 20 + 36 * i + r && 0 <= r < 36) by (nonlinear_arith)
                requires
                    i == (k - 20) / 36,
                    r == (k - 20) % 36,
                    k >= 20,
            ;
            assert(entry_decodes(buf, i, chunks[i]));
            assert(e.subrange(36 * i, 36 * i + 36) == entry_bytes(chunks[i]));
            assert(enc[k] == e[k - 20]);
            assert(e[k - 20] == e.subrange(36 * i, 36 * i + 36)[r]);
            if r < 32 {
                assert(entry_bytes(chunks[i])[r] == chunks[i].hash@[r]);
                assert(buf.subrange(20 + 36 * i, 52 + 36 * i)[r] == buf[k]);
            } else {
                assert(entry_bytes(chunks[i])[r] == spec_u32_to_le_bytes(chunks[i].length)[r - 32]);
                assert(spec_u32_to_le_bytes(chunks[i].length) == buf.subrange(52 + 36 * i, 56 + 36 * i));
                assert(buf.subrange(52 + 36 * i, 56 + 36 * i)[r - 32] == buf[k]);
            }
        }
    }
    assert(enc =~= buf);
}

/// A buffer decodes to at most one manifest.
pub proof fn lemma_decoding_unique(
    buf: Seq<u8>,
    v1: u16,
    p1: u64,
    c1: Seq<ChunkEntry>,
    v2: u16,
    p2: u64,
    c2: Seq<ChunkEntry>,
)
    requires
        decodes_to(buf, v1, p1, c1),
        decodes_to(buf, v2, p2, c2),
    ensures
        v1 == v2,
        p1 == p2,
        c1 == c2,
{
    assert forall|i: int| 0 <= i < c1.len() implies c1[i] == c2[i] by {
        assert(entry_decodes(buf, i, c1[i]));
        assert(entry_decodes(buf, i, c2[i]));
        assert(c1[i].hash@ =~= c2[i].hash@);
        vstd::array::axiom_array_ext_equal(c1[i].hash, c2[i].hash);
    }
    assert(c1 =~= c2);
}

impl DeltaManifest {
    /// The encoding of this manifest.
    pub open spec fn spec_bytes(&self) -> Seq<u8> {
        encoding(self.version, self.payload_len, self.chunks@)
    }

    /// Byte length of the encoding.
    pub fn encoded_len(&self) -> (n: usize)
        requires
            HEADER_SIZE + ENTRY_SIZE * self.chunks@.len() <= usize::MAX,
        ensures
            n == HEADER_SIZE + ENTRY_SIZE * self.chunks@.len(),
    {
        HEADER_SIZE + ENTRY_SIZE * self.chunks.len()
    }

    /// Serializes the manifest; fails when the chunk list does not fit the format.
    pub fn serialize(&self) -> (r: Result<Vec<u8>, Error>)
        ensures
            encodable(self.chunks@) ==> (r matches Ok(v) && v@ == self.spec_bytes()),
            !encodable(self.chunks@) ==> r == Err::<Vec<u8>, Error>(Error::ManifestTooLarge),
    {
        let n = self.chunks.len();
        if n > 0xFFFF_FFFFusize {
            return Err(Error::ManifestTooLarge);
        }
        match n.checked_mul(ENTRY_SIZE) {
            None => {
                return Err(Error::ManifestTooLarge);
            },
            Some(m) => {
                if m.checked_add(HEADER_SIZE).is_none() {
                    return Err(Error::ManifestTooLarge);
                }
            },
        }
        let mut out: Vec<u8> = Vec::new();
        out.push(0x58u8);
        out.push(0x42u8);
        out.push(0x44u8);
        out.push(0x4du8);
        extend_u16_le(&mut out, self.version);
        out.push(0u8);
        out.push(0u8);
        extend_u64_le(&mut out, self.payload_len);
        extend_u32_le(&mut out, n as u32);
        let ghost header = header_bytes(self.version, self.payload_len, n as u32);
        assert(out@ =~= header);
        let mut i: usize = 0;
        while i < n
            invariant
                n == self.chunks@.len(),
                i <= n,
                out@ == header + entries_bytes(self.chunks@.subrange(0, i as int)),
            decreases n - i,
        {
            let e = self.chunks[i];
            extend_bytes(&mut out, &e.hash);
            extend_u32_le(&mut out, e.length);
            proof {
                let s = self.chunks@.subrange(0, i + 1);
                assert(s.drop_last() =~= self.chunks@.subrange(0, i as int));
                assert(s.last() == e);
            }
            i = i + 1;
        }
        assert(self.chunks@.subrange(0, n as int) =~= self.chunks@);
        Ok(out)
    }

    /// Parses a manifest from a buffer holding exactly its encoding.
    pub fn parse(buf: &[u8]) -> (r: Result<DeltaManifest, Error>)
        ensures
            !well_formed(buf@) ==> r == Err::<DeltaManifest, Error>(manifest_error(buf@)),
            well_formed(buf@) ==> (r matches Ok(m) && decodes_to(
                buf@,
                m.version,
                m.payload_len,
                m.chunks@,
            )),
    {
        let len = buf.len();
        if len < HEADER_SIZE {
            return Err(Error::TruncatedManifest);
        }
        if !(buf[0] == 0x58u8 && buf[1] == 0x42u8 && buf[2] == 0x44u8 && buf[3] == 0x4du8) {
            assert(buf@.subrange(0, 4) != magic()) by {
                if buf@.subrange(0, 4) == magic() {
                    assert(buf@.subrange(0, 4)[0] == buf@[0]);
                    assert(buf@.subrange(0, 4)[1] == buf@[1]);
                    assert(buf@.subrange(0, 4)[2] == buf@[2]);
                    assert(buf@.subrange(0, 4)[3] == buf@[3]);
                }
            }
            return Err(Error::BadManifestMagic);
        }
        assert(buf@.subrange(0, 4) =~= magic());
        let version = read_u16_le(buf, 4);
        if version > VERSION {
            return Err(Error::UnsupportedManifestVersion);
        }
        if buf[6] != 0 || buf[7] != 0 {
            return Err(Error::BadManifestHeader);
        }
        let payload_len = read_u64_le(buf, 8);
        let count = read_u32_le(buf, 16);
        let body = len - HEADER_SIZE;
        if body % ENTRY_SIZE != 0 || body / ENTRY_SIZE != count as usize {
            proof {
                assert(len != HEADER_SIZE + ENTRY_SIZE * count) by (nonlinear_arith)
                    requires
                        body == len - HEADER_SIZE,
                        body % 36 != 0 || body / 36 != count,
                        HEADER_SIZE == 20,
                        ENTRY_SIZE == 36,
                ;
            }
            return Err(Error::ManifestLengthMismatch);
        }
        assert(len == HEADER_SIZE + ENTRY_SIZE * count) by (nonlinear_arith)
            requires
                body == len - HEADER_SIZE,
                body % 36 == 0,
                body / 36 == count,
                HEADER_SIZE == 20,
                ENTRY_SIZE == 36,
        ;
        let n = count as usize;
        let mut chunks: Vec<ChunkEntry> = Vec::new();
        let mut i: usize = 0;
        let mut pos: usize = HEADER_SIZE;
        while i < n
            invariant
                len == buf@.len(),
                len == HEADER_SIZE + ENTRY_SIZE * n,
                i <= n,
                pos == HEADER_SIZE + ENTRY_SIZE * i,
                chunks@.len() == i,
                forall|j: int| 0 <= j < i ==> entry_decodes(buf@, j, #[trigger] chunks@[j]),
            decreases n - i,
        {
            let hash = read_array32(buf, pos);
            let length = read_u32_le(buf, pos + 32);
            chunks.push(ChunkEntry { hash, length });
            i = i + 1;
            pos = pos + ENTRY_SIZE;
        }
        Ok(DeltaManifest { version, payload_len, chunks })
    }
}

} // verus!
