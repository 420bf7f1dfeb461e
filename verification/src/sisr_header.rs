//! The SISR footer extension: the fixed access block that locates and binds
//! the embedded delta manifest, stored immediately before the standard footer.
use crate::bytes::{extend_bytes, extend_u16_le, extend_u32_le, extend_u64_le, read_array32, read_array64, read_u16_le, read_u32_le, read_u64_le};
use crate::error::Error;
use crate::manifest::{decodes_to, manifest_error, well_formed, DeltaManifest};
use vstd::bytes::*;
use vstd::prelude::*;
use vstd::slice::slice_subrange;

verus! {

/// Byte size of the fixed SISR footer extension.
pub const SIZE: usize = 110;

/// Maximum allowed manifest size (4 MiB).
pub const MAX_MANIFEST_SIZE: usize = 4194304;

/// Version of the SISR extension schema understood by this crate.
pub const SISR_VERSION: u16 = 1;

/// Fixed access block between the app metadata and the standard footer.
#[derive(Debug, Clone, Copy, PartialEq, Eq)]
pub struct SisrFooterExt {
    /// Extension schema version; `0` marks the block as absent.
    pub sisr_version: u16,
    /// Absolute file offset of the serialized delta manifest.
    pub chunk_table_offset: u64,
    /// Byte length of the serialized delta manifest.
    pub chunk_table_len: u32,
    /// Merkle root over the payload chunk hashes.
    pub merkle_root: [u8; 32],
    /// Ed25519 signature over the serialized delta manifest.
    pub signature: [u8; 64],
}

/// The packed byte layout of an extension.
pub open spec fn packed(e: SisrFooterExt) -> Seq<u8> {
    spec_u16_to_le_bytes(e.sisr_version) + spec_u64_to_le_bytes(e.chunk_table_offset)
        + spec_u32_to_le_bytes(e.chunk_table_len) + e.merkle_root@ + e.signature@
}

/// Whether `e` is the extension whose packed form begins `buf`.
pub open spec fn parses_to(buf: Seq<u8>, e: SisrFooterExt) -> bool {
    &&& buf.len() >= SIZE
    &&& e.sisr_version == spec_u16_from_le_bytes(buf.subrange(0, 2))
    &&& e.chunk_table_offset == spec_u64_from_le_bytes(buf.subrange(2, 10))
    &&& e.chunk_table_len == spec_u32_from_le_bytes(buf.subrange(10, 14))
    &&& e.merkle_root@ == buf.subrange(14, 46)
    &&& e.signature@ == buf.subrange(46, 110)
}

impl SisrFooterExt {
    /// Whether the block marks a real SISR section (`sisr_version != 0`).
    pub fn is_present(&self) -> (b: bool)
        ensures
            b == (self.sisr_version != 0),
    {
        self.sisr_version != 0
    }

    /// Serializes the extension into its fixed-size byte form.
    pub fn pack(&self) -> (buf: [u8; SIZE])
        ensures
            buf@ == packed(*self),
    {
        let mut v: Vec<u8> = Vec::new();
        extend_u16_le(&mut v, self.sisr_version);
        extend_u64_le(&mut v, self.chunk_table_offset);
        extend_u32_le(&mut v, self.chunk_table_len);
        extend_bytes(&mut v, &self.merkle_root);
        extend_bytes(&mut v, &self.signature);
        proof {
            lemma_auto_spec_u16_to_from_le_bytes();
            lemma_auto_spec_u32_to_from_le_bytes();
            lemma_auto_spec_u64_to_from_le_bytes();
        }
        assert(v@ =~= packed(*self));
        assert(v@.len() == 110);
        let mut buf = [0u8; SIZE];
        let mut i: usize = 0;
        while i < SIZE
            invariant
                v@.len() == SIZE,
                i <= SIZE,
                forall|j: int| 0 <= j < i ==> buf@[j] == v@[j],
            decreases SIZE - i,
        {
            buf[i] = v[i];
            i = i + 1;
        }
        assert(buf@ =~= v@);
        buf
    }

    /// Parses the extension from the first `SIZE` bytes of `buf`.
    pub fn parse(buf: &[u8]) -> (r: Result<Self, Error>)
        ensures
            buf@.len() < SIZE ==> r == Err::<Self, Error>(Error::TruncatedFooterExt),
            buf@.len() >= SIZE ==> (r matches Ok(e) && parses_to(buf@, e)),
    {
        if buf.len() < SIZE {
            return Err(Error::TruncatedFooterExt);
        }
        let merkle_root = read_array32(buf, 14);
        let signature = read_array64(buf, 46);
        let e = SisrFooterExt {
            sisr_version: read_u16_le(buf, 0),
            chunk_table_offset: read_u64_le(buf, 2),
            chunk_table_len: read_u32_le(buf, 10),
            merkle_root,
            signature,
        };
        Ok(e)
    }
}

/// Where the extension begins in a file of `file_len` bytes that ends with
/// a `footer_size`-byte footer: right before the footer; `None` when the
/// file is too small to hold both.
pub open spec fn ext_start_of(file_len: int, footer_size: int) -> Option<int> {
    if file_len >= footer_size + SIZE {
        Some(file_len - footer_size - SIZE)
    } else {
        None
    }
}

impl SisrFooterExt {
    /// Reads the extension immediately before the standard footer of a file
    /// (all of its bytes). `footer_size` is 84 for v2 footers and 92 for v3+.
    /// `None` when the file is too small to hold an extension or the block
    /// is marked absent (`sisr_version == 0`).
    pub fn read_from(file: &[u8], footer_size: u64) -> (r: Option<Self>)
        ensures
            match ext_start_of(file@.len() as int, footer_size as int) {
                None => r is None,
                Some(s) => match r {
                    Some(e) => parses_to(file@.subrange(s, s + SIZE), e) && e.sisr_version != 0,
                    None => spec_u16_from_le_bytes(file@.subrange(s, s + 2)) == 0,
                },
            },
    {
        let n = file.len();
        if footer_size > n as u64 {
            return None;
        }
        let fs = footer_size as usize;
        if n - fs < SIZE {
            return None;
        }
        let start = n - fs - SIZE;
        let block = slice_subrange(file, start, start + SIZE);
        match Self::parse(block) {
            Ok(e) => {
                assert(block@.subrange(0, 2) =~= file@.subrange(start as int, start + 2));
                if e.is_present() {
                    Some(e)
                } else {
                    None
                }
            },
            Err(_) => None,
        }
    }
}

/// The bytes of the extension of a file whose standard footer is
/// `footer_size` bytes long, when the file holds one that is marked present.
pub open spec fn present_block(file: Seq<u8>, footer_size: int) -> Option<Seq<u8>> {
    match ext_start_of(file.len() as int, footer_size) {
        None => None,
        Some(s) => if spec_u16_from_le_bytes(file.subrange(s, s + 2)) == 0 {
            None
        } else {
            Some(file.subrange(s, s + SIZE))
        },
    }
}

/// The manifest offset an extension block records.
pub open spec fn block_table_offset(block: Seq<u8>) -> u64 {
    spec_u64_from_le_bytes(block.subrange(2, 10))
}

/// The manifest length an extension block records.
pub open spec fn block_table_len(block: Seq<u8>) -> u32 {
    spec_u32_from_le_bytes(block.subrange(10, 14))
}

/// The bytes that the extension of `file` names as its delta manifest.
pub open spec fn table_bytes(file: Seq<u8>, block: Seq<u8>) -> Seq<u8> {
    let off = block_table_offset(block) as int;
    file.subrange(off, off + block_table_len(block))
}

/// Why the SISR section of a file whose footer sets the SISR flag is
/// refused, in the order the checks are made; `None` when it is accepted.
pub open spec fn sisr_refusal(file: Seq<u8>, footer_size: int) -> Option<Error> {
    match present_block(file, footer_size) {
        None => Some(Error::MissingSisrExtension),
        Some(b) => {
            let ext_start = file.len() - footer_size - SIZE;
            let end = block_table_len(b) + block_table_offset(b);
            if block_table_len(b) > MAX_MANIFEST_SIZE {
                Some(Error::SisrManifestTooLarge)
            } else if end > u64::MAX {
                Some(Error::ChunkTableOffsetOverflow)
            } else if end > ext_start {
                Some(Error::ChunkTableOutOfBounds)
            } else if !well_formed(table_bytes(file, b)) {
                Some(manifest_error(table_bytes(file, b)))
            } else {
                None
            }
        },
    }
}

/// Reads the SISR extension and the delta manifest it locates from a whole
/// file, given what its standard footer says: whether the SISR flag is set,
/// and the footer's size.
///
/// `Ok(None)` for files predating SISR (flag clear). A set flag with no
/// present extension, an oversized manifest, a manifest range that
/// overflows or reaches past the extension, or a malformed manifest fail.
pub fn read_sisr(file: &[u8], footer_has_sisr: bool, footer_size: u64) -> (r: Result<
    Option<(SisrFooterExt, DeltaManifest)>,
    Error,
>)
    ensures
        !footer_has_sisr ==> r == Ok::<Option<(SisrFooterExt, DeltaManifest)>, Error>(None),
        footer_has_sisr ==> match sisr_refusal(file@, footer_size as int) {
            Some(e) => r == Err::<Option<(SisrFooterExt, DeltaManifest)>, Error>(e),
            None => r matches Ok(Some((ext, m))) && {
                let b = present_block(file@, footer_size as int)->0;
                &&& parses_to(b, ext)
                &&& decodes_to(table_bytes(file@, b), m.version, m.payload_len, m.chunks@)
            },
        },
{
    if !footer_has_sisr {
        return Ok(None);
    }
    let ext = match SisrFooterExt::read_from(file, footer_size) {
        Some(e) => e,
        None => {
            return Err(Error::MissingSisrExtension);
        },
    };
    let ghost s: int = file@.len() - footer_size - SIZE;
    let ghost b = file@.subrange(s, s + SIZE);
    assert(b.subrange(0, 2) =~= file@.subrange(s, s + 2));
    assert(present_block(file@, footer_size as int) == Some(b));
    let ext_start: usize = file.len() - footer_size as usize - SIZE;
    let len: usize = ext.chunk_table_len as usize;
    if len > MAX_MANIFEST_SIZE {
        return Err(Error::SisrManifestTooLarge);
    }
    let table_end: u64 = match (ext.chunk_table_len as u64).checked_add(ext.chunk_table_offset) {
        Some(t) => t,
        None => {
            return Err(Error::ChunkTableOffsetOverflow);
        },
    };
    if table_end > ext_start as u64 {
        return Err(Error::ChunkTableOutOfBounds);
    }
    let off: usize = ext.chunk_table_offset as usize;
    let buf = slice_subrange(file, off, off + len);
    assert(buf@ =~= table_bytes(file@, b));
    match DeltaManifest::parse(buf) {
        Ok(m) => Ok(Some((ext, m))),
        Err(e) => Err(e),
    }
}

/// Parsing a packed extension yields the extension back, bit for bit.
pub proof fn lemma_parse_pack_roundtrip(e: SisrFooterExt)
    ensures
        packed(e).len() == SIZE,
        parses_to(packed(e), e),
        forall|f: SisrFooterExt| parses_to(packed(e), f) ==> f == e,
{
    lemma_auto_spec_u16_to_from_le_bytes();
    lemma_auto_spec_u32_to_from_le_bytes();
    lemma_auto_spec_u64_to_from_le_bytes();
    let p = packed(e);
    assert(p.subrange(0, 2) =~= spec_u16_to_le_bytes(e.sisr_version));
    assert(p.subrange(2, 10) =~= spec_u64_to_le_bytes(e.chunk_table_offset));
    assert(p.subrange(10, 14) =~= spec_u32_to_le_bytes(e.chunk_table_len));
    assert(p.subrange(14, 46) =~= e.merkle_root@);
    assert(p.subrange(46, 110) =~= e.signature@);
    assert forall|f: SisrFooterExt| parses_to(p, f) implies f == e by {
        assert(f.merkle_root@ =~= e.merkle_root@);
        assert(f.signature@ =~= e.signature@);
        vstd::array::axiom_array_ext_equal(f.merkle_root, e.merkle_root);
        vstd::array::axiom_array_ext_equal(f.signature, e.signature);
    }
}

/// Packing a parsed extension reproduces the bytes it was parsed from.
pub proof fn lemma_pack_parse_roundtrip(buf: Seq<u8>, e: SisrFooterExt)
    requires
        parses_to(buf, e),
    ensures
        packed(e) == buf.subrange(0, SIZE as int),
{
    lemma_auto_spec_u16_to_from_le_bytes();
    lemma_auto_spec_u32_to_from_le_bytes();
    lemma_auto_spec_u64_to_from_le_bytes();
    assert(spec_u16_to_le_bytes(e.sisr_version) == buf.subrange(0, 2));
    assert(spec_u64_to_le_bytes(e.chunk_table_offset) == buf.subrange(2, 10));
    assert(spec_u32_to_le_bytes(e.chunk_table_len) == buf.subrange(10, 14));
    assert(packed(e) =~= buf.subrange(0, SIZE as int));
}

} // verus!
