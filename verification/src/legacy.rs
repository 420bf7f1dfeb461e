//! Upgrading a classic binary (no SISR section) to a SISR-enabled one
//! without touching its payload:
//!
//! ```text
//! before: [stub][payload][metadata][footer]
//! after:  [stub][payload][metadata][manifest][SisrFooterExt][footer]
//! ```
//!
//! The stub, payload and metadata are kept byte for byte, so every offset
//! the footer records, and its integrity hash, stay valid; the footer only
//! gains its SISR flag.
use crate::bytes::extend_bytes;
use crate::error::Error;
use crate::manifest::{
    decodes_to, lemma_decoding_unique, lemma_encoding_decodes, lemma_encoding_len, ENTRY_SIZE, HEADER_SIZE,
    VERSION,
};
use crate::sisr_header::{
    lemma_parse_pack_roundtrip, packed, parses_to, present_block, sisr_refusal, table_bytes, SisrFooterExt,
    MAX_MANIFEST_SIZE, SISR_VERSION, SIZE,
};
use crate::sisr_stage::{
    artifacts_for, build_artifacts, build_refusal, buildable, payload_bounds, remote_encoding, SisrArtifacts, SisrBuildConfig, REMOTE_VERSION,
};
use crate::text::owned;
use vstd::bytes::*;
use vstd::prelude::*;
use vstd::slice::slice_subrange;

verus! {

/// The footer fields of a classic binary that an upgrade reads.
#[derive(Debug, Clone, Copy)]
pub struct LegacyFooter {
    pub format_version: u32,
    /// Whether the footer's SISR flag is set.
    pub has_sisr: bool,
    /// Whether the footer's signed flag is set.
    pub signed_flag: bool,
    pub payload_offset: u64,
    pub payload_csize: u64,
    pub meta_offset: u64,
    pub meta_size: u64,
    /// The footer's size on disk (84 bytes for v2).
    pub footer_size: u64,
}

/// What an upgrade reports.
#[derive(Debug, Clone, Copy)]
pub struct UpgradeReport {
    pub input_size: u64,
    pub output_size: u64,
    pub chunk_count: usize,
    pub manifest_offset: u64,
    pub signed: bool,
}

/// The parts of an upgraded binary.
#[derive(Debug)]
pub struct UpgradedBinary {
    /// Everything before the footer: the input up to the end of its
    /// metadata, then the delta manifest and the SISR extension.
    pub body: Vec<u8>,
    pub ext: SisrFooterExt,
    /// The SISR stage's output over the stored payload.
    pub artifacts: SisrArtifacts,
    /// The standalone signed manifest written next to the binary.
    pub remote_manifest: Vec<u8>,
    pub report: UpgradeReport,
}

/// Why an input cannot be upgraded, before its payload is looked at: SISR
/// must be enabled; the input must not have SISR already, nor be signed
/// (which a rebuild handles); its segments must lie in the file, in order,
/// before the footer.
pub open spec fn upgrade_refusal(data_len: int, f: LegacyFooter, enabled: bool) -> Option<Seq<char>> {
    if !enabled {
        Some("upgrade requires the SISR stage to be enabled"@)
    } else if f.has_sisr {
        Some("input is already SISR-enabled"@)
    } else if f.format_version >= 3 || f.signed_flag {
        Some("signed binaries are not upgradeable — rebuild with `erebus build --enable-sisr` instead"@)
    } else if f.payload_offset > usize::MAX {
        Some("payload offset overflows this platform"@)
    } else if f.meta_offset > usize::MAX {
        Some("metadata offset overflows this platform"@)
    } else if f.payload_offset + f.payload_csize > usize::MAX {
        Some("payload range overflows this platform"@)
    } else if f.meta_offset + f.meta_size > usize::MAX {
        Some("metadata range overflows this platform"@)
    } else if f.footer_size > usize::MAX {
        Some("footer size overflows this platform"@)
    } else if data_len < f.footer_size {
        Some("file too small"@)
    } else if f.payload_offset + f.payload_csize > f.meta_offset || f.meta_offset + f.meta_size > data_len
        - f.footer_size {
        Some("malformed .erebus: overlapping or out-of-bounds segments"@)
    } else {
        None
    }
}

/// The stored payload of the input.
pub open spec fn stored_payload(data: Seq<u8>, f: LegacyFooter) -> Seq<u8> {
    data.subrange(f.payload_offset as int, f.payload_offset + f.payload_csize)
}

/// Byte length of the delta manifest the SISR stage writes for `payload`:
/// its header and one entry per chunk.
pub open spec fn manifest_len_for(payload: Seq<u8>, target: usize) -> int {
    HEADER_SIZE + ENTRY_SIZE * payload_bounds(payload, target).len()
}

/// Whether `u` is the upgrade of `data`: the SISR artifacts of the stored
/// payload, an extension that points at the manifest written right after
/// the metadata, the body `data[..meta_end] ‖ manifest ‖ extension`, the
/// standalone manifest, and the report.
pub open spec fn upgraded_from(u: UpgradedBinary, data: Seq<u8>, f: LegacyFooter, config: SisrBuildConfig) -> bool {
    let meta_end = f.meta_offset + f.meta_size;
    &&& artifacts_for(u.artifacts, stored_payload(data, f), config)
    &&& u.ext.sisr_version == SISR_VERSION
    &&& u.ext.chunk_table_offset == meta_end
    &&& u.ext.chunk_table_len == u.artifacts.manifest_bytes@.len()
    &&& u.ext.merkle_root == u.artifacts.merkle_root
    &&& u.ext.signature == u.artifacts.signature
    &&& u.body@ == data.take(meta_end as int) + u.artifacts.manifest_bytes@ + packed(u.ext)
    &&& u.remote_manifest@ == remote_encoding(
        u.artifacts.merkle_root@,
        u.artifacts.signature@,
        u.artifacts.manifest.spec_bytes(),
    )
    &&& u.report.input_size == data.len()
    &&& u.report.output_size == u.body@.len() + f.footer_size
    &&& u.report.chunk_count == u.artifacts.manifest.chunks@.len()
    &&& u.report.manifest_offset == meta_end
    &&& u.report.signed == (config.signing_key is Some)
}

/// Upgrades the classic binary `data`, whose footer reads `f`: the body of
/// the new binary (the caller appends the footer with its SISR flag set),
/// the standalone manifest and the report; or the reason it is refused.
/// A payload the SISR stage cannot chunk is refused with that stage's error.
pub fn upgrade_binary(data: &[u8], f: &LegacyFooter, config: &SisrBuildConfig) -> (r: Result<UpgradedBinary, String>)
    ensures
        match upgrade_refusal(data@.len() as int, *f, config.enabled) {
            Some(m) => r matches Err(e) && e@ == m,
            None => {
                let payload = stored_payload(data@, *f);
                let n = manifest_len_for(payload, config.chunk_target_size);
                let meta_end = f.meta_offset + f.meta_size;
                if !buildable(payload, config.chunk_target_size) {
                    r matches Err(e) && build_refusal(payload, config.chunk_target_size) matches Some(x)
                        && e@ == x.message_text()
                } else if n > u32::MAX {
                    r matches Err(e) && e@ == "SISR manifest exceeds capacity"@
                } else if meta_end + n + SIZE + f.footer_size > u64::MAX {
                    r matches Err(e) && e@ == "upgraded binary exceeds the addressable size"@
                } else {
                    r matches Ok(u) && upgraded_from(u, data@, *f, *config)
                }
            },
        },
{
    if !config.enabled {
        return Err(owned("upgrade requires the SISR stage to be enabled"));
    }
    if f.has_sisr {
        return Err(owned("input is already SISR-enabled"));
    }
    if f.format_version >= 3 || f.signed_flag {
        return Err(
            owned("signed binaries are not upgradeable — rebuild with `erebus build --enable-sisr` instead"),
        );
    }
    if f.payload_offset > usize::MAX as u64 {
        return Err(owned("payload offset overflows this platform"));
    }
    if f.meta_offset > usize::MAX as u64 {
        return Err(owned("metadata offset overflows this platform"));
    }
    let payload_end: u64 = match f.payload_offset.checked_add(f.payload_csize) {
        Some(e) => e,
        None => {
            return Err(owned("payload range overflows this platform"));
        },
    };
    if payload_end > usize::MAX as u64 {
        return Err(owned("payload range overflows this platform"));
    }
    let meta_end: u64 = match f.meta_offset.checked_add(f.meta_size) {
        Some(e) => e,
        None => {
            return Err(owned("metadata range overflows this platform"));
        },
    };
    if meta_end > usize::MAX as u64 {
        return Err(owned("metadata range overflows this platform"));
    }
    if f.footer_size > usize::MAX as u64 {
        return Err(owned("footer size overflows this platform"));
    }
    let payload_start = f.payload_offset as usize;
    let meta_start = f.meta_offset as usize;
    let payload_end = payload_end as usize;
    let meta_end = meta_end as usize;
    let footer_len = f.footer_size as usize;
    if data.len() < footer_len {
        return Err(owned("file too small"));
    }
    let tail = data.len() - footer_len;
    if payload_end > meta_start || meta_end > tail {
        return Err(owned("malformed .erebus: overlapping or out-of-bounds segments"));
    }
    let payload = slice_subrange(data, payload_start, payload_end);
    let artifacts = match build_artifacts(payload, config) {
        Ok(a) => a,
        Err(e) => {
            return Err(owned(e.message()));
        },
    };
    proof {
        lemma_encoding_len(artifacts.manifest.version, artifacts.manifest.payload_len, artifacts.manifest.chunks@);
    }
    assert(artifacts.manifest_bytes@.len() == manifest_len_for(payload@, config.chunk_target_size));
    if artifacts.manifest_bytes.len() > u32::MAX as usize {
        return Err(owned("SISR manifest exceeds capacity"));
    }
    let manifest_offset = f.meta_offset + f.meta_size;
    let manifest_len = artifacts.manifest_bytes.len() as u32;
    let ext = SisrFooterExt {
        sisr_version: SISR_VERSION,
        chunk_table_offset: manifest_offset,
        chunk_table_len: manifest_len,
        merkle_root: artifacts.merkle_root,
        signature: artifacts.signature,
    };
    let mut body: Vec<u8> = Vec::new();
    extend_bytes(&mut body, slice_subrange(data, 0, meta_end));
    extend_bytes(&mut body, artifacts.manifest_bytes.as_slice());
    let packed_ext = ext.pack();
    extend_bytes(&mut body, &packed_ext);
    assert(data@.subrange(0, meta_end as int) =~= data@.take(meta_end as int));
    let mut remote_manifest: Vec<u8> = Vec::new();
    remote_manifest.push(0x58u8);
    remote_manifest.push(0x42u8);
    remote_manifest.push(0x4du8);
    remote_manifest.push(0x52u8);
    remote_manifest.push(REMOTE_VERSION);
    remote_manifest.push(0u8);
    remote_manifest.push(0u8);
    remote_manifest.push(0u8);
    extend_bytes(&mut remote_manifest, &artifacts.merkle_root);
    extend_bytes(&mut remote_manifest, &artifacts.signature);
    extend_bytes(&mut remote_manifest, artifacts.manifest_bytes.as_slice());
    assert(remote_manifest@ =~= remote_encoding(
        artifacts.merkle_root@,
        artifacts.signature@,
        artifacts.manifest.spec_bytes(),
    ));
    let output_size = match (body.len() as u64).checked_add(f.footer_size) {
        Some(n) => n,
        None => {
            return Err(owned("upgraded binary exceeds the addressable size"));
        },
    };
    let signed = match config.signing_key {
        Some(_) => true,
        None => false,
    };
    let report = UpgradeReport {
        input_size: data.len() as u64,
        output_size,
        chunk_count: artifacts.manifest.chunks.len(),
        manifest_offset,
        signed,
    };
    Ok(UpgradedBinary { body, ext, artifacts, remote_manifest, report })
}

/// An upgraded binary reads back. Put any footer of `f.footer_size` bytes
/// after the body (the input's footer with its SISR flag set): the SISR
/// reader accepts the file, finds exactly the upgrade's extension, and finds
/// the bytes of the artifacts' manifest, which decode to that manifest and
/// nothing else. The reader caps a manifest at `MAX_MANIFEST_SIZE` bytes, so
/// the law holds for manifests within that cap.
pub proof fn lemma_upgrade_reads_back(
    u: UpgradedBinary,
    data: Seq<u8>,
    f: LegacyFooter,
    config: SisrBuildConfig,
    footer: Seq<u8>,
)
    requires
        upgrade_refusal(data.len() as int, f, config.enabled) is None,
        upgraded_from(u, data, f, config),
        footer.len() == f.footer_size,
        u.artifacts.manifest_bytes@.len() <= MAX_MANIFEST_SIZE,
    ensures
        ({
            let file = u.body@ + footer;
            &&& sisr_refusal(file, f.footer_size as int) is None
            &&& present_block(file, f.footer_size as int) == Some(packed(u.ext))
            &&& table_bytes(file, packed(u.ext)) == u.artifacts.manifest_bytes@
        }),
        forall|e: SisrFooterExt| parses_to(packed(u.ext), e) ==> e == u.ext,
        decodes_to(
            u.artifacts.manifest_bytes@,
            u.artifacts.manifest.version,
            u.artifacts.manifest.payload_len,
            u.artifacts.manifest.chunks@,
        ),
        forall|v: u16, p: u64, c: Seq<crate::manifest::ChunkEntry>|
            #[trigger] decodes_to(u.artifacts.manifest_bytes@, v, p, c) ==> v == u.artifacts.manifest.version
                && p == u.artifacts.manifest.payload_len && c == u.artifacts.manifest.chunks@,
{
    let meta_end = f.meta_offset + f.meta_size;
    let mb = u.artifacts.manifest_bytes@;
    let n = mb.len();
    let pk = packed(u.ext);
    lemma_parse_pack_roundtrip(u.ext);
    let file = u.body@ + footer;
    assert(u.body@.len() == meta_end + n + SIZE);
    let s = meta_end + n;
    assert(file.subrange(s, s + SIZE) =~= pk);
    assert(file.subrange(s, s + 2) =~= pk.subrange(0, 2));
    assert(present_block(file, f.footer_size as int) == Some(pk));
    assert(file.subrange(meta_end, meta_end + n) =~= mb);
    assert(table_bytes(file, pk) == mb);
    let m = u.artifacts.manifest;
    lemma_encoding_len(m.version, m.payload_len, m.chunks@);
    lemma_encoding_decodes(m.version, m.payload_len, m.chunks@);
    assert forall|v: u16, p: u64, c: Seq<crate::manifest::ChunkEntry>|
        #[trigger] decodes_to(mb, v, p, c) implies v == m.version && p == m.payload_len && c == m.chunks@ by {
        lemma_decoding_unique(mb, v, p, c, m.version, m.payload_len, m.chunks@);
    }
}

} // verus!
