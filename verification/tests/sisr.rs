use ed25519_dalek::SigningKey;
use erebus::error::Error;
use erebus::manifest::{self, ChunkEntry, DeltaManifest};
use erebus::sisr_header::{read_sisr, SisrFooterExt, MAX_MANIFEST_SIZE, SISR_VERSION, SIZE};
use erebus::sisr_stage::{
    build_artifacts, chunk_payload, merkle_root, merkle_root_of, sign, verify, RemoteManifest,
    SisrBuildConfig, REMOTE_HEADER_SIZE,
};
use sha2::{Digest, Sha256};

fn random_buf(len: usize, seed: u64) -> Vec<u8> {
    let mut state = seed;
    (0..len)
        .map(|_| {
            state ^= state << 13;
            state ^= state >> 7;
            state ^= state << 17;
            state as u8
        })
        .collect()
}

fn public_of(secret: &[u8; 32]) -> [u8; 32] {
    SigningKey::from_bytes(secret).verifying_key().to_bytes()
}

fn manifest_with(hashes: &[[u8; 32]]) -> DeltaManifest {
    DeltaManifest {
        version: manifest::VERSION,
        payload_len: 1024 * hashes.len() as u64,
        chunks: hashes
            .iter()
            .map(|h| ChunkEntry {
                hash: *h,
                length: 1024,
            })
            .collect(),
    }
}

fn ext() -> SisrFooterExt {
    SisrFooterExt {
        sisr_version: SISR_VERSION,
        chunk_table_offset: 1234,
        chunk_table_len: 92,
        merkle_root: [0xAB; 32],
        signature: [0xCD; 64],
    }
}

fn signed_config(secret: [u8; 32]) -> SisrBuildConfig {
    SisrBuildConfig {
        enabled: true,
        chunk_target_size: 8192,
        signing_key: Some(secret),
    }
}

#[test]
fn size_is_110_bytes() {
    assert_eq!(SIZE, 110);
    assert_eq!(SisrFooterExt::pack(&ext()).len(), 110);
}

#[test]
fn header_overhead_stays_under_4kib() {
    let manifest = DeltaManifest {
        version: manifest::VERSION,
        payload_len: 100 << 20,
        chunks: (0u8..100)
            .map(|i| ChunkEntry {
                hash: [i; 32],
                length: 1024,
            })
            .collect(),
    };
    let overhead = SIZE + manifest.encoded_len();
    assert!(overhead < 4096, "SISR header overhead {overhead} exceeds 4 KiB");
}

#[test]
fn pack_parse_roundtrip_is_bit_exact() {
    let e = ext();
    let bytes = e.pack();
    assert_eq!(SisrFooterExt::parse(&bytes).unwrap(), e);
    assert!(e.is_present());
}

#[test]
fn parse_rejects_short_buffer() {
    assert!(SisrFooterExt::parse(&[0u8; SIZE - 1]).is_err());
    assert!(SisrFooterExt::parse(&[]).is_err());
}

#[test]
fn footer_ext_layout_is_little_endian() {
    let bytes = ext().pack();
    assert_eq!(&bytes[0..2], &SISR_VERSION.to_le_bytes());
    assert_eq!(&bytes[2..10], &1234u64.to_le_bytes());
    assert_eq!(&bytes[10..14], &92u32.to_le_bytes());
    assert_eq!(&bytes[14..46], &[0xAB; 32]);
    assert_eq!(&bytes[46..110], &[0xCD; 64]);
    let absent = SisrFooterExt { sisr_version: 0, ..ext() };
    assert!(!absent.is_present());
    assert_eq!(SisrFooterExt::parse(&[0u8; 5]).unwrap_err(), Error::TruncatedFooterExt);
}

#[test]
fn merkle_root_is_deterministic_and_content_binding() {
    let leaves = [[1u8; 32], [2u8; 32], [3u8; 32], [4u8; 32]];
    assert_eq!(merkle_root(&leaves), merkle_root(&leaves));
    let mut tampered = leaves;
    tampered[2][0] ^= 1;
    assert_ne!(merkle_root(&leaves), merkle_root(&tampered));
}

#[test]
fn merkle_root_of_two_leaves_matches_manual_hash() {
    let a = [1u8; 32];
    let b = [2u8; 32];
    let mut h = Sha256::new();
    h.update(a);
    h.update(b);
    let expect: [u8; 32] = h.finalize().into();
    assert_eq!(merkle_root(&[a, b]), expect);
}

#[test]
fn merkle_root_of_single_leaf_is_the_leaf() {
    let a = [9u8; 32];
    assert_eq!(merkle_root(&[a]), a);
}

#[test]
fn merkle_root_of_odd_level_pairs_last_leaf_with_itself() {
    let pair = |x: [u8; 32], y: [u8; 32]| -> [u8; 32] {
        let mut h = Sha256::new();
        h.update(x);
        h.update(y);
        h.finalize().into()
    };
    let (a, b, c) = ([1u8; 32], [2u8; 32], [3u8; 32]);
    let expect = pair(pair(a, b), pair(c, c));
    assert_eq!(merkle_root(&[a, b, c]), expect);
    let empty: [u8; 32] = Sha256::digest(b"").into();
    assert_eq!(merkle_root(&[]), empty);
}

#[test]
fn chunk_payload_tiles_payload_and_hashes_content() {
    let payload = random_buf(100_000, 42);
    let chunks = chunk_payload(&payload, 8192).unwrap();
    let mut pos = 0;
    for chunk in &chunks {
        let end = pos + chunk.length as usize;
        let expect: [u8; 32] = Sha256::digest(&payload[pos..end]).into();
        assert_eq!(chunk.hash, expect);
        pos = end;
    }
    assert_eq!(pos, payload.len());
}

#[test]
fn chunk_payload_rejects_tiny_target() {
    assert_eq!(chunk_payload(b"abc", 3).unwrap_err(), Error::InvalidAverageChunkSize);
}

#[test]
fn sign_verify_roundtrip_with_known_key() {
    let secret = [9u8; 32];
    let public = public_of(&secret);
    let manifest = manifest_with(&[[1u8; 32], [2u8; 32]]);
    let manifest_bytes = manifest.serialize().unwrap();
    let root = [3u8; 32];
    let sig = sign(&manifest_bytes, &root, &secret);
    assert!(verify(&manifest_bytes, &root, &sig, &public));
    assert!(!verify(&manifest_bytes, &[4u8; 32], &sig, &public));
}

#[test]
fn build_artifacts_signs_when_key_present() {
    let payload = random_buf(50_000, 7);
    let config = signed_config([5u8; 32]);
    let artifacts = build_artifacts(&payload, &config).unwrap();
    let public = public_of(config.signing_key.as_ref().unwrap());
    assert!(verify(
        &artifacts.manifest_bytes,
        &artifacts.merkle_root,
        &artifacts.signature,
        &public
    ));
    assert_eq!(artifacts.manifest.payload_len, payload.len() as u64);
}

#[test]
fn build_artifacts_without_key_zero_signature() {
    let config = SisrBuildConfig {
        enabled: true,
        chunk_target_size: 8192,
        signing_key: None,
    };
    let artifacts = build_artifacts(b"data", &config).unwrap();
    assert_eq!(artifacts.signature, [0u8; 64]);
}

#[test]
fn build_artifacts_binds_root_to_manifest() {
    let config = signed_config([6u8; 32]);
    let artifacts = build_artifacts(&random_buf(40_000, 1), &config).unwrap();
    assert_eq!(artifacts.merkle_root, merkle_root_of(&artifacts.manifest));
    assert_eq!(artifacts.manifest_bytes, artifacts.manifest.serialize().unwrap());
    assert_eq!(
        DeltaManifest::parse(&artifacts.manifest_bytes).unwrap(),
        artifacts.manifest
    );
}

fn remote_of(secret: [u8; 32], payload: &[u8]) -> RemoteManifest {
    let artifacts = build_artifacts(payload, &signed_config(secret)).unwrap();
    RemoteManifest {
        merkle_root: artifacts.merkle_root,
        signature: artifacts.signature,
        manifest: artifacts.manifest,
    }
}

#[test]
fn remote_manifest_roundtrip_and_verification() {
    let secret = [11u8; 32];
    let public = public_of(&secret);
    let remote = remote_of(secret, &random_buf(100_000, 3));
    let bytes = remote.to_bytes().unwrap();
    let parsed = RemoteManifest::from_bytes(&bytes).unwrap();
    assert_eq!(parsed, remote);
    assert!(parsed.verify_signature(&public));
    assert!(parsed.verify_merkle());
}

#[test]
fn remote_manifest_verify_any_accepts_any_trusted_key() {
    let secret = [17u8; 32];
    let other = public_of(&[19u8; 32]);
    let public = public_of(&secret);
    let remote = remote_of(secret, &random_buf(10_000, 4));
    assert!(remote.verify_any(&[other, public]));
    assert!(!remote.verify_any(&[other]));
    assert!(!remote.verify_any(&[]));
}

#[test]
fn remote_manifest_rejects_tampering() {
    let secret = [13u8; 32];
    let public = public_of(&secret);
    let remote = remote_of(secret, &random_buf(100_000, 9));
    let mut bytes = remote.to_bytes().unwrap();
    let last = bytes.len() - 1;
    bytes[last] ^= 0xFF;
    let parsed = RemoteManifest::from_bytes(&bytes).unwrap();
    assert!(!parsed.verify_signature(&public));
}

#[test]
fn remote_manifest_rejects_bad_magic_and_truncation() {
    let mut bytes = vec![0u8; REMOTE_HEADER_SIZE + manifest::HEADER_SIZE];
    bytes[0..4].copy_from_slice(b"XXXX");
    assert!(RemoteManifest::from_bytes(&bytes).is_err());
    assert!(RemoteManifest::from_bytes(&bytes[..REMOTE_HEADER_SIZE - 1]).is_err());
}

#[test]
fn tampered_merkle_root_fails_merkle_check() {
    let mut remote = remote_of([21u8; 32], &random_buf(30_000, 8));
    assert!(remote.verify_merkle());
    remote.merkle_root[0] ^= 1;
    assert!(!remote.verify_merkle());
}

#[test]
fn delta_manifest_roundtrip() {
    let m = manifest_with(&[[1u8; 32], [2u8; 32], [3u8; 32]]);
    let bytes = m.serialize().unwrap();
    assert_eq!(bytes.len(), m.encoded_len());
    assert_eq!(DeltaManifest::parse(&bytes).unwrap(), m);
    assert!(DeltaManifest::parse(&bytes[..bytes.len() - 1]).is_err());
}

/// A 92-byte v3+ footer stand-in: `read_from` never looks inside it.
fn v3_footer_bytes() -> [u8; 92] {
    [0xBB; 92]
}

#[test]
fn read_from_locates_ext_before_footer() {
    let mut data = vec![0u8; 92];
    data.extend_from_slice(&ext().pack());
    data.extend_from_slice(&v3_footer_bytes());
    let got = SisrFooterExt::read_from(&data, 92).unwrap();
    assert_eq!(got, ext());
}

#[test]
fn read_from_returns_none_when_absent() {
    let mut e = ext();
    e.sisr_version = 0;
    let mut data = Vec::new();
    data.extend_from_slice(&e.pack());
    data.extend_from_slice(&v3_footer_bytes());
    assert!(SisrFooterExt::read_from(&data, 92).is_none());
}

#[test]
fn read_from_returns_none_for_small_files() {
    assert!(SisrFooterExt::read_from(&[0u8; 10], 92).is_none());
    assert!(SisrFooterExt::read_from(&[0u8; 201], 92).is_none());
    assert!(SisrFooterExt::read_from(&[0u8; 300], u64::MAX).is_none());
}

fn ext_with(chunk_table_offset: u64, chunk_table_len: u32) -> SisrFooterExt {
    SisrFooterExt {
        sisr_version: SISR_VERSION,
        chunk_table_offset,
        chunk_table_len,
        merkle_root: [0; 32],
        signature: [0; 64],
    }
}

/// 1000 zero bytes, then `e`, then a v3 footer stand-in.
fn file_with_ext(e: &SisrFooterExt) -> Vec<u8> {
    let mut data = vec![0u8; 1000];
    data.extend_from_slice(&e.pack());
    data.extend_from_slice(&v3_footer_bytes());
    data
}

#[test]
fn read_sisr_roundtrip_full_file() {
    let manifest = DeltaManifest {
        version: manifest::VERSION,
        payload_len: 4096,
        chunks: vec![ChunkEntry {
            hash: [7; 32],
            length: 4096,
        }],
    };
    let manifest_bytes = manifest.serialize().unwrap();
    let e = SisrFooterExt {
        sisr_version: SISR_VERSION,
        chunk_table_offset: 1000,
        chunk_table_len: manifest_bytes.len() as u32,
        merkle_root: [0xEE; 32],
        signature: [0x11; 64],
    };
    let mut data = vec![0u8; 1000];
    data.extend_from_slice(&manifest_bytes);
    data.extend_from_slice(&e.pack());
    data.extend_from_slice(&v3_footer_bytes());
    let (got_ext, got_manifest) = read_sisr(&data, true, 92).unwrap().unwrap();
    assert_eq!(got_ext, e);
    assert_eq!(got_manifest, manifest);
}

#[test]
fn read_sisr_returns_none_for_legacy_file() {
    let mut data = vec![0x00; 500];
    data.extend_from_slice(&v3_footer_bytes());
    assert!(read_sisr(&data, false, 92).unwrap().is_none());
}

#[test]
fn read_sisr_rejects_out_of_bounds_chunk_table() {
    let data = file_with_ext(&ext_with(2000, 20));
    assert_eq!(read_sisr(&data, true, 92), Err(Error::ChunkTableOutOfBounds));
}

#[test]
fn read_sisr_rejects_offset_overflow() {
    let data = file_with_ext(&ext_with(u64::MAX - 10, u32::MAX));
    assert!(read_sisr(&data, true, 92).is_err());
    let data = file_with_ext(&ext_with(u64::MAX - 10, 20));
    assert_eq!(read_sisr(&data, true, 92), Err(Error::ChunkTableOffsetOverflow));
}

#[test]
fn read_sisr_rejects_missing_manifest_for_set_flag() {
    let data = file_with_ext(&ext_with(0, 4));
    assert!(read_sisr(&data, true, 92).is_err());
}

#[test]
fn read_sisr_rejects_oversized_manifest() {
    let data = file_with_ext(&ext_with(0, (MAX_MANIFEST_SIZE + 1) as u32));
    let err = read_sisr(&data, true, 92).unwrap_err();
    assert_eq!(err, Error::SisrManifestTooLarge);
    assert!(err.message().contains("maximum allowed size"));
}

#[test]
fn read_sisr_rejects_set_flag_without_extension() {
    let mut data = vec![0u8; 1000];
    data.extend_from_slice(&v3_footer_bytes());
    assert_eq!(read_sisr(&data, true, 92), Err(Error::MissingSisrExtension));
    assert_eq!(read_sisr(&[0u8; 50], true, 92), Err(Error::MissingSisrExtension));
}

#[test]
fn read_sisr_arbitrary_bytes_never_panic() {
    for len in [0usize, 1, 91, 92, 201, 202, 203, 500, 8191] {
        for seed in 1..20u64 {
            let buf = random_buf(len, seed);
            let _ = read_sisr(&buf, true, 92);
            let _ = read_sisr(&buf, true, 84);
        }
    }
}

#[test]
fn key_pair_files_names_files_by_public_key() {
    let secret = [9u8; 32];
    let files = erebus::signing::key_pair_files(&secret);
    let public = public_of(&secret);
    assert_eq!(files.public_key, public);
    let hex: String = public.iter().map(|b| format!("{b:02x}")).collect();
    assert_eq!(files.fingerprint, hex);
    assert_eq!(files.private_key_file, format!("{hex}.key"));
    assert_eq!(files.public_key_file, format!("{hex}.pub"));
}
