use ed25519_dalek::SigningKey;
use erebus::legacy::{upgrade_binary, LegacyFooter};
use erebus::sisr_header::{SisrFooterExt, SISR_VERSION, SIZE};
use erebus::sisr_stage::{RemoteManifest, SisrBuildConfig};

const STUB: &[u8] = b"STUB_DATA";
const PAYLOAD: &[u8] = b"PAYLOAD_PAYLOAD_PAYLOAD";
const META: &[u8] = br#"{"name":"legacy"}"#;

fn config() -> SisrBuildConfig {
    SisrBuildConfig {
        enabled: true,
        chunk_target_size: 8192,
        signing_key: Some([5u8; 32]),
    }
}

/// A classic layout `[stub][payload][metadata][84-byte footer]`, with the
/// footer's fields as an upgrade reads them.
fn fixture_v1() -> (Vec<u8>, LegacyFooter) {
    let mut data = Vec::new();
    data.extend_from_slice(STUB);
    data.extend_from_slice(PAYLOAD);
    data.extend_from_slice(META);
    data.extend_from_slice(&[0xEE; 84]);
    let f = LegacyFooter {
        format_version: 2,
        has_sisr: false,
        signed_flag: false,
        payload_offset: STUB.len() as u64,
        payload_csize: PAYLOAD.len() as u64,
        meta_offset: (STUB.len() + PAYLOAD.len()) as u64,
        meta_size: META.len() as u64,
        footer_size: 84,
    };
    (data, f)
}

#[test]
fn upgrade_preserves_segments_and_sets_sisr() {
    let (data, f) = fixture_v1();
    let u = upgrade_binary(&data, &f, &config()).unwrap();
    let meta_end = (f.meta_offset + f.meta_size) as usize;
    assert_eq!(&u.body[..meta_end], &data[..meta_end]);
    assert_eq!(&u.body[meta_end..meta_end + u.artifacts.manifest_bytes.len()], &u.artifacts.manifest_bytes[..]);
    let ext = SisrFooterExt::parse(&u.body[u.body.len() - SIZE..]).unwrap();
    assert_eq!(ext, u.ext);
    assert_eq!(ext.sisr_version, SISR_VERSION);
    assert_eq!(ext.chunk_table_offset, meta_end as u64);
    assert_eq!(ext.chunk_table_len as usize, u.artifacts.manifest_bytes.len());
    assert_eq!(u.artifacts.manifest.payload_len, PAYLOAD.len() as u64);
    assert_eq!(u.report.input_size, data.len() as u64);
    assert_eq!(u.report.output_size, u.body.len() as u64 + 84);
    assert_eq!(u.report.manifest_offset, meta_end as u64);
    assert_eq!(u.report.chunk_count, u.artifacts.manifest.chunks.len());
    assert!(u.report.signed);

    let remote = RemoteManifest::from_bytes(&u.remote_manifest).unwrap();
    assert!(remote.verify_merkle());
    let public = SigningKey::from_bytes(&[5u8; 32]).verifying_key().to_bytes();
    assert!(remote.verify_signature(&public));
    assert_eq!(remote.merkle_root, ext.merkle_root);
}

#[test]
fn upgrade_rejects_already_sisr() {
    let (data, mut f) = fixture_v1();
    f.has_sisr = true;
    let err = upgrade_binary(&data, &f, &config()).unwrap_err();
    assert!(err.contains("already SISR"), "{err}");
}

#[test]
fn upgrade_rejects_signed_input() {
    let (data, mut f) = fixture_v1();
    f.format_version = 3;
    let err = upgrade_binary(&data, &f, &config()).unwrap_err();
    assert!(err.contains("not upgradeable"), "{err}");
    let (data, mut f) = fixture_v1();
    f.signed_flag = true;
    assert!(upgrade_binary(&data, &f, &config()).unwrap_err().contains("not upgradeable"));
}

#[test]
fn upgrade_rejects_non_erebus() {
    let junk = b"this is not an erebus file at all".to_vec();
    let (_, mut f) = fixture_v1();
    f.footer_size = 84;
    assert_eq!(upgrade_binary(&junk, &f, &config()).unwrap_err(), "file too small");
    let (data, mut f) = fixture_v1();
    f.meta_size = 1000;
    assert_eq!(
        upgrade_binary(&data, &f, &config()).unwrap_err(),
        "malformed .erebus: overlapping or out-of-bounds segments"
    );
    let (data, mut f) = fixture_v1();
    f.payload_csize = 100;
    assert!(upgrade_binary(&data, &f, &config()).is_err());
}

#[test]
fn upgrade_requires_enabled_stage_and_a_chunkable_payload() {
    let (data, f) = fixture_v1();
    let mut c = config();
    c.enabled = false;
    assert_eq!(
        upgrade_binary(&data, &f, &c).unwrap_err(),
        "upgrade requires the SISR stage to be enabled"
    );
    let mut c = config();
    c.chunk_target_size = 2;
    assert_eq!(
        upgrade_binary(&data, &f, &c).unwrap_err(),
        "average chunk size must be at least 4 bytes"
    );
}

#[test]
fn upgrade_refuses_a_chunk_size_under_four() {
    let (data, f) = fixture_v1();
    let mut c = config();
    c.chunk_target_size = 3;
    let e = upgrade_binary(&data, &f, &c).unwrap_err();
    assert_eq!(e, "average chunk size must be at least 4 bytes");
}

#[test]
fn upgrade_refuses_overflowing_offsets_after_the_flag_checks() {
    let (data, mut f) = fixture_v1();
    f.payload_offset = u64::MAX - 1;
    f.payload_csize = 10;
    assert_eq!(upgrade_binary(&data, &f, &config()).unwrap_err(), "payload range overflows this platform");
    f.has_sisr = true;
    assert_eq!(upgrade_binary(&data, &f, &config()).unwrap_err(), "input is already SISR-enabled");
    let (data, mut f) = fixture_v1();
    f.meta_offset = u64::MAX;
    f.meta_size = 1;
    assert!(upgrade_binary(&data, &f, &config()).is_err());
}

#[test]
fn upgraded_binary_reads_back_with_its_footer() {
    let (data, f) = fixture_v1();
    let u = upgrade_binary(&data, &f, &config()).unwrap();
    let mut out = u.body.clone();
    out.extend_from_slice(&data[data.len() - 84..]);
    let (ext, m) = erebus::sisr_header::read_sisr(&out, true, 84).unwrap().unwrap();
    assert_eq!(ext, u.ext);
    assert_eq!(m, u.artifacts.manifest);
    assert_eq!(m.payload_len, f.payload_csize);
    assert_eq!(ext.chunk_table_offset, u.report.manifest_offset);
    assert_eq!(&out[..(f.meta_offset + f.meta_size) as usize], &data[..(f.meta_offset + f.meta_size) as usize]);
}
