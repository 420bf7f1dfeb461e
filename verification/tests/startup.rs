use ed25519_dalek::{Signer, SigningKey};
use erebus::detect::Runtime;
use erebus::error::Error;
use erebus::sisr_stage::{build_artifacts, sign, RemoteManifest, SisrBuildConfig};
use erebus::launcher::HealthCheckMeta;
use erebus::startup::{
    authenticate_update, check_runtime, decrypt_material, finished_status, flag_argument, gate_verdict,
    check_chunk_length, chunk_url, gc_plan, health_request_ok, health_server, launch_step, runtime_flag, signature_check, trusted_keys_from,
    verify_signature_block,
    CacheEntryFact, ChildStatus, GateVerdict, KeyFileFact, LaunchStep, RuntimeFlag, SignatureCheck,
};
use sha2::{Digest, Sha256};

fn strings(v: &[&str]) -> Vec<String> {
    v.iter().map(|s| s.to_string()).collect()
}

fn public_of(secret: &[u8; 32]) -> [u8; 32] {
    SigningKey::from_bytes(secret).verifying_key().to_bytes()
}

fn payload(len: usize, seed: u8) -> Vec<u8> {
    (0..len).map(|i| (i as u8).wrapping_mul(31).wrapping_add(seed)).collect()
}

fn config(key: Option<[u8; 32]>) -> SisrBuildConfig {
    SisrBuildConfig {
        enabled: true,
        chunk_target_size: 8192,
        signing_key: key,
    }
}

fn remote_bytes(key: Option<[u8; 32]>, data: &[u8]) -> Vec<u8> {
    let a = build_artifacts(data, &config(key)).unwrap();
    RemoteManifest {
        merkle_root: a.merkle_root,
        signature: a.signature,
        manifest: a.manifest,
    }
    .to_bytes()
    .unwrap()
}

#[test]
fn flag_argument_takes_the_following_value() {
    let args = strings(&["prog", "--decrypt-key", "k.hex", "--x"]);
    assert_eq!(flag_argument(&args, "--decrypt-key").unwrap(), "k.hex");
    assert_eq!(flag_argument(&args, "--x"), None);
    assert_eq!(flag_argument(&Vec::new(), "--x"), None);
}

#[test]
fn unknown_runtime_is_refused_with_the_supported_list() {
    assert_eq!(check_runtime("python").unwrap(), Runtime::Python);
    assert_eq!(
        check_runtime("cobol").unwrap_err(),
        "unsupported runtime 'cobol' in metadata — supported: python, deno, node, electron, java, ruby, dotnet, rust, go, php, perl, hugo, wasm, binary"
    );
}

#[test]
fn reserved_flags_version_wins_then_first_update() {
    assert_eq!(
        runtime_flag(&strings(&["--daedalus-update=https://x", "--daedalus-version"])),
        RuntimeFlag::Version
    );
    assert_eq!(
        runtime_flag(&strings(&["serve", "--daedalus-update", "--daedalus-update=u"])),
        RuntimeFlag::Update(1)
    );
    assert_eq!(
        runtime_flag(&strings(&["--daedalus-updater"])),
        RuntimeFlag::Launch
    );
    assert_eq!(runtime_flag(&Vec::new()), RuntimeFlag::Launch);
}

#[test]
fn signature_check_follows_layout() {
    assert_eq!(signature_check(3, 100, true, false), Ok(SignatureCheck::Verify));
    assert_eq!(
        signature_check(3, 0, true, false),
        Err(Error::InconsistentSignatureState)
    );
    assert_eq!(
        signature_check(3, 100, false, false),
        Err(Error::InconsistentSignatureState)
    );
    assert_eq!(
        signature_check(2, 0, false, false),
        Ok(SignatureCheck::CheckDowngrade)
    );
    assert_eq!(signature_check(2, 0, false, true), Ok(SignatureCheck::Skip));
    assert_eq!(signature_check(3, 0, false, false), Ok(SignatureCheck::Skip));
}

fn signed_block(secret: &[u8; 32], payload: &[u8], meta: &[u8], footer: &[u8]) -> [u8; 68] {
    let mut h = Sha256::new();
    h.update(payload);
    h.update(meta);
    h.update(footer);
    let digest = h.finalize();
    let sig = SigningKey::from_bytes(secret).sign(&digest).to_bytes();
    let mut block = [0u8; 68];
    block[0] = 64;
    block[4..].copy_from_slice(&sig);
    block
}

#[test]
fn signature_block_verifies_with_trusted_key_only() {
    let secret = [5u8; 32];
    let block = signed_block(&secret, b"payload", b"{}", b"footer");
    let good = public_of(&secret);
    let other = public_of(&[6u8; 32]);
    assert_eq!(
        verify_signature_block(&block, b"payload", b"{}", b"footer", &[other, good]),
        Ok(())
    );
    assert_eq!(
        verify_signature_block(&block, b"payload", b"{}", b"footer", &[other]),
        Err(Error::SignatureVerificationFailed)
    );
    assert_eq!(
        verify_signature_block(&block, b"payload", b"{}", b"FOOTER", &[good]),
        Err(Error::SignatureVerificationFailed)
    );
    let mut bad = block;
    bad[0] = 63;
    assert_eq!(
        verify_signature_block(&bad, b"payload", b"{}", b"footer", &[good]),
        Err(Error::InvalidSignatureSize)
    );
}

#[test]
fn trusted_keys_skip_malformed_entries() {
    let good = public_of(&[9u8; 32]);
    let files = vec![
        KeyFileFact { is_file: true, content: Some(good.to_vec()) },
        KeyFileFact { is_file: false, content: Some(good.to_vec()) },
        KeyFileFact { is_file: true, content: Some(vec![1u8; 31]) },
        KeyFileFact { is_file: true, content: None },
        KeyFileFact { is_file: true, content: Some(public_of(&[10u8; 32]).to_vec()) },
    ];
    let keys = trusted_keys_from(&files);
    assert_eq!(keys, vec![good, public_of(&[10u8; 32])]);
}

#[test]
fn untrusted_signature_is_refused() {
    let bytes = remote_bytes(Some([1u8; 32]), &payload(40_000, 1));
    let err = authenticate_update(&bytes, &[public_of(&[2u8; 32])]).unwrap_err();
    assert_eq!(err, Error::UpdateSignatureRejected);
    assert!(authenticate_update(&bytes, &[public_of(&[1u8; 32])]).is_ok());
}

#[test]
fn unsigned_remote_manifest_is_refused() {
    let bytes = remote_bytes(None, &payload(20_000, 2));
    let err = authenticate_update(&bytes, &[public_of(&[1u8; 32])]).unwrap_err();
    assert_eq!(err, Error::UpdateSignatureRejected);
}

#[test]
fn merkle_root_mismatch_is_refused() {
    let secret = [3u8; 32];
    let a = build_artifacts(&payload(30_000, 3), &config(None)).unwrap();
    let mut root = a.merkle_root;
    root[0] ^= 1;
    let signature = sign(&a.manifest_bytes, &root, &secret);
    let bytes = RemoteManifest {
        merkle_root: root,
        signature,
        manifest: a.manifest,
    }
    .to_bytes()
    .unwrap();
    let err = authenticate_update(&bytes, &[public_of(&secret)]).unwrap_err();
    assert_eq!(err, Error::UpdateMerkleMismatch);
}

#[test]
fn corrupt_manifest_is_refused() {
    let mut bytes = remote_bytes(Some([4u8; 32]), &payload(10_000, 4));
    bytes[0] = b'Z';
    assert!(authenticate_update(&bytes, &[public_of(&[4u8; 32])]).is_err());
    assert!(authenticate_update(&bytes[..20], &[public_of(&[4u8; 32])]).is_err());
}

fn entry(name: &str, ready: bool, t: u64) -> CacheEntryFact {
    CacheEntryFact {
        name: name.to_string(),
        ready,
        ready_mtime: t,
    }
}

#[test]
fn gc_extraction_cache_never_evicts_in_progress_extraction() {
    let entries = vec![entry("aaa", true, 10), entry("bbb", true, 20), entry("ccc", false, 0)];
    assert_eq!(gc_plan(&entries, 1), strings(&["aaa"]));
    assert_eq!(gc_plan(&entries, 2), Vec::<String>::new());
    assert_eq!(gc_plan(&entries, 0), strings(&["aaa", "bbb"]));
}

#[test]
fn gc_plan_evicts_oldest_first() {
    let entries = vec![entry("new", true, 300), entry("old", true, 100), entry("mid", true, 200)];
    assert_eq!(gc_plan(&entries, 1), strings(&["old", "mid"]));
}

#[test]
fn launch_step_follows_health_record() {
    assert_eq!(launch_step(true, true, true), LaunchStep::Supervise);
    assert_eq!(launch_step(false, true, true), LaunchStep::RollBack);
    assert_eq!(launch_step(false, false, true), LaunchStep::RunServices);
    assert_eq!(launch_step(false, false, false), LaunchStep::RunApp);
}

#[test]
fn health_gate_verdicts() {
    assert_eq!(
        gate_verdict(ChildStatus::StillRunning),
        GateVerdict::Healthy { still_running: true }
    );
    assert_eq!(
        gate_verdict(ChildStatus::Exited(0)),
        GateVerdict::Healthy { still_running: false }
    );
    assert_eq!(gate_verdict(ChildStatus::Exited(3)), GateVerdict::Failed(3));
    assert_eq!(gate_verdict(ChildStatus::Signaled(137)), GateVerdict::Failed(137));
}

#[test]
fn finished_status_decodes_wait_status() {
    assert_eq!(finished_status(0), ChildStatus::Exited(0));
    assert_eq!(finished_status(0x0100), ChildStatus::Exited(1));
    assert_eq!(finished_status(9), ChildStatus::Signaled(137));
    assert_eq!(finished_status(15), ChildStatus::Signaled(143));
}

#[test]
fn decrypt_material_checks_each_part() {
    assert_eq!(
        decrypt_material(None, "", "").unwrap_err(),
        "payload is encrypted — pass --decrypt-key <32-byte-hex-keyfile> to decrypt"
    );
    let bad = decrypt_material(Some("zz"), "", "").unwrap_err();
    assert!(bad.starts_with("invalid decrypt key hex: "), "{bad}");
    assert_eq!(
        decrypt_material(Some("abcd"), "", "").unwrap_err(),
        "decrypt key must be 32 bytes, got 2"
    );
    let key = "11".repeat(32);
    let salt = "22".repeat(32);
    let nonce = "33".repeat(12);
    assert!(decrypt_material(Some(&key), "xx", &nonce)
        .unwrap_err()
        .starts_with("bad encryption salt hex: "));
    assert!(decrypt_material(Some(&key), &salt, "q")
        .unwrap_err()
        .starts_with("bad encryption nonce hex: "));
    assert_eq!(
        decrypt_material(Some(&key), &"22".repeat(16), &nonce).unwrap_err(),
        "encryption metadata has invalid salt/nonce length"
    );
    let m = decrypt_material(Some(&key), &salt, &nonce).unwrap();
    assert_eq!(m.key, [0x11; 32]);
    assert_eq!(m.salt, [0x22; 32]);
    assert_eq!(m.nonce, [0x33; 12]);
}

#[test]
fn health_requests_need_get_and_the_endpoint_on_the_first_line() {
    assert!(health_request_ok(b"GET /health HTTP/1.1\r\nHost: x\r\n\r\n", b"/health"));
    assert!(health_request_ok(b"GET /healthz HTTP/1.1", b"/health"));
    assert!(!health_request_ok(b"POST /health HTTP/1.1\r\n", b"/health"));
    assert!(!health_request_ok(b"GET / HTTP/1.1\r\n/health\n", b"/health"));
    assert!(!health_request_ok(b"GE", b"/health"));
    assert!(!health_request_ok(b"", b"/health"));
    assert!(health_request_ok(b"GET /", b"/"));
}

#[test]
fn health_server_only_when_enabled_on_a_port() {
    let hc = |port: u16, enabled: bool| {
        Some(HealthCheckMeta {
            port,
            endpoint: "/health".to_string(),
            enabled,
        })
    };
    assert_eq!(health_server(&hc(8080, true)), Some((8080, "/health".to_string())));
    assert_eq!(health_server(&hc(0, true)), None);
    assert_eq!(health_server(&hc(8080, false)), None);
    assert_eq!(health_server(&None), None);
}

#[test]
fn chunk_urls_are_content_addressed() {
    let mut h = [0u8; 32];
    h[0] = 0xab;
    h[31] = 0x01;
    let url = chunk_url("https://example.com/app/chunks", &h);
    assert_eq!(
        url,
        format!("https://example.com/app/chunks/ab{}01", "00".repeat(30))
    );
    assert_eq!(check_chunk_length(10, 10), Ok(()));
    assert_eq!(
        check_chunk_length(9, 10).unwrap_err(),
        "fetched chunk length mismatch"
    );
}
