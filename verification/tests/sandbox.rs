use erebus::sandbox::{source_manifest_matches, SourceManifest};
use erebus::error::Error;
use erebus::layer::Capability;
use erebus::sandbox::{
    build_command_line, build_env_block, build_seccomp_filter_for_syscalls, cache_root_trustworthy,
    check_link, ct_eq_sha256, host_access, quote_arg, select_denied_syscalls, to_wide,
    verify_sha256, verify_sha256_parts, DirProbe, ExtractGuard, ExtractLimits, PrioritySet,
    BPF_RET_K, DEFAULT_MAX_DECOMPRESSED_BYTES, DEFAULT_MAX_FILES, LANDLOCK_ACCESS_FS_WRITE_FILE,
    LANDLOCK_READ_ONLY, MAX_EXTRACT_SIZE_CEILING, SECCOMP_RET_ALLOW, SECCOMP_RET_KILL_PROCESS,
};
use erebus::strmap::StrMap;
use sha2::{Digest, Sha256};

const AUDIT_ARCH_X86_64: u32 = 0xC000_003E;

fn always_deny_syscalls() -> Vec<u32> {
    vec![
        libc::SYS_ptrace as u32,
        libc::SYS_bpf as u32,
        libc::SYS_userfaultfd as u32,
        libc::SYS_mount as u32,
        libc::SYS_umount2 as u32,
        libc::SYS_pivot_root as u32,
        libc::SYS_reboot as u32,
        libc::SYS_sethostname as u32,
        libc::SYS_setdomainname as u32,
        libc::SYS_swapon as u32,
        libc::SYS_swapoff as u32,
        libc::SYS_acct as u32,
        libc::SYS_kexec_load as u32,
        libc::SYS_init_module as u32,
        libc::SYS_finit_module as u32,
        libc::SYS_delete_module as u32,
    ]
}

fn network_syscalls() -> Vec<u32> {
    vec![
        libc::SYS_socket as u32,
        libc::SYS_socketpair as u32,
        libc::SYS_connect as u32,
        libc::SYS_bind as u32,
        libc::SYS_listen as u32,
        libc::SYS_accept4 as u32,
        libc::SYS_sendto as u32,
        libc::SYS_recvfrom as u32,
    ]
}

fn exec_syscalls() -> Vec<u32> {
    vec![
        libc::SYS_execve as u32,
        libc::SYS_execveat as u32,
        libc::SYS_clone as u32,
        libc::SYS_clone3 as u32,
    ]
}

fn blocked_numbers(filter: &[erebus::sandbox::SockFilter]) -> Vec<u32> {
    filter
        .iter()
        .skip(3)
        .take_while(|i| i.code & 0x05 == 0x05)
        .map(|i| i.k)
        .collect()
}

#[test]
fn validate_seccomp_filter_is_denylist_not_denyall() {
    let deny = always_deny_syscalls();
    let filter = build_seccomp_filter_for_syscalls(&deny, AUDIT_ARCH_X86_64);
    let n = deny.len();
    let kill_idx = 3 + n;
    let allow_idx = kill_idx + 1;

    assert_eq!(filter.len(), allow_idx + 1, "filter instruction count changed");

    let allow = &filter[allow_idx];
    assert_eq!(allow.code, BPF_RET_K);
    assert_eq!(
        allow.k, SECCOMP_RET_ALLOW,
        "last instruction must fall through to ALLOW (denylist, not deny-all)"
    );
    assert_eq!(SECCOMP_RET_ALLOW, libc::SECCOMP_RET_ALLOW);

    let kill = &filter[kill_idx];
    assert_eq!(kill.code, BPF_RET_K);
    assert_eq!(kill.k, SECCOMP_RET_KILL_PROCESS);
    assert_eq!(SECCOMP_RET_KILL_PROCESS, libc::SECCOMP_RET_KILL_PROCESS);
    assert_ne!(kill.k, 0, "KILL target must be a real kill, not a no-op");

    let arch_mismatch_land = 1 + 1 + filter[1].jf as usize;
    assert_eq!(arch_mismatch_land, allow_idx);
    assert_eq!(filter[arch_mismatch_land].k, SECCOMP_RET_ALLOW);

    for (idx, insn) in filter.iter().enumerate().take(kill_idx).skip(3) {
        if insn.code & 0x05 != 0x05 {
            continue;
        }
        let land = idx + 1 + insn.jt as usize;
        assert_eq!(
            land, kill_idx,
            "deny jump at idx {idx} must reach KILL (idx {kill_idx}), not {land}"
        );
    }

    let blocked = blocked_numbers(&filter);
    for want in [
        libc::SYS_ptrace as u32,
        libc::SYS_bpf as u32,
        libc::SYS_userfaultfd as u32,
        libc::SYS_mount as u32,
        libc::SYS_pivot_root as u32,
    ] {
        assert!(blocked.contains(&want), "missing denylist entry: {want}");
    }

    assert!(u16::try_from(filter.len()).is_ok());
}

#[test]
fn capability_filter_adds_network_deny_without_network_cap() {
    let deny = select_denied_syscalls(
        &[Capability::Exec],
        &always_deny_syscalls(),
        &network_syscalls(),
        &exec_syscalls(),
    );
    let filter = build_seccomp_filter_for_syscalls(&deny, AUDIT_ARCH_X86_64);
    let blocked = blocked_numbers(&filter);
    assert!(
        blocked.contains(&(libc::SYS_socket as u32)),
        "network syscall (socket) must be blocked when Network cap absent"
    );
    assert!(
        blocked.contains(&(libc::SYS_connect as u32)),
        "network syscall (connect) must be blocked"
    );
}

#[test]
fn capability_filter_without_network_cap_is_larger() {
    let base = build_seccomp_filter_for_syscalls(&always_deny_syscalls(), AUDIT_ARCH_X86_64);
    let deny = select_denied_syscalls(
        &[Capability::Exec],
        &always_deny_syscalls(),
        &network_syscalls(),
        &exec_syscalls(),
    );
    let with_caps = build_seccomp_filter_for_syscalls(&deny, AUDIT_ARCH_X86_64);
    assert!(
        with_caps.len() > base.len(),
        "filter without Network cap should have more deny entries than base"
    );
}

#[test]
fn capability_filter_adds_exec_deny_without_exec_cap() {
    let deny = select_denied_syscalls(
        &[Capability::Network],
        &always_deny_syscalls(),
        &network_syscalls(),
        &exec_syscalls(),
    );
    let filter = build_seccomp_filter_for_syscalls(&deny, AUDIT_ARCH_X86_64);
    let blocked = blocked_numbers(&filter);
    assert!(
        blocked.contains(&(libc::SYS_execve as u32)),
        "execve must be blocked when Exec cap absent"
    );
    assert!(
        blocked.contains(&(libc::SYS_clone as u32)),
        "clone must be blocked when Exec cap absent"
    );
    assert!(!blocked.contains(&(libc::SYS_socket as u32)));
}

#[test]
fn denied_syscalls_keep_order_always_network_exec() {
    let deny = select_denied_syscalls(&[], &[1, 2], &[3], &[4, 5]);
    assert_eq!(deny, vec![1, 2, 3, 4, 5]);
    let deny = select_denied_syscalls(&[Capability::Network, Capability::Exec], &[1, 2], &[3], &[4]);
    assert_eq!(deny, vec![1, 2]);
}

#[test]
fn verify_sha256_accepts_matching_digest() {
    let data = b"hello";
    let expected: [u8; 32] = Sha256::digest(data).into();
    assert!(verify_sha256(data, &expected).is_ok());
}

#[test]
fn verify_sha256_rejects_mismatch() {
    let data = b"hello";
    let mut expected = [0u8; 32];
    expected[0] = 1;
    assert!(verify_sha256(data, &expected).is_err());
}

#[test]
fn integrity_checks_name_the_mismatch() {
    let expected: [u8; 32] = Sha256::digest(b"helloworld").into();
    assert!(verify_sha256_parts(b"hello", b"world", &expected).is_ok());
    assert_eq!(
        verify_sha256_parts(b"hello", b"there", &expected),
        Err(Error::IntegrityMismatch)
    );
    assert_eq!(ct_eq_sha256(&[1u8; 32], &[1u8; 32]), Ok(()));
    assert_eq!(ct_eq_sha256(&[1u8; 32], &[2u8; 32]), Err(Error::IntegrityMismatch));
}

#[test]
fn trustworthy_cache_requires_private_permissions() {
    let probe = |mode: u32| {
        Some(DirProbe {
            is_dir: true,
            owner_uid: 1000,
            mode,
        })
    };
    assert!(
        cache_root_trustworthy(probe(0o755), 1000),
        "a user-owned, group/other-read-only dir is trustworthy"
    );
    assert!(
        !cache_root_trustworthy(probe(0o777), 1000),
        "a group/other-writable dir must be rejected"
    );
    assert!(!cache_root_trustworthy(None, 1000));
    assert!(!cache_root_trustworthy(probe(0o700), 0));
}

#[test]
fn extract_rejects_absolute_symlink() {
    let result = check_link("/etc/passwd");
    assert!(result.is_err(), "absolute symlink must be rejected");
    assert!(result.unwrap_err().contains("escapes rootfs"));
}

#[test]
fn extract_rejects_traversal_symlink() {
    let result = check_link("../../../etc/passwd");
    assert!(result.is_err(), "traversal symlink must be rejected");
    assert!(result.unwrap_err().contains("escapes rootfs"));
}

#[test]
fn extract_allows_safe_relative_symlink() {
    let result = check_link("app/data.txt");
    assert!(
        result.is_ok(),
        "safe relative symlink should be allowed: {:?}",
        result.err()
    );
}

#[test]
fn extract_limits_from_env_values() {
    let d = ExtractLimits::from_env(None, None);
    assert_eq!(d.max_bytes, DEFAULT_MAX_DECOMPRESSED_BYTES);
    assert_eq!(d.max_files, DEFAULT_MAX_FILES);
    let l = ExtractLimits::from_env(Some("99999999999999"), Some("12"));
    assert_eq!(l.max_bytes, MAX_EXTRACT_SIZE_CEILING);
    assert_eq!(l.max_files, 12);
    let g = ExtractLimits::from_env(Some("junk"), Some("junk"));
    assert_eq!(g.max_bytes, DEFAULT_MAX_DECOMPRESSED_BYTES);
    assert_eq!(g.max_files, DEFAULT_MAX_FILES);
}

#[test]
fn extract_guard_enforces_limits() {
    let mut g = ExtractGuard::new(ExtractLimits {
        max_bytes: 100,
        max_files: 2,
    });
    assert_eq!(
        g.accept_entry(101).unwrap_err(),
        "tar entry exceeds max size: 101 > 100"
    );
    assert!(g.accept_entry(60).is_ok());
    assert_eq!(
        g.accept_entry(50).unwrap_err(),
        "total decompressed size 110 exceeds 100"
    );
    let mut g = ExtractGuard::new(ExtractLimits {
        max_bytes: 100,
        max_files: 2,
    });
    assert!(g.accept_entry(1).is_ok());
    assert!(g.accept_entry(1).is_ok());
    assert_eq!(g.accept_entry(1).unwrap_err(), "file count exceeds max: 3 > 2");
}

#[test]
fn priority_set_reports_missing_files() {
    let mut p = PrioritySet::new(&vec!["a".to_string(), "b".to_string(), "c".to_string()]);
    assert!(p.contains("b"));
    p.remove("b");
    assert!(!p.contains("b"));
    assert_eq!(
        p.finish().unwrap_err(),
        "priority files not found in payload: a, c"
    );
    p.remove("a");
    p.remove("c");
    assert!(p.finish().is_ok());
}

#[test]
fn landlock_host_access_by_capability() {
    assert_eq!(host_access(&[]), Some(LANDLOCK_READ_ONLY));
    assert_eq!(host_access(&[Capability::ReadFile]), Some(LANDLOCK_READ_ONLY));
    assert_eq!(
        host_access(&[Capability::ReadFile, Capability::WriteFile]),
        Some(LANDLOCK_READ_ONLY | LANDLOCK_ACCESS_FS_WRITE_FILE)
    );
    assert_eq!(host_access(&[Capability::Network]), None);
}

#[test]
fn windows_command_line_quoting() {
    assert_eq!(quote_arg("plain"), "plain");
    assert_eq!(quote_arg("has space"), "\"has space\"");
    assert_eq!(quote_arg("say \"hi\""), "\"say \\\"hi\\\"\"");
    let argv = vec!["app.exe".to_string(), "a b".to_string(), "c".to_string()];
    assert_eq!(build_command_line(&argv), "app.exe \"a b\" c");
}

#[test]
fn windows_environment_block() {
    assert_eq!(to_wide("hé"), "hé".encode_utf16().collect::<Vec<u16>>());
    let mut env = StrMap::new();
    env.insert("B".to_string(), "2".to_string());
    env.insert("A".to_string(), "1".to_string());
    let block = build_env_block(&env).unwrap();
    let expect: Vec<u16> = "A=1\0B=2\0\0".encode_utf16().collect();
    assert_eq!(block, expect);
}

#[test]
fn source_manifest_matches_only_same_size_and_mtime() {
    let m = SourceManifest { size: 4096, mtime_ns: 1_700_000_000_123_456_789 };
    assert!(source_manifest_matches(Some(m), 4096, 1_700_000_000_123_456_789));
    assert!(!source_manifest_matches(Some(m), 4097, 1_700_000_000_123_456_789));
    assert!(!source_manifest_matches(Some(m), 4096, 1_700_000_000_123_456_790));
    assert!(!source_manifest_matches(None, 4096, 1_700_000_000_123_456_789));
}
