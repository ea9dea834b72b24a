use linux_practice_lab::install::{
    ensure_direct_child, expand_image, install_step, InstallAction, InstallEvent, InstallOutcome, InstallState,
};
use linux_practice_lab::integrity::{
    observation, sha256_hex, FileObservation, FileVerdict, Manifest, ManifestEntry, VerificationReport,
};
use linux_practice_lab::health::{HealthCheck, RecoveryAction, Severity};
use sha2::Digest;
use std::collections::BTreeMap;

type Files = BTreeMap<String, Vec<u8>>;

fn entry(path: &str, content: &[u8], optional: bool) -> ManifestEntry {
    ManifestEntry {
        path: path.to_string(),
        sha256: sha256_hex(content),
        size_bytes: content.len() as u64,
        optional,
    }
}

fn manifest(version: &str, files: Vec<ManifestEntry>) -> Manifest {
    Manifest {
        runtime_version: version.to_string(),
        qemu_version: "9.1.0".to_string(),
        image_version: "debian-13.6-1".to_string(),
        files,
    }
}

/// Verifies a manifest against files held in memory, reading a file's bytes only when its
/// size is the recorded one.
fn verify(m: &Manifest, files: &Files) -> VerificationReport {
    let observed: Vec<FileObservation> = m
        .files
        .iter()
        .map(|e| {
            let content = files.get(&e.path);
            let size = content.map(|b| b.len() as u64);
            let read = if e.needs_digest(size) { Some(Ok(content.unwrap().clone())) } else { None };
            observation(size, read)
        })
        .collect();
    m.verify(&observed)
}

fn verify_quick(m: &Manifest, files: &Files) -> VerificationReport {
    let sizes: Vec<Option<u64>> = m.files.iter().map(|e| files.get(&e.path).map(|b| b.len() as u64)).collect();
    m.verify_quick(&sizes)
}

fn one_file(name: &str, content: &[u8]) -> (Manifest, Files) {
    let m = manifest("1.0.0", vec![entry(name, content, false)]);
    let mut files = Files::new();
    files.insert(name.to_string(), content.to_vec());
    (m, files)
}

#[test]
fn sha256_of_abc_is_the_published_digest() {
    assert_eq!(
        sha256_hex(b"abc"),
        "ba7816bf8f01cfea414140de5dae2223b00361a396177a9cb410ff61f20015ad"
    );
    assert_eq!(
        sha256_hex(b""),
        "e3b0c44298fc1c149afbf4c8996fb92427ae41e4649b934ca495991b7852b855"
    );
}

#[test]
fn intact_files_verify() {
    let (m, files) = one_file("vmlinuz", b"kernel bytes");
    let report = verify(&m, &files);
    assert!(report.is_healthy());
    assert!(report.problems().is_empty());
}

#[test]
fn a_quarantined_file_is_reported_with_the_antivirus_hint() {
    let (m, mut files) = one_file("vmlinuz", b"kernel bytes");
    files.remove("vmlinuz");
    let report = verify(&m, &files);
    assert!(!report.is_healthy());
    let problem = &report.problems()[0];
    assert!(problem.contains("Antivirus"), "{problem}");
    assert!(problem.contains("Reinstall Runtime"), "{problem}");
}

#[test]
fn a_truncated_file_is_detected_by_size_before_hashing() {
    let (m, mut files) = one_file("debian-base.raw", b"0123456789");
    files.insert("debian-base.raw".to_string(), b"01234".to_vec());
    let report = verify(&m, &files);
    assert_eq!(report.results[0].1, FileVerdict::WrongSize { expected: 10, actual: 5 });
}

#[test]
fn a_modified_file_of_the_same_length_is_caught_by_the_hash() {
    let (m, mut files) = one_file("vmlinuz", b"aaaa");
    files.insert("vmlinuz".to_string(), b"bbbb".to_vec());
    let report = verify(&m, &files);
    assert!(matches!(report.results[0].1, FileVerdict::WrongHash { .. }));
    // The quick check cannot see this, which is why the full check exists.
    assert!(verify_quick(&m, &files).is_healthy());
}

#[test]
fn optional_files_may_be_absent() {
    let m = manifest(
        "1.0.0",
        vec![ManifestEntry { path: "initrd.img".into(), sha256: "0".repeat(64), size_bytes: 10, optional: true }],
    );
    let files = Files::new();
    assert!(verify(&m, &files).is_healthy());
    assert!(verify_quick(&m, &files).is_healthy());
}

#[test]
fn hashing_is_stable_across_chunk_boundaries() {
    let content = vec![7u8; (1 << 20) + 12345];
    let direct = hex::encode(sha2::Sha256::digest(&content));
    assert_eq!(sha256_hex(&content), direct);
}

#[test]
fn an_unreadable_file_is_reported_with_its_reason() {
    let e = entry("vmlinuz", b"kernel", false);
    let seen = observation(Some(6), Some(Err("permission denied".to_string())));
    assert_eq!(e.full_verdict(&seen), FileVerdict::Unreadable("permission denied".to_string()));
}

#[test]
fn a_compressed_image_expands_to_its_bytes() {
    let packed = zstd::encode_all(&b"small raw image"[..], 1).unwrap();
    assert_eq!(expand_image(&packed, "image.zst").unwrap(), b"small raw image".to_vec());
}

#[test]
fn a_damaged_compressed_image_is_refused_with_its_path() {
    assert_eq!(
        expand_image(b"not a zstd frame", "/data/debian-base.raw.zst").unwrap_err(),
        "could not decompress the Linux base image /data/debian-base.raw.zst"
    );
}

// --- installation, run against files held in memory ------------------------------------

struct Machine {
    bundle: Files,
    manifest: Manifest,
    live: Option<Files>,
}

const RAW: &str = "debian-base.raw";
const COMPRESSED: &str = "debian-base.raw.zst";

/// A machine with the bundled runtime for `raw` and nothing installed yet.
fn machine(raw: &[u8]) -> Machine {
    let compressed = zstd::encode_all(raw, 1).unwrap();
    let m = manifest(
        "1.0.0",
        vec![
            entry("qemu-img.exe", b"qemu", false),
            entry(COMPRESSED, &compressed, true),
            entry(RAW, raw, false),
        ],
    );
    let mut files = Files::new();
    files.insert("qemu-img.exe".to_string(), b"qemu".to_vec());
    files.insert(COMPRESSED.to_string(), compressed);
    Machine { bundle: files, manifest: m, live: None }
}

/// Runs an installation to its end, doing each action in memory.
fn install(machine: &mut Machine, force: bool) -> Result<InstallOutcome, String> {
    let existing = machine.live.as_ref().map(|files| {
        let m = machine.manifest.clone();
        let report = verify_quick(&m, files);
        (m, report)
    });
    let mut state = InstallState::Start { force, version: "1.0.0".to_string() };
    let mut event = InstallEvent::Existing(existing);
    let mut staging = Files::new();
    loop {
        let (next, action) = install_step(state, event);
        state = next;
        event = match action {
            InstallAction::Stage => {
                staging = machine.bundle.clone();
                InstallEvent::Staged(Ok(machine.manifest.clone()))
            }
            InstallAction::Verify(m) => InstallEvent::Verified(verify(&m, &staging)),
            InstallAction::Expand => {
                let packed = staging.remove(COMPRESSED).unwrap_or_default();
                InstallEvent::Expanded(expand_image(&packed, COMPRESSED).map(|raw| {
                    staging.insert(RAW.to_string(), raw);
                }))
            }
            InstallAction::Activate => {
                machine.live = Some(staging.clone());
                InstallEvent::Activated(Ok(()))
            }
            InstallAction::Finish(outcome) => return Ok(outcome),
            InstallAction::Abandon(why) | InstallAction::Fail(why) => return Err(why),
            InstallAction::Nothing => return Err("stopped".to_string()),
        };
    }
}

#[test]
fn first_run_installs_and_verifies_the_materialised_image() {
    let mut machine = machine(b"small raw image");
    assert_eq!(install(&mut machine, false).unwrap(), InstallOutcome::Installed);
    let live = machine.live.as_ref().unwrap();
    assert_eq!(live.get(RAW).unwrap(), b"small raw image");
    assert!(verify(&machine.manifest, live).is_healthy());
}

#[test]
fn a_complete_runtime_is_not_copied_again() {
    let mut machine = machine(b"raw");
    install(&mut machine, false).unwrap();
    machine.bundle.clear();
    assert_eq!(install(&mut machine, false).unwrap(), InstallOutcome::AlreadyInstalled);
}

#[test]
fn corrupt_packaged_bytes_are_rejected_before_activation() {
    let mut machine = machine(b"raw");
    machine.bundle.insert("qemu-img.exe".to_string(), b"evil".to_vec());
    let error = install(&mut machine, false).unwrap_err();
    assert!(error.contains("failed verification"), "{error}");
    assert!(machine.live.is_none());
}

#[test]
fn forced_reinstall_repairs_same_size_corruption() {
    let mut machine = machine(b"good");
    install(&mut machine, false).unwrap();
    machine.live.as_mut().unwrap().insert(RAW.to_string(), b"evil".to_vec());
    assert_eq!(install(&mut machine, true).unwrap(), InstallOutcome::Installed);
    assert_eq!(machine.live.as_ref().unwrap().get(RAW).unwrap(), b"good");
}

#[test]
fn a_runtime_of_another_version_is_refused_before_anything_is_checked() {
    let (next, action) = install_step(
        InstallState::Staging { version: "2.0.0".to_string() },
        InstallEvent::Staged(Ok(manifest("1.0.0", vec![]))),
    );
    let why = "the bundled runtime is version 1.0.0, but the application requires 2.0.0".to_string();
    assert_eq!(next, InstallState::Failed(why.clone()));
    assert_eq!(action, InstallAction::Abandon(why));
}

#[test]
fn an_event_out_of_turn_changes_nothing() {
    let (next, action) = install_step(InstallState::CheckingRaw, InstallEvent::Expanded(Ok(())));
    assert_eq!(next, InstallState::CheckingRaw);
    assert_eq!(action, InstallAction::Nothing);
}

#[test]
fn a_failed_activation_keeps_the_staging_directory() {
    let (next, action) = install_step(InstallState::Activating, InstallEvent::Activated(Err("busy".to_string())));
    assert_eq!(next, InstallState::Failed("busy".to_string()));
    assert_eq!(action, InstallAction::Fail("busy".to_string()));
}

#[test]
fn only_a_direct_child_of_the_runtime_parent_may_be_removed() {
    assert_eq!(ensure_direct_child("/data/runtime/.installing-7", "/data/runtime"), Ok(()));
    assert_eq!(ensure_direct_child("/data/runtime/1.0.0/", "/data/runtime"), Ok(()));
    assert_eq!(
        ensure_direct_child("/data/elsewhere/.installing-7", "/data/runtime"),
        Err("refusing to remove runtime path outside /data/runtime".to_string())
    );
    assert_eq!(
        ensure_direct_child("/", "/data/runtime"),
        Err("refusing to remove runtime path outside /data/runtime".to_string())
    );
}

#[test]
fn low_disk_space_blocks_startup_and_an_unclean_shutdown_only_warns() {
    let layout = linux_practice_lab::layout::Layout::for_test("/tmp/lab", "1.0.0");
    let check = HealthCheck::new(&layout);
    let healthy = VerificationReport { results: vec![] };
    let report = check.run_with_unclean_shutdown(&Ok(healthy), Some(100 * 1024 * 1024), true);
    let disk = report.findings.iter().find(|f| f.action == RecoveryAction::FreeDiskSpace).expect("a disk finding");
    assert_eq!(disk.severity, Severity::Blocking);
    assert!(disk.detail.contains("2 GB free"), "{}", disk.detail);
    assert!(disk.detail.contains("0 GB available"), "{}", disk.detail);
    let repairs: Vec<_> = report.findings.iter().filter(|f| f.action == RecoveryAction::RepairUserOverlay).collect();
    assert_eq!(repairs.len(), 1);
    assert_eq!(repairs[0].severity, Severity::Warning);
    assert!(report
        .findings
        .iter()
        .all(|f| f.severity != Severity::Blocking || f.action != RecoveryAction::NoAction));
}
