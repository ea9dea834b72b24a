use linux_practice_lab::accel::{detect, forced, from_probe, AccelDecision, HypervisorProbe};
use linux_practice_lab::layout::RUNTIME_VERSION;
use linux_practice_lab::overlay::{backing_format, sanitise_id, OverlayManager};
use linux_practice_lab::qemu_path::render;
use linux_practice_lab::vm::{AccelMode, MachineType, VmState};
use linux_practice_lab::vm_manager::{
    generate_token, preferred_machine, PidFile, ADVANCED_MEMORY_MB, DEFAULT_MEMORY_MB,
};

#[test]
fn removes_the_windows_extended_length_prefix() {
    assert_eq!(render(r"\\?\C:\LinuxLab\runtime\vmlinuz"), "C:/LinuxLab/runtime/vmlinuz");
}

#[test]
fn preserves_unc_semantics_when_removing_the_extended_prefix() {
    assert_eq!(
        render(r"\\?\UNC\server\share\debian-base.raw"),
        "//server/share/debian-base.raw"
    );
}

#[test]
fn ordinary_windows_paths_are_slash_normalised() {
    assert_eq!(
        render(r"F:\LinuxLab\data\practice.qcow2"),
        "F:/LinuxLab/data/practice.qcow2"
    );
}

#[test]
fn only_ready_accepts_commands() {
    assert!(VmState::Ready.accepts_commands());
    for s in [
        VmState::Stopped,
        VmState::Starting,
        VmState::BootingGuest,
        VmState::Paused,
        VmState::Stopping,
        VmState::Unbootable,
        VmState::Failed,
    ] {
        assert!(!s.accepts_commands(), "{s:?} must not accept commands");
    }
}

#[test]
fn whpx_disables_kernel_irqchip() {
    assert!(AccelMode::Whpx.as_qemu_arg().contains("kernel-irqchip=off"));
}

#[test]
fn microvm_keeps_a_kernel_clock_source() {
    let machine = MachineType::Microvm.as_qemu_arg();
    assert!(machine.contains("pit=on"));
    assert!(!machine.contains("pit=off"));
}

#[test]
fn software_translation_matches_the_single_vcpu_topology() {
    assert_eq!(AccelMode::Tcg.as_qemu_arg(), "tcg,thread=single");
}

fn every_probe() -> Vec<HypervisorProbe> {
    vec![
        HypervisorProbe::NotWindows,
        HypervisorProbe::Present,
        HypervisorProbe::Absent,
        HypervisorProbe::Unusable("access denied".to_string()),
    ]
}

#[test]
fn detection_always_yields_a_usable_mode_and_an_explanation() {
    for probe in every_probe() {
        for env in [None, Some("tcg"), Some("WHPX"), Some("kvm")] {
            let d = detect(env, &probe);
            assert!(matches!(d.mode, AccelMode::Whpx | AccelMode::Tcg));
            assert!(!d.reason.is_empty());
        }
    }
}

#[test]
fn software_fallback_never_asks_the_learner_to_do_anything() {
    let d = AccelDecision::software("Windows Hypervisor Platform is not enabled");
    assert_eq!(d.mode, AccelMode::Tcg);
    assert!(d.reason.contains("No action is needed"));
    assert!(!d.reason.to_lowercase().contains("enable "));
}

#[test]
fn default_memory_matches_the_performance_budget() {
    assert_eq!(DEFAULT_MEMORY_MB, 256);
    assert_eq!(ADVANCED_MEMORY_MB, 384);
}

#[test]
fn accel_never_blocks_startup() {
    for probe in every_probe() {
        let decision = detect(None, &probe);
        assert!(matches!(decision.mode, AccelMode::Whpx | AccelMode::Tcg));
    }
}

#[test]
fn software_translation_uses_the_reliable_q35_machine() {
    assert_eq!(preferred_machine(AccelMode::Tcg), MachineType::Q35);
    assert_eq!(preferred_machine(AccelMode::Whpx), MachineType::Microvm);
}

#[test]
fn tokens_are_long_and_unique_per_run() {
    let a = generate_token();
    let b = generate_token();
    assert_eq!(a.len(), 64);
    assert_ne!(a, b);
    assert!(a.chars().all(|c| c.is_ascii_hexdigit()));
}

#[test]
fn an_override_wins_over_the_probe_and_is_case_insensitive() {
    let d = detect(Some("TCG"), &HypervisorProbe::Present);
    assert_eq!(d.mode, AccelMode::Tcg);
    assert_eq!(d.reason, "Software translation forced by LINUXLAB_ACCEL.");
    let d = detect(Some("whpx"), &HypervisorProbe::Absent);
    assert_eq!(d.mode, AccelMode::Whpx);
    assert!(forced("kvm").is_none());
}

#[test]
fn a_present_hypervisor_selects_hardware_acceleration() {
    let d = from_probe(&HypervisorProbe::Present);
    assert_eq!(d.mode, AccelMode::Whpx);
    assert_eq!(d, AccelDecision::hardware());
    assert_eq!(from_probe(&HypervisorProbe::NotWindows).mode, AccelMode::Tcg);
}

#[test]
fn dot_only_names_do_not_become_a_parent_directory() {
    assert_eq!(sanitise_id(".."), "unnamed");
    assert_eq!(sanitise_id("."), "unnamed");
    assert_eq!(sanitise_id("a/b"), "a_b");
}

#[test]
fn backing_format_is_stated_explicitly_per_extension() {
    assert_eq!(backing_format("x/debian-base.raw"), "raw");
    assert_eq!(backing_format("x/free-practice.qcow2"), "qcow2");
}

#[test]
fn path_traversal_in_a_lesson_id_cannot_escape_the_data_directory() {
    let m = OverlayManager::new("qemu-img", "/data/lab");
    let spec = m.lesson_spec("../../windows/system32/evil", "base.raw");
    assert!(!spec.path.contains(".."), "{}", spec.path);
    assert!(spec.path.starts_with("/data/lab/"));
}

#[test]
fn pid_files_hold_a_decimal_process_id() {
    assert_eq!(PidFile::parse("4242\n"), Some(4242));
    assert_eq!(PidFile::parse("not a pid"), None);
}

#[test]
fn runtime_version_is_a_three_part_version() {
    let parts: Vec<&str> = RUNTIME_VERSION.split('.').collect();
    assert_eq!(parts.len(), 3, "{RUNTIME_VERSION}");
    assert!(parts.iter().all(|p| p.parse::<u32>().is_ok()));
}
