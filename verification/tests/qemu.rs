use linux_practice_lab::lesson::NetworkMode;
use linux_practice_lab::qemu::{build_args, describe, kernel_cmdline, AGENT_PORT_NAME};
use linux_practice_lab::vm::{AccelMode, MachineType, VmConfig};

fn cfg() -> VmConfig {
    VmConfig {
        machine: MachineType::Microvm,
        accel: AccelMode::Tcg,
        cpus: 1,
        memory_mb: 256,
        kernel: r"C:\rt\vmlinuz".to_string(),
        initrd: Some(r"C:\rt\initrd.img".to_string()),
        base_image: r"C:\rt\debian-base.raw".to_string(),
        overlay: r"C:\data\free-practice.qcow2".to_string(),
        network_mode: NetworkMode::Disabled,
        qmp_port: 45001,
        console_port: 45002,
        agent_port: 45003,
        control_token: "tok-abc123".into(),
        log_file: r"C:\data\logs\vm.log".to_string(),
    }
}

fn joined(cfg: &VmConfig) -> String {
    build_args(cfg).join(" ")
}

#[test]
fn no_graphics_no_user_config() {
    let s = joined(&cfg());
    assert!(s.contains("-display none"));
    assert!(s.contains("-no-user-config"));
    assert!(s.contains("-nodefaults"));
    assert!(!s.contains("-nographic"));
}

#[test]
fn vga_is_suppressed_only_where_a_vga_adapter_exists() {
    let mut c = cfg();
    assert!(!joined(&c).contains("-vga"), "microvm has no VGA to suppress");
    c.machine = MachineType::Q35;
    assert!(joined(&c).contains("-vga none"));
}

#[test]
fn sockets_are_bound_to_loopback_only() {
    let args = build_args(&cfg());
    let sockets: Vec<&String> = args
        .iter()
        .filter(|a| a.contains("socket,") || a.starts_with("tcp:"))
        .collect();
    assert!(!sockets.is_empty(), "expected chardev/qmp sockets");
    for s in sockets {
        assert!(s.contains("127.0.0.1"), "socket not bound to loopback: {s}");
    }
}

#[test]
fn offline_and_internal_lab_attach_no_nic() {
    for mode in [NetworkMode::Disabled, NetworkMode::InternalLab] {
        let mut c = cfg();
        c.network_mode = mode;
        let s = joined(&c);
        assert!(s.contains("-nic none"), "{mode:?} should have no NIC: {s}");
        assert!(!s.contains("netdev"), "{mode:?} must not add a netdev");
    }
}

#[test]
fn restricted_internet_uses_user_mode_nat_never_a_bridge() {
    let mut c = cfg();
    c.network_mode = NetworkMode::RestrictedInternet;
    let s = joined(&c);
    assert!(s.contains("user,id=net0"));
    assert!(!s.contains("bridge"), "bridged networking is forbidden");
    assert!(!s.contains("tap"), "tap devices are forbidden");
}

#[test]
fn never_shares_a_host_directory_or_passes_through_devices() {
    let mut c = cfg();
    c.network_mode = NetworkMode::RestrictedInternet;
    let s = joined(&c);
    for forbidden in [
        "virtfs",
        "9p",
        "virtio-9p",
        "fsdev",
        "usb-host",
        "vfio",
        "hostfwd",
        "-device usb",
    ] {
        assert!(!s.contains(forbidden), "forbidden argument present: {forbidden}");
    }
}

#[test]
fn microvm_uses_mmio_devices_and_q35_uses_pci() {
    let mut c = cfg();
    c.network_mode = NetworkMode::RestrictedInternet;
    let micro = joined(&c);
    assert!(micro.contains("virtio-blk-device"));
    assert!(micro.contains("virtio-serial-device"));
    assert!(micro.contains("virtio-net-device"));
    assert!(micro.contains("virtio-mmio.force-legacy=false"));

    c.machine = MachineType::Q35;
    let q35 = joined(&c);
    assert!(q35.contains("nvme,drive=root,serial=linuxlab-root"));
    assert!(q35.contains("virtio-serial-pci"));
    assert!(q35.contains("virtio-net-pci"));
    assert!(!q35.contains("virtio-mmio"));
}

#[test]
fn each_machine_names_the_root_device_its_disk_transport_creates() {
    let micro = cfg();
    assert!(kernel_cmdline(&micro).contains("root=/dev/vda"));

    let mut q35 = cfg();
    q35.machine = MachineType::Q35;
    assert!(kernel_cmdline(&q35).contains("root=/dev/nvme0n1"));
}

#[test]
fn base_image_is_not_named_on_the_command_line() {
    let s = joined(&cfg());
    assert!(!s.contains("debian-base.raw"));
    assert!(s.contains("free-practice.qcow2"));
}

#[test]
fn exactly_one_serial_is_configured() {
    let args = build_args(&cfg());
    let serials = args.iter().filter(|a| *a == "-serial").count();
    assert_eq!(serials, 1, "duplicate -serial would detach the console");
}

#[test]
fn windows_paths_are_normalised_for_qemu_property_lists() {
    let args = build_args(&cfg());
    let drive = args.iter().find(|a| a.starts_with("id=root")).unwrap();
    assert!(drive.contains("C:/data/free-practice.qcow2"), "{drive}");
    assert!(!drive.contains('\\'));
}

#[test]
fn agent_channel_is_a_virtio_serial_port_not_a_guest_tcp_port() {
    let s = joined(&cfg());
    assert!(s.contains(&format!("name={AGENT_PORT_NAME}")));
    assert!(!s.contains("guestfwd"));
}

#[test]
fn cmdline_makes_a_guest_panic_exit_qemu() {
    let c = cfg();
    let s = joined(&c);
    assert!(s.contains("-no-reboot"));
    assert!(kernel_cmdline(&c).contains("panic=-1"));
}

#[test]
fn cmdline_waits_for_the_asynchronously_discovered_root_disk() {
    let cmdline = kernel_cmdline(&cfg());
    assert!(cmdline.split_whitespace().any(|part| part == "rootwait"));
}

#[test]
fn cmdline_tells_the_guest_which_network_mode_it_is_in() {
    let mut c = cfg();
    assert!(kernel_cmdline(&c).contains("linuxlab.network=offline"));
    c.network_mode = NetworkMode::InternalLab;
    assert!(kernel_cmdline(&c).contains("linuxlab.network=internal-lab"));
}

#[test]
fn zero_cpus_is_clamped_to_one() {
    let mut c = cfg();
    c.cpus = 0;
    let args = build_args(&c);
    let idx = args.iter().position(|a| a == "-smp").unwrap();
    assert_eq!(args[idx + 1], "1");
}

#[test]
fn the_control_token_is_handed_to_the_guest_on_the_kernel_command_line() {
    let c = cfg();
    assert!(kernel_cmdline(&c).contains("linuxlab.token=tok-abc123"));
}

#[test]
fn describe_redacts_the_control_token_wherever_it_appears() {
    let c = cfg();
    let described = describe(&c);
    assert!(!described.contains("tok-abc123"), "{described}");
    assert!(described.contains("linuxlab.token=<redacted>"), "{described}");
}

#[test]
fn the_kernel_command_line_is_passed_whole_after_append() {
    let c = cfg();
    let args = build_args(&c);
    let idx = args.iter().position(|a| a == "-append").unwrap();
    assert_eq!(args[idx + 1], kernel_cmdline(&c));
}
