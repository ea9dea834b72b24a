//! QEMU command line construction.
//!
//! Deliberately pure: a [`VmConfig`] becomes an argument vector and nothing else. The
//! security-relevant decisions (no display, no host filesystem sharing, no bridged
//! networking, loopback-only sockets) are stated here over that vector.
use crate::lesson::NetworkMode;
use crate::qemu_path::{render, render_spec};
use crate::text::{
    append, chars_of, contains, occurs_at, starts_with, decimal, decimal_string, join, join_strings, owned, replace_all,
    replace_chars, string_of, strings_view,
};
use crate::vm::{MachineType, VmConfig};
use vstd::prelude::*;

verus! {

/// Name of the virtio-serial port the guest agent listens on. Appears in the guest as
/// `/dev/virtio-ports/org.linuxlab.agent`.
pub const AGENT_PORT_NAME: &'static str = "org.linuxlab.agent";

pub open spec fn agent_port_name() -> Seq<char> {
    "org.linuxlab.agent"@
}

/// Virtio device suffix: microvm exposes virtio over MMIO with no PCI bus.
pub open spec fn virtio_suffix_spec(machine: MachineType) -> Seq<char> {
    match machine {
        MachineType::Microvm => "device"@,
        MachineType::Q35 => "pci"@,
    }
}

fn virtio_suffix(machine: MachineType) -> (r: &'static str)
    ensures
        r@ == virtio_suffix_spec(machine),
{
    match machine {
        MachineType::Microvm => "device",
        MachineType::Q35 => "pci",
    }
}

/// The network mode as the guest reads it from the kernel command line.
pub open spec fn network_label_spec(mode: NetworkMode) -> Seq<char> {
    match mode {
        NetworkMode::Disabled => "offline"@,
        NetworkMode::InternalLab => "internal-lab"@,
        NetworkMode::RestrictedInternet => "restricted-internet"@,
    }
}

fn network_label(mode: NetworkMode) -> (r: &'static str)
    ensures
        r@ == network_label_spec(mode),
{
    match mode {
        NetworkMode::Disabled => "offline",
        NetworkMode::InternalLab => "internal-lab",
        NetworkMode::RestrictedInternet => "restricted-internet",
    }
}

/// The root device each machine's disk transport creates.
pub open spec fn root_device_spec(machine: MachineType) -> Seq<char> {
    match machine {
        MachineType::Microvm => "root=/dev/vda"@,
        MachineType::Q35 => "root=/dev/nvme0n1"@,
    }
}

/// The words of the kernel command line, in order.
pub open spec fn cmdline_parts(cfg: VmConfig) -> Seq<Seq<char>> {
    seq![
        "console=ttyS0,115200"@,
        root_device_spec(cfg.machine),
        "rootwait"@,
        "rw"@,
        "rootfstype=ext4"@,
        "init=/lib/systemd/systemd"@,
        "systemd.show_status=0"@,
        "loglevel=3"@,
        "quiet"@,
        "random.trust_cpu=on"@,
        "reboot=t"@,
        "panic=-1"@,
        "linuxlab.network="@ + network_label_spec(cfg.network_mode),
        "linuxlab.token="@ + cfg.control_token@,
    ]
}

/// The kernel command line: its words separated by single spaces.
pub open spec fn kernel_cmdline_spec(cfg: VmConfig) -> Seq<char> {
    join(cmdline_parts(cfg), " "@)
}

/// Appends an owned argument.
fn push_arg(a: &mut Vec<String>, s: String)
    ensures
        strings_view(final(a)@) == strings_view(old(a)@).push(s@),
{
    a.push(s);
    assert(strings_view(a@) =~= strings_view(old(a)@).push(s@));
}

/// Appends a literal argument.
fn push_lit(a: &mut Vec<String>, s: &str)
    ensures
        strings_view(final(a)@) == strings_view(old(a)@).push(s@),
{
    push_arg(a, owned(s));
}

/// `head`, the decimal digits of `n`, then `tail`.
fn with_number(head: &str, n: u64, tail: &str) -> (r: String)
    ensures
        r@ == head@ + decimal(n as nat) + tail@,
{
    let mut r = owned(head);
    let digits = decimal_string(n);
    append(&mut r, digits.as_str());
    append(&mut r, tail);
    r
}

/// Kernel command line. `panic=-1` with `-no-reboot` makes a fatal guest fault exit QEMU,
/// and the per-run control token reaches the guest here.
pub fn kernel_cmdline(cfg: &VmConfig) -> (r: String)
    ensures
        r@ == kernel_cmdline_spec(*cfg),
{
    let root_device = match cfg.machine {
        MachineType::Microvm => "root=/dev/vda",
        MachineType::Q35 => "root=/dev/nvme0n1",
    };
    let mut parts: Vec<String> = Vec::new();
    push_lit(&mut parts, "console=ttyS0,115200");
    push_lit(&mut parts, root_device);
    push_lit(&mut parts, "rootwait");
    push_lit(&mut parts, "rw");
    push_lit(&mut parts, "rootfstype=ext4");
    push_lit(&mut parts, "init=/lib/systemd/systemd");
    push_lit(&mut parts, "systemd.show_status=0");
    push_lit(&mut parts, "loglevel=3");
    push_lit(&mut parts, "quiet");
    push_lit(&mut parts, "random.trust_cpu=on");
    push_lit(&mut parts, "reboot=t");
    push_lit(&mut parts, "panic=-1");
    let mut network = owned("linuxlab.network=");
    append(&mut network, network_label(cfg.network_mode));
    push_arg(&mut parts, network);
    let mut token = owned("linuxlab.token=");
    append(&mut token, cfg.control_token.as_str());
    push_arg(&mut parts, token);
    assert(strings_view(parts@) =~= cmdline_parts(*cfg));
    join_strings(&parts, " ")
}

/// The leading options: no host configuration, the machine, accelerator, CPU, memory and
/// clock, no display and no reboot.
pub open spec fn head_args(cfg: VmConfig) -> Seq<Seq<char>> {
    let cpus: nat = if cfg.cpus >= 1 {
        cfg.cpus as nat
    } else {
        1
    };
    seq![
        "-no-user-config"@,
        "-nodefaults"@,
        "-machine"@,
        cfg.machine.qemu_arg_spec(),
        "-accel"@,
        cfg.accel.qemu_arg_spec(),
        "-cpu"@,
        "max"@,
        "-smp"@,
        decimal(cpus),
        "-m"@,
        decimal(cfg.memory_mb as nat),
        "-rtc"@,
        "base=utc"@,
        "-display"@,
        "none"@,
        "-no-reboot"@,
    ]
}

/// The options one machine type needs and the other must not have.
pub open spec fn machine_args(machine: MachineType) -> Seq<Seq<char>> {
    match machine {
        MachineType::Microvm => seq!["-global"@, "virtio-mmio.force-legacy=false"@],
        MachineType::Q35 => seq!["-vga"@, "none"@],
    }
}

/// Direct kernel boot and the root disk (the overlay; the base image is never named).
pub open spec fn boot_args(cfg: VmConfig) -> Seq<Seq<char>> {
    let initrd = match cfg.initrd {
        Some(p) => seq!["-initrd"@, render_spec(p@)],
        None => Seq::empty(),
    };
    let device = match cfg.machine {
        MachineType::Microvm => "virtio-blk-"@ + virtio_suffix_spec(cfg.machine) + ",drive=root"@,
        MachineType::Q35 => "nvme,drive=root,serial=linuxlab-root"@,
    };
    seq!["-kernel"@, render_spec(cfg.kernel@)] + initrd + seq![
        "-append"@,
        kernel_cmdline_spec(cfg),
        "-drive"@,
        "id=root,file="@ + render_spec(cfg.overlay@)
            + ",format=qcow2,if=none,cache=writeback,discard=unmap,detect-zeroes=unmap"@,
        "-device"@,
        device,
    ]
}

/// The console, the agent channel and QMP, each on a loopback socket.
pub open spec fn channel_args(cfg: VmConfig) -> Seq<Seq<char>> {
    seq![
        "-chardev"@,
        "socket,id=console,host=127.0.0.1,port="@ + decimal(cfg.console_port as nat)
            + ",server=on,wait=off,telnet=off"@,
        "-serial"@,
        "chardev:console"@,
        "-device"@,
        "virtio-serial-"@ + virtio_suffix_spec(cfg.machine) + ",id=vser0"@,
        "-chardev"@,
        "socket,id=agent,host=127.0.0.1,port="@ + decimal(cfg.agent_port as nat)
            + ",server=on,wait=off"@,
        "-device"@,
        "virtserialport,bus=vser0.0,chardev=agent,name="@ + agent_port_name(),
        "-qmp"@,
        "tcp:127.0.0.1:"@ + decimal(cfg.qmp_port as nat) + ",server=on,wait=off"@,
    ]
}

/// No NIC at all, except user-mode NAT for restricted internet.
pub open spec fn network_args(cfg: VmConfig) -> Seq<Seq<char>> {
    match cfg.network_mode {
        NetworkMode::RestrictedInternet => seq![
            "-netdev"@,
            "user,id=net0,ipv6=off,restrict=off"@,
            "-device"@,
            "virtio-net-"@ + virtio_suffix_spec(cfg.machine) + ",netdev=net0"@,
        ],
        _ => seq!["-nic"@, "none"@],
    }
}

/// The full QEMU argument vector, excluding argv[0].
pub open spec fn build_args_spec(cfg: VmConfig) -> Seq<Seq<char>> {
    head_args(cfg) + machine_args(cfg.machine) + boot_args(cfg) + channel_args(cfg)
        + network_args(cfg) + seq!["-D"@, render_spec(cfg.log_file@)]
}

fn push_head(a: &mut Vec<String>, cfg: &VmConfig)
    ensures
        strings_view(final(a)@) == strings_view(old(a)@) + head_args(*cfg),
{
    push_lit(a, "-no-user-config");
    push_lit(a, "-nodefaults");
    push_lit(a, "-machine");
    push_lit(a, cfg.machine.as_qemu_arg());
    push_lit(a, "-accel");
    push_lit(a, cfg.accel.as_qemu_arg());
    push_lit(a, "-cpu");
    push_lit(a, "max");
    push_lit(a, "-smp");
    let cpus: u8 = if cfg.cpus >= 1 {
        cfg.cpus
    } else {
        1
    };
    push_arg(a, decimal_string(cpus as u64));
    push_lit(a, "-m");
    push_arg(a, decimal_string(cfg.memory_mb as u64));
    push_lit(a, "-rtc");
    push_lit(a, "base=utc");
    push_lit(a, "-display");
    push_lit(a, "none");
    push_lit(a, "-no-reboot");
    assert(strings_view(a@) =~= strings_view(old(a)@) + head_args(*cfg));
}

fn push_machine(a: &mut Vec<String>, machine: MachineType)
    ensures
        strings_view(final(a)@) == strings_view(old(a)@) + machine_args(machine),
{
    match machine {
        MachineType::Microvm => {
            push_lit(a, "-global");
            push_lit(a, "virtio-mmio.force-legacy=false");
        },
        MachineType::Q35 => {
            push_lit(a, "-vga");
            push_lit(a, "none");
        },
    }
    assert(strings_view(a@) =~= strings_view(old(a)@) + machine_args(machine));
}

fn push_boot(a: &mut Vec<String>, cfg: &VmConfig)
    ensures
        strings_view(final(a)@) == strings_view(old(a)@) + boot_args(*cfg),
{
    push_lit(a, "-kernel");
    push_arg(a, render(cfg.kernel.as_str()));
    match &cfg.initrd {
        Some(initrd) => {
            push_lit(a, "-initrd");
            push_arg(a, render(initrd.as_str()));
        },
        None => {},
    }
    push_lit(a, "-append");
    push_arg(a, kernel_cmdline(cfg));
    push_lit(a, "-drive");
    let mut drive = owned("id=root,file=");
    let overlay = render(cfg.overlay.as_str());
    append(&mut drive, overlay.as_str());
    append(
        &mut drive,
        ",format=qcow2,if=none,cache=writeback,discard=unmap,detect-zeroes=unmap",
    );
    push_arg(a, drive);
    push_lit(a, "-device");
    match cfg.machine {
        MachineType::Microvm => {
            let mut device = owned("virtio-blk-");
            append(&mut device, virtio_suffix(cfg.machine));
            append(&mut device, ",drive=root");
            push_arg(a, device);
        },
        MachineType::Q35 => {
            push_lit(a, "nvme,drive=root,serial=linuxlab-root");
        },
    }
    assert(strings_view(a@) =~= strings_view(old(a)@) + boot_args(*cfg));
}

fn push_channels(a: &mut Vec<String>, cfg: &VmConfig)
    ensures
        strings_view(final(a)@) == strings_view(old(a)@) + channel_args(*cfg),
{
    let suffix = virtio_suffix(cfg.machine);
    push_lit(a, "-chardev");
    push_arg(
        a,
        with_number(
            "socket,id=console,host=127.0.0.1,port=",
            cfg.console_port as u64,
            ",server=on,wait=off,telnet=off",
        ),
    );
    push_lit(a, "-serial");
    push_lit(a, "chardev:console");
    push_lit(a, "-device");
    let mut serial = owned("virtio-serial-");
    append(&mut serial, suffix);
    append(&mut serial, ",id=vser0");
    push_arg(a, serial);
    push_lit(a, "-chardev");
    push_arg(
        a,
        with_number(
            "socket,id=agent,host=127.0.0.1,port=",
            cfg.agent_port as u64,
            ",server=on,wait=off",
        ),
    );
    push_lit(a, "-device");
    let mut port = owned("virtserialport,bus=vser0.0,chardev=agent,name=");
    append(&mut port, "org.linuxlab.agent");
    push_arg(a, port);
    push_lit(a, "-qmp");
    push_arg(a, with_number("tcp:127.0.0.1:", cfg.qmp_port as u64, ",server=on,wait=off"));
    assert(strings_view(a@) =~= strings_view(old(a)@) + channel_args(*cfg));
}

fn push_network(a: &mut Vec<String>, cfg: &VmConfig)
    ensures
        strings_view(final(a)@) == strings_view(old(a)@) + network_args(*cfg),
{
    match cfg.network_mode {
        NetworkMode::RestrictedInternet => {
            push_lit(a, "-netdev");
            push_lit(a, "user,id=net0,ipv6=off,restrict=off");
            push_lit(a, "-device");
            let mut nic = owned("virtio-net-");
            append(&mut nic, virtio_suffix(cfg.machine));
            append(&mut nic, ",netdev=net0");
            push_arg(a, nic);
        },
        _ => {
            push_lit(a, "-nic");
            push_lit(a, "none");
        },
    }
    assert(strings_view(a@) =~= strings_view(old(a)@) + network_args(*cfg));
}

/// Builds the full QEMU argument vector, excluding argv[0].
pub fn build_args(cfg: &VmConfig) -> (r: Vec<String>)
    ensures
        strings_view(r@) == build_args_spec(*cfg),
{
    let mut a: Vec<String> = Vec::new();
    assert(strings_view(a@) =~= Seq::<Seq<char>>::empty());
    push_head(&mut a, cfg);
    push_machine(&mut a, cfg.machine);
    push_boot(&mut a, cfg);
    push_channels(&mut a, cfg);
    push_network(&mut a, cfg);
    push_lit(&mut a, "-D");
    push_arg(&mut a, render(cfg.log_file.as_str()));
    assert(strings_view(a@) =~= build_args_spec(*cfg));
    a
}

/// One argument as diagnostics show it: with the control token, when there is one,
/// replaced wherever it occurs.
pub open spec fn scrub(arg: Seq<char>, token: Seq<char>) -> Seq<char> {
    if token.len() > 0 {
        replace_all(arg, token, "<redacted>"@)
    } else {
        arg
    }
}

/// The argument vector as the log and the Environment panel show it.
pub open spec fn describe_spec(cfg: VmConfig) -> Seq<char> {
    join(build_args_spec(cfg).map_values(|arg: Seq<char>| scrub(arg, cfg.control_token@)), " "@)
}

/// Renders the argument vector for diagnostics, with the control token redacted.
pub fn describe(cfg: &VmConfig) -> (r: String)
    ensures
        r@ == describe_spec(*cfg),
{
    let args = build_args(cfg);
    let token = chars_of(cfg.control_token.as_str());
    let mask = chars_of("<redacted>");
    let mut shown: Vec<String> = Vec::new();
    let mut i: usize = 0;
    while i < args.len()
        invariant
            i <= args.len(),
            token@ == cfg.control_token@,
            mask@ == "<redacted>"@,
            strings_view(args@) == build_args_spec(*cfg),
            strings_view(shown@) == strings_view(args@.subrange(0, i as int)).map_values(
                |arg: Seq<char>| scrub(arg, cfg.control_token@),
            ),
        decreases args.len() - i,
    {
        let arg = &args[i];
        let ghost before = shown@;
        if token.len() > 0 {
            let chars = chars_of(arg.as_str());
            let replaced = replace_chars(&chars, &token, &mask);
            shown.push(string_of(&replaced));
        } else {
            shown.push(owned(arg.as_str()));
        }
        assert(strings_view(shown@) =~= strings_view(before).push(scrub(args@[i as int]@, cfg.control_token@)));
        i += 1;
        assert(strings_view(args@.subrange(0, i as int)).map_values(
            |arg: Seq<char>| scrub(arg, cfg.control_token@),
        ) =~= strings_view(args@.subrange(0, i - 1)).map_values(
            |arg: Seq<char>| scrub(arg, cfg.control_token@),
        ).push(scrub(args@[i - 1]@, cfg.control_token@)));
    }
    assert(args@.subrange(0, args.len() as int) =~= args@);
    join_strings(&shown, " ")
}


/// An ASCII hexadecimal digit, in either case.
pub open spec fn is_hex_digit(c: char) -> bool {
    ('0' <= c && c <= '9') || ('a' <= c && c <= 'f') || ('A' <= c && c <= 'F')
}

/// Inside the mask, every window of five characters reaches one that is not a hex digit.
proof fn lemma_mask_breaks_hex_runs(i: int)
    requires
        0 <= i < 10,
    ensures
        "<redacted>"@.len() == 10,
        !is_hex_digit("<redacted>"@[i + if i <= 1 { 0 } else if i <= 6 { 6 - i } else { 9 - i }]),
{
    reveal_strlit("<redacted>");
}

/// Where the scrubbed text holds only hex digits, it is the original text, unchanged.
proof fn lemma_hex_prefix_is_copied(s: Seq<char>, pat: Seq<char>, k: int)
    requires
        pat.len() > 0,
        0 <= k <= replace_all(s, pat, "<redacted>"@).len(),
        forall|j: int| 0 <= j < k ==> is_hex_digit(#[trigger] replace_all(s, pat, "<redacted>"@)[j]),
    ensures
        k <= s.len(),
        replace_all(s, pat, "<redacted>"@).subrange(0, k) == s.subrange(0, k),
    decreases s.len(),
{
    let r = replace_all(s, pat, "<redacted>"@);
    if s.len() == 0 || k == 0 {
        assert(r.subrange(0, k) =~= s.subrange(0, k));
    } else if starts_with(s, pat) {
        lemma_mask_breaks_hex_runs(0);
        assert(r[0] == "<redacted>"@[0]);
        assert(is_hex_digit(r[0]));
    } else {
        let rest = replace_all(s.skip(1), pat, "<redacted>"@);
        assert(r == seq![s[0]] + rest);
        assert forall|j: int| 0 <= j < k - 1 implies is_hex_digit(#[trigger] rest[j]) by {
            assert(rest[j] == r[j + 1]);
        }
        lemma_hex_prefix_is_copied(s.skip(1), pat, k - 1);
        assert(r.subrange(0, k) =~= seq![s[0]] + rest.subrange(0, k - 1));
        assert(s.subrange(0, k) =~= seq![s[0]] + s.skip(1).subrange(0, k - 1));
    }
}

/// A token of at least five hex digits does not survive being replaced by the mask.
proof fn lemma_scrubbed_has_no_token(s: Seq<char>, pat: Seq<char>)
    requires
        pat.len() >= 5,
        forall|j: int| 0 <= j < pat.len() ==> is_hex_digit(#[trigger] pat[j]),
    ensures
        forall|i: int| !occurs_at(replace_all(s, pat, "<redacted>"@), pat, i),
    decreases s.len(),
{
    let r = replace_all(s, pat, "<redacted>"@);
    let n = pat.len() as int;
    if s.len() == 0 {
    } else if starts_with(s, pat) {
        let rest = replace_all(s.skip(n), pat, "<redacted>"@);
        lemma_scrubbed_has_no_token(s.skip(n), pat);
        lemma_mask_breaks_hex_runs(0);
        assert(r == "<redacted>"@ + rest);
        assert forall|i: int| !occurs_at(r, pat, i) by {
            if occurs_at(r, pat, i) {
                if i >= 10 {
                    assert(rest.subrange(i - 10, i - 10 + n) =~= r.subrange(i, i + n));
                    assert(occurs_at(rest, pat, i - 10));
                } else {
                    lemma_mask_breaks_hex_runs(i);
                    let k = if i <= 1 { 0 } else if i <= 6 { 6 - i } else { 9 - i };
                    assert(r.subrange(i, i + n)[k] == r[i + k]);
                    assert(r[i + k] == "<redacted>"@[i + k]);
                    assert(pat[k] == r[i + k]);
                }
            }
        }
    } else {
        let rest = replace_all(s.skip(1), pat, "<redacted>"@);
        lemma_scrubbed_has_no_token(s.skip(1), pat);
        assert(r == seq![s[0]] + rest);
        assert forall|i: int| !occurs_at(r, pat, i) by {
            if occurs_at(r, pat, i) {
                if i >= 1 {
                    assert(rest.subrange(i - 1, i - 1 + n) =~= r.subrange(i, i + n));
                    assert(occurs_at(rest, pat, i - 1));
                } else {
                    assert forall|j: int| 0 <= j < n - 1 implies is_hex_digit(#[trigger] rest[j]) by {
                        assert(rest[j] == r[j + 1]);
                        assert(r.subrange(0, n)[j + 1] == pat[j + 1]);
                    }
                    lemma_hex_prefix_is_copied(s.skip(1), pat, n - 1);
                    assert(s.subrange(0, n) =~= seq![s[0]] + s.skip(1).subrange(0, n - 1));
                    assert(r.subrange(0, n) =~= seq![s[0]] + rest.subrange(0, n - 1));
                    assert(starts_with(s, pat));
                }
            }
        }
    }
}

/// Joining pieces with spaces creates no occurrence of a space-free needle.
pub(crate) proof fn lemma_join_adds_no_occurrence(parts: Seq<Seq<char>>, pat: Seq<char>)
    requires
        pat.len() > 0,
        forall|j: int| 0 <= j < pat.len() ==> #[trigger] pat[j] != ' ',
        forall|p: int, i: int| 0 <= p < parts.len() ==> !(#[trigger] occurs_at(parts[p], pat, i)),
    ensures
        forall|i: int| !occurs_at(join(parts, " "@), pat, i),
    decreases parts.len(),
{
    reveal_strlit(" ");
    let n = pat.len() as int;
    if parts.len() == 0 {
    } else if parts.len() == 1 {
        assert forall|i: int| !occurs_at(join(parts, " "@), pat, i) by {
            assert(!occurs_at(parts[0], pat, i));
        }
    } else {
        let front = parts.drop_last();
        assert forall|p: int, i: int| 0 <= p < front.len() implies !(#[trigger] occurs_at(front[p], pat, i)) by {
            assert(front[p] == parts[p]);
            assert(!occurs_at(parts[p], pat, i));
        }
        lemma_join_adds_no_occurrence(front, pat);
        let head = join(front, " "@);
        let last = parts.last();
        let whole = join(parts, " "@);
        assert(whole == head + " "@ + last);
        let h = head.len() as int;
        assert forall|i: int| !occurs_at(whole, pat, i) by {
            if occurs_at(whole, pat, i) {
                if i + n <= h {
                    assert(head.subrange(i, i + n) =~= whole.subrange(i, i + n));
                    assert(occurs_at(head, pat, i));
                } else if i > h {
                    assert(last.subrange(i - h - 1, i - h - 1 + n) =~= whole.subrange(i, i + n));
                    assert(!occurs_at(parts[parts.len() - 1], pat, i - h - 1));
                } else {
                    assert(whole[h] == ' ');
                    assert(whole.subrange(i, i + n)[h - i] == whole[h]);
                    assert(pat[h - i] == ' ');
                }
            }
        }
    }
}

/// The command line shown in the log and the Environment panel never holds the control
/// token, for any token of ASCII hex digits (at least five; the lab generates sixty-four).
pub proof fn lemma_describe_hides_token(cfg: VmConfig)
    requires
        cfg.control_token@.len() >= 5,
        forall|j: int| 0 <= j < cfg.control_token@.len() ==> is_hex_digit(#[trigger] cfg.control_token@[j]),
    ensures
        !contains(describe_spec(cfg), cfg.control_token@),
{
    let tok = cfg.control_token@;
    let parts = build_args_spec(cfg).map_values(|arg: Seq<char>| scrub(arg, tok));
    assert forall|p: int, i: int| 0 <= p < parts.len() implies !(#[trigger] occurs_at(parts[p], tok, i)) by {
        lemma_scrubbed_has_no_token(build_args_spec(cfg)[p], tok);
    }
    assert forall|j: int| 0 <= j < tok.len() implies #[trigger] tok[j] != ' ' by {
        assert(is_hex_digit(tok[j]));
    }
    lemma_join_adds_no_occurrence(parts, tok);
}


/// The argument vector does not depend on the base image at all: two configurations that
/// differ only in it give the same arguments. QEMU is only ever handed the learner's overlay,
/// so the shared base image is never opened for writing.
pub proof fn lemma_base_image_never_named(a: VmConfig, b: VmConfig)
    requires
        a.machine == b.machine,
        a.accel == b.accel,
        a.cpus == b.cpus,
        a.memory_mb == b.memory_mb,
        a.kernel@ == b.kernel@,
        a.initrd == b.initrd,
        a.overlay@ == b.overlay@,
        a.network_mode == b.network_mode,
        a.qmp_port == b.qmp_port,
        a.console_port == b.console_port,
        a.agent_port == b.agent_port,
        a.control_token@ == b.control_token@,
        a.log_file@ == b.log_file@,
    ensures
        build_args_spec(a) == build_args_spec(b),
{
    assert(cmdline_parts(a) =~= cmdline_parts(b));
    assert(head_args(a) =~= head_args(b));
    assert(boot_args(a) =~= boot_args(b));
    assert(channel_args(a) =~= channel_args(b));
    assert(network_args(a) =~= network_args(b));
}


/// An argument that opens a socket: a character-device socket or a TCP endpoint.
pub open spec fn opens_socket(a: Seq<char>) -> bool {
    starts_with(a, "socket,"@) || starts_with(a, "tcp:"@)
}

/// Neither a serial-port option nor a socket.
pub open spec fn plain_arg(a: Seq<char>) -> bool {
    a != "-serial"@ && !opens_socket(a)
}

/// A path the configuration supplies, rendered for QEMU, that is not itself an option or a
/// socket description.
pub open spec fn plain_paths(cfg: VmConfig) -> bool {
    &&& plain_arg(render_spec(cfg.kernel@))
    &&& plain_arg(render_spec(cfg.log_file@))
    &&& cfg.initrd matches Some(p) ==> plain_arg(render_spec(p@))
}

/// Where the one `-serial` option stands in the argument vector.
pub open spec fn serial_position(cfg: VmConfig) -> int {
    (head_args(cfg).len() + machine_args(cfg.machine).len() + boot_args(cfg).len() + 2) as int
}

/// Where the three sockets are described: the console, the agent channel and QMP.
pub open spec fn socket_positions(cfg: VmConfig) -> Set<int> {
    let c = (head_args(cfg).len() + machine_args(cfg.machine).len() + boot_args(cfg).len()) as int;
    set![c + 1, c + 7, c + 11]
}

proof fn lemma_not_prefix(a: Seq<char>, p: Seq<char>, k: int)
    requires
        0 <= k < p.len(),
        k < a.len() ==> a[k] != p[k],
    ensures
        !starts_with(a, p),
{
    if starts_with(a, p) {
        assert(a.subrange(0, p.len() as int)[k] == a[k]);
    }
}

proof fn lemma_differs(a: Seq<char>, b: Seq<char>, k: int)
    requires
        a.len() != b.len() || (0 <= k < a.len() && a[k] != b[k]),
    ensures
        a != b,
{
}

proof fn lemma_first_char_decides(a: Seq<char>, first: char)
    requires
        a.len() > 0,
        a[0] == first,
        first != '-',
        first != 's',
        first != 't',
    ensures
        plain_arg(a),
{
    reveal_strlit("-serial");
    reveal_strlit("socket,");
    reveal_strlit("tcp:");
    lemma_not_prefix(a, "socket,"@, 0);
    lemma_not_prefix(a, "tcp:"@, 0);
    lemma_differs(a, "-serial"@, 0);
}

proof fn lemma_join_starts_with_first(parts: Seq<Seq<char>>, sep: Seq<char>, k: int)
    requires
        parts.len() > 0,
        0 <= k < parts[0].len(),
    ensures
        k < join(parts, sep).len(),
        join(parts, sep)[k] == parts[0][k],
    decreases parts.len(),
{
    if parts.len() > 1 {
        lemma_join_starts_with_first(parts.drop_last(), sep, k);
        assert(parts.drop_last()[0] == parts[0]);
    }
}

proof fn lemma_literals()
    ensures
        plain_arg("-no-user-config"@), plain_arg("-nodefaults"@), plain_arg("-machine"@),
        plain_arg("-accel"@), plain_arg("-cpu"@), plain_arg("max"@), plain_arg("-smp"@),
        plain_arg("-m"@), plain_arg("-rtc"@), plain_arg("base=utc"@), plain_arg("-display"@),
        plain_arg("none"@), plain_arg("-no-reboot"@), plain_arg("-global"@),
        plain_arg("virtio-mmio.force-legacy=false"@), plain_arg("-vga"@), plain_arg("-kernel"@),
        plain_arg("-initrd"@), plain_arg("-append"@), plain_arg("-drive"@), plain_arg("-device"@),
        plain_arg("nvme,drive=root,serial=linuxlab-root"@), plain_arg("-chardev"@),
        plain_arg("chardev:console"@), plain_arg("-qmp"@), plain_arg("-netdev"@),
        plain_arg("user,id=net0,ipv6=off,restrict=off"@), plain_arg("-nic"@), plain_arg("-D"@),
        plain_arg("microvm,acpi=on,pit=on,pic=off,rtc=on"@), plain_arg("q35"@),
        plain_arg("whpx,kernel-irqchip=off"@), plain_arg("tcg,thread=single"@),
{
    reveal_strlit("-serial");
    reveal_strlit("socket,");
    reveal_strlit("tcp:");
    reveal_strlit("-no-user-config");
    lemma_differs("-no-user-config"@, "-serial"@, 0);
    lemma_not_prefix("-no-user-config"@, "socket,"@, 0);
    lemma_not_prefix("-no-user-config"@, "tcp:"@, 0);
    reveal_strlit("-nodefaults");
    lemma_differs("-nodefaults"@, "-serial"@, 0);
    lemma_not_prefix("-nodefaults"@, "socket,"@, 0);
    lemma_not_prefix("-nodefaults"@, "tcp:"@, 0);
    reveal_strlit("-machine");
    lemma_differs("-machine"@, "-serial"@, 0);
    lemma_not_prefix("-machine"@, "socket,"@, 0);
    lemma_not_prefix("-machine"@, "tcp:"@, 0);
    reveal_strlit("-accel");
    lemma_differs("-accel"@, "-serial"@, 0);
    lemma_not_prefix("-accel"@, "socket,"@, 0);
    lemma_not_prefix("-accel"@, "tcp:"@, 0);
    reveal_strlit("-cpu");
    lemma_differs("-cpu"@, "-serial"@, 0);
    lemma_not_prefix("-cpu"@, "socket,"@, 0);
    lemma_not_prefix("-cpu"@, "tcp:"@, 0);
    reveal_strlit("max");
    lemma_differs("max"@, "-serial"@, 0);
    lemma_not_prefix("max"@, "socket,"@, 0);
    lemma_not_prefix("max"@, "tcp:"@, 0);
    reveal_strlit("-smp");
    lemma_differs("-smp"@, "-serial"@, 0);
    lemma_not_prefix("-smp"@, "socket,"@, 0);
    lemma_not_prefix("-smp"@, "tcp:"@, 0);
    reveal_strlit("-m");
    lemma_differs("-m"@, "-serial"@, 0);
    lemma_not_prefix("-m"@, "socket,"@, 0);
    lemma_not_prefix("-m"@, "tcp:"@, 0);
    reveal_strlit("-rtc");
    lemma_differs("-rtc"@, "-serial"@, 0);
    lemma_not_prefix("-rtc"@, "socket,"@, 0);
    lemma_not_prefix("-rtc"@, "tcp:"@, 0);
    reveal_strlit("base=utc");
    lemma_differs("base=utc"@, "-serial"@, 0);
    lemma_not_prefix("base=utc"@, "socket,"@, 0);
    lemma_not_prefix("base=utc"@, "tcp:"@, 0);
    reveal_strlit("-display");
    lemma_differs("-display"@, "-serial"@, 0);
    lemma_not_prefix("-display"@, "socket,"@, 0);
    lemma_not_prefix("-display"@, "tcp:"@, 0);
    reveal_strlit("none");
    lemma_differs("none"@, "-serial"@, 0);
    lemma_not_prefix("none"@, "socket,"@, 0);
    lemma_not_prefix("none"@, "tcp:"@, 0);
    reveal_strlit("-no-reboot");
    lemma_differs("-no-reboot"@, "-serial"@, 0);
    lemma_not_prefix("-no-reboot"@, "socket,"@, 0);
    lemma_not_prefix("-no-reboot"@, "tcp:"@, 0);
    reveal_strlit("-global");
    lemma_differs("-global"@, "-serial"@, 1);
    lemma_not_prefix("-global"@, "socket,"@, 0);
    lemma_not_prefix("-global"@, "tcp:"@, 0);
    reveal_strlit("virtio-mmio.force-legacy=false");
    lemma_differs("virtio-mmio.force-legacy=false"@, "-serial"@, 0);
    lemma_not_prefix("virtio-mmio.force-legacy=false"@, "socket,"@, 0);
    lemma_not_prefix("virtio-mmio.force-legacy=false"@, "tcp:"@, 0);
    reveal_strlit("-vga");
    lemma_differs("-vga"@, "-serial"@, 0);
    lemma_not_prefix("-vga"@, "socket,"@, 0);
    lemma_not_prefix("-vga"@, "tcp:"@, 0);
    reveal_strlit("-kernel");
    lemma_differs("-kernel"@, "-serial"@, 1);
    lemma_not_prefix("-kernel"@, "socket,"@, 0);
    lemma_not_prefix("-kernel"@, "tcp:"@, 0);
    reveal_strlit("-initrd");
    lemma_differs("-initrd"@, "-serial"@, 1);
    lemma_not_prefix("-initrd"@, "socket,"@, 0);
    lemma_not_prefix("-initrd"@, "tcp:"@, 0);
    reveal_strlit("-append");
    lemma_differs("-append"@, "-serial"@, 1);
    lemma_not_prefix("-append"@, "socket,"@, 0);
    lemma_not_prefix("-append"@, "tcp:"@, 0);
    reveal_strlit("-drive");
    lemma_differs("-drive"@, "-serial"@, 0);
    lemma_not_prefix("-drive"@, "socket,"@, 0);
    lemma_not_prefix("-drive"@, "tcp:"@, 0);
    reveal_strlit("-device");
    lemma_differs("-device"@, "-serial"@, 1);
    lemma_not_prefix("-device"@, "socket,"@, 0);
    lemma_not_prefix("-device"@, "tcp:"@, 0);
    reveal_strlit("nvme,drive=root,serial=linuxlab-root");
    lemma_differs("nvme,drive=root,serial=linuxlab-root"@, "-serial"@, 0);
    lemma_not_prefix("nvme,drive=root,serial=linuxlab-root"@, "socket,"@, 0);
    lemma_not_prefix("nvme,drive=root,serial=linuxlab-root"@, "tcp:"@, 0);
    reveal_strlit("-chardev");
    lemma_differs("-chardev"@, "-serial"@, 0);
    lemma_not_prefix("-chardev"@, "socket,"@, 0);
    lemma_not_prefix("-chardev"@, "tcp:"@, 0);
    reveal_strlit("chardev:console");
    lemma_differs("chardev:console"@, "-serial"@, 0);
    lemma_not_prefix("chardev:console"@, "socket,"@, 0);
    lemma_not_prefix("chardev:console"@, "tcp:"@, 0);
    reveal_strlit("-qmp");
    lemma_differs("-qmp"@, "-serial"@, 0);
    lemma_not_prefix("-qmp"@, "socket,"@, 0);
    lemma_not_prefix("-qmp"@, "tcp:"@, 0);
    reveal_strlit("-netdev");
    lemma_differs("-netdev"@, "-serial"@, 1);
    lemma_not_prefix("-netdev"@, "socket,"@, 0);
    lemma_not_prefix("-netdev"@, "tcp:"@, 0);
    reveal_strlit("user,id=net0,ipv6=off,restrict=off");
    lemma_differs("user,id=net0,ipv6=off,restrict=off"@, "-serial"@, 0);
    lemma_not_prefix("user,id=net0,ipv6=off,restrict=off"@, "socket,"@, 0);
    lemma_not_prefix("user,id=net0,ipv6=off,restrict=off"@, "tcp:"@, 0);
    reveal_strlit("-nic");
    lemma_differs("-nic"@, "-serial"@, 0);
    lemma_not_prefix("-nic"@, "socket,"@, 0);
    lemma_not_prefix("-nic"@, "tcp:"@, 0);
    reveal_strlit("-D");
    lemma_differs("-D"@, "-serial"@, 0);
    lemma_not_prefix("-D"@, "socket,"@, 0);
    lemma_not_prefix("-D"@, "tcp:"@, 0);
    reveal_strlit("microvm,acpi=on,pit=on,pic=off,rtc=on");
    lemma_differs("microvm,acpi=on,pit=on,pic=off,rtc=on"@, "-serial"@, 0);
    lemma_not_prefix("microvm,acpi=on,pit=on,pic=off,rtc=on"@, "socket,"@, 0);
    lemma_not_prefix("microvm,acpi=on,pit=on,pic=off,rtc=on"@, "tcp:"@, 0);
    reveal_strlit("q35");
    lemma_differs("q35"@, "-serial"@, 0);
    lemma_not_prefix("q35"@, "socket,"@, 0);
    lemma_not_prefix("q35"@, "tcp:"@, 0);
    reveal_strlit("whpx,kernel-irqchip=off");
    lemma_differs("whpx,kernel-irqchip=off"@, "-serial"@, 0);
    lemma_not_prefix("whpx,kernel-irqchip=off"@, "socket,"@, 0);
    lemma_not_prefix("whpx,kernel-irqchip=off"@, "tcp:"@, 0);
    reveal_strlit("tcg,thread=single");
    lemma_differs("tcg,thread=single"@, "-serial"@, 0);
    lemma_not_prefix("tcg,thread=single"@, "socket,"@, 0);
    lemma_not_prefix("tcg,thread=single"@, "tcp:"@, 2);
}

proof fn lemma_prefixed_plain(a: Seq<char>, rest: Seq<char>)
    requires
        a.len() > 0,
        a[0] != '-' && a[0] != 's' && a[0] != 't',
    ensures
        plain_arg(a + rest),
{
    lemma_first_char_decides(a + rest, a[0]);
}

proof fn lemma_blocks_plain(cfg: VmConfig)
    requires
        plain_paths(cfg),
    ensures
        forall|j: int| 0 <= j < head_args(cfg).len() ==> plain_arg(#[trigger] head_args(cfg)[j]),
        forall|j: int| 0 <= j < machine_args(cfg.machine).len() ==> plain_arg(#[trigger] machine_args(cfg.machine)[j]),
        forall|j: int| 0 <= j < boot_args(cfg).len() ==> plain_arg(#[trigger] boot_args(cfg)[j]),
        forall|j: int| 0 <= j < network_args(cfg).len() ==> plain_arg(#[trigger] network_args(cfg)[j]),
        plain_arg("-D"@),
{
    lemma_literals();
    let cpus: nat = if cfg.cpus >= 1 { cfg.cpus as nat } else { 1 };
    crate::text::lemma_decimal_digits(cpus);
    crate::text::lemma_decimal_digits(cfg.memory_mb as nat);
    lemma_first_char_decides(decimal(cpus), decimal(cpus)[0]);
    lemma_first_char_decides(decimal(cfg.memory_mb as nat), decimal(cfg.memory_mb as nat)[0]);
    reveal_strlit("virtio-blk-");
    reveal_strlit("id=root,file=");
    reveal_strlit("virtio-net-");
    reveal_strlit("console=ttyS0,115200");
    lemma_prefixed_plain("virtio-blk-"@ + virtio_suffix_spec(cfg.machine), ",drive=root"@);
    lemma_prefixed_plain("id=root,file="@ + render_spec(cfg.overlay@),
        ",format=qcow2,if=none,cache=writeback,discard=unmap,detect-zeroes=unmap"@);
    lemma_prefixed_plain("virtio-net-"@ + virtio_suffix_spec(cfg.machine), ",netdev=net0"@);
    lemma_join_starts_with_first(cmdline_parts(cfg), " "@, 0);
    lemma_first_char_decides(kernel_cmdline_spec(cfg), 'c');
    let h = head_args(cfg);
    assert forall|j: int| 0 <= j < h.len() implies plain_arg(#[trigger] h[j]) by {}
    let b = boot_args(cfg);
    assert forall|j: int| 0 <= j < b.len() implies plain_arg(#[trigger] b[j]) by {}
}

/// The argument vector carries exactly one serial port, and every socket it opens is one of
/// the three loopback channels (the console, the agent and QMP), each bound to 127.0.0.1:
/// nothing listens on another interface. The paths the configuration supplies must not
/// themselves be options or socket descriptions.
pub proof fn lemma_one_serial_and_loopback_sockets(cfg: VmConfig)
    requires
        plain_paths(cfg),
    ensures
        build_args_spec(cfg)[serial_position(cfg)] == "-serial"@,
        forall|i: int|
            0 <= i < build_args_spec(cfg).len() && #[trigger] build_args_spec(cfg)[i] == "-serial"@ ==> i
                == serial_position(cfg),
        forall|i: int|
            0 <= i < build_args_spec(cfg).len() && opens_socket(#[trigger] build_args_spec(cfg)[i])
                ==> socket_positions(cfg).contains(i),
        forall|i: int|
            #[trigger] socket_positions(cfg).contains(i) ==> starts_with(build_args_spec(cfg)[i], "socket,id=console,host=127.0.0.1,port="@)
                || starts_with(build_args_spec(cfg)[i], "socket,id=agent,host=127.0.0.1,port="@)
                || starts_with(build_args_spec(cfg)[i], "tcp:127.0.0.1:"@),
{
    reveal_strlit("-serial");
    reveal_strlit("socket,");
    reveal_strlit("tcp:");
    lemma_blocks_plain(cfg);
    lemma_literals();
    let h = head_args(cfg);
    let m = machine_args(cfg.machine);
    let b = boot_args(cfg);
    let c = channel_args(cfg);
    let n = network_args(cfg);
    let l = seq!["-D"@, render_spec(cfg.log_file@)];
    let args = build_args_spec(cfg);
    assert(args == h + m + b + c + n + l);
    let o = (h.len() + m.len() + b.len()) as int;
    reveal_strlit("socket,id=console,host=127.0.0.1,port=");
    reveal_strlit("socket,id=agent,host=127.0.0.1,port=");
    reveal_strlit("tcp:127.0.0.1:");
    reveal_strlit("virtserialport,bus=vser0.0,chardev=agent,name=");
    reveal_strlit("virtio-serial-");
    lemma_prefixed_plain("virtio-serial-"@ + virtio_suffix_spec(cfg.machine), ",id=vser0"@);
    lemma_prefixed_plain("virtserialport,bus=vser0.0,chardev=agent,name="@, agent_port_name());
    let console = "socket,id=console,host=127.0.0.1,port="@;
    let agent = "socket,id=agent,host=127.0.0.1,port="@;
    let qmp = "tcp:127.0.0.1:"@;
    let c1 = console + decimal(cfg.console_port as nat) + ",server=on,wait=off,telnet=off"@;
    let c7 = agent + decimal(cfg.agent_port as nat) + ",server=on,wait=off"@;
    let c11 = qmp + decimal(cfg.qmp_port as nat) + ",server=on,wait=off"@;
    assert(c1.subrange(0, console.len() as int) =~= console);
    assert(c7.subrange(0, agent.len() as int) =~= agent);
    assert(c11.subrange(0, qmp.len() as int) =~= qmp);
    assert(c1 != "-serial"@ && c7 != "-serial"@ && c11 != "-serial"@) by {
        reveal_strlit("-serial");
        assert(c1[0] == 's' && c1.len() > 7);
        assert(c7.len() > 7);
        assert(c11[0] == 't');
    }
    assert forall|j: int| 0 <= j < c.len() && j != 1 && j != 7 && j != 11 && j != 2 implies plain_arg(#[trigger] c[j]) by {}
    assert forall|i: int|
        0 <= i < args.len() && #[trigger] args[i] == "-serial"@ implies i == serial_position(cfg) by {
        if i < h.len() {
            assert(args[i] == h[i]);
        } else if i < h.len() + m.len() {
            assert(args[i] == m[i - h.len()]);
        } else if i < o {
            assert(args[i] == b[i - h.len() - m.len()]);
        } else if i < o + c.len() {
            assert(args[i] == c[i - o]);
        } else if i < o + c.len() + n.len() {
            assert(args[i] == n[i - o - c.len()]);
        } else {
            assert(args[i] == l[i - o - c.len() - n.len()]);
        }
    }
    assert forall|i: int|
        0 <= i < args.len() && opens_socket(#[trigger] args[i]) implies socket_positions(cfg).contains(i) by {
        if i < h.len() {
            assert(args[i] == h[i]);
        } else if i < h.len() + m.len() {
            assert(args[i] == m[i - h.len()]);
        } else if i < o {
            assert(args[i] == b[i - h.len() - m.len()]);
        } else if i < o + c.len() {
            assert(args[i] == c[i - o]);
            lemma_not_prefix("-serial"@, "socket,"@, 0);
            lemma_not_prefix("-serial"@, "tcp:"@, 0);
        } else if i < o + c.len() + n.len() {
            assert(args[i] == n[i - o - c.len()]);
        } else {
            assert(args[i] == l[i - o - c.len() - n.len()]);
        }
    }
    assert(args[o + 1] == c1 && args[o + 7] == c7 && args[o + 11] == c11);
}

} // verus!
