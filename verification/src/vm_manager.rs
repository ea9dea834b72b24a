//! Host-side virtual machine orchestration: which machine and accelerator to launch, the
//! launch configuration of a session, and the lifecycle state the rest of the application
//! reads. Launching, signalling and talking to QEMU are the caller's; this keeps the
//! decisions.
use crate::accel::{AccelDecision, software_reason};
use crate::lesson::NetworkMode;
use crate::overlay::{OverlayManager, OverlaySpec, lesson_file_name};
use crate::paths::{join_path, join_spec};
use crate::text::{append, chars_of, owned, parse_unsigned, parse_unsigned_chars, trim, trimmed};
use crate::vm::{AccelMode, MachineType, VmConfig, VmState, VmStatus};
use rand::Rng;
use vstd::prelude::*;

verus! {

pub const DEFAULT_MEMORY_MB: u32 = 256;

pub const ADVANCED_MEMORY_MB: u32 = 384;

/// Paths the manager needs from the runtime layout.
#[derive(Debug, Clone, PartialEq, Eq)]
pub struct RuntimePaths {
    pub qemu_system: String,
    pub qemu_img: String,
    pub kernel: String,
    pub initrd: Option<String>,
    pub base_image: String,
    pub data_dir: String,
    pub log_dir: String,
}

impl RuntimePaths {
    pub fn vm_log(&self) -> (r: String)
        ensures
            r@ == join_spec(self.log_dir@, "vm.log"@),
    {
        join_path(self.log_dir.as_str(), "vm.log")
    }
}

/// Which writable layer a session runs against.
#[derive(Debug, Clone, PartialEq, Eq)]
pub enum SessionKind {
    FreePractice,
    Lesson { lesson_id: String },
}

/// Software translation runs on the reliable q35 machine; hardware acceleration on microvm.
pub open spec fn preferred_machine_spec(accel: AccelMode) -> MachineType {
    match accel {
        AccelMode::Tcg => MachineType::Q35,
        AccelMode::Whpx => MachineType::Microvm,
    }
}

pub fn preferred_machine(accel: AccelMode) -> (r: MachineType)
    ensures
        r == preferred_machine_spec(accel),
{
    match accel {
        AccelMode::Tcg => MachineType::Q35,
        AccelMode::Whpx => MachineType::Microvm,
    }
}

/// The digit `n` (below sixteen) in lower-case hexadecimal.
pub open spec fn hex_digit(n: nat) -> char {
    if n < 10 {
        (('0' as u32) + n) as char
    } else {
        (('a' as u32) + n - 10) as char
    }
}

/// Bytes in lower-case hexadecimal, two digits each (`{:02x}`).
pub open spec fn hex_spec(bytes: Seq<u8>) -> Seq<char>
    decreases bytes.len(),
{
    if bytes.len() == 0 {
        Seq::empty()
    } else {
        hex_spec(bytes.drop_last()).push(hex_digit((bytes.last() / 16) as nat)).push(
            hex_digit((bytes.last() % 16) as nat),
        )
    }
}

pub open spec fn is_lower_hex(c: char) -> bool {
    ('0' <= c && c <= '9') || ('a' <= c && c <= 'f')
}

/// Hexadecimal text is twice as long as its bytes and holds only hex digits.
pub proof fn lemma_hex_shape(bytes: Seq<u8>)
    ensures
        hex_spec(bytes).len() == 2 * bytes.len(),
        forall|i: int| 0 <= i < hex_spec(bytes).len() ==> is_lower_hex(#[trigger] hex_spec(bytes)[i]),
    decreases bytes.len(),
{
    if bytes.len() > 0 {
        lemma_hex_shape(bytes.drop_last());
    }
}

fn hex_char(n: u8) -> (c: char)
    requires
        n < 16,
    ensures
        c == hex_digit(n as nat),
{
    match n {
        0 => '0',
        1 => '1',
        2 => '2',
        3 => '3',
        4 => '4',
        5 => '5',
        6 => '6',
        7 => '7',
        8 => '8',
        9 => '9',
        10 => 'a',
        11 => 'b',
        12 => 'c',
        13 => 'd',
        14 => 'e',
        _ => 'f',
    }
}

/// Bytes as lower-case hexadecimal.
pub fn hex_lower(bytes: &Vec<u8>) -> (r: String)
    ensures
        r@ == hex_spec(bytes@),
{
    let mut out = String::new();
    let mut i: usize = 0;
    assert(out@ =~= hex_spec(bytes@.subrange(0, 0)));
    while i < bytes.len()
        invariant
            i <= bytes.len(),
            out@ == hex_spec(bytes@.subrange(0, i as int)),
        decreases bytes.len() - i,
    {
        let b = bytes[i];
        crate::text::push_char(&mut out, hex_char(b / 16));
        crate::text::push_char(&mut out, hex_char(b % 16));
        assert(bytes@.subrange(0, i + 1).drop_last() =~= bytes@.subrange(0, i as int));
        i += 1;
    }
    assert(bytes@.subrange(0, bytes.len() as int) =~= bytes@);
    out
}

/// 32 bytes from the thread-local generator (`rand::thread_rng().fill`). Of the bytes
/// nothing is stated but their number: they are chance. `fill` panics only when the
/// generator fails, which for the thread-local generator means the operating system's
/// entropy source failed.
#[verifier::external_body]
fn random_bytes() -> (r: Vec<u8>)
    ensures
        r@.len() == 32,
{
    let mut bytes = [0u8; 32];
    rand::thread_rng().fill(&mut bytes);
    bytes.to_vec()
}

/// 256 bits of randomness, hex encoded: 64 lower-case hexadecimal digits. Guards the agent
/// control channel for one virtual machine run.
pub fn generate_token() -> (r: String)
    ensures
        exists|b: Seq<u8>| b.len() == 32 && r@ == hex_spec(b),
        r@.len() == 64,
        forall|i: int| 0 <= i < r@.len() ==> is_lower_hex(#[trigger] r@[i]),
{
    let bytes = random_bytes();
    proof {
        lemma_hex_shape(bytes@);
    }
    hex_lower(&bytes)
}

/// Records the PID of the QEMU that was started so the next launch can find a stale one.
#[derive(Debug, Clone, PartialEq, Eq)]
pub struct PidFile {
    pub path: String,
}

impl PidFile {
    pub fn new(data_dir: &str) -> (r: PidFile)
        ensures
            r.path@ == join_spec(data_dir@, "vm.pid"@),
    {
        PidFile { path: join_path(data_dir, "vm.pid") }
    }

    /// The PID a pid file's text records: the trimmed text as a decimal `u32`.
    pub fn parse(text: &str) -> (r: Option<u32>)
        ensures
            match r {
                Some(p) => parse_unsigned(trim(text@), 10, u32::MAX as nat) == Some(p as nat),
                None => parse_unsigned(trim(text@), 10, u32::MAX as nat) is None,
            },
    {
        let t = trimmed(text);
        let chars = chars_of(t.as_str());
        match parse_unsigned_chars(&chars, 10, u32::MAX as u64) {
            Some(v) => Some(v as u32),
            None => None,
        }
    }
}

/// The abstract state of a [`VmManager`].
pub struct VmModel {
    pub paths: RuntimePaths,
    pub overlays: OverlayManager,
    pub accel_mode: AccelMode,
    pub accel_reason: Seq<char>,
    pub machine: MachineType,
    /// The PID of the QEMU this manager launched, while it runs.
    pub pid: Option<u32>,
    pub config: Option<VmConfig>,
    pub state: VmState,
    pub boot_millis: Option<u64>,
    pub detail: Option<Seq<char>>,
}

pub struct VmManager {
    paths: RuntimePaths,
    overlays: OverlayManager,
    accel: AccelDecision,
    machine: MachineType,
    pid: Option<u32>,
    config: Option<VmConfig>,
    state: VmState,
    boot_millis: Option<u64>,
    detail: Option<String>,
}

pub open spec fn opt_view(s: Option<String>) -> Option<Seq<char>> {
    match s {
        Some(t) => Some(t@),
        None => None,
    }
}

impl View for VmManager {
    type V = VmModel;

    closed spec fn view(&self) -> VmModel {
        VmModel {
            paths: self.paths,
            overlays: self.overlays,
            accel_mode: self.accel.mode,
            accel_reason: self.accel.reason@,
            machine: self.machine,
            pid: self.pid,
            config: self.config,
            state: self.state,
            boot_millis: self.boot_millis,
            detail: opt_view(self.detail),
        }
    }
}

pub open spec fn exited_detail(guest_had_booted: bool) -> Seq<char> {
    if guest_had_booted {
        "The Linux practice environment is no longer bootable. Windows was not affected."@
    } else {
        "The virtual machine stopped before Linux finished starting."@
    }
}

pub open spec fn fallback_reason(detail: Seq<char>) -> Seq<char> {
    "Running with software translation ("@ + detail + ")."@
}

/// The overlay a session runs against: Free Practice persists, a lesson gets its own.
pub open spec fn session_overlay_path(data_dir: Seq<char>, kind: SessionKind) -> Seq<char> {
    match kind {
        SessionKind::FreePractice => join_spec(data_dir, "free-practice.qcow2"@),
        SessionKind::Lesson { lesson_id } => join_spec(
            join_spec(data_dir, "lessons"@),
            lesson_file_name(lesson_id@),
        ),
    }
}

impl VmManager {
    /// A stopped manager that will launch on the machine the accelerator prefers.
    pub fn new(paths: RuntimePaths, accel: AccelDecision) -> (r: VmManager)
        ensures
            r@.paths == paths,
            r@.overlays.qemu_img@ == paths.qemu_img@,
            r@.overlays.data_dir@ == paths.data_dir@,
            r@.accel_mode == accel.mode,
            r@.accel_reason == accel.reason@,
            r@.machine == preferred_machine_spec(accel.mode),
            r@.pid is None,
            r@.config is None,
            r@.state == VmState::Stopped,
            r@.boot_millis is None,
            r@.detail is None,
    {
        let overlays = OverlayManager::new(paths.qemu_img.as_str(), paths.data_dir.as_str());
        let machine = preferred_machine(accel.mode);
        VmManager {
            paths,
            overlays,
            accel,
            machine,
            pid: None,
            config: None,
            state: VmState::Stopped,
            boot_millis: None,
            detail: None,
        }
    }

    pub fn accel_decision(&self) -> (r: &AccelDecision)
        ensures
            r.mode == self@.accel_mode,
            r.reason@ == self@.accel_reason,
    {
        &self.accel
    }

    pub fn overlays(&self) -> (r: &OverlayManager)
        ensures
            *r == self@.overlays,
    {
        &self.overlays
    }

    pub fn paths(&self) -> (r: &RuntimePaths)
        ensures
            *r == self@.paths,
    {
        &self.paths
    }

    pub fn state(&self) -> (r: VmState)
        ensures
            r == self@.state,
    {
        self.state
    }

    /// The PID of the QEMU this manager launched, while it runs.
    pub fn pid(&self) -> (r: Option<u32>)
        ensures
            r == self@.pid,
    {
        self.pid
    }

    pub fn status(&self) -> (r: VmStatus)
        ensures
            r.state == self@.state,
            r.accel == self@.accel_mode,
            r.machine == self@.machine,
            r.memory_mb == match self@.config {
                Some(c) => c.memory_mb,
                None => DEFAULT_MEMORY_MB,
            },
            r.pid == self@.pid,
            r.boot_millis == self@.boot_millis,
            r.guest_kernel is None,
            r.image_version is None,
            opt_view(r.detail) == self@.detail,
    {
        let memory_mb = match &self.config {
            Some(c) => c.memory_mb,
            None => DEFAULT_MEMORY_MB,
        };
        let detail = match &self.detail {
            Some(d) => Some(owned(d.as_str())),
            None => None,
        };
        VmStatus {
            state: self.state,
            accel: self.accel.mode,
            machine: self.machine,
            memory_mb,
            pid: self.pid,
            boot_millis: self.boot_millis,
            guest_kernel: None,
            image_version: None,
            detail,
        }
    }

    pub fn config(&self) -> (r: Option<&VmConfig>)
        ensures
            match r {
                Some(c) => self@.config == Some(*c),
                None => self@.config is None,
            },
    {
        self.config.as_ref()
    }

    /// Falls back to the q35 machine type for the rest of the session, after a microvm boot
    /// failed, so a compatibility problem degrades instead of blocking the learner.
    pub fn use_fallback_machine(&mut self)
        ensures
            final(self)@ == (VmModel { machine: MachineType::Q35, ..old(self)@ }),
    {
        self.machine = MachineType::Q35;
    }

    /// Falls back when WHPX is present but cannot run this QEMU and host: software
    /// translation on the q35 machine is the compatibility floor.
    pub fn use_software_acceleration(&mut self, detail: &str)
        ensures
            final(self)@ == (VmModel {
                accel_mode: AccelMode::Tcg,
                accel_reason: fallback_reason(detail@),
                machine: MachineType::Q35,
                ..old(self)@
            }),
    {
        let mut reason = owned("Running with software translation (");
        append(&mut reason, detail);
        append(&mut reason, ").");
        self.accel = AccelDecision { mode: AccelMode::Tcg, reason };
        self.machine = preferred_machine(self.accel.mode);
    }

    /// The overlay a session runs against.
    pub fn session_overlay(&self, kind: &SessionKind) -> (r: OverlaySpec)
        ensures
            r.path@ == session_overlay_path(self@.overlays.data_dir@, *kind),
            r.backing@ == self@.paths.base_image@,
    {
        match kind {
            SessionKind::FreePractice => self.overlays.free_practice_spec(
                self.paths.base_image.as_str(),
            ),
            SessionKind::Lesson { lesson_id } => self.overlays.lesson_spec(
                lesson_id.as_str(),
                self.paths.base_image.as_str(),
            ),
        }
    }

    /// The launch configuration for a session on its overlay: one CPU, the requested memory
    /// (the default when none is asked for), loopback ports the caller reserved, and a fresh
    /// control token. It is kept as the current configuration.
    pub fn configure(
        &mut self,
        kind: &SessionKind,
        network_mode: NetworkMode,
        memory_mb: Option<u32>,
        qmp_port: u16,
        console_port: u16,
        agent_port: u16,
    ) -> (r: VmConfig)
        ensures
            r.machine == old(self)@.machine,
            r.accel == old(self)@.accel_mode,
            r.cpus == 1,
            r.memory_mb == match memory_mb {
                Some(m) => m,
                None => DEFAULT_MEMORY_MB,
            },
            r.kernel == old(self)@.paths.kernel,
            r.initrd == old(self)@.paths.initrd,
            r.base_image == old(self)@.paths.base_image,
            r.overlay@ == session_overlay_path(old(self)@.overlays.data_dir@, *kind),
            r.network_mode == network_mode,
            r.qmp_port == qmp_port,
            r.console_port == console_port,
            r.agent_port == agent_port,
            r.control_token@.len() == 64,
            forall|i: int|
                0 <= i < r.control_token@.len() ==> is_lower_hex(#[trigger] r.control_token@[i]),
            r.log_file@ == join_spec(old(self)@.paths.log_dir@, "vm.log"@),
            final(self)@ == (VmModel { config: Some(r), ..old(self)@ }),
    {
        let spec = self.session_overlay(kind);
        let config = VmConfig {
            machine: self.machine,
            accel: self.accel.mode,
            cpus: 1,
            memory_mb: match memory_mb {
                Some(m) => m,
                None => DEFAULT_MEMORY_MB,
            },
            kernel: self.paths.kernel.clone(),
            initrd: match &self.paths.initrd {
                Some(p) => Some(p.clone()),
                None => None,
            },
            base_image: self.paths.base_image.clone(),
            overlay: spec.path,
            network_mode,
            qmp_port,
            console_port,
            agent_port,
            control_token: generate_token(),
            log_file: self.paths.vm_log(),
        };
        self.config = Some(config.duplicate());
        config
    }

    /// The first step of a launch: refused while a QEMU this manager started still runs,
    /// otherwise the machine is starting.
    pub fn begin_start(&mut self) -> (r: Result<(), String>)
        ensures
            old(self)@.pid is Some ==> r is Err && final(self)@ == old(self)@,
            r matches Err(e) ==> e@ == "a virtual machine is already running"@,
            old(self)@.pid is None ==> r is Ok && final(self)@ == (VmModel {
                state: VmState::Starting,
                ..old(self)@
            }),
    {
        if self.pid.is_some() {
            return Err(owned("a virtual machine is already running"));
        }
        self.state = VmState::Starting;
        Ok(())
    }

    /// QEMU is running under `pid`; the guest is booting.
    pub fn mark_launched(&mut self, pid: u32) -> (r: VmStatus)
        ensures
            final(self)@ == (VmModel {
                pid: Some(pid),
                state: VmState::BootingGuest,
                ..old(self)@
            }),
            r.state == VmState::BootingGuest,
            r.pid == Some(pid),
    {
        self.pid = Some(pid);
        self.state = VmState::BootingGuest;
        self.status()
    }

    /// The guest agent answered. `boot_millis` is the time since launch, when it is known.
    pub fn mark_ready(&mut self, boot_millis: Option<u64>)
        ensures
            final(self)@ == (VmModel {
                state: VmState::Ready,
                detail: None,
                boot_millis: match boot_millis {
                    Some(m) => Some(m),
                    None => old(self)@.boot_millis,
                },
                ..old(self)@
            }),
    {
        if let Some(m) = boot_millis {
            self.boot_millis = Some(m);
        }
        self.state = VmState::Ready;
        self.detail = None;
    }

    /// QEMU exited unexpectedly. A guest that had booted and then died is reported as
    /// unbootable, so the interface can offer a snapshot restore rather than a raw error.
    pub fn mark_exited(&mut self, guest_had_booted: bool)
        ensures
            final(self)@ == (VmModel {
                pid: None,
                state: if guest_had_booted {
                    VmState::Unbootable
                } else {
                    VmState::Failed
                },
                detail: Some(exited_detail(guest_had_booted)),
                ..old(self)@
            }),
    {
        self.pid = None;
        if guest_had_booted {
            self.detail = Some(
                owned(
                    "The Linux practice environment is no longer bootable. Windows was not affected.",
                ),
            );
            self.state = VmState::Unbootable;
        } else {
            self.detail = Some(owned("The virtual machine stopped before Linux finished starting."));
            self.state = VmState::Failed;
        }
    }

    pub fn mark_failed(&mut self, detail: &str)
        ensures
            final(self)@ == (VmModel {
                state: VmState::Failed,
                detail: Some(detail@),
                ..old(self)@
            }),
    {
        self.state = VmState::Failed;
        self.detail = Some(owned(detail));
    }

    /// The first step of a stop. `None` when there is nothing to stop (no configuration, or
    /// no QEMU running); otherwise the machine is stopping, and the answer says whether the
    /// guest was ready (or paused) and so can take a polite ACPI shutdown first.
    pub fn begin_stop(&mut self) -> (r: Option<bool>)
        ensures
            (old(self)@.config is None || old(self)@.pid is None) ==> r is None && final(self)@
                == old(self)@,
            (old(self)@.config is Some && old(self)@.pid is Some) ==> r == Some(
                old(self)@.state == VmState::Ready || old(self)@.state == VmState::Paused,
            ) && final(self)@ == (VmModel { state: VmState::Stopping, ..old(self)@ }),
    {
        if self.config.is_none() || self.pid.is_none() {
            return None;
        }
        let guest_was_ready = match self.state {
            VmState::Ready | VmState::Paused => true,
            _ => false,
        };
        self.state = VmState::Stopping;
        Some(guest_was_ready)
    }

    /// QEMU is gone after a stop.
    pub fn finish_stop(&mut self)
        ensures
            final(self)@ == (VmModel {
                pid: None,
                state: VmState::Stopped,
                boot_millis: None,
                ..old(self)@
            }),
    {
        self.pid = None;
        self.state = VmState::Stopped;
        self.boot_millis = None;
    }

    /// The QMP port of the configured machine, which pausing and resuming talk to.
    pub fn control_port(&self) -> (r: Result<u16, String>)
        ensures
            match self@.config {
                Some(c) => r == Ok::<u16, String>(c.qmp_port),
                None => r matches Err(e) && e@ == "no virtual machine configured"@,
            },
    {
        match &self.config {
            Some(c) => Ok(c.qmp_port),
            None => Err(owned("no virtual machine configured")),
        }
    }

    pub fn mark_paused(&mut self)
        ensures
            final(self)@ == (VmModel { state: VmState::Paused, ..old(self)@ }),
    {
        self.state = VmState::Paused;
    }

    pub fn mark_resumed(&mut self)
        ensures
            final(self)@ == (VmModel { state: VmState::Ready, ..old(self)@ }),
    {
        self.state = VmState::Ready;
    }
}

} // verus!
