//! Virtual machine configuration and lifecycle state.
use crate::lesson::NetworkMode;
use vstd::prelude::*;

verus! {

#[derive(Debug, Clone, Copy, PartialEq, Eq, Structural)]
pub enum MachineType {
    /// Minimal x86 machine with a reduced device model and direct kernel boot.
    Microvm,
    /// Fallback for anything microvm cannot express.
    Q35,
}

impl MachineType {
    pub open spec fn qemu_arg_spec(self) -> Seq<char> {
        match self {
            MachineType::Microvm => "microvm,acpi=on,pit=on,pic=off,rtc=on"@,
            MachineType::Q35 => "q35"@,
        }
    }

    /// The `-machine` value. ACPI is needed for clean shutdown; the PIT stays on because
    /// without it recent kernels find no clock-calibration source.
    pub fn as_qemu_arg(self) -> (r: &'static str)
        ensures
            r@ == self.qemu_arg_spec(),
    {
        match self {
            MachineType::Microvm => "microvm,acpi=on,pit=on,pic=off,rtc=on",
            MachineType::Q35 => "q35",
        }
    }
}

#[derive(Debug, Clone, Copy, PartialEq, Eq, Structural)]
pub enum AccelMode {
    /// Windows Hypervisor Platform. Used only when already enabled on the host.
    Whpx,
    /// Pure software translation. Always available, so it is the guaranteed fallback.
    Tcg,
}

impl AccelMode {
    pub open spec fn qemu_arg_spec(self) -> Seq<char> {
        match self {
            AccelMode::Whpx => "whpx,kernel-irqchip=off"@,
            AccelMode::Tcg => "tcg,thread=single"@,
        }
    }

    /// The `-accel` value. WHPX needs the in-kernel irqchip off; one guest vCPU runs best on
    /// the single-thread translator.
    pub fn as_qemu_arg(self) -> (r: &'static str)
        ensures
            r@ == self.qemu_arg_spec(),
    {
        match self {
            AccelMode::Whpx => "whpx,kernel-irqchip=off",
            AccelMode::Tcg => "tcg,thread=single",
        }
    }

    pub open spec fn label_spec(self) -> Seq<char> {
        match self {
            AccelMode::Whpx => "Hardware acceleration (WHPX)"@,
            AccelMode::Tcg => "Software translation (TCG)"@,
        }
    }

    pub fn label(self) -> (r: &'static str)
        ensures
            r@ == self.label_spec(),
    {
        match self {
            AccelMode::Whpx => "Hardware acceleration (WHPX)",
            AccelMode::Tcg => "Software translation (TCG)",
        }
    }
}

/// How QEMU is launched for one session. Paths are host paths as text.
#[derive(Debug, Clone, PartialEq, Eq)]
pub struct VmConfig {
    pub machine: MachineType,
    pub accel: AccelMode,
    pub cpus: u8,
    pub memory_mb: u32,
    pub kernel: String,
    pub initrd: Option<String>,
    /// Read-only base image. Never written to.
    pub base_image: String,
    /// Copy-on-write overlay backed by `base_image`.
    pub overlay: String,
    pub network_mode: NetworkMode,
    /// Loopback TCP port for QMP.
    pub qmp_port: u16,
    /// Loopback TCP port carrying the guest serial console.
    pub console_port: u16,
    /// Loopback TCP port for the agent control channel.
    pub agent_port: u16,
    /// Shared secret the guest agent requires on every request.
    pub control_token: String,
    pub log_file: String,
}

impl VmConfig {
    /// An equal copy of the configuration.
    pub fn duplicate(&self) -> (r: VmConfig)
        ensures
            r == *self,
    {
        VmConfig {
            machine: self.machine,
            accel: self.accel,
            cpus: self.cpus,
            memory_mb: self.memory_mb,
            kernel: self.kernel.clone(),
            initrd: match &self.initrd {
                Some(p) => Some(p.clone()),
                None => None,
            },
            base_image: self.base_image.clone(),
            overlay: self.overlay.clone(),
            network_mode: self.network_mode,
            qmp_port: self.qmp_port,
            console_port: self.console_port,
            agent_port: self.agent_port,
            control_token: self.control_token.clone(),
            log_file: self.log_file.clone(),
        }
    }
}

#[derive(Debug, Clone, Copy, PartialEq, Eq, Structural)]
pub enum VmState {
    Stopped,
    Starting,
    /// QEMU is up and the console is attached, but the agent has not answered yet.
    BootingGuest,
    /// Agent reported ready; lessons can run.
    Ready,
    Paused,
    Stopping,
    /// The guest booted at some point but is no longer usable.
    Unbootable,
    Failed,
}

impl VmState {
    /// Only a ready guest takes lesson commands.
    pub fn accepts_commands(self) -> (r: bool)
        ensures
            r == (self == VmState::Ready),
    {
        match self {
            VmState::Ready => true,
            _ => false,
        }
    }

    pub fn is_transitional(self) -> (r: bool)
        ensures
            r == (self == VmState::Starting || self == VmState::BootingGuest || self
                == VmState::Stopping),
    {
        match self {
            VmState::Starting | VmState::BootingGuest | VmState::Stopping => true,
            _ => false,
        }
    }
}

#[derive(Debug, Clone, PartialEq, Eq)]
pub struct VmStatus {
    pub state: VmState,
    pub accel: AccelMode,
    pub machine: MachineType,
    pub memory_mb: u32,
    pub pid: Option<u32>,
    pub boot_millis: Option<u64>,
    pub guest_kernel: Option<String>,
    pub image_version: Option<String>,
    pub detail: Option<String>,
}

impl VmStatus {
    /// The status of a machine that is not running.
    pub fn stopped(accel: AccelMode, machine: MachineType, memory_mb: u32) -> (r: VmStatus)
        ensures
            r == (VmStatus {
                state: VmState::Stopped,
                accel,
                machine,
                memory_mb,
                pid: None,
                boot_millis: None,
                guest_kernel: None,
                image_version: None,
                detail: None,
            }),
    {
        VmStatus {
            state: VmState::Stopped,
            accel,
            machine,
            memory_mb,
            pid: None,
            boot_millis: None,
            guest_kernel: None,
            image_version: None,
            detail: None,
        }
    }
}

} // verus!
