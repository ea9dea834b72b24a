//! Choosing the accelerator. Acceleration is strictly optional: the learner is never asked to
//! turn a Windows feature on, startup never fails because it is missing, and finding out
//! needs no administrator rights.
use crate::text::{append, lowercase_of, owned, same_text, to_lowercase};
use crate::vm::AccelMode;
use vstd::prelude::*;

verus! {

#[derive(Debug, Clone, PartialEq, Eq)]
pub struct AccelDecision {
    pub mode: AccelMode,
    /// Shown in Settings and the Environment panel so a slow lab is explainable.
    pub reason: String,
}

/// What the host's hypervisor probe reported.
#[derive(Debug, Clone, PartialEq, Eq)]
pub enum HypervisorProbe {
    /// Not a Windows host: hardware acceleration is not attempted there.
    NotWindows,
    /// The Windows Hypervisor Platform reports a hypervisor.
    Present,
    /// The platform is not installed or reports none.
    Absent,
    /// The platform is installed but could not be asked; the detail says why.
    Unusable(String),
}

pub open spec fn hardware_reason() -> Seq<char> {
    "Windows Hypervisor Platform is available, so the lab runs with hardware acceleration."@
}

pub open spec fn software_reason(detail: Seq<char>) -> Seq<char> {
    "Running with software translation ("@ + detail
        + "). Everything works, but the terminal starts more slowly. No action is needed."@
}

pub open spec fn forced_tcg_reason() -> Seq<char> {
    "Software translation forced by LINUXLAB_ACCEL."@
}

pub open spec fn forced_whpx_reason() -> Seq<char> {
    "Hardware acceleration forced by LINUXLAB_ACCEL."@
}

/// The decision an override value forces, if it names an accelerator (case does not
/// matter).
pub open spec fn forced_spec(value: Seq<char>) -> Option<(AccelMode, Seq<char>)> {
    if lowercase_of(value) == "tcg"@ {
        Some((AccelMode::Tcg, forced_tcg_reason()))
    } else if lowercase_of(value) == "whpx"@ {
        Some((AccelMode::Whpx, forced_whpx_reason()))
    } else {
        None
    }
}

/// The decision the probe leads to.
pub open spec fn platform_spec(probe: HypervisorProbe) -> (AccelMode, Seq<char>) {
    match probe {
        HypervisorProbe::Present => (AccelMode::Whpx, hardware_reason()),
        HypervisorProbe::Absent => (
            AccelMode::Tcg,
            software_reason("Windows Hypervisor Platform is not enabled"@),
        ),
        HypervisorProbe::Unusable(detail) => (AccelMode::Tcg, software_reason(detail@)),
        HypervisorProbe::NotWindows => (AccelMode::Tcg, software_reason(
            "this is not a Windows host"@,
        )),
    }
}

/// The accelerator for this host: an override when it names one, else what the probe says.
pub open spec fn detect_spec(env_override: Option<Seq<char>>, probe: HypervisorProbe) -> (
    AccelMode,
    Seq<char>,
) {
    match env_override {
        Some(v) => match forced_spec(v) {
            Some(d) => d,
            None => platform_spec(probe),
        },
        None => platform_spec(probe),
    }
}

impl AccelDecision {
    pub open spec fn view_pair(self) -> (AccelMode, Seq<char>) {
        (self.mode, self.reason@)
    }

    pub fn hardware() -> (r: AccelDecision)
        ensures
            r.view_pair() == (AccelMode::Whpx, hardware_reason()),
    {
        AccelDecision {
            mode: AccelMode::Whpx,
            reason: owned(
                "Windows Hypervisor Platform is available, so the lab runs with hardware acceleration.",
            ),
        }
    }

    /// The software fallback, with the reason acceleration is not used. It never asks the
    /// learner to do anything.
    pub fn software(detail: &str) -> (r: AccelDecision)
        ensures
            r.view_pair() == (AccelMode::Tcg, software_reason(detail@)),
    {
        let mut reason = owned("Running with software translation (");
        append(&mut reason, detail);
        append(
            &mut reason,
            "). Everything works, but the terminal starts more slowly. No action is needed.",
        );
        AccelDecision { mode: AccelMode::Tcg, reason }
    }
}

/// The decision an override value (`LINUXLAB_ACCEL`) forces, if it names an accelerator.
pub fn forced(value: &str) -> (r: Option<AccelDecision>)
    ensures
        match r {
            Some(d) => forced_spec(value@) == Some(d.view_pair()),
            None => forced_spec(value@) is None,
        },
{
    let lower = to_lowercase(value);
    if same_text(lower.as_str(), "tcg") {
        Some(
            AccelDecision {
                mode: AccelMode::Tcg,
                reason: owned("Software translation forced by LINUXLAB_ACCEL."),
            },
        )
    } else if same_text(lower.as_str(), "whpx") {
        Some(
            AccelDecision {
                mode: AccelMode::Whpx,
                reason: owned("Hardware acceleration forced by LINUXLAB_ACCEL."),
            },
        )
    } else {
        None
    }
}

/// The decision the hypervisor probe leads to. Every failure path falls back to software
/// translation.
pub fn from_probe(probe: &HypervisorProbe) -> (r: AccelDecision)
    ensures
        r.view_pair() == platform_spec(*probe),
{
    match probe {
        HypervisorProbe::Present => AccelDecision::hardware(),
        HypervisorProbe::Absent => AccelDecision::software(
            "Windows Hypervisor Platform is not enabled",
        ),
        HypervisorProbe::Unusable(detail) => AccelDecision::software(detail.as_str()),
        HypervisorProbe::NotWindows => AccelDecision::software("this is not a Windows host"),
    }
}

/// Picks the accelerator: the override (`LINUXLAB_ACCEL=tcg|whpx`) when it names one,
/// otherwise what the probe found. Always yields a launchable mode and an explanation.
pub fn detect(env_override: Option<&str>, probe: &HypervisorProbe) -> (r: AccelDecision)
    ensures
        r.view_pair() == detect_spec(
            match env_override {
                Some(v) => Some(v@),
                None => None,
            },
            *probe,
        ),
        r.reason@.len() > 0,
{
    proof {
        reveal_strlit("Software translation forced by LINUXLAB_ACCEL.");
        reveal_strlit("Hardware acceleration forced by LINUXLAB_ACCEL.");
        reveal_strlit(
            "Windows Hypervisor Platform is available, so the lab runs with hardware acceleration.",
        );
        reveal_strlit("Running with software translation (");
    }
    match env_override {
        Some(v) => match forced(v) {
            Some(d) => d,
            None => from_probe(probe),
        },
        None => from_probe(probe),
    }
}

} // verus!
