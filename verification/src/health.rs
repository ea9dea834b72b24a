//! Startup health: the findings the interface shows verbatim before a lab starts. A finding
//! either has a one-click recovery action or is not blocking.
use crate::integrity::{VerificationReport, problems_spec};
use crate::layout::Layout;
use crate::text::{append, contains, decimal, decimal_string, occurs_at, owned, strings_view};
use vstd::prelude::*;

verus! {

#[derive(Debug, Clone, Copy, PartialEq, Eq, Structural)]
pub enum Severity {
    /// The application cannot start a lab until this is resolved.
    Blocking,
    /// Startup continues, but something is degraded.
    Warning,
    Info,
}

/// The recovery controls offered in the interface.
#[derive(Debug, Clone, Copy, PartialEq, Eq, Structural)]
pub enum RecoveryAction {
    NoAction,
    VerifyRuntimeFiles,
    ReinstallRuntime,
    RepairUserOverlay,
    ResetPracticeEnvironment,
    RestoreLastSnapshot,
    FreeDiskSpace,
    ExportDiagnosticReport,
}

#[derive(Debug, Clone, PartialEq, Eq)]
pub struct Finding {
    pub severity: Severity,
    pub title: String,
    pub detail: String,
    pub action: RecoveryAction,
}

pub struct FindingView {
    pub severity: Severity,
    pub title: Seq<char>,
    pub detail: Seq<char>,
    pub action: RecoveryAction,
}

impl View for Finding {
    type V = FindingView;

    open spec fn view(&self) -> FindingView {
        FindingView {
            severity: self.severity,
            title: self.title@,
            detail: self.detail@,
            action: self.action,
        }
    }
}

#[derive(Debug, Clone, PartialEq, Eq)]
pub struct HealthReport {
    pub findings: Vec<Finding>,
    /// Set when the previous run did not shut down cleanly.
    pub unclean_shutdown: bool,
    pub free_disk_bytes: Option<u64>,
}

pub open spec fn findings_view(fs: Seq<Finding>) -> Seq<FindingView> {
    fs.map_values(|f: Finding| f@)
}

impl HealthReport {
    /// No finding blocks.
    pub fn can_start(&self) -> (r: bool)
        ensures
            r == forall|i: int|
                0 <= i < self.findings@.len() ==> (#[trigger] self.findings@[i]).severity
                    != Severity::Blocking,
    {
        let mut i: usize = 0;
        while i < self.findings.len()
            invariant
                i <= self.findings@.len(),
                forall|j: int|
                    0 <= j < i ==> (#[trigger] self.findings@[j]).severity != Severity::Blocking,
            decreases self.findings.len() - i,
        {
            if self.findings[i].severity == Severity::Blocking {
                return false;
            }
            i += 1;
        }
        true
    }

    /// The blocking findings, in order.
    pub fn blocking(&self) -> (r: Vec<&Finding>)
        ensures
            r@.map_values(|f: &Finding| *f) == self.findings@.filter(
                |f: Finding| f.severity == Severity::Blocking,
            ),
    {
        let mut out: Vec<&Finding> = Vec::new();
        let mut i: usize = 0;
        while i < self.findings.len()
            invariant
                i <= self.findings@.len(),
                out@.map_values(|f: &Finding| *f) == self.findings@.take(i as int).filter(
                    |f: Finding| f.severity == Severity::Blocking,
                ),
            decreases self.findings.len() - i,
        {
            assert(self.findings@.take(i + 1).drop_last() =~= self.findings@.take(i as int));
            reveal(Seq::filter);
            let ghost before = out@;
            if self.findings[i].severity == Severity::Blocking {
                out.push(&self.findings[i]);
                assert(out@.map_values(|f: &Finding| *f) =~= before.map_values(|f: &Finding| *f).push(
                    self.findings@[i as int],
                ));
            }
            i += 1;
        }
        assert(self.findings@.take(self.findings@.len() as int) =~= self.findings@);
        out
    }
}

/// Minimum free space (2 GiB) before a lab is refused. An overlay that fills the disk
/// mid-lesson corrupts itself, so this is checked up front.
pub const MIN_FREE_BYTES: u64 = 2147483648;

pub open spec fn damaged_file_finding(problem: Seq<char>) -> FindingView {
    FindingView {
        severity: Severity::Blocking,
        title: "A Linux runtime file is damaged or missing"@,
        detail: problem,
        action: RecoveryAction::ReinstallRuntime,
    }
}

pub open spec fn unreadable_manifest_finding(error: Seq<char>) -> FindingView {
    FindingView {
        severity: Severity::Blocking,
        title: "The Linux runtime is not installed correctly"@,
        detail: "The runtime manifest could not be read ("@ + error
            + "). Reinstalling the runtime restores it without affecting your progress."@,
        action: RecoveryAction::ReinstallRuntime,
    }
}

pub open spec fn low_disk_finding(free: u64) -> FindingView {
    FindingView {
        severity: Severity::Blocking,
        title: "Not enough free disk space"@,
        detail: "Linux Practice Lab needs about "@ + decimal(MIN_FREE_BYTES as nat / 1073741824)
            + " GB free to run safely, and there is "@ + decimal(free as nat / 1073741824)
            + " GB available. Free some space and try again."@,
        action: RecoveryAction::FreeDiskSpace,
    }
}

pub open spec fn unclean_finding() -> FindingView {
    FindingView {
        severity: Severity::Warning,
        title: "The previous session did not close cleanly"@,
        detail: "Your Free Practice environment will be checked before it is reused. Nothing on Windows was affected."@,
        action: RecoveryAction::RepairUserOverlay,
    }
}

/// The findings, in order: the runtime files, the disk space, an unclean shutdown.
pub open spec fn findings_spec(
    manifest: Result<VerificationReport, String>,
    free_bytes: Option<u64>,
    unclean_shutdown: bool,
) -> Seq<FindingView> {
    let runtime = match manifest {
        Ok(report) => problems_spec(report.results@).map_values(
            |p: Seq<char>| damaged_file_finding(p),
        ),
        Err(e) => seq![unreadable_manifest_finding(e@)],
    };
    let disk = match free_bytes {
        Some(free) if free < MIN_FREE_BYTES => seq![low_disk_finding(free)],
        _ => Seq::empty(),
    };
    let unclean = if unclean_shutdown {
        seq![unclean_finding()]
    } else {
        Seq::empty()
    };
    runtime + disk + unclean
}

/// Every blocking finding offers a recovery action; an unclean shutdown and unknown free
/// space never block.
pub proof fn lemma_blocking_findings_offer_recovery(
    manifest: Result<VerificationReport, String>,
    free_bytes: Option<u64>,
    unclean_shutdown: bool,
)
    ensures
        forall|i: int|
            0 <= i < findings_spec(manifest, free_bytes, unclean_shutdown).len() && (#[trigger] findings_spec(
                manifest,
                free_bytes,
                unclean_shutdown,
            )[i]).severity == Severity::Blocking ==> findings_spec(
                manifest,
                free_bytes,
                unclean_shutdown,
            )[i].action != RecoveryAction::NoAction,
        free_bytes is None && (manifest matches Ok(report) && forall|i: int|
            0 <= i < report.results@.len() ==> (#[trigger] report.results@[i]).1@ is Intact)
            ==> forall|i: int|
            0 <= i < findings_spec(manifest, free_bytes, unclean_shutdown).len() ==> (#[trigger] findings_spec(
                manifest,
                free_bytes,
                unclean_shutdown,
            )[i]).severity != Severity::Blocking,
{
    match manifest {
        Ok(report) => {
            if forall|i: int|
                0 <= i < report.results@.len() ==> (#[trigger] report.results@[i]).1@ is Intact {
                lemma_no_problems(report.results@);
            }
        },
        Err(_) => {},
    }
}

/// Some finding blocks for lack of disk space, giving the space needed and the space
/// available (`free` bytes) in its text.
pub open spec fn reports_low_disk(fs: Seq<FindingView>, free: u64) -> bool {
    exists|i: int|
        0 <= i < fs.len() && (#[trigger] fs[i]).action == RecoveryAction::FreeDiskSpace && fs[i].severity
            == Severity::Blocking && contains(fs[i].detail, "2 GB free"@) && contains(
            fs[i].detail,
            decimal(free as nat / 1073741824) + " GB available"@,
        )
}

/// The finding that repairs the learner's overlay appears exactly when the previous session
/// did not close cleanly, once, last, and only as a warning; and too little free disk space
/// blocks with a finding whose text gives both the space needed and the space available.
pub proof fn lemma_health_findings(
    manifest: Result<VerificationReport, String>,
    free_bytes: Option<u64>,
    unclean_shutdown: bool,
)
    ensures
        (exists|i: int|
            0 <= i < findings_spec(manifest, free_bytes, unclean_shutdown).len() && (#[trigger] findings_spec(
                manifest,
                free_bytes,
                unclean_shutdown,
            )[i]).action == RecoveryAction::RepairUserOverlay) <==> unclean_shutdown,
        forall|i: int|
            0 <= i < findings_spec(manifest, free_bytes, unclean_shutdown).len() && (#[trigger] findings_spec(
                manifest,
                free_bytes,
                unclean_shutdown,
            )[i]).action == RecoveryAction::RepairUserOverlay ==> i == findings_spec(
                manifest,
                free_bytes,
                unclean_shutdown,
            ).len() - 1 && findings_spec(manifest, free_bytes, unclean_shutdown)[i].severity == Severity::Warning,
        match free_bytes {
            Some(f) => f < MIN_FREE_BYTES ==> reports_low_disk(findings_spec(manifest, free_bytes, unclean_shutdown), f),
            None => true,
        },
{
    let fs = findings_spec(manifest, free_bytes, unclean_shutdown);
    let runtime = match manifest {
        Ok(report) => problems_spec(report.results@).map_values(|p: Seq<char>| damaged_file_finding(p)),
        Err(e) => seq![unreadable_manifest_finding(e@)],
    };
    let disk = match free_bytes {
        Some(free) if free < MIN_FREE_BYTES => seq![low_disk_finding(free)],
        _ => Seq::<FindingView>::empty(),
    };
    assert(forall|i: int| 0 <= i < runtime.len() ==> (#[trigger] runtime[i]).action == RecoveryAction::ReinstallRuntime);
    assert(forall|i: int| 0 <= i < disk.len() ==> (#[trigger] disk[i]).action == RecoveryAction::FreeDiskSpace);
    if unclean_shutdown {
        assert(fs[fs.len() - 1] == unclean_finding());
    }
    assert forall|i: int| 0 <= i < fs.len() && (#[trigger] fs[i]).action == RecoveryAction::RepairUserOverlay implies i
        == fs.len() - 1 && fs[i].severity == Severity::Warning && unclean_shutdown by {
        if i < runtime.len() {
            assert(fs[i] == runtime[i]);
        } else if i < runtime.len() + disk.len() {
            assert(fs[i] == disk[i - runtime.len()]);
        }
    }
    if let Some(f) = free_bytes {
        if f < MIN_FREE_BYTES {
            let d = low_disk_finding(f);
            let i = runtime.len() as int;
            assert(fs[i] == d);
            reveal_strlit("Linux Practice Lab needs about ");
            reveal_strlit("2 GB free");
            reveal_strlit(" GB free to run safely, and there is ");
            reveal_strlit(" GB available");
            reveal_strlit(" GB available. Free some space and try again.");
            let two = decimal(MIN_FREE_BYTES as nat / 1073741824);
            assert(MIN_FREE_BYTES as nat / 1073741824 == 2);
            assert(two == seq!['2']);
            let a = "Linux Practice Lab needs about "@;
            let b = " GB free to run safely, and there is "@;
            let have = decimal(f as nat / 1073741824);
            let c = " GB available. Free some space and try again."@;
            assert(d.detail == a + two + b + have + c);
            assert(d.detail.subrange(a.len() as int, (a.len() + 9) as int) =~= "2 GB free"@);
            assert(occurs_at(d.detail, "2 GB free"@, a.len() as int));
            let k = (a.len() + 1 + b.len()) as int;
            let want = have + " GB available"@;
            assert(d.detail.subrange(k, k + want.len()) =~= want);
            assert(occurs_at(d.detail, want, k));
        }
    }
}

proof fn lemma_no_problems(results: Seq<(String, crate::integrity::FileVerdict)>)
    requires
        forall|i: int| 0 <= i < results.len() ==> (#[trigger] results[i]).1@ is Intact,
    ensures
        problems_spec(results).len() == 0,
    decreases results.len(),
{
    if results.len() > 0 {
        assert(results.drop_last().len() < results.len());
        assert forall|i: int| 0 <= i < results.drop_last().len() implies (#[trigger] results.drop_last()[i]).1@ is Intact by {
            assert(results.drop_last()[i] == results[i]);
        }
        lemma_no_problems(results.drop_last());
        assert(results.last() == results[results.len() - 1]);
    }
}

pub struct HealthCheck<'a> {
    pub layout: &'a Layout,
}

fn push_finding(out: &mut Vec<Finding>, f: Finding)
    ensures
        findings_view(final(out)@) == findings_view(old(out)@).push(f@),
{
    out.push(f);
    assert(findings_view(out@) =~= findings_view(old(out)@).push(f@));
}

impl<'a> HealthCheck<'a> {
    pub fn new(layout: &'a Layout) -> (r: HealthCheck<'a>)
        ensures
            r.layout == layout,
    {
        HealthCheck { layout }
    }

    /// The startup check, with the session lock's presence as the unclean-shutdown signal.
    /// `manifest` is the verification of the runtime files, or why the manifest could not
    /// be read.
    pub fn run(
        &self,
        manifest: &Result<VerificationReport, String>,
        free_bytes: Option<u64>,
        session_lock_present: bool,
    ) -> (r: HealthReport)
        ensures
            findings_view(r.findings@) == findings_spec(*manifest, free_bytes, session_lock_present),
            r.unclean_shutdown == session_lock_present,
            r.free_disk_bytes == free_bytes,
    {
        self.run_with_unclean_shutdown(manifest, free_bytes, session_lock_present)
    }

    /// The startup check with the launch-time session state supplied by the application (the
    /// running application holds its own lock, which is no sign of a crash).
    pub fn run_with_unclean_shutdown(
        &self,
        manifest: &Result<VerificationReport, String>,
        free_bytes: Option<u64>,
        unclean_shutdown: bool,
    ) -> (r: HealthReport)
        ensures
            findings_view(r.findings@) == findings_spec(*manifest, free_bytes, unclean_shutdown),
            r.unclean_shutdown == unclean_shutdown,
            r.free_disk_bytes == free_bytes,
            forall|i: int|
                0 <= i < r.findings@.len() && (#[trigger] r.findings@[i]).severity == Severity::Blocking
                    ==> r.findings@[i].action != RecoveryAction::NoAction,
    {
        let mut findings: Vec<Finding> = Vec::new();
        match manifest {
            Ok(report) => {
                let problems = report.problems();
                let ghost ps = strings_view(problems@);
                let mut i: usize = 0;
                while i < problems.len()
                    invariant
                        i <= problems@.len(),
                        ps == strings_view(problems@),
                        findings_view(findings@) == ps.take(i as int).map_values(
                            |p: Seq<char>| damaged_file_finding(p),
                        ),
                    decreases problems.len() - i,
                {
                    let f = Finding {
                        severity: Severity::Blocking,
                        title: owned("A Linux runtime file is damaged or missing"),
                        detail: problems[i].clone(),
                        action: RecoveryAction::ReinstallRuntime,
                    };
                    assert(ps[i as int] == problems@[i as int]@);
                    push_finding(&mut findings, f);
                    i += 1;
                    assert(findings_view(findings@) =~= ps.take(i as int).map_values(
                        |p: Seq<char>| damaged_file_finding(p),
                    ));
                }
                assert(ps.take(problems.len() as int) =~= ps);
            },
            Err(e) => {
                let mut detail = owned("The runtime manifest could not be read (");
                append(&mut detail, e.as_str());
                append(
                    &mut detail,
                    "). Reinstalling the runtime restores it without affecting your progress.",
                );
                push_finding(
                    &mut findings,
                    Finding {
                        severity: Severity::Blocking,
                        title: owned("The Linux runtime is not installed correctly"),
                        detail,
                        action: RecoveryAction::ReinstallRuntime,
                    },
                );
                assert(findings_view(findings@) =~= seq![unreadable_manifest_finding(e@)]);
            },
        }
        let ghost runtime = findings_view(findings@);
        if let Some(free) = free_bytes {
            if free < MIN_FREE_BYTES {
                let mut detail = owned("Linux Practice Lab needs about ");
                let need = decimal_string(MIN_FREE_BYTES / 1073741824);
                append(&mut detail, need.as_str());
                append(&mut detail, " GB free to run safely, and there is ");
                let have = decimal_string(free / 1073741824);
                append(&mut detail, have.as_str());
                append(&mut detail, " GB available. Free some space and try again.");
                push_finding(
                    &mut findings,
                    Finding {
                        severity: Severity::Blocking,
                        title: owned("Not enough free disk space"),
                        detail,
                        action: RecoveryAction::FreeDiskSpace,
                    },
                );
            }
        }
        let ghost with_disk = findings_view(findings@);
        if unclean_shutdown {
            push_finding(
                &mut findings,
                Finding {
                    severity: Severity::Warning,
                    title: owned("The previous session did not close cleanly"),
                    detail: owned(
                        "Your Free Practice environment will be checked before it is reused. Nothing on Windows was affected.",
                    ),
                    action: RecoveryAction::RepairUserOverlay,
                },
            );
        }
        assert(findings_view(findings@) =~= findings_spec(*manifest, free_bytes, unclean_shutdown));
        proof {
            lemma_blocking_findings_offer_recovery(*manifest, free_bytes, unclean_shutdown);
            assert forall|i: int|
                0 <= i < findings@.len() && (#[trigger] findings@[i]).severity == Severity::Blocking
                    implies findings@[i].action != RecoveryAction::NoAction by {
                assert(findings_view(findings@)[i] == findings@[i]@);
            }
        }
        HealthReport { findings, unclean_shutdown, free_disk_bytes: free_bytes }
    }
}

} // verus!
