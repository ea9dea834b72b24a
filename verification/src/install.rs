//! First-run installation of the bundled Linux runtime: what is verified, in which order,
//! and what the learner is told when it fails. The copying, decompressing and renaming are
//! the caller's; each step's result comes back here, and `install_step` decides the next.
use crate::integrity::{Manifest, ManifestEntry, VerificationReport, problems_spec};
use crate::text::{append, join, join_strings, owned, phrase, phrase2, strings_view};
use vstd::prelude::*;

verus! {

/// The decompressed base image, as the runtime manifest lists it.
pub open spec fn raw_image() -> Seq<char> {
    "debian-base.raw"@
}

pub fn raw_image_name() -> (r: &'static str)
    ensures
        r@ == raw_image(),
{
    "debian-base.raw"
}

/// The compressed base image the installer ships.
pub open spec fn compressed_image() -> Seq<char> {
    "debian-base.raw.zst"@
}

pub fn compressed_image_name() -> (r: &'static str)
    ensures
        r@ == compressed_image(),
{
    "debian-base.raw.zst"
}

#[derive(Debug, Clone, Copy, PartialEq, Eq, Structural)]
pub enum InstallOutcome {
    AlreadyInstalled,
    Installed,
}

/// An existing runtime is reused only when installation is not forced and it is complete:
/// its manifest is for this version and the quick check (presence and sizes) passes.
pub fn skip_install(force: bool, installed: Option<(&Manifest, &VerificationReport)>, version: &str) -> (r: bool)
    ensures
        r == (!force && match installed {
            Some((m, report)) => m.runtime_version@ == version@ && forall|i: int|
                0 <= i < report.results@.len() ==> (#[trigger] report.results@[i]).1@ is Intact,
            None => false,
        }),
{
    if force {
        return false;
    }
    match installed {
        Some((m, report)) => crate::text::same_text(m.runtime_version.as_str(), version) && report.is_healthy(),
        None => false,
    }
}

/// The entries of a manifest other than the raw image, in order.
pub open spec fn packaged_entries(files: Seq<ManifestEntry>) -> Seq<ManifestEntry>
    decreases files.len(),
{
    if files.len() == 0 {
        Seq::empty()
    } else {
        let rest = packaged_entries(files.drop_last());
        if files.last().path@ == raw_image() {
            rest
        } else {
            rest.push(files.last())
        }
    }
}

/// The position of the first entry for the raw image.
pub open spec fn raw_position(files: Seq<ManifestEntry>) -> Option<int>
    decreases files.len(),
{
    if files.len() == 0 {
        None
    } else if files[0].path@ == raw_image() {
        Some(0)
    } else {
        match raw_position(files.drop_first()) {
            Some(i) => Some(i + 1),
            None => None,
        }
    }
}

proof fn lemma_raw_position_step(files: Seq<ManifestEntry>)
    requires
        files.len() > 0,
    ensures
        raw_position(files) == if files[0].path@ == raw_image() {
            Some(0int)
        } else {
            match raw_position(files.drop_first()) {
                Some(i) => Some(i + 1),
                None => None,
            }
        },
{
}

proof fn lemma_raw_position_bounds(files: Seq<ManifestEntry>)
    ensures
        raw_position(files) matches Some(i) ==> 0 <= i < files.len() && files[i].path@ == raw_image(),
    decreases files.len(),
{
    if files.len() > 0 && files[0].path@ != raw_image() {
        lemma_raw_position_bounds(files.drop_first());
    }
}

fn copy_entry(e: &ManifestEntry) -> (r: ManifestEntry)
    ensures
        r == *e,
{
    ManifestEntry { path: e.path.clone(), sha256: e.sha256.clone(), size_bytes: e.size_bytes, optional: e.optional }
}

/// What installing from the bundled `manifest` verifies, before anything is made live: the
/// manifest is for `version`, it lists the raw base image, and that image is not optional.
/// On success, the manifest to check the copied files against (every entry but the raw
/// image, which does not exist until the compressed one is expanded) and the raw image's
/// entry, checked after expansion. Otherwise what to tell the learner.
pub fn plan_install(manifest: &Manifest, version: &str) -> (r: Result<(Manifest, ManifestEntry), String>)
    ensures
        manifest.runtime_version@ != version@ ==> (r matches Err(e) && e@ == "the bundled runtime is version "@
            + manifest.runtime_version@ + ", but the application requires "@ + version@),
        manifest.runtime_version@ == version@ ==> match raw_position(manifest.files@) {
            None => r matches Err(e) && e@ == "the runtime manifest does not describe the materialised base image"@,
            Some(i) => if manifest.files@[i].optional {
                r matches Err(e) && e@ == "the materialised base image cannot be optional"@
            } else {
                r matches Ok((packaged, raw)) && raw == manifest.files@[i] && packaged.files@ == packaged_entries(manifest.files@)
                    && packaged.runtime_version == manifest.runtime_version && packaged.qemu_version
                    == manifest.qemu_version && packaged.image_version == manifest.image_version
            },
        },
{
    if !crate::text::same_text(manifest.runtime_version.as_str(), version) {
        let mut e = phrase(
            "the bundled runtime is version ",
            manifest.runtime_version.as_str(),
            ", but the application requires ",
        );
        append(&mut e, version);
        return Err(e);
    }
    let files = &manifest.files;
    proof {
        lemma_raw_position_bounds(files@);
    }
    let mut found: Option<usize> = None;
    let mut packaged: Vec<ManifestEntry> = Vec::new();
    let mut i: usize = 0;
    assert(files@.skip(0) =~= files@);
    while i < files.len()
        invariant
            i <= files@.len(),
            packaged@ == packaged_entries(files@.take(i as int)),
            match found {
                Some(k) => k < i && raw_position(files@) == Some(k as int),
                None => raw_position(files@) == match raw_position(files@.skip(i as int)) {
                    Some(j) => Some(j + i),
                    None => None::<int>,
                },
            },
        decreases files.len() - i,
    {
        assert(files@.take(i + 1).drop_last() =~= files@.take(i as int));
        assert(files@.take(i + 1).last() == files@[i as int]);
        let is_raw = crate::text::same_text(files[i].path.as_str(), raw_image_name());
        proof {
            if found is None {
                lemma_raw_position_step(files@.skip(i as int));
                assert(files@.skip(i as int).drop_first() =~= files@.skip(i + 1));
                assert(files@.skip(i as int)[0] == files@[i as int]);
            }
        }
        if is_raw {
            if found.is_none() {
                found = Some(i);
            }
        } else {
            packaged.push(copy_entry(&files[i]));
        }
        i += 1;
    }
    assert(files@.take(files@.len() as int) =~= files@);
    let k = match found {
        Some(k) => k,
        None => return Err(owned("the runtime manifest does not describe the materialised base image")),
    };
    if files[k].optional {
        return Err(owned("the materialised base image cannot be optional"));
    }
    let raw = copy_entry(&files[k]);
    let m = Manifest {
        runtime_version: manifest.runtime_version.clone(),
        qemu_version: manifest.qemu_version.clone(),
        image_version: manifest.image_version.clone(),
        files: packaged,
    };
    Ok((m, raw))
}

/// Why a verification step refused the runtime: `what` failed verification, then each
/// problem, space-separated.
pub fn verification_failure(what: &str, report: &VerificationReport) -> (r: String)
    ensures
        r@ == what@ + " failed verification: "@ + join(problems_spec(report.results@), " "@),
{
    let problems = report.problems();
    phrase(what, " failed verification: ", join_strings(&problems, " ").as_str())
}

/// The staging directory an installer process uses beside the runtime directory.
pub fn staging_name(process_id: u32) -> (r: String)
    ensures
        r@ == ".installing-"@ + crate::text::decimal(process_id as nat),
{
    let mut r = owned(".installing-");
    append(&mut r, crate::text::decimal_string(process_id as u64).as_str());
    r
}


/// The parent of a path as std's `Path::parent` gives it.
pub uninterp spec fn path_parent(path: Seq<char>) -> Option<Seq<char>>;

/// Whether two paths are equal as std compares `Path`s: component by component.
pub uninterp spec fn paths_equal(a: Seq<char>, b: Seq<char>) -> bool;

/// std's `Path::parent`, as text. Trusted to give exactly the named parent.
#[verifier::external_body]
fn parent_of(path: &str) -> (r: Option<String>)
    ensures
        match r {
            Some(p) => path_parent(path@) == Some(p@),
            None => path_parent(path@) is None,
        },
{
    std::path::Path::new(path).parent().map(|p| p.to_string_lossy().to_string())
}

/// std's `==` on `Path`s. Trusted to give exactly the named comparison.
#[verifier::external_body]
fn same_path(a: &str, b: &str) -> (r: bool)
    ensures
        r == paths_equal(a@, b@),
{
    std::path::Path::new(a) == std::path::Path::new(b)
}

/// Refuses to remove anything but a direct child of `expected_parent`: the staging directory
/// and the runtime directory are only ever removed from beside each other.
pub fn ensure_direct_child(path: &str, expected_parent: &str) -> (r: Result<(), String>)
    ensures
        match path_parent(path@) {
            Some(p) if paths_equal(p, expected_parent@) => r is Ok,
            _ => r matches Err(m) && m@ == "refusing to remove runtime path outside "@ + expected_parent@,
        },
{
    let inside = match parent_of(path) {
        Some(p) => same_path(p.as_str(), expected_parent),
        None => false,
    };
    if inside {
        Ok(())
    } else {
        let mut m = owned("refusing to remove runtime path outside ");
        append(&mut m, expected_parent);
        Err(m)
    }
}

/// What zstd's decoder makes of a compressed frame: the decompressed bytes, or `None` when it
/// refuses the input.
pub uninterp spec fn zstd_decoded(compressed: Seq<u8>) -> Option<Seq<u8>>;

/// zstd's `decode_all` over bytes in memory. Trusted to succeed exactly when the decoder
/// accepts the input and then to give its output; the error's text is not described.
#[verifier::external_body]
fn zstd_decode_all(compressed: &[u8]) -> (r: Result<Vec<u8>, String>)
    ensures
        (r is Ok) <==> zstd_decoded(compressed@) is Some,
        r matches Ok(b) ==> zstd_decoded(compressed@) == Some(b@),
{
    zstd::decode_all(compressed).map_err(|e| e.to_string())
}

/// Expands the compressed base image read from `path`: its decompressed bytes, or what to tell
/// the learner when the decoder refuses them.
pub fn expand_image(compressed: &[u8], path: &str) -> (r: Result<Vec<u8>, String>)
    ensures
        match zstd_decoded(compressed@) {
            Some(b) => r matches Ok(out) && out@ == b,
            None => r matches Err(m) && m@ == "could not decompress the Linux base image "@ + path@,
        },
{
    match zstd_decode_all(compressed) {
        Ok(bytes) => Ok(bytes),
        Err(_) => {
            let mut m = owned("could not decompress the Linux base image ");
            append(&mut m, path);
            Err(m)
        },
    }
}

/// Where an installation stands.
#[derive(Debug, PartialEq, Eq)]
pub enum InstallState {
    /// Nothing done yet; `force` reinstalls even a complete runtime.
    Start { force: bool, version: String },
    /// The bundled runtime is being copied to the staging directory and its manifest read.
    Staging { version: String },
    /// The copied files are being checked; `raw` is the manifest the expanded image must meet.
    CheckingPackaged { raw: Manifest },
    /// The compressed image is being expanded in the staging directory.
    Expanding { raw: Manifest },
    /// The expanded image is being checked.
    CheckingRaw,
    /// The staging directory is being made the live runtime.
    Activating,
    /// Finished.
    Done(InstallOutcome),
    /// Stopped, for the reason given.
    Failed(String),
}

/// What the caller observed after doing what it was last asked to.
#[derive(Debug, PartialEq, Eq)]
pub enum InstallEvent {
    /// The installed runtime's manifest and its quick check, when a manifest could be read.
    Existing(Option<(Manifest, VerificationReport)>),
    /// The bundled runtime was copied to staging and the copy's manifest read, or why not.
    Staged(Result<Manifest, String>),
    /// The report of the verification last asked for.
    Verified(VerificationReport),
    /// The compressed image was expanded and removed, or why not.
    Expanded(Result<(), String>),
    /// The staging directory became the runtime, or why not.
    Activated(Result<(), String>),
}

/// What the caller does next.
#[derive(Debug, PartialEq, Eq)]
pub enum InstallAction {
    /// Copy the bundled runtime to a fresh staging directory and read its manifest.
    Stage,
    /// Verify the staging directory against this manifest, digests included.
    Verify(Manifest),
    /// Expand the compressed image into the raw one and remove the compressed file.
    Expand,
    /// Replace the runtime directory by the staging directory.
    Activate,
    /// Report the outcome.
    Finish(InstallOutcome),
    /// Remove the staging directory and report the reason.
    Abandon(String),
    /// Report the reason, leaving the staging directory where it is.
    Fail(String),
    /// The event does not belong to this stage: nothing to do.
    Nothing,
}

/// Every file of a report is intact.
pub open spec fn report_healthy(r: VerificationReport) -> bool {
    forall|i: int| 0 <= i < r.results@.len() ==> (#[trigger] r.results@[i]).1@ is Intact
}

/// Why `plan_install` refuses a staged manifest, if it does.
pub open spec fn plan_error(m: Manifest, version: Seq<char>) -> Option<Seq<char>> {
    if m.runtime_version@ != version {
        Some("the bundled runtime is version "@ + m.runtime_version@ + ", but the application requires "@ + version)
    } else {
        match raw_position(m.files@) {
            None => Some("the runtime manifest does not describe the materialised base image"@),
            Some(i) => if m.files@[i].optional {
                Some("the materialised base image cannot be optional"@)
            } else {
                None
            },
        }
    }
}

/// A stop with the reason `why`, as the next state and action (`clean`: remove staging).
pub open spec fn stops(next: InstallState, a: InstallAction, why: Seq<char>, clean: bool) -> bool {
    &&& next matches InstallState::Failed(t) && t@ == why
    &&& if clean {
        a matches InstallAction::Abandon(u) && u@ == why
    } else {
        a matches InstallAction::Fail(u) && u@ == why
    }
}

/// One step of an installation: from state `s`, on event `e`, to state `next` with action `a`.
pub open spec fn step_rel(s: InstallState, e: InstallEvent, next: InstallState, a: InstallAction) -> bool {
    match s {
        InstallState::Start { force, version } => match e {
            InstallEvent::Existing(x) => if !force && match x {
                Some((m, rep)) => m.runtime_version@ == version@ && report_healthy(rep),
                None => false,
            } {
                next == InstallState::Done(InstallOutcome::AlreadyInstalled) && a == InstallAction::Finish(
                    InstallOutcome::AlreadyInstalled,
                )
            } else {
                next == (InstallState::Staging { version }) && a == InstallAction::Stage
            },
            _ => next == s && a == InstallAction::Nothing,
        },
        InstallState::Staging { version } => match e {
            InstallEvent::Staged(Err(why)) => stops(next, a, why@, true),
            InstallEvent::Staged(Ok(m)) => match plan_error(m, version@) {
                Some(why) => stops(next, a, why, true),
                None => {
                    let i = raw_position(m.files@).unwrap();
                    &&& next matches InstallState::CheckingPackaged { raw } && raw.files@ == seq![m.files@[i]]
                        && raw.runtime_version == m.runtime_version && raw.qemu_version == m.qemu_version
                        && raw.image_version == m.image_version
                    &&& a matches InstallAction::Verify(p) && p.files@ == packaged_entries(m.files@)
                        && p.runtime_version == m.runtime_version && p.qemu_version == m.qemu_version
                        && p.image_version == m.image_version
                },
            },
            _ => next == s && a == InstallAction::Nothing,
        },
        InstallState::CheckingPackaged { raw } => match e {
            InstallEvent::Verified(rep) => if report_healthy(rep) {
                next == (InstallState::Expanding { raw }) && a == InstallAction::Expand
            } else {
                stops(next, a, "the bundled runtime failed verification: "@ + join(problems_spec(rep.results@), " "@), true)
            },
            _ => next == s && a == InstallAction::Nothing,
        },
        InstallState::Expanding { raw } => match e {
            InstallEvent::Expanded(Ok(())) => next == InstallState::CheckingRaw && a == InstallAction::Verify(raw),
            InstallEvent::Expanded(Err(why)) => stops(next, a, why@, true),
            _ => next == s && a == InstallAction::Nothing,
        },
        InstallState::CheckingRaw => match e {
            InstallEvent::Verified(rep) => if report_healthy(rep) {
                next == InstallState::Activating && a == InstallAction::Activate
            } else {
                stops(
                    next,
                    a,
                    "the decompressed Linux base image failed verification: "@ + join(problems_spec(rep.results@), " "@),
                    true,
                )
            },
            _ => next == s && a == InstallAction::Nothing,
        },
        InstallState::Activating => match e {
            InstallEvent::Activated(Ok(())) => next == InstallState::Done(InstallOutcome::Installed) && a
                == InstallAction::Finish(InstallOutcome::Installed),
            InstallEvent::Activated(Err(why)) => stops(next, a, why@, false),
            _ => next == s && a == InstallAction::Nothing,
        },
        _ => next == s && a == InstallAction::Nothing,
    }
}

fn stop(why: String, clean: bool) -> (r: (InstallState, InstallAction))
    ensures
        stops(r.0, r.1, why@, clean),
{
    let told = why.clone();
    if clean {
        (InstallState::Failed(why), InstallAction::Abandon(told))
    } else {
        (InstallState::Failed(why), InstallAction::Fail(told))
    }
}

/// Decides the next step of installing the bundled runtime. A complete runtime of this version
/// is kept unless the installation is forced; otherwise the bundle is staged, its copied files
/// verified, the image expanded and verified in turn, and only then made live.
pub fn install_step(s: InstallState, e: InstallEvent) -> (r: (InstallState, InstallAction))
    ensures
        step_rel(s, e, r.0, r.1),
{
    match s {
        InstallState::Start { force, version } => match e {
            InstallEvent::Existing(x) => {
                let keep = match &x {
                    Some((m, rep)) => skip_install(force, Some((m, rep)), version.as_str()),
                    None => skip_install(force, None, version.as_str()),
                };
                if keep {
                    (InstallState::Done(InstallOutcome::AlreadyInstalled), InstallAction::Finish(InstallOutcome::AlreadyInstalled))
                } else {
                    (InstallState::Staging { version }, InstallAction::Stage)
                }
            },
            _ => (InstallState::Start { force, version }, InstallAction::Nothing),
        },
        InstallState::Staging { version } => match e {
            InstallEvent::Staged(Err(why)) => stop(why, true),
            InstallEvent::Staged(Ok(m)) => match plan_install(&m, version.as_str()) {
                Err(why) => stop(why, true),
                Ok((packaged, raw_entry)) => {
                    proof {
                        lemma_raw_position_bounds(m.files@);
                    }
                    let mut files: Vec<ManifestEntry> = Vec::new();
                    files.push(raw_entry);
                    let raw = Manifest {
                        runtime_version: packaged.runtime_version.clone(),
                        qemu_version: packaged.qemu_version.clone(),
                        image_version: packaged.image_version.clone(),
                        files,
                    };
                    (InstallState::CheckingPackaged { raw }, InstallAction::Verify(packaged))
                },
            },
            _ => (InstallState::Staging { version }, InstallAction::Nothing),
        },
        InstallState::CheckingPackaged { raw } => match e {
            InstallEvent::Verified(rep) => if rep.is_healthy() {
                (InstallState::Expanding { raw }, InstallAction::Expand)
            } else {
{
                proof {
                    reveal_strlit("the bundled runtime");
                    reveal_strlit(" failed verification: ");
                    reveal_strlit("the bundled runtime failed verification: ");
                    assert(("the bundled runtime"@ + " failed verification: "@) =~= "the bundled runtime failed verification: "@);
                }
                stop(verification_failure("the bundled runtime", &rep), true)
            }
            },
            _ => (InstallState::CheckingPackaged { raw }, InstallAction::Nothing),
        },
        InstallState::Expanding { raw } => match e {
            InstallEvent::Expanded(Ok(())) => (InstallState::CheckingRaw, InstallAction::Verify(raw)),
            InstallEvent::Expanded(Err(why)) => stop(why, true),
            _ => (InstallState::Expanding { raw }, InstallAction::Nothing),
        },
        InstallState::CheckingRaw => match e {
            InstallEvent::Verified(rep) => if rep.is_healthy() {
                (InstallState::Activating, InstallAction::Activate)
            } else {
{
                proof {
                    reveal_strlit("the decompressed Linux base image");
                    reveal_strlit(" failed verification: ");
                    reveal_strlit("the decompressed Linux base image failed verification: ");
                    assert(("the decompressed Linux base image"@ + " failed verification: "@) =~= "the decompressed Linux base image failed verification: "@);
                }
                stop(verification_failure("the decompressed Linux base image", &rep), true)
            }
            },
            _ => (InstallState::CheckingRaw, InstallAction::Nothing),
        },
        InstallState::Activating => match e {
            InstallEvent::Activated(Ok(())) => (InstallState::Done(InstallOutcome::Installed), InstallAction::Finish(InstallOutcome::Installed)),
            InstallEvent::Activated(Err(why)) => stop(why, false),
            _ => (InstallState::Activating, InstallAction::Nothing),
        },
        InstallState::Done(outcome) => (InstallState::Done(outcome), InstallAction::Nothing),
        InstallState::Failed(why) => (InstallState::Failed(why), InstallAction::Nothing),
    }
}


/// `events[k]` answered a verification with every file intact.
pub open spec fn passed_check(e: InstallEvent) -> bool {
    e matches InstallEvent::Verified(rep) && report_healthy(rep)
}

/// An installation run from its start: `states[k + 1]` and `actions[k]` are what `install_step`
/// gives for `states[k]` and `events[k]`.
pub open spec fn is_run(states: Seq<InstallState>, events: Seq<InstallEvent>, actions: Seq<InstallAction>) -> bool {
    &&& states.len() == events.len() + 1
    &&& actions.len() == events.len()
    &&& states[0] is Start
    &&& forall|k: int| 0 <= k < events.len() ==> step_rel(states[k], #[trigger] events[k], states[k + 1], actions[k])
}

proof fn lemma_expanding_follows_check(
    states: Seq<InstallState>,
    events: Seq<InstallEvent>,
    actions: Seq<InstallAction>,
    m: int,
)
    requires
        is_run(states, events, actions),
        0 <= m < states.len(),
        states[m] is Expanding,
    ensures
        exists|i: int| 0 <= i < m && states[i] is CheckingPackaged && #[trigger] passed_check(events[i]),
    decreases m,
{
    let p = m - 1;
    let _ = events[p];
    if states[p] is Expanding {
        lemma_expanding_follows_check(states, events, actions, p);
    } else {
        assert(states[p] is CheckingPackaged && passed_check(events[p]));
    }
}

proof fn lemma_raw_check_follows_check(
    states: Seq<InstallState>,
    events: Seq<InstallEvent>,
    actions: Seq<InstallAction>,
    m: int,
)
    requires
        is_run(states, events, actions),
        0 <= m < states.len(),
        states[m] is CheckingRaw,
    ensures
        exists|i: int| 0 <= i < m && states[i] is CheckingPackaged && #[trigger] passed_check(events[i]),
    decreases m,
{
    let p = m - 1;
    let _ = events[p];
    if states[p] is CheckingRaw {
        lemma_raw_check_follows_check(states, events, actions, p);
    } else {
        assert(states[p] is Expanding);
        lemma_expanding_follows_check(states, events, actions, p);
    }
}

/// The runtime is made live only after both checks passed: the expanded image's, answered by
/// the very event that asks for activation, and, before it, the copied bundle's.
pub proof fn lemma_activation_follows_both_checks(
    states: Seq<InstallState>,
    events: Seq<InstallEvent>,
    actions: Seq<InstallAction>,
    k: int,
)
    requires
        is_run(states, events, actions),
        0 <= k < actions.len(),
        actions[k] is Activate,
    ensures
        states[k] is CheckingRaw,
        passed_check(events[k]),
        exists|i: int| 0 <= i < k && states[i] is CheckingPackaged && #[trigger] passed_check(events[i]),
{
    let _ = events[k];
    assert(states[k] is CheckingRaw);
    lemma_raw_check_follows_check(states, events, actions, k);
}

/// An unforced start that finds the installed runtime complete and of the wanted version.
pub open spec fn finds_complete_runtime(s: InstallState, e: InstallEvent) -> bool {
    match s {
        InstallState::Start { force, version } => !force && match e {
            InstallEvent::Existing(Some((m, rep))) => m.runtime_version@ == version@ && report_healthy(rep),
            _ => false,
        },
        _ => false,
    }
}

/// A complete runtime of the wanted version is never copied or replaced unless the
/// installation is forced: such a run asks for no staging and no activation at any step.
pub proof fn lemma_complete_runtime_is_kept(
    states: Seq<InstallState>,
    events: Seq<InstallEvent>,
    actions: Seq<InstallAction>,
    k: int,
)
    requires
        is_run(states, events, actions),
        events.len() > 0,
        finds_complete_runtime(states[0], events[0]),
        0 <= k < actions.len(),
    ensures
        states[k + 1] == InstallState::Done(InstallOutcome::AlreadyInstalled),
        !(actions[k] is Stage),
        !(actions[k] is Activate),
    decreases k,
{
    let _ = events[k];
    if k > 0 {
        lemma_complete_runtime_is_kept(states, events, actions, k - 1);
    }
}

} // verus!
