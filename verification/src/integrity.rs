//! Runtime file verification: every runtime file present, of the recorded size, and hashing
//! to what the build recorded. The caller observes the files (their size, and their digest
//! when the size is right); the verdicts and what the learner is told are decided here.
use crate::redact::{ascii_lower, lower_ascii};
use crate::text::{append, chars_of, decimal, decimal_string, owned};
use crate::vm_manager::{hex_lower, hex_spec, lemma_hex_shape};
use vstd::prelude::*;

verus! {

#[derive(Debug, Clone, PartialEq, Eq)]
pub struct Manifest {
    pub runtime_version: String,
    /// QEMU version string, recorded for the licence and source-offer paperwork.
    pub qemu_version: String,
    pub image_version: String,
    pub files: Vec<ManifestEntry>,
}

#[derive(Debug, Clone, PartialEq, Eq)]
pub struct ManifestEntry {
    /// Path relative to the runtime root.
    pub path: String,
    pub sha256: String,
    pub size_bytes: u64,
    /// Optional files may be absent after installation.
    pub optional: bool,
}

#[derive(Debug, Clone, PartialEq, Eq)]
pub enum FileVerdict {
    Intact,
    Missing,
    WrongSize { expected: u64, actual: u64 },
    WrongHash { expected: String, actual: String },
    Unreadable(String),
}

#[allow(inconsistent_fields)]
pub enum VerdictView {
    Intact,
    Missing,
    WrongSize { expected: u64, actual: u64 },
    WrongHash { expected: Seq<char>, actual: Seq<char> },
    Unreadable(Seq<char>),
}

impl View for FileVerdict {
    type V = VerdictView;

    open spec fn view(&self) -> VerdictView {
        match self {
            FileVerdict::Intact => VerdictView::Intact,
            FileVerdict::Missing => VerdictView::Missing,
            FileVerdict::WrongSize { expected, actual } => VerdictView::WrongSize {
                expected: *expected,
                actual: *actual,
            },
            FileVerdict::WrongHash { expected, actual } => VerdictView::WrongHash {
                expected: expected@,
                actual: actual@,
            },
            FileVerdict::Unreadable(reason) => VerdictView::Unreadable(reason@),
        }
    }
}

/// What the learner is told about a file. Each failure names the recovery action rather than
/// the internal cause.
pub open spec fn explain_spec(v: VerdictView, path: Seq<char>) -> Seq<char> {
    match v {
        VerdictView::Intact => path + " is intact."@,
        VerdictView::Missing => path
            + " is missing. Antivirus software sometimes removes it. Use Reinstall Runtime to restore it."@,
        VerdictView::WrongSize { expected, actual } => path + " is "@ + decimal(actual as nat)
            + " bytes but should be "@ + decimal(expected as nat)
            + ". The copy is incomplete; use Reinstall Runtime."@,
        VerdictView::WrongHash { .. } => path
            + " does not match the version that was installed. Use Reinstall Runtime."@,
        VerdictView::Unreadable(reason) => path + " could not be read ("@ + reason
            + "). Check that another program is not locking it."@,
    }
}

impl FileVerdict {
    pub fn is_ok(&self) -> (r: bool)
        ensures
            r == (self@ is Intact),
    {
        match self {
            FileVerdict::Intact => true,
            _ => false,
        }
    }

    pub fn explain(&self, path: &str) -> (r: String)
        ensures
            r@ == explain_spec(self@, path@),
    {
        let mut r = owned(path);
        match self {
            FileVerdict::Intact => append(&mut r, " is intact."),
            FileVerdict::Missing => append(
                &mut r,
                " is missing. Antivirus software sometimes removes it. Use Reinstall Runtime to restore it.",
            ),
            FileVerdict::WrongSize { expected, actual } => {
                append(&mut r, " is ");
                let a = decimal_string(*actual);
                append(&mut r, a.as_str());
                append(&mut r, " bytes but should be ");
                let e = decimal_string(*expected);
                append(&mut r, e.as_str());
                append(&mut r, ". The copy is incomplete; use Reinstall Runtime.");
            },
            FileVerdict::WrongHash { .. } => append(
                &mut r,
                " does not match the version that was installed. Use Reinstall Runtime.",
            ),
            FileVerdict::Unreadable(reason) => {
                append(&mut r, " could not be read (");
                append(&mut r, reason.as_str());
                append(&mut r, "). Check that another program is not locking it.");
            },
        }
        r
    }
}

/// What was observed about one listed file: its size, when it exists, and, when the size is
/// the recorded one, the digest (or why it could not be computed).
#[derive(Debug, Clone, PartialEq, Eq)]
pub struct FileObservation {
    pub size: Option<u64>,
    pub digest: Option<Result<String, String>>,
}

/// `str::eq_ignore_ascii_case`.
pub open spec fn eq_ignore_ascii_case(a: Seq<char>, b: Seq<char>) -> bool {
    a.len() == b.len() && forall|i: int| 0 <= i < a.len() ==> ascii_lower(#[trigger] a[i]) == ascii_lower(b[i])
}

fn same_ignoring_ascii_case(a: &str, b: &str) -> (r: bool)
    ensures
        r == eq_ignore_ascii_case(a@, b@),
{
    let x = chars_of(a);
    let y = chars_of(b);
    if x.len() != y.len() {
        return false;
    }
    let mut i: usize = 0;
    while i < x.len()
        invariant
            i <= x@.len() == y@.len(),
            x@ == a@,
            y@ == b@,
            forall|j: int| 0 <= j < i ==> ascii_lower(#[trigger] x@[j]) == ascii_lower(y@[j]),
        decreases x.len() - i,
    {
        if lower_ascii(x[i]) != lower_ascii(y[i]) {
            assert(ascii_lower(a@[i as int]) != ascii_lower(b@[i as int]));
            return false;
        }
        i += 1;
    }
    true
}

/// Checking presence and size alone; a missing optional file is fine.
pub open spec fn quick_verdict_spec(e: ManifestEntry, size: Option<u64>) -> VerdictView {
    match size {
        None => if e.optional {
            VerdictView::Intact
        } else {
            VerdictView::Missing
        },
        Some(s) => if s != e.size_bytes {
            VerdictView::WrongSize { expected: e.size_bytes, actual: s }
        } else {
            VerdictView::Intact
        },
    }
}

/// Checking presence and size first, then the digest, compared ignoring case.
pub open spec fn full_verdict_spec(e: ManifestEntry, o: FileObservation) -> VerdictView {
    match o.size {
        Some(s) if s == e.size_bytes => match o.digest {
            Some(Ok(d)) => if eq_ignore_ascii_case(d@, e.sha256@) {
                VerdictView::Intact
            } else {
                VerdictView::WrongHash { expected: e.sha256@, actual: d@ }
            },
            Some(Err(reason)) => VerdictView::Unreadable(reason@),
            None => VerdictView::Intact,
        },
        _ => quick_verdict_spec(e, o.size),
    }
}

/// The SHA-256 digest of `bytes`, as sha2 computes it.
pub uninterp spec fn sha256_digest(bytes: Seq<u8>) -> Seq<u8>;

/// sha2's `Sha256::digest`. Trusted to return the 32-byte digest of exactly the bytes it was
/// given; which 32 bytes those are on given input is left to the name.
#[verifier::external_body]
fn sha256_bytes(bytes: &[u8]) -> (r: Vec<u8>)
    ensures
        r@ == sha256_digest(bytes@),
        r@.len() == 32,
{
    <sha2::Sha256 as sha2::Digest>::digest(bytes).to_vec()
}

/// The SHA-256 digest of `bytes` in lower-case hexadecimal, the form the manifest records.
pub fn sha256_hex(bytes: &[u8]) -> (r: String)
    ensures
        r@ == hex_spec(sha256_digest(bytes@)),
        r@.len() == 64,
{
    let digest = sha256_bytes(bytes);
    proof {
        lemma_hex_shape(digest@);
    }
    hex_lower(&digest)
}

/// What was observed of a listed file: its size, and, where the contents were read because
/// the size is the recorded one, their digest or why they could not be read.
pub fn observation(size: Option<u64>, contents: Option<Result<Vec<u8>, String>>) -> (r: FileObservation)
    ensures
        r.size == size,
        match contents {
            None => r.digest is None,
            Some(Ok(b)) => r.digest matches Some(Ok(d)) && d@ == hex_spec(sha256_digest(b@)),
            Some(Err(e)) => r.digest == Some(Err::<String, String>(e)),
        },
{
    let digest = match contents {
        None => None,
        Some(Ok(bytes)) => Some(Ok(sha256_hex(bytes.as_slice()))),
        Some(Err(reason)) => Some(Err(reason)),
    };
    FileObservation { size, digest }
}

/// An observation has what the full check needs: a digest whenever the size is right.
pub open spec fn observation_complete(e: ManifestEntry, o: FileObservation) -> bool {
    o.size == Some(e.size_bytes) ==> o.digest is Some
}

impl ManifestEntry {
    /// Whether the file's digest must be computed: it exists with the recorded size.
    pub fn needs_digest(&self, size: Option<u64>) -> (r: bool)
        ensures
            r == (size == Some(self.size_bytes)),
    {
        match size {
            Some(s) => s == self.size_bytes,
            None => false,
        }
    }

    pub fn quick_verdict(&self, size: Option<u64>) -> (r: FileVerdict)
        ensures
            r@ == quick_verdict_spec(*self, size),
    {
        match size {
            None => if self.optional {
                FileVerdict::Intact
            } else {
                FileVerdict::Missing
            },
            Some(s) => if s != self.size_bytes {
                FileVerdict::WrongSize { expected: self.size_bytes, actual: s }
            } else {
                FileVerdict::Intact
            },
        }
    }

    pub fn full_verdict(&self, observed: &FileObservation) -> (r: FileVerdict)
        requires
            observation_complete(*self, *observed),
        ensures
            r@ == full_verdict_spec(*self, *observed),
    {
        if self.needs_digest(observed.size) {
            match &observed.digest {
                Some(Ok(d)) => if same_ignoring_ascii_case(d.as_str(), self.sha256.as_str()) {
                    FileVerdict::Intact
                } else {
                    FileVerdict::WrongHash { expected: self.sha256.clone(), actual: d.clone() }
                },
                Some(Err(reason)) => FileVerdict::Unreadable(reason.clone()),
                None => FileVerdict::Intact,
            }
        } else {
            self.quick_verdict(observed.size)
        }
    }
}

#[derive(Debug, Clone, PartialEq, Eq)]
pub struct VerificationReport {
    pub results: Vec<(String, FileVerdict)>,
}

pub open spec fn problems_spec(results: Seq<(String, FileVerdict)>) -> Seq<Seq<char>>
    decreases results.len(),
{
    if results.len() == 0 {
        Seq::empty()
    } else {
        let before = problems_spec(results.drop_last());
        let (path, v) = results.last();
        if v@ is Intact {
            before
        } else {
            before.push(explain_spec(v@, path@))
        }
    }
}

impl VerificationReport {
    /// Every file is fine.
    pub fn is_healthy(&self) -> (r: bool)
        ensures
            r == forall|i: int| 0 <= i < self.results@.len() ==> (#[trigger] self.results@[i]).1@ is Intact,
    {
        let mut i: usize = 0;
        while i < self.results.len()
            invariant
                i <= self.results@.len(),
                forall|j: int| 0 <= j < i ==> (#[trigger] self.results@[j]).1@ is Intact,
            decreases self.results.len() - i,
        {
            if !self.results[i].1.is_ok() {
                return false;
            }
            i += 1;
        }
        true
    }

    /// What to tell the learner about each file that is not fine, in order.
    pub fn problems(&self) -> (r: Vec<String>)
        ensures
            crate::text::strings_view(r@) == problems_spec(self.results@),
    {
        let mut out: Vec<String> = Vec::new();
        let mut i: usize = 0;
        while i < self.results.len()
            invariant
                i <= self.results@.len(),
                crate::text::strings_view(out@) == problems_spec(self.results@.take(i as int)),
            decreases self.results.len() - i,
        {
            assert(self.results@.take(i + 1).drop_last() =~= self.results@.take(i as int));
            let (path, verdict) = (&self.results[i].0, &self.results[i].1);
            let ghost before = crate::text::strings_view(out@);
            if !verdict.is_ok() {
                out.push(verdict.explain(path.as_str()));
                assert(crate::text::strings_view(out@) =~= before.push(
                    explain_spec(verdict@, path@),
                ));
            }
            i += 1;
        }
        assert(self.results@.take(self.results@.len() as int) =~= self.results@);
        out
    }
}

impl Manifest {
    /// The quick check for every startup: presence and size only. `sizes[i]` is the size of
    /// the i-th listed file, `None` when it is absent.
    pub fn verify_quick(&self, sizes: &Vec<Option<u64>>) -> (r: VerificationReport)
        requires
            sizes@.len() == self.files@.len(),
        ensures
            r.results@.len() == self.files@.len(),
            forall|i: int|
                0 <= i < r.results@.len() ==> (#[trigger] r.results@[i]).0@ == self.files@[i].path@
                    && r.results@[i].1@ == quick_verdict_spec(self.files@[i], sizes@[i]),
    {
        let mut results: Vec<(String, FileVerdict)> = Vec::new();
        let mut i: usize = 0;
        while i < self.files.len()
            invariant
                i <= self.files@.len() == sizes@.len(),
                results@.len() == i,
                forall|j: int|
                    0 <= j < i ==> (#[trigger] results@[j]).0@ == self.files@[j].path@ && results@[j].1@
                        == quick_verdict_spec(self.files@[j], sizes@[j]),
            decreases self.files.len() - i,
        {
            let entry = &self.files[i];
            results.push((entry.path.clone(), entry.quick_verdict(sizes[i])));
            i += 1;
        }
        VerificationReport { results }
    }

    /// The full check: presence, size, and the digest of every file of the right size.
    pub fn verify(&self, observed: &Vec<FileObservation>) -> (r: VerificationReport)
        requires
            observed@.len() == self.files@.len(),
            forall|i: int|
                0 <= i < observed@.len() ==> observation_complete(
                    #[trigger] self.files@[i],
                    observed@[i],
                ),
        ensures
            r.results@.len() == self.files@.len(),
            forall|i: int|
                0 <= i < r.results@.len() ==> (#[trigger] r.results@[i]).0@ == self.files@[i].path@
                    && r.results@[i].1@ == full_verdict_spec(self.files@[i], observed@[i]),
    {
        let mut results: Vec<(String, FileVerdict)> = Vec::new();
        let mut i: usize = 0;
        while i < self.files.len()
            invariant
                i <= self.files@.len() == observed@.len(),
                forall|j: int|
                    0 <= j < observed@.len() ==> observation_complete(
                        #[trigger] self.files@[j],
                        observed@[j],
                    ),
                results@.len() == i,
                forall|j: int|
                    0 <= j < i ==> (#[trigger] results@[j]).0@ == self.files@[j].path@ && results@[j].1@
                        == full_verdict_spec(self.files@[j], observed@[j]),
            decreases self.files.len() - i,
        {
            let entry = &self.files[i];
            results.push((entry.path.clone(), entry.full_verdict(&observed[i])));
            i += 1;
        }
        VerificationReport { results }
    }
}

/// The manifest text without a leading byte-order mark, which some packaging tools write.
pub fn without_bom(text: &str) -> (r: String)
    ensures
        r@ == if text@.len() > 0 && text@[0] == '\u{feff}' {
            text@.drop_first()
        } else {
            text@
        },
{
    let chars = chars_of(text);
    if chars.len() > 0 && chars[0] == '\u{feff}' {
        let rest = crate::text::chars_from(&chars, 1);
        assert(rest@ =~= text@.drop_first());
        crate::text::string_of(&rest)
    } else {
        owned(text)
    }
}

} // verus!
