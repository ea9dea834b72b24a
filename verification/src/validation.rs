//! Validation request and result types.
//!
//! The engine reports one outcome per validator rather than a single pass or fail, so the
//! lesson player can say *which* part of a multi-part task is incomplete instead of just
//! refusing to advance.
use crate::lesson::Validator;
use crate::progress::{percent_of, rounded_percent};
use crate::text::owned;
use vstd::prelude::*;

verus! {

/// The class of a learner mistake.
#[derive(Debug, Clone, Copy, PartialEq, Eq, Structural, Hash)]
pub enum FailureCategory {
    CommandNotFound,
    InvalidOption,
    WrongWorkingDirectory,
    WrongPath,
    PermissionDenied,
    FileAlreadyExists,
    WrongFileType,
    WrongFileContents,
    WrongOwnership,
    WrongPermissions,
    ProcessNotRunning,
    ServiceNotActive,
    WrongPort,
    IncorrectRedirect,
    PipelineOutputIncorrect,
    ScriptSyntaxFailure,
    ScriptLogicFailure,
    NetworkUnreachable,
    DnsFailure,
    TaskPartiallyCompleted,
}

impl FailureCategory {
    pub open spec fn guidance_spec(self) -> Seq<char> {
        match self {
            FailureCategory::CommandNotFound => "The shell could not find that command. Check the spelling, and check PATH."@,
            FailureCategory::InvalidOption => "The command ran but rejected an option. Compare it against --help."@,
            FailureCategory::WrongWorkingDirectory => "You are not in the directory the task expects. Run pwd to check."@,
            FailureCategory::WrongPath => "The path does not exist yet, or it was created somewhere else."@,
            FailureCategory::PermissionDenied => "The account you used is not allowed to do that. Consider whether sudo is required."@,
            FailureCategory::FileAlreadyExists => "Something already exists at that path, so the command refused to overwrite it."@,
            FailureCategory::WrongFileType => "The path exists but is the wrong kind of object, for example a directory where a file was expected."@,
            FailureCategory::WrongFileContents => "The file exists but its contents are not what the task asked for."@,
            FailureCategory::WrongOwnership => "The owner or group is not what the task asked for."@,
            FailureCategory::WrongPermissions => "The permission bits are not what the task asked for."@,
            FailureCategory::ProcessNotRunning => "The expected process is not running."@,
            FailureCategory::ServiceNotActive => "The service is not in the expected state. Check systemctl status."@,
            FailureCategory::WrongPort => "Nothing is listening on the expected port, or it is bound to the wrong address."@,
            FailureCategory::IncorrectRedirect => "Output went somewhere other than where the task expected. Check > against >> and 2>."@,
            FailureCategory::PipelineOutputIncorrect => "The pipeline ran but produced different output. Compare it a stage at a time."@,
            FailureCategory::ScriptSyntaxFailure => "The script does not parse. Check quoting and block keywords."@,
            FailureCategory::ScriptLogicFailure => "The script runs but produces the wrong result."@,
            FailureCategory::NetworkUnreachable => "The target could not be reached. Work up from the interface."@,
            FailureCategory::DnsFailure => "The name did not resolve. Test the resolver directly with dig."@,
            FailureCategory::TaskPartiallyCompleted => "Part of the task is done. The remaining checks are listed below."@,
        }
    }

    /// Short guidance shown beside the failure: about the *class* of mistake; the validator
    /// supplies the specifics.
    pub fn guidance(self) -> (r: &'static str)
        ensures
            r@ == self.guidance_spec(),
    {
        match self {
            FailureCategory::CommandNotFound => "The shell could not find that command. Check the spelling, and check PATH.",
            FailureCategory::InvalidOption => "The command ran but rejected an option. Compare it against --help.",
            FailureCategory::WrongWorkingDirectory => "You are not in the directory the task expects. Run pwd to check.",
            FailureCategory::WrongPath => "The path does not exist yet, or it was created somewhere else.",
            FailureCategory::PermissionDenied => "The account you used is not allowed to do that. Consider whether sudo is required.",
            FailureCategory::FileAlreadyExists => "Something already exists at that path, so the command refused to overwrite it.",
            FailureCategory::WrongFileType => "The path exists but is the wrong kind of object, for example a directory where a file was expected.",
            FailureCategory::WrongFileContents => "The file exists but its contents are not what the task asked for.",
            FailureCategory::WrongOwnership => "The owner or group is not what the task asked for.",
            FailureCategory::WrongPermissions => "The permission bits are not what the task asked for.",
            FailureCategory::ProcessNotRunning => "The expected process is not running.",
            FailureCategory::ServiceNotActive => "The service is not in the expected state. Check systemctl status.",
            FailureCategory::WrongPort => "Nothing is listening on the expected port, or it is bound to the wrong address.",
            FailureCategory::IncorrectRedirect => "Output went somewhere other than where the task expected. Check > against >> and 2>.",
            FailureCategory::PipelineOutputIncorrect => "The pipeline ran but produced different output. Compare it a stage at a time.",
            FailureCategory::ScriptSyntaxFailure => "The script does not parse. Check quoting and block keywords.",
            FailureCategory::ScriptLogicFailure => "The script runs but produces the wrong result.",
            FailureCategory::NetworkUnreachable => "The target could not be reached. Work up from the interface.",
            FailureCategory::DnsFailure => "The name did not resolve. Test the resolver directly with dig.",
            FailureCategory::TaskPartiallyCompleted => "Part of the task is done. The remaining checks are listed below.",
        }
    }

    /// The key under which the category is stored and sent (its snake_case name).
    pub open spec fn key_spec(self) -> Seq<char> {
        match self {
            FailureCategory::CommandNotFound => "command_not_found"@,
            FailureCategory::InvalidOption => "invalid_option"@,
            FailureCategory::WrongWorkingDirectory => "wrong_working_directory"@,
            FailureCategory::WrongPath => "wrong_path"@,
            FailureCategory::PermissionDenied => "permission_denied"@,
            FailureCategory::FileAlreadyExists => "file_already_exists"@,
            FailureCategory::WrongFileType => "wrong_file_type"@,
            FailureCategory::WrongFileContents => "wrong_file_contents"@,
            FailureCategory::WrongOwnership => "wrong_ownership"@,
            FailureCategory::WrongPermissions => "wrong_permissions"@,
            FailureCategory::ProcessNotRunning => "process_not_running"@,
            FailureCategory::ServiceNotActive => "service_not_active"@,
            FailureCategory::WrongPort => "wrong_port"@,
            FailureCategory::IncorrectRedirect => "incorrect_redirect"@,
            FailureCategory::PipelineOutputIncorrect => "pipeline_output_incorrect"@,
            FailureCategory::ScriptSyntaxFailure => "script_syntax_failure"@,
            FailureCategory::ScriptLogicFailure => "script_logic_failure"@,
            FailureCategory::NetworkUnreachable => "network_unreachable"@,
            FailureCategory::DnsFailure => "dns_failure"@,
            FailureCategory::TaskPartiallyCompleted => "task_partially_completed"@,
        }
    }

    pub fn key(self) -> (r: &'static str)
        ensures
            r@ == self.key_spec(),
    {
        match self {
            FailureCategory::CommandNotFound => "command_not_found",
            FailureCategory::InvalidOption => "invalid_option",
            FailureCategory::WrongWorkingDirectory => "wrong_working_directory",
            FailureCategory::WrongPath => "wrong_path",
            FailureCategory::PermissionDenied => "permission_denied",
            FailureCategory::FileAlreadyExists => "file_already_exists",
            FailureCategory::WrongFileType => "wrong_file_type",
            FailureCategory::WrongFileContents => "wrong_file_contents",
            FailureCategory::WrongOwnership => "wrong_ownership",
            FailureCategory::WrongPermissions => "wrong_permissions",
            FailureCategory::ProcessNotRunning => "process_not_running",
            FailureCategory::ServiceNotActive => "service_not_active",
            FailureCategory::WrongPort => "wrong_port",
            FailureCategory::IncorrectRedirect => "incorrect_redirect",
            FailureCategory::PipelineOutputIncorrect => "pipeline_output_incorrect",
            FailureCategory::ScriptSyntaxFailure => "script_syntax_failure",
            FailureCategory::ScriptLogicFailure => "script_logic_failure",
            FailureCategory::NetworkUnreachable => "network_unreachable",
            FailureCategory::DnsFailure => "dns_failure",
            FailureCategory::TaskPartiallyCompleted => "task_partially_completed",
        }
    }

    /// The category whose key is `key`, if any.
    pub fn from_key(key: &str) -> (r: Option<FailureCategory>)
        ensures
            r matches Some(c) ==> c.key_spec() == key@,
            r is None ==> forall|c: FailureCategory| c.key_spec() != key@,
    {
        let given = owned(key);
        if given == owned("command_not_found") {
            return Some(FailureCategory::CommandNotFound);
        }
        if given == owned("invalid_option") {
            return Some(FailureCategory::InvalidOption);
        }
        if given == owned("wrong_working_directory") {
            return Some(FailureCategory::WrongWorkingDirectory);
        }
        if given == owned("wrong_path") {
            return Some(FailureCategory::WrongPath);
        }
        if given == owned("permission_denied") {
            return Some(FailureCategory::PermissionDenied);
        }
        if given == owned("file_already_exists") {
            return Some(FailureCategory::FileAlreadyExists);
        }
        if given == owned("wrong_file_type") {
            return Some(FailureCategory::WrongFileType);
        }
        if given == owned("wrong_file_contents") {
            return Some(FailureCategory::WrongFileContents);
        }
        if given == owned("wrong_ownership") {
            return Some(FailureCategory::WrongOwnership);
        }
        if given == owned("wrong_permissions") {
            return Some(FailureCategory::WrongPermissions);
        }
        if given == owned("process_not_running") {
            return Some(FailureCategory::ProcessNotRunning);
        }
        if given == owned("service_not_active") {
            return Some(FailureCategory::ServiceNotActive);
        }
        if given == owned("wrong_port") {
            return Some(FailureCategory::WrongPort);
        }
        if given == owned("incorrect_redirect") {
            return Some(FailureCategory::IncorrectRedirect);
        }
        if given == owned("pipeline_output_incorrect") {
            return Some(FailureCategory::PipelineOutputIncorrect);
        }
        if given == owned("script_syntax_failure") {
            return Some(FailureCategory::ScriptSyntaxFailure);
        }
        if given == owned("script_logic_failure") {
            return Some(FailureCategory::ScriptLogicFailure);
        }
        if given == owned("network_unreachable") {
            return Some(FailureCategory::NetworkUnreachable);
        }
        if given == owned("dns_failure") {
            return Some(FailureCategory::DnsFailure);
        }
        if given == owned("task_partially_completed") {
            return Some(FailureCategory::TaskPartiallyCompleted);
        }
        None
    }
}

#[derive(Debug, Clone, PartialEq, Eq)]
pub struct ValidationRequest {
    pub lesson_id: String,
    pub task_id: String,
    pub validators: Vec<Validator>,
    /// Guest user whose interactive shell state is inspected.
    pub subject_user: String,
    /// Lesson root inside the guest, used to resolve fixture and script references.
    pub lesson_root: Option<String>,
    /// Unix seconds when the attempt started; scopes journal queries.
    pub attempt_started_at: Option<i64>,
}

/// The guest user whose shell is inspected when a request names none.
pub fn default_subject() -> (r: String)
    ensures
        r@ == "student"@,
{
    owned("student")
}

/// The weight a check has when its author gave none.
pub fn default_weight() -> (r: u32)
    ensures
        r == 1,
{
    1
}

/// The result of one validator.
#[derive(Debug, Clone, PartialEq, Eq)]
pub struct CheckOutcome {
    /// Validator tag, e.g. `directory_exists`.
    pub kind: String,
    pub passed: bool,
    /// Learner-facing explanation, present whether or not the check passed.
    pub message: String,
    pub failure_category: Option<FailureCategory>,
    /// What the guest actually observed.
    pub observed: Option<String>,
    pub expected: Option<String>,
    pub weight: u32,
    /// Set when the validator could not run at all. An errored check never counts as passed.
    pub errored: bool,
}

impl CheckOutcome {
    pub fn pass(kind: &str, message: &str) -> (r: CheckOutcome)
        ensures
            r.kind@ == kind@,
            r.message@ == message@,
            r.passed,
            !r.errored,
            r.failure_category is None,
            r.observed is None,
            r.expected is None,
            r.weight == 1,
    {
        CheckOutcome {
            kind: owned(kind),
            passed: true,
            message: owned(message),
            failure_category: None,
            observed: None,
            expected: None,
            weight: 1,
            errored: false,
        }
    }

    pub fn fail(kind: &str, message: &str, category: FailureCategory) -> (r: CheckOutcome)
        ensures
            r.kind@ == kind@,
            r.message@ == message@,
            !r.passed,
            !r.errored,
            r.failure_category == Some(category),
            r.observed is None,
            r.expected is None,
            r.weight == 1,
    {
        CheckOutcome {
            kind: owned(kind),
            passed: false,
            message: owned(message),
            failure_category: Some(category),
            observed: None,
            expected: None,
            weight: 1,
            errored: false,
        }
    }

    /// The validator itself was unusable. Reported distinctly from a learner mistake so a
    /// broken lesson package cannot masquerade as a wrong answer.
    pub fn error(kind: &str, message: &str) -> (r: CheckOutcome)
        ensures
            r.kind@ == kind@,
            r.message@ == message@,
            !r.passed,
            r.errored,
            r.failure_category is None,
            r.observed is None,
            r.expected is None,
            r.weight == 1,
    {
        CheckOutcome {
            kind: owned(kind),
            passed: false,
            message: owned(message),
            failure_category: None,
            observed: None,
            expected: None,
            weight: 1,
            errored: true,
        }
    }

    /// A field-by-field copy.
    pub fn duplicate(&self) -> (r: CheckOutcome)
        ensures
            r == *self,
    {
        CheckOutcome {
            kind: self.kind.clone(),
            passed: self.passed,
            message: self.message.clone(),
            failure_category: self.failure_category,
            observed: match &self.observed {
                Some(o) => Some(o.clone()),
                None => None,
            },
            expected: match &self.expected {
                Some(e) => Some(e.clone()),
                None => None,
            },
            weight: self.weight,
            errored: self.errored,
        }
    }

    pub fn observed(self, observed: &str) -> (r: CheckOutcome)
        ensures
            r == (CheckOutcome { observed: r.observed, ..self }),
            r.observed matches Some(o) && o@ == observed@,
    {
        CheckOutcome { observed: Some(owned(observed)), ..self }
    }

    pub fn expected(self, expected: &str) -> (r: CheckOutcome)
        ensures
            r == (CheckOutcome { expected: r.expected, ..self }),
            r.expected matches Some(e) && e@ == expected@,
    {
        CheckOutcome { expected: Some(owned(expected)), ..self }
    }

    /// Sets the weight, never below one.
    pub fn weighted(self, weight: u32) -> (r: CheckOutcome)
        ensures
            r == (CheckOutcome { weight: if weight >= 1 { weight } else { 1 }, ..self }),
    {
        CheckOutcome { weight: if weight >= 1 { weight } else { 1 }, ..self }
    }
}

/// Convenience for the agent when a request cannot even be parsed into an outcome list.
pub fn error_outcome(kind: &str, message: &str) -> (r: CheckOutcome)
    ensures
        r.kind@ == kind@,
        r.message@ == message@,
        !r.passed,
        r.errored,
        r.failure_category is None,
        r.weight == 1,
{
    CheckOutcome::error(kind, message)
}

/// Sum of the weights of the outcomes.
pub open spec fn total_weight(outcomes: Seq<CheckOutcome>) -> nat
    decreases outcomes.len(),
{
    if outcomes.len() == 0 {
        0
    } else {
        total_weight(outcomes.drop_last()) + outcomes.last().weight as nat
    }
}

/// Sum of the weights of the outcomes that passed.
pub open spec fn earned_weight(outcomes: Seq<CheckOutcome>) -> nat
    decreases outcomes.len(),
{
    if outcomes.len() == 0 {
        0
    } else {
        earned_weight(outcomes.drop_last()) + if outcomes.last().passed {
            outcomes.last().weight as nat
        } else {
            0
        }
    }
}

/// Index of the first outcome satisfying the failure preference: a real (non-errored) failure
/// when `real_only`, any failure otherwise.
pub open spec fn first_failure(outcomes: Seq<CheckOutcome>, real_only: bool) -> Option<int> {
    if exists|i: int|
        0 <= i < outcomes.len() && !outcomes[i].passed && (!real_only || !outcomes[i].errored) {
        Some(
            choose|i: int|
                0 <= i < outcomes.len() && !outcomes[i].passed && (!real_only
                    || !outcomes[i].errored) && forall|j: int|
                    0 <= j < i ==> outcomes[j].passed || (real_only && outcomes[j].errored),
        )
    } else {
        None
    }
}

/// The outcome a task's result leads with: a learner-actionable failure first, then any
/// failure.
pub open spec fn primary_failure_index(outcomes: Seq<CheckOutcome>) -> Option<int> {
    match first_failure(outcomes, true) {
        Some(i) => Some(i),
        None => first_failure(outcomes, false),
    }
}

#[derive(Debug, Clone, PartialEq, Eq)]
pub struct TaskValidation {
    pub lesson_id: String,
    pub task_id: String,
    pub passed: bool,
    pub outcomes: Vec<CheckOutcome>,
    /// 0-100, weighted by each check's `weight`.
    pub completion_percent: u8,
    /// The single most useful failure to surface first.
    pub primary_failure: Option<CheckOutcome>,
    pub errored: bool,
}

impl TaskValidation {
    /// Rolls per-check outcomes up into a task result.
    pub fn from_outcomes(lesson_id: &str, task_id: &str, outcomes: Vec<CheckOutcome>) -> (r:
        TaskValidation)
        requires
            total_weight(outcomes@) <= u32::MAX,
        ensures
            r.lesson_id@ == lesson_id@,
            r.task_id@ == task_id@,
            r.outcomes@ == outcomes@,
            r.passed == (outcomes@.len() > 0 && forall|i: int|
                0 <= i < outcomes@.len() ==> #[trigger] outcomes@[i].passed),
            r.errored == (exists|i: int| 0 <= i < outcomes@.len() && #[trigger] outcomes@[i].errored),
            r.completion_percent == rounded_percent(
                earned_weight(outcomes@),
                total_weight(outcomes@),
            ),
            match primary_failure_index(outcomes@) {
                Some(i) => r.primary_failure == Some(outcomes@[i]),
                None => r.primary_failure is None,
            },
    {
        let mut total: u32 = 0;
        let mut earned: u32 = 0;
        let mut all_passed = true;
        let mut any_errored = false;
        let mut real_failure: Option<usize> = None;
        let mut any_failure: Option<usize> = None;
        let mut i: usize = 0;
        while i < outcomes.len()
            invariant
                i <= outcomes@.len(),
                total_weight(outcomes@) <= u32::MAX,
                total == total_weight(outcomes@.subrange(0, i as int)),
                earned == earned_weight(outcomes@.subrange(0, i as int)),
                earned <= total,
                all_passed == forall|j: int| 0 <= j < i ==> #[trigger] outcomes@[j].passed,
                any_errored == exists|j: int| 0 <= j < i && #[trigger] outcomes@[j].errored,
                real_failure matches Some(k) ==> k < i && !outcomes@[k as int].passed
                    && !outcomes@[k as int].errored && forall|j: int|
                    0 <= j < k ==> outcomes@[j].passed || outcomes@[j].errored,
                real_failure is None ==> forall|j: int|
                    0 <= j < i ==> outcomes@[j].passed || outcomes@[j].errored,
                any_failure matches Some(k) ==> k < i && !outcomes@[k as int].passed && forall|
                    j: int,
                | 0 <= j < k ==> outcomes@[j].passed,
                any_failure is None ==> forall|j: int| 0 <= j < i ==> outcomes@[j].passed,
            decreases outcomes.len() - i,
        {
            let o = &outcomes[i];
            proof {
                lemma_weight_prefix(outcomes@, i + 1);
                assert(outcomes@.subrange(0, i + 1).drop_last() =~= outcomes@.subrange(0, i as int));
            }
            total = total + o.weight;
            if o.passed {
                earned = earned + o.weight;
            } else {
                all_passed = false;
                if any_failure.is_none() {
                    any_failure = Some(i);
                }
                if !o.errored && real_failure.is_none() {
                    real_failure = Some(i);
                }
            }
            if o.errored {
                any_errored = true;
            }
            i += 1;
        }
        assert(outcomes@.subrange(0, outcomes@.len() as int) =~= outcomes@);
        let completion_percent = percent_of(earned, total);
        let passed = outcomes.len() > 0 && all_passed;
        let chosen = match real_failure {
            Some(k) => Some(k),
            None => any_failure,
        };
        let primary_failure = match chosen {
            Some(k) => Some(outcomes[k].duplicate()),
            None => None,
        };
        proof {
            lemma_first_failure_is(outcomes@, true, real_failure);
            lemma_first_failure_is(outcomes@, false, any_failure);
        }
        TaskValidation {
            lesson_id: owned(lesson_id),
            task_id: owned(task_id),
            passed,
            outcomes,
            completion_percent,
            primary_failure,
            errored: any_errored,
        }
    }
}

proof fn lemma_weight_prefix(outcomes: Seq<CheckOutcome>, n: int)
    requires
        0 <= n <= outcomes.len(),
    ensures
        total_weight(outcomes.subrange(0, n)) <= total_weight(outcomes),
        earned_weight(outcomes.subrange(0, n)) <= total_weight(outcomes.subrange(0, n)),
    decreases outcomes.len() - n,
{
    if n < outcomes.len() {
        lemma_weight_prefix(outcomes, n + 1);
        assert(outcomes.subrange(0, n + 1).drop_last() =~= outcomes.subrange(0, n));
    } else {
        assert(outcomes.subrange(0, n) =~= outcomes);
    }
    lemma_earned_le_total(outcomes.subrange(0, n));
}

proof fn lemma_earned_le_total(outcomes: Seq<CheckOutcome>)
    ensures
        earned_weight(outcomes) <= total_weight(outcomes),
    decreases outcomes.len(),
{
    if outcomes.len() > 0 {
        lemma_earned_le_total(outcomes.drop_last());
    }
}

proof fn lemma_first_failure_is(outcomes: Seq<CheckOutcome>, real_only: bool, found: Option<usize>)
    requires
        found matches Some(k) ==> k < outcomes.len() && !outcomes[k as int].passed && (!real_only
            || !outcomes[k as int].errored) && forall|j: int|
            0 <= j < k ==> outcomes[j].passed || (real_only && outcomes[j].errored),
        found is None ==> forall|j: int|
            0 <= j < outcomes.len() ==> outcomes[j].passed || (real_only && outcomes[j].errored),
    ensures
        first_failure(outcomes, real_only) == match found {
            Some(k) => Some(k as int),
            None => None,
        },
{
    match found {
        Some(k) => {
            assert(!outcomes[k as int].passed);
            let ff = first_failure(outcomes, real_only);
            assert(ff is Some);
            let c = ff->0;
            assert(0 <= c < outcomes.len() && !outcomes[c].passed && (!real_only
                || !outcomes[c].errored));
            if c < k {
                assert(outcomes[c].passed || (real_only && outcomes[c].errored));
            } else if c > k {
                assert(outcomes[k as int].passed || (real_only && outcomes[k as int].errored));
            }
        },
        None => {},
    }
}

#[derive(Debug, Clone, PartialEq, Eq)]
pub struct ValidationSummary {
    pub lesson_id: String,
    pub tasks_passed: usize,
    pub tasks_total: usize,
    pub complete: bool,
}

} // verus!
