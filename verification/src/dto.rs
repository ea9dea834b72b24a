//! What the desktop sends to the frontend.
//!
//! Suggested solutions, alternate solutions and review-question answers are not sent with the
//! lesson. They are fetched through explicit requests that are recorded, so the learner still
//! has to enter the solution by hand.
use crate::feedback::Feedback;
use crate::lesson::{
    copy_demonstrations, Demonstration, Lesson, LessonEnvironment, LessonLevel, LessonSummary, LessonType,
    ReviewQuestion, ReviewQuestionType, Task, TaskKind, Validator,
};
use crate::catalog::{last_module, lessons_of, Catalog};
use crate::progression::{missing_prerequisites, unlocked_in, LessonState, ProgressIndex, Progression, ProgressionMode};
use crate::store::{status_str, status_text};
use crate::progress::{LessonProgress, MasteryStatus};
use crate::sys::{filter_map_spec, lemma_filter_map_step};
use crate::text::{append, copy_optional, phrase, phrase2, copy_strings, owned, same_text, signed_decimal,
    signed_decimal_string, strings_view,
};
use crate::validation::{FailureCategory, TaskValidation};
use crate::health::HealthReport;
use crate::vm::VmStatus;
use vstd::prelude::*;

verus! {

/// A string parameter of the validator, or the empty text when it is absent.
pub open spec fn text_param(v: Validator, key: Seq<char>) -> Seq<char> {
    match v.str_param_spec(key) {
        Some(s) => s,
        None => Seq::empty(),
    }
}

/// An integer parameter of the validator in decimal, or `0` when it is absent.
pub open spec fn int_param_text(v: Validator, key: Seq<char>) -> Seq<char> {
    signed_decimal(
        match v.i64_param_spec(key) {
            Some(n) => n as int,
            None => 0,
        },
    )
}

/// The goal a validator checks, in words a learner can read, for the validators that have one.
pub open spec fn requirement_text(v: Validator) -> Option<Seq<char>> {
    let k = v.kind@;
    let path = text_param(v, "path"@);
    if k == "file_exists"@ {
        Some("The file "@ + path + " exists"@)
    } else if k == "file_missing"@ {
        Some(path + " no longer exists"@)
    } else if k == "directory_exists"@ {
        Some("The directory "@ + path + " exists"@)
    } else if k == "directory_missing"@ {
        Some("The directory "@ + path + " no longer exists"@)
    } else if k == "symbolic_link_exists"@ {
        Some(path + " is a symbolic link"@)
    } else if k == "hard_link_exists"@ {
        Some(path + " and "@ + text_param(v, "linkTo"@) + " are hard links to the same file"@)
    } else if k == "file_type"@ {
        Some(path + " is a "@ + text_param(v, "fileType"@))
    } else if k == "file_owner"@ {
        Some(path + " is owned by "@ + text_param(v, "owner"@))
    } else if k == "file_group"@ {
        Some(path + " belongs to the group "@ + text_param(v, "group"@))
    } else if k == "file_mode"@ {
        Some(path + " has the permissions "@ + text_param(v, "mode"@))
    } else if k == "file_contains"@ {
        Some(path + " contains the required text"@)
    } else if k == "file_matches_regex"@ {
        Some(path + " matches the required pattern"@)
    } else if k == "file_line_count"@ {
        Some(path + " has the required number of lines"@)
    } else if k == "file_size"@ {
        Some(path + " is the required size"@)
    } else if k == "file_checksum"@ {
        Some(path + " has exactly the required contents"@)
    } else if k == "directory_contains"@ {
        Some(path + " contains the required entries"@)
    } else if k == "directory_empty"@ {
        Some(path + " is empty"@)
    } else if k == "current_directory"@ {
        Some("Your shell's working directory is "@ + path)
    } else if k == "process_running"@ {
        Some("The required process is running"@)
    } else if k == "process_not_running"@ {
        Some("The process is no longer running"@)
    } else if k == "process_owner"@ {
        Some("The process runs as "@ + text_param(v, "owner"@))
    } else if k == "background_job_running"@ {
        Some("The job is running in the background"@)
    } else if k == "process_signal_received"@ {
        Some("The process received "@ + text_param(v, "signal"@))
    } else if k == "service_active"@ {
        Some(text_param(v, "unit"@) + " is active"@)
    } else if k == "service_inactive"@ {
        Some(text_param(v, "unit"@) + " is stopped"@)
    } else if k == "service_enabled"@ {
        Some(text_param(v, "unit"@) + " starts at boot"@)
    } else if k == "service_disabled"@ {
        Some(text_param(v, "unit"@) + " does not start at boot"@)
    } else if k == "port_listening"@ {
        Some("Something is listening on port "@ + int_param_text(v, "port"@))
    } else if k == "user_exists"@ {
        Some("The account "@ + text_param(v, "user"@) + " exists"@)
    } else if k == "group_exists"@ {
        Some("The group "@ + text_param(v, "group"@) + " exists"@)
    } else if k == "group_membership"@ {
        Some(text_param(v, "user"@) + " is a member of "@ + text_param(v, "group"@))
    } else if k == "package_installed"@ {
        Some("The package "@ + text_param(v, "package"@) + " is installed"@)
    } else if k == "package_removed"@ {
        Some("The package "@ + text_param(v, "package"@) + " is removed"@)
    } else if k == "script_exists"@ {
        Some("The script "@ + path + " exists"@)
    } else if k == "script_executable"@ {
        Some(path + " is executable"@)
    } else if k == "script_exit_code"@ {
        Some(path + " exits with "@ + int_param_text(v, "exitCode"@))
    } else if k == "shellcheck_passes"@ {
        Some(path + " passes shellcheck"@)
    } else if k == "stdout_exact"@ || k == "stdout_contains"@ {
        Some("The command produces the required output"@)
    } else if k == "stderr_contains"@ {
        Some("Errors go to the error stream"@)
    } else if k == "unit_test_passes"@ {
        Some("Your solution works on hidden test data as well as the example"@)
    } else if k == "idempotent_result"@ {
        Some("Running it twice gives the same result"@)
    } else {
        None
    }
}

/// A string parameter, or the empty text.
fn param_text(v: &Validator, key: &str) -> (r: String)
    ensures
        r@ == text_param(*v, key@),
{
    match v.str_param(key) {
        Some(s) => owned(s),
        None => String::new(),
    }
}

/// An integer parameter in decimal, or `0`.
fn int_text(v: &Validator, key: &str) -> (r: String)
    ensures
        r@ == int_param_text(*v, key@),
{
    match v.i64_param(key) {
        Some(n) => signed_decimal_string(n),
        None => signed_decimal_string(0),
    }
}

/// Turns a validator into a requirement a learner can read. It describes the goal, never the
/// command: "the directory /home/student/reports exists" says what to achieve, `mkdir reports`
/// says what to type. Validators not worth spelling out are left out rather than shown as a
/// raw tag.
#[verifier::rlimit(40)]
pub fn describe_validator(validator: &Validator) -> (r: Option<String>)
    ensures
        match r {
            Some(s) => requirement_text(*validator) == Some(s@),
            None => requirement_text(*validator) is None,
        },
{
    proof {
        reveal_strlit("");
    }
    let k = validator.kind.as_str();
    let path = param_text(validator, "path");
    let p = path.as_str();
    if same_text(k, "file_exists") {
        Some(phrase("The file ", p, " exists"))
    } else if same_text(k, "file_missing") {
        Some(phrase("", p, " no longer exists"))
    } else if same_text(k, "directory_exists") {
        Some(phrase("The directory ", p, " exists"))
    } else if same_text(k, "directory_missing") {
        Some(phrase("The directory ", p, " no longer exists"))
    } else if same_text(k, "symbolic_link_exists") {
        Some(phrase("", p, " is a symbolic link"))
    } else if same_text(k, "hard_link_exists") {
        let other = param_text(validator, "linkTo");
        Some(phrase2("", p, " and ", other.as_str(), " are hard links to the same file"))
    } else if same_text(k, "file_type") {
        let t = param_text(validator, "fileType");
        Some(phrase2("", p, " is a ", t.as_str(), ""))
    } else if same_text(k, "file_owner") {
        let t = param_text(validator, "owner");
        Some(phrase2("", p, " is owned by ", t.as_str(), ""))
    } else if same_text(k, "file_group") {
        let t = param_text(validator, "group");
        Some(phrase2("", p, " belongs to the group ", t.as_str(), ""))
    } else if same_text(k, "file_mode") {
        let t = param_text(validator, "mode");
        Some(phrase2("", p, " has the permissions ", t.as_str(), ""))
    } else if same_text(k, "file_contains") {
        Some(phrase("", p, " contains the required text"))
    } else if same_text(k, "file_matches_regex") {
        Some(phrase("", p, " matches the required pattern"))
    } else if same_text(k, "file_line_count") {
        Some(phrase("", p, " has the required number of lines"))
    } else if same_text(k, "file_size") {
        Some(phrase("", p, " is the required size"))
    } else if same_text(k, "file_checksum") {
        Some(phrase("", p, " has exactly the required contents"))
    } else if same_text(k, "directory_contains") {
        Some(phrase("", p, " contains the required entries"))
    } else if same_text(k, "directory_empty") {
        Some(phrase("", p, " is empty"))
    } else if same_text(k, "current_directory") {
        Some(phrase("Your shell's working directory is ", p, ""))
    } else {
        describe_other(validator, k, p)
    }
}

/// The validators that [`describe_validator`] does not handle itself.
#[verifier::rlimit(40)]
fn describe_other(validator: &Validator, k: &str, p: &str) -> (r: Option<String>)
    requires
        k@ == validator.kind@,
        p@ == text_param(*validator, "path"@),
        k@ != "file_exists"@,
        k@ != "file_missing"@,
        k@ != "directory_exists"@,
        k@ != "directory_missing"@,
        k@ != "symbolic_link_exists"@,
        k@ != "hard_link_exists"@,
        k@ != "file_type"@,
        k@ != "file_owner"@,
        k@ != "file_group"@,
        k@ != "file_mode"@,
        k@ != "file_contains"@,
        k@ != "file_matches_regex"@,
        k@ != "file_line_count"@,
        k@ != "file_size"@,
        k@ != "file_checksum"@,
        k@ != "directory_contains"@,
        k@ != "directory_empty"@,
        k@ != "current_directory"@,
    ensures
        match r {
            Some(s) => requirement_text(*validator) == Some(s@),
            None => requirement_text(*validator) is None,
        },
{
    proof {
        reveal_strlit("");
    }
    if same_text(k, "process_running") {
        Some(owned("The required process is running"))
    } else if same_text(k, "process_not_running") {
        Some(owned("The process is no longer running"))
    } else if same_text(k, "process_owner") {
        let t = param_text(validator, "owner");
        Some(phrase("The process runs as ", t.as_str(), ""))
    } else if same_text(k, "background_job_running") {
        Some(owned("The job is running in the background"))
    } else if same_text(k, "process_signal_received") {
        let t = param_text(validator, "signal");
        Some(phrase("The process received ", t.as_str(), ""))
    } else if same_text(k, "service_active") {
        let t = param_text(validator, "unit");
        Some(phrase("", t.as_str(), " is active"))
    } else if same_text(k, "service_inactive") {
        let t = param_text(validator, "unit");
        Some(phrase("", t.as_str(), " is stopped"))
    } else if same_text(k, "service_enabled") {
        let t = param_text(validator, "unit");
        Some(phrase("", t.as_str(), " starts at boot"))
    } else if same_text(k, "service_disabled") {
        let t = param_text(validator, "unit");
        Some(phrase("", t.as_str(), " does not start at boot"))
    } else if same_text(k, "port_listening") {
        let t = int_text(validator, "port");
        Some(phrase("Something is listening on port ", t.as_str(), ""))
    } else if same_text(k, "user_exists") {
        let t = param_text(validator, "user");
        Some(phrase("The account ", t.as_str(), " exists"))
    } else if same_text(k, "group_exists") {
        let t = param_text(validator, "group");
        Some(phrase("The group ", t.as_str(), " exists"))
    } else if same_text(k, "group_membership") {
        let u = param_text(validator, "user");
        let g = param_text(validator, "group");
        Some(phrase2("", u.as_str(), " is a member of ", g.as_str(), ""))
    } else if same_text(k, "package_installed") {
        let t = param_text(validator, "package");
        Some(phrase("The package ", t.as_str(), " is installed"))
    } else if same_text(k, "package_removed") {
        let t = param_text(validator, "package");
        Some(phrase("The package ", t.as_str(), " is removed"))
    } else if same_text(k, "script_exists") {
        Some(phrase("The script ", p, " exists"))
    } else if same_text(k, "script_executable") {
        Some(phrase("", p, " is executable"))
    } else if same_text(k, "script_exit_code") {
        let t = int_text(validator, "exitCode");
        Some(phrase2("", p, " exits with ", t.as_str(), ""))
    } else if same_text(k, "shellcheck_passes") {
        Some(phrase("", p, " passes shellcheck"))
    } else if same_text(k, "stdout_exact") || same_text(k, "stdout_contains") {
        Some(owned("The command produces the required output"))
    } else if same_text(k, "stderr_contains") {
        Some(owned("Errors go to the error stream"))
    } else if same_text(k, "unit_test_passes") {
        Some(owned("Your solution works on hidden test data as well as the example"))
    } else if same_text(k, "idempotent_result") {
        Some(owned("Running it twice gives the same result"))
    } else {
        None
    }
}


#[derive(Debug, Clone, PartialEq, Eq)]
pub struct TaskView {
    pub id: String,
    pub kind: TaskKind,
    pub instruction: String,
    pub context: Option<String>,
    pub broken_command: Option<String>,
    /// How many hints exist. The text arrives one at a time on request.
    pub hint_count: usize,
    pub optional: bool,
    /// What the task checks, in words, without the answer.
    pub requirements: Vec<String>,
}

#[derive(Debug, Clone, PartialEq, Eq)]
pub struct ReviewQuestionView {
    pub index: usize,
    pub question_type: ReviewQuestionType,
    pub question: String,
    pub answers: Vec<String>,
}

#[derive(Debug, Clone, PartialEq, Eq)]
pub struct LessonView {
    pub id: String,
    pub title: String,
    pub level: LessonLevel,
    pub module: String,
    pub lesson_type: LessonType,
    pub estimated_difficulty: u8,
    pub estimated_minutes: Option<u32>,
    pub prerequisites: Vec<String>,
    pub concepts: Vec<String>,
    pub commands: Vec<String>,
    pub environment: LessonEnvironment,
    pub purpose: String,
    pub mental_model: String,
    pub syntax: Vec<String>,
    pub demonstration: Vec<Demonstration>,
    pub explanation_markdown: Option<String>,
    pub summary: Option<LessonSummary>,
    pub tasks: Vec<TaskView>,
    pub review_questions: Vec<ReviewQuestionView>,
    /// Whether hints and worked solutions are offered at all.
    pub hints_available: bool,
}

/// The readable requirements of a task's validators, in order, skipping those without one.
pub open spec fn requirements_of(vs: Seq<Validator>) -> Seq<Seq<char>> {
    filter_map_spec(vs, |v: Validator| requirement_text(v))
}

/// Hints and worked examples are offered unless the lesson is an assessment or the learner
/// is in Assessment Mode.
pub open spec fn hints_shown(lesson: Lesson, mode: ProgressionMode) -> bool {
    !lesson.lesson_type.hides_hints_spec() && mode != ProgressionMode::Assessment
}

/// `v` shows `t` without its hints' text, its solutions or its diagnosis.
pub open spec fn shows_task(v: TaskView, t: Task, hints: bool) -> bool {
    &&& v.id == t.id
    &&& v.kind == t.kind
    &&& v.instruction == t.instruction
    &&& v.context == t.context
    &&& v.broken_command == t.broken_command
    &&& v.hint_count == (if hints { t.hints@.len() } else { 0 })
    &&& v.optional == t.optional
    &&& strings_view(v.requirements@) == requirements_of(t.validators@)
}

/// `v` shows the question at `index` with its options and without its key or explanation.
pub open spec fn shows_question(v: ReviewQuestionView, q: ReviewQuestion, index: int) -> bool {
    &&& v.index == index
    &&& v.question_type == q.question_type
    &&& v.question == q.question
    &&& v.answers@ == q.answers@
}

/// The requirements of a task, as [`describe_validator`] words them.
fn requirements(validators: &Vec<Validator>) -> (r: Vec<String>)
    ensures
        strings_view(r@) == requirements_of(validators@),
{
    let ghost f = |v: Validator| requirement_text(v);
    let mut out: Vec<String> = Vec::new();
    let mut i: usize = 0;
    while i < validators.len()
        invariant
            i <= validators@.len(),
            f == (|v: Validator| requirement_text(v)),
            strings_view(out@) == filter_map_spec(validators@.take(i as int), f),
        decreases validators.len() - i,
    {
        proof {
            lemma_filter_map_step(validators@, f, i as int);
        }
        let ghost before = strings_view(out@);
        match describe_validator(&validators[i]) {
            Some(text) => {
                out.push(text);
                assert(strings_view(out@) =~= before.push(requirement_text(validators@[i as int]).unwrap()));
            },
            None => {},
        }
        i += 1;
    }
    assert(validators@.take(validators@.len() as int) =~= validators@);
    out
}

impl TaskView {
    /// The task as the learner sees it.
    pub fn from_task(task: &Task, hints: bool) -> (r: TaskView)
        ensures
            shows_task(r, *task, hints),
    {
        TaskView {
            id: task.id.clone(),
            kind: task.kind,
            instruction: task.instruction.clone(),
            context: copy_optional(&task.context),
            broken_command: copy_optional(&task.broken_command),
            hint_count: if hints {
                task.hints.len()
            } else {
                0
            },
            optional: task.optional,
            requirements: requirements(&task.validators),
        }
    }
}

/// `r` is the payload the webview receives for `lesson` in `mode`: the lesson's public face,
/// with no solution, diagnosis, hint text, answer key or explanation.
pub open spec fn presents(r: LessonView, lesson: Lesson, mode: ProgressionMode) -> bool {
    &&& r.hints_available == hints_shown(lesson, mode)
    &&& r.id == lesson.id
    &&& r.title == lesson.title
    &&& r.level == lesson.level
    &&& r.module == lesson.module
    &&& r.lesson_type == lesson.lesson_type
    &&& r.estimated_difficulty == lesson.estimated_difficulty
    &&& r.estimated_minutes == lesson.estimated_minutes
    &&& r.prerequisites@ == lesson.prerequisites@
    &&& r.concepts@ == lesson.concepts@
    &&& r.commands@ == lesson.commands@
    &&& r.environment.same_as(lesson.environment)
    &&& r.purpose == lesson.content.purpose
    &&& r.mental_model == lesson.content.mental_model
    &&& r.syntax@ == (if hints_shown(lesson, mode) {
        lesson.content.syntax@
    } else {
        Seq::empty()
    })
    &&& r.demonstration@ == (if hints_shown(lesson, mode) {
        lesson.content.demonstration@
    } else {
        Seq::empty()
    })
    &&& r.explanation_markdown == lesson.content.explanation_markdown
    &&& lesson.content.summary is None ==> r.summary is None
    &&& lesson.content.summary matches Some(s) ==> (r.summary matches Some(t) && t.same_as(s))
    &&& r.tasks@.len() == lesson.tasks@.len()
    &&& forall|i: int|
        0 <= i < r.tasks@.len() ==> shows_task(
            #[trigger] r.tasks@[i],
            lesson.tasks@[i],
            hints_shown(lesson, mode),
        )
    &&& r.review_questions@.len() == lesson.review_questions@.len()
    &&& forall|i: int|
        0 <= i < r.review_questions@.len() ==> shows_question(
            #[trigger] r.review_questions@[i],
            lesson.review_questions@[i],
            i,
        )
}

/// Two tasks that look the same to the learner: they differ at most in their diagnosis, the
/// text of their hints and their solutions.
pub open spec fn same_task_face(a: Task, b: Task) -> bool {
    &&& a.id == b.id
    &&& a.kind == b.kind
    &&& a.instruction == b.instruction
    &&& a.context == b.context
    &&& a.broken_command == b.broken_command
    &&& a.validators@ == b.validators@
    &&& a.hints@.len() == b.hints@.len()
    &&& a.optional == b.optional
}

/// Two review questions that look the same: they differ at most in their answer key and
/// explanation.
pub open spec fn same_question_face(a: ReviewQuestion, b: ReviewQuestion) -> bool {
    &&& a.question_type == b.question_type
    &&& a.question == b.question
    &&& a.answers@ == b.answers@
}

/// Two lessons that differ at most in what the learner must not be sent: task diagnoses,
/// hint texts and solutions, and review answer keys and explanations.
pub open spec fn same_public_face(a: Lesson, b: Lesson) -> bool {
    &&& a.id == b.id
    &&& a.title == b.title
    &&& a.level == b.level
    &&& a.module == b.module
    &&& a.lesson_type == b.lesson_type
    &&& a.estimated_difficulty == b.estimated_difficulty
    &&& a.estimated_minutes == b.estimated_minutes
    &&& a.prerequisites@ == b.prerequisites@
    &&& a.concepts@ == b.concepts@
    &&& a.commands@ == b.commands@
    &&& a.environment == b.environment
    &&& a.content == b.content
    &&& a.tasks@.len() == b.tasks@.len()
    &&& forall|i: int| 0 <= i < a.tasks@.len() ==> same_task_face(#[trigger] a.tasks@[i], b.tasks@[i])
    &&& a.review_questions@.len() == b.review_questions@.len()
    &&& forall|i: int|
        0 <= i < a.review_questions@.len() ==> same_question_face(
            #[trigger] a.review_questions@[i],
            b.review_questions@[i],
        )
}

/// No solution, diagnosis, hint text, answer key or explanation reaches the webview: two
/// lessons that differ only in those are presented by exactly the same payloads.
pub proof fn lemma_payload_hides_answers(r: LessonView, a: Lesson, b: Lesson, mode: ProgressionMode)
    requires
        same_public_face(a, b),
    ensures
        presents(r, a, mode) == presents(r, b, mode),
{
    assert(hints_shown(a, mode) == hints_shown(b, mode));
    let h = hints_shown(a, mode);
    assert forall|i: int| 0 <= i < r.tasks@.len() && r.tasks@.len() == a.tasks@.len() implies shows_task(
        #[trigger] r.tasks@[i],
        a.tasks@[i],
        h,
    ) == shows_task(r.tasks@[i], b.tasks@[i], h) by {
        assert(same_task_face(a.tasks@[i], b.tasks@[i]));
    }
    assert forall|i: int|
        0 <= i < r.review_questions@.len() && r.review_questions@.len() == a.review_questions@.len() implies shows_question(
        #[trigger] r.review_questions@[i],
        a.review_questions@[i],
        i,
    ) == shows_question(r.review_questions@[i], b.review_questions@[i], i) by {
        assert(same_question_face(a.review_questions@[i], b.review_questions@[i]));
    }
}

impl LessonView {
    /// The lesson as the frontend receives it: no solutions, no hint text, no answer key; in
    /// assessments also no syntax summary and no worked examples.
    pub fn from_lesson(lesson: &Lesson, mode: ProgressionMode) -> (r: LessonView)
        ensures
            presents(r, *lesson, mode),
    {
        let hints_available = !lesson.lesson_type.hides_hints() && mode != ProgressionMode::Assessment;
        let mut tasks: Vec<TaskView> = Vec::new();
        let mut i: usize = 0;
        while i < lesson.tasks.len()
            invariant
                i <= lesson.tasks@.len(),
                tasks@.len() == i,
                forall|j: int|
                    0 <= j < i ==> shows_task(#[trigger] tasks@[j], lesson.tasks@[j], hints_available),
            decreases lesson.tasks.len() - i,
        {
            tasks.push(TaskView::from_task(&lesson.tasks[i], hints_available));
            i += 1;
        }
        let mut questions: Vec<ReviewQuestionView> = Vec::new();
        let mut q: usize = 0;
        while q < lesson.review_questions.len()
            invariant
                q <= lesson.review_questions@.len(),
                questions@.len() == q,
                forall|j: int|
                    0 <= j < q ==> shows_question(
                        #[trigger] questions@[j],
                        lesson.review_questions@[j],
                        j,
                    ),
            decreases lesson.review_questions.len() - q,
        {
            let question = &lesson.review_questions[q];
            questions.push(
                ReviewQuestionView {
                    index: q,
                    question_type: question.question_type,
                    question: question.question.clone(),
                    answers: copy_strings(&question.answers),
                },
            );
            q += 1;
        }
        LessonView {
            id: lesson.id.clone(),
            title: lesson.title.clone(),
            level: lesson.level,
            module: lesson.module.clone(),
            lesson_type: lesson.lesson_type,
            estimated_difficulty: lesson.estimated_difficulty,
            estimated_minutes: lesson.estimated_minutes,
            prerequisites: copy_strings(&lesson.prerequisites),
            concepts: copy_strings(&lesson.concepts),
            commands: copy_strings(&lesson.commands),
            environment: lesson.environment.duplicate(),
            purpose: lesson.content.purpose.clone(),
            mental_model: lesson.content.mental_model.clone(),
            syntax: if hints_available {
                copy_strings(&lesson.content.syntax)
            } else {
                Vec::new()
            },
            demonstration: if hints_available {
                copy_demonstrations(&lesson.content.demonstration)
            } else {
                Vec::new()
            },
            explanation_markdown: copy_optional(&lesson.content.explanation_markdown),
            summary: match &lesson.content.summary {
                Some(s) => Some(s.duplicate()),
                None => None,
            },
            tasks,
            review_questions: questions,
            hints_available,
        }
    }
}

#[derive(Debug, Clone, PartialEq, Eq)]
pub struct CheckResult {
    pub validation: TaskValidation,
    pub headline: String,
    pub category: Option<FailureCategory>,
    pub guidance: Option<String>,
    pub details: Vec<String>,
    pub partial: bool,
    pub authoring_error: bool,
    /// Set when this was the last outstanding task.
    pub lesson_complete: bool,
    pub mastery: Option<MasteryStatus>,
    /// Revealed only after a mistake task passes.
    pub diagnosis: Option<String>,
}

impl CheckResult {
    /// The result of one check, before the lesson's completion is known.
    pub fn new(validation: TaskValidation, feedback: Feedback) -> (r: CheckResult)
        ensures
            r.validation == validation,
            r.headline == feedback.headline,
            r.category == feedback.category,
            r.guidance == feedback.guidance,
            r.details == feedback.details,
            r.partial == feedback.partial,
            r.authoring_error == feedback.authoring_error,
            !r.lesson_complete,
            r.mastery is None,
            r.diagnosis is None,
    {
        CheckResult {
            validation,
            headline: feedback.headline,
            category: feedback.category,
            guidance: feedback.guidance,
            details: feedback.details,
            partial: feedback.partial,
            authoring_error: feedback.authoring_error,
            lesson_complete: false,
            mastery: None,
            diagnosis: None,
        }
    }
}

#[derive(Debug, Clone, PartialEq, Eq)]
pub struct ReviewGrade {
    pub correct: bool,
    pub explanation: Option<String>,
}


#[derive(Debug, Clone, PartialEq, Eq)]
pub struct LessonSummaryView {
    pub id: String,
    pub title: String,
    pub lesson_type: LessonType,
    pub estimated_difficulty: u8,
    pub estimated_minutes: Option<u32>,
    pub commands: Vec<String>,
    pub status: Option<String>,
    pub mastery: Option<MasteryStatus>,
    pub unlocked: bool,
    pub missing_prerequisites: Vec<String>,
}

#[derive(Debug, Clone, PartialEq, Eq)]
pub struct ModuleView {
    pub id: String,
    pub number: u32,
    pub title: String,
    pub level: LessonLevel,
    pub summary: String,
    pub outcomes: Vec<String>,
    pub pack: String,
    pub lessons: Vec<LessonSummaryView>,
    pub completed_lessons: usize,
}

/// The first progress record for the lesson.
pub open spec fn record_for(ps: Seq<LessonProgress>, id: Seq<char>) -> Option<LessonProgress>
    decreases ps.len(),
{
    if ps.len() == 0 {
        None
    } else {
        match record_for(ps.drop_last(), id) {
            Some(r) => Some(r),
            None => if ps.last().lesson_id@ == id {
                Some(ps.last())
            } else {
                None
            },
        }
    }
}

proof fn lemma_record_prefix(ps: Seq<LessonProgress>, id: Seq<char>, n: int)
    requires
        0 <= n <= ps.len(),
        record_for(ps.take(n), id) is Some,
    ensures
        record_for(ps, id) == record_for(ps.take(n), id),
    decreases ps.len() - n,
{
    if n < ps.len() {
        assert(ps.take(n + 1).drop_last() =~= ps.take(n));
        lemma_record_prefix(ps, id, n + 1);
    } else {
        assert(ps.take(n) =~= ps);
    }
}

fn record_exec<'a>(ps: &'a Vec<LessonProgress>, id: &str) -> (r: Option<&'a LessonProgress>)
    ensures
        match record_for(ps@, id@) {
            Some(x) => r == Some(&x),
            None => r is None,
        },
{
    let mut i: usize = 0;
    assert(ps@.take(0) =~= Seq::<LessonProgress>::empty());
    while i < ps.len()
        invariant
            i <= ps@.len(),
            record_for(ps@.take(i as int), id@) is None,
        decreases ps.len() - i,
    {
        assert(ps@.take(i + 1).drop_last() =~= ps@.take(i as int));
        assert(ps@.take(i + 1).last() == ps@[i as int]);
        if same_text(ps[i].lesson_id.as_str(), id) {
            proof {
                lemma_record_prefix(ps@, id@, i + 1);
            }
            return Some(&ps[i]);
        }
        i += 1;
    }
    assert(ps@.take(ps@.len() as int) =~= ps@);
    None
}

/// `l` as it appears in a module's list, with its recorded progress and availability.
pub open spec fn summarises(
    v: LessonSummaryView,
    l: Lesson,
    progress: Seq<LessonProgress>,
    catalog: Catalog,
    mode: ProgressionMode,
    index: Map<Seq<char>, LessonState>,
) -> bool {
    &&& v.id == l.id
    &&& v.title == l.title
    &&& v.lesson_type == l.lesson_type
    &&& v.estimated_difficulty == l.estimated_difficulty
    &&& v.estimated_minutes == l.estimated_minutes
    &&& v.commands@ == l.commands@
    &&& match record_for(progress, l.id@) {
        Some(rec) => v.status matches Some(t) && t@ == status_text(rec.status) && v.mastery == rec.mastery,
        None => v.status is None && v.mastery is None,
    }
    &&& strings_view(v.missing_prerequisites@) == missing_prerequisites(catalog, l.id@, index)
    &&& v.unlocked == unlocked_in(mode, missing_prerequisites(catalog, l.id@, index))
}

/// Whether a summary counts towards the module's completed lessons.
pub open spec fn counts_complete(v: LessonSummaryView) -> bool {
    v.status matches Some(t) && (t@ == "passed"@ || t@ == "needs-review"@)
}

/// The module list of the Home screen: each module in teaching order with the lessons of its
/// list that the catalogue holds, and how many of them are passed or need review.
pub fn module_views(
    catalog: &Catalog,
    progress: &Vec<LessonProgress>,
    progression: &Progression,
    index: &ProgressIndex,
) -> (r: Vec<ModuleView>)
    requires
        progression.catalog() == *catalog,
    ensures
        r@.len() == catalog.module_list().len(),
        forall|i: int|
            0 <= i < r@.len() ==> {
                let m = last_module(catalog.module_list(), catalog.module_list()[i].id@).unwrap();
                let ls = lessons_of(catalog.lesson_list(), strings_view(m.lessons@));
                &&& (#[trigger] r@[i]).id == m.id
                &&& r@[i].number == m.number
                &&& r@[i].title == m.title
                &&& r@[i].pack == m.pack
                &&& r@[i].outcomes@ == m.outcomes@
                &&& r@[i].lessons@.len() == ls.len()
                &&& forall|j: int|
                    0 <= j < ls.len() ==> summarises(
                        #[trigger] r@[i].lessons@[j],
                        ls[j],
                        progress@,
                        *catalog,
                        progression.mode(),
                        index@,
                    )
                &&& r@[i].completed_lessons == r@[i].lessons@.filter(|v: LessonSummaryView| counts_complete(v)).len()
            },
{
    let modules = catalog.modules();
    let mut out: Vec<ModuleView> = Vec::new();
    let mut n: usize = 0;
    while n < modules.len()
        invariant
            n <= modules@.len(),
            modules@.len() == catalog.module_list().len(),
            progression.catalog() == *catalog,
            forall|i: int|
                0 <= i < modules@.len() ==> last_module(catalog.module_list(), catalog.module_list()[i].id@)
                    == Some(*#[trigger] modules@[i]),
            out@.len() == n,
            forall|i: int|
                0 <= i < n ==> {
                    let m = last_module(catalog.module_list(), catalog.module_list()[i].id@).unwrap();
                    let ls = lessons_of(catalog.lesson_list(), strings_view(m.lessons@));
                    &&& (#[trigger] out@[i]).id == m.id
                    &&& out@[i].number == m.number
                    &&& out@[i].title == m.title
                    &&& out@[i].pack == m.pack
                    &&& out@[i].outcomes@ == m.outcomes@
                    &&& out@[i].lessons@.len() == ls.len()
                    &&& forall|j: int|
                        0 <= j < ls.len() ==> summarises(
                            #[trigger] out@[i].lessons@[j],
                            ls[j],
                            progress@,
                            *catalog,
                            progression.mode(),
                            index@,
                        )
                    &&& out@[i].completed_lessons == out@[i].lessons@.filter(|v: LessonSummaryView| counts_complete(v)).len()
                },
        decreases modules.len() - n,
    {
        let module = modules[n];
        let ghost ids = strings_view(module.lessons@);
        let ghost f = |id: Seq<char>| match crate::catalog::index_of(catalog.lesson_list(), id) {
            Some(i) => Some(catalog.lesson_list()[i]),
            None => None,
        };
        let ghost ls = lessons_of(catalog.lesson_list(), ids);
        let ghost keep = |v: LessonSummaryView| counts_complete(v);
        let mut views: Vec<LessonSummaryView> = Vec::new();
        let ghost mut found: Seq<Lesson> = Seq::empty();
        let mut completed: usize = 0;
        let mut j: usize = 0;
        while j < module.lessons.len()
            invariant
                j <= module.lessons@.len(),
                ids == strings_view(module.lessons@),
                progression.catalog() == *catalog,
                f == (|id: Seq<char>| match crate::catalog::index_of(catalog.lesson_list(), id) {
                    Some(i) => Some(catalog.lesson_list()[i]),
                    None => None,
                }),
                found == filter_map_spec(ids.take(j as int), f),
                views@.len() == found.len(),
                forall|q: int|
                    0 <= q < found.len() ==> summarises(
                        #[trigger] views@[q],
                        found[q],
                        progress@,
                        *catalog,
                        progression.mode(),
                        index@,
                    ),
                keep == (|v: LessonSummaryView| counts_complete(v)),
                completed == views@.filter(keep).len(),
                completed <= views@.len(),
            decreases module.lessons.len() - j,
        {
            proof {
                lemma_filter_map_step(ids, f, j as int);
            }
            match catalog.lesson(module.lessons[j].as_str()) {
                Some(lesson) => {
                    let record = record_exec(progress, lesson.id.as_str());
                    let availability = progression.availability(lesson.id.as_str(), index);
                    let (status, mastery) = match record {
                        Some(rec) => (Some(owned(status_str(rec.status))), rec.mastery),
                        None => (None, None),
                    };
                    let view = LessonSummaryView {
                        id: lesson.id.clone(),
                        title: lesson.title.clone(),
                        lesson_type: lesson.lesson_type,
                        estimated_difficulty: lesson.estimated_difficulty,
                        estimated_minutes: lesson.estimated_minutes,
                        commands: copy_strings(&lesson.commands),
                        status,
                        mastery,
                        unlocked: availability.unlocked,
                        missing_prerequisites: availability.missing_prerequisites,
                    };
                    let complete = match &view.status {
                        Some(t) => same_text(t.as_str(), "passed") || same_text(t.as_str(), "needs-review"),
                        None => false,
                    };
                    let ghost before = views@;
                    views.push(view);
                    proof {
                        assert(views@.drop_last() =~= before);
                        reveal(Seq::filter);
                        found = found.push(*lesson);
                        assert(found =~= filter_map_spec(ids.take(j + 1), f));
                    }
                    let count = views.len();
                    if complete {
                        assert(completed < count);
                        completed = completed + 1;
                    }
                },
                None => {},
            }
            j += 1;
        }
        assert(ids.take(ids.len() as int) =~= ids);
        let ghost before = out@;
        out.push(
            ModuleView {
                id: module.id.clone(),
                number: module.number,
                title: module.title.clone(),
                level: module.level,
                summary: module.summary.clone(),
                outcomes: copy_strings(&module.outcomes),
                pack: module.pack.clone(),
                lessons: views,
                completed_lessons: completed,
            },
        );
        proof {
            assert forall|i: int| 0 <= i < n + 1 implies (#[trigger] out@[i]).id == out@[i].id by {}
            assert(out@[n as int].lessons@.len() == ls.len());
        }
        n += 1;
    }
    out
}


/// What the Home screen opens with.
#[derive(Debug, Clone, PartialEq, Eq)]
pub struct Bootstrap {
    pub app_version: String,
    pub runtime_version: String,
    pub profile_id: i64,
    pub mode: ProgressionMode,
    pub modules: Vec<ModuleView>,
    pub core_lesson_count: usize,
    pub completed_core_lessons: usize,
    pub mastery_percent: u8,
    pub next_lesson_id: Option<String>,
    pub review_lesson_ids: Vec<String>,
    pub recent_commands: Vec<String>,
    pub vm: VmStatus,
    pub acceleration: String,
    pub health: HealthReport,
    pub catalog_warnings: Vec<String>,
}

/// The learner's records as the progression rules read them: a later record for a lesson
/// replaces an earlier one.
pub open spec fn index_of_records(ps: Seq<LessonProgress>) -> Map<Seq<char>, LessonState>
    decreases ps.len(),
{
    if ps.len() == 0 {
        Map::empty()
    } else {
        index_of_records(ps.drop_last()).insert(
            ps.last().lesson_id@,
            LessonState { status: ps.last().status, mastery: ps.last().mastery },
        )
    }
}

/// Indexes the learner's lesson records by lesson.
pub fn progress_index(records: &Vec<LessonProgress>) -> (r: ProgressIndex)
    ensures
        r@ == index_of_records(records@),
{
    let mut index = ProgressIndex::new();
    let mut i: usize = 0;
    while i < records.len()
        invariant
            i <= records@.len(),
            index@ == index_of_records(records@.take(i as int)),
        decreases records.len() - i,
    {
        assert(records@.take(i + 1).drop_last() =~= records@.take(i as int));
        let r = &records[i];
        index.insert(r.lesson_id.clone(), LessonState { status: r.status, mastery: r.mastery });
        i += 1;
    }
    assert(records@.take(records@.len() as int) =~= records@);
    index
}

impl Bootstrap {
    /// Everything the Home screen shows, from the catalogue, the learner's records and the
    /// state of the machine.
    pub fn assemble(
        app_version: &str,
        runtime_version: &str,
        profile_id: i64,
        mode: ProgressionMode,
        catalog: &Catalog,
        records: &Vec<LessonProgress>,
        recent_commands: Vec<String>,
        vm: VmStatus,
        acceleration: String,
        health: HealthReport,
    ) -> (r: Bootstrap)
        ensures
            r.app_version@ == app_version@,
            r.runtime_version@ == runtime_version@,
            r.profile_id == profile_id,
            r.mode == mode,
            r.modules@.len() == catalog.module_list().len(),
            r.core_lesson_count == catalog.core_ids().len(),
            r.completed_core_lessons == catalog.core_ids().filter(
                |id: Seq<char>| crate::progression::passed_in(index_of_records(records@), id),
            ).len(),
            r.mastery_percent == crate::progression::average_score(
                crate::progression::scores_of(catalog.core_ids(), index_of_records(records@)),
            ),
            match crate::progression::first_unpassed(catalog.core_ids(), index_of_records(records@)) {
                Some(i) => r.next_lesson_id matches Some(s) && s@ == catalog.core_ids()[i],
                None => r.next_lesson_id is None,
            },
            strings_view(r.review_lesson_ids@) == (if crate::progression::weakest_first(
                catalog.core_ids(),
                index_of_records(records@),
            ).len() <= 5 {
                crate::progression::weakest_first(catalog.core_ids(), index_of_records(records@))
            } else {
                crate::progression::weakest_first(catalog.core_ids(), index_of_records(records@)).take(5)
            }),
            r.recent_commands == recent_commands,
            r.vm == vm,
            r.acceleration == acceleration,
            r.health == health,
            strings_view(r.catalog_warnings@) == catalog.warning_list(),
    {
        let index = progress_index(records);
        let progression = Progression::new(catalog, mode);
        let modules = module_views(catalog, records, &progression, &index);
        let next = match progression.next_lesson(&index) {
            Some(id) => Some(owned(id)),
            None => None,
        };
        let review = progression.review_recommendations(&index, 5);
        let mut review_ids: Vec<String> = Vec::new();
        let mut i: usize = 0;
        while i < review.len()
            invariant
                i <= review@.len(),
                strings_view(review_ids@) == review@.map_values(|s: &str| s@).take(i as int),
            decreases review.len() - i,
        {
            let ghost before = strings_view(review_ids@);
            let id = owned(review[i]);
            assert(id@ == review@.map_values(|s: &str| s@)[i as int]);
            review_ids.push(id);
            assert(strings_view(review_ids@) =~= before.push(id@));
            i += 1;
            assert(strings_view(review_ids@) =~= review@.map_values(|s: &str| s@).take(i as int));
        }
        assert(review@.map_values(|s: &str| s@).take(review@.len() as int) =~= review@.map_values(|s: &str| s@));
        Bootstrap {
            app_version: owned(app_version),
            runtime_version: owned(runtime_version),
            profile_id,
            mode,
            modules,
            core_lesson_count: catalog.core_lesson_count(),
            completed_core_lessons: progression.completed_core_lessons(&index),
            mastery_percent: progression.mastery_percent(&index),
            next_lesson_id: next,
            review_lesson_ids: review_ids,
            recent_commands,
            vm,
            acceleration,
            health,
            catalog_warnings: copy_strings(catalog.warnings()),
        }
    }
}

} // verus!
